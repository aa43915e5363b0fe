//! Ethereum values as the app handles them: 256-bit integers, 20-byte
//! addresses and private keys, with the parsing of what the user types and
//! the formatting of what is shown.

use vstd::prelude::*;
use std::str::FromStr;
use crate::text::{
    trim, trimmed, decimal, is_dec_digit, dec_digit_value, all_dec_digits, digits_value,
};

verus! {

/// 2^64.
pub open spec fn two64() -> nat {
    0x1_0000_0000_0000_0000
}

/// 2^128.
pub open spec fn two128() -> nat {
    0x1_0000_0000_0000_0000_0000_0000_0000_0000nat
}

/// 2^256, the bound of a 256-bit unsigned integer.
pub open spec fn two256() -> nat {
    0x1_0000_0000_0000_0000_0000_0000_0000_0000_0000_0000_0000_0000_0000_0000_0000_0000nat
}

/// The number that four little-endian 64-bit limbs denote.
pub open spec fn limbs_value(l: Seq<u64>) -> nat {
    l[0] as nat + l[1] as nat * two64() + l[2] as nat * two128() + l[3] as nat * (two128()
        * two64())
}

/// A 256-bit unsigned integer (the contract's `uint256`), as four
/// little-endian 64-bit limbs.
#[derive(Clone, Copy, Debug)]
pub struct Uint256 {
    pub limbs: [u64; 4],
}

impl Uint256 {
    /// The number that the integer denotes.
    pub open spec fn value(&self) -> nat {
        limbs_value(self.limbs@)
    }
}

impl View for Uint256 {
    type V = nat;

    open spec fn view(&self) -> nat {
        self.value()
    }
}

/// A 20-byte Ethereum account or contract address.
#[derive(Clone, Copy, Debug)]
pub struct EvmAddress {
    pub bytes: [u8; 20],
}

impl View for EvmAddress {
    type V = Seq<u8>;

    open spec fn view(&self) -> Seq<u8> {
        self.bytes@
    }
}

/// The value of a hexadecimal digit of either case, or -1 for any other character.
pub open spec fn hex_digit_value(c: char) -> int {
    if '0' <= c && c <= '9' {
        c as int - 48
    } else if 'a' <= c && c <= 'f' {
        c as int - 87
    } else if 'A' <= c && c <= 'F' {
        c as int - 55
    } else {
        -1
    }
}

/// `s` without a leading `0x` or `0X`.
pub open spec fn without_hex_prefix(s: Seq<char>) -> Seq<char> {
    if s.len() >= 2 && s[0] == '0' && (s[1] == 'x' || s[1] == 'X') {
        s.skip(2)
    } else {
        s
    }
}

/// The `n` bytes that exactly `2 * n` hexadecimal digits `h` encode.
pub open spec fn hex_decode(h: Seq<char>, n: nat) -> Option<Seq<u8>> {
    if h.len() == 2 * n && forall|i: int| 0 <= i < h.len() ==> hex_digit_value(#[trigger] h[i]) >= 0 {
        Some(
            Seq::new(
                n,
                |i: int| (hex_digit_value(h[2 * i]) * 16 + hex_digit_value(h[2 * i + 1])) as u8,
            ),
        )
    } else {
        None
    }
}

/// The `n` bytes that `s` encodes in hexadecimal, with an optional `0x`
/// prefix (the decoding of fixed-size byte strings in `alloy`).
pub open spec fn fixed_hex(s: Seq<char>, n: nat) -> Option<Seq<u8>> {
    hex_decode(without_hex_prefix(s), n)
}

/// Whether `t` is `0x` followed by the hexadecimal digits of `bytes`, each
/// digit in either case.
pub open spec fn is_prefixed_hex_of(t: Seq<char>, bytes: Seq<u8>) -> bool {
    &&& t.len() == 2 + 2 * bytes.len()
    &&& t[0] == '0'
    &&& t[1] == 'x'
    &&& forall|i: int|
        0 <= i < bytes.len() ==> hex_digit_value(#[trigger] t[2 + 2 * i]) == bytes[i] / 16
            && hex_digit_value(t[3 + 2 * i]) == bytes[i] % 16
}

/// The lowercase hexadecimal digit of `d`.
pub open spec fn lower_hex_char(d: nat) -> char {
    if d < 10 {
        ((d + 48) as u8) as char
    } else {
        ((d + 87) as u8) as char
    }
}

/// The lowercase hexadecimal text of `bytes`, two digits per byte.
pub open spec fn lower_hex(bytes: Seq<u8>) -> Seq<char>
    decreases bytes.len(),
{
    if bytes.len() == 0 {
        seq![]
    } else {
        lower_hex(bytes.drop_last()) + seq![
            lower_hex_char((bytes.last() / 16) as nat),
            lower_hex_char((bytes.last() % 16) as nat),
        ]
    }
}

/// Decodes a 20-byte address from hexadecimal text
/// (`alloy::primitives::Address::from_str`): the text is 40 hexadecimal
/// digits of either case, optionally after `0x` or `0X`; the checksum is not
/// checked.
#[verifier::external_body]
fn address_from_str(s: &str) -> (r: Option<[u8; 20]>)
    ensures
        r matches Some(b) ==> fixed_hex(s@, 20) == Some(b@),
        r is None ==> fixed_hex(s@, 20) is None,
{
    match alloy::primitives::Address::from_str(s) {
        Ok(a) => Some(a.into_array()),
        Err(_) => None,
    }
}

/// Parses the address that the user typed, ignoring surrounding whitespace.
pub fn parse_address(s: &str) -> (r: Result<EvmAddress, String>)
    ensures
        match fixed_hex(trimmed(s@), 20) {
            Some(b) => r matches Ok(a) && a.bytes@ == b,
            None => r matches Err(e) && e@ == "Invalid address"@,
        },
{
    match address_from_str(trim(s)) {
        Some(bytes) => Ok(EvmAddress { bytes }),
        None => Err("Invalid address".to_owned()),
    }
}

/// The value of a digit as `ruint` reads it: `0-9`, then letters of either
/// case from 10 on; -1 for any other character.
pub open spec fn radix_digit_value(c: char) -> int {
    if '0' <= c && c <= '9' {
        c as int - 48
    } else if 'a' <= c && c <= 'z' {
        c as int - 87
    } else if 'A' <= c && c <= 'Z' {
        c as int - 55
    } else {
        -1
    }
}

/// The number that the digits `s` denote in base `radix`, underscores
/// skipped; `None` when a character is neither `_` nor a digit below `radix`.
pub open spec fn radix_digits_value(s: Seq<char>, radix: nat) -> Option<nat>
    decreases s.len(),
{
    if s.len() == 0 {
        Some(0)
    } else {
        match radix_digits_value(s.drop_last(), radix) {
            None => None,
            Some(v) => if s.last() == '_' {
                Some(v)
            } else if 0 <= radix_digit_value(s.last()) < radix {
                Some(v * radix + radix_digit_value(s.last()) as nat)
            } else {
                None
            },
        }
    }
}

/// The digits of a 256-bit integer's text and their base: `0x`/`0X` gives
/// base 16, `0o`/`0O` base 8, `0b`/`0B` base 2, anything else base 10.
pub open spec fn radix_split(s: Seq<char>) -> (Seq<char>, nat) {
    if s.len() >= 2 && s[0] == '0' && (s[1] == 'x' || s[1] == 'X') {
        (s.skip(2), 16)
    } else if s.len() >= 2 && s[0] == '0' && (s[1] == 'o' || s[1] == 'O') {
        (s.skip(2), 8)
    } else if s.len() >= 2 && s[0] == '0' && (s[1] == 'b' || s[1] == 'B') {
        (s.skip(2), 2)
    } else {
        (s, 10)
    }
}

/// The number that the text `s` of a 256-bit unsigned integer denotes, when
/// it is below 2^256 (`U256::from_str`).
pub open spec fn u256_text_value(s: Seq<char>) -> Option<nat> {
    let (body, radix) = radix_split(s);
    match radix_digits_value(body, radix) {
        Some(v) => if v < two256() {
            Some(v)
        } else {
            None
        },
        None => None,
    }
}

/// Parses a 256-bit unsigned integer (`alloy::primitives::U256::from_str`):
/// the digits in base 10, or after `0x`, `0o` or `0b` in base 16, 8 or 2,
/// underscores skipped; no digits at all denote 0; a value of 2^256 or more
/// is refused.
#[verifier::external_body]
fn u256_from_str(s: &str) -> (r: Option<[u64; 4]>)
    ensures
        r matches Some(l) ==> u256_text_value(s@) == Some(limbs_value(l@)),
        r is None ==> u256_text_value(s@) is None,
{
    match alloy::primitives::U256::from_str(s) {
        Ok(v) => Some(v.into_limbs()),
        Err(_) => None,
    }
}

/// Parses the unsigned integer that the user typed, ignoring surrounding whitespace.
pub fn parse_u256(s: &str) -> (r: Result<Uint256, String>)
    ensures
        match u256_text_value(trimmed(s@)) {
            Some(v) => r matches Ok(n) && n.value() == v,
            None => r matches Err(e) && e@ == "Invalid number"@,
        },
{
    match u256_from_str(trim(s)) {
        Some(limbs) => Ok(Uint256 { limbs }),
        None => Err("Invalid number".to_owned()),
    }
}

/// The decimal text of a 256-bit integer (`U256`'s `Display`).
#[verifier::external_body]
fn u256_decimal_text(limbs: [u64; 4]) -> (r: String)
    ensures
        r@ == decimal(limbs_value(limbs@)),
{
    alloy::primitives::U256::from_limbs(limbs).to_string()
}

/// The decimal text of a 256-bit integer.
pub fn format_u256(n: &Uint256) -> (r: String)
    ensures
        r@ == decimal(n.value()),
{
    u256_decimal_text(n.limbs)
}

/// Law: the digits of a number denote it in base 10.
pub proof fn lemma_radix_digits_of_decimal(n: nat)
    ensures
        radix_digits_value(decimal(n), 10) == Some(n),
    decreases n,
{
    crate::text::lemma_decimal_digits(n);
    let s = decimal(n);
    if n < 10 {
        assert(s.drop_last() =~= Seq::<char>::empty());
        assert(radix_digits_value(s.drop_last(), 10) == Some(0nat));
    } else {
        lemma_radix_digits_of_decimal(n / 10);
        crate::text::lemma_decimal_digits(n / 10);
        assert(s.drop_last() =~= decimal(n / 10));
    }
    assert(is_dec_digit(s.last()));
    assert(radix_digit_value(s.last()) == dec_digit_value(s.last()));
}

/// Law: the decimal text of any number below 2^256 reads back as that number.
pub proof fn lemma_u256_text_of_decimal(n: nat)
    requires
        n < two256(),
    ensures
        u256_text_value(decimal(n)) == Some(n),
{
    crate::text::lemma_decimal_digits(n);
    lemma_radix_digits_of_decimal(n);
    let s = decimal(n);
    if s.len() >= 2 && s[0] == '0' {
        if n >= 10 {
            assert(s[0] != '0');
        } else {
            assert(s.len() == 1);
        }
    }
    assert(radix_split(s) == (s, 10nat));
}

/// The number of bytes that `c` takes in UTF-8.
pub open spec fn utf8_width(c: char) -> nat {
    if (c as u32) < 0x80 {
        1
    } else if (c as u32) < 0x800 {
        2
    } else if (c as u32) < 0x10000 {
        3
    } else {
        4
    }
}

/// The number of bytes that `s` takes in UTF-8.
pub open spec fn utf8_size(s: Seq<char>) -> nat
    decreases s.len(),
{
    if s.len() == 0 {
        0
    } else {
        utf8_size(s.drop_last()) + utf8_width(s.last())
    }
}

/// Whether `parse_ether` panics on `s`: it keeps at most 18 bytes after the
/// first `.` and cuts the text there, which panics when that cut falls inside
/// a character.
pub open spec fn ether_text_panics(s: Seq<char>) -> bool {
    exists|d: int|
        0 <= d < s.len() && s[d] == '.' && (forall|k: int| 0 <= k < d ==> s[k] != '.') && ({
            let t = s.skip(d + 1);
            exists|k: int|
                0 <= k < t.len() && #[trigger] utf8_size(t.take(k)) < 18 < utf8_size(t.take(k + 1))
        })
}

proof fn lemma_utf8_size_step(t: Seq<char>, j: int)
    requires
        0 <= j < t.len(),
    ensures
        utf8_size(t.take(j + 1)) == utf8_size(t.take(j)) + utf8_width(t[j]),
{
    assert(t.take(j + 1).drop_last() =~= t.take(j));
}

proof fn lemma_utf8_size_monotonic(t: Seq<char>, j: int, k: int)
    requires
        0 <= j <= k <= t.len(),
    ensures
        utf8_size(t.take(j)) <= utf8_size(t.take(k)),
    decreases k - j,
{
    if j < k {
        lemma_utf8_size_step(t, k - 1);
        lemma_utf8_size_monotonic(t, j, k - 1);
    }
}

fn utf8_width_of(c: char) -> (r: usize)
    ensures
        r == utf8_width(c),
{
    let u = c as u32;
    if u < 0x80 {
        1
    } else if u < 0x800 {
        2
    } else if u < 0x10000 {
        3
    } else {
        4
    }
}

/// Whether `parse_ether` would panic on `s` (see [`ether_text_panics`]).
pub fn ether_text_would_panic(s: &str) -> (r: bool)
    ensures
        r == ether_text_panics(s@),
{
    let n = s.unicode_len();
    let mut d: usize = 0;
    while d < n && s.get_char(d) != '.'
        invariant
            n == s@.len(),
            d <= n,
            forall|k: int| 0 <= k < d ==> s@[k] != '.',
        decreases n - d,
    {
        d = d + 1;
    }
    if d == n {
        return false;
    }
    let ghost t = s@.skip(d + 1);
    let mut i: usize = d + 1;
    let mut acc: usize = 0;
    assert(t.take(0) =~= Seq::<char>::empty());
    while i < n
        invariant
            n == s@.len(),
            d < n,
            s@[d as int] == '.',
            forall|k: int| 0 <= k < d ==> s@[k] != '.',
            t == s@.skip(d + 1),
            d + 1 <= i <= n,
            acc == utf8_size(t.take(i - d - 1)),
            acc < 18,
            forall|k: int| 0 <= k < i - d - 1 ==> !(#[trigger] utf8_size(t.take(k)) < 18 < utf8_size(t.take(k + 1))),
        decreases n - i,
    {
        let c = s.get_char(i);
        let w = utf8_width_of(c);
        let ghost j: int = i - d - 1;
        proof {
            assert(t[j] == c);
            lemma_utf8_size_step(t, j);
        }
        if acc + w > 18 {
            assert(utf8_size(t.take(j)) < 18 < utf8_size(t.take(j + 1)));
            return true;
        }
        acc = acc + w;
        i = i + 1;
        if acc == 18 {
            proof {
                assert forall|k: int| 0 <= k < t.len() implies !(#[trigger] utf8_size(t.take(k)) < 18
                    < utf8_size(t.take(k + 1))) by {
                    if k > j {
                        lemma_utf8_size_monotonic(t, j + 1, k);
                    }
                }
            }
            return false;
        }
    }
    proof {
        assert(t.len() == i - d - 1);
        assert forall|e: int|
            0 <= e < s@.len() && s@[e] == '.' && (forall|k: int| 0 <= k < e ==> s@[k] != '.')
            implies e == d by {
            if e < d {
                assert(s@[e] != '.');
            }
            if e > d {
                assert(s@[d as int] != '.');
            }
        }
    }
    false
}

/// 10 to the power `n`.
pub open spec fn pow10(n: nat) -> nat
    decreases n,
{
    if n == 0 {
        1
    } else {
        10 * pow10((n - 1) as nat)
    }
}

/// Whether `s` is digits, a `.` at `d`, then digits.
pub open spec fn is_dot_split(s: Seq<char>, d: int) -> bool {
    &&& 0 <= d < s.len()
    &&& s[d] == '.'
    &&& all_dec_digits(s.take(d))
    &&& all_dec_digits(s.skip(d + 1))
}

/// The wei that a plain amount of ether denotes: decimal digits, optionally
/// one `.` followed by at most 18 more digits, read as that many ether
/// exactly (the digits without the `.`, times 10^(18 - fraction digits)).
/// `None` for any other text.
pub open spec fn plain_ether_value(s: Seq<char>) -> Option<nat> {
    if all_dec_digits(s) {
        Some(digits_value(s) * pow10(18))
    } else if exists|d: int| #[trigger] is_dot_split(s, d) && s.len() - d - 1 <= 18 {
        let d = choose|d: int| #[trigger] is_dot_split(s, d) && s.len() - d - 1 <= 18;
        Some(digits_value(s.take(d) + s.skip(d + 1)) * pow10((18 - (s.len() - d - 1)) as nat))
    } else {
        None
    }
}

/// Whether `c` is an ASCII letter.
pub open spec fn is_ascii_letter(c: char) -> bool {
    ('a' <= c && c <= 'z') || ('A' <= c && c <= 'Z')
}

/// Whether `s` has an ASCII letter before its first `.` (anywhere, when it
/// has no `.`): in the whole-number part of an amount.
pub open spec fn letter_in_whole_part(s: Seq<char>) -> bool {
    exists|i: int|
        0 <= i < s.len() && is_ascii_letter(#[trigger] s[i]) && forall|j: int|
            0 <= j < i ==> s[j] != '.'
}

/// The amount of wei that the ether amount `s` denotes
/// (`alloy::primitives::utils::parse_ether`).
pub uninterp spec fn ether_text_wei(s: Seq<char>) -> Option<nat>;

/// Parses an amount of ether into wei (`alloy::primitives::utils::parse_ether`).
/// For a plain amount (digits, optionally a `.` and at most 18 more digits)
/// the value is stated: that many ether in wei, when it is below 2^256, and
/// no value otherwise. Text with an ASCII letter in its whole-number part
/// (before the first `.`) gives no value: that part always reaches the
/// base-10 digit parser, which refuses letters. For other text (a sign, more
/// fraction digits, which it cuts off, anything else) the result is only the
/// name `ether_text_wei` of the text. It is called only where it does not
/// panic.
#[verifier::external_body]
fn ether_from_str(s: &str) -> (r: Option<[u64; 4]>)
    requires
        !ether_text_panics(s@),
    ensures
        (r is Some) == (ether_text_wei(s@) is Some),
        r matches Some(l) ==> ether_text_wei(s@) == Some(limbs_value(l@)),
        plain_ether_value(s@) matches Some(v) ==> if v < two256() {
            r matches Some(l) && limbs_value(l@) == v
        } else {
            r is None
        },
        letter_in_whole_part(s@) ==> r is None,
{
    match alloy::primitives::utils::parse_ether(s) {
        Ok(v) => Some(v.into_limbs()),
        Err(_) => None,
    }
}

/// The amount, or the error that the app shows for an amount it could not read.
pub fn amount_or_error(parsed: Option<Uint256>) -> (r: Result<Uint256, String>)
    ensures
        match parsed {
            Some(v) => r == Ok::<Uint256, String>(v),
            None => r matches Err(e) && e@ == "Invalid amount"@,
        },
{
    match parsed {
        Some(v) => Ok(v),
        None => Err("Invalid amount".to_owned()),
    }
}

/// Parses the ether amount that the user typed into wei, ignoring
/// surrounding whitespace.
pub fn parse_ether_amount(s: &str) -> (r: Result<Uint256, String>)
    requires
        !ether_text_panics(trimmed(s@)),
    ensures
        match ether_text_wei(trimmed(s@)) {
            Some(v) => r matches Ok(n) && n.value() == v,
            None => r matches Err(e) && e@ == "Invalid amount"@,
        },
        plain_ether_value(trimmed(s@)) matches Some(v) ==> if v < two256() {
            r matches Ok(n) && n.value() == v
        } else {
            r matches Err(e) && e@ == "Invalid amount"@
        },
        letter_in_whole_part(trimmed(s@)) ==> (r matches Err(e) && e@ == "Invalid amount"@),
{
    let parsed = match ether_from_str(trim(s)) {
        Some(limbs) => Some(Uint256 { limbs }),
        None => None,
    };
    amount_or_error(parsed)
}

/// 10^(m + n) is 10^m times 10^n.
proof fn lemma_pow10_add(m: nat, n: nat)
    ensures
        pow10(m + n) == pow10(m) * pow10(n),
    decreases m,
{
    if m > 0 {
        lemma_pow10_add((m - 1) as nat, n);
        assert(pow10(m + n) == 10 * pow10((m - 1 + n) as nat));
        let x = pow10((m - 1) as nat) as int;
        let y = pow10(n) as int;
        assert(pow10(m) == 10 * x);
        assert(10 * (x * y) == (10 * x) * y) by (nonlinear_arith);
        assert(pow10(m + n) == pow10(m) * pow10(n));
    } else {
        assert(pow10(m) == 1);
        assert(pow10(m + n) == pow10(n));
    }
}

/// The digits `a` then `b` denote the number of `a` shifted left by the
/// length of `b`, plus the number of `b`.
proof fn lemma_digits_value_concat(a: Seq<char>, b: Seq<char>)
    ensures
        digits_value(a + b) == digits_value(a) * pow10(b.len()) + digits_value(b),
    decreases b.len(),
{
    if b.len() == 0 {
        assert(a + b =~= a);
        assert(pow10(b.len()) == 1);
        assert(digits_value(b) == 0);
        assert(digits_value(a) * 1 == digits_value(a));
    } else {
        let b1 = b.drop_last();
        lemma_digits_value_concat(a, b1);
        assert((a + b).drop_last() =~= a + b1);
        assert((a + b).last() == b.last());
        assert(digits_value(a + b) == digits_value(a + b1) * 10 + dec_digit_value(b.last()));
        assert(digits_value(b) == digits_value(b1) * 10 + dec_digit_value(b.last()));
        let va = digits_value(a) as int;
        let p = pow10(b1.len()) as int;
        let v1 = digits_value(b1) as int;
        assert(b1.len() == (b.len() - 1) as nat);
        assert(pow10(b.len()) == 10 * p);
        assert(digits_value(a + b1) == va * p + v1);
        assert((va * p + v1) * 10 == va * (10 * p) + v1 * 10) by (nonlinear_arith);
        assert(digits_value(a + b) == (va * p + v1) * 10 + dec_digit_value(b.last()));
        assert(va * (10 * p) == digits_value(a) * pow10(b.len()));
    }
}

/// Law: a plain amount of ether is read exactly, with no rounding: `a`
/// whole ether are a·10^18 wei, and `a.b` with at most 18 fraction digits
/// is a·10^18 + b·10^(18 - len b) wei.
pub proof fn lemma_plain_ether_exact(a: Seq<char>, b: Seq<char>)
    requires
        all_dec_digits(a),
        all_dec_digits(b),
        b.len() <= 18,
    ensures
        plain_ether_value(a) == Some(digits_value(a) * pow10(18)),
        plain_ether_value(a + seq!['.'] + b) == Some(
            digits_value(a) * pow10(18) + digits_value(b) * pow10((18 - b.len()) as nat),
        ),
{
    let s = a + seq!['.'] + b;
    let n = a.len() as int;
    assert(s[n] == '.');
    assert(!is_dec_digit(s[n]));
    assert(s.take(n) =~= a);
    assert(s.skip(n + 1) =~= b);
    assert(is_dot_split(s, n));
    let d = choose|d: int| #[trigger] is_dot_split(s, d) && s.len() - d - 1 <= 18;
    if d < n {
        assert(s[d] == a[d]);
    }
    if d > n {
        assert(s.take(d)[n] == '.');
    }
    assert(d == n);
    let e = (18 - b.len()) as nat;
    lemma_digits_value_concat(a, b);
    lemma_pow10_add(b.len(), e);
    assert(b.len() + e == 18);
    let va = digits_value(a) as int;
    let vb = digits_value(b) as int;
    let pb = pow10(b.len()) as int;
    let pe = pow10(e) as int;
    assert((va * pb + vb) * pe == va * (pb * pe) + vb * pe) by (nonlinear_arith);
}

/// The number that the bytes `b` denote, most significant first.
pub open spec fn be_value(b: Seq<u8>) -> nat
    decreases b.len(),
{
    if b.len() == 0 {
        0
    } else {
        be_value(b.drop_last()) * 256 + b.last() as nat
    }
}

/// The order of the secp256k1 group.
pub open spec fn secp256k1_order() -> nat {
    (two256() - 0x1_4551_2319_50B7_5FC4_402D_A173_2FC9_BEBFnat) as nat
}

/// The secret scalar of the private key text `s`: 64 hexadecimal digits,
/// optionally after `0x`, denoting a number in `1..n` for the secp256k1
/// order `n`.
pub open spec fn private_key_scalar(s: Seq<char>) -> Option<nat> {
    match fixed_hex(s, 32) {
        Some(b) => if 0 < be_value(b) && be_value(b) < secp256k1_order() {
            Some(be_value(b))
        } else {
            None
        },
        None => None,
    }
}

/// The Ethereum address of the secp256k1 key with the given secret scalar.
pub uninterp spec fn secp256k1_address(scalar: nat) -> Seq<u8>;

/// The address of the signer that a private key text gives
/// (`PrivateKeySigner::from_str`, then its `address`). Which texts are keys
/// is stated; the address itself is the name `secp256k1_address` of the
/// secret scalar, not computed here.
#[verifier::external_body]
fn key_address(s: &str) -> (r: Option<[u8; 20]>)
    ensures
        (r is Some) == (private_key_scalar(s@) is Some),
        r matches Some(a) ==> a@ == secp256k1_address(private_key_scalar(s@).unwrap()),
{
    match alloy::signers::local::PrivateKeySigner::from_str(s) {
        Ok(k) => Some(k.address().into_array()),
        Err(_) => None,
    }
}

/// The EIP-55 checksummed text of an address.
pub uninterp spec fn eip55_text(address: Seq<u8>) -> Seq<char>;

/// The display text of an address (`Address`'s `Display`): `0x` and the 40
/// hexadecimal digits of its bytes, the case of each letter set by the EIP-55
/// checksum. Which letters are capitals is not stated (the name `eip55_text`).
#[verifier::external_body]
fn address_text(bytes: [u8; 20]) -> (r: String)
    ensures
        r@ == eip55_text(bytes@),
        is_prefixed_hex_of(r@, bytes@),
{
    alloy::primitives::Address::from(bytes).to_string()
}

/// Whether the private key text is one that a signer accepts.
pub fn is_valid_private_key(s: &str) -> (r: bool)
    ensures
        r == (private_key_scalar(s@) is Some),
{
    key_address(s).is_some()
}

/// The display text of the account that a private key controls, or `None`
/// when the text is no private key.
pub fn account_address_text(private_key: &str) -> (r: Option<String>)
    ensures
        match private_key_scalar(private_key@) {
            Some(k) => {
                &&& secp256k1_address(k).len() == 20
                &&& r matches Some(t) && t@ == eip55_text(secp256k1_address(k))
                    && is_prefixed_hex_of(t@, secp256k1_address(k))
                &&& r matches Some(t) && t@.len() == 42
            },
            None => r is None,
        },
{
    match key_address(private_key) {
        Some(bytes) => Some(address_text(bytes)),
        None => None,
    }
}

/// The display text of an address.
pub fn format_address(a: &EvmAddress) -> (r: String)
    ensures
        r@ == eip55_text(a.bytes@),
        is_prefixed_hex_of(r@, a.bytes@),
{
    address_text(a.bytes)
}

proof fn lemma_not_white_space_hex(c: char)
    requires
        hex_digit_value(c) >= 0,
    ensures
        !crate::text::is_white_space(c),
{
}

/// Law: the text of an address that starts with `0x` and holds the hex
/// digits of its bytes in either case (as the display text of an address
/// does) parses back to the same bytes.
pub proof fn lemma_address_text_parses_back(t: Seq<char>, b: Seq<u8>)
    requires
        b.len() == 20,
        is_prefixed_hex_of(t, b),
    ensures
        fixed_hex(trimmed(t), 20) == Some(b),
{
    assert(crate::text::trim_start(t) == t);
    let k: int = 19;
    assert(hex_digit_value(t[2 + 2 * k]) == b[k] / 16);
    assert(hex_digit_value(t[3 + 2 * k]) == b[k] % 16);
    assert(t.last() == t[3 + 2 * k]);
    lemma_not_white_space_hex(t.last());
    assert(crate::text::trim_end(t) == t);
    assert(trimmed(t) == t);
    let h = t.skip(2);
    assert(without_hex_prefix(t) == h);
    assert forall|i: int| 0 <= i < h.len() implies hex_digit_value(#[trigger] h[i]) >= 0 by {
        let k = i / 2;
        assert(hex_digit_value(t[2 + 2 * k]) == b[k] / 16);
        assert(hex_digit_value(t[3 + 2 * k]) == b[k] % 16);
        if i % 2 == 0 {
            assert(h[i] == t[2 + 2 * k]);
        } else {
            assert(h[i] == t[3 + 2 * k]);
        }
    }
    let d = Seq::new(20, |i: int| (hex_digit_value(h[2 * i]) * 16 + hex_digit_value(h[2 * i + 1])) as u8);
    assert forall|i: int| 0 <= i < 20 implies d[i] == b[i] by {
        assert(hex_digit_value(t[2 + 2 * i]) == b[i] / 16);
        assert(hex_digit_value(t[3 + 2 * i]) == b[i] % 16);
        assert(h[2 * i] == t[2 + 2 * i]);
        assert(h[2 * i + 1] == t[3 + 2 * i]);
    }
    assert(d =~= b);
}

/// Whether `c` is a hexadecimal digit written in lowercase: `0`-`9` or `a`-`f`.
pub open spec fn is_lower_hex_digit(c: char) -> bool {
    ('0' <= c && c <= '9') || ('a' <= c && c <= 'f')
}

/// Whether every character of `t` after its first two is a lowercase
/// hexadecimal digit.
pub open spec fn lowercase_after_prefix(t: Seq<char>) -> bool {
    forall|i: int| 2 <= i < t.len() ==> is_lower_hex_digit(#[trigger] t[i])
}

proof fn lemma_lower_hex_char(d: nat)
    requires
        d < 16,
    ensures
        hex_digit_value(lower_hex_char(d)) == d,
        is_lower_hex_digit(lower_hex_char(d)),
{
}

proof fn lemma_lower_hex_len(b: Seq<u8>)
    ensures
        lower_hex(b).len() == 2 * b.len(),
    decreases b.len(),
{
    if b.len() > 0 {
        lemma_lower_hex_len(b.drop_last());
    }
}

proof fn lemma_lower_hex_index(b: Seq<u8>, i: int)
    requires
        0 <= i < b.len(),
    ensures
        lower_hex(b)[2 * i] == lower_hex_char((b[i] / 16) as nat),
        lower_hex(b)[2 * i + 1] == lower_hex_char((b[i] % 16) as nat),
    decreases b.len(),
{
    let p = b.drop_last();
    lemma_lower_hex_len(p);
    let c1 = lower_hex_char((b.last() / 16) as nat);
    let c2 = lower_hex_char((b.last() % 16) as nat);
    assert(lower_hex(b) == lower_hex(p) + seq![c1, c2]);
    if i < p.len() {
        lemma_lower_hex_index(p, i);
        assert(p[i] == b[i]);
    }
}

/// Law: the lowercase hexadecimal text of bytes, after `0x`, is two digits
/// per byte, each `0`-`9` or `a`-`f`, that read back as the byte: the high
/// digit its upper four bits, the low digit its lower four.
pub proof fn lemma_lower_hex_reads_back(b: Seq<u8>)
    ensures
        is_prefixed_hex_of(seq!['0', 'x'] + lower_hex(b), b),
        lowercase_after_prefix(seq!['0', 'x'] + lower_hex(b)),
{
    let t = seq!['0', 'x'] + lower_hex(b);
    lemma_lower_hex_len(b);
    assert forall|i: int| 0 <= i < b.len() implies hex_digit_value(#[trigger] t[2 + 2 * i]) == b[i]
        / 16 && hex_digit_value(t[3 + 2 * i]) == b[i] % 16 && is_lower_hex_digit(t[2 + 2 * i])
        && is_lower_hex_digit(t[3 + 2 * i]) by {
        lemma_lower_hex_index(b, i);
        assert(t[2 + 2 * i] == lower_hex(b)[2 * i]);
        assert(t[3 + 2 * i] == lower_hex(b)[2 * i + 1]);
        lemma_lower_hex_char((b[i] / 16) as nat);
        lemma_lower_hex_char((b[i] % 16) as nat);
    }
    assert forall|i: int| 2 <= i < 2 + 2 * b.len() implies is_lower_hex_digit(#[trigger] t[i]) by {
        let k = (i - 2) / 2;
        assert(hex_digit_value(t[2 + 2 * k]) == b[k] / 16);
        if (i - 2) % 2 == 0 {
            assert(i == 2 + 2 * k);
        } else {
            assert(i == 3 + 2 * k);
        }
    }
}

fn lower_hex_digit(d: u8) -> (c: char)
    requires
        d < 16,
    ensures
        c == lower_hex_char(d as nat),
{
    if d < 10 {
        (d + 48) as char
    } else {
        (d + 87) as char
    }
}

/// The text of a transaction hash: `0x` and its bytes in lowercase
/// hexadecimal (the `Debug` text of a 32-byte hash).
pub fn tx_hash_text(hash: &[u8; 32]) -> (r: String)
    ensures
        r@ == seq!['0', 'x'] + lower_hex(hash@),
        is_prefixed_hex_of(r@, hash@),
        lowercase_after_prefix(r@),
{
    let mut s = String::new();
    crate::text::push_char(&mut s, '0');
    crate::text::push_char(&mut s, 'x');
    let mut i: usize = 0;
    assert(hash@.take(0) =~= Seq::<u8>::empty());
    while i < 32
        invariant
            i <= 32,
            hash@.len() == 32,
            s@ == seq!['0', 'x'] + lower_hex(hash@.take(i as int)),
        decreases 32 - i,
    {
        let b = hash[i];
        crate::text::push_char(&mut s, lower_hex_digit(b / 16));
        crate::text::push_char(&mut s, lower_hex_digit(b % 16));
        assert(hash@.take(i + 1).drop_last() =~= hash@.take(i as int));
        assert(hash@.take(i + 1).last() == b);
        i = i + 1;
        assert(s@ =~= seq!['0', 'x'] + lower_hex(hash@.take(i as int)));
    }
    assert(hash@.take(32) =~= hash@);
    proof {
        lemma_lower_hex_reads_back(hash@);
    }
    s
}

/// The block explorer's page of a transaction.
pub fn explorer_url(tx_hash: &str) -> (r: String)
    ensures
        r@ == "https://testnet.monadvision.com/tx/"@ + tx_hash@,
{
    let mut s = "https://testnet.monadvision.com/tx/".to_owned();
    s.append(tx_hash);
    s
}

} // verus!
