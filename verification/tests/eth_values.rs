use famtrust_vault::eth::{
    account_address_text, ether_text_would_panic, explorer_url, format_address, format_u256,
    is_valid_private_key, parse_address, parse_ether_amount, parse_u256, tx_hash_text, EvmAddress,
    Uint256,
};

const KEY: &str = "ac0974bec39a17e36ba4a6b4d238ff944bacb478cbed5efcae784d7bf4f2ff80";
const ADDRESS: &str = "0xf39Fd6e51aad88F6F4ce6aB8827279cffFb92266";

fn value(n: &Uint256) -> u128 {
    assert_eq!(n.limbs[2], 0);
    assert_eq!(n.limbs[3], 0);
    (n.limbs[1] as u128) << 64 | n.limbs[0] as u128
}

#[test]
fn address_parsing() {
    let a = parse_address("  0xf39fd6e51aad88f6f4ce6ab8827279cfffb92266 \n").unwrap();
    assert_eq!(a.bytes[0], 0xf3);
    assert_eq!(a.bytes[19], 0x66);
    let b = parse_address("F39FD6E51AAD88F6F4CE6AB8827279CFFFB92266").unwrap();
    assert_eq!(a.bytes, b.bytes);
    assert_eq!(parse_address("0x1234").unwrap_err(), "Invalid address");
    assert_eq!(parse_address("0xg39fd6e51aad88f6f4ce6ab8827279cfffb92266").unwrap_err(), "Invalid address");
    assert_eq!(parse_address("").unwrap_err(), "Invalid address");
    assert_eq!(parse_address("0Xf39fd6e51aad88f6f4ce6ab8827279cfffb92266").unwrap().bytes, a.bytes);
    assert_eq!(parse_address("0x0xf39fd6e51aad88f6f4ce6ab8827279cfffb922").unwrap_err(), "Invalid address");
    assert_eq!(parse_address("é39fd6e51aad88f6f4ce6ab8827279cfffb9226").unwrap_err(), "Invalid address");
}

#[test]
fn address_text_parses_back() {
    let a = EvmAddress { bytes: [0xab; 20] };
    let text = format_address(&a);
    assert_eq!(text.len(), 42);
    assert!(text.starts_with("0x"));
    assert_eq!(parse_address(&text).unwrap().bytes, a.bytes);
}

#[test]
fn u256_parsing() {
    assert_eq!(value(&parse_u256(" 86400 ").unwrap()), 86400);
    assert_eq!(value(&parse_u256("0x10").unwrap()), 16);
    assert_eq!(value(&parse_u256("1_000").unwrap()), 1000);
    assert_eq!(value(&parse_u256("").unwrap()), 0);
    assert_eq!(parse_u256("12x").unwrap_err(), "Invalid number");
    assert_eq!(parse_u256("-1").unwrap_err(), "Invalid number");
    assert_eq!(value(&parse_u256("0b101").unwrap()), 5);
    assert_eq!(value(&parse_u256("0O17").unwrap()), 15);
    assert_eq!(value(&parse_u256("0XfF").unwrap()), 255);
    assert_eq!(value(&parse_u256("0x").unwrap()), 0);
    assert_eq!(parse_u256("0b2").unwrap_err(), "Invalid number");
    assert_eq!(parse_u256("1a").unwrap_err(), "Invalid number");
    assert_eq!(parse_u256("+1").unwrap_err(), "Invalid number");
    let max = "115792089237316195423570985008687907853269984665640564039457584007913129639935";
    let n = parse_u256(max).unwrap();
    assert_eq!(n.limbs, [u64::MAX; 4]);
    assert_eq!(format_u256(&n), max);
    assert_eq!(
        parse_u256("115792089237316195423570985008687907853269984665640564039457584007913129639936").unwrap_err(),
        "Invalid number"
    );
}

#[test]
fn ether_amounts() {
    assert_eq!(value(&parse_ether_amount("1.5").unwrap()), 1_500_000_000_000_000_000);
    assert_eq!(value(&parse_ether_amount(" 2 ").unwrap()), 2_000_000_000_000_000_000);
    assert_eq!(parse_ether_amount("one").unwrap_err(), "Invalid amount");
}

#[test]
fn ether_panic_inputs_are_recognised() {
    assert!(!ether_text_would_panic("1.5"));
    assert!(!ether_text_would_panic("1.00000000000000000000000"));
    assert!(!ether_text_would_panic("1.000000000000000000é"));
    assert!(ether_text_would_panic("1.00000000000000000é0"));
    assert!(!ether_text_would_panic("no dot é"));
}

#[test]
fn private_keys_and_addresses() {
    assert!(is_valid_private_key(KEY));
    assert!(is_valid_private_key(&format!("0x{KEY}")));
    assert!(!is_valid_private_key("0x1234"));
    assert!(!is_valid_private_key(&"0".repeat(64)));
    assert!(!is_valid_private_key(&"f".repeat(64)));
    let n = "FFFFFFFFFFFFFFFFFFFFFFFFFFFFFFFEBAAEDCE6AF48A03BBFD25E8CD0364141";
    let n_minus_one = "0XFFFFFFFFFFFFFFFFFFFFFFFFFFFFFFFEBAAEDCE6AF48A03BBFD25E8CD0364140";
    assert!(!is_valid_private_key(n));
    assert!(is_valid_private_key(n_minus_one));
    assert!(is_valid_private_key(&format!("{}1", "0".repeat(63))));
    assert!(!is_valid_private_key(&format!(" {KEY}")));
    assert_eq!(account_address_text(KEY).unwrap(), ADDRESS);
    assert_eq!(account_address_text("nope"), None);
}

#[test]
fn transaction_links() {
    let mut hash = [0u8; 32];
    hash[0] = 0xab;
    hash[31] = 0x01;
    let text = tx_hash_text(&hash);
    assert_eq!(text, format!("0xab{}01", "00".repeat(30)));
    assert_eq!(explorer_url("0xabc"), "https://testnet.monadvision.com/tx/0xabc");
}

#[test]
fn plain_ether_amounts_are_exact() {
    assert_eq!(value(&parse_ether_amount("0.000000000000000001").unwrap()), 1);
    assert_eq!(value(&parse_ether_amount("12.25").unwrap()), 12_250_000_000_000_000_000);
    assert_eq!(value(&parse_ether_amount("7").unwrap()), 7_000_000_000_000_000_000);
    assert_eq!(value(&parse_ether_amount("\t3.\n").unwrap()), 3_000_000_000_000_000_000);
    assert_eq!(value(&parse_ether_amount(".5").unwrap()), 500_000_000_000_000_000);
    let too_big = "1".repeat(61);
    assert_eq!(parse_ether_amount(&too_big).unwrap_err(), "Invalid amount");
}

#[test]
fn account_address_has_forty_hex_digits() {
    let t = account_address_text(KEY).unwrap();
    assert_eq!(t.len(), 42);
    assert!(t.starts_with("0x"));
    assert!(t[2..].chars().all(|c| c.is_ascii_hexdigit()));
}

#[test]
fn letters_in_whole_part_are_refused() {
    assert_eq!(parse_ether_amount("abc").unwrap_err(), "Invalid amount");
    assert_eq!(parse_ether_amount("1x.5").unwrap_err(), "Invalid amount");
    assert_eq!(parse_ether_amount(" -e ").unwrap_err(), "Invalid amount");
}
