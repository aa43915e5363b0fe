//! The wallets that the app has imported: each account's name, private key,
//! password and linked trust contract, keyed by the account's address text
//! and kept in ascending order of that text, as a `BTreeMap<String, _>` keeps
//! its keys.

use vstd::prelude::*;
use crate::text::str_eq;

verus! {

/// Whether `a` comes strictly before `b` in the order of `String`: character
/// by character, a proper prefix first.
pub open spec fn lex_lt(a: Seq<char>, b: Seq<char>) -> bool
    decreases a.len(),
{
    if a.len() == 0 {
        b.len() > 0
    } else if b.len() == 0 {
        false
    } else if a[0] != b[0] {
        (a[0] as int) < (b[0] as int)
    } else {
        lex_lt(a.drop_first(), b.drop_first())
    }
}

/// Law: no string comes before itself.
pub proof fn lemma_lex_irreflexive(a: Seq<char>)
    ensures
        !lex_lt(a, a),
    decreases a.len(),
{
    if a.len() > 0 {
        lemma_lex_irreflexive(a.drop_first());
    }
}

/// Law: of two different strings, one comes before the other, and not both ways.
pub proof fn lemma_lex_total(a: Seq<char>, b: Seq<char>)
    ensures
        a != b ==> (lex_lt(a, b) || lex_lt(b, a)),
        !(lex_lt(a, b) && lex_lt(b, a)),
    decreases a.len(),
{
    if a.len() > 0 && b.len() > 0 && a[0] == b[0] {
        lemma_lex_total(a.drop_first(), b.drop_first());
        if a.drop_first() == b.drop_first() {
            assert(a =~= seq![a[0]] + a.drop_first());
            assert(b =~= seq![b[0]] + b.drop_first());
        }
    }
    if a.len() == 0 && b.len() == 0 {
        assert(a =~= b);
    }
    if a.len() > 0 && b.len() > 0 && a[0] != b[0] {
        assert((a[0] as int) != (b[0] as int));
    }
}

/// Law: the order of strings is transitive.
pub proof fn lemma_lex_transitive(a: Seq<char>, b: Seq<char>, c: Seq<char>)
    requires
        lex_lt(a, b),
        lex_lt(b, c),
    ensures
        lex_lt(a, c),
    decreases a.len(),
{
    if a.len() > 0 && b.len() > 0 && c.len() > 0 && a[0] == b[0] && b[0] == c[0] {
        lemma_lex_transitive(a.drop_first(), b.drop_first(), c.drop_first());
    }
}

/// Whether `a` comes strictly before `b` in the order of `String`.
pub fn str_lt(a: &str, b: &str) -> (r: bool)
    ensures
        r == lex_lt(a@, b@),
{
    let n = a.unicode_len();
    let m = b.unicode_len();
    let mut i: usize = 0;
    assert(a@.skip(0) =~= a@ && b@.skip(0) =~= b@);
    while i < n && i < m && a.get_char(i) == b.get_char(i)
        invariant
            n == a@.len(),
            m == b@.len(),
            i <= n && i <= m,
            lex_lt(a@, b@) == lex_lt(a@.skip(i as int), b@.skip(i as int)),
        decreases n - i,
    {
        assert(a@.skip(i as int).drop_first() =~= a@.skip(i + 1));
        assert(b@.skip(i as int).drop_first() =~= b@.skip(i + 1));
        i = i + 1;
    }
    if i < n && i < m {
        let x = a.get_char(i);
        let y = b.get_char(i);
        assert(a@.skip(i as int)[0] == x && b@.skip(i as int)[0] == y);
        (x as u32) < (y as u32)
    } else {
        i == n && i < m
    }
}

/// Whether the keys of `s` ascend strictly (so no key occurs twice).
pub open spec fn keys_ascending<V>(s: Seq<(Seq<char>, V)>) -> bool {
    forall|i: int, j: int| 0 <= i < j < s.len() ==> lex_lt(#[trigger] s[i].0, #[trigger] s[j].0)
}

/// Whether some pair of `s` has the key `k`.
pub open spec fn has_key<V>(s: Seq<(Seq<char>, V)>, k: Seq<char>) -> bool {
    exists|i: int| 0 <= i < s.len() && #[trigger] s[i].0 == k
}

/// The map from each key of `s` to the value paired with it (the last pair
/// wins, which matters only when a key occurs twice).
pub open spec fn pairs_map<V>(s: Seq<(Seq<char>, V)>) -> Map<Seq<char>, V>
    decreases s.len(),
{
    if s.len() == 0 {
        Map::empty()
    } else {
        pairs_map(s.drop_last()).insert(s.last().0, s.last().1)
    }
}

/// The keys of the map are the keys of the pairs.
pub proof fn lemma_pairs_map_dom<V>(s: Seq<(Seq<char>, V)>, k: Seq<char>)
    ensures
        pairs_map(s).contains_key(k) <==> has_key(s, k),
    decreases s.len(),
{
    if s.len() > 0 {
        let d = s.drop_last();
        lemma_pairs_map_dom(d, k);
        if has_key(d, k) {
            let i = choose|i: int| 0 <= i < d.len() && #[trigger] d[i].0 == k;
            assert(s[i] == d[i]);
        }
        if has_key(s, k) && k != s.last().0 {
            let i = choose|i: int| 0 <= i < s.len() && #[trigger] s[i].0 == k;
            assert(i < s.len() - 1);
            assert(d[i] == s[i]);
        }
        if k == s.last().0 {
            assert(s[s.len() - 1].0 == k);
        }
    }
}

/// In ascending pairs, the map gives each key the value paired with it.
pub proof fn lemma_pairs_map_at<V>(s: Seq<(Seq<char>, V)>, i: int)
    requires
        keys_ascending(s),
        0 <= i < s.len(),
    ensures
        pairs_map(s).contains_key(s[i].0),
        pairs_map(s)[s[i].0] == s[i].1,
    decreases s.len(),
{
    lemma_pairs_map_dom(s, s[i].0);
    assert(has_key(s, s[i].0));
    if i < s.len() - 1 {
        let d = s.drop_last();
        assert(d[i] == s[i]);
        assert(keys_ascending(d)) by {
            assert forall|a: int, b: int| 0 <= a < b < d.len() implies lex_lt(#[trigger] d[a].0, #[trigger] d[b].0) by {
                assert(d[a] == s[a] && d[b] == s[b]);
            }
        }
        lemma_pairs_map_at(d, i);
        assert(lex_lt(s[i].0, s.last().0));
        lemma_lex_irreflexive(s[i].0);
    }
}

/// Inserting `(k, v)` at a position `p` after every smaller key and before
/// every larger one keeps ascending pairs ascending and maps `k` to `v`.
pub proof fn lemma_pairs_insert<V>(s: Seq<(Seq<char>, V)>, p: int, k: Seq<char>, v: V)
    requires
        keys_ascending(s),
        0 <= p <= s.len(),
        forall|i: int| 0 <= i < p ==> lex_lt(#[trigger] s[i].0, k),
        p < s.len() ==> lex_lt(k, s[p].0),
    ensures
        keys_ascending(s.insert(p, (k, v))),
        pairs_map(s.insert(p, (k, v))) == pairs_map(s).insert(k, v),
{
    let t = s.insert(p, (k, v));
    assert forall|i: int, j: int| 0 <= i < j < t.len() implies lex_lt(#[trigger] t[i].0, #[trigger] t[j].0) by {
        if j < p {
            assert(t[i] == s[i]);
            assert(t[j] == s[j]);
        } else if i < p && j == p {
            assert(t[i] == s[i]);
        } else if i < p && j > p {
            assert(t[i] == s[i]);
            assert(t[j] == s[j - 1]);
            assert(lex_lt(s[i].0, s[j - 1].0));
        } else if i == p {
            assert(t[j] == s[j - 1]);
            if j - 1 > p {
                assert(lex_lt(s[p].0, s[j - 1].0));
                lemma_lex_transitive(k, s[p].0, s[j - 1].0);
            }
        } else {
            assert(i > p);
            assert(t[i] == s[i - 1]);
            assert(t[j] == s[j - 1]);
            assert(lex_lt(s[i - 1].0, s[j - 1].0));
        }
    }
    assert forall|i: int| 0 <= i < s.len() implies s[i].0 != k by {
        if i < p {
            assert(lex_lt(s[i].0, k));
            lemma_lex_irreflexive(k);
        } else {
            if i > p {
                assert(lex_lt(s[p].0, s[i].0));
                lemma_lex_transitive(k, s[p].0, s[i].0);
            }
            lemma_lex_irreflexive(k);
        }
    }
    let m = pairs_map(s).insert(k, v);
    assert forall|q: Seq<char>| #[trigger] m.contains_key(q) <==> pairs_map(t).contains_key(q) by {
        lemma_pairs_map_dom(s, q);
        lemma_pairs_map_dom(t, q);
        if has_key(s, q) {
            let i = choose|i: int| 0 <= i < s.len() && #[trigger] s[i].0 == q;
            if i < p {
                assert(t[i] == s[i]);
            } else {
                assert(t[i + 1] == s[i]);
            }
        }
        if has_key(t, q) {
            let i = choose|i: int| 0 <= i < t.len() && #[trigger] t[i].0 == q;
            if i < p {
                assert(t[i] == s[i]);
            } else if i > p {
                assert(t[i] == s[i - 1]);
            }
        }
        if q == k {
            assert(t[p].0 == k);
        }
    }
    assert forall|q: Seq<char>| #[trigger] m.contains_key(q) implies m[q] == pairs_map(t)[q] by {
        if q == k {
            assert(t[p].0 == k);
            lemma_pairs_map_at(t, p);
        } else {
            lemma_pairs_map_dom(s, q);
            let i = choose|i: int| 0 <= i < s.len() && #[trigger] s[i].0 == q;
            lemma_pairs_map_at(s, i);
            if i < p {
                assert(t[i] == s[i]);
                lemma_pairs_map_at(t, i);
            } else {
                assert(t[i + 1] == s[i]);
                lemma_pairs_map_at(t, i + 1);
            }
        }
    }
    assert(m =~= pairs_map(t));
}

/// Replacing the value at position `p` keeps the keys and maps that key to
/// the new value.
pub proof fn lemma_pairs_update<V>(s: Seq<(Seq<char>, V)>, p: int, v: V)
    requires
        keys_ascending(s),
        0 <= p < s.len(),
    ensures
        keys_ascending(s.update(p, (s[p].0, v))),
        pairs_map(s.update(p, (s[p].0, v))) == pairs_map(s).insert(s[p].0, v),
{
    let k = s[p].0;
    let t = s.update(p, (k, v));
    assert forall|i: int, j: int| 0 <= i < j < t.len() implies lex_lt(#[trigger] t[i].0, #[trigger] t[j].0) by {
        assert(t[i].0 == s[i].0 && t[j].0 == s[j].0);
    }
    let m = pairs_map(s).insert(k, v);
    assert forall|q: Seq<char>| #[trigger] m.contains_key(q) <==> pairs_map(t).contains_key(q) by {
        lemma_pairs_map_dom(s, q);
        lemma_pairs_map_dom(t, q);
        if has_key(s, q) {
            let i = choose|i: int| 0 <= i < s.len() && #[trigger] s[i].0 == q;
            assert(t[i].0 == q);
        }
        if has_key(t, q) {
            let i = choose|i: int| 0 <= i < t.len() && #[trigger] t[i].0 == q;
            assert(s[i].0 == q);
        }
        lemma_pairs_map_at(s, p);
    }
    assert forall|q: Seq<char>| #[trigger] m.contains_key(q) implies m[q] == pairs_map(t)[q] by {
        if q == k {
            lemma_pairs_map_at(t, p);
        } else {
            lemma_pairs_map_dom(s, q);
            let i = choose|i: int| 0 <= i < s.len() && #[trigger] s[i].0 == q;
            lemma_pairs_map_at(s, i);
            assert(t[i] == s[i]);
            lemma_pairs_map_at(t, i);
        }
    }
    assert(m =~= pairs_map(t));
}

/// An imported account: its name, private key, password and the trust
/// contract linked to it, if any.
#[derive(Debug)]
pub struct KeyPass {
    pub name: String,
    pub private_key: String,
    pub password: String,
    pub contract: Option<String>,
}

/// An imported account as a value.
pub struct KeyPassView {
    pub name: Seq<char>,
    pub private_key: Seq<char>,
    pub password: Seq<char>,
    pub contract: Option<Seq<char>>,
}

/// The text of an optional string.
pub open spec fn opt_text(o: Option<String>) -> Option<Seq<char>> {
    match o {
        Some(s) => Some(s@),
        None => None,
    }
}

impl View for KeyPass {
    type V = KeyPassView;

    open spec fn view(&self) -> KeyPassView {
        KeyPassView {
            name: self.name@,
            private_key: self.private_key@,
            password: self.password@,
            contract: opt_text(self.contract),
        }
    }
}

impl Clone for KeyPass {
    fn clone(&self) -> (r: Self)
        ensures
            r@ == self@,
    {
        KeyPass {
            name: self.name.clone(),
            private_key: self.private_key.clone(),
            password: self.password.clone(),
            contract: match &self.contract {
                Some(c) => Some(c.clone()),
                None => None,
            },
        }
    }
}

/// The account entries as pairs of key text and account.
pub open spec fn entry_pairs(e: Seq<(String, KeyPass)>) -> Seq<(Seq<char>, KeyPassView)> {
    e.map_values(|x: (String, KeyPass)| (x.0@, x.1@))
}

/// The imported accounts, keyed by address text, in ascending key order.
///
/// The accounts are kept in a vector sorted by key rather than in a
/// `BTreeMap<String, KeyPass>`: vstd's contracts for `BTreeMap` hold only for
/// key types whose `cmp` it knows to be a total order
/// (`key_obeys_cmp_spec`), and it states no order for `String`, so with
/// address-text keys none of them could be used. The sorted vector gives the
/// same iteration order (ascending by key, each key once), stated here as
/// the type invariant and proved for every operation.
pub struct WalletMap {
    entries: Vec<(String, KeyPass)>,
}

impl WalletMap {
    /// Keys ascend, so each occurs once.
    #[verifier::type_invariant]
    spec fn ascending(&self) -> bool {
        keys_ascending(entry_pairs(self.entries@))
    }

    /// The entries in key order.
    pub closed spec fn pairs(&self) -> Seq<(Seq<char>, KeyPassView)> {
        entry_pairs(self.entries@)
    }
}

impl View for WalletMap {
    type V = Map<Seq<char>, KeyPassView>;

    open spec fn view(&self) -> Map<Seq<char>, KeyPassView> {
        pairs_map(self.pairs())
    }
}

impl WalletMap {
    /// No accounts.
    pub fn new() -> (r: WalletMap)
        ensures
            r@ == Map::<Seq<char>, KeyPassView>::empty(),
            r.pairs() == Seq::<(Seq<char>, KeyPassView)>::empty(),
    {
        let r = WalletMap { entries: Vec::new() };
        assert(r.pairs() =~= Seq::<(Seq<char>, KeyPassView)>::empty());
        r
    }

    /// The entries in ascending key order, each key once, making up the map.
    pub fn entries(&self) -> (r: &Vec<(String, KeyPass)>)
        ensures
            entry_pairs(r@) == self.pairs(),
            keys_ascending(self.pairs()),
            pairs_map(self.pairs()) == self@,
    {
        proof {
            use_type_invariant(self);
        }
        &self.entries
    }

    /// The number of accounts.
    pub fn len(&self) -> (r: usize)
        ensures
            r == self.pairs().len(),
    {
        self.entries.len()
    }

    /// Whether there is no account.
    pub fn is_empty(&self) -> (r: bool)
        ensures
            r == (self.pairs().len() == 0),
            r <==> self@ == Map::<Seq<char>, KeyPassView>::empty(),
    {
        proof {
            if self.pairs().len() > 0 {
                let k = self.pairs()[0].0;
                lemma_pairs_map_dom(self.pairs(), k);
                assert(has_key(self.pairs(), k));
            } else {
                assert(self@ =~= Map::<Seq<char>, KeyPassView>::empty()) by {
                    assert forall|k: Seq<char>| !self@.contains_key(k) by {
                        lemma_pairs_map_dom(self.pairs(), k);
                    }
                }
            }
        }
        self.entries.len() == 0
    }

    /// The account under `key`, if any.
    pub fn get(&self, key: &str) -> (r: Option<&KeyPass>)
        ensures
            match r {
                Some(v) => self@.contains_key(key@) && self@[key@] == v@,
                None => !self@.contains_key(key@),
            },
    {
        proof {
            use_type_invariant(self);
        }
        let mut i: usize = 0;
        while i < self.entries.len()
            invariant
                i <= self.entries@.len(),
                keys_ascending(self.pairs()),
                forall|j: int| 0 <= j < i ==> self.pairs()[j].0 != key@,
            decreases self.entries@.len() - i,
        {
            if str_eq(self.entries[i].0.as_str(), key) {
                proof {
                    lemma_pairs_map_at(self.pairs(), i as int);
                }
                return Some(&self.entries[i].1);
            }
            i = i + 1;
        }
        proof {
            lemma_pairs_map_dom(self.pairs(), key@);
        }
        None
    }

    /// The position at which `key` stands or would be inserted: after every
    /// smaller key.
    fn position_of(&self, key: &str) -> (p: usize)
        ensures
            p <= self.pairs().len(),
            forall|i: int| 0 <= i < p ==> lex_lt(#[trigger] self.pairs()[i].0, key@),
            p < self.pairs().len() ==> !lex_lt(self.pairs()[p as int].0, key@),
    {
        let n = self.entries.len();
        let mut p: usize = 0;
        while p < n && str_lt(self.entries[p].0.as_str(), key)
            invariant
                n == self.entries@.len(),
                p <= n,
                forall|i: int| 0 <= i < p ==> lex_lt(#[trigger] self.pairs()[i].0, key@),
            decreases n - p,
        {
            p = p + 1;
        }
        p
    }

    /// Puts `value` under `key`, replacing the account there if any.
    pub fn insert(&mut self, key: String, value: KeyPass)
        ensures
            final(self)@ == old(self)@.insert(key@, value@),
    {
        proof {
            use_type_invariant(&*self);
        }
        let ghost old_pairs = self.pairs();
        let p = self.position_of(key.as_str());
        let n = self.entries.len();
        if p < n && str_eq(self.entries[p].0.as_str(), key.as_str()) {
            proof {
                lemma_pairs_update(old_pairs, p as int, value@);
            }
            let ghost new_pairs = old_pairs.update(p as int, (old_pairs[p as int].0, value@));
            let mut entries = Vec::new();
            std::mem::swap(&mut entries, &mut self.entries);
            entries.set(p, (key, value));
            assert(entry_pairs(entries@) =~= new_pairs);
            self.entries = entries;
        } else {
            proof {
                if p < n {
                    lemma_lex_total(key@, old_pairs[p as int].0);
                }
                lemma_pairs_insert(old_pairs, p as int, key@, value@);
            }
            let ghost new_pairs = old_pairs.insert(p as int, (key@, value@));
            let mut entries = Vec::new();
            std::mem::swap(&mut entries, &mut self.entries);
            entries.insert(p, (key, value));
            assert(entry_pairs(entries@) =~= new_pairs);
            self.entries = entries;
        }
    }

    /// Links `contract` to the account under `key`; `false`, and nothing
    /// changed, when there is no such account.
    pub fn set_contract(&mut self, key: &str, contract: String) -> (r: bool)
        ensures
            r == old(self)@.contains_key(key@),
            r ==> final(self)@ == old(self)@.insert(
                key@,
                KeyPassView { contract: Some(contract@), ..old(self)@[key@] },
            ),
            !r ==> final(self)@ == old(self)@,
    {
        proof {
            use_type_invariant(&*self);
        }
        let ghost old_pairs = self.pairs();
        let p = self.position_of(key);
        let n = self.entries.len();
        if p < n && str_eq(self.entries[p].0.as_str(), key) {
            let mut entries = Vec::new();
            std::mem::swap(&mut entries, &mut self.entries);
            assert(entry_pairs(entries@) == old_pairs);
            let (k, mut account) = entries.remove(p);
            account.contract = Some(contract);
            proof {
                lemma_pairs_map_at(old_pairs, p as int);
                lemma_pairs_update(old_pairs, p as int, account@);
            }
            let ghost new_pairs = old_pairs.update(p as int, (old_pairs[p as int].0, account@));
            entries.insert(p, (k, account));
            assert(entry_pairs(entries@) =~= new_pairs);
            self.entries = entries;
            true
        } else {
            proof {
                assert forall|i: int| 0 <= i < old_pairs.len() implies #[trigger] old_pairs[i].0 != key@ by {
                    if i < p {
                        lemma_lex_irreflexive(key@);
                    } else if i > p {
                        lemma_lex_total(key@, old_pairs[p as int].0);
                        lemma_lex_transitive(key@, old_pairs[p as int].0, old_pairs[i].0);
                        lemma_lex_irreflexive(key@);
                    }
                }
                lemma_pairs_map_dom(old_pairs, key@);
            }
            false
        }
    }
}

/// The path of a file named `name` inside the directory `dir`, as
/// `PathBuf::join` builds it for a relative name: a `/` goes between them
/// unless `dir` is empty or already ends with one.
pub open spec fn path_join(dir: Seq<char>, name: Seq<char>) -> Seq<char> {
    if dir.len() == 0 || dir.last() == '/' {
        dir + name
    } else {
        dir + seq!['/'] + name
    }
}

/// The path of the key file inside the app's files directory, or the error
/// that finding the directory gave.
pub fn key_path(files_dir: Result<String, String>) -> (r: Result<String, String>)
    ensures
        match files_dir {
            Ok(d) => r matches Ok(p) && p@ == path_join(d@, "keys.json"@),
            Err(e) => r matches Err(e2) && e2@ == e@,
        },
{
    match files_dir {
        Ok(dir) => {
            let mut path = dir;
            let n = path.as_str().unicode_len();
            if n > 0 && path.as_str().get_char(n - 1) != '/' {
                crate::text::push_char(&mut path, '/');
            }
            path.append("keys.json");
            Ok(path)
        },
        Err(e) => Err(e),
    }
}

/// Takes in the accounts read at start-up. A store that was read and holds
/// accounts replaces `store`; otherwise `store` stays and the status to show
/// is returned.
pub fn apply_loaded(store: &mut WalletMap, loaded: Result<WalletMap, String>) -> (r: Option<String>)
    ensures
        match loaded {
            Ok(m) => if m@ == Map::<Seq<char>, KeyPassView>::empty() {
                &&& final(store)@ == old(store)@
                &&& r matches Some(t) && t@ == "No keys are imported yet"@
            } else {
                final(store)@ == m@ && r is None
            },
            Err(_) => {
                &&& final(store)@ == old(store)@
                &&& r matches Some(t) && t@ == "Unable to get file path"@
            },
        },
{
    match loaded {
        Ok(m) => {
            if m.is_empty() {
                Some("No keys are imported yet".to_owned())
            } else {
                *store = m;
                None
            }
        },
        Err(_) => Some("Unable to get file path".to_owned()),
    }
}

/// `s` with its middle replaced by `...` when it is longer than `start_len`
/// plus `end_len` characters: the first `start_len` and the last `end_len`
/// characters are kept.
pub open spec fn middle_truncated(s: Seq<char>, start_len: nat, end_len: nat) -> Seq<char> {
    if s.len() <= start_len + end_len {
        s
    } else {
        s.take(start_len as int) + seq!['.', '.', '.'] + s.skip(s.len() - end_len)
    }
}

/// Shortens `s` to its first `start_len` and last `end_len` characters with
/// `...` between them, when it is longer than that.
pub fn truncate_middle(s: &str, start_len: usize, end_len: usize) -> (r: String)
    requires
        start_len + end_len <= usize::MAX,
    ensures
        r@ == middle_truncated(s@, start_len as nat, end_len as nat),
{
    let n = s.unicode_len();
    if n <= start_len + end_len {
        return s.to_owned();
    }
    let mut r = s.substring_char(0, start_len).to_owned();
    r.append("...");
    r.append(s.substring_char(n - end_len, n));
    proof {
        reveal_strlit("...");
    }
    assert(r@ =~= middle_truncated(s@, start_len as nat, end_len as nat));
    r
}

/// The shortened display text of the account that a private key controls, as
/// the account list shows it; `None` when the text is no private key.
pub fn account_label(private_key: &str, start_len: usize, end_len: usize) -> (r: Option<String>)
    requires
        start_len + end_len <= usize::MAX,
    ensures
        match crate::eth::private_key_scalar(private_key@) {
            Some(k) => {
                &&& crate::eth::secp256k1_address(k).len() == 20
                &&& crate::eth::is_prefixed_hex_of(
                    crate::eth::eip55_text(crate::eth::secp256k1_address(k)),
                    crate::eth::secp256k1_address(k),
                )
                &&& r matches Some(t) && t@ == middle_truncated(
                    crate::eth::eip55_text(crate::eth::secp256k1_address(k)),
                    start_len as nat,
                    end_len as nat,
                )
                &&& r matches Some(t) && (start_len + end_len < 42 ==> t@.len() == start_len
                    + end_len + 3)
            },
            None => r is None,
        },
{
    match crate::eth::account_address_text(private_key) {
        Some(address) => Some(truncate_middle(address.as_str(), start_len, end_len)),
        None => None,
    }
}

impl Clone for WalletMap {
    fn clone(&self) -> (r: Self)
        ensures
            r@ == self@,
            r.pairs() == self.pairs(),
    {
        proof {
            use_type_invariant(self);
        }
        let mut entries: Vec<(String, KeyPass)> = Vec::new();
        let mut i: usize = 0;
        while i < self.entries.len()
            invariant
                i <= self.entries@.len(),
                entries@.len() == i,
                entry_pairs(entries@) == self.pairs().take(i as int),
            decreases self.entries@.len() - i,
        {
            let key = self.entries[i].0.clone();
            let account = self.entries[i].1.clone();
            assert(key@ == self.pairs()[i as int].0);
            assert(account@ == self.pairs()[i as int].1);
            let ghost prev = entries@;
            let ghost item = (key@, account@);
            entries.push((key, account));
            proof {
                assert forall|j: int| 0 <= j < i + 1 implies #[trigger] entry_pairs(entries@)[j]
                    == self.pairs().take(i + 1)[j] by {
                    if j < i {
                        assert(entries@[j] == prev[j]);
                        assert(entry_pairs(prev)[j] == self.pairs().take(i as int)[j]);
                    } else {
                        assert(entry_pairs(entries@)[j] == item);
                    }
                }
            }
            i = i + 1;
            assert(entry_pairs(entries@) =~= self.pairs().take(i as int));
        }
        assert(self.pairs().take(i as int) =~= self.pairs());
        WalletMap { entries }
    }
}

/// What the key typed on the import screen is read as: with surrounding
/// whitespace removed when it then starts with `0x`, without that prefix;
/// otherwise the text exactly as typed.
pub open spec fn key_input_text(input: Seq<char>) -> Seq<char> {
    let t = crate::text::trimmed(input);
    if t.len() >= 2 && t[0] == '0' && t[1] == 'x' {
        t.skip(2)
    } else {
        input
    }
}

/// The steps of importing a wallet.
#[derive(PartialEq, Eq, Clone, Copy, Debug, Structural)]
pub enum State {
    EnterKey,
    KeyOk,
    EnterPassWord,
}

/// What happens on the import screen.
#[derive(Clone, Copy, Debug)]
pub enum ImportEvent {
    /// A key was submitted; whether it is a private key.
    KeySubmitted(bool),
    /// The account was saved under its name and password.
    AccountSaved,
}

/// The step after `event` on step `state`: an accepted key moves from the
/// key step to the password step, saving the account from the password step
/// to the final step; anything else leaves the step as it is.
pub open spec fn import_next(state: State, event: ImportEvent) -> State {
    match (state, event) {
        (State::EnterKey, ImportEvent::KeySubmitted(true)) => State::EnterPassWord,
        (State::EnterPassWord, ImportEvent::AccountSaved) => State::KeyOk,
        _ => state,
    }
}

/// The step that the import screen moves to on `event`.
pub fn next_import_state(state: State, event: ImportEvent) -> (r: State)
    ensures
        r == import_next(state, event),
{
    match (state, event) {
        (State::EnterKey, ImportEvent::KeySubmitted(true)) => State::EnterPassWord,
        (State::EnterPassWord, ImportEvent::AccountSaved) => State::KeyOk,
        _ => state,
    }
}

/// The part of the import screen that a step shows.
#[derive(Clone, Copy, PartialEq, Eq, Debug, Structural)]
pub enum ImportScreen {
    KeyEnter,
    PasswordEnter,
    SuccessCheck,
}

/// The part shown on each step.
pub open spec fn screen_of(state: State) -> ImportScreen {
    match state {
        State::EnterKey => ImportScreen::KeyEnter,
        State::EnterPassWord => ImportScreen::PasswordEnter,
        State::KeyOk => ImportScreen::SuccessCheck,
    }
}

/// The part of the import screen that `state` shows.
pub fn import_screen(state: State) -> (r: ImportScreen)
    ensures
        r == screen_of(state),
{
    match state {
        State::EnterKey => ImportScreen::KeyEnter,
        State::EnterPassWord => ImportScreen::PasswordEnter,
        State::KeyOk => ImportScreen::SuccessCheck,
    }
}

/// The position of a step in the order key, password, done.
pub open spec fn step_rank(state: State) -> nat {
    match state {
        State::EnterKey => 0,
        State::EnterPassWord => 1,
        State::KeyOk => 2,
    }
}

/// Law: the import steps only go forward, one at a time: from the key step
/// to the password step when a private key is submitted, from the password
/// step to the final step when the account is saved, and never back; and
/// each step shows its own part of the screen (the key entry, the password
/// entry, the success check), no two steps the same.
pub proof fn lemma_import_steps_in_order(state: State, event: ImportEvent, other: State)
    ensures
        import_next(state, event) == state || step_rank(import_next(state, event)) == step_rank(
            state,
        ) + 1,
        import_next(state, event) != state ==> {
            ||| state == State::EnterKey && event == ImportEvent::KeySubmitted(true)
                && import_next(state, event) == State::EnterPassWord
            ||| state == State::EnterPassWord && event == ImportEvent::AccountSaved
                && import_next(state, event) == State::KeyOk
        },
        (screen_of(state) == screen_of(other)) == (state == other),
{
}

/// Checks the private key typed on the import screen: a key moves on to the
/// password step with the key text to keep; anything else stays on the key
/// step and is refused.
pub fn submit_key(input: &str) -> (r: (State, Option<String>))
    ensures
        r.0 == import_next(
            State::EnterKey,
            ImportEvent::KeySubmitted(
                crate::eth::private_key_scalar(key_input_text(input@)) is Some,
            ),
        ),
        match crate::eth::private_key_scalar(key_input_text(input@)) {
            Some(_) => {
                &&& r.0 == State::EnterPassWord
                &&& r.1 matches Some(k) && k@ == key_input_text(input@)
            },
            None => r.0 == State::EnterKey && r.1 is None,
        },
{
    let t = crate::text::trim(input);
    let n = t.unicode_len();
    let key: &str = if n >= 2 && t.get_char(0) == '0' && t.get_char(1) == 'x' {
        t.substring_char(2, n)
    } else {
        input
    };
    assert(key@ == key_input_text(input@));
    if crate::eth::is_valid_private_key(key) {
        (State::EnterPassWord, Some(key.to_owned()))
    } else {
        (State::EnterKey, None)
    }
}

/// Adds the account that a private key controls, under its address text,
/// with the given name and password and no linked contract.
pub fn add_account(store: &mut WalletMap, private_key: String, name: String, password: String)
    requires
        crate::eth::private_key_scalar(private_key@) is Some,
    ensures
        final(store)@ == old(store)@.insert(
            crate::eth::eip55_text(
                crate::eth::secp256k1_address(crate::eth::private_key_scalar(private_key@).unwrap()),
            ),
            KeyPassView {
                name: name@,
                private_key: private_key@,
                password: password@,
                contract: None,
            },
        ),
{
    let address = crate::eth::account_address_text(private_key.as_str()).unwrap();
    store.insert(address, KeyPass { name, private_key, password, contract: None });
}

/// The contract linked to the account under `address`; `None` when there is
/// no such account.
pub fn linked_contract(store: &WalletMap, address: &str) -> (r: Option<Option<String>>)
    ensures
        match r {
            Some(c) => store@.contains_key(address@) && opt_text(c) == store@[address@].contract,
            None => !store@.contains_key(address@),
        },
{
    match store.get(address) {
        Some(account) => Some(
            match &account.contract {
                Some(c) => Some(c.clone()),
                None => None,
            },
        ),
        None => None,
    }
}

/// Law: an account stored under a key is read back from that key, and every
/// other key reads as before (what `insert` and `add_account` leave for
/// `get`).
pub proof fn lemma_read_after_store(
    m: Map<Seq<char>, KeyPassView>,
    k: Seq<char>,
    v: KeyPassView,
    q: Seq<char>,
)
    ensures
        m.insert(k, v).contains_key(k),
        m.insert(k, v)[k] == v,
        q != k ==> (m.insert(k, v).contains_key(q) <==> m.contains_key(q)),
        q != k && m.contains_key(q) ==> m.insert(k, v)[q] == m[q],
{
}

/// Law: linking a contract to a stored account changes only its contract:
/// the account keeps its name, key and password, reads back with the new
/// contract, and no other account changes.
pub proof fn lemma_link_keeps_account(
    m: Map<Seq<char>, KeyPassView>,
    k: Seq<char>,
    contract: Seq<char>,
    q: Seq<char>,
)
    requires
        m.contains_key(k),
    ensures
        ({
            let after = m.insert(k, KeyPassView { contract: Some(contract), ..m[k] });
            &&& after.dom() == m.dom()
            &&& after[k].contract == Some(contract)
            &&& after[k].name == m[k].name
            &&& after[k].private_key == m[k].private_key
            &&& after[k].password == m[k].password
            &&& (q != k && m.contains_key(q) ==> after[q] == m[q])
        }),
{
    let after = m.insert(k, KeyPassView { contract: Some(contract), ..m[k] });
    assert(after.dom() =~= m.dom());
}

} // verus!
