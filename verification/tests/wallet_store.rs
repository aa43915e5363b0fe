use famtrust_vault::wallet::{import_screen, next_import_state, ImportEvent, ImportScreen};
use famtrust_vault::wallet::{
    account_label, add_account, apply_loaded, key_path, linked_contract, str_lt, submit_key,
    truncate_middle, KeyPass, State, WalletMap,
};

const KEY: &str = "ac0974bec39a17e36ba4a6b4d238ff944bacb478cbed5efcae784d7bf4f2ff80";
const ADDRESS: &str = "0xf39Fd6e51aad88F6F4ce6aB8827279cffFb92266";

fn account(name: &str) -> KeyPass {
    KeyPass { name: name.to_string(), private_key: KEY.to_string(), password: "pw".to_string(), contract: None }
}

#[test]
fn string_order_matches_std() {
    for (a, b) in [("a", "b"), ("ab", "a"), ("", "a"), ("a", "a"), ("é", "z"), ("0xA", "0xa")] {
        assert_eq!(str_lt(a, b), a < b, "{a:?} {b:?}");
    }
}

#[test]
fn store_keeps_keys_in_order_and_reads_back() {
    let mut m = WalletMap::new();
    assert!(m.is_empty());
    m.insert("0xb".to_string(), account("b"));
    m.insert("0xa".to_string(), account("a"));
    m.insert("0xc".to_string(), account("c"));
    m.insert("0xb".to_string(), account("b2"));
    assert_eq!(m.len(), 3);
    let keys: Vec<&str> = m.entries().iter().map(|(k, _)| k.as_str()).collect();
    assert_eq!(keys, vec!["0xa", "0xb", "0xc"]);
    assert_eq!(m.get("0xb").unwrap().name, "b2");
    assert!(m.get("0xd").is_none());
    let copy = m.clone();
    assert_eq!(copy.len(), 3);
    assert_eq!(copy.get("0xa").unwrap().name, "a");
}

#[test]
fn linking_a_contract() {
    let mut m = WalletMap::new();
    m.insert("0xa".to_string(), account("a"));
    assert_eq!(linked_contract(&m, "0xa"), Some(None));
    assert!(m.set_contract("0xa", "0xcontract".to_string()));
    assert_eq!(linked_contract(&m, "0xa"), Some(Some("0xcontract".to_string())));
    assert_eq!(m.get("0xa").unwrap().name, "a");
    assert!(!m.set_contract("0xz", "0xother".to_string()));
    assert_eq!(linked_contract(&m, "0xz"), None);
}

#[test]
fn adding_an_account_keys_it_by_address() {
    let mut m = WalletMap::new();
    add_account(&mut m, KEY.to_string(), "Main".to_string(), "secret".to_string());
    let a = m.get(ADDRESS).unwrap();
    assert_eq!(a.name, "Main");
    assert_eq!(a.password, "secret");
    assert_eq!(a.contract, None);
}

#[test]
fn key_file_path() {
    assert_eq!(key_path(Ok("/data/files".to_string())).unwrap(), "/data/files/keys.json");
    assert_eq!(key_path(Ok("/data/files/".to_string())).unwrap(), "/data/files/keys.json");
    assert_eq!(key_path(Ok(String::new())).unwrap(), "keys.json");
    assert_eq!(key_path(Err("Unable to get enviroment".to_string())).unwrap_err(), "Unable to get enviroment");
    let joined = std::path::PathBuf::from("/data/files").join("keys.json");
    assert_eq!(joined.to_str().unwrap(), "/data/files/keys.json");
}

#[test]
fn loading_at_start_up() {
    let mut store = WalletMap::new();
    assert_eq!(apply_loaded(&mut store, Ok(WalletMap::new())).unwrap(), "No keys are imported yet");
    assert_eq!(apply_loaded(&mut store, Err("io".to_string())).unwrap(), "Unable to get file path");
    let mut loaded = WalletMap::new();
    loaded.insert("0xa".to_string(), account("a"));
    assert_eq!(apply_loaded(&mut store, Ok(loaded)), None);
    assert_eq!(store.len(), 1);
}

#[test]
fn middle_truncation() {
    assert_eq!(truncate_middle(ADDRESS, 8, 8), "0xf39Fd6...fFb92266");
    assert_eq!(truncate_middle("short", 8, 8), "short");
    assert_eq!(truncate_middle("0123456789", 2, 3), "01...789");
    assert_eq!(account_label(KEY, 8, 8).unwrap(), "0xf39Fd6...fFb92266");
    assert_eq!(account_label("bad", 8, 8), None);
}

#[test]
fn key_entry() {
    assert_eq!(submit_key(&format!("  0x{KEY}  ")), (State::EnterPassWord, Some(KEY.to_string())));
    assert_eq!(submit_key(KEY), (State::EnterPassWord, Some(KEY.to_string())));
    assert_eq!(submit_key(&format!(" {KEY}")), (State::EnterKey, None));
    assert_eq!(submit_key("0X1234"), (State::EnterKey, None));
}

#[test]
fn account_label_is_nineteen_characters() {
    let label = account_label(KEY, 8, 8).unwrap();
    assert_eq!(label.chars().count(), 19);
    let full = famtrust_vault::eth::account_address_text(KEY).unwrap();
    assert_eq!(label, format!("{}...{}", &full[..8], &full[full.len() - 8..]));
}

#[test]
fn import_steps_only_go_forward() {
    let s = State::EnterKey;
    assert_eq!(next_import_state(s, ImportEvent::KeySubmitted(false)), State::EnterKey);
    assert_eq!(next_import_state(s, ImportEvent::AccountSaved), State::EnterKey);
    let s = next_import_state(s, ImportEvent::KeySubmitted(true));
    assert_eq!(s, State::EnterPassWord);
    assert_eq!(next_import_state(s, ImportEvent::KeySubmitted(true)), State::EnterPassWord);
    let s = next_import_state(s, ImportEvent::AccountSaved);
    assert_eq!(s, State::KeyOk);
    assert_eq!(next_import_state(s, ImportEvent::KeySubmitted(true)), State::KeyOk);
    assert_eq!(import_screen(State::EnterKey), ImportScreen::KeyEnter);
    assert_eq!(import_screen(State::EnterPassWord), ImportScreen::PasswordEnter);
    assert_eq!(import_screen(State::KeyOk), ImportScreen::SuccessCheck);
    assert_eq!(submit_key(KEY).0, State::EnterPassWord);
    assert_eq!(submit_key("nope").0, State::EnterKey);
}
