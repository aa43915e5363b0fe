use famtrust_vault::calls::ReadOutput;
use famtrust_vault::functions::{ContractFunction, FieldKind};
use famtrust_vault::pages::{
    amount_feedback, deploy_enabled, deploy_status, deployment_fits, duration_seconds,
    first_input_fits_check, input_mode, input_type, interact_view, prepare_deployment,
    prepare_submission, resolve_first_input, state_after_read, state_after_write, unit_length,
    AmountFeedback, InteractView, PageState,
};
use famtrust_vault::wallet::{KeyPass, WalletMap};

const KEY: &str = "ac0974bec39a17e36ba4a6b4d238ff944bacb478cbed5efcae784d7bf4f2ff80";
const ADDR: &str = "0xf39Fd6e51aad88F6F4ce6aB8827279cffFb92266";
const CONTRACT: &str = "0x5FbDB2315678afecb367f032d93F642f64180aa3";

fn wallets(key: &str) -> WalletMap {
    let mut m = WalletMap::new();
    m.insert(
        ADDR.to_string(),
        KeyPass { name: "n".to_string(), private_key: key.to_string(), password: String::new(), contract: None },
    );
    m
}

#[test]
fn lock_period_units() {
    assert_eq!(unit_length("seconds"), 1);
    assert_eq!(unit_length("minutes"), 60);
    assert_eq!(unit_length("hours"), 3600);
    assert_eq!(unit_length("days"), 86400);
    assert_eq!(unit_length(""), 1);
    assert_eq!(duration_seconds(8, "days"), 691200);
    assert_eq!(duration_seconds(8, "weeks"), 8);
}

#[test]
fn first_input_of_unlock_time() {
    assert_eq!(resolve_first_input(&ContractFunction::SetUnlockTimeByOwner, "2", "hours").unwrap(), "7200");
    assert_eq!(resolve_first_input(&ContractFunction::SetUnlockTimeByOwner, "x", "hours").unwrap_err(), "Invalid amount");
    assert_eq!(resolve_first_input(&ContractFunction::Withdraw, " 1.5 ", "days").unwrap(), " 1.5 ");
    assert!(first_input_fits_check(&ContractFunction::SetUnlockTimeByOwner, "3", "days"));
    assert!(!first_input_fits_check(&ContractFunction::SetUnlockTimeByOwner, &u128::MAX.to_string(), "minutes"));
    assert!(first_input_fits_check(&ContractFunction::Withdraw, &u128::MAX.to_string(), "minutes"));
}

#[test]
fn submissions() {
    let w = wallets(KEY);
    let s = prepare_submission(&ContractFunction::Withdraw, false, "", CONTRACT, "1", "seconds", &w, ADDR).unwrap();
    assert_eq!(s.contract.bytes[0], 0x5f);
    assert_eq!(s.first_input, "1");
    assert_eq!(s.private_key.as_deref(), Some(KEY));
    let r = prepare_submission(&ContractFunction::BenList, true, CONTRACT, "bad", "", "seconds", &w, ADDR).unwrap();
    assert!(r.private_key.is_none());
    assert_eq!(
        prepare_submission(&ContractFunction::BenList, false, CONTRACT, "bad", "", "seconds", &w, ADDR).unwrap_err(),
        "Invalid contract address"
    );
    assert_eq!(
        prepare_submission(&ContractFunction::SetUnlockTimeByOwner, false, "", CONTRACT, "1.5", "days", &w, ADDR).unwrap_err(),
        "Invalid amount"
    );
    assert_eq!(
        prepare_submission(&ContractFunction::Unlock, false, "", CONTRACT, "", "seconds", &w, "0xother").unwrap_err(),
        "Wallet not found"
    );
    let t = prepare_submission(&ContractFunction::SetUnlockTimeByOwner, false, "", CONTRACT, "1", "minutes", &w, ADDR).unwrap();
    assert_eq!(t.first_input, "60");
}

#[test]
fn deployments() {
    let w = wallets(KEY);
    let plan = prepare_deployment("2", "days", &w, ADDR).unwrap();
    assert_eq!(plan.unlock_time.limbs, [172800, 0, 0, 0]);
    assert_eq!(plan.private_key, KEY);
    assert_eq!(prepare_deployment("two", "days", &w, ADDR).unwrap_err(), "Invalid amount");
    assert_eq!(prepare_deployment("2", "days", &w, "0xnobody").unwrap_err(), "No wallet found");
    assert_eq!(prepare_deployment("2", "days", &wallets("bad key"), ADDR).unwrap_err(), "Invalid private key");
    assert!(deployment_fits("2", "days"));
    assert!(!deployment_fits(&u128::MAX.to_string(), "days"));
    assert!(deployment_fits("x", "days"));
}

#[test]
fn amount_feedback_and_button() {
    assert_eq!(amount_feedback(""), AmountFeedback::Empty);
    assert_eq!(amount_feedback("12"), AmountFeedback::Valid);
    assert_eq!(amount_feedback("1.2"), AmountFeedback::Invalid);
    assert!(deploy_enabled("12", "hours"));
    assert!(!deploy_enabled("12", ""));
    assert!(!deploy_enabled("", "hours"));
    assert_eq!(deploy_status(&Ok("0x1".to_string())), "Deploy succeeded");
    assert_eq!(deploy_status(&Err("Revert".to_string())), "Deploy failed: Revert");
}

#[test]
fn screen_states() {
    assert!(matches!(state_after_write(Ok("0xh".to_string())), PageState::WriteSuccess(h) if h == "0xh"));
    assert!(matches!(state_after_write(Err("no".to_string())), PageState::Error(e) if e == "no"));
    assert!(matches!(state_after_read(Ok(ReadOutput::Text("3".to_string()))), PageState::ReadSuccess(t) if t == "3"));
    assert!(matches!(state_after_read(Ok(ReadOutput::List(vec!["a".to_string()]))), PageState::ReadSuccessList(l) if l.len() == 1));
    assert_eq!(interact_view(false, true), InteractView::CreateContract);
    assert_eq!(interact_view(true, true), InteractView::Configuration);
    assert_eq!(interact_view(true, false), InteractView::FunctionsPanel);
    assert_eq!(input_type(FieldKind::Uint256), "number");
    assert_eq!(input_type(FieldKind::Address), "text");
    assert_eq!(input_mode(FieldKind::EtherAmount), "decimal");
    assert_eq!(input_mode(FieldKind::Text), "text");
}
