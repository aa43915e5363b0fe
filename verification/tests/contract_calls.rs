use famtrust_vault::calls::{
    can_read_write_inputs, count_text, decode_err, failure_reason, low_i64, plan_read, plan_write,
    to_u128, unlock_time_formattable, unlock_time_text, ReadCall, WriteCall,
};
use famtrust_vault::eth::Uint256;
use famtrust_vault::functions::{fields_for, ContractFunction, FieldKind};

const ADDR: &str = "0xf39Fd6e51aad88F6F4ce6aB8827279cffFb92266";

fn uint(n: u128) -> Uint256 {
    Uint256 { limbs: [n as u64, (n >> 64) as u64, 0, 0] }
}

#[test]
fn read_plans() {
    match plan_read(&ContractFunction::BeneficiacyAllowance, ADDR).unwrap() {
        ReadCall::BeneficiacyAllowance(a) => assert_eq!(a.bytes[0], 0xf3),
        other => panic!("unexpected {:?}", other),
    }
    assert!(matches!(plan_read(&ContractFunction::BenList, "").unwrap(), ReadCall::BenList));
    assert_eq!(plan_read(&ContractFunction::BeneficiacyAllowance, "0x12").unwrap_err(), "Invalid address");
    assert_eq!(plan_read(&ContractFunction::Withdraw, "").unwrap_err(), "Not a read function");
}

#[test]
fn write_plans() {
    match plan_write(&ContractFunction::AddBeneficiary, ADDR, "1.5", "John").unwrap() {
        WriteCall::AddBeneficiary { beneficiary, share, name } => {
            assert_eq!(beneficiary.bytes[19], 0x66);
            assert_eq!(share.limbs[0], 1_500_000_000_000_000_000);
            assert_eq!(name, "John");
        }
        other => panic!("unexpected {:?}", other),
    }
    assert_eq!(plan_write(&ContractFunction::AddBeneficiary, "bad", "1.5", "x").unwrap_err(), "Invalid address");
    assert_eq!(plan_write(&ContractFunction::AddBeneficiary, ADDR, "x", "x").unwrap_err(), "Invalid amount");
    assert_eq!(plan_write(&ContractFunction::ModifyBeneficiaryShare, "x", "bad", "").unwrap_err(), "Invalid amount");
    assert_eq!(plan_write(&ContractFunction::ModifyBeneficiaryShare, "2", "bad", "").unwrap_err(), "Invalid address");
    assert!(matches!(plan_write(&ContractFunction::RequireToUnlockAll, "2", "", "").unwrap(), WriteCall::RequireToUnlockAll(n) if n.limbs[0] == 2));
    assert_eq!(plan_write(&ContractFunction::SetUnlockTimeByOwner, "2h", "", "").unwrap_err(), "Invalid number");
    assert!(matches!(plan_write(&ContractFunction::Unlock, "", "", "").unwrap(), WriteCall::Unlock));
    assert!(matches!(plan_write(&ContractFunction::Withdraw, "0.25", "", "").unwrap(), WriteCall::Withdraw(n) if n.limbs[0] == 250_000_000_000_000_000));
    assert_eq!(plan_write(&ContractFunction::BalancOf, "", "", "").unwrap_err(), "Not a write function");
}

#[test]
fn readable_inputs() {
    assert!(can_read_write_inputs(&ContractFunction::Withdraw, "1.5", ""));
    assert!(!can_read_write_inputs(&ContractFunction::Withdraw, "1.00000000000000000é0", ""));
    assert!(can_read_write_inputs(&ContractFunction::AddBeneficiary, "bad", "1.00000000000000000é0"));
    assert!(!can_read_write_inputs(&ContractFunction::AddBeneficiary, ADDR, "1.00000000000000000é0"));
    assert!(can_read_write_inputs(&ContractFunction::Unlock, "", ""));
}

#[test]
fn failure_reasons() {
    assert_eq!(failure_reason(Some("not owner".to_string()), "rpc error".to_string()), "not owner");
    assert_eq!(failure_reason(None, "rpc error".to_string()), "rpc error");
    assert_eq!(decode_err("boom".to_string()), "boom");
}

#[test]
fn numbers_and_times() {
    assert_eq!(count_text(&uint(3)), "3");
    assert_eq!(to_u128(&uint(u128::MAX)), u128::MAX);
    assert_eq!(low_i64(u64::MAX as u128), -1);
    assert_eq!(low_i64(1 << 64), 0);
    assert_eq!(low_i64(42), 42);
    assert_eq!(unlock_time_text(&uint(0)), "Thu, 1 Jan 1970 00:00:00 +0000");
    assert_eq!(unlock_time_text(&uint(1431648000)), "Fri, 15 May 2015 00:00:00 +0000");
    assert!(unlock_time_formattable(&uint(253402300799)));
    assert!(!unlock_time_formattable(&uint(253402300800)));
    assert!(unlock_time_formattable(&uint(8210266876800)));
    assert_eq!(unlock_time_text(&uint(8210266876800)), "8210266876800");
    assert!(!unlock_time_formattable(&Uint256 { limbs: [0, 0, 1, 0] }));
}

fn good_input(kind: FieldKind) -> &'static str {
    match kind {
        FieldKind::Address => ADDR,
        FieldKind::EtherAmount => "1.5",
        FieldKind::Uint256 | FieldKind::Duration => "42",
        FieldKind::Text => "anything",
    }
}

#[test]
fn calls_read_exactly_the_fields() {
    for f in ContractFunction::all() {
        let kinds: Vec<_> = fields_for(&f).iter().map(|s| s.kind).collect();
        let mut inputs = vec!["", "", ""];
        for (i, k) in kinds.iter().enumerate() {
            inputs[i] = good_input(*k);
        }
        let accepted = |ins: &[&str]| {
            if f.is_write() {
                plan_write(&f, ins[0], ins[1], ins[2]).is_ok()
            } else {
                plan_read(&f, ins[0]).is_ok()
            }
        };
        assert!(accepted(&inputs), "{:?}", f);
        for (i, k) in kinds.iter().enumerate() {
            if *k != FieldKind::Text {
                let mut bad = inputs.clone();
                bad[i] = "not a value";
                assert!(!accepted(&bad), "{:?} field {}", f, i);
            }
        }
    }
}

#[test]
fn time_text_falls_back_to_seconds() {
    assert_eq!(famtrust_vault::calls::time_text_or_seconds(None, -5), "-5");
    assert_eq!(famtrust_vault::calls::time_text_or_seconds(Some("t".to_string()), 5), "t");
}

#[test]
fn arguments_follow_field_kinds() {
    let f = ContractFunction::ModifyBeneficiaryShare;
    let kinds: Vec<FieldKind> = fields_for(&f).iter().map(|s| s.kind).collect();
    assert_eq!(kinds, vec![FieldKind::EtherAmount, FieldKind::Address]);
    match plan_write(&f, "0.5", ADDR, "ignored").unwrap() {
        WriteCall::ModifyBeneficiaryShare { share, beneficiary } => {
            assert_eq!(share.limbs, uint(500_000_000_000_000_000).limbs);
            assert_eq!(beneficiary.bytes[0], 0xf3);
            assert_eq!(beneficiary.bytes[19], 0x66);
        }
        other => panic!("unexpected {other:?}"),
    }
    match plan_write(&ContractFunction::AddBeneficiary, ADDR, "1", "  Ann ").unwrap() {
        WriteCall::AddBeneficiary { name, share, .. } => {
            assert_eq!(name, "  Ann ");
            assert_eq!(share.limbs, uint(1_000_000_000_000_000_000).limbs);
        }
        other => panic!("unexpected {other:?}"),
    }
    match plan_write(&ContractFunction::SetUnlockTimeByOwner, "3600", "", "").unwrap() {
        WriteCall::SetUnlockTimeByOwner(n) => assert_eq!(n.limbs, uint(3600).limbs),
        other => panic!("unexpected {other:?}"),
    }
}

#[test]
fn times_of_years_zero_to_9999_are_dates() {
    assert_eq!(unlock_time_text(&uint(253402300799)), "Fri, 31 Dec 9999 23:59:59 +0000");
    let before_epoch = (-62167219200i64) as u64 as u128;
    assert_eq!(unlock_time_text(&uint(before_epoch)), "Sat, 1 Jan 0000 00:00:00 +0000");
}
