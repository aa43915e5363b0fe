use famtrust_vault::functions::{
    beneficiary_functions, fields_for, owner_functions, view_functions, ContractFunction, FieldKind,
};

#[test]
fn slug_round_trip_for_every_function() {
    for f in ContractFunction::all() {
        assert_eq!(ContractFunction::from_slug(f.slug()), Some(f));
    }
}

#[test]
fn unknown_slug_is_refused() {
    assert_eq!(ContractFunction::from_slug("not-a-function"), None);
    assert_eq!(ContractFunction::from_slug(""), None);
    assert_eq!(ContractFunction::from_slug("Withdraw"), None);
}

#[test]
fn labels_and_slugs() {
    assert_eq!(ContractFunction::Transfer.label(), "Claim Your Share");
    assert_eq!(ContractFunction::UnAddBeneficiary.to_string(), "Remove Beneficiary");
    assert_eq!(ContractFunction::SetUnlockTimeByOwner.slug(), "set-unlock-time");
    assert_eq!(ContractFunction::BalancOf.slug(), "balanc-of");
}

#[test]
fn write_and_external_flags() {
    assert!(ContractFunction::Withdraw.is_write());
    assert!(!ContractFunction::BenList.is_write());
    assert!(ContractFunction::Unlock.allows_external_contract());
    assert!(!ContractFunction::BalancOf.allows_external_contract());
    assert!(!ContractFunction::UnlockTime.allows_external_contract());
    assert!(ContractFunction::PublicUnlockTime.allows_external_contract());
}

#[test]
fn panel_sections_partition_the_functions() {
    let owner = owner_functions();
    let beneficiary = beneficiary_functions();
    let view = view_functions();
    assert_eq!(owner.len() + beneficiary.len() + view.len(), ContractFunction::all().len());
    for f in ContractFunction::all() {
        let count = owner.iter().chain(beneficiary.iter()).chain(view.iter()).filter(|g| **g == f).count();
        assert_eq!(count, 1);
        assert_eq!(f.is_write(), !view.contains(&f));
    }
}

#[test]
fn fields_of_add_beneficiary() {
    let fields = fields_for(&ContractFunction::AddBeneficiary);
    assert_eq!(fields.len(), 3);
    assert_eq!(fields[0].label, "Beneficiary Address");
    assert_eq!(fields[0].kind, FieldKind::Address);
    assert_eq!(fields[1].placeholder, "1.5");
    assert_eq!(fields[1].kind, FieldKind::EtherAmount);
    assert_eq!(fields[2].kind, FieldKind::Text);
    assert!(fields_for(&ContractFunction::BenList).is_empty());
    assert_eq!(fields_for(&ContractFunction::SetUnlockTimeByOwner)[0].kind, FieldKind::Duration);
}
