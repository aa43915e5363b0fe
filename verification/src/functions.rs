//! The catalogue of the `FamilyTrust` contract functions that the app exposes:
//! their labels, the slugs that name them in routes, which of them write, and
//! the input fields that each takes.

use vstd::prelude::*;

verus! {

/// What an input field of a contract function holds.
#[derive(Clone, Copy, PartialEq, Eq, Debug, Structural)]
pub enum FieldKind {
    Address,
    Uint256,
    EtherAmount,
    Text,
    Duration,
}

/// A function of the `FamilyTrust` contract.
#[derive(Clone, Copy, PartialEq, Eq, Debug, Structural)]
pub enum ContractFunction {
    AddBeneficiary,
    ModifyBeneficiaryShare,
    UnAddBeneficiary,
    ResetUnlocked,
    RequireToUnlockAll,
    SetUnlockTimeByOwner,
    Withdraw,
    Unlock,
    Transfer,
    BeneficiacyAllowance,
    BalancOf,
    UnlockedBenList,
    BenList,
    RequireToUnlock,
    UnlockTime,
    PublicUnlockTime,
}

/// Every contract function, in declaration order.
pub open spec fn all_functions() -> Seq<ContractFunction> {
    seq![
        ContractFunction::AddBeneficiary,
        ContractFunction::ModifyBeneficiaryShare,
        ContractFunction::UnAddBeneficiary,
        ContractFunction::ResetUnlocked,
        ContractFunction::RequireToUnlockAll,
        ContractFunction::SetUnlockTimeByOwner,
        ContractFunction::Withdraw,
        ContractFunction::Unlock,
        ContractFunction::Transfer,
        ContractFunction::BeneficiacyAllowance,
        ContractFunction::BalancOf,
        ContractFunction::UnlockedBenList,
        ContractFunction::BenList,
        ContractFunction::RequireToUnlock,
        ContractFunction::UnlockTime,
        ContractFunction::PublicUnlockTime,
    ]
}

/// The label under which a function is shown.
pub open spec fn label_text(f: ContractFunction) -> Seq<char> {
    match f {
        ContractFunction::AddBeneficiary => "Add Beneficiary"@,
        ContractFunction::ModifyBeneficiaryShare => "Modify Beneficiary Share"@,
        ContractFunction::UnAddBeneficiary => "Remove Beneficiary"@,
        ContractFunction::ResetUnlocked => "Reset Unlocked"@,
        ContractFunction::RequireToUnlockAll => "Set Required Unlock Count"@,
        ContractFunction::SetUnlockTimeByOwner => "Set Unlock Time"@,
        ContractFunction::Withdraw => "Withdraw"@,
        ContractFunction::Unlock => "Unlock"@,
        ContractFunction::Transfer => "Claim Your Share"@,
        ContractFunction::BeneficiacyAllowance => "Check Allowance"@,
        ContractFunction::BalancOf => "Contract Balance"@,
        ContractFunction::UnlockedBenList => "Unlocked Beneficiaries"@,
        ContractFunction::BenList => "All Beneficiaries"@,
        ContractFunction::RequireToUnlock => "Required Unlock Count"@,
        ContractFunction::UnlockTime => "Unlock Time (Owner)"@,
        ContractFunction::PublicUnlockTime => "Public Unlock Time"@,
    }
}

/// The slug that names a function in the route `/function/:func`.
pub open spec fn slug_text(f: ContractFunction) -> Seq<char> {
    match f {
        ContractFunction::AddBeneficiary => "add-beneficiary"@,
        ContractFunction::ModifyBeneficiaryShare => "modify-beneficiary-share"@,
        ContractFunction::UnAddBeneficiary => "un-add-beneficiary"@,
        ContractFunction::ResetUnlocked => "reset-unlocked"@,
        ContractFunction::RequireToUnlockAll => "require-to-unlock-all"@,
        ContractFunction::SetUnlockTimeByOwner => "set-unlock-time"@,
        ContractFunction::Withdraw => "withdraw"@,
        ContractFunction::Unlock => "unlock"@,
        ContractFunction::Transfer => "transfer"@,
        ContractFunction::BeneficiacyAllowance => "beneficiacy-allowance"@,
        ContractFunction::BalancOf => "balanc-of"@,
        ContractFunction::UnlockedBenList => "unlocked-ben-list"@,
        ContractFunction::BenList => "ben-list"@,
        ContractFunction::RequireToUnlock => "require-to-unlock"@,
        ContractFunction::UnlockTime => "unlock-time"@,
        ContractFunction::PublicUnlockTime => "public-unlock-time"@,
    }
}

/// Whether calling the function sends a transaction.
pub open spec fn writes(f: ContractFunction) -> bool {
    matches!(
        f,
        ContractFunction::AddBeneficiary | ContractFunction::ModifyBeneficiaryShare
            | ContractFunction::UnAddBeneficiary | ContractFunction::ResetUnlocked
            | ContractFunction::RequireToUnlockAll | ContractFunction::SetUnlockTimeByOwner
            | ContractFunction::Withdraw | ContractFunction::Unlock | ContractFunction::Transfer
    )
}

/// Whether the function may be called on a contract other than the wallet's own.
pub open spec fn external_allowed(f: ContractFunction) -> bool {
    matches!(
        f,
        ContractFunction::Unlock | ContractFunction::Transfer
            | ContractFunction::BeneficiacyAllowance | ContractFunction::UnlockedBenList
            | ContractFunction::BenList | ContractFunction::RequireToUnlock
            | ContractFunction::PublicUnlockTime
    )
}

impl ContractFunction {
    /// The label under which the function is shown (its display text).
    pub fn label(&self) -> (r: &'static str)
        ensures
            r@ == label_text(*self),
    {
        match self {
            ContractFunction::AddBeneficiary => "Add Beneficiary",
            ContractFunction::ModifyBeneficiaryShare => "Modify Beneficiary Share",
            ContractFunction::UnAddBeneficiary => "Remove Beneficiary",
            ContractFunction::ResetUnlocked => "Reset Unlocked",
            ContractFunction::RequireToUnlockAll => "Set Required Unlock Count",
            ContractFunction::SetUnlockTimeByOwner => "Set Unlock Time",
            ContractFunction::Withdraw => "Withdraw",
            ContractFunction::Unlock => "Unlock",
            ContractFunction::Transfer => "Claim Your Share",
            ContractFunction::BeneficiacyAllowance => "Check Allowance",
            ContractFunction::BalancOf => "Contract Balance",
            ContractFunction::UnlockedBenList => "Unlocked Beneficiaries",
            ContractFunction::BenList => "All Beneficiaries",
            ContractFunction::RequireToUnlock => "Required Unlock Count",
            ContractFunction::UnlockTime => "Unlock Time (Owner)",
            ContractFunction::PublicUnlockTime => "Public Unlock Time",
        }
    }

    /// The display text of the function, as an owned string.
    pub fn to_string(&self) -> (r: String)
        ensures
            r@ == label_text(*self),
    {
        self.label().to_owned()
    }

    /// Whether the function may be called on a contract other than the wallet's own.
    pub fn allows_external_contract(&self) -> (r: bool)
        ensures
            r == external_allowed(*self),
    {
        matches!(
            self,
            ContractFunction::Unlock | ContractFunction::Transfer
                | ContractFunction::BeneficiacyAllowance | ContractFunction::UnlockedBenList
                | ContractFunction::BenList | ContractFunction::RequireToUnlock
                | ContractFunction::PublicUnlockTime
        )
    }

    /// The slug that names the function in routes.
    pub fn slug(&self) -> (r: &'static str)
        ensures
            r@ == slug_text(*self),
    {
        match self {
            ContractFunction::AddBeneficiary => "add-beneficiary",
            ContractFunction::ModifyBeneficiaryShare => "modify-beneficiary-share",
            ContractFunction::UnAddBeneficiary => "un-add-beneficiary",
            ContractFunction::ResetUnlocked => "reset-unlocked",
            ContractFunction::RequireToUnlockAll => "require-to-unlock-all",
            ContractFunction::SetUnlockTimeByOwner => "set-unlock-time",
            ContractFunction::Withdraw => "withdraw",
            ContractFunction::Unlock => "unlock",
            ContractFunction::Transfer => "transfer",
            ContractFunction::BeneficiacyAllowance => "beneficiacy-allowance",
            ContractFunction::BalancOf => "balanc-of",
            ContractFunction::UnlockedBenList => "unlocked-ben-list",
            ContractFunction::BenList => "ben-list",
            ContractFunction::RequireToUnlock => "require-to-unlock",
            ContractFunction::UnlockTime => "unlock-time",
            ContractFunction::PublicUnlockTime => "public-unlock-time",
        }
    }

    /// Every contract function, in declaration order.
    pub fn all() -> (r: Vec<ContractFunction>)
        ensures
            r@ == all_functions(),
    {
        let r = vec![
            ContractFunction::AddBeneficiary,
            ContractFunction::ModifyBeneficiaryShare,
            ContractFunction::UnAddBeneficiary,
            ContractFunction::ResetUnlocked,
            ContractFunction::RequireToUnlockAll,
            ContractFunction::SetUnlockTimeByOwner,
            ContractFunction::Withdraw,
            ContractFunction::Unlock,
            ContractFunction::Transfer,
            ContractFunction::BeneficiacyAllowance,
            ContractFunction::BalancOf,
            ContractFunction::UnlockedBenList,
            ContractFunction::BenList,
            ContractFunction::RequireToUnlock,
            ContractFunction::UnlockTime,
            ContractFunction::PublicUnlockTime,
        ];
        assert(r@ =~= all_functions());
        r
    }

    /// The function that a slug names, if any.
    pub fn from_slug(s: &str) -> (r: Option<ContractFunction>)
        ensures
            forall|f: ContractFunction| #![trigger slug_text(f)] (r == Some(f)) <==> slug_text(f) == s@,
    {
        let all = ContractFunction::all();
        let mut i: usize = 0;
        while i < all.len()
            invariant
                all@ == all_functions(),
                i <= all@.len(),
                forall|k: int| 0 <= k < i ==> slug_text(#[trigger] all@[k]) != s@,
            decreases all@.len() - i,
        {
            let f = all[i];
            if crate::text::str_eq(s, f.slug()) {
                proof {
                    assert forall|g: ContractFunction| slug_text(g) == s@ implies g == f by {
                        lemma_slugs_distinct(f, g);
                    }
                }
                return Some(f);
            }
            i = i + 1;
        }
        proof {
            assert forall|g: ContractFunction| slug_text(g) != s@ by {
                lemma_every_function_listed(g);
                let k = choose|k: int| 0 <= k < all@.len() && all@[k] == g;
                assert(slug_text(all@[k]) != s@);
            }
        }
        None
    }

    /// Whether calling the function sends a transaction.
    pub fn is_write(&self) -> (r: bool)
        ensures
            r == writes(*self),
    {
        matches!(
            self,
            ContractFunction::AddBeneficiary | ContractFunction::ModifyBeneficiaryShare
                | ContractFunction::UnAddBeneficiary | ContractFunction::ResetUnlocked
                | ContractFunction::RequireToUnlockAll | ContractFunction::SetUnlockTimeByOwner
                | ContractFunction::Withdraw | ContractFunction::Unlock | ContractFunction::Transfer
        )
    }
}


/// Law: different functions have different slugs.
pub proof fn lemma_slugs_distinct(f: ContractFunction, g: ContractFunction)
    ensures
        slug_text(f) == slug_text(g) ==> f == g,
{
    if slug_text(f) == slug_text(g) && f != g {
        reveal_strlit("add-beneficiary");
        reveal_strlit("modify-beneficiary-share");
        reveal_strlit("un-add-beneficiary");
        reveal_strlit("reset-unlocked");
        reveal_strlit("require-to-unlock-all");
        reveal_strlit("set-unlock-time");
        reveal_strlit("withdraw");
        reveal_strlit("unlock");
        reveal_strlit("transfer");
        reveal_strlit("beneficiacy-allowance");
        reveal_strlit("balanc-of");
        reveal_strlit("unlocked-ben-list");
        reveal_strlit("ben-list");
        reveal_strlit("require-to-unlock");
        reveal_strlit("unlock-time");
        reveal_strlit("public-unlock-time");
        let a = slug_text(f);
        let b = slug_text(g);
        assert(a.len() == b.len());
        assert(a[0] == b[0] && a[1] == b[1] && a[2] == b[2]);
    }
}


/// The input fields of a function, in the order in which they are read.
pub open spec fn function_fields(f: ContractFunction) -> Seq<(Seq<char>, Seq<char>, FieldKind)> {
    match f {
        ContractFunction::AddBeneficiary => seq![("Beneficiary Address"@, "0x..."@, FieldKind::Address), ("Share (e.g. 1.5)"@, "1.5"@, FieldKind::EtherAmount), ("Name"@, "e.g. John"@, FieldKind::Text)],
        ContractFunction::ModifyBeneficiaryShare => seq![("New Share (e.g. 1.5)"@, "1.5"@, FieldKind::EtherAmount), ("Beneficiary Address"@, "0x..."@, FieldKind::Address)],
        ContractFunction::UnAddBeneficiary => seq![("Beneficiary Address"@, "0x..."@, FieldKind::Address)],
        ContractFunction::RequireToUnlockAll => seq![("Required Count"@, "e.g. 2"@, FieldKind::Uint256)],
        ContractFunction::SetUnlockTimeByOwner => seq![("Unlock Duration from now"@, "e.g. 8"@, FieldKind::Duration)],
        ContractFunction::Withdraw => seq![("Amount (e.g. 1.5)"@, "1.5"@, FieldKind::EtherAmount)],
        ContractFunction::BeneficiacyAllowance => seq![("Beneficiary Address"@, "0x..."@, FieldKind::Address)],
        _ => seq![],
    }
}

/// Whether `s` ends with `t`.
pub open spec fn ends_with(s: Seq<char>, t: Seq<char>) -> bool {
    t.len() <= s.len() && s.skip(s.len() - t.len()) == t
}

/// Law: what a field shows says what it reads. Address fields, and only
/// they, show the placeholder `0x...` and a label that ends in `Address`;
/// ether-amount fields, and only they, show the placeholder `1.5` and a
/// label that ends in `(e.g. 1.5)`.
pub proof fn lemma_field_text_follows_kind(f: ContractFunction, i: int)
    requires
        0 <= i < function_fields(f).len(),
    ensures
        ({
            let (label, placeholder, kind) = function_fields(f)[i];
            &&& (kind == FieldKind::Address) == (placeholder == "0x..."@)
            &&& (kind == FieldKind::Address) == ends_with(label, "Address"@)
            &&& (kind == FieldKind::EtherAmount) == (placeholder == "1.5"@)
            &&& (kind == FieldKind::EtherAmount) == ends_with(label, "(e.g. 1.5)"@)
        }),
{
    let fs = function_fields(f);
    let (label, placeholder, kind) = fs[i];
    reveal_strlit("0x...");
    reveal_strlit("1.5");
    reveal_strlit("Address");
    reveal_strlit("(e.g. 1.5)");
    reveal_strlit("Beneficiary Address");
    reveal_strlit("Share (e.g. 1.5)");
    reveal_strlit("Name");
    reveal_strlit("e.g. John");
    reveal_strlit("New Share (e.g. 1.5)");
    reveal_strlit("Required Count");
    reveal_strlit("e.g. 2");
    reveal_strlit("Unlock Duration from now");
    reveal_strlit("e.g. 8");
    reveal_strlit("Amount (e.g. 1.5)");
    if kind == FieldKind::Address {
        assert(label == "Beneficiary Address"@);
        assert(placeholder == "0x..."@);
        assert(placeholder.len() != "1.5"@.len());
        assert(label.skip(label.len() - 7) =~= "Address"@);
        lemma_not_ends_with_last(label, "(e.g. 1.5)"@);
    } else if kind == FieldKind::EtherAmount {
        assert(label.len() >= 10);
        assert(label.skip(label.len() - 10) =~= "(e.g. 1.5)"@);
        assert(ends_with(label, "(e.g. 1.5)"@));
        lemma_not_ends_with_last(label, "Address"@);
        assert(placeholder == "1.5"@);
        assert(placeholder.len() != "0x..."@.len());
    } else {
        lemma_not_ends_with_last(label, "Address"@);
        lemma_not_ends_with_last(label, "(e.g. 1.5)"@);
        assert(placeholder.len() == 6 || placeholder.len() == 9);
        assert(placeholder.len() != "0x..."@.len());
        assert(placeholder.len() != "1.5"@.len());
    }
    assert((kind == FieldKind::Address) == (placeholder == "0x..."@));
    assert((kind == FieldKind::Address) == ends_with(label, "Address"@));
    assert((kind == FieldKind::EtherAmount) == (placeholder == "1.5"@));
    assert((kind == FieldKind::EtherAmount) == ends_with(label, "(e.g. 1.5)"@));
}

proof fn lemma_not_ends_with_last(s: Seq<char>, t: Seq<char>)
    requires
        t.len() > 0,
        s.len() == 0 || s.last() != t.last(),
    ensures
        !ends_with(s, t),
{
    if ends_with(s, t) {
        assert(s.skip(s.len() - t.len())[t.len() - 1] == s.last());
    }
}

/// The kinds of the input fields of a function, in order.
pub open spec fn field_kinds(f: ContractFunction) -> Seq<FieldKind> {
    function_fields(f).map_values(|x: (Seq<char>, Seq<char>, FieldKind)| x.2)
}

/// An input field of a contract function.
#[derive(Clone, Copy)]
pub struct FieldSpec {
    pub label: &'static str,
    pub placeholder: &'static str,
    pub kind: FieldKind,
}

impl View for FieldSpec {
    type V = (Seq<char>, Seq<char>, FieldKind);

    open spec fn view(&self) -> (Seq<char>, Seq<char>, FieldKind) {
        (self.label@, self.placeholder@, self.kind)
    }
}

/// The input fields that a function takes, in the order in which they are read.
pub fn fields_for(func: &ContractFunction) -> (r: Vec<FieldSpec>)
    ensures
        r@.map_values(|x: FieldSpec| x@) == function_fields(*func),
{
    let r = match func {
            ContractFunction::AddBeneficiary => vec![
                FieldSpec { label: "Beneficiary Address", placeholder: "0x...", kind: FieldKind::Address },
                FieldSpec { label: "Share (e.g. 1.5)", placeholder: "1.5", kind: FieldKind::EtherAmount },
                FieldSpec { label: "Name", placeholder: "e.g. John", kind: FieldKind::Text },
            ],
            ContractFunction::ModifyBeneficiaryShare => vec![
                FieldSpec { label: "New Share (e.g. 1.5)", placeholder: "1.5", kind: FieldKind::EtherAmount },
                FieldSpec { label: "Beneficiary Address", placeholder: "0x...", kind: FieldKind::Address },
            ],
            ContractFunction::UnAddBeneficiary => vec![
                FieldSpec { label: "Beneficiary Address", placeholder: "0x...", kind: FieldKind::Address },
            ],
            ContractFunction::RequireToUnlockAll => vec![
                FieldSpec { label: "Required Count", placeholder: "e.g. 2", kind: FieldKind::Uint256 },
            ],
            ContractFunction::SetUnlockTimeByOwner => vec![
                FieldSpec { label: "Unlock Duration from now", placeholder: "e.g. 8", kind: FieldKind::Duration },
            ],
            ContractFunction::Withdraw => vec![
                FieldSpec { label: "Amount (e.g. 1.5)", placeholder: "1.5", kind: FieldKind::EtherAmount },
            ],
            ContractFunction::BeneficiacyAllowance => vec![
                FieldSpec { label: "Beneficiary Address", placeholder: "0x...", kind: FieldKind::Address },
            ],
            _ => vec![],
    };
    assert(r@.map_values(|x: FieldSpec| x@) =~= function_fields(*func));
    r
}

/// The write functions that the owner of a trust calls, in the order in which the panel lists them.
pub open spec fn owner_section() -> Seq<ContractFunction> {
    seq![
        ContractFunction::AddBeneficiary,
        ContractFunction::ModifyBeneficiaryShare,
        ContractFunction::UnAddBeneficiary,
        ContractFunction::ResetUnlocked,
        ContractFunction::RequireToUnlockAll,
        ContractFunction::SetUnlockTimeByOwner,
        ContractFunction::Withdraw,
    ]
}

/// The write functions that the owner of a trust calls, in the order in which the panel lists them.
pub fn owner_functions() -> (r: Vec<ContractFunction>)
    ensures
        r@ == owner_section(),
{
    let r = vec![
        ContractFunction::AddBeneficiary,
        ContractFunction::ModifyBeneficiaryShare,
        ContractFunction::UnAddBeneficiary,
        ContractFunction::ResetUnlocked,
        ContractFunction::RequireToUnlockAll,
        ContractFunction::SetUnlockTimeByOwner,
        ContractFunction::Withdraw,
    ];
    assert(r@ =~= owner_section());
    r
}

/// The write functions that a beneficiary calls, in the order in which the panel lists them.
pub open spec fn beneficiary_section() -> Seq<ContractFunction> {
    seq![
        ContractFunction::Unlock,
        ContractFunction::Transfer,
    ]
}

/// The write functions that a beneficiary calls, in the order in which the panel lists them.
pub fn beneficiary_functions() -> (r: Vec<ContractFunction>)
    ensures
        r@ == beneficiary_section(),
{
    let r = vec![
        ContractFunction::Unlock,
        ContractFunction::Transfer,
    ];
    assert(r@ =~= beneficiary_section());
    r
}

/// The read-only functions, in the order in which the panel lists them.
pub open spec fn view_section() -> Seq<ContractFunction> {
    seq![
        ContractFunction::BeneficiacyAllowance,
        ContractFunction::BalancOf,
        ContractFunction::UnlockedBenList,
        ContractFunction::BenList,
        ContractFunction::RequireToUnlock,
        ContractFunction::UnlockTime,
        ContractFunction::PublicUnlockTime,
    ]
}

/// The read-only functions, in the order in which the panel lists them.
pub fn view_functions() -> (r: Vec<ContractFunction>)
    ensures
        r@ == view_section(),
{
    let r = vec![
        ContractFunction::BeneficiacyAllowance,
        ContractFunction::BalancOf,
        ContractFunction::UnlockedBenList,
        ContractFunction::BenList,
        ContractFunction::RequireToUnlock,
        ContractFunction::UnlockTime,
        ContractFunction::PublicUnlockTime,
    ];
    assert(r@ =~= view_section());
    r
}

/// Law: the panel's three sections list every function exactly once; the
/// owner and beneficiary sections hold exactly the write functions and the
/// view section exactly the others.
pub proof fn lemma_panel_partition(f: ContractFunction)
    ensures
        (owner_section().contains(f) || beneficiary_section().contains(f)) <==> writes(f),
        view_section().contains(f) <==> !writes(f),
        !(owner_section().contains(f) && beneficiary_section().contains(f)),
        (owner_section() + beneficiary_section() + view_section()).len() == all_functions().len(),
        (owner_section() + beneficiary_section() + view_section()).no_duplicates(),
{
    let o = owner_section();
    let b = beneficiary_section();
    let v = view_section();
    let all = o + b + v;
    assert(all =~= all_functions());
    assert forall|i: int, j: int| 0 <= i < all.len() && 0 <= j < all.len() && i != j implies all[i]
        != all[j] by {
        assert(all[i] == all_functions()[i]);
        assert(all[j] == all_functions()[j]);
    }
    match f {
        ContractFunction::AddBeneficiary => assert(o[0] == f),
        ContractFunction::ModifyBeneficiaryShare => assert(o[1] == f),
        ContractFunction::UnAddBeneficiary => assert(o[2] == f),
        ContractFunction::ResetUnlocked => assert(o[3] == f),
        ContractFunction::RequireToUnlockAll => assert(o[4] == f),
        ContractFunction::SetUnlockTimeByOwner => assert(o[5] == f),
        ContractFunction::Withdraw => assert(o[6] == f),
        ContractFunction::Unlock => assert(b[0] == f),
        ContractFunction::Transfer => assert(b[1] == f),
        ContractFunction::BeneficiacyAllowance => assert(v[0] == f),
        ContractFunction::BalancOf => assert(v[1] == f),
        ContractFunction::UnlockedBenList => assert(v[2] == f),
        ContractFunction::BenList => assert(v[3] == f),
        ContractFunction::RequireToUnlock => assert(v[4] == f),
        ContractFunction::UnlockTime => assert(v[5] == f),
        ContractFunction::PublicUnlockTime => assert(v[6] == f),
    }
}

/// Law: a transaction may be sent to another trust's contract exactly when
/// it is one that a beneficiary sends (unlocking and claiming a share); the
/// owner's transactions go to the wallet's own contract only.
pub proof fn lemma_beneficiary_calls_reach_other_trusts(f: ContractFunction)
    ensures
        beneficiary_section().contains(f) ==> external_allowed(f),
        writes(f) ==> (external_allowed(f) <==> beneficiary_section().contains(f)),
{
    let b = beneficiary_section();
    if f == ContractFunction::Unlock {
        assert(b[0] == f);
    }
    if f == ContractFunction::Transfer {
        assert(b[1] == f);
    }
}

/// Law: every function is in the catalogue.
pub proof fn lemma_every_function_listed(f: ContractFunction)
    ensures
        all_functions().contains(f),
{
    let a = all_functions();
    match f {
        ContractFunction::AddBeneficiary => assert(a[0] == f),
        ContractFunction::ModifyBeneficiaryShare => assert(a[1] == f),
        ContractFunction::UnAddBeneficiary => assert(a[2] == f),
        ContractFunction::ResetUnlocked => assert(a[3] == f),
        ContractFunction::RequireToUnlockAll => assert(a[4] == f),
        ContractFunction::SetUnlockTimeByOwner => assert(a[5] == f),
        ContractFunction::Withdraw => assert(a[6] == f),
        ContractFunction::Unlock => assert(a[7] == f),
        ContractFunction::Transfer => assert(a[8] == f),
        ContractFunction::BeneficiacyAllowance => assert(a[9] == f),
        ContractFunction::BalancOf => assert(a[10] == f),
        ContractFunction::UnlockedBenList => assert(a[11] == f),
        ContractFunction::BenList => assert(a[12] == f),
        ContractFunction::RequireToUnlock => assert(a[13] == f),
        ContractFunction::UnlockTime => assert(a[14] == f),
        ContractFunction::PublicUnlockTime => assert(a[15] == f),
    }
}

} // verus!
