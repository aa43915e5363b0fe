//! The calls that the app makes on a `FamilyTrust` contract: which contract
//! method a function calls with which arguments, read from the text fields,
//! and how results and failures are turned into text.

use vstd::prelude::*;
use crate::eth::{
    EvmAddress, Uint256, fixed_hex, ether_text_wei, ether_text_panics, u256_text_value,
    parse_address, parse_ether_amount, parse_u256,
};
use crate::functions::{ContractFunction, FieldKind, field_kinds, writes};
use crate::text::trimmed;

verus! {

/// What a read-only call gives back to show.
pub enum ReadOutput {
    Text(String),
    List(Vec<String>),
}

/// A read-only contract call with its arguments.
#[derive(Clone, Copy, Debug)]
pub enum ReadCall {
    BeneficiacyAllowance(EvmAddress),
    BalancOf,
    UnlockedBenList,
    BenList,
    RequireToUnlock,
    UnlockTime,
    PublicUnlockTime,
}

/// A read-only contract call as a value: an address argument as its bytes.
pub enum ReadCallView {
    BeneficiacyAllowance(Seq<u8>),
    BalancOf,
    UnlockedBenList,
    BenList,
    RequireToUnlock,
    UnlockTime,
    PublicUnlockTime,
}

impl View for ReadCall {
    type V = ReadCallView;

    open spec fn view(&self) -> ReadCallView {
        match self {
            ReadCall::BeneficiacyAllowance(a) => ReadCallView::BeneficiacyAllowance(a@),
            ReadCall::BalancOf => ReadCallView::BalancOf,
            ReadCall::UnlockedBenList => ReadCallView::UnlockedBenList,
            ReadCall::BenList => ReadCallView::BenList,
            ReadCall::RequireToUnlock => ReadCallView::RequireToUnlock,
            ReadCall::UnlockTime => ReadCallView::UnlockTime,
            ReadCall::PublicUnlockTime => ReadCallView::PublicUnlockTime,
        }
    }
}

/// A transaction to send to the contract, with its arguments.
#[derive(Debug)]
pub enum WriteCall {
    AddBeneficiary { beneficiary: EvmAddress, share: Uint256, name: String },
    ModifyBeneficiaryShare { share: Uint256, beneficiary: EvmAddress },
    UnAddBeneficiary(EvmAddress),
    Unlock,
    ResetUnlocked,
    RequireToUnlockAll(Uint256),
    SetUnlockTimeByOwner(Uint256),
    Transfer,
    Withdraw(Uint256),
}

/// A transaction as a value: addresses as bytes, amounts as numbers, text as characters.
pub enum WriteCallView {
    AddBeneficiary { beneficiary: Seq<u8>, share: nat, name: Seq<char> },
    ModifyBeneficiaryShare { share: nat, beneficiary: Seq<u8> },
    UnAddBeneficiary(Seq<u8>),
    Unlock,
    ResetUnlocked,
    RequireToUnlockAll(nat),
    SetUnlockTimeByOwner(nat),
    Transfer,
    Withdraw(nat),
}

impl View for WriteCall {
    type V = WriteCallView;

    open spec fn view(&self) -> WriteCallView {
        match self {
            WriteCall::AddBeneficiary { beneficiary, share, name } => WriteCallView::AddBeneficiary {
                beneficiary: beneficiary@,
                share: share@,
                name: name@,
            },
            WriteCall::ModifyBeneficiaryShare { share, beneficiary } =>
                WriteCallView::ModifyBeneficiaryShare { share: share@, beneficiary: beneficiary@ },
            WriteCall::UnAddBeneficiary(a) => WriteCallView::UnAddBeneficiary(a@),
            WriteCall::Unlock => WriteCallView::Unlock,
            WriteCall::ResetUnlocked => WriteCallView::ResetUnlocked,
            WriteCall::RequireToUnlockAll(n) => WriteCallView::RequireToUnlockAll(n@),
            WriteCall::SetUnlockTimeByOwner(n) => WriteCallView::SetUnlockTimeByOwner(n@),
            WriteCall::Transfer => WriteCallView::Transfer,
            WriteCall::Withdraw(n) => WriteCallView::Withdraw(n@),
        }
    }
}

/// An address argument read from a text field.
pub open spec fn address_arg(s: Seq<char>) -> Result<Seq<u8>, Seq<char>> {
    match fixed_hex(trimmed(s), 20) {
        Some(b) => Ok(b),
        None => Err("Invalid address"@),
    }
}

/// An ether amount argument read from a text field, in wei.
pub open spec fn ether_arg(s: Seq<char>) -> Result<nat, Seq<char>> {
    match ether_text_wei(trimmed(s)) {
        Some(v) => Ok(v),
        None => Err("Invalid amount"@),
    }
}

/// An unsigned integer argument read from a text field.
pub open spec fn uint_arg(s: Seq<char>) -> Result<nat, Seq<char>> {
    match u256_text_value(trimmed(s)) {
        Some(v) => Ok(v),
        None => Err("Invalid number"@),
    }
}

/// The read-only call that a function makes with the first text field, or
/// the error that the app shows.
pub open spec fn read_plan(func: ContractFunction, f1: Seq<char>) -> Result<ReadCallView, Seq<char>> {
    match func {
        ContractFunction::BeneficiacyAllowance => match address_arg(f1) {
            Ok(a) => Ok(ReadCallView::BeneficiacyAllowance(a)),
            Err(e) => Err(e),
        },
        ContractFunction::BalancOf => Ok(ReadCallView::BalancOf),
        ContractFunction::UnlockedBenList => Ok(ReadCallView::UnlockedBenList),
        ContractFunction::BenList => Ok(ReadCallView::BenList),
        ContractFunction::RequireToUnlock => Ok(ReadCallView::RequireToUnlock),
        ContractFunction::UnlockTime => Ok(ReadCallView::UnlockTime),
        ContractFunction::PublicUnlockTime => Ok(ReadCallView::PublicUnlockTime),
        _ => Err("Not a read function"@),
    }
}

/// The transaction that a function sends with the three text fields, or the
/// error that the app shows. Fields are read in order and the first that
/// cannot be read gives the error.
pub open spec fn write_plan(
    func: ContractFunction,
    f1: Seq<char>,
    f2: Seq<char>,
    f3: Seq<char>,
) -> Result<WriteCallView, Seq<char>> {
    match func {
        ContractFunction::AddBeneficiary => match address_arg(f1) {
            Err(e) => Err(e),
            Ok(a) => match ether_arg(f2) {
                Err(e) => Err(e),
                Ok(w) => Ok(WriteCallView::AddBeneficiary { beneficiary: a, share: w, name: f3 }),
            },
        },
        ContractFunction::ModifyBeneficiaryShare => match ether_arg(f1) {
            Err(e) => Err(e),
            Ok(w) => match address_arg(f2) {
                Err(e) => Err(e),
                Ok(a) => Ok(WriteCallView::ModifyBeneficiaryShare { share: w, beneficiary: a }),
            },
        },
        ContractFunction::UnAddBeneficiary => match address_arg(f1) {
            Err(e) => Err(e),
            Ok(a) => Ok(WriteCallView::UnAddBeneficiary(a)),
        },
        ContractFunction::Unlock => Ok(WriteCallView::Unlock),
        ContractFunction::ResetUnlocked => Ok(WriteCallView::ResetUnlocked),
        ContractFunction::RequireToUnlockAll => match uint_arg(f1) {
            Err(e) => Err(e),
            Ok(v) => Ok(WriteCallView::RequireToUnlockAll(v)),
        },
        ContractFunction::SetUnlockTimeByOwner => match uint_arg(f1) {
            Err(e) => Err(e),
            Ok(v) => Ok(WriteCallView::SetUnlockTimeByOwner(v)),
        },
        ContractFunction::Transfer => Ok(WriteCallView::Transfer),
        ContractFunction::Withdraw => match ether_arg(f1) {
            Err(e) => Err(e),
            Ok(w) => Ok(WriteCallView::Withdraw(w)),
        },
        _ => Err("Not a write function"@),
    }
}

/// Whether reading the ether amounts of a transaction's fields stays clear
/// of the inputs on which `parse_ether` panics.
pub open spec fn write_inputs_readable(func: ContractFunction, f1: Seq<char>, f2: Seq<char>) -> bool {
    match func {
        ContractFunction::AddBeneficiary => address_arg(f1) is Ok ==> !ether_text_panics(
            trimmed(f2),
        ),
        ContractFunction::ModifyBeneficiaryShare => !ether_text_panics(trimmed(f1)),
        ContractFunction::Withdraw => !ether_text_panics(trimmed(f1)),
        _ => true,
    }
}

/// The read-only call that a function makes, its address argument read from
/// the first text field.
pub fn plan_read(func: &ContractFunction, f1: &str) -> (r: Result<ReadCall, String>)
    ensures
        match r {
            Ok(c) => read_plan(*func, f1@) == Ok::<ReadCallView, Seq<char>>(c@),
            Err(e) => read_plan(*func, f1@) == Err::<ReadCallView, Seq<char>>(e@),
        },
{
    match func {
        ContractFunction::BeneficiacyAllowance => match parse_address(f1) {
            Ok(a) => Ok(ReadCall::BeneficiacyAllowance(a)),
            Err(e) => Err(e),
        },
        ContractFunction::BalancOf => Ok(ReadCall::BalancOf),
        ContractFunction::UnlockedBenList => Ok(ReadCall::UnlockedBenList),
        ContractFunction::BenList => Ok(ReadCall::BenList),
        ContractFunction::RequireToUnlock => Ok(ReadCall::RequireToUnlock),
        ContractFunction::UnlockTime => Ok(ReadCall::UnlockTime),
        ContractFunction::PublicUnlockTime => Ok(ReadCall::PublicUnlockTime),
        _ => Err("Not a read function".to_owned()),
    }
}

/// The transaction that a function sends, its arguments read from the text
/// fields in order.
pub fn plan_write(func: &ContractFunction, f1: &str, f2: &str, f3: &str) -> (r: Result<WriteCall, String>)
    requires
        write_inputs_readable(*func, f1@, f2@),
    ensures
        match r {
            Ok(c) => write_plan(*func, f1@, f2@, f3@) == Ok::<WriteCallView, Seq<char>>(c@),
            Err(e) => write_plan(*func, f1@, f2@, f3@) == Err::<WriteCallView, Seq<char>>(e@),
        },
{
    match func {
        ContractFunction::AddBeneficiary => {
            let beneficiary = match parse_address(f1) {
                Ok(a) => a,
                Err(e) => return Err(e),
            };
            let share = match parse_ether_amount(f2) {
                Ok(v) => v,
                Err(e) => return Err(e),
            };
            Ok(WriteCall::AddBeneficiary { beneficiary, share, name: f3.to_owned() })
        },
        ContractFunction::ModifyBeneficiaryShare => {
            let share = match parse_ether_amount(f1) {
                Ok(v) => v,
                Err(e) => return Err(e),
            };
            let beneficiary = match parse_address(f2) {
                Ok(a) => a,
                Err(e) => return Err(e),
            };
            Ok(WriteCall::ModifyBeneficiaryShare { share, beneficiary })
        },
        ContractFunction::UnAddBeneficiary => match parse_address(f1) {
            Ok(a) => Ok(WriteCall::UnAddBeneficiary(a)),
            Err(e) => Err(e),
        },
        ContractFunction::Unlock => Ok(WriteCall::Unlock),
        ContractFunction::ResetUnlocked => Ok(WriteCall::ResetUnlocked),
        ContractFunction::RequireToUnlockAll => match parse_u256(f1) {
            Ok(v) => Ok(WriteCall::RequireToUnlockAll(v)),
            Err(e) => Err(e),
        },
        ContractFunction::SetUnlockTimeByOwner => match parse_u256(f1) {
            Ok(v) => Ok(WriteCall::SetUnlockTimeByOwner(v)),
            Err(e) => Err(e),
        },
        ContractFunction::Transfer => Ok(WriteCall::Transfer),
        ContractFunction::Withdraw => match parse_ether_amount(f1) {
            Ok(v) => Ok(WriteCall::Withdraw(v)),
            Err(e) => Err(e),
        },
        _ => Err("Not a write function".to_owned()),
    }
}

/// Whether the amounts of a transaction's fields can be read without
/// reaching an input on which `parse_ether` panics (see
/// [`write_inputs_readable`]).
pub fn can_read_write_inputs(func: &ContractFunction, f1: &str, f2: &str) -> (r: bool)
    ensures
        r == write_inputs_readable(*func, f1@, f2@),
{
    match func {
        ContractFunction::AddBeneficiary => match parse_address(f1) {
            Ok(_) => !crate::eth::ether_text_would_panic(crate::text::trim(f2)),
            Err(_) => true,
        },
        ContractFunction::ModifyBeneficiaryShare | ContractFunction::Withdraw =>
            !crate::eth::ether_text_would_panic(crate::text::trim(f1)),
        _ => true,
    }
}

/// Whether a text field of the given kind holds a value that can be read.
pub open spec fn field_accepts(kind: FieldKind, s: Seq<char>) -> bool {
    match kind {
        FieldKind::Address => address_arg(s) is Ok,
        FieldKind::EtherAmount => ether_arg(s) is Ok,
        FieldKind::Uint256 | FieldKind::Duration => uint_arg(s) is Ok,
        FieldKind::Text => true,
    }
}

/// Whether each input holds a value that the field of the same position can read.
pub open spec fn fields_accept(kinds: Seq<FieldKind>, inputs: Seq<Seq<char>>) -> bool {
    forall|i: int| 0 <= i < kinds.len() ==> field_accepts(#[trigger] kinds[i], inputs[i])
}

/// Law: a function's call is made exactly when each of its input fields, as
/// `fields_for` lists them, holds a value of its kind; transactions read the
/// three fields, read-only calls the first.
pub proof fn lemma_calls_read_exactly_the_fields(
    func: ContractFunction,
    f1: Seq<char>,
    f2: Seq<char>,
    f3: Seq<char>,
)
    ensures
        writes(func) ==> ((write_plan(func, f1, f2, f3) is Ok) <==> fields_accept(
            field_kinds(func),
            seq![f1, f2, f3],
        )),
        !writes(func) ==> ((read_plan(func, f1) is Ok) <==> fields_accept(
            field_kinds(func),
            seq![f1],
        )),
{
    let k = field_kinds(func);
    let fs = crate::functions::function_fields(func);
    assert(k.len() == fs.len());
    assert(forall|i: int| 0 <= i < fs.len() ==> k[i] == fs[i].2);
    let ins = seq![f1, f2, f3];
    assert(ins[0] == f1 && ins[1] == f2 && ins[2] == f3);
    if fields_accept(k, ins) {
        assert(k.len() > 0 ==> field_accepts(k[0], ins[0]));
        assert(k.len() > 1 ==> field_accepts(k[1], ins[1]));
    }
    if fields_accept(k, seq![f1]) {
        assert(k.len() > 0 ==> field_accepts(k[0], seq![f1][0]));
    }
}

/// An argument of a contract call as a value: an address as its bytes, an
/// ether amount in wei, a number, or text.
pub enum ArgView {
    Address(Seq<u8>),
    Amount(nat),
    Number(nat),
    Text(Seq<char>),
}

/// The argument that a text field of the given kind gives: an address read
/// as an address, an ether amount as wei, a number (a lock period already
/// turned into seconds) as an unsigned integer, text as typed; or the error
/// shown when the field cannot be read.
pub open spec fn field_arg(kind: FieldKind, s: Seq<char>) -> Result<ArgView, Seq<char>> {
    match kind {
        FieldKind::Address => match address_arg(s) {
            Ok(a) => Ok(ArgView::Address(a)),
            Err(e) => Err(e),
        },
        FieldKind::EtherAmount => match ether_arg(s) {
            Ok(w) => Ok(ArgView::Amount(w)),
            Err(e) => Err(e),
        },
        FieldKind::Uint256 | FieldKind::Duration => match uint_arg(s) {
            Ok(v) => Ok(ArgView::Number(v)),
            Err(e) => Err(e),
        },
        FieldKind::Text => Ok(ArgView::Text(s)),
    }
}

/// The arguments of a transaction, in the order of its function's fields.
pub open spec fn write_args(c: WriteCallView) -> Seq<ArgView> {
    match c {
        WriteCallView::AddBeneficiary { beneficiary, share, name } => seq![
            ArgView::Address(beneficiary),
            ArgView::Amount(share),
            ArgView::Text(name),
        ],
        WriteCallView::ModifyBeneficiaryShare { share, beneficiary } => seq![
            ArgView::Amount(share),
            ArgView::Address(beneficiary),
        ],
        WriteCallView::UnAddBeneficiary(a) => seq![ArgView::Address(a)],
        WriteCallView::RequireToUnlockAll(n) => seq![ArgView::Number(n)],
        WriteCallView::SetUnlockTimeByOwner(n) => seq![ArgView::Number(n)],
        WriteCallView::Withdraw(w) => seq![ArgView::Amount(w)],
        _ => seq![],
    }
}

/// The arguments of a read-only call, in the order of its function's fields.
pub open spec fn read_args(c: ReadCallView) -> Seq<ArgView> {
    match c {
        ReadCallView::BeneficiacyAllowance(a) => seq![ArgView::Address(a)],
        _ => seq![],
    }
}

/// Whether a call with arguments `args` is what the fields of kinds `kinds`
/// give from `inputs`: one argument per field, each the value its kind reads.
pub open spec fn args_follow_fields(
    args: Seq<ArgView>,
    kinds: Seq<FieldKind>,
    inputs: Seq<Seq<char>>,
) -> bool {
    &&& args.len() == kinds.len()
    &&& forall|i: int|
        0 <= i < kinds.len() ==> field_arg(#[trigger] kinds[i], inputs[i]) == Ok::<
            ArgView,
            Seq<char>,
        >(args[i])
}

/// Whether `e` is the error of the first of the fields that cannot be read.
pub open spec fn first_field_error(e: Seq<char>, kinds: Seq<FieldKind>, inputs: Seq<Seq<char>>) -> bool {
    exists|i: int|
        0 <= i < kinds.len() && field_arg(#[trigger] kinds[i], inputs[i]) == Err::<
            ArgView,
            Seq<char>,
        >(e) && forall|j: int| 0 <= j < i ==> field_arg(#[trigger] kinds[j], inputs[j]) is Ok
}

/// Law: each argument of a call is what the kind of its field reads from the
/// text typed into that field (an address as an address, an ether amount as
/// wei, a number or a period in seconds as an unsigned integer, text as
/// typed), one argument per field, in the order of the fields; and a call
/// that cannot be made fails with the error of the first field that cannot
/// be read.
pub proof fn lemma_arguments_follow_field_kinds(
    func: ContractFunction,
    f1: Seq<char>,
    f2: Seq<char>,
    f3: Seq<char>,
)
    ensures
        writes(func) ==> match write_plan(func, f1, f2, f3) {
            Ok(c) => args_follow_fields(write_args(c), field_kinds(func), seq![f1, f2, f3]),
            Err(e) => first_field_error(e, field_kinds(func), seq![f1, f2, f3]),
        },
        !writes(func) ==> match read_plan(func, f1) {
            Ok(c) => args_follow_fields(read_args(c), field_kinds(func), seq![f1]),
            Err(e) => e == "Not a read function"@ || first_field_error(
                e,
                field_kinds(func),
                seq![f1],
            ),
        },
{
    let k = field_kinds(func);
    let fs = crate::functions::function_fields(func);
    let ins = seq![f1, f2, f3];
    let one = seq![f1];
    assert(ins[0] == f1 && ins[1] == f2 && ins[2] == f3);
    assert(one[0] == f1);
    match func {
        ContractFunction::AddBeneficiary => {
            assert(k =~= seq![FieldKind::Address, FieldKind::EtherAmount, FieldKind::Text]);
            match write_plan(func, f1, f2, f3) {
                Ok(c) => {
                    assert(write_args(c)[2] == ArgView::Text(f3));
                },
                Err(e) => {
                    if address_arg(f1) is Err {
                        assert(field_arg(k[0], ins[0]) == Err::<ArgView, Seq<char>>(e));
                    } else {
                        assert(field_arg(k[0], ins[0]) is Ok);
                        assert(field_arg(k[1], ins[1]) == Err::<ArgView, Seq<char>>(e));
                    }
                },
            }
        },
        ContractFunction::ModifyBeneficiaryShare => {
            assert(k =~= seq![FieldKind::EtherAmount, FieldKind::Address]);
            match write_plan(func, f1, f2, f3) {
                Ok(c) => {},
                Err(e) => {
                    if ether_arg(f1) is Err {
                        assert(field_arg(k[0], ins[0]) == Err::<ArgView, Seq<char>>(e));
                    } else {
                        assert(field_arg(k[0], ins[0]) is Ok);
                        assert(field_arg(k[1], ins[1]) == Err::<ArgView, Seq<char>>(e));
                    }
                },
            }
        },
        ContractFunction::UnAddBeneficiary => {
            assert(k =~= seq![FieldKind::Address]);
            if let Err(e) = write_plan(func, f1, f2, f3) {
                assert(field_arg(k[0], ins[0]) == Err::<ArgView, Seq<char>>(e));
            }
        },
        ContractFunction::RequireToUnlockAll => {
            assert(k =~= seq![FieldKind::Uint256]);
            if let Err(e) = write_plan(func, f1, f2, f3) {
                assert(field_arg(k[0], ins[0]) == Err::<ArgView, Seq<char>>(e));
            }
        },
        ContractFunction::SetUnlockTimeByOwner => {
            assert(k =~= seq![FieldKind::Duration]);
            if let Err(e) = write_plan(func, f1, f2, f3) {
                assert(field_arg(k[0], ins[0]) == Err::<ArgView, Seq<char>>(e));
            }
        },
        ContractFunction::Withdraw => {
            assert(k =~= seq![FieldKind::EtherAmount]);
            if let Err(e) = write_plan(func, f1, f2, f3) {
                assert(field_arg(k[0], ins[0]) == Err::<ArgView, Seq<char>>(e));
            }
        },
        ContractFunction::BeneficiacyAllowance => {
            assert(k =~= seq![FieldKind::Address]);
            if let Err(e) = read_plan(func, f1) {
                assert(field_arg(k[0], one[0]) == Err::<ArgView, Seq<char>>(e));
            }
        },
        _ => {
            assert(k =~= Seq::<FieldKind>::empty());
        },
    }
}

/// The contract method that a function stands for, by its name in the
/// `FamilyTrust` interface.
pub open spec fn contract_method(f: ContractFunction) -> Seq<char> {
    match f {
        ContractFunction::AddBeneficiary => "addBeneficiary"@,
        ContractFunction::ModifyBeneficiaryShare => "modifyBeneficiaryShare"@,
        ContractFunction::UnAddBeneficiary => "unAddBeneficiary"@,
        ContractFunction::ResetUnlocked => "resetUnlocked"@,
        ContractFunction::RequireToUnlockAll => "requireToUnlockAll"@,
        ContractFunction::SetUnlockTimeByOwner => "setUnlockTimeByOwner"@,
        ContractFunction::Withdraw => "withdraw"@,
        ContractFunction::Unlock => "unlock"@,
        ContractFunction::Transfer => "transfer"@,
        ContractFunction::BeneficiacyAllowance => "beneficiacyAllowance"@,
        ContractFunction::BalancOf => "balancOf"@,
        ContractFunction::UnlockedBenList => "unlockedBenList"@,
        ContractFunction::BenList => "benList"@,
        ContractFunction::RequireToUnlock => "_requireToUnlock"@,
        ContractFunction::UnlockTime => "unlockTime"@,
        ContractFunction::PublicUnlockTime => "publicUnlockTime"@,
    }
}

/// The contract method that a transaction calls.
pub open spec fn write_method(c: WriteCallView) -> Seq<char> {
    match c {
        WriteCallView::AddBeneficiary { .. } => "addBeneficiary"@,
        WriteCallView::ModifyBeneficiaryShare { .. } => "modifyBeneficiaryShare"@,
        WriteCallView::UnAddBeneficiary(_) => "unAddBeneficiary"@,
        WriteCallView::Unlock => "unlock"@,
        WriteCallView::ResetUnlocked => "resetUnlocked"@,
        WriteCallView::RequireToUnlockAll(_) => "requireToUnlockAll"@,
        WriteCallView::SetUnlockTimeByOwner(_) => "setUnlockTimeByOwner"@,
        WriteCallView::Transfer => "transfer"@,
        WriteCallView::Withdraw(_) => "withdraw"@,
    }
}

/// The contract method that a read-only call reads.
pub open spec fn read_method(c: ReadCallView) -> Seq<char> {
    match c {
        ReadCallView::BeneficiacyAllowance(_) => "beneficiacyAllowance"@,
        ReadCallView::BalancOf => "balancOf"@,
        ReadCallView::UnlockedBenList => "unlockedBenList"@,
        ReadCallView::BenList => "benList"@,
        ReadCallView::RequireToUnlock => "_requireToUnlock"@,
        ReadCallView::UnlockTime => "unlockTime"@,
        ReadCallView::PublicUnlockTime => "publicUnlockTime"@,
    }
}

/// Law: different functions stand for different contract methods.
pub proof fn lemma_contract_methods_distinct(f: ContractFunction, g: ContractFunction)
    ensures
        contract_method(f) == contract_method(g) ==> f == g,
{
    if contract_method(f) == contract_method(g) && f != g {
        reveal_strlit("addBeneficiary");
        reveal_strlit("modifyBeneficiaryShare");
        reveal_strlit("unAddBeneficiary");
        reveal_strlit("resetUnlocked");
        reveal_strlit("requireToUnlockAll");
        reveal_strlit("setUnlockTimeByOwner");
        reveal_strlit("withdraw");
        reveal_strlit("unlock");
        reveal_strlit("transfer");
        reveal_strlit("beneficiacyAllowance");
        reveal_strlit("balancOf");
        reveal_strlit("unlockedBenList");
        reveal_strlit("benList");
        reveal_strlit("_requireToUnlock");
        reveal_strlit("unlockTime");
        reveal_strlit("publicUnlockTime");
        let a = contract_method(f);
        let b = contract_method(g);
        assert(a.len() == b.len());
        assert(a[0] == b[0] && a[1] == b[1] && a[2] == b[2]);
        assert(a[a.len() - 1] == b[b.len() - 1]);
        assert(a[a.len() - 2] == b[b.len() - 2]);
    }
}

/// Law: what a function sends or reads is its own contract method: every
/// transaction that the write path plans for a function calls that
/// function's method (claiming a share calls `transfer`, unlocking calls
/// `unlock`), and every read-only call that the read path plans reads that
/// function's view (the balance screen reads `balancOf`).
pub proof fn lemma_calls_use_the_function_method(
    func: ContractFunction,
    f1: Seq<char>,
    f2: Seq<char>,
    f3: Seq<char>,
)
    ensures
        write_plan(func, f1, f2, f3) matches Ok(c) ==> write_method(c) == contract_method(func),
        read_plan(func, f1) matches Ok(c) ==> read_method(c) == contract_method(func),
{
}

/// Law: the read path refuses exactly the functions that write, and the write
/// path exactly those that do not.
pub proof fn lemma_paths_refuse_the_other_kind(
    func: ContractFunction,
    f1: Seq<char>,
    f2: Seq<char>,
    f3: Seq<char>,
)
    ensures
        (read_plan(func, f1) == Err::<ReadCallView, Seq<char>>("Not a read function"@)) <==> writes(
            func,
        ),
        (write_plan(func, f1, f2, f3) == Err::<WriteCallView, Seq<char>>("Not a write function"@))
            <==> !writes(func),
{
    reveal_strlit("Not a read function");
    reveal_strlit("Not a write function");
    reveal_strlit("Invalid address");
    reveal_strlit("Invalid amount");
    reveal_strlit("Invalid number");
    assert("Not a read function"@[0] != "Invalid address"@[0]);
    assert("Not a write function"@[0] != "Invalid address"@[0]);
    assert("Not a write function"@[0] != "Invalid amount"@[0]);
    assert("Not a write function"@[0] != "Invalid number"@[0]);
}

/// The text of a failure that the contract call did not explain with a
/// revert reason: the error's own text.
pub fn decode_err(rendered: String) -> (r: String)
    ensures
        r@ == rendered@,
{
    rendered
}

/// The reason shown for a failed call: the contract's revert reason when it
/// gave one, else the text of the error.
pub fn failure_reason(revert_reason: Option<String>, rendered: String) -> (r: String)
    ensures
        r@ == match revert_reason {
            Some(reason) => reason@,
            None => rendered@,
        },
{
    match revert_reason {
        Some(reason) => reason,
        None => decode_err(rendered),
    }
}

/// The text shown for a count read from the contract: its decimal digits.
pub fn count_text(value: &Uint256) -> (r: String)
    ensures
        r@ == crate::text::decimal(value@),
{
    crate::eth::format_u256(value)
}

/// What `u as i64` gives for a `u128` value `u`: its low 64 bits as a
/// two's-complement number.
pub open spec fn as_i64(u: nat) -> int {
    let m = u % crate::eth::two64();
    if m >= 0x8000_0000_0000_0000 {
        m - crate::eth::two64()
    } else {
        m as int
    }
}

/// The RFC 2822 text of the UTC time `ts` seconds after the Unix epoch, when
/// chrono can represent that time.
pub uninterp spec fn rfc2822_text(ts: int) -> Option<Seq<char>>;

/// Whether formatting the time `ts` does not panic: chrono formats years 0
/// to 9999 in RFC 2822 and panics on the other years it can represent; it
/// cannot represent times before the year -262143 or after 262142.
pub open spec fn rfc2822_formattable(ts: int) -> bool {
    ||| (-62167219200 <= ts && ts <= 253402300799)
    ||| ts < -8334601228800
    ||| ts > 8210266876799
}

/// The RFC 2822 text of the UTC time `ts` seconds after the Unix epoch
/// (`chrono::DateTime::from_timestamp(ts, 0)`, then `to_rfc2822` on the
/// time it gives). The text itself is the name `rfc2822_text`; stated is
/// only that the times of the years 0 to 9999 have one and the times that
/// chrono cannot represent have none.
#[verifier::external_body]
fn rfc2822_of_timestamp(ts: i64) -> (r: Option<String>)
    requires
        rfc2822_formattable(ts as int),
    ensures
        r matches Some(t) ==> rfc2822_text(ts as int) == Some(t@),
        r is None ==> rfc2822_text(ts as int) is None,
        -62167219200 <= ts <= 253402300799 ==> r is Some,
        ts < -8334601228800 || ts > 8210266876799 ==> r is None,
{
    match chrono::DateTime::from_timestamp(ts, 0) {
        Some(d) => Some(d.to_rfc2822()),
        None => None,
    }
}

/// The low 128 bits of a 256-bit integer whose value fits in them
/// (`Uint::to::<u128>`).
pub fn to_u128(v: &Uint256) -> (r: u128)
    requires
        v@ < crate::eth::two128(),
    ensures
        r as nat == v@,
{
    assert(v.limbs[2] == 0 && v.limbs[3] == 0) by (nonlinear_arith)
        requires
            v.limbs[0] + v.limbs[1] * crate::eth::two64() + v.limbs[2] * crate::eth::two128()
                + v.limbs[3] * (crate::eth::two128() * crate::eth::two64()) < crate::eth::two128(),
            crate::eth::two64() == 0x1_0000_0000_0000_0000,
            crate::eth::two128() == crate::eth::two64() * crate::eth::two64(),
            v.limbs[2] >= 0,
            v.limbs[3] >= 0,
    ;
    let lo = v.limbs[0] as u128;
    let hi = v.limbs[1] as u128;
    assert(hi * 0x1_0000_0000_0000_0000 + lo <= u128::MAX) by (nonlinear_arith)
        requires
            hi < 0x1_0000_0000_0000_0000,
            lo < 0x1_0000_0000_0000_0000,
    ;
    hi * 0x1_0000_0000_0000_0000 + lo
}

/// `u as i64`: the low 64 bits of `u` as a two's-complement number.
pub fn low_i64(u: u128) -> (r: i64)
    ensures
        r as int == as_i64(u as nat),
{
    let m: u64 = (u % 0x1_0000_0000_0000_0000) as u64;
    if m >= 0x8000_0000_0000_0000 {
        let k: i64 = (m - 0x8000_0000_0000_0000) as i64;
        k + i64::MIN
    } else {
        m as i64
    }
}

/// The text shown for an unlock time read from the contract: the RFC 2822
/// text of that Unix time, or its decimal digits when chrono cannot
/// represent it. The time is the value's low 64 bits read as signed.
pub fn unlock_time_text(value: &Uint256) -> (r: String)
    requires
        value@ < crate::eth::two128(),
        rfc2822_formattable(as_i64(value@)),
    ensures
        r@ == match rfc2822_text(as_i64(value@)) {
            Some(t) => t,
            None => crate::text::signed_decimal(as_i64(value@)),
        },
        as_i64(value@) < -8334601228800 || as_i64(value@) > 8210266876799 ==> r@
            == crate::text::signed_decimal(as_i64(value@)),
        -62167219200 <= as_i64(value@) <= 253402300799 ==> (rfc2822_text(as_i64(value@)) is Some
            && r@ == rfc2822_text(as_i64(value@)).unwrap()),
{
    let ts = low_i64(to_u128(value));
    time_text_or_seconds(rfc2822_of_timestamp(ts), ts)
}

/// The text shown for the Unix time `ts`: its RFC 2822 text when there is
/// one, else its decimal digits.
pub fn time_text_or_seconds(formatted: Option<String>, ts: i64) -> (r: String)
    ensures
        r@ == match formatted {
            Some(t) => t@,
            None => crate::text::signed_decimal(ts as int),
        },
{
    match formatted {
        Some(t) => t,
        None => crate::text::format_i64(ts),
    }
}

/// Whether [`unlock_time_text`] can be asked for this value: it fits in 128
/// bits and its time is one that chrono formats or cannot represent.
pub fn unlock_time_formattable(value: &Uint256) -> (r: bool)
    ensures
        r == (value@ < crate::eth::two128() && rfc2822_formattable(as_i64(value@))),
{
    if value.limbs[2] != 0 || value.limbs[3] != 0 {
        assert(value@ >= crate::eth::two128()) by (nonlinear_arith)
            requires
                value.limbs[2] != 0 || value.limbs[3] != 0,
                value@ == value.limbs[0] + value.limbs[1] * crate::eth::two64() + value.limbs[2]
                    * crate::eth::two128() + value.limbs[3] * (crate::eth::two128()
                    * crate::eth::two64()),
                crate::eth::two64() == 0x1_0000_0000_0000_0000,
                crate::eth::two128() == crate::eth::two64() * crate::eth::two64(),
        ;
        return false;
    }
    assert(value@ < crate::eth::two128()) by (nonlinear_arith)
        requires
            value.limbs[2] == 0 && value.limbs[3] == 0,
            value@ == value.limbs[0] + value.limbs[1] * crate::eth::two64() + value.limbs[2]
                * crate::eth::two128() + value.limbs[3] * (crate::eth::two128()
                * crate::eth::two64()),
            value.limbs[0] < crate::eth::two64(),
            value.limbs[1] < crate::eth::two64(),
            crate::eth::two64() == 0x1_0000_0000_0000_0000,
            crate::eth::two128() == crate::eth::two64() * crate::eth::two64(),
    ;
    let ts = low_i64(to_u128(value));
    (-62167219200 <= ts && ts <= 253402300799) || ts < -8334601228800 || ts > 8210266876799
}

} // verus!
