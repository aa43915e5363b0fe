//! The decisions that the screens take: reading a lock period, preparing a
//! contract call or a deployment from what the user typed, and the state that
//! a screen moves to.

use vstd::prelude::*;
use crate::calls::ReadOutput;
use crate::eth::{EvmAddress, Uint256, fixed_hex};
use crate::functions::{ContractFunction, FieldKind};
use crate::text::{decimal, parse_u128, parse_u128_spec, str_eq, trimmed};
use crate::wallet::WalletMap;

verus! {

/// The length in seconds of a lock-period unit: `seconds`, `minutes`,
/// `hours` or `days`; any other unit counts seconds.
pub open spec fn unit_seconds(unit: Seq<char>) -> nat {
    if unit == "minutes"@ {
        60
    } else if unit == "hours"@ {
        3600
    } else if unit == "days"@ {
        86400
    } else {
        1
    }
}

/// The length in seconds of a lock-period unit (see [`unit_seconds`]).
pub fn unit_length(unit: &str) -> (r: u128)
    ensures
        r == unit_seconds(unit@),
{
    if str_eq(unit, "minutes") {
        60
    } else if str_eq(unit, "hours") {
        3600
    } else if str_eq(unit, "days") {
        86400
    } else {
        1
    }
}

/// A lock period of `amount` units in seconds.
pub fn duration_seconds(amount: u128, unit: &str) -> (r: u128)
    requires
        amount * unit_seconds(unit@) <= u128::MAX,
    ensures
        r == amount * unit_seconds(unit@),
{
    amount * unit_length(unit)
}

/// Whether `amount` units of `unit` fit in a `u128` of seconds.
pub open spec fn period_fits(amount: nat, unit: Seq<char>) -> bool {
    amount * unit_seconds(unit) <= u128::MAX
}

/// Whether reading the first field of a function stays clear of an overflow:
/// for the unlock time, the typed amount of units fits in seconds.
pub open spec fn first_input_fits(func: ContractFunction, f1: Seq<char>, unit: Seq<char>) -> bool {
    func == ContractFunction::SetUnlockTimeByOwner ==> match parse_u128_spec(f1) {
        Some(v) => period_fits(v, unit),
        None => true,
    }
}

/// The first field as the call reads it: for the unlock time the typed
/// amount of units, converted to the decimal digits of seconds; any other
/// function takes the field as typed.
pub open spec fn first_input(func: ContractFunction, f1: Seq<char>, unit: Seq<char>) -> Result<
    Seq<char>,
    Seq<char>,
> {
    if func == ContractFunction::SetUnlockTimeByOwner {
        match parse_u128_spec(f1) {
            Some(v) => Ok(decimal(v * unit_seconds(unit))),
            None => Err("Invalid amount"@),
        }
    } else {
        Ok(f1)
    }
}

/// Reads the first field of a function (see [`first_input`]).
pub fn resolve_first_input(func: &ContractFunction, f1: &str, unit: &str) -> (r: Result<
    String,
    String,
>)
    requires
        first_input_fits(*func, f1@, unit@),
    ensures
        match r {
            Ok(t) => first_input(*func, f1@, unit@) == Ok::<Seq<char>, Seq<char>>(t@),
            Err(e) => first_input(*func, f1@, unit@) == Err::<Seq<char>, Seq<char>>(e@),
        },
{
    if *func == ContractFunction::SetUnlockTimeByOwner {
        match parse_u128(f1) {
            Some(amount) => Ok(crate::text::format_u128(duration_seconds(amount, unit))),
            None => Err("Invalid amount".to_owned()),
        }
    } else {
        Ok(f1.to_owned())
    }
}

/// Whether [`resolve_first_input`] can be asked for these fields.
pub fn first_input_fits_check(func: &ContractFunction, f1: &str, unit: &str) -> (r: bool)
    ensures
        r == first_input_fits(*func, f1@, unit@),
{
    if *func != ContractFunction::SetUnlockTimeByOwner {
        return true;
    }
    match parse_u128(f1) {
        Some(amount) => {
            let u = unit_length(unit);
            amount <= u128::MAX / u
        },
        None => true,
    }
}

/// What the function screen sends once the fields are read: the contract to
/// call, the first field as the call reads it and, for a transaction, the
/// private key of the current wallet.
#[derive(Debug)]
pub struct Submission {
    pub contract: EvmAddress,
    pub first_input: String,
    pub private_key: Option<String>,
}

/// The contract address that the function screen calls: the external one
/// typed on the screen when the user chose it, else the wallet's own.
pub open spec fn target_contract(
    use_external: bool,
    external_contract: Seq<char>,
    current_contract: Seq<char>,
) -> Seq<char> {
    if use_external {
        external_contract
    } else {
        current_contract
    }
}

/// Prepares a call from the function screen: the contract address is read
/// first ("Invalid contract address"), then the first field ("Invalid
/// amount" for an unreadable lock period), then, for a transaction, the
/// current wallet is looked up ("Wallet not found").
pub fn prepare_submission(
    func: &ContractFunction,
    use_external: bool,
    external_contract: &str,
    current_contract: &str,
    f1: &str,
    duration_unit: &str,
    wallets: &WalletMap,
    current_address: &str,
) -> (r: Result<Submission, String>)
    requires
        fixed_hex(trimmed(target_contract(use_external, external_contract@, current_contract@)), 20)
            is Some ==> first_input_fits(*func, f1@, duration_unit@),
    ensures
        ({
            let target = target_contract(use_external, external_contract@, current_contract@);
            match fixed_hex(trimmed(target), 20) {
                None => r matches Err(e) && e@ == "Invalid contract address"@,
                Some(a) => match first_input(*func, f1@, duration_unit@) {
                    Err(e) => r matches Err(e2) && e2@ == e,
                    Ok(t) => if crate::functions::writes(*func) {
                        if wallets@.contains_key(current_address@) {
                            r matches Ok(s) && s.contract@ == a && s.first_input@ == t
                                && (s.private_key matches Some(k) && k@
                                == wallets@[current_address@].private_key)
                        } else {
                            r matches Err(e) && e@ == "Wallet not found"@
                        }
                    } else {
                        r matches Ok(s) && s.contract@ == a && s.first_input@ == t
                            && s.private_key is None
                    },
                },
            }
        }),
{
    let target = if use_external {
        external_contract
    } else {
        current_contract
    };
    let contract = match crate::eth::parse_address(target) {
        Ok(a) => a,
        Err(_) => return Err("Invalid contract address".to_owned()),
    };
    let first_input = match resolve_first_input(func, f1, duration_unit) {
        Ok(t) => t,
        Err(e) => return Err(e),
    };
    if func.is_write() {
        match wallets.get(current_address) {
            Some(account) => Ok(
                Submission { contract, first_input, private_key: Some(account.private_key.clone()) },
            ),
            None => Err("Wallet not found".to_owned()),
        }
    } else {
        Ok(Submission { contract, first_input, private_key: None })
    }
}

/// The state of the function screen.
#[derive(Clone, PartialEq, Debug)]
pub enum PageState {
    Idle,
    Pending,
    WriteSuccess(String),
    ReadSuccess(String),
    ReadSuccessList(Vec<String>),
    Error(String),
}

/// The state after a transaction: its hash, or the reason it failed.
pub fn state_after_write(result: Result<String, String>) -> (r: PageState)
    ensures
        match result {
            Ok(hash) => r matches PageState::WriteSuccess(h) && h@ == hash@,
            Err(reason) => r matches PageState::Error(e) && e@ == reason@,
        },
{
    match result {
        Ok(hash) => PageState::WriteSuccess(hash),
        Err(reason) => PageState::Error(reason),
    }
}

/// The state after a read: the text or the list read, or the reason it failed.
pub fn state_after_read(result: Result<ReadOutput, String>) -> (r: PageState)
    ensures
        match result {
            Ok(ReadOutput::Text(t)) => r matches PageState::ReadSuccess(x) && x@ == t@,
            Ok(ReadOutput::List(l)) => r matches PageState::ReadSuccessList(x) && x@ == l@,
            Err(reason) => r matches PageState::Error(e) && e@ == reason@,
        },
{
    match result {
        Ok(ReadOutput::Text(t)) => PageState::ReadSuccess(t),
        Ok(ReadOutput::List(l)) => PageState::ReadSuccessList(l),
        Err(reason) => PageState::Error(reason),
    }
}

/// The HTML input type of a text field of the given kind.
pub fn input_type(kind: FieldKind) -> (r: &'static str)
    ensures
        r@ == (if kind == FieldKind::Uint256 || kind == FieldKind::Duration {
            "number"@
        } else {
            "text"@
        }),
{
    match kind {
        FieldKind::Uint256 | FieldKind::Duration => "number",
        _ => "text",
    }
}

/// The input mode of a text field of the given kind: the decimal keypad for
/// ether amounts.
pub fn input_mode(kind: FieldKind) -> (r: &'static str)
    ensures
        r@ == (if kind == FieldKind::EtherAmount {
            "decimal"@
        } else {
            "text"@
        }),
{
    match kind {
        FieldKind::EtherAmount => "decimal",
        _ => "text",
    }
}

/// What a deployment of a new trust needs: its lock period in seconds and
/// the private key that deploys it.
#[derive(Debug)]
pub struct DeployPlan {
    pub unlock_time: Uint256,
    pub private_key: String,
}

/// Prepares the deployment of a trust locked for `amount_text` units of
/// `mode`: the amount is read first ("Invalid amount"), then the current
/// wallet is looked up ("No wallet found"), then the lock period is read as a
/// `uint256` ("Invalid unlock time") and the wallet's key is checked
/// ("Invalid private key").
pub fn prepare_deployment(
    amount_text: &str,
    mode: &str,
    wallets: &WalletMap,
    current_address: &str,
) -> (r: Result<DeployPlan, String>)
    requires
        parse_u128_spec(amount_text@) matches Some(v) ==> period_fits(v, mode@),
    ensures
        match parse_u128_spec(amount_text@) {
            None => r matches Err(e) && e@ == "Invalid amount"@,
            Some(v) => if !wallets@.contains_key(current_address@) {
                r matches Err(e) && e@ == "No wallet found"@
            } else if crate::eth::private_key_scalar(wallets@[current_address@].private_key) is None {
                r matches Err(e) && e@ == "Invalid private key"@
            } else {
                r matches Ok(p) && p.unlock_time@ == v * unit_seconds(mode@) && p.private_key@
                    == wallets@[current_address@].private_key
            },
        },
{
    let amount = match parse_u128(amount_text) {
        Some(v) => v,
        None => return Err("Invalid amount".to_owned()),
    };
    let seconds = duration_seconds(amount, mode);
    let private_key = match wallets.get(current_address) {
        Some(account) => account.private_key.clone(),
        None => return Err("No wallet found".to_owned()),
    };
    let seconds_text = crate::text::format_u128(seconds);
    proof {
        lemma_decimal_is_trimmed(seconds as nat);
        crate::eth::lemma_u256_text_of_decimal(seconds as nat);
    }
    let unlock_time = match crate::eth::parse_u256(seconds_text.as_str()) {
        Ok(v) => v,
        Err(_) => return Err("Invalid unlock time".to_owned()),
    };
    if !crate::eth::is_valid_private_key(private_key.as_str()) {
        return Err("Invalid private key".to_owned());
    }
    Ok(DeployPlan { unlock_time, private_key })
}

/// Whether [`prepare_deployment`] can be asked for this amount and unit.
pub fn deployment_fits(amount_text: &str, mode: &str) -> (r: bool)
    ensures
        r == (parse_u128_spec(amount_text@) matches Some(v) ==> period_fits(v, mode@)),
{
    match parse_u128(amount_text) {
        Some(amount) => amount <= u128::MAX / unit_length(mode),
        None => true,
    }
}

/// What the deployment screen says of the typed amount.
#[derive(PartialEq, Eq, Clone, Copy, Debug, Structural)]
pub enum AmountFeedback {
    /// Nothing typed yet.
    Empty,
    /// Not a number: the screen warns.
    Invalid,
    /// A number of units.
    Valid,
}

/// Reads the typed amount: empty, a `u128`, or not a number.
pub fn amount_feedback(amount_text: &str) -> (r: AmountFeedback)
    ensures
        r == (if amount_text@.len() == 0 {
            AmountFeedback::Empty
        } else if parse_u128_spec(amount_text@) is Some {
            AmountFeedback::Valid
        } else {
            AmountFeedback::Invalid
        }),
{
    if amount_text.unicode_len() == 0 {
        AmountFeedback::Empty
    } else if parse_u128(amount_text).is_some() {
        AmountFeedback::Valid
    } else {
        AmountFeedback::Invalid
    }
}

/// Whether the deploy button can be pressed: a valid amount and a chosen unit.
pub fn deploy_enabled(amount_text: &str, mode: &str) -> (r: bool)
    ensures
        r == (amount_text@.len() > 0 && parse_u128_spec(amount_text@) is Some && mode@.len() > 0),
{
    amount_feedback(amount_text) == AmountFeedback::Valid && mode.unicode_len() > 0
}

/// The status shown after a deployment: success, or the failure's text.
pub fn deploy_status(result: &Result<String, String>) -> (r: String)
    ensures
        r@ == match result {
            Ok(_) => "Deploy succeeded"@,
            Err(e) => "Deploy failed: "@ + e@,
        },
{
    match result {
        Ok(_) => "Deploy succeeded".to_owned(),
        Err(e) => {
            let mut s = "Deploy failed: ".to_owned();
            s.append(e.as_str());
            s
        },
    }
}

/// Which part the contract screen shows.
#[derive(PartialEq, Eq, Clone, Copy, Debug, Structural)]
pub enum InteractView {
    /// No linked contract: offer to deploy one.
    CreateContract,
    /// A contract was just deployed: link it to the wallet.
    Configuration,
    /// The linked contract's functions.
    FunctionsPanel,
}

/// The part of the contract screen to show.
pub fn interact_view(has_contract: bool, is_configuring: bool) -> (r: InteractView)
    ensures
        r == (if !has_contract {
            InteractView::CreateContract
        } else if is_configuring {
            InteractView::Configuration
        } else {
            InteractView::FunctionsPanel
        }),
{
    if !has_contract {
        InteractView::CreateContract
    } else if is_configuring {
        InteractView::Configuration
    } else {
        InteractView::FunctionsPanel
    }
}

/// The decimal text of a number has no surrounding whitespace.
pub proof fn lemma_decimal_is_trimmed(n: nat)
    ensures
        trimmed(decimal(n)) == decimal(n),
{
    crate::text::lemma_decimal_digits(n);
    let t = decimal(n);
    assert(crate::text::is_dec_digit(t[0]));
    assert(crate::text::is_dec_digit(t.last()));
    assert(crate::text::trim_start(t) == t);
    assert(crate::text::trim_end(t) == t);
}

/// Law: a lock period typed as an amount of seconds, minutes, hours or days
/// reaches the contract's `setUnlockTimeByOwner` as that many seconds.
pub proof fn lemma_unlock_time_sent_in_seconds(
    f1: Seq<char>,
    unit: Seq<char>,
    f2: Seq<char>,
    f3: Seq<char>,
)
    requires
        parse_u128_spec(f1) is Some,
        period_fits(parse_u128_spec(f1).unwrap(), unit),
    ensures
        ({
            let seconds = parse_u128_spec(f1).unwrap() * unit_seconds(unit);
            &&& first_input(ContractFunction::SetUnlockTimeByOwner, f1, unit) == Ok::<
                Seq<char>,
                Seq<char>,
            >(decimal(seconds))
            &&& crate::calls::write_plan(
                ContractFunction::SetUnlockTimeByOwner,
                decimal(seconds),
                f2,
                f3,
            ) == Ok::<crate::calls::WriteCallView, Seq<char>>(
                crate::calls::WriteCallView::SetUnlockTimeByOwner(seconds),
            )
        }),
{
    let seconds = parse_u128_spec(f1).unwrap() * unit_seconds(unit);
    lemma_decimal_is_trimmed(seconds);
    crate::eth::lemma_u256_text_of_decimal(seconds);
}

} // verus!
