//! Which account a command works with: the one that its arguments name, else one of the session,
//! else one that the user is asked for.
//!
//! The caller asks the user; this module says what to ask for and what the answers mean.
use vstd::prelude::*;

use crate::error;
use crate::iban;
use crate::session;
use crate::session::{SepaAccountSer, SessionFile};
use crate::text;

verus! {

/// What a command does next about its account.
#[derive(Debug)]
pub enum AccountStep {
    /// The account is known.
    Known { iban: String, bic: String },
    /// Ask the user for an IBAN.
    AskIban,
    /// Ask the user for the BIC that goes with `iban`. Where it is `optional`, a BIC that cannot
    /// be read counts as empty.
    AskBic { iban: String, optional: bool },
    /// There is no account.
    Fail(String),
}

/// What a command does next about its account.
pub enum StepView {
    Known { iban: Seq<char>, bic: Seq<char> },
    AskIban,
    AskBic { iban: Seq<char>, optional: bool },
    Fail(Seq<char>),
}

impl AccountStep {
    pub open spec fn view(&self) -> StepView {
        match *self {
            AccountStep::Known { iban, bic } => StepView::Known { iban: iban@, bic: bic@ },
            AccountStep::AskIban => StepView::AskIban,
            AccountStep::AskBic { iban, optional } => StepView::AskBic { iban: iban@, optional },
            AccountStep::Fail(message) => StepView::Fail(message@),
        }
    }
}

/// The IBAN that the user means by `raw`, or what is wrong with it.
pub open spec fn accepted_iban(raw: Seq<char>) -> Result<Seq<char>, Seq<char>> {
    match iban::validated_iban(raw) {
        Ok(iban) => Ok(iban),
        Err(message) => Err("Invalid IBAN: "@ + message),
    }
}

/// The IBAN that the user means by `raw`.
pub fn accept_iban(raw: &str) -> (r: Result<String, String>)
    ensures
        text::text_result(r) == accepted_iban(raw@),
{
    match iban::validate_iban(raw) {
        Ok(iban) => Ok(iban),
        Err(message) => Err(error::labelled("Invalid IBAN: ", message.as_str())),
    }
}

/// The BIC of the first account with the IBAN `iban`.
pub open spec fn bic_of_account(accounts: Seq<SepaAccountSer>, iban: Seq<char>) -> Option<
    Seq<char>,
>
    decreases accounts.len(),
{
    if accounts.len() == 0 {
        None
    } else if accounts[0].iban@ == iban {
        Some(accounts[0].bic@)
    } else {
        bic_of_account(accounts.drop_first(), iban)
    }
}

/// The BIC that goes with `iban`: the given one, else that of the session's account, else empty.
pub open spec fn chosen_bic(
    given: Option<Seq<char>>,
    accounts: Seq<SepaAccountSer>,
    iban: Seq<char>,
) -> Seq<char> {
    match (given, bic_of_account(accounts, iban)) {
        (Some(bic), _) => bic,
        (None, Some(bic)) => bic,
        (None, None) => ""@,
    }
}

fn choose_bic(given: Option<&str>, accounts: &Vec<SepaAccountSer>, iban: &str) -> (r: String)
    ensures
        r@ == chosen_bic(session::str_view(given), accounts@, iban@),
{
    if let Some(bic) = given {
        return bic.to_owned();
    }
    let mut i: usize = 0;
    assert(accounts@.skip(0) =~= accounts@);
    while i < accounts.len()
        invariant
            i <= accounts@.len(),
            given is None,
            bic_of_account(accounts@.skip(i as int), iban@) == bic_of_account(accounts@, iban@),
        decreases accounts@.len() - i,
    {
        assert(accounts@.skip(i as int).drop_first() =~= accounts@.skip(i + 1));
        if text::same_text(accounts[i].iban.as_str(), iban) {
            return accounts[i].bic.clone();
        }
        i += 1;
    }
    "".to_string()
}

// ---------------------------------------------------------------------------------------------
// Transactions and holdings
// ---------------------------------------------------------------------------------------------

/// The account of a command that looks at one account. A given IBAN comes first, and its BIC is
/// asked for where nothing names it; then comes the first account of the session; then the user
/// is asked.
pub open spec fn resolved_iban_bic(
    iban_arg: Option<Seq<char>>,
    bic_arg: Option<Seq<char>>,
    accounts: Seq<SepaAccountSer>,
) -> StepView {
    match iban_arg {
        Some(raw) => match accepted_iban(raw) {
            Ok(iban) => {
                let bic = chosen_bic(bic_arg, accounts, iban);
                if bic.len() == 0 {
                    StepView::AskBic { iban, optional: false }
                } else {
                    StepView::Known { iban, bic }
                }
            },
            Err(message) => StepView::Fail(message),
        },
        None => if accounts.len() > 0 {
            StepView::Known { iban: accounts[0].iban@, bic: accounts[0].bic@ }
        } else {
            StepView::AskIban
        },
    }
}

/// The account of a command that looks at one account.
pub fn resolve_iban_bic_from_args(
    iban_arg: Option<&str>,
    bic_arg: Option<&str>,
    session: Option<&SessionFile>,
) -> (r: AccountStep)
    ensures
        r@ == resolved_iban_bic(
            session::str_view(iban_arg),
            session::str_view(bic_arg),
            session::known_accounts(session),
        ),
{
    let accounts = session::session_accounts(session);
    match iban_arg {
        Some(raw) => match accept_iban(raw) {
            Ok(iban) => {
                let bic = choose_bic(bic_arg, &accounts, iban.as_str());
                if bic.as_str().is_empty() {
                    AccountStep::AskBic { iban, optional: false }
                } else {
                    AccountStep::Known { iban, bic }
                }
            },
            Err(message) => AccountStep::Fail(message),
        },
        None => if accounts.len() > 0 {
            AccountStep::Known { iban: accounts[0].iban.clone(), bic: accounts[0].bic.clone() }
        } else {
            AccountStep::AskIban
        },
    }
}

/// The account of a command that takes no BIC.
pub fn resolve_iban_from_args(iban_arg: Option<&str>, session: Option<&SessionFile>) -> (r:
    AccountStep)
    ensures
        r@ == resolved_iban_bic(
            session::str_view(iban_arg),
            None,
            session::known_accounts(session),
        ),
{
    resolve_iban_bic_from_args(iban_arg, None, session)
}

/// After the user was asked for the IBAN: the BIC is the given one, or is asked for too.
pub open spec fn step_with_iban(entered: Seq<char>, bic_arg: Option<Seq<char>>) -> StepView {
    match (accepted_iban(entered), bic_arg) {
        (Ok(iban), Some(bic)) => StepView::Known { iban, bic },
        (Ok(iban), None) => StepView::AskBic { iban, optional: true },
        (Err(message), _) => StepView::Fail(message),
    }
}

/// After the user was asked for the IBAN: the BIC is the given one, or is asked for too.
pub fn iban_entered(entered: &str, bic_arg: Option<&str>) -> (r: AccountStep)
    ensures
        r@ == step_with_iban(entered@, session::str_view(bic_arg)),
{
    match accept_iban(entered) {
        Ok(iban) => match bic_arg {
            Some(bic) => AccountStep::Known { iban, bic: bic.to_owned() },
            None => AccountStep::AskBic { iban, optional: true },
        },
        Err(message) => AccountStep::Fail(message),
    }
}

/// After the user was asked for the BIC.
pub open spec fn step_with_bic(
    iban: Seq<char>,
    optional: bool,
    entered: Result<String, String>,
) -> StepView {
    match entered {
        Ok(bic) => StepView::Known { iban, bic: bic@ },
        Err(message) => if optional {
            StepView::Known { iban, bic: ""@ }
        } else {
            StepView::Fail(message@)
        },
    }
}

/// After the user was asked for the BIC.
pub fn bic_entered(iban: String, optional: bool, entered: Result<String, String>) -> (r:
    AccountStep)
    ensures
        r@ == step_with_bic(iban@, optional, entered),
{
    match entered {
        Ok(bic) => AccountStep::Known { iban, bic },
        Err(message) => if optional {
            AccountStep::Known { iban, bic: "".to_string() }
        } else {
            AccountStep::Fail(message)
        },
    }
}

// ---------------------------------------------------------------------------------------------
// Balance and sync
// ---------------------------------------------------------------------------------------------

/// The account of a command that fetches a balance. A given IBAN comes first, with whatever BIC
/// is known for it; then comes the first account of the session; then the user is asked.
pub open spec fn balance_target(
    iban_arg: Option<Seq<char>>,
    bic_arg: Option<Seq<char>>,
    accounts: Seq<SepaAccountSer>,
) -> StepView {
    match iban_arg {
        Some(raw) => match accepted_iban(raw) {
            Ok(iban) => StepView::Known { iban, bic: chosen_bic(bic_arg, accounts, iban) },
            Err(message) => StepView::Fail(message),
        },
        None => if accounts.len() > 0 {
            StepView::Known { iban: accounts[0].iban@, bic: accounts[0].bic@ }
        } else {
            StepView::AskIban
        },
    }
}

/// The account of a command that fetches a balance.
pub fn balance_account(
    iban_arg: Option<&str>,
    bic_arg: Option<&str>,
    session: Option<&SessionFile>,
) -> (r: AccountStep)
    ensures
        r@ == balance_target(
            session::str_view(iban_arg),
            session::str_view(bic_arg),
            session::known_accounts(session),
        ),
{
    let accounts = session::session_accounts(session);
    match iban_arg {
        Some(raw) => match accept_iban(raw) {
            Ok(iban) => {
                let bic = choose_bic(bic_arg, &accounts, iban.as_str());
                AccountStep::Known { iban, bic }
            },
            Err(message) => AccountStep::Fail(message),
        },
        None => if accounts.len() > 0 {
            AccountStep::Known { iban: accounts[0].iban.clone(), bic: accounts[0].bic.clone() }
        } else {
            AccountStep::AskIban
        },
    }
}

/// After the user was asked for the IBAN of a balance or a sync: the BIC is asked for too, and
/// has to be read.
pub open spec fn balance_step_with_iban(entered: Seq<char>) -> StepView {
    match accepted_iban(entered) {
        Ok(iban) => StepView::AskBic { iban, optional: false },
        Err(message) => StepView::Fail(message),
    }
}

/// After the user was asked for the IBAN of a balance or a sync: the BIC is asked for too, and
/// has to be read.
pub fn balance_iban_entered(entered: &str) -> (r: AccountStep)
    ensures
        r@ == balance_step_with_iban(entered@),
{
    match accept_iban(entered) {
        Ok(iban) => AccountStep::AskBic { iban, optional: false },
        Err(message) => AccountStep::Fail(message),
    }
}

/// The accounts that a sync works with, as far as they are known without asking the user.
#[derive(Debug)]
pub enum SyncTargets {
    /// All accounts of the session.
    Session(Vec<(String, String)>),
    /// One account, as for a balance.
    One(AccountStep),
}

/// The IBAN and BIC of each account.
pub open spec fn targets_of(accounts: Seq<SepaAccountSer>, targets: Seq<(String, String)>) -> bool {
    &&& targets.len() == accounts.len()
    &&& forall|i: int|
        0 <= i < accounts.len() ==> (#[trigger] targets[i]).0@ == accounts[i].iban@ && targets[i].1@
            == accounts[i].bic@
}

/// The accounts that a sync works with: all of the session's where that is asked for and there
/// are any, else one as for a balance.
pub fn sync_targets(
    all_accounts: bool,
    iban_arg: Option<&str>,
    bic_arg: Option<&str>,
    session: Option<&SessionFile>,
) -> (r: SyncTargets)
    ensures
        if all_accounts && session::known_accounts(session).len() > 0 {
            r matches SyncTargets::Session(targets) && targets_of(
                session::known_accounts(session),
                targets@,
            )
        } else {
            r matches SyncTargets::One(step) && step@ == balance_target(
                session::str_view(iban_arg),
                session::str_view(bic_arg),
                session::known_accounts(session),
            )
        },
{
    let accounts = session::session_accounts(session);
    if all_accounts && accounts.len() > 0 {
        let mut targets: Vec<(String, String)> = Vec::new();
        let mut i: usize = 0;
        while i < accounts.len()
            invariant
                i <= accounts@.len(),
                targets_of(accounts@.take(i as int), targets@),
            decreases accounts@.len() - i,
        {
            targets.push((accounts[i].iban.clone(), accounts[i].bic.clone()));
            i += 1;
            assert forall|j: int| 0 <= j < i implies (#[trigger] targets@[j]).0@
                == accounts@.take(i as int)[j].iban@ && targets@[j].1@ == accounts@.take(
                i as int,
            )[j].bic@ by {
                if j < i - 1 {
                    assert(accounts@.take(i - 1)[j] == accounts@[j]);
                }
            }
        }
        assert(accounts@.take(i as int) =~= accounts@);
        return SyncTargets::Session(targets);
    }
    SyncTargets::One(balance_account(iban_arg, bic_arg, session))
}

/// A BIC that is given on the command line is the one that is used, whatever the session holds.
pub proof fn law_given_bic_wins(
    raw: Seq<char>,
    bic: Seq<char>,
    accounts: Seq<SepaAccountSer>,
    iban: Seq<char>,
)
    requires
        accepted_iban(raw) == Ok::<Seq<char>, Seq<char>>(iban),
    ensures
        balance_target(Some(raw), Some(bic), accounts) == (StepView::Known { iban, bic }),
        bic.len() > 0 ==> resolved_iban_bic(Some(raw), Some(bic), accounts) == (
        StepView::Known { iban, bic }),
{
}

/// An IBAN that the user gives goes out only in its normalized form and with the right check
/// digits.
pub proof fn law_account_by_iban_is_valid(
    raw: Seq<char>,
    bic_arg: Option<Seq<char>>,
    accounts: Seq<SepaAccountSer>,
)
    ensures
        resolved_iban_bic(Some(raw), bic_arg, accounts) matches StepView::Known { iban, bic }
            ==> iban == iban::normalized_iban(raw) && iban::iban_remainder(iban) == 1,
        balance_target(Some(raw), bic_arg, accounts) matches StepView::Known { iban, bic } ==> iban
            == iban::normalized_iban(raw) && iban::iban_remainder(iban) == 1,
        resolved_iban_bic(Some(raw), bic_arg, accounts) matches StepView::AskBic { iban, optional }
            ==> iban == iban::normalized_iban(raw) && iban::iban_remainder(iban) == 1,
{
}

/// The BIC of an IBAN is that of the first account of the session with this very IBAN.
pub proof fn law_bic_of_the_first_such_account(accounts: Seq<SepaAccountSer>, iban: Seq<char>)
    ensures
        match bic_of_account(accounts, iban) {
            Some(bic) => exists|i: int|
                0 <= i < accounts.len() && (#[trigger] accounts[i]).iban@ == iban && accounts[i].bic@
                    == bic && forall|j: int|
                    0 <= j < i ==> (#[trigger] accounts[j]).iban@ != iban,
            None => forall|i: int|
                0 <= i < accounts.len() ==> (#[trigger] accounts[i]).iban@ != iban,
        },
    decreases accounts.len(),
{
    if accounts.len() > 0 && accounts[0].iban@ != iban {
        let rest = accounts.drop_first();
        law_bic_of_the_first_such_account(rest, iban);
        assert forall|j: int| 1 <= j < accounts.len() implies #[trigger] accounts[j] == rest[j
            - 1] by {}
        if bic_of_account(rest, iban) is Some {
            let i = choose|i: int|
                0 <= i < rest.len() && (#[trigger] rest[i]).iban@ == iban && rest[i].bic@
                    == bic_of_account(rest, iban)->0 && forall|j: int|
                    0 <= j < i ==> (#[trigger] rest[j]).iban@ != iban;
            assert(accounts[i + 1].iban@ == iban);
            assert forall|j: int| 0 <= j < i + 1 implies (#[trigger] accounts[j]).iban@ != iban by {
                if j > 0 {
                    assert(rest[j - 1].iban@ != iban);
                }
            }
        }
    }
}

/// Without an IBAN on the command line the first account of the session is taken, with its own
/// BIC, and without such an account the user is asked.
pub proof fn law_first_account_of_the_session(
    bic_arg: Option<Seq<char>>,
    accounts: Seq<SepaAccountSer>,
)
    ensures
        accounts.len() > 0 ==> resolved_iban_bic(None, bic_arg, accounts) == (StepView::Known {
            iban: accounts.first().iban@,
            bic: accounts.first().bic@,
        }),
        accounts.len() > 0 ==> balance_target(None, bic_arg, accounts) == (StepView::Known {
            iban: accounts.first().iban@,
            bic: accounts.first().bic@,
        }),
        accounts.len() == 0 ==> resolved_iban_bic(None, bic_arg, accounts) is AskIban,
        accounts.len() == 0 ==> balance_target(None, bic_arg, accounts) is AskIban,
{
}

/// A given IBAN that is not valid is an error that says why, whatever else is given.
pub proof fn law_invalid_iban_is_refused(
    raw: Seq<char>,
    bic_arg: Option<Seq<char>>,
    accounts: Seq<SepaAccountSer>,
)
    requires
        iban::validated_iban(raw) is Err,
    ensures
        resolved_iban_bic(Some(raw), bic_arg, accounts) == StepView::Fail(
            "Invalid IBAN: "@ + iban::validated_iban(raw)->Err_0,
        ),
        balance_target(Some(raw), bic_arg, accounts) == StepView::Fail(
            "Invalid IBAN: "@ + iban::validated_iban(raw)->Err_0,
        ),
        accepted_iban(raw) == Err::<Seq<char>, Seq<char>>(
            "Invalid IBAN: "@ + iban::validated_iban(raw)->Err_0,
        ),
{
}

/// A given IBAN that is valid is the account. Its BIC is the given one, else that of the session's
/// account with this IBAN. Where neither is there, `balance` and `sync` go on without a BIC, and
/// `transactions` and `holdings` ask for it.
pub proof fn law_given_iban_is_the_account(
    raw: Seq<char>,
    bic_arg: Option<Seq<char>>,
    accounts: Seq<SepaAccountSer>,
)
    requires
        iban::validated_iban(raw) is Ok,
    ensures
        accepted_iban(raw) == iban::validated_iban(raw),
        bic_arg is Some ==> balance_target(Some(raw), bic_arg, accounts) == (StepView::Known {
            iban: iban::validated_iban(raw)->Ok_0,
            bic: bic_arg->0,
        }),
        bic_arg is None && bic_of_account(accounts, iban::validated_iban(raw)->Ok_0) is Some
            ==> balance_target(Some(raw), bic_arg, accounts) == (StepView::Known {
            iban: iban::validated_iban(raw)->Ok_0,
            bic: bic_of_account(accounts, iban::validated_iban(raw)->Ok_0)->0,
        }),
        bic_arg is None && bic_of_account(accounts, iban::validated_iban(raw)->Ok_0) is None ==> (
        balance_target(Some(raw), bic_arg, accounts) matches StepView::Known { iban, bic } && iban
            == iban::validated_iban(raw)->Ok_0 && bic.len() == 0),
        balance_target(Some(raw), bic_arg, accounts) matches StepView::Known { iban, bic } && if bic.len()
            > 0 {
            resolved_iban_bic(Some(raw), bic_arg, accounts) == (StepView::Known { iban, bic })
        } else {
            resolved_iban_bic(Some(raw), bic_arg, accounts) == (StepView::AskBic {
                iban,
                optional: false,
            })
        },
{
    reveal_strlit("");
}

/// The account once its BIC was asked for: with the answer as its BIC. An answer that cannot be
/// read stands for no BIC where the BIC is optional, and is an error else.
pub proof fn law_entered_bic(iban: Seq<char>, optional: bool, entered: Result<String, String>)
    ensures
        entered matches Ok(bic) ==> step_with_bic(iban, optional, entered) == (StepView::Known {
            iban,
            bic: bic@,
        }),
        entered is Err && optional ==> (step_with_bic(
            iban,
            optional,
            entered,
        ) matches StepView::Known { iban: i, bic } && i == iban && bic.len() == 0),
        entered matches Err(message) ==> (!optional ==> step_with_bic(iban, optional, entered)
            == StepView::Fail(message@)),
{
    reveal_strlit("");
}

/// The account once its IBAN was asked for. An IBAN that is not valid is an error. For
/// `transactions` and `holdings` a given BIC goes with it, and else it is asked for and need not be
/// answered; for `balance` and `sync` it is always asked for.
pub proof fn law_entered_iban(entered: Seq<char>, bic_arg: Option<Seq<char>>)
    ensures
        iban::validated_iban(entered) is Err ==> step_with_iban(entered, bic_arg) == StepView::Fail(
            "Invalid IBAN: "@ + iban::validated_iban(entered)->Err_0,
        ) && balance_step_with_iban(entered) == StepView::Fail(
            "Invalid IBAN: "@ + iban::validated_iban(entered)->Err_0,
        ),
        iban::validated_iban(entered) matches Ok(iban) ==> {
            &&& balance_step_with_iban(entered) == (StepView::AskBic { iban, optional: false })
            &&& bic_arg is Some ==> step_with_iban(entered, bic_arg) == (StepView::Known {
                iban,
                bic: bic_arg->0,
            })
            &&& bic_arg is None ==> step_with_iban(entered, bic_arg) == (StepView::AskBic {
                iban,
                optional: true,
            })
        },
{
}

} // verus!
