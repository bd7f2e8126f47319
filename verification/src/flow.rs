//! The two-step interactive TAN flow.
//!
//! 1. `Flow::initiate` or `Flow::initiate_with_bank` says what to ask the bank, and
//!    `Flow::begin` turns the bank's answer into challenge info and a flow that holds the dialog.
//! 2. `Flow::confirm_and_fetch` and its variants say what to do next with that dialog, and
//!    `Flow::after_poll`, `Flow::account_built` and `Flow::finish` turn what came of it into the
//!    result. `Flow::next_account` goes on with another account in the same dialog.
//!
//! The caller runs the dialogs; a flow owns the dialog between two calls. `P` is a dialog that
//! waits for a TAN and `O` one that is open.
use vstd::prelude::*;

use crate::banks;
use crate::banks::{BankConfig, BankRegistry};
use crate::error::FinTSError;
use crate::types::{
    Account, AccountBalance, BankParams, Bic, ChallengeText, FetchOpts, FetchResult, HhdUcData, Iban, Pin,
    ProductId, SecurityFunction, SecurityHolding, SystemId, TanMethod, TaskReference, Transaction,
    UserId,
};

verus! {

/// What the user has to confirm.
#[derive(Debug)]
pub struct ChallengeInfo {
    pub challenge: ChallengeText,
    pub challenge_hhduc: Option<HhdUcData>,
    pub decoupled: bool,
    pub tan_methods: Vec<TanMethod>,
    pub allowed_security_functions: Vec<SecurityFunction>,
    /// If true, skip the TAN step: an exemption from strong customer authentication.
    pub no_tan_required: bool,
}

/// What a flow fetched of one account.
#[derive(Debug)]
pub struct SyncResult {
    pub iban: Iban,
    pub bic: Bic,
    pub balance: Option<AccountBalance>,
    pub transactions: Vec<Transaction>,
    pub holdings: Vec<SecurityHolding>,
    pub system_id: Option<SystemId>,
}

/// A bank's TAN challenge.
#[derive(Debug)]
pub struct TanChallenge {
    pub challenge: ChallengeText,
    pub challenge_hhduc: Option<HhdUcData>,
    pub decoupled: bool,
    pub task_reference: TaskReference,
}

/// A dialog that the bank answered with a TAN challenge.
#[derive(Debug)]
pub struct InitiateTanResult<P> {
    pub challenge: TanChallenge,
    pub tan_methods: Vec<TanMethod>,
    pub allowed_security_functions: Vec<SecurityFunction>,
    pub system_id: SystemId,
    pub dialog: P,
}

/// A dialog that the bank opened without a TAN.
#[derive(Debug)]
pub struct InitiateNoTanResult<O> {
    pub tan_methods: Vec<TanMethod>,
    pub allowed_security_functions: Vec<SecurityFunction>,
    pub system_id: SystemId,
    /// What the bank said about itself and the user.
    pub params: BankParams,
    pub dialog: O,
}

/// How a bank answers when a dialog is initiated.
#[derive(Debug)]
pub enum InitiateOutcome<P, O> {
    NeedTan(InitiateTanResult<P>),
    Authenticated(InitiateNoTanResult<O>),
}

/// Who connects to a bank, and for which account.
#[derive(Debug)]
pub struct Login {
    pub username: UserId,
    pub pin: Pin,
    pub product_id: ProductId,
    pub system_id: Option<SystemId>,
    pub target_iban: Option<Iban>,
    pub target_bic: Option<Bic>,
}

/// A bank and what its `initiate` operation is called with.
#[derive(Debug)]
pub struct InitiateRequest {
    pub bank: BankConfig,
    pub login: Login,
}

/// The answer to one poll for a TAN confirmation.
#[derive(Debug)]
pub enum PollResult<P, O> {
    Confirmed(O),
    Pending(P),
}

/// Where a flow stands.
#[derive(Debug)]
pub enum FlowState<P, O> {
    WaitingForTan { dialog: P, task_reference: TaskReference },
    Authenticated(O),
    Done,
}

/// What to fetch once the dialog is open.
#[derive(Debug, Clone, Copy, PartialEq, Eq, Structural)]
pub enum FetchKind {
    /// Balance, transactions and holdings as the options say.
    Account(FetchOpts),
    /// Securities holdings by the bank's own holdings operation.
    Holdings,
}

/// What the account of a request is built from.
#[derive(Debug)]
pub struct AccountRequest {
    pub iban: String,
    pub bic: String,
}

/// What to do next with the dialog of a flow.
#[derive(Debug)]
pub enum FlowStep<P, O> {
    /// Ask the bank whether the user has confirmed the task, and hand the answer to
    /// `Flow::after_poll`.
    Poll { dialog: P, task_reference: TaskReference, kind: FetchKind },
    /// Build the account from its IBAN and BIC, and hand the outcome to `Flow::account_built`.
    BuildAccount { open: O, request: AccountRequest, kind: FetchKind },
    /// Fetch the data of the account, then go on with `Flow::next_account` or end the dialog.
    Fetch { open: O, account: Account, kind: FetchKind },
    /// Nothing can be done.
    Fail(FinTSError),
}

/// An error of the dialog with the message `message`.
pub open spec fn is_dialog_error(e: FinTSError, message: Seq<char>) -> bool {
    e matches FinTSError::Dialog(m) && m@ == message
}

pub open spec fn pending_message() -> Seq<char> {
    "TAN still pending: user has not yet confirmed in banking app"@
}

pub open spec fn completed_message() -> Seq<char> {
    "Flow already completed"@
}

/// A flow with a bank.
#[derive(Debug)]
pub struct Flow<P, O> {
    bank: BankConfig,
    state: FlowState<P, O>,
    system_id: SystemId,
}

/// An account is built from the given IBAN, and from the bank's BIC where none is given.
pub open spec fn is_account_request(
    bank: BankConfig,
    iban: Seq<char>,
    bic: Seq<char>,
    request: AccountRequest,
) -> bool {
    &&& request.iban@ == iban
    &&& request.bic@ == (if bic.len() == 0 {
        bank.bic@
    } else {
        bic
    })
}

/// The account is to be built, and then fetched from in the dialog `open`.
pub open spec fn builds_account<P, O>(
    step: FlowStep<P, O>,
    bank: BankConfig,
    open: O,
    iban: Seq<char>,
    bic: Seq<char>,
    kind: FetchKind,
) -> bool {
    &&& step matches FlowStep::BuildAccount { open: o, request, kind: k }
    &&& o == open
    &&& k == kind
    &&& is_account_request(bank, iban, bic, request)
}

/// What to ask the bank with the BLZ `blz`, or the error `unknown` where it is not known.
pub open spec fn asked_bank(
    known: Seq<BankConfig>,
    blz: Seq<char>,
    unknown: FinTSError,
    login: Login,
) -> Result<InitiateRequest, FinTSError> {
    match banks::bank_with_blz(known, blz) {
        Some(bank) => Ok::<InitiateRequest, FinTSError>(InitiateRequest { bank, login }),
        None => Err::<InitiateRequest, FinTSError>(unknown),
    }
}

/// Everything of `days` days.
pub open spec fn everything_of(days: u32) -> FetchKind {
    FetchKind::Account((FetchOpts { balance: true, transactions: true, holdings: true, days }))
}

/// What to do once the account was built.
pub open spec fn after_account<P, O>(
    open: O,
    built: Result<Account, FinTSError>,
    kind: FetchKind,
) -> FlowStep<P, O> {
    match built {
        Ok(account) => FlowStep::<P, O>::Fetch { open, account, kind },
        Err(e) => FlowStep::<P, O>::Fail(e),
    }
}

/// `r` is the flow and its TAN challenge from what the bank answered.
pub open spec fn begins<P, O>(
    bank: BankConfig,
    outcome: Result<InitiateOutcome<P, O>, FinTSError>,
    r: Result<(Flow<P, O>, ChallengeInfo), FinTSError>,
) -> bool {
    match outcome {
        Err(e) => r == Err::<(Flow<P, O>, ChallengeInfo), FinTSError>(e),
        Ok(InitiateOutcome::NeedTan(t)) => {
            &&& r matches Ok((flow, info))
            &&& flow.spec_bank() == bank
            &&& flow.spec_system_id() == t.system_id
            &&& flow.spec_state() == (FlowState::<P, O>::WaitingForTan {
                dialog: t.dialog,
                task_reference: t.challenge.task_reference,
            })
            &&& info == (ChallengeInfo {
                challenge: t.challenge.challenge,
                challenge_hhduc: t.challenge.challenge_hhduc,
                decoupled: t.challenge.decoupled,
                tan_methods: t.tan_methods,
                allowed_security_functions: t.allowed_security_functions,
                no_tan_required: false,
            })
        },
        Ok(InitiateOutcome::Authenticated(t)) => {
            &&& r matches Ok((flow, info))
            &&& flow.spec_bank() == bank
            &&& flow.spec_system_id() == t.system_id
            &&& flow.spec_state() == (FlowState::<P, O>::Authenticated(t.dialog))
            &&& info.challenge@ == ""@
            &&& info.challenge_hhduc is None
            &&& !info.decoupled
            &&& info.tan_methods == t.tan_methods
            &&& info.allowed_security_functions == t.allowed_security_functions
            &&& info.no_tan_required
        },
    }
}

/// The flow `after` and the step `step` are what comes of the flow `before` once the poll that it
/// asked for was answered.
pub open spec fn goes_on_after_poll<P, O>(
    before: Flow<P, O>,
    after: Flow<P, O>,
    task_reference: TaskReference,
    polled: Result<PollResult<P, O>, FinTSError>,
    iban: Seq<char>,
    bic: Seq<char>,
    kind: FetchKind,
    step: FlowStep<P, O>,
) -> bool {
    &&& after.spec_bank() == before.spec_bank()
    &&& after.spec_system_id() == before.spec_system_id()
    &&& match polled {
        Ok(PollResult::Confirmed(open)) => {
            &&& builds_account(step, before.spec_bank(), open, iban, bic, kind)
            &&& after.spec_state() == before.spec_state()
        },
        Ok(PollResult::Pending(dialog)) => {
            &&& step matches FlowStep::Fail(e)
            &&& is_dialog_error(e, pending_message())
            &&& after.spec_state() == (FlowState::<P, O>::WaitingForTan { dialog, task_reference })
        },
        Err(e) => {
            &&& step == FlowStep::<P, O>::Fail(e)
            &&& after.spec_state() == before.spec_state()
        },
    }
}

/// `r` is the result for the account that was asked for, from what was fetched.
pub open spec fn is_result(
    r: Result<SyncResult, FinTSError>,
    iban: Seq<char>,
    bic: Seq<char>,
    fetched: Result<FetchResult, FinTSError>,
    system_id: SystemId,
) -> bool {
    match fetched {
        Err(e) => r == Err::<SyncResult, FinTSError>(e),
        Ok(fetch) => {
            &&& r matches Ok(sync)
            &&& sync.iban@ == iban
            &&& sync.bic@ == bic
            &&& sync.balance == fetch.balance
            &&& sync.transactions == fetch.transactions
            &&& sync.holdings == fetch.holdings
            &&& sync.system_id == Some(system_id)
        },
    }
}

impl<P, O> Flow<P, O> {
    /// The bank that the flow talks to.
    pub closed spec fn spec_bank(&self) -> BankConfig {
        self.bank
    }

    /// Where the flow stands.
    pub closed spec fn spec_state(&self) -> FlowState<P, O> {
        self.state
    }

    /// The system identifier that the bank knows the client by.
    pub closed spec fn spec_system_id(&self) -> SystemId {
        self.system_id
    }

    /// Step 1: what to ask an already resolved bank. Use this with a custom `BankConfig`, for a
    /// bank outside the registry.
    pub fn initiate_with_bank(bank: BankConfig, login: Login) -> (r: InitiateRequest)
        ensures
            r == (InitiateRequest { bank, login }),
    {
        InitiateRequest { bank, login }
    }

    /// Step 1: what to ask the bank with the BLZ `bank_id`; `unknown` is the error where the
    /// registry does not know it.
    pub fn initiate(
        registry: &BankRegistry,
        bank_id: &str,
        unknown: FinTSError,
        login: Login,
    ) -> (r: Result<InitiateRequest, FinTSError>)
        ensures
            r == asked_bank(registry@, bank_id@, unknown, login),
    {
        match banks::bank_by_blz(registry, bank_id) {
            Some(bank) => Ok(Flow::<P, O>::initiate_with_bank(bank, login)),
            None => Err(unknown),
        }
    }

    /// Step 1: the flow and its TAN challenge from what the bank answered.
    pub fn begin(bank: BankConfig, outcome: Result<InitiateOutcome<P, O>, FinTSError>) -> (r: Result<
        (Flow<P, O>, ChallengeInfo),
        FinTSError,
    >)
        ensures
            begins(bank, outcome, r),
    {
        match outcome {
            Err(e) => Err(e),
            Ok(InitiateOutcome::NeedTan(t)) => {
                let info = ChallengeInfo {
                    challenge: t.challenge.challenge,
                    challenge_hhduc: t.challenge.challenge_hhduc,
                    decoupled: t.challenge.decoupled,
                    tan_methods: t.tan_methods,
                    allowed_security_functions: t.allowed_security_functions,
                    no_tan_required: false,
                };
                let flow = Flow {
                    bank,
                    state: FlowState::WaitingForTan {
                        dialog: t.dialog,
                        task_reference: t.challenge.task_reference,
                    },
                    system_id: t.system_id,
                };
                Ok((flow, info))
            },
            Ok(InitiateOutcome::Authenticated(t)) => {
                let info = ChallengeInfo {
                    challenge: ChallengeText::new("".to_string()),
                    challenge_hhduc: None,
                    decoupled: false,
                    tan_methods: t.tan_methods,
                    allowed_security_functions: t.allowed_security_functions,
                    no_tan_required: true,
                };
                let flow = Flow {
                    bank,
                    state: FlowState::Authenticated(t.dialog),
                    system_id: t.system_id,
                };
                Ok((flow, info))
            },
        }
    }

    /// What a flow in the state `state` does when its data is asked for.
    pub open spec fn next_step(
        bank: BankConfig,
        state: FlowState<P, O>,
        iban: Seq<char>,
        bic: Seq<char>,
        kind: FetchKind,
        step: FlowStep<P, O>,
    ) -> bool {
        match state {
            FlowState::WaitingForTan { dialog, task_reference } => step == (FlowStep::<
                P,
                O,
            >::Poll { dialog, task_reference, kind }),
            FlowState::Authenticated(open) => builds_account(step, bank, open, iban, bic, kind),
            FlowState::Done => {
                &&& step matches FlowStep::Fail(e)
                &&& is_dialog_error(e, completed_message())
            },
        }
    }

    /// Takes the dialog out of the flow, which is done until a poll finds the TAN pending.
    fn take_step(&mut self, iban: &str, bic: &str, kind: FetchKind) -> (step: FlowStep<P, O>)
        ensures
            Flow::<P, O>::next_step(old(self).bank, old(self).state, iban@, bic@, kind, step),
            final(self).state == FlowState::<P, O>::Done,
            final(self).bank == old(self).bank,
            final(self).system_id == old(self).system_id,
    {
        let mut state = FlowState::Done;
        std::mem::swap(&mut self.state, &mut state);
        match state {
            FlowState::WaitingForTan { dialog, task_reference } => FlowStep::Poll {
                dialog,
                task_reference,
                kind,
            },
            FlowState::Authenticated(open) => self.next_account(open, iban, bic, kind),
            FlowState::Done => FlowStep::Fail(
                FinTSError::Dialog("Flow already completed".to_string()),
            ),
        }
    }

    /// Step 2: confirm the TAN and fetch everything of `days` days. Equivalent to
    /// `confirm_and_fetch_opts` with `FetchOpts::all(days)`.
    pub fn confirm_and_fetch(&mut self, iban: &str, bic: &str, days: u32) -> (step: FlowStep<P, O>)
        ensures
            Flow::<P, O>::next_step(
                old(self).spec_bank(),
                old(self).spec_state(),
                iban@,
                bic@,
                everything_of(days),
                step,
            ),
            final(self).spec_state() == FlowState::<P, O>::Done,
            final(self).spec_bank() == old(self).spec_bank(),
            final(self).spec_system_id() == old(self).spec_system_id(),
    {
        self.confirm_and_fetch_opts(iban, bic, &FetchOpts::all(days))
    }

    /// Step 2 with fine-grained control over what to fetch in a single dialog.
    pub fn confirm_and_fetch_opts(&mut self, iban: &str, bic: &str, opts: &FetchOpts) -> (step:
        FlowStep<P, O>)
        ensures
            Flow::<P, O>::next_step(
                old(self).spec_bank(),
                old(self).spec_state(),
                iban@,
                bic@,
                FetchKind::Account(*opts),
                step,
            ),
            final(self).spec_state() == FlowState::<P, O>::Done,
            final(self).spec_bank() == old(self).spec_bank(),
            final(self).spec_system_id() == old(self).spec_system_id(),
    {
        self.take_step(iban, bic, FetchKind::Account(*opts))
    }

    /// Step 2 (alternative): confirm the TAN and fetch only securities holdings.
    pub fn confirm_and_fetch_holdings(&mut self, iban: &str, bic: &str) -> (step: FlowStep<P, O>)
        ensures
            Flow::<P, O>::next_step(
                old(self).spec_bank(),
                old(self).spec_state(),
                iban@,
                bic@,
                FetchKind::Holdings,
                step,
            ),
            final(self).spec_state() == FlowState::<P, O>::Done,
            final(self).spec_bank() == old(self).spec_bank(),
            final(self).spec_system_id() == old(self).spec_system_id(),
    {
        self.take_step(iban, bic, FetchKind::Holdings)
    }

    /// What a flow does once the poll that it asked for was answered. A confirmed dialog is
    /// fetched from once the account is built; a pending one goes back into the flow, which can
    /// then be asked again; an error is passed on and ends the flow.
    pub fn after_poll(
        &mut self,
        task_reference: TaskReference,
        polled: Result<PollResult<P, O>, FinTSError>,
        iban: &str,
        bic: &str,
        kind: FetchKind,
    ) -> (step: FlowStep<P, O>)
        ensures
            goes_on_after_poll(
                *old(self),
                *final(self),
                task_reference,
                polled,
                iban@,
                bic@,
                kind,
                step,
            ),
    {
        match polled {
            Ok(PollResult::Confirmed(open)) => self.next_account(open, iban, bic, kind),
            Ok(PollResult::Pending(dialog)) => {
                self.state = FlowState::WaitingForTan { dialog, task_reference };
                FlowStep::Fail(
                    FinTSError::Dialog(
                        "TAN still pending: user has not yet confirmed in banking app".to_string(),
                    ),
                )
            },
            Err(e) => FlowStep::Fail(e),
        }
    }

    /// The result for the account that was asked for, from what was fetched and the system
    /// identifier of the dialog.
    pub fn finish(
        iban: &str,
        bic: &str,
        fetched: Result<FetchResult, FinTSError>,
        system_id: SystemId,
    ) -> (r: Result<SyncResult, FinTSError>)
        ensures
            is_result(r, iban@, bic@, fetched, system_id),
    {
        match fetched {
            Err(e) => Err(e),
            Ok(fetch) => Ok(
                SyncResult {
                    iban: Iban::new(iban.to_owned()),
                    bic: Bic::new(bic.to_owned()),
                    balance: fetch.balance,
                    transactions: fetch.transactions,
                    holdings: fetch.holdings,
                    system_id: Some(system_id),
                },
            ),
        }
    }

    /// The system identifier that the bank knows the client by.
    pub fn system_id(&self) -> (r: &SystemId)
        ensures
            *r == self.spec_system_id(),
    {
        &self.system_id
    }

    /// What the account to fetch is built from, with the bank's BIC as fallback.
    pub fn resolve_account(&self, iban: &str, bic: &str) -> (r: AccountRequest)
        ensures
            is_account_request(self.spec_bank(), iban@, bic@, r),
    {
        let bic = if bic.is_empty() {
            self.bank.bic.as_str()
        } else {
            bic
        };
        AccountRequest { iban: iban.to_owned(), bic: bic.to_owned() }
    }

    /// What to do with an open dialog for an account: an open dialog serves one account after the
    /// other.
    pub fn next_account(&self, open: O, iban: &str, bic: &str, kind: FetchKind) -> (step: FlowStep<
        P,
        O,
    >)
        ensures
            builds_account(step, self.spec_bank(), open, iban@, bic@, kind),
    {
        let request = self.resolve_account(iban, bic);
        FlowStep::BuildAccount { open, request, kind }
    }

    /// What to do once the account was built: it is fetched, and a failure to build it is the
    /// failure of the flow.
    pub fn account_built(open: O, built: Result<Account, FinTSError>, kind: FetchKind) -> (step:
        FlowStep<P, O>)
        ensures
            step == after_account::<P, O>(open, built, kind),
    {
        match built {
            Ok(account) => FlowStep::Fetch { open, account, kind },
            Err(e) => FlowStep::Fail(e),
        }
    }
}

/// No data is fetched in a dialog that waits for a TAN, whatever is asked for: the bank is polled
/// first, about the task that it named.
pub proof fn law_waiting_flow_polls_first<P, O>(
    bank: BankConfig,
    dialog: P,
    task_reference: TaskReference,
    iban: Seq<char>,
    bic: Seq<char>,
    kind: FetchKind,
    step: FlowStep<P, O>,
)
    requires
        Flow::<P, O>::next_step(
            bank,
            FlowState::WaitingForTan { dialog, task_reference },
            iban,
            bic,
            kind,
            step,
        ),
    ensures
        !(step is Fetch) && !(step is BuildAccount),
        step == (FlowStep::<P, O>::Poll { dialog, task_reference, kind }),
{
}

/// A completed flow answers every further request with an error.
pub proof fn law_completed_flow_fails<P, O>(
    bank: BankConfig,
    iban: Seq<char>,
    bic: Seq<char>,
    kind: FetchKind,
    step: FlowStep<P, O>,
)
    requires
        Flow::<P, O>::next_step(bank, FlowState::Done, iban, bic, kind, step),
    ensures
        step matches FlowStep::Fail(e) && is_dialog_error(e, completed_message()),
{
}

/// The account of a request has the given IBAN and the given BIC, and the BIC of the bank where
/// none is given.
pub proof fn law_account_of_a_request(
    bank: BankConfig,
    iban: Seq<char>,
    bic: Seq<char>,
    request: AccountRequest,
)
    requires
        is_account_request(bank, iban, bic, request),
    ensures
        request.iban@ == iban,
        bic.len() > 0 ==> request.bic@ == bic,
        bic.len() == 0 ==> request.bic@ == bank.bic@,
{
}

/// An authenticated flow goes straight to the account: no TAN is polled for, the dialog that is
/// open is used, and what was asked for is fetched.
pub proof fn law_authenticated_flow_needs_no_tan<P, O>(
    bank: BankConfig,
    open: O,
    iban: Seq<char>,
    bic: Seq<char>,
    kind: FetchKind,
    step: FlowStep<P, O>,
)
    requires
        Flow::<P, O>::next_step(bank, FlowState::Authenticated(open), iban, bic, kind, step),
    ensures
        step matches FlowStep::BuildAccount { open: o, request, kind: k } && o == open && k == kind
            && request.iban@ == iban && (bic.len() > 0 ==> request.bic@ == bic) && (bic.len() == 0
            ==> request.bic@ == bank.bic@),
{
}

/// The messages of a flow: that the user has not confirmed yet, and that there is nothing more to
/// fetch.
pub proof fn law_messages_of_a_flow(e: FinTSError)
    ensures
        is_dialog_error(e, pending_message()) ==> (e matches FinTSError::Dialog(m) && m@
            == "TAN still pending: user has not yet confirmed in banking app"@),
        is_dialog_error(e, completed_message()) ==> (e matches FinTSError::Dialog(m) && m@
            == "Flow already completed"@),
{
}

/// A bank that wants a TAN leaves the flow waiting with the dialog and the task that it named, and
/// what it asks of the user is handed on word by word; a bank that wants none leaves the flow
/// authenticated with the open dialog. An error is passed on.
pub proof fn law_flow_begins_as_the_bank_answers<P, O>(
    bank: BankConfig,
    outcome: Result<InitiateOutcome<P, O>, FinTSError>,
    r: Result<(Flow<P, O>, ChallengeInfo), FinTSError>,
)
    requires
        begins(bank, outcome, r),
    ensures
        outcome matches Err(e) ==> (r matches Err(passed) && passed == e),
        outcome is Ok ==> r is Ok,
        r matches Ok((flow, info)) ==> flow.spec_bank() == bank,
        outcome matches Ok(InitiateOutcome::NeedTan(t)) ==> (r matches Ok((flow, info)) && {
            &&& !info.no_tan_required
            &&& info.challenge@ == t.challenge.challenge@
            &&& info.challenge_hhduc == t.challenge.challenge_hhduc
            &&& info.decoupled == t.challenge.decoupled
            &&& info.tan_methods@ == t.tan_methods@
            &&& info.allowed_security_functions@ == t.allowed_security_functions@
            &&& flow.spec_system_id()@ == t.system_id@
            &&& flow.spec_state() matches FlowState::WaitingForTan { dialog, task_reference }
            &&& dialog == t.dialog
            &&& task_reference@ == t.challenge.task_reference@
        }),
        outcome matches Ok(InitiateOutcome::Authenticated(t)) ==> (r matches Ok((flow, info)) && {
            &&& info.no_tan_required
            &&& !info.decoupled
            &&& info.challenge@.len() == 0
            &&& info.tan_methods@ == t.tan_methods@
            &&& info.allowed_security_functions@ == t.allowed_security_functions@
            &&& flow.spec_system_id()@ == t.system_id@
            &&& flow.spec_state() matches FlowState::Authenticated(dialog)
            &&& dialog == t.dialog
        }),
{
    reveal_strlit("");
}

/// A confirmed TAN leads to the account, in the dialog that the bank opened. A pending one leaves
/// the flow where it was before the poll: waiting, with the dialog and the task, so that it can be
/// asked again. An error of the poll is passed on.
pub proof fn law_after_a_poll<P, O>(
    before: Flow<P, O>,
    after: Flow<P, O>,
    task_reference: TaskReference,
    polled: Result<PollResult<P, O>, FinTSError>,
    iban: Seq<char>,
    bic: Seq<char>,
    kind: FetchKind,
    step: FlowStep<P, O>,
)
    requires
        goes_on_after_poll(before, after, task_reference, polled, iban, bic, kind, step),
    ensures
        after.spec_bank() == before.spec_bank(),
        after.spec_system_id() == before.spec_system_id(),
        polled matches Ok(PollResult::Confirmed(open)) ==> (
        step matches FlowStep::BuildAccount { open: o, request, kind: k } && o == open && k == kind
            && request.iban@ == iban && (bic.len() > 0 ==> request.bic@ == bic) && (bic.len() == 0
            ==> request.bic@ == before.spec_bank().bic@)),
        polled matches Ok(PollResult::Pending(dialog)) ==> {
            &&& step is Fail
            &&& after.spec_state() == (FlowState::<P, O>::WaitingForTan { dialog, task_reference })
        },
        polled matches Err(e) ==> step == FlowStep::<P, O>::Fail(e),
{
}

/// The result has the IBAN and the BIC that were asked for, everything that was fetched, and the
/// system identifier of the dialog; a failure to fetch is passed on.
pub proof fn law_result_of_a_fetch(
    r: Result<SyncResult, FinTSError>,
    iban: Seq<char>,
    bic: Seq<char>,
    fetched: Result<FetchResult, FinTSError>,
    system_id: SystemId,
)
    requires
        is_result(r, iban, bic, fetched, system_id),
    ensures
        fetched matches Err(e) ==> (r matches Err(passed) && passed == e),
        fetched matches Ok(fetch) ==> (r matches Ok(sync) && {
            &&& sync.iban@ == iban
            &&& sync.bic@ == bic
            &&& sync.balance == fetch.balance
            &&& sync.transactions@ == fetch.transactions@
            &&& sync.holdings@ == fetch.holdings@
            &&& sync.system_id is Some
            &&& sync.system_id->0@ == system_id@
        }),
{
}

/// A flow that fetches everything asks for balance, transactions and holdings, for as many days as
/// are given.
pub proof fn law_everything_is_fetched(days: u32)
    ensures
        everything_of(days) matches FetchKind::Account(opts) && opts.balance && opts.transactions
            && opts.holdings && opts.days == days,
{
}

/// The account that was built is the one that is fetched, in the same dialog, and a failure to
/// build it ends the flow.
pub proof fn law_account_that_was_built<P, O>(
    open: O,
    built: Result<Account, FinTSError>,
    kind: FetchKind,
)
    ensures
        built matches Ok(account) ==> after_account::<P, O>(open, built, kind) == (FlowStep::<
            P,
            O,
        >::Fetch { open, account, kind }),
        built matches Err(e) ==> after_account::<P, O>(open, built, kind) == FlowStep::<P, O>::Fail(
            e,
        ),
{
}

/// A bank is asked by the login that was given, and one that the registry does not know is not
/// asked at all.
pub proof fn law_bank_that_is_asked(
    known: Seq<BankConfig>,
    blz: Seq<char>,
    unknown: FinTSError,
    login: Login,
    i: int,
)
    ensures
        banks::sound_table(known) && 0 <= i < known.len() && known[i].blz@ == blz ==> (
        asked_bank(known, blz, unknown, login) matches Ok(request) && request.bank == known[i]
            && request.login == login),
        (forall|k: int| 0 <= k < known.len() ==> (#[trigger] known[k]).blz@ != blz) ==> (asked_bank(
            known,
            blz,
            unknown,
            login,
        ) matches Err(e) && e == unknown),
{
    if banks::sound_table(known) && 0 <= i < known.len() && known[i].blz@ == blz {
        banks::law_every_bank_is_found(known, i, blz);
    }
}

} // verus!
