//! The course of the commands that fetch data: `sync`, `balance`, `transactions` and `holdings`.
//!
//! A command goes from one stage to the next. Each stage waits for one thing that the caller
//! brings: the saved session, the PIN, the connection to the bank, an answer of the user. What
//! comes next, and with what, is decided here; the caller asks, connects and fetches.
use vstd::prelude::*;

use crate::accounts;
use crate::accounts::{AccountStep, StepView, SyncTargets};
use crate::banks::{BankConfig, BankRegistry};
use crate::commands;
use crate::dates;
use crate::dates::Period;
use crate::flow::{ChallengeInfo, Login};
use crate::selection;
use crate::selection::{BankOps, BankSelection, ResolvedBank};
use crate::session;
use crate::session::SessionFile;
use crate::types::{FetchOpts, ProductId, SystemId};

verus! {

/// A command that fetches data, with its arguments.
#[derive(Debug)]
pub enum FetchCommand {
    Sync {
        iban: Option<String>,
        bic: Option<String>,
        days: u32,
        no_holdings: bool,
        all_accounts: bool,
    },
    Balance { iban: Option<String>, bic: Option<String> },
    Transactions {
        from: Option<String>,
        to: Option<String>,
        iban: Option<String>,
        bic: Option<String>,
    },
    Holdings { iban: Option<String>, bic: Option<String> },
}

/// The text of an optional argument.
pub open spec fn arg_view(arg: Option<String>) -> Option<Seq<char>> {
    match arg {
        Some(s) => Some(s@),
        None => None,
    }
}

fn arg_str(arg: &Option<String>) -> (r: Option<&str>)
    ensures
        session::str_view(r) == arg_view(*arg),
{
    match arg {
        Some(s) => Some(s.as_str()),
        None => None,
    }
}

impl FetchCommand {
    /// The argument `--iban`.
    pub open spec fn iban_arg(&self) -> Option<Seq<char>> {
        match *self {
            FetchCommand::Sync { iban, .. } => arg_view(iban),
            FetchCommand::Balance { iban, .. } => arg_view(iban),
            FetchCommand::Transactions { iban, .. } => arg_view(iban),
            FetchCommand::Holdings { iban, .. } => arg_view(iban),
        }
    }

    /// The argument `--bic`.
    pub open spec fn bic_arg(&self) -> Option<Seq<char>> {
        match *self {
            FetchCommand::Sync { bic, .. } => arg_view(bic),
            FetchCommand::Balance { bic, .. } => arg_view(bic),
            FetchCommand::Transactions { bic, .. } => arg_view(bic),
            FetchCommand::Holdings { bic, .. } => arg_view(bic),
        }
    }

    /// Whether the command connects to the bank before it settles its account.
    pub open spec fn connects_first(&self) -> bool {
        self is Sync || self is Balance
    }

    fn starts_with_connection(&self) -> (r: bool)
        ensures
            r == self.connects_first(),
    {
        match self {
            FetchCommand::Sync { .. } => true,
            FetchCommand::Balance { .. } => true,
            FetchCommand::Transactions { .. } => false,
            FetchCommand::Holdings { .. } => false,
        }
    }

    fn iban_str(&self) -> (r: Option<&str>)
        ensures
            session::str_view(r) == self.iban_arg(),
    {
        match self {
            FetchCommand::Sync { iban, .. } => arg_str(iban),
            FetchCommand::Balance { iban, .. } => arg_str(iban),
            FetchCommand::Transactions { iban, .. } => arg_str(iban),
            FetchCommand::Holdings { iban, .. } => arg_str(iban),
        }
    }

    fn bic_str(&self) -> (r: Option<&str>)
        ensures
            session::str_view(r) == self.bic_arg(),
    {
        match self {
            FetchCommand::Sync { bic, .. } => arg_str(bic),
            FetchCommand::Balance { bic, .. } => arg_str(bic),
            FetchCommand::Transactions { bic, .. } => arg_str(bic),
            FetchCommand::Holdings { bic, .. } => arg_str(bic),
        }
    }

    /// What the command fetches. The days of `transactions` are those of its period.
    pub open spec fn fetches(&self, period: Option<Period>) -> FetchOpts {
        match *self {
            FetchCommand::Sync { days, no_holdings, .. } => FetchOpts {
                balance: true,
                transactions: true,
                holdings: !no_holdings,
                days,
            },
            FetchCommand::Balance { .. } => FetchOpts {
                balance: true,
                transactions: true,
                holdings: true,
                days: 1,
            },
            FetchCommand::Transactions { .. } => FetchOpts {
                balance: true,
                transactions: true,
                holdings: true,
                days: match period {
                    Some(p) => p.days,
                    None => 1,
                },
            },
            FetchCommand::Holdings { .. } => FetchOpts {
                balance: false,
                transactions: false,
                holdings: true,
                days: 0,
            },
        }
    }

    fn fetch_opts(&self, period: &Option<Period>) -> (r: FetchOpts)
        ensures
            r == self.fetches(*period),
    {
        match self {
            FetchCommand::Sync { days, no_holdings, .. } => commands::sync_fetch_opts(
                *no_holdings,
                *days,
            ),
            FetchCommand::Balance { .. } => commands::balance_fetch_opts(),
            FetchCommand::Transactions { .. } => match period {
                Some(p) => FetchOpts::all(p.days),
                None => FetchOpts::all(1),
            },
            FetchCommand::Holdings { .. } => commands::holdings_fetch_opts(),
        }
    }

    /// Whether the command works with all accounts of the session, of which there are some.
    pub open spec fn wants_all(&self, known: Seq<session::SepaAccountSer>) -> bool {
        match *self {
            FetchCommand::Sync { all_accounts, .. } => all_accounts && known.len() > 0,
            _ => false,
        }
    }

    /// What a command that works with one account does first about it, given the accounts of the
    /// session.
    pub open spec fn first_account_step(&self, known: Seq<session::SepaAccountSer>) -> StepView {
        if self.connects_first() {
            accounts::balance_target(self.iban_arg(), self.bic_arg(), known)
        } else {
            accounts::resolved_iban_bic(self.iban_arg(), self.bic_arg(), known)
        }
    }

    fn account_step(&self, existing: Option<&SessionFile>) -> (r: SyncTargets)
        ensures
            if self.wants_all(session::known_accounts(existing)) {
                r matches SyncTargets::Session(targets) && accounts::targets_of(
                    session::known_accounts(existing),
                    targets@,
                )
            } else {
                r matches SyncTargets::One(step) && step@ == self.first_account_step(
                    session::known_accounts(existing),
                )
            },
    {
        let iban_arg = self.iban_str();
        let bic_arg = self.bic_str();
        match self {
            FetchCommand::Sync { all_accounts, .. } => accounts::sync_targets(
                *all_accounts,
                iban_arg,
                bic_arg,
                existing,
            ),
            FetchCommand::Balance { .. } => SyncTargets::One(
                accounts::balance_account(iban_arg, bic_arg, existing),
            ),
            _ => SyncTargets::One(
                accounts::resolve_iban_bic_from_args(iban_arg, bic_arg, existing),
            ),
        }
    }

    /// What the command does about its account after the user entered an IBAN.
    pub open spec fn account_step_after(&self, entered: Seq<char>) -> StepView {
        match accounts::accepted_iban(entered) {
            Ok(iban) => if self.connects_first() {
                StepView::AskBic { iban, optional: false }
            } else {
                match self.bic_arg() {
                    Some(bic) => StepView::Known { iban, bic },
                    None => StepView::AskBic { iban, optional: true },
                }
            },
            Err(message) => StepView::Fail(message),
        }
    }
}

// ---------------------------------------------------------------------------------------------
// Stages
// ---------------------------------------------------------------------------------------------

/// A command and the bank that it works with.
#[derive(Debug)]
pub struct Plan {
    pub command: FetchCommand,
    pub bank: ResolvedBank,
    /// The name of the session that the command works with.
    pub session_name: String,
    /// The day on which the command runs.
    pub today: i32,
    /// Whether the command stops once the bank asks for a TAN.
    pub no_wait: bool,
}

/// Where the session of a command comes from.
#[derive(Debug)]
pub enum SessionSource {
    /// A resume token.
    Token(String),
    /// The saved session of this name.
    Saved(String),
}

/// Where the session of a command comes from.
pub enum SourceView {
    Token(Seq<char>),
    Saved(Seq<char>),
}

impl SessionSource {
    pub open spec fn view(&self) -> SourceView {
        match *self {
            SessionSource::Token(token) => SourceView::Token(token@),
            SessionSource::Saved(name) => SourceView::Saved(name@),
        }
    }
}

/// What is known once the user has logged in.
#[derive(Debug)]
pub struct Progress {
    pub plan: Plan,
    pub existing: Option<SessionFile>,
    pub user_id: String,
    /// The period of `transactions`.
    pub period: Option<Period>,
    /// Whether the bank was contacted.
    pub connected: bool,
}

/// Waits for the session, from the token or the saved one.
#[derive(Debug)]
pub struct AwaitSession {
    pub plan: Plan,
    pub source: SessionSource,
}

/// Waits for the PIN.
#[derive(Debug)]
pub struct AwaitPin {
    pub plan: Plan,
    pub existing: Option<SessionFile>,
    pub user_id: String,
}

/// Waits for the connection to the bank. The account may be settled already.
#[derive(Debug)]
pub struct AwaitConnection {
    pub progress: Progress,
    pub account: Option<(String, String)>,
    pub pin: String,
}

/// Waits for an IBAN.
#[derive(Debug)]
pub struct AwaitIban {
    pub progress: Progress,
    pub pin: String,
}

/// Waits for the BIC that goes with an IBAN. Where it is optional, one that cannot be read counts
/// as empty.
#[derive(Debug)]
pub struct AwaitBic {
    pub progress: Progress,
    pub pin: String,
    pub iban: String,
    pub optional: bool,
}

/// All is settled: the accounts, and what to fetch of each. One of them is next.
#[derive(Debug)]
pub struct Ready {
    progress: Progress,
    targets: Vec<(String, String)>,
    at: usize,
    opts: FetchOpts,
}

/// The bank asks for a TAN, and the command does not wait for it.
#[derive(Debug)]
pub struct Stopped {
    pub progress: Progress,
}

/// The data of every account was fetched.
#[derive(Debug)]
pub struct Finished {
    pub progress: Progress,
}

/// What a command waits for next.
#[derive(Debug)]
pub enum Next {
    Session(AwaitSession),
    Pin(AwaitPin),
    Connection(AwaitConnection),
    Iban(AwaitIban),
    Bic(AwaitBic),
    Fetch(Ready),
    /// The command ends before the TAN.
    Stop(Stopped),
    /// The command has fetched everything.
    Done(Finished),
    /// The command has failed.
    Fail(String),
}

impl Ready {
    /// What is known of the command.
    pub closed spec fn spec_progress(&self) -> Progress {
        self.progress
    }

    /// The IBAN and BIC of every account that is fetched.
    pub closed spec fn spec_targets(&self) -> Seq<(String, String)> {
        self.targets@
    }

    /// The place of the account that is fetched now.
    pub closed spec fn spec_at(&self) -> int {
        self.at as int
    }

    /// What is fetched of each account.
    pub closed spec fn spec_opts(&self) -> FetchOpts {
        self.opts
    }

    /// The IBAN of the account that is fetched now.
    pub open spec fn spec_iban(&self) -> Seq<char> {
        self.spec_targets()[self.spec_at()].0@
    }

    /// The BIC of the account that is fetched now.
    pub open spec fn spec_bic(&self) -> Seq<char> {
        self.spec_targets()[self.spec_at()].1@
    }

    #[verifier::type_invariant]
    spec fn has_an_account(self) -> bool {
        self.at < self.targets@.len()
    }

    /// `self` is the first of the fetches of `p`.
    pub open spec fn is_first(&self, p: Progress) -> bool {
        &&& self.spec_progress() == p
        &&& self.spec_at() == 0
        &&& self.spec_opts() == p.plan.command.fetches(p.period)
    }

    /// `self` is the fetch that comes after `before`: that of the next account.
    pub open spec fn follows(&self, before: Ready) -> bool {
        &&& self.spec_progress() == before.spec_progress()
        &&& self.spec_targets() == before.spec_targets()
        &&& self.spec_at() == before.spec_at() + 1
        &&& self.spec_opts() == before.spec_opts()
    }

    /// What is known of the command.
    pub fn progress(&self) -> (r: &Progress)
        ensures
            *r == self.spec_progress(),
    {
        &self.progress
    }

    /// The IBAN of the account that is fetched now.
    pub fn iban(&self) -> (r: &str)
        ensures
            0 <= self.spec_at() < self.spec_targets().len(),
            r@ == self.spec_iban(),
    {
        proof {
            use_type_invariant(self);
        }
        self.targets[self.at].0.as_str()
    }

    /// The BIC of the account that is fetched now.
    pub fn bic(&self) -> (r: &str)
        ensures
            0 <= self.spec_at() < self.spec_targets().len(),
            r@ == self.spec_bic(),
    {
        proof {
            use_type_invariant(self);
        }
        self.targets[self.at].1.as_str()
    }

    /// What is fetched of the account.
    pub fn opts(&self) -> (r: &FetchOpts)
        ensures
            *r == self.spec_opts(),
    {
        &self.opts
    }

    /// Once the account was fetched, the next one is; after the last one the command has fetched
    /// everything.
    pub fn fetched(self) -> (next: Next)
        ensures
            goes_on_after_fetch(self, next),
            0 <= self.spec_at() < self.spec_targets().len(),
    {
        proof {
            use_type_invariant(&self);
        }
        let n = self.targets.len();
        if self.at < n - 1 {
            Next::Fetch(
                Ready {
                    progress: self.progress,
                    targets: self.targets,
                    at: self.at + 1,
                    opts: self.opts,
                },
            )
        } else {
            Next::Done(Finished { progress: self.progress })
        }
    }
}

/// Where a command goes once the account of `ready` was fetched.
pub open spec fn goes_on_after_fetch(ready: Ready, next: Next) -> bool {
    if ready.spec_at() + 1 < ready.spec_targets().len() {
        next matches Next::Fetch(r) && r.follows(ready)
    } else {
        next matches Next::Done(finished) && finished.progress == ready.spec_progress()
    }
}

/// Where a command goes with what is known of its account: a settled account is fetched from once
/// the bank was contacted, and is kept while the bank is contacted before that.
pub open spec fn goes_on_with(next: Next, p: Progress, pin: Seq<char>, step: StepView) -> bool {
    match step {
        StepView::Known { iban, bic } => if p.connected {
            &&& next matches Next::Fetch(ready)
            &&& ready.is_first(p)
            &&& ready.spec_targets().len() == 1
            &&& ready.spec_targets()[0].0@ == iban
            &&& ready.spec_targets()[0].1@ == bic
        } else {
            &&& next matches Next::Connection(stage)
            &&& stage.progress == p
            &&& stage.pin@ == pin
            &&& stage.account matches Some(account)
            &&& account.0@ == iban
            &&& account.1@ == bic
        },
        StepView::AskIban => {
            &&& next matches Next::Iban(stage)
            &&& stage.progress == p
            &&& stage.pin@ == pin
        },
        StepView::AskBic { iban, optional } => {
            &&& next matches Next::Bic(stage)
            &&& stage.progress == p
            &&& stage.pin@ == pin
            &&& stage.iban@ == iban
            &&& stage.optional == optional
        },
        StepView::Fail(message) => next matches Next::Fail(m) && m@ == message,
    }
}

fn go_on(progress: Progress, pin: String, step: AccountStep) -> (next: Next)
    ensures
        goes_on_with(next, progress, pin@, step@),
{
    match step {
        AccountStep::Known { iban, bic } => if progress.connected {
            let opts = progress.plan.command.fetch_opts(&progress.period);
            let mut targets: Vec<(String, String)> = Vec::new();
            targets.push((iban, bic));
            Next::Fetch(Ready { progress, targets, at: 0, opts })
        } else {
            Next::Connection(AwaitConnection { progress, account: Some((iban, bic)), pin })
        },
        AccountStep::AskIban => Next::Iban(AwaitIban { progress, pin }),
        AccountStep::AskBic { iban, optional } => Next::Bic(
            AwaitBic { progress, pin, iban, optional },
        ),
        AccountStep::Fail(message) => Next::Fail(message),
    }
}

/// Where the session of a command comes from: from the token where there is one, else it is the
/// saved one.
pub open spec fn source_of(token: Option<Seq<char>>, name: Seq<char>) -> SourceView {
    match token {
        Some(t) => SourceView::Token(t),
        None => SourceView::Saved(name),
    }
}

/// `next` is the first stage of a command.
pub open spec fn starts(
    next: Next,
    known: Seq<BankConfig>,
    sel: BankSelection,
    session_arg: Option<Seq<char>>,
    token: Option<Seq<char>>,
    command: FetchCommand,
    today: i32,
    no_wait: bool,
) -> bool {
    match selection::selected_bank(known, sel) {
        Ok(v) => {
            &&& next matches Next::Session(stage)
            &&& stage.plan.command == command
            &&& stage.plan.bank.is_bank(v)
            &&& stage.plan.session_name@ == (match session_arg {
                Some(name) => name,
                None => v.blz,
            })
            &&& stage.plan.today == today
            &&& stage.plan.no_wait == no_wait
            &&& stage.source@ == source_of(token, stage.plan.session_name@)
        },
        Err(message) => next matches Next::Fail(m) && m@ == message,
    }
}

/// A command starts with its bank and asks for its session: the one in the resume token where
/// there is a token, else the saved one that goes with the bank.
pub fn begin(
    registry: &BankRegistry,
    sel: &BankSelection,
    session_arg: Option<&str>,
    token: Option<&str>,
    command: FetchCommand,
    today: i32,
    no_wait: bool,
) -> (next: Next)
    ensures
        starts(
            next,
            registry@,
            *sel,
            session::str_view(session_arg),
            session::str_view(token),
            command,
            today,
            no_wait,
        ),
{
    match selection::resolve_bank(registry, sel) {
        Ok(bank) => {
            let session_name = session::session_name(session_arg, &bank);
            let source = match token {
                Some(t) => SessionSource::Token(t.to_owned()),
                None => SessionSource::Saved(session_name.clone()),
            };
            let plan = Plan { command, bank, session_name, today, no_wait };
            Next::Session(AwaitSession { plan, source })
        },
        Err(message) => Next::Fail(message),
    }
}

/// The session that a command works with: a token has to be readable, and a saved session need
/// not be there.
pub open spec fn session_read(source: SessionSource, read: Result<SessionFile, String>) -> Result<
    Option<SessionFile>,
    Seq<char>,
> {
    match (source, read) {
        (_, Ok(s)) => Ok(Some(s)),
        (SessionSource::Token(_), Err(message)) => Err(message@),
        (SessionSource::Saved(_), Err(_)) => Ok(None),
    }
}

pub open spec fn session_ref(existing: &Option<SessionFile>) -> Option<&SessionFile> {
    match existing {
        Some(s) => Some(s),
        None => None,
    }
}

/// Where a command goes with what came of reading its session.
pub open spec fn goes_on_with_session(
    next: Next,
    stage: AwaitSession,
    read: Result<SessionFile, String>,
    user_arg: Option<&str>,
) -> bool {
    match session_read(stage.source, read) {
        Err(message) => next matches Next::Fail(m) && m@ == message,
        Ok(existing) => match session::user_of(user_arg, session_ref(&existing)) {
            Some(user) => {
                &&& next matches Next::Pin(pin_stage)
                &&& pin_stage.plan == stage.plan
                &&& pin_stage.existing == existing
                &&& pin_stage.user_id@ == user
            },
            None => next matches Next::Fail(m) && m@
                == "No user ID. Use --user or run 'fints-client setup' first."@,
        },
    }
}

impl AwaitSession {
    /// What came of reading the session. The PIN is asked for once it is known whose it is.
    pub fn loaded(self, read: Result<SessionFile, String>, user_arg: Option<&str>) -> (next: Next)
        ensures
            goes_on_with_session(next, self, read, user_arg),
    {
        let existing = match (self.source, read) {
            (_, Ok(s)) => Some(s),
            (SessionSource::Token(_), Err(message)) => {
                return Next::Fail(message);
            },
            (SessionSource::Saved(_), Err(_)) => None,
        };
        let user = session::resolve_user_id(user_arg, existing.as_ref());
        match user {
            Ok(user_id) => Next::Pin(AwaitPin { plan: self.plan, existing, user_id }),
            Err(message) => Next::Fail(message),
        }
    }
}

pub open spec fn as_known(existing: Option<SessionFile>) -> Seq<session::SepaAccountSer> {
    match existing {
        Some(s) => s.accounts@,
        None => Seq::empty(),
    }
}

/// The period that the arguments of a command give; a command other than `transactions` has
/// none.
pub open spec fn period_of(command: FetchCommand, today: int) -> Result<
    Option<(int, int)>,
    Seq<char>,
> {
    match command {
        FetchCommand::Transactions { from, to, .. } => {
            match dates::period_given(arg_view(from), arg_view(to), today) {
                Ok(days) => Ok(Some(days)),
                Err(message) => Err(message),
            }
        },
        _ => Ok(None),
    }
}

/// The period of `transactions` goes by the dates that are written in its arguments.
pub open spec fn period_is_as_written(command: FetchCommand, today: int) -> bool {
    command matches FetchCommand::Transactions { from, to, .. } ==> {
        &&& dates::says_what_is_written(arg_view(from))
        &&& dates::says_what_is_written(arg_view(to))
        &&& dates::goes_by_what_is_written(
            dates::period_given(arg_view(from), arg_view(to), today),
            arg_view(from),
            arg_view(to),
            today,
        )
    }
}

/// `p` is the period between the given days, which are dates of the calendar, for a command that
/// runs on the day `today`.
pub open spec fn is_period(p: Option<Period>, days: Option<(int, int)>, today: int) -> bool {
    match days {
        Some((from, to)) => {
            &&& p matches Some(period)
            &&& period.from == from
            &&& period.to == to
            &&& period.days == dates::days_back(from, today)
            &&& dates::MIN_DAY <= from <= dates::MAX_DAY
            &&& dates::MIN_DAY <= to <= dates::MAX_DAY
        },
        None => p is None,
    }
}

fn read_period(command: &FetchCommand, today: i32) -> (r: Result<Option<Period>, String>)
    requires
        command is Transactions ==> dates::MIN_DAY + 90 <= today <= dates::MAX_DAY,
    ensures
        match period_of(*command, today as int) {
            Ok(days) => r is Ok && is_period(r->Ok_0, days, today as int),
            Err(message) => r is Err && r->Err_0@ == message,
        },
        period_is_as_written(*command, today as int),
{
    match command {
        FetchCommand::Transactions { from, to, .. } => {
            match dates::transaction_period(arg_str(from), arg_str(to), today) {
                Ok(p) => Ok(Some(p)),
                Err(message) => Err(message),
            }
        },
        _ => Ok(None),
    }
}

/// Where a command goes with its PIN.
pub open spec fn goes_on_with_pin(next: Next, stage: AwaitPin, pin: String) -> bool {
    if stage.plan.command.connects_first() {
        &&& next matches Next::Connection(connection)
        &&& connection.progress == (Progress {
            plan: stage.plan,
            existing: stage.existing,
            user_id: stage.user_id,
            period: None,
            connected: false,
        })
        &&& connection.account is None
        &&& connection.pin == pin
    } else {
        match period_of(stage.plan.command, stage.plan.today as int) {
            Ok(days) => exists|period: Option<Period>| #[trigger]
                is_period(period, days, stage.plan.today as int) && goes_on_with(
                    next,
                    Progress {
                        plan: stage.plan,
                        existing: stage.existing,
                        user_id: stage.user_id,
                        period,
                        connected: false,
                    },
                    pin@,
                    stage.plan.command.first_account_step(as_known(stage.existing)),
                ),
            Err(message) => next matches Next::Fail(m) && m@ == message,
        }
    }
}

impl AwaitPin {
    /// With the PIN, `sync` and `balance` contact the bank; `transactions` and `holdings` first
    /// settle their period and account.
    pub fn entered(self, pin: String) -> (next: Next)
        requires
            self.plan.command is Transactions ==> dates::MIN_DAY + 90 <= self.plan.today
                <= dates::MAX_DAY,
        ensures
            goes_on_with_pin(next, self, pin),
            period_is_as_written(self.plan.command, self.plan.today as int),
    {
        if self.plan.command.starts_with_connection() {
            let progress = Progress {
                plan: self.plan,
                existing: self.existing,
                user_id: self.user_id,
                period: None,
                connected: false,
            };
            return Next::Connection(AwaitConnection { progress, account: None, pin });
        }
        let period = match read_period(&self.plan.command, self.plan.today) {
            Ok(p) => p,
            Err(message) => return Next::Fail(message),
        };
        let step = accounts::resolve_iban_bic_from_args(
            self.plan.command.iban_str(),
            self.plan.command.bic_str(),
            self.existing.as_ref(),
        );
        let progress = Progress {
            plan: self.plan,
            existing: self.existing,
            user_id: self.user_id,
            period,
            connected: false,
        };
        go_on(progress, pin, step)
    }
}

/// `r` is who connects to which bank.
pub open spec fn connects(
    r: (BankOps, Login),
    known: Seq<BankConfig>,
    stage: AwaitConnection,
    product_id: ProductId,
) -> bool {
    &&& r.0 == selection::served_bank(
        known,
        stage.progress.plan.bank.blz@,
        stage.progress.plan.bank.config,
    )
    &&& r.1.username@ == stage.progress.user_id@
    &&& r.1.pin@ == stage.pin@
    &&& r.1.product_id == product_id
    &&& session::system_id_view(r.1.system_id) == (match stage.progress.existing {
        Some(s) => Some(s.system_id@),
        None => None,
    })
    &&& r.1.target_iban is None
    &&& r.1.target_bic is None
}

impl AwaitConnection {
    /// Who connects to which bank: the user of the command, with the system identifier of the
    /// session.
    pub fn request(&self, registry: &BankRegistry, product_id: ProductId) -> (r: (BankOps, Login))
        ensures
            connects(r, registry@, *self, product_id),
    {
        let ops = self.progress.plan.bank.to_bank_ops(registry);
        let login = commands::session_login(
            self.progress.user_id.as_str(),
            self.pin.as_str(),
            product_id,
            self.progress.existing.as_ref(),
        );
        (ops, login)
    }

    /// Once the bank was contacted, a command that does not wait for a TAN stops where the bank
    /// asks for one. Else a settled account is fetched from, and where none is settled yet, all
    /// accounts of the session are fetched from or one is settled now.
    pub fn connected(self, challenge: &ChallengeInfo) -> (next: Next)
        ensures
            goes_on_connected(next, self, *challenge),
    {
        let progress = Progress {
            plan: self.progress.plan,
            existing: self.progress.existing,
            user_id: self.progress.user_id,
            period: self.progress.period,
            connected: true,
        };
        if progress.plan.no_wait && !challenge.no_tan_required {
            return Next::Stop(Stopped { progress });
        }
        match self.account {
            Some((iban, bic)) => go_on(progress, self.pin, AccountStep::Known { iban, bic }),
            None => match progress.plan.command.account_step(progress.existing.as_ref()) {
                SyncTargets::Session(targets) => {
                    let opts = progress.plan.command.fetch_opts(&progress.period);
                    Next::Fetch(Ready { progress, targets, at: 0, opts })
                },
                SyncTargets::One(step) => go_on(progress, self.pin, step),
            },
        }
    }
}

/// Where a command goes once the bank was contacted and has answered with `challenge`.
pub open spec fn goes_on_connected(
    next: Next,
    stage: AwaitConnection,
    challenge: ChallengeInfo,
) -> bool {
    after_connection(
        next,
        Progress { connected: true, ..stage.progress },
        stage.pin@,
        stage.account,
        !challenge.no_tan_required,
    )
}

/// Where a command goes with the IBAN that the user entered.
pub open spec fn goes_on_with_iban(next: Next, stage: AwaitIban, entered: Seq<char>) -> bool {
    goes_on_with(
        next,
        stage.progress,
        stage.pin@,
        stage.progress.plan.command.account_step_after(entered),
    )
}

/// Where a command goes with the BIC that the user entered.
pub open spec fn goes_on_with_bic(
    next: Next,
    stage: AwaitBic,
    entered: Result<String, String>,
) -> bool {
    goes_on_with(
        next,
        stage.progress,
        stage.pin@,
        accounts::step_with_bic(stage.iban@, stage.optional, entered),
    )
}

/// Where a command goes once the bank was contacted.
pub open spec fn after_connection(
    next: Next,
    p: Progress,
    pin: Seq<char>,
    account: Option<(String, String)>,
    tan_required: bool,
) -> bool {
    let known = as_known(p.existing);
    if p.plan.no_wait && tan_required {
        next matches Next::Stop(stopped) && stopped.progress == p
    } else {
        match account {
            Some((iban, bic)) => goes_on_with(
                next,
                p,
                pin,
                StepView::Known { iban: iban@, bic: bic@ },
            ),
            None => if p.plan.command.wants_all(known) {
                &&& next matches Next::Fetch(ready)
                &&& ready.is_first(p)
                &&& accounts::targets_of(known, ready.spec_targets())
            } else {
                goes_on_with(next, p, pin, p.plan.command.first_account_step(known))
            },
        }
    }
}

impl AwaitIban {
    /// The IBAN that the user entered.
    pub fn entered(self, entered: &str) -> (next: Next)
        ensures
            goes_on_with_iban(next, self, entered@),
    {
        let step = if self.progress.plan.command.starts_with_connection() {
            accounts::balance_iban_entered(entered)
        } else {
            accounts::iban_entered(entered, self.progress.plan.command.bic_str())
        };
        go_on(self.progress, self.pin, step)
    }
}

impl AwaitBic {
    /// The BIC that the user entered, or why there is none.
    pub fn entered(self, entered: Result<String, String>) -> (next: Next)
        ensures
            goes_on_with_bic(next, self, entered),
    {
        let step = accounts::bic_entered(self.iban, self.optional, entered);
        go_on(self.progress, self.pin, step)
    }
}

/// The session after a command: of the user and bank of `p`, with the state of the session
/// before.
pub open spec fn is_session_after(
    s: SessionFile,
    p: Progress,
    system_id: Seq<char>,
    challenge: ChallengeInfo,
    saved_at: Seq<char>,
) -> bool {
    &&& session::is_session_of(s, p.plan.bank, p.user_id@, system_id, challenge, saved_at)
    &&& session::continues(s, p.existing)
}

/// The session that is saved once the data was fetched: `sync` updates it.
pub open spec fn is_saved(
    r: Option<SessionFile>,
    p: Progress,
    dialog_system_id: Option<&SystemId>,
    flow_system_id: SystemId,
    challenge: ChallengeInfo,
    saved_at: Seq<char>,
) -> bool {
    &&& r is Some <==> p.plan.command is Sync
    &&& r matches Some(s) ==> is_session_after(
        s,
        p,
        match dialog_system_id {
            Some(id) => id@,
            None => flow_system_id@,
        },
        challenge,
        saved_at,
    )
}

impl Stopped {
    /// The session with which the command can be resumed.
    pub fn session(&self, flow_system_id: &SystemId, challenge: &ChallengeInfo, saved_at: String) -> (r:
        SessionFile)
        ensures
            is_session_after(r, self.progress, flow_system_id@, *challenge, saved_at@),
    {
        session::updated_session(
            &self.progress.plan.bank,
            self.progress.user_id.as_str(),
            None,
            flow_system_id,
            challenge,
            self.progress.existing.as_ref(),
            saved_at,
        )
    }
}

impl Finished {
    /// The session to save once the data was fetched: `sync` updates it, the other commands leave
    /// it as it is.
    pub fn session_to_save(
        &self,
        dialog_system_id: Option<&SystemId>,
        flow_system_id: &SystemId,
        challenge: &ChallengeInfo,
        saved_at: String,
    ) -> (r: Option<SessionFile>)
        ensures
            is_saved(
                r,
                self.progress,
                dialog_system_id,
                *flow_system_id,
                *challenge,
                saved_at@,
            ),
    {
        match self.progress.plan.command {
            FetchCommand::Sync { .. } => Some(
                session::updated_session(
                    &self.progress.plan.bank,
                    self.progress.user_id.as_str(),
                    dialog_system_id,
                    flow_system_id,
                    challenge,
                    self.progress.existing.as_ref(),
                    saved_at,
                ),
            ),
            _ => None,
        }
    }
}

/// A sync of all accounts fetches one account after the other, each account of the session once
/// and in the order of the session, with its balance and its transactions.
pub proof fn law_sync_fetches_every_account(
    next: Next,
    p: Progress,
    pin: Seq<char>,
    tan_required: bool,
    fetches: Seq<Ready>,
)
    requires
        p.plan.command.wants_all(as_known(p.existing)),
        !(p.plan.no_wait && tan_required),
        after_connection(next, p, pin, None, tan_required),
        fetches.len() > 0,
        next == Next::Fetch(fetches[0]),
        forall|i: int| 1 <= i < fetches.len() ==> (#[trigger] fetches[i]).follows(fetches[i - 1]),
        fetches.last().spec_at() + 1 == fetches.last().spec_targets().len(),
    ensures
        fetches.len() == as_known(p.existing).len(),
        forall|i: int|
            0 <= i < fetches.len() ==> {
                let target = (#[trigger] fetches[i]).spec_targets()[fetches[i].spec_at()];
                &&& target.0@ == as_known(p.existing)[i].iban@
                &&& target.1@ == as_known(p.existing)[i].bic@
                &&& fetches[i].spec_opts().balance
                &&& fetches[i].spec_opts().transactions
            },
{
    let known = as_known(p.existing);
    assert forall|i: int| 0 <= i < fetches.len() implies {
        let f = #[trigger] fetches[i];
        &&& f.spec_at() == i
        &&& f.spec_targets() == fetches[0].spec_targets()
        &&& f.spec_opts() == fetches[0].spec_opts()
    } by {
        lemma_fetches_in_order(fetches, i);
    }
    assert(accounts::targets_of(known, fetches[0].spec_targets()));
}

proof fn lemma_fetches_in_order(fetches: Seq<Ready>, i: int)
    requires
        0 <= i < fetches.len(),
        fetches[0].spec_at() == 0,
        forall|k: int| 1 <= k < fetches.len() ==> (#[trigger] fetches[k]).follows(fetches[k - 1]),
    ensures
        fetches[i].spec_at() == i,
        fetches[i].spec_targets() == fetches[0].spec_targets(),
        fetches[i].spec_opts() == fetches[0].spec_opts(),
    decreases i,
{
    if i > 0 {
        lemma_fetches_in_order(fetches, i - 1);
        assert(fetches[i].follows(fetches[i - 1]));
    }
}

/// The session of a resume token stands in for the saved one, for every command: its user and its
/// system identifier are gone on with, and a token that cannot be read is an error.
pub proof fn law_token_stands_in_for_the_session(
    token: String,
    s: SessionFile,
    message: String,
)
    ensures
        session_read(SessionSource::Token(token), Ok(s)) == Ok::<Option<SessionFile>, Seq<char>>(
            Some(s),
        ),
        session_read(SessionSource::Token(token), Err(message)) == Err::<
            Option<SessionFile>,
            Seq<char>,
        >(message@),
        session::user_of(None, session_ref(&Some(s))) == Some(s.user_id@),
        session::kept_system_id(session_ref(&Some(s))) == Some(s.system_id@),
{
}

/// Data is fetched only after the bank was contacted, whatever is known of the account.
pub proof fn law_fetch_needs_a_connection(next: Next, p: Progress, pin: Seq<char>, step: StepView)
    requires
        goes_on_with(next, p, pin, step),
    ensures
        next matches Next::Fetch(ready) ==> p.connected && ready.spec_progress().connected,
{
}

/// A command never loses its plan, its session, its user or its period on the way to its account.
pub proof fn law_progress_is_kept(next: Next, p: Progress, pin: Seq<char>, step: StepView)
    requires
        goes_on_with(next, p, pin, step),
    ensures
        next matches Next::Fetch(ready) ==> ready.spec_progress() == p,
        next matches Next::Connection(stage) ==> stage.progress == p,
        next matches Next::Iban(stage) ==> stage.progress == p,
        next matches Next::Bic(stage) ==> stage.progress == p,
{
}

/// Every account of a sync is asked for its balance and for the transactions of as many days as
/// `--days` says, and for its holdings exactly where `--no-holdings` is not given.
pub proof fn law_sync_fetches_what_is_asked_for(fetches: Seq<Ready>, p: Progress, i: int)
    requires
        p.plan.command is Sync,
        0 <= i < fetches.len(),
        fetches[0].is_first(p),
        forall|k: int| 1 <= k < fetches.len() ==> (#[trigger] fetches[k]).follows(fetches[k - 1]),
    ensures
        fetches[i].spec_opts().balance,
        fetches[i].spec_opts().transactions,
        fetches[i].spec_opts().holdings <==> !p.plan.command->Sync_no_holdings,
        fetches[i].spec_opts().days == p.plan.command->Sync_days,
{
    lemma_fetches_in_order(fetches, i);
}

/// A balance is fetched with all the data of an account, and for one day alone.
pub proof fn law_balance_is_fetched(ready: Ready, p: Progress)
    requires
        p.plan.command is Balance,
        ready.is_first(p),
    ensures
        ready.spec_opts().balance,
        ready.spec_opts().transactions,
        ready.spec_opts().holdings,
        ready.spec_opts().days == 1,
{
}

/// The transactions of a period are asked for as far back as its first day: the days asked for
/// reach from today to that day or further, and no further than needed.
pub proof fn law_transactions_reach_back_to_the_first_day(
    ready: Ready,
    p: Progress,
    from: int,
    to: int,
)
    requires
        p.plan.command is Transactions,
        ready.is_first(p),
        is_period(p.period, Some((from, to)), p.plan.today as int),
    ensures
        ready.spec_opts().balance,
        ready.spec_opts().transactions,
        ready.spec_opts().holdings,
        p.plan.today - ready.spec_opts().days <= from,
        from < p.plan.today ==> p.plan.today - ready.spec_opts().days == from,
        ready.spec_opts().days >= 1,
        p.period->0.from == from,
        p.period->0.to == to,
{
}

/// `holdings` asks for the holdings and for nothing else.
pub proof fn law_holdings_alone_are_fetched(ready: Ready, p: Progress)
    requires
        p.plan.command is Holdings,
        ready.is_first(p),
    ensures
        ready.spec_opts().holdings,
        !ready.spec_opts().balance,
        !ready.spec_opts().transactions,
{
}

/// A sync of all accounts is one where `--all-accounts` is given and the session has accounts; no
/// other command works with more than one account.
pub proof fn law_when_all_accounts_are_fetched(
    command: FetchCommand,
    existing: Option<SessionFile>,
)
    ensures
        command.wants_all(as_known(existing)) <==> command is Sync
            && command->Sync_all_accounts && existing is Some && existing->0.accounts@.len() > 0,
        existing matches Some(s) ==> as_known(existing) == s.accounts@,
        existing is None ==> as_known(existing).len() == 0,
{
}

/// A command with an account knows where to go: it contacts the bank and keeps the account on the
/// way, and once the bank was contacted it fetches this account and no other one. A command
/// without an account asks for what is missing, and one that cannot go on says why.
pub proof fn law_account_is_kept(next: Next, p: Progress, pin: Seq<char>, step: StepView)
    requires
        goes_on_with(next, p, pin, step),
    ensures
        step matches StepView::Known { iban, bic } ==> (p.connected ==> {
            &&& next matches Next::Fetch(ready)
            &&& ready.spec_targets().len() == 1
            &&& ready.spec_targets()[0].0@ == iban
            &&& ready.spec_targets()[0].1@ == bic
            &&& ready.spec_at() == 0
        }),
        step matches StepView::Known { iban, bic } ==> (!p.connected ==> {
            &&& next matches Next::Connection(stage)
            &&& stage.account matches Some((settled_iban, settled_bic))
            &&& settled_iban@ == iban
            &&& settled_bic@ == bic
            &&& stage.pin@ == pin
        }),
        step is AskIban ==> (next matches Next::Iban(stage) && stage.pin@ == pin),
        step matches StepView::AskBic { iban, optional } ==> (next matches Next::Bic(stage)
            && stage.iban@ == iban && stage.optional == optional && stage.pin@ == pin),
        step matches StepView::Fail(message) ==> (next matches Next::Fail(m) && m@ == message),
{
}

/// Once the bank was contacted, a command stops exactly where it does not wait and the bank asks
/// for a TAN. Else the account that was settled before is fetched.
pub proof fn law_when_a_command_stops(
    next: Next,
    p: Progress,
    pin: Seq<char>,
    account: Option<(String, String)>,
    tan_required: bool,
)
    requires
        p.connected,
        after_connection(next, p, pin, account, tan_required),
    ensures
        next is Stop <==> p.plan.no_wait && tan_required,
        next matches Next::Stop(stopped) ==> stopped.progress == p,
        account matches Some((iban, bic)) ==> (!(next is Stop) ==> (next matches Next::Fetch(ready)
            && ready.spec_targets().len() == 1 && ready.spec_targets()[0].0@ == iban@
            && ready.spec_targets()[0].1@ == bic@ && ready.spec_progress() == p)),
{
}

/// A `balance` or a `sync` of one account that has no account yet takes the one of its arguments
/// and of the session, as `accounts::balance_target` has it; `transactions` and `holdings` take
/// theirs before the bank is contacted, as `accounts::resolved_iban_bic` has it.
pub proof fn law_which_account(command: FetchCommand, existing: Option<SessionFile>)
    ensures
        command matches FetchCommand::Sync { iban, bic, .. } ==> command.first_account_step(
            as_known(existing),
        ) == accounts::balance_target(arg_view(iban), arg_view(bic), as_known(existing)),
        command matches FetchCommand::Balance { iban, bic } ==> command.first_account_step(
            as_known(existing),
        ) == accounts::balance_target(arg_view(iban), arg_view(bic), as_known(existing)),
        command matches FetchCommand::Transactions { iban, bic, .. } ==> command.first_account_step(
            as_known(existing),
        ) == accounts::resolved_iban_bic(arg_view(iban), arg_view(bic), as_known(existing)),
        command matches FetchCommand::Holdings { iban, bic } ==> command.first_account_step(
            as_known(existing),
        ) == accounts::resolved_iban_bic(arg_view(iban), arg_view(bic), as_known(existing)),
        command.connects_first() <==> command is Sync || command is Balance,
{
}

/// An IBAN that the user enters is the account of the command where it is valid, and an error else.
pub proof fn law_entered_account(command: FetchCommand, entered: Seq<char>)
    ensures
        command is Sync || command is Balance ==> command.account_step_after(entered)
            == accounts::balance_step_with_iban(entered),
        command matches FetchCommand::Transactions { bic, .. } ==> command.account_step_after(
            entered,
        ) == accounts::step_with_iban(entered, arg_view(bic)),
        command matches FetchCommand::Holdings { bic, .. } ==> command.account_step_after(entered)
            == accounts::step_with_iban(entered, arg_view(bic)),
{
}

/// A resume token is the session of a command wherever it is given, and the saved session of the
/// command's name else.
pub proof fn law_source_of_the_session(token: Option<Seq<char>>, name: Seq<char>)
    ensures
        token is Some ==> source_of(token, name) == SourceView::Token(token->0),
        token is None ==> source_of(token, name) == SourceView::Saved(name),
{
}

/// A saved session that cannot be read is no error: the command goes on without one.
pub proof fn law_saved_session_may_be_missing(name: String, s: SessionFile, message: String)
    ensures
        session_read(SessionSource::Saved(name), Ok(s)) == Ok::<Option<SessionFile>, Seq<char>>(
            Some(s),
        ),
        session_read(SessionSource::Saved(name), Err(message)) == Ok::<
            Option<SessionFile>,
            Seq<char>,
        >(None),
{
}

/// The session after a command has the data of its user and of its bank, the system identifier of
/// the dialog, the TAN methods that the bank named, and the accounts and parameters of the session
/// before.
pub proof fn law_session_after_a_command(
    s: SessionFile,
    p: Progress,
    system_id: Seq<char>,
    challenge: ChallengeInfo,
    saved_at: Seq<char>,
)
    requires
        is_session_after(s, p, system_id, challenge, saved_at),
    ensures
        s.version == 1,
        s.bank_id@ == p.plan.bank.blz@,
        s.blz@ == p.plan.bank.blz@,
        s.bank_url@ == p.plan.bank.url@,
        s.user_id@ == p.user_id@,
        s.system_id@ == system_id,
        s.saved_at@ == saved_at,
        s.tan_methods@.len() == challenge.tan_methods@.len(),
        s.operation_tan_required@.len() == 0,
        p.existing matches Some(before) ==> s.accounts@ == before.accounts@ && s.bpd_version
            == before.bpd_version && s.upd_version == before.upd_version
            && s.selected_security_function@ == before.selected_security_function@,
        p.existing is None ==> s.accounts@.len() == 0 && s.bpd_version == 0 && s.upd_version == 0
            && s.selected_security_function@ == "999"@,
{
}

/// `transactions` has the period of its arguments, and no other command has one.
pub proof fn law_period_of_a_command(command: FetchCommand, today: int)
    ensures
        command matches FetchCommand::Transactions { from, to, .. } ==> match dates::period_given(
            arg_view(from),
            arg_view(to),
            today,
        ) {
            Ok(days) => period_of(command, today) == Ok::<Option<(int, int)>, Seq<char>>(Some(days)),
            Err(message) => period_of(command, today) == Err::<Option<(int, int)>, Seq<char>>(
                message,
            ),
        },
        !(command is Transactions) ==> period_of(command, today) == Ok::<
            Option<(int, int)>,
            Seq<char>,
        >(None),
{
}

/// One account is fetched after the other, none is passed over, and the command is done exactly
/// after the last one.
pub proof fn law_after_a_fetch(ready: Ready, next: Next)
    requires
        0 <= ready.spec_at() < ready.spec_targets().len(),
        goes_on_after_fetch(ready, next),
    ensures
        next is Fetch || next is Done,
        next is Done <==> ready.spec_at() == ready.spec_targets().len() - 1,
        next matches Next::Fetch(r) ==> {
            &&& r.spec_at() == ready.spec_at() + 1
            &&& r.spec_targets() == ready.spec_targets()
            &&& r.spec_opts() == ready.spec_opts()
            &&& r.spec_progress() == ready.spec_progress()
        },
        next matches Next::Done(finished) ==> finished.progress == ready.spec_progress(),
{
}

/// A sync saves the session that it leaves, and no other command saves one. Its system identifier
/// is that of the dialog, and that of the flow where the dialog named none.
pub proof fn law_who_saves_the_session(
    r: Option<SessionFile>,
    p: Progress,
    dialog_system_id: Option<&SystemId>,
    flow_system_id: SystemId,
    challenge: ChallengeInfo,
    saved_at: Seq<char>,
)
    requires
        is_saved(r, p, dialog_system_id, flow_system_id, challenge, saved_at),
    ensures
        r is Some <==> p.plan.command is Sync,
        r matches Some(s) ==> {
            &&& dialog_system_id is Some ==> s.system_id@ == dialog_system_id->0@
            &&& dialog_system_id is None ==> s.system_id@ == flow_system_id@
            &&& s.user_id@ == p.user_id@
            &&& s.bank_id@ == p.plan.bank.blz@
            &&& p.existing is Some ==> s.accounts@ == p.existing->0.accounts@
        },
{
}

/// The account that is fetched is the one whose turn it is: its IBAN and its BIC.
pub proof fn law_account_whose_turn_it_is(ready: Ready)
    requires
        0 <= ready.spec_at() < ready.spec_targets().len(),
    ensures
        ready.spec_iban() == ready.spec_targets()[ready.spec_at()].0@,
        ready.spec_bic() == ready.spec_targets()[ready.spec_at()].1@,
{
}

/// A command starts with the bank that its arguments name and with the session of its token, else
/// with the saved one of the given name or of its bank. A bank that is not known is an error.
pub proof fn law_how_a_command_starts(
    next: Next,
    known: Seq<BankConfig>,
    sel: BankSelection,
    session_arg: Option<Seq<char>>,
    token: Option<Seq<char>>,
    command: FetchCommand,
    today: i32,
    no_wait: bool,
)
    requires
        starts(next, known, sel, session_arg, token, command, today, no_wait),
    ensures
        selection::selected_bank(known, sel) matches Err(message) ==> (next matches Next::Fail(m)
            && m@ == message),
        selection::selected_bank(known, sel) matches Ok(v) ==> (next matches Next::Session(stage)
            && {
            &&& stage.plan.command == command
            &&& stage.plan.bank.is_bank(v)
            &&& stage.plan.today == today
            &&& stage.plan.no_wait == no_wait
            &&& session_arg is Some ==> stage.plan.session_name@ == session_arg->0
            &&& session_arg is None ==> stage.plan.session_name@ == stage.plan.bank.blz@
            &&& token is Some ==> stage.source@ == SourceView::Token(token->0)
            &&& token is None ==> stage.source@ == SourceView::Saved(stage.plan.session_name@)
        }),
{
}

/// With its session a command goes on for the user of the command line, else for that of the
/// session. A command without a user, or with a token that cannot be read, fails.
pub proof fn law_with_its_session(
    next: Next,
    stage: AwaitSession,
    read: Result<SessionFile, String>,
    user_arg: Option<&str>,
)
    requires
        goes_on_with_session(next, stage, read, user_arg),
    ensures
        stage.source is Token ==> (read matches Err(message) ==> (next matches Next::Fail(m) && m@
            == message@)),
        user_arg matches Some(user) ==> (read is Ok || stage.source is Saved ==> (
        next matches Next::Pin(p) && p.user_id@ == user@ && p.plan == stage.plan)),
        read matches Ok(s) ==> (user_arg is None ==> (next matches Next::Pin(p) && p.user_id@
            == s.user_id@)),
        read matches Ok(s) ==> (next matches Next::Pin(p) && p.existing == Some(s) && p.plan
            == stage.plan),
        read is Err && stage.source is Saved && user_arg is None ==> (next matches Next::Fail(m)
            && m@ == "No user ID. Use --user or run 'fints-client setup' first."@),
        next matches Next::Pin(p) ==> (read is Err ==> p.existing is None),
{
}

/// With its PIN, `sync` or `balance` contacts the bank right away; `transactions` and `holdings`
/// settle their period and their account first, and fail where the period is none.
pub proof fn law_with_its_pin(next: Next, stage: AwaitPin, pin: String)
    requires
        goes_on_with_pin(next, stage, pin),
    ensures
        stage.plan.command is Sync || stage.plan.command is Balance ==> (
        next matches Next::Connection(s) && s.account is None && s.pin@ == pin@ && s.progress.plan
            == stage.plan && s.progress.existing == stage.existing && s.progress.user_id@
            == stage.user_id@ && !s.progress.connected),
        stage.plan.command is Transactions || stage.plan.command is Holdings ==> !(next is Fetch),
        stage.plan.command is Transactions && period_of(stage.plan.command, stage.plan.today as int)
            is Err ==> (next matches Next::Fail(m) && m@ == period_of(
            stage.plan.command,
            stage.plan.today as int,
        )->Err_0),
        next matches Next::Connection(s) ==> {
            &&& s.pin@ == pin@
            &&& s.progress.plan == stage.plan
            &&& s.progress.existing == stage.existing
            &&& s.progress.user_id == stage.user_id
            &&& stage.plan.command is Transactions ==> s.progress.period is Some
                && s.account is Some
            &&& stage.plan.command is Holdings ==> s.account is Some
        },
{
}

/// A command connects as its user, with the PIN that was entered and with the system identifier of
/// its session, to its bank as the registry has it.
pub proof fn law_who_connects(
    r: (BankOps, Login),
    known: Seq<BankConfig>,
    stage: AwaitConnection,
    product_id: ProductId,
)
    requires
        connects(r, known, stage, product_id),
    ensures
        r.0 == selection::served_bank(
            known,
            stage.progress.plan.bank.blz@,
            stage.progress.plan.bank.config,
        ),
        r.1.username@ == stage.progress.user_id@,
        r.1.pin@ == stage.pin@,
        r.1.product_id@ == product_id@,
        stage.progress.existing matches Some(s) ==> r.1.system_id is Some && r.1.system_id->0@
            == s.system_id@,
        stage.progress.existing is None ==> r.1.system_id is None,
{
}

/// A connected command keeps what it knows. With `--no-wait` it stops exactly where the bank asks
/// for a TAN; else it fetches the account that it has settled, or all accounts of the session
/// where a sync is to fetch them.
pub proof fn law_once_connected(next: Next, stage: AwaitConnection, challenge: ChallengeInfo)
    requires
        goes_on_connected(next, stage, challenge),
    ensures
        next is Stop <==> stage.progress.plan.no_wait && !challenge.no_tan_required,
        next matches Next::Stop(stopped) ==> stopped.progress.existing == stage.progress.existing
            && stopped.progress.user_id == stage.progress.user_id && stopped.progress.plan
            == stage.progress.plan,
        next matches Next::Fetch(ready) ==> {
            &&& ready.spec_progress().connected
            &&& ready.spec_progress().plan == stage.progress.plan
            &&& ready.spec_progress().existing == stage.progress.existing
            &&& ready.spec_progress().user_id == stage.progress.user_id
            &&& ready.spec_progress().period == stage.progress.period
            &&& ready.spec_at() == 0
        },
        stage.account matches Some((iban, bic)) ==> (!(next is Stop) ==> (next matches Next::Fetch(
            ready,
        ) && ready.spec_targets().len() == 1 && ready.spec_targets()[0].0@ == iban@
            && ready.spec_targets()[0].1@ == bic@)),
        stage.account is None && !(next is Stop) && stage.progress.plan.command is Sync
            && stage.progress.plan.command->Sync_all_accounts && stage.progress.existing is Some
            && stage.progress.existing->0.accounts@.len() > 0 ==> (next matches Next::Fetch(ready)
            && ready.spec_targets().len() == stage.progress.existing->0.accounts@.len()
            && forall|i: int|
            0 <= i < ready.spec_targets().len() ==> (#[trigger] ready.spec_targets()[i]).0@
                == stage.progress.existing->0.accounts@[i].iban@ && ready.spec_targets()[i].1@
                == stage.progress.existing->0.accounts@[i].bic@),
{
}

/// An IBAN and a BIC that the user enters lead on: the BIC is asked for after the IBAN, and with
/// both the account is settled.
pub proof fn law_entered_data(
    next: Next,
    iban_stage: AwaitIban,
    entered: Seq<char>,
    bic_stage: AwaitBic,
    answer: Result<String, String>,
)
    ensures
        goes_on_with_iban(next, iban_stage, entered) ==> goes_on_with(
            next,
            iban_stage.progress,
            iban_stage.pin@,
            iban_stage.progress.plan.command.account_step_after(entered),
        ),
        goes_on_with_bic(next, bic_stage, answer) && answer is Ok && bic_stage.progress.connected
            ==> (next matches Next::Fetch(ready) && ready.spec_targets().len() == 1
            && ready.spec_targets()[0].0@ == bic_stage.iban@ && ready.spec_targets()[0].1@
            == answer->Ok_0@),
        goes_on_with_bic(next, bic_stage, answer) && answer is Ok && !bic_stage.progress.connected
            ==> (next matches Next::Connection(s) && (s.account matches Some((iban, bic)) && iban@
            == bic_stage.iban@ && bic@ == answer->Ok_0@)),
        goes_on_with_bic(next, bic_stage, answer) && answer is Err && !bic_stage.optional ==> (
        next matches Next::Fail(m) && m@ == answer->Err_0@),
{
}

} // verus!
