use fints::banks::{BankConfig, BankRegistry};
use fints::course::{begin, FetchCommand, Next, SessionSource};
use fints::flow::ChallengeInfo;
use fints::selection::{BankOps, BankSelection};
use fints::session::{SepaAccountSer, SessionFile};
use fints::types::{ChallengeText, FetchOpts, ProductId, SystemId};

const DE: &str = "DE89370400440532013000";
const NL: &str = "NL91ABNA0417164300";
const TODAY: i32 = 739021;

fn s(text: &str) -> String {
    text.to_string()
}

fn registry() -> BankRegistry {
    BankRegistry::from_table(vec![BankConfig::new(
        s("DKB"),
        s("12030000"),
        s("BYLADEM1001"),
        s("https://fints.dkb.de/fints"),
    )])
    .unwrap()
}

fn selection(blz: &str) -> BankSelection {
    BankSelection { url: None, blz: None, bank: Some(s(blz)) }
}

fn session(accounts: &[(&str, &str)]) -> SessionFile {
    SessionFile {
        version: 1,
        bank_id: s("12030000"),
        bank_url: s("https://fints.dkb.de/fints"),
        blz: s("12030000"),
        user_id: s("saved"),
        system_id: s("sys"),
        bpd_version: 5,
        upd_version: 2,
        tan_methods: Vec::new(),
        selected_security_function: s("940"),
        accounts: accounts
            .iter()
            .map(|(iban, bic)| SepaAccountSer {
                iban: s(iban),
                bic: s(bic),
                account_number: s(""),
                blz: s(""),
                owner: None,
                product_name: None,
                currency: None,
            })
            .collect(),
        operation_tan_required: Vec::new(),
        saved_at: s(""),
    }
}

fn sync(iban: Option<&str>, all_accounts: bool) -> FetchCommand {
    FetchCommand::Sync { iban: iban.map(s), bic: None, days: 30, no_holdings: true, all_accounts }
}

fn balance(iban: Option<&str>) -> FetchCommand {
    FetchCommand::Balance { iban: iban.map(s), bic: None }
}

fn holdings(iban: Option<&str>, bic: Option<&str>) -> FetchCommand {
    FetchCommand::Holdings { iban: iban.map(s), bic: bic.map(s) }
}

fn transactions(from: Option<&str>, to: Option<&str>, iban: Option<&str>) -> FetchCommand {
    FetchCommand::Transactions { from: from.map(s), to: to.map(s), iban: iban.map(s), bic: None }
}

/// The stage behind the PIN.
fn logged_in(command: FetchCommand, existing: Option<SessionFile>) -> Next {
    let stage = match begin(&registry(), &selection("12030000"), None, None, command, TODAY, false) {
        Next::Session(stage) => stage,
        other => panic!("{:?}", other),
    };
    let read = existing.ok_or(s("No session found"));
    let stage = match stage.loaded(read, Some("me")) {
        Next::Pin(stage) => stage,
        other => panic!("{:?}", other),
    };
    stage.entered(s("12345"))
}

fn challenge(no_tan_required: bool) -> ChallengeInfo {
    ChallengeInfo {
        challenge: ChallengeText::new(s("")),
        challenge_hhduc: None,
        decoupled: false,
        tan_methods: Vec::new(),
        allowed_security_functions: Vec::new(),
        no_tan_required,
    }
}

fn connect(next: Next) -> Next {
    match next {
        Next::Connection(stage) => stage.connected(&challenge(false)),
        other => panic!("{:?}", other),
    }
}

fn fetched(next: Next) -> (String, String, FetchOpts) {
    match next {
        Next::Fetch(ready) => {
            assert!(ready.progress().connected);
            assert_eq!(ready.progress().user_id, "me");
            let account = (s(ready.iban()), s(ready.bic()), *ready.opts());
            assert!(matches!(ready.fetched(), Next::Done(_)));
            account
        }
        other => panic!("{:?}", other),
    }
}

fn failed(next: Next) -> String {
    match next {
        Next::Fail(message) => message,
        other => panic!("{:?}", other),
    }
}

#[test]
fn a_command_starts_with_its_bank() {
    match begin(&registry(), &selection("12030000"), None, None, balance(None), TODAY, false) {
        Next::Session(stage) => {
            assert_eq!(stage.plan.bank.name, "DKB");
            assert_eq!(stage.plan.session_name, "12030000");
        }
        other => panic!("{:?}", other),
    }
    match begin(&registry(), &selection("12030000"), Some("mine"), None, balance(None), TODAY, false) {
        Next::Session(stage) => assert_eq!(stage.plan.session_name, "mine"),
        other => panic!("{:?}", other),
    }
    assert_eq!(
        failed(begin(&registry(), &selection("9"), None, None, balance(None), TODAY, false)),
        "Unknown BLZ '9'. Use --blz <blz> or --url <url>. See 'banks' subcommand for a list."
    );
}

#[test]
fn the_pin_is_asked_for_when_the_user_is_known() {
    let stage = || match begin(&registry(), &selection("12030000"), None, None, balance(None), TODAY, false) {
        Next::Session(stage) => stage,
        other => panic!("{:?}", other),
    };
    assert_eq!(
        failed(stage().loaded(Err(s("missing")), None)),
        "No user ID. Use --user or run 'fints-client setup' first."
    );
    match stage().loaded(Ok(session(&[])), None) {
        Next::Pin(stage) => assert_eq!(stage.user_id, "saved"),
        other => panic!("{:?}", other),
    }
    match stage().loaded(Ok(session(&[])), Some("me")) {
        Next::Pin(stage) => assert_eq!(stage.user_id, "me"),
        other => panic!("{:?}", other),
    }
}

#[test]
fn who_connects() {
    match logged_in(balance(None), Some(session(&[]))) {
        Next::Connection(stage) => {
            let (ops, login) = stage.request(&registry(), ProductId::new(s("P")));
            assert!(matches!(ops, BankOps::Registered(_)));
            assert_eq!(login.username.as_str(), "me");
            assert_eq!(login.pin.as_str(), "12345");
            assert_eq!(login.product_id.as_str(), "P");
            assert_eq!(login.system_id.unwrap().as_str(), "sys");
            assert!(login.target_iban.is_none());
        }
        other => panic!("{:?}", other),
    }
}

#[test]
fn sync_and_balance_connect_first() {
    let two = || Some(session(&[(DE, "FIRST"), (NL, "SECOND")]));
    let (iban, bic, opts) = fetched(connect(logged_in(balance(Some(NL)), two())));
    assert_eq!((iban.as_str(), bic.as_str()), (NL, "SECOND"));
    assert_eq!(opts, FetchOpts::all(1));
    let (iban, bic, opts) = fetched(connect(logged_in(sync(None, false), two())));
    assert_eq!((iban.as_str(), bic.as_str()), (DE, "FIRST"));
    assert_eq!(opts, FetchOpts::no_holdings(30));
    assert_eq!(
        failed(connect(logged_in(sync(Some("x"), false), two()))),
        "Invalid IBAN: Invalid length 1 (must be 15–34 characters)"
    );
}

#[test]
fn transactions_and_holdings_settle_their_account_first() {
    let one = || Some(session(&[(DE, "FIRST")]));
    let next = logged_in(transactions(Some("2024-01-01"), Some("2024-02-01"), Some(DE)), one());
    let (iban, bic, opts) = fetched(connect(next));
    assert_eq!((iban.as_str(), bic.as_str()), (DE, "FIRST"));
    assert_eq!(opts, FetchOpts::all(135));
    let (_, _, opts) = fetched(connect(logged_in(transactions(None, None, None), one())));
    assert_eq!(opts, FetchOpts::all(90));
    let (_, _, opts) = fetched(connect(logged_in(holdings(None, None), one())));
    assert_eq!(opts, FetchOpts::holdings_only());
    assert_eq!(
        failed(logged_in(transactions(Some("x"), None, Some("x")), one())),
        "Invalid date 'x', expected YYYY-MM-DD"
    );
    assert_eq!(
        failed(logged_in(holdings(Some("x"), None), one())),
        "Invalid IBAN: Invalid length 1 (must be 15–34 characters)"
    );
}

#[test]
fn what_is_missing_is_asked_for() {
    let stage = match connect(logged_in(balance(None), None)) {
        Next::Iban(stage) => stage,
        other => panic!("{:?}", other),
    };
    let stage = match stage.entered(DE) {
        Next::Bic(stage) => stage,
        other => panic!("{:?}", other),
    };
    assert!(!stage.optional);
    let (iban, bic, _) = fetched(stage.entered(Ok(s("B"))));
    assert_eq!((iban.as_str(), bic.as_str()), (DE, "B"));

    let stage = match logged_in(holdings(None, None), None) {
        Next::Iban(stage) => stage,
        other => panic!("{:?}", other),
    };
    let stage = match stage.entered(DE) {
        Next::Bic(stage) => stage,
        other => panic!("{:?}", other),
    };
    assert!(stage.optional);
    let (iban, bic, _) = fetched(connect(stage.entered(Err(s("closed")))));
    assert_eq!((iban.as_str(), bic.as_str()), (DE, ""));

    let stage = match logged_in(holdings(None, Some("OWN")), None) {
        Next::Iban(stage) => stage,
        other => panic!("{:?}", other),
    };
    let (_, bic, _) = fetched(connect(stage.entered(DE)));
    assert_eq!(bic, "OWN");

    let stage = match logged_in(holdings(Some(DE), None), None) {
        Next::Bic(stage) => stage,
        other => panic!("{:?}", other),
    };
    assert_eq!(failed(stage.entered(Err(s("closed")))), "closed");
}

#[test]
fn only_a_sync_saves_the_session() {
    let old = || Some(session(&[(DE, "FIRST")]));
    let flow_id = SystemId::new(s("flow"));
    let save = |command| match connect(logged_in(command, old())) {
        Next::Fetch(ready) => match ready.fetched() {
            Next::Done(finished) => finished.session_to_save(
                Some(&SystemId::new(s("dialog"))),
                &flow_id,
                &challenge(true),
                s("now"),
            ),
            other => panic!("{:?}", other),
        },
        other => panic!("{:?}", other),
    };
    let saved = save(sync(None, false)).unwrap();
    assert_eq!(saved.system_id, "dialog");
    assert_eq!(saved.user_id, "me");
    assert_eq!(saved.bpd_version, 5);
    assert_eq!(saved.selected_security_function, "940");
    assert_eq!(saved.accounts[0].iban, DE);
    assert_eq!(saved.saved_at, "now");
    assert!(save(balance(None)).is_none());
    assert!(save(transactions(None, None, None)).is_none());
    assert!(save(holdings(None, None)).is_none());
}

#[test]
fn a_sync_of_all_accounts_fetches_each_of_them() {
    let three = Some(session(&[(DE, "FIRST"), (NL, "SECOND"), (DE, "THIRD")]));
    let mut next = connect(logged_in(sync(Some("ignored"), true), three));
    let mut fetched = Vec::new();
    let finished = loop {
        next = match next {
            Next::Fetch(ready) => {
                assert!(ready.opts().balance && ready.opts().transactions);
                assert_eq!(ready.opts().days, 30);
                fetched.push((s(ready.iban()), s(ready.bic())));
                ready.fetched()
            }
            Next::Done(finished) => break finished,
            other => panic!("{:?}", other),
        };
    };
    assert_eq!(fetched, [(s(DE), s("FIRST")), (s(NL), s("SECOND")), (s(DE), s("THIRD"))]);
    assert_eq!(finished.progress.user_id, "me");
    assert!(matches!(connect(logged_in(sync(None, true), Some(session(&[])))), Next::Iban(_)));
}

#[test]
fn a_resume_token_stands_in_for_the_saved_session() {
    let commands = || {
        [sync(None, false), balance(None), transactions(None, None, None), holdings(None, None)]
    };
    for command in commands() {
        let next =
            begin(&registry(), &selection("12030000"), None, Some("TOKEN"), command, TODAY, false);
        let stage = match next {
            Next::Session(stage) => stage,
            other => panic!("{:?}", other),
        };
        match &stage.source {
            SessionSource::Token(token) => assert_eq!(token, "TOKEN"),
            other => panic!("{:?}", other),
        }
        let stage = match stage.loaded(Ok(session(&[(NL, "SECOND")])), None) {
            Next::Pin(stage) => stage,
            other => panic!("{:?}", other),
        };
        assert_eq!(stage.user_id, "saved");
        match stage.entered(s("12345")) {
            Next::Connection(stage) => {
                let (_, login) = stage.request(&registry(), ProductId::new(s("P")));
                assert_eq!(login.username.as_str(), "saved");
                assert_eq!(login.system_id.unwrap().as_str(), "sys");
                match stage.connected(&challenge(true)) {
                    Next::Fetch(ready) => assert_eq!((ready.iban(), ready.bic()), (NL, "SECOND")),
                    other => panic!("{:?}", other),
                }
            }
            other => panic!("{:?}", other),
        }
    }
    for command in commands() {
        let next =
            begin(&registry(), &selection("12030000"), None, Some("BAD"), command, TODAY, false);
        match next {
            Next::Session(stage) => {
                assert_eq!(failed(stage.loaded(Err(s("unreadable")), Some("me"))), "unreadable")
            }
            other => panic!("{:?}", other),
        }
    }
    match begin(&registry(), &selection("12030000"), None, None, balance(None), TODAY, false) {
        Next::Session(stage) => match stage.source {
            SessionSource::Saved(name) => assert_eq!(name, "12030000"),
            other => panic!("{:?}", other),
        },
        other => panic!("{:?}", other),
    }
}

#[test]
fn a_command_that_does_not_wait_stops_at_the_challenge() {
    let stage = || {
        let begun =
            begin(&registry(), &selection("12030000"), None, None, balance(Some(DE)), TODAY, true);
        let stage = match begun {
            Next::Session(stage) => stage,
            other => panic!("{:?}", other),
        };
        let stage = match stage.loaded(Ok(session(&[(DE, "FIRST")])), None) {
            Next::Pin(stage) => stage,
            other => panic!("{:?}", other),
        };
        match stage.entered(s("12345")) {
            Next::Connection(stage) => stage,
            other => panic!("{:?}", other),
        }
    };
    assert!(matches!(stage().connected(&challenge(true)), Next::Fetch(_)));
    match stage().connected(&challenge(false)) {
        Next::Stop(stopped) => {
            let kept = stopped.session(&SystemId::new(s("flow")), &challenge(false), s("now"));
            assert_eq!(kept.system_id, "flow");
            assert_eq!(kept.user_id, "saved");
            assert_eq!(kept.accounts[0].bic, "FIRST");
        }
        other => panic!("{:?}", other),
    }
}

#[test]
fn dates_of_transactions() {
    let next = |from: Option<&str>, to: Option<&str>| {
        let command = FetchCommand::Transactions {
            from: from.map(s),
            to: to.map(s),
            iban: Some(s(DE)),
            bic: Some(s("B")),
        };
        logged_in(command, Some(session(&[])))
    };
    match next(Some("2024-01-01"), Some("2024-02-29")) {
        Next::Connection(stage) => {
            let period = stage.progress.period.unwrap();
            assert_eq!((period.from, period.to, period.days), (738886, 738945, 135));
        }
        other => panic!("{:?}", other),
    }
    assert_eq!(
        failed(next(Some("2024-02-30"), None)),
        "Invalid date '2024-02-30', expected YYYY-MM-DD"
    );
    assert_eq!(
        failed(next(Some("2024-01-01"), Some("2023-02-29"))),
        "Invalid date '2023-02-29', expected YYYY-MM-DD"
    );
}
