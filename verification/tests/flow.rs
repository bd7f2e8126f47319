use fints::banks::{BankConfig, BankRegistry};
use fints::commands::session_login;
use fints::error::FinTSError;
use fints::flow::{
    FetchKind, Flow, FlowStep, InitiateNoTanResult, InitiateOutcome, InitiateTanResult, PollResult,
    TanChallenge,
};
use fints::types::{
    Account, BankParams, Bic, ChallengeText, FetchOpts, FetchResult, HhdUcData, Iban, ProductId,
    SecurityFunction, SystemId, TaskReference,
};

type TestFlow = Flow<&'static str, u32>;

fn s(text: &str) -> String {
    text.to_string()
}

fn bank() -> BankConfig {
    BankConfig::new(s("DKB"), s("12030000"), s("BYLADEM1001"), s("https://fints.dkb.de/fints"))
}

fn need_tan() -> Result<InitiateOutcome<&'static str, u32>, FinTSError> {
    Ok(InitiateOutcome::NeedTan(InitiateTanResult {
        challenge: TanChallenge {
            challenge: ChallengeText::new(s("Please confirm")),
            challenge_hhduc: Some(HhdUcData::new(s("0x01"))),
            decoupled: true,
            task_reference: TaskReference::new(s("task-1")),
        },
        tan_methods: Vec::new(),
        allowed_security_functions: vec![SecurityFunction::new(s("940"))],
        system_id: SystemId::new(s("sys")),
        dialog: "pending",
    }))
}

fn authenticated() -> Result<InitiateOutcome<&'static str, u32>, FinTSError> {
    Ok(InitiateOutcome::Authenticated(InitiateNoTanResult {
        tan_methods: Vec::new(),
        allowed_security_functions: vec![SecurityFunction::new(s("900"))],
        system_id: SystemId::new(s("sys")),
        params: BankParams {
            bpd_version: 78,
            bpd_segments: Vec::new(),
            tan_methods: Vec::new(),
            allowed_security_functions: Vec::new(),
            operation_tan_required: Vec::new(),
            accounts_from_upd: Vec::new(),
        },
        dialog: 7,
    }))
}

fn dialog_message(step: FlowStep<&'static str, u32>) -> String {
    match step {
        FlowStep::Fail(FinTSError::Dialog(m)) => m,
        other => panic!("{:?}", other),
    }
}

#[test]
fn a_challenge_starts_a_waiting_flow() {
    let (mut flow, info) = TestFlow::begin(bank(), need_tan()).unwrap();
    assert_eq!(info.challenge.as_str(), "Please confirm");
    assert_eq!(info.challenge_hhduc.unwrap().as_str(), "0x01");
    assert!(info.decoupled);
    assert!(!info.no_tan_required);
    assert_eq!(info.allowed_security_functions[0].as_str(), "940");
    assert_eq!(flow.system_id().as_str(), "sys");
    match flow.confirm_and_fetch("DE1", "", 30) {
        FlowStep::Poll { dialog, task_reference, kind } => {
            assert_eq!(dialog, "pending");
            assert_eq!(task_reference.as_str(), "task-1");
            assert_eq!(kind, FetchKind::Account(FetchOpts::all(30)));
        }
        other => panic!("{:?}", other),
    }
    assert_eq!(dialog_message(flow.confirm_and_fetch("DE1", "", 30)), "Flow already completed");
}

#[test]
fn a_pending_tan_can_be_asked_for_again() {
    let (mut flow, _) = TestFlow::begin(bank(), need_tan()).unwrap();
    for round in 0..3 {
        match flow.confirm_and_fetch_holdings("DE1", "BIC") {
            FlowStep::Poll { dialog, task_reference, kind } => {
                assert_eq!(dialog, if round == 0 { "pending" } else { "still pending" });
                assert_eq!(kind, FetchKind::Holdings);
                let polled = Ok(PollResult::Pending("still pending"));
                let step = flow.after_poll(task_reference, polled, "DE1", "BIC", kind);
                assert_eq!(
                    dialog_message(step),
                    "TAN still pending: user has not yet confirmed in banking app"
                );
            }
            other => panic!("{:?}", other),
        }
    }
}

#[test]
fn a_confirmed_tan_lets_data_be_fetched() {
    let (mut flow, _) = TestFlow::begin(bank(), need_tan()).unwrap();
    let opts = FetchOpts::no_holdings(5);
    let task = match flow.confirm_and_fetch_opts("DE1", "", &opts) {
        FlowStep::Poll { task_reference, .. } => task_reference,
        other => panic!("{:?}", other),
    };
    let kind = FetchKind::Account(opts);
    match flow.after_poll(task, Ok(PollResult::Confirmed(9)), "DE1", "", kind) {
        FlowStep::BuildAccount { open, request, kind } => {
            assert_eq!(open, 9);
            assert_eq!(request.iban, "DE1");
            assert_eq!(request.bic, "BYLADEM1001");
            assert_eq!(kind, FetchKind::Account(opts));
        }
        other => panic!("{:?}", other),
    }
    assert_eq!(dialog_message(flow.confirm_and_fetch("DE1", "", 1)), "Flow already completed");
}

#[test]
fn a_failed_poll_ends_the_flow() {
    let (mut flow, _) = TestFlow::begin(bank(), need_tan()).unwrap();
    let task = match flow.confirm_and_fetch("DE1", "", 1) {
        FlowStep::Poll { task_reference, .. } => task_reference,
        other => panic!("{:?}", other),
    };
    match flow.after_poll(task, Err(FinTSError::PinWrong), "DE1", "", FetchKind::Holdings) {
        FlowStep::Fail(FinTSError::PinWrong) => {}
        other => panic!("{:?}", other),
    }
    assert_eq!(dialog_message(flow.confirm_and_fetch("DE1", "", 1)), "Flow already completed");
}

#[test]
fn an_exempt_dialog_is_fetched_from_once() {
    let (mut flow, info) = TestFlow::begin(bank(), authenticated()).unwrap();
    assert!(info.no_tan_required);
    assert!(!info.decoupled);
    assert_eq!(info.challenge.as_str(), "");
    assert!(info.challenge_hhduc.is_none());
    match flow.confirm_and_fetch("DE1", "OWNBIC", 90) {
        FlowStep::BuildAccount { open, request, kind } => {
            assert_eq!(open, 7);
            assert_eq!(request.bic, "OWNBIC");
            assert_eq!(kind, FetchKind::Account(FetchOpts::all(90)));
        }
        other => panic!("{:?}", other),
    }
    assert_eq!(dialog_message(flow.confirm_and_fetch_holdings("DE1", "")), "Flow already completed");
}

#[test]
fn an_error_starts_no_flow() {
    match TestFlow::begin(bank(), Err(FinTSError::AccountLocked)) {
        Err(FinTSError::AccountLocked) => {}
        other => panic!("{:?}", other),
    }
}

#[test]
fn the_result_of_a_flow() {
    let fetched = FetchResult { balance: None, transactions: Vec::new(), holdings: Vec::new() };
    let result = TestFlow::finish("DE1", "BIC", Ok(fetched), SystemId::new(s("new"))).unwrap();
    assert_eq!(result.iban.as_str(), "DE1");
    assert_eq!(result.bic.as_str(), "BIC");
    assert!(result.balance.is_none());
    assert_eq!(result.system_id.unwrap().as_str(), "new");
    match TestFlow::finish("DE1", "BIC", Err(FinTSError::PinWrong), SystemId::new(s("new"))) {
        Err(FinTSError::PinWrong) => {}
        other => panic!("{:?}", other),
    }
}

#[test]
fn whom_to_ask() {
    let registry = BankRegistry::from_table(vec![bank()]).unwrap();
    let login = || session_login("user", "12345", ProductId::new(s("P")), None);
    let request =
        TestFlow::initiate(&registry, "12030000", FinTSError::TanRequired, login()).unwrap();
    assert_eq!(request.bank.url.as_str(), "https://fints.dkb.de/fints");
    assert_eq!(request.login.username.as_str(), "user");
    match TestFlow::initiate(&registry, "99999999", FinTSError::Dialog(s("unknown")), login()) {
        Err(FinTSError::Dialog(m)) => assert_eq!(m, "unknown"),
        other => panic!("{:?}", other),
    }
    let own = BankConfig::new(s("X"), s("1"), s(""), s("https://x"));
    assert_eq!(TestFlow::initiate_with_bank(own, login()).bank.name.as_str(), "X");
}

#[test]
fn an_account_that_cannot_be_built_fails_the_flow() {
    let account = Account { iban: Iban::new(s("DE1")), bic: Bic::new(s("B")) };
    match TestFlow::account_built(7, Ok(account), FetchKind::Holdings) {
        FlowStep::Fetch { open, account, kind } => {
            assert_eq!(open, 7);
            assert_eq!(account.iban.as_str(), "DE1");
            assert_eq!(account.bic.as_str(), "B");
            assert_eq!(kind, FetchKind::Holdings);
        }
        other => panic!("{:?}", other),
    }
    match TestFlow::account_built(7, Err(FinTSError::Parse(s("IBAN"))), FetchKind::Holdings) {
        FlowStep::Fail(FinTSError::Parse(m)) => assert_eq!(m, "IBAN"),
        other => panic!("{:?}", other),
    }
}

#[test]
fn an_open_dialog_serves_one_account_after_the_other() {
    let (flow, _) = TestFlow::begin(bank(), authenticated()).unwrap();
    for (bic, expected) in [("", "BYLADEM1001"), ("OWNBIC", "OWNBIC")] {
        match flow.next_account(9, "DE2", bic, FetchKind::Account(FetchOpts::all(1))) {
            FlowStep::BuildAccount { open, request, kind } => {
                assert_eq!(open, 9);
                assert_eq!(request.iban, "DE2");
                assert_eq!(request.bic, expected);
                assert_eq!(kind, FetchKind::Account(FetchOpts::all(1)));
            }
            other => panic!("{:?}", other),
        }
        assert_eq!(flow.resolve_account("DE2", bic).bic, expected);
    }
}
