use fints::commands::{
    balance_fetch_opts, connected_text, connecting_text, get_product_id, holdings_fetch_opts,
    session_login, setup_complete_text, sync_fetch_opts, tan_step, TanStep,
};
use fints::flow::ChallengeInfo;
use fints::selection::custom_bank;
use fints::types::{ChallengeText, FetchOpts, ProductId, SystemId};

fn s(text: &str) -> String {
    text.to_string()
}

fn challenge(no_tan_required: bool) -> ChallengeInfo {
    ChallengeInfo {
        challenge: ChallengeText::new(s("")),
        challenge_hhduc: None,
        decoupled: false,
        tan_methods: Vec::new(),
        allowed_security_functions: Vec::new(),
        no_tan_required,
    }
}

#[test]
fn the_product() {
    assert_eq!(get_product_id(Some("given"), Some("env")).as_str(), "given");
    assert_eq!(get_product_id(None, Some("env")).as_str(), "env");
    assert_eq!(get_product_id(None, None).as_str(), "4FC925A65CCF74BA0CCB1EAF5");
}

#[test]
fn a_login_without_a_session() {
    let login = session_login("user", "12345", ProductId::new(s("P")), None);
    assert_eq!(login.username.as_str(), "user");
    assert_eq!(login.pin.as_str(), "12345");
    assert_eq!(login.product_id.as_str(), "P");
    assert!(login.system_id.is_none());
    assert!(login.target_iban.is_none());
    assert!(login.target_bic.is_none());
}

#[test]
fn what_setup_says() {
    let bank = custom_bank(s("https://x"), s("12030000"));
    assert_eq!(connecting_text(&bank), "Connecting to Custom (https://x)...\n");
    assert_eq!(
        connected_text(&SystemId::new(s("sys")), &challenge(true)),
        "Connected. System ID: sys\n"
    );
    assert_eq!(
        connected_text(&SystemId::new(s("0")), &challenge(false)),
        "Connected. System ID: unassigned\nNote: 0 TAN methods available.\nUse 'sync' or 'transactions' to fetch data (TAN will be requested then).\n"
    );
    assert_eq!(
        setup_complete_text(&bank),
        "\nSetup complete! Use 'fints-client --bank 12030000 sync' to fetch your account data.\n"
    );
}

#[test]
fn what_commands_fetch() {
    assert_eq!(sync_fetch_opts(false, 30), FetchOpts::all(30));
    assert_eq!(sync_fetch_opts(true, 30), FetchOpts::no_holdings(30));
    assert_eq!(
        balance_fetch_opts(),
        FetchOpts { balance: true, transactions: true, holdings: true, days: 1 }
    );
    assert_eq!(
        holdings_fetch_opts(),
        FetchOpts { balance: false, transactions: false, holdings: true, days: 0 }
    );
}

#[test]
fn how_a_challenge_is_answered() {
    assert!(matches!(tan_step(&challenge(true), Some("123456")), TanStep::NotNeeded));
    let mut needed = challenge(false);
    needed.challenge = ChallengeText::new(s("Enter the TAN"));
    match tan_step(&needed, Some("123456")) {
        TanStep::Given(tan) => assert_eq!(tan, "123456"),
        other => panic!("{:?}", other),
    }
    match tan_step(&needed, None) {
        TanStep::Ask(text) => assert_eq!(text, "Enter the TAN"),
        other => panic!("{:?}", other),
    }
    needed.decoupled = true;
    assert!(matches!(tan_step(&needed, Some("123456")), TanStep::Confirm));
}
