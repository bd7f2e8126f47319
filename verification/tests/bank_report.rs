use fints::bank_report::{
    audit_failure, audit_report, audit_target, bank_inspect, inspect_user,
};
use fints::banks::{BankConfig, BankRegistry};
use fints::selection::custom_bank;
use fints::types::{
    BankParams, Bic, Blz, Iban, SecurityFunction, SepaAccount, SystemId, TanMethod,
};

fn s(text: &str) -> String {
    text.to_string()
}

fn params() -> BankParams {
    BankParams {
        bpd_version: 0,
        bpd_segments: Vec::new(),
        tan_methods: Vec::new(),
        allowed_security_functions: Vec::new(),
        operation_tan_required: Vec::new(),
        accounts_from_upd: Vec::new(),
    }
}

fn method(decoupled: bool, first: i32, next: i32) -> TanMethod {
    TanMethod {
        security_function: SecurityFunction::new(s("940")),
        name: s("pushTAN"),
        is_decoupled: decoupled,
        wait_before_first_poll: first,
        wait_before_next_poll: next,
        decoupled_max_polls: 60,
        hktan_version: 7,
        needs_tan_medium: false,
    }
}

fn account(iban: &str) -> SepaAccount {
    SepaAccount {
        iban: Iban::new(s(iban)),
        bic: Bic::new(s("BYLADEM1001")),
        account_number: s("1"),
        blz: Blz::new(s("12030000")),
        owner: None,
        product_name: Some(s("Girokonto")),
        currency: None,
    }
}

#[test]
fn what_a_bank_offers() {
    let bank = custom_bank(s("https://fints.dkb.de/fints"), s("12030000"));
    let mut full = params();
    full.bpd_version = 78;
    full.bpd_segments = vec![(s("HISALS"), 7), (s("HIKAZS"), 5)];
    full.tan_methods = vec![method(true, 5, 2)];
    full.operation_tan_required = vec![(s("HKSAL"), false), (s("HKKAZ"), true)];
    full.accounts_from_upd = vec![account("DE89370400440532013000"), account("DE123")];
    let id = SystemId::new("0123456789".repeat(3));
    let expected = s("\nBLZ:        12030000\nBank:       Custom\nURL:        https://fints.dkb.de/fints\nUser:       me\nSystem ID:  012345678901234567890123 (assigned)\n\nBPD version: 78\nSegments: HISALS(v7), HIKAZS(v5)\n\nTAN methods (1):\n")
        + &format!("  #940  {:<25} [decoupled, poll every 2s, max 60 polls]\n", "pushTAN")
        + "\nHIPINS (operation TAN requirements):\n  HKKAZ: TAN required\n  HKSAL: no TAN required\n"
        + "\nAccounts (2):\n  DE89 3704 0044 0532 0130 00 (Girokonto EUR)\n  DE123 [IBAN invalid: Invalid length 5 (must be 15–34 characters)] (Girokonto EUR)\n";
    assert_eq!(bank_inspect(&bank, "me", &id, &full), expected);
}

#[test]
fn a_bank_that_says_little() {
    let bank = custom_bank(s("https://x"), s("1"));
    let text = bank_inspect(&bank, "me", &SystemId::new(s("0")), &params());
    assert!(text.ends_with(
        "\nSystem ID:  0 (unassigned)\n\nBPD version: 0\n\nTAN methods (0):\n"
    ));
}

#[test]
fn whom_inspect_works_for() {
    assert_eq!(inspect_user(Some("me")).unwrap(), "me");
    assert_eq!(inspect_user(None).unwrap_err(), "No user ID. Use --user <id>");
}

#[test]
fn a_clean_audit() {
    let mut good = params();
    good.bpd_version = 78;
    good.tan_methods = vec![method(true, 5, 2), method(false, 0, 0)];
    assert_eq!(
        audit_report(&SystemId::new(s("sys")), &good),
        "  System ID:            OK (assigned)\n  BPD presence:         OK (v78)\n  TAN methods:          OK (2 methods)\n  HITANS format:        OK\n\n  Total: 0 errors, 0 warnings\n"
    );
}

#[test]
fn findings_of_an_audit() {
    assert_eq!(
        audit_report(&SystemId::new(s("0")), &params()),
        "  System ID:            OK (unassigned)\n  BPD presence:         WARN: no BPD version found\n  TAN methods:          WARN: no TAN methods\n  HITANS format:        OK\n\n  Total: 0 errors, 2 warnings\n"
    );
    for (first, next) in [(0, 2), (5, 0), (-1, 2)] {
        let mut untimed = params();
        untimed.bpd_version = 1;
        untimed.tan_methods = vec![method(true, 5, 2), method(true, first, next)];
        let text = audit_report(&SystemId::new(s("0")), &untimed);
        assert!(text.contains(
            "  HITANS format:        WARN: decoupled TAN methods missing poll timing params\n"
        ));
        assert!(text.ends_with("\n  Total: 0 errors, 1 warnings\n"));
    }
    assert_eq!(audit_failure("x"), "FAIL: x\n\n  Total: 1 error, 0 warnings\n");
}

#[test]
fn what_an_audit_is_about() {
    let registry = BankRegistry::from_table(vec![BankConfig::new(
        s("DKB"),
        s("12030000"),
        s("BYLADEM1001"),
        s("https://fints.dkb.de/fints"),
    )])
    .unwrap();
    let target = audit_target(
        &registry, Some("12030000"), Some("9"), Some("https://own"), Some("https://g"), Some("me"), Some("g"),
    )
    .unwrap();
    assert_eq!(target.blz, "12030000");
    assert_eq!(target.url, "https://own");
    assert_eq!(target.user, "me");
    let target =
        audit_target(&registry, None, Some("12030000"), None, None, None, Some("g")).unwrap();
    assert_eq!(target.url, "https://fints.dkb.de/fints");
    assert_eq!(target.user, "g");
    let target =
        audit_target(&registry, None, Some("1"), None, Some("https://g"), None, Some("g")).unwrap();
    assert_eq!(target.url, "https://g");
    let error = |blz, url, user| audit_target(&registry, blz, None, url, None, user, None).unwrap_err();
    assert_eq!(
        error(None, None, None),
        "No BLZ specified. Use audit --blz <blz> or global --blz"
    );
    assert_eq!(error(Some("1"), None, None), "No URL. Use audit --url <url> or --bank <id>");
    assert_eq!(
        error(Some("1"), Some("https://x"), None),
        "No user ID. Use audit --user or global --user"
    );
}
