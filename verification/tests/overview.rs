use fints::overview::{session_inspect, sessions_list, whole_times};
use fints::session::{SepaAccountSer, SessionFile, TanMethodSer};

fn s(text: &str) -> String {
    text.to_string()
}

fn session(system_id: &str) -> SessionFile {
    SessionFile {
        version: 1,
        bank_id: s("12030000"),
        bank_url: s("https://fints.dkb.de/fints"),
        blz: s("12030000"),
        user_id: s("myuser"),
        system_id: s(system_id),
        bpd_version: 78,
        upd_version: 3,
        tan_methods: Vec::new(),
        selected_security_function: s("940"),
        accounts: Vec::new(),
        operation_tan_required: Vec::new(),
        saved_at: s("2024-01-01T12:00:00.123456+00:00"),
    }
}

fn method(name: &str, decoupled: bool) -> TanMethodSer {
    TanMethodSer {
        security_function: s("940"),
        name: s(name),
        is_decoupled: decoupled,
        wait_before_first_poll: 5,
        wait_before_next_poll: 2,
        decoupled_max_polls: -1,
        hktan_version: 7,
        needs_tan_medium: false,
    }
}

#[test]
fn no_sessions() {
    assert_eq!(
        sessions_list("/tmp/s", &Vec::new()),
        "No sessions found in /tmp/s\nRun 'fints-client setup' to create one.\n"
    );
}

#[test]
fn a_list_of_sessions() {
    let sessions = vec![(s("dkb"), session("sys")), (s("a-very-long-session-name"), session("0"))];
    assert!(whole_times(&sessions));
    let expected = format!(
        "Sessions in /tmp/s:\n{:<15} {:<15} {:<20} {:<22} {:<12}\n{}\n{:<15} {:<15} {:<20} {:<22} {}\n{:<15} {:<15} {:<20} {:<22} {}\n",
        "Name", "Bank", "User", "Saved", "System ID",
        "-".repeat(87),
        "dkb", "12030000", "myuser", "2024-01-01T12:00:00", "assigned",
        "a-very-long-session-name", "12030000", "myuser", "2024-01-01T12:00:00", "unassigned"
    );
    assert_eq!(sessions_list("/tmp/s", &sessions), expected);
    let text = sessions_list("/tmp/s", &vec![(s("x"), session(""))]);
    assert!(text.ends_with(" unassigned\n"));
}

#[test]
fn times_that_cannot_be_cut() {
    let mut torn = session("sys");
    torn.saved_at = format!("{}ä", "x".repeat(18));
    assert!(!whole_times(&vec![(s("x"), torn)]));
}

#[test]
fn a_session_in_full() {
    let mut full = session("0123456789012345678901234");
    full.tan_methods.push(method("pushTAN", true));
    full.tan_methods.push(method("chipTAN", false));
    full.operation_tan_required.push((s("HKSAL"), false));
    full.operation_tan_required.push((s("HKKAZ"), true));
    full.accounts.push(SepaAccountSer {
        iban: s("DE89370400440532013000"),
        bic: s("BYLADEM1001"),
        account_number: s("1"),
        blz: s("12030000"),
        owner: None,
        product_name: None,
        currency: None,
    });
    full.accounts.push(SepaAccountSer {
        iban: s("DE1"),
        bic: s(""),
        account_number: s("2"),
        blz: s("12030000"),
        owner: None,
        product_name: Some(s("Depot")),
        currency: Some(s("USD")),
    });
    let expected = s("Session: dkb\nBank ID:   12030000\nURL:       https://fints.dkb.de/fints\nBLZ:       12030000\nUser:      myuser\nSystem ID: 01234567890123456789 (assigned)\nBPD v78  UPD v3\nSaved: 2024-01-01T12:00:00.123456+00:00\n\nTAN methods (2):\n")
        + &format!("  #940  {:<25} [decoupled, poll every 2s, max -1 polls]\n", "pushTAN")
        + &format!("  #940  {:<25} [two-step]\n", "chipTAN")
        + "\nHIPINS (operation TAN requirements):\n  HKKAZ: TAN required\n  HKSAL: no TAN required\n"
        + "\nAccounts (2):\n  DE89 3704 0044 0532 0130 00 (— EUR)\n  DE1 (Depot USD)\n";
    assert_eq!(session_inspect("dkb", &full), expected);
}

#[test]
fn a_bare_session() {
    let text = session_inspect("dkb", &session("0"));
    assert!(text.contains("System ID: 0 (unassigned)\n"));
    assert!(text.ends_with("\nTAN methods (0):\n"));
    assert!(session_inspect("dkb", &session("")).contains("System ID:  (assigned)\n"));
}

#[test]
fn each_operation_is_listed_once() {
    let mut full = session("sys");
    for (name, required) in [("HKWPD", true), ("HKSAL", false), ("HKCCS", true), ("HKKAZ", true)] {
        full.operation_tan_required.push((s(name), required));
    }
    let text = session_inspect("dkb", &full);
    let listed: Vec<&str> = text.lines().filter(|line| line.ends_with("TAN required")).collect();
    assert_eq!(
        listed,
        [
            "  HKCCS: TAN required",
            "  HKKAZ: TAN required",
            "  HKSAL: no TAN required",
            "  HKWPD: TAN required"
        ]
    );
}
