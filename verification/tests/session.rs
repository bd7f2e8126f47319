use std::path::{Path, PathBuf};

use fints::flow::ChallengeInfo;
use fints::selection::{custom_bank, ResolvedBank};
use fints::session::{
    get_session_dir, listed_sessions, missing_session, resolve_user_id, session_accounts,
    session_file_name, session_name, session_name_of_file, session_path, session_place,
    session_system_id, setup_session, sort_by_name, updated_session, SepaAccountSer, SessionFile,
    SessionPlace, TanMethodSer,
};
use fints::types::{
    Bic, Blz, ChallengeText, Iban, SecurityFunction, SepaAccount, SystemId, TanMethod,
};

fn s(text: &str) -> String {
    text.to_string()
}

fn bank() -> ResolvedBank {
    custom_bank(s("https://fints.dkb.de/fints"), s("12030000"))
}

fn method(function: &str) -> TanMethod {
    TanMethod {
        security_function: SecurityFunction::new(s(function)),
        name: s("pushTAN"),
        is_decoupled: true,
        wait_before_first_poll: 5,
        wait_before_next_poll: 2,
        decoupled_max_polls: 60,
        hktan_version: 7,
        needs_tan_medium: true,
    }
}

fn challenge(functions: &[&str]) -> ChallengeInfo {
    ChallengeInfo {
        challenge: ChallengeText::new(s("")),
        challenge_hhduc: None,
        decoupled: false,
        tan_methods: functions.iter().map(|f| method(f)).collect(),
        allowed_security_functions: functions
            .iter()
            .map(|f| SecurityFunction::new(s(f)))
            .collect(),
        no_tan_required: true,
    }
}

fn account(iban: &str, bic: &str) -> SepaAccountSer {
    SepaAccountSer {
        iban: s(iban),
        bic: s(bic),
        account_number: s("1"),
        blz: s("12030000"),
        owner: None,
        product_name: Some(s("Girokonto")),
        currency: None,
    }
}

fn existing() -> SessionFile {
    SessionFile {
        version: 1,
        bank_id: s("12030000"),
        bank_url: s("https://old"),
        blz: s("12030000"),
        user_id: s("myuser"),
        system_id: s("sys123"),
        bpd_version: 5,
        upd_version: 2,
        tan_methods: Vec::new(),
        selected_security_function: s("940"),
        accounts: vec![account("DE89370400440532013000", "BYLADEM1001")],
        operation_tan_required: vec![(s("HKKAZ"), true)],
        saved_at: s("2024-01-01T00:00:00Z"),
    }
}

#[test]
fn test_session_path() {
    let path = session_path("/tmp/sessions", "dkb");
    assert_eq!(path, "/tmp/sessions/dkb.json");
    assert_eq!(session_file_name("dkb"), "dkb.json");
}

#[test]
fn paths_join_as_those_of_unix() {
    for dir in ["", "/", "/a", "/a/", "a", "a//", "."] {
        for name in ["x", "", "/x", "a/b", ".x", "ä"] {
            let expected = PathBuf::from(dir).join(format!("{}.json", name));
            assert_eq!(session_path(dir, name), expected.to_str().unwrap());
        }
    }
}

#[test]
fn the_session_directory() {
    assert_eq!(get_session_dir(Some("/given"), Some("/env"), Some("/home/u")), "/given");
    assert_eq!(get_session_dir(None, Some("/env"), Some("/home/u")), "/env");
    assert_eq!(get_session_dir(None, None, Some("/home/u")), "/home/u/.config/fints/sessions");
    assert_eq!(get_session_dir(None, None, None), "./.config/fints/sessions");
}

#[test]
fn sessions_by_the_name_of_their_file() {
    for file in ["dkb.json", ".json", "a.b.json", "dkb.JSON", "dkb", "json", "..json", "x.json.bak", ""] {
        let path = Path::new(file);
        let expected = if path.extension().and_then(|e| e.to_str()) == Some("json") {
            path.file_stem().and_then(|n| n.to_str()).map(|n| n.to_string())
        } else {
            None
        };
        assert_eq!(session_name_of_file(file), expected, "{:?}", file);
    }
    assert_eq!(session_name_of_file("my session.json"), Some(s("my session")));
}

#[test]
fn a_missing_session_is_reported() {
    let msg = missing_session("/tmp/x/nonexistent.json");
    assert_eq!(msg, "No session found at /tmp/x/nonexistent.json. Run 'fints-client setup' first.");
}

#[test]
fn sessions_are_sorted_by_name() {
    let items = vec![(s("b"), 1), (s("a"), 2), (s("ä"), 3), (s("b"), 4), (s("A"), 5), (s(""), 6)];
    let mut expected = items.clone();
    expected.sort_by(|x, y| x.0.cmp(&y.0));
    assert_eq!(sort_by_name(items), expected);
    assert_eq!(sort_by_name(Vec::<(String, u8)>::new()), Vec::new());
}

#[test]
fn names_of_sessions() {
    assert_eq!(session_name(None, &bank()), "12030000");
    assert_eq!(session_name(Some("mine"), &bank()), "mine");
}

#[test]
fn the_first_session_of_a_bank() {
    let session = setup_session(
        &bank(),
        "testuser",
        &SystemId::new(s("abc123")),
        &challenge(&["912", "940"]),
        s("2024-01-01T12:00:00Z"),
    );
    assert_eq!(session.version, 1);
    assert_eq!(session.bank_id, "12030000");
    assert_eq!(session.bank_url, "https://fints.dkb.de/fints");
    assert_eq!(session.blz, "12030000");
    assert_eq!(session.user_id, "testuser");
    assert_eq!(session.system_id, "abc123");
    assert_eq!(session.bpd_version, 0);
    assert_eq!(session.upd_version, 0);
    assert_eq!(session.selected_security_function, "912");
    assert_eq!(session.tan_methods.len(), 2);
    assert_eq!(session.tan_methods[1].security_function, "940");
    assert!(session.accounts.is_empty());
    assert!(session.operation_tan_required.is_empty());
    assert_eq!(session.saved_at, "2024-01-01T12:00:00Z");
    let bare = setup_session(&bank(), "u", &SystemId::new(s("0")), &challenge(&[]), s(""));
    assert_eq!(bare.selected_security_function, "999");
}

#[test]
fn a_sync_updates_the_session() {
    let old = existing();
    let session = updated_session(
        &bank(),
        "testuser",
        Some(&SystemId::new(s("new"))),
        &SystemId::new(s("flow")),
        &challenge(&["912"]),
        Some(&old),
        s("now"),
    );
    assert_eq!(session.bank_url, "https://fints.dkb.de/fints");
    assert_eq!(session.user_id, "testuser");
    assert_eq!(session.system_id, "new");
    assert_eq!(session.bpd_version, 5);
    assert_eq!(session.upd_version, 2);
    assert_eq!(session.selected_security_function, "940");
    assert_eq!(session.accounts.len(), 1);
    assert_eq!(session.accounts[0].bic, "BYLADEM1001");
    assert_eq!(session.accounts[0].product_name, Some(s("Girokonto")));
    assert_eq!(session.tan_methods.len(), 1);
    assert!(session.operation_tan_required.is_empty());
    assert_eq!(session.saved_at, "now");
    let fresh = updated_session(
        &bank(),
        "u",
        None,
        &SystemId::new(s("flow")),
        &challenge(&["912"]),
        None,
        s("now"),
    );
    assert_eq!(fresh.system_id, "flow");
    assert_eq!(fresh.bpd_version, 0);
    assert_eq!(fresh.selected_security_function, "999");
    assert!(fresh.accounts.is_empty());
}

#[test]
fn who_a_command_works_for() {
    let old = existing();
    assert_eq!(resolve_user_id(Some("other"), Some(&old)).unwrap(), "other");
    assert_eq!(resolve_user_id(None, Some(&old)).unwrap(), "myuser");
    assert_eq!(
        resolve_user_id(None, None).unwrap_err(),
        "No user ID. Use --user or run 'fints-client setup' first."
    );
    assert_eq!(session_system_id(Some(&old)).unwrap().as_str(), "sys123");
    assert!(session_system_id(None).is_none());
    assert_eq!(session_accounts(Some(&old)).len(), 1);
    assert!(session_accounts(None).is_empty());
}

#[test]
fn what_a_session_keeps() {
    let kept = TanMethodSer::from(&method("912"));
    assert_eq!(kept.security_function, "912");
    assert_eq!(kept.name, "pushTAN");
    assert!(kept.is_decoupled);
    assert_eq!(kept.wait_before_first_poll, 5);
    assert_eq!(kept.wait_before_next_poll, 2);
    assert_eq!(kept.decoupled_max_polls, 60);
    assert_eq!(kept.hktan_version, 7);
    assert!(kept.needs_tan_medium);
    let kept = SepaAccountSer::from(&SepaAccount {
        iban: Iban::new(s("DE1")),
        bic: Bic::new(s("BIC")),
        account_number: s("42"),
        blz: Blz::new(s("12030000")),
        owner: Some(s("Me")),
        product_name: None,
        currency: Some(s("EUR")),
    });
    assert_eq!(kept.iban, "DE1");
    assert_eq!(kept.bic, "BIC");
    assert_eq!(kept.account_number, "42");
    assert_eq!(kept.blz, "12030000");
    assert_eq!(kept.owner, Some(s("Me")));
    assert_eq!(kept.product_name, None);
    assert_eq!(kept.currency, Some(s("EUR")));
}

#[test]
fn updates_keep_the_state_of_a_session() {
    let mut session = existing();
    for round in 0..3 {
        session = updated_session(
            &bank(),
            "testuser",
            Some(&SystemId::new(format!("id-{}", round))),
            &SystemId::new(s("flow")),
            &challenge(&[]),
            Some(&session),
            s("now"),
        );
        assert_eq!(session.bpd_version, 5);
        assert_eq!(session.upd_version, 2);
        assert_eq!(session.selected_security_function, "940");
        assert_eq!(session.accounts[0].iban, "DE89370400440532013000");
        let id = session_system_id(Some(&session)).unwrap();
        assert_eq!(id.as_str(), format!("id-{}", round));
        assert_eq!(resolve_user_id(None, Some(&session)).unwrap(), "testuser");
    }
}

#[test]
fn sessions_do_not_share_a_file() {
    assert_ne!(session_path("/a", "x"), session_path("/a", "y"));
    assert_ne!(session_path("/a", "/x"), session_path("/a", "/y"));
    assert_eq!(session_path("/a", "/a/x"), session_path("/a", "x"));
}

#[test]
fn where_a_session_goes() {
    assert!(matches!(session_place(true, s("dkb")), SessionPlace::Token));
    match session_place(false, s("dkb")) {
        SessionPlace::Saved(name) => assert_eq!(name, "dkb"),
        other => panic!("{:?}", other),
    }
}

#[test]
fn files_that_hold_no_session_are_passed_over() {
    let files = vec![
        (s("postbank.json"), Some(existing())),
        (s("notes.txt"), Some(existing())),
        (s("broken.json"), None),
        (s(".json"), Some(existing())),
        (s("dkb.json"), Some(existing())),
        (s("dkb.json.bak"), None),
    ];
    let names: Vec<String> = listed_sessions(files).into_iter().map(|(name, _)| name).collect();
    assert_eq!(names, ["dkb", "postbank"]);
    assert!(listed_sessions(Vec::new()).is_empty());
}
