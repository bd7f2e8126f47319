use fints::banks::BankConfig;
use fints::commands::session_login;
use fints::flow::{InitiateOutcome, Login};
use fints::ing::{hex_text, Ing, OpenDialog};
use fints::types::{BankParams, ProductId, SecurityFunction, SystemId, TanMethod};

fn s(text: &str) -> String {
    text.to_string()
}

fn ing() -> Ing {
    Ing::new(BankConfig::new(
        s("ING"),
        s("50010517"),
        s("INGDDEFFXXX"),
        s("https://fints.ing.de/fints"),
    ))
}

fn login(system_id: Option<&str>) -> Login {
    let mut login = session_login("user", "12345", ProductId::new(s("PRODUCT")), None);
    login.system_id = system_id.map(|id| SystemId::new(s(id)));
    login
}

#[test]
fn hexadecimal_digits_agree_with_format() {
    for n in [0_u64, 1, 10, 255, 0xDEAD_BEEF, u64::MAX, 0x0123_4567_89AB_CDEF] {
        assert_eq!(hex_text(n), format!("{:016X}", n));
    }
}

#[test]
fn a_dialog_without_a_tan() {
    let request = ing().dialog_request(&login(None), 0xABCD);
    assert_eq!(request.url.as_str(), "https://fints.ing.de/fints");
    assert_eq!(request.blz.as_str(), "50010517");
    assert_eq!(request.username.as_str(), "user");
    assert_eq!(request.pin.as_str(), "12345");
    assert_eq!(request.product_id.as_str(), "PRODUCT");
    assert_eq!(request.system_id.as_str(), "000000000000ABCD");
    assert_eq!(request.security_function.as_str(), "900");
    assert_eq!(ing().config().name.as_str(), "ING");
}

#[test]
fn an_assigned_identifier_is_kept() {
    assert_eq!(ing().initiate(&login(Some("sys123"))).system_id.as_str(), "sys123");
    assert_eq!(ing().dialog_request(&login(Some("0")), 1).system_id.as_str(), "0000000000000001");
    assert_eq!(ing().dialog_request(&login(Some("")), 2).system_id.as_str(), "0000000000000002");
}

#[test]
fn random_identifiers() {
    let mut seen = std::collections::HashSet::new();
    for _ in 0..50 {
        let id = ing().initiate(&login(None)).system_id;
        assert!(id.is_assigned());
        assert_eq!(id.as_str().len(), 16);
        assert!(id.as_str().chars().all(|c| c.is_ascii_digit() || ('A'..='F').contains(&c)));
        seen.insert(id.as_str().to_string());
    }
    assert!(seen.len() > 1);
}

fn params() -> BankParams {
    BankParams {
        bpd_version: 78,
        bpd_segments: Vec::new(),
        tan_methods: vec![TanMethod {
            security_function: SecurityFunction::new(s("940")),
            name: s("pushTAN"),
            is_decoupled: true,
            wait_before_first_poll: 5,
            wait_before_next_poll: 2,
            decoupled_max_polls: 60,
            hktan_version: 7,
            needs_tan_medium: true,
        }],
        allowed_security_functions: vec![SecurityFunction::new(s("900"))],
        operation_tan_required: Vec::new(),
        accounts_from_upd: Vec::new(),
    }
}

#[test]
fn an_open_dialog_is_authenticated() {
    let open = OpenDialog {
        params: params(),
        system_id: SystemId::new(s("sys")),
        dialog: 3,
    };
    let outcome: InitiateOutcome<u8, i32> = Ing::opened(open);
    match outcome {
        InitiateOutcome::Authenticated(result) => {
            assert_eq!(result.dialog, 3);
            assert_eq!(result.system_id.as_str(), "sys");
            assert_eq!(result.allowed_security_functions.len(), 1);
            assert_eq!(result.allowed_security_functions[0].as_str(), "900");
            assert_eq!(result.tan_methods.len(), 1);
            assert_eq!(result.tan_methods[0].name, "pushTAN");
            assert_eq!(result.tan_methods[0].decoupled_max_polls, 60);
            assert_eq!(result.params.bpd_version, 78);
            assert_eq!(result.params.tan_methods.len(), 1);
        }
        other => panic!("{:?}", other),
    }
}

#[test]
fn different_numbers_give_different_identifiers() {
    let id = |n: u64| ing().dialog_request(&login(None), n).system_id.as_str().to_string();
    for (m, n) in [(0, 1), (1, 16), (u64::MAX, u64::MAX - 1), (0xAB, 0xBA)] {
        assert_ne!(id(m), id(n));
    }
}
