use fints::banks::{BankConfig, BankRegistry};
use fints::commands::{setup_bank, SetupBank};
use fints::selection::{
    bank_menu, bank_table, choose_bank, custom_bank, parse_number, resolve_bank, BankOps,
    BankSelection,
};

fn bank(blz: &str, bic: &str, name: &str, url: &str) -> BankConfig {
    BankConfig::new_raw(blz.to_string(), bic.to_string(), name.to_string(), url.to_string())
}

fn registry() -> BankRegistry {
    BankRegistry::from_table(vec![
        bank("12030000", "BYLADEM1001", "DKB", "https://fints.dkb.de/fints"),
        bank("50010517", "INGDDEFFXXX", "ING", "https://fints.ing.de/fints"),
    ])
    .unwrap()
}

fn given(url: Option<&str>, blz: Option<&str>, bank: Option<&str>) -> BankSelection {
    BankSelection {
        url: url.map(|s| s.to_string()),
        blz: blz.map(|s| s.to_string()),
        bank: bank.map(|s| s.to_string()),
    }
}

#[test]
fn a_known_blz_selects_its_bank() {
    for selection in [
        given(None, None, Some("50010517")),
        given(None, Some("50010517"), None),
        given(None, Some("12030000"), Some("50010517")),
    ] {
        let bank = resolve_bank(&registry(), &selection).unwrap();
        assert_eq!(bank.blz, "50010517");
        assert_eq!(bank.name, "ING");
        assert_eq!(bank.url, "https://fints.ing.de/fints");
        assert_eq!(bank.config.bic.as_str(), "INGDDEFFXXX");
    }
}

#[test]
fn an_address_takes_priority() {
    let bank = resolve_bank(&registry(), &given(Some("https://own"), None, Some("12030000"))).unwrap();
    assert_eq!(bank.blz, "12030000");
    assert_eq!(bank.name, "DKB");
    assert_eq!(bank.url, "https://own");
    assert_eq!(bank.config.url.as_str(), "https://own");
    assert_eq!(bank.config.bic.as_str(), "");
    let bank =
        resolve_bank(&registry(), &given(Some("https://own"), Some("99999999"), Some("12030000")))
            .unwrap();
    assert_eq!(bank.blz, "99999999");
    assert_eq!(bank.name, "Custom");
    let bank = resolve_bank(&registry(), &given(Some("https://own"), None, None)).unwrap();
    assert_eq!(bank.blz, "");
    assert_eq!(bank.name, "Custom");
}

#[test]
fn failures_to_select_a_bank() {
    assert_eq!(
        resolve_bank(&registry(), &given(None, Some("12030000"), Some("dkb"))).unwrap_err(),
        "Unknown BLZ 'dkb'. Use --blz <blz> or --url <url>. See 'banks' subcommand for a list."
    );
    assert_eq!(
        resolve_bank(&registry(), &given(None, Some("99999999"), None)).unwrap_err(),
        "Unknown BLZ '99999999'. Use --url <url> for a custom endpoint."
    );
    assert_eq!(
        resolve_bank(&registry(), &given(None, None, None)).unwrap_err(),
        "No bank specified. Use --bank <blz>, --blz <blz>, or --url <url>"
    );
}

#[test]
fn registered_banks_have_their_own_operations() {
    let own = resolve_bank(&registry(), &given(Some("https://own"), Some("12030000"), None)).unwrap();
    match own.to_bank_ops(&registry()) {
        BankOps::Registered(config) => {
            assert_eq!(config.url.as_str(), "https://fints.dkb.de/fints")
        }
        other => panic!("{:?}", other),
    }
    match custom_bank("https://own".to_string(), "99999999".to_string()).to_bank_ops(&registry()) {
        BankOps::Generic(config) => {
            assert_eq!(config.url.as_str(), "https://own");
            assert_eq!(config.name.as_str(), "Custom");
            assert_eq!(config.blz.as_str(), "99999999");
        }
        other => panic!("{:?}", other),
    }
}

#[test]
fn numbers_agree_with_parse() {
    for s in [
        "", "0", "1", "+1", "++1", "-1", "007", "1 ", " 1", "1a", "+", "-", "18446744073709551615",
        "18446744073709551616", "99999999999999999999999999", "+18446744073709551615", "٣",
    ] {
        assert_eq!(parse_number(s), s.parse::<usize>().ok(), "{:?}", s);
    }
}

#[test]
fn answers_to_the_bank_menu() {
    let blz = |answer: &str| choose_bank(&registry(), answer).map(|b| b.blz);
    assert_eq!(blz(""), Some("12030000".to_string()));
    assert_eq!(blz("1"), Some("12030000".to_string()));
    assert_eq!(blz("2"), Some("50010517".to_string()));
    assert_eq!(blz("what"), Some("12030000".to_string()));
    assert_eq!(blz("0"), None);
    assert_eq!(blz("3"), None);
    assert_eq!(blz("99"), None);
}

#[test]
fn the_bank_menu() {
    assert_eq!(
        bank_menu(&registry()),
        "Available banks:\n  1. DKB (BLZ: 12030000)\n  2. ING (BLZ: 50010517)\n  3. Custom URL\n"
    );
    match setup_bank(&registry(), &given(None, None, Some("dkb"))) {
        SetupBank::Menu(menu) => assert_eq!(menu, bank_menu(&registry())),
        other => panic!("{:?}", other),
    }
    match setup_bank(&registry(), &given(None, None, Some("12030000"))) {
        SetupBank::Given(bank) => assert_eq!(bank.name, "DKB"),
        other => panic!("{:?}", other),
    }
}

#[test]
fn the_bank_table() {
    let long = "Sparkasse mit einem sehr langen Namen in Köln am Rhein";
    let banks = BankRegistry::from_table(vec![bank("37050198", "COLSDE33XXX", long, "https://k")]).unwrap();
    let expected = format!(
        "Known banks (1 total):\n{:<12} {:<14} {:<40} {}\n{}\n{:<12} {:<14} {:<40} {}\n",
        "BLZ",
        "BIC",
        "Name",
        "URL",
        "-".repeat(100),
        "37050198",
        "COLSDE33XXX",
        long.chars().take(40).collect::<String>(),
        "https://k"
    );
    assert_eq!(bank_table(&banks), expected);
}
