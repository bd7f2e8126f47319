use fints::banks::{all_banks, bank_by_blz, BankConfig, BankRegistry};

fn bank(blz: &str, bic: &str, name: &str, url: &str) -> BankConfig {
    BankConfig::new_raw(blz.to_string(), bic.to_string(), name.to_string(), url.to_string())
}

fn table() -> Vec<BankConfig> {
    vec![
        bank("12030000", "BYLADEM1001", "DKB", "https://fints.dkb.de/fints"),
        bank("50010517", "INGDDEFFXXX", "ING", "https://fints.ing.de/fints"),
        bank("10010010", "PBNKDEFFXXX", "Postbank", "https://hbci.postbank.de/banking/hbci.do"),
    ]
}

fn registry() -> BankRegistry {
    BankRegistry::from_table(table()).unwrap()
}

#[test]
fn test_bank_by_blz_dkb() {
    let bank = bank_by_blz(&registry(), "12030000").expect("BLZ 12030000 (DKB) must be in the registry");
    assert_eq!(bank.blz.as_str(), "12030000");
    assert!(!bank.name.as_str().is_empty(), "name should be non-empty");
    assert!(!bank.bic.as_str().is_empty(), "bic should be non-empty");
    assert!(bank.url.as_str().starts_with("https://"), "URL should use HTTPS");
}

#[test]
fn test_bank_by_blz_ing() {
    let bank = bank_by_blz(&registry(), "50010517").expect("BLZ 50010517 (ING) must be in the registry");
    assert_eq!(bank.blz.as_str(), "50010517");
    assert!(!bank.name.as_str().is_empty());
}

#[test]
fn test_bank_by_blz_postbank() {
    let bank = bank_by_blz(&registry(), "10010010").expect("BLZ 10010010 (Postbank) must be in the registry");
    assert_eq!(bank.blz.as_str(), "10010010");
}

#[test]
fn test_bank_by_blz_not_found() {
    assert!(
        bank_by_blz(&registry(), "00000000").is_none(),
        "BLZ '00000000' should not exist in registry"
    );
    assert!(bank_by_blz(&registry(), "").is_none(), "empty BLZ should return None");
    assert!(
        bank_by_blz(&registry(), "not-a-blz").is_none(),
        "non-numeric BLZ should return None"
    );
}

#[test]
fn test_all_banks_unique_blz() {
    let banks = all_banks(&registry());
    let mut seen = std::collections::HashSet::new();
    for bank in &banks {
        let blz = bank.blz.as_str().to_string();
        assert!(
            seen.insert(blz.clone()),
            "Duplicate BLZ found: {} (bank: {})",
            blz,
            bank.name.as_str()
        );
    }
}

#[test]
fn test_all_banks_have_required_fields() {
    let banks = all_banks(&registry());
    for bank in &banks {
        assert!(!bank.blz.as_str().is_empty(), "blz should be non-empty");
        assert_eq!(bank.blz.as_str().len(), 8, "BLZ '{}' must be 8 digits", bank.blz.as_str());
        assert!(
            !bank.name.as_str().is_empty(),
            "name should be non-empty for BLZ {}",
            bank.blz.as_str()
        );
        assert!(
            bank.url.as_str().starts_with("http"),
            "URL '{}' for BLZ {} should start with http",
            bank.url.as_str(),
            bank.blz.as_str()
        );
    }
}

#[test]
fn test_all_banks_blz_are_numeric() {
    let banks = all_banks(&registry());
    for bank in &banks {
        assert!(
            bank.blz.as_str().chars().all(|c| c.is_ascii_digit()),
            "BLZ '{}' must be numeric",
            bank.blz.as_str()
        );
    }
}

#[test]
fn a_registry_lists_its_table_in_order() {
    let registry = registry();
    assert_eq!(registry.len(), 3);
    let banks = all_banks(&registry);
    assert_eq!(banks.len(), 3);
    for (i, bank) in table().iter().enumerate() {
        assert_eq!(banks[i].blz.as_str(), bank.blz.as_str());
        assert_eq!(registry.get(i).url.as_str(), bank.url.as_str());
        let found = bank_by_blz(&registry, bank.blz.as_str()).unwrap();
        assert_eq!(found.name.as_str(), bank.name.as_str());
    }
}

#[test]
fn a_configuration_keeps_its_fields_apart() {
    let a = BankConfig::new("n".to_string(), "b".to_string(), "c".to_string(), "u".to_string());
    let b = bank("b", "c", "n", "u");
    for config in [a, b] {
        assert_eq!(config.name.as_str(), "n");
        assert_eq!(config.blz.as_str(), "b");
        assert_eq!(config.bic.as_str(), "c");
        assert_eq!(config.url.as_str(), "u");
    }
}

#[test]
fn unsound_tables_make_no_registry() {
    let https = "https://x";
    assert!(BankRegistry::from_table(Vec::new()).is_some());
    assert!(BankRegistry::from_table(vec![bank("1203000", "", "X", https)]).is_none());
    assert!(BankRegistry::from_table(vec![bank("1203000a", "", "X", https)]).is_none());
    assert!(BankRegistry::from_table(vec![bank("12030000", "", "", https)]).is_none());
    assert!(BankRegistry::from_table(vec![bank("12030000", "", "X", "ftp://x")]).is_none());
    assert!(BankRegistry::from_table(vec![bank("12030000", "", "X", https)]).is_some());
    let twice = vec![bank("12030000", "", "X", https), bank("12030000", "", "Y", https)];
    assert!(BankRegistry::from_table(twice).is_none());
}
