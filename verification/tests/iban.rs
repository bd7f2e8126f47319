use fints::iban::{format_iban_display, normalize_iban, validate_iban};

#[test]
fn test_validate_iban_valid_de() {
    let result = validate_iban("DE89 3704 0044 0532 0130 00");
    assert!(result.is_ok(), "Expected valid IBAN, got: {:?}", result);
    assert_eq!(result.unwrap(), "DE89370400440532013000");
}

#[test]
fn test_validate_iban_too_short() {
    let result = validate_iban("DE123");
    assert!(result.is_err());
    assert!(result.unwrap_err().contains("length"));
}

#[test]
fn test_validate_iban_invalid_country_code() {
    let result = validate_iban("12 3704 0044 0532 0130 00");
    assert!(result.is_err());
}

#[test]
fn test_validate_iban_wrong_de_length() {
    // DE IBANs must be exactly 22 chars
    let result = validate_iban("DE8937040044053201300011");
    assert!(result.is_err());
    assert!(result.unwrap_err().contains("22"));
}

#[test]
fn test_validate_iban_bad_checksum() {
    // Same as valid but check digits changed to 00
    let result = validate_iban("DE00370400440532013000");
    assert!(result.is_err());
}

#[test]
fn test_validate_iban_nl() {
    // Dutch IBAN — 18 chars
    let result = validate_iban("NL91ABNA0417164300");
    assert!(result.is_ok());
}

#[test]
fn test_validate_iban_gb() {
    // UK IBAN — 22 chars
    let result = validate_iban("GB29NWBK60161331926819");
    assert!(result.is_ok());
}

#[test]
fn test_validate_iban_strips_spaces() {
    let spaced = validate_iban("DE89 3704 0044 0532 0130 00").unwrap();
    let nospace = validate_iban("DE89370400440532013000").unwrap();
    assert_eq!(spaced, nospace);
}

#[test]
fn test_format_iban_display() {
    assert_eq!(format_iban_display("DE89370400440532013000"), "DE89 3704 0044 0532 0130 00");
}

#[test]
fn test_format_iban_display_strips_spaces() {
    assert_eq!(format_iban_display("DE89 3704 0044 0532 0130 00"), "DE89 3704 0044 0532 0130 00");
}

#[test]
fn each_broken_rule_has_its_message() {
    assert_eq!(
        validate_iban("DE123").unwrap_err(),
        "Invalid length 5 (must be 15–34 characters)"
    );
    assert_eq!(
        validate_iban("D189370400440532013000").unwrap_err(),
        "Invalid country code 'D1' (must be 2 letters)"
    );
    assert_eq!(
        validate_iban("DEX9370400440532013000").unwrap_err(),
        "Invalid check digits 'X9' (must be 2 digits)"
    );
    assert_eq!(
        validate_iban("DE8937040044053201300011").unwrap_err(),
        "German IBAN must be exactly 22 characters, got 24"
    );
    assert_eq!(
        validate_iban("DE88370400440532013000").unwrap_err(),
        "Check digit validation failed (mod-97 = 0, expected 1)"
    );
}

#[test]
fn lower_case_is_accepted_and_normalized() {
    assert_eq!(validate_iban("gb29 nwbk 6016 1331 9268 19").unwrap(), "GB29NWBK60161331926819");
    assert_eq!(normalize_iban(" de\t89\u{a0}x"), "DE89X");
    assert_eq!(normalize_iban(&normalize_iban(" de 89 x")), normalize_iban(" de 89 x"));
}

#[test]
fn lengths_at_the_limits() {
    assert!(validate_iban("NO9386011117947").is_ok());
    assert_eq!(
        validate_iban("NO938601111794").unwrap_err(),
        "Invalid length 14 (must be 15–34 characters)"
    );
    let long = "MT84MALT011000012345MTLCAST001SXXXX";
    assert_eq!(
        validate_iban(long).unwrap_err(),
        "Invalid length 35 (must be 15–34 characters)"
    );
    assert!(validate_iban("MT84MALT011000012345MTLCAST001S").is_ok());
}

#[test]
fn any_text_is_accepted_or_refused() {
    assert_eq!(
        validate_iban("€€€€€€").unwrap_err(),
        "Invalid length 6 (must be 15–34 characters)"
    );
    assert_eq!(
        validate_iban("DÄ89370400440532013000").unwrap_err(),
        "Invalid country code 'DÄ' (must be 2 letters)"
    );
    assert_eq!(
        validate_iban("DE8Ä370400440532013000").unwrap_err(),
        "Invalid check digits '8Ä' (must be 2 digits)"
    );
    assert_eq!(
        validate_iban("ÄE89370400440532013000").unwrap_err(),
        "Invalid country code 'ÄE' (must be 2 letters)"
    );
    assert_eq!(
        validate_iban("XX90é000000000").unwrap_err(),
        "Invalid length 14 (must be 15–34 characters)"
    );
    assert_eq!(
        validate_iban(&"€".repeat(34)).unwrap_err(),
        "Invalid country code '€€' (must be 2 letters)"
    );
}

#[test]
fn validation_ignores_spaces_and_case() {
    for (a, b) in [
        ("DE89 3704 0044 0532 0130 00", "de89370400440532013000"),
        ("nl91 abna 0417 1643 00", "NL91ABNA0417164300"),
        ("de 88 3704 0044 0532 0130 00", "DE88370400440532013000"),
    ] {
        assert_eq!(validate_iban(a), validate_iban(b));
        if let Ok(n) = validate_iban(a) {
            assert!(!n.chars().any(|c| c.is_whitespace() || c.is_ascii_lowercase()));
            assert_eq!(validate_iban(&n), Ok(n.clone()));
        }
    }
}

#[test]
fn display_groups_by_four() {
    assert_eq!(format_iban_display(""), "");
    assert_eq!(format_iban_display("ABCD"), "ABCD");
    assert_eq!(format_iban_display("ABCDE"), "ABCD E");
    assert_eq!(format_iban_display("äöüßä"), "äöüß ä");
    let shown = format_iban_display("gb29nwbk60161331926819");
    assert_eq!(shown.replace(' ', ""), "gb29nwbk60161331926819");
    assert_eq!(validate_iban(&shown), validate_iban("gb29nwbk60161331926819"));
}

#[test]
fn every_wrong_digit_is_noticed() {
    for iban in ["DE89370400440532013000", "GB29NWBK60161331926819", "MT84MALT011000012345MTLCAST001S"] {
        assert!(validate_iban(iban).is_ok());
        for (i, c) in iban.char_indices() {
            for d in '0'..='9' {
                if c.is_ascii_digit() && c != d {
                    let mut wrong = iban.to_string();
                    wrong.replace_range(i..i + 1, &d.to_string());
                    assert!(validate_iban(&wrong).is_err(), "{}", wrong);
                }
            }
        }
    }
}

#[test]
fn every_swap_of_neighbouring_digits_is_noticed() {
    let iban = "GB29NWBK60161331926819";
    let chars: Vec<char> = iban.chars().collect();
    for i in 0..chars.len() - 1 {
        let (a, b) = (chars[i], chars[i + 1]);
        if a.is_ascii_digit() && b.is_ascii_digit() && a != b {
            let mut swapped = chars.clone();
            swapped.swap(i, i + 1);
            let swapped: String = swapped.into_iter().collect();
            assert!(validate_iban(&swapped).is_err(), "{}", swapped);
        }
    }
}
