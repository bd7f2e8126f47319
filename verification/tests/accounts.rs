use fints::accounts::{
    accept_iban, balance_account, balance_iban_entered, bic_entered, iban_entered,
    resolve_iban_bic_from_args, resolve_iban_from_args, sync_targets, AccountStep, SyncTargets,
};
use fints::session::{SepaAccountSer, SessionFile};

const DE: &str = "DE89370400440532013000";
const NL: &str = "NL91ABNA0417164300";

fn s(text: &str) -> String {
    text.to_string()
}

fn session(accounts: &[(&str, &str)]) -> SessionFile {
    SessionFile {
        version: 1,
        bank_id: s(""),
        bank_url: s(""),
        blz: s(""),
        user_id: s(""),
        system_id: s(""),
        bpd_version: 0,
        upd_version: 0,
        tan_methods: Vec::new(),
        selected_security_function: s(""),
        accounts: accounts
            .iter()
            .map(|(iban, bic)| SepaAccountSer {
                iban: s(iban),
                bic: s(bic),
                account_number: s(""),
                blz: s(""),
                owner: None,
                product_name: None,
                currency: None,
            })
            .collect(),
        operation_tan_required: Vec::new(),
        saved_at: s(""),
    }
}

fn known(step: AccountStep) -> (String, String) {
    match step {
        AccountStep::Known { iban, bic } => (iban, bic),
        other => panic!("{:?}", other),
    }
}

fn asked(step: AccountStep) -> (String, bool) {
    match step {
        AccountStep::AskBic { iban, optional } => (iban, optional),
        other => panic!("{:?}", other),
    }
}

fn failed(step: AccountStep) -> String {
    match step {
        AccountStep::Fail(message) => message,
        other => panic!("{:?}", other),
    }
}

#[test]
fn a_given_account() {
    let two = session(&[(DE, "FIRST"), (NL, "SECOND"), (NL, "THIRD")]);
    let spaced = "NL91 ABNA 0417 1643 00";
    assert_eq!(
        known(resolve_iban_bic_from_args(Some(spaced), Some("OWN"), Some(&two))),
        (s(NL), s("OWN"))
    );
    assert_eq!(
        known(resolve_iban_bic_from_args(Some(spaced), None, Some(&two))),
        (s(NL), s("SECOND"))
    );
    assert_eq!(asked(resolve_iban_bic_from_args(Some(NL), None, None)), (s(NL), false));
    assert_eq!(asked(resolve_iban_bic_from_args(Some(NL), Some(""), Some(&two))), (s(NL), false));
    assert_eq!(known(resolve_iban_from_args(Some(DE), Some(&two))), (s(DE), s("FIRST")));
    assert_eq!(
        failed(resolve_iban_bic_from_args(Some("DE1"), None, Some(&two))),
        "Invalid IBAN: Invalid length 3 (must be 15–34 characters)"
    );
}

#[test]
fn the_first_account_of_the_session() {
    let two = session(&[(NL, "SECOND"), (DE, "FIRST")]);
    assert_eq!(
        known(resolve_iban_bic_from_args(None, Some("OWN"), Some(&two))),
        (s(NL), s("SECOND"))
    );
    assert!(matches!(resolve_iban_bic_from_args(None, None, Some(&session(&[]))), AccountStep::AskIban));
    assert!(matches!(resolve_iban_from_args(None, None), AccountStep::AskIban));
}

#[test]
fn an_account_that_the_user_enters() {
    assert_eq!(known(iban_entered(DE, Some("OWN"))), (s(DE), s("OWN")));
    assert_eq!(asked(iban_entered(DE, None)), (s(DE), true));
    assert!(failed(iban_entered("x", None)).starts_with("Invalid IBAN: "));
    assert_eq!(known(bic_entered(s(DE), true, Ok(s("B")))), (s(DE), s("B")));
    assert_eq!(known(bic_entered(s(DE), true, Err(s("gone")))), (s(DE), s("")));
    assert_eq!(failed(bic_entered(s(DE), false, Err(s("gone")))), "gone");
    assert_eq!(known(bic_entered(s(DE), false, Ok(s("")))), (s(DE), s("")));
}

#[test]
fn the_account_of_a_balance() {
    let two = session(&[(DE, "FIRST"), (NL, "SECOND")]);
    assert_eq!(known(balance_account(Some(NL), None, Some(&two))), (s(NL), s("SECOND")));
    assert_eq!(known(balance_account(Some(NL), None, None)), (s(NL), s("")));
    assert_eq!(known(balance_account(Some(NL), Some("OWN"), Some(&two))), (s(NL), s("OWN")));
    assert_eq!(known(balance_account(None, Some("OWN"), Some(&two))), (s(DE), s("FIRST")));
    assert!(matches!(balance_account(None, None, None), AccountStep::AskIban));
    assert!(failed(balance_account(Some("x"), None, None)).starts_with("Invalid IBAN: "));
    assert_eq!(asked(balance_iban_entered(DE)), (s(DE), false));
    assert!(failed(balance_iban_entered("")).starts_with("Invalid IBAN: "));
}

#[test]
fn the_accounts_of_a_sync() {
    let two = session(&[(DE, "FIRST"), (NL, "SECOND")]);
    match sync_targets(true, Some("ignored"), None, Some(&two)) {
        SyncTargets::Session(targets) => {
            assert_eq!(targets, vec![(s(DE), s("FIRST")), (s(NL), s("SECOND"))]);
        }
        other => panic!("{:?}", other),
    }
    match sync_targets(true, Some(NL), None, None) {
        SyncTargets::One(step) => assert_eq!(known(step), (s(NL), s(""))),
        other => panic!("{:?}", other),
    }
    match sync_targets(false, None, None, Some(&two)) {
        SyncTargets::One(step) => assert_eq!(known(step), (s(DE), s("FIRST"))),
        other => panic!("{:?}", other),
    }
}

#[test]
fn ibans_that_users_mean() {
    assert_eq!(accept_iban(" de89 3704 0044 0532 0130 00 ").unwrap(), DE);
    assert_eq!(
        accept_iban("DE88370400440532013000").unwrap_err(),
        "Invalid IBAN: Check digit validation failed (mod-97 = 0, expected 1)"
    );
}

#[test]
fn without_a_bic_argument_both_resolutions_agree() {
    let two = session(&[(DE, "FIRST"), (NL, "SECOND")]);
    for iban in [None, Some(DE), Some("x"), Some("€€€€€€€€€€€€€€€€")] {
        for session in [None, Some(&two)] {
            assert_eq!(
                format!("{:?}", resolve_iban_from_args(iban, session)),
                format!("{:?}", resolve_iban_bic_from_args(iban, None, session))
            );
        }
    }
}
