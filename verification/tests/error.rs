use fints::error::{map_fints_error, FinTSError};

fn s(text: &str) -> String {
    text.to_string()
}

#[test]
fn errors_are_worded() {
    let cases = [
        (FinTSError::Parse(s("x")), "Parse error: x"),
        (FinTSError::Serialize(s("x")), "Serialization error: x"),
        (FinTSError::Transport(s("x")), "Transport error: x"),
        (FinTSError::Http { status: 503, message: s("x") }, "HTTP error (status 503): x"),
        (FinTSError::Dialog(s("x")), "Dialog error: x"),
        (FinTSError::Auth(s("x")), "Authentication error: x"),
        (FinTSError::TanRequired, "TAN required but no TAN handler provided"),
        (FinTSError::TanRejected(s("x")), "TAN rejected by bank: x"),
        (FinTSError::TanTimeout, "TAN timeout: user did not confirm within the allowed time"),
        (FinTSError::BankError { kind: s("9010"), message: s("x") }, "Bank error (9010): x"),
        (FinTSError::SegmentNotSupported(s("x")), "Segment not supported by bank: x"),
        (FinTSError::InvalidResponse(s("x")), "Invalid response from bank: x"),
        (FinTSError::Mt940(s("x")), "MT940 parse error: x"),
        (FinTSError::PinWrong, "PIN wrong"),
        (FinTSError::AccountLocked, "Account locked"),
        (FinTSError::Io(s("x")), "IO error: x"),
        (FinTSError::Reqwest(s("x")), "Request error: x"),
    ];
    for (error, text) in cases {
        assert_eq!(error.message(), text);
    }
}

#[test]
fn errors_are_reported_in_plain_words() {
    assert_eq!(map_fints_error(&FinTSError::PinWrong), "Authentication failed: PIN incorrect.");
    assert_eq!(map_fints_error(&FinTSError::AccountLocked), "Account locked. Contact your bank.");
    assert_eq!(map_fints_error(&FinTSError::Transport(s("x"))), "Connection failed: x");
    assert_eq!(map_fints_error(&FinTSError::Reqwest(s("x"))), "Connection failed: x");
    assert_eq!(
        map_fints_error(&FinTSError::TanTimeout),
        "TAN timeout: user did not confirm within the allowed time."
    );
    assert_eq!(map_fints_error(&FinTSError::Dialog(s("x"))), "Dialog error: x");
}
