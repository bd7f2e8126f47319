//! Errors of FinTS operations and how they are worded.
use vstd::prelude::*;

use crate::text;

verus! {

/// Errors that can occur during FinTS operations. A failure of input and output or of the HTTP
/// client carries its description.
#[derive(Debug)]
pub enum FinTSError {
    Parse(String),
    Serialize(String),
    Transport(String),
    Http { status: u16, message: String },
    Dialog(String),
    Auth(String),
    TanRequired,
    TanRejected(String),
    TanTimeout,
    /// A bank's response code of the kind `kind`.
    BankError { kind: String, message: String },
    SegmentNotSupported(String),
    InvalidResponse(String),
    Mt940(String),
    PinWrong,
    AccountLocked,
    Io(String),
    Reqwest(String),
}

/// The wording of an error.
pub open spec fn error_text(e: FinTSError) -> Seq<char> {
    match e {
        FinTSError::Parse(m) => "Parse error: "@ + m@,
        FinTSError::Serialize(m) => "Serialization error: "@ + m@,
        FinTSError::Transport(m) => "Transport error: "@ + m@,
        FinTSError::Http { status, message } => "HTTP error (status "@ + text::decimal(
            status as nat,
        ) + "): "@ + message@,
        FinTSError::Dialog(m) => "Dialog error: "@ + m@,
        FinTSError::Auth(m) => "Authentication error: "@ + m@,
        FinTSError::TanRequired => "TAN required but no TAN handler provided"@,
        FinTSError::TanRejected(m) => "TAN rejected by bank: "@ + m@,
        FinTSError::TanTimeout => "TAN timeout: user did not confirm within the allowed time"@,
        FinTSError::BankError { kind, message } => "Bank error ("@ + kind@ + "): "@ + message@,
        FinTSError::SegmentNotSupported(m) => "Segment not supported by bank: "@ + m@,
        FinTSError::InvalidResponse(m) => "Invalid response from bank: "@ + m@,
        FinTSError::Mt940(m) => "MT940 parse error: "@ + m@,
        FinTSError::PinWrong => "PIN wrong"@,
        FinTSError::AccountLocked => "Account locked"@,
        FinTSError::Io(m) => "IO error: "@ + m@,
        FinTSError::Reqwest(m) => "Request error: "@ + m@,
    }
}

/// `label` followed by `rest`.
pub(crate) fn labelled(label: &str, rest: &str) -> (r: String)
    ensures
        r@ == label@ + rest@,
{
    let mut out = label.to_owned();
    out.append(rest);
    out
}

impl FinTSError {
    /// The wording of the error.
    pub fn message(&self) -> (r: String)
        ensures
            r@ == error_text(*self),
    {
        match self {
            FinTSError::Parse(m) => labelled("Parse error: ", m.as_str()),
            FinTSError::Serialize(m) => labelled("Serialization error: ", m.as_str()),
            FinTSError::Transport(m) => labelled("Transport error: ", m.as_str()),
            FinTSError::Http { status, message } => {
                let mut out = "HTTP error (status ".to_string();
                text::push_decimal(&mut out, *status as u128);
                out.append("): ");
                out.append(message.as_str());
                out
            },
            FinTSError::Dialog(m) => labelled("Dialog error: ", m.as_str()),
            FinTSError::Auth(m) => labelled("Authentication error: ", m.as_str()),
            FinTSError::TanRequired => "TAN required but no TAN handler provided".to_string(),
            FinTSError::TanRejected(m) => labelled("TAN rejected by bank: ", m.as_str()),
            FinTSError::TanTimeout =>
                "TAN timeout: user did not confirm within the allowed time".to_string(),
            FinTSError::BankError { kind, message } => {
                let mut out = "Bank error (".to_string();
                out.append(kind.as_str());
                out.append("): ");
                out.append(message.as_str());
                out
            },
            FinTSError::SegmentNotSupported(m) => labelled(
                "Segment not supported by bank: ",
                m.as_str(),
            ),
            FinTSError::InvalidResponse(m) => labelled("Invalid response from bank: ", m.as_str()),
            FinTSError::Mt940(m) => labelled("MT940 parse error: ", m.as_str()),
            FinTSError::PinWrong => "PIN wrong".to_string(),
            FinTSError::AccountLocked => "Account locked".to_string(),
            FinTSError::Io(m) => labelled("IO error: ", m.as_str()),
            FinTSError::Reqwest(m) => labelled("Request error: ", m.as_str()),
        }
    }
}

/// How a command reports an error to its user: plain words for what the user can act on, and the
/// wording of the error for the rest.
pub open spec fn reported_error(e: FinTSError) -> Seq<char> {
    match e {
        FinTSError::PinWrong => "Authentication failed: PIN incorrect."@,
        FinTSError::AccountLocked => "Account locked. Contact your bank."@,
        FinTSError::Transport(m) => "Connection failed: "@ + m@,
        FinTSError::TanTimeout => "TAN timeout: user did not confirm within the allowed time."@,
        FinTSError::Reqwest(m) => "Connection failed: "@ + m@,
        _ => error_text(e),
    }
}

/// How a command reports an error to its user.
pub fn map_fints_error(e: &FinTSError) -> (r: String)
    ensures
        r@ == reported_error(*e),
{
    match e {
        FinTSError::PinWrong => "Authentication failed: PIN incorrect.".to_string(),
        FinTSError::AccountLocked => "Account locked. Contact your bank.".to_string(),
        FinTSError::Transport(m) => labelled("Connection failed: ", m.as_str()),
        FinTSError::TanTimeout =>
            "TAN timeout: user did not confirm within the allowed time.".to_string(),
        FinTSError::Reqwest(m) => labelled("Connection failed: ", m.as_str()),
        _ => e.message(),
    }
}

/// Where an error has words of the bank or of the system, its wording ends with them, behind what
/// kind of error it is.
pub proof fn law_wording_of_errors(m: String, kind: String, status: u16)
    ensures
        error_text(FinTSError::Parse(m)) == "Parse error: "@ + m@,
        error_text(FinTSError::Serialize(m)) == "Serialization error: "@ + m@,
        error_text(FinTSError::Transport(m)) == "Transport error: "@ + m@,
        error_text(FinTSError::Dialog(m)) == "Dialog error: "@ + m@,
        error_text(FinTSError::Auth(m)) == "Authentication error: "@ + m@,
        error_text(FinTSError::TanRejected(m)) == "TAN rejected by bank: "@ + m@,
        error_text(FinTSError::SegmentNotSupported(m)) == "Segment not supported by bank: "@ + m@,
        error_text(FinTSError::InvalidResponse(m)) == "Invalid response from bank: "@ + m@,
        error_text(FinTSError::Mt940(m)) == "MT940 parse error: "@ + m@,
        error_text(FinTSError::Io(m)) == "IO error: "@ + m@,
        error_text(FinTSError::Reqwest(m)) == "Request error: "@ + m@,
        error_text(FinTSError::BankError { kind, message: m }) == "Bank error ("@ + kind@ + "): "@
            + m@,
        exists|number: Seq<char>| #[trigger]
            text::reads_as_number(number, status as int) && error_text(
                FinTSError::Http { status, message: m },
            ) == "HTTP error (status "@ + number + "): "@ + m@,
        error_text(FinTSError::TanRequired) == "TAN required but no TAN handler provided"@,
        error_text(FinTSError::TanTimeout)
            == "TAN timeout: user did not confirm within the allowed time"@,
        error_text(FinTSError::PinWrong) == "PIN wrong"@,
        error_text(FinTSError::AccountLocked) == "Account locked"@,
{
    text::law_numeral_is_read_back(status as nat);
}

/// A wrong PIN, a locked account, a TAN that was not confirmed and a connection that failed are
/// reported in words that say what happened; every other error is reported as it is worded.
pub proof fn law_reports_of_errors(e: FinTSError)
    ensures
        e is PinWrong ==> reported_error(e) == "Authentication failed: PIN incorrect."@,
        e is AccountLocked ==> reported_error(e) == "Account locked. Contact your bank."@,
        e is TanTimeout ==> reported_error(e)
            == "TAN timeout: user did not confirm within the allowed time."@,
        e matches FinTSError::Transport(m) ==> reported_error(e) == "Connection failed: "@ + m@,
        e matches FinTSError::Reqwest(m) ==> reported_error(e) == "Connection failed: "@ + m@,
        !(e is PinWrong) && !(e is AccountLocked) && !(e is TanTimeout) && !(e is Transport) && !(e
            is Reqwest) ==> reported_error(e) == error_text(e),
{
}

} // verus!
