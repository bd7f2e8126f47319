//! The logic of a FinTS 3.0 banking client: bank registry and selection, the interactive TAN flow,
//! message transport, sessions and resume tokens, IBANs, amounts and dates, and what the client
//! prints.
//!
//! Input and output are left to the caller. Where a step needs the network, the user or the disk,
//! a function says what to do, and another one says what the outcome means.
pub mod accounts;
pub mod amount;
pub mod bank_report;
pub mod banks;
pub mod commands;
pub mod course;
pub mod dates;
pub mod encoding;
pub mod error;
pub mod flow;
pub mod iban;
pub mod ing;
pub mod input;
pub mod overview;
pub mod polling;
pub mod printed;
pub mod report;
pub mod selection;
pub mod session;
pub mod text;
pub mod token;
pub mod transport;
pub mod types;
