//! The values that the protocol and the commands speak of.
use vstd::prelude::*;

use crate::amount::Amount;
use crate::dates::Day;

verus! {

/// The name of a bank.
#[derive(Debug)]
pub struct BankName(pub String);

impl BankName {
    pub open spec fn view(&self) -> Seq<char> {
        self.0@
    }

    pub fn new(value: String) -> (r: BankName)
        ensures
            r == BankName(value),
    {
        BankName(value)
    }

    pub fn as_str(&self) -> (r: &str)
        ensures
            r@ == self@,
    {
        self.0.as_str()
    }
}

impl Clone for BankName {
    fn clone(&self) -> (r: Self)
        ensures
            r == *self,
    {
        BankName(self.0.clone())
    }
}

/// A German bank code (Bankleitzahl), the identifier of a bank.
#[derive(Debug)]
pub struct Blz(pub String);

impl Blz {
    pub open spec fn view(&self) -> Seq<char> {
        self.0@
    }

    pub fn new(value: String) -> (r: Blz)
        ensures
            r == Blz(value),
    {
        Blz(value)
    }

    pub fn as_str(&self) -> (r: &str)
        ensures
            r@ == self@,
    {
        self.0.as_str()
    }
}

impl Clone for Blz {
    fn clone(&self) -> (r: Self)
        ensures
            r == *self,
    {
        Blz(self.0.clone())
    }
}

/// A bank identifier code.
#[derive(Debug)]
pub struct Bic(pub String);

impl Bic {
    pub open spec fn view(&self) -> Seq<char> {
        self.0@
    }

    pub fn new(value: String) -> (r: Bic)
        ensures
            r == Bic(value),
    {
        Bic(value)
    }

    pub fn as_str(&self) -> (r: &str)
        ensures
            r@ == self@,
    {
        self.0.as_str()
    }
}

impl Clone for Bic {
    fn clone(&self) -> (r: Self)
        ensures
            r == *self,
    {
        Bic(self.0.clone())
    }
}

/// The address of a bank's FinTS endpoint.
#[derive(Debug)]
pub struct FinTSUrl(pub String);

impl FinTSUrl {
    pub open spec fn view(&self) -> Seq<char> {
        self.0@
    }

    pub fn new(value: String) -> (r: FinTSUrl)
        ensures
            r == FinTSUrl(value),
    {
        FinTSUrl(value)
    }

    pub fn as_str(&self) -> (r: &str)
        ensures
            r@ == self@,
    {
        self.0.as_str()
    }
}

impl Clone for FinTSUrl {
    fn clone(&self) -> (r: Self)
        ensures
            r == *self,
    {
        FinTSUrl(self.0.clone())
    }
}

/// An international bank account number.
#[derive(Debug)]
pub struct Iban(pub String);

impl Iban {
    pub open spec fn view(&self) -> Seq<char> {
        self.0@
    }

    pub fn new(value: String) -> (r: Iban)
        ensures
            r == Iban(value),
    {
        Iban(value)
    }

    pub fn as_str(&self) -> (r: &str)
        ensures
            r@ == self@,
    {
        self.0.as_str()
    }
}

impl Clone for Iban {
    fn clone(&self) -> (r: Self)
        ensures
            r == *self,
    {
        Iban(self.0.clone())
    }
}

/// The identifier that a bank assigned to this system.
#[derive(Debug)]
pub struct SystemId(pub String);

impl SystemId {
    pub open spec fn view(&self) -> Seq<char> {
        self.0@
    }

    pub fn new(value: String) -> (r: SystemId)
        ensures
            r == SystemId(value),
    {
        SystemId(value)
    }

    pub fn as_str(&self) -> (r: &str)
        ensures
            r@ == self@,
    {
        self.0.as_str()
    }

    /// Whether a bank has assigned the identifier: it is neither empty nor the placeholder `0`.
    pub open spec fn assigned(&self) -> bool {
        self@ != "0"@ && self@.len() != 0
    }

    /// Whether a bank has assigned the identifier.
    pub fn is_assigned(&self) -> (r: bool)
        ensures
            r == self.assigned(),
    {
        !crate::text::same_text(self.0.as_str(), "0") && !self.0.as_str().is_empty()
    }
}

impl Clone for SystemId {
    fn clone(&self) -> (r: Self)
        ensures
            r == *self,
    {
        SystemId(self.0.clone())
    }
}

/// The login of a bank customer.
#[derive(Debug)]
pub struct UserId(pub String);

impl UserId {
    pub open spec fn view(&self) -> Seq<char> {
        self.0@
    }

    pub fn new(value: String) -> (r: UserId)
        ensures
            r == UserId(value),
    {
        UserId(value)
    }

    pub fn as_str(&self) -> (r: &str)
        ensures
            r@ == self@,
    {
        self.0.as_str()
    }
}

impl Clone for UserId {
    fn clone(&self) -> (r: Self)
        ensures
            r == *self,
    {
        UserId(self.0.clone())
    }
}

/// The PIN of a bank customer.
#[derive(Debug)]
pub struct Pin(pub String);

impl Pin {
    pub open spec fn view(&self) -> Seq<char> {
        self.0@
    }

    pub fn new(value: String) -> (r: Pin)
        ensures
            r == Pin(value),
    {
        Pin(value)
    }

    pub fn as_str(&self) -> (r: &str)
        ensures
            r@ == self@,
    {
        self.0.as_str()
    }
}

impl Clone for Pin {
    fn clone(&self) -> (r: Self)
        ensures
            r == *self,
    {
        Pin(self.0.clone())
    }
}

/// The registration number of a FinTS product.
#[derive(Debug)]
pub struct ProductId(pub String);

impl ProductId {
    pub open spec fn view(&self) -> Seq<char> {
        self.0@
    }

    pub fn new(value: String) -> (r: ProductId)
        ensures
            r == ProductId(value),
    {
        ProductId(value)
    }

    pub fn as_str(&self) -> (r: &str)
        ensures
            r@ == self@,
    {
        self.0.as_str()
    }
}

impl Clone for ProductId {
    fn clone(&self) -> (r: Self)
        ensures
            r == *self,
    {
        ProductId(self.0.clone())
    }
}

/// The code of a security function (a TAN method).
#[derive(Debug)]
pub struct SecurityFunction(pub String);

impl SecurityFunction {
    pub open spec fn view(&self) -> Seq<char> {
        self.0@
    }

    pub fn new(value: String) -> (r: SecurityFunction)
        ensures
            r == SecurityFunction(value),
    {
        SecurityFunction(value)
    }

    pub fn as_str(&self) -> (r: &str)
        ensures
            r@ == self@,
    {
        self.0.as_str()
    }
}

impl Clone for SecurityFunction {
    fn clone(&self) -> (r: Self)
        ensures
            r == *self,
    {
        SecurityFunction(self.0.clone())
    }
}

/// The challenge that a bank asks its customer to answer.
#[derive(Debug)]
pub struct ChallengeText(pub String);

impl ChallengeText {
    pub open spec fn view(&self) -> Seq<char> {
        self.0@
    }

    pub fn new(value: String) -> (r: ChallengeText)
        ensures
            r == ChallengeText(value),
    {
        ChallengeText(value)
    }

    pub fn as_str(&self) -> (r: &str)
        ensures
            r@ == self@,
    {
        self.0.as_str()
    }
}

impl Clone for ChallengeText {
    fn clone(&self) -> (r: Self)
        ensures
            r == *self,
    {
        ChallengeText(self.0.clone())
    }
}

/// The machine-readable part of a challenge, for a TAN generator.
#[derive(Debug)]
pub struct HhdUcData(pub String);

impl HhdUcData {
    pub open spec fn view(&self) -> Seq<char> {
        self.0@
    }

    pub fn new(value: String) -> (r: HhdUcData)
        ensures
            r == HhdUcData(value),
    {
        HhdUcData(value)
    }

    pub fn as_str(&self) -> (r: &str)
        ensures
            r@ == self@,
    {
        self.0.as_str()
    }
}

impl Clone for HhdUcData {
    fn clone(&self) -> (r: Self)
        ensures
            r == *self,
    {
        HhdUcData(self.0.clone())
    }
}

/// The reference of a task that waits for its TAN.
#[derive(Debug)]
pub struct TaskReference(pub String);

impl TaskReference {
    pub open spec fn view(&self) -> Seq<char> {
        self.0@
    }

    pub fn new(value: String) -> (r: TaskReference)
        ensures
            r == TaskReference(value),
    {
        TaskReference(value)
    }

    pub fn as_str(&self) -> (r: &str)
        ensures
            r@ == self@,
    {
        self.0.as_str()
    }
}

impl Clone for TaskReference {
    fn clone(&self) -> (r: Self)
        ensures
            r == *self,
    {
        TaskReference(self.0.clone())
    }
}

/// A TAN method that a bank offers.
#[derive(Debug)]
pub struct TanMethod {
    pub security_function: SecurityFunction,
    pub name: String,
    pub is_decoupled: bool,
    pub wait_before_first_poll: i32,
    pub wait_before_next_poll: i32,
    pub decoupled_max_polls: i32,
    pub hktan_version: u16,
    pub needs_tan_medium: bool,
}

impl Clone for TanMethod {
    fn clone(&self) -> (r: Self)
        ensures
            r == *self,
    {
        TanMethod {
            security_function: self.security_function.clone(),
            name: self.name.clone(),
            is_decoupled: self.is_decoupled,
            wait_before_first_poll: self.wait_before_first_poll,
            wait_before_next_poll: self.wait_before_next_poll,
            decoupled_max_polls: self.decoupled_max_polls,
            hktan_version: self.hktan_version,
            needs_tan_medium: self.needs_tan_medium,
        }
    }
}

/// An account as a bank lists it.
#[derive(Debug)]
pub struct SepaAccount {
    pub iban: Iban,
    pub bic: Bic,
    pub account_number: String,
    pub blz: Blz,
    pub owner: Option<String>,
    pub product_name: Option<String>,
    pub currency: Option<String>,
}

/// What a bank says about itself and the user in a dialog.
#[derive(Debug)]
pub struct BankParams {
    pub bpd_version: u16,
    /// The parameter segments: type and version.
    pub bpd_segments: Vec<(String, u16)>,
    pub tan_methods: Vec<TanMethod>,
    pub allowed_security_functions: Vec<SecurityFunction>,
    /// Which operations need a TAN, by the name of the operation.
    pub operation_tan_required: Vec<(String, bool)>,
    pub accounts_from_upd: Vec<SepaAccount>,
}

impl BankParams {
    /// No operation occurs twice.
    pub open spec fn well_formed(&self) -> bool {
        crate::session::each_name_once(self.operation_tan_required@)
    }
}

/// The account that a request is about.
#[derive(Debug)]
pub struct Account {
    pub iban: Iban,
    pub bic: Bic,
}

/// The balance of an account. Dates are in the form `YYYY-MM-DD`.
#[derive(Debug)]
pub struct AccountBalance {
    pub amount: Amount,
    pub currency: String,
    pub date: String,
    pub available: Option<Amount>,
    pub credit_line: Option<Amount>,
    pub pending_amount: Option<Amount>,
    pub pending_date: Option<String>,
}

/// One booking of an account. The value date is in the form `YYYY-MM-DD`.
#[derive(Debug)]
pub struct Transaction {
    pub date: Day,
    pub valuta_date: Option<String>,
    pub amount: Amount,
    pub currency: String,
    pub applicant_name: Option<String>,
    pub applicant_iban: Option<Iban>,
    pub purpose: Option<String>,
    pub posting_text: Option<String>,
    pub status: String,
}

impl Clone for Transaction {
    fn clone(&self) -> (r: Self)
        ensures
            r == *self,
    {
        Transaction {
            date: self.date,
            valuta_date: self.valuta_date.clone(),
            amount: self.amount,
            currency: self.currency.clone(),
            applicant_name: self.applicant_name.clone(),
            applicant_iban: match &self.applicant_iban {
                Some(iban) => Some(iban.clone()),
                None => None,
            },
            purpose: self.purpose.clone(),
            posting_text: self.posting_text.clone(),
            status: self.status.clone(),
        }
    }
}

/// One position of a securities account. The date is in the form `YYYY-MM-DD`.
#[derive(Debug)]
pub struct SecurityHolding {
    pub name: String,
    pub isin: Option<String>,
    pub wkn: Option<String>,
    pub quantity: Amount,
    pub price: Option<Amount>,
    pub price_currency: Option<String>,
    pub price_date: Option<String>,
    pub market_value: Option<Amount>,
    pub market_value_currency: Option<String>,
    pub profit_loss: Option<Amount>,
}

/// What to fetch in one dialog.
#[derive(Debug, Clone, Copy, PartialEq, Eq, Structural)]
pub struct FetchOpts {
    pub balance: bool,
    pub transactions: bool,
    pub holdings: bool,
    pub days: u32,
}

impl FetchOpts {
    /// Everything: balance, the transactions of `days` days, holdings.
    pub fn all(days: u32) -> (r: FetchOpts)
        ensures
            r == (FetchOpts { balance: true, transactions: true, holdings: true, days }),
    {
        FetchOpts { balance: true, transactions: true, holdings: true, days }
    }

    /// Everything but holdings.
    pub fn no_holdings(days: u32) -> (r: FetchOpts)
        ensures
            r == (FetchOpts { balance: true, transactions: true, holdings: false, days }),
    {
        FetchOpts { balance: true, transactions: true, holdings: false, days }
    }

    /// Holdings alone.
    pub fn holdings_only() -> (r: FetchOpts)
        ensures
            r == (FetchOpts { balance: false, transactions: false, holdings: true, days: 0 }),
    {
        FetchOpts { balance: false, transactions: false, holdings: true, days: 0 }
    }
}

/// What was fetched in one dialog.
#[derive(Debug)]
pub struct FetchResult {
    pub balance: Option<AccountBalance>,
    pub transactions: Vec<Transaction>,
    pub holdings: Vec<SecurityHolding>,
}

} // verus!
