//! ING: dialogs that the bank opens without a TAN.
use vstd::prelude::*;

use crate::banks::BankConfig;
use crate::flow::{InitiateNoTanResult, InitiateOutcome, Login};
use crate::types::{
    BankParams, Blz, FinTSUrl, Pin, ProductId, SecurityFunction, SystemId, TanMethod, UserId,
};

verus! {

/// The upper case hexadecimal digit of a number below 16.
pub open spec fn hex_char(d: int) -> char {
    if d < 10 {
        (48 + d) as char
    } else {
        (55 + d) as char
    }
}

/// The last `width` hexadecimal digits of `n`, in upper case, with leading zeros.
pub open spec fn hex_digits(n: nat, width: nat) -> Seq<char>
    decreases width,
{
    if width == 0 {
        Seq::empty()
    } else {
        hex_digits(n / 16, (width - 1) as nat).push(hex_char((n % 16) as int))
    }
}

fn push_hex(out: &mut String, n: u64, width: u8)
    ensures
        final(out)@ == old(out)@ + hex_digits(n as nat, width as nat),
    decreases width,
{
    if width > 0 {
        push_hex(out, n / 16, width - 1);
        let d = (n % 16) as u8;
        out.push(
            if d < 10 {
                (48 + d) as char
            } else {
                (55 + d) as char
            },
        );
    }
}

/// Sixteen upper case hexadecimal digits of a number.
pub fn hex_text(n: u64) -> (r: String)
    ensures
        r@ == hex_digits(n as nat, 16),
{
    let mut out = String::new();
    push_hex(&mut out, n, 16);
    out
}

proof fn lemma_hex_len(n: nat, width: nat)
    ensures
        hex_digits(n, width).len() == width,
    decreases width,
{
    if width > 0 {
        lemma_hex_len(n / 16, (width - 1) as nat);
    }
}

proof fn lemma_hex_injective(m: nat, n: nat, width: nat)
    requires
        hex_digits(m, width) == hex_digits(n, width),
        m < vstd::arithmetic::power::pow(16, width),
        n < vstd::arithmetic::power::pow(16, width),
    ensures
        m == n,
    decreases width,
{
    reveal(vstd::arithmetic::power::pow);
    if width > 0 {
        let p = (width - 1) as nat;
        let a = hex_digits(m / 16, p);
        let b = hex_digits(n / 16, p);
        lemma_hex_len(m / 16, p);
        lemma_hex_len(n / 16, p);
        assert(a.push(hex_char((m % 16) as int)).last() == b.push(hex_char((n % 16) as int)).last());
        assert(a =~= a.push(hex_char((m % 16) as int)).drop_last());
        assert(b =~= b.push(hex_char((n % 16) as int)).drop_last());
        lemma_hex_injective(m / 16, n / 16, p);
    }
}

/// What a dialog is opened with.
#[derive(Debug)]
pub struct DialogRequest {
    pub url: FinTSUrl,
    pub blz: Blz,
    pub username: UserId,
    pub pin: Pin,
    pub product_id: ProductId,
    pub system_id: SystemId,
    pub security_function: SecurityFunction,
}

/// An open dialog, and what it knows of the bank.
#[derive(Debug)]
pub struct OpenDialog<O> {
    pub params: BankParams,
    pub system_id: SystemId,
    pub dialog: O,
}

fn copy_methods(methods: &Vec<TanMethod>) -> (r: Vec<TanMethod>)
    ensures
        r@ == methods@,
{
    let mut out: Vec<TanMethod> = Vec::new();
    let mut i: usize = 0;
    while i < methods.len()
        invariant
            i <= methods@.len(),
            out@ == methods@.take(i as int),
        decreases methods@.len() - i,
    {
        out.push(methods[i].clone());
        assert(out@ =~= methods@.take(i + 1));
        i += 1;
    }
    assert(methods@.take(i as int) =~= methods@);
    out
}

fn copy_functions(functions: &Vec<SecurityFunction>) -> (r: Vec<SecurityFunction>)
    ensures
        r@ == functions@,
{
    let mut out: Vec<SecurityFunction> = Vec::new();
    let mut i: usize = 0;
    while i < functions.len()
        invariant
            i <= functions@.len(),
            out@ == functions@.take(i as int),
        decreases functions@.len() - i,
    {
        out.push(functions[i].clone());
        assert(out@ =~= functions@.take(i + 1));
        i += 1;
    }
    assert(functions@.take(i as int) =~= functions@);
    out
}

/// `rand::random::<u64>()`: some number. Nothing is claimed of it.
#[verifier::external_body]
fn random_number() -> (r: u64)
{
    rand::random::<u64>()
}

/// The identifier that a dialog goes by: the given one where a bank has assigned it, else one
/// made of `number`.
pub open spec fn chosen_system_id(given: Option<SystemId>, number: u64) -> Seq<char> {
    match given {
        Some(id) if id.assigned() => id@,
        _ => hex_digits(number as nat, 16),
    }
}

/// The dialog with `bank` on behalf of `login`, by the identifier that `number` gives.
pub open spec fn is_dialog_request(
    r: DialogRequest,
    bank: BankConfig,
    login: Login,
    number: u64,
) -> bool {
    &&& r.url == bank.url
    &&& r.blz == bank.blz
    &&& r.username == login.username
    &&& r.pin == login.pin
    &&& r.product_id == login.product_id
    &&& r.system_id@ == chosen_system_id(login.system_id, number)
    &&& r.security_function@ == "900"@
}

/// The outcome of an open dialog: authenticated, with what the dialog knows.
pub open spec fn is_authenticated<P, O>(r: InitiateOutcome<P, O>, open: OpenDialog<O>) -> bool {
    r matches InitiateOutcome::Authenticated(result) && {
        &&& result.tan_methods@ == open.params.tan_methods@
        &&& result.allowed_security_functions@ == open.params.allowed_security_functions@
        &&& result.system_id == open.system_id
        &&& result.params == open.params
        &&& result.dialog == open.dialog
    }
}

/// The ING bank.
#[derive(Debug)]
pub struct Ing {
    bank: BankConfig,
}

impl Ing {
    /// The configuration of the bank.
    pub closed spec fn spec_config(&self) -> BankConfig {
        self.bank
    }

    pub fn new(config: BankConfig) -> (r: Ing)
        ensures
            r.spec_config() == config,
    {
        Ing { bank: config }
    }

    /// The configuration of the bank.
    pub fn config(&self) -> (r: &BankConfig)
        ensures
            *r == self.spec_config(),
    {
        &self.bank
    }

    /// The dialog to open on behalf of `login`, by the identifier that `number` gives. It is one
    /// for which the bank asks no TAN.
    pub fn dialog_request(&self, login: &Login, number: u64) -> (r: DialogRequest)
        ensures
            is_dialog_request(r, self.spec_config(), *login, number),
    {
        let system_id = match &login.system_id {
            Some(id) if id.is_assigned() => id.clone(),
            _ => SystemId::new(hex_text(number)),
        };
        DialogRequest {
            url: self.bank.url.clone(),
            blz: self.bank.blz.clone(),
            username: login.username.clone(),
            pin: login.pin.clone(),
            product_id: login.product_id.clone(),
            system_id,
            security_function: SecurityFunction::new("900".to_string()),
        }
    }

    /// The dialog to open on behalf of `login`. Where no bank has assigned an identifier yet, it
    /// goes by a random one.
    pub fn initiate(&self, login: &Login) -> (r: DialogRequest)
        ensures
            exists|number: u64| is_dialog_request(r, self.spec_config(), *login, number),
    {
        let number = random_number();
        self.dialog_request(login, number)
    }

    /// The outcome once the dialog is open: authenticated, with what the dialog knows.
    pub fn opened<P, O>(open: OpenDialog<O>) -> (r: InitiateOutcome<P, O>)
        ensures
            is_authenticated(r, open),
    {
        let tan_methods = copy_methods(&open.params.tan_methods);
        let allowed_security_functions = copy_functions(&open.params.allowed_security_functions);
        InitiateOutcome::Authenticated(
            InitiateNoTanResult {
                tan_methods,
                allowed_security_functions,
                system_id: open.system_id,
                params: open.params,
                dialog: open.dialog,
            },
        )
    }
}

/// A dialog always goes by an assigned identifier, whatever the random number is.
pub proof fn law_dialog_has_a_system_id(
    r: DialogRequest,
    bank: BankConfig,
    login: Login,
    number: u64,
)
    requires
        is_dialog_request(r, bank, login, number),
    ensures
        r.system_id.assigned(),
        login.system_id matches Some(id) ==> (id.assigned() ==> r.system_id@ == id@),
{
    lemma_hex_len(number as nat, 16);
    reveal_strlit("0");
}

/// Different numbers give different identifiers.
pub proof fn law_generated_system_ids_differ(m: u64, n: u64)
    requires
        m != n,
    ensures
        chosen_system_id(None, m) != chosen_system_id(None, n),
{
    assert(vstd::arithmetic::power::pow(16, 16) == 0x1_0000_0000_0000_0000) by {
        reveal_with_fuel(vstd::arithmetic::power::pow, 17);
    }
    if chosen_system_id(None, m) == chosen_system_id(None, n) {
        lemma_hex_injective(m as nat, n as nat, 16);
    }
}

/// A dialog is opened at the address of the bank and for its BLZ, with the user, the PIN and the
/// product of the login, and with the security function 900, for which no TAN is asked.
pub proof fn law_dialog_is_opened_for_the_login(
    r: DialogRequest,
    bank: BankConfig,
    login: Login,
    number: u64,
)
    requires
        is_dialog_request(r, bank, login, number),
    ensures
        r.url@ == bank.url@,
        r.blz@ == bank.blz@,
        r.username@ == login.username@,
        r.pin@ == login.pin@,
        r.product_id@ == login.product_id@,
        r.security_function@ == "900"@,
        login.system_id is Some && login.system_id->0@ != "0"@ && login.system_id->0@.len() > 0
            ==> r.system_id@ == login.system_id->0@,
        login.system_id is None ==> r.system_id@.len() == 16 && forall|i: int|
            0 <= i < 16 ==> '0' <= #[trigger] r.system_id@[i] <= '9' || 'A' <= r.system_id@[i]
                <= 'F',
{
    lemma_hex_len(number as nat, 16);
    lemma_hex_chars(number as nat, 16);
}

proof fn lemma_hex_chars(n: nat, width: nat)
    ensures
        forall|i: int|
            0 <= i < hex_digits(n, width).len() ==> '0' <= #[trigger] hex_digits(n, width)[i] <= '9'
                || 'A' <= hex_digits(n, width)[i] <= 'F',
    decreases width,
{
    if width > 0 {
        let front = hex_digits(n / 16, (width - 1) as nat);
        lemma_hex_chars(n / 16, (width - 1) as nat);
        assert forall|i: int| 0 <= i < hex_digits(n, width).len() implies '0'
            <= #[trigger] hex_digits(n, width)[i] <= '9' || 'A' <= hex_digits(n, width)[i] <= 'F' by {
            if i < front.len() {
                assert(hex_digits(n, width)[i] == front[i]);
            }
        }
    }
}

/// A dialog without a TAN is authenticated at once, with the TAN methods, the security functions
/// and all other parameters that the bank named, and with its own system identifier.
pub proof fn law_open_dialog_is_authenticated<P, O>(
    r: InitiateOutcome<P, O>,
    open: OpenDialog<O>,
)
    requires
        is_authenticated(r, open),
    ensures
        r matches InitiateOutcome::Authenticated(result) && {
            &&& result.tan_methods@ == open.params.tan_methods@
            &&& result.allowed_security_functions@ == open.params.allowed_security_functions@
            &&& result.system_id@ == open.system_id@
            &&& result.params == open.params
            &&& result.dialog == open.dialog
        },
{
}

} // verus!
