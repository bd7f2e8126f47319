//! What the commands decide and say between their inputs and outputs.
use vstd::prelude::*;

use crate::banks::BankRegistry;
use crate::flow::{ChallengeInfo, Login};
use crate::selection;
use crate::selection::{BankSelection, ResolvedBank};
use crate::session;
use crate::session::SessionFile;
use crate::text;
use crate::types::{FetchOpts, Pin, ProductId, SystemId, UserId};

verus! {

// ---------------------------------------------------------------------------------------------
// Login
// ---------------------------------------------------------------------------------------------

/// The product that the client registers as: the one given on the command line, else the one that
/// `FINTS_PRODUCT_ID` names, else its own.
pub open spec fn registered_product(given: Option<Seq<char>>, env_id: Option<Seq<char>>) -> Seq<
    char,
> {
    match (given, env_id) {
        (Some(id), _) => id,
        (None, Some(id)) => id,
        (None, None) => "4FC925A65CCF74BA0CCB1EAF5"@,
    }
}

/// The product that the client registers as.
pub fn get_product_id(given: Option<&str>, env_id: Option<&str>) -> (r: ProductId)
    ensures
        r@ == registered_product(session::str_view(given), session::str_view(env_id)),
{
    let id = match (given, env_id) {
        (Some(id), _) => id.to_owned(),
        (None, Some(id)) => id.to_owned(),
        (None, None) => "4FC925A65CCF74BA0CCB1EAF5".to_string(),
    };
    ProductId::new(id)
}

/// `login` is that of a command.
pub open spec fn is_login(
    login: Login,
    user_id: Seq<char>,
    pin: Seq<char>,
    product_id: ProductId,
    existing: Option<&SessionFile>,
) -> bool {
    &&& login.username@ == user_id
    &&& login.pin@ == pin
    &&& login.product_id == product_id
    &&& session::system_id_view(login.system_id) == session::kept_system_id(existing)
    &&& login.target_iban is None
    &&& login.target_bic is None
}

/// The login of a command: it goes on with the system identifier of the session where there is
/// one, and aims at no account in particular.
pub fn session_login(
    user_id: &str,
    pin: &str,
    product_id: ProductId,
    existing: Option<&SessionFile>,
) -> (r: Login)
    ensures
        is_login(r, user_id@, pin@, product_id, existing),
{
    Login {
        username: UserId::new(user_id.to_owned()),
        pin: Pin::new(pin.to_owned()),
        product_id,
        system_id: session::session_system_id(existing),
        target_iban: None,
        target_bic: None,
    }
}

// ---------------------------------------------------------------------------------------------
// Setup
// ---------------------------------------------------------------------------------------------

/// How `setup` comes by its bank.
#[derive(Debug)]
pub enum SetupBank {
    /// The command line names it.
    Given(ResolvedBank),
    /// The user picks it from this menu.
    Menu(String),
}

/// `r` is how `setup` comes by its bank.
pub open spec fn is_setup_bank(
    known: Seq<crate::banks::BankConfig>,
    sel: BankSelection,
    r: SetupBank,
) -> bool {
    match selection::selected_bank(known, sel) {
        Ok(v) => r matches SetupBank::Given(b) && b.is_bank(v),
        Err(_) => r matches SetupBank::Menu(m) && m@ == selection::bank_menu_text(known),
    }
}

/// How `setup` comes by its bank: a command line that names none, or none that is known, brings up
/// the menu.
pub fn setup_bank(registry: &BankRegistry, sel: &BankSelection) -> (r: SetupBank)
    ensures
        is_setup_bank(registry@, *sel, r),
{
    match selection::resolve_bank(registry, sel) {
        Ok(b) => SetupBank::Given(b),
        Err(_) => SetupBank::Menu(selection::bank_menu(registry)),
    }
}

/// What to say before a bank is contacted.
pub open spec fn connecting_message(bank: ResolvedBank) -> Seq<char> {
    "Connecting to "@ + bank.name@ + " ("@ + bank.url@ + ")...\n"@
}

/// What to say before a bank is contacted.
pub fn connecting_text(bank: &ResolvedBank) -> (r: String)
    ensures
        r@ == connecting_message(*bank),
{
    let mut out = "Connecting to ".to_string();
    out.append(bank.name.as_str());
    out.append(" (");
    out.append(bank.url.as_str());
    out.append(")...\n");
    out
}

/// What to say after the first contact: the system identifier, and that TANs will be asked for.
pub open spec fn connected_message(system_id: SystemId, challenge: ChallengeInfo) -> Seq<char> {
    "Connected. System ID: "@ + (if system_id.assigned() {
        system_id@
    } else {
        "unassigned"@
    }) + "\n"@ + (if challenge.no_tan_required {
        ""@
    } else {
        "Note: "@ + text::decimal(challenge.tan_methods@.len())
            + " TAN methods available.\nUse 'sync' or 'transactions' to fetch data (TAN will be requested then).\n"@
    })
}

/// What to say after the first contact.
pub fn connected_text(system_id: &SystemId, challenge: &ChallengeInfo) -> (r: String)
    ensures
        r@ == connected_message(*system_id, *challenge),
{
    let mut note = "".to_string();
    if !challenge.no_tan_required {
        note = "Note: ".to_string();
        text::push_decimal(&mut note, challenge.tan_methods.len() as u128);
        note.append(
            " TAN methods available.\nUse 'sync' or 'transactions' to fetch data (TAN will be requested then).\n",
        );
    }
    let mut out = "Connected. System ID: ".to_string();
    out.append(
        if system_id.is_assigned() {
            system_id.as_str()
        } else {
            "unassigned"
        },
    );
    out.append("\n");
    out.append(note.as_str());
    out
}

/// What to say at the end of `setup`.
pub open spec fn setup_message(bank: ResolvedBank) -> Seq<char> {
    "\nSetup complete! Use 'fints-client --bank "@ + bank.blz@
        + " sync' to fetch your account data.\n"@
}

/// What to say at the end of `setup`.
pub fn setup_complete_text(bank: &ResolvedBank) -> (r: String)
    ensures
        r@ == setup_message(*bank),
{
    let mut out = "\nSetup complete! Use 'fints-client --bank ".to_string();
    out.append(bank.blz.as_str());
    out.append(" sync' to fetch your account data.\n");
    out
}

// ---------------------------------------------------------------------------------------------
// TAN
// ---------------------------------------------------------------------------------------------

/// How a challenge is answered.
#[derive(Debug)]
pub enum TanStep {
    /// The bank asks for no TAN.
    NotNeeded,
    /// The user confirms in the banking app.
    Confirm,
    /// This TAN was given on the command line.
    Given(String),
    /// The user is shown the challenge and asked for a TAN.
    Ask(String),
}

/// How a challenge is answered.
pub enum TanStepView {
    NotNeeded,
    Confirm,
    Given(Seq<char>),
    Ask(Seq<char>),
}

impl TanStep {
    pub open spec fn view(&self) -> TanStepView {
        match *self {
            TanStep::NotNeeded => TanStepView::NotNeeded,
            TanStep::Confirm => TanStepView::Confirm,
            TanStep::Given(tan) => TanStepView::Given(tan@),
            TanStep::Ask(text) => TanStepView::Ask(text@),
        }
    }
}

/// How a challenge is answered: a decoupled one in the banking app, any other one by a TAN, which
/// is asked for where the command line gives none.
pub open spec fn tan_answer(challenge: ChallengeInfo, tan: Option<Seq<char>>) -> TanStepView {
    if challenge.no_tan_required {
        TanStepView::NotNeeded
    } else if challenge.decoupled {
        TanStepView::Confirm
    } else {
        match tan {
            Some(t) => TanStepView::Given(t),
            None => TanStepView::Ask(challenge.challenge@),
        }
    }
}

/// How a challenge is answered.
pub fn tan_step(challenge: &ChallengeInfo, tan_arg: Option<&str>) -> (r: TanStep)
    ensures
        r@ == tan_answer(*challenge, session::str_view(tan_arg)),
{
    if challenge.no_tan_required {
        TanStep::NotNeeded
    } else if challenge.decoupled {
        TanStep::Confirm
    } else {
        match tan_arg {
            Some(tan) => TanStep::Given(tan.to_owned()),
            None => TanStep::Ask(challenge.challenge.as_str().to_owned()),
        }
    }
}

// ---------------------------------------------------------------------------------------------
// Fetching
// ---------------------------------------------------------------------------------------------

/// What `sync` fetches.
pub fn sync_fetch_opts(no_holdings: bool, days: u32) -> (r: FetchOpts)
    ensures
        r == (FetchOpts { balance: true, transactions: true, holdings: !no_holdings, days }),
{
    if no_holdings {
        FetchOpts::no_holdings(days)
    } else {
        FetchOpts::all(days)
    }
}

/// What `balance` fetches: everything of one day, which is quick.
pub fn balance_fetch_opts() -> (r: FetchOpts)
    ensures
        r == (FetchOpts { balance: true, transactions: true, holdings: true, days: 1 }),
{
    FetchOpts::all(1)
}

/// What `holdings` fetches: holdings alone.
pub fn holdings_fetch_opts() -> (r: FetchOpts)
    ensures
        r == (FetchOpts { balance: false, transactions: false, holdings: true, days: 0 }),
{
    FetchOpts::holdings_only()
}

// ---------------------------------------------------------------------------------------------
// Laws
// ---------------------------------------------------------------------------------------------

/// The product of the command line comes first, then that of the environment.
pub proof fn law_product_id(given: Option<Seq<char>>, env_id: Option<Seq<char>>)
    ensures
        given is Some ==> registered_product(given, env_id) == given->0,
        given is None && env_id is Some ==> registered_product(given, env_id) == env_id->0,
        given is None && env_id is None ==> registered_product(given, env_id)
            == "4FC925A65CCF74BA0CCB1EAF5"@,
{
}

/// A TAN is needed exactly where the bank says so. A decoupled challenge is confirmed in the
/// banking app. For any other one the TAN of the command line is taken as it is, and without one
/// the user is asked with the words of the challenge.
pub proof fn law_tan_answers(challenge: ChallengeInfo, tan: Option<Seq<char>>)
    ensures
        tan_answer(challenge, tan) is NotNeeded <==> challenge.no_tan_required,
        tan_answer(challenge, tan) is Confirm <==> !challenge.no_tan_required
            && challenge.decoupled,
        !challenge.no_tan_required && !challenge.decoupled && tan is Some ==> tan_answer(
            challenge,
            tan,
        ) == TanStepView::Given(tan->0),
        !challenge.no_tan_required && !challenge.decoupled && tan is None ==> tan_answer(
            challenge,
            tan,
        ) == TanStepView::Ask(challenge.challenge@),
{
}

/// Before a bank is contacted its name and its address are shown, and after the setup its BLZ.
pub proof fn law_bank_is_named(bank: ResolvedBank)
    ensures
        exists|a: Seq<char>, b: Seq<char>|
            connecting_message(bank) == #[trigger] (a + (bank.name@ + " ("@ + bank.url@ + ")"@)
                + b) && a == "Connecting to "@,
        exists|a: Seq<char>, b: Seq<char>|
            setup_message(bank) == #[trigger] (a + ("--bank "@ + bank.blz@ + " sync"@) + b) && a
                == "\nSetup complete! Use 'fints-client "@,
{
    let b = "...\n"@;
    reveal_strlit(")...\n");
    reveal_strlit(")");
    reveal_strlit("...\n");
    assert(")...\n"@ =~= ")"@ + b);
    assert(connecting_message(bank) =~= "Connecting to "@ + (bank.name@ + " ("@ + bank.url@ + ")"@)
        + b);
    let c = "' to fetch your account data.\n"@;
    reveal_strlit("\nSetup complete! Use 'fints-client --bank ");
    reveal_strlit("\nSetup complete! Use 'fints-client ");
    reveal_strlit("--bank ");
    reveal_strlit(" sync' to fetch your account data.\n");
    reveal_strlit(" sync");
    reveal_strlit("' to fetch your account data.\n");
    assert("\nSetup complete! Use 'fints-client --bank "@
        =~= "\nSetup complete! Use 'fints-client "@ + "--bank "@);
    assert(" sync' to fetch your account data.\n"@ =~= " sync"@ + c);
    assert(setup_message(bank) =~= "\nSetup complete! Use 'fints-client "@ + ("--bank "@ + bank.blz@
        + " sync"@) + c);
}

/// After the first contact the system identifier is shown where the bank has assigned one, and
/// where a TAN will be needed, with how many methods.
pub proof fn law_first_contact_is_told(system_id: SystemId, challenge: ChallengeInfo)
    ensures
        exists|id: Seq<char>, note: Seq<char>|
            connected_message(system_id, challenge) == #[trigger] ("Connected. System ID: "@ + id
                + "\n"@ + note) && (system_id@ != "0"@ && system_id@.len() > 0 ==> id
                == system_id@) && (system_id@ == "0"@ || system_id@.len() == 0 ==> id
                == "unassigned"@) && (challenge.no_tan_required <==> note.len() == 0) && (
            !challenge.no_tan_required ==> exists|number: Seq<char>, rest: Seq<char>|
                text::reads_as_number(number, challenge.tan_methods@.len() as int) && note
                    == #[trigger] ("Note: "@ + number + rest)),
{
    reveal_strlit("");
    reveal_strlit("Note: ");
    let id = if system_id.assigned() {
        system_id@
    } else {
        "unassigned"@
    };
    let number = text::decimal(challenge.tan_methods@.len());
    text::law_numeral_is_read_back(challenge.tan_methods@.len());
    let rest =
        " TAN methods available.\nUse 'sync' or 'transactions' to fetch data (TAN will be requested then).\n"@;
    let note = if challenge.no_tan_required {
        ""@
    } else {
        "Note: "@ + number + rest
    };
    assert(connected_message(system_id, challenge) == "Connected. System ID: "@ + id + "\n"@ + note);
    assert(!challenge.no_tan_required ==> note == "Note: "@ + number + rest);
}

/// A command logs in with its user, its PIN and its product, goes on with the system identifier of
/// the session where there is one, and aims at no account in particular.
pub proof fn law_login_of_a_command(
    login: Login,
    user_id: Seq<char>,
    pin: Seq<char>,
    product_id: ProductId,
    existing: Option<&SessionFile>,
)
    requires
        is_login(login, user_id, pin, product_id, existing),
    ensures
        login.username@ == user_id,
        login.pin@ == pin,
        login.product_id@ == product_id@,
        existing is Some ==> login.system_id is Some && login.system_id->0@
            == existing->0.system_id@,
        existing is None ==> login.system_id is None,
        login.target_iban is None,
        login.target_bic is None,
{
}

/// The setup takes the bank of the command line where that names a known one or an address, and
/// shows the menu else.
pub proof fn law_bank_of_the_setup(
    known: Seq<crate::banks::BankConfig>,
    sel: BankSelection,
    r: SetupBank,
)
    requires
        is_setup_bank(known, sel, r),
    ensures
        r is Given <==> selection::selected_bank(known, sel) is Ok,
        r matches SetupBank::Given(b) ==> b.is_bank(selection::selected_bank(known, sel)->Ok_0),
        r matches SetupBank::Menu(m) ==> m@ == selection::bank_menu_text(known),
{
}

} // verus!
