//! Saved sessions: what they hold, where they lie, and how they are built and updated.
use vstd::prelude::*;

use crate::flow::ChallengeInfo;
use crate::selection::ResolvedBank;
use crate::text;
use crate::types::{SepaAccount, SystemId, TanMethod};

verus! {

// ---------------------------------------------------------------------------------------------
// Contents
// ---------------------------------------------------------------------------------------------

/// A TAN method as a session keeps it.
#[derive(Debug)]
pub struct TanMethodSer {
    pub security_function: String,
    pub name: String,
    pub is_decoupled: bool,
    pub wait_before_first_poll: i32,
    pub wait_before_next_poll: i32,
    pub decoupled_max_polls: i32,
    pub hktan_version: u16,
    pub needs_tan_medium: bool,
}

/// An account as a session keeps it.
#[derive(Debug)]
pub struct SepaAccountSer {
    pub iban: String,
    pub bic: String,
    pub account_number: String,
    pub blz: String,
    pub owner: Option<String>,
    pub product_name: Option<String>,
    pub currency: Option<String>,
}

/// A saved session.
#[derive(Debug)]
pub struct SessionFile {
    pub version: u32,
    pub bank_id: String,
    pub bank_url: String,
    pub blz: String,
    pub user_id: String,
    pub system_id: String,
    pub bpd_version: u16,
    pub upd_version: u16,
    pub tan_methods: Vec<TanMethodSer>,
    pub selected_security_function: String,
    pub accounts: Vec<SepaAccountSer>,
    /// Which operations need a TAN, by the name of the operation.
    pub operation_tan_required: Vec<(String, bool)>,
    pub saved_at: String,
}

impl SessionFile {
    /// No operation occurs twice.
    pub open spec fn well_formed(&self) -> bool {
        each_name_once(self.operation_tan_required@)
    }
}

/// The method `m` as a session keeps it.
pub open spec fn saved_method(m: TanMethod) -> TanMethodSer {
    TanMethodSer {
        security_function: m.security_function.0,
        name: m.name,
        is_decoupled: m.is_decoupled,
        wait_before_first_poll: m.wait_before_first_poll,
        wait_before_next_poll: m.wait_before_next_poll,
        decoupled_max_polls: m.decoupled_max_polls,
        hktan_version: m.hktan_version,
        needs_tan_medium: m.needs_tan_medium,
    }
}

/// The account `a` as a session keeps it.
pub open spec fn saved_account(a: SepaAccount) -> SepaAccountSer {
    SepaAccountSer {
        iban: a.iban.0,
        bic: a.bic.0,
        account_number: a.account_number,
        blz: a.blz.0,
        owner: a.owner,
        product_name: a.product_name,
        currency: a.currency,
    }
}

impl From<&TanMethod> for TanMethodSer {
    fn from(m: &TanMethod) -> (r: Self) {
        TanMethodSer {
            security_function: m.security_function.0.clone(),
            name: m.name.clone(),
            is_decoupled: m.is_decoupled,
            wait_before_first_poll: m.wait_before_first_poll,
            wait_before_next_poll: m.wait_before_next_poll,
            decoupled_max_polls: m.decoupled_max_polls,
            hktan_version: m.hktan_version,
            needs_tan_medium: m.needs_tan_medium,
        }
    }
}

impl vstd::std_specs::convert::FromSpecImpl<&TanMethod> for TanMethodSer {
    open spec fn obeys_from_spec() -> bool {
        true
    }

    open spec fn from_spec(m: &TanMethod) -> Self {
        saved_method(*m)
    }
}

impl From<&SepaAccount> for SepaAccountSer {
    fn from(a: &SepaAccount) -> (r: Self) {
        SepaAccountSer {
            iban: a.iban.0.clone(),
            bic: a.bic.0.clone(),
            account_number: a.account_number.clone(),
            blz: a.blz.0.clone(),
            owner: a.owner.clone(),
            product_name: a.product_name.clone(),
            currency: a.currency.clone(),
        }
    }
}

impl vstd::std_specs::convert::FromSpecImpl<&SepaAccount> for SepaAccountSer {
    open spec fn obeys_from_spec() -> bool {
        true
    }

    open spec fn from_spec(a: &SepaAccount) -> Self {
        saved_account(*a)
    }
}

impl Clone for SepaAccountSer {
    fn clone(&self) -> (r: Self)
        ensures
            r == *self,
    {
        SepaAccountSer {
            iban: self.iban.clone(),
            bic: self.bic.clone(),
            account_number: self.account_number.clone(),
            blz: self.blz.clone(),
            owner: self.owner.clone(),
            product_name: self.product_name.clone(),
            currency: self.currency.clone(),
        }
    }
}

// ---------------------------------------------------------------------------------------------
// Places
// ---------------------------------------------------------------------------------------------

/// The path `rest` seen from the directory `base`, with `/` as the separator: an absolute path
/// stays what it is.
pub open spec fn joined_path(base: Seq<char>, rest: Seq<char>) -> Seq<char> {
    if rest.len() > 0 && rest[0] == '/' {
        rest
    } else if base.len() == 0 || base.last() == '/' {
        base + rest
    } else {
        base.push('/') + rest
    }
}

fn join_path(base: &str, rest: &str) -> (r: String)
    ensures
        r@ == joined_path(base@, rest@),
{
    let b = text::chars_of(base);
    let c = text::chars_of(rest);
    if c.len() > 0 && c[0] == '/' {
        return rest.to_owned();
    }
    let mut out = base.to_owned();
    if b.len() > 0 && b[b.len() - 1] != '/' {
        out.push('/');
    }
    out.append(rest);
    out
}

/// The directory of the sessions: the one given on the command line, else the one that
/// `FINTS_SESSION_DIR` names, else `.config/fints/sessions` in the home directory, for which the
/// current directory stands in.
pub open spec fn session_dir(
    given: Option<Seq<char>>,
    env_dir: Option<Seq<char>>,
    home: Option<Seq<char>>,
) -> Seq<char> {
    match (given, env_dir) {
        (Some(dir), _) => dir,
        (None, Some(dir)) => dir,
        (None, None) => {
            let base = match home {
                Some(dir) => dir,
                None => "."@,
            };
            joined_path(joined_path(joined_path(base, ".config"@), "fints"@), "sessions"@)
        },
    }
}

pub open spec fn str_view(o: Option<&str>) -> Option<Seq<char>> {
    match o {
        Some(s) => Some(s@),
        None => None,
    }
}

/// The directory of the sessions.
pub fn get_session_dir(given: Option<&str>, env_dir: Option<&str>, home: Option<&str>) -> (r:
    String)
    ensures
        r@ == session_dir(str_view(given), str_view(env_dir), str_view(home)),
{
    match (given, env_dir) {
        (Some(dir), _) => dir.to_owned(),
        (None, Some(dir)) => dir.to_owned(),
        (None, None) => {
            let base = match home {
                Some(dir) => dir.to_owned(),
                None => ".".to_string(),
            };
            let config = join_path(base.as_str(), ".config");
            let fints = join_path(config.as_str(), "fints");
            join_path(fints.as_str(), "sessions")
        },
    }
}

/// The file of the session `name` in the directory `dir`.
pub open spec fn session_file(dir: Seq<char>, name: Seq<char>) -> Seq<char> {
    joined_path(dir, name + ".json"@)
}

/// The name of the file of the session `name`.
pub fn session_file_name(name: &str) -> (r: String)
    ensures
        r@ == name@ + ".json"@,
{
    let mut file = name.to_owned();
    file.append(".json");
    file
}

/// The file of the session `name` in the directory `session_dir`.
pub fn session_path(session_dir: &str, name: &str) -> (r: String)
    ensures
        r@ == session_file(session_dir@, name@),
{
    join_path(session_dir, session_file_name(name).as_str())
}

/// What to say where the file `path` of a session cannot be read.
pub open spec fn missing_message(path: Seq<char>) -> Seq<char> {
    "No session found at "@ + path + ". Run 'fints-client setup' first."@
}

/// What to say where the file `path` of a session cannot be read.
pub fn missing_session(path: &str) -> (r: String)
    ensures
        r@ == missing_message(path@),
{
    let mut out = "No session found at ".to_string();
    out.append(path);
    out.append(". Run 'fints-client setup' first.");
    out
}

/// The session that a file of the session directory holds, by the name of the file: a name and
/// the extension `json`.
pub open spec fn session_of_file(file: Seq<char>) -> Option<Seq<char>> {
    let n = file.len() - ".json"@.len();
    if n > 0 && file.skip(n) == ".json"@ {
        Some(file.take(n))
    } else {
        None
    }
}

/// The session that a file of the session directory holds.
pub fn session_name_of_file(file: &str) -> (r: Option<String>)
    ensures
        match session_of_file(file@) {
            Some(name) => r is Some && r->0@ == name,
            None => r is None,
        },
{
    let chars = text::chars_of(file);
    let n = ".json".unicode_len();
    if chars.len() <= n {
        return None;
    }
    let at = chars.len() - n;
    let extension = text::string_of(&chars, at, chars.len());
    assert(extension@ =~= file@.skip(at as int));
    if text::same_text(extension.as_str(), ".json") {
        let name = text::string_of(&chars, 0, at);
        assert(name@ =~= file@.take(at as int));
        Some(name)
    } else {
        None
    }
}

/// The file name of a session gives back its name.
pub proof fn law_session_name_is_read_back(name: Seq<char>)
    requires
        name.len() > 0,
    ensures
        session_of_file(name + ".json"@) == Some(name),
{
    let file = name + ".json"@;
    let n = file.len() - ".json"@.len();
    assert(file.skip(n) =~= ".json"@);
    assert(file.take(n) =~= name);
}

pub open spec fn is_absolute(path: Seq<char>) -> bool {
    path.len() > 0 && path[0] == '/'
}

/// Two sessions in one directory lie in different files, unless the name of one of them is an
/// absolute path and that of the other is not.
pub proof fn law_sessions_do_not_share_a_file(dir: Seq<char>, a: Seq<char>, b: Seq<char>)
    ensures
        session_file(dir, a) == session_file(dir, b) ==> a == b || is_absolute(a) != is_absolute(b),
{
    reveal_strlit(".json");
    let fa = a + ".json"@;
    let fb = b + ".json"@;
    let base = if dir.len() == 0 || dir.last() == '/' {
        dir
    } else {
        dir.push('/')
    };
    assert(session_file(dir, a) == (if is_absolute(a) {
        fa
    } else {
        base + fa
    }));
    assert(session_file(dir, b) == (if is_absolute(b) {
        fb
    } else {
        base + fb
    }));
    assert((base + fa).skip(base.len() as int) =~= fa);
    assert((base + fb).skip(base.len() as int) =~= fb);
    assert(fa.take(fa.len() - 5) =~= a);
    assert(fb.take(fb.len() - 5) =~= b);
}

/// The session that a command works with: the one given on the command line, else the one that
/// is named after the bank.
pub open spec fn name_of_session(given: Option<Seq<char>>, bank: ResolvedBank) -> Seq<char> {
    match given {
        Some(name) => name,
        None => bank.blz@,
    }
}

/// The session that a command works with.
pub fn session_name(given: Option<&str>, bank: &ResolvedBank) -> (r: String)
    ensures
        r@ == name_of_session(str_view(given), *bank),
{
    match given {
        Some(name) => name.to_owned(),
        None => bank.blz.clone(),
    }
}

/// Where a session goes.
#[derive(Debug)]
pub enum SessionPlace {
    /// Into a resume token, which is printed.
    Token,
    /// Into the saved session of this name.
    Saved(String),
}

/// Where the session `name` goes.
pub open spec fn place_of_session(no_persist: bool, name: String) -> SessionPlace {
    if no_persist {
        SessionPlace::Token
    } else {
        SessionPlace::Saved(name)
    }
}

/// Where the session `name` goes: with `--no-persist` into a token, and not on disk.
pub fn session_place(no_persist: bool, name: String) -> (r: SessionPlace)
    ensures
        r == place_of_session(no_persist, name),
{
    if no_persist {
        SessionPlace::Token
    } else {
        SessionPlace::Saved(name)
    }
}

// ---------------------------------------------------------------------------------------------
// Building
// ---------------------------------------------------------------------------------------------

/// The methods as a session keeps them.
pub open spec fn saved_methods(methods: Seq<TanMethod>) -> Seq<TanMethodSer> {
    methods.map_values(|m: TanMethod| saved_method(m))
}

fn save_methods(methods: &Vec<TanMethod>) -> (r: Vec<TanMethodSer>)
    ensures
        r@ == saved_methods(methods@),
{
    let mut out: Vec<TanMethodSer> = Vec::new();
    let mut i: usize = 0;
    while i < methods.len()
        invariant
            i <= methods@.len(),
            out@ == saved_methods(methods@.take(i as int)),
        decreases methods@.len() - i,
    {
        let saved: TanMethodSer = TanMethodSer::from(&methods[i]);
        out.push(saved);
        assert(out@ =~= saved_methods(methods@.take(i + 1)));
        i += 1;
    }
    assert(methods@.take(i as int) =~= methods@);
    out
}

/// The session of the bank `bank` for the user `user_id`: what every session that the client
/// writes has in common.
pub open spec fn is_session_of(
    s: SessionFile,
    bank: ResolvedBank,
    user_id: Seq<char>,
    system_id: Seq<char>,
    challenge: ChallengeInfo,
    saved_at: Seq<char>,
) -> bool {
    &&& s.version == 1
    &&& s.bank_id@ == bank.blz@
    &&& s.bank_url@ == bank.url@
    &&& s.blz@ == bank.blz@
    &&& s.user_id@ == user_id
    &&& s.system_id@ == system_id
    &&& s.tan_methods@ == saved_methods(challenge.tan_methods@)
    &&& s.operation_tan_required@.len() == 0
    &&& s.saved_at@ == saved_at
}

/// The security function that is selected at the first contact: the first one that the bank
/// allows.
pub open spec fn first_function(challenge: ChallengeInfo) -> Seq<char> {
    if challenge.allowed_security_functions@.len() > 0 {
        challenge.allowed_security_functions@[0]@
    } else {
        "999"@
    }
}

/// The session after the first contact with a bank: no parameters and no accounts are known yet,
/// and the first security function that the bank allows is selected.
pub fn setup_session(
    bank: &ResolvedBank,
    user_id: &str,
    system_id: &SystemId,
    challenge: &ChallengeInfo,
    saved_at: String,
) -> (r: SessionFile)
    ensures
        is_session_of(r, *bank, user_id@, system_id@, *challenge, saved_at@),
        r.well_formed(),
        r.bpd_version == 0,
        r.upd_version == 0,
        r.selected_security_function@ == first_function(*challenge),
        r.accounts@.len() == 0,
{
    let selected = if challenge.allowed_security_functions.len() > 0 {
        challenge.allowed_security_functions[0].as_str().to_owned()
    } else {
        "999".to_string()
    };
    SessionFile {
        version: 1,
        bank_id: bank.blz.clone(),
        bank_url: bank.url.clone(),
        blz: bank.blz.clone(),
        user_id: user_id.to_owned(),
        system_id: system_id.as_str().to_owned(),
        bpd_version: 0,
        upd_version: 0,
        tan_methods: save_methods(&challenge.tan_methods),
        selected_security_function: selected,
        accounts: Vec::new(),
        operation_tan_required: Vec::new(),
        saved_at,
    }
}

/// `r` has the parameters, the selected security function and the accounts of `s`.
pub open spec fn keeps_state(r: SessionFile, s: SessionFile) -> bool {
    &&& r.bpd_version == s.bpd_version
    &&& r.upd_version == s.upd_version
    &&& r.selected_security_function@ == s.selected_security_function@
    &&& r.accounts@ == s.accounts@
}

/// `r` goes on with the state of the session before it, or starts with none.
pub open spec fn continues(r: SessionFile, existing: Option<SessionFile>) -> bool {
    match existing {
        Some(s) => keeps_state(r, s),
        None => {
            &&& r.bpd_version == 0
            &&& r.upd_version == 0
            &&& r.selected_security_function@ == "999"@
            &&& r.accounts@.len() == 0
        },
    }
}

/// However often a session is updated, it keeps the parameters, the selected security function
/// and the accounts that it had first.
pub proof fn law_updates_keep_the_state(sessions: Seq<SessionFile>)
    requires
        sessions.len() > 0,
        forall|i: int| 1 <= i < sessions.len() ==> keeps_state(#[trigger] sessions[i], sessions[i - 1]),
    ensures
        forall|i: int| 0 <= i < sessions.len() ==> keeps_state(#[trigger] sessions[i], sessions[0]),
    decreases sessions.len(),
{
    if sessions.len() > 1 {
        let front = sessions.drop_last();
        assert forall|i: int| 1 <= i < front.len() implies keeps_state(
            #[trigger] front[i],
            front[i - 1],
        ) by {
            assert(keeps_state(sessions[i], sessions[i - 1]));
        }
        law_updates_keep_the_state(front);
        let last = sessions.len() - 1;
        assert(keeps_state(front[last - 1], front[0]));
        assert(keeps_state(sessions[last], sessions[last - 1]));
        assert forall|i: int| 0 <= i < sessions.len() implies keeps_state(
            #[trigger] sessions[i],
            sessions[0],
        ) by {
            if i < last {
                assert(front[i] == sessions[i]);
            }
        }
    }
}

/// The session after a sync. The identifier of the dialog replaces that of the flow where there
/// is one; parameters, selection and accounts are those of the session before.
pub fn updated_session(
    bank: &ResolvedBank,
    user_id: &str,
    dialog_system_id: Option<&SystemId>,
    flow_system_id: &SystemId,
    challenge: &ChallengeInfo,
    existing: Option<&SessionFile>,
    saved_at: String,
) -> (r: SessionFile)
    ensures
        is_session_of(
            r,
            *bank,
            user_id@,
            match dialog_system_id {
                Some(id) => id@,
                None => flow_system_id@,
            },
            *challenge,
            saved_at@,
        ),
        continues(
            r,
            match existing {
                Some(s) => Some(*s),
                None => None,
            },
        ),
        r.well_formed(),
{
    let system_id = match dialog_system_id {
        Some(id) => id.as_str().to_owned(),
        None => flow_system_id.as_str().to_owned(),
    };
    let selected = match existing {
        Some(s) => s.selected_security_function.clone(),
        None => "999".to_string(),
    };
    SessionFile {
        version: 1,
        bank_id: bank.blz.clone(),
        bank_url: bank.url.clone(),
        blz: bank.blz.clone(),
        user_id: user_id.to_owned(),
        system_id,
        bpd_version: match existing {
            Some(s) => s.bpd_version,
            None => 0,
        },
        upd_version: match existing {
            Some(s) => s.upd_version,
            None => 0,
        },
        tan_methods: save_methods(&challenge.tan_methods),
        selected_security_function: selected,
        accounts: session_accounts(existing),
        operation_tan_required: Vec::new(),
        saved_at,
    }
}

/// The accounts that a session knows.
pub open spec fn known_accounts(session: Option<&SessionFile>) -> Seq<SepaAccountSer> {
    match session {
        Some(s) => s.accounts@,
        None => Seq::empty(),
    }
}

/// The accounts that a session knows.
pub fn session_accounts(session: Option<&SessionFile>) -> (r: Vec<SepaAccountSer>)
    ensures
        r@ == known_accounts(session),
{
    match session {
        Some(s) => {
            let r = s.accounts.clone();
            assert(r@ =~= s.accounts@);
            r
        },
        None => Vec::new(),
    }
}

/// The user that a command works for: the one given on the command line, else that of the
/// session.
pub open spec fn user_of(given: Option<&str>, session: Option<&SessionFile>) -> Option<Seq<char>> {
    match (given, session) {
        (Some(u), _) => Some(u@),
        (None, Some(s)) => Some(s.user_id@),
        (None, None) => None,
    }
}

/// The user that a command works for.
pub fn resolve_user_id(given: Option<&str>, session: Option<&SessionFile>) -> (r: Result<
    String,
    String,
>)
    ensures
        match user_of(given, session) {
            Some(user) => r is Ok && r->Ok_0@ == user,
            None => r is Err && r->Err_0@
                == "No user ID. Use --user or run 'fints-client setup' first."@,
        },
{
    match (given, session) {
        (Some(u), _) => Ok(u.to_owned()),
        (None, Some(s)) => Ok(s.user_id.clone()),
        (None, None) => Err(
            "No user ID. Use --user or run 'fints-client setup' first.".to_string(),
        ),
    }
}

/// The system identifier that a session goes on with.
pub open spec fn kept_system_id(session: Option<&SessionFile>) -> Option<Seq<char>> {
    match session {
        Some(s) => Some(s.system_id@),
        None => None,
    }
}

pub open spec fn system_id_view(id: Option<SystemId>) -> Option<Seq<char>> {
    match id {
        Some(id) => Some(id@),
        None => None,
    }
}

/// The system identifier that a session goes on with.
pub fn session_system_id(session: Option<&SessionFile>) -> (r: Option<SystemId>)
    ensures
        system_id_view(r) == kept_system_id(session),
{
    match session {
        Some(s) => Some(SystemId::new(s.system_id.clone())),
        None => None,
    }
}

/// A command goes on with the system identifier and the user that the session was built with.
pub proof fn law_session_is_gone_on_with(
    s: SessionFile,
    bank: ResolvedBank,
    user_id: Seq<char>,
    system_id: Seq<char>,
    challenge: ChallengeInfo,
    saved_at: Seq<char>,
)
    requires
        is_session_of(s, bank, user_id, system_id, challenge, saved_at),
    ensures
        kept_system_id(Some(&s)) == Some(system_id),
        user_of(None, Some(&s)) == Some(user_id),
{
}

// ---------------------------------------------------------------------------------------------
// Order
// ---------------------------------------------------------------------------------------------

/// No item stands before one of a smaller name.
pub open spec fn ordered_by_name<T>(s: Seq<(String, T)>) -> bool {
    forall|i: int, j: int|
        0 <= i < j < s.len() ==> !text::precedes((#[trigger] s[j]).0@, (#[trigger] s[i]).0@)
}

/// The number of leading items whose name is not greater than `name`, in an ordered sequence.
pub open spec fn place_of<T>(s: Seq<(String, T)>, name: Seq<char>) -> nat
    decreases s.len(),
{
    if s.len() > 0 && text::precedes(name, s.last().0@) {
        place_of(s.drop_last(), name)
    } else {
        s.len()
    }
}

/// The items in the order of their names; items of one name keep their order.
pub open spec fn sorted_by_name<T>(s: Seq<(String, T)>) -> Seq<(String, T)>
    decreases s.len(),
{
    if s.len() == 0 {
        s
    } else {
        let front = sorted_by_name(s.drop_last());
        front.insert(place_of(front, s.last().0@) as int, s.last())
    }
}

proof fn lemma_place<T>(s: Seq<(String, T)>, name: Seq<char>)
    ensures
        place_of(s, name) <= s.len(),
        forall|i: int|
            place_of(s, name) <= i < s.len() ==> text::precedes(name, (#[trigger] s[i]).0@),
        place_of(s, name) > 0 ==> !text::precedes(name, s[place_of(s, name) - 1].0@),
    decreases s.len(),
{
    if s.len() > 0 && text::precedes(name, s.last().0@) {
        lemma_place(s.drop_last(), name);
        assert forall|i: int| place_of(s, name) <= i < s.len() implies text::precedes(
            name,
            (#[trigger] s[i]).0@,
        ) by {
            if i < s.len() - 1 {
                assert(s[i] == s.drop_last()[i]);
            }
        }
    }
}

/// The items in the order of their names; items of one name keep their order.
pub fn sort_by_name<T>(items: Vec<(String, T)>) -> (r: Vec<(String, T)>)
    ensures
        r@ == sorted_by_name(items@),
{
    let mut rest = items;
    let mut out: Vec<(String, T)> = Vec::new();
    let ghost all = items@;
    let ghost mut n: int = 0;
    assert(all.take(0) =~= Seq::empty());
    assert(rest@ =~= all.skip(0));
    while rest.len() > 0
        invariant
            0 <= n <= all.len(),
            rest@ == all.skip(n),
            out@ == sorted_by_name(all.take(n)),
            n == all.len() - rest@.len(),
        decreases rest@.len(),
    {
        let item = rest.remove(0);
        let mut i: usize = out.len();
        assert(out@.take(i as int) =~= out@);
        while i > 0 && text::text_before(item.0.as_str(), out[i - 1].0.as_str())
            invariant
                i <= out@.len(),
                place_of(out@, item.0@) == place_of(out@.take(i as int), item.0@),
            ensures
                i == place_of(out@, item.0@),
            decreases i,
        {
            assert(out@.take(i as int).drop_last() =~= out@.take(i - 1));
            i -= 1;
        }
        proof {
            assert(all.take(n + 1).drop_last() =~= all.take(n));
            assert(rest@ =~= all.skip(n + 1));
            n = n + 1;
        }
        out.insert(i, item);
    }
    assert(all.take(n) =~= all);
    out
}

/// The items of one name, in their order.
pub open spec fn items_named<T>(s: Seq<(String, T)>, name: Seq<char>) -> Seq<(String, T)> {
    s.filter(|item: (String, T)| item.0@ == name)
}

proof fn lemma_none_named<T>(s: Seq<(String, T)>, name: Seq<char>)
    requires
        forall|i: int| 0 <= i < s.len() ==> (#[trigger] s[i]).0@ != name,
    ensures
        items_named(s, name) == Seq::<(String, T)>::empty(),
    decreases s.len(),
{
    reveal(Seq::filter);
    if s.len() > 0 {
        assert forall|i: int| 0 <= i < s.drop_last().len() implies (
        #[trigger] s.drop_last()[i]).0@ != name by {
            assert(s.drop_last()[i] == s[i]);
        }
        lemma_none_named(s.drop_last(), name);
        assert(s[s.len() - 1].0@ != name);
    }
}

proof fn lemma_insert_keeps_named<T>(s: Seq<(String, T)>, item: (String, T), name: Seq<char>)
    ensures
        items_named(s.insert(place_of(s, item.0@) as int, item), name) == items_named(
            s.push(item),
            name,
        ),
{
    let p = place_of(s, item.0@) as int;
    lemma_place(s, item.0@);
    let pred = |x: (String, T)| x.0@ == name;
    let front = s.take(p);
    let back = s.skip(p);
    let one = seq![item];
    assert(s =~= front + back);
    assert(s.insert(p, item) =~= front + one + back);
    assert(s.push(item) =~= front + back + one);
    Seq::filter_distributes_over_add(front + one, back, pred);
    Seq::filter_distributes_over_add(front, one, pred);
    Seq::filter_distributes_over_add(front + back, one, pred);
    Seq::filter_distributes_over_add(front, back, pred);
    if item.0@ == name {
        assert forall|i: int| 0 <= i < back.len() implies (#[trigger] back[i]).0@ != name by {
            assert(back[i] == s[p + i]);
            text::lemma_order_asymmetric(name, back[i].0@);
        }
        lemma_none_named(back, name);
    } else {
        assert(one[0].0@ != name);
        lemma_none_named(one, name);
    }
    assert(items_named(s.insert(p, item), name) =~= items_named(s.push(item), name));
}

/// Sorting puts the items in the order of their names, and the items of each name stay the same
/// and in the same order.
pub proof fn law_sorting_orders_and_keeps<T>(s: Seq<(String, T)>, name: Seq<char>)
    ensures
        ordered_by_name(sorted_by_name(s)),
        sorted_by_name(s).len() == s.len(),
        items_named(sorted_by_name(s), name) == items_named(s, name),
    decreases s.len(),
{
    if s.len() > 0 {
        let front = sorted_by_name(s.drop_last());
        let item = s.last();
        law_sorting_orders_and_keeps(s.drop_last(), name);
        lemma_place(front, item.0@);
        let p = place_of(front, item.0@) as int;
        let r = front.insert(p, item);
        assert forall|i: int, j: int| 0 <= i < j < r.len() implies !text::precedes(
            (#[trigger] r[j]).0@,
            (#[trigger] r[i]).0@,
        ) by {
            if i < p && j == p {
                if i < p - 1 {
                    assert(!text::precedes(front[p - 1].0@, front[i].0@));
                    text::lemma_order_transitive(front[i].0@, front[p - 1].0@, item.0@);
                }
            } else if i == p {
                assert(r[j] == front[j - 1]);
                text::lemma_order_asymmetric(item.0@, front[j - 1].0@);
            } else {
                let a = if i < p {
                    i
                } else {
                    i - 1
                };
                let b = if j < p {
                    j
                } else {
                    j - 1
                };
                assert(r[i] == front[a] && r[j] == front[b]);
            }
        }
        lemma_insert_keeps_named(front, item, name);
        let pred = |x: (String, T)| x.0@ == name;
        assert(s =~= s.drop_last() + seq![item]);
        assert(front.push(item) =~= front + seq![item]);
        Seq::filter_distributes_over_add(front, seq![item], pred);
        Seq::filter_distributes_over_add(s.drop_last(), seq![item], pred);
    }
}

/// No two items have one name.
pub open spec fn each_name_once<T>(s: Seq<(String, T)>) -> bool {
    forall|i: int, j: int|
        0 <= i < j < s.len() ==> (#[trigger] s[i]).0@ != (#[trigger] s[j]).0@
}

proof fn lemma_named_once<T>(s: Seq<(String, T)>, i: int)
    requires
        each_name_once(s),
        0 <= i < s.len(),
    ensures
        items_named(s, s[i].0@) == seq![s[i]],
{
    let name = s[i].0@;
    let pred = |x: (String, T)| x.0@ == name;
    let front = s.take(i);
    let one = seq![s[i]];
    let back = s.skip(i + 1);
    assert(s =~= front + one + back);
    Seq::filter_distributes_over_add(front + one, back, pred);
    Seq::filter_distributes_over_add(front, one, pred);
    assert forall|k: int| 0 <= k < front.len() implies (#[trigger] front[k]).0@ != name by {
        assert(front[k] == s[k]);
    }
    assert forall|k: int| 0 <= k < back.len() implies (#[trigger] back[k]).0@ != name by {
        assert(back[k] == s[i + 1 + k]);
    }
    lemma_none_named(front, name);
    lemma_none_named(back, name);
    lemma_one_named(s[i]);
    assert(items_named(s, name) =~= one);
}

proof fn lemma_one_named<T>(item: (String, T))
    ensures
        items_named(seq![item], item.0@) == seq![item],
{
    reveal(Seq::filter);
    let one = seq![item];
    assert(one.drop_last() =~= Seq::empty());
    assert(one.last() == item);
    assert(items_named(one.drop_last(), item.0@) =~= Seq::empty());
    assert(items_named(one, item.0@) =~= one);
}

proof fn lemma_named_twice<T>(s: Seq<(String, T)>, i: int, j: int)
    requires
        0 <= i < j < s.len(),
        s[i].0@ == s[j].0@,
    ensures
        items_named(s, s[i].0@).len() >= 2,
{
    let name = s[i].0@;
    let pred = |x: (String, T)| x.0@ == name;
    let a = s.take(i);
    let b = s.subrange(i + 1, j);
    let c = s.skip(j + 1);
    assert(s =~= a + seq![s[i]] + b + seq![s[j]] + c);
    Seq::filter_distributes_over_add(a + seq![s[i]] + b + seq![s[j]], c, pred);
    Seq::filter_distributes_over_add(a + seq![s[i]] + b, seq![s[j]], pred);
    Seq::filter_distributes_over_add(a + seq![s[i]], b, pred);
    Seq::filter_distributes_over_add(a, seq![s[i]], pred);
    lemma_one_named(s[i]);
    lemma_one_named(s[j]);
}

/// Where no two items have one name, sorting leaves each item there once, and each stands before
/// those of greater names.
pub proof fn law_sorting_keeps_each_name_once<T>(s: Seq<(String, T)>)
    requires
        each_name_once(s),
    ensures
        each_name_once(sorted_by_name(s)),
        ordered_by_name(sorted_by_name(s)),
        sorted_by_name(s).len() == s.len(),
        forall|i: int|
            0 <= i < s.len() ==> items_named(sorted_by_name(s), (#[trigger] s[i]).0@) == seq![s[i]],
{
    let r = sorted_by_name(s);
    law_sorting_orders_and_keeps(s, Seq::empty());
    assert forall|i: int| 0 <= i < s.len() implies items_named(r, (#[trigger] s[i]).0@)
        == seq![s[i]] by {
        law_sorting_orders_and_keeps(s, s[i].0@);
        lemma_named_once(s, i);
    }
    assert forall|i: int, j: int| 0 <= i < j < r.len() implies (#[trigger] r[i]).0@ != (
    #[trigger] r[j]).0@ by {
        if r[i].0@ == r[j].0@ {
            let name = r[i].0@;
            lemma_named_twice(r, i, j);
            law_sorting_orders_and_keeps(s, name);
            if forall|k: int| 0 <= k < s.len() ==> (#[trigger] s[k]).0@ != name {
                lemma_none_named(s, name);
            } else {
                let k = choose|k: int| 0 <= k < s.len() && (#[trigger] s[k]).0@ == name;
                lemma_named_once(s, k);
            }
        }
    }
}

// ---------------------------------------------------------------------------------------------
// List
// ---------------------------------------------------------------------------------------------

/// `kept` are the sessions in `files`, in their order: of the files that have the name of a
/// session's file and hold a session, each under the name of its session.
pub open spec fn holds_sessions<T>(files: Seq<(String, Option<T>)>, kept: Seq<(String, T)>) -> bool
    decreases files.len(),
{
    if files.len() == 0 {
        kept.len() == 0
    } else {
        match (session_of_file(files.last().0@), files.last().1) {
            (Some(name), Some(session)) => {
                &&& kept.len() > 0
                &&& kept.last().0@ == name
                &&& kept.last().1 == session
                &&& holds_sessions(files.drop_last(), kept.drop_last())
            },
            _ => holds_sessions(files.drop_last(), kept),
        }
    }
}

/// `listed` are the sessions in `files`, in the order of their names.
pub open spec fn is_session_list(
    files: Seq<(String, Option<SessionFile>)>,
    listed: Seq<(String, SessionFile)>,
) -> bool {
    exists|kept: Seq<(String, SessionFile)>| #[trigger]
        holds_sessions(files, kept) && listed == sorted_by_name(kept)
}

/// The sessions of a directory in the order of their names, from its files and what each holds;
/// a file that is not named like that of a session, or holds none, is passed over.
pub fn listed_sessions(files: Vec<(String, Option<SessionFile>)>) -> (r: Vec<
    (String, SessionFile),
>)
    ensures
        is_session_list(files@, r@),
{
    let ghost all = files@;
    let mut rest = files;
    let mut kept: Vec<(String, SessionFile)> = Vec::new();
    let ghost mut n: int = 0;
    assert(rest@ =~= all.skip(0));
    while rest.len() > 0
        invariant
            0 <= n <= all.len(),
            rest@ == all.skip(n),
            n == all.len() - rest@.len(),
            holds_sessions(all.take(n), kept@),
        decreases rest@.len(),
    {
        let ghost before = kept@;
        let (file, session) = rest.remove(0);
        proof {
            assert(all.take(n + 1).drop_last() =~= all.take(n));
            assert(all.take(n + 1).last() == (file, session));
            assert(rest@ =~= all.skip(n + 1));
            n = n + 1;
        }
        if let (Some(name), Some(s)) = (session_name_of_file(file.as_str()), session) {
            kept.push((name, s));
            assert(kept@.drop_last() =~= before);
        }
    }
    assert(all.take(n) =~= all);
    sort_by_name(kept)
}

/// The list of sessions names exactly the files that are named like that of a session and hold
/// one, and is in the order of the names.
pub proof fn law_list_has_every_session<T>(files: Seq<(String, Option<T>)>, kept: Seq<(String, T)>)
    requires
        holds_sessions(files, kept),
    ensures
        ordered_by_name(sorted_by_name(kept)),
        sorted_by_name(kept).len() == kept.len(),
        forall|name: Seq<char>| #[trigger]
            items_named(sorted_by_name(kept), name).len() > 0 <==> exists|i: int|
                0 <= i < files.len() && session_of_file((#[trigger] files[i]).0@) == Some(name)
                    && files[i].1 is Some,
{
    law_sorting_orders_and_keeps(kept, Seq::empty());
    assert forall|name: Seq<char>| #[trigger]
        items_named(sorted_by_name(kept), name).len() > 0 <==> exists|i: int|
            0 <= i < files.len() && session_of_file((#[trigger] files[i]).0@) == Some(name)
                && files[i].1 is Some by {
        law_sorting_orders_and_keeps(kept, name);
        lemma_kept_names(files, kept, name);
    }
}

proof fn lemma_kept_names<T>(files: Seq<(String, Option<T>)>, kept: Seq<(String, T)>, name: Seq<char>)
    requires
        holds_sessions(files, kept),
    ensures
        items_named(kept, name).len() > 0 <==> exists|i: int|
            0 <= i < files.len() && session_of_file((#[trigger] files[i]).0@) == Some(name)
                && files[i].1 is Some,
    decreases files.len(),
{
    reveal(Seq::filter);
    if files.len() > 0 {
        let front = files.drop_last();
        let n = files.len() - 1;
        assert(forall|i: int| 0 <= i < n ==> #[trigger] front[i] == files[i]);
        assert(forall|i: int| 0 <= i < n ==> #[trigger] files[i] == front[i]);
        match (session_of_file(files.last().0@), files.last().1) {
            (Some(found), Some(_)) => {
                lemma_kept_names(front, kept.drop_last(), name);
                if found == name {
                    assert(session_of_file(files[n].0@) == Some(name) && files[n].1 is Some);
                }
            },
            _ => {
                lemma_kept_names(front, kept, name);
            },
        }
    }
}

// ---------------------------------------------------------------------------------------------
// What a session is
// ---------------------------------------------------------------------------------------------

/// A session keeps every property of a TAN method.
pub proof fn law_method_is_kept(m: TanMethod)
    ensures
        saved_method(m).security_function@ == m.security_function@,
        saved_method(m).name == m.name,
        saved_method(m).is_decoupled == m.is_decoupled,
        saved_method(m).wait_before_first_poll == m.wait_before_first_poll,
        saved_method(m).wait_before_next_poll == m.wait_before_next_poll,
        saved_method(m).decoupled_max_polls == m.decoupled_max_polls,
        saved_method(m).hktan_version == m.hktan_version,
        saved_method(m).needs_tan_medium == m.needs_tan_medium,
{
}

/// A session keeps every property of an account.
pub proof fn law_account_data_is_kept(a: SepaAccount)
    ensures
        saved_account(a).iban@ == a.iban@,
        saved_account(a).bic@ == a.bic@,
        saved_account(a).account_number == a.account_number,
        saved_account(a).blz@ == a.blz@,
        saved_account(a).owner == a.owner,
        saved_account(a).product_name == a.product_name,
        saved_account(a).currency == a.currency,
{
}

/// A session has the identifiers and the address of its bank, its user, its system identifier, the
/// time at which it was saved, and every TAN method that the bank named, in the same order.
pub proof fn law_what_a_session_holds(
    s: SessionFile,
    bank: ResolvedBank,
    user_id: Seq<char>,
    system_id: Seq<char>,
    challenge: ChallengeInfo,
    saved_at: Seq<char>,
    i: int,
)
    requires
        is_session_of(s, bank, user_id, system_id, challenge, saved_at),
    ensures
        s.version == 1,
        s.bank_id@ == bank.blz@,
        s.bank_url@ == bank.url@,
        s.blz@ == bank.blz@,
        s.user_id@ == user_id,
        s.system_id@ == system_id,
        s.saved_at@ == saved_at,
        s.operation_tan_required@.len() == 0,
        s.tan_methods@.len() == challenge.tan_methods@.len(),
        0 <= i < challenge.tan_methods@.len() ==> {
            let kept = s.tan_methods@[i];
            let named = challenge.tan_methods@[i];
            &&& kept.security_function@ == named.security_function@
            &&& kept.name == named.name
            &&& kept.is_decoupled == named.is_decoupled
            &&& kept.wait_before_first_poll == named.wait_before_first_poll
            &&& kept.wait_before_next_poll == named.wait_before_next_poll
            &&& kept.decoupled_max_polls == named.decoupled_max_polls
            &&& kept.hktan_version == named.hktan_version
            &&& kept.needs_tan_medium == named.needs_tan_medium
        },
{
}

/// After the setup the first security function that the bank allows is selected, and the function
/// 999 where it allows none.
pub proof fn law_selected_function(challenge: ChallengeInfo)
    ensures
        challenge.allowed_security_functions@.len() > 0 ==> first_function(challenge)
            == challenge.allowed_security_functions@.first()@,
        challenge.allowed_security_functions@.len() == 0 ==> first_function(challenge) == "999"@,
{
}

/// A session that goes on with another one keeps its accounts, its versions and its security
/// function, and one that goes on with none starts without accounts.
pub proof fn law_what_is_gone_on_with(r: SessionFile, existing: Option<SessionFile>)
    requires
        continues(r, existing),
    ensures
        existing matches Some(s) ==> r.accounts@ == s.accounts@ && r.bpd_version == s.bpd_version
            && r.upd_version == s.upd_version && r.selected_security_function@
            == s.selected_security_function@,
        existing is None ==> r.accounts@.len() == 0 && r.bpd_version == 0 && r.upd_version == 0
            && r.selected_security_function@ == "999"@,
{
}

/// The user of the command line comes first, then that of the session; without either there is
/// none. The system identifier and the accounts are those of the session.
pub proof fn law_whose_session(given: Option<&str>, session: Option<&SessionFile>)
    ensures
        given is Some ==> user_of(given, session) == Some(given->0@),
        given is None && session is Some ==> user_of(given, session) == Some(session->0.user_id@),
        given is None && session is None ==> user_of(given, session) is None,
        session is Some ==> kept_system_id(session) == Some(session->0.system_id@)
            && known_accounts(session) == session->0.accounts@,
        session is None ==> kept_system_id(session) is None && known_accounts(session).len() == 0,
{
}

/// A path is joined to a directory with one `/` between them, unless it is absolute.
pub proof fn law_joined_paths(base: Seq<char>, rest: Seq<char>)
    ensures
        rest.len() > 0 && rest[0] == '/' ==> joined_path(base, rest) == rest,
        base.len() > 0 && base.last() != '/' && (rest.len() == 0 || rest[0] != '/') ==> joined_path(
            base,
            rest,
        ) == base + seq!['/'] + rest,
        base.len() > 0 && base.last() == '/' && (rest.len() == 0 || rest[0] != '/') ==> joined_path(
            base,
            rest,
        ) == base + rest,
        base.len() == 0 ==> joined_path(base, rest) == rest,
{
    if base.len() > 0 && base.last() != '/' && (rest.len() == 0 || rest[0] != '/') {
        assert(joined_path(base, rest) =~= base + seq!['/'] + rest);
    }
    if base.len() == 0 {
        assert(joined_path(base, rest) =~= rest);
    }
}

/// The sessions lie in the directory of the command line, else in that of the environment, else in
/// `.config/fints/sessions` under the home directory.
pub proof fn law_where_sessions_lie(
    given: Option<Seq<char>>,
    env_dir: Option<Seq<char>>,
    home: Option<Seq<char>>,
)
    ensures
        given is Some ==> session_dir(given, env_dir, home) == given->0,
        given is None && env_dir is Some ==> session_dir(given, env_dir, home) == env_dir->0,
        given is None && env_dir is None && home is Some && home->0.len() > 0 && home->0.last()
            != '/' ==> session_dir(given, env_dir, home) == home->0 + "/.config/fints/sessions"@,
        given is None && env_dir is None && home is None ==> session_dir(given, env_dir, home)
            == "./.config/fints/sessions"@,
{
    reveal_strlit(".config");
    reveal_strlit("fints");
    reveal_strlit("sessions");
    reveal_strlit("/.config/fints/sessions");
    reveal_strlit("./.config/fints/sessions");
    reveal_strlit(".");
    if given is None && env_dir is None {
        let base = match home {
            Some(dir) => dir,
            None => "."@,
        };
        if base.len() > 0 && base.last() != '/' {
            let a = joined_path(base, ".config"@);
            assert(a =~= base + seq!['/'] + ".config"@);
            assert(a.last() == ".config"@.last());
            let b = joined_path(a, "fints"@);
            assert(b =~= a + seq!['/'] + "fints"@);
            assert(b.last() == "fints"@.last());
            let c = joined_path(b, "sessions"@);
            assert(c =~= b + seq!['/'] + "sessions"@);
            assert(c =~= base + "/.config/fints/sessions"@);
            if home is None {
                assert("./.config/fints/sessions"@ =~= "."@ + "/.config/fints/sessions"@);
            }
        }
    }
}

/// A file of the session directory is that of a session exactly where its name is that of the
/// session and `.json` behind it.
pub proof fn law_files_of_sessions(file: Seq<char>, dir: Seq<char>, name: Seq<char>)
    ensures
        session_of_file(file) matches Some(n) ==> n.len() > 0 && file == n + ".json"@,
        session_of_file(file) is None ==> !(name.len() > 0 && file == name + ".json"@),
        session_file(dir, name) == joined_path(dir, name + ".json"@),
{
    if session_of_file(file) is Some {
        let n = session_of_file(file)->0;
        assert(file =~= n + ".json"@);
    }
    if name.len() > 0 && file == name + ".json"@ {
        law_session_name_is_read_back(name);
    }
}

/// Each listed session is the one that its file holds.
pub proof fn law_list_has_what_the_files_hold<T>(
    files: Seq<(String, Option<T>)>,
    kept: Seq<(String, T)>,
    k: int,
)
    requires
        holds_sessions(files, kept),
        0 <= k < kept.len(),
    ensures
        exists|i: int|
            0 <= i < files.len() && (#[trigger] files[i]).0@ == kept[k].0@ + ".json"@ && files[i].1
                == Some(kept[k].1),
    decreases files.len(),
{
    if files.len() > 0 {
        let front = files.drop_last();
        let n = files.len() - 1;
        law_files_of_sessions(files[n].0@, Seq::empty(), Seq::empty());
        match (session_of_file(files.last().0@), files.last().1) {
            (Some(_), Some(_)) => {
                if k == kept.len() - 1 {
                    assert(files[n].0@ == kept[k].0@ + ".json"@);
                } else {
                    law_list_has_what_the_files_hold(front, kept.drop_last(), k);
                    let i = choose|i: int|
                        0 <= i < front.len() && (#[trigger] front[i]).0@ == kept[k].0@ + ".json"@
                            && front[i].1 == Some(kept[k].1);
                    assert(files[i] == front[i]);
                }
            },
            _ => {
                law_list_has_what_the_files_hold(front, kept, k);
                let i = choose|i: int|
                    0 <= i < front.len() && (#[trigger] front[i]).0@ == kept[k].0@ + ".json"@
                        && front[i].1 == Some(kept[k].1);
                assert(files[i] == front[i]);
            },
        }
    }
}

/// A session has the name of the command line, else the BLZ of its bank. With `--no-persist` it
/// goes into a token, and else under its name onto the disk.
pub proof fn law_where_a_session_goes(
    given: Option<Seq<char>>,
    bank: ResolvedBank,
    no_persist: bool,
    name: String,
)
    ensures
        given is Some ==> name_of_session(given, bank) == given->0,
        given is None ==> name_of_session(given, bank) == bank.blz@,
        no_persist <==> place_of_session(no_persist, name) is Token,
        !no_persist ==> place_of_session(no_persist, name) == SessionPlace::Saved(name),
{
}

/// A list of sessions is in the order of the names, and has every file that is named like that of a
/// session and holds one, under the name of the session.
pub proof fn law_list_of_sessions(
    files: Seq<(String, Option<SessionFile>)>,
    listed: Seq<(String, SessionFile)>,
    name: Seq<char>,
)
    requires
        is_session_list(files, listed),
    ensures
        ordered_by_name(listed),
        items_named(listed, name).len() > 0 <==> exists|i: int|
            0 <= i < files.len() && (#[trigger] files[i]).0@ == name + ".json"@ && name.len() > 0
                && files[i].1 is Some,
{
    let kept = choose|kept: Seq<(String, SessionFile)>| #[trigger]
        holds_sessions(files, kept) && listed == sorted_by_name(kept);
    law_list_has_every_session(files, kept);
    if exists|i: int|
        0 <= i < files.len() && (#[trigger] files[i]).0@ == name + ".json"@ && name.len() > 0
            && files[i].1 is Some {
        let i = choose|i: int|
            0 <= i < files.len() && (#[trigger] files[i]).0@ == name + ".json"@ && name.len() > 0
                && files[i].1 is Some;
        law_session_name_is_read_back(name);
        assert(session_of_file(files[i].0@) == Some(name));
    }
    if items_named(listed, name).len() > 0 {
        let i = choose|i: int|
            0 <= i < files.len() && session_of_file((#[trigger] files[i]).0@) == Some(name)
                && files[i].1 is Some;
        law_files_of_sessions(files[i].0@, Seq::empty(), Seq::empty());
        assert(files[i].0@ == name + ".json"@);
    }
}

/// A session that is missing is reported with its file and with how to get one.
pub proof fn law_missing_session_is_named(path: Seq<char>)
    ensures
        exists|a: Seq<char>, b: Seq<char>|
            missing_message(path) == #[trigger] (a + path + b) && a == "No session found at "@ && b
                == ". Run 'fints-client setup' first."@,
{
    assert(missing_message(path) == "No session found at "@ + path
        + ". Run 'fints-client setup' first."@);
}

} // verus!
