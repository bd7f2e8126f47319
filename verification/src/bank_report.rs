//! What the client prints of a bank's parameters: the overview of `inspect` and the findings of
//! `audit`.
use vstd::prelude::*;

use crate::banks;
use crate::banks::BankRegistry;
use crate::iban;
use crate::overview;
use crate::selection::ResolvedBank;
use crate::session;
use crate::text;
use crate::types::{BankParams, SepaAccount, SystemId, TanMethod};

verus! {

// ---------------------------------------------------------------------------------------------
// Inspect
// ---------------------------------------------------------------------------------------------

/// The user that `inspect` works for.
pub fn inspect_user(given: Option<&str>) -> (r: Result<String, String>)
    ensures
        match given {
            Some(u) => r is Ok && r->Ok_0@ == u@,
            None => r is Err && r->Err_0@ == "No user ID. Use --user <id>"@,
        },
{
    match given {
        Some(u) => Ok(u.to_owned()),
        None => Err("No user ID. Use --user <id>".to_string()),
    }
}

/// Bank, user and system identifier, which is cut to 24 bytes.
pub open spec fn inspect_heading(
    bank: ResolvedBank,
    user: Seq<char>,
    system_id: SystemId,
    bpd_version: nat,
) -> Seq<char> {
    "\nBLZ:        "@ + bank.blz@ + "\nBank:       "@ + bank.name@ + "\nURL:        "@ + bank.url@
        + "\nUser:       "@ + user + "\nSystem ID:  "@ + text::cut(system_id@, 24) + " ("@
        + overview::assignment(system_id.assigned()) + ")\n\nBPD version: "@ + text::decimal(
        bpd_version,
    ) + "\n"@
}

/// One parameter segment.
pub open spec fn segment_text(s: (String, u16)) -> Seq<char> {
    s.0@ + "(v"@ + text::decimal(s.1 as nat) + ")"@
}

/// The parameter segments, on one line.
pub open spec fn segments_text(segments: Seq<(String, u16)>) -> Seq<char> {
    if segments.len() == 0 {
        ""@
    } else {
        "Segments: "@ + text::joined(
            segments.map_values(|s: (String, u16)| segment_text(s)),
            ", "@,
        ) + "\n"@
    }
}

fn segment_list(segments: &Vec<(String, u16)>) -> (r: String)
    ensures
        r@ == segments_text(segments@),
{
    if segments.len() == 0 {
        return "".to_string();
    }
    let ghost one = |s: (String, u16)| segment_text(s);
    let ghost all = segments@.map_values(one);
    let mut list = String::new();
    let mut i: usize = 0;
    while i < segments.len()
        invariant
            i <= segments@.len(),
            one == (|s: (String, u16)| segment_text(s)),
            all == segments@.map_values(one),
            list@ == text::joined(all.take(i as int), ", "@),
        decreases segments@.len() - i,
    {
        let s = &segments[i];
        let mut item = s.0.clone();
        item.append("(v");
        text::push_decimal(&mut item, s.1 as u128);
        item.append(")");
        assert(item@ == all[i as int]);
        if i > 0 {
            list.append(", ");
        }
        let ghost before = list@;
        list.append(item.as_str());
        proof {
            assert(all.take(i + 1).drop_last() =~= all.take(i as int));
            assert(all.take(i + 1).last() == item@);
            if i == 0 {
                assert(list@ =~= item@);
            }
        }
        i += 1;
    }
    assert(all.take(i as int) =~= all);
    let mut out = "Segments: ".to_string();
    out.append(list.as_str());
    out.append("\n");
    out
}

/// One TAN method of a bank.
pub open spec fn bank_method_line(m: TanMethod) -> Seq<char> {
    overview::method_line(
        m.security_function@,
        m.name@,
        m.is_decoupled,
        m.wait_before_next_poll as int,
        m.decoupled_max_polls as int,
    )
}

fn method_list(methods: &Vec<TanMethod>) -> (r: String)
    ensures
        r@ == text::lines_of(methods@, |m: TanMethod| bank_method_line(m)),
{
    let mut out = String::new();
    let ghost line = |m: TanMethod| bank_method_line(m);
    assert(methods@.take(0) =~= Seq::empty());
    let mut i: usize = 0;
    while i < methods.len()
        invariant
            i <= methods@.len(),
            line == (|m: TanMethod| bank_method_line(m)),
            out@ == text::lines_of(methods@.take(i as int), line),
        decreases methods@.len() - i,
    {
        let m = &methods[i];
        let row = overview::method_text(
            m.security_function.as_str(),
            m.name.as_str(),
            m.is_decoupled,
            m.wait_before_next_poll,
            m.decoupled_max_polls,
        );
        out.append(row.as_str());
        proof {
            text::lemma_lines_step(methods@, line, i as int);
        }
        i += 1;
    }
    assert(methods@.take(i as int) =~= methods@);
    out
}

/// One account of a bank, with what is wrong with its IBAN where it is invalid.
pub open spec fn bank_account_line(a: SepaAccount) -> Seq<char> {
    match iban::validated_iban(a.iban@) {
        Ok(_) => "  "@ + iban::displayed_iban(a.iban@) + overview::product_text(
            a.product_name,
            a.currency,
        ),
        Err(e) => "  "@ + a.iban@ + " [IBAN invalid: "@ + e + "]"@ + overview::product_text(
            a.product_name,
            a.currency,
        ),
    }
}

/// The accounts of a bank.
pub open spec fn bank_accounts_text(accounts: Seq<SepaAccount>) -> Seq<char> {
    if accounts.len() == 0 {
        ""@
    } else {
        "\nAccounts ("@ + text::decimal(accounts.len()) + "):\n"@ + text::lines_of(
            accounts,
            |a: SepaAccount| bank_account_line(a),
        )
    }
}

fn account_row(a: &SepaAccount) -> (r: String)
    ensures
        r@ == bank_account_line(*a),
{
    let mut out = "  ".to_string();
    match iban::validate_iban(a.iban.as_str()) {
        Ok(_) => {
            out.append(iban::format_iban_display(a.iban.as_str()).as_str());
        },
        Err(e) => {
            out.append(a.iban.as_str());
            out.append(" [IBAN invalid: ");
            out.append(e.as_str());
            out.append("]");
        },
    }
    out.append(overview::product_of(&a.product_name, &a.currency).as_str());
    out
}

fn accounts_list(accounts: &Vec<SepaAccount>) -> (r: String)
    ensures
        r@ == bank_accounts_text(accounts@),
{
    if accounts.len() == 0 {
        return "".to_string();
    }
    let mut out = "\nAccounts (".to_string();
    text::push_decimal(&mut out, accounts.len() as u128);
    out.append("):\n");
    let ghost head = out@;
    let ghost line = |a: SepaAccount| bank_account_line(a);
    assert(accounts@.take(0) =~= Seq::empty());
    assert(out@ =~= head + text::lines_of(accounts@.take(0), line));
    let mut i: usize = 0;
    while i < accounts.len()
        invariant
            i <= accounts@.len(),
            line == (|a: SepaAccount| bank_account_line(a)),
            out@ == head + text::lines_of(accounts@.take(i as int), line),
        decreases accounts@.len() - i,
    {
        let row = account_row(&accounts[i]);
        out.append(row.as_str());
        proof {
            text::lemma_lines_step(accounts@, line, i as int);
            assert(out@ =~= head + text::lines_of(accounts@.take(i + 1), line));
        }
        i += 1;
    }
    assert(accounts@.take(i as int) =~= accounts@);
    out
}

/// What a bank offers, in full.
pub open spec fn inspect_text(
    bank: ResolvedBank,
    user: Seq<char>,
    system_id: SystemId,
    params: BankParams,
) -> Seq<char> {
    inspect_heading(bank, user, system_id, params.bpd_version as nat) + segments_text(
        params.bpd_segments@,
    ) + "\nTAN methods ("@ + text::decimal(params.tan_methods@.len()) + "):\n"@ + text::lines_of(
        params.tan_methods@,
        |m: TanMethod| bank_method_line(m),
    ) + overview::operations_text(params.operation_tan_required@) + bank_accounts_text(
        params.accounts_from_upd@,
    )
}

/// What a bank offers, in full.
pub fn bank_inspect(
    bank: &ResolvedBank,
    user: &str,
    system_id: &SystemId,
    params: &BankParams,
) -> (r: String)
    requires
        text::cuttable(system_id@, 24),
    ensures
        r@ == inspect_text(*bank, user@, *system_id, *params),
{
    let mut out = "\nBLZ:        ".to_string();
    out.append(bank.blz.as_str());
    out.append("\nBank:       ");
    out.append(bank.name.as_str());
    out.append("\nURL:        ");
    out.append(bank.url.as_str());
    out.append("\nUser:       ");
    out.append(user);
    out.append("\nSystem ID:  ");
    out.append(text::cut_text(system_id.as_str(), 24));
    out.append(" (");
    out.append(overview::assignment_text(system_id.is_assigned()));
    out.append(")\n\nBPD version: ");
    text::push_decimal(&mut out, params.bpd_version as u128);
    out.append("\n");
    out.append(segment_list(&params.bpd_segments).as_str());
    out.append("\nTAN methods (");
    text::push_decimal(&mut out, params.tan_methods.len() as u128);
    out.append("):\n");
    out.append(method_list(&params.tan_methods).as_str());
    out.append(overview::operations(&params.operation_tan_required).as_str());
    out.append(accounts_list(&params.accounts_from_upd).as_str());
    out
}

// ---------------------------------------------------------------------------------------------
// Audit
// ---------------------------------------------------------------------------------------------

/// What to audit, and for whom.
#[derive(Debug)]
pub struct AuditTarget {
    pub blz: String,
    pub url: String,
    pub user: String,
}

/// The first of two optional texts that is there.
pub open spec fn either(a: Option<Seq<char>>, b: Option<Seq<char>>) -> Option<Seq<char>> {
    match a {
        Some(s) => Some(s),
        None => b,
    }
}

fn first_of<'a>(a: Option<&'a str>, b: Option<&'a str>) -> (r: Option<&'a str>)
    ensures
        session::str_view(r) == either(session::str_view(a), session::str_view(b)),
{
    match a {
        Some(s) => Some(s),
        None => b,
    }
}

/// The address of the bank with the BLZ `blz`.
pub open spec fn registered_url(known: Seq<banks::BankConfig>, blz: Seq<char>) -> Option<Seq<char>> {
    match banks::bank_with_blz(known, blz) {
        Some(b) => Some(b.url@),
        None => None,
    }
}

/// The BLZ, the address and the user of an audit, or what is missing.
pub open spec fn audited(
    known: Seq<banks::BankConfig>,
    own_blz: Option<Seq<char>>,
    global_blz: Option<Seq<char>>,
    own_url: Option<Seq<char>>,
    global_url: Option<Seq<char>>,
    own_user: Option<Seq<char>>,
    global_user: Option<Seq<char>>,
) -> Result<(Seq<char>, Seq<char>, Seq<char>), Seq<char>> {
    match either(own_blz, global_blz) {
        None => Err("No BLZ specified. Use audit --blz <blz> or global --blz"@),
        Some(blz) => match either(either(own_url, global_url), registered_url(known, blz)) {
            None => Err("No URL. Use audit --url <url> or --bank <id>"@),
            Some(url) => match either(own_user, global_user) {
                None => Err("No user ID. Use audit --user or global --user"@),
                Some(user) => Ok((blz, url, user)),
            },
        },
    }
}

/// What an audit is about: its own arguments come before the global ones, and the registry comes
/// last for the address.
pub fn audit_target(
    registry: &BankRegistry,
    own_blz: Option<&str>,
    global_blz: Option<&str>,
    own_url: Option<&str>,
    global_url: Option<&str>,
    own_user: Option<&str>,
    global_user: Option<&str>,
) -> (r: Result<AuditTarget, String>)
    ensures
        match audited(
            registry@,
            session::str_view(own_blz),
            session::str_view(global_blz),
            session::str_view(own_url),
            session::str_view(global_url),
            session::str_view(own_user),
            session::str_view(global_user),
        ) {
            Ok((blz, url, user)) => r is Ok && r->Ok_0.blz@ == blz && r->Ok_0.url@ == url
                && r->Ok_0.user@ == user,
            Err(message) => r is Err && r->Err_0@ == message,
        },
{
    let blz = match first_of(own_blz, global_blz) {
        Some(blz) => blz,
        None => {
            return Err("No BLZ specified. Use audit --blz <blz> or global --blz".to_string());
        },
    };
    let url = match first_of(own_url, global_url) {
        Some(url) => url.to_owned(),
        None => match banks::bank_by_blz(registry, blz) {
            Some(b) => b.url.as_str().to_owned(),
            None => {
                return Err("No URL. Use audit --url <url> or --bank <id>".to_string());
            },
        },
    };
    let user = match first_of(own_user, global_user) {
        Some(user) => user.to_owned(),
        None => {
            return Err("No user ID. Use audit --user or global --user".to_string());
        },
    };
    Ok(AuditTarget { blz: blz.to_owned(), url, user })
}

/// Some decoupled method lacks the waiting times that polling needs.
pub open spec fn lacks_poll_timing(methods: Seq<TanMethod>) -> bool {
    exists|i: int|
        0 <= i < methods.len() && (#[trigger] methods[i]).is_decoupled && !(
        methods[i].wait_before_first_poll > 0 && methods[i].wait_before_next_poll > 0)
}

fn misses_poll_timing(methods: &Vec<TanMethod>) -> (r: bool)
    ensures
        r == lacks_poll_timing(methods@),
{
    let mut i: usize = 0;
    while i < methods.len()
        invariant
            i <= methods@.len(),
            forall|j: int|
                0 <= j < i ==> ((#[trigger] methods@[j]).is_decoupled ==> (
                methods@[j].wait_before_first_poll > 0 && methods@[j].wait_before_next_poll > 0)),
        decreases methods@.len() - i,
    {
        let m = &methods[i];
        if m.is_decoupled && !(m.wait_before_first_poll > 0 && m.wait_before_next_poll > 0) {
            assert(methods@[i as int].is_decoupled);
            return true;
        }
        i += 1;
    }
    false
}

/// The number of findings: no TAN methods, no version of the bank parameters, a decoupled method
/// without waiting times.
pub open spec fn audit_warnings(params: BankParams) -> nat {
    let none = if params.tan_methods@.len() == 0 {
        1nat
    } else {
        0nat
    };
    let unversioned = if params.bpd_version == 0 {
        1nat
    } else {
        0nat
    };
    let untimed = if lacks_poll_timing(params.tan_methods@) {
        1nat
    } else {
        0nat
    };
    none + unversioned + untimed
}

/// What an audit found once the first dialog has ended.
pub open spec fn audit_text(system_id: SystemId, params: BankParams) -> Seq<char> {
    "  System ID:            "@ + (if system_id.assigned() {
        "OK (assigned)"@
    } else {
        "OK (unassigned)"@
    }) + "\n  BPD presence:         "@ + (if params.bpd_version > 0 {
        "OK (v"@ + text::decimal(params.bpd_version as nat) + ")"@
    } else {
        "WARN: no BPD version found"@
    }) + "\n  TAN methods:          "@ + (if params.tan_methods@.len() > 0 {
        "OK ("@ + text::decimal(params.tan_methods@.len()) + " methods)"@
    } else {
        "WARN: no TAN methods"@
    }) + "\n  HITANS format:        "@ + (if lacks_poll_timing(params.tan_methods@) {
        "WARN: decoupled TAN methods missing poll timing params"@
    } else {
        "OK"@
    }) + "\n\n  Total: 0 errors, "@ + text::decimal(audit_warnings(params)) + " warnings\n"@
}

/// What an audit found once the first dialog has ended.
pub fn audit_report(system_id: &SystemId, params: &BankParams) -> (r: String)
    ensures
        r@ == audit_text(*system_id, *params),
{
    let untimed = misses_poll_timing(&params.tan_methods);
    let mut warnings: u128 = 0;
    let version = if params.bpd_version > 0 {
        let mut t = "OK (v".to_string();
        text::push_decimal(&mut t, params.bpd_version as u128);
        t.append(")");
        t
    } else {
        warnings += 1;
        "WARN: no BPD version found".to_string()
    };
    let methods = if params.tan_methods.len() > 0 {
        let mut t = "OK (".to_string();
        text::push_decimal(&mut t, params.tan_methods.len() as u128);
        t.append(" methods)");
        t
    } else {
        warnings += 1;
        "WARN: no TAN methods".to_string()
    };
    if untimed {
        warnings += 1;
    }
    let mut out = "  System ID:            ".to_string();
    out.append(
        if system_id.is_assigned() {
            "OK (assigned)"
        } else {
            "OK (unassigned)"
        },
    );
    out.append("\n  BPD presence:         ");
    out.append(version.as_str());
    out.append("\n  TAN methods:          ");
    out.append(methods.as_str());
    out.append("\n  HITANS format:        ");
    out.append(
        if untimed {
            "WARN: decoupled TAN methods missing poll timing params"
        } else {
            "OK"
        },
    );
    out.append("\n\n  Total: 0 errors, ");
    text::push_decimal(&mut out, warnings);
    out.append(" warnings\n");
    out
}

/// What an audit found where the first dialog failed with the message `message`.
pub open spec fn failure_text(message: Seq<char>) -> Seq<char> {
    "FAIL: "@ + message + "\n\n  Total: 1 error, 0 warnings\n"@
}

/// What an audit found where the first dialog failed with the message `message`.
pub fn audit_failure(message: &str) -> (r: String)
    ensures
        r@ == failure_text(message@),
{
    let mut out = "FAIL: ".to_string();
    out.append(message);
    out.append("\n\n  Total: 1 error, 0 warnings\n");
    out
}

/// An audit has at most three findings, and none exactly where the bank has TAN methods, states
/// the version of its parameters, and gives the waiting times of every decoupled method.
pub proof fn law_audit_warnings(params: BankParams)
    ensures
        audit_warnings(params) <= 3,
        audit_warnings(params) == 0 <==> params.tan_methods@.len() > 0 && params.bpd_version > 0
            && forall|i: int|
            0 <= i < params.tan_methods@.len() && (
            #[trigger] params.tan_methods@[i]).is_decoupled
                ==> params.tan_methods@[i].wait_before_first_poll > 0
                && params.tan_methods@[i].wait_before_next_poll > 0,
{
}

/// An audit takes its own BLZ, address and user before the global ones. Where no address is given
/// it takes that of the known bank with its BLZ. What is missing is an error: first the BLZ, then
/// the address, then the user.
pub proof fn law_what_is_audited(
    known: Seq<banks::BankConfig>,
    own_blz: Option<Seq<char>>,
    global_blz: Option<Seq<char>>,
    own_url: Option<Seq<char>>,
    global_url: Option<Seq<char>>,
    own_user: Option<Seq<char>>,
    global_user: Option<Seq<char>>,
)
    ensures
        ({
            let r = audited(
                known,
                own_blz,
                global_blz,
                own_url,
                global_url,
                own_user,
                global_user,
            );
            &&& own_blz is None && global_blz is None ==> r == Err::<
                (Seq<char>, Seq<char>, Seq<char>),
                Seq<char>,
            >("No BLZ specified. Use audit --blz <blz> or global --blz"@)
            &&& r matches Ok((blz, url, user)) ==> {
                &&& own_blz is Some ==> blz == own_blz->0
                &&& own_blz is None ==> global_blz == Some(blz)
                &&& own_url is Some ==> url == own_url->0
                &&& own_url is None && global_url is Some ==> url == global_url->0
                &&& own_url is None && global_url is None ==> banks::bank_with_blz(known, blz)
                    is Some && url == banks::bank_with_blz(known, blz)->0.url@
                &&& own_user is Some ==> user == own_user->0
                &&& own_user is None ==> global_user == Some(user)
            }
            &&& (own_blz is Some || global_blz is Some) && (own_url is Some || global_url is Some)
                && (own_user is Some || global_user is Some) ==> r is Ok
            &&& (own_blz is Some || global_blz is Some) && (own_url is Some || global_url is Some)
                && own_user is None && global_user is None ==> r == Err::<
                (Seq<char>, Seq<char>, Seq<char>),
                Seq<char>,
            >("No user ID. Use audit --user or global --user"@)
            &&& own_blz is Some && own_url is None && global_url is None && banks::bank_with_blz(
                known,
                own_blz->0,
            ) is None ==> r == Err::<(Seq<char>, Seq<char>, Seq<char>), Seq<char>>(
                "No URL. Use audit --url <url> or --bank <id>"@,
            )
        }),
{
}

/// An audit counts a warning for each of three findings: no TAN methods, no version of the bank
/// parameters, and a decoupled method without waiting times.
pub proof fn law_count_of_warnings(params: BankParams)
    ensures
        ({
            let untimed = exists|i: int|
                0 <= i < params.tan_methods@.len() && (
                #[trigger] params.tan_methods@[i]).is_decoupled && (
                params.tan_methods@[i].wait_before_first_poll <= 0
                    || params.tan_methods@[i].wait_before_next_poll <= 0);
            let count = |b: bool|
                if b {
                    1int
                } else {
                    0int
                };
            &&& lacks_poll_timing(params.tan_methods@) <==> untimed
            &&& audit_warnings(params) == count(params.tan_methods@.len() == 0) + count(
                params.bpd_version == 0,
            ) + count(untimed)
        }),
{
    let methods = params.tan_methods@;
    if lacks_poll_timing(methods) {
        let i = choose|i: int|
            0 <= i < methods.len() && (#[trigger] methods[i]).is_decoupled && !(
            methods[i].wait_before_first_poll > 0 && methods[i].wait_before_next_poll > 0);
        assert(params.tan_methods@[i].is_decoupled);
    }
    if exists|i: int|
        0 <= i < params.tan_methods@.len() && (#[trigger] params.tan_methods@[i]).is_decoupled && (
        params.tan_methods@[i].wait_before_first_poll <= 0
            || params.tan_methods@[i].wait_before_next_poll <= 0) {
        let i = choose|i: int|
            0 <= i < params.tan_methods@.len() && (#[trigger] params.tan_methods@[i]).is_decoupled
                && (params.tan_methods@[i].wait_before_first_poll <= 0
                || params.tan_methods@[i].wait_before_next_poll <= 0);
        assert(methods[i].is_decoupled);
    }
}

} // verus!
