//! What the client prints of sessions.
use vstd::prelude::*;

use crate::iban;
use crate::report;
use crate::session;
use crate::session::{SepaAccountSer, SessionFile, TanMethodSer};
use crate::text;

verus! {

// ---------------------------------------------------------------------------------------------
// Parts
// ---------------------------------------------------------------------------------------------

/// How a TAN method works.
pub open spec fn method_type(decoupled: bool, next_poll: int, max_polls: int) -> Seq<char> {
    if decoupled {
        "[decoupled, poll every "@ + text::signed_decimal(next_poll) + "s, max "@
            + text::signed_decimal(max_polls) + " polls]"@
    } else {
        "[two-step]"@
    }
}

/// One TAN method.
pub open spec fn method_line(
    function: Seq<char>,
    name: Seq<char>,
    decoupled: bool,
    next_poll: int,
    max_polls: int,
) -> Seq<char> {
    "  #"@ + function + "  "@ + text::padded_right(name, 25) + " "@ + method_type(
        decoupled,
        next_poll,
        max_polls,
    ) + "\n"@
}

pub(crate) fn method_text(function: &str, name: &str, decoupled: bool, next_poll: i32, max_polls: i32) -> (r:
    String)
    ensures
        r@ == method_line(function@, name@, decoupled, next_poll as int, max_polls as int),
{
    let kind = if decoupled {
        let mut t = "[decoupled, poll every ".to_string();
        t.append(text::signed_decimal_text(next_poll as i64).as_str());
        t.append("s, max ");
        t.append(text::signed_decimal_text(max_polls as i64).as_str());
        t.append(" polls]");
        t
    } else {
        "[two-step]".to_string()
    };
    let mut out = "  #".to_string();
    out.append(function);
    out.append("  ");
    out.append(text::pad_right(name, 25).as_str());
    out.append(" ");
    out.append(kind.as_str());
    out.append("\n");
    out
}

/// Whether one operation needs a TAN.
pub open spec fn operation_line(op: (String, bool)) -> Seq<char> {
    "  "@ + op.0@ + ": "@ + (if op.1 {
        "TAN required"@
    } else {
        "no TAN required"@
    }) + "\n"@
}

/// Which operations need a TAN, in the order of their names.
pub open spec fn operations_text(ops: Seq<(String, bool)>) -> Seq<char> {
    if ops.len() == 0 {
        ""@
    } else {
        "\nHIPINS (operation TAN requirements):\n"@ + text::lines_of(
            session::sorted_by_name(ops),
            |op: (String, bool)| operation_line(op),
        )
    }
}

fn copy_operations(ops: &Vec<(String, bool)>) -> (r: Vec<(String, bool)>)
    ensures
        r@ == ops@,
{
    let mut out: Vec<(String, bool)> = Vec::new();
    let mut i: usize = 0;
    while i < ops.len()
        invariant
            i <= ops@.len(),
            out@ == ops@.take(i as int),
        decreases ops@.len() - i,
    {
        out.push((ops[i].0.clone(), ops[i].1));
        assert(out@ =~= ops@.take(i + 1));
        i += 1;
    }
    assert(ops@.take(i as int) =~= ops@);
    out
}

pub(crate) fn operations(ops: &Vec<(String, bool)>) -> (r: String)
    ensures
        r@ == operations_text(ops@),
{
    if ops.len() == 0 {
        return "".to_string();
    }
    let sorted = session::sort_by_name(copy_operations(ops));
    let mut out = "\nHIPINS (operation TAN requirements):\n".to_string();
    let ghost head = out@;
    let ghost line = |op: (String, bool)| operation_line(op);
    assert(sorted@.take(0) =~= Seq::empty());
    assert(out@ =~= head + text::lines_of(sorted@.take(0), line));
    let mut i: usize = 0;
    while i < sorted.len()
        invariant
            i <= sorted@.len(),
            line == (|op: (String, bool)| operation_line(op)),
            out@ == head + text::lines_of(sorted@.take(i as int), line),
        decreases sorted@.len() - i,
    {
        let op = &sorted[i];
        let mut row = "  ".to_string();
        row.append(op.0.as_str());
        row.append(": ");
        row.append(
            if op.1 {
                "TAN required"
            } else {
                "no TAN required"
            },
        );
        row.append("\n");
        assert(row@ == operation_line(*op));
        out.append(row.as_str());
        proof {
            text::lemma_lines_step(sorted@, line, i as int);
            assert(out@ =~= head + text::lines_of(sorted@.take(i + 1), line));
        }
        i += 1;
    }
    assert(sorted@.take(i as int) =~= sorted@);
    out
}

/// The product and currency of an account, in round brackets.
pub open spec fn product_text(product: Option<String>, currency: Option<String>) -> Seq<char> {
    " ("@ + report::text_or(product, "—"@) + " "@ + report::text_or(currency, "EUR"@) + ")\n"@
}

pub(crate) fn product_of(name: &Option<String>, currency: &Option<String>) -> (r: String)
    ensures
        r@ == product_text(*name, *currency),
{
    let mut out = " (".to_string();
    out.append(report::str_or(name, "—"));
    out.append(" ");
    out.append(report::str_or(currency, "EUR"));
    out.append(")\n");
    out
}

/// `assigned`, or `unassigned`.
pub open spec fn assignment(assigned: bool) -> Seq<char> {
    if assigned {
        "assigned"@
    } else {
        "unassigned"@
    }
}

pub(crate) fn assignment_text(assigned: bool) -> (r: &'static str)
    ensures
        r@ == assignment(assigned),
{
    if assigned {
        "assigned"
    } else {
        "unassigned"
    }
}

/// Where no operation occurs twice, each is listed once, and the list is in the order of the
/// operations.
pub proof fn law_operations_are_listed_once(ops: Seq<(String, bool)>)
    requires
        session::each_name_once(ops),
        ops.len() > 0,
    ensures
        exists|listed: Seq<(String, bool)>| #[trigger]
            session::each_name_once(listed) && session::ordered_by_name(listed) && listed.len()
                == ops.len() && (forall|i: int|
                0 <= i < ops.len() ==> session::items_named(listed, (#[trigger] ops[i]).0@)
                    == seq![ops[i]]) && operations_text(ops)
                == "\nHIPINS (operation TAN requirements):\n"@ + text::lines_of(
                listed,
                |op: (String, bool)| operation_line(op),
            ),
{
    session::law_sorting_keeps_each_name_once(ops);
    assert(session::each_name_once(session::sorted_by_name(ops)));
}

// ---------------------------------------------------------------------------------------------
// List of sessions
// ---------------------------------------------------------------------------------------------

/// One session of the list. The time is cut to 19 bytes.
pub open spec fn session_line(s: (String, SessionFile)) -> Seq<char> {
    text::padded_right(s.0@, 15) + " "@ + text::padded_right(s.1.bank_id@, 15) + " "@
        + text::padded_right(s.1.user_id@, 20) + " "@ + text::padded_right(
        text::cut(s.1.saved_at@, 19),
        22,
    ) + " "@ + assignment(s.1.system_id@ != "0"@ && s.1.system_id@.len() > 0) + "\n"@
}

/// The heading of the list of the sessions in `dir`.
pub open spec fn sessions_heading(dir: Seq<char>) -> Seq<char> {
    "Sessions in "@ + dir + ":\n"@ + text::padded_right("Name"@, 15) + " "@ + text::padded_right(
        "Bank"@,
        15,
    ) + " "@ + text::padded_right("User"@, 20) + " "@ + text::padded_right("Saved"@, 22) + " "@
        + text::padded_right("System ID"@, 12) + "\n"@ + text::repeated('-', 87) + "\n"@
}

/// The list of the sessions in `dir`, in the order given.
pub open spec fn sessions_text(dir: Seq<char>, sessions: Seq<(String, SessionFile)>) -> Seq<char> {
    if sessions.len() == 0 {
        "No sessions found in "@ + dir + "\nRun 'fints-client setup' to create one.\n"@
    } else {
        sessions_heading(dir) + text::lines_of(
            sessions,
            |s: (String, SessionFile)| session_line(s),
        )
    }
}

/// No time is cut inside a character.
pub open spec fn has_whole_times(sessions: Seq<(String, SessionFile)>) -> bool {
    forall|i: int|
        0 <= i < sessions.len() ==> text::cuttable((#[trigger] sessions[i]).1.saved_at@, 19)
}

/// Whether no time is cut inside a character.
pub fn whole_times(sessions: &Vec<(String, SessionFile)>) -> (r: bool)
    ensures
        r == has_whole_times(sessions@),
{
    let mut i: usize = 0;
    while i < sessions.len()
        invariant
            i <= sessions@.len(),
            forall|j: int|
                0 <= j < i ==> text::cuttable((#[trigger] sessions@[j]).1.saved_at@, 19),
        decreases sessions@.len() - i,
    {
        if !text::can_cut(sessions[i].1.saved_at.as_str(), 19) {
            assert(!text::cuttable(sessions@[i as int].1.saved_at@, 19));
            return false;
        }
        i += 1;
    }
    true
}

fn session_row(name: &str, s: &SessionFile) -> (r: String)
    requires
        text::cuttable(s.saved_at@, 19),
    ensures
        forall|key: String| key@ == name@ ==> r@ == #[trigger] session_line((key, *s)),
{
    let assigned = !text::same_text(s.system_id.as_str(), "0") && !s.system_id.as_str().is_empty();
    let mut out = text::pad_right(name, 15);
    out.append(" ");
    out.append(text::pad_right(s.bank_id.as_str(), 15).as_str());
    out.append(" ");
    out.append(text::pad_right(s.user_id.as_str(), 20).as_str());
    out.append(" ");
    out.append(text::pad_right(text::cut_text(s.saved_at.as_str(), 19), 22).as_str());
    out.append(" ");
    out.append(assignment_text(assigned));
    out.append("\n");
    out
}

/// The list of the sessions in `dir`.
pub fn sessions_list(dir: &str, sessions: &Vec<(String, SessionFile)>) -> (r: String)
    requires
        has_whole_times(sessions@),
    ensures
        r@ == sessions_text(dir@, sessions@),
{
    if sessions.len() == 0 {
        let mut out = "No sessions found in ".to_string();
        out.append(dir);
        out.append("\nRun 'fints-client setup' to create one.\n");
        return out;
    }
    let mut out = "Sessions in ".to_string();
    out.append(dir);
    out.append(":\n");
    out.append(text::pad_right("Name", 15).as_str());
    out.append(" ");
    out.append(text::pad_right("Bank", 15).as_str());
    out.append(" ");
    out.append(text::pad_right("User", 20).as_str());
    out.append(" ");
    out.append(text::pad_right("Saved", 22).as_str());
    out.append(" ");
    out.append(text::pad_right("System ID", 12).as_str());
    out.append("\n");
    text::push_repeated(&mut out, '-', 87);
    out.append("\n");
    let ghost head = out@;
    let ghost line = |s: (String, SessionFile)| session_line(s);
    assert(sessions@.take(0) =~= Seq::empty());
    assert(out@ =~= head + text::lines_of(sessions@.take(0), line));
    let mut i: usize = 0;
    while i < sessions.len()
        invariant
            i <= sessions@.len(),
            has_whole_times(sessions@),
            line == (|s: (String, SessionFile)| session_line(s)),
            out@ == head + text::lines_of(sessions@.take(i as int), line),
        decreases sessions@.len() - i,
    {
        let row = session_row(sessions[i].0.as_str(), &sessions[i].1);
        assert(row@ == session_line((sessions@[i as int].0, sessions@[i as int].1)));
        assert(row@ == line(sessions@[i as int]));
        out.append(row.as_str());
        proof {
            text::lemma_lines_step(sessions@, line, i as int);
            assert(out@ =~= head + text::lines_of(sessions@.take(i + 1), line));
        }
        i += 1;
    }
    assert(sessions@.take(i as int) =~= sessions@);
    out
}

// ---------------------------------------------------------------------------------------------
// One session
// ---------------------------------------------------------------------------------------------

/// One TAN method of a session.
pub open spec fn saved_method_line(m: TanMethodSer) -> Seq<char> {
    method_line(
        m.security_function@,
        m.name@,
        m.is_decoupled,
        m.wait_before_next_poll as int,
        m.decoupled_max_polls as int,
    )
}

/// One account of a session.
pub open spec fn saved_account_line(a: SepaAccountSer) -> Seq<char> {
    "  "@ + iban::displayed_iban(a.iban@) + product_text(a.product_name, a.currency)
}

/// The first part of a session: bank, user and versions. The system identifier is cut to 20
/// bytes.
pub open spec fn session_heading(name: Seq<char>, s: SessionFile) -> Seq<char> {
    "Session: "@ + name + "\nBank ID:   "@ + s.bank_id@ + "\nURL:       "@ + s.bank_url@
        + "\nBLZ:       "@ + s.blz@ + "\nUser:      "@ + s.user_id@ + "\nSystem ID: "@ + text::cut(
        s.system_id@,
        20,
    ) + " ("@ + assignment(s.system_id@ != "0"@) + ")\nBPD v"@ + text::decimal(
        s.bpd_version as nat,
    ) + "  UPD v"@ + text::decimal(s.upd_version as nat) + "\nSaved: "@ + s.saved_at@
        + "\n\nTAN methods ("@ + text::decimal(s.tan_methods@.len()) + "):\n"@
}

/// The accounts of a session.
pub open spec fn saved_accounts_text(accounts: Seq<SepaAccountSer>) -> Seq<char> {
    if accounts.len() == 0 {
        ""@
    } else {
        "\nAccounts ("@ + text::decimal(accounts.len()) + "):\n"@ + text::lines_of(
            accounts,
            |a: SepaAccountSer| saved_account_line(a),
        )
    }
}

/// A session in full.
pub open spec fn session_text(name: Seq<char>, s: SessionFile) -> Seq<char> {
    session_heading(name, s) + text::lines_of(
        s.tan_methods@,
        |m: TanMethodSer| saved_method_line(m),
    ) + operations_text(s.operation_tan_required@) + saved_accounts_text(s.accounts@)
}

fn saved_methods(methods: &Vec<TanMethodSer>) -> (r: String)
    ensures
        r@ == text::lines_of(methods@, |m: TanMethodSer| saved_method_line(m)),
{
    let mut out = String::new();
    let ghost line = |m: TanMethodSer| saved_method_line(m);
    assert(methods@.take(0) =~= Seq::empty());
    let mut i: usize = 0;
    while i < methods.len()
        invariant
            i <= methods@.len(),
            line == (|m: TanMethodSer| saved_method_line(m)),
            out@ == text::lines_of(methods@.take(i as int), line),
        decreases methods@.len() - i,
    {
        let m = &methods[i];
        let row = method_text(
            m.security_function.as_str(),
            m.name.as_str(),
            m.is_decoupled,
            m.wait_before_next_poll,
            m.decoupled_max_polls,
        );
        out.append(row.as_str());
        proof {
            text::lemma_lines_step(methods@, line, i as int);
        }
        i += 1;
    }
    assert(methods@.take(i as int) =~= methods@);
    out
}

fn saved_accounts(accounts: &Vec<SepaAccountSer>) -> (r: String)
    ensures
        r@ == saved_accounts_text(accounts@),
{
    if accounts.len() == 0 {
        return "".to_string();
    }
    let mut out = "\nAccounts (".to_string();
    text::push_decimal(&mut out, accounts.len() as u128);
    out.append("):\n");
    let ghost head = out@;
    let ghost line = |a: SepaAccountSer| saved_account_line(a);
    assert(accounts@.take(0) =~= Seq::empty());
    assert(out@ =~= head + text::lines_of(accounts@.take(0), line));
    let mut i: usize = 0;
    while i < accounts.len()
        invariant
            i <= accounts@.len(),
            line == (|a: SepaAccountSer| saved_account_line(a)),
            out@ == head + text::lines_of(accounts@.take(i as int), line),
        decreases accounts@.len() - i,
    {
        let a = &accounts[i];
        let mut row = "  ".to_string();
        row.append(iban::format_iban_display(a.iban.as_str()).as_str());
        row.append(product_of(&a.product_name, &a.currency).as_str());
        assert(row@ == saved_account_line(*a));
        out.append(row.as_str());
        proof {
            text::lemma_lines_step(accounts@, line, i as int);
            assert(out@ =~= head + text::lines_of(accounts@.take(i + 1), line));
        }
        i += 1;
    }
    assert(accounts@.take(i as int) =~= accounts@);
    out
}

/// A session in full.
pub fn session_inspect(name: &str, s: &SessionFile) -> (r: String)
    requires
        text::cuttable(s.system_id@, 20),
    ensures
        r@ == session_text(name@, *s),
{
    let mut out = "Session: ".to_string();
    out.append(name);
    out.append("\nBank ID:   ");
    out.append(s.bank_id.as_str());
    out.append("\nURL:       ");
    out.append(s.bank_url.as_str());
    out.append("\nBLZ:       ");
    out.append(s.blz.as_str());
    out.append("\nUser:      ");
    out.append(s.user_id.as_str());
    out.append("\nSystem ID: ");
    out.append(text::cut_text(s.system_id.as_str(), 20));
    out.append(" (");
    out.append(assignment_text(!text::same_text(s.system_id.as_str(), "0")));
    out.append(")\nBPD v");
    text::push_decimal(&mut out, s.bpd_version as u128);
    out.append("  UPD v");
    text::push_decimal(&mut out, s.upd_version as u128);
    out.append("\nSaved: ");
    out.append(s.saved_at.as_str());
    out.append("\n\nTAN methods (");
    text::push_decimal(&mut out, s.tan_methods.len() as u128);
    out.append("):\n");
    out.append(saved_methods(&s.tan_methods).as_str());
    out.append(operations(&s.operation_tan_required).as_str());
    out.append(saved_accounts(&s.accounts).as_str());
    out
}

} // verus!
