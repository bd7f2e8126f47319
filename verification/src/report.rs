//! What the client prints of balances, transactions and holdings: text for people, and the
//! records of tables.
use vstd::arithmetic::power;
use vstd::prelude::*;

use crate::amount;
use crate::amount::{Amount, Parts};
use crate::dates;
use crate::dates::Period;
use crate::flow::SyncResult;
use crate::iban;
use crate::session::SessionFile;
use crate::text;
use crate::types::{AccountBalance, SecurityHolding, Transaction};

verus! {

/// In which form results are printed.
#[derive(Debug, Clone, Copy, PartialEq, Eq, Structural)]
pub enum OutputFormat {
    Human,
    Json,
    Csv,
}

impl OutputFormat {
    /// The name of the form on the command line.
    pub fn name(&self) -> (r: String)
        ensures
            r@ == (match *self {
                OutputFormat::Human => "human"@,
                OutputFormat::Json => "json"@,
                OutputFormat::Csv => "csv"@,
            }),
    {
        match self {
            OutputFormat::Human => "human".to_string(),
            OutputFormat::Json => "json".to_string(),
            OutputFormat::Csv => "csv".to_string(),
        }
    }
}

/// The text, or `default` where there is none.
pub open spec fn text_or(o: Option<String>, default: Seq<char>) -> Seq<char> {
    match o {
        Some(s) => s@,
        None => default,
    }
}

pub(crate) fn str_or<'a>(o: &'a Option<String>, default: &'a str) -> (r: &'a str)
    ensures
        r@ == text_or(*o, default@),
{
    match o {
        Some(s) => s.as_str(),
        None => default,
    }
}

/// An amount and its currency.
pub open spec fn money(a: Amount, currency: Seq<char>) -> Seq<char> {
    amount::amount_text(a@) + " "@ + currency
}

fn push_money(out: &mut String, a: &Amount, currency: &str)
    ensures
        final(out)@ == old(out)@ + money(*a, currency@),
{
    let ghost before = out@;
    out.append(amount::format_amount(a).as_str());
    out.append(" ");
    out.append(currency);
    assert(out@ =~= before + money(*a, currency@));
}

// ---------------------------------------------------------------------------------------------
// Balance
// ---------------------------------------------------------------------------------------------

/// A balance for people: the account, the booked balance, and what is available where the bank
/// says so.
pub open spec fn balance_text(
    account: Seq<char>,
    balance: AccountBalance,
    name: Option<Seq<char>>,
) -> Seq<char> {
    let head = "Account: "@ + iban::displayed_iban(account) + (match name {
        Some(n) => " ("@ + n + ")"@,
        None => ""@,
    }) + "\n"@;
    let booked = "Balance: "@ + money(balance.amount, balance.currency@) + " (as of "@
        + balance.date@ + ")\n"@;
    let available = match balance.available {
        Some(a) => "Available: "@ + money(a, balance.currency@) + "\n"@,
        None => ""@,
    };
    let credit = match balance.credit_line {
        Some(a) => "Credit line: "@ + money(a, balance.currency@) + "\n"@,
        None => ""@,
    };
    head + booked + available + credit
}

fn amount_line(label: &str, a: &Option<Amount>, currency: &str) -> (r: String)
    ensures
        r@ == (match *a {
            Some(v) => label@ + money(v, currency@) + "\n"@,
            None => ""@,
        }),
{
    match a {
        Some(v) => {
            let mut out = label.to_owned();
            push_money(&mut out, v, currency);
            out.append("\n");
            out
        },
        None => "".to_string(),
    }
}

/// A balance for people.
pub fn balance_human(account: &str, balance: &AccountBalance, account_name: Option<&str>) -> (r:
    String)
    ensures
        r@ == balance_text(account@, *balance, crate::session::str_view(account_name)),
{
    let mut name = "".to_string();
    if let Some(n) = account_name {
        name = " (".to_string();
        name.append(n);
        name.append(")");
    }
    let mut out = "Account: ".to_string();
    out.append(iban::format_iban_display(account).as_str());
    out.append(name.as_str());
    out.append("\n");
    let mut booked = "Balance: ".to_string();
    push_money(&mut booked, &balance.amount, balance.currency.as_str());
    booked.append(" (as of ");
    booked.append(balance.date.as_str());
    booked.append(")\n");
    out.append(booked.as_str());
    out.append(amount_line("Available: ", &balance.available, balance.currency.as_str()).as_str());
    out.append(
        amount_line("Credit line: ", &balance.credit_line, balance.currency.as_str()).as_str(),
    );
    out
}

/// A balance as a table of one record.
pub open spec fn balance_record(balance: AccountBalance) -> Seq<char> {
    "date,amount,currency\n"@ + balance.date@ + ","@ + amount::plain_text(balance.amount@) + ","@
        + balance.currency@ + "\n"@
}

/// A balance as a table of one record.
pub fn balance_csv(balance: &AccountBalance) -> (r: String)
    ensures
        r@ == balance_record(*balance),
{
    let mut out = "date,amount,currency\n".to_string();
    out.append(balance.date.as_str());
    out.append(",");
    out.append(amount::amount_plain(&balance.amount).as_str());
    out.append(",");
    out.append(balance.currency.as_str());
    out.append("\n");
    out
}

/// The product that a balance is shown with: that of the first account of the session.
pub open spec fn shown_product(session: Option<&SessionFile>) -> Option<String> {
    match session {
        Some(s) => if s.accounts@.len() > 0 {
            s.accounts@[0].product_name
        } else {
            None
        },
        None => None,
    }
}

/// The product that a balance is shown with: that of the first account of the session.
pub fn balance_product(session: Option<&SessionFile>) -> (r: Option<String>)
    ensures
        r == shown_product(session),
{
    match session {
        Some(s) => if s.accounts.len() > 0 {
            s.accounts[0].product_name.clone()
        } else {
            None
        },
        None => None,
    }
}

// ---------------------------------------------------------------------------------------------
// Transactions
// ---------------------------------------------------------------------------------------------

/// Whom or what a transaction is about: the other party, else the purpose, else a dash.
pub open spec fn party(tx: Transaction) -> Seq<char> {
    match tx.applicant_name {
        Some(name) => name@,
        None => text_or(tx.purpose, "—"@),
    }
}

fn party_of(tx: &Transaction) -> (r: &str)
    ensures
        r@ == party(*tx),
{
    match &tx.applicant_name {
        Some(name) => name.as_str(),
        None => str_or(&tx.purpose, "—"),
    }
}

/// The plus sign of an amount that is not negative.
pub open spec fn plus_sign(a: Amount) -> Seq<char> {
    if a.non_negative() {
        "+"@
    } else {
        ""@
    }
}

/// One transaction for people. The party is cut to 45 bytes.
pub open spec fn transaction_line(tx: Transaction) -> Seq<char> {
    "  "@ + dates::day_text(tx.date@) + "  "@ + plus_sign(tx.amount) + money(tx.amount, tx.currency@) + "  "@
        + text::cut(party(tx), 45) + "\n"@
}

/// Transactions for people.
pub open spec fn transactions_text(transactions: Seq<Transaction>) -> Seq<char> {
    "\nTransactions ("@ + text::decimal(transactions.len()) + "):\n"@ + text::lines_of(
        transactions,
        |tx: Transaction| transaction_line(tx),
    )
}

/// No party is cut inside a character.
pub open spec fn has_whole_parties(transactions: Seq<Transaction>) -> bool {
    forall|i: int|
        0 <= i < transactions.len() ==> text::cuttable(party(#[trigger] transactions[i]), 45)
}

/// Whether no party is cut inside a character.
pub fn whole_parties(transactions: &Vec<Transaction>) -> (r: bool)
    ensures
        r == has_whole_parties(transactions@),
{
    let mut i: usize = 0;
    while i < transactions.len()
        invariant
            i <= transactions@.len(),
            forall|j: int| 0 <= j < i ==> text::cuttable(party(#[trigger] transactions@[j]), 45),
        decreases transactions@.len() - i,
    {
        if !text::can_cut(party_of(&transactions[i]), 45) {
            assert(!text::cuttable(party(transactions@[i as int]), 45));
            return false;
        }
        i += 1;
    }
    true
}

/// Transactions for people.
pub fn transactions_human(transactions: &Vec<Transaction>) -> (r: String)
    requires
        has_whole_parties(transactions@),
    ensures
        r@ == transactions_text(transactions@),
{
    let mut out = "\nTransactions (".to_string();
    text::push_decimal(&mut out, transactions.len() as u128);
    out.append("):\n");
    let ghost head = out@;
    let ghost line = |tx: Transaction| transaction_line(tx);
    assert(transactions@.take(0) =~= Seq::empty());
    assert(out@ =~= head + text::lines_of(transactions@.take(0), line));
    let mut i: usize = 0;
    while i < transactions.len()
        invariant
            i <= transactions@.len(),
            has_whole_parties(transactions@),
            line == (|tx: Transaction| transaction_line(tx)),
            out@ == head + text::lines_of(transactions@.take(i as int), line),
        decreases transactions@.len() - i,
    {
        let tx = &transactions[i];
        let mut row = "  ".to_string();
        row.append(tx.date.text().as_str());
        row.append("  ");
        row.append(
            if tx.amount.is_non_negative() {
                "+"
            } else {
                ""
            },
        );
        push_money(&mut row, &tx.amount, tx.currency.as_str());
        row.append("  ");
        row.append(text::cut_text(party_of(tx), 45));
        row.append("\n");
        assert(row@ == transaction_line(*tx));
        let ghost before = out@;
        out.append(row.as_str());
        proof {
            text::lemma_lines_step(transactions@, line, i as int);
            assert(out@ =~= head + text::lines_of(transactions@.take(i + 1), line));
        }
        i += 1;
    }
    assert(transactions@.take(i as int) =~= transactions@);
    out
}

/// The transaction is dated from the day `from` to the day `to`.
pub open spec fn dated_between(tx: Transaction, from: int, to: int) -> bool {
    from <= tx.date@ <= to
}

/// The transactions of a period, in their order.
pub open spec fn in_period(all: Seq<Transaction>, period: Period) -> Seq<Transaction> {
    all.filter(|tx: Transaction| dated_between(tx, period.from as int, period.to as int))
}

/// The transactions of a period, in their order.
pub fn transactions_in(period: &Period, all: &Vec<Transaction>) -> (r: Vec<Transaction>)
    ensures
        r@ == in_period(all@, *period),
{
    let mut kept: Vec<Transaction> = Vec::new();
    let ghost pred = |tx: Transaction| dated_between(tx, period.from as int, period.to as int);
    let mut i: usize = 0;
    proof {
        reveal(Seq::filter);
        assert(all@.take(0) =~= Seq::<Transaction>::empty());
    }
    while i < all.len()
        invariant
            i <= all@.len(),
            pred == (|tx: Transaction|
                dated_between(tx, period.from as int, period.to as int)),
            kept@ == all@.take(i as int).filter(pred),
        decreases all@.len() - i,
    {
        let tx = &all[i];
        proof {
            reveal(Seq::filter);
            assert(all@.take(i + 1).drop_last() =~= all@.take(i as int));
        }
        let day = tx.date.number();
        if period.from <= day && day <= period.to {
            kept.push(tx.clone());
        }
        i += 1;
    }
    assert(all@.take(i as int) =~= all@);
    kept
}

/// What stands above a list of transactions: the account and the period.
pub open spec fn period_text(account: Seq<char>, period: Period) -> Seq<char> {
    "Account: "@ + iban::displayed_iban(account) + "\nPeriod: "@ + dates::day_text(
        period.from as int,
    ) + " to "@ + dates::day_text(period.to as int) + "\n"@
}

/// What stands above a list of transactions: the account and the period.
pub fn period_heading(account: &str, period: &Period) -> (r: String)
    requires
        dates::MIN_DAY <= period.from <= dates::MAX_DAY,
        dates::MIN_DAY <= period.to <= dates::MAX_DAY,
    ensures
        r@ == period_text(account@, *period),
{
    let from = dates::date_text(period.from);
    let to = dates::date_text(period.to);
    let mut out = "Account: ".to_string();
    out.append(iban::format_iban_display(account).as_str());
    out.append("\nPeriod: ");
    out.append(from.as_str());
    out.append(" to ");
    out.append(to.as_str());
    out.append("\n");
    out
}

/// The transactions of a period for people: of all that the bank sent, those of the period.
pub open spec fn period_list(account: Seq<char>, period: Period, all: Seq<Transaction>) -> Seq<
    char,
> {
    period_text(account, period) + transactions_text(in_period(all, period))
}

/// The transactions of a period for people: of all that the bank sent, those of the period.
pub fn period_human(account: &str, period: &Period, all: &Vec<Transaction>) -> (r: String)
    requires
        dates::MIN_DAY <= period.from <= dates::MAX_DAY,
        dates::MIN_DAY <= period.to <= dates::MAX_DAY,
        has_whole_parties(in_period(all@, *period)),
    ensures
        r@ == period_list(account@, *period, all@),
{
    let shown = transactions_in(period, all);
    let mut out = period_heading(account, period);
    out.append(transactions_human(&shown).as_str());
    out
}

/// A transaction is listed exactly where the bank sent it and it is dated in the period.
pub proof fn law_period_lists_its_transactions(all: Seq<Transaction>, period: Period, tx: Transaction)
    ensures
        in_period(all, period).contains(tx) <==> all.contains(tx) && dated_between(
            tx,
            period.from as int,
            period.to as int,
        ),
        in_period(all, period).len() <= all.len(),
{
    broadcast use vstd::seq_lib::group_seq_properties;

    let pred = |t: Transaction| dated_between(t, period.from as int, period.to as int);
    all.lemma_filter_len(pred);
    if in_period(all, period).contains(tx) {
        let k = choose|k: int| 0 <= k < in_period(all, period).len() && in_period(all, period)[k] == tx;
        all.lemma_filter_pred(pred, k);
        lemma_filter_source(all, pred, tx);
    }
    if all.contains(tx) && pred(tx) {
        let k = choose|k: int| 0 <= k < all.len() && all[k] == tx;
        all.lemma_filter_contains(pred, k);
    }
}

proof fn lemma_filter_source(all: Seq<Transaction>, pred: spec_fn(Transaction) -> bool, tx: Transaction)
    requires
        all.filter(pred).contains(tx),
    ensures
        all.contains(tx),
    decreases all.len(),
{
    reveal(Seq::filter);
    if all.len() > 0 {
        let front = all.drop_last();
        if front.filter(pred).contains(tx) {
            lemma_filter_source(front, pred, tx);
            let k = choose|k: int| 0 <= k < front.len() && front[k] == tx;
            assert(all[k] == tx);
        } else {
            let k = choose|k: int| 0 <= k < all.filter(pred).len() && all.filter(pred)[k] == tx;
            if k < front.filter(pred).len() {
                assert(front.filter(pred)[k] == tx);
            }
            assert(all[all.len() - 1] == tx);
        }
    }
}

/// The texts of a record.
pub open spec fn record_view(record: Seq<String>) -> Seq<Seq<char>> {
    record.map_values(|s: String| s@)
}

/// The record of a transaction in a list of transactions.
pub open spec fn transaction_record(tx: Transaction) -> Seq<Seq<char>> {
    seq![
        dates::day_text(tx.date@),
        text_or(tx.valuta_date, ""@),
        amount::plain_text(tx.amount@),
        tx.currency@,
        text_or(tx.applicant_name, ""@),
        match tx.applicant_iban {
            Some(i) => i@,
            None => ""@,
        },
        text_or(tx.purpose, ""@),
        text_or(tx.posting_text, ""@),
        tx.status@,
    ]
}

/// The record of a transaction in a list of transactions: date, value date, amount, currency,
/// applicant, applicant's IBAN, purpose, posting text, status.
pub fn transaction_row(tx: &Transaction) -> (r: Vec<String>)
    ensures
        record_view(r@) == transaction_record(*tx),
{
    let mut row: Vec<String> = Vec::new();
    row.push(tx.date.text());
    row.push(str_or(&tx.valuta_date, "").to_owned());
    row.push(amount::amount_plain(&tx.amount));
    row.push(tx.currency.clone());
    row.push(str_or(&tx.applicant_name, "").to_owned());
    row.push(
        match &tx.applicant_iban {
            Some(i) => i.as_str().to_owned(),
            None => "".to_string(),
        },
    );
    row.push(str_or(&tx.purpose, "").to_owned());
    row.push(str_or(&tx.posting_text, "").to_owned());
    row.push(tx.status.clone());
    assert(record_view(row@) =~= transaction_record(*tx));
    row
}

/// The record of a transaction in a sync: date, amount, currency, applicant, purpose.
pub open spec fn sync_record(tx: Transaction) -> Seq<Seq<char>> {
    seq![
        dates::day_text(tx.date@),
        amount::plain_text(tx.amount@),
        tx.currency@,
        text_or(tx.applicant_name, ""@),
        text_or(tx.purpose, ""@),
    ]
}

/// The record of a transaction in a sync.
pub fn sync_row(tx: &Transaction) -> (r: Vec<String>)
    ensures
        record_view(r@) == sync_record(*tx),
{
    let mut row: Vec<String> = Vec::new();
    row.push(tx.date.text());
    row.push(amount::amount_plain(&tx.amount));
    row.push(tx.currency.clone());
    row.push(str_or(&tx.applicant_name, "").to_owned());
    row.push(str_or(&tx.purpose, "").to_owned());
    assert(record_view(row@) =~= sync_record(*tx));
    row
}

/// The texts of the records of a table.
pub open spec fn table_view(table: Seq<Vec<String>>) -> Seq<Seq<Seq<char>>> {
    table.map_values(|record: Vec<String>| record_view(record@))
}

/// The names of the columns of a list of transactions.
pub open spec fn transaction_columns() -> Seq<Seq<char>> {
    seq![
        "date"@,
        "valuta_date"@,
        "amount"@,
        "currency"@,
        "applicant"@,
        "applicant_iban"@,
        "purpose"@,
        "posting_text"@,
        "status"@,
    ]
}

/// Transactions as a table: the names of the columns, then a record for each transaction.
pub open spec fn transaction_records(transactions: Seq<Transaction>) -> Seq<Seq<Seq<char>>> {
    seq![transaction_columns()] + transactions.map_values(
        |tx: Transaction| transaction_record(tx),
    )
}

/// Transactions as a table: the names of the columns, then a record for each transaction.
pub fn transactions_table(transactions: &Vec<Transaction>) -> (r: Vec<Vec<String>>)
    ensures
        table_view(r@) == transaction_records(transactions@),
{
    let columns = vec![
        "date".to_string(),
        "valuta_date".to_string(),
        "amount".to_string(),
        "currency".to_string(),
        "applicant".to_string(),
        "applicant_iban".to_string(),
        "purpose".to_string(),
        "posting_text".to_string(),
        "status".to_string(),
    ];
    assert(record_view(columns@) =~= transaction_columns());
    let mut table: Vec<Vec<String>> = Vec::new();
    table.push(columns);
    let ghost record = |tx: Transaction| transaction_record(tx);
    assert(table_view(table@) =~= seq![transaction_columns()] + transactions@.take(0).map_values(
        record,
    ));
    let mut i: usize = 0;
    while i < transactions.len()
        invariant
            i <= transactions@.len(),
            record == (|tx: Transaction| transaction_record(tx)),
            table_view(table@) == seq![transaction_columns()] + transactions@.take(
                i as int,
            ).map_values(record),
        decreases transactions@.len() - i,
    {
        let ghost before = table@;
        table.push(transaction_row(&transactions[i]));
        assert(table_view(table@) =~= table_view(before).push(record(transactions@[i as int])));
        assert(table_view(table@) =~= seq![transaction_columns()] + transactions@.take(
            i + 1,
        ).map_values(record));
        i += 1;
    }
    assert(transactions@.take(i as int) =~= transactions@);
    table
}

/// The names of the columns of a sync.
pub open spec fn sync_columns() -> Seq<Seq<char>> {
    seq!["date"@, "amount"@, "currency"@, "applicant"@, "purpose"@]
}

/// The transactions of a sync as a table.
pub open spec fn sync_records(transactions: Seq<Transaction>) -> Seq<Seq<Seq<char>>> {
    seq![sync_columns()] + transactions.map_values(|tx: Transaction| sync_record(tx))
}

/// The transactions of a sync as a table.
pub fn sync_table(transactions: &Vec<Transaction>) -> (r: Vec<Vec<String>>)
    ensures
        table_view(r@) == sync_records(transactions@),
{
    let columns = vec![
        "date".to_string(),
        "amount".to_string(),
        "currency".to_string(),
        "applicant".to_string(),
        "purpose".to_string(),
    ];
    assert(record_view(columns@) =~= sync_columns());
    let mut table: Vec<Vec<String>> = Vec::new();
    table.push(columns);
    let ghost record = |tx: Transaction| sync_record(tx);
    assert(table_view(table@) =~= seq![sync_columns()] + transactions@.take(0).map_values(record));
    let mut i: usize = 0;
    while i < transactions.len()
        invariant
            i <= transactions@.len(),
            record == (|tx: Transaction| sync_record(tx)),
            table_view(table@) == seq![sync_columns()] + transactions@.take(i as int).map_values(
                record,
            ),
        decreases transactions@.len() - i,
    {
        let ghost before = table@;
        table.push(sync_row(&transactions[i]));
        assert(table_view(table@) =~= table_view(before).push(record(transactions@[i as int])));
        assert(table_view(table@) =~= seq![sync_columns()] + transactions@.take(i + 1).map_values(
            record,
        ));
        i += 1;
    }
    assert(transactions@.take(i as int) =~= transactions@);
    table
}

// ---------------------------------------------------------------------------------------------
// Holdings
// ---------------------------------------------------------------------------------------------

/// The market value of a position in euros.
pub open spec fn eur_value(h: SecurityHolding) -> Option<Parts> {
    match (h.market_value, h.market_value_currency) {
        (Some(v), Some(c)) => if c@ == "EUR"@ {
            Some(v@)
        } else {
            None
        },
        _ => None,
    }
}

/// The sum of the market values in euros, from the first position to the last: nothing where a
/// sum is out of range, and no sum where there is no such value.
pub open spec fn eur_total(holdings: Seq<SecurityHolding>) -> Option<Option<Parts>>
    decreases holdings.len(),
{
    if holdings.len() == 0 {
        Some(None)
    } else {
        match (eur_total(holdings.drop_last()), eur_value(holdings.last())) {
            (None, _) => None,
            (Some(sum), None) => Some(sum),
            (Some(None), Some(v)) => Some(Some(v)),
            (Some(Some(sum)), Some(v)) => match amount::decimal_sum(sum, v) {
                Some(next) => Some(Some(next)),
                None => None,
            },
        }
    }
}

/// The most digits that a market value in euros has behind the point.
pub open spec fn eur_scale(holdings: Seq<SecurityHolding>) -> nat
    decreases holdings.len(),
{
    if holdings.len() == 0 {
        0
    } else {
        let before = eur_scale(holdings.drop_last());
        match eur_value(holdings.last()) {
            Some(v) => if v.scale > before {
                v.scale
            } else {
                before
            },
            None => before,
        }
    }
}

/// The market values in euros, each with `scale` digits behind the point, added up.
pub open spec fn eur_units(holdings: Seq<SecurityHolding>, scale: nat) -> int
    decreases holdings.len(),
{
    if holdings.len() == 0 {
        0
    } else {
        eur_units(holdings.drop_last(), scale) + (match eur_value(holdings.last()) {
            Some(v) => amount::units_at(v, scale),
            None => 0,
        })
    }
}

/// The exact sums of the first few market values in euros stay in range.
pub open spec fn adds_up_exactly(holdings: Seq<SecurityHolding>) -> bool {
    forall|i: int|
        0 <= i <= holdings.len() ==> {
            let first = #[trigger] holdings.take(i);
            -amount::MAGNITUDE_LIMIT < eur_units(first, eur_scale(first)) < amount::MAGNITUDE_LIMIT
        }
}

pub open spec fn total_view(total: Option<Option<Amount>>) -> Option<Option<Parts>> {
    match total {
        None => None,
        Some(None) => Some(None),
        Some(Some(a)) => Some(Some(a@)),
    }
}

/// `total` is worth as much as the market values in euros are together. There is none where no
/// market value is in euros.
pub open spec fn is_exact_total(
    holdings: Seq<SecurityHolding>,
    total: Option<Option<Parts>>,
) -> bool {
    &&& total is Some
    &&& total->0 is None <==> forall|i: int|
        0 <= i < holdings.len() ==> eur_value(#[trigger] holdings[i]) is None
    &&& total->0 matches Some(t) ==> {
        &&& t.scale <= eur_scale(holdings)
        &&& amount::units_at(t, eur_scale(holdings)) == eur_units(holdings, eur_scale(holdings))
    }
}

proof fn lemma_eur_units(holdings: Seq<SecurityHolding>, scale: nat, more: nat)
    requires
        eur_scale(holdings) <= scale <= more,
    ensures
        eur_units(holdings, more) == eur_units(holdings, scale) * power::pow(
            10,
            (more - scale) as nat,
        ),
    decreases holdings.len(),
{
    if holdings.len() > 0 {
        let q = power::pow(10, (more - scale) as nat);
        let x = eur_units(holdings.drop_last(), scale);
        lemma_eur_units(holdings.drop_last(), scale, more);
        if let Some(v) = eur_value(holdings.last()) {
            amount::lemma_units_at(v, scale, more);
            let y = amount::units_at(v, scale);
            assert((x + y) * q == x * q + y * q) by (nonlinear_arith);
        }
    }
}

/// Adding the market value `v` to an exact total gives an exact total.
proof fn lemma_total_goes_on(
    before: Seq<SecurityHolding>,
    h: SecurityHolding,
    total: Parts,
    v: Parts,
    added: Option<Parts>,
)
    requires
        is_exact_total(before, Some(Some(total))),
        eur_value(h) == Some(v),
        amount::exact_in_range(total, v, added),
        -amount::MAGNITUDE_LIMIT < eur_units(before.push(h), eur_scale(before.push(h)))
            < amount::MAGNITUDE_LIMIT,
    ensures
        added is Some,
        is_exact_total(before.push(h), Some(added)),
{
    let next = before.push(h);
    assert(next.drop_last() =~= before);
    assert(next.last() == h);
    let s = eur_scale(before);
    let t = eur_scale(next);
    lemma_eur_units(before, s, t);
    amount::lemma_units_at(total, s, t);
    amount::law_sum_is_exact(total, v, added, t);
    assert(eur_value(next[before.len() as int]) is Some);
}

/// The total in euros is exact where the sums stay in range.
pub open spec fn totals_exactly(holdings: Seq<SecurityHolding>) -> bool {
    adds_up_exactly(holdings) ==> is_exact_total(holdings, eur_total(holdings))
}

/// The sum of the market values in euros: `None` where a sum is out of range, and `Some(None)`
/// where there is no such value. Sums that stay in range are exact.
pub fn total_eur(holdings: &Vec<SecurityHolding>) -> (r: Option<Option<Amount>>)
    ensures
        total_view(r) == eur_total(holdings@),
        totals_exactly(holdings@),
{
    let mut total: Option<Amount> = None;
    let mut i: usize = 0;
    assert(holdings@.take(0) =~= Seq::empty());
    while i < holdings.len()
        invariant
            i <= holdings@.len(),
            total_view(Some(total)) == eur_total(holdings@.take(i as int)),
            adds_up_exactly(holdings@) ==> is_exact_total(
                holdings@.take(i as int),
                total_view(Some(total)),
            ),
        decreases holdings@.len() - i,
    {
        let h = &holdings[i];
        let ghost so_far = holdings@.take(i as int);
        let ghost next = holdings@.take(i + 1);
        assert(next =~= so_far.push(*h));
        assert(next.drop_last() =~= so_far);
        assert(forall|j: int| 0 <= j < so_far.len() ==> #[trigger] next[j] == so_far[j]);
        let in_eur = match &h.market_value_currency {
            Some(c) => text::same_text(c.as_str(), "EUR"),
            None => false,
        };
        if in_eur {
            if let Some(v) = &h.market_value {
                assert(eur_value(*h) == Some(v@));
                match total {
                    None => {
                        proof {
                            lemma_first_value(so_far, *h, v@);
                        }
                        total = Some(*v);
                    },
                    Some(sum) => {
                        let added = amount::add_amounts(&sum, v);
                        proof {
                            if adds_up_exactly(holdings@) {
                                lemma_total_goes_on(
                                    so_far,
                                    *h,
                                    sum@,
                                    v@,
                                    amount::view_of_sum(added),
                                );
                            }
                        }
                        match added {
                            Some(a) => {
                                total = Some(a);
                            },
                            None => {
                                proof {
                                    lemma_total_stays_out(holdings@, i + 1);
                                }
                                return None;
                            },
                        }
                    },
                }
            } else {
                proof {
                    lemma_no_value(so_far, *h, total_view(Some(total)));
                }
            }
        } else {
            proof {
                lemma_no_value(so_far, *h, total_view(Some(total)));
            }
        }
        i += 1;
    }
    assert(holdings@.take(i as int) =~= holdings@);
    Some(total)
}

/// The first market value in euros is the total so far.
proof fn lemma_first_value(before: Seq<SecurityHolding>, h: SecurityHolding, v: Parts)
    requires
        eur_value(h) == Some(v),
    ensures
        is_exact_total(before, Some(None)) ==> is_exact_total(before.push(h), Some(Some(v))),
{
    let next = before.push(h);
    assert(next.drop_last() =~= before);
    assert(next[before.len() as int] == h);
    if is_exact_total(before, Some(None)) {
        lemma_nothing_in_eur(before, eur_scale(next));
    }
}

proof fn lemma_nothing_in_eur(holdings: Seq<SecurityHolding>, scale: nat)
    requires
        forall|i: int| 0 <= i < holdings.len() ==> eur_value(#[trigger] holdings[i]) is None,
    ensures
        eur_scale(holdings) == 0,
        eur_units(holdings, scale) == 0,
    decreases holdings.len(),
{
    if holdings.len() > 0 {
        assert(eur_value(holdings[holdings.len() - 1]) is None);
        assert forall|i: int| 0 <= i < holdings.drop_last().len() implies eur_value(
            #[trigger] holdings.drop_last()[i],
        ) is None by {
            assert(holdings.drop_last()[i] == holdings[i]);
        }
        lemma_nothing_in_eur(holdings.drop_last(), scale);
    }
}

/// A position without a market value in euros does not change the total.
proof fn lemma_no_value(
    before: Seq<SecurityHolding>,
    h: SecurityHolding,
    total: Option<Option<Parts>>,
)
    requires
        eur_value(h) is None,
    ensures
        is_exact_total(before, total) ==> is_exact_total(before.push(h), total),
{
    let next = before.push(h);
    assert(next.drop_last() =~= before);
    assert(next[before.len() as int] == h);
    assert(forall|j: int| 0 <= j < before.len() ==> #[trigger] next[j] == before[j]);
    assert(forall|j: int| 0 <= j < before.len() ==> #[trigger] before[j] == next[j]);
}

proof fn lemma_total_stays_out(holdings: Seq<SecurityHolding>, n: int)
    requires
        0 <= n <= holdings.len(),
        eur_total(holdings.take(n)) is None,
    ensures
        eur_total(holdings) is None,
    decreases holdings.len(),
{
    if n < holdings.len() {
        assert(holdings.drop_last().take(n) =~= holdings.take(n));
        lemma_total_stays_out(holdings.drop_last(), n);
    } else {
        assert(holdings.take(n) =~= holdings);
    }
}

/// An amount with its currency where there is one, or a dash.
pub open spec fn money_or_dash(a: Option<Amount>, currency: Option<String>) -> Seq<char> {
    match (a, currency) {
        (Some(v), Some(c)) => money(v, c@),
        (Some(v), None) => amount::amount_text(v@),
        (None, _) => "—"@,
    }
}

fn money_text(a: &Option<Amount>, currency: &Option<String>) -> (r: String)
    ensures
        r@ == money_or_dash(*a, *currency),
{
    match (a, currency) {
        (Some(v), Some(c)) => {
            let mut out = String::new();
            push_money(&mut out, v, c.as_str());
            assert(out@ =~= money(*v, c@));
            out
        },
        (Some(v), None) => amount::format_amount(v),
        (None, _) => "—".to_string(),
    }
}

/// The identifiers of a position: the ISIN or a dash, and the WKN where there is one.
pub open spec fn security_ids(h: SecurityHolding) -> Seq<char> {
    let isin = text_or(h.isin, "—"@);
    let wkn = text_or(h.wkn, ""@);
    if wkn.len() == 0 {
        isin
    } else {
        isin + " / "@ + wkn
    }
}

fn ids_text(h: &SecurityHolding) -> (r: String)
    ensures
        r@ == security_ids(*h),
{
    let isin = str_or(&h.isin, "—");
    let wkn = str_or(&h.wkn, "");
    proof {
        reveal_strlit("");
    }
    let mut out = isin.to_owned();
    if !wkn.is_empty() {
        out.append(" / ");
        out.append(wkn);
    }
    out
}

/// The price of a position, with its date where there is one.
pub open spec fn price_text(h: SecurityHolding) -> Seq<char> {
    money_or_dash(h.price, h.price_currency) + (match h.price_date {
        Some(d) => " ("@ + d@ + ")"@,
        None => ""@,
    })
}

fn price_of(h: &SecurityHolding) -> (r: String)
    ensures
        r@ == price_text(*h),
{
    let date = match &h.price_date {
        Some(d) => {
            let mut t = " (".to_string();
            t.append(d.as_str());
            t.append(")");
            t
        },
        None => "".to_string(),
    };
    let mut out = money_text(&h.price, &h.price_currency);
    out.append(date.as_str());
    out
}

/// The profit or loss of a position, with its sign.
pub open spec fn profit_text(h: SecurityHolding) -> Seq<char> {
    match h.profit_loss {
        Some(p) => "  "@ + plus_sign(p) + amount::amount_text(p@),
        None => ""@,
    }
}

fn profit_of(h: &SecurityHolding) -> (r: String)
    ensures
        r@ == profit_text(*h),
{
    match &h.profit_loss {
        Some(p) => {
            let mut out = "  ".to_string();
            out.append(
                if p.is_non_negative() {
                    "+"
                } else {
                    ""
                },
            );
            out.append(amount::format_amount(p).as_str());
            out
        },
        None => "".to_string(),
    }
}

/// Five columns: name, identifiers, units, price and value.
pub open spec fn holding_columns(
    name: Seq<char>,
    ids: Seq<char>,
    units: Seq<char>,
    price: Seq<char>,
    value: Seq<char>,
) -> Seq<char> {
    "  "@ + text::padded_right(name, 32) + "  "@ + text::padded_right(ids, 14) + "  "@
        + text::padded_left(units, 8) + "  "@ + text::padded_left(price, 16) + "  "@
        + text::padded_left(value, 16)
}

fn columns_text(name: &str, ids: &str, units: &str, price: &str, value: &str) -> (r: String)
    ensures
        r@ == holding_columns(name@, ids@, units@, price@, value@),
{
    let mut out = "  ".to_string();
    out.append(text::pad_right(name, 32).as_str());
    out.append("  ");
    out.append(text::pad_right(ids, 14).as_str());
    out.append("  ");
    out.append(text::pad_left(units, 8).as_str());
    out.append("  ");
    out.append(text::pad_left(price, 16).as_str());
    out.append("  ");
    out.append(text::pad_left(value, 16).as_str());
    out
}

/// One position for people. The name is cut to 32 bytes.
pub open spec fn holding_line(h: SecurityHolding) -> Seq<char> {
    holding_columns(
        text::cut(h.name@, 32),
        security_ids(h),
        amount::amount_text(h.quantity@),
        price_text(h),
        money_or_dash(h.market_value, h.market_value_currency),
    ) + profit_text(h) + "\n"@
}

/// A horizontal line.
pub open spec fn rule_line() -> Seq<char> {
    "  "@ + text::repeated('─', 90) + "\n"@
}

fn push_rule(out: &mut String)
    ensures
        final(out)@ == old(out)@ + rule_line(),
{
    let ghost before = out@;
    out.append("  ");
    text::push_repeated(out, '─', 90);
    out.append("\n");
    assert(out@ =~= before + rule_line());
}

/// The heading of the positions.
pub open spec fn holdings_heading(n: nat) -> Seq<char> {
    "\nSecurities / Depot ("@ + text::decimal(n) + " positions):\n"@ + holding_columns(
        "Name"@,
        "ISIN"@,
        "Units"@,
        "Price"@,
        "Value"@,
    ) + "\n"@ + rule_line()
}

/// What stands under the positions: their total in euros where any has such a value.
pub open spec fn total_lines(total: Option<Parts>) -> Seq<char> {
    match total {
        Some(t) => rule_line() + holding_columns(
            "Total (EUR positions)"@,
            ""@,
            ""@,
            ""@,
            amount::amount_text(t) + " EUR"@,
        ) + "\n"@,
        None => ""@,
    }
}

/// Positions for people with their total; no positions are no text.
pub open spec fn holdings_text(holdings: Seq<SecurityHolding>, total: Option<Parts>) -> Seq<char> {
    if holdings.len() == 0 {
        ""@
    } else {
        holdings_heading(holdings.len()) + text::lines_of(
            holdings,
            |h: SecurityHolding| holding_line(h),
        ) + total_lines(total)
    }
}

/// No name is cut inside a character.
pub open spec fn has_whole_names(holdings: Seq<SecurityHolding>) -> bool {
    forall|i: int| 0 <= i < holdings.len() ==> text::cuttable((#[trigger] holdings[i]).name@, 32)
}

/// Whether no name is cut inside a character.
pub fn whole_names(holdings: &Vec<SecurityHolding>) -> (r: bool)
    ensures
        r == has_whole_names(holdings@),
{
    let mut i: usize = 0;
    while i < holdings.len()
        invariant
            i <= holdings@.len(),
            forall|j: int| 0 <= j < i ==> text::cuttable((#[trigger] holdings@[j]).name@, 32),
        decreases holdings@.len() - i,
    {
        if !text::can_cut(holdings[i].name.as_str(), 32) {
            assert(!text::cuttable(holdings@[i as int].name@, 32));
            return false;
        }
        i += 1;
    }
    true
}

/// Positions for people, under the total `total`.
pub fn holdings_with_total(holdings: &Vec<SecurityHolding>, total: Option<Amount>) -> (r: String)
    requires
        has_whole_names(holdings@),
    ensures
        r@ == holdings_text(
            holdings@,
            match total {
                Some(t) => Some(t@),
                None => None,
            },
        ),
{
    if holdings.len() == 0 {
        return "".to_string();
    }
    let mut out = "\nSecurities / Depot (".to_string();
    text::push_decimal(&mut out, holdings.len() as u128);
    out.append(" positions):\n");
    out.append(columns_text("Name", "ISIN", "Units", "Price", "Value").as_str());
    out.append("\n");
    push_rule(&mut out);
    let ghost head = out@;
    let ghost line = |h: SecurityHolding| holding_line(h);
    assert(holdings@.take(0) =~= Seq::empty());
    assert(out@ =~= head + text::lines_of(holdings@.take(0), line));
    let mut i: usize = 0;
    while i < holdings.len()
        invariant
            i <= holdings@.len(),
            has_whole_names(holdings@),
            line == (|h: SecurityHolding| holding_line(h)),
            out@ == head + text::lines_of(holdings@.take(i as int), line),
        decreases holdings@.len() - i,
    {
        let h = &holdings[i];
        let mut row = columns_text(
            text::cut_text(h.name.as_str(), 32),
            ids_text(h).as_str(),
            amount::format_amount(&h.quantity).as_str(),
            price_of(h).as_str(),
            money_text(&h.market_value, &h.market_value_currency).as_str(),
        );
        row.append(profit_of(h).as_str());
        row.append("\n");
        assert(row@ == holding_line(*h));
        out.append(row.as_str());
        proof {
            text::lemma_lines_step(holdings@, line, i as int);
            assert(out@ =~= head + text::lines_of(holdings@.take(i + 1), line));
        }
        i += 1;
    }
    assert(holdings@.take(i as int) =~= holdings@);
    let mut foot = "".to_string();
    if let Some(t) = &total {
        let mut value = amount::format_amount(t);
        value.append(" EUR");
        let mut lines = String::new();
        push_rule(&mut lines);
        lines.append(columns_text("Total (EUR positions)", "", "", "", value.as_str()).as_str());
        lines.append("\n");
        assert(lines@ =~= total_lines(Some(t@)));
        foot = lines;
    }
    out.append(foot.as_str());
    out
}

/// Positions for people, or nothing where their total in euros is out of range.
pub fn holdings_human(holdings: &Vec<SecurityHolding>) -> (r: Option<String>)
    requires
        has_whole_names(holdings@),
    ensures
        match eur_total(holdings@) {
            Some(total) => r is Some && r->0@ == holdings_text(holdings@, total),
            None => r is None,
        },
        totals_exactly(holdings@),
{
    match total_eur(holdings) {
        Some(total) => Some(holdings_with_total(holdings, total)),
        None => None,
    }
}

/// The record of a position.
pub open spec fn holding_record(h: SecurityHolding) -> Seq<Seq<char>> {
    seq![
        h.name@,
        text_or(h.isin, ""@),
        text_or(h.wkn, ""@),
        amount::plain_text(h.quantity@),
        plain_or_empty(h.price),
        text_or(h.price_currency, ""@),
        text_or(h.price_date, ""@),
        plain_or_empty(h.market_value),
        text_or(h.market_value_currency, ""@),
        plain_or_empty(h.profit_loss),
    ]
}

/// An amount with all its digits, or no text.
pub open spec fn plain_or_empty(a: Option<Amount>) -> Seq<char> {
    match a {
        Some(v) => amount::plain_text(v@),
        None => ""@,
    }
}

fn plain_of(a: &Option<Amount>) -> (r: String)
    ensures
        r@ == plain_or_empty(*a),
{
    match a {
        Some(v) => amount::amount_plain(v),
        None => "".to_string(),
    }
}

/// The record of a position.
pub fn holding_row(h: &SecurityHolding) -> (r: Vec<String>)
    ensures
        record_view(r@) == holding_record(*h),
{
    let mut row: Vec<String> = Vec::new();
    row.push(h.name.clone());
    row.push(str_or(&h.isin, "").to_owned());
    row.push(str_or(&h.wkn, "").to_owned());
    row.push(amount::amount_plain(&h.quantity));
    row.push(plain_of(&h.price));
    row.push(str_or(&h.price_currency, "").to_owned());
    row.push(str_or(&h.price_date, "").to_owned());
    row.push(plain_of(&h.market_value));
    row.push(str_or(&h.market_value_currency, "").to_owned());
    row.push(plain_of(&h.profit_loss));
    assert(record_view(row@) =~= holding_record(*h));
    row
}

/// The names of the columns of a list of positions.
pub open spec fn position_columns() -> Seq<Seq<char>> {
    seq![
        "name"@,
        "isin"@,
        "wkn"@,
        "quantity"@,
        "price"@,
        "price_currency"@,
        "price_date"@,
        "market_value"@,
        "market_value_currency"@,
        "profit_loss"@,
    ]
}

/// Positions as a table: the names of the columns, then a record for each position.
pub open spec fn holding_records(holdings: Seq<SecurityHolding>) -> Seq<Seq<Seq<char>>> {
    seq![position_columns()] + holdings.map_values(|h: SecurityHolding| holding_record(h))
}

/// Positions as a table: the names of the columns, then a record for each position.
pub fn holdings_table(holdings: &Vec<SecurityHolding>) -> (r: Vec<Vec<String>>)
    ensures
        table_view(r@) == holding_records(holdings@),
{
    let columns = vec![
        "name".to_string(),
        "isin".to_string(),
        "wkn".to_string(),
        "quantity".to_string(),
        "price".to_string(),
        "price_currency".to_string(),
        "price_date".to_string(),
        "market_value".to_string(),
        "market_value_currency".to_string(),
        "profit_loss".to_string(),
    ];
    assert(record_view(columns@) =~= position_columns());
    let mut table: Vec<Vec<String>> = Vec::new();
    table.push(columns);
    let ghost record = |h: SecurityHolding| holding_record(h);
    assert(table_view(table@) =~= seq![position_columns()] + holdings@.take(0).map_values(record));
    let mut i: usize = 0;
    while i < holdings.len()
        invariant
            i <= holdings@.len(),
            record == (|h: SecurityHolding| holding_record(h)),
            table_view(table@) == seq![position_columns()] + holdings@.take(i as int).map_values(
                record,
            ),
        decreases holdings@.len() - i,
    {
        let ghost before = table@;
        table.push(holding_row(&holdings[i]));
        assert(table_view(table@) =~= table_view(before).push(record(holdings@[i as int])));
        assert(table_view(table@) =~= seq![position_columns()] + holdings@.take(i + 1).map_values(
            record,
        ));
        i += 1;
    }
    assert(holdings@.take(i as int) =~= holdings@);
    table
}

// ---------------------------------------------------------------------------------------------
// Sync
// ---------------------------------------------------------------------------------------------

/// The balance of a sync for people.
pub open spec fn sync_balance_text(b: AccountBalance) -> Seq<char> {
    let booked = match b.available {
        Some(a) => "Balance: "@ + money(b.amount, b.currency@) + " (available: "@ + money(
            a,
            b.currency@,
        ) + "; as of "@ + b.date@ + ")\n"@,
        None => "Balance: "@ + money(b.amount, b.currency@) + " (as of "@ + b.date@ + ")\n"@,
    };
    let pending = match (b.pending_amount, b.pending_date) {
        (Some(p), Some(d)) => "Pending: "@ + money(p, b.currency@) + " (as of "@ + d@ + ")\n"@,
        _ => ""@,
    };
    booked + pending
}

fn sync_balance(b: &AccountBalance) -> (r: String)
    ensures
        r@ == sync_balance_text(*b),
{
    let mut out = "Balance: ".to_string();
    push_money(&mut out, &b.amount, b.currency.as_str());
    match &b.available {
        Some(a) => {
            out.append(" (available: ");
            push_money(&mut out, a, b.currency.as_str());
            out.append("; as of ");
        },
        None => {
            out.append(" (as of ");
        },
    }
    out.append(b.date.as_str());
    out.append(")\n");
    let pending = match (&b.pending_amount, &b.pending_date) {
        (Some(p), Some(d)) => {
            let mut t = "Pending: ".to_string();
            push_money(&mut t, p, b.currency.as_str());
            t.append(" (as of ");
            t.append(d.as_str());
            t.append(")\n");
            t
        },
        _ => "".to_string(),
    };
    out.append(pending.as_str());
    out
}

/// The head of a sync for people: account, BIC where there is one, balance where there is one.
pub open spec fn sync_heading(result: SyncResult) -> Seq<char> {
    "\nAccount: "@ + iban::displayed_iban(result.iban@) + "\n"@ + (if result.bic@.len() > 0 {
        "BIC:     "@ + result.bic@ + "\n"@
    } else {
        ""@
    }) + (match result.balance {
        Some(b) => sync_balance_text(b),
        None => ""@,
    })
}

/// A sync for people, with the total of the positions.
pub open spec fn sync_text(result: SyncResult, total: Option<Parts>) -> Seq<char> {
    sync_heading(result) + (if result.transactions@.len() == 0 && result.holdings@.len() == 0 {
        "(no transaction or holdings data)\n"@
    } else {
        transactions_text(result.transactions@) + holdings_text(result.holdings@, total)
    })
}

/// A sync for people, or nothing where the total of the positions is out of range.
pub fn sync_human(result: &SyncResult) -> (r: Option<String>)
    requires
        has_whole_parties(result.transactions@),
        has_whole_names(result.holdings@),
    ensures
        match eur_total(result.holdings@) {
            Some(total) => r is Some && r->0@ == sync_text(*result, total),
            None => r is None,
        },
        totals_exactly(result.holdings@),
{
    let mut bic = "".to_string();
    if !result.bic.as_str().is_empty() {
        bic = "BIC:     ".to_string();
        bic.append(result.bic.as_str());
        bic.append("\n");
    }
    let balance = match &result.balance {
        Some(b) => sync_balance(b),
        None => "".to_string(),
    };
    let mut out = "\nAccount: ".to_string();
    out.append(iban::format_iban_display(result.iban.as_str()).as_str());
    out.append("\n");
    out.append(bic.as_str());
    out.append(balance.as_str());
    assert(out@ == sync_heading(*result));
    let data = if result.transactions.len() == 0 && result.holdings.len() == 0 {
        assert(eur_total(result.holdings@) == Some(None::<Parts>));
        "(no transaction or holdings data)\n".to_string()
    } else {
        let holdings = match holdings_human(&result.holdings) {
            Some(t) => t,
            None => {
                return None;
            },
        };
        let mut t = transactions_human(&result.transactions);
        t.append(holdings.as_str());
        t
    };
    out.append(data.as_str());
    Some(out)
}

/// What was fetched of each account for people, one account after the other, or nothing where the
/// total of an account's positions is out of range.
pub open spec fn syncs_text(results: Seq<SyncResult>) -> Option<Seq<char>>
    decreases results.len(),
{
    if results.len() == 0 {
        Some(Seq::empty())
    } else {
        match (syncs_text(results.drop_last()), eur_total(results.last().holdings@)) {
            (Some(front), Some(total)) => Some(front + sync_text(results.last(), total)),
            _ => None,
        }
    }
}

/// No party and no name is cut inside a character.
pub open spec fn can_be_shown(results: Seq<SyncResult>) -> bool {
    forall|i: int|
        0 <= i < results.len() ==> has_whole_parties((#[trigger] results[i]).transactions@)
            && has_whole_names(results[i].holdings@)
}

/// Whether no party and no name is cut inside a character.
pub fn whole_results(results: &Vec<SyncResult>) -> (r: bool)
    ensures
        r == can_be_shown(results@),
{
    let mut i: usize = 0;
    while i < results.len()
        invariant
            i <= results@.len(),
            forall|j: int|
                0 <= j < i ==> has_whole_parties((#[trigger] results@[j]).transactions@)
                    && has_whole_names(results@[j].holdings@),
        decreases results@.len() - i,
    {
        if !whole_parties(&results[i].transactions) || !whole_names(&results[i].holdings) {
            assert(!(has_whole_parties(results@[i as int].transactions@) && has_whole_names(
                results@[i as int].holdings@,
            )));
            return false;
        }
        i += 1;
    }
    true
}

proof fn lemma_syncs_stay_out(results: Seq<SyncResult>, n: int)
    requires
        0 <= n <= results.len(),
        syncs_text(results.take(n)) is None,
    ensures
        syncs_text(results) is None,
    decreases results.len(),
{
    if n < results.len() {
        assert(results.drop_last().take(n) =~= results.take(n));
        lemma_syncs_stay_out(results.drop_last(), n);
    } else {
        assert(results.take(n) =~= results);
    }
}

/// The sums of the market values in euros of each account stay in range.
pub open spec fn all_add_up(results: Seq<SyncResult>) -> bool {
    forall|i: int| 0 <= i < results.len() ==> adds_up_exactly((#[trigger] results[i]).holdings@)
}

/// The total in euros of each account is exact.
pub open spec fn all_total_exactly(results: Seq<SyncResult>) -> bool {
    forall|i: int| 0 <= i < results.len() ==> totals_exactly((#[trigger] results[i]).holdings@)
}

proof fn lemma_one_more_total(results: Seq<SyncResult>, i: int)
    requires
        0 <= i < results.len(),
        all_total_exactly(results.take(i)),
        totals_exactly(results[i].holdings@),
    ensures
        all_total_exactly(results.take(i + 1)),
{
    let next = results.take(i + 1);
    assert forall|j: int| 0 <= j < next.len() implies totals_exactly(
        (#[trigger] next[j]).holdings@,
    ) by {
        if j < i {
            assert(next[j] == results.take(i)[j]);
        }
    }
}

/// What was fetched of each account for people.
#[verifier::spinoff_prover]
pub fn syncs_human(results: &Vec<SyncResult>) -> (r: Option<String>)
    requires
        can_be_shown(results@),
    ensures
        match syncs_text(results@) {
            Some(t) => r is Some && r->0@ == t,
            None => r is None,
        },
        all_add_up(results@) ==> r is Some && all_total_exactly(results@),
{
    let mut out = String::new();
    let mut i: usize = 0;
    assert(results@.take(0) =~= Seq::empty());
    while i < results.len()
        invariant
            i <= results@.len(),
            can_be_shown(results@),
            syncs_text(results@.take(i as int)) == Some(out@),
            all_total_exactly(results@.take(i as int)),
        decreases results@.len() - i,
    {
        assert(results@.take(i + 1).drop_last() =~= results@.take(i as int));
        assert(has_whole_parties(results@[i as int].transactions@));
        match sync_human(&results[i]) {
            Some(t) => {
                proof {
                    lemma_one_more_total(results@, i as int);
                }
                out.append(t.as_str());
            },
            None => {
                proof {
                    lemma_syncs_stay_out(results@, i + 1);
                    assert(!adds_up_exactly(results@[i as int].holdings@));
                }
                return None;
            },
        }
        i += 1;
    }
    assert(results@.take(i as int) =~= results@);
    Some(out)
}

} // verus!
