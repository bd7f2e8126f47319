//! What the printed reports say, read back: which amounts, dates and items stand in them, and
//! where. The laws here speak of the values that go in and of the text that comes out.
use vstd::arithmetic::power;
use vstd::prelude::*;

use crate::amount;
use crate::amount::{Amount, Parts};
use crate::bank_report;
use crate::dates;
use crate::dates::Period;
use crate::flow::SyncResult;
use crate::iban;
use crate::overview;
use crate::report;
use crate::selection::ResolvedBank;
use crate::session::{SepaAccountSer, SessionFile, TanMethodSer};
use crate::text;
use crate::types::{
    AccountBalance, BankParams, SecurityHolding, SepaAccount, SystemId, TanMethod, Transaction,
};

verus! {

// ---------------------------------------------------------------------------------------------
// Parts
// ---------------------------------------------------------------------------------------------

/// `t` shows the amount `a`, and behind it its currency.
pub open spec fn is_money(t: Seq<char>, a: Parts, currency: Seq<char>) -> bool {
    exists|shown: Seq<char>| #[trigger]
        amount::shows_amount(shown, a) && t == shown + " "@ + currency
}

/// `t` is a line with a label and the amount, or nothing where there is no amount.
pub open spec fn is_amount_line(
    t: Seq<char>,
    label: Seq<char>,
    a: Option<Amount>,
    currency: Seq<char>,
) -> bool {
    match a {
        Some(v) => exists|m: Seq<char>| #[trigger]
            is_money(m, v@, currency) && t == label + m + "\n"@,
        None => t == Seq::<char>::empty(),
    }
}

/// `t` is the date of the day `day`, as its year, month and day are written.
pub open spec fn is_written_date(t: Seq<char>, day: int) -> bool {
    forall|y: int, m: int, d: int|
        dates::is_date(y, m, d) && #[trigger] dates::day_number(y, m, d) == day ==> t
            == dates::date_written(y, m, d)
}

/// `t` is the beginning of `whole`: all of it where it has no more than `max` bytes, else its
/// first `max` bytes.
pub open spec fn is_beginning(t: Seq<char>, whole: Seq<char>, max: nat) -> bool {
    &&& t.len() <= whole.len()
    &&& whole.take(t.len() as int) == t
    &&& text::byte_len(whole) <= max ==> t == whole
    &&& text::byte_len(whole) > max ==> text::byte_len(t) == max
}

/// `t` is the text that is there, or the text that stands in its place.
pub open spec fn is_text_or(t: Seq<char>, o: Option<String>, default: Seq<char>) -> bool {
    &&& o is Some ==> t == o->0@
    &&& o is None ==> t == default
}

proof fn lemma_money(a: Amount, currency: Seq<char>)
    ensures
        is_money(report::money(a, currency), a@, currency),
{
    amount::law_amount_is_shown(a@);
}

proof fn lemma_date(day: int)
    ensures
        is_written_date(dates::day_text(day), day),
{
    assert forall|y: int, m: int, d: int|
        dates::is_date(y, m, d) && #[trigger] dates::day_number(y, m, d)
            == day implies dates::day_text(day) == dates::date_written(y, m, d) by {
        assert(dates::is_date_text(day, dates::date_written(y, m, d)));
        dates::law_day_has_one_text(day, dates::date_written(y, m, d));
    }
}

proof fn lemma_beginning(whole: Seq<char>, max: nat)
    requires
        text::cuttable(whole, max),
    ensures
        is_beginning(text::cut(whole, max), whole, max),
{
    text::law_cut_keeps_the_beginning(whole, max);
}

// ---------------------------------------------------------------------------------------------
// Balance
// ---------------------------------------------------------------------------------------------

/// A balance is shown under its account, with its name where it has one. The booked amount is
/// shown with its sign, its currency and its date, and under it what is available and the credit
/// line, each where the bank names it.
#[verifier::spinoff_prover]
pub proof fn law_balance_is_shown(
    account: Seq<char>,
    balance: AccountBalance,
    name: Option<Seq<char>>,
)
    ensures
        exists|booked: Seq<char>, available: Seq<char>, credit: Seq<char>|
            #![trigger is_money(booked, balance.amount@, balance.currency@), is_amount_line(available, "Available: "@, balance.available, balance.currency@), is_amount_line(credit, "Credit line: "@, balance.credit_line, balance.currency@)]
            {
                &&& is_money(booked, balance.amount@, balance.currency@)
                &&& is_amount_line(
                    available,
                    "Available: "@,
                    balance.available,
                    balance.currency@,
                )
                &&& is_amount_line(
                    credit,
                    "Credit line: "@,
                    balance.credit_line,
                    balance.currency@,
                )
                &&& report::balance_text(account, balance, name) == "Account: "@
                    + iban::displayed_iban(account) + (if name is Some {
                    " ("@ + name->0 + ")"@
                } else {
                    ""@
                }) + "\n"@ + ("Balance: "@ + booked + " (as of "@ + balance.date@ + ")\n"@)
                    + available + credit
            },
{
    let c = balance.currency@;
    let booked = report::money(balance.amount, c);
    lemma_money(balance.amount, c);
    reveal_strlit("");
    let available = match balance.available {
        Some(a) => "Available: "@ + report::money(a, c) + "\n"@,
        None => ""@,
    };
    let credit = match balance.credit_line {
        Some(a) => "Credit line: "@ + report::money(a, c) + "\n"@,
        None => ""@,
    };
    if let Some(a) = balance.available {
        lemma_money(a, c);
    } else {
        assert(available =~= Seq::empty());
    }
    if let Some(a) = balance.credit_line {
        lemma_money(a, c);
    } else {
        assert(credit =~= Seq::empty());
    }
    assert(is_amount_line(available, "Available: "@, balance.available, c));
    assert(is_amount_line(credit, "Credit line: "@, balance.credit_line, c));
    assert(is_money(booked, balance.amount@, c));
}

/// As a record, a balance has its date, its exact amount with all its digits, and its currency.
pub proof fn law_balance_record(balance: AccountBalance)
    ensures
        exists|written: Seq<char>| #[trigger]
            amount::writes_amount(written, balance.amount@, balance.amount@.scale)
                && report::balance_record(balance) == "date,amount,currency\n"@ + balance.date@
                + ","@ + written + ","@ + balance.currency@ + "\n"@,
{
    amount::law_amount_is_written(balance.amount@, balance.amount@.scale);
}

/// A balance is shown with the product of the first account of the session, where there is one.
pub proof fn law_product_of_a_balance(session: Option<&SessionFile>)
    ensures
        session is None ==> report::shown_product(session) is None,
        session matches Some(s) ==> (s.accounts@.len() == 0 ==> report::shown_product(session)
            is None),
        session matches Some(s) ==> (s.accounts@.len() > 0 ==> report::shown_product(session)
            == s.accounts@.first().product_name),
{
}

// ---------------------------------------------------------------------------------------------
// Transactions
// ---------------------------------------------------------------------------------------------

/// What a transaction is shown with: the other party where it is named, else the purpose, else a
/// dash.
pub open spec fn is_party(t: Seq<char>, tx: Transaction) -> bool {
    &&& tx.applicant_name is Some ==> t == tx.applicant_name->0@
    &&& tx.applicant_name is None && tx.purpose is Some ==> t == tx.purpose->0@
    &&& tx.applicant_name is None && tx.purpose is None ==> t == "—"@
}

/// `line` is one line about `tx`: its date, its amount with a plus sign unless it is below zero,
/// its currency, and the beginning of its party.
pub open spec fn is_transaction_line(line: Seq<char>, tx: Transaction) -> bool {
    exists|date: Seq<char>, m: Seq<char>, whole: Seq<char>, who: Seq<char>|
        #![trigger is_written_date(date, tx.date@), is_money(m, tx.amount@, tx.currency@), is_party(whole, tx), is_beginning(who, whole, 45)]
        {
            &&& is_written_date(date, tx.date@)
            &&& is_money(m, tx.amount@, tx.currency@)
            &&& is_party(whole, tx)
            &&& is_beginning(who, whole, 45)
            &&& line == "  "@ + date + "  "@ + (if tx.amount@.negative && tx.amount@.magnitude > 0 {
                ""@
            } else {
                "+"@
            }) + m + "  "@ + who + "\n"@
        }
}

#[verifier::spinoff_prover]
proof fn lemma_transaction_line(tx: Transaction)
    requires
        text::cuttable(report::party(tx), 45),
    ensures
        is_transaction_line(report::transaction_line(tx), tx),
{
    let date = dates::day_text(tx.date@);
    let m = report::money(tx.amount, tx.currency@);
    let whole = report::party(tx);
    let who = text::cut(whole, 45);
    lemma_date(tx.date@);
    lemma_money(tx.amount, tx.currency@);
    lemma_beginning(whole, 45);
    assert(is_written_date(date, tx.date@));
    assert(is_money(m, tx.amount@, tx.currency@));
    assert(is_party(whole, tx));
    assert(is_beginning(who, whole, 45));
}

/// What stands above a list of `n` transactions.
pub open spec fn is_transactions_heading(t: Seq<char>, n: nat) -> bool {
    exists|number: Seq<char>| #[trigger]
        text::reads_as_number(number, n as int) && t == "\nTransactions ("@ + number + "):\n"@
}

/// Every transaction has its line. A list of no transactions is its heading, and one more
/// transaction adds one to the number in the heading and its own line behind those before it.
#[verifier::spinoff_prover]
pub proof fn law_one_more_transaction(transactions: Seq<Transaction>, tx: Transaction)
    requires
        text::cuttable(report::party(tx), 45),
    ensures
        is_transactions_heading(report::transactions_text(Seq::empty()), 0),
        exists|head: Seq<char>, next_head: Seq<char>, lines: Seq<char>, line: Seq<char>|
            #![trigger is_transactions_heading(head, transactions.len()), is_transactions_heading(next_head, transactions.len() + 1), is_transaction_line(line, tx), text::is_made_of(report::transactions_text(transactions), head, lines)]
            {
                &&& is_transactions_heading(head, transactions.len())
                &&& is_transactions_heading(next_head, transactions.len() + 1)
                &&& is_transaction_line(line, tx)
                &&& text::is_made_of(report::transactions_text(transactions), head, lines)
                &&& report::transactions_text(transactions.push(tx)) == next_head + (lines + line)
            },
{
    let n = transactions.len();
    let f = |t: Transaction| report::transaction_line(t);
    let head = "\nTransactions ("@ + text::decimal(n) + "):\n"@;
    let next_head = "\nTransactions ("@ + text::decimal(n + 1) + "):\n"@;
    let lines = text::lines_of(transactions, f);
    let line = report::transaction_line(tx);
    text::law_numeral_is_read_back(0);
    text::law_numeral_is_read_back(n);
    text::law_numeral_is_read_back(n + 1);
    lemma_transaction_line(tx);
    text::law_every_item_has_its_line(transactions, tx, Seq::empty(), f);
    let none = Seq::<Transaction>::empty();
    assert(report::transactions_text(none) =~= "\nTransactions ("@ + text::decimal(0) + "):\n"@);
    assert(is_transactions_heading(report::transactions_text(none), 0));
    assert(is_transactions_heading(head, n));
    assert(is_transactions_heading(next_head, n + 1));
    assert(text::is_made_of(report::transactions_text(transactions), head, lines));
    assert(report::transactions_text(transactions.push(tx)) =~= next_head + (lines + line));
}

/// In a list of transactions, the line of each of them stands behind the lines of those before it
/// and before the lines of those after it.
#[verifier::spinoff_prover]
pub proof fn law_every_transaction_is_listed(transactions: Seq<Transaction>, i: int)
    requires
        report::has_whole_parties(transactions),
        0 <= i < transactions.len(),
    ensures
        exists|head: Seq<char>, first_head: Seq<char>, last_head: Seq<char>, before: Seq<char>, line: Seq<char>, after: Seq<char>|
            #![trigger is_transactions_heading(head, transactions.len()), is_transactions_heading(first_head, i as nat), is_transactions_heading(last_head, (transactions.len() - i - 1) as nat), is_transaction_line(line, transactions[i]), text::is_made_of(report::transactions_text(transactions.take(i)), first_head, before), text::is_made_of(report::transactions_text(transactions.skip(i + 1)), last_head, after)]
            {
                &&& is_transactions_heading(head, transactions.len())
                &&& is_transactions_heading(first_head, i as nat)
                &&& is_transactions_heading(last_head, (transactions.len() - i - 1) as nat)
                &&& is_transaction_line(line, transactions[i])
                &&& text::is_made_of(
                    report::transactions_text(transactions.take(i)),
                    first_head,
                    before,
                )
                &&& text::is_made_of(
                    report::transactions_text(transactions.skip(i + 1)),
                    last_head,
                    after,
                )
                &&& report::transactions_text(transactions) == head + (before + line + after)
            },
{
    let f = |t: Transaction| report::transaction_line(t);
    let n = transactions.len();
    let a = transactions.take(i);
    let tx = transactions[i];
    let b = transactions.skip(i + 1);
    let before = text::lines_of(a, f);
    let line = report::transaction_line(tx);
    let after = text::lines_of(b, f);
    text::law_every_item_has_its_line(a, tx, Seq::empty(), f);
    text::law_every_item_has_its_line(a.push(tx), tx, b, f);
    assert(transactions =~= a.push(tx) + b);
    text::law_numeral_is_read_back(n);
    text::law_numeral_is_read_back(i as nat);
    text::law_numeral_is_read_back((n - i - 1) as nat);
    lemma_transaction_line(tx);
    let head = "\nTransactions ("@ + text::decimal(n) + "):\n"@;
    let first_head = "\nTransactions ("@ + text::decimal(i as nat) + "):\n"@;
    let last_head = "\nTransactions ("@ + text::decimal((n - i - 1) as nat) + "):\n"@;
    assert(is_transactions_heading(head, n));
    assert(is_transactions_heading(first_head, i as nat));
    assert(is_transactions_heading(last_head, (n - i - 1) as nat));
    assert(text::is_made_of(report::transactions_text(a), first_head, before));
    assert(text::is_made_of(report::transactions_text(b), last_head, after));
    assert(report::transactions_text(transactions) == head + (before + line + after));
}

/// Of the transactions that the bank sent, each one that is dated from the first to the last day
/// of the period is listed, in the order in which they came, and no other one.
pub proof fn law_period_takes_its_days(all: Seq<Transaction>, tx: Transaction, period: Period)
    ensures
        report::in_period(Seq::empty(), period) == Seq::<Transaction>::empty(),
        period.from <= tx.date@ <= period.to ==> report::in_period(all.push(tx), period)
            == report::in_period(all, period).push(tx),
        !(period.from <= tx.date@ <= period.to) ==> report::in_period(all.push(tx), period)
            == report::in_period(all, period),
{
    reveal(Seq::filter);
    assert(all.push(tx).drop_last() =~= all);
}

/// Above the transactions of a period stand the account and the first and the last day, and under
/// them the list of these transactions.
pub proof fn law_period_is_shown(account: Seq<char>, period: Period, all: Seq<Transaction>)
    ensures
        exists|from: Seq<char>, to: Seq<char>|
            #![trigger is_written_date(from, period.from as int), is_written_date(to, period.to as int)]
            {
                &&& is_written_date(from, period.from as int)
                &&& is_written_date(to, period.to as int)
                &&& report::period_list(account, period, all) == "Account: "@
                    + iban::displayed_iban(account) + "\nPeriod: "@ + from + " to "@ + to + "\n"@
                    + report::transactions_text(report::in_period(all, period))
            },
{
    lemma_date(period.from as int);
    lemma_date(period.to as int);
    assert(is_written_date(dates::day_text(period.from as int), period.from as int));
    assert(is_written_date(dates::day_text(period.to as int), period.to as int));
}

/// A table of transactions has a record for each of them under the names of its columns, and each
/// record has the date, the value date, the exact amount, the currency, the other party and its
/// IBAN, the purpose, the posting text and the status of its transaction, in this order.
#[verifier::spinoff_prover]
pub proof fn law_transactions_as_records(transactions: Seq<Transaction>, i: int)
    requires
        0 <= i < transactions.len(),
    ensures
        report::transaction_records(transactions).len() == transactions.len() + 1,
        report::transaction_records(transactions)[0] == seq![
            "date"@,
            "valuta_date"@,
            "amount"@,
            "currency"@,
            "applicant"@,
            "applicant_iban"@,
            "purpose"@,
            "posting_text"@,
            "status"@,
        ],
        ({
            let record = report::transaction_records(transactions)[i + 1];
            let tx = transactions[i];
            &&& record.len() == 9
            &&& is_written_date(record[0], tx.date@)
            &&& is_text_or(record[1], tx.valuta_date, ""@)
            &&& amount::writes_amount(record[2], tx.amount@, tx.amount@.scale)
            &&& record[3] == tx.currency@
            &&& is_text_or(record[4], tx.applicant_name, ""@)
            &&& tx.applicant_iban is Some ==> record[5] == tx.applicant_iban->0@
            &&& tx.applicant_iban is None ==> record[5] == ""@
            &&& is_text_or(record[6], tx.purpose, ""@)
            &&& is_text_or(record[7], tx.posting_text, ""@)
            &&& record[8] == tx.status@
        }),
{
    let tx = transactions[i];
    lemma_date(tx.date@);
    amount::law_amount_is_written(tx.amount@, tx.amount@.scale);
    assert(report::transaction_records(transactions)[i + 1] == report::transaction_record(tx));
}

/// The table of a sync has a record for each transaction under the names of its columns, with the
/// date, the exact amount, the currency, the other party and the purpose, in this order.
pub proof fn law_sync_as_records(transactions: Seq<Transaction>, i: int)
    requires
        0 <= i < transactions.len(),
    ensures
        report::sync_records(transactions).len() == transactions.len() + 1,
        report::sync_records(transactions)[0] == seq![
            "date"@,
            "amount"@,
            "currency"@,
            "applicant"@,
            "purpose"@,
        ],
        ({
            let record = report::sync_records(transactions)[i + 1];
            let tx = transactions[i];
            &&& record.len() == 5
            &&& is_written_date(record[0], tx.date@)
            &&& amount::writes_amount(record[1], tx.amount@, tx.amount@.scale)
            &&& record[2] == tx.currency@
            &&& is_text_or(record[3], tx.applicant_name, ""@)
            &&& is_text_or(record[4], tx.purpose, ""@)
        }),
{
    let tx = transactions[i];
    lemma_date(tx.date@);
    amount::law_amount_is_written(tx.amount@, tx.amount@.scale);
    assert(report::sync_records(transactions)[i + 1] == report::sync_record(tx));
}

// ---------------------------------------------------------------------------------------------
// Holdings
// ---------------------------------------------------------------------------------------------

/// A position counts in euros exactly where it has a market value and the currency of that value
/// reads `EUR`, and it counts with that value.
pub proof fn law_value_in_euros(h: SecurityHolding)
    ensures
        report::eur_value(h) is Some <==> h.market_value is Some && h.market_value_currency is Some
            && h.market_value_currency->0@ == "EUR"@,
        report::eur_value(h) matches Some(v) ==> v == h.market_value->0@,
{
}

/// A position without a market value, or with one in another currency than euros, leaves the
/// total as it is.
pub proof fn law_other_currencies_leave_the_total(
    holdings: Seq<SecurityHolding>,
    h: SecurityHolding,
    scale: nat,
)
    requires
        h.market_value is None || h.market_value_currency is None
            || h.market_value_currency->0@ != "EUR"@,
    ensures
        report::eur_total(holdings.push(h)) == report::eur_total(holdings),
        report::eur_units(holdings.push(h), scale) == report::eur_units(holdings, scale),
        report::eur_scale(holdings.push(h)) == report::eur_scale(holdings),
{
    assert(holdings.push(h).drop_last() =~= holdings);
}

/// There is no total without positions. A position with a market value in euros adds that value
/// to the total, and is the total where there was none before.
pub proof fn law_euros_are_added(
    holdings: Seq<SecurityHolding>,
    h: SecurityHolding,
    scale: nat,
)
    requires
        h.market_value is Some,
        h.market_value_currency is Some,
        h.market_value_currency->0@ == "EUR"@,
    ensures
        report::eur_total(Seq::empty()) == Some(None::<Parts>),
        report::eur_units(Seq::empty(), scale) == 0,
        report::eur_units(holdings.push(h), scale) == report::eur_units(holdings, scale)
            + amount::units_at(h.market_value->0@, scale),
        report::eur_total(holdings) == Some(None::<Parts>) ==> report::eur_total(holdings.push(h))
            == Some(Some(h.market_value->0@)),
        report::eur_total(holdings) matches Some(Some(t)) ==> match amount::decimal_sum(
            t,
            h.market_value->0@,
        ) {
            Some(sum) => report::eur_total(holdings.push(h)) == Some(Some(sum)),
            None => report::eur_total(holdings.push(h)) is None,
        },
        report::eur_total(holdings) is None ==> report::eur_total(holdings.push(h)) is None,
{
    assert(holdings.push(h).drop_last() =~= holdings);
}

/// The units of an amount are its digits with its sign; with more digits behind the point they are
/// worth the same.
pub proof fn law_units_of_an_amount(a: Parts, scale: nat)
    requires
        a.scale <= scale,
    ensures
        amount::units_at(a, a.scale) == (if a.negative {
            -(a.magnitude as int)
        } else {
            a.magnitude as int
        }),
        amount::units_at(a, scale) * power::pow(10, a.scale) == amount::units_at(a, a.scale)
            * power::pow(10, scale),
{
    let m = amount::signed_magnitude(a);
    let p = power::pow(10, (scale - a.scale) as nat);
    let q = power::pow(10, a.scale);
    power::lemma_pow0(10);
    power::lemma_pow_adds(10, (scale - a.scale) as nat, a.scale);
    assert(m * 1 == m);
    assert((m * p) * q == m * (p * q)) by (nonlinear_arith);
}

/// `t` shows an amount with its currency where that is known, or a dash where there is no amount.
pub open spec fn is_priced(t: Seq<char>, a: Option<Amount>, currency: Option<String>) -> bool {
    &&& a is None ==> t == "—"@
    &&& a is Some && currency is Some ==> is_money(t, a->0@, currency->0@)
    &&& a is Some && currency is None ==> amount::shows_amount(t, a->0@)
}

/// `t` shows a profit with a plus sign or a loss with its minus sign, or nothing where it is not
/// known.
pub open spec fn is_profit(t: Seq<char>, p: Option<Amount>) -> bool {
    match p {
        Some(a) => exists|shown: Seq<char>| #[trigger]
            amount::shows_amount(shown, a@) && t == "  "@ + (if a@.negative && a@.magnitude > 0 {
                ""@
            } else {
                "+"@
            }) + shown,
        None => t == ""@,
    }
}

/// `t` has the ISIN of a position or a dash, and its WKN where there is one.
pub open spec fn is_identifiers(t: Seq<char>, h: SecurityHolding) -> bool {
    exists|isin: Seq<char>| #[trigger]
        is_text_or(isin, h.isin, "—"@) && t == (if h.wkn is Some && h.wkn->0@.len() > 0 {
            isin + " / "@ + h.wkn->0@
        } else {
            isin
        })
}

/// `line` is one line about the position `h`: the beginning of its name, its identifiers, its
/// units, its price with its date, its value, and its profit or loss.
pub open spec fn is_position_line(line: Seq<char>, h: SecurityHolding) -> bool {
    exists|name: Seq<char>, ids: Seq<char>, units: Seq<char>, price: Seq<char>, value: Seq<char>, profit: Seq<char>|
        #![trigger is_beginning(name, h.name@, 32), is_identifiers(ids, h), amount::shows_amount(units, h.quantity@), is_priced(price, h.price, h.price_currency), is_priced(value, h.market_value, h.market_value_currency), is_profit(profit, h.profit_loss)]
        {
            &&& is_beginning(name, h.name@, 32)
            &&& is_identifiers(ids, h)
            &&& amount::shows_amount(units, h.quantity@)
            &&& is_priced(price, h.price, h.price_currency)
            &&& is_priced(value, h.market_value, h.market_value_currency)
            &&& is_profit(profit, h.profit_loss)
            &&& line == "  "@ + text::padded_right(name, 32) + "  "@ + text::padded_right(ids, 14)
                + "  "@ + text::padded_left(units, 8) + "  "@ + text::padded_left(
                price + (if h.price_date is Some {
                    " ("@ + h.price_date->0@ + ")"@
                } else {
                    ""@
                }),
                16,
            ) + "  "@ + text::padded_left(value, 16) + profit + "\n"@
        }
}

proof fn lemma_priced(a: Option<Amount>, currency: Option<String>)
    ensures
        is_priced(report::money_or_dash(a, currency), a, currency),
{
    if let Some(v) = a {
        amount::law_amount_is_shown(v@);
        if let Some(c) = currency {
            lemma_money(v, c@);
        }
    }
}

#[verifier::spinoff_prover]
proof fn lemma_position_line(h: SecurityHolding)
    requires
        text::cuttable(h.name@, 32),
    ensures
        is_position_line(report::holding_line(h), h),
{
    let name = text::cut(h.name@, 32);
    let ids = report::security_ids(h);
    let units = amount::amount_text(h.quantity@);
    let price = report::money_or_dash(h.price, h.price_currency);
    let value = report::money_or_dash(h.market_value, h.market_value_currency);
    let profit = report::profit_text(h);
    reveal_strlit("");
    lemma_beginning(h.name@, 32);
    amount::law_amount_is_shown(h.quantity@);
    lemma_priced(h.price, h.price_currency);
    lemma_priced(h.market_value, h.market_value_currency);
    if let Some(p) = h.profit_loss {
        amount::law_amount_is_shown(p@);
        assert(amount::shows_amount(amount::amount_text(p@), p@));
    }
    assert(is_text_or(report::text_or(h.isin, "—"@), h.isin, "—"@));
    assert(is_identifiers(ids, h));
    assert(is_profit(profit, h.profit_loss));
    assert(is_beginning(name, h.name@, 32));
    assert(amount::shows_amount(units, h.quantity@));
    assert(is_priced(price, h.price, h.price_currency));
    assert(is_priced(value, h.market_value, h.market_value_currency));
}

/// A line of ninety strokes under two spaces.
pub open spec fn is_rule(t: Seq<char>) -> bool {
    &&& t.len() == 93
    &&& t[0] == ' ' && t[1] == ' '
    &&& forall|i: int| 2 <= i < 92 ==> #[trigger] t[i] == '─'
    &&& t[92] == '\n'
}

proof fn lemma_rule()
    ensures
        is_rule(report::rule_line()),
{
    reveal_strlit("  ");
    reveal_strlit("\n");
}

/// What stands above a list of `n` positions.
pub open spec fn is_positions_heading(t: Seq<char>, n: nat) -> bool {
    exists|number: Seq<char>, rule: Seq<char>|
        #![trigger text::reads_as_number(number, n as int), is_rule(rule)]
        {
            &&& text::reads_as_number(number, n as int)
            &&& is_rule(rule)
            &&& t == "\nSecurities / Depot ("@ + number + " positions):\n"@ + ("  "@
                + text::padded_right("Name"@, 32) + "  "@ + text::padded_right("ISIN"@, 14) + "  "@
                + text::padded_left("Units"@, 8) + "  "@ + text::padded_left("Price"@, 16) + "  "@
                + text::padded_left("Value"@, 16)) + "\n"@ + rule
        }
}

/// What stands under a list of positions: the total where there is one.
pub open spec fn is_total(t: Seq<char>, total: Option<Parts>) -> bool {
    match total {
        Some(a) => exists|shown: Seq<char>, rule: Seq<char>|
            #![trigger amount::shows_amount(shown, a), is_rule(rule)]
            amount::shows_amount(shown, a) && is_rule(rule) && t == rule + ("  "@
                + text::padded_right("Total (EUR positions)"@, 32) + "  "@ + text::padded_right(
                ""@,
                14,
            ) + "  "@ + text::padded_left(""@, 8) + "  "@ + text::padded_left(""@, 16) + "  "@
                + text::padded_left(shown + " EUR"@, 16)) + "\n"@,
        None => t == ""@,
    }
}

/// `t` is a list of `n` positions: its heading, the lines of the positions, and the total.
pub open spec fn is_positions_list(
    t: Seq<char>,
    n: nat,
    lines: Seq<char>,
    total: Option<Parts>,
) -> bool {
    exists|head: Seq<char>, foot: Seq<char>|
        #![trigger is_positions_heading(head, n), is_total(foot, total)]
        is_positions_heading(head, n) && is_total(foot, total) && t == head + lines + foot
}

proof fn lemma_positions_list(n: nat, lines: Seq<char>, total: Option<Parts>)
    ensures
        is_positions_list(
            report::holdings_heading(n) + lines + report::total_lines(total),
            n,
            lines,
            total,
        ),
{
    let head = report::holdings_heading(n);
    let foot = report::total_lines(total);
    text::law_numeral_is_read_back(n);
    lemma_rule();
    lemma_total(total);
    assert(text::reads_as_number(text::decimal(n), n as int));
    assert(is_rule(report::rule_line()));
    assert(is_positions_heading(head, n));
    assert(is_total(foot, total));
}

/// Every position has its line. No positions are no text; a list has its heading with the number
/// of its positions, their lines, and the total under them, and one more position has its line
/// behind those before it.
#[verifier::spinoff_prover]
pub proof fn law_one_more_position(
    holdings: Seq<SecurityHolding>,
    h: SecurityHolding,
    before: Option<Parts>,
    total: Option<Parts>,
)
    requires
        text::cuttable(h.name@, 32),
    ensures
        report::holdings_text(Seq::empty(), total) == ""@,
        exists|lines: Seq<char>, line: Seq<char>|
            #![trigger is_position_line(line, h), is_positions_list(report::holdings_text(holdings.push(h), total), holdings.len() + 1, lines + line, total)]
            {
                &&& is_position_line(line, h)
                &&& is_positions_list(
                    report::holdings_text(holdings.push(h), total),
                    holdings.len() + 1,
                    lines + line,
                    total,
                )
                &&& holdings.len() == 0 ==> lines.len() == 0
                &&& holdings.len() > 0 ==> is_positions_list(
                    report::holdings_text(holdings, before),
                    holdings.len(),
                    lines,
                    before,
                )
            },
{
    let n = holdings.len();
    let f = |x: SecurityHolding| report::holding_line(x);
    let lines = text::lines_of(holdings, f);
    let line = report::holding_line(h);
    lemma_position_line(h);
    lemma_positions_list(n, lines, before);
    lemma_positions_list(n + 1, lines + line, total);
    text::law_every_item_has_its_line(holdings, h, Seq::empty(), f);
    if n == 0 {
        assert(holdings =~= Seq::empty());
    }
    assert(is_positions_list(
        report::holdings_text(holdings.push(h), total),
        n + 1,
        lines + line,
        total,
    ));
}

proof fn lemma_total(total: Option<Parts>)
    ensures
        is_total(report::total_lines(total), total),
{
    if let Some(a) = total {
        amount::law_amount_is_shown(a);
        lemma_rule();
        assert(amount::shows_amount(amount::amount_text(a), a));
        assert(is_rule(report::rule_line()));
    }
}

/// `t` is an amount with all its digits, or no text where there is no amount.
pub open spec fn is_exact_or_empty(t: Seq<char>, a: Option<Amount>) -> bool {
    &&& a is Some ==> amount::writes_amount(t, a->0@, a->0@.scale)
    &&& a is None ==> t == ""@
}

/// A table of positions has a record for each of them under the names of its columns, and each
/// record has the name, the identifiers, the units, the price with its currency and date, the
/// value with its currency, and the profit or loss, with all their digits, in this order.
#[verifier::spinoff_prover]
pub proof fn law_positions_as_records(holdings: Seq<SecurityHolding>, i: int)
    requires
        0 <= i < holdings.len(),
    ensures
        report::holding_records(holdings).len() == holdings.len() + 1,
        report::holding_records(holdings)[0] == seq![
            "name"@,
            "isin"@,
            "wkn"@,
            "quantity"@,
            "price"@,
            "price_currency"@,
            "price_date"@,
            "market_value"@,
            "market_value_currency"@,
            "profit_loss"@,
        ],
        ({
            let record = report::holding_records(holdings)[i + 1];
            let h = holdings[i];
            &&& record.len() == 10
            &&& record[0] == h.name@
            &&& is_text_or(record[1], h.isin, ""@)
            &&& is_text_or(record[2], h.wkn, ""@)
            &&& amount::writes_amount(record[3], h.quantity@, h.quantity@.scale)
            &&& is_exact_or_empty(record[4], h.price)
            &&& is_text_or(record[5], h.price_currency, ""@)
            &&& is_text_or(record[6], h.price_date, ""@)
            &&& is_exact_or_empty(record[7], h.market_value)
            &&& is_text_or(record[8], h.market_value_currency, ""@)
            &&& is_exact_or_empty(record[9], h.profit_loss)
        }),
{
    let h = holdings[i];
    amount::law_amount_is_written(h.quantity@, h.quantity@.scale);
    if let Some(a) = h.price {
        amount::law_amount_is_written(a@, a@.scale);
    }
    if let Some(a) = h.market_value {
        amount::law_amount_is_written(a@, a@.scale);
    }
    if let Some(a) = h.profit_loss {
        amount::law_amount_is_written(a@, a@.scale);
    }
    assert(report::holding_records(holdings)[i + 1] == report::holding_record(h));
}

// ---------------------------------------------------------------------------------------------
// Sync
// ---------------------------------------------------------------------------------------------

/// `t` is the balance in a sync: the booked amount, what is available where the bank names it,
/// the date, and under it the pending amount where it has a date.
pub open spec fn is_sync_balance(t: Seq<char>, b: AccountBalance) -> bool {
    exists|booked: Seq<char>, available: Seq<char>, pending: Seq<char>|
        #![trigger is_money(booked, b.amount@, b.currency@), is_available(available, b), is_pending(pending, b)]
        {
            &&& is_money(booked, b.amount@, b.currency@)
            &&& is_available(available, b)
            &&& is_pending(pending, b)
            &&& t == "Balance: "@ + booked + available + b.date@ + ")\n"@ + pending
        }
}

/// `t` says what is available, and that a date follows.
pub open spec fn is_available(t: Seq<char>, b: AccountBalance) -> bool {
    match b.available {
        Some(a) => exists|m: Seq<char>| #[trigger]
            is_money(m, a@, b.currency@) && t == " (available: "@ + m + "; as of "@,
        None => t == " (as of "@,
    }
}

/// `t` is the line of the pending amount, or nothing where it or its date is not known.
pub open spec fn is_pending(t: Seq<char>, b: AccountBalance) -> bool {
    if b.pending_amount is Some && b.pending_date is Some {
        exists|m: Seq<char>| #[trigger]
            is_money(m, b.pending_amount->0@, b.currency@) && t == "Pending: "@ + m + " (as of "@
                + b.pending_date->0@ + ")\n"@
    } else {
        t == ""@
    }
}

#[verifier::spinoff_prover]
proof fn lemma_sync_balance(b: AccountBalance)
    ensures
        is_sync_balance(report::sync_balance_text(b), b),
{
    let booked = report::money(b.amount, b.currency@);
    lemma_money(b.amount, b.currency@);
    let available = match b.available {
        Some(a) => " (available: "@ + report::money(a, b.currency@) + "; as of "@,
        None => " (as of "@,
    };
    let pending = match (b.pending_amount, b.pending_date) {
        (Some(p), Some(d)) => "Pending: "@ + report::money(p, b.currency@) + " (as of "@ + d@
            + ")\n"@,
        _ => ""@,
    };
    if let Some(a) = b.available {
        lemma_money(a, b.currency@);
    }
    if let Some(p) = b.pending_amount {
        lemma_money(p, b.currency@);
    }
    assert(is_money(booked, b.amount@, b.currency@));
    assert(is_available(available, b));
    assert(is_pending(pending, b));
    assert(report::sync_balance_text(b) =~= "Balance: "@ + booked + available + b.date@ + ")\n"@
        + pending);
}

/// `t` is the line of the BIC, or nothing where there is none.
pub open spec fn is_bic_line(t: Seq<char>, bic: Seq<char>) -> bool {
    &&& bic.len() == 0 ==> t == ""@
    &&& bic.len() > 0 ==> t == "BIC:     "@ + bic + "\n"@
}

/// `t` is the balance of a sync, or nothing where there is none.
pub open spec fn is_balance_part(t: Seq<char>, balance: Option<AccountBalance>) -> bool {
    &&& balance is None ==> t == ""@
    &&& balance is Some ==> is_sync_balance(t, balance->0)
}

/// `t` is the list of the transactions and that of the positions with their total, or says that
/// there is nothing to list.
pub open spec fn is_data_part(t: Seq<char>, result: SyncResult, total: Option<Parts>) -> bool {
    &&& result.transactions@.len() == 0 && result.holdings@.len() == 0 ==> t
        == "(no transaction or holdings data)\n"@
    &&& result.transactions@.len() > 0 || result.holdings@.len() > 0 ==> t
        == report::transactions_text(result.transactions@) + report::holdings_text(
        result.holdings@,
        total,
    )
}

/// A sync shows the account, its BIC and its balance where they are known, and then the list of
/// its transactions and that of its positions with their total, or that there is nothing to list.
#[verifier::spinoff_prover]
pub proof fn law_sync_is_shown(result: SyncResult, total: Option<Parts>)
    ensures
        exists|bic: Seq<char>, balance: Seq<char>, data: Seq<char>|
            #![trigger is_bic_line(bic, result.bic@), is_balance_part(balance, result.balance), is_data_part(data, result, total)]
            {
                &&& is_bic_line(bic, result.bic@)
                &&& is_balance_part(balance, result.balance)
                &&& is_data_part(data, result, total)
                &&& report::sync_text(result, total) == "\nAccount: "@ + iban::displayed_iban(
                    result.iban@,
                ) + "\n"@ + bic + balance + data
            },
{
    let bic = if result.bic@.len() > 0 {
        "BIC:     "@ + result.bic@ + "\n"@
    } else {
        ""@
    };
    let balance = match result.balance {
        Some(b) => report::sync_balance_text(b),
        None => ""@,
    };
    let data = if result.transactions@.len() == 0 && result.holdings@.len() == 0 {
        "(no transaction or holdings data)\n"@
    } else {
        report::transactions_text(result.transactions@) + report::holdings_text(
            result.holdings@,
            total,
        )
    };
    if let Some(b) = result.balance {
        lemma_sync_balance(b);
    }
    assert(is_bic_line(bic, result.bic@));
    assert(is_balance_part(balance, result.balance));
    assert(is_data_part(data, result, total));
    assert(report::sync_heading(result) == "\nAccount: "@ + iban::displayed_iban(result.iban@)
        + "\n"@ + bic + balance);
}

/// Every account of a sync is shown, one after the other, each with the total of its positions;
/// nothing is shown only where such a total is out of range.
pub proof fn law_every_account_is_shown(results: Seq<SyncResult>, result: SyncResult)
    ensures
        report::syncs_text(Seq::empty()) == Some(Seq::<char>::empty()),
        report::syncs_text(results) is Some && report::eur_total(result.holdings@) is Some
            ==> report::syncs_text(results.push(result)) == Some(
            report::syncs_text(results)->0 + report::sync_text(
                result,
                report::eur_total(result.holdings@)->0,
            ),
        ),
        report::syncs_text(results) is None || report::eur_total(result.holdings@) is None
            ==> report::syncs_text(results.push(result)) is None,
{
    assert(results.push(result).drop_last() =~= results);
}

// ---------------------------------------------------------------------------------------------
// Sessions
// ---------------------------------------------------------------------------------------------

/// What is said of a system identifier.
pub open spec fn assigned_or_not(assigned: bool) -> Seq<char> {
    if assigned {
        "assigned"@
    } else {
        "unassigned"@
    }
}

/// `line` shows a session of the list: its name, its bank, its user, the beginning of its time and
/// whether its system identifier is assigned, which one that is empty or `0` is not.
pub open spec fn is_session_line(line: Seq<char>, name: Seq<char>, s: SessionFile) -> bool {
    exists|time: Seq<char>|
        {
            &&& #[trigger] is_beginning(time, s.saved_at@, 19)
            &&& line == text::padded_right(name, 15) + " "@ + text::padded_right(s.bank_id@, 15)
                + " "@ + text::padded_right(s.user_id@, 20) + " "@ + text::padded_right(time, 22)
                + " "@ + assigned_or_not(s.system_id@ != "0"@ && s.system_id@.len() > 0) + "\n"@
        }
}

/// Every session has its line in the list, behind those before it, under a heading with the
/// directory; a directory without sessions is named with how to get one.
#[verifier::spinoff_prover]
pub proof fn law_every_session_is_listed(
    dir: Seq<char>,
    sessions: Seq<(String, SessionFile)>,
    s: (String, SessionFile),
)
    requires
        text::cuttable(s.1.saved_at@, 19),
    ensures
        overview::sessions_text(dir, Seq::empty()) == "No sessions found in "@ + dir
            + "\nRun 'fints-client setup' to create one.\n"@,
        exists|lines: Seq<char>, line: Seq<char>|
            #![trigger is_session_line(line, s.0@, s.1), text::is_made_of(overview::sessions_text(dir, sessions.push(s)), lines, line)]
            {
                &&& is_session_line(line, s.0@, s.1)
                &&& text::is_made_of(overview::sessions_text(dir, sessions.push(s)), lines, line)
                &&& sessions.len() > 0 ==> overview::sessions_text(dir, sessions) == lines
                &&& sessions.len() == 0 ==> lines == "Sessions in "@ + dir + ":\n"@
                    + text::padded_right("Name"@, 15) + " "@ + text::padded_right("Bank"@, 15) + " "@
                    + text::padded_right("User"@, 20) + " "@ + text::padded_right("Saved"@, 22)
                    + " "@ + text::padded_right("System ID"@, 12) + "\n"@ + text::repeated('-', 87)
                    + "\n"@
            },
{
    let f = |x: (String, SessionFile)| overview::session_line(x);
    let head = overview::sessions_heading(dir);
    let lines = head + text::lines_of(sessions, f);
    let line = overview::session_line(s);
    let time = text::cut(s.1.saved_at@, 19);
    lemma_beginning(s.1.saved_at@, 19);
    text::law_every_item_has_its_line(sessions, s, Seq::empty(), f);
    assert(is_beginning(time, s.1.saved_at@, 19));
    assert(is_session_line(line, s.0@, s.1));
    assert(overview::sessions_text(dir, sessions.push(s)) =~= lines + line);
    assert(text::is_made_of(overview::sessions_text(dir, sessions.push(s)), lines, line));
    if sessions.len() == 0 {
        assert(sessions =~= Seq::empty());
        assert(lines =~= head);
    }
}

/// `t` shows a TAN method: its function, its name, and how it is polled where it is decoupled.
pub open spec fn is_method_line(
    t: Seq<char>,
    function: Seq<char>,
    name: Seq<char>,
    decoupled: bool,
    next_poll: int,
    max_polls: int,
) -> bool {
    t == "  #"@ + function + "  "@ + text::padded_right(name, 25) + " "@ + (if decoupled {
        "[decoupled, poll every "@ + text::signed_decimal(next_poll) + "s, max "@
            + text::signed_decimal(max_polls) + " polls]"@
    } else {
        "[two-step]"@
    }) + "\n"@
}

/// `t` shows an account with its product, or a dash, and its currency, which is the euro where none
/// is named.
pub open spec fn is_account_line(
    t: Seq<char>,
    shown_iban: Seq<char>,
    product: Option<String>,
    currency: Option<String>,
) -> bool {
    exists|p: Seq<char>, c: Seq<char>|
        #![trigger is_text_or(p, product, "—"@), is_text_or(c, currency, "EUR"@)]
        is_text_or(p, product, "—"@) && is_text_or(c, currency, "EUR"@) && t == "  "@ + shown_iban
            + (" ("@ + p + " "@ + c + ")\n"@)
}

/// A session in full has its bank, its user, its system identifier and its versions, then its TAN
/// methods, one after the other, which operations need a TAN, and its accounts, one after the
/// other.
#[verifier::spinoff_prover]
pub proof fn law_session_is_shown(name: Seq<char>, s: SessionFile)
    requires
        text::cuttable(s.system_id@, 20),
    ensures
        exists|id: Seq<char>|
            {
                &&& #[trigger] is_beginning(id, s.system_id@, 20)
                &&& overview::session_text(name, s) == "Session: "@ + name + "\nBank ID:   "@
                    + s.bank_id@ + "\nURL:       "@ + s.bank_url@ + "\nBLZ:       "@ + s.blz@
                    + "\nUser:      "@ + s.user_id@ + "\nSystem ID: "@ + id + " ("@ + assigned_or_not(
                    s.system_id@ != "0"@,
                ) + ")\nBPD v"@ + text::decimal(s.bpd_version as nat) + "  UPD v"@
                    + text::decimal(s.upd_version as nat) + "\nSaved: "@ + s.saved_at@
                    + "\n\nTAN methods ("@ + text::decimal(s.tan_methods@.len()) + "):\n"@
                    + text::lines_of(
                    s.tan_methods@,
                    |m: TanMethodSer| overview::saved_method_line(m),
                ) + overview::operations_text(s.operation_tan_required@)
                    + overview::saved_accounts_text(s.accounts@)
            },
        forall|m: TanMethodSer|
            is_method_line(
                #[trigger] overview::saved_method_line(m),
                m.security_function@,
                m.name@,
                m.is_decoupled,
                m.wait_before_next_poll as int,
                m.decoupled_max_polls as int,
            ),
{
    lemma_beginning(s.system_id@, 20);
    let id = text::cut(s.system_id@, 20);
    assert(is_beginning(id, s.system_id@, 20));
}

/// `t` has the number of `n` accounts and behind it their lines.
pub open spec fn is_accounts_list(t: Seq<char>, n: nat, lines: Seq<char>) -> bool {
    exists|number: Seq<char>| #[trigger]
        text::reads_as_number(number, n as int) && t == "\nAccounts ("@ + number + "):\n"@ + lines
}

proof fn lemma_accounts_list(n: nat, lines: Seq<char>)
    ensures
        is_accounts_list("\nAccounts ("@ + text::decimal(n) + "):\n"@ + lines, n, lines),
{
    text::law_numeral_is_read_back(n);
    assert(text::reads_as_number(text::decimal(n), n as int));
}

/// The accounts of a session are shown under their number, each in its own line behind those
/// before it; without accounts nothing is shown.
#[verifier::spinoff_prover]
pub proof fn law_accounts_of_a_session(accounts: Seq<SepaAccountSer>, a: SepaAccountSer)
    ensures
        overview::saved_accounts_text(Seq::empty()) == ""@,
        exists|lines: Seq<char>, line: Seq<char>|
            #![trigger is_account_line(line, iban::displayed_iban(a.iban@), a.product_name, a.currency), is_accounts_list(overview::saved_accounts_text(accounts.push(a)), accounts.len() + 1, lines + line)]
            {
                &&& is_account_line(
                    line,
                    iban::displayed_iban(a.iban@),
                    a.product_name,
                    a.currency,
                )
                &&& is_accounts_list(
                    overview::saved_accounts_text(accounts.push(a)),
                    accounts.len() + 1,
                    lines + line,
                )
                &&& accounts.len() == 0 ==> lines.len() == 0
                &&& accounts.len() > 0 ==> is_accounts_list(
                    overview::saved_accounts_text(accounts),
                    accounts.len(),
                    lines,
                )
            },
{
    let f = |x: SepaAccountSer| overview::saved_account_line(x);
    let lines = text::lines_of(accounts, f);
    let line = overview::saved_account_line(a);
    text::law_every_item_has_its_line(accounts, a, Seq::empty(), f);
    lemma_product(a.product_name, a.currency);
    assert(is_account_line(line, iban::displayed_iban(a.iban@), a.product_name, a.currency));
    if accounts.len() == 0 {
        assert(accounts =~= Seq::empty());
    }
    lemma_accounts_list(accounts.len(), lines);
    lemma_accounts_list(accounts.len() + 1, lines + line);
    assert(is_accounts_list(
        overview::saved_accounts_text(accounts.push(a)),
        accounts.len() + 1,
        lines + line,
    ));
}

proof fn lemma_product(product: Option<String>, currency: Option<String>)
    ensures
        exists|p: Seq<char>, c: Seq<char>|
            #![trigger is_text_or(p, product, "—"@), is_text_or(c, currency, "EUR"@)]
            is_text_or(p, product, "—"@) && is_text_or(c, currency, "EUR"@)
                && overview::product_text(product, currency) == " ("@ + p + " "@ + c + ")\n"@,
{
    assert(is_text_or(report::text_or(product, "—"@), product, "—"@));
    assert(is_text_or(report::text_or(currency, "EUR"@), currency, "EUR"@));
}

/// An operation is shown with its name and with whether it needs a TAN.
pub proof fn law_operation_is_shown(op: (String, bool))
    ensures
        op.1 ==> overview::operation_line(op) == "  "@ + op.0@ + ": "@ + "TAN required"@ + "\n"@,
        !op.1 ==> overview::operation_line(op) == "  "@ + op.0@ + ": "@ + "no TAN required"@
            + "\n"@,
        overview::operations_text(Seq::empty()) == ""@,
{
}

// ---------------------------------------------------------------------------------------------
// Banks
// ---------------------------------------------------------------------------------------------

/// The accounts of a bank are shown under their number, each in its own line behind those before
/// it: a valid IBAN in its display form, and any other one as it is with what is wrong with it.
#[verifier::spinoff_prover]
pub proof fn law_accounts_of_a_bank(accounts: Seq<SepaAccount>, a: SepaAccount)
    ensures
        bank_report::bank_accounts_text(Seq::empty()) == ""@,
        exists|lines: Seq<char>, line: Seq<char>, shown: Seq<char>|
            #![trigger is_account_line(line, shown, a.product_name, a.currency), is_accounts_list(bank_report::bank_accounts_text(accounts.push(a)), accounts.len() + 1, lines + line)]
            {
                &&& is_account_line(line, shown, a.product_name, a.currency)
                &&& iban::validated_iban(a.iban@) is Ok ==> shown == iban::displayed_iban(a.iban@)
                &&& iban::validated_iban(a.iban@) matches Err(e) ==> shown == a.iban@
                    + " [IBAN invalid: "@ + e + "]"@
                &&& is_accounts_list(
                    bank_report::bank_accounts_text(accounts.push(a)),
                    accounts.len() + 1,
                    lines + line,
                )
                &&& accounts.len() == 0 ==> lines.len() == 0
                &&& accounts.len() > 0 ==> is_accounts_list(
                    bank_report::bank_accounts_text(accounts),
                    accounts.len(),
                    lines,
                )
            },
{
    let f = |x: SepaAccount| bank_report::bank_account_line(x);
    let lines = text::lines_of(accounts, f);
    let line = bank_report::bank_account_line(a);
    let shown = match iban::validated_iban(a.iban@) {
        Ok(_) => iban::displayed_iban(a.iban@),
        Err(e) => a.iban@ + " [IBAN invalid: "@ + e + "]"@,
    };
    text::law_every_item_has_its_line(accounts, a, Seq::empty(), f);
    lemma_product(a.product_name, a.currency);
    let product = overview::product_text(a.product_name, a.currency);
    assert(line =~= "  "@ + shown + product);
    assert(is_account_line(line, shown, a.product_name, a.currency));
    if accounts.len() == 0 {
        assert(accounts =~= Seq::empty());
    }
    lemma_accounts_list(accounts.len(), lines);
    lemma_accounts_list(accounts.len() + 1, lines + line);
    assert(is_accounts_list(
        bank_report::bank_accounts_text(accounts.push(a)),
        accounts.len() + 1,
        lines + line,
    ));
}

/// `t` is the line with the list of the segments.
pub open spec fn is_segments_line(t: Seq<char>, list: Seq<char>) -> bool {
    t == "Segments: "@ + list + "\n"@
}

/// `t` is the type of a segment with its version.
pub open spec fn is_segment(t: Seq<char>, s: (String, u16)) -> bool {
    exists|version: Seq<char>| #[trigger]
        text::reads_as_number(version, s.1 as int) && t == s.0@ + "(v"@ + version + ")"@
}

/// The parameter segments of a bank stand on one line, each with its version and a comma between
/// two of them.
#[verifier::spinoff_prover]
pub proof fn law_segments_of_a_bank(segments: Seq<(String, u16)>, s: (String, u16))
    ensures
        bank_report::segments_text(Seq::empty()) == ""@,
        exists|list: Seq<char>, one: Seq<char>|
            #![trigger is_segments_line(bank_report::segments_text(segments.push(s)), list), is_segment(one, s)]
            {
                &&& is_segment(one, s)
                &&& is_segments_line(bank_report::segments_text(segments.push(s)), list)
                &&& segments.len() == 0 ==> list == one
                &&& segments.len() > 0 ==> exists|before: Seq<char>| #[trigger]
                    is_segments_line(bank_report::segments_text(segments), before) && list == before
                        + ", "@ + one
            },
{
    let f = |x: (String, u16)| bank_report::segment_text(x);
    let items = segments.map_values(f);
    let item = bank_report::segment_text(s);
    text::law_numeral_is_read_back(s.1 as nat);
    assert(text::reads_as_number(text::decimal(s.1 as nat), s.1 as int));
    assert(is_segment(item, s));
    assert(segments.push(s).map_values(f) =~= items.push(item));
    text::law_joined_items(items, item, ", "@);
    let before = text::joined(items, ", "@);
    let list = text::joined(items.push(item), ", "@);
    if segments.len() == 0 {
        assert(items.push(item) =~= seq![item]);
    } else {
        assert(list == before + ", "@ + item);
        assert(is_segments_line(bank_report::segments_text(segments), before));
    }
    assert(is_segments_line(bank_report::segments_text(segments.push(s)), list));
}

/// What a bank offers is shown with the bank, the user and the system identifier, the version of
/// its parameters and their segments, its TAN methods, one after the other, which operations need
/// a TAN, and the accounts of the user.
#[verifier::spinoff_prover]
pub proof fn law_bank_is_shown(
    bank: ResolvedBank,
    user: Seq<char>,
    system_id: SystemId,
    params: BankParams,
)
    requires
        text::cuttable(system_id@, 24),
    ensures
        exists|id: Seq<char>|
            {
                &&& #[trigger] is_beginning(id, system_id@, 24)
                &&& bank_report::inspect_text(bank, user, system_id, params) == "\nBLZ:        "@
                    + bank.blz@ + "\nBank:       "@ + bank.name@ + "\nURL:        "@ + bank.url@
                    + "\nUser:       "@ + user + "\nSystem ID:  "@ + id + " ("@ + assigned_or_not(
                    system_id@ != "0"@ && system_id@.len() > 0,
                ) + ")\n\nBPD version: "@ + text::decimal(params.bpd_version as nat) + "\n"@
                    + bank_report::segments_text(params.bpd_segments@) + "\nTAN methods ("@
                    + text::decimal(params.tan_methods@.len()) + "):\n"@ + text::lines_of(
                    params.tan_methods@,
                    |m: TanMethod| bank_report::bank_method_line(m),
                ) + overview::operations_text(params.operation_tan_required@)
                    + bank_report::bank_accounts_text(params.accounts_from_upd@)
            },
        forall|m: TanMethod|
            is_method_line(
                #[trigger] bank_report::bank_method_line(m),
                m.security_function@,
                m.name@,
                m.is_decoupled,
                m.wait_before_next_poll as int,
                m.decoupled_max_polls as int,
            ),
{
    lemma_beginning(system_id@, 24);
    let id = text::cut(system_id@, 24);
    assert(is_beginning(id, system_id@, 24));
}

/// An audit says of each point whether it is in order, with the version of the parameters and the
/// number of TAN methods, and how many warnings there are in all. A bank that could not be reached
/// is one error.
#[verifier::spinoff_prover]
pub proof fn law_audit_is_shown(system_id: SystemId, params: BankParams, message: Seq<char>)
    ensures
        ({
            let assigned = system_id@ != "0"@ && system_id@.len() > 0;
            let untimed = exists|i: int|
                0 <= i < params.tan_methods@.len() && (
                #[trigger] params.tan_methods@[i]).is_decoupled && (
                params.tan_methods@[i].wait_before_first_poll <= 0
                    || params.tan_methods@[i].wait_before_next_poll <= 0);
            bank_report::audit_text(system_id, params) == "  System ID:            "@ + (
            if assigned {
                "OK (assigned)"@
            } else {
                "OK (unassigned)"@
            }) + "\n  BPD presence:         "@ + (if params.bpd_version > 0 {
                "OK (v"@ + text::decimal(params.bpd_version as nat) + ")"@
            } else {
                "WARN: no BPD version found"@
            }) + "\n  TAN methods:          "@ + (if params.tan_methods@.len() > 0 {
                "OK ("@ + text::decimal(params.tan_methods@.len()) + " methods)"@
            } else {
                "WARN: no TAN methods"@
            }) + "\n  HITANS format:        "@ + (if untimed {
                "WARN: decoupled TAN methods missing poll timing params"@
            } else {
                "OK"@
            }) + "\n\n  Total: 0 errors, "@ + text::decimal(bank_report::audit_warnings(params))
                + " warnings\n"@
        }),
        bank_report::failure_text(message) == "FAIL: "@ + message
            + "\n\n  Total: 1 error, 0 warnings\n"@,
{
    bank_report::law_count_of_warnings(params);
}

} // verus!
