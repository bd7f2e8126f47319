//! Calendar dates and the period of a list of transactions.
//!
//! A date is the number of its day in the proleptic Gregorian calendar, with January 1 of the
//! year 1 as day 1.
use chrono::{Datelike, NaiveDate};
use vstd::prelude::*;

use crate::text;

verus! {

/// The day of the earliest date, January 1 of the year -262143.
pub const MIN_DAY: i32 = -95746129;

/// The day of the latest date, December 31 of the year 262142.
pub const MAX_DAY: i32 = 95745399;

pub open spec fn is_leap_year(y: int) -> bool {
    y % 4 == 0 && (y % 100 != 0 || y % 400 == 0)
}

/// The days before January 1 of the year `y`.
pub open spec fn days_before_year(y: int) -> int {
    365 * (y - 1) + (y - 1) / 4 - (y - 1) / 100 + (y - 1) / 400
}

pub open spec fn days_in_month(y: int, m: int) -> int {
    if m == 2 {
        if is_leap_year(y) {
            29
        } else {
            28
        }
    } else if m == 4 || m == 6 || m == 9 || m == 11 {
        30
    } else {
        31
    }
}

/// The days of the year `y` before the month `m`.
pub open spec fn days_before_month(y: int, m: int) -> int
    decreases m,
{
    if m <= 1 {
        0
    } else {
        days_before_month(y, m - 1) + days_in_month(y, m - 1)
    }
}

pub open spec fn is_date(y: int, m: int, d: int) -> bool {
    1 <= m <= 12 && 1 <= d <= days_in_month(y, m)
}

/// The day of a date.
pub open spec fn day_number(y: int, m: int, d: int) -> int {
    days_before_year(y) + days_before_month(y, m) + d
}

/// `n` in decimal digits, with leading zeros up to `width` digits.
pub open spec fn padded_decimal(n: nat, width: nat) -> Seq<char> {
    if text::decimal(n).len() >= width {
        text::decimal(n)
    } else {
        text::repeated('0', (width - text::decimal(n).len()) as nat) + text::decimal(n)
    }
}

/// A date as `YYYY-MM-DD`; a year of other than four digits has its sign in front.
pub open spec fn date_written(y: int, m: int, d: int) -> Seq<char> {
    let year = if 0 <= y <= 9999 {
        padded_decimal(y as nat, 4)
    } else if y < 0 {
        seq!['-'] + padded_decimal((-y) as nat, 4)
    } else {
        seq!['+'] + padded_decimal(y as nat, 4)
    };
    year + seq!['-'] + padded_decimal(m as nat, 2) + seq!['-'] + padded_decimal(d as nat, 2)
}

/// `t` is the date of the day `day`.
pub open spec fn is_date_text(day: int, t: Seq<char>) -> bool {
    exists|y: int, m: int, d: int|
        is_date(y, m, d) && day == #[trigger] day_number(y, m, d) && t == date_written(y, m, d)
}

/// The date of the day `day`, as it is written.
pub open spec fn day_text(day: int) -> Seq<char> {
    let (y, m, d) = choose|y: int, m: int, d: int|
        is_date(y, m, d) && day == #[trigger] day_number(y, m, d);
    date_written(y, m, d)
}

proof fn lemma_months_in_order(y: int, a: int, b: int)
    requires
        1 <= a < b,
    ensures
        days_before_month(y, a) + days_in_month(y, a) <= days_before_month(y, b),
    decreases b,
{
    if a < b - 1 {
        lemma_months_in_order(y, a, b - 1);
    }
}

proof fn lemma_length_of_year(y: int)
    ensures
        days_before_year(y + 1) == days_before_year(y) + days_before_month(y, 13),
        days_before_month(y, 13) >= 365,
{
    reveal_with_fuel(days_before_month, 13);
    assert(y / 4 - (y - 1) / 4 == (if y % 4 == 0 {
        1int
    } else {
        0int
    }));
    assert(y / 100 - (y - 1) / 100 == (if y % 100 == 0 {
        1int
    } else {
        0int
    }));
    assert(y / 400 - (y - 1) / 400 == (if y % 400 == 0 {
        1int
    } else {
        0int
    }));
}

proof fn lemma_years_in_order(a: int, b: int)
    requires
        a <= b,
    ensures
        days_before_year(a) <= days_before_year(b),
    decreases b - a,
{
    if a < b {
        lemma_years_in_order(a, b - 1);
        lemma_length_of_year(b - 1);
    }
}

proof fn lemma_day_in_year(y: int, m: int, d: int)
    requires
        is_date(y, m, d),
    ensures
        days_before_year(y) < day_number(y, m, d) <= days_before_year(y + 1),
{
    lemma_months_in_order(y, m, 13);
    lemma_length_of_year(y);
    if m > 1 {
        lemma_months_in_order(y, 1, m);
    }
}

/// A day has one date.
pub proof fn law_day_has_one_date(y: int, m: int, d: int, y2: int, m2: int, d2: int)
    requires
        is_date(y, m, d),
        is_date(y2, m2, d2),
        day_number(y, m, d) == day_number(y2, m2, d2),
    ensures
        y == y2 && m == m2 && d == d2,
{
    lemma_day_in_year(y, m, d);
    lemma_day_in_year(y2, m2, d2);
    if y < y2 {
        lemma_years_in_order(y + 1, y2);
    } else if y2 < y {
        lemma_years_in_order(y2 + 1, y);
    }
    if m < m2 {
        lemma_months_in_order(y, m, m2);
    } else if m2 < m {
        lemma_months_in_order(y, m2, m);
    }
}

/// The date of a day is written in one way.
pub proof fn law_day_has_one_text(day: int, t: Seq<char>)
    requires
        is_date_text(day, t),
    ensures
        t == day_text(day),
{
    let (y, m, d) = choose|y: int, m: int, d: int|
        is_date(y, m, d) && day == #[trigger] day_number(y, m, d) && t == date_written(y, m, d);
    let (y2, m2, d2) = choose|y: int, m: int, d: int|
        is_date(y, m, d) && day == #[trigger] day_number(y, m, d);
    law_day_has_one_date(y, m, d, y2, m2, d2);
}

/// The form in which dates are given on the command line.
pub open spec fn date_form() -> Seq<char> {
    "%Y-%m-%d"@
}

/// What `chrono::NaiveDate::parse_from_str` reads in `t` by the form `form`.
pub uninterp spec fn parsed_date(t: Seq<char>, form: Seq<char>) -> Option<int>;

pub open spec fn day_view(day: Option<i32>) -> Option<int> {
    match day {
        Some(n) => Some(n as int),
        None => None,
    }
}

/// `t` is written as `YYYY-MM-DD`: four, two and two digits, which need not be a date.
pub open spec fn is_written_as(t: Seq<char>, y: int, m: int, d: int) -> bool {
    0 <= y <= 9999 && 0 <= m <= 99 && 0 <= d <= 99 && t == date_written(y, m, d)
}

/// The characters of which a date can be made by the form `%Y-%m-%d`.
pub open spec fn is_date_char(c: char) -> bool {
    text::is_ascii_digit(c) || c == '-' || c == '+' || text::is_white_space(c)
}

/// `chrono::NaiveDate::parse_from_str` and `num_days_from_ce`. Claimed: the outcome depends on
/// the text and the form alone, and a date that is read is a date of the calendar between the
/// earliest and the latest one. By the form `%Y-%m-%d`, a text that is written as `YYYY-MM-DD` is
/// read as the date that it is and refused where it is none, and a text with a character other
/// than digits, signs and white space is refused. Other ways to write a date that this form
/// admits are left unsaid.
#[verifier::external_body]
fn parse_date(t: &str, form: &str) -> (r: Option<i32>)
    ensures
        day_view(r) == parsed_date(t@, form@),
        r matches Some(day) ==> MIN_DAY <= day <= MAX_DAY,
        forall|y: int, m: int, d: int| #[trigger]
            is_written_as(t@, y, m, d) && form@ == date_form() ==> day_view(r) == (if is_date(
                y,
                m,
                d,
            ) {
                Some(day_number(y, m, d))
            } else {
                None
            }),
        form@ == date_form() && r is Some ==> text::every(t@, |c: char| is_date_char(c)),
{
    NaiveDate::parse_from_str(t, form).ok().map(|date| date.num_days_from_ce())
}

/// `chrono::NaiveDate::from_num_days_from_ce_opt` and the `Display` of the date. Claimed: there
/// is a date for every day between the earliest and the latest one, and it is written as the
/// calendar has it.
#[verifier::external_body]
fn show_date(day: i32) -> (r: Option<String>)
    ensures
        r is Some <==> MIN_DAY <= day <= MAX_DAY,
        r matches Some(t) ==> is_date_text(day as int, t@),
{
    NaiveDate::from_num_days_from_ce_opt(day).map(|date| date.to_string())
}

/// The date of a day.
pub fn date_text(day: i32) -> (r: String)
    requires
        MIN_DAY <= day <= MAX_DAY,
    ensures
        r@ == day_text(day as int),
        is_date_text(day as int, r@),
{
    match show_date(day) {
        Some(t) => {
            proof {
                law_day_has_one_text(day as int, t@);
            }
            t
        },
        None => String::new(),
    }
}

/// A date: a day between the earliest and the latest one.
#[derive(Debug, Clone, Copy)]
pub struct Day {
    number: i32,
}

impl Day {
    /// The number of the day.
    pub closed spec fn view(&self) -> int {
        self.number as int
    }

    #[verifier::type_invariant]
    spec fn in_calendar(self) -> bool {
        MIN_DAY <= self.number <= MAX_DAY
    }

    /// The date with this number, where there is one.
    pub fn from_number(number: i32) -> (r: Option<Day>)
        ensures
            r is Some <==> MIN_DAY <= number <= MAX_DAY,
            r matches Some(day) ==> day@ == number,
    {
        if MIN_DAY <= number && number <= MAX_DAY {
            Some(Day { number })
        } else {
            None
        }
    }

    /// The number of the day.
    pub fn number(&self) -> (r: i32)
        ensures
            r == self@,
            MIN_DAY <= r <= MAX_DAY,
    {
        proof {
            use_type_invariant(*self);
        }
        self.number
    }

    /// The date, as it is written.
    pub fn text(&self) -> (r: String)
        ensures
            r@ == day_text(self@),
    {
        date_text(self.number())
    }
}

/// A period, and for how many days up to today transactions are asked for.
#[derive(Debug, Clone, Copy, PartialEq, Eq, Structural)]
pub struct Period {
    pub from: i32,
    pub to: i32,
    pub days: u32,
}

/// What is said of an argument that is no date.
pub open spec fn invalid_date(t: Seq<char>) -> Seq<char> {
    "Invalid date '"@ + t + "', expected YYYY-MM-DD"@
}

/// The date that an argument gives: the default where there is no argument.
pub open spec fn date_given(arg: Option<Seq<char>>, parsed: Option<int>, default: int) -> Result<
    int,
    Seq<char>,
> {
    match (arg, parsed) {
        (None, _) => Ok(default),
        (Some(_), Some(day)) => Ok(day),
        (Some(t), None) => Err(invalid_date(t)),
    }
}

/// The date that an argument gives, from what was read in it.
pub fn give_date(arg: Option<&str>, parsed: Option<i32>, default: i32) -> (r: Result<i32, String>)
    ensures
        match date_given(crate::session::str_view(arg), day_view(parsed), default as int) {
            Ok(day) => r is Ok && r->Ok_0 == day,
            Err(message) => r is Err && r->Err_0@ == message,
        },
{
    match (arg, parsed) {
        (None, _) => Ok(default),
        (Some(_), Some(day)) => Ok(day),
        (Some(t), None) => {
            let mut message = "Invalid date '".to_string();
            message.append(t);
            message.append("', expected YYYY-MM-DD");
            Err(message)
        },
    }
}

/// The days that reach back from today to the start of a period, and at least one.
pub open spec fn days_back(from: int, today: int) -> int {
    if today - from > 1 {
        today - from
    } else {
        1
    }
}

/// The period between two dates. The bank is asked for as many days as reach back to its start.
pub fn period_between(from: i32, to: i32, today: i32) -> (r: Period)
    requires
        MIN_DAY <= from <= MAX_DAY,
        MIN_DAY <= today <= MAX_DAY,
    ensures
        r.from == from,
        r.to == to,
        r.days == days_back(from as int, today as int),
{
    let days = if today - from > 1 {
        (today - from) as u32
    } else {
        1
    };
    Period { from, to, days }
}

/// What an argument says, by the form in which dates are given.
pub open spec fn date_read(arg: Option<Seq<char>>) -> Option<int> {
    match arg {
        Some(t) => parsed_date(t, date_form()),
        None => None,
    }
}

/// The argument is written as `YYYY-MM-DD`, with these numbers.
pub open spec fn is_given(arg: Option<Seq<char>>, y: int, m: int, d: int) -> bool {
    arg matches Some(t) && is_written_as(t, y, m, d)
}

/// What an argument says is what is written: an argument of the form `YYYY-MM-DD` is the date
/// with these numbers, and nothing where there is no such date. One with a character that is in
/// no date says nothing.
pub open spec fn says_what_is_written(arg: Option<Seq<char>>) -> bool {
    &&& forall|y: int, m: int, d: int| #[trigger]
        is_given(arg, y, m, d) ==> date_read(arg) == (if is_date(y, m, d) {
            Some(day_number(y, m, d))
        } else {
            None
        })
    &&& date_read(arg) is Some ==> text::every(arg->0, |c: char| is_date_char(c))
}

fn read_date(arg: Option<&str>) -> (r: Option<i32>)
    ensures
        day_view(r) == date_read(crate::session::str_view(arg)),
        r matches Some(day) ==> MIN_DAY <= day <= MAX_DAY,
        says_what_is_written(crate::session::str_view(arg)),
{
    match arg {
        Some(t) => parse_date(t, "%Y-%m-%d"),
        None => None,
    }
}

/// The first and the last day of the period that the arguments `--from` and `--to` give, or what
/// is said of the first one that is no date.
pub open spec fn period_given(from: Option<Seq<char>>, to: Option<Seq<char>>, today: int) -> Result<
    (int, int),
    Seq<char>,
> {
    match (
        date_given(from, date_read(from), today - 90),
        date_given(to, date_read(to), today),
    ) {
        (Ok(first), Ok(last)) => Ok((first, last)),
        (Err(message), _) => Err(message),
        (Ok(_), Err(message)) => Err(message),
    }
}

/// A period starts and ends with the dates that are written in its arguments, and is refused for
/// one of the form `YYYY-MM-DD` only where that is no date.
pub open spec fn goes_by_what_is_written(
    period: Result<(int, int), Seq<char>>,
    from: Option<Seq<char>>,
    to: Option<Seq<char>>,
    today: int,
) -> bool {
    let from_fits = from is None || exists|y: int, m: int, d: int| #[trigger]
        is_given(from, y, m, d) && is_date(y, m, d);
    let to_fits = to is None || exists|y: int, m: int, d: int| #[trigger]
        is_given(to, y, m, d) && is_date(y, m, d);
    &&& from_fits && to_fits ==> period is Ok
    &&& from is None ==> (period matches Ok((first, _)) ==> first == today - 90)
    &&& to is None ==> (period matches Ok((_, last)) ==> last == today)
    &&& forall|y: int, m: int, d: int| #[trigger]
        is_given(from, y, m, d) ==> if is_date(y, m, d) {
            period matches Ok((first, _)) ==> first == day_number(y, m, d)
        } else {
            period == Err::<(int, int), Seq<char>>(invalid_date(from->0))
        }
    &&& forall|y: int, m: int, d: int| #[trigger]
        is_given(to, y, m, d) ==> if is_date(y, m, d) {
            period matches Ok((_, last)) ==> last == day_number(y, m, d)
        } else {
            from_fits ==> period == Err::<(int, int), Seq<char>>(invalid_date(to->0))
        }
}

/// The period that the arguments `--from` and `--to` give: by default the 90 days up to today.
pub fn transaction_period(from_arg: Option<&str>, to_arg: Option<&str>, today: i32) -> (r: Result<
    Period,
    String,
>)
    requires
        MIN_DAY + 90 <= today <= MAX_DAY,
    ensures
        match period_given(
            crate::session::str_view(from_arg),
            crate::session::str_view(to_arg),
            today as int,
        ) {
            Ok((from, to)) => r matches Ok(p) && p.from == from && p.to == to && p.days
                == days_back(from, today as int),
            Err(message) => r matches Err(m) && m@ == message,
        },
        r matches Ok(p) ==> MIN_DAY <= p.from <= MAX_DAY && MIN_DAY <= p.to <= MAX_DAY && p.days
            >= 1,
        says_what_is_written(crate::session::str_view(from_arg)),
        says_what_is_written(crate::session::str_view(to_arg)),
        goes_by_what_is_written(
            period_given(
                crate::session::str_view(from_arg),
                crate::session::str_view(to_arg),
                today as int,
            ),
            crate::session::str_view(from_arg),
            crate::session::str_view(to_arg),
            today as int,
        ),
{
    let parsed_from = read_date(from_arg);
    let parsed_to = read_date(to_arg);
    let from = match give_date(from_arg, parsed_from, today - 90) {
        Ok(day) => day,
        Err(message) => return Err(message),
    };
    let to = match give_date(to_arg, parsed_to, today) {
        Ok(day) => day,
        Err(message) => return Err(message),
    };
    Ok(period_between(from, to, today))
}

/// The days of the earliest and the latest date, and of the first date of the year 1.
pub proof fn law_calendar_bounds()
    ensures
        day_number(-262143, 1, 1) == MIN_DAY,
        day_number(262142, 12, 31) == MAX_DAY,
        day_number(1, 1, 1) == 1,
{
    reveal_with_fuel(days_before_month, 12);
}

/// Without arguments the period is the ninety days up to today.
pub proof fn law_default_period(today: int)
    ensures
        period_given(None, None, today) == Ok::<(int, int), Seq<char>>((today - 90, today)),
{
}

/// A period goes from the date of `--from`, else from ninety days ago, to the date of `--to`, else
/// to today. An argument that is no date is an error that names it, the first one first.
pub proof fn law_period_of_its_dates(from: Option<Seq<char>>, to: Option<Seq<char>>, today: int)
    ensures
        from is Some && date_read(from) is None ==> period_given(from, to, today) == Err::<
            (int, int),
            Seq<char>,
        >("Invalid date '"@ + from->0 + "', expected YYYY-MM-DD"@),
        (from is None || date_read(from) is Some) && to is Some && date_read(to) is None
            ==> period_given(from, to, today) == Err::<(int, int), Seq<char>>(
            "Invalid date '"@ + to->0 + "', expected YYYY-MM-DD"@,
        ),
        (from is None || date_read(from) is Some) && (to is None || date_read(to) is Some) ==> (
        period_given(from, to, today) matches Ok((first, last)) && {
            &&& from is Some ==> date_read(from) == Some(first)
            &&& from is None ==> first == today - 90
            &&& to is Some ==> date_read(to) == Some(last)
            &&& to is None ==> last == today
        }),
{
}

proof fn lemma_numeral_len(n: nat, width: nat)
    requires
        width >= 1,
        n < vstd::arithmetic::power::pow(10, width),
    ensures
        text::decimal(n).len() <= width,
    decreases width,
{
    reveal(vstd::arithmetic::power::pow);
    if n >= 10 {
        assert(vstd::arithmetic::power::pow(10, 0) == 1);
        if width == 1 {
            assert(vstd::arithmetic::power::pow(10, 1) == 10);
        }
        lemma_numeral_len(n / 10, (width - 1) as nat);
    }
}

proof fn lemma_zeros_in_front(k: nat, d: Seq<char>)
    ensures
        text::number_in(text::repeated('0', k) + d) == text::number_in(d),
    decreases k + d.len(),
{
    let t = text::repeated('0', k) + d;
    if d.len() > 0 {
        lemma_zeros_in_front(k, d.drop_last());
        assert(t.drop_last() =~= text::repeated('0', k) + d.drop_last());
        assert(t.last() == d.last());
    } else if k > 0 {
        lemma_zeros_in_front((k - 1) as nat, d);
        assert(t.drop_last() =~= text::repeated('0', (k - 1) as nat) + d);
        assert(t.last() == '0');
    } else {
        assert(t =~= d);
    }
}

proof fn lemma_padded_numeral(n: nat, width: nat)
    requires
        width >= 1,
        n < vstd::arithmetic::power::pow(10, width),
    ensures
        padded_decimal(n, width).len() == width,
        text::number_in(padded_decimal(n, width)) == n,
        forall|i: int| 0 <= i < width ==> '0' <= #[trigger] padded_decimal(n, width)[i] <= '9',
{
    lemma_numeral_len(n, width);
    text::law_numeral_is_read_back(n);
    let d = text::decimal(n);
    lemma_zeros_in_front((width - d.len()) as nat, d);
    if d.len() == width {
        assert(text::repeated('0', 0) + d =~= d);
    }
    let p = padded_decimal(n, width);
    assert forall|i: int| 0 <= i < width implies '0' <= #[trigger] p[i] <= '9' by {
        if i >= width - d.len() {
            assert(p[i] == d[i - (width - d.len())]);
        }
    }
}

/// A date of a year from 0 to 9999 is written in ten characters: the year in four digits, the month
/// and the day in two, and a hyphen between them.
pub proof fn law_written_date_is_read_back(y: int, m: int, d: int)
    requires
        0 <= y <= 9999,
        0 <= m <= 99,
        0 <= d <= 99,
    ensures
        date_written(y, m, d).len() == 10,
        date_written(y, m, d)[4] == '-',
        date_written(y, m, d)[7] == '-',
        text::number_in(date_written(y, m, d).take(4)) == y,
        text::number_in(date_written(y, m, d).subrange(5, 7)) == m,
        text::number_in(date_written(y, m, d).skip(8)) == d,
        forall|i: int|
            0 <= i < 10 && i != 4 && i != 7 ==> '0' <= #[trigger] date_written(y, m, d)[i] <= '9',
{
    assert(vstd::arithmetic::power::pow(10, 4) == 10000 && vstd::arithmetic::power::pow(10, 2)
        == 100) by {
        reveal_with_fuel(vstd::arithmetic::power::pow, 5);
    }
    lemma_padded_numeral(y as nat, 4);
    lemma_padded_numeral(m as nat, 2);
    lemma_padded_numeral(d as nat, 2);
    let t = date_written(y, m, d);
    let a = padded_decimal(y as nat, 4);
    let b = padded_decimal(m as nat, 2);
    let c = padded_decimal(d as nat, 2);
    assert(t.take(4) =~= a);
    assert(t.subrange(5, 7) =~= b);
    assert(t.skip(8) =~= c);
    assert forall|i: int| 0 <= i < 10 && i != 4 && i != 7 implies '0' <= #[trigger] t[i] <= '9' by {
        if i < 4 {
            assert(t[i] == a[i]);
        } else if i < 7 {
            assert(t[i] == b[i - 5]);
        } else {
            assert(t[i] == c[i - 8]);
        }
    }
}

/// The day after a date is the next one of its month, else the first one of the next month, else
/// the first one of the next year. April, June, September and November have 30 days, February has
/// 28 or in a leap year 29, and the other months have 31.
pub proof fn law_days_follow_each_other(y: int, m: int, d: int)
    requires
        is_date(y, m, d),
    ensures
        1 <= m <= 12,
        1 <= d <= 31,
        m == 4 || m == 6 || m == 9 || m == 11 ==> d <= 30,
        m == 2 ==> d <= 29,
        m == 2 && (y % 4 != 0 || (y % 100 == 0 && y % 400 != 0)) ==> d <= 28,
        is_date(y, m, d + 1) ==> day_number(y, m, d + 1) == day_number(y, m, d) + 1,
        !is_date(y, m, d + 1) && m < 12 ==> day_number(y, m + 1, 1) == day_number(y, m, d) + 1
            && d >= 28,
        !is_date(y, m, d + 1) && m == 12 ==> day_number(y + 1, 1, 1) == day_number(y, m, d) + 1
            && d == 31,
        m == 2 && d == 28 && y % 4 == 0 && (y % 100 != 0 || y % 400 == 0) ==> is_date(y, 2, 29),
        m != 2 && d == 29 ==> is_date(y, m, 30),
        m != 2 && m != 4 && m != 6 && m != 9 && m != 11 && d == 30 ==> is_date(y, m, 31),
{
    if m == 12 {
        lemma_length_of_year(y);
        assert(days_before_month(y, 13) == days_before_month(y, 12) + days_in_month(y, 12));
    }
}

} // verus!
