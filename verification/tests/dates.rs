use chrono::{Datelike, Duration, NaiveDate};
use fints::dates::{
    date_text, give_date, period_between, transaction_period, Day, MAX_DAY, MIN_DAY,
};

fn day(y: i32, m: u32, d: u32) -> i32 {
    NaiveDate::from_ymd_opt(y, m, d).unwrap().num_days_from_ce()
}

#[test]
fn the_calendar_agrees_with_chrono() {
    assert_eq!(NaiveDate::MIN.num_days_from_ce(), MIN_DAY);
    assert_eq!(NaiveDate::MAX.num_days_from_ce(), MAX_DAY);
    for n in [MIN_DAY, MIN_DAY + 1, -400, 0, 1, 365, 366, 738945, 3652059, 3652060, MAX_DAY] {
        let date = NaiveDate::from_num_days_from_ce_opt(n).unwrap();
        assert_eq!(date_text(n), date.to_string());
    }
    assert_eq!(date_text(1), "0001-01-01");
    assert_eq!(date_text(day(2024, 2, 29)), "2024-02-29");
}

#[test]
fn the_default_period_is_ninety_days() {
    let today = day(2024, 5, 15);
    let period = transaction_period(None, None, today).unwrap();
    assert_eq!(period.to, today);
    assert_eq!(period.days, 90);
    let from = NaiveDate::from_ymd_opt(2024, 5, 15).unwrap() - Duration::days(90);
    assert_eq!(date_text(period.from), from.to_string());
}

#[test]
fn given_periods() {
    let today = day(2024, 5, 15);
    let period = transaction_period(Some("2024-01-01"), Some("2024-02-01"), today).unwrap();
    assert_eq!(period.from, day(2024, 1, 1));
    assert_eq!(period.to, day(2024, 2, 1));
    assert_eq!(period.days, 135);
    let period = transaction_period(Some("2024-01-01"), None, today).unwrap();
    assert_eq!(period.days, 135);
    let period = transaction_period(None, Some("2024-03-01"), today).unwrap();
    assert_eq!(period.days, 90);
    assert_eq!(period.to, day(2024, 3, 1));
    for from in ["2024-05-15", "2024-05-14", "2024-06-01"] {
        assert_eq!(transaction_period(Some(from), None, today).unwrap().days, 1);
    }
    let reversed = transaction_period(Some("2024-02-01"), Some("2024-01-01"), today).unwrap();
    assert_eq!(reversed.from, day(2024, 2, 1));
    assert_eq!(reversed.to, day(2024, 1, 1));
    let loose = transaction_period(Some("2024-1-5"), None, today).unwrap();
    assert_eq!(loose.from, day(2024, 1, 5));
}

#[test]
fn dates_are_read_as_they_are_written() {
    let mut n = day(0, 1, 1);
    while n <= day(9999, 12, 31) {
        let text = date_text(n);
        assert_eq!(text.len(), 10);
        assert_eq!(transaction_period(Some(&text), None, 739021).unwrap().from, n, "{}", text);
        n += 97;
    }
    for text in ["0000-01-01", "0000-12-31", "9999-12-31", "2000-02-29", "1900-02-28"] {
        let period = transaction_period(None, Some(text), 739021).unwrap();
        assert_eq!(date_text(period.to), text);
    }
}

#[test]
fn invalid_dates() {
    let today = day(2024, 5, 15);
    for text in ["", "yesterday", "2024-02-30", "2023-02-29", "01.02.2024", "2024-01-01x", "2024-13-01"] {
        assert_eq!(
            transaction_period(Some(text), None, today).unwrap_err(),
            format!("Invalid date '{}', expected YYYY-MM-DD", text)
        );
    }
    assert_eq!(
        transaction_period(Some("a"), Some("b"), today).unwrap_err(),
        "Invalid date 'a', expected YYYY-MM-DD"
    );
    assert_eq!(
        transaction_period(None, Some("b"), today).unwrap_err(),
        "Invalid date 'b', expected YYYY-MM-DD"
    );
}

#[test]
fn dates_from_what_was_read() {
    assert_eq!(give_date(None, None, 7), Ok(7));
    assert_eq!(give_date(Some("x"), Some(3), 7), Ok(3));
    assert_eq!(
        give_date(Some("x"), None, 7).unwrap_err(),
        "Invalid date 'x', expected YYYY-MM-DD"
    );
    assert_eq!(period_between(10, 25, 40).days, 30);
    assert_eq!(period_between(25, 10, 25).days, 1);
}

#[test]
fn days_of_the_calendar() {
    assert!(Day::from_number(MIN_DAY - 1).is_none());
    assert!(Day::from_number(MAX_DAY + 1).is_none());
    let leap = Day::from_number(day(2024, 2, 29)).unwrap();
    assert_eq!(leap.number(), day(2024, 2, 29));
    assert_eq!(leap.text(), "2024-02-29");
    assert_eq!(Day::from_number(MAX_DAY).unwrap().text(), "+262142-12-31");
}

#[test]
fn texts_of_the_form_of_a_date_are_dates_or_refused() {
    for y in [0, 1900, 2000, 2023, 2024, 9999] {
        for m in 0..=99u32 {
            for d in 0..=99u32 {
                let text = format!("{:04}-{:02}-{:02}", y, m, d);
                let read = transaction_period(Some(&text), None, 739021);
                match NaiveDate::from_ymd_opt(y, m, d) {
                    Some(date) => assert_eq!(read.unwrap().from, date.num_days_from_ce()),
                    None => assert_eq!(
                        read.unwrap_err(),
                        format!("Invalid date '{}', expected YYYY-MM-DD", text)
                    ),
                }
            }
        }
    }
    for text in ["2024.01.01", "2024-01-01Z", "２024-01-01", "2024-Jan-01", "2024/01/01"] {
        assert!(transaction_period(None, Some(text), 739021).is_err());
    }
}
