use chrono::{Datelike, NaiveDate};
use fints::amount::Amount;
use fints::dates::{transaction_period, Day};
use fints::flow::SyncResult;
use fints::report::{
    balance_csv, balance_human, balance_product, holdings_human, holdings_table,
    holdings_with_total, period_heading, period_human, sync_human, sync_table, syncs_human,
    total_eur, transactions_human, transactions_in, transactions_table, whole_names, whole_parties,
    whole_results, OutputFormat,
};
use fints::session::{SepaAccountSer, SessionFile};
use fints::types::{AccountBalance, Bic, Iban, SecurityHolding, SystemId, Transaction};
use rust_decimal::Decimal;

fn s(text: &str) -> String {
    text.to_string()
}

fn amount(text: &str) -> Amount {
    let d: Decimal = text.parse().unwrap();
    Amount::from_parts(d.is_sign_negative(), d.mantissa().unsigned_abs(), d.scale()).unwrap()
}

fn day(text: &str) -> Day {
    let date = NaiveDate::parse_from_str(text, "%Y-%m-%d").unwrap();
    Day::from_number(date.num_days_from_ce()).unwrap()
}

fn dated(text: &str) -> Transaction {
    let mut tx = transaction("1", Some(text), None);
    tx.date = day(text);
    tx
}

fn balance() -> AccountBalance {
    AccountBalance {
        amount: amount("1234.56"),
        currency: s("EUR"),
        date: s("2024-05-15"),
        available: None,
        credit_line: None,
        pending_amount: None,
        pending_date: None,
    }
}

fn transaction(value: &str, name: Option<&str>, purpose: Option<&str>) -> Transaction {
    Transaction {
        date: day("2024-05-14"),
        valuta_date: None,
        amount: amount(value),
        currency: s("EUR"),
        applicant_name: name.map(s),
        applicant_iban: None,
        purpose: purpose.map(s),
        posting_text: None,
        status: s("Booked"),
    }
}

fn holding(name: &str, value: Option<&str>, currency: Option<&str>) -> SecurityHolding {
    SecurityHolding {
        name: s(name),
        isin: None,
        wkn: None,
        quantity: amount("10"),
        price: None,
        price_currency: None,
        price_date: None,
        market_value: value.map(amount),
        market_value_currency: currency.map(s),
        profit_loss: None,
    }
}

fn rule() -> String {
    format!("  {}\n", "─".repeat(90))
}

#[test]
fn balances_for_people() {
    assert_eq!(
        balance_human("DE89370400440532013000", &balance(), None),
        "Account: DE89 3704 0044 0532 0130 00\nBalance: 1,234.56 EUR (as of 2024-05-15)\n"
    );
    let mut full = balance();
    full.available = Some(amount("1000"));
    full.credit_line = Some(amount("500.5"));
    assert_eq!(
        balance_human("DE89", &full, Some("Girokonto")),
        "Account: DE89 (Girokonto)\nBalance: 1,234.56 EUR (as of 2024-05-15)\nAvailable: 1,000.00 EUR\nCredit line: 500.50 EUR\n"
    );
}

#[test]
fn balances_as_a_table() {
    assert_eq!(balance_csv(&balance()), "date,amount,currency\n2024-05-15,1234.56,EUR\n");
}

#[test]
fn the_product_of_a_balance() {
    let mut session = SessionFile {
        version: 1,
        bank_id: s(""),
        bank_url: s(""),
        blz: s(""),
        user_id: s(""),
        system_id: s(""),
        bpd_version: 0,
        upd_version: 0,
        tan_methods: Vec::new(),
        selected_security_function: s(""),
        accounts: Vec::new(),
        operation_tan_required: Vec::new(),
        saved_at: s(""),
    };
    assert_eq!(balance_product(None), None);
    assert_eq!(balance_product(Some(&session)), None);
    session.accounts.push(SepaAccountSer {
        iban: s(""),
        bic: s(""),
        account_number: s(""),
        blz: s(""),
        owner: None,
        product_name: Some(s("Depot")),
        currency: None,
    });
    assert_eq!(balance_product(Some(&session)), Some(s("Depot")));
}

#[test]
fn transactions_for_people() {
    let transactions = vec![
        transaction("1500", Some("Employer"), Some("Salary")),
        transaction("-9.99", None, Some("Streaming")),
        transaction("0", None, None),
    ];
    assert!(whole_parties(&transactions));
    assert_eq!(
        transactions_human(&transactions),
        "\nTransactions (3):\n  2024-05-14  +1,500.00 EUR  Employer\n  2024-05-14  -9.99 EUR  Streaming\n  2024-05-14  +0.00 EUR  —\n"
    );
    assert_eq!(transactions_human(&Vec::new()), "\nTransactions (0):\n");
}

#[test]
fn parties_are_cut() {
    let long = "x".repeat(50);
    let text = transactions_human(&vec![transaction("1", Some(&long), None)]);
    assert!(text.ends_with(&format!("  {}\n", "x".repeat(45))));
    let torn = format!("{}ä", "x".repeat(44));
    assert!(!whole_parties(&vec![transaction("1", Some(&torn), None)]));
    let whole = format!("{}ä", "x".repeat(43));
    assert!(whole_parties(&vec![transaction("1", Some(&whole), None)]));
}

#[test]
fn transactions_as_a_table() {
    let mut full = transaction("-12.30", Some("Shop"), Some("Shoes"));
    full.valuta_date = Some(s("2024-05-15"));
    full.applicant_iban = Some(Iban::new(s("DE1")));
    full.posting_text = Some(s("Card"));
    let table = transactions_table(&vec![full, transaction("1", None, None)]);
    assert_eq!(
        table[0],
        ["date", "valuta_date", "amount", "currency", "applicant", "applicant_iban", "purpose", "posting_text", "status"]
    );
    assert_eq!(
        table[1],
        ["2024-05-14", "2024-05-15", "-12.30", "EUR", "Shop", "DE1", "Shoes", "Card", "Booked"]
    );
    assert_eq!(table[2], ["2024-05-14", "", "1", "EUR", "", "", "", "", "Booked"]);
    assert_eq!(table.len(), 3);
    let table = sync_table(&vec![transaction("-12.30", Some("Shop"), None)]);
    assert_eq!(table[0], ["date", "amount", "currency", "applicant", "purpose"]);
    assert_eq!(table[1], ["2024-05-14", "-12.30", "EUR", "Shop", ""]);
}

#[test]
fn the_heading_of_a_list_of_transactions() {
    let period = transaction_period(Some("2024-01-01"), Some("2024-02-01"), 739021).unwrap();
    assert_eq!(
        period_heading("DE89370400440532013000", &period),
        "Account: DE89 3704 0044 0532 0130 00\nPeriod: 2024-01-01 to 2024-02-01\n"
    );
}

#[test]
fn no_holdings_are_no_text() {
    assert_eq!(holdings_human(&Vec::new()), Some(s("")));
}

#[test]
fn holdings_for_people() {
    let mut etf = holding("World ETF", Some("1050.00"), Some("EUR"));
    etf.isin = Some(s("IE00B4L5Y983"));
    etf.wkn = Some(s("A0RPWH"));
    etf.price = Some(amount("105.00"));
    etf.price_currency = Some(s("EUR"));
    etf.price_date = Some(s("2024-05-14"));
    etf.profit_loss = Some(amount("50"));
    let mut share = holding("Share", Some("20"), Some("USD"));
    share.price = Some(amount("2"));
    share.profit_loss = Some(amount("-1.5"));
    let bare = holding(&"n".repeat(40), None, None);
    let euro = holding("Bond", Some("49.50"), Some("EUR"));
    let holdings = vec![etf, share, bare, euro];
    assert!(whole_names(&holdings));
    let expected = format!(
        "\nSecurities / Depot (4 positions):\n  {:<32}  {:<14}  {:>8}  {:>16}  {:>16}\n{}",
        "Name",
        "ISIN",
        "Units",
        "Price",
        "Value",
        rule()
    ) + &format!(
        "  {:<32}  {:<14}  {:>8}  {:>16}  {:>16}{}\n",
        "World ETF", "IE00B4L5Y983 / A0RPWH", "10.00", "105.00 EUR (2024-05-14)", "1,050.00 EUR", "  +50.00"
    ) + &format!(
        "  {:<32}  {:<14}  {:>8}  {:>16}  {:>16}{}\n",
        "Share", "—", "10.00", "2.00", "20.00 USD", "  -1.50"
    ) + &format!(
        "  {:<32}  {:<14}  {:>8}  {:>16}  {:>16}{}\n",
        "n".repeat(32), "—", "10.00", "—", "—", ""
    ) + &format!(
        "  {:<32}  {:<14}  {:>8}  {:>16}  {:>16}{}\n",
        "Bond", "—", "10.00", "—", "49.50 EUR", ""
    ) + &rule()
        + &format!(
            "  {:<32}  {:<14}  {:>8}  {:>16}  {:>16}\n",
            "Total (EUR positions)", "", "", "", "1,099.50 EUR"
        );
    assert_eq!(holdings_human(&holdings).unwrap(), expected);
    assert_eq!(holdings_with_total(&holdings, Some(amount("1099.50"))), expected);
}

#[test]
fn totals_in_euros() {
    assert!(total_eur(&Vec::new()).unwrap().is_none());
    assert!(total_eur(&vec![holding("a", Some("1"), Some("USD"))]).unwrap().is_none());
    assert!(total_eur(&vec![holding("a", Some("1"), None)]).unwrap().is_none());
    let total = total_eur(&vec![
        holding("a", Some("1.10"), Some("EUR")),
        holding("b", None, Some("EUR")),
        holding("c", Some("-0.20"), Some("EUR")),
    ]);
    let total = total.unwrap().unwrap();
    assert_eq!((total.negative(), total.magnitude(), total.scale()), (false, 90, 2));
    let total = total_eur(&vec![
        holding("a", Some("1.1"), Some("EUR")),
        holding("b", Some("0.025"), Some("EUR")),
        holding("c", Some("2"), Some("EUR")),
    ]);
    let total = total.unwrap().unwrap();
    assert_eq!((total.negative(), total.magnitude(), total.scale()), (false, 3125, 3));
    let max = "79228162514264337593543950335";
    let over = vec![holding("a", Some(max), Some("EUR")), holding("b", Some(max), Some("EUR"))];
    assert!(total_eur(&over).is_none());
    assert!(holdings_human(&over).is_none());
}

#[test]
fn names_that_cannot_be_cut() {
    let torn = format!("{}ä", "x".repeat(31));
    assert!(!whole_names(&vec![holding(&torn, None, None)]));
    assert!(whole_names(&vec![holding("x", None, None)]));
}

#[test]
fn holdings_as_a_table() {
    let mut etf = holding("World ETF", Some("1050.00"), Some("EUR"));
    etf.isin = Some(s("IE00B4L5Y983"));
    etf.price = Some(amount("105.0"));
    etf.price_date = Some(s("2024-05-14"));
    etf.profit_loss = Some(amount("-3"));
    let table = holdings_table(&vec![etf]);
    assert_eq!(
        table[0],
        [
            "name", "isin", "wkn", "quantity", "price", "price_currency", "price_date",
            "market_value", "market_value_currency", "profit_loss"
        ]
    );
    assert_eq!(
        table[1],
        ["World ETF", "IE00B4L5Y983", "", "10", "105.0", "", "2024-05-14", "1050.00", "EUR", "-3"]
    );
}

#[test]
fn syncs_for_people() {
    let mut result = SyncResult {
        iban: Iban::new(s("DE89370400440532013000")),
        bic: Bic::new(s("")),
        balance: None,
        transactions: Vec::new(),
        holdings: Vec::new(),
        system_id: Some(SystemId::new(s("sys"))),
    };
    assert_eq!(
        sync_human(&result).unwrap(),
        "\nAccount: DE89 3704 0044 0532 0130 00\n(no transaction or holdings data)\n"
    );
    result.bic = Bic::new(s("BYLADEM1001"));
    let mut b = balance();
    result.balance = Some(balance());
    result.transactions.push(transaction("1", Some("A"), None));
    assert_eq!(
        sync_human(&result).unwrap(),
        "\nAccount: DE89 3704 0044 0532 0130 00\nBIC:     BYLADEM1001\nBalance: 1,234.56 EUR (as of 2024-05-15)\n\nTransactions (1):\n  2024-05-14  +1.00 EUR  A\n"
    );
    b.available = Some(amount("1"));
    b.pending_amount = Some(amount("-2"));
    b.pending_date = Some(s("2024-05-16"));
    result.balance = Some(b);
    result.transactions.clear();
    result.holdings.push(holding("Bond", Some("49.50"), Some("EUR")));
    let text = sync_human(&result).unwrap();
    assert!(text.contains(
        "Balance: 1,234.56 EUR (available: 1.00 EUR; as of 2024-05-15)\nPending: -2.00 EUR (as of 2024-05-16)\n\nTransactions (0):\n\nSecurities / Depot (1 positions):\n"
    ));
}

#[test]
fn names_of_the_output_formats() {
    assert_eq!(OutputFormat::Human.name(), "human");
    assert_eq!(OutputFormat::Json.name(), "json");
    assert_eq!(OutputFormat::Csv.name(), "csv");
}

#[test]
fn the_transactions_of_a_period() {
    let period = transaction_period(Some("2024-01-10"), Some("2024-01-20"), 739021).unwrap();
    let all = vec![
        dated("2024-01-25"),
        dated("2024-01-20"),
        dated("2024-01-15"),
        dated("2024-01-10"),
        dated("2024-01-09"),
        dated("2023-01-15"),
    ];
    let names: Vec<String> =
        transactions_in(&period, &all).iter().map(|tx| tx.applicant_name.clone().unwrap()).collect();
    assert_eq!(names, ["2024-01-20", "2024-01-15", "2024-01-10"]);
    let text = period_human("DE1", &period, &all);
    assert!(text.starts_with("Account: DE1\nPeriod: 2024-01-10 to 2024-01-20\n\nTransactions (3):\n"));
    assert!(text.contains("  2024-01-15  +1.00 EUR  2024-01-15\n"));
    assert!(!text.contains("2024-01-25"));
    let reversed = transaction_period(Some("2024-01-20"), Some("2024-01-10"), 739021).unwrap();
    assert!(transactions_in(&reversed, &all).is_empty());
}

#[test]
fn syncs_of_several_accounts() {
    let result = |iban: &str, holdings: Vec<SecurityHolding>| SyncResult {
        iban: Iban::new(s(iban)),
        bic: Bic::new(s("")),
        balance: Some(balance()),
        transactions: vec![transaction("1", Some("A"), None)],
        holdings,
        system_id: None,
    };
    let two = vec![result("DE1", Vec::new()), result("DE2", Vec::new())];
    assert!(whole_results(&two));
    let expected = sync_human(&two[0]).unwrap() + &sync_human(&two[1]).unwrap();
    assert_eq!(syncs_human(&two).unwrap(), expected);
    assert!(expected.contains("Account: DE1\n") && expected.contains("Account: DE2\n"));
    assert_eq!(syncs_human(&Vec::new()).unwrap(), "");
    let max = "79228162514264337593543950335";
    let over = vec![holding("a", Some(max), Some("EUR")), holding("b", Some(max), Some("EUR"))];
    assert!(syncs_human(&vec![result("DE1", over), result("DE2", Vec::new())]).is_none());
    let torn = vec![holding(&format!("{}ä", "x".repeat(31)), None, None)];
    assert!(!whole_results(&vec![result("DE1", Vec::new()), result("DE2", torn)]));
}
