use fints::amount::{
    add_amounts, amount_fixed, amount_plain, format_amount, group_thousands, Amount,
};
use rust_decimal::Decimal;

fn amount(text: &str) -> Amount {
    let d: Decimal = text.parse().unwrap();
    Amount::from_parts(d.is_sign_negative(), d.mantissa().unsigned_abs(), d.scale()).unwrap()
}

#[test]
fn test_format_amount_positive() {
    let amount = amount("1234");
    assert_eq!(format_amount(&amount), "1,234.00");
}

#[test]
fn test_format_amount_negative() {
    let amount = amount("-42");
    assert_eq!(format_amount(&amount), "-42.00");
}

#[test]
fn test_format_amount_large() {
    let amount = amount("1234567.89");
    assert_eq!(format_amount(&amount), "1,234,567.89");
}

#[test]
fn test_format_amount_zero() {
    assert_eq!(format_amount(&amount("0")), "0.00");
}

#[test]
fn test_format_amount_small() {
    let amount = amount("0.50");
    assert_eq!(format_amount(&amount), "0.50");
}

#[test]
fn amounts_of_every_width() {
    assert_eq!(format_amount(&amount("999")), "999.00");
    assert_eq!(format_amount(&amount("1000")), "1,000.00");
    assert_eq!(format_amount(&amount("-999999.9")), "-999,999.90");
    assert_eq!(format_amount(&amount("-1000000")), "-1,000,000.00");
    assert_eq!(
        format_amount(&amount("79228162514264337593543950335")),
        "79,228,162,514,264,337,593,543,950,335.00"
    );
}

#[test]
fn amounts_agree_with_the_decimal_type() {
    let texts = [
        "0", "0.0", "-0.00", "0.005", "0.015", "0.999", "-0.999", "1.239", "-1.235", "12.3456789",
        "1234567890.123456789012345678", "0.0000000000000000000000000001", "7.9", "100.10",
        "79228162514264337593543950335", "-7.9228162514264337593543950335",
    ];
    for text in texts {
        let d: Decimal = text.parse().unwrap();
        let a = amount(text);
        assert_eq!(amount_plain(&a), d.to_string(), "{}", text);
        assert_eq!(amount_fixed(&a, 2), format!("{:.2}", d), "{}", text);
        assert_eq!(amount_fixed(&a, 0), format!("{:.0}", d), "{}", text);
        for places in 0..=d.scale() as usize {
            assert_eq!(amount_fixed(&a, places), format!("{:.1$}", d, places), "{}", text);
        }
    }
}

#[test]
fn further_digits_are_dropped() {
    assert_eq!(format_amount(&amount("1.239")), "1.23");
    assert_eq!(format_amount(&amount("-1.239")), "-1.23");
    assert_eq!(format_amount(&amount("0.009")), "0.00");
}

#[test]
fn thousands_of_any_numeral() {
    assert_eq!(group_thousands("1234567"), "1,234,567.00");
    assert_eq!(group_thousands("-123.4"), "-123.4");
    assert_eq!(group_thousands("-1234.5.6"), "-1,234.5.6");
    assert_eq!(group_thousands(""), ".00");
}

#[test]
fn parts_in_range() {
    assert!(Amount::from_parts(false, 79228162514264337593543950335, 28).is_some());
    assert!(Amount::from_parts(false, 79228162514264337593543950336, 0).is_none());
    assert!(Amount::from_parts(false, 1, 29).is_none());
    let a = amount("-12.50");
    assert!(a.negative());
    assert_eq!(a.magnitude(), 1250);
    assert_eq!(a.scale(), 2);
}

#[test]
fn signs() {
    assert!(amount("0").is_non_negative());
    assert!(amount("0.01").is_non_negative());
    assert!(!amount("-0.01").is_non_negative());
    assert!(Amount::from_parts(true, 0, 2).unwrap().is_non_negative());
}

#[test]
fn sums() {
    let sum = add_amounts(&amount("1.25"), &amount("-0.50")).unwrap();
    assert_eq!(amount_plain(&sum), "0.75");
    let sum = add_amounts(&amount("1.5"), &amount("0.25")).unwrap();
    assert_eq!(amount_plain(&sum), "1.75");
    let max = amount("79228162514264337593543950335");
    assert!(add_amounts(&max, &amount("1")).is_none());
    assert_eq!(
        amount_plain(&add_amounts(&max, &amount("-1")).unwrap()),
        "79228162514264337593543950334"
    );
}

#[test]
fn thousands_only_add_commas() {
    for text in ["0", "-12.5", "1234567.891", "-79228162514264337593543950335"] {
        let a = amount(text);
        assert_eq!(format_amount(&a).replace(',', ""), amount_fixed(&a, 2));
    }
}

#[test]
fn sums_of_different_scales_are_exact() {
    let cases = [
        ("7922816251426433759354395034", "-1.0", "7922816251426433759354395033.0"),
        ("-1.0", "7922816251426433759354395034", "7922816251426433759354395033.0"),
        ("1", "0.0000000000000000000000000001", "1.0000000000000000000000000001"),
        ("-0.0000000000000000000000000001", "3", "2.9999999999999999999999999999"),
        ("0.0000", "5", "5"),
        ("5", "0.0000", "5"),
        ("1.5", "-1.50", "0.00"),
        ("7.9228162514264337593543950335", "-7.9228162514264337593543950335", "0.0000000000000000000000000000"),
        ("7922816251426433759354395.04", "-7922816251426433759354395.0335", "0.0065"),
        ("-7922816251426433759354395.04", "7922816251426433759354395.0335", "-0.0065"),
        ("4294967295", "0.000000001", "4294967295.000000001"),
        ("4294967296", "-0.0000000001", "4294967295.9999999999"),
        ("10872.9892840529", "33878716321103615.7970", "33878716321114488.7862840529"),
        ("-0.0000000000000003", "4335396123.184016", "4335396123.1840159999999997"),
        ("0.00000000000000212", "0.0000338564712", "0.00003385647120212"),
        ("0.000283476", "1541336622.4144200935993", "1541336622.4147035695993"),
        ("-0.9808507260218814805", "-1286194.966289", "-1286195.9471397260218814805"),
        ("0.03411833896", "-101331585261510984.739252769", "-101331585261510984.70513443004"),
        ("-0.0007897282833697", "-35677353.356270387379513", "-35677353.3570601156628827"),
        ("-0.015456074504821650101087", "-0.00006161969373328", "-0.015517694198554930101087"),
        ("0.484208458558239442", "0.0000000000000023511073322", "0.4842084585582417931073322"),
        ("42989049427943", "-40252.22987624456961", "42989049387690.77012375543039"),
        ("-170895.7521", "-0.00003068916285533387240", "-170895.75213068916285533387240"),
        ("-0.012384039258", "-9907.08155276985801294", "-9907.09393680911601294"),
        ("0.000000129905399291742", "0.0000000000000000000000000361", "0.0000001299053992917420000361"),
        ("-1.2952616", "21.292389480686764819920", "19.997127880686764819920"),
        ("0.00000000000000000049", "0.000059139938", "0.00005913993800000049"),
        ("20335314311509809.246", "22041919967.1136260509", "20335336353429776.3596260509"),
        ("172.89279831443", "-0.9018825293094976219", "171.9909157851205023781"),
        ("0.00000000000000000001082832", "-0.0000000000000127639123", "-0.00000000000001276390147168"),
        ("0.0000000001491898", "-3095189313.12475645069", "-3095189313.1247564505408102"),
        ("5953.64761634296031032161", "-175.7356620", "5777.91195434296031032161"),
        ("-0.00000000000000214660301", "0.0000000000002038954136566", "0.0000000000002017488106466"),
        ("0.00054845202", "7787696084638325.42", "7787696084638325.42054845202"),
        ("-289816831.344241988257900", "638880.5398809259267066604", "-289177950.8043610623311933396"),
        ("60938179939456164061962", "-59255730500180168030.2295", "60878924208955983893931.7705"),
        ("0.000000000000000575312", "0.00000000001", "0.000000000010000575312"),
        ("0.0000000000113721", "-0.00000000000000007514510", "0.00000000001137202485490"),
        ("-32534149531887.205709", "6.632944623", "-32534149531880.572764377"),
        ("0.000000000000000000010209853", "0.00000000180719", "0.000000001807190000010209853"),
    ];
    for (a, b, sum) in cases {
        assert_eq!(amount_plain(&add_amounts(&amount(a), &amount(b)).unwrap()), sum);
    }
    let zero = add_amounts(&amount("1.5"), &amount("-1.50")).unwrap();
    assert_eq!((zero.negative(), zero.magnitude(), zero.scale()), (false, 0, 2));
}
