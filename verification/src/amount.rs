//! Amounts of money: decimal numbers with a fixed scale.
use rust_decimal::Decimal;
use vstd::arithmetic::power;
use vstd::prelude::*;

use crate::text;

verus! {

/// A decimal number: a sign, the digits as a whole number below 2^96, and how many of the digits
/// stand behind the point (at most 28).
#[derive(Debug, Clone, Copy)]
pub struct Amount {
    negative: bool,
    magnitude: u128,
    scale: u32,
}

/// The parts of an [`Amount`].
pub struct Parts {
    pub negative: bool,
    pub magnitude: nat,
    pub scale: nat,
}

/// The first number that the digits of an amount do not reach: 2^96.
pub const MAGNITUDE_LIMIT: u128 = 0x1_0000_0000_0000_0000_0000_0000;

/// The largest scale.
pub const MAX_SCALE: u32 = 28;

impl Amount {
    pub closed spec fn view(&self) -> Parts {
        Parts { negative: self.negative, magnitude: self.magnitude as nat, scale: self.scale as nat }
    }

    #[verifier::type_invariant]
    spec fn in_range(self) -> bool {
        self.magnitude < MAGNITUDE_LIMIT && self.scale <= MAX_SCALE
    }

    /// The amount with these parts, where they are in range.
    pub fn from_parts(negative: bool, magnitude: u128, scale: u32) -> (r: Option<Amount>)
        ensures
            r is Some <==> magnitude < MAGNITUDE_LIMIT && scale <= MAX_SCALE,
            r matches Some(a) ==> a@ == (Parts {
                negative,
                magnitude: magnitude as nat,
                scale: scale as nat,
            }),
    {
        if magnitude < MAGNITUDE_LIMIT && scale <= MAX_SCALE {
            Some(Amount { negative, magnitude, scale })
        } else {
            None
        }
    }

    /// Whether the amount is zero or above: a zero with a minus sign counts as zero.
    pub open spec fn non_negative(&self) -> bool {
        !self@.negative || self@.magnitude == 0
    }

    pub fn is_non_negative(&self) -> (r: bool)
        ensures
            r == self.non_negative(),
    {
        !self.negative || self.magnitude == 0
    }

    pub fn negative(&self) -> (r: bool)
        ensures
            r == self@.negative,
    {
        self.negative
    }

    pub fn magnitude(&self) -> (r: u128)
        ensures
            r == self@.magnitude,
            r < MAGNITUDE_LIMIT,
    {
        proof {
            use_type_invariant(*self);
        }
        self.magnitude
    }

    pub fn scale(&self) -> (r: u32)
        ensures
            r == self@.scale,
            r <= MAX_SCALE,
    {
        proof {
            use_type_invariant(*self);
        }
        self.scale
    }
}

// ---------------------------------------------------------------------------------------------
// Text
// ---------------------------------------------------------------------------------------------

/// The last `n` decimal digits of `v`, with leading zeros.
pub open spec fn digits(v: nat, n: nat) -> Seq<char>
    decreases n,
{
    if n == 0 {
        Seq::empty()
    } else {
        digits(v / 10, (n - 1) as nat).push(text::digit_char((v % 10) as int))
    }
}

/// The whole number in front of the point.
pub open spec fn whole_part(a: Parts) -> nat {
    (a.magnitude as int / power::pow(10, a.scale)) as nat
}

/// The first `places` digits behind the point, as a number; further digits are dropped.
pub open spec fn fraction_part(a: Parts, places: nat) -> nat {
    ((a.magnitude as int % power::pow(10, a.scale)) * power::pow(10, places) / power::pow(10, a.scale)) as nat
}

pub open spec fn sign_text(negative: bool) -> Seq<char> {
    if negative {
        "-"@
    } else {
        ""@
    }
}

/// `a` with exactly `places` digits behind the point, and no point where there are none.
pub open spec fn fixed_text(a: Parts, places: nat) -> Seq<char> {
    if places == 0 {
        sign_text(a.negative) + text::decimal(whole_part(a))
    } else {
        sign_text(a.negative) + text::decimal(whole_part(a)) + "."@ + digits(
            fraction_part(a, places),
            places,
        )
    }
}

/// `rust_decimal::Decimal` of the given parts (`from_i128_with_scale`, `set_sign_negative`) shown with
/// `places` digits behind the point. Its formatting cuts further digits off, fills missing ones
/// with zeros, and writes the sign of a negative zero too. It has room for 32 characters, which
/// two digits behind the point, or as many as the scale has, never exceed.
#[verifier::external_body]
fn show_decimal(negative: bool, magnitude: u128, scale: u32, places: usize) -> (r: String)
    requires
        magnitude < MAGNITUDE_LIMIT,
        scale <= MAX_SCALE,
        places <= 2 || places <= scale,
    ensures
        r@ == fixed_text(
            Parts { negative, magnitude: magnitude as nat, scale: scale as nat },
            places as nat,
        ),
{
    let mut value = Decimal::from_i128_with_scale(magnitude as i128, scale);
    value.set_sign_negative(negative);
    format!("{:.1$}", value, places)
}

/// The amount with `places` digits behind the point.
pub fn amount_fixed(amount: &Amount, places: usize) -> (r: String)
    requires
        places <= 2 || places <= amount@.scale,
    ensures
        r@ == fixed_text(amount@, places as nat),
{
    show_decimal(amount.negative(), amount.magnitude(), amount.scale(), places)
}

/// The amount with all its digits.
pub open spec fn plain_text(a: Parts) -> Seq<char> {
    fixed_text(a, a.scale)
}

/// The amount with all its digits.
pub fn amount_plain(amount: &Amount) -> (r: String)
    ensures
        r@ == plain_text(amount@),
{
    let places = amount.scale();
    show_decimal(amount.negative(), amount.magnitude(), places, places as usize)
}

/// `d` with a comma in front of every three characters, counted from the end, that others
/// precede.
pub open spec fn grouped(d: Seq<char>) -> Seq<char>
    decreases d.len(),
{
    if d.len() <= 3 {
        d
    } else {
        grouped(d.take(d.len() - 3)) + ","@ + d.skip(d.len() - 3)
    }
}

/// The place of the first point in `s`, or the length of `s` where it has none.
pub open spec fn point_index(s: Seq<char>) -> nat
    decreases s.len(),
{
    if s.len() == 0 || s[0] == '.' {
        0
    } else {
        1 + point_index(s.drop_first())
    }
}

/// A decimal numeral with its whole part in groups of three digits; one without a point gets two
/// zeros behind one.
pub open spec fn with_thousands(s: Seq<char>) -> Seq<char> {
    let point = point_index(s) as int;
    let whole = s.take(point);
    let fraction = if point < s.len() {
        s.skip(point + 1)
    } else {
        "00"@
    };
    let negative = whole.len() > 0 && whole[0] == '-';
    let unsigned = if negative {
        whole.skip(1)
    } else {
        whole
    };
    sign_text(negative) + grouped(unsigned) + "."@ + fraction
}

/// Appends the characters of `chars` from `from` up to `to` in groups of three.
fn push_grouped(out: &mut String, chars: &Vec<char>, from: usize, to: usize)
    requires
        from <= to <= chars@.len(),
    ensures
        final(out)@ == old(out)@ + grouped(chars@.subrange(from as int, to as int)),
    decreases to - from,
{
    let ghost d = chars@.subrange(from as int, to as int);
    let ghost start = out@;
    if to - from <= 3 {
        let all = text::string_of(chars, from, to);
        out.append(all.as_str());
    } else {
        push_grouped(out, chars, from, to - 3);
        let last = text::string_of(chars, to - 3, to);
        out.append(",");
        out.append(last.as_str());
        proof {
            assert(d.take(d.len() - 3) =~= chars@.subrange(from as int, to - 3));
            assert(d.skip(d.len() - 3) =~= last@);
            assert(out@ =~= start + grouped(d));
        }
    }
}

/// Puts the whole part of a decimal numeral in groups of three digits.
pub fn group_thousands(formatted: &str) -> (r: String)
    ensures
        r@ == with_thousands(formatted@),
{
    let chars = text::chars_of(formatted);
    let ghost s = formatted@;
    let mut point: usize = 0;
    assert(s.skip(0) =~= s);
    while point < chars.len() && chars[point] != '.'
        invariant
            point <= chars@.len(),
            chars@ == s,
            point + point_index(s.skip(point as int)) == point_index(s),
        ensures
            point < chars@.len() ==> chars@[point as int] == '.',
        decreases chars@.len() - point,
    {
        assert(s.skip(point as int).drop_first() =~= s.skip(point + 1));
        point += 1;
    }
    assert(point == point_index(s));
    let negative = point > 0 && chars[0] == '-';
    let mut out = String::new();
    if negative {
        out.append("-");
    } else {
        out.append("");
    }
    assert(out@ =~= sign_text(negative));
    let from: usize = if negative {
        1
    } else {
        0
    };
    push_grouped(&mut out, &chars, from, point);
    proof {
        let whole = s.take(point as int);
        assert(whole.len() > 0 ==> whole[0] == s[0]);
        if negative {
            assert(whole.skip(1) =~= s.subrange(1, point as int));
        } else {
            assert(whole =~= s.subrange(0, point as int));
        }
    }
    out.append(".");
    if point < chars.len() {
        let fraction = text::string_of(&chars, point + 1, chars.len());
        assert(fraction@ =~= s.skip(point + 1));
        out.append(fraction.as_str());
    } else {
        out.append("00");
    }
    out
}

/// An amount as it is displayed: two digits behind the point, thousands set apart by commas.
pub open spec fn amount_text(a: Parts) -> Seq<char> {
    sign_text(a.negative) + grouped(text::decimal(whole_part(a))) + "."@ + digits(
        fraction_part(a, 2),
        2,
    )
}

proof fn lemma_point_behind(s: Seq<char>, n: nat)
    requires
        n < s.len(),
        s[n as int] == '.',
        forall|i: int| 0 <= i < n ==> #[trigger] s[i] != '.',
    ensures
        point_index(s) == n,
    decreases n,
{
    if n > 0 {
        assert(s[0] != '.');
        assert forall|i: int| 0 <= i < n - 1 implies #[trigger] s.drop_first()[i] != '.' by {
            assert(s[i + 1] != '.');
        }
        lemma_point_behind(s.drop_first(), (n - 1) as nat);
    }
}

/// Grouping the digits of an amount with two places gives its display form.
proof fn lemma_grouped_amount(a: Parts)
    ensures
        with_thousands(fixed_text(a, 2)) == amount_text(a),
{
    let s = fixed_text(a, 2);
    let sign = sign_text(a.negative);
    let whole = text::decimal(whole_part(a));
    let fraction = digits(fraction_part(a, 2), 2);
    reveal_strlit("-");
    reveal_strlit("");
    reveal_strlit(".");
    text::lemma_decimal_digits(whole_part(a));
    let n = sign.len() + whole.len();
    assert forall|i: int| 0 <= i < n implies #[trigger] s[i] != '.' by {
        if i >= sign.len() {
            assert(s[i] == whole[i - sign.len()]);
        }
    }
    assert(s[n as int] == '.');
    lemma_point_behind(s, n);
    assert(s.take(n as int) =~= sign + whole);
    assert(s.skip(n as int + 1) =~= fraction);
    assert(text::is_ascii_digit(whole[0]));
    if a.negative {
        assert((sign + whole).skip(1) =~= whole);
    } else {
        assert(sign + whole =~= whole);
    }
}

/// Formats an amount with two digits behind the point and commas between groups of three digits
/// (as in `1,234.56`).
pub fn format_amount(amount: &Amount) -> (r: String)
    ensures
        r@ == amount_text(amount@),
{
    let formatted = amount_fixed(amount, 2);
    proof {
        lemma_grouped_amount(amount@);
    }
    group_thousands(formatted.as_str())
}

// ---------------------------------------------------------------------------------------------
// Addition
// ---------------------------------------------------------------------------------------------

/// What `rust_decimal` adds two decimals up to, and nothing where the sum is out of range.
pub uninterp spec fn decimal_sum(a: Parts, b: Parts) -> Option<Parts>;

/// The digits of an amount with their sign.
pub open spec fn signed_magnitude(a: Parts) -> int {
    if a.negative {
        -(a.magnitude as int)
    } else {
        a.magnitude as int
    }
}

/// The digits of an amount with their sign, written with `scale` digits behind the point, which
/// are at least as many as it has.
pub open spec fn units_at(a: Parts, scale: nat) -> int {
    signed_magnitude(a) * power::pow(10, (scale - a.scale) as nat)
}

/// The larger of the scales of two decimals.
pub open spec fn larger_scale(a: Parts, b: Parts) -> nat {
    if a.scale < b.scale {
        b.scale
    } else {
        a.scale
    }
}

/// A zero adds nothing. Two other decimals have the exact sum, at the larger of their scales,
/// where its digits are a number below 2^96; where they are not and there is no digit behind the
/// point to drop, the sum is out of range.
pub open spec fn exact_in_range(a: Parts, b: Parts, sum: Option<Parts>) -> bool {
    let scale = larger_scale(a, b);
    let total = units_at(a, scale) + units_at(b, scale);
    if a.magnitude == 0 {
        sum == Some(b)
    } else if b.magnitude == 0 {
        sum == Some(a)
    } else if -MAGNITUDE_LIMIT < total < MAGNITUDE_LIMIT {
        sum == Some(
            Parts {
                negative: total < 0,
                magnitude: (if total < 0 {
                    -total
                } else {
                    total
                }) as nat,
                scale,
            },
        )
    } else {
        scale == 0 ==> sum is None
    }
}

pub open spec fn view_of_sum(sum: Option<Amount>) -> Option<Parts> {
    match sum {
        Some(a) => Some(a@),
        None => None,
    }
}

/// `rust_decimal::Decimal::checked_add`: the sum, and nothing where it is out of range. Where one
/// decimal is zero the sum is the other one. Else the two are brought to the larger of their
/// scales, and the sum is exact, with no sign on a zero, where its digits are a number below 2^96;
/// two decimals of the scale 0 whose sum is not below 2^96 have none. How digits behind the point
/// are dropped where the exact sum needs more than 96 bits is left unsaid but for its depending on
/// the two decimals alone. Like every decimal, the sum has digits below 2^96 and a scale of at
/// most 28.
#[verifier::external_body]
fn add_decimals(a: &Amount, b: &Amount) -> (r: Option<Amount>)
    ensures
        view_of_sum(r) == decimal_sum(a@, b@),
        exact_in_range(a@, b@, view_of_sum(r)),
{
    let mut x = Decimal::from_i128_with_scale(a.magnitude as i128, a.scale);
    x.set_sign_negative(a.negative);
    let mut y = Decimal::from_i128_with_scale(b.magnitude as i128, b.scale);
    y.set_sign_negative(b.negative);
    x.checked_add(y).map(
        |s|
            Amount {
                negative: s.is_sign_negative(),
                magnitude: s.mantissa().unsigned_abs(),
                scale: s.scale(),
            },
    )
}

/// The sum of two amounts, and nothing where it is out of range.
pub fn add_amounts(a: &Amount, b: &Amount) -> (r: Option<Amount>)
    ensures
        view_of_sum(r) == decimal_sum(a@, b@),
        exact_in_range(a@, b@, view_of_sum(r)),
{
    add_decimals(a, b)
}

// ---------------------------------------------------------------------------------------------
// Laws
// ---------------------------------------------------------------------------------------------

/// More digits behind the point do not change what an amount is worth.
pub(crate) proof fn lemma_units_at(a: Parts, scale: nat, more: nat)
    requires
        a.scale <= scale <= more,
    ensures
        units_at(a, more) == units_at(a, scale) * power::pow(10, (more - scale) as nat),
{
    let p = power::pow(10, (scale - a.scale) as nat);
    let q = power::pow(10, (more - scale) as nat);
    power::lemma_pow_adds(10, (scale - a.scale) as nat, (more - scale) as nat);
    let m = signed_magnitude(a);
    assert(m * (p * q) == (m * p) * q) by (nonlinear_arith);
}

/// Amounts add up exactly, whatever their scales are, where their sum at the scale `scale`, which
/// is at least that of each, has digits below 2^96. Amounts of one scale have a sum of that scale.
#[verifier::spinoff_prover]
pub proof fn law_sum_is_exact(a: Parts, b: Parts, sum: Option<Parts>, scale: nat)
    requires
        exact_in_range(a, b, sum),
        a.scale <= scale,
        b.scale <= scale,
        -MAGNITUDE_LIMIT < units_at(a, scale) + units_at(b, scale) < MAGNITUDE_LIMIT,
    ensures
        sum matches Some(r) && r.scale <= scale && units_at(r, scale) == units_at(a, scale)
            + units_at(b, scale),
        a.scale == b.scale ==> sum->0.scale == a.scale,
{
    let common = larger_scale(a, b);
    let total = units_at(a, common) + units_at(b, common);
    let q = power::pow(10, (scale - common) as nat);
    power::lemma_pow_positive(10, (scale - common) as nat);
    lemma_units_at(a, common, scale);
    lemma_units_at(b, common, scale);
    let x = units_at(a, common);
    let y = units_at(b, common);
    assert((x + y) * q == x * q + y * q) by (nonlinear_arith);
    if a.magnitude == 0 {
        let w = power::pow(10, (scale - a.scale) as nat);
        assert(0 * w == 0) by (nonlinear_arith);
        assert(signed_magnitude(a) == 0);
        assert(units_at(a, scale) == 0 * w);
    } else if b.magnitude == 0 {
        let w = power::pow(10, (scale - b.scale) as nat);
        assert(0 * w == 0) by (nonlinear_arith);
        assert(signed_magnitude(b) == 0);
        assert(units_at(b, scale) == 0 * w);
    } else {
        assert(-MAGNITUDE_LIMIT < total < MAGNITUDE_LIMIT) by (nonlinear_arith)
            requires
                -MAGNITUDE_LIMIT < total * q < MAGNITUDE_LIMIT,
                q >= 1,
        ;
        let r = sum->0;
        assert(signed_magnitude(r) == total);
    }
}

/// `s` without its commas.
pub open spec fn without_commas(s: Seq<char>) -> Seq<char> {
    s.filter(|c: char| c != ',')
}

proof fn lemma_no_commas(s: Seq<char>)
    requires
        forall|i: int| 0 <= i < s.len() ==> #[trigger] s[i] != ',',
    ensures
        without_commas(s) == s,
    decreases s.len(),
{
    reveal(Seq::filter);
    if s.len() > 0 {
        lemma_no_commas(s.drop_last());
        assert(s[s.len() - 1] != ',');
        assert(s.drop_last().push(s.last()) =~= s);
    }
}

proof fn lemma_grouping_adds_commas(d: Seq<char>)
    requires
        forall|i: int| 0 <= i < d.len() ==> #[trigger] d[i] != ',',
    ensures
        without_commas(grouped(d)) == d,
    decreases d.len(),
{
    let keep = |c: char| c != ',';
    if d.len() <= 3 {
        lemma_no_commas(d);
    } else {
        let front = d.take(d.len() - 3);
        let back = d.skip(d.len() - 3);
        lemma_grouping_adds_commas(front);
        lemma_no_commas(back);
        Seq::filter_distributes_over_add(grouped(front) + ","@, back, keep);
        Seq::filter_distributes_over_add(grouped(front), ","@, keep);
        reveal_strlit(",");
        assert(","@.filter(keep) =~= Seq::empty()) by {
            reveal(Seq::filter);
            assert(","@.drop_last() =~= Seq::empty());
            assert(","@.drop_last().filter(keep) =~= Seq::empty());
        }
        assert(front + Seq::empty() + back =~= d);
    }
}

proof fn lemma_digits_are_digits(v: nat, n: nat)
    ensures
        forall|i: int|
            0 <= i < digits(v, n).len() ==> text::is_ascii_digit(#[trigger] digits(v, n)[i]),
    decreases n,
{
    if n > 0 {
        let front = digits(v / 10, (n - 1) as nat);
        lemma_digits_are_digits(v / 10, (n - 1) as nat);
        assert forall|i: int| 0 <= i < digits(v, n).len() implies text::is_ascii_digit(
            #[trigger] digits(v, n)[i],
        ) by {
            if i < front.len() {
                assert(digits(v, n)[i] == front[i]);
            }
        }
    }
}

/// The separators of thousands are all that a formatted amount has beyond its two-digit form.
pub proof fn law_thousands_only_add_commas(a: Parts)
    ensures
        without_commas(amount_text(a)) == fixed_text(a, 2),
{
    let keep = |c: char| c != ',';
    let sign = sign_text(a.negative);
    let whole = text::decimal(whole_part(a));
    let fraction = digits(fraction_part(a, 2), 2);
    reveal_strlit("-");
    reveal_strlit("");
    reveal_strlit(".");
    text::lemma_decimal_digits(whole_part(a));
    lemma_digits_are_digits(fraction_part(a, 2), 2);
    lemma_grouping_adds_commas(whole);
    lemma_no_commas(sign);
    lemma_no_commas("."@);
    lemma_no_commas(fraction);
    Seq::filter_distributes_over_add(sign + grouped(whole) + "."@, fraction, keep);
    Seq::filter_distributes_over_add(sign + grouped(whole), "."@, keep);
    Seq::filter_distributes_over_add(sign, grouped(whole), keep);
}

/// The digits in a text.
pub open spec fn digits_in(t: Seq<char>) -> Seq<char> {
    t.filter(|c: char| '0' <= c <= '9')
}

/// `t` shows `a` with two digits behind the point: a minus sign stands in front exactly where `a`
/// has one, commas part the digits in front of the point into threes, the digits make the number
/// of whole hundredths in `a`, and there is no leading zero but one right in front of the point.
pub open spec fn shows_amount(t: Seq<char>, a: Parts) -> bool {
    let n = t.len() as int;
    let first: int = if a.negative {
        1
    } else {
        0
    };
    &&& n >= first + 4
    &&& a.negative <==> t[0] == '-'
    &&& '0' <= t[first] <= '9'
    &&& n - 3 - first > 1 ==> t[first] != '0'
    &&& forall|i: int|
        first <= i < n - 3 ==> if (n - 3 - i) % 4 == 0 {
            #[trigger] t[i] == ','
        } else {
            '0' <= t[i] <= '9'
        }
    &&& t[n - 3] == '.'
    &&& '0' <= t[n - 2] <= '9'
    &&& '0' <= t[n - 1] <= '9'
    &&& text::number_in(digits_in(t)) == a.magnitude as int * 100 / power::pow(10, a.scale)
}

/// `t` is `a` with exactly `places` digits behind the point: a minus sign exactly where `a` has
/// one, the whole part of `a`, and the first digits behind it.
pub open spec fn writes_amount(t: Seq<char>, a: Parts, places: nat) -> bool {
    let p = power::pow(10, a.scale);
    let first: int = if a.negative {
        1
    } else {
        0
    };
    let point: int = if places == 0 {
        t.len() as int
    } else {
        t.len() - places - 1
    };
    &&& first < point <= t.len()
    &&& a.negative <==> t[0] == '-'
    &&& text::reads_as_number(t.subrange(first, point), a.magnitude as int / p)
    &&& places > 0 ==> t[point] == '.'
    &&& forall|i: int| point < i < t.len() ==> '0' <= #[trigger] t[i] <= '9'
    &&& places > 0 ==> text::number_in(t.skip(point + 1)) == (a.magnitude as int % p) * power::pow(
        10,
        places,
    ) / p
}

proof fn lemma_number_of_parts(a: Seq<char>, b: Seq<char>)
    ensures
        text::number_in(a + b) == text::number_in(a) * power::pow(10, b.len()) + text::number_in(b),
    decreases b.len(),
{
    reveal(power::pow);
    if b.len() > 0 {
        lemma_number_of_parts(a, b.drop_last());
        assert((a + b).drop_last() =~= a + b.drop_last());
        assert((a + b).last() == b.last());
        let x = text::number_in(a);
        let p = power::pow(10, (b.len() - 1) as nat);
        assert(10 * (x * p) == x * (10 * p)) by (nonlinear_arith);
    } else {
        assert(a + b =~= a);
        assert(text::number_in(a) * 1 == text::number_in(a));
    }
}

proof fn lemma_number_of_digits(v: nat, n: nat)
    requires
        v < power::pow(10, n),
    ensures
        digits(v, n).len() == n,
        text::number_in(digits(v, n)) == v,
        forall|i: int| 0 <= i < n ==> '0' <= #[trigger] digits(v, n)[i] <= '9',
    decreases n,
{
    reveal(power::pow);
    if n > 0 {
        let front = digits(v / 10, (n - 1) as nat);
        lemma_number_of_digits(v / 10, (n - 1) as nat);
        assert(digits(v, n).drop_last() =~= front);
        assert(digits(v, n).last() == text::digit_char((v % 10) as int));
    }
}

#[verifier::spinoff_prover]
proof fn lemma_group_places(d: Seq<char>)
    requires
        d.len() > 0,
        forall|i: int| 0 <= i < d.len() ==> '0' <= #[trigger] d[i] <= '9',
    ensures
        grouped(d).len() >= d.len(),
        grouped(d).len() % 4 != 0,
        grouped(d).len() > 1 ==> d.len() > 1,
        grouped(d)[0] == d[0],
        forall|i: int|
            0 <= i < grouped(d).len() ==> if (grouped(d).len() - i) % 4 == 0 {
                #[trigger] grouped(d)[i] == ','
            } else {
                '0' <= grouped(d)[i] <= '9'
            },
        digits_in(grouped(d)) == d,
    decreases d.len(),
{
    let keep = |c: char| '0' <= c <= '9';
    reveal_strlit(",");
    if d.len() <= 3 {
        lemma_digits_stay(d);
    } else {
        let front = d.take(d.len() - 3);
        let back = d.skip(d.len() - 3);
        lemma_group_places(front);
        let g = grouped(d);
        let gf = grouped(front);
        assert(g == gf + ","@ + back);
        assert forall|i: int| 0 <= i < g.len() implies if (g.len() - i) % 4 == 0 {
            #[trigger] g[i] == ','
        } else {
            '0' <= g[i] <= '9'
        } by {
            if i < gf.len() {
                assert(g[i] == gf[i]);
                assert((g.len() - i) % 4 == (gf.len() - i) % 4);
            } else if i > gf.len() {
                assert(g[i] == back[i - gf.len() - 1]);
            }
        }
        lemma_digits_stay(back);
        Seq::filter_distributes_over_add(gf + ","@, back, keep);
        Seq::filter_distributes_over_add(gf, ","@, keep);
        lemma_no_digits(","@);
        assert(digits_in(g) == digits_in(gf) + digits_in(","@) + digits_in(back));
        assert(front + Seq::<char>::empty() + back =~= d);
    }
}

proof fn lemma_digits_stay(d: Seq<char>)
    requires
        forall|i: int| 0 <= i < d.len() ==> '0' <= #[trigger] d[i] <= '9',
    ensures
        digits_in(d) == d,
    decreases d.len(),
{
    reveal(Seq::filter);
    if d.len() > 0 {
        lemma_digits_stay(d.drop_last());
        assert('0' <= d[d.len() - 1] <= '9');
        assert(d.drop_last().push(d.last()) =~= d);
    }
}

proof fn lemma_no_digits(d: Seq<char>)
    requires
        forall|i: int| 0 <= i < d.len() ==> !('0' <= #[trigger] d[i] <= '9'),
    ensures
        digits_in(d) == Seq::<char>::empty(),
    decreases d.len(),
{
    reveal(Seq::filter);
    if d.len() > 0 {
        lemma_no_digits(d.drop_last());
        assert(!('0' <= d[d.len() - 1] <= '9'));
    }
}

proof fn lemma_whole_and_fraction(m: int, p: int, q: int)
    requires
        m >= 0,
        p > 0,
        q > 0,
    ensures
        m * q / p == (m / p) * q + (m % p) * q / p,
        0 <= (m % p) * q / p < q,
{
    let w = m / p;
    let r = m % p;
    let f = r * q / p;
    assert(m == p * w + r && 0 <= r < p) by (nonlinear_arith)
        requires
            p > 0,
            w == m / p,
            r == m % p,
    ;
    let s = (r * q) % p;
    assert(r * q == p * f + s && 0 <= s < p) by (nonlinear_arith)
        requires
            p > 0,
            f == (r * q) / p,
            s == (r * q) % p,
    ;
    assert(m * q == p * (w * q + f) + s) by (nonlinear_arith)
        requires
            m == p * w + r,
            r * q == p * f + s,
    ;
    assert(m * q / p == w * q + f) by (nonlinear_arith)
        requires
            m * q == p * (w * q + f) + s,
            0 <= s < p,
    ;
    assert(0 <= f < q) by (nonlinear_arith)
        requires
            r * q == p * f + s,
            0 <= s < p,
            0 <= r < p,
            q > 0,
    ;
}

/// An amount is written with its sign, its whole part and its first digits behind the point.
#[verifier::spinoff_prover]
pub proof fn law_amount_is_written(a: Parts, places: nat)
    ensures
        writes_amount(fixed_text(a, places), a, places),
{
    let t = fixed_text(a, places);
    let p = power::pow(10, a.scale);
    let sign = sign_text(a.negative);
    let whole = text::decimal(whole_part(a));
    reveal_strlit("-");
    reveal_strlit("");
    reveal_strlit(".");
    power::lemma_pow_positive(10, a.scale);
    power::lemma_pow_positive(10, places);
    lemma_whole_and_fraction(a.magnitude as int, p, power::pow(10, places));
    assert(a.magnitude as int / p >= 0) by (nonlinear_arith)
        requires
            p > 0,
            a.magnitude >= 0,
    ;
    text::law_numeral_is_read_back(whole_part(a));
    lemma_number_of_digits(fraction_part(a, places), places);
    assert(t.subrange(sign.len() as int, (sign.len() + whole.len()) as int) =~= whole);
    assert(whole[0] != '-');
    assert(t[0] == (if a.negative {
        '-'
    } else {
        whole[0]
    }));
    if places > 0 {
        let point = t.len() - places - 1;
        let f = digits(fraction_part(a, places), places);
        assert(point == sign.len() + whole.len());
        assert(t.skip(point + 1) =~= f);
        assert forall|i: int| point < i < t.len() implies '0' <= #[trigger] t[i] <= '9' by {
            assert(t[i] == f[i - point - 1]);
        }
    }
}

/// A displayed amount shows the amount: its sign, its digits up to the hundredths, and commas
/// between the thousands.
#[verifier::spinoff_prover]
pub proof fn law_amount_is_shown(a: Parts)
    ensures
        shows_amount(amount_text(a), a),
{
    let keep = |c: char| '0' <= c <= '9';
    let t = amount_text(a);
    let p = power::pow(10, a.scale);
    let sign = sign_text(a.negative);
    let whole = text::decimal(whole_part(a));
    let f = digits(fraction_part(a, 2), 2);
    let g = grouped(whole);
    reveal_strlit("-");
    reveal_strlit("");
    reveal_strlit(".");
    power::lemma_pow_positive(10, a.scale);
    assert(power::pow(10, 2) == 100) by {
        reveal_with_fuel(power::pow, 3);
    }
    lemma_whole_and_fraction(a.magnitude as int, p, 100);
    assert(a.magnitude as int / p >= 0) by (nonlinear_arith)
        requires
            p > 0,
            a.magnitude >= 0,
    ;
    text::law_numeral_is_read_back(whole_part(a));
    lemma_number_of_digits(fraction_part(a, 2), 2);
    lemma_group_places(whole);
    lemma_digits_stay(f);
    lemma_no_digits(sign);
    lemma_no_digits("."@);
    Seq::filter_distributes_over_add(sign + g + "."@, f, keep);
    Seq::filter_distributes_over_add(sign + g, "."@, keep);
    Seq::filter_distributes_over_add(sign, g, keep);
    assert(digits_in(t) =~= whole + f);
    lemma_number_of_parts(whole, f);
    let n = t.len() as int;
    let first = sign.len() as int;
    assert(t[first] == g[0]);
    assert forall|i: int| first <= i < n - 3 implies if (n - 3 - i) % 4 == 0 {
        #[trigger] t[i] == ','
    } else {
        '0' <= t[i] <= '9'
    } by {
        assert(t[i] == g[i - first]);
    }
    assert(t[n - 3] == '.');
    assert(t[n - 2] == f[0]);
    assert(t[n - 1] == f[1]);
}

} // verus!
