//! International Bank Account Numbers: validation and display.
use vstd::arithmetic::power;
use vstd::prelude::*;

use crate::text;

verus! {

/// An IBAN as it is checked and stored: without white space, ASCII letters in upper case.
pub open spec fn normalized_iban(raw: Seq<char>) -> Seq<char> {
    text::without_white_space(raw).map_values(|c: char| text::ascii_upper(c))
}

/// The number `acc` with the value of `c` written behind it: a letter stands for two digits
/// (A=10, B=11, ..., Z=35), a digit for itself, anything else for a zero.
pub open spec fn appended_value(acc: nat, c: char) -> nat {
    if text::is_ascii_letter(c) {
        (acc * 100 + (c as int - 'A' as int + 10)) as nat
    } else if text::is_ascii_digit(c) {
        (acc * 10 + (c as int - '0' as int)) as nat
    } else {
        acc * 10
    }
}

/// The number that the characters of `s` spell.
pub open spec fn iban_number(s: Seq<char>) -> nat
    decreases s.len(),
{
    if s.len() == 0 {
        0
    } else {
        appended_value(iban_number(s.drop_last()), s.last())
    }
}

/// The country code of a normalized IBAN: its first two characters.
pub open spec fn country_code(iban: Seq<char>) -> Seq<char> {
    iban.take(2)
}

/// The check digits of a normalized IBAN: its third and fourth character.
pub open spec fn check_digits(iban: Seq<char>) -> Seq<char> {
    iban.subrange(2, 4)
}

/// A normalized IBAN whose first four characters were moved to its end.
pub open spec fn rearranged(iban: Seq<char>) -> Seq<char> {
    iban.skip(4) + iban.take(4)
}

/// The remainder by 97 of a normalized IBAN whose first four characters were moved to its end.
pub open spec fn iban_remainder(iban: Seq<char>) -> nat {
    iban_number(rearranged(iban)) % 97
}

/// What validation says of `raw`: the normalized IBAN, or the first rule that it breaks.
pub open spec fn validated_iban(raw: Seq<char>) -> Result<Seq<char>, Seq<char>> {
    let iban = normalized_iban(raw);
    let country = country_code(iban);
    let check = check_digits(iban);
    let remainder = iban_remainder(iban);
    if iban.len() < 15 || iban.len() > 34 {
        Err("Invalid length "@ + text::decimal(iban.len()) + " (must be 15–34 characters)"@)
    } else if !text::every(country, |c: char| text::is_ascii_letter(c)) {
        Err("Invalid country code '"@ + country + "' (must be 2 letters)"@)
    } else if !text::every(check, |c: char| text::is_ascii_digit(c)) {
        Err("Invalid check digits '"@ + check + "' (must be 2 digits)"@)
    } else if country == "DE"@ && iban.len() != 22 {
        Err("German IBAN must be exactly 22 characters, got "@ + text::decimal(iban.len()))
    } else if remainder != 1 {
        Err(
            "Check digit validation failed (mod-97 = "@ + text::decimal(remainder) + ", expected 1)"@,
        )
    } else {
        Ok(iban)
    }
}

/// Removes the white space of `raw` and puts its ASCII letters in upper case.
pub fn normalize_iban(raw: &str) -> (r: String)
    ensures
        r@ == normalized_iban(raw@),
{
    let dense = text::remove_white_space(raw);
    let chars = text::chars_of(dense.as_str());
    let mut out = String::new();
    let mut i: usize = 0;
    while i < chars.len()
        invariant
            i <= chars@.len(),
            chars@ == text::without_white_space(raw@),
            out@ =~= chars@.take(i as int).map_values(|c: char| text::ascii_upper(c)),
        decreases chars@.len() - i,
    {
        out.push(text::to_ascii_upper(chars[i]));
        i += 1;
    }
    assert(chars@.take(i as int) =~= chars@);
    out
}

fn all_letters(s: &str) -> (r: bool)
    ensures
        r == text::every(s@, |c: char| text::is_ascii_letter(c)),
{
    let chars = text::chars_of(s);
    let mut i: usize = 0;
    while i < chars.len()
        invariant
            i <= chars@.len(),
            chars@ == s@,
            forall|j: int| 0 <= j < i ==> text::is_ascii_letter(#[trigger] s@[j]),
        decreases chars@.len() - i,
    {
        let c = chars[i];
        if !(('A' <= c && c <= 'Z') || ('a' <= c && c <= 'z')) {
            assert(!text::is_ascii_letter(s@[i as int]));
            return false;
        }
        i += 1;
    }
    true
}

fn all_digits(s: &str) -> (r: bool)
    ensures
        r == text::every(s@, |c: char| text::is_ascii_digit(c)),
{
    let chars = text::chars_of(s);
    let mut i: usize = 0;
    while i < chars.len()
        invariant
            i <= chars@.len(),
            chars@ == s@,
            forall|j: int| 0 <= j < i ==> text::is_ascii_digit(#[trigger] s@[j]),
        decreases chars@.len() - i,
    {
        let c = chars[i];
        if !('0' <= c && c <= '9') {
            assert(!text::is_ascii_digit(s@[i as int]));
            return false;
        }
        i += 1;
    }
    true
}

/// Writing a value behind a number and taking the remainder can be done on the remainder alone.
proof fn lemma_appended_remainder(acc: nat, c: char)
    ensures
        appended_value(acc, c) % 97 == appended_value(acc % 97, c) % 97,
{
    let q = (acc / 97) as int;
    let r = (acc % 97) as int;
    assert(acc == 97 * q + r);
    if text::is_ascii_letter(c) {
        let v = c as int - 'A' as int + 10;
        assert((97 * q + r) * 100 + v == 97 * (q * 100) + (r * 100 + v)) by (nonlinear_arith);
        assert((97 * (q * 100) + (r * 100 + v)) % 97 == (r * 100 + v) % 97) by (nonlinear_arith);
    } else if text::is_ascii_digit(c) {
        let v = c as int - '0' as int;
        assert((97 * q + r) * 10 + v == 97 * (q * 10) + (r * 10 + v)) by (nonlinear_arith);
        assert((97 * (q * 10) + (r * 10 + v)) % 97 == (r * 10 + v) % 97) by (nonlinear_arith);
    } else {
        assert((97 * q + r) * 10 == 97 * (q * 10) + r * 10) by (nonlinear_arith);
        assert((97 * (q * 10) + r * 10) % 97 == (r * 10) % 97) by (nonlinear_arith);
    }
}

/// The remainder by 97 of the number that `s` spells.
fn remainder_97(s: &str) -> (r: u64)
    ensures
        r == iban_number(s@) % 97,
{
    let chars = text::chars_of(s);
    let mut remainder: u64 = 0;
    let mut i: usize = 0;
    while i < chars.len()
        invariant
            i <= chars@.len(),
            chars@ == s@,
            remainder < 97,
            remainder == iban_number(s@.take(i as int)) % 97,
        decreases chars@.len() - i,
    {
        let c = chars[i];
        proof {
            assert(s@.take(i + 1).drop_last() =~= s@.take(i as int));
            lemma_appended_remainder(iban_number(s@.take(i as int)), c);
        }
        if ('A' <= c && c <= 'Z') || ('a' <= c && c <= 'z') {
            remainder = (remainder * 100 + (c as u64 - 65 + 10)) % 97;
        } else if '0' <= c && c <= '9' {
            remainder = (remainder * 10 + (c as u64 - 48)) % 97;
        } else {
            remainder = (remainder * 10) % 97;
        }
        i += 1;
    }
    assert(s@.take(i as int) =~= s@);
    remainder
}

/// Validates an IBAN: its length (15 to 34 characters without white space), its country code (two
/// letters), its check digits, the length of a German one (22), and that the remainder by 97 of
/// its number is 1. Gives the normalized IBAN, or says which rule is broken.
pub fn validate_iban(iban: &str) -> (r: Result<String, String>)
    ensures
        text::text_result(r) == validated_iban(iban@),
{
    let iban = normalize_iban(iban);
    let chars = text::chars_of(iban.as_str());
    let len = chars.len();
    if len < 15 || len > 34 {
        let mut message = "Invalid length ".to_string();
        text::push_decimal(&mut message, len as u128);
        message.append(" (must be 15–34 characters)");
        return Err(message);
    }
    let country = text::string_of(&chars, 0, 2);
    assert(country@ =~= country_code(iban@));
    if !all_letters(country.as_str()) {
        let mut message = "Invalid country code '".to_string();
        message.append(country.as_str());
        message.append("' (must be 2 letters)");
        return Err(message);
    }
    let check = text::string_of(&chars, 2, 4);
    if !all_digits(check.as_str()) {
        let mut message = "Invalid check digits '".to_string();
        message.append(check.as_str());
        message.append("' (must be 2 digits)");
        return Err(message);
    }
    if text::same_text(country.as_str(), "DE") && len != 22 {
        let mut message = "German IBAN must be exactly 22 characters, got ".to_string();
        text::push_decimal(&mut message, len as u128);
        return Err(message);
    }
    let mut moved = text::string_of(&chars, 4, len);
    moved.append(text::string_of(&chars, 0, 4).as_str());
    assert(moved@ =~= rearranged(iban@));
    let remainder = remainder_97(moved.as_str());
    if remainder != 1 {
        let mut message = "Check digit validation failed (mod-97 = ".to_string();
        text::push_decimal(&mut message, remainder as u128);
        message.append(", expected 1)");
        return Err(message);
    }
    Ok(iban)
}

/// `s` with a space behind every four characters that others follow.
pub open spec fn in_groups_of_four(s: Seq<char>) -> Seq<char>
    decreases s.len(),
{
    if s.len() <= 4 {
        s
    } else {
        s.take(4) + seq![' '] + in_groups_of_four(s.skip(4))
    }
}

/// An IBAN for display: without its own white space, in groups of four characters.
pub open spec fn displayed_iban(iban: Seq<char>) -> Seq<char> {
    in_groups_of_four(text::without_white_space(iban))
}

/// Formats an IBAN for display, with a space between groups of four characters.
pub fn format_iban_display(iban: &str) -> (r: String)
    ensures
        r@ == displayed_iban(iban@),
{
    let dense = text::remove_white_space(iban);
    let chars = text::chars_of(dense.as_str());
    let ghost s = chars@;
    let mut out = String::new();
    let mut i: usize = 0;
    assert(s.skip(0) =~= s);
    assert(out@ + in_groups_of_four(s) =~= in_groups_of_four(s));
    while chars.len() - i > 4
        invariant
            i <= chars@.len(),
            chars@ == s,
            out@ + in_groups_of_four(s.skip(i as int)) == in_groups_of_four(s),
        decreases chars@.len() - i,
    {
        let group = text::string_of(&chars, i, i + 4);
        let ghost before = out@;
        let ghost rest = s.skip(i as int);
        out.append(group.as_str());
        out.push(' ');
        i += 4;
        proof {
            assert(rest.take(4) =~= group@);
            assert(rest.skip(4) =~= s.skip(i as int));
            assert(out@ + in_groups_of_four(s.skip(i as int)) =~= before + in_groups_of_four(rest));
        }
    }
    let group = text::string_of(&chars, i, chars.len());
    assert(group@ =~= s.skip(i as int));
    out.append(group.as_str());
    out
}

// ---------------------------------------------------------------------------------------------
// Laws
// ---------------------------------------------------------------------------------------------

proof fn lemma_without_white_space_is_kept(s: Seq<char>)
    ensures
        text::every(text::without_white_space(s), |c: char| !text::is_white_space(c)),
    decreases s.len(),
{
    reveal(Seq::filter);
    if s.len() > 0 {
        lemma_without_white_space_is_kept(s.drop_last());
    }
}

/// Normalizing a normalized IBAN changes nothing.
pub proof fn law_normalizing_is_idempotent(raw: Seq<char>)
    ensures
        normalized_iban(normalized_iban(raw)) == normalized_iban(raw),
{
    let n = normalized_iban(raw);
    lemma_without_white_space_is_kept(raw);
    assert forall|i: int| 0 <= i < n.len() implies !text::is_white_space(#[trigger] n[i]) by {
        assert(!text::is_white_space(text::without_white_space(raw)[i]));
    }
    text::lemma_nothing_to_remove(n);
    assert(n.map_values(|c: char| text::ascii_upper(c)) =~= n);
}

/// A validated IBAN is valid itself, and validation leaves it as it is.
pub proof fn law_validated_iban_is_valid(raw: Seq<char>)
    requires
        validated_iban(raw) is Ok,
    ensures
        validated_iban(validated_iban(raw)->Ok_0) == validated_iban(raw),
{
    law_normalizing_is_idempotent(raw);
}

/// Validation sees the normalized IBAN alone: two texts that differ in white space and in the case
/// of ASCII letters only are validated alike.
pub proof fn law_validation_ignores_spaces_and_case(a: Seq<char>, b: Seq<char>)
    requires
        normalized_iban(a) == normalized_iban(b),
    ensures
        validated_iban(a) == validated_iban(b),
{
}

/// What validation gives back holds no white space and no ASCII lower case letter.
pub proof fn law_validated_iban_is_normalized(raw: Seq<char>)
    ensures
        validated_iban(raw) matches Ok(n) ==> n == normalized_iban(raw) && forall|i: int|
            0 <= i < n.len() ==> !text::is_white_space(#[trigger] n[i]) && !('a' <= n[i] <= 'z'),
{
    let n = normalized_iban(raw);
    lemma_without_white_space_is_kept(raw);
    assert forall|i: int| 0 <= i < n.len() implies !text::is_white_space(#[trigger] n[i]) && !('a'
        <= n[i] <= 'z') by {
        assert(!text::is_white_space(text::without_white_space(raw)[i]));
    }
}

#[verifier::spinoff_prover]
proof fn lemma_groups_keep_characters(s: Seq<char>)
    requires
        text::every(s, |c: char| !text::is_white_space(c)),
    ensures
        text::without_white_space(in_groups_of_four(s)) == s,
    decreases s.len(),
{
    let keep = |c: char| !text::is_white_space(c);
    if s.len() <= 4 {
        assert forall|i: int| 0 <= i < s.len() implies !text::is_white_space(#[trigger] s[i]) by {}
        text::lemma_nothing_to_remove(s);
    } else {
        let head = s.take(4);
        let tail = s.skip(4);
        assert forall|i: int| 0 <= i < head.len() implies !text::is_white_space(#[trigger] head[i]) by {
            assert(!text::is_white_space(s[i]));
        }
        assert forall|i: int| 0 <= i < tail.len() implies !text::is_white_space(#[trigger] tail[i]) by {
            assert(!text::is_white_space(s[i + 4]));
        }
        text::lemma_nothing_to_remove(head);
        lemma_groups_keep_characters(tail);
        Seq::filter_distributes_over_add(head, seq![' '], keep);
        Seq::filter_distributes_over_add(head + seq![' '], in_groups_of_four(tail), keep);
        let space = seq![' '];
        let none = Seq::<char>::empty();
        assert(space.filter(keep) == none) by {
            reveal(Seq::filter);
            assert(space.drop_last() =~= none);
            assert(space.last() == ' ');
            assert(none.filter(keep) == none);
        }
        assert(head + none + tail =~= s);
    }
}

/// The display form has the characters of the IBAN, in order, and nothing but spaces besides.
pub proof fn law_display_keeps_the_characters(iban: Seq<char>)
    ensures
        text::without_white_space(displayed_iban(iban)) == text::without_white_space(iban),
{
    lemma_without_white_space_is_kept(iban);
    lemma_groups_keep_characters(text::without_white_space(iban));
}

/// Validation does not care whether an IBAN is given plain or in its display form.
pub proof fn law_display_form_validates_alike(iban: Seq<char>)
    ensures
        validated_iban(displayed_iban(iban)) == validated_iban(iban),
        displayed_iban(displayed_iban(iban)) == displayed_iban(iban),
{
    law_display_keeps_the_characters(iban);
}

/// The number of decimal digits that the characters stand for.
spec fn digit_count(s: Seq<char>) -> nat
    decreases s.len(),
{
    if s.len() == 0 {
        0
    } else if text::is_ascii_letter(s.last()) {
        digit_count(s.drop_last()) + 2
    } else {
        digit_count(s.drop_last()) + 1
    }
}

proof fn lemma_number_of_two_parts(a: Seq<char>, b: Seq<char>)
    ensures
        iban_number(a + b) == iban_number(a) * power::pow(10, digit_count(b)) + iban_number(b),
    decreases b.len(),
{
    reveal(power::pow);
    if b.len() == 0 {
        assert(a + b =~= a);
    } else {
        let front = b.drop_last();
        assert((a + b).drop_last() =~= a + front);
        lemma_number_of_two_parts(a, front);
        let n = iban_number(a) as int;
        let p = power::pow(10, digit_count(front));
        let m = iban_number(front) as int;
        vstd::arithmetic::power::lemma_pow_positive(10, digit_count(front));
        assert((n * p + m) * 10 == n * (10 * p) + m * 10) by (nonlinear_arith);
        assert((n * p + m) * 100 == n * (10 * (10 * p)) + m * 100) by (nonlinear_arith);
        if text::is_ascii_letter(b.last()) {
            assert(power::pow(10, (digit_count(front) + 1) as nat) == 10 * p);
            assert(power::pow(10, digit_count(b)) == 10 * (10 * p));
        } else {
            assert(power::pow(10, digit_count(b)) == 10 * p);
        }
    }
}

/// No number below 97 but zero becomes a multiple of 97 when zeros are written behind it.
proof fn lemma_no_multiple(d: int, k: nat)
    requires
        (d * power::pow(10, k)) % 97 == 0,
    ensures
        d % 97 == 0,
    decreases k,
{
    reveal(power::pow);
    if k > 0 {
        let p = power::pow(10, (k - 1) as nat);
        let x = d * p;
        assert(d * (10 * p) == 10 * x) by (nonlinear_arith)
            requires
                x == d * p,
        ;
        assert((10 * x) % 97 == 0);
        assert(x % 97 == 0);
        lemma_no_multiple(d, (k - 1) as nat);
    } else {
        assert(d * 1 == d);
    }
}

/// Two numbers with the same digits written behind them have different remainders by 97, unless
/// 97 divides their difference.
proof fn lemma_same_remainder(a: int, b: int, m: int, k: nat)
    requires
        (a * power::pow(10, k) + m) % 97 == (b * power::pow(10, k) + m) % 97,
    ensures
        (b - a) % 97 == 0,
{
    let p = power::pow(10, k);
    let d = b - a;
    assert((b * p + m) - (a * p + m) == d * p) by (nonlinear_arith)
        requires
            d == b - a,
    ;
    lemma_no_multiple(d, k);
}

proof fn lemma_number_of_digit(s: Seq<char>, c: char)
    requires
        text::is_ascii_digit(c),
    ensures
        iban_number(s.push(c)) == iban_number(s) * 10 + (c as int - '0' as int),
{
    assert(s.push(c).drop_last() =~= s);
}

/// The check by 97 notices every wrong digit: where one digit is written in place of another, the
/// remainder changes.
pub proof fn law_wrong_digit_changes_the_remainder(s: Seq<char>, i: int, c: char)
    requires
        0 <= i < s.len(),
        text::is_ascii_digit(s[i]),
        text::is_ascii_digit(c),
        c != s[i],
    ensures
        iban_number(s.update(i, c)) % 97 != iban_number(s) % 97,
{
    let front = s.take(i);
    let back = s.skip(i + 1);
    lemma_number_of_two_parts(front.push(s[i]), back);
    lemma_number_of_two_parts(front.push(c), back);
    assert(s =~= front.push(s[i]) + back);
    assert(s.update(i, c) =~= front.push(c) + back);
    lemma_number_of_digit(front, s[i]);
    lemma_number_of_digit(front, c);
    let a = iban_number(front.push(s[i])) as int;
    let b = iban_number(front.push(c)) as int;
    assert(b - a == c as int - s[i] as int);
    if iban_number(s.update(i, c)) % 97 == iban_number(s) % 97 {
        lemma_same_remainder(a, b, iban_number(back) as int, digit_count(back));
    }
}

/// The check by 97 notices every swap of two neighbouring digits.
#[verifier::spinoff_prover]
pub proof fn law_swapped_digits_change_the_remainder(s: Seq<char>, i: int)
    requires
        0 <= i < s.len() - 1,
        text::is_ascii_digit(s[i]),
        text::is_ascii_digit(s[i + 1]),
        s[i] != s[i + 1],
    ensures
        iban_number(s.update(i, s[i + 1]).update(i + 1, s[i])) % 97 != iban_number(s) % 97,
{
    let t = s.update(i, s[i + 1]).update(i + 1, s[i]);
    let front = s.take(i);
    let back = s.skip(i + 2);
    let right = front.push(s[i]).push(s[i + 1]);
    let wrong = front.push(s[i + 1]).push(s[i]);
    lemma_number_of_two_parts(right, back);
    lemma_number_of_two_parts(wrong, back);
    assert(s =~= right + back);
    assert(t =~= wrong + back);
    lemma_number_of_digit(front, s[i]);
    lemma_number_of_digit(front, s[i + 1]);
    lemma_number_of_digit(front.push(s[i]), s[i + 1]);
    lemma_number_of_digit(front.push(s[i + 1]), s[i]);
    let a = iban_number(right) as int;
    let b = iban_number(wrong) as int;
    assert(b - a == 9 * (s[i + 1] as int - s[i] as int));
    if iban_number(t) % 97 == iban_number(s) % 97 {
        lemma_same_remainder(a, b, iban_number(back) as int, digit_count(back));
    }
}

proof fn lemma_normalized_is_kept(n: Seq<char>)
    requires
        forall|i: int|
            0 <= i < n.len() ==> !text::is_white_space(#[trigger] n[i]) && !('a' <= n[i] <= 'z'),
    ensures
        normalized_iban(n) == n,
{
    assert forall|i: int| 0 <= i < n.len() implies !text::is_white_space(#[trigger] n[i]) by {}
    text::lemma_nothing_to_remove(n);
    assert(n.map_values(|c: char| text::ascii_upper(c)) =~= n);
}

/// No valid IBAN stays valid when one of its digits is mistyped as another one.
pub proof fn law_mistyped_digit_is_refused(raw: Seq<char>, i: int, c: char)
    requires
        validated_iban(raw) is Ok,
        0 <= i < validated_iban(raw)->Ok_0.len(),
        text::is_ascii_digit(validated_iban(raw)->Ok_0[i]),
        text::is_ascii_digit(c),
        c != validated_iban(raw)->Ok_0[i],
    ensures
        validated_iban(validated_iban(raw)->Ok_0.update(i, c)) is Err,
{
    let n = normalized_iban(raw);
    let wrong = n.update(i, c);
    law_validated_iban_is_normalized(raw);
    assert forall|k: int| 0 <= k < wrong.len() implies !text::is_white_space(#[trigger] wrong[k])
        && !('a' <= wrong[k] <= 'z') by {
        if k != i {
            assert(wrong[k] == n[k]);
        }
    }
    lemma_normalized_is_kept(wrong);
    let at = if i < 4 {
        n.len() - 4 + i
    } else {
        i - 4
    };
    assert(rearranged(n)[at] == n[i]);
    assert(rearranged(wrong) =~= rearranged(n).update(at, c));
    law_wrong_digit_changes_the_remainder(rearranged(n), at, c);
}

/// The digits that the characters of an IBAN stand for: a digit for itself, the letters from A to
/// Z for the numbers from 10 to 35, and anything else for a zero.
pub open spec fn spelled_out(s: Seq<char>) -> Seq<char>
    decreases s.len(),
{
    if s.len() == 0 {
        Seq::empty()
    } else {
        spelled_out(s.drop_last()) + (if 'A' <= s.last() <= 'Z' {
            text::decimal((s.last() as int - 'A' as int + 10) as nat)
        } else if '0' <= s.last() <= '9' {
            seq![s.last()]
        } else {
            seq!['0']
        })
    }
}

/// The remainder by 97 of the number that a normalized IBAN spells out once its first four
/// characters stand at its end.
pub open spec fn check_number(n: Seq<char>) -> int {
    text::number_in(spelled_out(n.skip(4) + n.take(4))) % 97
}

proof fn lemma_spelled_number(s: Seq<char>)
    requires
        forall|i: int| 0 <= i < s.len() ==> !('a' <= #[trigger] s[i] <= 'z'),
    ensures
        iban_number(s) == text::number_in(spelled_out(s)),
    decreases s.len(),
{
    if s.len() > 0 {
        let front = s.drop_last();
        let c = s.last();
        assert forall|i: int| 0 <= i < front.len() implies !('a' <= #[trigger] front[i] <= 'z') by {
            assert(front[i] == s[i]);
        }
        lemma_spelled_number(front);
        let f = spelled_out(front);
        let t = spelled_out(s);
        assert(c == s[s.len() - 1]);
        if 'A' <= c <= 'Z' {
            let v = (c as int - 'A' as int + 10) as nat;
            let d = text::decimal(v);
            assert(text::decimal(v / 10) == seq![text::digit_char((v / 10) as int)]);
            assert(d =~= seq![text::digit_char((v / 10) as int), text::digit_char((v % 10) as int)]);
            let u = f.push(d[0]);
            assert(t =~= u.push(d[1]));
            assert(t.drop_last() =~= u);
            assert(u.drop_last() =~= f);
            assert(text::number_in(u) == 10 * text::number_in(f) + v / 10);
            assert(text::number_in(t) == 10 * text::number_in(u) + v % 10);
            assert(text::number_in(t) == 100 * text::number_in(f) + v);
        } else {
            let d = if '0' <= c <= '9' {
                c
            } else {
                '0'
            };
            assert(t =~= f.push(d));
            assert(t.drop_last() =~= f);
        }
    }
}

/// Normalizing takes the white space away, wherever it stands, puts the ASCII letters in upper
/// case, and leaves every other character where it is.
pub proof fn law_normalizing(a: Seq<char>, c: char, b: Seq<char>)
    ensures
        normalized_iban(Seq::empty()) == Seq::<char>::empty(),
        text::is_white_space(c) ==> normalized_iban(a + seq![c] + b) == normalized_iban(a + b),
        !text::is_white_space(c) && 'a' <= c <= 'z' ==> normalized_iban(a + seq![c] + b)
            == normalized_iban(a) + seq![((c as u8) - 32) as char] + normalized_iban(b),
        !text::is_white_space(c) && !('a' <= c <= 'z') ==> normalized_iban(a + seq![c] + b)
            == normalized_iban(a) + seq![c] + normalized_iban(b),
{
    text::law_white_space_is_removed(a, c, b);
    assert(normalized_iban(Seq::empty()) =~= Seq::<char>::empty());
    if !text::is_white_space(c) {
        assert(normalized_iban(a + seq![c] + b) =~= normalized_iban(a) + seq![text::ascii_upper(c)]
            + normalized_iban(b));
    }
}

/// A text is a valid IBAN exactly where what is left of it without white space and in upper case
/// has 15 to 34 characters, 22 of them in Germany, begins with two letters and two digits, and
/// spells out a number whose remainder by 97 is 1. That is then what validation gives back.
pub proof fn law_valid_ibans(raw: Seq<char>)
    ensures
        ({
            let n = normalized_iban(raw);
            validated_iban(raw) is Ok <==> {
                &&& 15 <= n.len() <= 34
                &&& 'A' <= n[0] <= 'Z' && 'A' <= n[1] <= 'Z'
                &&& '0' <= n[2] <= '9' && '0' <= n[3] <= '9'
                &&& n[0] == 'D' && n[1] == 'E' ==> n.len() == 22
                &&& check_number(n) == 1
            }
        }),
        validated_iban(raw) matches Ok(n) ==> n == normalized_iban(raw),
{
    lemma_parts_of_iban(raw);
}

proof fn lemma_parts_of_iban(raw: Seq<char>)
    ensures
        ({
            let n = normalized_iban(raw);
            n.len() >= 4 ==> {
                &&& text::every(country_code(n), |c: char| text::is_ascii_letter(c)) <==> 'A' <= n[0]
                    <= 'Z' && 'A' <= n[1] <= 'Z'
                &&& text::every(check_digits(n), |c: char| text::is_ascii_digit(c)) <==> '0' <= n[2]
                    <= '9' && '0' <= n[3] <= '9'
                &&& country_code(n) == "DE"@ <==> n[0] == 'D' && n[1] == 'E'
                &&& iban_remainder(n) == check_number(n)
            }
        }),
{
    let n = normalized_iban(raw);
    lemma_without_white_space_is_kept(raw);
    reveal_strlit("DE");
    if n.len() >= 4 {
        let country = country_code(n);
        let check = check_digits(n);
        assert forall|i: int| 0 <= i < n.len() implies !('a' <= #[trigger] n[i] <= 'z') by {
            assert(n[i] == text::ascii_upper(text::without_white_space(raw)[i]));
        }
        assert(country[0] == n[0] && country[1] == n[1]);
        assert(check[0] == n[2] && check[1] == n[3]);
        if country == "DE"@ {
            assert(n[0] == "DE"@[0] && n[1] == "DE"@[1]);
        }
        if n[0] == 'D' && n[1] == 'E' {
            assert(country =~= "DE"@);
        }
        let r = rearranged(n);
        assert forall|i: int| 0 <= i < r.len() implies !('a' <= #[trigger] r[i] <= 'z') by {
            if i < n.len() - 4 {
                assert(r[i] == n[i + 4]);
            } else {
                assert(r[i] == n[i - (n.len() - 4)]);
            }
        }
        lemma_spelled_number(r);
    }
}

/// What is wrong with a text that is no IBAN is said by the first rule that it breaks: its length,
/// its country code, its check digits, the length of a German one, or the remainder by 97.
pub proof fn law_what_is_wrong_with_an_iban(raw: Seq<char>)
    ensures
        ({
            let n = normalized_iban(raw);
            let fits = 15 <= n.len() <= 34;
            let letters = 'A' <= n[0] <= 'Z' && 'A' <= n[1] <= 'Z';
            let numbers = '0' <= n[2] <= '9' && '0' <= n[3] <= '9';
            let german = n[0] == 'D' && n[1] == 'E';
            &&& !fits ==> validated_iban(raw) == Err::<Seq<char>, Seq<char>>(
                "Invalid length "@ + text::decimal(n.len()) + " (must be 15–34 characters)"@,
            )
            &&& fits && !letters ==> validated_iban(raw) == Err::<Seq<char>, Seq<char>>(
                "Invalid country code '"@ + n.take(2) + "' (must be 2 letters)"@,
            )
            &&& fits && letters && !numbers ==> validated_iban(raw) == Err::<Seq<char>, Seq<char>>(
                "Invalid check digits '"@ + n.subrange(2, 4) + "' (must be 2 digits)"@,
            )
            &&& fits && letters && numbers && german && n.len() != 22 ==> validated_iban(raw)
                == Err::<Seq<char>, Seq<char>>(
                "German IBAN must be exactly 22 characters, got "@ + text::decimal(n.len()),
            )
            &&& fits && letters && numbers && (german ==> n.len() == 22) && check_number(n) != 1
                ==> validated_iban(raw) == Err::<Seq<char>, Seq<char>>(
                "Check digit validation failed (mod-97 = "@ + text::decimal(check_number(n) as nat)
                    + ", expected 1)"@,
            )
        }),
{
    lemma_parts_of_iban(raw);
}

/// In the display form every fifth character is a space, no other one is, and none stands at the
/// end.
pub proof fn law_display_groups(iban: Seq<char>)
    ensures
        forall|i: int|
            0 <= i < displayed_iban(iban).len() ==> (text::is_white_space(
                #[trigger] displayed_iban(iban)[i],
            ) <==> i % 5 == 4),
        forall|i: int|
            0 <= i < displayed_iban(iban).len() && i % 5 == 4 ==> #[trigger] displayed_iban(iban)[i]
                == ' ',
        displayed_iban(iban).len() > 0 ==> displayed_iban(iban).len() % 5 != 0,
{
    lemma_without_white_space_is_kept(iban);
    lemma_groups(text::without_white_space(iban));
}

proof fn lemma_groups(s: Seq<char>)
    requires
        text::every(s, |c: char| !text::is_white_space(c)),
    ensures
        forall|i: int|
            0 <= i < in_groups_of_four(s).len() ==> (text::is_white_space(
                #[trigger] in_groups_of_four(s)[i],
            ) <==> i % 5 == 4),
        forall|i: int|
            0 <= i < in_groups_of_four(s).len() && i % 5 == 4
                ==> #[trigger] in_groups_of_four(s)[i] == ' ',
        s.len() > 0 ==> in_groups_of_four(s).len() % 5 != 0,
    decreases s.len(),
{
    let g = in_groups_of_four(s);
    if s.len() <= 4 {
        assert forall|i: int| 0 <= i < g.len() implies !text::is_white_space(#[trigger] g[i]) by {
            assert(g[i] == s[i]);
        }
    } else {
        let tail = s.skip(4);
        let gt = in_groups_of_four(tail);
        assert forall|i: int| 0 <= i < tail.len() implies !text::is_white_space(
            #[trigger] tail[i],
        ) by {
            assert(!text::is_white_space(s[i + 4]));
        }
        lemma_groups(tail);
        assert forall|i: int| 0 <= i < g.len() implies (text::is_white_space(#[trigger] g[i]) <==> i
            % 5 == 4) && (i % 5 == 4 ==> g[i] == ' ') by {
            if i < 4 {
                assert(g[i] == s[i]);
                assert(!text::is_white_space(s[i]));
            } else if i > 4 {
                assert(g[i] == gt[i - 5]);
                assert((i - 5) % 5 == i % 5);
            }
        }
    }
}

} // verus!
