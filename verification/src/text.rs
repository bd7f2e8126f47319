//! Text building blocks: white space, case, decimal numerals, padding, byte prefixes and
//! comparison. Every function here states its result over the characters of its
//! arguments.
use vstd::prelude::*;
use vstd::utf8;

verus! {

/// `String::push` of the standard library: appends one character at the end.
pub assume_specification[ String::push ](s: &mut String, c: char)
    ensures
        final(s)@ == old(s)@.push(c),
;

// ---------------------------------------------------------------------------------------------
// Characters
// ---------------------------------------------------------------------------------------------

/// The characters with the Unicode property White_Space.
pub open spec fn is_white_space(c: char) -> bool {
    ||| '\u{9}' <= c <= '\u{d}'
    ||| c == ' '
    ||| c == '\u{85}'
    ||| c == '\u{a0}'
    ||| c == '\u{1680}'
    ||| '\u{2000}' <= c <= '\u{200a}'
    ||| c == '\u{2028}'
    ||| c == '\u{2029}'
    ||| c == '\u{202f}'
    ||| c == '\u{205f}'
    ||| c == '\u{3000}'
}

/// Whether `c` has the Unicode property White_Space.
pub fn white_space(c: char) -> (r: bool)
    ensures
        r == is_white_space(c),
{
    ('\u{9}' <= c && c <= '\u{d}') || c == ' ' || c == '\u{85}' || c == '\u{a0}' || c == '\u{1680}'
        || ('\u{2000}' <= c && c <= '\u{200a}') || c == '\u{2028}' || c == '\u{2029}' || c
        == '\u{202f}' || c == '\u{205f}' || c == '\u{3000}'
}

pub open spec fn is_ascii_letter(c: char) -> bool {
    'A' <= c <= 'Z' || 'a' <= c <= 'z'
}

pub open spec fn is_ascii_digit(c: char) -> bool {
    '0' <= c <= '9'
}

/// `c` with an ASCII lower case letter replaced by its upper case counterpart.
pub open spec fn ascii_upper(c: char) -> char {
    if 'a' <= c <= 'z' {
        ((c as u8) - 32) as char
    } else {
        c
    }
}

pub fn to_ascii_upper(c: char) -> (r: char)
    ensures
        r == ascii_upper(c),
{
    if 'a' <= c && c <= 'z' {
        ((c as u8) - 32) as char
    } else {
        c
    }
}

/// Every character of `s` satisfies `p`.
pub open spec fn every(s: Seq<char>, p: spec_fn(char) -> bool) -> bool {
    forall|i: int| 0 <= i < s.len() ==> p(#[trigger] s[i])
}

// ---------------------------------------------------------------------------------------------
// Strings and character vectors
// ---------------------------------------------------------------------------------------------

/// The characters of a text, or of the message that stands in its place.
pub open spec fn text_result(r: Result<String, String>) -> Result<Seq<char>, Seq<char>> {
    match r {
        Ok(text) => Ok(text@),
        Err(message) => Err(message@),
    }
}

/// The characters of `s`, in order.
pub fn chars_of(s: &str) -> (r: Vec<char>)
    ensures
        r@ == s@,
{
    let mut out: Vec<char> = Vec::new();
    for c in it: s.chars()
        invariant
            out@ == s@.take(it.index() as int),
            it.seq() == s@,
    {
        out.push(c);
    }
    out
}

/// The characters of `chars` from `from` up to `to`, as a string.
pub fn string_of(chars: &Vec<char>, from: usize, to: usize) -> (r: String)
    requires
        from <= to <= chars@.len(),
    ensures
        r@ == chars@.subrange(from as int, to as int),
{
    let mut out = String::new();
    let mut i: usize = from;
    while i < to
        invariant
            from <= i <= to <= chars@.len(),
            out@ == chars@.subrange(from as int, i as int),
        decreases to - i,
    {
        out.push(chars[i]);
        i += 1;
        assert(chars@.subrange(from as int, i as int) =~= chars@.subrange(
            from as int,
            i - 1,
        ).push(chars@[i - 1]));
    }
    out
}

/// Whether two strings have the same characters.
pub fn same_text(a: &str, b: &str) -> (r: bool)
    ensures
        r == (a@ == b@),
{
    a.to_owned() == b.to_owned()
}

/// Whether `s` begins with `prefix`.
pub open spec fn begins_with(s: Seq<char>, prefix: Seq<char>) -> bool {
    prefix.len() <= s.len() && s.take(prefix.len() as int) == prefix
}

/// Whether `s` begins with `prefix`.
pub fn starts_with(s: &str, prefix: &str) -> (r: bool)
    ensures
        r == begins_with(s@, prefix@),
{
    let sc = chars_of(s);
    let pc = chars_of(prefix);
    if pc.len() > sc.len() {
        return false;
    }
    let head = string_of(&sc, 0, pc.len());
    assert(s@.take(prefix@.len() as int) =~= head@);
    same_text(head.as_str(), prefix)
}

// ---------------------------------------------------------------------------------------------
// White space
// ---------------------------------------------------------------------------------------------

/// `s` without its white space.
pub open spec fn without_white_space(s: Seq<char>) -> Seq<char> {
    s.filter(|c: char| !is_white_space(c))
}

/// `s` without its white space.
pub fn remove_white_space(s: &str) -> (r: String)
    ensures
        r@ == without_white_space(s@),
{
    let chars = chars_of(s);
    let mut out = String::new();
    let ghost keep = |c: char| !is_white_space(c);
    proof {
        reveal(Seq::filter);
        assert(s@.take(0) =~= Seq::<char>::empty());
    }
    let mut i: usize = 0;
    while i < chars.len()
        invariant
            0 <= i <= chars@.len(),
            chars@ == s@,
            keep == (|c: char| !is_white_space(c)),
            out@ == s@.take(i as int).filter(keep),
        decreases chars@.len() - i,
    {
        let c = chars[i];
        proof {
            reveal(Seq::filter);
            assert(s@.take(i + 1).drop_last() =~= s@.take(i as int));
        }
        if !white_space(c) {
            out.push(c);
        }
        i += 1;
    }
    assert(s@.take(i as int) =~= s@);
    out
}

/// Text without white space stays as it is when its white space is removed.
pub proof fn lemma_nothing_to_remove(s: Seq<char>)
    requires
        forall|i: int| 0 <= i < s.len() ==> !is_white_space(#[trigger] s[i]),
    ensures
        without_white_space(s) == s,
    decreases s.len(),
{
    reveal(Seq::filter);
    if s.len() > 0 {
        lemma_nothing_to_remove(s.drop_last());
        assert(!is_white_space(s[s.len() - 1]));
        assert(s.drop_last().push(s.last()) =~= s);
    }
}

/// `s` from its first character that is not white space.
pub open spec fn trimmed_start(s: Seq<char>) -> Seq<char>
    decreases s.len(),
{
    if s.len() > 0 && is_white_space(s[0]) {
        trimmed_start(s.drop_first())
    } else {
        s
    }
}

/// `s` up to its last character that is not white space.
pub open spec fn trimmed_end(s: Seq<char>) -> Seq<char>
    decreases s.len(),
{
    if s.len() > 0 && is_white_space(s.last()) {
        trimmed_end(s.drop_last())
    } else {
        s
    }
}

/// `s` without the white space at its two ends.
pub open spec fn trimmed(s: Seq<char>) -> Seq<char> {
    trimmed_end(trimmed_start(s))
}

/// `s` without the white space at its two ends.
pub fn trim(s: &str) -> (r: String)
    ensures
        r@ == trimmed(s@),
{
    let chars = chars_of(s);
    let mut from: usize = 0;
    assert(s@.skip(0) =~= s@);
    while from < chars.len() && white_space(chars[from])
        invariant
            from <= chars@.len(),
            chars@ == s@,
            trimmed_start(s@.skip(from as int)) == trimmed_start(s@),
        ensures
            from < chars@.len() ==> !is_white_space(chars@[from as int]),
        decreases chars@.len() - from,
    {
        assert(s@.skip(from as int).drop_first() =~= s@.skip(from + 1));
        from += 1;
    }
    assert(trimmed_start(s@) == s@.skip(from as int));
    let ghost rest = s@.skip(from as int);
    let mut to: usize = chars.len();
    assert(s@.subrange(from as int, to as int) =~= rest);
    while to > from && white_space(chars[to - 1])
        invariant
            from <= to <= chars@.len(),
            chars@ == s@,
            trimmed_end(s@.subrange(from as int, to as int)) == trimmed_end(rest),
        ensures
            to > from ==> !is_white_space(chars@[to - 1]),
        decreases to,
    {
        assert(s@.subrange(from as int, to as int).drop_last() =~= s@.subrange(
            from as int,
            to - 1,
        ));
        to -= 1;
    }
    string_of(&chars, from, to)
}

proof fn lemma_trim_start(s: Seq<char>, b: Seq<char>)
    requires
        every(b, |c: char| is_white_space(c)),
    ensures
        trimmed_end(trimmed_start(s + b)) == trimmed_end(trimmed_start(s)),
    decreases s.len() + b.len(),
{
    let whole = s + b;
    if s.len() > 0 && is_white_space(s[0]) {
        assert(whole.drop_first() =~= s.drop_first() + b);
        lemma_trim_start(s.drop_first(), b);
    } else if b.len() > 0 {
        let shorter = s + b.drop_last();
        assert forall|i: int| 0 <= i < b.drop_last().len() implies is_white_space(
            #[trigger] b.drop_last()[i],
        ) by {
            assert(is_white_space(b[i]));
        }
        assert(is_white_space(b[b.len() - 1]));
        if s.len() == 0 {
            assert(is_white_space(b[0]));
            assert(whole =~= b);
            assert(whole.drop_first() =~= s + b.drop_first());
            assert forall|i: int| 0 <= i < b.drop_first().len() implies is_white_space(
                #[trigger] b.drop_first()[i],
            ) by {
                assert(is_white_space(b[i + 1]));
            }
            lemma_trim_start(s, b.drop_first());
        } else {
            assert(whole.drop_last() =~= shorter);
            lemma_trim_start(s, b.drop_last());
            assert(whole[0] == s[0] && shorter[0] == s[0]);
            assert(trimmed_start(whole) == whole);
            assert(trimmed_start(shorter) == shorter);
        }
    } else {
        assert(whole =~= s);
    }
}

/// White space round a text does not change what is left of it after trimming.
pub proof fn law_trim_ignores_white_space_around(a: Seq<char>, s: Seq<char>, b: Seq<char>)
    requires
        every(a, |c: char| is_white_space(c)),
        every(b, |c: char| is_white_space(c)),
    ensures
        trimmed(a + s + b) == trimmed(s),
    decreases a.len(),
{
    if a.len() > 0 {
        assert(is_white_space(a[0]));
        assert((a + s + b).drop_first() =~= a.drop_first() + s + b);
        assert forall|i: int| 0 <= i < a.drop_first().len() implies is_white_space(
            #[trigger] a.drop_first()[i],
        ) by {
            assert(is_white_space(a[i + 1]));
        }
        law_trim_ignores_white_space_around(a.drop_first(), s, b);
    } else {
        assert(a + s + b =~= s + b);
        lemma_trim_start(s, b);
    }
}

// ---------------------------------------------------------------------------------------------
// Numerals
// ---------------------------------------------------------------------------------------------

/// The decimal digit of value `d`.
pub open spec fn digit_char(d: int) -> char {
    (48 + d) as char
}

/// The decimal numeral of `n`, without leading zeros.
pub open spec fn decimal(n: nat) -> Seq<char>
    decreases n,
{
    if n < 10 {
        seq![digit_char(n as int)]
    } else {
        decimal(n / 10).push(digit_char((n % 10) as int))
    }
}

/// The decimal numeral of `n`, with a minus sign where it is negative.
pub open spec fn signed_decimal(n: int) -> Seq<char> {
    if n < 0 {
        seq!['-'] + decimal((-n) as nat)
    } else {
        decimal(n as nat)
    }
}

/// Appends the decimal numeral of `n`.
pub fn push_decimal(out: &mut String, n: u128)
    ensures
        final(out)@ == old(out)@ + decimal(n as nat),
    decreases n,
{
    if n >= 10 {
        push_decimal(out, n / 10);
        let d = (n % 10) as u8;
        out.push((48 + d) as char);
        assert(out@ =~= old(out)@ + decimal(n as nat));
    } else {
        out.push((48 + n as u8) as char);
        assert(out@ =~= old(out)@ + decimal(n as nat));
    }
}

/// The decimal numeral of `n`.
pub fn decimal_text(n: u128) -> (r: String)
    ensures
        r@ == decimal(n as nat),
{
    let mut out = String::new();
    push_decimal(&mut out, n);
    assert(out@ =~= decimal(n as nat));
    out
}

/// The decimal numeral of `n`, with a minus sign where it is negative.
pub fn signed_decimal_text(n: i64) -> (r: String)
    ensures
        r@ == signed_decimal(n as int),
{
    if n < 0 {
        let mut out = String::new();
        out.push('-');
        push_decimal(&mut out, (-(n as i128)) as u128);
        assert(out@ =~= signed_decimal(n as int));
        out
    } else {
        decimal_text(n as u128)
    }
}

/// Every character of a decimal numeral is a digit, and there is at least one.
pub proof fn lemma_decimal_digits(n: nat)
    ensures
        decimal(n).len() > 0,
        forall|i: int| 0 <= i < decimal(n).len() ==> is_ascii_digit(#[trigger] decimal(n)[i]),
    decreases n,
{
    if n >= 10 {
        lemma_decimal_digits(n / 10);
    }
}

// ---------------------------------------------------------------------------------------------
// Layout
// ---------------------------------------------------------------------------------------------

/// `n` times the character `c`.
pub open spec fn repeated(c: char, n: nat) -> Seq<char> {
    Seq::new(n, |i: int| c)
}

/// Appends `c` `n` times.
pub fn push_repeated(out: &mut String, c: char, n: usize)
    ensures
        final(out)@ == old(out)@ + repeated(c, n as nat),
{
    let mut i: usize = 0;
    assert(out@ =~= old(out)@ + repeated(c, 0));
    while i < n
        invariant
            i <= n,
            out@ == old(out)@ + repeated(c, i as nat),
        decreases n - i,
    {
        out.push(c);
        i += 1;
        assert(out@ =~= old(out)@ + repeated(c, i as nat));
    }
}

/// `s` filled up with spaces on the right to at least `width` characters.
pub open spec fn padded_right(s: Seq<char>, width: nat) -> Seq<char> {
    if s.len() >= width {
        s
    } else {
        s + repeated(' ', (width - s.len()) as nat)
    }
}

/// `s` filled up with spaces on the left to at least `width` characters.
pub open spec fn padded_left(s: Seq<char>, width: nat) -> Seq<char> {
    if s.len() >= width {
        s
    } else {
        repeated(' ', (width - s.len()) as nat) + s
    }
}

/// `s` filled up with spaces on the right to at least `width` characters.
pub fn pad_right(s: &str, width: usize) -> (r: String)
    ensures
        r@ == padded_right(s@, width as nat),
{
    let n = s.unicode_len();
    let mut out = s.to_owned();
    if n < width {
        push_repeated(&mut out, ' ', width - n);
    }
    out
}

/// `s` filled up with spaces on the left to at least `width` characters.
pub fn pad_left(s: &str, width: usize) -> (r: String)
    ensures
        r@ == padded_left(s@, width as nat),
{
    let n = s.unicode_len();
    if n < width {
        let mut out = String::new();
        push_repeated(&mut out, ' ', width - n);
        out.append(s);
        assert(out@ =~= padded_left(s@, width as nat));
        out
    } else {
        s.to_owned()
    }
}

/// The texts of `items` one after the other, each rendered by `line`.
pub open spec fn lines_of<T>(items: Seq<T>, line: spec_fn(T) -> Seq<char>) -> Seq<char>
    decreases items.len(),
{
    if items.len() == 0 {
        Seq::empty()
    } else {
        lines_of(items.drop_last(), line) + line(items.last())
    }
}

/// One more item adds its line at the end.
pub proof fn lemma_lines_step<T>(items: Seq<T>, line: spec_fn(T) -> Seq<char>, i: int)
    requires
        0 <= i < items.len(),
    ensures
        lines_of(items.take(i + 1), line) == lines_of(items.take(i), line) + line(items[i]),
{
    assert(items.take(i + 1).drop_last() =~= items.take(i));
}

/// `items` one after the other with `separator` between two of them.
pub open spec fn joined(items: Seq<Seq<char>>, separator: Seq<char>) -> Seq<char>
    decreases items.len(),
{
    if items.len() == 0 {
        Seq::empty()
    } else if items.len() == 1 {
        items[0]
    } else {
        joined(items.drop_last(), separator) + separator + items.last()
    }
}

// ---------------------------------------------------------------------------------------------
// Bytes of a text
// ---------------------------------------------------------------------------------------------

/// The length of `s` in UTF-8.
pub open spec fn byte_len(s: Seq<char>) -> nat {
    utf8::encode_utf8(s).len()
}

/// The length of `s` in UTF-8.
pub fn utf8_len(s: &str) -> (r: usize)
    ensures
        r == byte_len(s@),
{
    s.as_bytes().len()
}

/// Whether the first `n` bytes of `s` are whole characters.
pub open spec fn splits_at(s: Seq<char>, n: nat) -> bool {
    utf8::is_char_boundary(utf8::encode_utf8(s), n as int)
}

/// The characters in the first `n` bytes of `s`.
pub open spec fn byte_prefix(s: Seq<char>, n: nat) -> Seq<char> {
    utf8::decode_utf8(utf8::encode_utf8(s).subrange(0, n as int))
}

/// The characters behind the first `n` bytes of `s`.
pub open spec fn byte_suffix(s: Seq<char>, n: nat) -> Seq<char> {
    utf8::decode_utf8(utf8::encode_utf8(s).subrange(n as int, byte_len(s) as int))
}

/// Whether the first `n` bytes of `s` are whole characters.
pub fn can_split_at(s: &str, n: usize) -> (r: bool)
    ensures
        r == splits_at(s@, n as nat),
{
    s.is_char_boundary(n)
}

/// `s` parted behind its first `n` bytes.
pub fn split_bytes(s: &str, n: usize) -> (r: (&str, &str))
    requires
        splits_at(s@, n as nat),
    ensures
        r.0@ == byte_prefix(s@, n as nat),
        r.1@ == byte_suffix(s@, n as nat),
        r.0@ + r.1@ == s@,
{
    let (a, b) = s.split_at(n);
    proof {
        utf8::encode_utf8_decode_utf8(a@);
        utf8::encode_utf8_decode_utf8(b@);
        utf8::encode_utf8_decode_utf8(s@);
        utf8::encode_utf8_valid_utf8(s@);
        utf8::decode_utf8_split(utf8::encode_utf8(s@), n as int);
        assert(a@ + b@ =~= s@);
    }
    (a, b)
}

/// The smaller of the length of `s` in UTF-8 and `max`.
pub open spec fn cut_at(s: Seq<char>, max: nat) -> nat {
    if byte_len(s) < max {
        byte_len(s)
    } else {
        max
    }
}

/// `s` cut behind its first `max` bytes.
pub open spec fn cut(s: Seq<char>, max: nat) -> Seq<char> {
    byte_prefix(s, cut_at(s, max))
}

/// Whether `s` can be cut behind its first `max` bytes: no character lies across the cut.
pub open spec fn cuttable(s: Seq<char>, max: nat) -> bool {
    splits_at(s, cut_at(s, max))
}

/// Whether `s` can be cut behind its first `max` bytes.
pub fn can_cut(s: &str, max: usize) -> (r: bool)
    ensures
        r == cuttable(s@, max as nat),
{
    let n = utf8_len(s);
    can_split_at(s, if n < max { n } else { max })
}

/// `s` cut behind its first `max` bytes.
pub fn cut_text(s: &str, max: usize) -> (r: &str)
    requires
        cuttable(s@, max as nat),
    ensures
        r@ == cut(s@, max as nat),
{
    let n = utf8_len(s);
    split_bytes(s, if n < max { n } else { max }).0
}

// ---------------------------------------------------------------------------------------------
// Order
// ---------------------------------------------------------------------------------------------

/// `a` comes before `b` in the order of strings: by the first character in which they differ,
/// and a prefix before what extends it.
pub open spec fn precedes(a: Seq<char>, b: Seq<char>) -> bool
    decreases a.len(),
{
    if b.len() == 0 {
        false
    } else if a.len() == 0 {
        true
    } else if a[0] == b[0] {
        precedes(a.drop_first(), b.drop_first())
    } else {
        a[0] < b[0]
    }
}

/// Whether `a` comes before `b` in the order of strings.
pub fn text_before(a: &str, b: &str) -> (r: bool)
    ensures
        r == precedes(a@, b@),
{
    let ac = chars_of(a);
    let bc = chars_of(b);
    let mut i: usize = 0;
    assert(a@.skip(0) =~= a@);
    assert(b@.skip(0) =~= b@);
    while i < ac.len() && i < bc.len() && ac[i] == bc[i]
        invariant
            i <= ac@.len(),
            i <= bc@.len(),
            ac@ == a@,
            bc@ == b@,
            precedes(a@.skip(i as int), b@.skip(i as int)) == precedes(a@, b@),
        ensures
            i < ac@.len() && i < bc@.len() ==> ac@[i as int] != bc@[i as int],
        decreases ac@.len() - i,
    {
        assert(a@.skip(i as int).drop_first() =~= a@.skip(i + 1));
        assert(b@.skip(i as int).drop_first() =~= b@.skip(i + 1));
        i += 1;
    }
    if i >= bc.len() {
        false
    } else if i >= ac.len() {
        true
    } else {
        ac[i] < bc[i]
    }
}

/// The order of strings is transitive: what does not come after `b` does not come after what `b`
/// does not come after.
pub proof fn lemma_order_transitive(a: Seq<char>, b: Seq<char>, c: Seq<char>)
    requires
        !precedes(b, a),
        !precedes(c, b),
    ensures
        !precedes(c, a),
    decreases a.len(),
{
    if a.len() > 0 && b.len() > 0 && c.len() > 0 && a[0] == b[0] && b[0] == c[0] {
        lemma_order_transitive(a.drop_first(), b.drop_first(), c.drop_first());
    }
}

/// Of two strings at most one comes before the other, and none before itself.
pub proof fn lemma_order_asymmetric(a: Seq<char>, b: Seq<char>)
    requires
        precedes(a, b),
    ensures
        !precedes(b, a),
        a != b,
    decreases a.len(),
{
    if a.len() > 0 && b.len() > 0 && a[0] == b[0] {
        lemma_order_asymmetric(a.drop_first(), b.drop_first());
    }
}

// ---------------------------------------------------------------------------------------------
// Laws
// ---------------------------------------------------------------------------------------------

/// The number that decimal digits stand for.
pub open spec fn number_in(digits: Seq<char>) -> int
    decreases digits.len(),
{
    if digits.len() == 0 {
        0
    } else {
        10 * number_in(digits.drop_last()) + (digits.last() as int - '0' as int)
    }
}

/// `t` is the number `n` in decimal digits, without leading zeros.
pub open spec fn reads_as_number(t: Seq<char>, n: int) -> bool {
    &&& t.len() > 0
    &&& forall|i: int| 0 <= i < t.len() ==> '0' <= #[trigger] t[i] <= '9'
    &&& t.len() > 1 ==> t[0] != '0'
    &&& number_in(t) == n
}

/// A decimal numeral is read back as its number.
pub proof fn law_numeral_is_read_back(n: nat)
    ensures
        reads_as_number(decimal(n), n as int),
    decreases n,
{
    if n >= 10 {
        let front = decimal(n / 10);
        law_numeral_is_read_back(n / 10);
        assert(decimal(n).drop_last() =~= front);
        assert(decimal(n).last() == digit_char((n % 10) as int));
        assert(decimal(n)[0] == front[0]);
        if front.len() == 1 && front[0] == '0' {
            assert(front.drop_last() =~= Seq::empty());
            assert(number_in(front.drop_last()) == 0);
            assert(number_in(front) == 0);
        }
    } else {
        let t = decimal(n);
        assert(t.drop_last() =~= Seq::empty());
        assert(number_in(t.drop_last()) == 0);
    }
}

/// A numeral has a minus sign exactly where its number is negative, and its digits are read back
/// as the number without its sign.
pub proof fn law_signed_numeral_is_read_back(n: int)
    ensures
        n >= 0 ==> reads_as_number(signed_decimal(n), n),
        n < 0 ==> signed_decimal(n).len() > 0 && signed_decimal(n)[0] == '-' && reads_as_number(
            signed_decimal(n).skip(1),
            -n,
        ),
{
    if n < 0 {
        law_numeral_is_read_back((-n) as nat);
        assert(signed_decimal(n).skip(1) =~= decimal((-n) as nat));
    } else {
        law_numeral_is_read_back(n as nat);
    }
}

/// `t` is `a` and behind it `b`.
pub open spec fn is_made_of(t: Seq<char>, a: Seq<char>, b: Seq<char>) -> bool {
    t == a + b
}

/// Every item has its line, and the lines stand in the order of the items: one item gives its own
/// line, and the lines of two lists one after the other are those of the first and then those of
/// the second.
pub proof fn law_every_item_has_its_line<T>(
    a: Seq<T>,
    item: T,
    b: Seq<T>,
    line: spec_fn(T) -> Seq<char>,
)
    ensures
        lines_of(Seq::<T>::empty(), line) == Seq::<char>::empty(),
        lines_of(seq![item], line) == line(item),
        lines_of(a + b, line) == lines_of(a, line) + lines_of(b, line),
        lines_of(a.push(item), line) == lines_of(a, line) + line(item),
    decreases b.len(),
{
    assert(seq![item].drop_last() =~= Seq::<T>::empty());
    assert(seq![item].last() == item);
    assert(lines_of(seq![item].drop_last(), line) =~= Seq::empty());
    assert(lines_of(seq![item], line) =~= line(item));
    assert(a.push(item).drop_last() =~= a);
    if b.len() > 0 {
        law_every_item_has_its_line(a, item, b.drop_last(), line);
        assert((a + b).drop_last() =~= a + b.drop_last());
        assert(lines_of(a + b, line) =~= lines_of(a, line) + lines_of(b, line));
    } else {
        assert(a + b =~= a);
        assert(lines_of(a + b, line) =~= lines_of(a, line) + lines_of(b, line));
    }
}

/// Padding keeps the text and adds spaces alone, on the right or on the left, up to the width.
pub proof fn law_padding_adds_spaces(s: Seq<char>, width: nat)
    ensures
        padded_right(s, width).len() == (if s.len() < width {
            width
        } else {
            s.len()
        }),
        padded_left(s, width).len() == padded_right(s, width).len(),
        padded_right(s, width).take(s.len() as int) == s,
        forall|i: int|
            s.len() <= i < padded_right(s, width).len() ==> #[trigger] padded_right(s, width)[i]
                == ' ',
        padded_left(s, width).skip(padded_left(s, width).len() - s.len()) == s,
        forall|i: int|
            0 <= i < padded_left(s, width).len() - s.len() ==> #[trigger] padded_left(s, width)[i]
                == ' ',
{
    assert(padded_right(s, width).take(s.len() as int) =~= s);
    assert(padded_left(s, width).skip(padded_left(s, width).len() - s.len()) =~= s);
}

/// Joined items stand in their order with one separator between two of them and none at the ends.
pub proof fn law_joined_items(items: Seq<Seq<char>>, item: Seq<char>, separator: Seq<char>)
    ensures
        joined(Seq::empty(), separator) == Seq::<char>::empty(),
        joined(seq![item], separator) == item,
        items.len() > 0 ==> joined(items.push(item), separator) == joined(items, separator)
            + separator + item,
{
    assert(items.push(item).drop_last() =~= items);
}

/// What is cut off a text is its end: what is left is the beginning of the text, all of it where
/// it has no more than `max` bytes, and else exactly its first `max` bytes.
pub proof fn law_cut_keeps_the_beginning(s: Seq<char>, max: nat)
    requires
        cuttable(s, max),
    ensures
        begins_with(s, cut(s, max)),
        byte_len(s) <= max ==> cut(s, max) == s,
        byte_len(s) > max ==> byte_len(cut(s, max)) == max,
{
    let bytes = utf8::encode_utf8(s);
    let n = cut_at(s, max) as int;
    utf8::encode_utf8_decode_utf8(s);
    utf8::encode_utf8_valid_utf8(s);
    utf8::decode_utf8_split(bytes, n);
    let front = utf8::decode_utf8(bytes.subrange(0, n));
    let back = utf8::decode_utf8(bytes.subrange(n, bytes.len() as int));
    assert(front + back =~= s);
    assert(s.take(front.len() as int) =~= front);
    if byte_len(s) <= max {
        assert(bytes.subrange(0, n) =~= bytes);
    } else {
        utf8::valid_utf8_split(bytes, n);
        utf8::decode_utf8_encode_utf8(bytes.subrange(0, n));
    }
}

/// `a` and `b` agree in their first `i` characters and part there: `a` ends, or has the smaller
/// character.
pub open spec fn parts_below(a: Seq<char>, b: Seq<char>, i: int) -> bool {
    &&& 0 <= i <= a.len()
    &&& i < b.len()
    &&& a.take(i) == b.take(i)
    &&& i < a.len() ==> a[i] < b[i]
}

/// Texts are ordered by the first character in which they differ, and a text that another one
/// begins with comes first. Of two different texts one comes before the other.
pub proof fn law_order_of_texts(a: Seq<char>, b: Seq<char>)
    ensures
        precedes(a, b) <==> exists|i: int| parts_below(a, b, i),
        a == b || precedes(a, b) || precedes(b, a),
        !(precedes(a, b) && precedes(b, a)),
    decreases a.len(),
{
    if precedes(a, b) {
        lemma_order_asymmetric(a, b);
    }
    if a.len() > 0 && b.len() > 0 && a[0] == b[0] {
        let c = a.drop_first();
        let d = b.drop_first();
        law_order_of_texts(c, d);
        if c == d {
            assert(a =~= seq![a[0]] + c);
            assert(b =~= seq![a[0]] + d);
        }
        if precedes(c, d) {
            let i = choose|i: int| parts_below(c, d, i);
            assert(a.take(i + 1) =~= seq![a[0]] + c.take(i));
            assert(b.take(i + 1) =~= seq![a[0]] + d.take(i));
            assert(parts_below(a, b, i + 1));
        }
        if exists|i: int| parts_below(a, b, i) {
            let i = choose|i: int| parts_below(a, b, i);
            assert(i > 0);
            assert(c.take(i - 1) =~= a.take(i).drop_first());
            assert(d.take(i - 1) =~= b.take(i).drop_first());
            assert(parts_below(c, d, i - 1));
        }
    } else {
        if a.len() == 0 && b.len() == 0 {
            assert(a =~= b);
        }
        if precedes(a, b) {
            assert(a.take(0) =~= b.take(0));
            assert(parts_below(a, b, 0));
        }
        if exists|i: int| parts_below(a, b, i) {
            let i = choose|i: int| parts_below(a, b, i);
            if i > 0 {
                assert(a.take(i)[0] == b.take(i)[0]);
            }
        }
    }
}

/// Trimming takes away white space alone, and all of it at the two ends.
pub proof fn law_trimming(s: Seq<char>)
    ensures
        exists|a: Seq<char>, b: Seq<char>|
            s == #[trigger] (a + trimmed(s) + b) && every(a, |c: char| is_white_space(c)) && every(
                b,
                |c: char| is_white_space(c),
            ),
        trimmed(s).len() > 0 ==> !is_white_space(trimmed(s)[0]) && !is_white_space(
            trimmed(s).last(),
        ),
{
    let t = trimmed_start(s);
    let a = lemma_trimmed_start(s);
    let b = lemma_trimmed_end(t);
    assert(s =~= a + trimmed(s) + b);
    if trimmed(s).len() > 0 {
        assert(t[0] == trimmed(s)[0]);
    }
}

proof fn lemma_trimmed_start(s: Seq<char>) -> (a: Seq<char>)
    ensures
        s == a + trimmed_start(s),
        every(a, |c: char| is_white_space(c)),
        trimmed_start(s).len() > 0 ==> !is_white_space(trimmed_start(s)[0]),
    decreases s.len(),
{
    if s.len() > 0 && is_white_space(s[0]) {
        let rest = lemma_trimmed_start(s.drop_first());
        let a = seq![s[0]] + rest;
        let left = trimmed_start(s);
        assert(s.drop_first() == rest + left);
        assert(s =~= seq![s[0]] + s.drop_first());
        assert(s =~= a + left);
        assert forall|i: int| 0 <= i < a.len() implies is_white_space(#[trigger] a[i]) by {
            if i > 0 {
                assert(a[i] == rest[i - 1]);
            }
        }
        a
    } else {
        assert(s =~= Seq::<char>::empty() + s);
        Seq::empty()
    }
}

proof fn lemma_trimmed_end(s: Seq<char>) -> (b: Seq<char>)
    ensures
        s == trimmed_end(s) + b,
        every(b, |c: char| is_white_space(c)),
        trimmed_end(s).len() > 0 ==> !is_white_space(trimmed_end(s).last()),
    decreases s.len(),
{
    if s.len() > 0 && is_white_space(s.last()) {
        let rest = lemma_trimmed_end(s.drop_last());
        let b = rest + seq![s.last()];
        let left = trimmed_end(s);
        assert(s.drop_last() == left + rest);
        assert(s =~= s.drop_last() + seq![s.last()]);
        assert(s =~= left + b);
        assert forall|i: int| 0 <= i < b.len() implies is_white_space(#[trigger] b[i]) by {
            if i < rest.len() {
                assert(b[i] == rest[i]);
            }
        }
        b
    } else {
        assert(s =~= s + Seq::<char>::empty());
        Seq::empty()
    }
}

/// Of the ASCII characters, the space and those from the tab to the carriage return are white
/// space. Removing white space from a text takes these away and leaves every other character,
/// wherever it stands.
pub proof fn law_white_space_is_removed(a: Seq<char>, c: char, b: Seq<char>)
    ensures
        c < '\u{80}' ==> (is_white_space(c) <==> c == ' ' || '\u{9}' <= c <= '\u{d}'),
        without_white_space(Seq::empty()) == Seq::<char>::empty(),
        is_white_space(c) ==> without_white_space(a + seq![c] + b) == without_white_space(a + b),
        !is_white_space(c) ==> without_white_space(a + seq![c] + b) == without_white_space(a)
            + seq![c] + without_white_space(b),
{
    let keep = |c: char| !is_white_space(c);
    reveal(Seq::filter);
    let one = seq![c];
    Seq::filter_distributes_over_add(a + one, b, keep);
    Seq::filter_distributes_over_add(a, one, keep);
    Seq::filter_distributes_over_add(a, b, keep);
    assert(one.drop_last() =~= Seq::empty());
    assert(one.drop_last().filter(keep) =~= Seq::empty());
    if is_white_space(c) {
        assert(one.filter(keep) =~= Seq::empty());
        assert(without_white_space(a + one + b) =~= without_white_space(a + b));
    } else {
        assert(one.filter(keep) =~= one);
    }
}

/// A letter of the ASCII alphabet becomes the capital letter at the same place, and every other
/// character stays.
pub proof fn law_upper_case(c: char)
    ensures
        'a' <= c <= 'z' ==> ascii_upper(c) as int - 'A' as int == c as int - 'a' as int,
        !('a' <= c <= 'z') ==> ascii_upper(c) == c,
{
}

} // verus!
