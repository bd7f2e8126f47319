//! A raw FinTS message as it is handed to the decoder: plain, in hexadecimal digits, or in
//! Base64 text.
use vstd::prelude::*;
use vstd::utf8;

use crate::encoding;
use crate::error;
use crate::text;

verus! {

/// `bytes` read as UTF-8 by `String::from_utf8_lossy`.
pub uninterp spec fn lossy_text(bytes: Seq<u8>) -> Seq<char>;

/// `String::from_utf8_lossy` of the standard library. Claimed: valid UTF-8 is read as what it
/// is; what stands for invalid bytes depends on `bytes` alone.
#[verifier::external_body]
fn read_lossy(bytes: &[u8]) -> (r: String)
    ensures
        r@ == lossy_text(bytes@),
        utf8::valid_utf8(bytes@) ==> r@ == utf8::decode_utf8(bytes@),
{
    String::from_utf8_lossy(bytes).into_owned()
}

// ---------------------------------------------------------------------------------------------
// Hexadecimal digits
// ---------------------------------------------------------------------------------------------

/// The value of a hexadecimal digit of either case.
pub open spec fn hex_value(c: char) -> Option<int> {
    if '0' <= c <= '9' {
        Some(c as int - '0' as int)
    } else if 'a' <= c <= 'f' {
        Some(c as int - 'a' as int + 10)
    } else if 'A' <= c <= 'F' {
        Some(c as int - 'A' as int + 10)
    } else {
        None
    }
}

/// The value of two characters: two hexadecimal digits, or a plus sign and one digit.
pub open spec fn pair_value(a: char, b: char) -> Option<int> {
    match (hex_value(a), hex_value(b)) {
        (Some(x), Some(y)) => Some(x * 16 + y),
        (None, Some(y)) => if a == '+' {
            Some(y)
        } else {
            None
        },
        _ => None,
    }
}

/// What comes of reading pairs of hexadecimal digits.
pub enum HexOutcome {
    Data(Seq<u8>),
    /// The pair at this byte is none of hexadecimal digits.
    InvalidAt(nat),
    /// A pair of bytes ends inside a character.
    TornCharacter,
}

/// The pairs of bytes of `t` as hexadecimal digits, from the byte `at` on. A single character at
/// the end does not count.
pub open spec fn hex_pairs(t: Seq<char>, at: nat) -> HexOutcome
    decreases t.len(),
{
    if t.len() == 0 {
        HexOutcome::Data(Seq::empty())
    } else if t[0] >= '\u{800}' {
        HexOutcome::TornCharacter
    } else if t[0] >= '\u{80}' {
        HexOutcome::InvalidAt(at)
    } else if t.len() == 1 {
        HexOutcome::Data(Seq::empty())
    } else if t[1] >= '\u{80}' {
        HexOutcome::TornCharacter
    } else {
        match pair_value(t[0], t[1]) {
            None => HexOutcome::InvalidAt(at),
            Some(v) => match hex_pairs(t.skip(2), at + 2) {
                HexOutcome::Data(rest) => HexOutcome::Data(seq![v as u8] + rest),
                other => other,
            },
        }
    }
}

fn digit_value(c: char) -> (r: Option<u8>)
    ensures
        match hex_value(c) {
            Some(v) => r is Some && r->0 == v,
            None => r is None,
        },
        r matches Some(v) ==> v < 16,
{
    if '0' <= c && c <= '9' {
        Some(c as u8 - 48)
    } else if 'a' <= c && c <= 'f' {
        Some(c as u8 - 87)
    } else if 'A' <= c && c <= 'F' {
        Some(c as u8 - 55)
    } else {
        None
    }
}

fn read_pair(a: char, b: char) -> (r: Option<u8>)
    ensures
        match pair_value(a, b) {
            Some(v) => r is Some && r->0 == v,
            None => r is None,
        },
{
    match (digit_value(a), digit_value(b)) {
        (Some(x), Some(y)) => Some(x * 16 + y),
        (None, Some(y)) => if a == '+' {
            Some(y)
        } else {
            None
        },
        _ => None,
    }
}

/// What a message that is given in some form amounts to.
#[derive(Debug)]
pub enum InputOutcome {
    Data(Vec<u8>),
    Fail(String),
    /// The hexadecimal digits cannot be told apart: a pair of bytes ends inside a character.
    TornCharacter,
}

/// What a message that is given in some form amounts to.
pub enum OutcomeView {
    Data(Seq<u8>),
    Fail(Seq<char>),
    TornCharacter,
}

impl InputOutcome {
    pub open spec fn view(&self) -> OutcomeView {
        match *self {
            InputOutcome::Data(data) => OutcomeView::Data(data@),
            InputOutcome::Fail(message) => OutcomeView::Fail(message@),
            InputOutcome::TornCharacter => OutcomeView::TornCharacter,
        }
    }
}

/// A message in hexadecimal digits, with white space anywhere between them.
pub open spec fn hex_input(t: Seq<char>) -> OutcomeView {
    match hex_pairs(text::without_white_space(t), 0) {
        HexOutcome::Data(data) => OutcomeView::Data(data),
        HexOutcome::InvalidAt(at) => OutcomeView::Fail(
            "Invalid hex at position "@ + text::decimal(at) + ": invalid digit found in string"@,
        ),
        HexOutcome::TornCharacter => OutcomeView::TornCharacter,
    }
}

/// `rest` with the bytes before it.
spec fn behind(before: Seq<u8>, rest: HexOutcome) -> HexOutcome {
    match rest {
        HexOutcome::Data(data) => HexOutcome::Data(before + data),
        other => other,
    }
}

/// Reads a message in hexadecimal digits.
pub fn read_hex(t: &str) -> (r: InputOutcome)
    ensures
        r@ == hex_input(t@),
{
    let dense = text::remove_white_space(t);
    let chars = text::chars_of(dense.as_str());
    let mut data: Vec<u8> = Vec::new();
    let mut i: usize = 0;
    assert(chars@.skip(0) =~= chars@);
    assert(data@ + Seq::<u8>::empty() =~= data@);
    proof {
        if let HexOutcome::Data(d) = hex_pairs(chars@, 0) {
            assert(data@ + d =~= d);
        }
    }
    while i < chars.len()
        invariant
            i <= chars@.len(),
            chars@ == text::without_white_space(t@),
            hex_pairs(chars@, 0) == behind(data@, hex_pairs(chars@.skip(i as int), i as nat)),
        decreases chars@.len() - i,
    {
        let ghost rest = chars@.skip(i as int);
        let a = chars[i];
        assert(rest[0] == a);
        if a >= '\u{800}' {
            return InputOutcome::TornCharacter;
        }
        if a >= '\u{80}' {
            return InputOutcome::Fail(invalid_hex(i));
        }
        if i + 1 == chars.len() {
            assert(data@ + Seq::<u8>::empty() =~= data@);
            return InputOutcome::Data(data);
        }
        let b = chars[i + 1];
        assert(rest[1] == b);
        if b >= '\u{80}' {
            return InputOutcome::TornCharacter;
        }
        match read_pair(a, b) {
            None => {
                return InputOutcome::Fail(invalid_hex(i));
            },
            Some(v) => {
                let ghost before = data@;
                data.push(v);
                assert(rest.skip(2) =~= chars@.skip(i + 2));
                proof {
                    if let HexOutcome::Data(d) = hex_pairs(chars@.skip(i + 2), (i + 2) as nat) {
                        assert(before + (seq![v] + d) =~= data@ + d);
                    }
                }
            },
        }
        i += 2;
    }
    assert(data@ + Seq::<u8>::empty() =~= data@);
    InputOutcome::Data(data)
}

fn invalid_hex(at: usize) -> (r: String)
    ensures
        r@ == "Invalid hex at position "@ + text::decimal(at as nat)
            + ": invalid digit found in string"@,
{
    let mut message = "Invalid hex at position ".to_string();
    text::push_decimal(&mut message, at as u128);
    message.append(": invalid digit found in string");
    message
}

// ---------------------------------------------------------------------------------------------
// Base64 text
// ---------------------------------------------------------------------------------------------

/// A message in Base64 text, with white space anywhere in it.
pub open spec fn base64_input(t: Seq<char>) -> OutcomeView {
    let dense = text::without_white_space(t);
    match encoding::base64_bytes(dense) {
        Some(data) => OutcomeView::Data(data),
        None => OutcomeView::Fail("Base64 decode error: "@ + encoding::base64_error(dense)),
    }
}

/// Reads a message in Base64 text.
pub fn read_base64(t: &str) -> (r: InputOutcome)
    ensures
        r@ == base64_input(t@),
{
    let dense = text::remove_white_space(t);
    match encoding::decode_base64(dense.as_str()) {
        Ok(data) => InputOutcome::Data(data),
        Err(message) => InputOutcome::Fail(
            error::labelled("Base64 decode error: ", message.as_str()),
        ),
    }
}

// ---------------------------------------------------------------------------------------------
// Any form
// ---------------------------------------------------------------------------------------------

/// Text that is taken for Base64: nothing but its characters, and not the start of a message.
pub open spec fn looks_like_base64(t: Seq<char>) -> bool {
    &&& t.len() > 0
    &&& text::every(t, |c: char| encoding::is_base64_char(c))
    &&& !text::begins_with(t, "HNHBK"@)
    &&& !text::begins_with(t, "HN"@)
}

/// The bytes that are meant by `raw`, which reads `t`: what it is the Base64 text of where it
/// looks like such text and is, else `raw` itself.
pub open spec fn detected_input(t: Seq<char>, raw: Seq<u8>) -> Seq<u8> {
    let dense = text::without_white_space(t);
    if looks_like_base64(dense) {
        match encoding::base64_bytes(dense) {
            Some(data) => data,
            None => raw,
        }
    } else {
        raw
    }
}

fn all_base64_chars(t: &str) -> (r: bool)
    ensures
        r == text::every(t@, |c: char| encoding::is_base64_char(c)),
{
    let chars = text::chars_of(t);
    let mut i: usize = 0;
    while i < chars.len()
        invariant
            i <= chars@.len(),
            chars@ == t@,
            forall|j: int| 0 <= j < i ==> encoding::is_base64_char(#[trigger] t@[j]),
        decreases chars@.len() - i,
    {
        let c = chars[i];
        if !(('A' <= c && c <= 'Z') || ('a' <= c && c <= 'z') || ('0' <= c && c <= '9') || c == '+'
            || c == '/' || c == '=') {
            assert(!encoding::is_base64_char(t@[i as int]));
            return false;
        }
        i += 1;
    }
    true
}

/// The bytes that are meant by `raw`, which reads `t`.
pub fn detect_input(t: &str, raw: Vec<u8>) -> (r: Vec<u8>)
    ensures
        r@ == detected_input(t@, raw@),
{
    let dense = text::remove_white_space(t);
    let looks = !dense.as_str().is_empty() && all_base64_chars(dense.as_str())
        && !text::starts_with(dense.as_str(), "HNHBK") && !text::starts_with(dense.as_str(), "HN");
    if looks {
        match encoding::decode_base64(dense.as_str()) {
            Ok(data) => data,
            Err(_) => raw,
        }
    } else {
        raw
    }
}

/// What `raw` amounts to by the form that the arguments name: `--hex`, then `--b64`, else the one
/// that it looks like.
pub open spec fn message_input(raw: Seq<u8>, hex: bool, b64: bool) -> OutcomeView {
    let t = lossy_text(raw);
    if hex {
        hex_input(t)
    } else if b64 {
        base64_input(t)
    } else {
        OutcomeView::Data(detected_input(t, raw))
    }
}

/// What `raw` amounts to by the form that the arguments name.
pub fn read_message_input(raw: Vec<u8>, hex: bool, b64: bool) -> (r: InputOutcome)
    ensures
        r@ == message_input(raw@, hex, b64),
        utf8::valid_utf8(raw@) ==> lossy_text(raw@) == utf8::decode_utf8(raw@),
{
    let t = read_lossy(raw.as_slice());
    if hex {
        read_hex(t.as_str())
    } else if b64 {
        read_base64(t.as_str())
    } else {
        InputOutcome::Data(detect_input(t.as_str(), raw))
    }
}

/// How much of a message is shown.
#[derive(Debug, Clone, Copy, PartialEq, Eq, Structural)]
pub enum VerbosityLevel {
    Minimal,
    Segments,
    Full,
}

/// How much of a message is shown by the arguments `--debug-wire` and `--verbose`.
pub open spec fn shown_level(debug_wire: bool, verbose: bool) -> VerbosityLevel {
    if debug_wire {
        VerbosityLevel::Full
    } else if verbose {
        VerbosityLevel::Segments
    } else {
        VerbosityLevel::Minimal
    }
}

/// How much of a message is shown by the arguments `--debug-wire` and `--verbose`.
pub fn verbosity(debug_wire: bool, verbose: bool) -> (r: VerbosityLevel)
    ensures
        r == shown_level(debug_wire, verbose),
{
    if debug_wire {
        VerbosityLevel::Full
    } else if verbose {
        VerbosityLevel::Segments
    } else {
        VerbosityLevel::Minimal
    }
}

/// How much is logged by the arguments `--debug-wire` and `--verbose`.
pub open spec fn logged_level(debug_wire: bool, verbose: bool) -> Seq<char> {
    if debug_wire {
        "fints=debug"@
    } else if verbose {
        "fints=info"@
    } else {
        "fints=warn"@
    }
}

/// How much is logged by the arguments `--debug-wire` and `--verbose`.
pub fn log_filter(debug_wire: bool, verbose: bool) -> (r: String)
    ensures
        r@ == logged_level(debug_wire, verbose),
{
    if debug_wire {
        "fints=debug".to_string()
    } else if verbose {
        "fints=info".to_string()
    } else {
        "fints=warn".to_string()
    }
}

/// A plain message is taken as it is: no message that starts with a segment `HN...` is mistaken
/// for Base64 text.
pub proof fn law_plain_message_is_kept(t: Seq<char>, raw: Seq<u8>)
    requires
        text::begins_with(text::without_white_space(t), "HN"@),
    ensures
        detected_input(t, raw) == raw,
{
}

/// The Base64 text of a message is read as that message, both when it is said to be Base64 text
/// and when it looks like it.
pub proof fn law_base64_message_is_read(message: Seq<u8>, t: Seq<char>, raw: Seq<u8>)
    requires
        text::without_white_space(t) == encoding::base64_text(message),
    ensures
        base64_input(t) == OutcomeView::Data(message),
        message.len() > 0 && !text::begins_with(text::without_white_space(t), "HN"@)
            ==> detected_input(t, raw) == message,
{
    encoding::law_base64_round_trip(message);
    encoding::law_base64_alphabet(message);
    reveal_strlit("HN");
    reveal_strlit("HNHBK");
    let dense = text::without_white_space(t);
    if text::begins_with(dense, "HNHBK"@) {
        assert(dense.take(2) =~= dense.take(5).take(2));
        assert("HNHBK"@.take(2) =~= "HN"@);
    }
}

/// Pairs of hexadecimal digits are read as the bytes that they spell, one by one; a single ASCII
/// character behind them does not count.
pub proof fn law_hex_pairs_are_read(t: Seq<char>, data: Seq<u8>, at: nat)
    requires
        t.len() / 2 == data.len(),
        forall|k: int|
            0 <= k < data.len() ==> pair_value(t[2 * k], t[2 * k + 1]) == Some(
                #[trigger] data[k] as int,
            ),
        t.len() % 2 == 1 ==> t.last() < '\u{80}',
    ensures
        hex_pairs(t, at) == HexOutcome::Data(data),
    decreases t.len(),
{
    if t.len() >= 2 {
        let rest = t.skip(2);
        let tail = data.skip(1);
        assert(pair_value(t[0], t[1]) == Some(data[0] as int));
        assert forall|k: int| 0 <= k < tail.len() implies pair_value(rest[2 * k], rest[2 * k + 1])
            == Some(#[trigger] tail[k] as int) by {
            assert(tail[k] == data[k + 1]);
            assert(rest[2 * k] == t[2 * (k + 1)] && rest[2 * k + 1] == t[2 * (k + 1) + 1]);
        }
        law_hex_pairs_are_read(rest, tail, at + 2);
        assert(seq![data[0]] + tail =~= data);
    } else {
        assert(data =~= Seq::empty());
    }
}

/// Two hexadecimal digits, in upper or in lower case, are read as the byte that they are the digits
/// of.
pub proof fn law_two_digits_make_a_byte(b: u8)
    ensures
        ({
            let high = b as int / 16;
            let low = b as int % 16;
            let upper = |d: int|
                if d < 10 {
                    ('0' as int + d) as char
                } else {
                    ('A' as int + d - 10) as char
                };
            let lower = |d: int|
                if d < 10 {
                    ('0' as int + d) as char
                } else {
                    ('a' as int + d - 10) as char
                };
            &&& pair_value(upper(high), upper(low)) == Some(b as int)
            &&& pair_value(lower(high), lower(low)) == Some(b as int)
            &&& pair_value(upper(high), lower(low)) == Some(b as int)
            &&& pair_value(lower(high), upper(low)) == Some(b as int)
        }),
{
}

/// A character that is no hexadecimal digit makes no pair, but for a plus sign in front of a digit.
pub proof fn law_other_characters_make_no_pair(a: char, b: char)
    ensures
        !('0' <= b <= '9') && !('a' <= b <= 'f') && !('A' <= b <= 'F') ==> pair_value(a, b) is None,
        !('0' <= a <= '9') && !('a' <= a <= 'f') && !('A' <= a <= 'F') && a != '+' ==> pair_value(
            a,
            b,
        ) is None,
{
}

/// A pair that is none of hexadecimal digits is reported with its place, behind whatever was read
/// before it.
pub proof fn law_wrong_pair_is_reported(t: Seq<char>, data: Seq<u8>, at: nat)
    requires
        t.len() >= 2 * data.len() + 2,
        forall|k: int|
            0 <= k < data.len() ==> pair_value(t[2 * k], t[2 * k + 1]) == Some(
                #[trigger] data[k] as int,
            ),
        t[2 * data.len() as int] < '\u{80}',
        t[2 * data.len() as int + 1] < '\u{80}',
        pair_value(t[2 * data.len() as int], t[2 * data.len() as int + 1]) is None,
    ensures
        hex_pairs(t, at) == HexOutcome::InvalidAt(at + 2 * data.len()),
    decreases data.len(),
{
    if data.len() > 0 {
        let rest = t.skip(2);
        let tail = data.skip(1);
        assert(pair_value(t[0], t[1]) == Some(data[0] as int));
        assert forall|k: int| 0 <= k < tail.len() implies pair_value(rest[2 * k], rest[2 * k + 1])
            == Some(#[trigger] tail[k] as int) by {
            assert(tail[k] == data[k + 1]);
            assert(rest[2 * k] == t[2 * (k + 1)] && rest[2 * k + 1] == t[2 * (k + 1) + 1]);
        }
        law_wrong_pair_is_reported(rest, tail, at + 2);
    }
}

/// With `--hex` a message is read as hexadecimal digits, whatever it looks like; with `--b64` as
/// Base64 text; and without either by what it looks like, and then it is never an error.
pub proof fn law_form_of_a_message(raw: Seq<u8>, hex: bool, b64: bool)
    ensures
        hex ==> message_input(raw, hex, b64) == hex_input(lossy_text(raw)),
        !hex && b64 ==> message_input(raw, hex, b64) == base64_input(lossy_text(raw)),
        !hex && !b64 ==> message_input(raw, hex, b64) is Data,
        !hex && !b64 && !looks_like_base64(text::without_white_space(lossy_text(raw)))
            ==> message_input(raw, hex, b64) == OutcomeView::Data(raw),
{
}

/// White space in a message that is written in digits or as Base64 text does not count.
pub proof fn law_white_space_in_a_message(a: Seq<char>, b: Seq<char>)
    requires
        text::without_white_space(a) == text::without_white_space(b),
    ensures
        hex_input(a) == hex_input(b),
        base64_input(a) == base64_input(b),
{
}

/// A message of hexadecimal digits is what its pairs spell; a wrong pair is an error that names its
/// place.
pub proof fn law_hex_messages(t: Seq<char>)
    ensures
        hex_pairs(text::without_white_space(t), 0) matches HexOutcome::Data(data) ==> hex_input(t)
            == OutcomeView::Data(data),
        hex_pairs(text::without_white_space(t), 0) matches HexOutcome::InvalidAt(at) ==> exists|
            number: Seq<char>,
        | #[trigger]
            text::reads_as_number(number, at as int) && hex_input(t) == OutcomeView::Fail(
                "Invalid hex at position "@ + number + ": invalid digit found in string"@,
            ),
        hex_pairs(text::without_white_space(t), 0) is TornCharacter ==> hex_input(t)
            is TornCharacter,
{
    if let HexOutcome::InvalidAt(at) = hex_pairs(text::without_white_space(t), 0) {
        text::law_numeral_is_read_back(at);
    }
}

/// Text is taken for Base64 exactly where it is not empty, has no character but letters, digits,
/// `+`, `/` and `=`, and does not start with `HN`.
pub proof fn law_what_looks_like_base64(t: Seq<char>)
    ensures
        looks_like_base64(t) <==> {
            &&& t.len() > 0
            &&& forall|i: int|
                0 <= i < t.len() ==> 'A' <= #[trigger] t[i] <= 'Z' || 'a' <= t[i] <= 'z' || '0'
                    <= t[i] <= '9' || t[i] == '+' || t[i] == '/' || t[i] == '='
            &&& !(t.len() >= 2 && t[0] == 'H' && t[1] == 'N')
        },
{
    reveal_strlit("HN");
    reveal_strlit("HNHBK");
    if text::every(t, |c: char| encoding::is_base64_char(c)) {
        assert forall|i: int| 0 <= i < t.len() implies 'A' <= #[trigger] t[i] <= 'Z' || 'a' <= t[i]
            <= 'z' || '0' <= t[i] <= '9' || t[i] == '+' || t[i] == '/' || t[i] == '=' by {
            assert(encoding::is_base64_char(t[i]));
        }
    }
    if t.len() >= 2 && t[0] == 'H' && t[1] == 'N' {
        assert(t.take(2) =~= "HN"@);
    }
    if text::begins_with(t, "HN"@) {
        assert(t[0] == t.take(2)[0] && t[1] == t.take(2)[1]);
    }
    if text::begins_with(t, "HNHBK"@) {
        assert(t[0] == t.take(5)[0] && t[1] == t.take(5)[1]);
    }
}

/// `--debug-wire` shows and logs the most, then `--verbose`, and without either the least is shown
/// and logged.
pub proof fn law_verbosity(debug_wire: bool, verbose: bool)
    ensures
        shown_level(debug_wire, verbose) is Full <==> debug_wire,
        shown_level(debug_wire, verbose) is Segments <==> verbose && !debug_wire,
        debug_wire ==> logged_level(debug_wire, verbose) == "fints=debug"@,
        !debug_wire && verbose ==> logged_level(debug_wire, verbose) == "fints=info"@,
        !debug_wire && !verbose ==> logged_level(debug_wire, verbose) == "fints=warn"@,
{
}

} // verus!
