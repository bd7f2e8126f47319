//! Base64 text, as messages and tokens travel in it.
use base64::engine::general_purpose::STANDARD;
use base64::Engine;
use vstd::prelude::*;

verus! {

/// The character of a group of six bits.
pub open spec fn base64_char(v: int) -> char {
    if v < 26 {
        ('A' as int + v) as char
    } else if v < 52 {
        ('a' as int + (v - 26)) as char
    } else if v < 62 {
        ('0' as int + (v - 52)) as char
    } else if v == 62 {
        '+'
    } else {
        '/'
    }
}

/// The byte at a place, and 0 behind the end.
pub open spec fn byte_or_zero(data: Seq<u8>, k: int) -> int {
    if k < data.len() {
        data[k] as int
    } else {
        0
    }
}

/// The group `i` of six bits of `data`, the most significant bits first.
pub open spec fn six_bits(data: Seq<u8>, i: int) -> int {
    let a = byte_or_zero(data, i / 4 * 3);
    let b = byte_or_zero(data, i / 4 * 3 + 1);
    let c = byte_or_zero(data, i / 4 * 3 + 2);
    if i % 4 == 0 {
        a / 4
    } else if i % 4 == 1 {
        a % 4 * 16 + b / 16
    } else if i % 4 == 2 {
        b % 16 * 4 + c / 64
    } else {
        c % 64
    }
}

/// The number of groups of six bits that cover `n` bytes.
pub open spec fn groups(n: nat) -> nat {
    ((4 * n + 2) / 3) as nat
}

/// `data` in the standard Base64 alphabet, padded with `=` to a multiple of four characters.
pub open spec fn base64_text(data: Seq<u8>) -> Seq<char> {
    Seq::new(
        ((data.len() + 2) / 3 * 4) as nat,
        |i: int|
            if i < groups(data.len()) {
                base64_char(six_bits(data, i))
            } else {
                '='
            },
    )
}

/// The bytes that `s` is the Base64 text of, if it is one.
pub open spec fn base64_bytes(s: Seq<char>) -> Option<Seq<u8>> {
    if exists|data: Seq<u8>| #[trigger] base64_text(data) == s {
        Some(choose|data: Seq<u8>| #[trigger] base64_text(data) == s)
    } else {
        None
    }
}

/// How `base64::DecodeError` words the failure to decode the text `s`.
pub uninterp spec fn base64_error(s: Seq<char>) -> Seq<char>;

/// `encode` of the `STANDARD` engine of the `base64` crate. Claimed: the result is the Base64
/// text of `data`, in the standard alphabet and with padding.
#[verifier::external_body]
pub(crate) fn encode_base64(data: &[u8]) -> (r: String)
    ensures
        r@ == base64_text(data@),
{
    STANDARD.encode(data)
}

/// `decode` of the `STANDARD` engine of the `base64` crate. Claimed: it gives the bytes that `s`
/// is the padded Base64 text of, and fails where `s` is the text of no bytes, which covers
/// missing or surplus padding and stray bits at the end. Of the wording of a failure nothing is
/// claimed but that it depends on `s` alone.
#[verifier::external_body]
fn call_decode(s: &str) -> (r: Result<Vec<u8>, String>)
    ensures
        r matches Ok(data) ==> base64_text(data@) == s@,
        r matches Err(m) ==> m@ == base64_error(s@) && forall|data: Seq<u8>| #[trigger]
            base64_text(data) != s@,
{
    STANDARD.decode(s).map_err(|e| e.to_string())
}

/// The bytes that `s` is the Base64 text of, or how the failure is worded.
pub(crate) fn decode_base64(s: &str) -> (r: Result<Vec<u8>, String>)
    ensures
        match base64_bytes(s@) {
            Some(data) => r is Ok && r->Ok_0@ == data,
            None => r is Err && r->Err_0@ == base64_error(s@),
        },
{
    let r = call_decode(s);
    proof {
        if r is Ok {
            law_base64_round_trip(r->Ok_0@);
        }
    }
    r
}

/// The characters of Base64 text.
pub open spec fn is_base64_char(c: char) -> bool {
    'A' <= c <= 'Z' || 'a' <= c <= 'z' || '0' <= c <= '9' || c == '+' || c == '/' || c == '='
}

proof fn lemma_char_injective(v: int, w: int)
    requires
        0 <= v < 64,
        0 <= w < 64,
        base64_char(v) == base64_char(w),
    ensures
        v == w,
{
}

proof fn lemma_six_bits_range(data: Seq<u8>, i: int)
    requires
        0 <= i,
    ensures
        0 <= six_bits(data, i) < 64,
{
}

/// Base64 text holds letters, digits, `+`, `/` and `=` alone.
pub proof fn law_base64_alphabet(data: Seq<u8>)
    ensures
        forall|i: int|
            0 <= i < base64_text(data).len() ==> is_base64_char(#[trigger] base64_text(data)[i]),
        base64_text(data).len() % 4 == 0,
{
    assert forall|i: int| 0 <= i < base64_text(data).len() implies is_base64_char(
        #[trigger] base64_text(data)[i],
    ) by {
        lemma_six_bits_range(data, i);
    }
}

proof fn lemma_groups_fit(data: Seq<u8>)
    ensures
        groups(data.len()) <= base64_text(data).len(),
{
    let n = data.len() as int;
    assert(n == n / 3 * 3 + n % 3);
    assert((4 * n + 2) / 3 <= (n + 2) / 3 * 4);
}

proof fn lemma_same_length(a: Seq<u8>, b: Seq<u8>)
    requires
        base64_text(a) == base64_text(b),
    ensures
        a.len() <= b.len(),
{
    if b.len() < a.len() {
        let i = groups(b.len()) as int;
        assert(i < groups(a.len()));
        lemma_groups_fit(a);
        assert(base64_text(a)[i] == base64_text(b)[i]);
        lemma_six_bits_range(a, i);
        assert(base64_text(b)[i] == '=');
        assert(base64_text(a)[i] == base64_char(six_bits(a, i)));
        assert(false);
    }
}

proof fn lemma_same_group(a: Seq<u8>, b: Seq<u8>, i: int)
    requires
        base64_text(a) == base64_text(b),
        a.len() == b.len(),
        0 <= i < groups(a.len()),
    ensures
        six_bits(a, i) == six_bits(b, i),
{
    lemma_groups_fit(a);
    assert(base64_text(a)[i] == base64_text(b)[i]);
    lemma_six_bits_range(a, i);
    lemma_six_bits_range(b, i);
    assert(base64_text(a)[i] == base64_char(six_bits(a, i)));
    assert(base64_text(b)[i] == base64_char(six_bits(b, i)));
    lemma_char_injective(six_bits(a, i), six_bits(b, i));
}

proof fn lemma_base64_injective(a: Seq<u8>, b: Seq<u8>)
    requires
        base64_text(a) == base64_text(b),
    ensures
        a == b,
{
    lemma_same_length(a, b);
    lemma_same_length(b, a);
    assert forall|k: int| 0 <= k < a.len() implies a[k] == b[k] by {
        let i = k / 3 * 4 + k % 3;
        lemma_same_group(a, b, i);
        lemma_same_group(a, b, i + 1);
    }
    assert(a =~= b);
}

/// Decoding Base64 text gives back the bytes that were encoded, and no other text does.
pub proof fn law_base64_round_trip(data: Seq<u8>)
    ensures
        base64_bytes(base64_text(data)) == Some(data),
        forall|s: Seq<char>| base64_bytes(s) == Some(data) ==> s == base64_text(data),
{
    let s = base64_text(data);
    let d = choose|d: Seq<u8>| #[trigger] base64_text(d) == s;
    lemma_base64_injective(d, data);
}

/// The number that a character of the Base64 alphabet stands for.
pub open spec fn sextet(c: char) -> int {
    if 'A' <= c <= 'Z' {
        c as int - 'A' as int
    } else if 'a' <= c <= 'z' {
        c as int - 'a' as int + 26
    } else if '0' <= c <= '9' {
        c as int - '0' as int + 52
    } else if c == '+' {
        62
    } else if c == '/' {
        63
    } else {
        0
    }
}

/// Base64 text has four characters for every three bytes. The four stand for the same 24 bits as
/// the three; bytes that are missing at the end count as zero, and for each of them a `=` stands
/// in place of a character.
pub proof fn law_four_characters_for_three_bytes(data: Seq<u8>, k: int)
    requires
        0 <= k,
        3 * k < data.len(),
    ensures
        base64_text(data).len() == 4 * ((data.len() + 2) / 3),
        ({
            let t = base64_text(data);
            let a = data[3 * k] as int;
            let b = if 3 * k + 1 < data.len() {
                data[3 * k + 1] as int
            } else {
                0
            };
            let c = if 3 * k + 2 < data.len() {
                data[3 * k + 2] as int
            } else {
                0
            };
            &&& ((sextet(t[4 * k]) * 64 + sextet(t[4 * k + 1])) * 64 + sextet(t[4 * k + 2])) * 64
                + sextet(t[4 * k + 3]) == (a * 256 + b) * 256 + c
            &&& t[4 * k] != '=' && t[4 * k + 1] != '='
            &&& t[4 * k + 2] == '=' <==> 3 * k + 1 >= data.len()
            &&& t[4 * k + 3] == '=' <==> 3 * k + 2 >= data.len()
        }),
{
    let t = base64_text(data);
    lemma_six_bits_range(data, 4 * k);
    lemma_six_bits_range(data, 4 * k + 1);
    lemma_six_bits_range(data, 4 * k + 2);
    lemma_six_bits_range(data, 4 * k + 3);
    let a = byte_or_zero(data, 3 * k);
    let b = byte_or_zero(data, 3 * k + 1);
    let c = byte_or_zero(data, 3 * k + 2);
    assert(4 * k / 4 == k && (4 * k + 1) / 4 == k && (4 * k + 2) / 4 == k && (4 * k + 3) / 4 == k);
    assert(4 * k + 3 < t.len());
    assert(six_bits(data, 4 * k) == a / 4);
    assert(six_bits(data, 4 * k + 1) == a % 4 * 16 + b / 16);
    assert(six_bits(data, 4 * k + 2) == b % 16 * 4 + c / 64);
    assert(six_bits(data, 4 * k + 3) == c % 64);
    assert forall|v: int| 0 <= v < 64 implies sextet(#[trigger] base64_char(v)) == v
        && base64_char(v) != '=' by {}
    assert(4 * k + 1 < groups(data.len()));
    assert(4 * k + 2 < groups(data.len()) <==> 3 * k + 1 < data.len());
    assert(4 * k + 3 < groups(data.len()) <==> 3 * k + 2 < data.len());
    assert(t[4 * k] == base64_char(six_bits(data, 4 * k)));
    assert(t[4 * k + 1] == base64_char(six_bits(data, 4 * k + 1)));
}

/// What is read from Base64 text has that text, and text is not read exactly where it is that of no
/// bytes.
pub proof fn law_reading_undoes_writing(s: Seq<char>)
    ensures
        base64_bytes(s) matches Some(data) ==> base64_text(data) == s,
        base64_bytes(s) is None <==> forall|data: Seq<u8>| #[trigger] base64_text(data) != s,
{
}

} // verus!
