//! Resume tokens: a session as Base64 text of its zlib-compressed JSON, with a prefix that tells
//! a token apart from other text.
use std::io::{Read, Write};

use flate2::read::ZlibDecoder;
use flate2::write::ZlibEncoder;
use flate2::Compression;
use vstd::prelude::*;

use crate::encoding;
use crate::error;
use crate::text;

verus! {

/// What a compressor was at when it failed.
#[derive(Debug, Clone, Copy, PartialEq, Eq, Structural)]
pub enum CompressStage {
    Write,
    Finish,
}

pub open spec fn compressed_view(r: Result<Vec<u8>, (CompressStage, String)>) -> Result<
    Seq<u8>,
    (CompressStage, Seq<char>),
> {
    match r {
        Ok(data) => Ok(data@),
        Err((stage, message)) => Err((stage, message@)),
    }
}

pub open spec fn bytes_view(r: Result<Vec<u8>, String>) -> Result<Seq<u8>, Seq<char>> {
    match r {
        Ok(data) => Ok(data@),
        Err(message) => Err(message@),
    }
}

/// What comes of compressing `data` with `flate2::write::ZlibEncoder` at the default level.
pub uninterp spec fn zlib_compressed(data: Seq<u8>) -> Result<
    Seq<u8>,
    (CompressStage, Seq<char>),
>;

/// What comes of reading `data` to its end through `flate2::read::ZlibDecoder`.
pub uninterp spec fn zlib_inflated(data: Seq<u8>) -> Result<Seq<u8>, Seq<char>>;

/// `write_all` and `finish` of `flate2::write::ZlibEncoder` on a vector, at the default level.
/// Claimed: the outcome depends on `data` alone, and inflating what was compressed gives back
/// `data`. That compression succeeds is not claimed.
#[verifier::external_body]
fn compress(data: &[u8]) -> (r: Result<Vec<u8>, (CompressStage, String)>)
    ensures
        compressed_view(r) == zlib_compressed(data@),
        r matches Ok(z) ==> zlib_inflated(z@) is Ok && zlib_inflated(z@)->Ok_0 == data@,
{
    let mut encoder = ZlibEncoder::new(Vec::new(), Compression::default());
    encoder.write_all(data).map_err(|e| (CompressStage::Write, e.to_string()))?;
    encoder.finish().map_err(|e| (CompressStage::Finish, e.to_string()))
}

/// `read_to_end` of `flate2::read::ZlibDecoder` on a slice. Claimed: the bytes, or the wording of
/// the failure, depend on `data` alone.
#[verifier::external_body]
fn inflate(data: &[u8]) -> (r: Result<Vec<u8>, String>)
    ensures
        bytes_view(r) == zlib_inflated(data@),
{
    let mut out = Vec::new();
    ZlibDecoder::new(data).read_to_end(&mut out).map_err(|e| e.to_string())?;
    Ok(out)
}

/// What every token starts with.
pub open spec fn token_prefix() -> Seq<char> {
    "FINTS_TOKEN:"@
}

/// The token of a compressed session, or how the failure to compress it is reported.
pub open spec fn framed_token(compressed: Result<Seq<u8>, (CompressStage, Seq<char>)>) -> Result<
    Seq<char>,
    Seq<char>,
> {
    match compressed {
        Ok(data) => Ok(token_prefix() + encoding::base64_text(data)),
        Err((CompressStage::Write, message)) => Err("Compression error: "@ + message),
        Err((CompressStage::Finish, message)) => Err("Compression finish error: "@ + message),
    }
}

/// The token of a compressed session.
pub fn frame_token(compressed: Result<Vec<u8>, (CompressStage, String)>) -> (r: Result<
    String,
    String,
>)
    ensures
        text::text_result(r) == framed_token(compressed_view(compressed)),
{
    match compressed {
        Ok(data) => {
            let encoded = encoding::encode_base64(data.as_slice());
            Ok(error::labelled("FINTS_TOKEN:", encoded.as_str()))
        },
        Err((CompressStage::Write, message)) => Err(
            error::labelled("Compression error: ", message.as_str()),
        ),
        Err((CompressStage::Finish, message)) => Err(
            error::labelled("Compression finish error: ", message.as_str()),
        ),
    }
}

/// The compressed session that a token carries, or why there is none. White space round the
/// token does not count.
pub open spec fn unframed_token(token: Seq<char>) -> Result<Seq<u8>, Seq<char>> {
    let t = text::trimmed(token);
    if !text::begins_with(t, token_prefix()) {
        Err("Token must start with 'FINTS_TOKEN:'"@)
    } else {
        let encoded = t.skip(token_prefix().len() as int);
        match encoding::base64_bytes(encoded) {
            Some(data) => Ok(data),
            None => Err("Base64 decode error: "@ + encoding::base64_error(encoded)),
        }
    }
}

/// The compressed session that a token carries.
pub fn unframe_token(token: &str) -> (r: Result<Vec<u8>, String>)
    ensures
        bytes_view(r) == unframed_token(token@),
{
    let t = text::trim(token);
    if !text::starts_with(t.as_str(), "FINTS_TOKEN:") {
        return Err("Token must start with 'FINTS_TOKEN:'".to_string());
    }
    let chars = text::chars_of(t.as_str());
    let n = "FINTS_TOKEN:".unicode_len();
    let encoded = text::string_of(&chars, n, chars.len());
    assert(encoded@ =~= t@.skip(token_prefix().len() as int));
    match encoding::decode_base64(encoded.as_str()) {
        Ok(data) => Ok(data),
        Err(message) => Err(error::labelled("Base64 decode error: ", message.as_str())),
    }
}

/// The JSON of the session, or how the failure to inflate it is reported.
pub open spec fn token_json(inflated: Result<Seq<u8>, Seq<char>>) -> Result<Seq<u8>, Seq<char>> {
    match inflated {
        Ok(json) => Ok(json),
        Err(message) => Err("Decompression error: "@ + message),
    }
}

/// The JSON of the session from what came of inflating it.
pub fn json_of_inflated(inflated: Result<Vec<u8>, String>) -> (r: Result<Vec<u8>, String>)
    ensures
        bytes_view(r) == token_json(bytes_view(inflated)),
{
    match inflated {
        Ok(json) => Ok(json),
        Err(message) => Err(error::labelled("Decompression error: ", message.as_str())),
    }
}

/// The token of the session with the JSON `json`, or why there is none.
pub open spec fn encoded_token(json: Seq<u8>) -> Result<Seq<char>, Seq<char>> {
    framed_token(zlib_compressed(json))
}

/// The JSON of the session that a token carries, or why there is none.
pub open spec fn decoded_token(token: Seq<char>) -> Result<Seq<u8>, Seq<char>> {
    match unframed_token(token) {
        Ok(data) => token_json(zlib_inflated(data)),
        Err(message) => Err(message),
    }
}

/// Turns the JSON of a session into a resume token. Decoding the token gives back the JSON.
pub fn encode_resume_token(json: &[u8]) -> (r: Result<String, String>)
    ensures
        text::text_result(r) == encoded_token(json@),
        r matches Ok(token) ==> decoded_token(token@) == Ok::<Seq<u8>, Seq<char>>(json@),
{
    let compressed = compress(json);
    proof {
        if compressed is Ok {
            law_framed_token_is_read_back(compressed->Ok_0@);
        }
    }
    frame_token(compressed)
}

/// Reads the JSON of a session back from a resume token.
pub fn decode_resume_token(token: &str) -> (r: Result<Vec<u8>, String>)
    ensures
        bytes_view(r) == decoded_token(token@),
{
    match unframe_token(token) {
        Ok(data) => json_of_inflated(inflate(data.as_slice())),
        Err(message) => Err(message),
    }
}

/// A token gives back the compressed session that was put into it.
pub proof fn law_framed_token_is_read_back(data: Seq<u8>)
    ensures
        framed_token(Ok(data)) matches Ok(token) && unframed_token(token) == Ok::<
            Seq<u8>,
            Seq<char>,
        >(data),
{
    reveal_strlit("FINTS_TOKEN:");
    let encoded = encoding::base64_text(data);
    let token = token_prefix() + encoded;
    encoding::law_base64_alphabet(data);
    if encoded.len() == 0 {
        assert(token.last() == ':');
    } else {
        assert(token.last() == encoded[encoded.len() - 1]);
    }
    assert(token[0] == 'F');
    assert(text::trimmed_start(token) == token);
    assert(text::trimmed(token) == token);
    assert(token.take(token_prefix().len() as int) =~= token_prefix());
    assert(token.skip(token_prefix().len() as int) =~= encoded);
    encoding::law_base64_round_trip(data);
}

/// Text without the prefix is no token, whatever else it holds.
pub proof fn law_token_needs_its_prefix(token: Seq<char>)
    requires
        !text::begins_with(text::trimmed(token), token_prefix()),
    ensures
        decoded_token(token) == Err::<Seq<u8>, Seq<char>>(
            "Token must start with 'FINTS_TOKEN:'"@,
        ),
{
}

/// White space round a token does not change what it carries.
pub proof fn law_token_ignores_white_space_around(a: Seq<char>, token: Seq<char>, b: Seq<char>)
    requires
        text::every(a, |c: char| text::is_white_space(c)),
        text::every(b, |c: char| text::is_white_space(c)),
    ensures
        decoded_token(a + token + b) == decoded_token(token),
{
    text::law_trim_ignores_white_space_around(a, token, b);
}

/// A token is the prefix and behind it the Base64 text of the compressed session. A failure to
/// compress, to read the text or to inflate is an error with its reason.
pub proof fn law_form_of_a_token(data: Seq<u8>, message: Seq<char>, encoded: Seq<char>)
    ensures
        framed_token(Ok(data)) == Ok::<Seq<char>, Seq<char>>(
            "FINTS_TOKEN:"@ + encoding::base64_text(data),
        ),
        framed_token(Err((CompressStage::Write, message))) == Err::<Seq<char>, Seq<char>>(
            "Compression error: "@ + message,
        ),
        framed_token(Err((CompressStage::Finish, message))) == Err::<Seq<char>, Seq<char>>(
            "Compression finish error: "@ + message,
        ),
        token_json(Ok(data)) == Ok::<Seq<u8>, Seq<char>>(data),
        token_json(Err(message)) == Err::<Seq<u8>, Seq<char>>("Decompression error: "@ + message),
{
}

/// What a token carries is the session that was compressed into it: inflating what the compressor
/// made is all that is left to do.
pub proof fn law_token_carries_its_session(json: Seq<u8>, compressed: Seq<u8>)
    requires
        zlib_compressed(json) == Ok::<Seq<u8>, (CompressStage, Seq<char>)>(compressed),
    ensures
        encoded_token(json) matches Ok(token) && decoded_token(token) == token_json(
            zlib_inflated(compressed),
        ),
        zlib_inflated(compressed) == Ok::<Seq<u8>, Seq<char>>(json) ==> decoded_token(
            encoded_token(json)->Ok_0,
        ) == Ok::<Seq<u8>, Seq<char>>(json),
{
    law_framed_token_is_read_back(compressed);
}

} // verus!
