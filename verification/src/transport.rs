//! FinTS HTTPS transport layer.
//!
//! FinTS messages travel to a bank's endpoint by HTTPS POST. Messages are Base64-encoded in the
//! request body, and responses are Base64-decoded. The caller runs the HTTP client; this module
//! says what to send and what a reply means.
use vstd::prelude::*;

use crate::encoding;
use crate::error;
use crate::error::FinTSError;
use crate::text;

verus! {

/// How the HTTP client is set up.
#[derive(Debug, Clone, Copy, PartialEq, Eq, Structural)]
pub struct ClientSettings {
    pub timeout_secs: u64,
    pub pool_idle_timeout_secs: u64,
    pub pool_max_idle_per_host: usize,
    pub tcp_nodelay: bool,
}

/// How the HTTP client is set up: banks take long to answer, and connections are not reused.
pub fn client_settings() -> (r: ClientSettings)
    ensures
        r == (ClientSettings {
            timeout_secs: 300,
            pool_idle_timeout_secs: 2,
            pool_max_idle_per_host: 0,
            tcp_nodelay: true,
        }),
{
    ClientSettings {
        timeout_secs: 300,
        pool_idle_timeout_secs: 2,
        pool_max_idle_per_host: 0,
        tcp_nodelay: true,
    }
}

/// An HTTP POST request.
#[derive(Debug)]
pub struct PostRequest {
    pub url: String,
    pub content_type: String,
    pub body: String,
}

/// What to read of a reply.
#[derive(Debug, Clone, Copy, PartialEq, Eq, Structural)]
pub enum ReplyPart {
    /// The bytes of the body, for `FinTSConnection::received`.
    Bytes,
    /// The body as text, for `FinTSConnection::refused`.
    Text,
}

/// FinTS HTTP connection to a bank endpoint, by the HTTP client `C`.
#[derive(Debug)]
pub struct FinTSConnection<C> {
    url: String,
    client: C,
}

/// A transport error with the message `message`.
pub open spec fn is_transport_error(e: FinTSError, message: Seq<char>) -> bool {
    e matches FinTSError::Transport(m) && m@ == message
}

/// ISO-8859-1 text: each byte is the character of that number.
pub open spec fn latin1(bytes: Seq<u8>) -> Seq<char> {
    bytes.map_values(|b: u8| b as char)
}

/// The Base64 text of a reply.
pub open spec fn reply_text(bytes: Seq<u8>) -> Seq<char> {
    text::without_white_space(latin1(bytes))
}

/// The characters of ISO-8859-1 text.
pub fn latin1_text(bytes: &Vec<u8>) -> (r: String)
    ensures
        r@ == latin1(bytes@),
{
    let mut out = String::new();
    let mut i: usize = 0;
    while i < bytes.len()
        invariant
            i <= bytes@.len(),
            out@ == latin1(bytes@.take(i as int)),
        decreases bytes@.len() - i,
    {
        out.push(bytes[i] as char);
        assert(latin1(bytes@.take(i + 1)) =~= latin1(bytes@.take(i as int)).push(
            bytes@[i as int] as char,
        ));
        i += 1;
    }
    assert(bytes@.take(i as int) =~= bytes@);
    out
}

/// The request that sends `message` to `url`.
pub open spec fn is_request(r: PostRequest, url: Seq<char>, message: Seq<u8>) -> bool {
    &&& r.url@ == url
    &&& r.content_type@ == "text/plain"@
    &&& r.body@ == encoding::base64_text(message)
}

/// What to read of a reply with the HTTP status `status`: a status from 200 to 299 is a success.
pub open spec fn part_to_read(status: u16) -> ReplyPart {
    if 200 <= status < 300 {
        ReplyPart::Bytes
    } else {
        ReplyPart::Text
    }
}

/// The error of a request that the bank refused with `status` and the words `body`.
pub open spec fn is_refusal(e: FinTSError, status: u16, body: Option<String>) -> bool {
    e matches FinTSError::Http { status: s, message } && s == status && message@ == (match body {
        Some(m) => m@,
        None => ""@,
    })
}

/// What a reply with the body `body` amounts to.
pub open spec fn is_reply(
    r: Result<Vec<u8>, FinTSError>,
    body: Result<Vec<u8>, String>,
) -> bool {
    match body {
        Err(m) => r is Err && is_transport_error(r->Err_0, "Failed to read response: "@ + m@),
        Ok(bytes) => match encoding::base64_bytes(reply_text(bytes@)) {
            Some(message) => r is Ok && r->Ok_0@ == message,
            None => r is Err && is_transport_error(
                r->Err_0,
                "Failed to base64-decode response: "@ + encoding::base64_error(reply_text(bytes@)),
            ),
        },
    }
}

impl<C> FinTSConnection<C> {
    /// The endpoint of the bank.
    pub closed spec fn spec_url(&self) -> Seq<char> {
        self.url@
    }

    /// The HTTP client.
    pub closed spec fn spec_client(&self) -> C {
        self.client
    }

    /// Create a new connection to the given bank FinTS URL by the client that was built for it.
    pub fn new(url: &str, built: Result<C, String>) -> (r: Result<FinTSConnection<C>, FinTSError>)
        ensures
            match built {
                Ok(client) => r is Ok && r->Ok_0.spec_url() == url@ && r->Ok_0.spec_client()
                    == client,
                Err(m) => r is Err && is_transport_error(
                    r->Err_0,
                    "Failed to create HTTP client: "@ + m@,
                ),
            },
    {
        match built {
            Ok(client) => Ok(FinTSConnection { url: url.to_owned(), client }),
            Err(m) => Err(
                FinTSError::Transport(
                    error::labelled("Failed to create HTTP client: ", m.as_str()),
                ),
            ),
        }
    }

    /// The HTTP client.
    pub fn client(&self) -> (r: &C)
        ensures
            *r == self.spec_client(),
    {
        &self.client
    }

    /// The request that sends a raw FinTS message to the bank.
    pub fn send(&self, message_bytes: &[u8]) -> (r: PostRequest)
        ensures
            is_request(r, self.spec_url(), message_bytes@),
    {
        PostRequest {
            url: self.url.clone(),
            content_type: "text/plain".to_string(),
            body: encoding::encode_base64(message_bytes),
        }
    }

    /// The error of a request that got no reply.
    pub fn not_sent(message: &str) -> (r: FinTSError)
        ensures
            is_transport_error(r, "HTTP request failed: "@ + message@),
    {
        FinTSError::Transport(error::labelled("HTTP request failed: ", message))
    }

    /// What to read of a reply with the HTTP status `status`: a status from 200 to 299 is a
    /// success.
    pub fn reply_part(status: u16) -> (r: ReplyPart)
        ensures
            r == part_to_read(status),
    {
        if 200 <= status && status < 300 {
            ReplyPart::Bytes
        } else {
            ReplyPart::Text
        }
    }

    /// The error of a request that the bank refused with `status`. A body that could not be read
    /// counts as empty.
    pub fn refused(status: u16, body: Option<String>) -> (r: FinTSError)
        ensures
            is_refusal(r, status, body),
    {
        let message = match body {
            Some(m) => m,
            None => "".to_string(),
        };
        FinTSError::Http { status, message }
    }

    /// The raw FinTS message in the body of a reply: ISO-8859-1 text that holds Base64 data,
    /// with white space anywhere in it.
    pub fn received(body: Result<Vec<u8>, String>) -> (r: Result<Vec<u8>, FinTSError>)
        ensures
            is_reply(r, body),
    {
        match body {
            Err(m) => Err(
                FinTSError::Transport(error::labelled("Failed to read response: ", m.as_str())),
            ),
            Ok(bytes) => {
                let all = latin1_text(&bytes);
                let encoded = text::remove_white_space(all.as_str());
                match encoding::decode_base64(encoded.as_str()) {
                    Ok(message) => Ok(message),
                    Err(m) => Err(
                        FinTSError::Transport(
                            error::labelled("Failed to base64-decode response: ", m.as_str()),
                        ),
                    ),
                }
            },
        }
    }
}

/// The bytes of ASCII text.
pub open spec fn ascii_bytes(s: Seq<char>) -> Seq<u8> {
    s.map_values(|c: char| c as u8)
}

/// A message is read back from the body that it was sent in.
pub proof fn law_message_is_read_back(message: Seq<u8>)
    ensures
        encoding::base64_bytes(reply_text(ascii_bytes(encoding::base64_text(message)))) == Some(
            message,
        ),
{
    encoding::law_base64_round_trip(message);
    encoding::law_base64_alphabet(message);
    let sent = encoding::base64_text(message);
    assert(latin1(ascii_bytes(sent)) =~= sent) by {
        assert forall|i: int| 0 <= i < sent.len() implies latin1(ascii_bytes(sent))[i]
            == sent[i] by {
            assert(encoding::is_base64_char(sent[i]));
        }
    }
    assert forall|i: int| 0 <= i < sent.len() implies !text::is_white_space(
        #[trigger] sent[i],
    ) by {
        assert(encoding::is_base64_char(sent[i]));
    }
    text::lemma_nothing_to_remove(sent);
}

/// Two bodies that differ in white space alone mean the same message.
pub proof fn law_white_space_in_a_reply_does_not_count(a: Seq<u8>, b: Seq<u8>, message: Seq<u8>)
    requires
        reply_text(a) == reply_text(b),
    ensures
        encoding::base64_bytes(reply_text(a)) == Some(message) <==> encoding::base64_bytes(
            reply_text(b),
        ) == Some(message),
        encoding::base64_bytes(reply_text(a)) == Some(message) ==> reply_text(a)
            == encoding::base64_text(message),
{
    encoding::law_base64_round_trip(message);
}

/// A message goes to the address of the bank as plain text, and the text is read back as the
/// message.
pub proof fn law_request_carries_the_message(r: PostRequest, url: Seq<char>, message: Seq<u8>)
    requires
        is_request(r, url, message),
    ensures
        r.url@ == url,
        r.content_type@ == "text/plain"@,
        encoding::base64_bytes(r.body@) == Some(message),
{
    encoding::law_base64_round_trip(message);
}

/// A reply is taken for a message exactly where its status is one of success, from 200 to 299.
pub proof fn law_status_of_a_reply(status: u16)
    ensures
        part_to_read(status) is Bytes <==> status / 100 == 2,
        part_to_read(status) is Text <==> status / 100 != 2,
{
}

/// A refused request is an error with the status and the words of the bank; words that cannot be
/// read are none.
pub proof fn law_refused_request(e: FinTSError, status: u16, body: Option<String>)
    requires
        is_refusal(e, status, body),
    ensures
        e matches FinTSError::Http { status: s, message } && s == status && (body is Some
            ==> message@ == body->0@) && (body is None ==> message@.len() == 0),
{
    reveal_strlit("");
}

/// A reply whose text is that of a message is read as this message, and a reply that is the text
/// of no message, or that could not be read, is a transport error with the reason.
pub proof fn law_reply_is_read(
    r: Result<Vec<u8>, FinTSError>,
    body: Result<Vec<u8>, String>,
    message: Seq<u8>,
)
    requires
        is_reply(r, body),
    ensures
        body matches Ok(bytes) ==> (text::without_white_space(latin1(bytes@))
            == encoding::base64_text(message) ==> r is Ok && r->Ok_0@ == message),
        r matches Ok(data) ==> (body matches Ok(bytes) && encoding::base64_text(data@)
            == text::without_white_space(latin1(bytes@))),
        r matches Err(e) ==> e is Transport,
        body matches Err(m) ==> r is Err && is_transport_error(
            r->Err_0,
            "Failed to read response: "@ + m@,
        ),
{
    encoding::law_base64_round_trip(message);
}

/// ISO-8859-1 text has a character for each byte, with the number of the byte.
pub proof fn law_latin1(bytes: Seq<u8>, i: int)
    requires
        0 <= i < bytes.len(),
    ensures
        latin1(bytes).len() == bytes.len(),
        latin1(bytes)[i] as int == bytes[i],
{
}

} // verus!
