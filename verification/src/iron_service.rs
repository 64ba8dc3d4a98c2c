//! The decisions of the session-tracking web service: which requests pass
//! authentication, which replies open a session and with what cookie, and
//! how an already computed reply becomes a handler result.

use vstd::prelude::*;
use crate::text::{append_str, debug_quoted, debug_string, decimal, decimal_string};

verus! {

/// An error that carries only a message.
#[derive(Debug)]
pub struct StringError(pub String);

impl StringError {
    /// The message.
    pub fn description(&self) -> (text: &str)
        ensures
            text@ == self.0@,
    {
        self.0.as_str()
    }

    /// The error as it is displayed: the same text as its `Debug` form,
    /// `StringError("...")` with the message quoted and escaped.
    pub fn to_string(&self) -> (text: String)
        ensures
            text@ == seq!['S', 't', 'r', 'i', 'n', 'g', 'E', 'r', 'r', 'o', 'r', '(']
                + debug_quoted(self.0@) + seq![')'],
    {
        let mut text = String::new();
        append_str(&mut text, "StringError(");
        let quoted = debug_string(self.0.as_str());
        append_str(&mut text, quoted.as_str());
        append_str(&mut text, ")");
        proof {
            reveal_strlit("StringError(");
            reveal_strlit(")");
        }
        text
    }
}

/// What an error answers the client with: a status code, or a body.
pub enum ErrorResponse {
    Status(u16),
    Body(String),
}

/// A failed handler: the error, and what the client is answered.
pub struct HandlerError {
    pub error: StringError,
    pub response: ErrorResponse,
}

/// The status code of a request that failed authentication (Bad Request).
pub open spec fn bad_request() -> u16 {
    400
}

/// The message of a failed authentication.
pub open spec fn auth_failed_text() -> Seq<char> {
    seq!['a', 'u', 't', 'h', 'e', 'n', 't', 'i', 'c', 'a', 't', 'i', 'o', 'n', ' ', 'f', 'a', 'i', 'l', 'e', 'd', '.']
}

/// The path of the site's root: one empty segment.
pub open spec fn is_root_path(path: Seq<Seq<char>>) -> bool {
    path.len() == 1 && path[0].len() == 0
}

/// Lets a request through when it asks for the site's root, whose path is a
/// single empty segment, or when it carries a cookie; fails it with status
/// 400 and the message `authentication failed.` otherwise.
pub fn authentication_filter(path: &Vec<String>, has_cookie: bool) -> (result: Result<(), HandlerError>)
    ensures
        result is Ok <==> is_root_path(crate::text::string_views(path@)) || has_cookie,
        result matches Err(e) ==> e.error.0@ == auth_failed_text() && e.response == ErrorResponse::Status(bad_request()),
{
    let root = path.len() == 1 && path[0].as_str().is_empty();
    assert(root == is_root_path(crate::text::string_views(path@)));
    if root {
        Ok(())
    } else if has_cookie {
        Ok(())
    } else {
        let mut message = String::new();
        append_str(&mut message, "authentication failed.");
        proof {
            reveal_strlit("authentication failed.");
        }
        Err(HandlerError { error: StringError(message), response: ErrorResponse::Status(400) })
    }
}

/// How long a session lasts, in seconds.
pub open spec fn session_max_age() -> int {
    3600
}

/// The `Set-Cookie` value that opens the session `id`.
pub open spec fn session_cookie_text(id: Seq<char>) -> Seq<char> {
    seq!['s', 'i', 'd', '='] + id
        + seq![';', ' ', 'P', 'a', 't', 'h', '=', '/', ';', ' ', 'D', 'o', 'm', 'a', 'i', 'n', '=', '0', '.',
        '0', '.', '0', '.', '0', ';', ' ', 'M', 'a', 'x', '-', 'A', 'g', 'e', '=']
        + decimal(session_max_age())
}

/// The `Set-Cookie` value that opens the session `id`:
/// `sid=<id>; Path=/; Domain=0.0.0.0; Max-Age=3600`.
pub fn session_cookie(id: &str) -> (cookie: String)
    ensures
        cookie@ == session_cookie_text(id@),
{
    let mut cookie = String::new();
    append_str(&mut cookie, "sid=");
    append_str(&mut cookie, id);
    append_str(&mut cookie, "; Path=/; Domain=0.0.0.0; Max-Age=");
    let age = decimal_string(3600);
    append_str(&mut cookie, age.as_str());
    proof {
        reveal_strlit("sid=");
        reveal_strlit("; Path=/; Domain=0.0.0.0; Max-Age=");
    }
    cookie
}

/// `text` is a UUID of version 4 written as hyphenated lowercase hex:
/// 36 characters, hyphens at positions 8, 13, 18 and 23, hex digits
/// elsewhere, `4` at position 14 and one of `8`, `9`, `a`, `b` at 19.
pub open spec fn is_hyphenated_v4(text: Seq<char>) -> bool {
    &&& text.len() == 36
    &&& forall|i: int| 0 <= i < 36 ==> {
        if i == 8 || i == 13 || i == 18 || i == 23 {
            #[trigger] text[i] == '-'
        } else {
            ('0' <= text[i] <= '9') || ('a' <= text[i] <= 'f')
        }
    }
    &&& text[14] == '4'
    &&& (text[19] == '8' || text[19] == '9' || text[19] == 'a' || text[19] == 'b')
}

/// A fresh random identifier.
///
/// Trusted: calls `uuid::Uuid::new_v4` and writes the result with
/// `hyphenated()`. The value is random; the contract states the format that
/// the crate's source gives every such value: the version and variant bits
/// of a version 4 UUID, written as hyphenated lowercase hex.
#[verifier::external_body]
pub(crate) fn gen_uuid() -> (id: String)
    ensures
        is_hyphenated_v4(id@),
{
    uuid::Uuid::new_v4().hyphenated().to_string()
}

/// The identifier given to a request as it comes in: a fresh random one.
pub fn assign_request_id() -> (id: String)
    ensures
        is_hyphenated_v4(id@),
{
    gen_uuid()
}

/// The `Set-Cookie` value that a reply sets: none when the request already
/// carries a cookie, otherwise one that opens a session with a fresh random
/// identifier.
pub fn start_session(has_cookie: bool) -> (cookie: Option<String>)
    ensures
        cookie is Some <==> !has_cookie,
        cookie matches Some(c) ==> exists|id: Seq<char>| is_hyphenated_v4(id) && c@ == #[trigger] session_cookie_text(id),
{
    if has_cookie {
        None
    } else {
        let id = gen_uuid();
        let cookie = session_cookie(id.as_str());
        assert(is_hyphenated_v4(id@) && cookie@ == session_cookie_text(id@));
        Some(cookie)
    }
}

/// Who a response is for and when it was made.
pub struct Metadata {
    pub request_id: String,
    pub timestamp: i64,
}

/// A response: its metadata and its payload.
pub struct ResponseData<A> {
    pub metadata: Metadata,
    pub payload: A,
}

/// A text message.
pub struct Message {
    pub message: String,
}

/// The response to the request `request_id` made at `timestamp`: the message
/// `hello` with that metadata.
pub fn gen_response_data(request_id: String, timestamp: i64) -> (data: ResponseData<Message>)
    ensures
        data.metadata.request_id == request_id,
        data.metadata.timestamp == timestamp,
        data.payload.message@ == crate::hello_service::hello_text(),
{
    let mut message = String::new();
    append_str(&mut message, "hello");
    proof {
        reveal_strlit("hello");
    }
    ResponseData { metadata: Metadata { request_id, timestamp }, payload: Message { message } }
}

/// Whether a computation has finished, and with what.
pub enum Readiness<T> {
    Ready(T),
    NotReady,
}

/// A handler outcome on its way to a handler result: a reply or an error.
pub struct FutureToIronResult<R> {
    pub e: Option<HandlerError>,
    pub r: Option<R>,
}

/// The error that stands for a computation that has not finished: message
/// `error`, answered with the body `error`.
pub open spec fn is_pending_error(e: HandlerError) -> bool {
    &&& e.error.0@ == seq!['e', 'r', 'r', 'o', 'r']
    &&& e.response matches ErrorResponse::Body(b) && b@ == seq!['e', 'r', 'r', 'o', 'r']
}

impl<R> FutureToIronResult<R> {
    /// A finished computation gives its reply; one not finished gives the
    /// error `error`.
    pub fn from_readiness(ready: Readiness<R>) -> (out: Self)
        ensures
            ready matches Readiness::Ready(t) ==> out.r == Some(t),
            ready is Ready ==> out.e is None,
            ready is NotReady ==> out.r is None,
            ready is NotReady ==> (out.e matches Some(e) && is_pending_error(e)),
    {
        match ready {
            Readiness::Ready(t) => FutureToIronResult { r: Some(t), e: None },
            Readiness::NotReady => {
                let mut message = String::new();
                append_str(&mut message, "error");
                let mut body = String::new();
                append_str(&mut body, "error");
                proof {
                    reveal_strlit("error");
                    assert(message@ =~= seq!['e', 'r', 'r', 'o', 'r']);
                    assert(body@ =~= seq!['e', 'r', 'r', 'o', 'r']);
                }
                FutureToIronResult {
                    r: None,
                    e: Some(HandlerError { error: StringError(message), response: ErrorResponse::Body(body) }),
                }
            },
        }
    }

    /// The handler result: the reply where there is one, the error otherwise.
    pub fn into_result(self) -> (result: Result<R, HandlerError>)
        requires
            self.r is Some || self.e is Some,
        ensures
            match self.r {
                Some(t) => result == Ok::<R, HandlerError>(t),
                None => result == Err::<R, HandlerError>(self.e->0),
            },
    {
        match self.r {
            Some(t) => Ok(t),
            None => match self.e {
                Some(e) => Err(e),
                None => {
                    assert(false);
                    Err(HandlerError { error: StringError(String::new()), response: ErrorResponse::Status(500) })
                },
            },
        }
    }
}

/// A reply with a status code and a text body.
pub struct TextReply {
    pub status: u16,
    pub body: String,
}

/// The reply of the route served through an already finished computation:
/// status 200 with the body `is future response`.
pub fn future_handler() -> (result: Result<TextReply, HandlerError>)
    ensures
        result matches Ok(reply) && reply.status == 200 && reply.body@ == seq!['i', 's', ' ', 'f', 'u', 't', 'u',
            'r', 'e', ' ', 'r', 'e', 's', 'p', 'o', 'n', 's', 'e'],
{
    let mut body = String::new();
    append_str(&mut body, "is future response");
    proof {
        reveal_strlit("is future response");
    }
    let finished = Readiness::Ready(TextReply { status: 200, body });
    FutureToIronResult::from_readiness(finished).into_result()
}

} // verus!
