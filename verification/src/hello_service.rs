//! The hello service: every request is answered with a JSON body holding a
//! timestamp and the message `hello`. The body's JSON text is written by the
//! caller; this module builds the data and the reply around the text.

use vstd::prelude::*;
use crate::clock::{checked_millis, current_time_millis};

verus! {

/// When a response was made, in milliseconds since the Unix epoch.
pub struct Metadata {
    pub timestamp: i64,
}

/// A response: its metadata and its payload.
pub struct ResponseData<A> {
    pub metadata: Metadata,
    pub payload: A,
}

/// A text message.
pub struct Message {
    pub message: String,
}

/// An HTTP reply: the body and its length in bytes, sent as the
/// `Content-Length` header.
pub struct HttpReply {
    pub content_length: u64,
    pub body: String,
}

/// The text of the message every response carries.
pub open spec fn hello_text() -> Seq<char> {
    seq!['h', 'e', 'l', 'l', 'o']
}

/// The response made at `timestamp`: the message `hello` stamped with it.
pub fn gen_data_at(timestamp: i64) -> (data: ResponseData<Message>)
    ensures
        data.metadata.timestamp == timestamp,
        data.payload.message@ == hello_text(),
{
    let mut message = String::new();
    crate::text::append_str(&mut message, "hello");
    proof {
        reveal_strlit("hello");
    }
    ResponseData { metadata: Metadata { timestamp }, payload: Message { message } }
}

/// The response made now, or `None` where the clock reads a time whose
/// milliseconds do not fit in an `i64`.
pub fn gen_data() -> (data: Option<ResponseData<Message>>)
    ensures
        data matches Some(d) ==> d.payload.message@ == hello_text(),
        exists|sec: i64, nsec: i32|
            0 <= nsec < 1_000_000_000 && #[trigger] checked_millis(sec as int, nsec as int) == match data {
                Some(d) => Some(d.metadata.timestamp),
                None => None::<i64>,
            },
{
    let now = current_time_millis();
    let data = match now {
        Some(ms) => Some(gen_data_at(ms)),
        None => None,
    };
    assert(match data {
        Some(d) => Some(d.metadata.timestamp),
        None => None::<i64>,
    } == now);
    data
}

/// The reply carrying `data` as its body, with the body's length in bytes as
/// its content length.
pub fn wrap_response(data: String) -> (reply: HttpReply)
    ensures
        reply.body == data,
        reply.content_length == vstd::utf8::encode_utf8(data@).len(),
{
    let n = data.as_str().as_bytes().len();
    HttpReply { content_length: n as u64, body: data }
}

} // verus!
