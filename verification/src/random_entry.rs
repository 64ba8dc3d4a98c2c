//! A response body holding one random number mapped to a fresh random
//! identifier, written as pretty-printed JSON.

use vstd::prelude::*;
use crate::iron_service::{gen_uuid, is_hyphenated_v4};
use crate::text::{decimal, digit_char};

verus! {

#[verifier::external_type_specification]
#[verifier::external_body]
pub struct ExJsonError(serde_json::Error);

/// A hexadecimal digit, lowercase.
pub open spec fn hex_digit(d: nat) -> char {
    if d < 10 {
        digit_char(d)
    } else {
        ((87 + d) as u8) as char
    }
}

/// How `serde_json` writes one character inside a JSON string: quote and
/// backslash after a backslash, the five control characters that have short
/// escapes as those, the other control characters below `0x20` as `\u00`
/// and two lowercase hex digits, every other character as it is.
pub open spec fn json_escape_char(c: char) -> Seq<char> {
    if c == '"' {
        seq!['\\', '"']
    } else if c == '\\' {
        seq!['\\', '\\']
    } else if c == '\u{8}' {
        seq!['\\', 'b']
    } else if c == '\t' {
        seq!['\\', 't']
    } else if c == '\n' {
        seq!['\\', 'n']
    } else if c == '\u{c}' {
        seq!['\\', 'f']
    } else if c == '\r' {
        seq!['\\', 'r']
    } else if (c as u32) < 0x20 {
        seq!['\\', 'u', '0', '0', hex_digit((c as u32 / 16) as nat), hex_digit((c as u32 % 16) as nat)]
    } else {
        seq![c]
    }
}

/// The characters of a string as `serde_json` writes them between quotes.
pub open spec fn json_escape(s: Seq<char>) -> Seq<char>
    decreases s.len(),
{
    if s.len() == 0 {
        Seq::<char>::empty()
    } else {
        json_escape(s.drop_last()) + json_escape_char(s.last())
    }
}

/// The pretty-printed JSON text of a map with the one entry `key` to
/// `value`: the key written in decimal as a string, the value as an escaped
/// string, the entry on a line of its own indented by two spaces.
pub open spec fn json_pretty_entry(key: u64, value: Seq<char>) -> Seq<char> {
    seq!['{', '\n', ' ', ' ', '"'] + decimal(key as int) + seq!['"', ':', ' ', '"'] + json_escape(value)
        + seq!['"', '\n', '}']
}

/// Writes a one-entry map as pretty-printed JSON.
///
/// Trusted: calls `serde_json::to_string_pretty` on a `HashMap` holding the
/// one entry. The crate's source writes an integer map key as a quoted
/// decimal string (`MapKeySerializer::serialize_u64`), so the call does not
/// fail here; its pretty formatter puts the entry on its own line indented
/// by two spaces, and its string escaping follows its `ESCAPE` table. The
/// contract states that text.
#[verifier::external_body]
fn to_json_pretty(key: u64, value: &str) -> (text: Result<String, serde_json::Error>)
    ensures
        text is Ok,
        text matches Ok(t) ==> t@ == json_pretty_entry(key, value@),
{
    let mut map = std::collections::HashMap::new();
    map.insert(key, value.to_string());
    serde_json::to_string_pretty(&map)
}

/// A random number.
///
/// Trusted: calls `rand::random::<u64>`. Any value can come back, so
/// nothing is claimed of it.
#[verifier::external_body]
fn random_u64() -> (n: u64) {
    rand::random::<u64>()
}

/// Why a body could not be written.
#[derive(Debug, PartialEq, Eq, Structural)]
pub enum BodyError {
    /// The JSON writer refused the value.
    Json,
}

/// The body that maps `key` to `id`, as pretty-printed JSON.
pub fn entry_body(key: u64, id: &str) -> (body: Result<String, BodyError>)
    ensures
        body matches Ok(b) && b@ == json_pretty_entry(key, id@),
{
    match to_json_pretty(key, id) {
        Ok(text) => Ok(text),
        Err(_) => Err(BodyError::Json),
    }
}

/// The body of a response: a fresh random number mapped to a fresh random
/// identifier, as pretty-printed JSON.
pub fn handle() -> (body: Result<String, BodyError>)
    ensures
        body matches Ok(b) && exists|key: u64, id: Seq<char>|
            is_hyphenated_v4(id) && b@ == #[trigger] json_pretty_entry(key, id),
{
    let key = random_u64();
    let id = gen_uuid();
    let body = entry_body(key, id.as_str());
    assert(is_hyphenated_v4(id@) && body->Ok_0@ == json_pretty_entry(key, id@));
    body
}

} // verus!
