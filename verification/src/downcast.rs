//! Messages of a few known types, told apart by type and reported on.

use vstd::prelude::*;
use crate::text::{append_str, decimal, decimal_string};

verus! {

/// A message whose type has been found out: a string slice, a 32-bit
/// integer, a boxed string slice, a boxed `String`, or something else.
pub enum AnyMessage {
    Str(String),
    I32(i32),
    BoxedStr(String),
    BoxedString(String),
    Other,
}

/// The line reported for a message, by its type; nothing for a message of
/// another type.
pub open spec fn report_line(message: AnyMessage) -> Option<Seq<char>> {
    match message {
        AnyMessage::Str(s) => Some("&str: "@ + s@),
        AnyMessage::I32(n) => Some("i32: "@ + decimal(n as int)),
        AnyMessage::BoxedStr(s) => Some("Box<&str>: "@ + s@),
        AnyMessage::BoxedString(s) => Some("Box<String>: "@ + s@),
        AnyMessage::Other => None,
    }
}

/// The line to report for a message: its type and its value, such as
/// `i32: 100`, or `None` for a message of a type it does not know.
pub fn receiver(message: &AnyMessage) -> (line: Option<String>)
    ensures
        match line {
            Some(l) => report_line(*message) == Some(l@),
            None => report_line(*message) is None,
        },
{
    let mut line = String::new();
    match message {
        AnyMessage::Str(s) => {
            append_str(&mut line, "&str: ");
            append_str(&mut line, s.as_str());
        },
        AnyMessage::I32(n) => {
            append_str(&mut line, "i32: ");
            let digits = decimal_string(*n as i64);
            append_str(&mut line, digits.as_str());
        },
        AnyMessage::BoxedStr(s) => {
            append_str(&mut line, "Box<&str>: ");
            append_str(&mut line, s.as_str());
        },
        AnyMessage::BoxedString(s) => {
            append_str(&mut line, "Box<String>: ");
            append_str(&mut line, s.as_str());
        },
        AnyMessage::Other => {
            return None;
        },
    }
    Some(line)
}

} // verus!
