//! Reading the header lines of a raw HTTP request, one line at a time, until
//! the blank line that ends them, and the fixed reply that follows.
//!
//! The reader is driven from outside: it says which byte the next read must
//! stop after, and is handed the bytes that the read gave. Every piece it is
//! handed is decoded as UTF-8 after a NUL byte that starts each read buffer.

use vstd::prelude::*;
use vstd::utf8::{decode_utf8, encode_utf8, valid_utf8};
use crate::text::string_views;

verus! {

#[verifier::external_type_specification]
#[verifier::external_body]
pub struct ExFromUtf8Error(std::string::FromUtf8Error);

/// Decodes bytes as UTF-8.
///
/// Trusted: calls `String::from_utf8`, which by its documentation fails
/// exactly when the bytes are not valid UTF-8 and otherwise keeps them as
/// the string's contents.
#[verifier::external_body]
fn string_from_utf8(bytes: Vec<u8>) -> (r: Result<String, std::string::FromUtf8Error>)
    ensures
        r is Ok <==> valid_utf8(bytes@),
        r matches Ok(s) ==> s@ == decode_utf8(bytes@),
{
    String::from_utf8(bytes)
}

/// Why reading a request failed.
#[derive(Debug, PartialEq, Eq, Structural)]
pub enum LineError {
    /// A piece of a line was not valid UTF-8.
    InvalidUtf8,
}

/// Decodes bytes read from the request as text.
pub fn vec_to_string(v: Vec<u8>) -> (r: Result<String, LineError>)
    ensures
        r is Ok <==> valid_utf8(v@),
        r matches Ok(s) ==> s@ == decode_utf8(v@),
        r matches Err(e) ==> e == LineError::InvalidUtf8,
{
    match string_from_utf8(v) {
        Ok(s) => Ok(s),
        Err(_) => Err(LineError::InvalidUtf8),
    }
}

/// The bytes of a read buffer: the NUL byte it starts with, then what the
/// read gave.
pub open spec fn buffer_bytes(read: Seq<u8>) -> Seq<u8> {
    seq![0u8] + read
}

/// The text of a read: its buffer decoded as UTF-8.
pub open spec fn piece_text(read: Seq<u8>) -> Seq<char> {
    decode_utf8(buffer_bytes(read))
}

/// The line that ends the header: an empty line, as it reads after the two
/// NUL bytes that start its two pieces.
pub open spec fn end_line() -> Seq<char> {
    seq!['\0', '\r', '\0', '\n']
}

/// Whether the lines read so far end the request's header.
pub open spec fn header_complete(lines: Seq<Seq<char>>) -> bool {
    lines.len() > 0 && lines.last() == end_line()
}

/// Decodes what one read gave, after the NUL byte that starts its buffer.
pub fn read_until_with_string(read: Vec<u8>) -> (r: Result<String, LineError>)
    ensures
        r is Ok <==> valid_utf8(buffer_bytes(read@)),
        r matches Ok(s) ==> s@ == piece_text(read@),
        r matches Err(e) ==> e == LineError::InvalidUtf8,
{
    let mut buffer: Vec<u8> = Vec::new();
    buffer.push(0u8);
    let mut i: usize = 0;
    while i < read.len()
        invariant
            i <= read.len(),
            buffer@ == seq![0u8] + read@.take(i as int),
        decreases read.len() - i,
    {
        buffer.push(read[i]);
        assert(seq![0u8] + read@.take(i + 1) =~= (seq![0u8] + read@.take(i as int)).push(read@[i as int]));
        i = i + 1;
    }
    assert(read@.take(read.len() as int) =~= read@);
    vec_to_string(buffer)
}

/// Which byte the next read must stop after, or that the header is read.
#[derive(Debug, PartialEq, Eq, Structural)]
pub enum NextRead {
    /// Read up to and including the next carriage return.
    UntilCarriageReturn,
    /// Read up to and including the next line feed.
    UntilLineFeed,
    /// The header has ended; nothing more is read.
    Done,
}

/// The byte that a read stops after.
pub open spec fn stop_byte(next: NextRead) -> Option<u8> {
    match next {
        NextRead::UntilCarriageReturn => Some(13u8),
        NextRead::UntilLineFeed => Some(10u8),
        NextRead::Done => None,
    }
}

/// The header lines of a request, read so far, and the first piece of the
/// line being read.
pub struct RequestReader {
    lines: Vec<String>,
    pending: Option<String>,
}

/// The abstract state of a [`RequestReader`]: the lines read, and the first
/// piece of the line under way, if any.
pub struct ReaderState {
    pub lines: Seq<Seq<char>>,
    pub pending: Option<Seq<char>>,
}

impl View for RequestReader {
    type V = ReaderState;

    closed spec fn view(&self) -> ReaderState {
        ReaderState {
            lines: string_views(self.lines@),
            pending: match self.pending {
                Some(p) => Some(p@),
                None => None,
            },
        }
    }
}

impl ReaderState {
    /// What the reader asks for next in this state.
    pub open spec fn next(self) -> NextRead {
        if self.pending is Some {
            NextRead::UntilLineFeed
        } else if header_complete(self.lines) {
            NextRead::Done
        } else {
            NextRead::UntilCarriageReturn
        }
    }

    /// The state after a read whose text is `text`: the first piece of a line
    /// is kept, the second completes the line.
    pub open spec fn after(self, text: Seq<char>) -> ReaderState {
        match self.pending {
            None => ReaderState { lines: self.lines, pending: Some(text) },
            Some(first) => ReaderState { lines: self.lines.push(first + text), pending: None },
        }
    }
}

impl RequestReader {
    /// A reader that has read nothing.
    pub fn new() -> (reader: RequestReader)
        ensures
            reader@.lines.len() == 0,
            reader@.pending is None,
    {
        let reader = RequestReader { lines: Vec::new(), pending: None };
        assert(reader@.lines =~= Seq::<Seq<char>>::empty());
        reader
    }

    /// The lines read so far, each with the NUL bytes of its two pieces.
    pub fn lines(&self) -> (lines: &Vec<String>)
        ensures
            string_views(lines@) == self@.lines,
    {
        &self.lines
    }

    /// Which byte the next read must stop after, or that the header is read.
    pub fn next_read(&self) -> (next: NextRead)
        ensures
            next == self@.next(),
    {
        match &self.pending {
            Some(_) => NextRead::UntilLineFeed,
            None => {
                if self.is_complete() {
                    NextRead::Done
                } else {
                    NextRead::UntilCarriageReturn
                }
            },
        }
    }

    /// Whether the last line read is the empty line that ends the header.
    fn is_complete(&self) -> (done: bool)
        ensures
            done == header_complete(self@.lines),
    {
        if self.lines.len() == 0 {
            false
        } else {
            let last = &self.lines[self.lines.len() - 1];
            let mut end = String::new();
            crate::text::push_char(&mut end, '\0');
            crate::text::push_char(&mut end, '\r');
            crate::text::push_char(&mut end, '\0');
            crate::text::push_char(&mut end, '\n');
            assert(end@ =~= end_line());
            assert(self@.lines.last() == last@);
            *last == end
        }
    }

    /// Takes the bytes of one read, which stopped after the byte that
    /// [`RequestReader::next_read`] asked for, and says what to read next.
    /// Fails, and leaves the reader as it was, where the read's buffer is
    /// not valid UTF-8.
    pub fn receive(&mut self, read: Vec<u8>) -> (next: Result<NextRead, LineError>)
        requires
            old(self)@.next() != NextRead::Done,
        ensures
            next is Ok <==> valid_utf8(buffer_bytes(read@)),
            next is Ok ==> final(self)@ == old(self)@.after(piece_text(read@)),
            next matches Ok(n) ==> n == final(self)@.next(),
            next is Err ==> final(self)@ == old(self)@ && next == Err::<NextRead, LineError>(LineError::InvalidUtf8),
    {
        let text = match read_until_with_string(read) {
            Ok(t) => t,
            Err(e) => return Err(e),
        };
        let ghost before = self@;
        match self.pending.take() {
            None => {
                self.pending = Some(text);
            },
            Some(first) => {
                let mut line = first;
                crate::text::append_str(&mut line, text.as_str());
                let ghost old_lines = self.lines@;
                self.lines.push(line);
                assert(string_views(self.lines@) =~= string_views(old_lines).push(line@));
            },
        }
        assert(self@.lines == before.after(text@).lines);
        Ok(self.next_read())
    }
}

/// The pieces of an empty line decode: a read that gives only a carriage
/// return reads as NUL and carriage return, one that gives only a line feed
/// as NUL and line feed.
pub proof fn lemma_blank_pieces()
    ensures
        valid_utf8(buffer_bytes(seq![13u8])),
        valid_utf8(buffer_bytes(seq![10u8])),
        piece_text(seq![13u8]) == seq!['\0', '\r'],
        piece_text(seq![10u8]) == seq!['\0', '\n'],
{
    let cr = seq!['\0', '\r'];
    let lf = seq!['\0', '\n'];
    vstd::utf8::is_ascii_chars_encode_utf8(cr);
    vstd::utf8::is_ascii_chars_encode_utf8(lf);
    vstd::utf8::encode_utf8_valid_utf8(cr);
    vstd::utf8::encode_utf8_valid_utf8(lf);
    vstd::utf8::encode_utf8_decode_utf8(cr);
    vstd::utf8::encode_utf8_decode_utf8(lf);
    assert(encode_utf8(cr) =~= buffer_bytes(seq![13u8]));
    assert(encode_utf8(lf) =~= buffer_bytes(seq![10u8]));
}

/// Law: whatever was read before, once a line is complete, an empty line (a
/// read giving only a carriage return, then one giving only a line feed) is
/// accepted and ends the header.
pub proof fn law_blank_line_ends_header(state: ReaderState)
    requires
        state.pending is None,
    ensures
        valid_utf8(buffer_bytes(seq![13u8])),
        valid_utf8(buffer_bytes(seq![10u8])),
        state.after(piece_text(seq![13u8])).next() == NextRead::UntilLineFeed,
        state.after(piece_text(seq![13u8])).after(piece_text(seq![10u8])).next() == NextRead::Done,
{
    lemma_blank_pieces();
    assert(seq!['\0', '\r'] + seq!['\0', '\n'] =~= end_line());
}

/// Law: with no line under way, the reader is done exactly when the last
/// line read is the empty line (NUL, carriage return, NUL, line feed); after
/// any other complete line, or before any line, it asks for more.
pub proof fn law_done_exactly_after_blank_line(state: ReaderState)
    requires
        state.pending is None,
    ensures
        state.next() == NextRead::Done <==> (state.lines.len() > 0 && state.lines.last() == seq!['\0', '\r', '\0', '\n']),
        state.lines.len() == 0 ==> state.next() == NextRead::UntilCarriageReturn,
{
}

/// Law: a line under way is always finished first: whatever was read, with
/// a first piece pending the reader asks for the rest of the line.
pub proof fn law_pending_line_is_finished(state: ReaderState)
    requires
        state.pending is Some,
    ensures
        state.next() == NextRead::UntilLineFeed,
{
}

/// The text of the fixed reply sent once the header has been read.
pub open spec fn reply_head_text() -> Seq<char> {
    seq!['H', 'T', 'T', 'P', '/', '1', '.', '0', ' ', '2', '0', '0', ' ', 'O', 'K', '\r', '\n', 'C', 'o', 'n',
        'n', 'e', 'c', 't', 'i', 'o', 'n', ':', ' ', 'C', 'l', 'o', 's', 'e', '\r', '\n']
}

/// The bytes of the fixed reply: a `200 OK` status line and a
/// `Connection: Close` header.
pub fn write_response() -> (bytes: Vec<u8>)
    ensures
        bytes@ == encode_utf8(reply_head_text()),
{
    let text = "HTTP/1.0 200 OK\r\nConnection: Close\r\n";
    proof {
        reveal_strlit("HTTP/1.0 200 OK\r\nConnection: Close\r\n");
        assert(text@ =~= reply_head_text());
    }
    vstd::string::StrSliceExecFns::as_bytes_vec(text)
}

} // verus!
