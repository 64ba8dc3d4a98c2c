//! Character-level helpers on `String` that the rest of the crate builds on.

use vstd::prelude::*;

verus! {

/// The characters of each string of a list.
pub open spec fn string_views(v: Seq<String>) -> Seq<Seq<char>> {
    v.map_values(|s: String| s@)
}

/// Appends one character to a string.
///
/// Trusted: calls `String::push`, whose documentation says it appends the
/// given `char` to the end of the string.
#[verifier::external_body]
pub(crate) fn push_char(s: &mut String, c: char)
    ensures
        final(s)@ == old(s)@.push(c),
{
    s.push(c);
}

/// A fresh string holding exactly the characters of `chars`.
pub fn string_from_chars(chars: &Vec<char>) -> (s: String)
    ensures
        s@ == chars@,
{
    let mut s = String::new();
    let mut i: usize = 0;
    while i < chars.len()
        invariant
            i <= chars.len(),
            s@ == chars@.take(i as int),
        decreases chars.len() - i,
    {
        push_char(&mut s, chars[i]);
        assert(chars@.take(i as int).push(chars@[i as int]) =~= chars@.take(i + 1));
        i = i + 1;
    }
    assert(chars@.take(chars.len() as int) =~= chars@);
    s
}

/// The characters of a string slice, in order.
pub fn chars_of(s: &str) -> (v: Vec<char>)
    ensures
        v@ == s@,
{
    let mut v: Vec<char> = Vec::new();
    for c in it: s.chars()
        invariant
            v@ == it.seq().take(it.index()),
    {
        v.push(c);
    }
    v
}

} // verus!

verus! {

/// The character of a decimal digit.
pub open spec fn digit_char(d: nat) -> char {
    ((48 + d) as u8) as char
}

/// The decimal digits of `n`, most significant first, with no leading zeros.
pub open spec fn nat_digits(n: nat) -> Seq<char>
    decreases n,
{
    if n < 10 {
        seq![digit_char(n)]
    } else {
        nat_digits(n / 10).push(digit_char(n % 10))
    }
}

/// `n` written in decimal, with a leading `-` when it is negative.
pub open spec fn decimal(n: int) -> Seq<char> {
    if n < 0 {
        seq!['-'] + nat_digits((-n) as nat)
    } else {
        nat_digits(n as nat)
    }
}

fn push_digits(s: &mut String, n: u64)
    ensures
        final(s)@ == old(s)@ + nat_digits(n as nat),
    decreases n,
{
    if n >= 10 {
        push_digits(s, n / 10);
    }
    let d: u8 = (n % 10) as u8;
    push_char(s, (48u8 + d) as char);
    proof {
        if n >= 10 {
            assert(old(s)@ + nat_digits(n as nat) =~= old(s)@ + nat_digits((n / 10) as nat) + seq![digit_char((n % 10) as nat)]);
        } else {
            assert(old(s)@ + nat_digits(n as nat) =~= old(s)@.push(digit_char(n as nat)));
        }
    }
}

/// `n` written in decimal, as `format!("{}", n)` writes it.
pub fn decimal_string(n: i64) -> (s: String)
    ensures
        s@ == decimal(n as int),
{
    let mut s = String::new();
    if n < 0 {
        push_char(&mut s, '-');
        let magnitude: u64 = if n == i64::MIN {
            9223372036854775808u64
        } else {
            (-n) as u64
        };
        push_digits(&mut s, magnitude);
        assert(s@ =~= seq!['-'] + nat_digits((-n) as nat));
    } else {
        push_digits(&mut s, n as u64);
        assert(s@ =~= nat_digits(n as nat));
    }
    s
}

/// Appends a string slice to a string.
pub fn append_str(s: &mut String, tail: &str)
    ensures
        final(s)@ == old(s)@ + tail@,
{
    s.append(tail);
}

/// The string `"{:?}"` makes of `text`: the text between double quotes, with
/// quotes, backslashes and characters that are not printable escaped.
pub uninterp spec fn debug_quoted(text: Seq<char>) -> Seq<char>;

/// Formats a string slice with `Debug`.
///
/// Trusted: calls `format!("{:?}", text)`, the `Debug` formatting of `str`.
/// Its escaping rules rest on Unicode tables, so the contract only names the
/// result `debug_quoted(text)`.
#[verifier::external_body]
pub(crate) fn debug_string(text: &str) -> (s: String)
    ensures
        s@ == debug_quoted(text@),
{
    format!("{:?}", text)
}

} // verus!

verus! {

/// `code` is a Unicode scalar value: at most `0x10FFFF` and outside the
/// surrogate range.
pub open spec fn is_scalar_value(code: u32) -> bool {
    code <= 0x10FFFF && !(0xD800 <= code <= 0xDFFF)
}

/// The character with a given code point.
///
/// Trusted: calls `char::from_u32`, which by its documentation gives the
/// character exactly when the code is a Unicode scalar value.
#[verifier::external_body]
pub(crate) fn char_from_code(code: u32) -> (c: Option<char>)
    ensures
        c is Some <==> is_scalar_value(code),
        c matches Some(ch) ==> ch as u32 == code && ch == code as char,
{
    char::from_u32(code)
}

} // verus!
