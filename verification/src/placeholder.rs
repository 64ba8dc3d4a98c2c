//! Placeholders of the form `{name}` in template text, where a name is made
//! of word characters and dots, as the pattern `\{([\w\.]*)\}` states it.
//! Matching is done by the `regex` crate; what is done with the matches is
//! verified.

use vstd::prelude::*;
use crate::text::string_views;

verus! {

#[verifier::external_type_specification]
#[verifier::external_body]
pub struct ExRegex(regex::Regex);

/// The pieces of `text` between the matches of the regular expression
/// `pattern`, in order: the text before the first match, between each two
/// matches, and after the last one. Named for what `regex::Regex::split`
/// yields on `text` for a regex compiled from `pattern`.
pub uninterp spec fn regex_split(pattern: Seq<char>, text: Seq<char>) -> Seq<Seq<char>>;

/// The text of the first capture group of each match of the regular
/// expression `pattern` in `text`, in order. Named for what
/// `regex::Regex::captures_iter` yields on `text` for a regex compiled from
/// `pattern`.
pub uninterp spec fn regex_group1(pattern: Seq<char>, text: Seq<char>) -> Seq<Seq<char>>;

/// What a placeholder is: an opening brace, a name made of word characters
/// and dots (the first capture group), and a closing brace.
pub open spec fn placeholder_pattern() -> Seq<char> {
    r"\{([\w\.]*)\}"@
}

/// The placeholder pattern, as text.
pub fn placeholder_pattern_text() -> (pattern: &'static str)
    ensures
        pattern@ == placeholder_pattern(),
{
    r"\{([\w\.]*)\}"
}

/// The pieces of `text` around its placeholders.
pub open spec fn placeholder_split(text: Seq<char>) -> Seq<Seq<char>> {
    regex_split(placeholder_pattern(), text)
}

/// The names inside the placeholders of `text`, in order.
pub open spec fn placeholder_names(text: Seq<char>) -> Seq<Seq<char>> {
    regex_group1(placeholder_pattern(), text)
}

/// `pieces` and `fills` alternated: `pieces[0] + fills[0] + pieces[1] + ...`,
/// ending with the last piece. Meant for one more piece than fills.
pub open spec fn interleave(pieces: Seq<Seq<char>>, fills: Seq<Seq<char>>) -> Seq<char>
    decreases fills.len(),
{
    if fills.len() == 0 || pieces.len() == 0 {
        if pieces.len() == 0 {
            Seq::<char>::empty()
        } else {
            pieces[0]
        }
    } else {
        interleave(pieces.drop_last(), fills.drop_last()) + fills.last() + pieces.last()
    }
}

/// A placeholder as it stands in template text: the name between braces.
pub open spec fn braced(name: Seq<char>) -> Seq<char> {
    seq!['{'] + name + seq!['}']
}

/// Each name of `names` between braces.
pub open spec fn braced_all(names: Seq<Seq<char>>) -> Seq<Seq<char>> {
    names.map_values(|n: Seq<char>| braced(n))
}

/// A compiled regular expression, kept with the pattern it was compiled
/// from. Its fields are private and [`PlaceholderPattern::compile`] is the
/// only way to build one, so the two always belong together.
pub struct PlaceholderPattern {
    re: regex::Regex,
    pattern: String,
}

impl PlaceholderPattern {
    /// The pattern this was compiled from.
    pub closed spec fn source(&self) -> Seq<char> {
        self.pattern@
    }

    /// Compiles a regular expression.
    ///
    /// Trusted: calls `regex::Regex::new` on `pattern`, keeping the pattern
    /// beside the compiled value; a pattern the crate refuses gives `None`.
    /// The placeholder pattern is valid syntax, so the contract states that
    /// it compiles.
    #[verifier::external_body]
    pub(crate) fn compile(pattern: &str) -> (compiled: Option<PlaceholderPattern>)
        ensures
            pattern@ == placeholder_pattern() ==> compiled is Some,
            compiled matches Some(c) ==> c.source() == pattern@,
    {
        regex::Regex::new(pattern).ok().map(|re| PlaceholderPattern { re, pattern: pattern.to_string() })
    }

    /// The compiled placeholder pattern.
    pub(crate) fn placeholders() -> (compiled: Option<PlaceholderPattern>)
        ensures
            compiled matches Some(c) && c.source() == placeholder_pattern(),
    {
        PlaceholderPattern::compile(placeholder_pattern_text())
    }

    /// The pieces of `text` between the matches.
    ///
    /// Trusted: calls `regex::Regex::split`, each piece copied into a
    /// `String`. The contract names the result `regex_split(pattern, text)`
    /// and states what the crate's source shows of every split: there is at
    /// least one piece (the whole text when nothing matches).
    #[verifier::external_body]
    pub(crate) fn split(&self, text: &str) -> (pieces: Vec<String>)
        ensures
            string_views(pieces@) == regex_split(self.source(), text@),
            pieces@.len() >= 1,
    {
        self.re.split(text).map(|s| s.to_string()).collect()
    }

    /// The names inside the placeholders of `text`.
    ///
    /// Trusted: calls `regex::Regex::captures_iter`, keeping the first
    /// capture group of each match as a `String`; for the placeholder
    /// pattern that group always takes part in a match. The contract names
    /// the result `regex_group1(pattern, text)` and states what the crate's
    /// source shows of these matches: they are the matches that `split` cuts
    /// at, so there is one name fewer than pieces, and with the placeholder
    /// pattern each match is its name between braces, so the text is the
    /// pieces with the braced names between them.
    #[verifier::external_body]
    pub(crate) fn names(&self, text: &str) -> (names: Vec<String>)
        requires
            self.source() == placeholder_pattern(),
        ensures
            string_views(names@) == regex_group1(self.source(), text@),
            names@.len() + 1 == regex_split(self.source(), text@).len(),
            text@ == interleave(regex_split(self.source(), text@), braced_all(string_views(names@))),
    {
        self.re.captures_iter(text).map(|c| c[1].to_string()).collect()
    }
}

/// `pieces` and `fills` alternated into one string, starting and ending with
/// a piece.
pub fn interleave_strings(pieces: &Vec<String>, fills: &Vec<String>) -> (out: String)
    requires
        pieces@.len() == fills@.len() + 1,
    ensures
        out@ == interleave(string_views(pieces@), string_views(fills@)),
{
    let mut out = String::new();
    out.append(pieces[0].as_str());
    let mut i: usize = 0;
    while i < fills.len()
        invariant
            pieces@.len() == fills@.len() + 1,
            i <= fills.len(),
            out@ == interleave(string_views(pieces@.take(i + 1)), string_views(fills@.take(i as int))),
        decreases fills.len() - i,
    {
        let ghost p = string_views(pieces@.take(i + 2));
        let ghost f = string_views(fills@.take(i + 1));
        assert(p.drop_last() =~= string_views(pieces@.take(i + 1)));
        assert(f.drop_last() =~= string_views(fills@.take(i as int)));
        out.append(fills[i].as_str());
        out.append(pieces[i + 1].as_str());
        i = i + 1;
    }
    assert(pieces@.take(fills@.len() + 1int) =~= pieces@);
    assert(fills@.take(fills@.len() as int) =~= fills@);
    out
}

} // verus!
