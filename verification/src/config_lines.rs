//! Reading a configuration text line by line: lines that start with
//! `include` name a file between quotes; every other line is reported as it
//! stands.

use vstd::prelude::*;
use crate::keys::{join_on, lemma_join_split, lemma_split_nonempty, lemma_split_pieces_lack_separator, split_at_char, split_on};
use crate::text::{append_str, chars_of, string_from_chars, string_views};

verus! {

/// `c` is white space as `char::is_whitespace` defines it (the Unicode
/// `White_Space` property).
pub open spec fn is_white_space(c: char) -> bool {
    ||| '\u{9}' <= c <= '\u{d}'
    ||| c == ' '
    ||| c == '\u{85}'
    ||| c == '\u{a0}'
    ||| c == '\u{1680}'
    ||| '\u{2000}' <= c <= '\u{200a}'
    ||| c == '\u{2028}'
    ||| c == '\u{2029}'
    ||| c == '\u{202f}'
    ||| c == '\u{205f}'
    ||| c == '\u{3000}'
}

/// `s` without its leading white space.
pub open spec fn trim_start(s: Seq<char>) -> Seq<char>
    decreases s.len(),
{
    if s.len() > 0 && is_white_space(s[0]) {
        trim_start(s.drop_first())
    } else {
        s
    }
}

/// `s` without its trailing white space.
pub open spec fn trim_end(s: Seq<char>) -> Seq<char>
    decreases s.len(),
{
    if s.len() > 0 && is_white_space(s.last()) {
        trim_end(s.drop_last())
    } else {
        s
    }
}

/// `s` without leading and trailing white space, as `str::trim` gives it.
pub open spec fn trim(s: Seq<char>) -> Seq<char> {
    trim_end(trim_start(s))
}

/// `s` with every occurrence of `pat` removed, occurrences found from the
/// left without overlap, as `str::replace(pat, "")` gives it.
pub open spec fn remove_all(s: Seq<char>, pat: Seq<char>) -> Seq<char>
    decreases s.len(),
{
    if pat.len() == 0 || s.len() == 0 {
        s
    } else if pat.len() <= s.len() && s.take(pat.len() as int) == pat {
        remove_all(s.skip(pat.len() as int), pat)
    } else {
        seq![s[0]] + remove_all(s.drop_first(), pat)
    }
}

/// The lines of a text as `BufRead::lines` reads them: cut at each line
/// feed, a carriage return before a line feed dropped, and no line after a
/// final line feed.
pub open spec fn text_lines(text: Seq<char>) -> Seq<Seq<char>> {
    let pieces = split_on(text, '\n');
    let full = if pieces.last().len() == 0 { pieces.drop_last() } else { pieces };
    Seq::new(
        full.len(),
        |i: int|
            if i < pieces.len() - 1 && full[i].len() > 0 && full[i].last() == '\r' {
                full[i].drop_last()
            } else {
                full[i]
            },
    )
}

/// What ends a line: a line feed, or a carriage return and a line feed.
pub open spec fn is_line_end(t: Seq<char>) -> bool {
    t == seq!['\n'] || t == seq!['\r', '\n']
}

/// Each line followed by its ending, all joined.
pub open spec fn join_lines(lines: Seq<Seq<char>>, ends: Seq<Seq<char>>) -> Seq<char>
    decreases lines.len(),
{
    if lines.len() == 0 || ends.len() == 0 {
        Seq::<char>::empty()
    } else {
        join_lines(lines.drop_last(), ends.drop_last()) + lines.last() + ends.last()
    }
}

/// `lines` with `ends` are how `text` splits into lines: the text is each
/// line followed by its ending; no line holds a line feed; every line but
/// the last ends with a line feed or a carriage return and a line feed, the
/// carriage return belonging to the ending whenever there is one; the last
/// line may end the text without an ending, and then it is not empty.
pub open spec fn splits_into_lines(text: Seq<char>, lines: Seq<Seq<char>>, ends: Seq<Seq<char>>) -> bool {
    &&& ends.len() == lines.len()
    &&& join_lines(lines, ends) == text
    &&& forall|i: int| 0 <= i < lines.len() ==> !(#[trigger] lines[i]).contains('\n')
    &&& forall|i: int| 0 <= i < lines.len() - 1 ==> is_line_end(#[trigger] ends[i])
    &&& forall|i: int| 0 <= i < lines.len() ==> (#[trigger] ends[i] == seq!['\n'] ==> !(lines[i].len() > 0 && lines[i].last() == '\r'))
    &&& lines.len() > 0 ==> (is_line_end(ends.last()) || (ends.last().len() == 0 && lines.last().len() > 0))
}

proof fn lemma_piece_line_end(piece: Seq<char>)
    ensures
        ({
            let cr = piece.len() > 0 && piece.last() == '\r';
            let line = if cr { piece.drop_last() } else { piece };
            let end = if cr { seq!['\r', '\n'] } else { seq!['\n'] };
            &&& line + end == piece.push('\n')
            &&& is_line_end(end)
            &&& (end == seq!['\n'] ==> !(line.len() > 0 && line.last() == '\r'))
        }),
{
    let cr = piece.len() > 0 && piece.last() == '\r';
    if cr {
        assert(piece.drop_last() + seq!['\r', '\n'] =~= piece.push('\n'));
    } else {
        assert(piece + seq!['\n'] =~= piece.push('\n'));
    }
}

/// Law: the lines of a text, as `lines` gives them, are how the text splits
/// into lines: with their endings they make up the whole text, none holds a
/// line feed, and a carriage return before a line feed always belongs to the
/// ending, so a line followed by a bare line feed never ends with a carriage
/// return.
pub proof fn law_lines_split_text(text: Seq<char>)
    ensures
        exists|ends: Seq<Seq<char>>| #[trigger] splits_into_lines(text, text_lines(text), ends),
{
    let pieces = split_on(text, '\n');
    lemma_split_nonempty(text, '\n');
    lemma_join_split(text, '\n');
    lemma_split_pieces_lack_separator(text, '\n');
    let n = pieces.len();
    let ls = text_lines(text);
    let ends = Seq::new(
        ls.len(),
        |i: int|
            if i < n - 1 {
                if pieces[i].len() > 0 && pieces[i].last() == '\r' {
                    seq!['\r', '\n']
                } else {
                    seq!['\n']
                }
            } else {
                Seq::<char>::empty()
            },
    );
    assert forall|i: int| 0 <= i < ls.len() implies {
        &&& !(#[trigger] ls[i]).contains('\n')
        &&& (i < n - 1 ==> ls[i] + ends[i] == pieces[i].push('\n') && is_line_end(ends[i])
            && (ends[i] == seq!['\n'] ==> !(ls[i].len() > 0 && ls[i].last() == '\r')))
        &&& (i >= n - 1 ==> ls[i] == pieces[i] && ends[i].len() == 0)
    } by {
        assert(!pieces[i].contains('\n'));
        if i < n - 1 {
            lemma_piece_line_end(pieces[i]);
        }
        if ls[i].contains('\n') {
            let j = choose|j: int| 0 <= j < ls[i].len() && ls[i][j] == '\n';
            assert(pieces[i][j] == '\n');
        }
    }
    // every line but the last is followed by a line feed
    assert(ls.len() == n || ls.len() == n - 1);
    assert forall|k: int| 1 <= k <= ls.len() && k <= n - 1 implies
        #[trigger] join_lines(ls.take(k), ends.take(k)) == join_on(pieces.take(k), '\n').push('\n') by {
        lemma_join_prefix(pieces, ls, ends, k);
    }
    if ls.len() == 0 {
        assert(n == 1 && pieces[0].len() == 0);
        assert(join_on(pieces, '\n') == pieces[0]);
        assert(join_lines(ls, ends) =~= text);
    } else if ls.len() == n {
        assert(pieces[n - 1].len() > 0);
        if n == 1 {
            assert(ls =~= seq![pieces[0]]);
            assert(ends =~= seq![Seq::<char>::empty()]);
            assert(join_lines(ls, ends) == join_lines(ls.drop_last(), ends.drop_last()) + ls.last() + ends.last());
            assert(join_lines(ls, ends) =~= pieces[0]);
        } else {
            let k = n - 1;
            assert(join_lines(ls.take(k), ends.take(k)) == join_on(pieces.take(k), '\n').push('\n'));
            assert(ls.drop_last() =~= ls.take(k));
            assert(ends.drop_last() =~= ends.take(k));
            assert(pieces.drop_last() =~= pieces.take(k));
            assert(join_lines(ls, ends) =~= join_on(pieces, '\n'));
        }
    } else {
        let k = n - 1;
        assert(pieces.last().len() == 0);
        assert(ls.take(k) =~= ls);
        assert(ends.take(k) =~= ends);
        assert(pieces.drop_last() =~= pieces.take(k));
        assert(join_on(pieces, '\n') =~= join_on(pieces.take(k), '\n').push('\n'));
        assert(join_lines(ls, ends) =~= text);
    }
    assert(splits_into_lines(text, ls, ends));
}

proof fn lemma_join_prefix(pieces: Seq<Seq<char>>, ls: Seq<Seq<char>>, ends: Seq<Seq<char>>, k: int)
    requires
        1 <= k <= ls.len(),
        k <= pieces.len() - 1,
        ends.len() == ls.len(),
        forall|i: int| 0 <= i < k ==> #[trigger] ls[i] + ends[i] == pieces[i].push('\n'),
    ensures
        join_lines(ls.take(k), ends.take(k)) == join_on(pieces.take(k), '\n').push('\n'),
    decreases k,
{
    assert(ls.take(k).drop_last() =~= ls.take(k - 1));
    assert(ends.take(k).drop_last() =~= ends.take(k - 1));
    assert(ls[k - 1] + ends[k - 1] == pieces[k - 1].push('\n'));
    if k == 1 {
        let l1 = ls.take(1);
        let e1 = ends.take(1);
        assert(l1.drop_last() =~= Seq::<Seq<char>>::empty());
        assert(e1.drop_last() =~= Seq::<Seq<char>>::empty());
        assert(join_lines(l1.drop_last(), e1.drop_last()) == Seq::<char>::empty());
        assert(l1.last() == ls[0]);
        assert(e1.last() == ends[0]);
        assert(join_lines(l1, e1) == join_lines(l1.drop_last(), e1.drop_last()) + l1.last() + e1.last());
        assert(Seq::<char>::empty() + ls[0] + ends[0] =~= ls[0] + ends[0]);
        assert(join_on(pieces.take(1), '\n') == pieces[0]);
    } else {
        lemma_join_prefix(pieces, ls, ends, k - 1);
        assert(pieces.take(k).drop_last() =~= pieces.take(k - 1));
        let prev = join_on(pieces.take(k - 1), '\n');
        assert(join_lines(ls.take(k), ends.take(k)) == prev.push('\n') + ls[k - 1] + ends[k - 1]);
        assert(join_on(pieces.take(k), '\n') == prev.push('\n') + pieces[k - 1]);
        assert(prev.push('\n') + ls[k - 1] + ends[k - 1] =~= (prev.push('\n') + pieces[k - 1]).push('\n'));
    }
}

/// The keyword that starts an include line.
pub open spec fn include_keyword() -> Seq<char> {
    seq!['i', 'n', 'c', 'l', 'u', 'd', 'e']
}

/// An include line: one that starts with the keyword.
pub open spec fn is_include_line(line: Seq<char>) -> bool {
    line.len() >= 7 && line.take(7) == include_keyword()
}

/// What remains of an include line once the keyword is removed everywhere
/// and white space is trimmed: the quoted file name.
pub open spec fn include_argument(line: Seq<char>) -> Seq<char> {
    trim(remove_all(line, include_keyword()))
}

/// The argument of an include line can have its first and last characters
/// cut off: it has two characters or more, and both are ASCII, so that the
/// cut falls between whole characters.
pub open spec fn argument_well_formed(arg: Seq<char>) -> bool {
    arg.len() >= 2 && (arg[0] as u32) < 0x80 && (arg.last() as u32) < 0x80
}

/// A line can be reported: it is no include line, or its argument is well
/// formed.
pub open spec fn reportable(line: Seq<char>) -> bool {
    is_include_line(line) ==> argument_well_formed(include_argument(line))
}

/// The report of one line: `include: ` and the argument without its quotes
/// for an include line, `normal line: ` and the line for any other.
pub open spec fn line_report(line: Seq<char>) -> Seq<char> {
    if is_include_line(line) {
        let arg = include_argument(line);
        "include: "@ + arg.subrange(1, arg.len() - 1)
    } else {
        "normal line: "@ + line
    }
}

fn is_white_space_char(c: char) -> (ws: bool)
    ensures
        ws == is_white_space(c),
{
    ('\u{9}' <= c && c <= '\u{d}') || c == ' ' || c == '\u{85}' || c == '\u{a0}' || c == '\u{1680}'
        || ('\u{2000}' <= c && c <= '\u{200a}') || c == '\u{2028}' || c == '\u{2029}' || c == '\u{202f}'
        || c == '\u{205f}' || c == '\u{3000}'
}

proof fn lemma_trim_start_skip(s: Seq<char>, i: int)
    requires
        0 <= i <= s.len(),
        forall|j: int| 0 <= j < i ==> is_white_space(#[trigger] s[j]),
    ensures
        trim_start(s) == trim_start(s.skip(i)),
    decreases i,
{
    if i > 0 {
        assert(s.drop_first().skip(i - 1) =~= s.skip(i));
        assert forall|j: int| 0 <= j < i - 1 implies is_white_space(#[trigger] s.drop_first()[j]) by {
            assert(s.drop_first()[j] == s[j + 1]);
        }
        lemma_trim_start_skip(s.drop_first(), i - 1);
    } else {
        assert(s.skip(0) =~= s);
    }
}

proof fn lemma_trim_end_take(s: Seq<char>, k: int)
    requires
        0 <= k <= s.len(),
        forall|j: int| k <= j < s.len() ==> is_white_space(#[trigger] s[j]),
    ensures
        trim_end(s) == trim_end(s.take(k)),
    decreases s.len() - k,
{
    if k < s.len() {
        assert(s.drop_last().take(k) =~= s.take(k));
        assert forall|j: int| k <= j < s.drop_last().len() implies is_white_space(#[trigger] s.drop_last()[j]) by {
            assert(s.drop_last()[j] == s[j]);
        }
        assert(is_white_space(s[s.len() - 1]));
        lemma_trim_end_take(s.drop_last(), k);
    } else {
        assert(s.take(k) =~= s);
    }
}

/// The characters of `chars` without leading and trailing white space.
fn trim_chars(chars: &Vec<char>) -> (out: Vec<char>)
    ensures
        out@ == trim(chars@),
{
    let mut start: usize = 0;
    while start < chars.len() && is_white_space_char(chars[start])
        invariant
            start <= chars.len(),
            forall|j: int| 0 <= j < start ==> is_white_space(#[trigger] chars@[j]),
        decreases chars.len() - start,
    {
        start = start + 1;
    }
    proof { lemma_trim_start_skip(chars@, start as int); }
    let ghost rest = chars@.skip(start as int);
    assert(!(rest.len() > 0 && is_white_space(rest[0])));
    let mut end: usize = chars.len();
    while end > start && is_white_space_char(chars[end - 1])
        invariant
            start <= end <= chars.len(),
            forall|j: int| end <= j < chars.len() ==> is_white_space(#[trigger] chars@[j]),
        decreases end - start,
    {
        end = end - 1;
    }
    let ghost kept = rest.take(end - start);
    proof {
        assert forall|j: int| end - start <= j < rest.len() implies is_white_space(#[trigger] rest[j]) by {
            assert(rest[j] == chars@[j + start]);
        }
        lemma_trim_end_take(rest, end - start);
    }
    let mut out: Vec<char> = Vec::new();
    let mut i: usize = start;
    while i < end
        invariant
            start <= i <= end <= chars.len(),
            out@ == chars@.subrange(start as int, i as int),
        decreases end - i,
    {
        out.push(chars[i]);
        assert(chars@.subrange(start as int, i + 1) =~= chars@.subrange(start as int, i as int).push(chars@[i as int]));
        i = i + 1;
    }
    assert(out@ =~= kept);
    assert(!(kept.len() > 0 && is_white_space(kept.last())));
    out
}

/// The characters of `chars` with every occurrence of `pat` removed.
fn remove_all_chars(chars: &Vec<char>, pat: &Vec<char>) -> (out: Vec<char>)
    requires
        pat@.len() > 0,
    ensures
        out@ == remove_all(chars@, pat@),
{
    let mut out: Vec<char> = Vec::new();
    let mut i: usize = 0;
    assert(chars@.skip(0) =~= chars@);
    while i < chars.len()
        invariant
            pat@.len() > 0,
            i <= chars.len(),
            out@ + remove_all(chars@.skip(i as int), pat@) == remove_all(chars@, pat@),
        decreases chars.len() - i,
    {
        let ghost rest = chars@.skip(i as int);
        let mut matched = pat.len() <= chars.len() - i;
        let mut k: usize = 0;
        while matched && k < pat.len()
            invariant
                i <= chars.len(),
                matched ==> pat@.len() <= rest.len(),
                rest == chars@.skip(i as int),
                k <= pat@.len(),
                matched ==> forall|j: int| 0 <= j < k ==> rest[j] == pat@[j],
                !matched ==> !(pat@.len() <= rest.len() && rest.take(pat@.len() as int) == pat@),
            decreases pat@.len() - k,
        {
            if chars[i + k] != pat[k] {
                matched = false;
                assert(rest.take(pat@.len() as int)[k as int] != pat@[k as int]);
            }
            k = k + 1;
        }
        if matched {
            assert(rest.take(pat@.len() as int) =~= pat@);
            assert(rest.skip(pat@.len() as int) =~= chars@.skip(i + pat@.len()));
            i = i + pat.len();
        } else {
            let ghost before = out@;
            out.push(chars[i]);
            assert(rest.drop_first() =~= chars@.skip(i + 1));
            assert(out@ + remove_all(chars@.skip(i + 1), pat@) =~= before + (seq![rest[0]] + remove_all(rest.drop_first(), pat@)));
            i = i + 1;
        }
    }
    assert(chars@.skip(chars.len() as int) =~= Seq::<char>::empty());
    assert(out@ + Seq::<char>::empty() =~= out@);
    out
}

/// The lines of a text, as `BufRead::lines` reads them from it.
pub fn lines(text: &str) -> (out: Vec<String>)
    ensures
        string_views(out@) == text_lines(text@),
{
    let pieces = split_at_char(text, '\n');
    let ghost views = string_views(pieces@);
    let n = pieces.len();
    let full_len = if pieces[n - 1].as_str().is_empty() { n - 1 } else { n };
    let mut out: Vec<String> = Vec::new();
    let mut i: usize = 0;
    while i < full_len
        invariant
            pieces@.len() == n,
            n >= 1,
            views == string_views(pieces@),
            views == split_on(text@, '\n'),
            full_len == (if views.last().len() == 0 { n - 1 } else { n as int }),
            i <= full_len,
            string_views(out@) == text_lines(text@).take(i as int),
        decreases full_len - i,
    {
        let piece = &pieces[i];
        let chars = chars_of(piece.as_str());
        let line = if i < n - 1 && chars.len() > 0 && chars[chars.len() - 1] == '\r' {
            let mut trimmed: Vec<char> = Vec::new();
            let mut j: usize = 0;
            while j < chars.len() - 1
                invariant
                    chars@.len() > 0,
                    j <= chars@.len() - 1,
                    trimmed@ == chars@.take(j as int),
                decreases chars@.len() - 1 - j,
            {
                trimmed.push(chars[j]);
                assert(chars@.take(j + 1) =~= chars@.take(j as int).push(chars@[j as int]));
                j = j + 1;
            }
            assert(trimmed@ =~= chars@.drop_last());
            string_from_chars(&trimmed)
        } else {
            string_from_chars(&chars)
        };
        let ghost before = out@;
        out.push(line);
        assert(string_views(out@) =~= string_views(before).push(line@));
        assert(text_lines(text@).take(i + 1) =~= text_lines(text@).take(i as int).push(text_lines(text@)[i as int]));
        i = i + 1;
    }
    assert(text_lines(text@).take(full_len as int) =~= text_lines(text@));
    out
}

/// The argument of an include line, or `None` for a line that is no
/// include line.
fn include_argument_of(line: &str) -> (arg: Option<Vec<char>>)
    ensures
        arg is Some <==> is_include_line(line@),
        arg matches Some(a) ==> a@ == include_argument(line@),
{
    let chars = chars_of(line);
    let mut keyword: Vec<char> = Vec::new();
    keyword.push('i');
    keyword.push('n');
    keyword.push('c');
    keyword.push('l');
    keyword.push('u');
    keyword.push('d');
    keyword.push('e');
    assert(keyword@ =~= include_keyword());
    let mut starts = chars.len() >= 7;
    let mut k: usize = 0;
    while starts && k < 7
        invariant
            k <= 7,
            keyword@ == include_keyword(),
            chars@ == line@,
            starts ==> chars@.len() >= 7 && forall|j: int| 0 <= j < k ==> chars@[j] == keyword@[j],
            !starts ==> !is_include_line(line@),
        decreases 7 - k,
    {
        if chars[k] != keyword[k] {
            starts = false;
            assert(line@.take(7)[k as int] != include_keyword()[k as int]);
        }
        k = k + 1;
    }
    if starts {
        assert(line@.take(7) =~= include_keyword());
        let removed = remove_all_chars(&chars, &keyword);
        Some(trim_chars(&removed))
    } else {
        None
    }
}

/// Whether a line can be reported: it is no include line, or the argument
/// of the include line is well formed.
pub fn is_reportable(line: &str) -> (ok: bool)
    ensures
        ok == reportable(line@),
{
    match include_argument_of(line) {
        None => true,
        Some(arg) => {
            arg.len() >= 2 && (arg[0] as u32) < 0x80 && (arg[arg.len() - 1] as u32) < 0x80
        },
    }
}

/// The report of one line: for an include line, `include: ` and the file it
/// names without its quotes; for any other, `normal line: ` and the line.
pub fn report_line(line: &str) -> (report: String)
    requires
        reportable(line@),
    ensures
        report@ == line_report(line@),
{
    let mut report = String::new();
    match include_argument_of(line) {
        Some(arg) => {
            append_str(&mut report, "include: ");
            let mut inner: Vec<char> = Vec::new();
            let mut i: usize = 1;
            while i < arg.len() - 1
                invariant
                    arg@.len() >= 2,
                    1 <= i <= arg@.len() - 1,
                    inner@ == arg@.subrange(1, i as int),
                decreases arg@.len() - 1 - i,
            {
                inner.push(arg[i]);
                assert(arg@.subrange(1, i + 1) =~= arg@.subrange(1, i as int).push(arg@[i as int]));
                i = i + 1;
            }
            let inner_text = string_from_chars(&inner);
            append_str(&mut report, inner_text.as_str());
        },
        None => {
            append_str(&mut report, "normal line: ");
            append_str(&mut report, line);
        },
    }
    report
}

/// The report of every line of a configuration text, in order.
pub fn report_lines(text: &str) -> (reports: Vec<String>)
    requires
        forall|i: int| 0 <= i < text_lines(text@).len() ==> reportable(#[trigger] text_lines(text@)[i]),
    ensures
        string_views(reports@) == text_lines(text@).map_values(|l: Seq<char>| line_report(l)),
{
    let all = lines(text);
    let mut reports: Vec<String> = Vec::new();
    let mut i: usize = 0;
    while i < all.len()
        invariant
            i <= all.len(),
            string_views(all@) == text_lines(text@),
            forall|j: int| 0 <= j < text_lines(text@).len() ==> reportable(#[trigger] text_lines(text@)[j]),
            string_views(reports@) == text_lines(text@).take(i as int).map_values(|l: Seq<char>| line_report(l)),
        decreases all.len() - i,
    {
        assert(all@[i as int]@ == text_lines(text@)[i as int]);
        let r = report_line(all[i].as_str());
        let ghost before = reports@;
        reports.push(r);
        assert(string_views(reports@) =~= string_views(before).push(r@));
        assert(text_lines(text@).take(i + 1).map_values(|l: Seq<char>| line_report(l)) =~= text_lines(text@).take(
            i as int,
        ).map_values(|l: Seq<char>| line_report(l)).push(line_report(text_lines(text@)[i as int])));
        i = i + 1;
    }
    assert(text_lines(text@).take(all.len() as int) =~= text_lines(text@));
    reports
}

} // verus!
