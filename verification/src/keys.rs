//! Dotted keys such as `a.b.c`, split into their segments.

use vstd::prelude::*;
use crate::text::{chars_of, push_char, string_views};

verus! {

/// The separator between the segments of a dotted key.
pub open spec fn key_separator() -> char {
    '.'
}

/// `s` cut at every occurrence of `sep`: the pieces between separators, in
/// order, empty pieces included. There is always at least one piece.
pub open spec fn split_on(s: Seq<char>, sep: char) -> Seq<Seq<char>>
    decreases s.len(),
{
    if s.len() == 0 {
        seq![Seq::<char>::empty()]
    } else {
        let init = split_on(s.drop_last(), sep);
        if s.last() == sep {
            init.push(Seq::<char>::empty())
        } else {
            init.update(init.len() - 1, init.last().push(s.last()))
        }
    }
}

/// The pieces of `parts` with `sep` between each two neighbours.
pub open spec fn join_on(parts: Seq<Seq<char>>, sep: char) -> Seq<char>
    decreases parts.len(),
{
    if parts.len() == 0 {
        Seq::<char>::empty()
    } else if parts.len() == 1 {
        parts[0]
    } else {
        join_on(parts.drop_last(), sep).push(sep) + parts.last()
    }
}

/// The segments of a dotted key.
pub open spec fn key_path(key: Seq<char>) -> Seq<Seq<char>> {
    split_on(key, key_separator())
}

/// Splitting never yields an empty list of pieces.
pub proof fn lemma_split_nonempty(s: Seq<char>, sep: char)
    ensures
        split_on(s, sep).len() >= 1,
    decreases s.len(),
{
    if s.len() > 0 {
        lemma_split_nonempty(s.drop_last(), sep);
    }
}

/// No piece of a split holds the separator.
pub proof fn lemma_split_pieces_lack_separator(s: Seq<char>, sep: char)
    ensures
        forall|i: int| 0 <= i < split_on(s, sep).len() ==> !(#[trigger] split_on(s, sep)[i]).contains(sep),
    decreases s.len(),
{
    if s.len() > 0 {
        let init = split_on(s.drop_last(), sep);
        lemma_split_pieces_lack_separator(s.drop_last(), sep);
        lemma_split_nonempty(s.drop_last(), sep);
        if s.last() != sep {
            let last = init.last();
            assert forall|i: int| 0 <= i < split_on(s, sep).len() implies !(#[trigger] split_on(s, sep)[i]).contains(sep) by {
                if i == init.len() - 1 {
                    assert(!last.contains(sep));
                    assert forall|j: int| 0 <= j < last.push(s.last()).len() implies last.push(s.last())[j] != sep by {
                        if j < last.len() {
                            assert(last[j] != sep) by {
                                if last[j] == sep {
                                    assert(last.contains(sep));
                                }
                            }
                        }
                    }
                } else {
                    assert(split_on(s, sep)[i] == init[i]);
                }
            }
        } else {
            assert forall|i: int| 0 <= i < split_on(s, sep).len() implies !(#[trigger] split_on(s, sep)[i]).contains(sep) by {
                if i < init.len() {
                    assert(split_on(s, sep)[i] == init[i]);
                } else {
                    assert(split_on(s, sep)[i] =~= Seq::<char>::empty());
                }
            }
        }
    }
}

/// Law: joining the pieces of a split with the same separator gives back the
/// text that was split.
pub proof fn lemma_join_split(s: Seq<char>, sep: char)
    ensures
        join_on(split_on(s, sep), sep) == s,
    decreases s.len(),
{
    if s.len() == 0 {
    } else {
        let init = split_on(s.drop_last(), sep);
        lemma_join_split(s.drop_last(), sep);
        lemma_split_nonempty(s.drop_last(), sep);
        if s.last() == sep {
            let parts = init.push(Seq::<char>::empty());
            assert(parts.drop_last() =~= init);
            assert(join_on(parts, sep) =~= s.drop_last().push(sep));
            assert(s =~= s.drop_last().push(s.last()));
        } else {
            let parts = init.update(init.len() - 1, init.last().push(s.last()));
            lemma_join_extend_last(init, sep, s.last());
            assert(s =~= s.drop_last().push(s.last()));
        }
    }
}

/// Appending a character to the last piece appends it to the joined text.
pub proof fn lemma_join_extend_last(parts: Seq<Seq<char>>, sep: char, c: char)
    requires
        parts.len() >= 1,
    ensures
        join_on(parts.update(parts.len() - 1, parts.last().push(c)), sep) == join_on(parts, sep).push(c),
{
    let upd = parts.update(parts.len() - 1, parts.last().push(c));
    if parts.len() == 1 {
        assert(upd[0] == parts[0].push(c));
    } else {
        assert(upd.drop_last() =~= parts.drop_last());
        assert(upd.last() == parts.last().push(c));
        let j = join_on(parts.drop_last(), sep).push(sep);
        assert(j + parts.last().push(c) =~= (j + parts.last()).push(c));
    }
}

/// Splits a dotted key into its segments: `"a.b"` gives `["a", "b"]`, and
/// `""` gives `[""]`.
pub fn split_dotted(key: &str) -> (segments: Vec<String>)
    ensures
        segments@.len() >= 1,
        string_views(segments@) == key_path(key@),
{
    split_at_char(key, '.')
}

/// Splits text at every occurrence of `sep`, keeping empty pieces, as
/// `str::split` with a `char` pattern does.
pub fn split_at_char(key: &str, sep: char) -> (segments: Vec<String>)
    ensures
        segments@.len() >= 1,
        string_views(segments@) == split_on(key@, sep),
{
    let chars = chars_of(key);
    let mut pieces: Vec<String> = Vec::new();
    let mut current = String::new();
    let mut i: usize = 0;
    while i < chars.len()
        invariant
            i <= chars.len(),
            chars@ == key@,
            string_views(pieces@).push(current@) == split_on(chars@.take(i as int), sep),
        decreases chars.len() - i,
    {
        let c = chars[i];
        let ghost before = chars@.take(i as int);
        let ghost after = chars@.take(i + 1);
        assert(after.drop_last() =~= before);
        assert(after.last() == c);
        if c == sep {
            let ghost old_pieces = pieces@;
            let done = current;
            pieces.push(done);
            current = String::new();
            assert(string_views(pieces@) =~= string_views(old_pieces).push(done@));
        } else {
            let ghost old_current = current@;
            push_char(&mut current, c);
            let ghost m = string_views(pieces@);
            assert(m.push(current@) =~= m.push(old_current).update(m.len() as int, m.push(old_current).last().push(c)));
        }
        i = i + 1;
    }
    assert(chars@.take(chars.len() as int) =~= key@);
    let ghost old_pieces = pieces@;
    let last = current;
    pieces.push(last);
    assert(string_views(pieces@) =~= string_views(old_pieces).push(last@));
    pieces
}

} // verus!

verus! {

/// Splitting `a`, a separator, then `b` gives the pieces of `a` followed by
/// the pieces of `b`.
pub proof fn lemma_split_concat(a: Seq<char>, b: Seq<char>, sep: char)
    ensures
        split_on(a.push(sep) + b, sep) == split_on(a, sep) + split_on(b, sep),
    decreases b.len(),
{
    lemma_split_nonempty(a, sep);
    lemma_split_nonempty(b, sep);
    if b.len() == 0 {
        assert(a.push(sep) + b =~= a.push(sep));
        assert((a.push(sep)).drop_last() =~= a);
        assert(split_on(b, sep) =~= seq![Seq::<char>::empty()]);
        assert(split_on(a, sep).push(Seq::<char>::empty()) =~= split_on(a, sep) + seq![Seq::<char>::empty()]);
    } else {
        let whole = a.push(sep) + b;
        assert(whole.drop_last() =~= a.push(sep) + b.drop_last());
        assert(whole.last() == b.last());
        lemma_split_concat(a, b.drop_last(), sep);
        lemma_split_nonempty(b.drop_last(), sep);
        let left = split_on(a, sep);
        let right = split_on(b.drop_last(), sep);
        if b.last() == sep {
            assert((left + right).push(Seq::<char>::empty()) =~= left + right.push(Seq::<char>::empty()));
        } else {
            let lr = left + right;
            assert(lr.update(lr.len() - 1, lr.last().push(b.last())) =~= left + right.update(right.len() - 1, right.last().push(b.last())));
        }
    }
}

} // verus!
