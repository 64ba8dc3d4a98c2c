//! Association lists keyed by strings: the storage behind the template data.
//! A lookup finds the first entry whose key matches.

use vstd::prelude::*;

verus! {

/// `i` is the position of the first entry of `entries` whose key is `k`.
pub open spec fn first_index<V>(entries: Seq<(String, V)>, k: Seq<char>, i: int) -> bool {
    &&& 0 <= i < entries.len()
    &&& entries[i].0@ == k
    &&& forall|j: int| 0 <= j < i ==> (#[trigger] entries[j]).0@ != k
}

/// No entry of `entries` has key `k`.
pub open spec fn key_absent<V>(entries: Seq<(String, V)>, k: Seq<char>) -> bool {
    forall|j: int| 0 <= j < entries.len() ==> (#[trigger] entries[j]).0@ != k
}

/// The map that an association list stands for, each value taken through
/// `f`; where a key occurs more than once, its first entry counts.
pub open spec fn assoc_map<V, W>(entries: Seq<(String, V)>, f: spec_fn(V) -> W) -> Map<Seq<char>, W>
    decreases entries.len(),
{
    if entries.len() == 0 {
        Map::empty()
    } else {
        assoc_map(entries.drop_first(), f).insert(entries[0].0@, f(entries[0].1))
    }
}

pub proof fn lemma_assoc_absent<V, W>(entries: Seq<(String, V)>, f: spec_fn(V) -> W, k: Seq<char>)
    requires
        key_absent(entries, k),
    ensures
        !assoc_map(entries, f).contains_key(k),
    decreases entries.len(),
{
    if entries.len() > 0 {
        assert(entries[0].0@ != k);
        assert forall|j: int| 0 <= j < entries.drop_first().len() implies (#[trigger] entries.drop_first()[j]).0@ != k by {
            assert(entries.drop_first()[j] == entries[j + 1]);
        }
        lemma_assoc_absent(entries.drop_first(), f, k);
    }
}

pub proof fn lemma_assoc_lookup<V, W>(entries: Seq<(String, V)>, f: spec_fn(V) -> W, k: Seq<char>, i: int)
    requires
        first_index(entries, k, i),
    ensures
        assoc_map(entries, f).contains_key(k),
        assoc_map(entries, f)[k] == f(entries[i].1),
    decreases entries.len(),
{
    if i > 0 {
        assert(entries[0].0@ != k);
        let rest = entries.drop_first();
        assert forall|j: int| 0 <= j < i - 1 implies (#[trigger] rest[j]).0@ != k by {
            assert(rest[j] == entries[j + 1]);
        }
        assert(rest[i - 1] == entries[i]);
        lemma_assoc_lookup(rest, f, k, i - 1);
    }
}

pub proof fn lemma_assoc_update<V, W>(
    entries: Seq<(String, V)>,
    f: spec_fn(V) -> W,
    i: int,
    entry: (String, V),
)
    requires
        first_index(entries, entry.0@, i),
    ensures
        assoc_map(entries.update(i, entry), f) == assoc_map(entries, f).insert(entry.0@, f(entry.1)),
    decreases entries.len(),
{
    let k = entry.0@;
    let upd = entries.update(i, entry);
    if i == 0 {
        assert(upd.drop_first() =~= entries.drop_first());
        assert(assoc_map(upd, f) =~= assoc_map(entries, f).insert(k, f(entry.1)));
    } else {
        let rest = entries.drop_first();
        assert forall|j: int| 0 <= j < i - 1 implies (#[trigger] rest[j]).0@ != k by {
            assert(rest[j] == entries[j + 1]);
        }
        assert(rest[i - 1] == entries[i]);
        lemma_assoc_update(rest, f, i - 1, entry);
        assert(upd.drop_first() =~= rest.update(i - 1, entry));
        assert(entries[0].0@ != k);
        assert(assoc_map(upd, f) =~= assoc_map(entries, f).insert(k, f(entry.1)));
    }
}

pub proof fn lemma_assoc_push<V, W>(entries: Seq<(String, V)>, f: spec_fn(V) -> W, entry: (String, V))
    requires
        key_absent(entries, entry.0@),
    ensures
        assoc_map(entries.push(entry), f) == assoc_map(entries, f).insert(entry.0@, f(entry.1)),
    decreases entries.len(),
{
    let k = entry.0@;
    if entries.len() == 0 {
        assert(entries.push(entry).drop_first() =~= entries);
        assert(assoc_map(entries.push(entry), f) =~= assoc_map(entries, f).insert(k, f(entry.1)));
    } else {
        let rest = entries.drop_first();
        assert forall|j: int| 0 <= j < rest.len() implies (#[trigger] rest[j]).0@ != k by {
            assert(rest[j] == entries[j + 1]);
        }
        lemma_assoc_push(rest, f, entry);
        assert(entries.push(entry).drop_first() =~= rest.push(entry));
        assert(entries[0].0@ != k);
        assert(assoc_map(entries.push(entry), f) =~= assoc_map(entries, f).insert(k, f(entry.1)));
    }
}

/// Two association lists with the same keys, in the same order, and values
/// that `f` takes to the same results stand for the same map.
pub proof fn lemma_assoc_congruent<V, W>(a: Seq<(String, V)>, b: Seq<(String, V)>, f: spec_fn(V) -> W)
    requires
        a.len() == b.len(),
        forall|j: int| 0 <= j < a.len() ==> (#[trigger] a[j]).0@ == b[j].0@ && f(a[j].1) == f(b[j].1),
    ensures
        assoc_map(a, f) == assoc_map(b, f),
    decreases a.len(),
{
    if a.len() > 0 {
        assert(a[0].0@ == b[0].0@ && f(a[0].1) == f(b[0].1));
        assert forall|j: int| 0 <= j < a.drop_first().len() implies (#[trigger] a.drop_first()[j]).0@ == b.drop_first()[j].0@
            && f(a.drop_first()[j].1) == f(b.drop_first()[j].1) by {
            assert(a.drop_first()[j] == a[j + 1]);
            assert(b.drop_first()[j] == b[j + 1]);
        }
        lemma_assoc_congruent(a.drop_first(), b.drop_first(), f);
    }
}

/// The position of the first entry whose key equals `key`, if any.
pub fn find_key<V>(entries: &Vec<(String, V)>, key: &String) -> (r: Option<usize>)
    ensures
        match r {
            Some(i) => first_index(entries@, key@, i as int),
            None => key_absent(entries@, key@),
        },
{
    let mut i: usize = 0;
    while i < entries.len()
        invariant
            i <= entries.len(),
            forall|j: int| 0 <= j < i ==> (#[trigger] entries@[j]).0@ != key@,
        decreases entries.len() - i,
    {
        if entries[i].0 == *key {
            return Some(i);
        }
        i = i + 1;
    }
    None
}

} // verus!
