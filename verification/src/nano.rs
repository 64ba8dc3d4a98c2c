//! Template data for the nano template engine: string values and nested
//! data, both addressed by dotted keys such as `a.b.c`.

use vstd::prelude::*;
use crate::assoc::{assoc_map, find_key, lemma_assoc_absent, lemma_assoc_lookup, lemma_assoc_push, lemma_assoc_update, lemma_assoc_congruent};
use crate::keys::{key_path, key_separator, split_dotted};
use crate::text::string_views;
use crate::placeholder::{
    braced_all, interleave, interleave_strings, placeholder_names, placeholder_split,
    PlaceholderPattern,
};

verus! {

/// The abstract content of a [`NanoData`]: the string values stored at this
/// level and the nested data stored under each name.
pub struct NanoTree {
    pub values: Map<Seq<char>, Seq<char>>,
    pub children: Map<Seq<char>, NanoTree>,
}

impl NanoTree {
    /// Data with no values and no nested data.
    pub open spec fn empty() -> NanoTree {
        NanoTree { values: Map::empty(), children: Map::empty() }
    }

    /// The nested data under `name`, or empty data where there is none.
    pub open spec fn child_or_empty(self, name: Seq<char>) -> NanoTree {
        if self.children.contains_key(name) {
            self.children[name]
        } else {
            NanoTree::empty()
        }
    }

    /// The string value reached by `path`: every segment but the last names
    /// nested data, the last one names a value.
    pub open spec fn value_at(self, path: Seq<Seq<char>>) -> Option<Seq<char>>
        decreases path.len(),
    {
        if path.len() == 0 {
            None
        } else if path.len() == 1 {
            if self.values.contains_key(path[0]) {
                Some(self.values[path[0]])
            } else {
                None
            }
        } else if self.children.contains_key(path[0]) {
            self.children[path[0]].value_at(path.drop_first())
        } else {
            None
        }
    }

    /// The nested data reached by `path`: every segment names nested data.
    pub open spec fn data_at(self, path: Seq<Seq<char>>) -> Option<NanoTree>
        decreases path.len(),
    {
        if path.len() == 0 {
            None
        } else if !self.children.contains_key(path[0]) {
            None
        } else if path.len() == 1 {
            Some(self.children[path[0]])
        } else {
            self.children[path[0]].data_at(path.drop_first())
        }
    }

    /// This data with `value` stored at `path`, nested data created along the
    /// way where it is missing.
    pub open spec fn with_value(self, path: Seq<Seq<char>>, value: Seq<char>) -> NanoTree
        decreases path.len(),
    {
        if path.len() == 0 {
            self
        } else if path.len() == 1 {
            NanoTree { values: self.values.insert(path[0], value), children: self.children }
        } else {
            NanoTree {
                values: self.values,
                children: self.children.insert(
                    path[0],
                    self.child_or_empty(path[0]).with_value(path.drop_first(), value),
                ),
            }
        }
    }

    /// This data with `data` stored at `path`, nested data created along the
    /// way where it is missing.
    pub open spec fn with_data(self, path: Seq<Seq<char>>, data: NanoTree) -> NanoTree
        decreases path.len(),
    {
        if path.len() == 0 {
            self
        } else if path.len() == 1 {
            NanoTree { values: self.values, children: self.children.insert(path[0], data) }
        } else {
            NanoTree {
                values: self.values,
                children: self.children.insert(
                    path[0],
                    self.child_or_empty(path[0]).with_data(path.drop_first(), data),
                ),
            }
        }
    }
}

/// Data for a template: string values and nested data, each under a name.
#[derive(Debug)]
pub struct NanoData {
    underlying: Vec<(String, String)>,
    children: Vec<(String, NanoData)>,
}

/// How a stored string value is seen: as its characters.
pub open spec fn value_view() -> spec_fn(String) -> Seq<char> {
    |s: String| s@
}

/// How stored nested data is seen: as its abstract content.
pub open spec fn data_view() -> spec_fn(NanoData) -> NanoTree {
    |d: NanoData| d.tree()
}


impl NanoData {
    /// The abstract content of this data.
    pub closed spec fn tree(&self) -> NanoTree
        decreases self,
    {
        NanoTree {
            values: assoc_map(self.underlying@, value_view()),
            children: Self::child_map(self.children@),
        }
    }

    closed spec fn child_map(entries: Seq<(String, NanoData)>) -> Map<Seq<char>, NanoTree>
        decreases entries,
    {
        if entries.len() == 0 {
            Map::empty()
        } else {
            Self::child_map(entries.drop_first()).insert(entries[0].0@, entries[0].1.tree())
        }
    }
}

impl NanoData {
    proof fn lemma_child_map(entries: Seq<(String, NanoData)>)
        ensures
            Self::child_map(entries) == assoc_map(entries, data_view()),
        decreases entries.len(),
    {
        if entries.len() > 0 {
            Self::lemma_child_map(entries.drop_first());
        }
    }

    proof fn lemma_views(&self)
        ensures
            self@.values == assoc_map(self.underlying@, value_view()),
            self@.children == assoc_map(self.children@, data_view()),
    {
        Self::lemma_child_map(self.children@);
    }

    /// Empty data.
    pub fn new() -> (data: NanoData)
        ensures
            data@ == NanoTree::empty(),
    {
        let data = NanoData { underlying: Vec::new(), children: Vec::new() };
        proof {
            data.lemma_views();
            assert(data@.values =~= Map::empty());
            assert(data@.children =~= Map::empty());
        }
        data
    }

    /// A copy of this data, nested data included.
    fn duplicate(&self) -> (copy: NanoData)
        ensures
            copy@ == self@,
        decreases self,
    {
        let mut underlying: Vec<(String, String)> = Vec::new();
        let mut i: usize = 0;
        while i < self.underlying.len()
            invariant
                i <= self.underlying.len(),
                underlying@ == self.underlying@.take(i as int),
            decreases self.underlying.len() - i,
        {
            let k = self.underlying[i].0.clone();
            let v = self.underlying[i].1.clone();
            underlying.push((k, v));
            assert(self.underlying@.take(i as int).push(self.underlying@[i as int]) =~= self.underlying@.take(i + 1));
            i = i + 1;
        }
        assert(self.underlying@.take(self.underlying.len() as int) =~= self.underlying@);
        let mut children: Vec<(String, NanoData)> = Vec::new();
        let mut j: usize = 0;
        while j < self.children.len()
            invariant
                j <= self.children.len(),
                children@.len() == j,
                forall|m: int| 0 <= m < j ==> (#[trigger] children@[m]).0@ == self.children@[m].0@
                    && children@[m].1@ == self.children@[m].1@,
            decreases self.children.len() - j,
        {
            let k = self.children[j].0.clone();
            let child = &self.children[j].1;
            proof {
                assert(decreases_to!(self => self.children));
                assert(decreases_to!(self.children => self.children@));
                assert(decreases_to!(self.children@ => self.children@[j as int]));
                assert(decreases_to!(self.children@[j as int] => self.children@[j as int].1));
            }
            let c = child.duplicate();
            children.push((k, c));
            j = j + 1;
        }
        let copy = NanoData { underlying, children };
        proof {
            lemma_assoc_congruent(copy.children@, self.children@, data_view());
            copy.lemma_views();
            self.lemma_views();
        }
        copy
    }

    /// Splits a dotted key into its segments.
    fn split_key(key: &str) -> (segments: Vec<String>)
        ensures
            segments@.len() >= 1,
            string_views(segments@) == key_path(key@),
    {
        split_dotted(key)
    }

    /// The string value stored under a dotted key such as `a.b.c`.
    pub fn get(&self, key: &str) -> (value: String)
        requires
            self@.value_at(key_path(key@)) is Some,
        ensures
            self@.value_at(key_path(key@)) == Some(value@),
    {
        let keys = Self::split_key(key);
        self.get_by_keys(keys.as_slice())
    }

    fn get_by_keys(&self, keys: &[String]) -> (value: String)
        requires
            keys@.len() >= 1,
            self@.value_at(string_views(keys@)) is Some,
        ensures
            self@.value_at(string_views(keys@)) == Some(value@),
        decreases keys@.len(),
    {
        let ghost path = string_views(keys@);
        proof { self.lemma_views(); }
        if keys.len() == 1 {
            match find_key(&self.underlying, &keys[0]) {
                Some(i) => {
                    proof { lemma_assoc_lookup(self.underlying@, value_view(), path[0], i as int); }
                    self.underlying[i].1.clone()
                },
                None => {
                    proof { lemma_assoc_absent(self.underlying@, value_view(), path[0]); }
                    assert(false);
                    String::new()
                },
            }
        } else {
            let rest = keys.split_at(1).1;
            assert(string_views(rest@) =~= path.drop_first());
            match find_key(&self.children, &keys[0]) {
                Some(i) => {
                    proof { lemma_assoc_lookup(self.children@, data_view(), path[0], i as int); }
                    self.children[i].1.get_by_keys(rest)
                },
                None => {
                    proof { lemma_assoc_absent(self.children@, data_view(), path[0]); }
                    assert(false);
                    String::new()
                },
            }
        }
    }

    /// The string value stored under a dotted key, or `None` where there is
    /// none.
    pub fn lookup(&self, key: &str) -> (value: Option<String>)
        ensures
            match value {
                Some(v) => self@.value_at(key_path(key@)) == Some(v@),
                None => self@.value_at(key_path(key@)) is None,
            },
    {
        let keys = Self::split_key(key);
        self.lookup_by_keys(keys.as_slice())
    }

    fn lookup_by_keys(&self, keys: &[String]) -> (value: Option<String>)
        requires
            keys@.len() >= 1,
        ensures
            match value {
                Some(v) => self@.value_at(string_views(keys@)) == Some(v@),
                None => self@.value_at(string_views(keys@)) is None,
            },
        decreases keys@.len(),
    {
        let ghost path = string_views(keys@);
        proof { self.lemma_views(); }
        if keys.len() == 1 {
            match find_key(&self.underlying, &keys[0]) {
                Some(i) => {
                    proof { lemma_assoc_lookup(self.underlying@, value_view(), path[0], i as int); }
                    Some(self.underlying[i].1.clone())
                },
                None => {
                    proof { lemma_assoc_absent(self.underlying@, value_view(), path[0]); }
                    None
                },
            }
        } else {
            let rest = keys.split_at(1).1;
            assert(string_views(rest@) =~= path.drop_first());
            match find_key(&self.children, &keys[0]) {
                Some(i) => {
                    proof { lemma_assoc_lookup(self.children@, data_view(), path[0], i as int); }
                    self.children[i].1.lookup_by_keys(rest)
                },
                None => {
                    proof { lemma_assoc_absent(self.children@, data_view(), path[0]); }
                    None
                },
            }
        }
    }

    /// Stores a string value under a dotted key such as `a.b.c`, creating the
    /// nested data on the way where it is missing.
    pub fn put(&mut self, key: &str, value: String)
        ensures
            final(self)@ == old(self)@.with_value(key_path(key@), value@),
    {
        let keys = Self::split_key(key);
        self.put_by_keys(keys.as_slice(), value);
    }

    fn put_by_keys(&mut self, keys: &[String], value: String)
        requires
            keys@.len() >= 1,
        ensures
            final(self)@ == old(self)@.with_value(string_views(keys@), value@),
        decreases keys@.len(),
    {
        let ghost path = string_views(keys@);
        let ghost before = self@;
        proof { self.lemma_views(); }
        let name = keys[0].clone();
        if keys.len() == 1 {
            let ghost entries = self.underlying@;
            match find_key(&self.underlying, &name) {
                Some(i) => {
                    let _ = self.underlying.remove(i);
                    self.underlying.insert(i, (name, value));
                    proof {
                        assert(self.underlying@ =~= entries.update(i as int, (name, value)));
                        lemma_assoc_update(entries, value_view(), i as int, (name, value));
                    }
                },
                None => {
                    self.underlying.push((name, value));
                    proof { lemma_assoc_push(entries, value_view(), (name, value)); }
                },
            }
            proof {
                self.lemma_views();
                assert(self@.values =~= before.values.insert(path[0], value@));
            }
        } else {
            let rest = keys.split_at(1).1;
            assert(string_views(rest@) =~= path.drop_first());
            let ghost entries = self.children@;
            match find_key(&self.children, &name) {
                Some(i) => {
                    proof { lemma_assoc_lookup(entries, data_view(), path[0], i as int); }
                    let (old_name, mut child) = self.children.remove(i);
                    child.put_by_keys(rest, value);
                    self.children.insert(i, (old_name, child));
                    proof {
                        assert(self.children@ =~= entries.update(i as int, (old_name, child)));
                        lemma_assoc_update(entries, data_view(), i as int, (old_name, child));
                    }
                },
                None => {
                    proof { lemma_assoc_absent(entries, data_view(), path[0]); }
                    let mut child = NanoData::new();
                    child.put_by_keys(rest, value);
                    self.children.push((name, child));
                    proof { lemma_assoc_push(entries, data_view(), (name, child)); }
                },
            }
            proof {
                self.lemma_views();
                assert(self@.children =~= before.children.insert(
                    path[0], before.child_or_empty(path[0]).with_value(path.drop_first(), value@)));
            }
        }
    }

    /// A copy of the nested data stored under a dotted key such as `a.b`.
    pub fn get_data(&self, key: &str) -> (data: NanoData)
        requires
            self@.data_at(key_path(key@)) is Some,
        ensures
            self@.data_at(key_path(key@)) == Some(data@),
    {
        let keys = Self::split_key(key);
        self.get_data_by_keys(keys.as_slice())
    }

    fn get_data_by_keys(&self, keys: &[String]) -> (data: NanoData)
        requires
            keys@.len() >= 1,
            self@.data_at(string_views(keys@)) is Some,
        ensures
            self@.data_at(string_views(keys@)) == Some(data@),
        decreases keys@.len(),
    {
        let ghost path = string_views(keys@);
        proof { self.lemma_views(); }
        match find_key(&self.children, &keys[0]) {
            Some(i) => {
                proof { lemma_assoc_lookup(self.children@, data_view(), path[0], i as int); }
                let child = &self.children[i].1;
                if keys.len() == 1 {
                    child.duplicate()
                } else {
                    let rest = keys.split_at(1).1;
                    assert(string_views(rest@) =~= path.drop_first());
                    child.get_data_by_keys(rest)
                }
            },
            None => {
                proof { lemma_assoc_absent(self.children@, data_view(), path[0]); }
                assert(false);
                NanoData::new()
            },
        }
    }

    /// Stores nested data under a dotted key such as `a.b`, replacing what was
    /// there and creating the nested data on the way where it is missing.
    pub fn put_data(&mut self, key: &str, value: NanoData)
        ensures
            final(self)@ == old(self)@.with_data(key_path(key@), value@),
    {
        let keys = Self::split_key(key);
        self.put_data_by_keys(keys.as_slice(), value);
    }

    fn put_data_by_keys(&mut self, keys: &[String], value: NanoData)
        requires
            keys@.len() >= 1,
        ensures
            final(self)@ == old(self)@.with_data(string_views(keys@), value@),
        decreases keys@.len(),
    {
        let ghost path = string_views(keys@);
        let ghost before = self@;
        let ghost value_tree = value@;
        proof { self.lemma_views(); }
        let name = keys[0].clone();
        let ghost entries = self.children@;
        if keys.len() == 1 {
            match find_key(&self.children, &name) {
                Some(i) => {
                    let _ = self.children.remove(i);
                    self.children.insert(i, (name, value));
                    proof {
                        assert(self.children@ =~= entries.update(i as int, (name, value)));
                        lemma_assoc_update(entries, data_view(), i as int, (name, value));
                    }
                },
                None => {
                    self.children.push((name, value));
                    proof { lemma_assoc_push(entries, data_view(), (name, value)); }
                },
            }
            proof {
                self.lemma_views();
                assert(self@.children =~= before.children.insert(path[0], value_tree));
            }
        } else {
            let rest = keys.split_at(1).1;
            assert(string_views(rest@) =~= path.drop_first());
            match find_key(&self.children, &name) {
                Some(i) => {
                    proof { lemma_assoc_lookup(entries, data_view(), path[0], i as int); }
                    let (old_name, mut child) = self.children.remove(i);
                    child.put_data_by_keys(rest, value);
                    self.children.insert(i, (old_name, child));
                    proof {
                        assert(self.children@ =~= entries.update(i as int, (old_name, child)));
                        lemma_assoc_update(entries, data_view(), i as int, (old_name, child));
                    }
                },
                None => {
                    proof { lemma_assoc_absent(entries, data_view(), path[0]); }
                    let mut child = NanoData::new();
                    child.put_data_by_keys(rest, value);
                    self.children.push((name, child));
                    proof { lemma_assoc_push(entries, data_view(), (name, child)); }
                },
            }
            proof {
                self.lemma_views();
                assert(self@.children =~= before.children.insert(
                    path[0], before.child_or_empty(path[0]).with_data(path.drop_first(), value_tree)));
            }
        }
    }
}

impl Clone for NanoData {
    /// A copy of this data, nested data included.
    fn clone(&self) -> (copy: Self)
        ensures
            copy@ == self@,
    {
        self.duplicate()
    }
}

impl Default for NanoData {
    /// Empty data.
    fn default() -> (data: Self)
        ensures
            data@ == NanoTree::empty(),
    {
        NanoData::new()
    }
}

impl View for NanoData {
    type V = NanoTree;

    open spec fn view(&self) -> NanoTree {
        self.tree()
    }
}

} // verus!

verus! {

/// Empty data holds no value at any path.
pub proof fn lemma_empty_has_no_values(path: Seq<Seq<char>>)
    ensures
        NanoTree::empty().value_at(path) is None,
        NanoTree::empty().data_at(path) is None,
{
}

/// The value just stored at a path is found there.
pub proof fn lemma_value_at_with_value(t: NanoTree, path: Seq<Seq<char>>, value: Seq<char>)
    requires
        path.len() >= 1,
    ensures
        t.with_value(path, value).value_at(path) == Some(value),
    decreases path.len(),
{
    if path.len() > 1 {
        lemma_value_at_with_value(t.child_or_empty(path[0]), path.drop_first(), value);
    }
}

/// Storing a value at one path leaves the value at every other path as it was.
pub proof fn lemma_value_at_with_other_value(
    t: NanoTree,
    path: Seq<Seq<char>>,
    other: Seq<Seq<char>>,
    value: Seq<char>,
)
    requires
        path.len() >= 1,
        other != path,
    ensures
        t.with_value(path, value).value_at(other) == t.value_at(other),
    decreases path.len(),
{
    if other.len() == 0 {
    } else if path.len() == 1 {
        if other.len() == 1 {
            assert(other[0] != path[0]) by {
                if other[0] == path[0] {
                    assert(other =~= path);
                }
            }
        }
    } else if other.len() > 1 && other[0] == path[0] {
        assert(other.drop_first() != path.drop_first()) by {
            if other.drop_first() == path.drop_first() {
                assert(other =~= seq![other[0]] + other.drop_first());
                assert(path =~= seq![path[0]] + path.drop_first());
            }
        }
        lemma_value_at_with_other_value(t.child_or_empty(path[0]), path.drop_first(), other.drop_first(), value);
        if !t.children.contains_key(path[0]) {
            lemma_empty_has_no_values(other.drop_first());
        }
    }
}

/// Storing values at two different paths gives the same data in either
/// order.
pub proof fn lemma_with_value_commutes(
    t: NanoTree,
    p1: Seq<Seq<char>>,
    v1: Seq<char>,
    p2: Seq<Seq<char>>,
    v2: Seq<char>,
)
    requires
        p1.len() >= 1,
        p2.len() >= 1,
        p1 != p2,
    ensures
        t.with_value(p1, v1).with_value(p2, v2) == t.with_value(p2, v2).with_value(p1, v1),
    decreases p1.len(),
{
    let a = t.with_value(p1, v1).with_value(p2, v2);
    let b = t.with_value(p2, v2).with_value(p1, v1);
    if p1.len() == 1 && p2.len() == 1 {
        assert(p1[0] != p2[0]) by {
            if p1[0] == p2[0] {
                assert(p1 =~= p2);
            }
        }
        assert(a.values =~= b.values);
        assert(a.children =~= b.children);
    } else if p1.len() == 1 || p2.len() == 1 {
        assert(a.values =~= b.values);
        assert(a.children =~= b.children);
    } else if p1[0] != p2[0] {
        assert(a.values =~= b.values);
        assert(a.children =~= b.children);
    } else {
        let name = p1[0];
        let c = t.child_or_empty(name);
        assert(p1.drop_first() != p2.drop_first()) by {
            if p1.drop_first() == p2.drop_first() {
                assert(p1 =~= seq![p1[0]] + p1.drop_first());
                assert(p2 =~= seq![p2[0]] + p2.drop_first());
            }
        }
        lemma_with_value_commutes(c, p1.drop_first(), v1, p2.drop_first(), v2);
        assert(a.values =~= b.values);
        assert(a.children =~= b.children);
    }
}

/// The data just stored at a path is found there.
pub proof fn lemma_data_at_with_data(t: NanoTree, path: Seq<Seq<char>>, data: NanoTree)
    requires
        path.len() >= 1,
    ensures
        t.with_data(path, data).data_at(path) == Some(data),
    decreases path.len(),
{
    if path.len() > 1 {
        lemma_data_at_with_data(t.child_or_empty(path[0]), path.drop_first(), data);
    }
}

/// After data is stored at a path, the values below that path are the values
/// of the stored data.
pub proof fn lemma_value_below_with_data(
    t: NanoTree,
    path: Seq<Seq<char>>,
    data: NanoTree,
    rest: Seq<Seq<char>>,
)
    requires
        path.len() >= 1,
        rest.len() >= 1,
    ensures
        t.with_data(path, data).value_at(path + rest) == data.value_at(rest),
    decreases path.len(),
{
    let full = path + rest;
    assert(full[0] == path[0]);
    if path.len() == 1 {
        assert(full.drop_first() =~= rest);
    } else {
        assert(full.drop_first() =~= path.drop_first() + rest);
        lemma_value_below_with_data(t.child_or_empty(path[0]), path.drop_first(), data, rest);
    }
}

/// Different keys have different segment lists.
pub proof fn lemma_key_path_injective(a: Seq<char>, b: Seq<char>)
    requires
        a != b,
    ensures
        key_path(a) != key_path(b),
{
    crate::keys::lemma_join_split(a, key_separator());
    crate::keys::lemma_join_split(b, key_separator());
}

/// A key always has at least one segment.
pub proof fn lemma_key_path_nonempty(key: Seq<char>)
    ensures
        key_path(key).len() >= 1,
{
    crate::keys::lemma_split_nonempty(key, key_separator());
}

/// Law: after `put(key, value)`, `get(key)` returns `value`.
pub proof fn law_get_after_put(data: NanoTree, key: Seq<char>, value: Seq<char>)
    ensures
        data.with_value(key_path(key), value).value_at(key_path(key)) == Some(value),
{
    lemma_key_path_nonempty(key);
    lemma_value_at_with_value(data, key_path(key), value);
}

/// Law: `put` under one key changes what no other key returns.
pub proof fn law_put_keeps_other_keys(data: NanoTree, key: Seq<char>, other: Seq<char>, value: Seq<char>)
    requires
        other != key,
    ensures
        data.with_value(key_path(key), value).value_at(key_path(other)) == data.value_at(key_path(other)),
{
    lemma_key_path_nonempty(key);
    lemma_key_path_injective(other, key);
    lemma_value_at_with_other_value(data, key_path(key), key_path(other), value);
}

/// Law: `put` under two different keys gives the same data in either order.
pub proof fn law_puts_to_different_keys_commute(
    data: NanoTree,
    k1: Seq<char>,
    v1: Seq<char>,
    k2: Seq<char>,
    v2: Seq<char>,
)
    requires
        k1 != k2,
    ensures
        data.with_value(key_path(k1), v1).with_value(key_path(k2), v2)
            == data.with_value(key_path(k2), v2).with_value(key_path(k1), v1),
{
    lemma_key_path_nonempty(k1);
    lemma_key_path_nonempty(k2);
    lemma_key_path_injective(k1, k2);
    lemma_with_value_commutes(data, key_path(k1), v1, key_path(k2), v2);
}

/// Law: after `put_data(key, data)`, `get_data(key)` returns a copy of `data`.
pub proof fn law_get_data_after_put_data(data: NanoTree, key: Seq<char>, value: NanoTree)
    ensures
        data.with_data(key_path(key), value).data_at(key_path(key)) == Some(value),
{
    lemma_key_path_nonempty(key);
    lemma_data_at_with_data(data, key_path(key), value);
}

/// Law: after `put_data(key, data)`, `get` of `key` followed by a dot and an
/// inner key returns the inner key's value in `data`.
pub proof fn law_get_below_put_data(data: NanoTree, key: Seq<char>, value: NanoTree, inner: Seq<char>)
    ensures
        data.with_data(key_path(key), value).value_at(key_path(key.push(key_separator()) + inner))
            == value.value_at(key_path(inner)),
{
    lemma_key_path_nonempty(key);
    lemma_key_path_nonempty(inner);
    crate::keys::lemma_split_concat(key, inner, key_separator());
    lemma_value_below_with_data(data, key_path(key), value, key_path(inner));
}

/// Law: new data answers no key.
pub proof fn law_new_is_empty(key: Seq<char>)
    ensures
        NanoTree::empty().value_at(key_path(key)) is None,
        NanoTree::empty().data_at(key_path(key)) is None,
{
}

} // verus!

verus! {

/// Every name of `names`, read as a dotted key, has a string value in `data`.
pub open spec fn all_names_resolved(names: Seq<Seq<char>>, data: NanoTree) -> bool {
    forall|i: int| 0 <= i < names.len() ==> (#[trigger] data.value_at(key_path(names[i]))) is Some
}

/// The string value of each name of `names`, read as a dotted key.
pub open spec fn resolved_values(names: Seq<Seq<char>>, data: NanoTree) -> Seq<Seq<char>> {
    names.map_values(|n: Seq<char>| data.value_at(key_path(n))->0)
}

/// What the nano engine makes of `template`: every placeholder `{key}`
/// replaced by the value of `key` in `data`, the text around it kept.
pub open spec fn nano_output(template: Seq<char>, data: NanoTree) -> Seq<char> {
    interleave(placeholder_split(template), resolved_values(placeholder_names(template), data))
}

/// The pieces of a template with the value of each placeholder name between
/// them: `pieces` and `names` are what splitting the template at its
/// placeholders gives.
pub fn fill_placeholders(pieces: &Vec<String>, names: &Vec<String>, data: &NanoData) -> (out: String)
    requires
        pieces@.len() == names@.len() + 1,
        all_names_resolved(string_views(names@), data@),
    ensures
        out@ == interleave(string_views(pieces@), resolved_values(string_views(names@), data@)),
{
    let mut fills: Vec<String> = Vec::new();
    let mut i: usize = 0;
    while i < names.len()
        invariant
            i <= names.len(),
            all_names_resolved(string_views(names@), data@),
            string_views(fills@) == resolved_values(string_views(names@.take(i as int)), data@),
        decreases names.len() - i,
    {
        let ghost n = string_views(names@)[i as int];
        assert(n == names@[i as int]@);
        assert(data@.value_at(key_path(n)) is Some);
        let value = data.get(names[i].as_str());
        let ghost before = fills@;
        fills.push(value);
        assert(string_views(fills@) =~= string_views(before).push(value@));
        assert(string_views(names@.take(i + 1)) =~= string_views(names@.take(i as int)).push(n));
        i = i + 1;
    }
    assert(names@.take(names@.len() as int) =~= names@);
    assert(string_views(fills@) =~= resolved_values(string_views(names@), data@));
    interleave_strings(pieces, &fills)
}

/// Renders a template: every placeholder `{key}` (a key made of word
/// characters and dots) is replaced by the string value stored under that
/// dotted key in `nanodata`; the rest of the text is kept.
pub fn nano(template: &str, nanodata: NanoData) -> (out: String)
    requires
        all_names_resolved(placeholder_names(template@), nanodata@),
    ensures
        out@ == nano_output(template@, nanodata@),
        placeholder_names(template@).len() == 0 ==> out@ == template@,
{
    let pattern = match PlaceholderPattern::placeholders() {
        Some(p) => p,
        None => {
            assert(false);
            return String::new();
        },
    };
    let pieces = pattern.split(template);
    let names = pattern.names(template);
    let out = fill_placeholders(&pieces, &names, &nanodata);
    proof {
        if placeholder_names(template@).len() == 0 {
            assert(braced_all(string_views(names@)) =~= Seq::<Seq<char>>::empty());
            assert(resolved_values(string_views(names@), nanodata@) =~= Seq::<Seq<char>>::empty());
        }
    }
    out
}

/// Renders a template as [`nano`] does, or gives `None` where a placeholder
/// names a key that has no string value in `nanodata`.
pub fn try_nano(template: &str, nanodata: NanoData) -> (out: Option<String>)
    ensures
        out is Some <==> all_names_resolved(placeholder_names(template@), nanodata@),
        out matches Some(s) ==> s@ == nano_output(template@, nanodata@),
{
    let pattern = match PlaceholderPattern::placeholders() {
        Some(p) => p,
        None => {
            assert(false);
            return None;
        },
    };
    let names = pattern.names(template);
    let mut i: usize = 0;
    while i < names.len()
        invariant
            i <= names.len(),
            string_views(names@) == placeholder_names(template@),
            forall|j: int| 0 <= j < i ==> (#[trigger] nanodata@.value_at(key_path(placeholder_names(template@)[j]))) is Some,
        decreases names.len() - i,
    {
        let ghost n = string_views(names@)[i as int];
        assert(n == names@[i as int]@);
        if nanodata.lookup(names[i].as_str()).is_none() {
            assert(!all_names_resolved(placeholder_names(template@), nanodata@)) by {
                assert(nanodata@.value_at(key_path(placeholder_names(template@)[i as int])) is None);
            }
            return None;
        }
        i = i + 1;
    }
    Some(nano(template, nanodata))
}

} // verus!

verus! {

/// Law: a lookup along a joined path is the lookup of the second part in
/// the nested data that the first part reaches (for values and for nested
/// data): `get_by_keys(p + q)` answers as `get_data_by_keys(p)` followed by
/// `get_by_keys(q)`, and likewise for `get_data_by_keys`.
pub proof fn law_lookup_joined_path(t: NanoTree, p: Seq<Seq<char>>, q: Seq<Seq<char>>)
    requires
        p.len() >= 1,
        q.len() >= 1,
    ensures
        t.value_at(p + q) == match t.data_at(p) {
            Some(d) => d.value_at(q),
            None => None,
        },
        t.data_at(p + q) == match t.data_at(p) {
            Some(d) => d.data_at(q),
            None => None,
        },
    decreases p.len(),
{
    let full = p + q;
    assert(full[0] == p[0]);
    if p.len() == 1 {
        assert(full.drop_first() =~= q);
    } else {
        assert(full.drop_first() =~= p.drop_first() + q);
        if t.children.contains_key(p[0]) {
            law_lookup_joined_path(t.children[p[0]], p.drop_first(), q);
        }
    }
}

/// Law: a second `put` at a path overwrites the first, so repeating a `put`
/// changes nothing more.
pub proof fn law_put_overwrites(t: NanoTree, p: Seq<Seq<char>>, v1: Seq<char>, v2: Seq<char>)
    requires
        p.len() >= 1,
    ensures
        t.with_value(p, v1).with_value(p, v2) == t.with_value(p, v2),
        t.with_value(p, v2).with_value(p, v2) == t.with_value(p, v2),
    decreases p.len(),
{
    let a = t.with_value(p, v1).with_value(p, v2);
    let b = t.with_value(p, v2);
    if p.len() == 1 {
        assert(a.values =~= b.values);
        assert(a.children =~= b.children);
    } else {
        let c = t.child_or_empty(p[0]);
        law_put_overwrites(c, p.drop_first(), v1, v2);
        assert(a.values =~= b.values);
        assert(a.children =~= b.children);
    }
    let a2 = t.with_value(p, v2).with_value(p, v2);
    if p.len() == 1 {
        assert(a2.values =~= b.values);
        assert(a2.children =~= b.children);
    } else {
        assert(a2.values =~= b.values);
        assert(a2.children =~= b.children);
    }
}

/// `q` extends `p` by one segment or more.
pub open spec fn extends(q: Seq<Seq<char>>, p: Seq<Seq<char>>) -> bool {
    q.len() > p.len() && q.take(p.len() as int) == p
}

/// `q` is a prefix of `p` that is shorter than `p` and not empty.
pub open spec fn proper_prefix(q: Seq<Seq<char>>, p: Seq<Seq<char>>) -> bool {
    1 <= q.len() < p.len() && p.take(q.len() as int) == q
}

proof fn lemma_prefix_step(q: Seq<Seq<char>>, p: Seq<Seq<char>>)
    requires
        q.len() >= 1,
        p.len() >= 1,
        q[0] == p[0],
    ensures
        extends(q, p) <==> extends(q.drop_first(), p.drop_first()),
        q.len() >= 2 ==> (proper_prefix(q, p) <==> proper_prefix(q.drop_first(), p.drop_first())),
        q == p <==> q.drop_first() == p.drop_first(),
{
    if extends(q, p) {
        assert(q.drop_first().take(p.len() - 1) =~= p.drop_first()) by {
            assert forall|i: int| 0 <= i < p.len() - 1 implies q.drop_first().take(p.len() - 1)[i] == p.drop_first()[i] by {
                assert(q.take(p.len() as int)[i + 1] == p[i + 1]);
            }
        }
    }
    if extends(q.drop_first(), p.drop_first()) {
        assert(q.take(p.len() as int) =~= p) by {
            assert forall|i: int| 0 <= i < p.len() implies q.take(p.len() as int)[i] == p[i] by {
                if i > 0 {
                    assert(q.drop_first().take(p.len() - 1)[i - 1] == p.drop_first()[i - 1]);
                }
            }
        }
    }
    if q.len() >= 2 && proper_prefix(q, p) {
        assert(p.drop_first().take(q.len() - 1) =~= q.drop_first()) by {
            assert forall|i: int| 0 <= i < q.len() - 1 implies p.drop_first().take(q.len() - 1)[i] == q.drop_first()[i] by {
                assert(p.take(q.len() as int)[i + 1] == q[i + 1]);
            }
        }
    }
    if q.len() >= 2 && proper_prefix(q.drop_first(), p.drop_first()) {
        assert(p.take(q.len() as int) =~= q) by {
            assert forall|i: int| 0 <= i < q.len() implies p.take(q.len() as int)[i] == q[i] by {
                if i > 0 {
                    assert(p.drop_first().take(q.len() - 1)[i - 1] == q.drop_first()[i - 1]);
                }
            }
        }
    }
    if q.drop_first() == p.drop_first() {
        assert(q =~= seq![q[0]] + q.drop_first());
        assert(p =~= seq![p[0]] + p.drop_first());
    }
}

/// Law: `put_data` keeps every value outside the stored data: the value at
/// any path that does not extend the stored path (the stored path itself
/// included, values and nested data being apart) is as it was.
pub proof fn law_put_data_keeps_values(t: NanoTree, p: Seq<Seq<char>>, d: NanoTree, q: Seq<Seq<char>>)
    requires
        p.len() >= 1,
        q.len() >= 1,
        !extends(q, p),
    ensures
        t.with_data(p, d).value_at(q) == t.value_at(q),
    decreases p.len(),
{
    if q.len() > 1 && p.len() > 1 && q[0] == p[0] {
        lemma_prefix_step(q, p);
        law_put_data_keeps_values(t.child_or_empty(p[0]), p.drop_first(), d, q.drop_first());
        if !t.children.contains_key(p[0]) {
            lemma_empty_has_no_values(q.drop_first());
        }
    } else if q.len() > 1 && p.len() == 1 && q[0] == p[0] {
        assert(q.take(1) =~= p);
    }
}

/// Law: `put` makes every shorter prefix of its path lead to nested data,
/// creating what is missing, and leaves the nested data at every other path
/// as it was.
pub proof fn law_put_makes_prefixes(t: NanoTree, p: Seq<Seq<char>>, v: Seq<char>, q: Seq<Seq<char>>)
    requires
        p.len() >= 1,
        q.len() >= 1,
    ensures
        proper_prefix(q, p) ==> t.with_value(p, v).data_at(q) is Some,
        !proper_prefix(q, p) ==> t.with_value(p, v).data_at(q) == t.data_at(q),
    decreases p.len(),
{
    if p.len() == 1 {
    } else if q[0] != p[0] {
        assert(!proper_prefix(q, p)) by {
            if proper_prefix(q, p) {
                assert(p.take(q.len() as int)[0] == q[0]);
            }
        }
    } else if q.len() == 1 {
        assert(proper_prefix(q, p)) by {
            assert(p.take(1) =~= q);
        }
    } else {
        lemma_prefix_step(q, p);
        law_put_makes_prefixes(t.child_or_empty(p[0]), p.drop_first(), v, q.drop_first());
        if !t.children.contains_key(p[0]) {
            lemma_empty_has_no_values(q.drop_first());
        }
    }
}

/// Law: `put_data` makes every shorter prefix of its path lead to nested
/// data, creating what is missing, and leaves the nested data at every path
/// that is neither a prefix of its path nor an extension of it as it was.
pub proof fn law_put_data_makes_prefixes(t: NanoTree, p: Seq<Seq<char>>, d: NanoTree, q: Seq<Seq<char>>)
    requires
        p.len() >= 1,
        q.len() >= 1,
    ensures
        proper_prefix(q, p) ==> t.with_data(p, d).data_at(q) is Some,
        !proper_prefix(q, p) && q != p && !extends(q, p) ==> t.with_data(p, d).data_at(q) == t.data_at(q),
    decreases p.len(),
{
    if p.len() == 1 {
        if q[0] == p[0] && q.len() > 1 {
            assert(q.take(1) =~= p);
        }
        if q.len() == 1 && q[0] == p[0] {
            assert(q =~= p);
        }
    } else if q[0] != p[0] {
        assert(!proper_prefix(q, p)) by {
            if proper_prefix(q, p) {
                assert(p.take(q.len() as int)[0] == q[0]);
            }
        }
    } else if q.len() == 1 {
        assert(proper_prefix(q, p)) by {
            assert(p.take(1) =~= q);
        }
    } else {
        lemma_prefix_step(q, p);
        law_put_data_makes_prefixes(t.child_or_empty(p[0]), p.drop_first(), d, q.drop_first());
        if !t.children.contains_key(p[0]) {
            lemma_empty_has_no_values(q.drop_first());
        }
    }
}

} // verus!
