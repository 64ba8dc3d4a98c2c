//! Template values: a string, or a map from names to further values. A
//! placeholder `{a.b}` walks the maps along its dotted key.

use vstd::prelude::*;
use crate::assoc::{
    assoc_map, find_key, lemma_assoc_absent, lemma_assoc_lookup, lemma_assoc_push,
    lemma_assoc_update,
};
use crate::keys::{key_path, split_dotted};
use crate::text::string_views;
use crate::placeholder::{
    braced_all, interleave, interleave_strings, placeholder_names, placeholder_split,
    PlaceholderPattern,
};

verus! {

/// The abstract content of a [`TemplateValue`].
pub enum TemplateTree {
    Text(Seq<char>),
    Table(Map<Seq<char>, TemplateTree>),
}

/// A value to fill templates with: a string, or named values.
#[derive(Debug)]
pub enum TemplateValue {
    String(String),
    Table(TemplateTable),
}

/// Named values: each name holds one value, a later insert under a name
/// replacing the earlier one.
#[derive(Debug)]
pub struct TemplateTable {
    entries: Vec<(String, TemplateValue)>,
}

/// How a named value is seen: as its abstract content.
pub open spec fn template_view() -> spec_fn(TemplateValue) -> TemplateTree {
    |v: TemplateValue| v.tree()
}

impl TemplateValue {
    /// The abstract content of this value: a string is its text, a table is
    /// the map of its names to the content of their values.
    pub open spec fn tree(&self) -> TemplateTree
        decreases self,
    {
        match self {
            TemplateValue::String(s) => TemplateTree::Text(s@),
            TemplateValue::Table(t) => TemplateTree::Table(t.map_view()),
        }
    }
}

impl TemplateTable {
    /// The names of the table and the content of their values.
    pub closed spec fn map_view(&self) -> Map<Seq<char>, TemplateTree>
        decreases self,
    {
        Self::table(self.entries@)
    }

    closed spec fn table(entries: Seq<(String, TemplateValue)>) -> Map<Seq<char>, TemplateTree>
        decreases entries,
    {
        if entries.len() == 0 {
            Map::empty()
        } else {
            Self::table(entries.drop_first()).insert(entries[0].0@, entries[0].1.tree())
        }
    }

    proof fn lemma_table(entries: Seq<(String, TemplateValue)>)
        ensures
            Self::table(entries) == assoc_map(entries, template_view()),
        decreases entries.len(),
    {
        if entries.len() > 0 {
            Self::lemma_table(entries.drop_first());
        }
    }

    /// A table with no names.
    pub fn new() -> (table: TemplateTable)
        ensures
            table.map_view() == Map::<Seq<char>, TemplateTree>::empty(),
    {
        let table = TemplateTable { entries: Vec::new() };
        proof {
            Self::lemma_table(table.entries@);
            assert(table.map_view() =~= Map::<Seq<char>, TemplateTree>::empty());
        }
        table
    }

    /// Stores `value` under `name`, replacing the value that was there.
    pub fn insert(&mut self, name: String, value: TemplateValue)
        ensures
            final(self).map_view() == old(self).map_view().insert(name@, value@),
    {
        let ghost before = self.entries@;
        proof { Self::lemma_table(before); }
        match find_key(&self.entries, &name) {
            Some(i) => {
                let _ = self.entries.remove(i);
                self.entries.insert(i, (name, value));
                proof {
                    assert(self.entries@ =~= before.update(i as int, (name, value)));
                    lemma_assoc_update(before, template_view(), i as int, (name, value));
                }
            },
            None => {
                self.entries.push((name, value));
                proof { lemma_assoc_push(before, template_view(), (name, value)); }
            },
        }
        proof { Self::lemma_table(self.entries@); }
    }
}

impl View for TemplateValue {
    type V = TemplateTree;

    open spec fn view(&self) -> TemplateTree {
        self.tree()
    }
}

impl View for TemplateTable {
    type V = Map<Seq<char>, TemplateTree>;

    open spec fn view(&self) -> Map<Seq<char>, TemplateTree> {
        self.map_view()
    }
}

/// What a placeholder whose key has the segments `keys` stands for in
/// `value`, or `None` where a segment names nothing. A string is the answer
/// wherever it is reached, whatever segments are left; a map reached with no
/// segments left gives the empty string.
pub open spec fn resolve(value: TemplateTree, keys: Seq<Seq<char>>) -> Option<Seq<char>>
    decreases keys.len(),
{
    match value {
        TemplateTree::Text(s) => Some(s),
        TemplateTree::Table(m) => {
            if keys.len() == 0 {
                Some(Seq::<char>::empty())
            } else if !m.contains_key(keys[0]) {
                None
            } else {
                resolve(m[keys[0]], keys.drop_first())
            }
        },
    }
}

/// Law: a string answers every key, whatever segments it has.
pub proof fn law_resolve_text(s: Seq<char>, keys: Seq<Seq<char>>)
    ensures
        resolve(TemplateTree::Text(s), keys) == Some(s),
{
}

/// Law: a table reached with no segments left gives the empty string.
pub proof fn law_resolve_table_without_segments(m: Map<Seq<char>, TemplateTree>)
    ensures
        resolve(TemplateTree::Table(m), Seq::<Seq<char>>::empty()) == Some(Seq::<char>::empty()),
{
}

/// Law: in a table, a key whose first segment the table does not hold
/// resolves to nothing, and a key whose first segment is the name `k` that
/// the table holds resolves as the remaining segments do in the value under
/// `k`, at every depth.
pub proof fn law_resolve_step(m: Map<Seq<char>, TemplateTree>, k: Seq<char>, rest: Seq<Seq<char>>)
    ensures
        m.contains_key(k) ==> resolve(TemplateTree::Table(m), seq![k] + rest) == resolve(m[k], rest),
        !m.contains_key(k) ==> resolve(TemplateTree::Table(m), seq![k] + rest) is None,
{
    assert((seq![k] + rest)[0] == k);
    assert((seq![k] + rest).drop_first() =~= rest);
}

/// The value reached by walking `path` through tables only: every segment
/// names a value in a table, and every value passed on the way is a table.
pub open spec fn walk_tables(value: TemplateTree, path: Seq<Seq<char>>) -> Option<TemplateTree>
    decreases path.len(),
{
    if path.len() == 0 {
        Some(value)
    } else {
        match value {
            TemplateTree::Table(m) => {
                if m.contains_key(path[0]) {
                    walk_tables(m[path[0]], path.drop_first())
                } else {
                    None
                }
            },
            TemplateTree::Text(_) => None,
        }
    }
}

/// Law: resolving a joined key `p + q` whose first part `p` walks through
/// tables to a value `v` is resolving `q` in `v`.
pub proof fn law_resolve_joined(value: TemplateTree, p: Seq<Seq<char>>, q: Seq<Seq<char>>)
    requires
        walk_tables(value, p) is Some,
    ensures
        resolve(value, p + q) == resolve(walk_tables(value, p)->0, q),
    decreases p.len(),
{
    if p.len() == 0 {
        assert(p + q =~= q);
    } else {
        let m = value->Table_0;
        law_resolve_step(m, p[0], p.drop_first() + q);
        assert(p + q =~= seq![p[0]] + (p.drop_first() + q));
        law_resolve_joined(m[p[0]], p.drop_first(), q);
    }
}

/// The text that the placeholder `{name}` stands for in `data`, or `None`
/// where its key walks into a name that the map does not hold.
pub fn resolve_placeholder(data: &TemplateValue, name: &str) -> (out: Option<String>)
    ensures
        match out {
            Some(s) => resolve(data@, key_path(name@)) == Some(s@),
            None => resolve(data@, key_path(name@)) is None,
        },
{
    let keys = split_dotted(name);
    let ghost path = key_path(name@);
    let mut current: &TemplateValue = data;
    let mut i: usize = 0;
    assert(path.skip(0) =~= path);
    while i < keys.len()
        invariant
            i <= keys.len(),
            string_views(keys@) == path,
            path == key_path(name@),
            resolve(data@, path) == resolve(current@, path.skip(i as int)),
        decreases keys.len() - i,
    {
        match current {
            TemplateValue::String(s) => {
                assert(current@ == TemplateTree::Text(s@));
                return Some(s.clone());
            },
            TemplateValue::Table(table) => {
                let entries = &table.entries;
                let ghost rest = path.skip(i as int);
                assert(current@ == TemplateTree::Table(TemplateTable::table(entries@)));
                assert(rest.len() > 0);
                assert(rest[0] == keys@[i as int]@);
                assert(rest.drop_first() =~= path.skip(i + 1));
                proof { TemplateTable::lemma_table(entries@); }
                match find_key(entries, &keys[i]) {
                    Some(j) => {
                        proof { lemma_assoc_lookup(entries@, template_view(), rest[0], j as int); }
                        current = &entries[j].1;
                    },
                    None => {
                        proof { lemma_assoc_absent(entries@, template_view(), rest[0]); }
                        assert(resolve(current@, rest) is None);
                        return None;
                    },
                }
            },
        }
        i = i + 1;
    }
    assert(path.skip(keys.len() as int) =~= Seq::<Seq<char>>::empty());
    match current {
        TemplateValue::String(s) => Some(s.clone()),
        TemplateValue::Table(_) => Some(String::new()),
    }
}

/// Every placeholder name of `names` resolves in `data`.
pub open spec fn all_resolvable(names: Seq<Seq<char>>, data: TemplateTree) -> bool {
    forall|i: int| 0 <= i < names.len() ==> (#[trigger] resolve(data, key_path(names[i]))) is Some
}

/// What each placeholder name of `names` resolves to in `data`.
pub open spec fn resolved_texts(names: Seq<Seq<char>>, data: TemplateTree) -> Seq<Seq<char>> {
    names.map_values(|n: Seq<char>| resolve(data, key_path(n))->0)
}

/// What templating makes of `template`: every placeholder replaced by what
/// its key resolves to in `data`, the text around it kept.
pub open spec fn templating_output(template: Seq<char>, data: TemplateTree) -> Seq<char> {
    interleave(placeholder_split(template), resolved_texts(placeholder_names(template), data))
}

/// The pieces of a template with what each placeholder name resolves to
/// between them: `pieces` and `names` are what splitting the template at its
/// placeholders gives.
pub fn fill_template(pieces: &Vec<String>, names: &Vec<String>, data: &TemplateValue) -> (out: String)
    requires
        pieces@.len() == names@.len() + 1,
        all_resolvable(string_views(names@), data@),
    ensures
        out@ == interleave(string_views(pieces@), resolved_texts(string_views(names@), data@)),
{
    let mut fills: Vec<String> = Vec::new();
    let mut i: usize = 0;
    while i < names.len()
        invariant
            i <= names.len(),
            all_resolvable(string_views(names@), data@),
            string_views(fills@) == resolved_texts(string_views(names@.take(i as int)), data@),
        decreases names.len() - i,
    {
        let ghost n = string_views(names@)[i as int];
        assert(n == names@[i as int]@);
        assert(resolve(data@, key_path(n)) is Some);
        let value = match resolve_placeholder(data, names[i].as_str()) {
            Some(v) => v,
            None => {
                assert(false);
                String::new()
            },
        };
        let ghost before = fills@;
        fills.push(value);
        assert(string_views(fills@) =~= string_views(before).push(value@));
        assert(string_views(names@.take(i + 1)) =~= string_views(names@.take(i as int)).push(n));
        i = i + 1;
    }
    assert(names@.take(names@.len() as int) =~= names@);
    assert(string_views(fills@) =~= resolved_texts(string_views(names@), data@));
    interleave_strings(pieces, &fills)
}

/// Fills a template: every placeholder `{key}` is replaced by the string that
/// the dotted key reaches in `data`, walking its maps one segment at a time.
pub fn templating(template: String, data: TemplateValue) -> (out: String)
    requires
        all_resolvable(placeholder_names(template@), data@),
    ensures
        out@ == templating_output(template@, data@),
        placeholder_names(template@).len() == 0 ==> out@ == template@,
{
    let pattern = match PlaceholderPattern::placeholders() {
        Some(p) => p,
        None => {
            assert(false);
            return String::new();
        },
    };
    let pieces = pattern.split(template.as_str());
    let names = pattern.names(template.as_str());
    let out = fill_template(&pieces, &names, &data);
    proof {
        if placeholder_names(template@).len() == 0 {
            assert(braced_all(string_views(names@)) =~= Seq::<Seq<char>>::empty());
            assert(resolved_texts(string_views(names@), data@) =~= Seq::<Seq<char>>::empty());
        }
    }
    out
}

/// Fills a template as [`templating`] does, or gives `None` where a
/// placeholder's key walks into a name that a map does not hold.
pub fn try_templating(template: String, data: TemplateValue) -> (out: Option<String>)
    ensures
        out is Some <==> all_resolvable(placeholder_names(template@), data@),
        out matches Some(s) ==> s@ == templating_output(template@, data@),
{
    let pattern = match PlaceholderPattern::placeholders() {
        Some(p) => p,
        None => {
            assert(false);
            return None;
        },
    };
    let names = pattern.names(template.as_str());
    let mut i: usize = 0;
    while i < names.len()
        invariant
            i <= names.len(),
            string_views(names@) == placeholder_names(template@),
            forall|j: int| 0 <= j < i ==> (#[trigger] resolve(data@, key_path(placeholder_names(template@)[j]))) is Some,
        decreases names.len() - i,
    {
        let ghost n = string_views(names@)[i as int];
        assert(n == names@[i as int]@);
        if resolve_placeholder(&data, names[i].as_str()).is_none() {
            assert(!all_resolvable(placeholder_names(template@), data@)) by {
                assert(resolve(data@, key_path(placeholder_names(template@)[i as int])) is None);
            }
            return None;
        }
        i = i + 1;
    }
    Some(templating(template, data))
}

} // verus!
