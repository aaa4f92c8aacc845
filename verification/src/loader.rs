//! The tree loader's accumulation: an insertion-ordered map from source
//! path to parsed schema file.  Lookup is by path, but generation order is
//! first-seen order, so the map is an ordered associative container — an
//! insertion-ordered sequence of entries with key lookup — rather than a
//! plain hash map.  Walking the directory tree and parsing file contents
//! happen outside the verified core; this module takes the per-path parse
//! outcomes and builds the model map, skipping the failures so that one
//! malformed file never blocks generation for the rest of the corpus.

use vstd::prelude::*;
use crate::schema::VppJsApiFile;
use crate::strutil::str_eq;

verus! {

/// The insertion-ordered map from source path to schema file.
pub struct ApiFileMap {
    entries: Vec<(String, VppJsApiFile)>,
}

/// The entries of the map, in insertion order, as (path, file) pairs.
pub closed spec fn map_entries(m: ApiFileMap) -> Seq<(Seq<char>, VppJsApiFile)> {
    m.entries@.map_values(|p: (String, VppJsApiFile)| (p.0@, p.1))
}

/// The first value bound to a key, if any; keys are unique, so the first
/// binding is the only one.
pub open spec fn spec_map_lookup(
    entries: Seq<(Seq<char>, VppJsApiFile)>,
    k: Seq<char>,
) -> Option<VppJsApiFile>
    decreases entries.len(),
{
    if entries.len() == 0 {
        None
    } else if entries[0].0 == k {
        Some(entries[0].1)
    } else {
        spec_map_lookup(entries.drop_first(), k)
    }
}

/// The entries with a binding worked in: an existing key keeps its
/// first-seen position and has its value replaced, a new key is appended.
pub open spec fn spec_map_insert(
    entries: Seq<(Seq<char>, VppJsApiFile)>,
    k: Seq<char>,
    v: VppJsApiFile,
) -> Seq<(Seq<char>, VppJsApiFile)>
    decreases entries.len(),
{
    if entries.len() == 0 {
        seq![(k, v)]
    } else if entries[0].0 == k {
        seq![(k, v)] + entries.drop_first()
    } else {
        seq![entries[0]] + spec_map_insert(entries.drop_first(), k, v)
    }
}

impl ApiFileMap {
    /// An empty map.
    pub fn new() -> (r: ApiFileMap)
        ensures
            map_entries(r) == Seq::<(Seq<char>, VppJsApiFile)>::empty(),
    {
        let r = ApiFileMap { entries: Vec::new() };
        proof {
            assert(map_entries(r) =~= Seq::<(Seq<char>, VppJsApiFile)>::empty());
        }
        r
    }

    /// How many files the map holds.
    pub fn len(&self) -> (r: usize)
        ensures
            r == map_entries(*self).len(),
    {
        proof {
            assert(map_entries(*self).len() == self.entries@.len());
        }
        self.entries.len()
    }

    /// Binds a path to its parsed file, preserving first-seen order.
    pub fn insert(&mut self, path: String, file: VppJsApiFile)
        ensures
            map_entries(*final(self)) == spec_map_insert(
                map_entries(*old(self)),
                path@,
                file,
            ),
    {
        let ghost entries0 = map_entries(*old(self));
        let n = self.entries.len();
        let mut i: usize = 0;
        proof {
            assert(entries0.len() == n);
        }
        while i < n
            invariant
                0 <= i <= n,
                n == self.entries@.len(),
                entries0.len() == n,
                *self == *old(self),
                entries0 == map_entries(*self),
                forall|j: int| 0 <= j < i ==> entries0[j].0 != path@,
            decreases n - i,
        {
            assert(entries0[i as int] == (self.entries@[i as int].0@, self.entries@[i as int].1));
            if str_eq(self.entries[i].0.as_str(), path.as_str()) {
                self.entries.set(i, (path, file));
                proof {
                    lemma_map_insert_at(entries0, path@, file, i as int);
                    assert(map_entries(*self) =~= spec_map_insert(entries0, path@, file));
                }
                return;
            }
            i += 1;
        }
        self.entries.push((path, file));
        proof {
            lemma_map_insert_fresh(entries0, path@, file);
            assert(map_entries(*self) =~= spec_map_insert(entries0, path@, file));
        }
    }

    /// Looks a file up by its path.
    pub fn get(&self, path: &str) -> (r: Option<&VppJsApiFile>)
        ensures
            match r {
                Some(f) => spec_map_lookup(map_entries(*self), path@) == Some(*f),
                None => spec_map_lookup(map_entries(*self), path@) is None,
            },
    {
        let ghost entries0 = map_entries(*self);
        let n = self.entries.len();
        let mut i: usize = 0;
        proof {
            assert(entries0.subrange(0, n as int) =~= entries0);
        }
        while i < n
            invariant
                0 <= i <= n,
                n == self.entries@.len(),
                entries0.len() == n,
                entries0 == map_entries(*self),
                forall|j: int| 0 <= j < i ==> entries0[j].0 != path@,
                spec_map_lookup(entries0, path@) == spec_map_lookup(
                    entries0.subrange(i as int, n as int),
                    path@,
                ),
            decreases n - i,
        {
            let ghost rem = entries0.subrange(i as int, n as int);
            assert(rem.drop_first() =~= entries0.subrange(i + 1, n as int));
            assert(entries0[i as int] == (self.entries@[i as int].0@, self.entries@[i as int].1));
            if str_eq(self.entries[i].0.as_str(), path) {
                assert(rem[0].0 == path@);
                return Some(&self.entries[i].1);
            }
            assert(rem[0].0 != path@);
            i += 1;
        }
        assert(entries0.subrange(n as int, n as int) =~= Seq::<(Seq<char>, VppJsApiFile)>::empty());
        None
    }

    /// The path at a position, in insertion order.
    pub fn key_at(&self, i: usize) -> (r: &String)
        requires
            i < map_entries(*self).len(),
        ensures
            r@ == map_entries(*self)[i as int].0,
    {
        proof {
            assert(map_entries(*self).len() == self.entries@.len());
            assert(map_entries(*self)[i as int] == (
                self.entries@[i as int].0@,
                self.entries@[i as int].1,
            ));
        }
        &self.entries[i].0
    }

    /// The file at a position, in insertion order.
    pub fn file_at(&self, i: usize) -> (r: &VppJsApiFile)
        requires
            i < map_entries(*self).len(),
        ensures
            *r == map_entries(*self)[i as int].1,
    {
        proof {
            assert(map_entries(*self).len() == self.entries@.len());
            assert(map_entries(*self)[i as int] == (
                self.entries@[i as int].0@,
                self.entries@[i as int].1,
            ));
        }
        &self.entries[i].1
    }

    /// Takes the entries out of the map, in insertion order.
    pub fn into_entries(self) -> (r: Vec<(String, VppJsApiFile)>)
        ensures
            r@.map_values(|p: (String, VppJsApiFile)| (p.0@, p.1)) == map_entries(self),
    {
        self.entries
    }
}

proof fn lemma_map_insert_at(
    entries: Seq<(Seq<char>, VppJsApiFile)>,
    k: Seq<char>,
    v: VppJsApiFile,
    i: int,
)
    requires
        0 <= i < entries.len(),
        entries[i].0 == k,
        forall|j: int| 0 <= j < i ==> entries[j].0 != k,
    ensures
        spec_map_insert(entries, k, v) == entries.update(i, (k, v)),
    decreases i,
{
    if i == 0 {
        assert(spec_map_insert(entries, k, v) =~= entries.update(0, (k, v)));
    } else {
        lemma_map_insert_at(entries.drop_first(), k, v, i - 1);
        assert(entries.drop_first().update(i - 1, (k, v)) =~= entries.update(
            i,
            (k, v),
        ).drop_first());
        assert(spec_map_insert(entries, k, v) =~= entries.update(i, (k, v)));
    }
}

proof fn lemma_map_insert_fresh(
    entries: Seq<(Seq<char>, VppJsApiFile)>,
    k: Seq<char>,
    v: VppJsApiFile,
)
    requires
        forall|j: int| 0 <= j < entries.len() ==> entries[j].0 != k,
    ensures
        spec_map_insert(entries, k, v) == entries.push((k, v)),
    decreases entries.len(),
{
    if entries.len() == 0 {
        assert(spec_map_insert(entries, k, v) =~= entries.push((k, v)));
    } else {
        lemma_map_insert_fresh(entries.drop_first(), k, v);
        assert(seq![entries[0]] + entries.drop_first().push((k, v)) =~= entries.push((k, v)));
    }
}

/// One visited file as the walk hands it over: its path, and its parsed
/// model where parsing succeeded.
pub open spec fn outcome_view(
    entries: Seq<(String, Option<VppJsApiFile>)>,
) -> Seq<(Seq<char>, Option<VppJsApiFile>)> {
    entries.map_values(|p: (String, Option<VppJsApiFile>)| (p.0@, p.1))
}

/// The model map that folding the outcomes into an accumulator leaves:
/// parse successes inserted in order, failures skipped.
pub open spec fn spec_load_fold(
    acc: Seq<(Seq<char>, VppJsApiFile)>,
    entries: Seq<(Seq<char>, Option<VppJsApiFile>)>,
) -> Seq<(Seq<char>, VppJsApiFile)>
    decreases entries.len(),
{
    if entries.len() == 0 {
        acc
    } else {
        match entries[0].1 {
            Some(f) => spec_load_fold(spec_map_insert(acc, entries[0].0, f), entries.drop_first()),
            None => spec_load_fold(acc, entries.drop_first()),
        }
    }
}

/// The paths whose parse failed, in walk order.
pub open spec fn spec_failed_paths(
    entries: Seq<(Seq<char>, Option<VppJsApiFile>)>,
) -> Seq<Seq<char>>
    decreases entries.len(),
{
    if entries.len() == 0 {
        Seq::empty()
    } else {
        match entries[0].1 {
            Some(_) => spec_failed_paths(entries.drop_first()),
            None => seq![entries[0].0] + spec_failed_paths(entries.drop_first()),
        }
    }
}

/// Builds the model map from per-path parse outcomes: every parse success
/// is inserted keyed by its path in first-seen order, and every failure is
/// returned so the caller can report it without aborting the run.
pub fn build_file_map(entries: Vec<(String, Option<VppJsApiFile>)>) -> (r: (ApiFileMap, Vec<
    String,
>))
    ensures
        map_entries(r.0) == spec_load_fold(
            Seq::<(Seq<char>, VppJsApiFile)>::empty(),
            outcome_view(entries@),
        ),
        r.1@.map_values(|p: String| p@) == spec_failed_paths(outcome_view(entries@)),
{
    let ghost all = outcome_view(entries@);
    let mut map = ApiFileMap::new();
    let mut failed: Vec<String> = Vec::new();
    let mut rest = entries;
    while rest.len() > 0
        invariant
            spec_load_fold(Seq::<(Seq<char>, VppJsApiFile)>::empty(), all) == spec_load_fold(
                map_entries(map),
                outcome_view(rest@),
            ),
            spec_failed_paths(all) == failed@.map_values(|p: String| p@) + spec_failed_paths(
                outcome_view(rest@),
            ),
        decreases rest@.len(),
    {
        let ghost pre = outcome_view(rest@);
        let (path, outcome) = rest.remove(0);
        assert(outcome_view(rest@) =~= pre.drop_first());
        assert(pre[0] == (path@, outcome));
        match outcome {
            Some(file) => {
                map.insert(path, file);
            },
            None => {
                failed.push(path);
                assert(failed@.map_values(|p: String| p@) + spec_failed_paths(outcome_view(rest@))
                    =~= spec_failed_paths(all));
            },
        }
    }
    assert(outcome_view(rest@) =~= Seq::<(Seq<char>, Option<VppJsApiFile>)>::empty());
    assert(failed@.map_values(|p: String| p@) + Seq::<Seq<char>>::empty() =~= failed@.map_values(
        |p: String| p@,
    ));
    (map, failed)
}

} // verus!
