//! The normalized form of `package.json`'s `exports`-like fields.

use vstd::prelude::*;
use crate::text::has_char;

verus! {

/// A filename, or a map of condition names to filenames or further maps.
/// A map is a list of entries whose keys are distinct; lookups take the
/// first entry with a key.
#[derive(Debug, PartialEq)]
pub enum FilenameOrConditional {
    /// A single entrypoint path, relative to the package root.
    Filename(String),
    /// Condition names (`import`, `require`, `default`, ...) to values.
    Conditional(Vec<(String, FilenameOrConditional)>),
}

/// The value of an `exports` field, or of `main`, `module`, `browser`,
/// `types`, after normalization.
#[derive(Debug, PartialEq)]
pub enum ExportsLikeField {
    /// A single entrypoint path, relative to the package root.
    Filename(String),
    /// Subpath keys, normalized to `<package name><tail>`, to values.
    Subpaths(Vec<(String, FilenameOrConditional)>),
    /// Condition names to values.
    Conditional(Vec<(String, FilenameOrConditional)>),
}

/// The value of one entry of `peerDependenciesMeta`.
#[derive(Clone, Debug, PartialEq)]
pub struct PeerDependencyMeta {
    /// Whether the peer dependency is optional.
    pub optional: bool,
}

/// The index of the first entry whose key is `k`, or -1.
pub open spec fn key_index_from(es: Seq<(String, FilenameOrConditional)>, k: Seq<char>, i: int) -> int
    decreases es.len() - i,
{
    if i < 0 || i >= es.len() {
        -1
    } else if es[i].0@ == k {
        i
    } else {
        key_index_from(es, k, i + 1)
    }
}

pub open spec fn key_index(es: Seq<(String, FilenameOrConditional)>, k: Seq<char>) -> int {
    key_index_from(es, k, 0)
}

pub proof fn lemma_key_index_from(es: Seq<(String, FilenameOrConditional)>, k: Seq<char>, i: int)
    requires
        0 <= i,
    ensures
        -1 <= key_index_from(es, k, i) < es.len(),
        key_index_from(es, k, i) >= 0 ==> i <= key_index_from(es, k, i)
            && es[key_index_from(es, k, i)].0@ == k,
        key_index_from(es, k, i) == -1 ==> forall|j: int| i <= j < es.len() ==> es[j].0@ != k,
        key_index_from(es, k, i) >= 0 ==> forall|j: int|
            i <= j < key_index_from(es, k, i) ==> es[j].0@ != k,
    decreases es.len() - i,
{
    if i < es.len() && es[i].0@ != k {
        lemma_key_index_from(es, k, i + 1);
    }
}

/// Some filename in the value holds a `*`.
pub open spec fn value_has_star(v: FilenameOrConditional) -> bool
    decreases v,
{
    match v {
        FilenameOrConditional::Filename(f) => has_char(f@, '*'),
        FilenameOrConditional::Conditional(m) => entries_have_star(m@),
    }
}

/// Some filename in the entries' values holds a `*`.
pub open spec fn entries_have_star(es: Seq<(String, FilenameOrConditional)>) -> bool
    decreases es,
{
    if es.len() == 0 {
        false
    } else {
        value_has_star(es[es.len() - 1].1) || entries_have_star(es.subrange(0, es.len() - 1))
    }
}

/// Look up `k` in the entries.
pub fn get_entry<'a>(es: &'a Vec<(String, FilenameOrConditional)>, k: &str) -> (r: Option<&'a FilenameOrConditional>)
    ensures
        key_index(es@, k@) < 0 ==> r is None,
        key_index(es@, k@) >= 0 ==> r == Some(&es@[key_index(es@, k@)].1),
{
    let mut i: usize = 0;
    while i < es.len()
        invariant
            i <= es@.len(),
            key_index(es@, k@) == key_index_from(es@, k@, i as int),
        decreases es@.len() - i,
    {
        if crate::text::str_eq(es[i].0.as_str(), k) {
            return Some(&es[i].1);
        }
        i += 1;
    }
    None
}


/// The index of the entry with key `k`.
pub fn get_entry_index(es: &Vec<(String, FilenameOrConditional)>, k: &str) -> (r: Option<usize>)
    ensures
        key_index(es@, k@) < 0 ==> r is None,
        key_index(es@, k@) >= 0 ==> r is Some && r->0 as int == key_index(es@, k@),
{
    let mut i: usize = 0;
    while i < es.len()
        invariant
            i <= es@.len(),
            key_index(es@, k@) == key_index_from(es@, k@, i as int),
        decreases es@.len() - i,
    {
        if crate::text::str_eq(es[i].0.as_str(), k) {
            return Some(i);
        }
        i += 1;
    }
    None
}

} // verus!
