//! The subpath matcher and condition selection stated over normalized
//! shapes, and their agreement with the statements over stored entries.

use vstd::prelude::*;
use crate::exports_resolver::{best_wildcard_from, export_target, match_spec, select_in, star_pos};
use crate::normalize::{entries_tree, lemma_entries_tree, tree_of, tree_key_from, ExportTree};
use crate::package_json::{entries_have_star, key_index, key_index_from, value_has_star, FilenameOrConditional};
use crate::text::has_char;
use crate::wildcard::{substitute, wildcard_match};

verus! {

/// Some filename in the shape holds a `*`.
pub open spec fn tree_has_star(t: ExportTree) -> bool
    decreases t,
{
    match t {
        ExportTree::File(f) => has_char(f, '*'),
        ExportTree::Cond(es) => trees_have_star(es),
    }
}

/// Some filename in the entries' shapes holds a `*`.
pub open spec fn trees_have_star(es: Seq<(Seq<char>, ExportTree)>) -> bool
    decreases es,
{
    if es.len() == 0 {
        false
    } else {
        tree_has_star(es[es.len() - 1].1) || trees_have_star(es.subrange(0, es.len() - 1))
    }
}

/// The entry at `i` has a wildcard key that matches `s`.
pub open spec fn tree_wildcard_hit(es: Seq<(Seq<char>, ExportTree)>, s: Seq<char>, i: int) -> bool {
    has_char(es[i].0, '*') && wildcard_match(es[i].0, s) is Some
}

/// Among the entries from `i` on whose wildcard key matches `s`, the one
/// with the longest literal prefix (the earliest among equals), or -1.
pub open spec fn tree_wildcard_from(es: Seq<(Seq<char>, ExportTree)>, s: Seq<char>, i: int) -> int
    decreases es.len() - i,
{
    if i < 0 || i >= es.len() {
        -1
    } else {
        let b = tree_wildcard_from(es, s, i + 1);
        if tree_wildcard_hit(es, s, i) && (b < 0 || b >= es.len() || star_pos(es[i].0) >= star_pos(es[b].0)) {
            i
        } else {
            b
        }
    }
}

/// What `s` matches in a subpath map: the matched shape and the captures.
pub open spec fn tree_match(es: Seq<(Seq<char>, ExportTree)>, s: Seq<char>) -> Option<(ExportTree, Seq<Seq<char>>)> {
    let e = tree_key_from(es, s, 0);
    if 0 <= e < es.len() {
        Some((es[e].1, Seq::empty()))
    } else {
        let w = tree_wildcard_from(es, s, 0);
        if w < 0 || w >= es.len() {
            None
        } else if tree_has_star(es[w].1) {
            Some((es[w].1, wildcard_match(es[w].0, s)->0))
        } else {
            Some((es[w].1, Seq::empty()))
        }
    }
}

/// The target that the condition names from index `i` on choose in the
/// conditions, with the captures substituted: the first name that is a key
/// decides.
pub open spec fn tree_select(names: Seq<Seq<char>>, es: Seq<(Seq<char>, ExportTree)>, i: int, caps: Seq<Seq<char>>) -> Option<Seq<char>>
    decreases es, names.len() - i,
{
    if i < 0 || i >= names.len() {
        None
    } else {
        let j = tree_key_from(es, names[i], 0);
        if j < 0 || j >= es.len() {
            tree_select(names, es, i + 1, caps)
        } else {
            match es[j].1 {
                ExportTree::File(f) => Some(substitute(f, caps)),
                ExportTree::Cond(m) => tree_select(names, m, 0, caps),
            }
        }
    }
}

/// The target chosen for a matched shape.
pub open spec fn tree_target(names: Seq<Seq<char>>, t: ExportTree, caps: Seq<Seq<char>>) -> Option<Seq<char>> {
    match t {
        ExportTree::File(f) => Some(substitute(f, caps)),
        ExportTree::Cond(m) => tree_select(names, m, 0, caps),
    }
}

pub proof fn lemma_key_bridge(es: Seq<(String, FilenameOrConditional)>, k: Seq<char>, i: int)
    requires
        0 <= i,
    ensures
        tree_key_from(entries_tree(es), k, i) == key_index_from(es, k, i),
    decreases es.len() - i,
{
    lemma_entries_tree(es);
    if i < es.len() {
        lemma_key_bridge(es, k, i + 1);
    }
}

proof fn lemma_wild_bridge(es: Seq<(String, FilenameOrConditional)>, s: Seq<char>, i: int)
    requires
        0 <= i,
    ensures
        tree_wildcard_from(entries_tree(es), s, i) == best_wildcard_from(es, s, i),
    decreases es.len() - i,
{
    lemma_entries_tree(es);
    if i < es.len() {
        lemma_wild_bridge(es, s, i + 1);
    }
}

pub proof fn lemma_star_bridge(v: FilenameOrConditional)
    ensures
        tree_has_star(tree_of(v)) == value_has_star(v),
    decreases v,
{
    match v {
        FilenameOrConditional::Filename(f) => {},
        FilenameOrConditional::Conditional(m) => {
            assert(decreases_to!(v => m));
            lemma_stars_bridge(m@);
        },
    }
}

pub proof fn lemma_stars_bridge(es: Seq<(String, FilenameOrConditional)>)
    ensures
        trees_have_star(entries_tree(es)) == entries_have_star(es),
    decreases es,
{
    if es.len() > 0 {
        let pre = es.subrange(0, es.len() - 1);
        lemma_stars_bridge(pre);
        lemma_star_bridge(es[es.len() - 1].1);
        lemma_entries_tree(pre);
        lemma_entries_tree(es);
        let t = entries_tree(es);
        assert(t == entries_tree(pre).push((es[es.len() - 1].0@, tree_of(es[es.len() - 1].1))));
        assert(t.subrange(0, es.len() - 1) =~= entries_tree(pre));
        assert(t[es.len() - 1].1 == tree_of(es[es.len() - 1].1));
    }
}

pub proof fn lemma_select_bridge(names: Seq<Seq<char>>, es: Seq<(String, FilenameOrConditional)>, i: int, caps: Seq<Seq<char>>)
    requires
        0 <= i,
    ensures
        tree_select(names, entries_tree(es), i, caps) == select_in(names, es, i, caps),
    decreases es, names.len() - i,
{
    lemma_entries_tree(es);
    if i < names.len() {
        let j = key_index(es, names[i]);
        lemma_key_bridge(es, names[i], 0);
        crate::package_json::lemma_key_index_from(es, names[i], 0);
        if 0 <= j < es.len() {
            match es[j].1 {
                FilenameOrConditional::Filename(f) => {},
                FilenameOrConditional::Conditional(m) => {
                    assert(decreases_to!(es => es[j]));
                    lemma_select_bridge(names, m@, 0, caps);
                },
            }
        } else {
            lemma_select_bridge(names, es, i + 1, caps);
        }
    }
}

/// The matcher over entries agrees with the matcher over their shapes.
pub proof fn lemma_match_bridge(es: Seq<(String, FilenameOrConditional)>, s: Seq<char>)
    ensures
        match match_spec(es, s) {
            None => tree_match(entries_tree(es), s) is None,
            Some(t) => 0 <= t.0 < es.len() && tree_match(entries_tree(es), s) == Some((tree_of(es[t.0].1), t.1)),
        },
{
    lemma_entries_tree(es);
    lemma_key_bridge(es, s, 0);
    lemma_wild_bridge(es, s, 0);
    crate::package_json::lemma_key_index_from(es, s, 0);
    crate::exports_resolver::lemma_best_wildcard_from(es, s, 0);
    let w = best_wildcard_from(es, s, 0);
    if 0 <= w < es.len() {
        lemma_star_bridge(es[w].1);
    }
}

/// Choosing a target agrees over entries and over their shapes.
pub proof fn lemma_target_bridge(names: Seq<Seq<char>>, v: FilenameOrConditional, caps: Seq<Seq<char>>)
    ensures
        tree_target(names, tree_of(v), caps) == export_target(names, v, caps),
{
    match v {
        FilenameOrConditional::Filename(f) => {},
        FilenameOrConditional::Conditional(m) => {
            lemma_select_bridge(names, m@, 0, caps);
        },
    }
}

} // verus!
