//! Package names of import specifiers, and the implicit-file probe's candidates.

use vstd::prelude::*;
use crate::text::{chars_of, find_char_from, first_index_from, lemma_first_index_from};

verus! {

/// The npm-name prefix of a specifier: for a scoped name (`@scope/...`)
/// everything before the second `/`, otherwise everything before the first
/// `/`; the whole specifier where there is no such slash.
pub open spec fn npm_name(s: Seq<char>) -> Seq<char> {
    let first = first_index_from(s, '/', 0);
    if s.len() > 0 && s[0] == '@' {
        if first < s.len() {
            s.subrange(0, first_index_from(s, '/', first + 1))
        } else {
            s
        }
    } else {
        s.subrange(0, first)
    }
}

/// Given an import specifier, return the name of the package it belongs to:
/// `foo/bar` gives `foo`, `@foo/bar/baz` gives `@foo/bar`.
pub fn get_npm_package_name(import_specifier: &str) -> (r: &str)
    ensures
        r@ == npm_name(import_specifier@),
{
    let cs = chars_of(import_specifier);
    proof {
        lemma_first_index_from(cs@, '/', 0);
    }
    let first = find_char_from(&cs, '/', 0);
    let end = if cs.len() > 0 && cs[0] == '@' {
        if first < cs.len() {
            proof {
                lemma_first_index_from(cs@, '/', first + 1);
            }
            find_char_from(&cs, '/', first + 1)
        } else {
            cs.len()
        }
    } else {
        first
    };
    let r = import_specifier.substring_char(0, end);
    assert(import_specifier@.subrange(0, import_specifier@.len() as int) =~= import_specifier@);
    r
}


/// Extensions and index filenames tried, in order, when a path does not name
/// a file as it stands.
#[derive(Clone, Debug)]
pub struct ImplicitFileResolver {
    pub implicit_extensions: Vec<String>,
    pub implicit_indexes: Vec<String>,
}

impl ImplicitFileResolver {
    /// A probe with the given extensions and index filenames.
    pub fn new(implicit_extensions: Vec<String>, implicit_indexes: Vec<String>) -> (r: Self)
        ensures
            r.implicit_extensions@ == implicit_extensions@,
            r.implicit_indexes@ == implicit_indexes@,
    {
        ImplicitFileResolver { implicit_extensions, implicit_indexes }
    }
}

} // verus!
