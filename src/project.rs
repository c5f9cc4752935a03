//! Which top-level dependencies of a project are analyzed.

use vstd::prelude::*;
use crate::exports_resolver::string_views;
use crate::text::{is_prefix, starts_with, str_eq};

verus! {

/// A dependency is analyzed when the requested list (if any) names it and
/// it is not a `@types/` package.
pub open spec fn selected(check: Option<Seq<Seq<char>>>, n: Seq<char>) -> bool {
    (match check {
        None => true,
        Some(c) => c.contains(n),
    }) && !is_prefix("@types/"@, n)
}

/// The selected names, in order.
pub open spec fn selection(names: Seq<Seq<char>>, check: Option<Seq<Seq<char>>>) -> Seq<Seq<char>>
    decreases names.len(),
{
    if names.len() == 0 {
        Seq::empty()
    } else {
        let prev = selection(names.drop_last(), check);
        if selected(check, names.last()) {
            prev.push(names.last())
        } else {
            prev
        }
    }
}

/// The views of an optional list.
pub open spec fn check_view(check: Option<Vec<String>>) -> Option<Seq<Seq<char>>> {
    match check {
        Some(c) => Some(string_views(c@)),
        None => None,
    }
}

fn listed(check: &Vec<String>, n: &str) -> (r: bool)
    ensures
        r == string_views(check@).contains(n@),
{
    let mut i: usize = 0;
    while i < check.len()
        invariant
            i <= check@.len(),
            forall|t: int| 0 <= t < i ==> (#[trigger] check@[t])@ != n@,
        decreases check@.len() - i,
    {
        if str_eq(check[i].as_str(), n) {
            assert(string_views(check@)[i as int] == n@);
            return true;
        }
        i += 1;
    }
    assert(!string_views(check@).contains(n@)) by {
        if string_views(check@).contains(n@) {
            let k = choose|k: int| 0 <= k < string_views(check@).len() && string_views(check@)[k] == n@;
            assert(check@[k]@ != n@);
        }
    }
    false
}

/// The dependencies to analyze, in their order: those that `check` names,
/// or all where it is absent, without `@types/` packages.
pub fn select_dependencies(names: Vec<String>, check: Option<Vec<String>>) -> (r: Vec<String>)
    ensures
        string_views(r@) == selection(string_views(names@), check_view(check)),
{
    let ghost all = string_views(names@);
    let mut out: Vec<String> = Vec::new();
    let mut i: usize = 0;
    while i < names.len()
        invariant
            i <= names@.len(),
            all == string_views(names@),
            string_views(out@) == selection(all.subrange(0, i as int), check_view(check)),
        decreases names@.len() - i,
    {
        let n = names[i].as_str();
        let ghost next = all.subrange(0, i + 1);
        assert(next.drop_last() =~= all.subrange(0, i as int));
        assert(next.last() == n@);
        let wanted = match &check {
            None => true,
            Some(c) => listed(c, n),
        };
        if wanted && !starts_with(n, "@types/") {
            out.push(n.to_owned());
        }
        assert(string_views(out@) =~= selection(next, check_view(check)));
        i += 1;
    }
    assert(all.subrange(0, i as int) =~= all);
    out
}

} // verus!
