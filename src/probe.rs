//! The implicit-file probe: extensions, then index filenames.

use vstd::prelude::*;
use crate::fs::FileSystem;
use crate::path::{ends_in_file_name, has_file_name, join, join_path, normalize, normalize_path};
use crate::utils::ImplicitFileResolver;

verus! {

/// The first `n + exts[i]` (from `i` on) that is a file.
pub open spec fn ext_probe(fs: FileSystem, n: Seq<char>, exts: Seq<Seq<char>>, i: int) -> Option<Seq<char>>
    decreases exts.len() - i,
{
    if i < 0 || i >= exts.len() {
        None
    } else if fs.file(n + exts[i]) {
        Some(n + exts[i])
    } else {
        ext_probe(fs, n, exts, i + 1)
    }
}

/// The first `n/idxs[i]` (from `i` on) that is a file.
pub open spec fn index_probe(fs: FileSystem, n: Seq<char>, idxs: Seq<Seq<char>>, i: int) -> Option<Seq<char>>
    decreases idxs.len() - i,
{
    if i < 0 || i >= idxs.len() {
        None
    } else if fs.file(join(n, idxs[i])) {
        Some(join(n, idxs[i]))
    } else {
        index_probe(fs, n, idxs, i + 1)
    }
}

/// The implicit file for `base`: the base with each extension in turn (when
/// it has a file name), then each index file inside it.
pub open spec fn implicit_spec(fs: FileSystem, exts: Seq<Seq<char>>, idxs: Seq<Seq<char>>, base: Seq<char>) -> Option<Seq<char>> {
    let n = normalize(base);
    let by_ext = if has_file_name(base) {
        ext_probe(fs, n, exts, 0)
    } else {
        None
    };
    match by_ext {
        Some(p) => Some(p),
        None => index_probe(fs, n, idxs, 0),
    }
}

/// The probe's lists as views.
pub open spec fn probe_lists(r: ImplicitFileResolver) -> (Seq<Seq<char>>, Seq<Seq<char>>) {
    (
        r.implicit_extensions@.map_values(|e: String| e@),
        r.implicit_indexes@.map_values(|e: String| e@),
    )
}

/// What an optional probe finds for `base`.
pub open spec fn maybe_implicit(fs: FileSystem, r: Option<ImplicitFileResolver>, base: Seq<char>) -> Option<Seq<char>> {
    match r {
        Some(i) => implicit_spec(fs, probe_lists(i).0, probe_lists(i).1, base),
        None => None,
    }
}

impl ImplicitFileResolver {
    /// Find the implicit file for `path` on the disk model.
    pub fn try_resolve_implicitly(&self, fs: &FileSystem, path: &str) -> (r: Option<String>)
        ensures
            crate::text::opt_view(r) == implicit_spec(*fs, probe_lists(*self).0, probe_lists(*self).1, path@),
    {
        let n = normalize_path(path);
        let named = ends_in_file_name(path);
        let ghost exts = probe_lists(*self).0;
        let ghost idxs = probe_lists(*self).1;
        if named {
            let mut i: usize = 0;
            while i < self.implicit_extensions.len()
                invariant
                    i <= exts.len(),
                    exts == probe_lists(*self).0,
                    n@ == normalize(path@),
                    has_file_name(path@),
                    ext_probe(*fs, n@, exts, 0) == ext_probe(*fs, n@, exts, i as int),
                decreases exts.len() - i,
            {
                let mut c = n.clone();
                c.append(self.implicit_extensions[i].as_str());
                assert(exts[i as int] == self.implicit_extensions@[i as int]@);
                if fs.is_file(c.as_str()) {
                    return Some(c);
                }
                i += 1;
            }
        }
        let mut j: usize = 0;
        while j < self.implicit_indexes.len()
            invariant
                j <= idxs.len(),
                idxs == probe_lists(*self).1,
                exts == probe_lists(*self).0,
                n@ == normalize(path@),
                has_file_name(path@) ==> ext_probe(*fs, n@, exts, 0) is None,
                index_probe(*fs, n@, idxs, 0) == index_probe(*fs, n@, idxs, j as int),
            decreases idxs.len() - j,
        {
            let c = join_path(n.as_str(), self.implicit_indexes[j].as_str());
            assert(idxs[j as int] == self.implicit_indexes@[j as int]@);
            if fs.is_file(c.as_str()) {
                return Some(c);
            }
            j += 1;
        }
        None
    }
}

/// Probe with an optional probe.
pub fn probe(fs: &FileSystem, r: &Option<ImplicitFileResolver>, path: &str) -> (o: Option<String>)
    ensures
        crate::text::opt_view(o) == maybe_implicit(*fs, *r, path@),
{
    match r {
        Some(i) => i.try_resolve_implicitly(fs, path),
        None => None,
    }
}

} // verus!
