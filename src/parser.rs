//! Loading `package.json` manifests from the disk model, normalized and
//! cached by directory, and locating `node_modules` and `package.json`.

use std::sync::Arc;
use vstd::prelude::*;
use crate::errors::{err_view, ErrView, ResolveError};
use crate::fs::{FileSystem, RawPackageJson};
use crate::json::JsonValue;
use crate::normalize::{field_spec, field_tree, parse_exports_like_field, FieldTree};
use crate::package_json::ExportsLikeField;
use crate::path::{build_rooted, join, join_path, norm_segments, normal_segments, rooted_path};
use crate::text::{opt_view, str_eq};

verus! {

/// Relies on `Arc::clone`: the new handle points to the same value.
#[verifier::external_body]
pub(crate) fn share<T>(p: &Arc<T>) -> (r: Arc<T>)
    ensures
        r == *p,
{
    Arc::clone(p)
}

/// A `package.json` with its `exports`-like fields normalized.
#[derive(Debug)]
pub struct PackageJson {
    /// The package's name, or the name it was loaded under.
    pub name: Option<String>,
    /// The directory that holds the `package.json`.
    pub package_root: String,
    pub raw: Arc<RawPackageJson>,
    pub parsed_exports: Option<ExportsLikeField>,
    pub parsed_main: Option<ExportsLikeField>,
    pub parsed_module: Option<ExportsLikeField>,
    pub parsed_browser: Option<ExportsLikeField>,
    pub parsed_types: Option<ExportsLikeField>,
}

/// A normalized `package.json` as plain values.
pub struct PjView {
    pub name: Option<Seq<char>>,
    pub root: Seq<char>,
    pub raw: RawPackageJson,
    pub exports: Option<FieldTree>,
    pub main: Option<FieldTree>,
    pub module: Option<FieldTree>,
    pub browser: Option<FieldTree>,
    pub types: Option<FieldTree>,
}

pub open spec fn opt_field(f: Option<ExportsLikeField>) -> Option<FieldTree> {
    match f {
        Some(v) => Some(field_tree(v)),
        None => None,
    }
}

/// The view of a normalized `package.json`.
pub open spec fn pj_view(p: PackageJson) -> PjView {
    PjView {
        name: opt_view(p.name),
        root: p.package_root@,
        raw: *p.raw,
        exports: opt_field(p.parsed_exports),
        main: opt_field(p.parsed_main),
        module: opt_field(p.parsed_module),
        browser: opt_field(p.parsed_browser),
        types: opt_field(p.parsed_types),
    }
}

/// A field normalized under the package's name; unset without a name.
pub open spec fn field_under(name: Option<Seq<char>>, v: Option<JsonValue>) -> Option<FieldTree> {
    match name {
        None => None,
        Some(n) => match v {
            None => None,
            Some(j) => field_spec(n, j),
        },
    }
}

/// The normalized form of `raw` at `root`; the name is the manifest's own,
/// else `hint`.
pub open spec fn pj_spec(root: Seq<char>, raw: RawPackageJson, hint: Option<Seq<char>>) -> PjView {
    let name = match raw.name {
        Some(n) => Some(n@),
        None => hint,
    };
    PjView {
        name,
        root,
        raw,
        exports: field_under(name, raw.exports),
        main: field_under(name, raw.main),
        module: field_under(name, raw.module),
        browser: field_under(name, raw.browser),
        types: field_under(name, raw.types),
    }
}

fn parse_field(name: &Option<String>, v: &Option<JsonValue>) -> (r: Option<ExportsLikeField>)
    ensures
        opt_field(r) == field_under(opt_view(*name), *v),
{
    match name {
        None => None,
        Some(n) => match v {
            None => None,
            Some(j) => parse_exports_like_field(n.as_str(), Some(j)),
        },
    }
}

/// Normalize the manifest `raw` of the package at `package_dir`, naming it
/// `package_name` where the manifest has no name.
pub fn normalize_package_json(package_dir: String, package_name: Option<String>, raw: Arc<RawPackageJson>) -> (r: PackageJson)
    ensures
        pj_view(r) == pj_spec(package_dir@, *raw, opt_view(package_name)),
{
    let name = match &raw.name {
        Some(n) => Some(n.clone()),
        None => package_name,
    };
    let parsed_exports = parse_field(&name, &raw.exports);
    let parsed_main = parse_field(&name, &raw.main);
    let parsed_module = parse_field(&name, &raw.module);
    let parsed_browser = parse_field(&name, &raw.browser);
    let parsed_types = parse_field(&name, &raw.types);
    PackageJson {
        name,
        package_root: package_dir,
        raw,
        parsed_exports,
        parsed_main,
        parsed_module,
        parsed_browser,
        parsed_types,
    }
}

/// The path of the `package.json` in `dir`.
pub open spec fn manifest_path(dir: Seq<char>) -> Seq<char> {
    join(dir, "package.json"@)
}

/// Loading the manifest of `dir` with the name `hint`.
pub open spec fn load_spec(fs: FileSystem, dir: Seq<char>, hint: Option<Seq<char>>) -> Result<PjView, ErrView> {
    match fs.manifest(dir) {
        None => Err(ErrView::IoError(manifest_path(dir), "No such file or directory"@)),
        Some(Err(m)) => Err(ErrView::ParsePackageJsonFailed(manifest_path(dir), m@)),
        Some(Ok(raw)) => Ok(pj_spec(dir, *raw, hint)),
    }
}

/// The first cached directory equal to `dir` from index `i` on, or -1.
pub open spec fn hint_index_from(hints: Seq<(Seq<char>, Option<Seq<char>>)>, dir: Seq<char>, i: int) -> int
    decreases hints.len() - i,
{
    if i < 0 || i >= hints.len() {
        -1
    } else if hints[i].0 == dir {
        i
    } else {
        hint_index_from(hints, dir, i + 1)
    }
}

proof fn lemma_hint_index_from(hints: Seq<(Seq<char>, Option<Seq<char>>)>, dir: Seq<char>, i: int)
    requires
        0 <= i,
    ensures
        -1 <= hint_index_from(hints, dir, i) < hints.len(),
        hint_index_from(hints, dir, i) >= 0 ==> hints[hint_index_from(hints, dir, i)].0 == dir,
    decreases hints.len() - i,
{
    if i < hints.len() && hints[i].0 != dir {
        lemma_hint_index_from(hints, dir, i + 1);
    }
}

/// What loading `dir` gives with the cache `hints` (directories loaded so
/// far, each with the name it was loaded under): a cached directory keeps the
/// name of its first load.
pub open spec fn get_spec(fs: FileSystem, hints: Seq<(Seq<char>, Option<Seq<char>>)>, dir: Seq<char>, hint: Option<Seq<char>>) -> Result<PjView, ErrView> {
    let i = hint_index_from(hints, dir, 0);
    if 0 <= i < hints.len() {
        load_spec(fs, dir, hints[i].1)
    } else {
        load_spec(fs, dir, hint)
    }
}

/// The cache after loading `dir`: a first successful load is recorded.
pub open spec fn hints_after(fs: FileSystem, hints: Seq<(Seq<char>, Option<Seq<char>>)>, dir: Seq<char>, hint: Option<Seq<char>>) -> Seq<(Seq<char>, Option<Seq<char>>)> {
    if hint_index_from(hints, dir, 0) < 0 && load_spec(fs, dir, hint) is Ok {
        hints.push((dir, hint))
    } else {
        hints
    }
}

/// The view of a load's result.
pub open spec fn loaded_view(r: Result<Arc<PackageJson>, ResolveError>) -> Result<PjView, ErrView> {
    match r {
        Ok(p) => Ok(pj_view(*p)),
        Err(e) => Err(err_view(e)),
    }
}

/// Loads and caches normalized manifests, keyed by directory.
pub struct PackageJsonParser {
    pub parsed: Vec<(String, Option<String>, Arc<PackageJson>)>,
}

impl PackageJsonParser {
    /// The cached directories, each with the name it was loaded under.
    pub open spec fn hints(&self) -> Seq<(Seq<char>, Option<Seq<char>>)> {
        self.parsed@.map_values(|e: (String, Option<String>, Arc<PackageJson>)| (e.0@, opt_view(e.1)))
    }

    /// Every cached entry is what loading its directory under its name gives.
    pub open spec fn wf(&self, fs: FileSystem) -> bool {
        forall|i: int| 0 <= i < self.parsed@.len() ==> load_spec(fs, (#[trigger] self.parsed@[i]).0@, opt_view(self.parsed@[i].1))
            == Ok::<PjView, ErrView>(pj_view(*self.parsed@[i].2))
    }

    /// An empty cache.
    pub fn new() -> (r: Self)
        ensures
            r.parsed@.len() == 0,
    {
        PackageJsonParser { parsed: Vec::new() }
    }

    /// The manifest of `package_dir`, normalized under `package_name` where
    /// it has no name; from the cache where this directory was loaded before.
    pub fn get_or_parse_package_json(&mut self, fs: &FileSystem, package_dir: &str, package_name: Option<String>) -> (r: Result<Arc<PackageJson>, ResolveError>)
        requires
            old(self).wf(*fs),
        ensures
            final(self).wf(*fs),
            loaded_view(r) == get_spec(*fs, old(self).hints(), package_dir@, opt_view(package_name)),
            final(self).hints() == hints_after(*fs, old(self).hints(), package_dir@, opt_view(package_name)),
    {
        proof {
            lemma_hint_index_from(self.hints(), package_dir@, 0);
        }
        let mut i: usize = 0;
        while i < self.parsed.len()
            invariant
                i <= self.parsed@.len(),
                self.parsed@ == old(self).parsed@,
                self.wf(*fs),
                hint_index_from(self.hints(), package_dir@, 0) == hint_index_from(self.hints(), package_dir@, i as int),
            decreases self.parsed@.len() - i,
        {
            if str_eq(self.parsed[i].0.as_str(), package_dir) {
                assert(self.hints()[i as int].0 == package_dir@);
                return Ok(share(&self.parsed[i].2));
            }
            i += 1;
        }
        let path = join_path(package_dir, "package.json");
        match fs.get_manifest(package_dir) {
            None => Err(ResolveError::IoError(path, "No such file or directory".to_owned())),
            Some(Err(m)) => Err(ResolveError::ParsePackageJsonFailed(path, m.clone())),
            Some(Ok(raw)) => {
                let hint = package_name.clone();
                let p = Arc::new(normalize_package_json(package_dir.to_owned(), package_name, share(raw)));
                let ghost old_parsed = self.parsed@;
                self.parsed.push((package_dir.to_owned(), hint, share(&p)));
                assert(self.hints() =~= old(self).hints().push((package_dir@, opt_view(hint))));
                Ok(p)
            },
        }
    }
}


/// The length of the longest prefix of `segs`, at most `k` long, that ends
/// in a `node_modules` segment, or -1.
pub open spec fn last_node_modules(segs: Seq<Seq<char>>, k: int) -> int
    decreases k,
{
    if k <= 0 || k > segs.len() {
        -1
    } else if segs[k - 1] == "node_modules"@ {
        k
    } else {
        last_node_modules(segs, k - 1)
    }
}

/// The nearest `node_modules` at or above `from`; failing that, the one
/// directly inside `from` if it is a directory.
pub open spec fn node_modules_spec(fs: FileSystem, from: Seq<char>) -> Result<Seq<char>, ErrView> {
    let segs = norm_segments(from);
    let k = last_node_modules(segs, segs.len() as int);
    if k >= 0 {
        Ok(rooted_path(segs.subrange(0, k)))
    } else if fs.dir(join(from, "node_modules"@)) {
        Ok(join(from, "node_modules"@))
    } else {
        Err(ErrView::NodeModulesNotFound)
    }
}

/// The first directory holding a `package.json` file, looking in the
/// directory made of the first `k` segments and then upwards.
pub open spec fn package_json_above(fs: FileSystem, segs: Seq<Seq<char>>, k: int) -> Option<Seq<char>>
    decreases k + 1,
{
    if k < 0 || k > segs.len() {
        None
    } else if fs.file(manifest_path(rooted_path(segs.subrange(0, k)))) {
        Some(rooted_path(segs.subrange(0, k)))
    } else {
        package_json_above(fs, segs, k - 1)
    }
}

/// The directory of the nearest `package.json` at or above `dir`.
pub open spec fn package_json_spec(fs: FileSystem, dir: Seq<char>) -> Result<Seq<char>, ErrView> {
    let segs = norm_segments(dir);
    match package_json_above(fs, segs, segs.len() as int) {
        Some(p) => Ok(p),
        None => Err(ErrView::PackageJsonNotFound(dir)),
    }
}

/// The view of a path result.
pub open spec fn path_result_view(r: Result<String, ResolveError>) -> Result<Seq<char>, ErrView> {
    match r {
        Ok(p) => Ok(p@),
        Err(e) => Err(err_view(e)),
    }
}

fn prefix_path(segs: &Vec<String>, k: usize, Ghost(all): Ghost<Seq<Seq<char>>>) -> (r: String)
    requires
        k <= segs@.len(),
        segs@.len() == all.len(),
        forall|i: int| 0 <= i < segs@.len() ==> #[trigger] segs@[i]@ == all[i],
    ensures
        r@ == rooted_path(all.subrange(0, k as int)),
{
    let r = build_rooted(segs, k);
    assert(segs@.subrange(0, k as int).map_values(|s: String| s@) =~= all.subrange(0, k as int));
    r
}

/// Find the nearest `node_modules` directory for `from`.
pub fn find_node_modules(fs: &FileSystem, from: &str) -> (r: Result<String, ResolveError>)
    ensures
        path_result_view(r) == node_modules_spec(*fs, from@),
{
    let segs = normal_segments(from);
    let ghost all = norm_segments(from@);
    let mut k: usize = segs.len();
    while k > 0
        invariant
            k <= segs@.len(),
            segs@.len() == all.len(),
            all == norm_segments(from@),
            forall|i: int| 0 <= i < segs@.len() ==> #[trigger] segs@[i]@ == all[i],
            last_node_modules(all, all.len() as int) == last_node_modules(all, k as int),
        decreases k,
    {
        if str_eq(segs[k - 1].as_str(), "node_modules") {
            return Ok(prefix_path(&segs, k, Ghost(all)));
        }
        k -= 1;
    }
    let candidate = join_path(from, "node_modules");
    if fs.is_dir(candidate.as_str()) {
        Ok(candidate)
    } else {
        Err(ResolveError::NodeModulesNotFound)
    }
}

/// Find the directory of the nearest `package.json` file at or above
/// `from_directory`.
pub fn find_package_json(fs: &FileSystem, from_directory: &str) -> (r: Result<String, ResolveError>)
    ensures
        path_result_view(r) == package_json_spec(*fs, from_directory@),
{
    let segs = normal_segments(from_directory);
    let ghost all = norm_segments(from_directory@);
    let mut k: usize = segs.len();
    loop
        invariant
            k <= segs@.len(),
            segs@.len() == all.len(),
            all == norm_segments(from_directory@),
            forall|i: int| 0 <= i < segs@.len() ==> #[trigger] segs@[i]@ == all[i],
            package_json_above(*fs, all, all.len() as int) == package_json_above(*fs, all, k as int),
        decreases k,
    {
        let dir = prefix_path(&segs, k, Ghost(all));
        let candidate = join_path(dir.as_str(), "package.json");
        if fs.is_file(candidate.as_str()) {
            return Ok(dir);
        }
        if k == 0 {
            assert(package_json_above(*fs, all, -1) is None);
            return Err(ResolveError::PackageJsonNotFound(from_directory.to_owned()));
        }
        k -= 1;
    }
}

} // verus!
