//! The entrypoints of a package: the files its `exports` names, or what its
//! name resolves to.

use vstd::prelude::*;
use crate::analysis::AnalysisError;
use crate::chain::{resolve_spec, Resolver};
use crate::errors::{err_view, ErrView, ResolveError};
use crate::exports_resolver::string_views;
use crate::fs::FileSystem;
use crate::package_json::{get_entry, key_index, lemma_key_index_from, ExportsLikeField, FilenameOrConditional};
use crate::parser::{get_spec, hints_after, pj_view, PackageJson, PjView};
use crate::normalize::{entries_tree, lemma_entries_tree, tree_key_from, ExportTree, FieldTree};
use crate::path::{join, join_path, normalize, normalize_path};
use crate::text::{chars_of, has_char, vec_has_char};

verus! {

/// The entrypoint that the condition names from index `i` on pick in the
/// conditions `es`: the first name that is a key decides, a filename with a
/// `*` passes to the next name, nested conditions decide alone.
pub open spec fn pick_spec(names: Seq<Seq<char>>, es: Seq<(String, FilenameOrConditional)>, i: int, root: Seq<char>) -> Option<Seq<char>>
    decreases es, names.len() - i,
{
    if i < 0 || i >= names.len() {
        None
    } else {
        let j = key_index(es, names[i]);
        if j < 0 || j >= es.len() {
            pick_spec(names, es, i + 1, root)
        } else {
            match es[j].1 {
                FilenameOrConditional::Filename(f) => if has_char(f@, '*') {
                    pick_spec(names, es, i + 1, root)
                } else {
                    Some(normalize(join(root, f@)))
                },
                FilenameOrConditional::Conditional(m) => {
                    proof {
                        assert(decreases_to!(es => es[j]));
                    }
                    pick_spec(names, m@, 0, root)
                },
            }
        }
    }
}

/// The entrypoints of a subpath map's values, in order: filenames without
/// `*`, and what the conditions pick.
pub open spec fn map_entrypoints(names: Seq<Seq<char>>, es: Seq<(String, FilenameOrConditional)>, root: Seq<char>) -> Seq<Seq<char>>
    decreases es.len(),
{
    if es.len() == 0 {
        Seq::empty()
    } else {
        let prev = map_entrypoints(names, es.subrange(0, es.len() - 1), root);
        match es[es.len() - 1].1 {
            FilenameOrConditional::Filename(f) => if has_char(f@, '*') {
                prev
            } else {
                prev.push(normalize(join(root, f@)))
            },
            FilenameOrConditional::Conditional(c) => match pick_spec(names, c@, 0, root) {
                Some(p) => prev.push(p),
                None => prev,
            },
        }
    }
}

/// The entrypoints of a package: from `exports` where it is set, else what
/// its name resolves to from its root.
pub open spec fn entrypoints_spec(
    pj: PackageJson,
    names: Seq<Seq<char>>,
    fs: FileSystem,
    steps: Seq<crate::chain::ChainStep>,
    hints: Seq<(Seq<char>, Option<Seq<char>>)>,
) -> Result<Seq<Seq<char>>, ErrView> {
    let root = pj.package_root@;
    match pj.parsed_exports {
        Some(ExportsLikeField::Filename(f)) => Ok(seq![normalize(join(root, f@))]),
        Some(ExportsLikeField::Subpaths(m)) => Ok(map_entrypoints(names, m@, root)),
        Some(ExportsLikeField::Conditional(c)) => match pick_spec(names, c@, 0, root) {
            Some(p) => Ok(seq![p]),
            None => Ok(Seq::empty()),
        },
        None => match pj.name {
            Some(n) => match resolve_spec(fs, steps, hints, n@, root).0 {
                Ok(p) => Ok(seq![p]),
                Err(e) => Err(e),
            },
            None => Err(ErrView::FailedToResolve("<unknown>"@, root)),
        },
    }
}

/// `pick_spec` over normalized shapes.
pub open spec fn tree_pick(names: Seq<Seq<char>>, es: Seq<(Seq<char>, ExportTree)>, i: int, root: Seq<char>) -> Option<Seq<char>>
    decreases es, names.len() - i,
{
    if i < 0 || i >= names.len() {
        None
    } else {
        let j = tree_key_from(es, names[i], 0);
        if j < 0 || j >= es.len() {
            tree_pick(names, es, i + 1, root)
        } else {
            match es[j].1 {
                ExportTree::File(f) => if has_char(f, '*') {
                    tree_pick(names, es, i + 1, root)
                } else {
                    Some(normalize(join(root, f)))
                },
                ExportTree::Cond(m) => tree_pick(names, m, 0, root),
            }
        }
    }
}

/// `map_entrypoints` over normalized shapes.
pub open spec fn tree_map_entrypoints(names: Seq<Seq<char>>, es: Seq<(Seq<char>, ExportTree)>, root: Seq<char>) -> Seq<Seq<char>>
    decreases es.len(),
{
    if es.len() == 0 {
        Seq::empty()
    } else {
        let prev = tree_map_entrypoints(names, es.subrange(0, es.len() - 1), root);
        match es[es.len() - 1].1 {
            ExportTree::File(f) => if has_char(f, '*') {
                prev
            } else {
                prev.push(normalize(join(root, f)))
            },
            ExportTree::Cond(c) => match tree_pick(names, c, 0, root) {
                Some(p) => prev.push(p),
                None => prev,
            },
        }
    }
}

/// The entrypoints of a loaded package, as plain values.
pub open spec fn view_entrypoints(
    v: PjView,
    names: Seq<Seq<char>>,
    fs: FileSystem,
    steps: Seq<crate::chain::ChainStep>,
    hints: Seq<(Seq<char>, Option<Seq<char>>)>,
) -> Result<Seq<Seq<char>>, ErrView> {
    match v.exports {
        Some(FieldTree::File(f)) => Ok(seq![normalize(join(v.root, f))]),
        Some(FieldTree::Subpaths(m)) => Ok(tree_map_entrypoints(names, m, v.root)),
        Some(FieldTree::Conditional(c)) => match tree_pick(names, c, 0, v.root) {
            Some(p) => Ok(seq![p]),
            None => Ok(Seq::empty()),
        },
        None => match v.name {
            Some(n) => match resolve_spec(fs, steps, hints, n, v.root).0 {
                Ok(p) => Ok(seq![p]),
                Err(e) => Err(e),
            },
            None => Err(ErrView::FailedToResolve("<unknown>"@, v.root)),
        },
    }
}

proof fn lemma_pick_bridge(names: Seq<Seq<char>>, es: Seq<(String, FilenameOrConditional)>, i: int, root: Seq<char>)
    requires
        0 <= i,
    ensures
        tree_pick(names, entries_tree(es), i, root) == pick_spec(names, es, i, root),
    decreases es, names.len() - i,
{
    lemma_entries_tree(es);
    if i < names.len() {
        let j = key_index(es, names[i]);
        crate::tree_match::lemma_key_bridge(es, names[i], 0);
        lemma_key_index_from(es, names[i], 0);
        if 0 <= j < es.len() {
            match es[j].1 {
                FilenameOrConditional::Filename(f) => {
                    lemma_pick_bridge(names, es, i + 1, root);
                },
                FilenameOrConditional::Conditional(m) => {
                    assert(decreases_to!(es => es[j]));
                    lemma_pick_bridge(names, m@, 0, root);
                },
            }
        } else {
            lemma_pick_bridge(names, es, i + 1, root);
        }
    }
}

proof fn lemma_map_bridge(names: Seq<Seq<char>>, es: Seq<(String, FilenameOrConditional)>, root: Seq<char>)
    ensures
        tree_map_entrypoints(names, entries_tree(es), root) == map_entrypoints(names, es, root),
    decreases es.len(),
{
    if es.len() > 0 {
        let pre = es.subrange(0, es.len() - 1);
        lemma_map_bridge(names, pre, root);
        lemma_entries_tree(es);
        lemma_entries_tree(pre);
        let t = entries_tree(es);
        assert(t.subrange(0, es.len() - 1) =~= entries_tree(pre));
        match es[es.len() - 1].1 {
            FilenameOrConditional::Conditional(c) => {
                lemma_pick_bridge(names, c@, 0, root);
            },
            _ => {},
        }
    }
}

/// The entrypoints of a package agree with those of its view.
pub proof fn lemma_entrypoints_view(
    pj: &PackageJson,
    names: Seq<Seq<char>>,
    fs: FileSystem,
    steps: Seq<crate::chain::ChainStep>,
    hints: Seq<(Seq<char>, Option<Seq<char>>)>,
)
    ensures
        view_entrypoints(pj_view(*pj), names, fs, steps, hints) == entrypoints_spec(*pj, names, fs, steps, hints),
        view_entrypoints_hints(pj_view(*pj), fs, steps, hints) == entrypoints_hints(*pj, fs, steps, hints),
{
    match pj.parsed_exports {
        Some(ExportsLikeField::Subpaths(m)) => {
            lemma_map_bridge(names, m@, pj.package_root@);
        },
        Some(ExportsLikeField::Conditional(c)) => {
            lemma_pick_bridge(names, c@, 0, pj.package_root@);
        },
        _ => {},
    }
}

/// The cache after taking the entrypoints: resolving the name where
/// `exports` is unset and there is a name, untouched otherwise.
pub open spec fn entrypoints_hints(
    pj: PackageJson,
    fs: FileSystem,
    steps: Seq<crate::chain::ChainStep>,
    hints: Seq<(Seq<char>, Option<Seq<char>>)>,
) -> Seq<(Seq<char>, Option<Seq<char>>)> {
    match pj.parsed_exports {
        Some(_) => hints,
        None => match pj.name {
            Some(n) => resolve_spec(fs, steps, hints, n@, pj.package_root@).1,
            None => hints,
        },
    }
}

/// The cache after taking the entrypoints of a loaded package.
pub open spec fn view_entrypoints_hints(
    v: PjView,
    fs: FileSystem,
    steps: Seq<crate::chain::ChainStep>,
    hints: Seq<(Seq<char>, Option<Seq<char>>)>,
) -> Seq<(Seq<char>, Option<Seq<char>>)> {
    match v.exports {
        Some(_) => hints,
        None => match v.name {
            Some(n) => resolve_spec(fs, steps, hints, n, v.root).1,
            None => hints,
        },
    }
}

/// The views of a list of paths.
pub open spec fn paths_view(r: Result<Vec<String>, ResolveError>) -> Result<Seq<Seq<char>>, ErrView> {
    match r {
        Ok(v) => Ok(string_views(v@)),
        Err(e) => Err(err_view(e)),
    }
}

impl PackageJson {
    /// The entrypoint that the condition names pick in `conditional`.
    pub fn pick_conditional_entrypoint(&self, condition_names: &Vec<String>, conditional: &Vec<(String, FilenameOrConditional)>) -> (r: Option<String>)
        ensures
            crate::text::opt_view(r) == pick_spec(string_views(condition_names@), conditional@, 0, self.package_root@),
        decreases conditional@,
    {
        let ghost names = string_views(condition_names@);
        let mut i: usize = 0;
        while i < condition_names.len()
            invariant
                i <= names.len(),
                names == string_views(condition_names@),
                names.len() == condition_names@.len(),
                pick_spec(names, conditional@, 0, self.package_root@) == pick_spec(names, conditional@, i as int, self.package_root@),
            decreases names.len() - i,
        {
            let name = condition_names[i].as_str();
            assert(names[i as int] == name@);
            proof {
                lemma_key_index_from(conditional@, name@, 0);
            }
            match get_entry(conditional, name) {
                None => {},
                Some(FilenameOrConditional::Filename(f)) => {
                    let fc = chars_of(f.as_str());
                    if !vec_has_char(&fc, '*') {
                        let p = join_path(self.package_root.as_str(), f.as_str());
                        return Some(normalize_path(p.as_str()));
                    }
                },
                Some(FilenameOrConditional::Conditional(m)) => {
                    proof {
                        let j = key_index(conditional@, name@);
                        assert(decreases_to!(conditional@ => conditional@[j]));
                    }
                    return self.pick_conditional_entrypoint(condition_names, m);
                },
            }
            i += 1;
        }
        None
    }

    /// The entrypoints of this package for the condition names.
    pub fn get_entrypoints(&self, condition_names: &Vec<String>, resolver: &mut Resolver, fs: &FileSystem) -> (r: Result<Vec<String>, ResolveError>)
        requires
            old(resolver).package_json_parser.wf(*fs),
        ensures
            final(resolver).package_json_parser.wf(*fs),
            final(resolver).chain == old(resolver).chain,
            paths_view(r) == entrypoints_spec(*self, string_views(condition_names@), *fs, old(resolver).chain.steps@, old(resolver).package_json_parser.hints()),
            final(resolver).package_json_parser.hints() == entrypoints_hints(*self, *fs, old(resolver).chain.steps@, old(resolver).package_json_parser.hints()),
    {
        let ghost names = string_views(condition_names@);
        match &self.parsed_exports {
            Some(ExportsLikeField::Filename(f)) => {
                let p = join_path(self.package_root.as_str(), f.as_str());
                let v = vec![normalize_path(p.as_str())];
                assert(string_views(v@) =~= seq![normalize(join(self.package_root@, f@))]);
                Ok(v)
            },
            Some(ExportsLikeField::Subpaths(m)) => {
                let mut out: Vec<String> = Vec::new();
                let mut i: usize = 0;
                while i < m.len()
                    invariant
                        i <= m@.len(),
                        names == string_views(condition_names@),
                        string_views(out@) == map_entrypoints(names, m@.subrange(0, i as int), self.package_root@),
                    decreases m@.len() - i,
                {
                    let ghost next = m@.subrange(0, i + 1);
                    assert(next.subrange(0, i as int) =~= m@.subrange(0, i as int));
                    assert(next[i as int] == m@[i as int]);
                    match &m[i].1 {
                        FilenameOrConditional::Filename(f) => {
                            let fc = chars_of(f.as_str());
                            if !vec_has_char(&fc, '*') {
                                let p = join_path(self.package_root.as_str(), f.as_str());
                                out.push(normalize_path(p.as_str()));
                            }
                        },
                        FilenameOrConditional::Conditional(c) => {
                            match self.pick_conditional_entrypoint(condition_names, c) {
                                Some(p) => {
                                    out.push(p);
                                },
                                None => {},
                            }
                        },
                    }
                    assert(string_views(out@) =~= map_entrypoints(names, next, self.package_root@));
                    i += 1;
                }
                assert(m@.subrange(0, i as int) =~= m@);
                Ok(out)
            },
            Some(ExportsLikeField::Conditional(c)) => {
                match self.pick_conditional_entrypoint(condition_names, c) {
                    Some(p) => {
                        let v = vec![p];
                        assert(string_views(v@) =~= seq![v@[0]@]);
                        Ok(v)
                    },
                    None => {
                        let v: Vec<String> = Vec::new();
                        assert(string_views(v@) =~= Seq::<Seq<char>>::empty());
                        Ok(v)
                    },
                }
            },
            None => match &self.name {
                Some(n) => match resolver.resolve(fs, n.clone(), self.package_root.as_str()) {
                    Ok(p) => {
                        let v = vec![p];
                        assert(string_views(v@) =~= seq![v@[0]@]);
                        Ok(v)
                    },
                    Err(e) => Err(e),
                },
                None => Err(ResolveError::FailedToResolve("<unknown>".to_owned(), self.package_root.clone())),
            },
        }
    }
}

/// The directory of top-level dependency `package_name` of the project at
/// `path`.
pub open spec fn dependency_dir(path: Seq<char>, package_name: Seq<char>) -> Seq<char> {
    join(join(path, "node_modules"@), package_name)
}

/// The view of a start-of-analysis result; none for a parse error, which
/// starting never gives.
pub open spec fn start_view(r: Result<Vec<String>, AnalysisError>) -> Option<Result<Seq<Seq<char>>, ErrView>> {
    match r {
        Ok(v) => Some(Ok(string_views(v@))),
        Err(AnalysisError::ResolveError { source, .. }) => Some(Err(err_view(source))),
        Err(AnalysisError::ParseError { .. }) => None,
    }
}

/// Where the walk of top-level dependency `package_name` of the project at
/// `path` starts: its `package.json` is loaded under its name, then its
/// entrypoints are taken with the default condition names. A failure stops
/// the analysis as a resolve error of the package's own name from `path`.
pub fn package_entrypoints(resolver: &mut Resolver, fs: &FileSystem, path: &str, package_name: &str) -> (r: Result<Vec<String>, AnalysisError>)
    requires
        old(resolver).package_json_parser.wf(*fs),
    ensures
        final(resolver).package_json_parser.wf(*fs),
        final(resolver).chain == old(resolver).chain,
        match get_spec(*fs, old(resolver).package_json_parser.hints(), dependency_dir(path@, package_name@), Some(package_name@)) {
            Err(e) => start_view(r) == Some(Err::<Seq<Seq<char>>, ErrView>(e)),
            Ok(v) => start_view(r) == Some(view_entrypoints(
                v,
                crate::presets::default_condition_names(),
                *fs,
                old(resolver).chain.steps@,
                hints_after(*fs, old(resolver).package_json_parser.hints(), dependency_dir(path@, package_name@), Some(package_name@)),
            )),
        },
        match get_spec(*fs, old(resolver).package_json_parser.hints(), dependency_dir(path@, package_name@), Some(package_name@)) {
            Err(e) => final(resolver).package_json_parser.hints() == hints_after(*fs, old(resolver).package_json_parser.hints(), dependency_dir(path@, package_name@), Some(package_name@)),
            Ok(v) => final(resolver).package_json_parser.hints() == view_entrypoints_hints(
                v,
                *fs,
                old(resolver).chain.steps@,
                hints_after(*fs, old(resolver).package_json_parser.hints(), dependency_dir(path@, package_name@), Some(package_name@)),
            ),
        },
        match r {
            Err(AnalysisError::ResolveError { package_name: n, import_specifier, from, .. }) =>
                n@ == package_name@ && import_specifier@ == package_name@ && from@ == path@,
            Err(AnalysisError::ParseError { .. }) => false,
            Ok(_) => true,
        },
{
    let nm = join_path(path, "node_modules");
    let dir = join_path(nm.as_str(), package_name);
    let pj = match resolver.package_json_parser.get_or_parse_package_json(fs, dir.as_str(), Some(package_name.to_owned())) {
        Ok(p) => p,
        Err(e) => {
            return Err(
                AnalysisError::ResolveError {
                    package_name: package_name.to_owned(),
                    import_specifier: package_name.to_owned(),
                    from: path.to_owned(),
                    source: e,
                },
            );
        },
    };
    let names = crate::presets::get_default_condition_names();
    proof {
        lemma_entrypoints_view(&*pj, string_views(names@), *fs, resolver.chain.steps@, resolver.package_json_parser.hints());
    }
    match pj.get_entrypoints(&names, resolver, fs) {
        Ok(v) => Ok(v),
        Err(e) => Err(
            AnalysisError::ResolveError {
                package_name: package_name.to_owned(),
                import_specifier: package_name.to_owned(),
                from: path.to_owned(),
                source: e,
            },
        ),
    }
}

} // verus!
