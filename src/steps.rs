//! The resolution steps. Each takes the specifier, the path resolved from
//! and the state handed on by the previous step (none, or a loaded
//! `package.json`), and resolves, hands on, or fails.

use std::sync::Arc;
use vstd::prelude::*;
use crate::errors::{ErrView, ResolveError};
use crate::fs::{FileSystem, RawPackageJson};
use crate::package_json::PeerDependencyMeta;
use crate::parser::{
    find_node_modules, find_package_json, get_spec, hints_after, manifest_path, node_modules_spec,
    package_json_spec, pj_view, share, PackageJson, PackageJsonParser, PjView,
};
use crate::path::{join, join_path, parent, parent_path};
use crate::probe::{maybe_implicit, probe};
use crate::text::{chars_of, find_char_from, first_index_from, has_char, lemma_first_index_from, opt_view, str_eq, vec_has_char};
use crate::utils::{get_npm_package_name, npm_name, ImplicitFileResolver};
use crate::exports_resolver::{rooted, string_views, ExportsResolver, FieldName};
use crate::normalize::{FieldTree};
use crate::package_json::ExportsLikeField;
use crate::text::is_prefix;
use crate::tree_match::{lemma_match_bridge, lemma_select_bridge, lemma_target_bridge, tree_match, tree_select, tree_target};

verus! {

/// The outcome of one step.
pub enum ResolveStepResult {
    /// The specifier resolved to this path.
    Resolved(String),
    /// Go on with this specifier and state.
    Continue(String, Option<Arc<PackageJson>>),
    /// Resolution fails.
    Failed(ResolveError),
}

/// The outcome of one step as plain values.
pub enum StepView {
    Resolved(Seq<char>),
    Continue(Seq<char>, Option<PjView>),
    Failed(ErrView),
}

/// The view of a step's state.
pub open spec fn state_view(st: Option<Arc<PackageJson>>) -> Option<PjView> {
    match st {
        Some(p) => Some(pj_view(*p)),
        None => None,
    }
}

/// The view of a step's outcome.
pub open spec fn step_view(r: ResolveStepResult) -> StepView {
    match r {
        ResolveStepResult::Resolved(p) => StepView::Resolved(p@),
        ResolveStepResult::Continue(s, st) => StepView::Continue(s@, state_view(st)),
        ResolveStepResult::Failed(e) => StepView::Failed(crate::errors::err_view(e)),
    }
}

/// Relative specifiers: a file next to `from`, an implicit file, or a
/// directory holding a named package, whose name becomes the specifier.
pub open spec fn relative_spec(
    fs: FileSystem,
    hints: Seq<(Seq<char>, Option<Seq<char>>)>,
    imp: Option<ImplicitFileResolver>,
    s: Seq<char>,
    from: Seq<char>,
    st: Option<PjView>,
) -> (StepView, Seq<(Seq<char>, Option<Seq<char>>)>) {
    if !(s.len() > 0 && s[0] == '.') {
        (StepView::Continue(s, st), hints)
    } else {
        match parent(from) {
            None => (StepView::Failed(ErrView::FromPathHasNoParent), hints),
            Some(d) => {
                let p = join(d, s);
                if fs.file(p) {
                    (StepView::Resolved(p), hints)
                } else {
                    match maybe_implicit(fs, imp, p) {
                        Some(q) => (StepView::Resolved(q), hints),
                        None => if fs.file(manifest_path(p)) {
                            let h2 = hints_after(fs, hints, p, None);
                            match get_spec(fs, hints, p, None) {
                                Err(e) => (StepView::Failed(e), h2),
                                Ok(v) => match v.name {
                                    Some(n) => (StepView::Continue(n, st), h2),
                                    None => (StepView::Failed(ErrView::FileNotFound(p)), h2),
                                },
                            }
                        } else {
                            (StepView::Failed(ErrView::FileNotFound(p)), hints)
                        },
                    }
                }
            },
        }
    }
}

fn starts_with_char(s: &str, c: char) -> (r: bool)
    ensures
        r == (s@.len() > 0 && s@[0] == c),
{
    let cs = chars_of(s);
    cs.len() > 0 && cs[0] == c
}

/// Resolver for relative specifiers, with an optional implicit-file probe.
pub struct RelativePathResolver {
    pub implicit_file_resolver: Option<ImplicitFileResolver>,
}

impl RelativePathResolver {
    /// A relative-path step with an optional probe.
    pub fn new(implicit_file_resolver: Option<ImplicitFileResolver>) -> (r: Self)
        ensures
            r.implicit_file_resolver == implicit_file_resolver,
    {
        RelativePathResolver { implicit_file_resolver }
    }

    /// Run the relative-path step.
    pub fn call(
        &self,
        parser: &mut PackageJsonParser,
        fs: &FileSystem,
        import_specifier: String,
        from: &str,
        state: Option<Arc<PackageJson>>,
    ) -> (r: ResolveStepResult)
        requires
            old(parser).wf(*fs),
        ensures
            final(parser).wf(*fs),
            (step_view(r), final(parser).hints()) == relative_spec(*fs, old(parser).hints(), self.implicit_file_resolver, import_specifier@, from@, state_view(state)),
    {
        relative_path_step(parser, fs, &self.implicit_file_resolver, import_specifier, from, state)
    }
}

fn relative_path_step(
    parser: &mut PackageJsonParser,
    fs: &FileSystem,
    imp: &Option<ImplicitFileResolver>,
    import_specifier: String,
    from: &str,
    state: Option<Arc<PackageJson>>,
) -> (r: ResolveStepResult)
    requires
        old(parser).wf(*fs),
    ensures
        final(parser).wf(*fs),
        (step_view(r), final(parser).hints()) == relative_spec(*fs, old(parser).hints(), *imp, import_specifier@, from@, state_view(state)),
{
    if !starts_with_char(import_specifier.as_str(), '.') {
        return ResolveStepResult::Continue(import_specifier, state);
    }
    let d = match parent_path(from) {
        Some(d) => d,
        None => {
            return ResolveStepResult::Failed(ResolveError::FromPathHasNoParent);
        },
    };
    let p = join_path(d.as_str(), import_specifier.as_str());
    if fs.is_file(p.as_str()) {
        return ResolveStepResult::Resolved(p);
    }
    if let Some(q) = probe(fs, imp, p.as_str()) {
        return ResolveStepResult::Resolved(q);
    }
    let m = join_path(p.as_str(), "package.json");
    if fs.is_file(m.as_str()) {
        match parser.get_or_parse_package_json(fs, p.as_str(), None) {
            Err(e) => ResolveStepResult::Failed(e),
            Ok(pj) => match &pj.name {
                Some(n) => ResolveStepResult::Continue(n.clone(), state),
                None => ResolveStepResult::Failed(ResolveError::FileNotFound(p)),
            },
        }
    } else {
        ResolveStepResult::Failed(ResolveError::FileNotFound(p))
    }
}

/// The first entry of `m` from `i` on with key `k`, or -1.
pub open spec fn meta_index_from(m: Seq<(String, PeerDependencyMeta)>, k: Seq<char>, i: int) -> int
    decreases m.len() - i,
{
    if i < 0 || i >= m.len() {
        -1
    } else if m[i].0@ == k {
        i
    } else {
        meta_index_from(m, k, i + 1)
    }
}

/// `name` is among the peer dependencies.
pub open spec fn peer_listed(raw: RawPackageJson, name: Seq<char>) -> bool {
    match raw.peer_dependencies {
        Some(d) => exists|i: int| 0 <= i < d@.len() && (#[trigger] d@[i]).0@ == name,
        None => false,
    }
}

/// The metadata of peer dependency `name` marks it optional.
pub open spec fn peer_optional(raw: RawPackageJson, name: Seq<char>) -> bool {
    match raw.peer_dependencies_meta {
        Some(m) => {
            let i = meta_index_from(m@, name, 0);
            0 <= i < m@.len() && m@[i].1.optional
        },
        None => false,
    }
}

fn is_peer_listed(raw: &RawPackageJson, name: &str) -> (r: bool)
    ensures
        r == peer_listed(*raw, name@),
{
    match &raw.peer_dependencies {
        None => false,
        Some(d) => {
            let mut i: usize = 0;
            while i < d.len()
                invariant
                    i <= d@.len(),
                    raw.peer_dependencies == Some(*d),
                    forall|t: int| 0 <= t < i ==> (#[trigger] d@[t]).0@ != name@,
                decreases d@.len() - i,
            {
                if str_eq(d[i].0.as_str(), name) {
                    let ghost dd = raw.peer_dependencies->Some_0;
                    assert(dd == *d);
                    assert(dd@[i as int].0@ == name@);
                    return true;
                }
                i += 1;
            }
            false
        },
    }
}

fn is_peer_optional(raw: &RawPackageJson, name: &str) -> (r: bool)
    ensures
        r == peer_optional(*raw, name@),
{
    match &raw.peer_dependencies_meta {
        None => false,
        Some(m) => {
            let mut i: usize = 0;
            while i < m.len()
                invariant
                    i <= m@.len(),
                    raw.peer_dependencies_meta == Some(*m),
                    meta_index_from(m@, name@, 0) == meta_index_from(m@, name@, i as int),
                decreases m@.len() - i,
            {
                if str_eq(m[i].0.as_str(), name) {
                    return m[i].1.optional;
                }
                i += 1;
            }
            false
        },
    }
}

/// Optional peer dependencies: a specifier naming an optional peer
/// dependency of the package that holds `from`, absent from `node_modules`,
/// fails as not installed; anything else goes on unchanged.
pub open spec fn peer_spec(
    fs: FileSystem,
    hints: Seq<(Seq<char>, Option<Seq<char>>)>,
    s: Seq<char>,
    from: Seq<char>,
    st: Option<PjView>,
) -> (StepView, Seq<(Seq<char>, Option<Seq<char>>)>) {
    let fd = if fs.dir(from) {
        Some(from)
    } else {
        parent(from)
    };
    match fd {
        None => (StepView::Failed(ErrView::FromPathHasNoParent), hints),
        Some(d) => match package_json_spec(fs, d) {
            Err(e) => (StepView::Failed(e), hints),
            Ok(dir) => {
                let h2 = hints_after(fs, hints, dir, None);
                match get_spec(fs, hints, dir, None) {
                    Err(e) => (StepView::Failed(e), h2),
                    Ok(v) => {
                        let name = npm_name(s);
                        if peer_listed(v.raw, name) && peer_optional(v.raw, name) {
                            match node_modules_spec(fs, from) {
                                Err(e) => (StepView::Failed(e), h2),
                                Ok(nm) => if !(fs.file(join(nm, name)) || fs.dir(join(nm, name))) {
                                    (StepView::Failed(ErrView::PeerDependencyNotInstalled(name)), h2)
                                } else {
                                    (StepView::Continue(s, st), h2)
                                },
                            }
                        } else {
                            (StepView::Continue(s, st), h2)
                        }
                    },
                }
            },
        },
    }
}

/// Resolver that fails a specifier naming an optional peer dependency that
/// is not installed, so that the walker can skip it.
pub struct HandleOptionalPeerDependenciesResolver;

impl HandleOptionalPeerDependenciesResolver {
    /// The optional-peer-dependency step.
    pub fn new() -> (r: Self) {
        HandleOptionalPeerDependenciesResolver
    }

    /// Run the optional-peer-dependency step.
    pub fn call(
        &self,
        parser: &mut PackageJsonParser,
        fs: &FileSystem,
        import_specifier: String,
        from: &str,
        state: Option<Arc<PackageJson>>,
    ) -> (r: ResolveStepResult)
        requires
            old(parser).wf(*fs),
        ensures
            final(parser).wf(*fs),
            (step_view(r), final(parser).hints()) == peer_spec(*fs, old(parser).hints(), import_specifier@, from@, state_view(state)),
    {
        handle_optional_peer_dependencies_step(parser, fs, import_specifier, from, state)
    }
}

fn handle_optional_peer_dependencies_step(
    parser: &mut PackageJsonParser,
    fs: &FileSystem,
    import_specifier: String,
    from: &str,
    state: Option<Arc<PackageJson>>,
) -> (r: ResolveStepResult)
    requires
        old(parser).wf(*fs),
    ensures
        final(parser).wf(*fs),
        (step_view(r), final(parser).hints()) == peer_spec(*fs, old(parser).hints(), import_specifier@, from@, state_view(state)),
{
    let from_directory = if fs.is_dir(from) {
        from.to_owned()
    } else {
        match parent_path(from) {
            Some(d) => d,
            None => {
                return ResolveStepResult::Failed(ResolveError::FromPathHasNoParent);
            },
        }
    };
    let dir = match find_package_json(fs, from_directory.as_str()) {
        Ok(d) => d,
        Err(e) => {
            return ResolveStepResult::Failed(e);
        },
    };
    let pj = match parser.get_or_parse_package_json(fs, dir.as_str(), None) {
        Ok(p) => p,
        Err(e) => {
            return ResolveStepResult::Failed(e);
        },
    };
    let name = get_npm_package_name(import_specifier.as_str());
    if is_peer_listed(&pj.raw, name) && is_peer_optional(&pj.raw, name) {
        let nm = match find_node_modules(fs, from) {
            Ok(p) => p,
            Err(e) => {
                return ResolveStepResult::Failed(e);
            },
        };
        let target = join_path(nm.as_str(), name);
        if !(fs.is_file(target.as_str()) || fs.is_dir(target.as_str())) {
            return ResolveStepResult::Failed(ResolveError::PeerDependencyNotInstalled(name.to_owned()));
        }
    }
    ResolveStepResult::Continue(import_specifier, state)
}

/// Loading the package: the `package.json` of the specifier's package in
/// the nearest `node_modules` becomes the state.
pub open spec fn loader_spec(
    fs: FileSystem,
    hints: Seq<(Seq<char>, Option<Seq<char>>)>,
    s: Seq<char>,
    from: Seq<char>,
) -> (StepView, Seq<(Seq<char>, Option<Seq<char>>)>) {
    match node_modules_spec(fs, from) {
        Err(e) => (StepView::Failed(e), hints),
        Ok(nm) => {
            let name = npm_name(s);
            let dir = join(nm, name);
            let h2 = hints_after(fs, hints, dir, Some(name));
            match get_spec(fs, hints, dir, Some(name)) {
                Ok(v) => (StepView::Continue(s, Some(v)), h2),
                Err(e) => (StepView::Failed(e), h2),
            }
        },
    }
}

/// "Resolve" step that loads the specifier's `package.json` and hands it on
/// as state.
pub struct PackageJsonResolver;

impl PackageJsonResolver {
    /// The package-loading step.
    pub fn new() -> (r: Self) {
        PackageJsonResolver
    }

    /// Run the package-loading step.
    pub fn call(
        &self,
        parser: &mut PackageJsonParser,
        fs: &FileSystem,
        import_specifier: String,
        from: &str,
    ) -> (r: ResolveStepResult)
        requires
            old(parser).wf(*fs),
        ensures
            final(parser).wf(*fs),
            (step_view(r), final(parser).hints()) == loader_spec(*fs, old(parser).hints(), import_specifier@, from@),
    {
        package_json_step(parser, fs, import_specifier, from)
    }
}

fn package_json_step(
    parser: &mut PackageJsonParser,
    fs: &FileSystem,
    import_specifier: String,
    from: &str,
) -> (r: ResolveStepResult)
    requires
        old(parser).wf(*fs),
    ensures
        final(parser).wf(*fs),
        (step_view(r), final(parser).hints()) == loader_spec(*fs, old(parser).hints(), import_specifier@, from@),
{
    let nm = match find_node_modules(fs, from) {
        Ok(p) => p,
        Err(e) => {
            return ResolveStepResult::Failed(e);
        },
    };
    let name = get_npm_package_name(import_specifier.as_str());
    let dir = join_path(nm.as_str(), name);
    match parser.get_or_parse_package_json(fs, dir.as_str(), Some(name.to_owned())) {
        Ok(p) => ResolveStepResult::Continue(import_specifier, Some(p)),
        Err(e) => ResolveStepResult::Failed(e),
    }
}

/// Pseudo-namespaced packages: for `scope/leaf` (an unscoped first segment
/// and a single further one), a `package.json` in the loaded package's
/// `leaf` directory replaces the state.
pub open spec fn pseudo_spec(
    fs: FileSystem,
    hints: Seq<(Seq<char>, Option<Seq<char>>)>,
    s: Seq<char>,
    st: Option<PjView>,
) -> (StepView, Seq<(Seq<char>, Option<Seq<char>>)>) {
    match st {
        None => (StepView::Continue(s, st), hints),
        Some(v) => {
            let j = first_index_from(s, '/', 0);
            let scope = s.subrange(0, j);
            let sub = s.subrange(j + 1, s.len() as int);
            if j < s.len() && !(scope.len() > 0 && scope[0] == '@') && !has_char(sub, '/') {
                let mp = join(v.root, sub);
                if fs.file(manifest_path(mp)) {
                    let h2 = hints_after(fs, hints, mp, Some(s));
                    match get_spec(fs, hints, mp, Some(s)) {
                        Ok(v2) => (StepView::Continue(s, Some(v2)), h2),
                        Err(_) => (StepView::Continue(s, st), h2),
                    }
                } else {
                    (StepView::Continue(s, st), hints)
                }
            } else {
                (StepView::Continue(s, st), hints)
            }
        },
    }
}

/// Handles packages such as `dom-helpers`, imported as
/// `dom-helpers/addClass` where `addClass` is a directory of the package
/// with a `package.json` of its own, which replaces the state.
pub struct PseudoNamespaceResolver;

impl PseudoNamespaceResolver {
    /// The pseudo-namespace step.
    pub fn new() -> (r: Self) {
        PseudoNamespaceResolver
    }

    /// Run the pseudo-namespace step.
    pub fn call(
        &self,
        parser: &mut PackageJsonParser,
        fs: &FileSystem,
        import_specifier: String,
        state: Option<Arc<PackageJson>>,
    ) -> (r: ResolveStepResult)
        requires
            old(parser).wf(*fs),
        ensures
            final(parser).wf(*fs),
            (step_view(r), final(parser).hints()) == pseudo_spec(*fs, old(parser).hints(), import_specifier@, state_view(state)),
    {
        pseudo_namespace_step(parser, fs, import_specifier, state)
    }
}

fn pseudo_namespace_step(
    parser: &mut PackageJsonParser,
    fs: &FileSystem,
    import_specifier: String,
    state: Option<Arc<PackageJson>>,
) -> (r: ResolveStepResult)
    requires
        old(parser).wf(*fs),
    ensures
        final(parser).wf(*fs),
        (step_view(r), final(parser).hints()) == pseudo_spec(*fs, old(parser).hints(), import_specifier@, state_view(state)),
{
    let pj = match &state {
        None => {
            return ResolveStepResult::Continue(import_specifier, state);
        },
        Some(p) => share(p),
    };
    let cs = chars_of(import_specifier.as_str());
    proof {
        lemma_first_index_from(cs@, '/', 0);
    }
    let j = find_char_from(&cs, '/', 0);
    if j >= cs.len() {
        return ResolveStepResult::Continue(import_specifier, state);
    }
    let sub = import_specifier.as_str().substring_char(j + 1, cs.len());
    let sub_chars = chars_of(sub);
    if (j > 0 && cs[0] == '@') || vec_has_char(&sub_chars, '/') {
        return ResolveStepResult::Continue(import_specifier, state);
    }
    let mp = join_path(pj.package_root.as_str(), sub);
    let m = join_path(mp.as_str(), "package.json");
    if fs.is_file(m.as_str()) {
        match parser.get_or_parse_package_json(fs, mp.as_str(), Some(import_specifier.clone())) {
            Ok(p) => ResolveStepResult::Continue(import_specifier, Some(p)),
            Err(_) => ResolveStepResult::Continue(import_specifier, state),
        }
    } else {
        ResolveStepResult::Continue(import_specifier, state)
    }
}


/// The field of the package that a resolver reads.
pub open spec fn field_of(v: PjView, f: FieldName) -> Option<FieldTree> {
    match f {
        FieldName::Exports => v.exports,
        FieldName::Main => v.main,
        FieldName::Module => v.module,
        FieldName::Browser => v.browser,
        FieldName::Types => v.types,
    }
}

/// The path that a field gives for `s`: a bare filename or top-level
/// conditions only for the package's own name, a subpath map by matching.
pub open spec fn field_target(v: PjView, f: FieldTree, names: Seq<Seq<char>>, s: Seq<char>) -> Option<Seq<char>> {
    match f {
        FieldTree::File(fname) => if v.name == Some(s) {
            Some(join(v.root, fname))
        } else {
            None
        },
        FieldTree::Conditional(c) => if v.name == Some(s) {
            rooted(v.root, tree_select(names, c, 0, Seq::empty()))
        } else {
            None
        },
        FieldTree::Subpaths(m) => match tree_match(m, s) {
            None => None,
            Some(t) => rooted(v.root, tree_target(names, t.0, t.1)),
        },
    }
}

/// An `exports`-like field: ignored for the other fields when `exports` is
/// set; the target resolves when it is a file, or through the probe.
pub open spec fn exports_spec(fs: FileSystem, r: ExportsResolver, s: Seq<char>, st: Option<PjView>) -> StepView {
    match st {
        None => StepView::Continue(s, st),
        Some(v) => if r.field_name != FieldName::Exports && v.exports is Some {
            StepView::Continue(s, st)
        } else {
            match field_of(v, r.field_name) {
                None => StepView::Continue(s, st),
                Some(f) => match field_target(v, f, string_views(r.condition_names@), s) {
                    None => StepView::Continue(s, st),
                    Some(p) => if fs.file(p) {
                        StepView::Resolved(p)
                    } else {
                        match maybe_implicit(fs, r.implicit_file_resolver, p) {
                            Some(q) => StepView::Resolved(q),
                            None => StepView::Continue(s, st),
                        }
                    },
                },
            }
        },
    }
}

fn is_name(name: &Option<String>, s: &str) -> (r: bool)
    ensures
        r == (opt_view(*name) == Some(s@)),
{
    match name {
        Some(n) => str_eq(n.as_str(), s),
        None => false,
    }
}

impl ExportsResolver {
    fn target(&self, pj: &PackageJson, field: &ExportsLikeField, s: &str) -> (r: Option<String>)
        ensures
            opt_view(r) == field_target(pj_view(*pj), crate::normalize::field_tree(*field), self.names(), s@),
    {
        match field {
            ExportsLikeField::Filename(f) => {
                if is_name(&pj.name, s) {
                    Some(join_path(pj.package_root.as_str(), f.as_str()))
                } else {
                    None
                }
            },
            ExportsLikeField::Conditional(c) => {
                if is_name(&pj.name, s) {
                    let none: Vec<&str> = Vec::new();
                    assert(crate::exports_resolver::str_views(none@) =~= Seq::<Seq<char>>::empty());
                    proof {
                        lemma_select_bridge(self.names(), c@, 0, Seq::empty());
                    }
                    self.resolve_condition_name(c, pj.package_root.as_str(), &none)
                } else {
                    None
                }
            },
            ExportsLikeField::Subpaths(m) => {
                proof {
                    lemma_match_bridge(m@, s@);
                }
                match Self::match_export(m, s) {
                    None => None,
                    Some(entry) => {
                        proof {
                            lemma_target_bridge(self.names(), entry.target(), entry.captures());
                        }
                        self.resolve_export(entry, pj.package_root.as_str())
                    },
                }
            },
        }
    }

    /// Resolve against the field that this resolver reads.
    pub fn call(&self, fs: &FileSystem, import_specifier: String, state: Option<Arc<PackageJson>>) -> (r: ResolveStepResult)
        ensures
            step_view(r) == exports_spec(*fs, *self, import_specifier@, state_view(state)),
    {
        let pj = match &state {
            None => {
                return ResolveStepResult::Continue(import_specifier, state);
            },
            Some(p) => share(p),
        };
        if self.field_name != FieldName::Exports && pj.parsed_exports.is_some() {
            return ResolveStepResult::Continue(import_specifier, state);
        }
        let field = match self.field_name {
            FieldName::Exports => &pj.parsed_exports,
            FieldName::Main => &pj.parsed_main,
            FieldName::Module => &pj.parsed_module,
            FieldName::Browser => &pj.parsed_browser,
            FieldName::Types => &pj.parsed_types,
        };
        let f = match field {
            None => {
                return ResolveStepResult::Continue(import_specifier, state);
            },
            Some(f) => f,
        };
        match self.target(&pj, f, import_specifier.as_str()) {
            None => ResolveStepResult::Continue(import_specifier, state),
            Some(p) => {
                if fs.is_file(p.as_str()) {
                    return ResolveStepResult::Resolved(p);
                }
                match probe(fs, &self.implicit_file_resolver, p.as_str()) {
                    Some(q) => ResolveStepResult::Resolved(q),
                    None => ResolveStepResult::Continue(import_specifier, state),
                }
            },
        }
    }
}

/// `files` in `package.json`: for the package's own name, `index.js` or
/// else `index.cjs` when listed.
pub open spec fn files_spec(s: Seq<char>, st: Option<PjView>) -> StepView {
    match st {
        None => StepView::Continue(s, st),
        Some(v) => if v.name == Some(s) && v.raw.files is Some {
            let fl = v.raw.files->Some_0@;
            if exists|i: int| 0 <= i < fl.len() && (#[trigger] fl[i])@ == "index.js"@ {
                StepView::Resolved(join(v.root, "index.js"@))
            } else if exists|i: int| 0 <= i < fl.len() && (#[trigger] fl[i])@ == "index.cjs"@ {
                StepView::Resolved(join(v.root, "index.cjs"@))
            } else {
                StepView::Continue(s, st)
            }
        } else {
            StepView::Continue(s, st)
        },
    }
}

fn list_has(fl: &Vec<String>, x: &str) -> (r: bool)
    ensures
        r == exists|i: int| 0 <= i < fl@.len() && (#[trigger] fl@[i])@ == x@,
{
    let mut i: usize = 0;
    while i < fl.len()
        invariant
            i <= fl@.len(),
            forall|t: int| 0 <= t < i ==> (#[trigger] fl@[t])@ != x@,
        decreases fl@.len() - i,
    {
        if str_eq(fl[i].as_str(), x) {
            return true;
        }
        i += 1;
    }
    false
}

/// The `files` step.
pub fn files_resolver(import_specifier: String, state: Option<Arc<PackageJson>>) -> (r: ResolveStepResult)
    ensures
        step_view(r) == files_spec(import_specifier@, state_view(state)),
{
    let pj = match &state {
        None => {
            return ResolveStepResult::Continue(import_specifier, state);
        },
        Some(p) => share(p),
    };
    if is_name(&pj.name, import_specifier.as_str()) {
        if let Some(files) = &pj.raw.files {
            if list_has(files, "index.js") {
                return ResolveStepResult::Resolved(join_path(pj.package_root.as_str(), "index.js"));
            }
            if list_has(files, "index.cjs") {
                return ResolveStepResult::Resolved(join_path(pj.package_root.as_str(), "index.cjs"));
            }
        }
    }
    ResolveStepResult::Continue(import_specifier, state)
}

/// `index.js` at the package root, for the package's own name.
pub open spec fn index_spec(fs: FileSystem, s: Seq<char>, st: Option<PjView>) -> StepView {
    match st {
        None => StepView::Continue(s, st),
        Some(v) => if v.name == Some(s) && fs.file(join(v.root, "index.js"@)) {
            StepView::Resolved(join(v.root, "index.js"@))
        } else {
            StepView::Continue(s, st)
        },
    }
}

/// The index step.
pub fn index_resolver(fs: &FileSystem, import_specifier: String, state: Option<Arc<PackageJson>>) -> (r: ResolveStepResult)
    ensures
        step_view(r) == index_spec(*fs, import_specifier@, state_view(state)),
{
    let pj = match &state {
        None => {
            return ResolveStepResult::Continue(import_specifier, state);
        },
        Some(p) => share(p),
    };
    if is_name(&pj.name, import_specifier.as_str()) {
        let p = join_path(pj.package_root.as_str(), "index.js");
        if fs.is_file(p.as_str()) {
            return ResolveStepResult::Resolved(p);
        }
    }
    ResolveStepResult::Continue(import_specifier, state)
}

/// Resolver that probes for a file of the package: for `<name>/<sub>`,
/// `<root>/<sub>` as a file or through the probe.
pub struct FileResolver {
    pub implicit_file_resolver: Option<ImplicitFileResolver>,
}

/// The file step for `<name>/<sub>`.
pub open spec fn file_spec(fs: FileSystem, imp: Option<ImplicitFileResolver>, s: Seq<char>, st: Option<PjView>) -> StepView {
    match st {
        None => StepView::Continue(s, st),
        Some(v) => match v.name {
            None => StepView::Continue(s, st),
            Some(n) => if is_prefix(n + seq!['/'], s) {
                let p = join(v.root, s.subrange(n.len() + 1int, s.len() as int));
                if fs.file(p) {
                    StepView::Resolved(p)
                } else {
                    match maybe_implicit(fs, imp, p) {
                        Some(q) => StepView::Resolved(q),
                        None => StepView::Continue(s, st),
                    }
                }
            } else {
                StepView::Continue(s, st)
            },
        },
    }
}

impl FileResolver {
    /// A file step with an optional probe.
    pub fn new(implicit_file_resolver: Option<ImplicitFileResolver>) -> (r: Self)
        ensures
            r.implicit_file_resolver == implicit_file_resolver,
    {
        FileResolver { implicit_file_resolver }
    }

    /// Probe for the file that `<name>/<sub>` names.
    pub fn call(&self, fs: &FileSystem, import_specifier: String, state: Option<Arc<PackageJson>>) -> (r: ResolveStepResult)
        ensures
            step_view(r) == file_spec(*fs, self.implicit_file_resolver, import_specifier@, state_view(state)),
    {
        let pj = match &state {
            None => {
                return ResolveStepResult::Continue(import_specifier, state);
            },
            Some(p) => share(p),
        };
        let n = match &pj.name {
            None => {
                return ResolveStepResult::Continue(import_specifier, state);
            },
            Some(n) => n,
        };
        let mut prefix = n.clone();
        prefix.append("/");
        proof {
            reveal_strlit("/");
            assert(prefix@ =~= n@ + seq!['/']);
        }
        if !crate::text::starts_with(import_specifier.as_str(), prefix.as_str()) {
            return ResolveStepResult::Continue(import_specifier, state);
        }
        let len = import_specifier.as_str().unicode_len();
        let sub = import_specifier.as_str().substring_char(n.as_str().unicode_len() + 1, len);
        let p = join_path(pj.package_root.as_str(), sub);
        if fs.is_file(p.as_str()) {
            return ResolveStepResult::Resolved(p);
        }
        match probe(fs, &self.implicit_file_resolver, p.as_str()) {
            Some(q) => ResolveStepResult::Resolved(q),
            None => ResolveStepResult::Continue(import_specifier, state),
        }
    }
}

} // verus!
