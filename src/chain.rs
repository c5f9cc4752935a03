//! The resolver chain: steps run in order, each handing its specifier and
//! state to the next, until one resolves or fails.

use std::sync::Arc;
use vstd::prelude::*;
use crate::errors::{err_view, ErrView, ResolveError};
use crate::exports_resolver::ExportsResolver;
use crate::fs::FileSystem;
use crate::parser::{get_spec, hint_index_from, hints_after, load_spec, PackageJson, PackageJsonParser};
use crate::path::{normalize, normalize_path, parent};
use crate::steps::{
    exports_spec, file_spec, files_resolver, files_spec, index_resolver, index_spec, loader_spec,
    peer_spec, pseudo_spec, relative_spec, state_view, step_view, FileResolver,
    HandleOptionalPeerDependenciesResolver, PackageJsonResolver, PseudoNamespaceResolver,
    RelativePathResolver, ResolveStepResult, StepView,
};

verus! {

/// One step of a chain.
pub enum ChainStep {
    /// Relative specifiers.
    RelativePath(RelativePathResolver),
    /// Optional peer dependencies that are not installed.
    HandleOptionalPeerDependencies(HandleOptionalPeerDependenciesResolver),
    /// Loads the specifier's package; the steps below need it.
    PackageJson(PackageJsonResolver),
    /// Pseudo-namespaced subpackages.
    PseudoNamespace(PseudoNamespaceResolver),
    /// One `exports`-like field.
    Exports(ExportsResolver),
    /// `index.js` or `index.cjs` listed in `files`.
    Files,
    /// `index.js` at the package root.
    Index,
    /// A file of the package named by the specifier's subpath.
    File(FileResolver),
}

/// What one step does.
pub open spec fn step_spec(
    step: ChainStep,
    fs: FileSystem,
    hints: Seq<(Seq<char>, Option<Seq<char>>)>,
    s: Seq<char>,
    from: Seq<char>,
    st: Option<crate::parser::PjView>,
) -> (StepView, Seq<(Seq<char>, Option<Seq<char>>)>) {
    match step {
        ChainStep::RelativePath(r) => relative_spec(fs, hints, r.implicit_file_resolver, s, from, st),
        ChainStep::HandleOptionalPeerDependencies(_) => peer_spec(fs, hints, s, from, st),
        ChainStep::PackageJson(_) => loader_spec(fs, hints, s, from),
        ChainStep::PseudoNamespace(_) => pseudo_spec(fs, hints, s, st),
        ChainStep::Exports(r) => (exports_spec(fs, r, s, st), hints),
        ChainStep::Files => (files_spec(s, st), hints),
        ChainStep::Index => (index_spec(fs, s, st), hints),
        ChainStep::File(r) => (file_spec(fs, r.implicit_file_resolver, s, st), hints),
    }
}

impl ChainStep {
    /// Run this step.
    pub fn call(
        &self,
        parser: &mut PackageJsonParser,
        fs: &FileSystem,
        import_specifier: String,
        from: &str,
        state: Option<Arc<PackageJson>>,
    ) -> (r: ResolveStepResult)
        requires
            old(parser).wf(*fs),
        ensures
            final(parser).wf(*fs),
            (step_view(r), final(parser).hints()) == step_spec(*self, *fs, old(parser).hints(), import_specifier@, from@, state_view(state)),
    {
        match self {
            ChainStep::RelativePath(r) => r.call(parser, fs, import_specifier, from, state),
            ChainStep::HandleOptionalPeerDependencies(r) => r.call(parser, fs, import_specifier, from, state),
            ChainStep::PackageJson(r) => r.call(parser, fs, import_specifier, from),
            ChainStep::PseudoNamespace(r) => r.call(parser, fs, import_specifier, state),
            ChainStep::Exports(r) => r.call(fs, import_specifier, state),
            ChainStep::Files => files_resolver(import_specifier, state),
            ChainStep::Index => index_resolver(fs, import_specifier, state),
            ChainStep::File(r) => r.call(fs, import_specifier, state),
        }
    }
}

/// Running the steps from index `i` on.
pub open spec fn run_spec(
    fs: FileSystem,
    steps: Seq<ChainStep>,
    i: int,
    hints: Seq<(Seq<char>, Option<Seq<char>>)>,
    s: Seq<char>,
    from: Seq<char>,
    st: Option<crate::parser::PjView>,
) -> (StepView, Seq<(Seq<char>, Option<Seq<char>>)>)
    decreases steps.len() - i,
{
    if i < 0 || i >= steps.len() {
        (StepView::Continue(s, st), hints)
    } else {
        let (o, h) = step_spec(steps[i], fs, hints, s, from, st);
        match o {
            StepView::Continue(s2, st2) => run_spec(fs, steps, i + 1, h, s2, from, st2),
            _ => (o, h),
        }
    }
}

/// An ordered list of steps.
pub struct Chain {
    pub steps: Vec<ChainStep>,
}

impl Chain {
    /// Run the steps in order from no state.
    pub fn call(&self, parser: &mut PackageJsonParser, fs: &FileSystem, import_specifier: String, from: &str) -> (r: ResolveStepResult)
        requires
            old(parser).wf(*fs),
        ensures
            final(parser).wf(*fs),
            (step_view(r), final(parser).hints()) == run_spec(*fs, self.steps@, 0, old(parser).hints(), import_specifier@, from@, None),
    {
        let mut s = import_specifier;
        let mut st: Option<Arc<PackageJson>> = None;
        let mut i: usize = 0;
        while i < self.steps.len()
            invariant
                i <= self.steps@.len(),
                parser.wf(*fs),
                run_spec(*fs, self.steps@, 0, old(parser).hints(), import_specifier@, from@, None) == run_spec(
                    *fs,
                    self.steps@,
                    i as int,
                    parser.hints(),
                    s@,
                    from@,
                    state_view(st),
                ),
            decreases self.steps@.len() - i,
        {
            match self.steps[i].call(parser, fs, s, from, st) {
                ResolveStepResult::Continue(s2, st2) => {
                    s = s2;
                    st = st2;
                },
                other => {
                    return other;
                },
            }
            i += 1;
        }
        ResolveStepResult::Continue(s, st)
    }
}

/// What resolving gives: the resolved path in normal form, or the failure.
pub open spec fn resolve_spec(
    fs: FileSystem,
    steps: Seq<ChainStep>,
    hints: Seq<(Seq<char>, Option<Seq<char>>)>,
    s: Seq<char>,
    from: Seq<char>,
) -> (Result<Seq<char>, ErrView>, Seq<(Seq<char>, Option<Seq<char>>)>) {
    let (o, h) = run_spec(fs, steps, 0, hints, s, from, None);
    (
        match o {
            StepView::Resolved(p) => if fs.file(p) || fs.dir(p) {
                Ok(normalize(p))
            } else {
                Err(ErrView::CanonicalizeRelativePathFailed(p, "No such file or directory"@))
            },
            StepView::Continue(s2, _) => Err(ErrView::FailedToResolve(s2, from)),
            StepView::Failed(e) => Err(e),
        },
        h,
    )
}

/// The view of a resolution.
pub open spec fn resolved_view(r: Result<String, ResolveError>) -> Result<Seq<char>, ErrView> {
    match r {
        Ok(p) => Ok(p@),
        Err(e) => Err(err_view(e)),
    }
}

/// A chain together with the `package.json` cache that its steps share.
pub struct Resolver {
    pub chain: Chain,
    pub package_json_parser: PackageJsonParser,
}

impl Resolver {
    /// A resolver running `chain` with `package_json_parser`.
    pub fn new(chain: Chain, package_json_parser: PackageJsonParser) -> (r: Self)
        ensures
            r.chain == chain,
            r.package_json_parser == package_json_parser,
    {
        Resolver { chain, package_json_parser }
    }

    /// Resolve `import_specifier` imported from the file `from`.
    pub fn resolve(&mut self, fs: &FileSystem, import_specifier: String, from: &str) -> (r: Result<String, ResolveError>)
        requires
            old(self).package_json_parser.wf(*fs),
        ensures
            final(self).package_json_parser.wf(*fs),
            final(self).chain == old(self).chain,
            resolved_view(r) == resolve_spec(*fs, old(self).chain.steps@, old(self).package_json_parser.hints(), import_specifier@, from@).0,
            final(self).package_json_parser.hints() == resolve_spec(*fs, old(self).chain.steps@, old(self).package_json_parser.hints(), import_specifier@, from@).1,
            r is Ok ==> normalize(r->Ok_0@) == r->Ok_0@,
    {
        match self.chain.call(&mut self.package_json_parser, fs, import_specifier, from) {
            ResolveStepResult::Resolved(p) => {
                if fs.is_file(p.as_str()) || fs.is_dir(p.as_str()) {
                    proof {
                        crate::path::lemma_normalize_idempotent(p@);
                    }
                    Ok(normalize_path(p.as_str()))
                } else {
                    Err(ResolveError::CanonicalizeRelativePathFailed(p, "No such file or directory".to_owned()))
                }
            },
            ResolveStepResult::Continue(s, _) => Err(ResolveError::FailedToResolve(s, from.to_owned())),
            ResolveStepResult::Failed(e) => Err(e),
        }
    }
}


/// Every manifest on the disk that parses names its package.
pub open spec fn all_named(fs: FileSystem) -> bool {
    forall|i: int| 0 <= i < fs.manifests@.len() && (#[trigger] fs.manifests@[i]).1 is Ok ==> fs.manifests@[i].1->Ok_0.name is Some
}

proof fn lemma_load_ignores_hint(fs: FileSystem)
    requires
        all_named(fs),
    ensures
        forall|h: Seq<(Seq<char>, Option<Seq<char>>)>, d: Seq<char>, x: Option<Seq<char>>|
            #[trigger] get_spec(fs, h, d, x) == load_spec(fs, d, None),
{
    assert forall|h: Seq<(Seq<char>, Option<Seq<char>>)>, d: Seq<char>, x: Option<Seq<char>>|
        #[trigger] get_spec(fs, h, d, x) == load_spec(fs, d, None) by {
        let i = crate::fs::manifest_index_from(fs.manifests@, d, 0);
        if 0 <= i < fs.manifests@.len() {
            assert(fs.manifests@[i].1 is Ok ==> fs.manifests@[i].1->Ok_0.name is Some);
        }
    }
}

proof fn lemma_run_ignores_cache(
    fs: FileSystem,
    steps: Seq<ChainStep>,
    i: int,
    h1: Seq<(Seq<char>, Option<Seq<char>>)>,
    h2: Seq<(Seq<char>, Option<Seq<char>>)>,
    s: Seq<char>,
    from: Seq<char>,
    st: Option<crate::parser::PjView>,
)
    requires
        all_named(fs),
    ensures
        run_spec(fs, steps, i, h1, s, from, st).0 == run_spec(fs, steps, i, h2, s, from, st).0,
    decreases steps.len() - i,
{
    lemma_load_ignores_hint(fs);
    if 0 <= i < steps.len() {
        let (o1, g1) = step_spec(steps[i], fs, h1, s, from, st);
        let (o2, g2) = step_spec(steps[i], fs, h2, s, from, st);
        assert(o1 == o2);
        match o1 {
            StepView::Continue(s2, st2) => {
                lemma_run_ignores_cache(fs, steps, i + 1, g1, g2, s2, from, st2);
            },
            _ => {},
        }
    }
}

/// Caching is invisible: where every manifest names its package, a
/// resolver whose cache holds anything resolves as one with an empty cache.
pub proof fn lemma_cache_is_invisible(
    fs: FileSystem,
    steps: Seq<ChainStep>,
    hints: Seq<(Seq<char>, Option<Seq<char>>)>,
    s: Seq<char>,
    from: Seq<char>,
)
    requires
        all_named(fs),
    ensures
        resolve_spec(fs, steps, hints, s, from).0 == resolve_spec(fs, steps, Seq::empty(), s, from).0,
{
    lemma_run_ignores_cache(fs, steps, 0, hints, Seq::empty(), s, from, None);
}

/// `hx` is `h` followed by entries for directories that `h` lacks and
/// whose manifests load: what later loads can add to a cache.
pub open spec fn extends(fs: FileSystem, h: Seq<(Seq<char>, Option<Seq<char>>)>, hx: Seq<(Seq<char>, Option<Seq<char>>)>) -> bool {
    &&& h.len() <= hx.len()
    &&& hx.subrange(0, h.len() as int) == h
    &&& forall|k: int| h.len() <= k < hx.len() ==> hint_index_from(h, (#[trigger] hx[k]).0, 0) < 0
        && load_spec(fs, hx[k].0, hx[k].1) is Ok
}

proof fn lemma_index_in_prefix(h: Seq<(Seq<char>, Option<Seq<char>>)>, hx: Seq<(Seq<char>, Option<Seq<char>>)>, d: Seq<char>, i: int)
    requires
        0 <= i <= h.len() <= hx.len(),
        hx.subrange(0, h.len() as int) == h,
    ensures
        hint_index_from(h, d, i) >= 0 ==> hint_index_from(hx, d, i) == hint_index_from(h, d, i),
        hint_index_from(h, d, i) < 0 ==> hint_index_from(hx, d, i) == hint_index_from(hx, d, h.len() as int),
    decreases h.len() - i,
{
    if i < h.len() {
        assert(hx[i] == h[i]);
        lemma_index_in_prefix(h, hx, d, i + 1);
    }
}

proof fn lemma_index_beyond(h: Seq<(Seq<char>, Option<Seq<char>>)>, d: Seq<char>, i: int)
    requires
        0 <= i,
    ensures
        hint_index_from(h, d, i) == -1 || (i <= hint_index_from(h, d, i) < h.len() && h[hint_index_from(h, d, i)].0 == d),
    decreases h.len() - i,
{
    if i < h.len() && h[i].0 != d {
        lemma_index_beyond(h, d, i + 1);
    }
}

proof fn lemma_extends_trans(fs: FileSystem, a: Seq<(Seq<char>, Option<Seq<char>>)>, b: Seq<(Seq<char>, Option<Seq<char>>)>, c: Seq<(Seq<char>, Option<Seq<char>>)>)
    requires
        extends(fs, a, b),
        extends(fs, b, c),
    ensures
        extends(fs, a, c),
{
    assert(c.subrange(0, a.len() as int) =~= b.subrange(0, a.len() as int)) by {
        assert(c.subrange(0, b.len() as int) == b);
    }
    assert forall|k: int| a.len() <= k < c.len() implies hint_index_from(a, (#[trigger] c[k]).0, 0) < 0
        && load_spec(fs, c[k].0, c[k].1) is Ok by {
        if k < b.len() {
            assert(c[k] == b[k]);
        } else {
            let d = c[k].0;
            lemma_index_in_prefix(a, b, d, 0);
            assert(hint_index_from(b, d, 0) < 0);
        }
    }
}

/// A load from cache `h` is answered the same from any cache that extends
/// the cache after it, and adds nothing there.
proof fn lemma_load_stable(
    fs: FileSystem,
    h: Seq<(Seq<char>, Option<Seq<char>>)>,
    hx: Seq<(Seq<char>, Option<Seq<char>>)>,
    d: Seq<char>,
    x: Option<Seq<char>>,
)
    requires
        extends(fs, hints_after(fs, h, d, x), hx),
    ensures
        extends(fs, h, hints_after(fs, h, d, x)),
        get_spec(fs, hx, d, x) == get_spec(fs, h, d, x),
        hints_after(fs, hx, d, x) == hx,
{
    let h1 = hints_after(fs, h, d, x);
    lemma_index_beyond(h, d, 0);
    lemma_index_beyond(hx, d, 0);
    lemma_index_beyond(h1, d, 0);
    lemma_index_in_prefix(h1, hx, d, 0);
    lemma_index_beyond(hx, d, h1.len() as int);
    if hint_index_from(h, d, 0) < 0 && load_spec(fs, d, x) is Ok {
        assert(h1 == h.push((d, x)));
        assert(h1.subrange(0, h.len() as int) =~= h);
        lemma_index_in_prefix(h, h1, d, 0);
        lemma_index_beyond(h1, d, h.len() as int);
        assert(h1[h.len() as int].0 == d);
        assert(hint_index_from(h1, d, h.len() as int) == h.len());
    } else {
        assert(h1 == h);
        assert(h1.subrange(0, h.len() as int) =~= h);
        lemma_index_in_prefix(h, h1, d, 0);
        if hint_index_from(h, d, 0) < 0 {
            let j = hint_index_from(hx, d, 0);
            if j >= 0 {
                assert(hx[j].0 == d);
                assert(load_spec(fs, hx[j].0, hx[j].1) is Ok);
            }
        }
    }
}

proof fn lemma_step_stable(
    step: ChainStep,
    fs: FileSystem,
    h: Seq<(Seq<char>, Option<Seq<char>>)>,
    hx: Seq<(Seq<char>, Option<Seq<char>>)>,
    s: Seq<char>,
    from: Seq<char>,
    st: Option<crate::parser::PjView>,
)
    requires
        extends(fs, step_spec(step, fs, h, s, from, st).1, hx),
    ensures
        extends(fs, h, step_spec(step, fs, h, s, from, st).1),
        step_spec(step, fs, hx, s, from, st) == (step_spec(step, fs, h, s, from, st).0, hx),
{
    let h1 = step_spec(step, fs, h, s, from, st).1;
    assert(h.subrange(0, h.len() as int) =~= h);
    assert(hx.subrange(0, hx.len() as int) =~= hx);
    match step {
        ChainStep::RelativePath(r) => {
            if s.len() > 0 && s[0] == '.' {
                match parent(from) {
                    Some(dd) => {
                        let p = crate::path::join(dd, s);
                        if !fs.file(p) && crate::probe::maybe_implicit(fs, r.implicit_file_resolver, p) is None
                            && fs.file(crate::parser::manifest_path(p)) {
                            lemma_load_stable(fs, h, hx, p, None);
                        }
                    },
                    None => {},
                }
            }
        },
        ChainStep::HandleOptionalPeerDependencies(_) => {
            let fd = if fs.dir(from) {
                Some(from)
            } else {
                parent(from)
            };
            match fd {
                Some(dd) => match crate::parser::package_json_spec(fs, dd) {
                    Ok(dir) => {
                        lemma_load_stable(fs, h, hx, dir, None);
                    },
                    Err(_) => {},
                },
                None => {},
            }
        },
        ChainStep::PackageJson(_) => {
            match crate::parser::node_modules_spec(fs, from) {
                Ok(nm) => {
                    let name = crate::utils::npm_name(s);
                    lemma_load_stable(fs, h, hx, crate::path::join(nm, name), Some(name));
                },
                Err(_) => {},
            }
        },
        ChainStep::PseudoNamespace(_) => {
            match st {
                Some(v) => {
                    let j = crate::text::first_index_from(s, '/', 0);
                    let scope = s.subrange(0, j);
                    let sub = s.subrange(j + 1, s.len() as int);
                    if j < s.len() && !(scope.len() > 0 && scope[0] == '@') && !crate::text::has_char(sub, '/') {
                        let mp = crate::path::join(v.root, sub);
                        if fs.file(crate::parser::manifest_path(mp)) {
                            lemma_load_stable(fs, h, hx, mp, Some(s));
                        }
                    }
                },
                None => {},
            }
        },
        _ => {},
    }
}

proof fn lemma_run_stable(
    fs: FileSystem,
    steps: Seq<ChainStep>,
    i: int,
    h: Seq<(Seq<char>, Option<Seq<char>>)>,
    hx: Seq<(Seq<char>, Option<Seq<char>>)>,
    s: Seq<char>,
    from: Seq<char>,
    st: Option<crate::parser::PjView>,
)
    requires
        extends(fs, run_spec(fs, steps, i, h, s, from, st).1, hx),
    ensures
        extends(fs, h, run_spec(fs, steps, i, h, s, from, st).1),
        run_spec(fs, steps, i, hx, s, from, st) == (run_spec(fs, steps, i, h, s, from, st).0, hx),
    decreases steps.len() - i,
{
    assert(h.subrange(0, h.len() as int) =~= h);
    if 0 <= i < steps.len() {
        let (o, h1) = step_spec(steps[i], fs, h, s, from, st);
        match o {
            StepView::Continue(s2, st2) => {
                let h_end = run_spec(fs, steps, i + 1, h1, s2, from, st2).1;
                lemma_run_stable(fs, steps, i + 1, h1, hx, s2, from, st2);
                lemma_extends_trans(fs, h1, h_end, hx);
                lemma_step_stable(steps[i], fs, h, hx, s, from, st);
                lemma_step_stable(steps[i], fs, h, h_end, s, from, st);
                lemma_extends_trans(fs, h, h1, h_end);
            },
            _ => {
                lemma_step_stable(steps[i], fs, h, hx, s, from, st);
            },
        }
    }
}

/// Resolution is idempotent: resolving the same specifier from the same
/// path a second time, with the cache that the first left, gives the same
/// result.
pub proof fn lemma_resolve_idempotent(
    fs: FileSystem,
    steps: Seq<ChainStep>,
    hints: Seq<(Seq<char>, Option<Seq<char>>)>,
    s: Seq<char>,
    from: Seq<char>,
)
    ensures
        resolve_spec(fs, steps, resolve_spec(fs, steps, hints, s, from).1, s, from).0 == resolve_spec(fs, steps, hints, s, from).0,
{
    let h_end = resolve_spec(fs, steps, hints, s, from).1;
    assert(h_end.subrange(0, h_end.len() as int) =~= h_end);
    lemma_run_stable(fs, steps, 0, hints, h_end, s, from, None);
}

/// A resolved path is in normal form, so resolving gives canonical paths
/// that normalizing leaves unchanged.
pub proof fn lemma_resolved_is_normal(
    fs: FileSystem,
    steps: Seq<ChainStep>,
    hints: Seq<(Seq<char>, Option<Seq<char>>)>,
    s: Seq<char>,
    from: Seq<char>,
)
    ensures
        resolve_spec(fs, steps, hints, s, from).0 is Ok ==> normalize(resolve_spec(fs, steps, hints, s, from).0->Ok_0)
            == resolve_spec(fs, steps, hints, s, from).0->Ok_0,
{
    match run_spec(fs, steps, 0, hints, s, from, None).0 {
        StepView::Resolved(p) => {
            crate::path::lemma_normalize_idempotent(p);
        },
        _ => {},
    }
}

/// A relative specifier imported from a path without a parent fails with
/// `FromPathHasNoParent` in a chain that starts with the relative-path step.
pub proof fn lemma_relative_without_parent(
    fs: FileSystem,
    steps: Seq<ChainStep>,
    hints: Seq<(Seq<char>, Option<Seq<char>>)>,
    s: Seq<char>,
    from: Seq<char>,
)
    requires
        steps.len() > 0,
        steps[0] is RelativePath,
        s.len() > 0 && s[0] == '.',
        parent(from) is None,
    ensures
        resolve_spec(fs, steps, hints, s, from).0 == Err::<Seq<char>, ErrView>(ErrView::FromPathHasNoParent),
{
}

} // verus!
