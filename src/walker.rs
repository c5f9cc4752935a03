//! The dependency walker's decisions: the visited set, attributing CommonJS
//! syntax, and what to do with each dependency of a parsed file. Reading and
//! parsing files is left to the caller, which runs the walk.

use vstd::prelude::*;
use crate::analysis::{Analysis, AnalysisError};
use crate::chain::{resolve_spec, Resolver};
use crate::errors::{err_view, ErrView, ResolveError};
use crate::fs::FileSystem;
use crate::order::{codes, codes_of, lemma_lex_total, lex_le, lex_le_exec};
use crate::text::{ends_with, is_prefix, is_suffix, starts_with, str_eq};
use crate::utils::{get_npm_package_name, npm_name};

verus! {

/// Strict order on names by their characters' codes.
pub open spec fn name_lt(a: Seq<char>, b: Seq<char>) -> bool {
    lex_le(codes(a, false), codes(b, false)) && a != b
}

/// The names are strictly increasing.
pub open spec fn strictly_sorted(v: Seq<String>) -> bool {
    forall|i: int, j: int| 0 <= i < j < v.len() ==> name_lt((#[trigger] v[i])@, (#[trigger] v[j])@)
}

/// The names as a set of views.
pub open spec fn name_set(v: Seq<String>) -> Set<Seq<char>> {
    Set::new(|x: Seq<char>| exists|i: int| 0 <= i < v.len() && (#[trigger] v[i])@ == x)
}

proof fn lemma_lex_trans(a: Seq<u32>, b: Seq<u32>, c: Seq<u32>)
    requires
        lex_le(a, b),
        lex_le(b, c),
    ensures
        lex_le(a, c),
{
    crate::order::lemma_lex_trans(a, b, c);
}

/// Insert `x` into the strictly sorted set `set`.
pub fn insert_name(set: &mut Vec<String>, x: String)
    requires
        strictly_sorted(old(set)@),
    ensures
        strictly_sorted(final(set)@),
        name_set(final(set)@) == name_set(old(set)@).insert(x@),
{
    let kx = codes_of(x.as_str(), false);
    let mut p: usize = 0;
    while p < set.len() && lt_at(set, p, &x, &kx)
        invariant
            p <= set@.len(),
            kx@ == codes(x@, false),
            strictly_sorted(set@),
            set@ == old(set)@,
            forall|t: int| 0 <= t < p ==> name_lt((#[trigger] set@[t])@, x@),
        decreases set@.len() - p,
    {
        p += 1;
    }
    if p < set.len() && str_eq(set[p].as_str(), x.as_str()) {
        assert(name_set(set@) =~= name_set(old(set)@).insert(x@));
        return;
    }
    proof {
        if p < set@.len() {
            lemma_lex_total(codes(set@[p as int]@, false), codes(x@, false));
        }
    }
    let ghost old_set = set@;
    set.insert(p, x);
    proof {
        assert forall|i: int, j: int| 0 <= i < j < set@.len() implies name_lt(
            (#[trigger] set@[i])@,
            (#[trigger] set@[j])@,
        ) by {
            if i < p && j == p {
            } else if i < p && j > p {
                assert(name_lt(old_set[i]@, old_set[j - 1]@));
            } else if i == p && j > p {
                let y = old_set[p as int]@;
                assert(!name_lt(y, x@));
                assert(y != x@);
                assert(!lex_le(codes(y, false), codes(x@, false)));
                assert(lex_le(codes(x@, false), codes(y, false)));
                if j - 1 > p {
                    let z = old_set[j - 1]@;
                    assert(name_lt(y, z));
                    lemma_lex_trans(codes(x@, false), codes(y, false), codes(z, false));
                }
            } else if i > p {
                assert(name_lt(old_set[i - 1]@, old_set[j - 1]@));
            }
        }
        assert forall|v: Seq<char>| name_set(set@).contains(v) <==> name_set(old_set).insert(x@).contains(v) by {
            if name_set(old_set).contains(v) && v != x@ {
                let i = choose|i: int| 0 <= i < old_set.len() && (#[trigger] old_set[i])@ == v;
                if i < p {
                    assert(set@[i] == old_set[i]);
                } else {
                    assert(set@[i + 1] == old_set[i]);
                }
            }
            if v == x@ {
                assert(set@[p as int]@ == x@);
            }
        }
        assert(name_set(set@) =~= name_set(old_set).insert(x@));
    }
}

fn lt_at(set: &Vec<String>, p: usize, x: &String, kx: &Vec<u32>) -> (r: bool)
    requires
        p < set@.len(),
        kx@ == codes(x@, false),
    ensures
        r == name_lt(set@[p as int]@, x@),
{
    let ky = codes_of(set[p].as_str(), false);
    lex_le_exec(&ky, kx) && !str_eq(set[p].as_str(), x.as_str())
}

/// The analysis is well formed: both name lists are strictly sorted sets.
pub open spec fn analysis_wf(a: Analysis) -> bool {
    strictly_sorted(a.transitive_commonjs_dependencies@) && strictly_sorted(a.esm_missing_js_file_extensions@)
}

/// A fresh analysis of `package_name`: an ESM entry until shown otherwise.
pub fn new_analysis(package_name: &str) -> (r: Analysis)
    ensures
        r.package_name@ == package_name@,
        r.is_entry_esm,
        r.transitive_commonjs_dependencies@.len() == 0,
        r.esm_missing_js_file_extensions@.len() == 0,
        analysis_wf(r),
{
    Analysis {
        package_name: package_name.to_owned(),
        is_entry_esm: true,
        transitive_commonjs_dependencies: Vec::new(),
        esm_missing_js_file_extensions: Vec::new(),
    }
}

/// Record CommonJS syntax found in a file of `current_module`: the top-level
/// package's own file clears its ESM entry; another package's joins the
/// transitive CommonJS dependencies.
pub fn record_commonjs(analysis: &mut Analysis, current_module: &str)
    requires
        analysis_wf(*old(analysis)),
    ensures
        analysis_wf(*final(analysis)),
        final(analysis).package_name == old(analysis).package_name,
        final(analysis).esm_missing_js_file_extensions == old(analysis).esm_missing_js_file_extensions,
        current_module@ == old(analysis).package_name@ ==> !final(analysis).is_entry_esm
            && final(analysis).transitive_commonjs_dependencies == old(analysis).transitive_commonjs_dependencies,
        current_module@ != old(analysis).package_name@ ==> final(analysis).is_entry_esm == old(analysis).is_entry_esm
            && name_set(final(analysis).transitive_commonjs_dependencies@) == name_set(
            old(analysis).transitive_commonjs_dependencies@,
        ).insert(current_module@),
{
    if str_eq(current_module, analysis.package_name.as_str()) {
        analysis.is_entry_esm = false;
    } else {
        insert_name(&mut analysis.transitive_commonjs_dependencies, current_module.to_owned());
    }
}

/// Whether a walked path is skipped unparsed: its extension is `json` or
/// `node`.
pub open spec fn skipped_file(entry: Seq<char>) -> bool {
    let name = crate::path::segments_from(entry, 0).last();
    (is_suffix(".json"@, name) && name.len() > 5) || (is_suffix(".node"@, name) && name.len() > 5)
}

/// Whether the walker skips `entry` without parsing it.
pub fn is_skipped_file(entry: &str) -> (r: bool)
    ensures
        r == skipped_file(entry@),
{
    let segs = crate::path::split_segments(entry);
    proof {
        crate::path::lemma_segments_from_len(entry@, 0);
    }
    let name = segs[segs.len() - 1].as_str();
    let n = name.unicode_len();
    (ends_with(name, ".json") && n > 5) || (ends_with(name, ".node") && n > 5)
}

/// Enter `entry` into the visited set; false where it was there already.
pub fn enter(visited: &mut Vec<String>, entry: &str) -> (r: bool)
    ensures
        r == !name_set(old(visited)@).contains(entry@),
        name_set(final(visited)@) == name_set(old(visited)@).insert(entry@),
{
    let mut i: usize = 0;
    while i < visited.len()
        invariant
            i <= visited@.len(),
            visited@ == old(visited)@,
            forall|t: int| 0 <= t < i ==> (#[trigger] visited@[t])@ != entry@,
        decreases visited@.len() - i,
    {
        if str_eq(visited[i].as_str(), entry) {
            assert(name_set(visited@).contains(entry@));
            assert(name_set(visited@) =~= name_set(visited@).insert(entry@));
            return false;
        }
        i += 1;
    }
    let ghost old_v = visited@;
    visited.push(entry.to_owned());
    proof {
        assert forall|v: Seq<char>| name_set(visited@).contains(v) <==> name_set(old_v).insert(entry@).contains(v) by {
            if name_set(old_v).contains(v) {
                let k = choose|k: int| 0 <= k < old_v.len() && (#[trigger] old_v[k])@ == v;
                assert(visited@[k] == old_v[k]);
            }
            if v == entry@ {
                assert(visited@[old_v.len() as int]@ == entry@);
            }
        }
        assert(name_set(visited@) =~= name_set(old_v).insert(entry@));
    }
    true
}


/// What the walker makes of one import specifier of a file.
pub struct DependencyPlan {
    /// The specifier with one trailing `/` removed.
    pub specifier: String,
    /// A failed resolution may fall back to a Node.js builtin.
    pub allow_node_builtins: bool,
    /// A relative specifier without a `.js` or `.mjs` extension.
    pub missing_js_file_extension: bool,
    /// Not resolved at all: a `node:` builtin or a `.json` file.
    pub skip: bool,
    /// The package that the walk is in after following the edge: the
    /// npm-name prefix of a bare specifier, else the current package.
    pub next_module: String,
}

/// The specifier with one trailing `/` removed.
pub open spec fn strip_slash(s: Seq<char>) -> Seq<char> {
    if s.len() > 0 && s[s.len() - 1] == '/' {
        s.subrange(0, s.len() - 1)
    } else {
        s
    }
}

/// The plan for specifier `s` met in package `current`, as plain values:
/// (specifier, builtins allowed, missing extension, skip, next package).
pub open spec fn plan_spec(s: Seq<char>, current: Seq<char>) -> (Seq<char>, bool, bool, bool, Seq<char>) {
    let t = strip_slash(s);
    let relative = t.len() > 0 && t[0] == '.';
    let bare = !(t.len() > 0 && (t[0] == '.' || t[0] == '/'));
    (
        t,
        !(s.len() > 0 && s[s.len() - 1] == '/'),
        relative && !is_suffix(".js"@, t) && !is_suffix(".mjs"@, t),
        is_prefix("node:"@, t) || is_suffix(".json"@, t),
        if bare {
            npm_name(t)
        } else {
            current
        },
    )
}

/// The view of a plan.
pub open spec fn plan_view(p: DependencyPlan) -> (Seq<char>, bool, bool, bool, Seq<char>) {
    (p.specifier@, p.allow_node_builtins, p.missing_js_file_extension, p.skip, p.next_module@)
}

/// Plan the handling of `specifier`, met in a file of `current_module`.
pub fn plan_dependency(specifier: &str, current_module: &str) -> (r: DependencyPlan)
    ensures
        plan_view(r) == plan_spec(specifier@, current_module@),
{
    let n = specifier.unicode_len();
    let trailing = n > 0 && specifier.get_char(n - 1) == '/';
    let t = if trailing {
        specifier.substring_char(0, n - 1)
    } else {
        specifier
    };
    let relative = crate::text::chars_of(t).len() > 0 && t.get_char(0) == '.';
    let missing = relative && !ends_with(t, ".js") && !ends_with(t, ".mjs");
    let skip = starts_with(t, "node:") || ends_with(t, ".json");
    let bare = !(crate::text::chars_of(t).len() > 0 && (t.get_char(0) == '.' || t.get_char(0) == '/'));
    let next_module = if bare {
        get_npm_package_name(t).to_owned()
    } else {
        current_module.to_owned()
    };
    DependencyPlan {
        specifier: t.to_owned(),
        allow_node_builtins: !trailing,
        missing_js_file_extension: missing,
        skip,
        next_module,
    }
}

/// What happens to one edge of the walk.
pub enum EdgeView {
    /// Not followed.
    Skip,
    /// Walk into `path` as package `next`.
    Walk(Seq<char>, Seq<char>),
    /// The analysis stops with this resolution failure.
    Fail(ErrView),
}

/// `x` is one of the builtin module names.
pub open spec fn is_builtin(builtins: Seq<String>, x: Seq<char>) -> bool {
    exists|i: int| 0 <= i < builtins.len() && (#[trigger] builtins[i])@ == x
}

/// The fate of an edge given the plan and what resolving gave: a resolved
/// path is walked; a failure is forgiven for an allowed builtin or a missing
/// optional peer dependency, and is fatal otherwise.
pub open spec fn edge_spec(plan: (Seq<char>, bool, bool, bool, Seq<char>), res: Result<Seq<char>, ErrView>, builtins: Seq<String>) -> EdgeView {
    if plan.3 {
        EdgeView::Skip
    } else {
        match res {
            Ok(p) => EdgeView::Walk(plan.4, p),
            Err(e) => if (plan.1 && is_builtin(builtins, plan.0)) || e is PeerDependencyNotInstalled {
                EdgeView::Skip
            } else {
                EdgeView::Fail(e)
            },
        }
    }
}

/// What the walker does with specifier `s` met in package `current` in the
/// file `entry`.
pub open spec fn dependency_spec(
    fs: FileSystem,
    steps: Seq<crate::chain::ChainStep>,
    hints: Seq<(Seq<char>, Option<Seq<char>>)>,
    builtins: Seq<String>,
    s: Seq<char>,
    current: Seq<char>,
    entry: Seq<char>,
) -> EdgeView {
    let plan = plan_spec(s, current);
    edge_spec(plan, resolve_spec(fs, steps, hints, plan.0, entry).0, builtins)
}

fn builtin_listed(builtins: &Vec<String>, x: &str) -> (r: bool)
    ensures
        r == is_builtin(builtins@, x@),
{
    let mut i: usize = 0;
    while i < builtins.len()
        invariant
            i <= builtins@.len(),
            forall|t: int| 0 <= t < i ==> (#[trigger] builtins@[t])@ != x@,
        decreases builtins@.len() - i,
    {
        if str_eq(builtins[i].as_str(), x) {
            return true;
        }
        i += 1;
    }
    false
}

/// The view of an edge's handling.
pub open spec fn edge_view(r: Result<Option<(String, String)>, AnalysisError>) -> EdgeView {
    match r {
        Ok(None) => EdgeView::Skip,
        Ok(Some((n, p))) => EdgeView::Walk(n@, p@),
        Err(AnalysisError::ResolveError { source, .. }) => EdgeView::Fail(err_view(source)),
        Err(AnalysisError::ParseError { .. }) => EdgeView::Skip,
    }
}

/// Handle one dependency `specifier` of the file `entrypoint` in package
/// `current_module`: note a missing extension, then skip it, or resolve it
/// and say where to walk, or fail the analysis.
pub fn handle_dependency(
    resolver: &mut Resolver,
    fs: &FileSystem,
    analysis: &mut Analysis,
    builtins: &Vec<String>,
    specifier: &str,
    current_module: &str,
    entrypoint: &str,
) -> (r: Result<Option<(String, String)>, AnalysisError>)
    requires
        old(resolver).package_json_parser.wf(*fs),
        analysis_wf(*old(analysis)),
    ensures
        final(resolver).package_json_parser.wf(*fs),
        final(resolver).chain == old(resolver).chain,
        analysis_wf(*final(analysis)),
        final(analysis).package_name == old(analysis).package_name,
        final(analysis).is_entry_esm == old(analysis).is_entry_esm,
        final(analysis).transitive_commonjs_dependencies == old(analysis).transitive_commonjs_dependencies,
        name_set(final(analysis).esm_missing_js_file_extensions@) == if plan_spec(specifier@, current_module@).2 {
            name_set(old(analysis).esm_missing_js_file_extensions@).insert(current_module@)
        } else {
            name_set(old(analysis).esm_missing_js_file_extensions@)
        },
        edge_view(r) == dependency_spec(*fs, old(resolver).chain.steps@, old(resolver).package_json_parser.hints(), builtins@, specifier@, current_module@, entrypoint@),
        plan_spec(specifier@, current_module@).3 ==> final(resolver).package_json_parser.hints() == old(resolver).package_json_parser.hints(),
        !plan_spec(specifier@, current_module@).3 ==> final(resolver).package_json_parser.hints() == resolve_spec(
            *fs,
            old(resolver).chain.steps@,
            old(resolver).package_json_parser.hints(),
            plan_spec(specifier@, current_module@).0,
            entrypoint@,
        ).1,
        match r {
            Err(AnalysisError::ResolveError { package_name, import_specifier, from, .. }) =>
                package_name == old(analysis).package_name && import_specifier@ == specifier@ && from@ == entrypoint@,
            Err(AnalysisError::ParseError { .. }) => false,
            _ => true,
        },
{
    let plan = plan_dependency(specifier, current_module);
    if plan.missing_js_file_extension {
        insert_name(&mut analysis.esm_missing_js_file_extensions, current_module.to_owned());
    }
    if plan.skip {
        return Ok(None);
    }
    match resolver.resolve(fs, plan.specifier.clone(), entrypoint) {
        Ok(p) => Ok(Some((plan.next_module, p))),
        Err(e) => {
            let forgiven = (plan.allow_node_builtins && builtin_listed(builtins, plan.specifier.as_str()))
                || matches!(e, ResolveError::PeerDependencyNotInstalled(_));
            if forgiven {
                Ok(None)
            } else {
                Err(
                    AnalysisError::ResolveError {
                        package_name: analysis.package_name.clone(),
                        import_specifier: specifier.to_owned(),
                        from: entrypoint.to_owned(),
                        source: e,
                    },
                )
            }
        },
    }
}

/// A trailing slash turns off the builtin fallback: a specifier written
/// `name/` whose resolution fails (other than as a missing optional peer)
/// fails the analysis, even where `name` is a builtin.
pub proof fn lemma_trailing_slash_no_builtin(
    fs: FileSystem,
    steps: Seq<crate::chain::ChainStep>,
    hints: Seq<(Seq<char>, Option<Seq<char>>)>,
    builtins: Seq<String>,
    s: Seq<char>,
    current: Seq<char>,
    entry: Seq<char>,
)
    requires
        s.len() > 0 && s[s.len() - 1] == '/',
        !plan_spec(s, current).3,
        resolve_spec(fs, steps, hints, plan_spec(s, current).0, entry).0 is Err,
        !(resolve_spec(fs, steps, hints, plan_spec(s, current).0, entry).0->Err_0 is PeerDependencyNotInstalled),
    ensures
        !plan_spec(s, current).1,
        dependency_spec(fs, steps, hints, builtins, s, current, entry) == EdgeView::Fail(
            resolve_spec(fs, steps, hints, plan_spec(s, current).0, entry).0->Err_0,
        ),
{
}

/// A `node:` specifier is never resolved: it is skipped.
pub proof fn lemma_node_prefix_skipped(s: Seq<char>, current: Seq<char>)
    requires
        is_prefix("node:"@, s),
    ensures
        plan_spec(s, current).3,
{
    let t = strip_slash(s);
    if s.len() > 0 && s[s.len() - 1] == '/' {
        reveal_strlit("node:");
        assert("node:"@.len() == 5);
        assert("node:"@[4] == ':');
        assert(s.subrange(0, 5)[4] == s[4]);
        assert(s.len() >= 5);
        assert(t.subrange(0, 5) =~= s.subrange(0, 5));
    }
}

} // verus!
