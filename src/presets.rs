//! Ready-made resolver chains: the default one, one that also resolves
//! TypeScript, and one that follows the ES module algorithm strictly.

use vstd::prelude::*;
use crate::chain::{Chain, ChainStep, Resolver};
use crate::exports_resolver::{string_views, ExportsResolver, FieldName};
use crate::parser::PackageJsonParser;
use crate::probe::probe_lists;
use crate::steps::{
    FileResolver, HandleOptionalPeerDependenciesResolver, PackageJsonResolver, PseudoNamespaceResolver,
    RelativePathResolver,
};
use crate::utils::ImplicitFileResolver;

verus! {

/// The probe is absent and so are the lists, or it has exactly these lists.
pub open spec fn probe_matches(o: Option<ImplicitFileResolver>, lists: Option<(Seq<Seq<char>>, Seq<Seq<char>>)>) -> bool {
    match o {
        None => lists is None,
        Some(i) => lists == Some(probe_lists(i)),
    }
}

/// The step reads `field` with these condition names and probe.
pub open spec fn is_exports_step(step: ChainStep, field: FieldName, names: Seq<Seq<char>>, lists: Option<(Seq<Seq<char>>, Seq<Seq<char>>)>) -> bool {
    match step {
        ChainStep::Exports(r) => r.field_name == field && string_views(r.condition_names@) == names
            && probe_matches(r.implicit_file_resolver, lists),
        _ => false,
    }
}

/// The full chain: relative paths, optional peers, package loading,
/// pseudo-namespaces, the given fields in order, `files`, `index.js`, and
/// the file probe.
pub open spec fn is_full_chain(steps: Seq<ChainStep>, fields: Seq<FieldName>, names: Seq<Seq<char>>, lists: (Seq<Seq<char>>, Seq<Seq<char>>)) -> bool {
    let f = fields.len() as int;
    &&& steps.len() == f + 7
    &&& match steps[0] {
        ChainStep::RelativePath(r) => probe_matches(r.implicit_file_resolver, Some(lists)),
        _ => false,
    }
    &&& steps[1] is HandleOptionalPeerDependencies
    &&& steps[2] is PackageJson
    &&& steps[3] is PseudoNamespace
    &&& forall|k: int| 0 <= k < f ==> is_exports_step(#[trigger] steps[4 + k], fields[k], names, Some(lists))
    &&& steps[4 + f] is Files
    &&& steps[5 + f] is Index
    &&& match steps[6 + f] {
        ChainStep::File(r) => probe_matches(r.implicit_file_resolver, Some(lists)),
        _ => false,
    }
}

/// The strict chain: relative paths without a probe, package loading,
/// `exports`, `module` and `main` with `import` and `default`, and the file
/// step without a probe.
pub open spec fn is_strict_chain(steps: Seq<ChainStep>) -> bool {
    let names = seq!["import"@, "default"@];
    &&& steps.len() == 6
    &&& match steps[0] {
        ChainStep::RelativePath(r) => r.implicit_file_resolver is None,
        _ => false,
    }
    &&& steps[1] is PackageJson
    &&& is_exports_step(steps[2], FieldName::Exports, names, None)
    &&& is_exports_step(steps[3], FieldName::Module, names, None)
    &&& is_exports_step(steps[4], FieldName::Main, names, None)
    &&& match steps[5] {
        ChainStep::File(r) => r.implicit_file_resolver is None,
        _ => false,
    }
}

/// The default condition names, in order.
pub open spec fn default_condition_names() -> Seq<Seq<char>> {
    seq!["import"@, "module"@, "default"@]
}

/// The ordered default condition names for `exports`: `import`, `module`,
/// `default`.
pub fn get_default_condition_names() -> (r: Vec<String>)
    ensures
        string_views(r@) == default_condition_names(),
{
    let r = vec!["import".to_owned(), "module".to_owned(), "default".to_owned()];
    assert(string_views(r@) =~= default_condition_names());
    r
}

fn typescript_condition_names() -> (r: Vec<String>)
    ensures
        string_views(r@) == seq!["import"@, "module"@, "default"@, "types"@],
{
    let r = vec!["import".to_owned(), "module".to_owned(), "default".to_owned(), "types".to_owned()];
    assert(string_views(r@) =~= seq!["import"@, "module"@, "default"@, "types"@]);
    r
}

fn strict_condition_names() -> (r: Vec<String>)
    ensures
        string_views(r@) == seq!["import"@, "default"@],
{
    let r = vec!["import".to_owned(), "default".to_owned()];
    assert(string_views(r@) =~= seq!["import"@, "default"@]);
    r
}

/// The default probe's lists.
pub open spec fn default_lists() -> (Seq<Seq<char>>, Seq<Seq<char>>) {
    (seq![".js"@, ".cjs"@, ".json"@], seq!["index.js"@, "index.cjs"@, "index.json"@])
}

/// The TypeScript probe's lists.
pub open spec fn typescript_lists() -> (Seq<Seq<char>>, Seq<Seq<char>>) {
    (
        seq![".js"@, ".cjs"@, ".json"@, ".ts"@, ".tsx"@, ".d.ts"@],
        seq!["index.js"@, "index.cjs"@, "index.json"@, "index.ts"@, "index.tsx"@, "index.d.ts"@],
    )
}

fn default_probe() -> (r: Option<ImplicitFileResolver>)
    ensures
        probe_matches(r, Some(default_lists())),
{
    let r = ImplicitFileResolver::new(
        vec![".js".to_owned(), ".cjs".to_owned(), ".json".to_owned()],
        vec!["index.js".to_owned(), "index.cjs".to_owned(), "index.json".to_owned()],
    );
    assert(probe_lists(r) =~~= default_lists());
    Some(r)
}

fn typescript_probe() -> (r: Option<ImplicitFileResolver>)
    ensures
        probe_matches(r, Some(typescript_lists())),
{
    let r = ImplicitFileResolver::new(
        vec![
            ".js".to_owned(),
            ".cjs".to_owned(),
            ".json".to_owned(),
            ".ts".to_owned(),
            ".tsx".to_owned(),
            ".d.ts".to_owned(),
        ],
        vec![
            "index.js".to_owned(),
            "index.cjs".to_owned(),
            "index.json".to_owned(),
            "index.ts".to_owned(),
            "index.tsx".to_owned(),
            "index.d.ts".to_owned(),
        ],
    );
    assert(probe_lists(r) =~~= typescript_lists());
    Some(r)
}

/// The default chain, with `package_json_parser` as its cache.
pub fn get_default_es_resolver_with_package_json_parser(package_json_parser: PackageJsonParser) -> (r: Resolver)
    ensures
        is_full_chain(
            r.chain.steps@,
            seq![FieldName::Exports, FieldName::Module, FieldName::Browser, FieldName::Main],
            default_condition_names(),
            default_lists(),
        ),
        r.package_json_parser == package_json_parser,
{
    let steps = vec![
        ChainStep::RelativePath(RelativePathResolver::new(default_probe())),
        ChainStep::HandleOptionalPeerDependencies(HandleOptionalPeerDependenciesResolver::new()),
        ChainStep::PackageJson(PackageJsonResolver::new()),
        ChainStep::PseudoNamespace(PseudoNamespaceResolver::new()),
        ChainStep::Exports(ExportsResolver::new(FieldName::Exports, get_default_condition_names(), default_probe())),
        ChainStep::Exports(ExportsResolver::new(FieldName::Module, get_default_condition_names(), default_probe())),
        ChainStep::Exports(ExportsResolver::new(FieldName::Browser, get_default_condition_names(), default_probe())),
        ChainStep::Exports(ExportsResolver::new(FieldName::Main, get_default_condition_names(), default_probe())),
        ChainStep::Files,
        ChainStep::Index,
        ChainStep::File(FileResolver::new(default_probe())),
    ];
    let r = Resolver::new(Chain { steps }, package_json_parser);
    proof {
        let fields = seq![FieldName::Exports, FieldName::Module, FieldName::Browser, FieldName::Main];
        assert forall|k: int| 0 <= k < 4 implies is_exports_step(
            #[trigger] r.chain.steps@[4 + k],
            fields[k],
            default_condition_names(),
            Some(default_lists()),
        ) by {
            if k == 0 {
            } else if k == 1 {
            } else if k == 2 {
            } else {
            }
        }
    }
    r
}

/// The default chain with a new cache.
pub fn get_default_es_resolver() -> (r: Resolver)
    ensures
        is_full_chain(
            r.chain.steps@,
            seq![FieldName::Exports, FieldName::Module, FieldName::Browser, FieldName::Main],
            default_condition_names(),
            default_lists(),
        ),
        r.package_json_parser.parsed@.len() == 0,
{
    get_default_es_resolver_with_package_json_parser(PackageJsonParser::new())
}

/// The TypeScript chain, with `package_json_parser` as its cache: the
/// default one with the `types` condition and field and the TypeScript
/// extensions and index files.
pub fn get_typescript_resolver_with_package_json_parser(package_json_parser: PackageJsonParser) -> (r: Resolver)
    ensures
        is_full_chain(
            r.chain.steps@,
            seq![FieldName::Exports, FieldName::Module, FieldName::Browser, FieldName::Main, FieldName::Types],
            seq!["import"@, "module"@, "default"@, "types"@],
            typescript_lists(),
        ),
        r.package_json_parser == package_json_parser,
{
    let steps = vec![
        ChainStep::RelativePath(RelativePathResolver::new(typescript_probe())),
        ChainStep::HandleOptionalPeerDependencies(HandleOptionalPeerDependenciesResolver::new()),
        ChainStep::PackageJson(PackageJsonResolver::new()),
        ChainStep::PseudoNamespace(PseudoNamespaceResolver::new()),
        ChainStep::Exports(ExportsResolver::new(FieldName::Exports, typescript_condition_names(), typescript_probe())),
        ChainStep::Exports(ExportsResolver::new(FieldName::Module, typescript_condition_names(), typescript_probe())),
        ChainStep::Exports(ExportsResolver::new(FieldName::Browser, typescript_condition_names(), typescript_probe())),
        ChainStep::Exports(ExportsResolver::new(FieldName::Main, typescript_condition_names(), typescript_probe())),
        ChainStep::Exports(ExportsResolver::new(FieldName::Types, typescript_condition_names(), typescript_probe())),
        ChainStep::Files,
        ChainStep::Index,
        ChainStep::File(FileResolver::new(typescript_probe())),
    ];
    let r = Resolver::new(Chain { steps }, package_json_parser);
    proof {
        let fields = seq![FieldName::Exports, FieldName::Module, FieldName::Browser, FieldName::Main, FieldName::Types];
        let names = seq!["import"@, "module"@, "default"@, "types"@];
        assert forall|k: int| 0 <= k < 5 implies is_exports_step(
            #[trigger] r.chain.steps@[4 + k],
            fields[k],
            names,
            Some(typescript_lists()),
        ) by {
            if k == 0 {
            } else if k == 1 {
            } else if k == 2 {
            } else if k == 3 {
            } else {
            }
        }
    }
    r
}

/// The TypeScript chain with a new cache.
pub fn get_typescript_resolver() -> (r: Resolver)
    ensures
        is_full_chain(
            r.chain.steps@,
            seq![FieldName::Exports, FieldName::Module, FieldName::Browser, FieldName::Main, FieldName::Types],
            seq!["import"@, "module"@, "default"@, "types"@],
            typescript_lists(),
        ),
        r.package_json_parser.parsed@.len() == 0,
{
    get_typescript_resolver_with_package_json_parser(PackageJsonParser::new())
}

/// The strict ES module chain, with `package_json_parser` as its cache.
pub fn get_strict_esm_resolver_with_package_json_parser(package_json_parser: PackageJsonParser) -> (r: Resolver)
    ensures
        is_strict_chain(r.chain.steps@),
        r.package_json_parser == package_json_parser,
{
    let steps = vec![
        ChainStep::RelativePath(RelativePathResolver::new(None)),
        ChainStep::PackageJson(PackageJsonResolver::new()),
        ChainStep::Exports(ExportsResolver::new(FieldName::Exports, strict_condition_names(), None)),
        ChainStep::Exports(ExportsResolver::new(FieldName::Module, strict_condition_names(), None)),
        ChainStep::Exports(ExportsResolver::new(FieldName::Main, strict_condition_names(), None)),
        ChainStep::File(FileResolver::new(None)),
    ];
    Resolver::new(Chain { steps }, package_json_parser)
}

/// The strict ES module chain with a new cache.
pub fn get_strict_esm_resolver() -> (r: Resolver)
    ensures
        is_strict_chain(r.chain.steps@),
        r.package_json_parser.parsed@.len() == 0,
{
    get_strict_esm_resolver_with_package_json_parser(PackageJsonParser::new())
}

} // verus!
