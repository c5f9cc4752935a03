use esm_checker::chain::{Chain, ChainStep, Resolver};
use esm_checker::errors::ResolveError;
use esm_checker::exports_resolver::{ExportsResolver, FieldName};
use esm_checker::fs::{FileSystem, RawPackageJson};
use esm_checker::json::JsonValue;
use esm_checker::package_json::PeerDependencyMeta;
use esm_checker::parser::PackageJsonParser;
use esm_checker::path::{normalize_path, parent_path};
use esm_checker::steps::PackageJsonResolver;
use esm_checker::presets::{get_default_condition_names, get_default_es_resolver, get_strict_esm_resolver};
use std::sync::Arc;

fn s(v: &str) -> JsonValue {
    JsonValue::String(v.to_string())
}

fn obj(members: Vec<(&str, JsonValue)>) -> JsonValue {
    JsonValue::Object(members.into_iter().map(|(k, v)| (k.to_string(), v)).collect())
}

fn raw(name: Option<&str>) -> RawPackageJson {
    RawPackageJson {
        name: name.map(|n| n.to_string()),
        exports: None,
        files: None,
        main: None,
        browser: None,
        module: None,
        types: None,
        peer_dependencies: None,
        peer_dependencies_meta: None,
    }
}

fn disk(files: &[&str], dirs: &[&str], manifests: Vec<(&str, RawPackageJson)>) -> FileSystem {
    FileSystem {
        files: files.iter().map(|f| f.to_string()).collect(),
        dirs: dirs.iter().map(|d| d.to_string()).collect(),
        manifests: manifests.into_iter().map(|(d, r)| (d.to_string(), Ok(Arc::new(r)))).collect(),
    }
}

fn foo_project(exports: JsonValue, extra_files: &[&str]) -> FileSystem {
    let mut foo = raw(Some("foo"));
    foo.exports = Some(exports);
    let mut files = vec!["/proj/package.json", "/proj/node_modules/foo/package.json"];
    files.extend_from_slice(extra_files);
    disk(
        &files,
        &["/proj", "/proj/node_modules", "/proj/node_modules/foo"],
        vec![("/proj", raw(Some("proj"))), ("/proj/node_modules/foo", foo)],
    )
}

#[test]
fn relative() {
    let fs = disk(&["/fixtures/foo.mjs", "/fixtures/index.mjs"], &["/fixtures"], vec![]);
    let mut resolver = get_default_es_resolver();
    let actual = resolver.resolve(&fs, "./foo.mjs".to_string(), "/fixtures/index.mjs");
    assert_eq!(actual, Ok("/fixtures/foo.mjs".to_string()));
}

#[test]
fn relative_without_extension_uses_the_probe() {
    let fs = disk(&["/app/b.js", "/app/a.js"], &["/app"], vec![]);
    let mut resolver = get_default_es_resolver();
    assert_eq!(resolver.resolve(&fs, "./b".to_string(), "/app/a.js"), Ok("/app/b.js".to_string()));
    assert_eq!(
        resolver.resolve(&fs, "./missing".to_string(), "/app/a.js"),
        Err(ResolveError::FileNotFound("/app/./missing".to_string()))
    );
}

#[test]
fn relative_from_a_path_without_parent() {
    let fs = disk(&[], &[], vec![]);
    let mut resolver = get_default_es_resolver();
    assert_eq!(
        resolver.resolve(&fs, "./x.js".to_string(), "/"),
        Err(ResolveError::FromPathHasNoParent)
    );
}

#[test]
fn subpath_exports() {
    let fs = foo_project(
        obj(vec![(".", s("./i.js")), ("./bar", s("./b.js"))]),
        &["/proj/node_modules/foo/i.js", "/proj/node_modules/foo/b.js"],
    );
    let mut resolver = get_default_es_resolver();
    assert_eq!(
        resolver.resolve(&fs, "foo/bar".to_string(), "/proj"),
        Ok("/proj/node_modules/foo/b.js".to_string())
    );
    assert_eq!(
        resolver.resolve(&fs, "foo".to_string(), "/proj"),
        Ok("/proj/node_modules/foo/i.js".to_string())
    );
}

#[test]
fn conditional_exports() {
    let fs = foo_project(
        obj(vec![(
            ".",
            obj(vec![("import", s("./m.mjs")), ("require", s("./c.cjs")), ("default", s("./d.js"))]),
        )]),
        &["/proj/node_modules/foo/m.mjs", "/proj/node_modules/foo/c.cjs", "/proj/node_modules/foo/d.js"],
    );
    let mut resolver = get_default_es_resolver();
    assert_eq!(
        resolver.resolve(&fs, "foo".to_string(), "/proj"),
        Ok("/proj/node_modules/foo/m.mjs".to_string())
    );
    let chain = Chain {
        steps: vec![
            ChainStep::PackageJson(PackageJsonResolver::new()),
            ChainStep::Exports(ExportsResolver::new(
                FieldName::Exports,
                vec!["require".to_string(), "default".to_string()],
                None,
            )),
        ],
    };
    let mut require_resolver = Resolver::new(chain, PackageJsonParser::new());
    assert_eq!(
        require_resolver.resolve(&fs, "foo".to_string(), "/proj"),
        Ok("/proj/node_modules/foo/c.cjs".to_string())
    );
}

#[test]
fn wildcard_with_substitution() {
    let fs = foo_project(obj(vec![("./lib/*", s("./src/*.js"))]), &["/proj/node_modules/foo/src/util.js"]);
    let mut resolver = get_default_es_resolver();
    assert_eq!(
        resolver.resolve(&fs, "foo/lib/util".to_string(), "/proj"),
        Ok("/proj/node_modules/foo/src/util.js".to_string())
    );
}

#[test]
fn unresolvable_specifier_fails_to_resolve() {
    let fs = foo_project(obj(vec![(".", s("./i.js"))]), &["/proj/node_modules/foo/i.js"]);
    let mut resolver = get_default_es_resolver();
    assert_eq!(
        resolver.resolve(&fs, "foo/nothing".to_string(), "/proj"),
        Err(ResolveError::FailedToResolve("foo/nothing".to_string(), "/proj".to_string()))
    );
}

#[test]
fn missing_package_is_an_io_error() {
    let fs = foo_project(obj(vec![(".", s("./i.js"))]), &[]);
    let mut resolver = get_strict_esm_resolver();
    assert_eq!(
        resolver.resolve(&fs, "bar".to_string(), "/proj"),
        Err(ResolveError::IoError(
            "/proj/node_modules/bar/package.json".to_string(),
            "No such file or directory".to_string()
        ))
    );
}

#[test]
fn no_node_modules_anywhere() {
    let fs = disk(&["/proj/package.json"], &["/proj"], vec![("/proj", raw(Some("proj")))]);
    let mut resolver = get_default_es_resolver();
    assert_eq!(
        resolver.resolve(&fs, "foo".to_string(), "/proj/a.js"),
        Err(ResolveError::NodeModulesNotFound)
    );
}

#[test]
fn no_package_json_above() {
    let fs = disk(&[], &["/x"], vec![]);
    let mut resolver = get_default_es_resolver();
    assert_eq!(
        resolver.resolve(&fs, "foo".to_string(), "/x/y.js"),
        Err(ResolveError::PackageJsonNotFound("/x".to_string()))
    );
}

#[test]
fn unparsable_manifest() {
    let mut fs = disk(&["/proj/package.json"], &["/proj", "/proj/node_modules"], vec![]);
    fs.manifests.push(("/proj".to_string(), Err("expected value at line 1".to_string())));
    let mut resolver = get_default_es_resolver();
    assert_eq!(
        resolver.resolve(&fs, "foo".to_string(), "/proj"),
        Err(ResolveError::ParsePackageJsonFailed(
            "/proj/package.json".to_string(),
            "expected value at line 1".to_string()
        ))
    );
}

#[test]
fn optional_peer_not_installed() {
    let mut source = raw(Some("src-pkg"));
    source.peer_dependencies = Some(vec![("@x/y".to_string(), "*".to_string())]);
    source.peer_dependencies_meta = Some(vec![("@x/y".to_string(), PeerDependencyMeta { optional: true })]);
    let fs = disk(
        &["/proj/node_modules/src-pkg/package.json", "/proj/node_modules/src-pkg/index.js"],
        &["/proj", "/proj/node_modules", "/proj/node_modules/src-pkg"],
        vec![("/proj/node_modules/src-pkg", source)],
    );
    let mut resolver = get_default_es_resolver();
    assert_eq!(
        resolver.resolve(&fs, "@x/y/sub".to_string(), "/proj/node_modules/src-pkg/index.js"),
        Err(ResolveError::PeerDependencyNotInstalled("@x/y".to_string()))
    );
}

#[test]
fn main_field_and_index_fallbacks() {
    let mut bar = raw(Some("bar"));
    bar.main = Some(s("./lib/main"));
    let mut baz = raw(Some("baz"));
    baz.files = Some(vec!["lib".to_string(), "index.cjs".to_string()]);
    let fs = disk(
        &[
            "/p/package.json",
            "/p/node_modules/bar/package.json",
            "/p/node_modules/bar/lib/main.js",
            "/p/node_modules/baz/package.json",
            "/p/node_modules/baz/util.js",
        ],
        &["/p", "/p/node_modules", "/p/node_modules/bar", "/p/node_modules/baz"],
        vec![("/p", raw(Some("p"))), ("/p/node_modules/bar", bar), ("/p/node_modules/baz", baz)],
    );
    let mut resolver = get_default_es_resolver();
    assert_eq!(
        resolver.resolve(&fs, "bar".to_string(), "/p"),
        Ok("/p/node_modules/bar/lib/main.js".to_string())
    );
    assert_eq!(
        resolver.resolve(&fs, "baz".to_string(), "/p"),
        Err(ResolveError::CanonicalizeRelativePathFailed(
            "/p/node_modules/baz/index.cjs".to_string(),
            "No such file or directory".to_string()
        ))
    );
    assert_eq!(
        resolver.resolve(&fs, "baz/util".to_string(), "/p"),
        Ok("/p/node_modules/baz/util.js".to_string())
    );
}

#[test]
fn resolving_twice_gives_the_same_path() {
    let fs = foo_project(obj(vec![("./bar", s("./b.js"))]), &["/proj/node_modules/foo/b.js"]);
    let mut warm = get_default_es_resolver();
    let first = warm.resolve(&fs, "foo/bar".to_string(), "/proj");
    let second = warm.resolve(&fs, "foo/bar".to_string(), "/proj");
    assert_eq!(first, second);
    let mut cold = get_default_es_resolver();
    assert_eq!(cold.resolve(&fs, "foo/bar".to_string(), "/proj"), second);
    assert!(warm.package_json_parser.parsed.len() > 0);
}

#[test]
fn paths_are_normalized() {
    assert_eq!(normalize_path("/a/./b/../c//d/"), "/a/c/d");
    assert_eq!(normalize_path("/.."), "/");
    assert_eq!(parent_path("/a/b"), Some("/a".to_string()));
    assert_eq!(parent_path("/"), None);
}

#[test]
fn default_condition_names_in_order() {
    assert_eq!(get_default_condition_names(), vec!["import", "module", "default"]);
}

#[test]
fn typescript_files_need_the_typescript_chain() {
    let fs = foo_project(obj(vec![]), &["/proj/node_modules/foo/util.ts"]);
    let mut fs = fs;
    fs.manifests[1].1 = Ok(Arc::new(raw(Some("foo"))));
    let mut ts = esm_checker::presets::get_typescript_resolver();
    assert_eq!(
        ts.resolve(&fs, "foo/util".to_string(), "/proj"),
        Ok("/proj/node_modules/foo/util.ts".to_string())
    );
    let mut default = get_default_es_resolver();
    assert_eq!(
        default.resolve(&fs, "foo/util".to_string(), "/proj"),
        Err(ResolveError::FailedToResolve("foo/util".to_string(), "/proj".to_string()))
    );
}

#[test]
fn relative_path_to_a_package_root_resolves_as_the_package() {
    let fs = foo_project(
        obj(vec![(".", s("./i.js"))]),
        &["/proj/node_modules/foo/i.js", "/proj/node_modules/foo/lib/x.js"],
    );
    let mut fs = fs;
    fs.dirs.push("/proj/node_modules/foo/lib".to_string());
    let mut resolver = get_default_es_resolver();
    assert_eq!(
        resolver.resolve(&fs, "..".to_string(), "/proj/node_modules/foo/lib/x.js"),
        Ok("/proj/node_modules/foo/i.js".to_string())
    );
}

#[test]
fn strict_chain_has_no_files_fallback() {
    let mut baz = raw(Some("baz"));
    baz.files = Some(vec!["index.js".to_string()]);
    let fs = disk(
        &["/p/node_modules/baz/package.json", "/p/node_modules/baz/index.js"],
        &["/p", "/p/node_modules", "/p/node_modules/baz"],
        vec![("/p/node_modules/baz", baz)],
    );
    let mut strict = get_strict_esm_resolver();
    assert_eq!(
        strict.resolve(&fs, "baz".to_string(), "/p"),
        Err(ResolveError::FailedToResolve("baz".to_string(), "/p".to_string()))
    );
    assert_eq!(strict.chain.steps.len(), 6);
}

#[test]
fn probe_skips_extensions_after_dot_dot() {
    let fs = disk(&["/p/src.js", "/p/src/index.js"], &["/p", "/p/src", "/p/src/sub"], vec![]);
    let probe = esm_checker::utils::ImplicitFileResolver::new(
        vec![".js".to_string()],
        vec!["index.js".to_string()],
    );
    assert_eq!(probe.try_resolve_implicitly(&fs, "/p/src/sub/.."), Some("/p/src/index.js".to_string()));
    assert_eq!(probe.try_resolve_implicitly(&fs, "/p/src"), Some("/p/src.js".to_string()));
}
