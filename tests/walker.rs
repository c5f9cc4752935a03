use esm_checker::analysis::AnalysisError;
use esm_checker::entrypoints::package_entrypoints;
use esm_checker::errors::ResolveError;
use esm_checker::fs::{FileSystem, RawPackageJson};
use esm_checker::json::JsonValue;
use esm_checker::package_json::PeerDependencyMeta;
use esm_checker::presets::get_default_es_resolver;
use esm_checker::walker::{enter, handle_dependency, is_skipped_file, new_analysis, plan_dependency, record_commonjs};
use std::sync::Arc;

fn raw(name: &str) -> RawPackageJson {
    RawPackageJson {
        name: Some(name.to_string()),
        exports: None,
        files: None,
        main: None,
        browser: None,
        module: None,
        types: None,
        peer_dependencies: None,
        peer_dependencies_meta: None,
    }
}

fn project() -> FileSystem {
    let mut source = raw("src-pkg");
    source.peer_dependencies = Some(vec![("@x/y".to_string(), "*".to_string())]);
    source.peer_dependencies_meta = Some(vec![("@x/y".to_string(), PeerDependencyMeta { optional: true })]);
    source.exports = Some(JsonValue::Object(vec![
        (".".to_string(), JsonValue::String("./index.js".to_string())),
        ("./lib/*".to_string(), JsonValue::String("./lib/*.js".to_string())),
    ]));
    FileSystem {
        files: vec![
            "/proj/package.json".to_string(),
            "/proj/node_modules/src-pkg/package.json".to_string(),
            "/proj/node_modules/src-pkg/index.js".to_string(),
            "/proj/node_modules/src-pkg/util.js".to_string(),
        ],
        dirs: vec![
            "/proj".to_string(),
            "/proj/node_modules".to_string(),
            "/proj/node_modules/src-pkg".to_string(),
        ],
        manifests: vec![
            ("/proj".to_string(), Ok(Arc::new(raw("proj")))),
            ("/proj/node_modules/src-pkg".to_string(), Ok(Arc::new(source))),
        ],
    }
}

#[test]
fn trailing_slash_turns_off_builtins() {
    let plan = plan_dependency("string_decoder/", "pkg");
    assert_eq!(plan.specifier, "string_decoder");
    assert!(!plan.allow_node_builtins);
    assert_eq!(plan.next_module, "string_decoder");
    let plan = plan_dependency("string_decoder", "pkg");
    assert!(plan.allow_node_builtins);
}

#[test]
fn node_prefix_and_json_are_skipped() {
    assert!(plan_dependency("node:fs", "pkg").skip);
    assert!(plan_dependency("./data.json", "pkg").skip);
    assert!(!plan_dependency("fs", "pkg").skip);
}

#[test]
fn missing_extensions_are_noted() {
    assert!(plan_dependency("./util", "pkg").missing_js_file_extension);
    assert!(!plan_dependency("./util.js", "pkg").missing_js_file_extension);
    assert!(!plan_dependency("./util.mjs", "pkg").missing_js_file_extension);
    assert!(!plan_dependency("lodash/fp", "pkg").missing_js_file_extension);
    assert_eq!(plan_dependency("./util", "pkg").next_module, "pkg");
    assert_eq!(plan_dependency("@a/b/c", "pkg").next_module, "@a/b");
}

#[test]
fn optional_peer_edge_is_skipped() {
    let fs = project();
    let mut resolver = get_default_es_resolver();
    let mut analysis = new_analysis("src-pkg");
    let builtins = vec!["fs".to_string()];
    let r = handle_dependency(
        &mut resolver,
        &fs,
        &mut analysis,
        &builtins,
        "@x/y/sub",
        "src-pkg",
        "/proj/node_modules/src-pkg/index.js",
    );
    assert_eq!(r, Ok(None));
}

#[test]
fn builtin_fallback_and_its_opt_out() {
    let fs = project();
    let mut resolver = get_default_es_resolver();
    let mut analysis = new_analysis("src-pkg");
    let builtins = vec!["fs".to_string()];
    let from = "/proj/node_modules/src-pkg/index.js";
    assert_eq!(handle_dependency(&mut resolver, &fs, &mut analysis, &builtins, "fs", "src-pkg", from), Ok(None));
    match handle_dependency(&mut resolver, &fs, &mut analysis, &builtins, "fs/", "src-pkg", from) {
        Err(AnalysisError::ResolveError { package_name, import_specifier, from: f, source }) => {
            assert_eq!(package_name, "src-pkg");
            assert_eq!(import_specifier, "fs/");
            assert_eq!(f, from);
            assert_eq!(source, ResolveError::IoError(
                "/proj/node_modules/fs/package.json".to_string(),
                "No such file or directory".to_string()
            ));
        },
        other => panic!("unexpected {:?}", other),
    }
}

#[test]
fn relative_edge_is_walked_and_noted() {
    let fs = project();
    let mut resolver = get_default_es_resolver();
    let mut analysis = new_analysis("src-pkg");
    let r = handle_dependency(
        &mut resolver,
        &fs,
        &mut analysis,
        &vec![],
        "./util",
        "src-pkg",
        "/proj/node_modules/src-pkg/index.js",
    );
    assert_eq!(r, Ok(Some(("src-pkg".to_string(), "/proj/node_modules/src-pkg/util.js".to_string()))));
    assert_eq!(analysis.esm_missing_js_file_extensions, vec!["src-pkg".to_string()]);
}

#[test]
fn commonjs_attribution() {
    let mut analysis = new_analysis("top");
    record_commonjs(&mut analysis, "react");
    record_commonjs(&mut analysis, "hoist");
    record_commonjs(&mut analysis, "react");
    assert!(analysis.is_entry_esm);
    assert_eq!(analysis.transitive_commonjs_dependencies, vec!["hoist".to_string(), "react".to_string()]);
    record_commonjs(&mut analysis, "top");
    assert!(!analysis.is_entry_esm);
}

#[test]
fn visited_set() {
    let mut visited = vec![];
    assert!(enter(&mut visited, "/a.js"));
    assert!(!enter(&mut visited, "/a.js"));
    assert!(enter(&mut visited, "/b.js"));
    assert_eq!(visited.len(), 2);
}

#[test]
fn json_and_node_files_are_not_parsed() {
    assert!(is_skipped_file("/p/data.json"));
    assert!(is_skipped_file("/p/addon.node"));
    assert!(!is_skipped_file("/p/index.js"));
    assert!(!is_skipped_file("/p/.json"));
}

#[test]
fn entrypoints_from_exports() {
    let fs = project();
    let mut resolver = get_default_es_resolver();
    assert_eq!(
        package_entrypoints(&mut resolver, &fs, "/proj", "src-pkg"),
        Ok(vec!["/proj/node_modules/src-pkg/index.js".to_string()])
    );
    match package_entrypoints(&mut resolver, &fs, "/proj", "absent") {
        Err(AnalysisError::ResolveError { package_name, import_specifier, from, .. }) => {
            assert_eq!(package_name, "absent");
            assert_eq!(import_specifier, "absent");
            assert_eq!(from, "/proj");
        },
        other => panic!("unexpected {:?}", other),
    }
}

#[test]
fn node_specifier_never_reaches_the_resolver() {
    let fs = project();
    let mut resolver = get_default_es_resolver();
    let mut analysis = new_analysis("src-pkg");
    let r = handle_dependency(
        &mut resolver,
        &fs,
        &mut analysis,
        &vec![],
        "node:fs",
        "src-pkg",
        "/proj/node_modules/src-pkg/index.js",
    );
    assert_eq!(r, Ok(None));
    assert_eq!(resolver.package_json_parser.parsed.len(), 0);
}

#[test]
fn absolute_specifier_keeps_the_current_package() {
    let plan = plan_dependency("/abs/file.js", "pkg");
    assert_eq!(plan.next_module, "pkg");
    assert!(!plan.missing_js_file_extension);
}
