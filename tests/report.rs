use esm_checker::analysis::{classify, Analysis, AnalysisError, Bucket};
use esm_checker::errors::ResolveError as ResolverError;
use esm_checker::report::{into_report, FauxESM, ParseError, Report, ResolveError, WithCommonJSDependencies, WithMissingJsFileExtensions};

fn analysis(name: &str, esm: bool, cjs_deps: &[&str], missing: &[&str]) -> Analysis {
    Analysis {
        package_name: name.to_string(),
        is_entry_esm: esm,
        transitive_commonjs_dependencies: cjs_deps.iter().map(|d| d.to_string()).collect(),
        esm_missing_js_file_extensions: missing.iter().map(|d| d.to_string()).collect(),
    }
}

#[test]
fn create_report() {
    let report = into_report(vec![
        Ok(analysis("react", false, &[], &[])),
        Ok(analysis("@loadable/component", true, &["hoist-non-react-statics", "react", "react-is"], &[])),
    ]);
    assert_eq!(
        report,
        Report {
            total: 2,
            esm: vec![],
            cjs: vec!["react".to_string()],
            faux_esm: FauxESM {
                with_commonjs_dependencies: vec![WithCommonJSDependencies {
                    package_name: "@loadable/component".to_string(),
                    transitive_commonjs_dependencies: vec![
                        "hoist-non-react-statics".to_string(),
                        "react".to_string(),
                        "react-is".to_string(),
                    ],
                }],
                with_missing_js_file_extensions: vec![],
            },
            resolve_errors: vec![],
            parse_errors: vec![],
        }
    );
}

#[test]
fn buckets_and_sorting() {
    let report = into_report(vec![
        Ok(analysis("zeta", true, &[], &[])),
        Ok(analysis("Alpha", true, &[], &[])),
        Ok(analysis("beta", true, &[], &["beta"])),
        Ok(analysis("Gamma", true, &["x"], &["Gamma"])),
        Ok(analysis("delta", true, &["y"], &[])),
        Ok(analysis("cjs-b", false, &["q"], &[])),
        Ok(analysis("Cjs-a", false, &[], &[])),
        Err(AnalysisError::ParseError {
            package_name: "parse-b".to_string(),
            path: "/p/b.js".to_string(),
            original_error_message: "bad".to_string(),
        }),
        Err(AnalysisError::ParseError {
            package_name: "Parse-a".to_string(),
            path: "/p/a.js".to_string(),
            original_error_message: "bad".to_string(),
        }),
        Err(AnalysisError::ResolveError {
            package_name: "res".to_string(),
            import_specifier: "missing".to_string(),
            from: "/p/index.js".to_string(),
            source: ResolverError::FailedToResolve("missing".to_string(), "/p/index.js".to_string()),
        }),
    ]);
    assert_eq!(report.total, 10);
    assert_eq!(report.esm, vec!["Alpha".to_string(), "zeta".to_string()]);
    assert_eq!(report.cjs, vec!["Cjs-a".to_string(), "cjs-b".to_string()]);
    let faux_cjs: Vec<&str> = report.faux_esm.with_commonjs_dependencies.iter().map(|w| w.package_name.as_str()).collect();
    assert_eq!(faux_cjs, vec!["delta", "Gamma"]);
    assert_eq!(
        report.faux_esm.with_missing_js_file_extensions,
        vec![WithMissingJsFileExtensions {
            package_name: "beta".to_string(),
            transitive_deps_with_missing_js_file_extensions: vec!["beta".to_string()],
        }]
    );
    let parse: Vec<&str> = report.parse_errors.iter().map(|e| e.package_name.as_str()).collect();
    assert_eq!(parse, vec!["Parse-a", "parse-b"]);
    assert_eq!(
        report.resolve_errors,
        vec![ResolveError {
            package_name: "res".to_string(),
            from: "/p/index.js".to_string(),
            import_specifier: "missing".to_string(),
            original_error_message: "Failed to resolve missing from /p/index.js".to_string(),
        }]
    );
    let _ = ParseError {
        package_name: String::new(),
        path: String::new(),
        original_error_message: String::new(),
    };
}

#[test]
fn empty_input_gives_empty_report() {
    let report = into_report(vec![]);
    assert_eq!(report.total, 0);
    assert!(report.esm.is_empty() && report.cjs.is_empty() && report.resolve_errors.is_empty());
}

#[test]
fn classification_precedence() {
    assert_eq!(classify(&analysis("a", true, &["x"], &["a"])), Bucket::FauxWithCommonJsDependencies);
    assert_eq!(classify(&analysis("a", true, &[], &["a"])), Bucket::FauxWithMissingJsFileExtensions);
    assert_eq!(classify(&analysis("a", true, &[], &[])), Bucket::Esm);
    assert_eq!(classify(&analysis("a", false, &["x"], &["a"])), Bucket::CommonJs);
}

#[test]
fn error_messages() {
    assert_eq!(ResolverError::FromPathHasNoParent.message(), "From path has no parent");
    assert_eq!(ResolverError::FileNotFound("/a".to_string()).message(), "File /a not found");
    assert_eq!(
        ResolverError::PeerDependencyNotInstalled("@x/y".to_string()).message(),
        "The import specifier referred to peer dependency @x/y that was not installed"
    );
    assert_eq!(ResolverError::NodeModulesNotFound.message(), "Unable to locate node_modules directory");
}
