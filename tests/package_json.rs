use esm_checker::fs::RawPackageJson;
use esm_checker::json::JsonValue;
use esm_checker::normalize::parse_exports_like_field;
use esm_checker::package_json::{ExportsLikeField, FilenameOrConditional};
use esm_checker::parser::normalize_package_json;
use std::sync::Arc;

const FAKE_MODULE_PATH: &str = "/fake/module/path";
const FAKE_PACKAGE_NAME: &str = "fake-package-name";

fn s(v: &str) -> JsonValue {
    JsonValue::String(v.to_string())
}

fn obj(members: Vec<(&str, JsonValue)>) -> JsonValue {
    JsonValue::Object(members.into_iter().map(|(k, v)| (k.to_string(), v)).collect())
}

fn file(v: &str) -> FilenameOrConditional {
    FilenameOrConditional::Filename(v.to_string())
}

fn raw_with_exports(exports: JsonValue) -> RawPackageJson {
    RawPackageJson {
        name: Some(FAKE_PACKAGE_NAME.to_string()),
        exports: Some(exports),
        files: None,
        main: None,
        browser: None,
        module: None,
        types: None,
        peer_dependencies: None,
        peer_dependencies_meta: None,
    }
}

fn parsed_exports(exports: JsonValue) -> Option<ExportsLikeField> {
    normalize_package_json(
        FAKE_MODULE_PATH.to_string(),
        Some(FAKE_PACKAGE_NAME.to_owned()),
        Arc::new(raw_with_exports(exports)),
    )
    .parsed_exports
}

#[test]
fn test_parse_exports_string() {
    assert_eq!(
        parsed_exports(s("./index.js")),
        Some(ExportsLikeField::Filename("./index.js".to_owned()))
    );
}

#[test]
fn test_parse_exports_names() {
    let exports = obj(vec![
        (".", s("./index.js")),
        ("./foo", s("./foo.js")),
        ("./bar", obj(vec![("./baz", s("./bar/baz.js")), ("./qux", s("./bar/qux.js"))])),
    ]);
    assert_eq!(
        parsed_exports(exports),
        Some(ExportsLikeField::Subpaths(vec![
            (FAKE_PACKAGE_NAME.to_owned(), file("./index.js")),
            (format!("{}/foo", FAKE_PACKAGE_NAME), file("./foo.js")),
            (format!("{}/bar/baz", FAKE_PACKAGE_NAME), file("./bar/baz.js")),
            (format!("{}/bar/qux", FAKE_PACKAGE_NAME), file("./bar/qux.js")),
        ]))
    );
}

#[test]
fn test_parse_exports_conditions() {
    let exports = obj(vec![
        (".", obj(vec![("import", s("./index.js")), ("require", s("./index.cjs"))])),
        ("./foo", obj(vec![("import", s("./foo.js")), ("require", s("./foo.cjs"))])),
    ]);
    assert_eq!(
        parsed_exports(exports),
        Some(ExportsLikeField::Subpaths(vec![
            (
                FAKE_PACKAGE_NAME.to_owned(),
                FilenameOrConditional::Conditional(vec![
                    ("import".to_owned(), file("./index.js")),
                    ("require".to_owned(), file("./index.cjs")),
                ]),
            ),
            (
                format!("{}/foo", FAKE_PACKAGE_NAME),
                FilenameOrConditional::Conditional(vec![
                    ("import".to_owned(), file("./foo.js")),
                    ("require".to_owned(), file("./foo.cjs")),
                ]),
            ),
        ]))
    );
}

#[test]
fn test_parse_exports_nested_conditions() {
    let exports = obj(vec![
        (".", s("./index.js")),
        (
            "./foo",
            obj(vec![
                ("import", obj(vec![("types", s("./foo.d.ts")), ("default", s("./foo.js"))])),
                ("require", obj(vec![("types", s("./foo.d.ts")), ("default", s("./foo.cjs"))])),
            ]),
        ),
    ]);
    assert_eq!(
        parsed_exports(exports),
        Some(ExportsLikeField::Subpaths(vec![
            (FAKE_PACKAGE_NAME.to_owned(), file("./index.js")),
            (
                format!("{}/foo", FAKE_PACKAGE_NAME),
                FilenameOrConditional::Conditional(vec![
                    (
                        "import".to_owned(),
                        FilenameOrConditional::Conditional(vec![
                            ("types".to_owned(), file("./foo.d.ts")),
                            ("default".to_owned(), file("./foo.js")),
                        ]),
                    ),
                    (
                        "require".to_owned(),
                        FilenameOrConditional::Conditional(vec![
                            ("types".to_owned(), file("./foo.d.ts")),
                            ("default".to_owned(), file("./foo.cjs")),
                        ]),
                    ),
                ]),
            ),
        ]))
    );
}

#[test]
fn non_string_leaf_in_conditions_drops_the_field() {
    let exports = obj(vec![("import", s("./a.js")), ("require", JsonValue::Bool(true))]);
    assert_eq!(parse_exports_like_field("p", Some(&exports)), None);
}

#[test]
fn arrays_and_null_leave_the_field_unset() {
    assert_eq!(parse_exports_like_field("p", Some(&JsonValue::Null)), None);
    assert_eq!(parse_exports_like_field("p", Some(&JsonValue::Array(vec![s("./a.js")]))), None);
    assert_eq!(parse_exports_like_field("p", None), None);
}

#[test]
fn empty_exports_object_is_empty_conditions() {
    assert_eq!(
        parse_exports_like_field("p", Some(&obj(vec![]))),
        Some(ExportsLikeField::Conditional(vec![]))
    );
}

#[test]
fn subpath_keys_go_under_the_package_name() {
    let exports = obj(vec![(".", s("./i.js")), ("./bar", s("./b.js")), ("./lib/*", s("./src/*.js"))]);
    assert_eq!(
        parse_exports_like_field("foo", Some(&exports)),
        Some(ExportsLikeField::Subpaths(vec![
            ("foo".to_string(), file("./i.js")),
            ("foo/bar".to_string(), file("./b.js")),
            ("foo/lib/*".to_string(), file("./src/*.js")),
        ]))
    );
}

#[test]
fn a_hint_names_an_unnamed_package() {
    let mut raw = raw_with_exports(s("./index.js"));
    raw.name = None;
    let pj = normalize_package_json("/p".to_string(), Some("hinted".to_string()), Arc::new(raw));
    assert_eq!(pj.name, Some("hinted".to_string()));
    assert_eq!(pj.parsed_exports, Some(ExportsLikeField::Filename("./index.js".to_string())));
}

#[test]
fn no_name_leaves_fields_unset() {
    let mut raw = raw_with_exports(s("./index.js"));
    raw.name = None;
    let pj = normalize_package_json("/p".to_string(), None, Arc::new(raw));
    assert_eq!(pj.name, None);
    assert_eq!(pj.parsed_exports, None);
}
