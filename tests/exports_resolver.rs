use esm_checker::exports_resolver::{ExportsResolver, FieldName, MatchedExport};
use esm_checker::package_json::FilenameOrConditional;

fn file(s: &str) -> FilenameOrConditional {
    FilenameOrConditional::Filename(s.to_string())
}

fn one(key: &str, value: FilenameOrConditional) -> Vec<(String, FilenameOrConditional)> {
    vec![(key.to_string(), value)]
}

#[test]
fn wildcard_suffix() {
    let map = one("foo/*", file("bar"));
    let bar = "bar".to_string();
    assert_eq!(
        ExportsResolver::match_export(&map, "foo/bar"),
        Some(MatchedExport::Filename(&bar))
    );
}

#[test]
fn wildcard_no_match() {
    let map = one("foo/*.js", file("bar"));
    assert_eq!(ExportsResolver::match_export(&map, "foo/baz"), None);
    let map = one("foo/*.js", file("bar"));
    assert_eq!(ExportsResolver::match_export(&map, "baz/qux.js"), None);
}

#[test]
fn wildcard_infix_with_value_pattern() {
    let map = one("foo/*.js", file("bar/*.js"));
    let target = "bar/*.js".to_string();
    assert_eq!(
        ExportsResolver::match_export(&map, "foo/baz.js"),
        Some(MatchedExport::FilenameWithPlaceholders(&target, vec!["baz"]))
    );
}

#[test]
fn multiple_wildcards() {
    let map = one("foo/*/baz/*.js", file("bar/*/qux/*.js"));
    let target = "bar/*/qux/*.js".to_string();
    assert_eq!(
        ExportsResolver::match_export(&map, "foo/one/baz/two.js"),
        Some(MatchedExport::FilenameWithPlaceholders(&target, vec!["one", "two"]))
    );
}

fn node_conditions() -> Vec<(String, FilenameOrConditional)> {
    vec![
        (
            "node".to_string(),
            FilenameOrConditional::Conditional(vec![
                ("import".to_string(), file("bar/*.mjs")),
                ("default".to_string(), file("bar/*.js")),
            ]),
        ),
        ("default".to_string(), file("qux/*.js")),
    ]
}

fn plain_conditions() -> Vec<(String, FilenameOrConditional)> {
    vec![
        ("import".to_string(), file("qux/import.js")),
        ("default".to_string(), file("bar/default.js")),
    ]
}

#[test]
fn wildcard_with_condition_names() {
    let map = one("foo/*.js", FilenameOrConditional::Conditional(node_conditions()));
    let expected = node_conditions();
    assert_eq!(
        ExportsResolver::match_export(&map, "foo/baz.js"),
        Some(MatchedExport::ConditionalWithPlaceholders(&expected, vec!["baz"]))
    );

    let map = one("foo/*.js", FilenameOrConditional::Conditional(plain_conditions()));
    let expected = plain_conditions();
    assert_eq!(
        ExportsResolver::match_export(&map, "foo/bar.js"),
        Some(MatchedExport::Conditional(&expected))
    );
}

#[test]
fn exact_key_wins_over_wildcard() {
    let map = vec![
        ("foo/*".to_string(), file("./wild/*.js")),
        ("foo/bar".to_string(), file("./exact.js")),
    ];
    let exact = "./exact.js".to_string();
    assert_eq!(
        ExportsResolver::match_export(&map, "foo/bar"),
        Some(MatchedExport::Filename(&exact))
    );
}

#[test]
fn wildcard_prefix_must_match_even_for_empty_specifier() {
    let map = one("x*", file("y"));
    assert_eq!(ExportsResolver::match_export(&map, ""), None);
}

#[test]
fn trailing_wildcard_captures_the_rest() {
    let map = one("foo/lib/*", file("./src/*.js"));
    let target = "./src/*.js".to_string();
    assert_eq!(
        ExportsResolver::match_export(&map, "foo/lib/util"),
        Some(MatchedExport::FilenameWithPlaceholders(&target, vec!["util"]))
    );
}

#[test]
fn placeholders_are_replaced_left_to_right() {
    assert_eq!(
        ExportsResolver::replace_placeholders("bar/*/qux/*.js", &vec!["one", "two"]),
        "bar/one/qux/two.js"
    );
    assert_eq!(ExportsResolver::replace_placeholders("a/*", &vec!["b*", "c"]), "a/bc");
    assert_eq!(ExportsResolver::replace_placeholders("plain", &vec!["x"]), "plain");
}

#[test]
fn placeholders_in_nested_values() {
    assert!(ExportsResolver::any_placeholders_in_map_values(&node_conditions()));
    assert!(!ExportsResolver::any_placeholders_in_map_values(&plain_conditions()));
}

#[test]
fn condition_names_pick_in_order() {
    let conditions = vec![
        ("import".to_string(), file("./m.mjs")),
        ("require".to_string(), file("./c.cjs")),
        ("default".to_string(), file("./d.js")),
    ];
    let esm = ExportsResolver::new(
        FieldName::Exports,
        vec!["import".to_string(), "module".to_string(), "default".to_string()],
        None,
    );
    assert_eq!(
        esm.resolve_condition_name(&conditions, "/p/foo", &vec![]),
        Some("/p/foo/./m.mjs".to_string())
    );
    let cjs = ExportsResolver::new(
        FieldName::Exports,
        vec!["require".to_string(), "default".to_string()],
        None,
    );
    assert_eq!(
        cjs.resolve_condition_name(&conditions, "/p/foo", &vec![]),
        Some("/p/foo/./c.cjs".to_string())
    );
    let none = ExportsResolver::new(FieldName::Exports, vec!["browser".to_string()], None);
    assert_eq!(none.resolve_condition_name(&conditions, "/p/foo", &vec![]), None);
}

#[test]
fn first_condition_key_decides_even_when_nested_gives_nothing() {
    let conditions = vec![
        (
            "node".to_string(),
            FilenameOrConditional::Conditional(vec![("require".to_string(), file("./n.cjs"))]),
        ),
        ("default".to_string(), file("./d/*.js")),
    ];
    let r = ExportsResolver::new(
        FieldName::Exports,
        vec!["node".to_string(), "default".to_string()],
        None,
    );
    assert_eq!(r.resolve_condition_name(&conditions, "/p", &vec!["x"]), None);
    let later = ExportsResolver::new(FieldName::Exports, vec!["default".to_string()], None);
    assert_eq!(
        later.resolve_condition_name(&conditions, "/p", &vec!["x"]),
        Some("/p/./d/x.js".to_string())
    );
}

#[test]
fn longest_literal_prefix_wins_among_wildcards() {
    let map = vec![
        ("foo/*".to_string(), file("./any/*.js")),
        ("foo/lib/*".to_string(), file("./lib/*.js")),
        ("foo/l*".to_string(), file("./l/*.js")),
    ];
    let lib = "./lib/*.js".to_string();
    assert_eq!(
        ExportsResolver::match_export(&map, "foo/lib/x"),
        Some(MatchedExport::FilenameWithPlaceholders(&lib, vec!["x"]))
    );
    let same = vec![
        ("a/*".to_string(), file("./first/*")),
        ("a/*x".to_string(), file("./second/*")),
    ];
    let first = "./first/*".to_string();
    assert_eq!(
        ExportsResolver::match_export(&same, "a/bx"),
        Some(MatchedExport::FilenameWithPlaceholders(&first, vec!["bx"]))
    );
}
