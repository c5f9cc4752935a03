use esm_checker::project::select_dependencies;
use esm_checker::bindings::add;
use esm_checker::utils::get_npm_package_name;

#[test]
fn npm_package_name() {
    assert_eq!("foo", get_npm_package_name("foo"));
    assert_eq!("foo", get_npm_package_name("foo/bar"));
    assert_eq!("foo", get_npm_package_name("foo/bar/baz.mjs"));
    assert_eq!("@foo/bar", get_npm_package_name("@foo/bar"));
    assert_eq!("@foo/bar", get_npm_package_name("@foo/bar/baz.mjs"));
}

#[test]
fn npm_package_name_edges() {
    assert_eq!("", get_npm_package_name(""));
    assert_eq!("@scope", get_npm_package_name("@scope"));
    assert_eq!("@a/b", get_npm_package_name("@a/b/c"));
    assert_eq!("", get_npm_package_name("/abs/path"));
}

#[test]
fn it_works() {
    let result = add(2, 2);
    assert_eq!(result, 4);
}

#[test]
fn dependencies_to_analyze() {
    let names = vec!["react".to_string(), "@types/react".to_string(), "screenfull".to_string()];
    assert_eq!(select_dependencies(names.clone(), None), vec!["react".to_string(), "screenfull".to_string()]);
    assert_eq!(
        select_dependencies(names.clone(), Some(vec!["screenfull".to_string(), "@types/react".to_string()])),
        vec!["screenfull".to_string()]
    );
    assert_eq!(select_dependencies(names, Some(vec![])), Vec::<String>::new());
}
