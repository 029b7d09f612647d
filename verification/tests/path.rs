use rspack_resolver::path::{check_restrictions, is_inside, is_invalid_exports_target, join, normalize_with, parent_of, starts_with_path};

fn resolves(restriction: &str, file: &str) -> bool {
    check_restrictions(file, &vec![restriction.to_string()])
}

#[test]
fn file_inside_a_restriction() {
    assert!(resolves("/a/b/c", &normalize_with("/a/b/c", "./index.js")));
}

#[test]
fn sibling_of_a_restriction() {
    assert!(!resolves("/a/b/c", &normalize_with("/a/b", "./c-other.js")));
}

#[test]
fn sibling_of_a_restriction_separated_by_a_backslash() {
    assert!(!resolves("/a/b/c", &normalize_with("/a/b", "./c\\sibling.js")));
}

#[test]
fn sibling_of_a_restriction_containing_a_backslash() {
    assert!(!resolves("/a/b\\c", &normalize_with("/a", "./b\\c\\sibling.js")));
}

#[test]
fn file_inside_a_restriction_ending_with_a_separator() {
    assert!(resolves("/a/b/c/", "/a/b/c/index.js"));
}

#[test]
fn file_inside_the_root_restriction() {
    assert!(resolves("/", "/a/index.js"));
}

#[test]
fn file_inside_a_non_normalized_restriction() {
    assert!(resolves("/a/x/../b/c", "/a/b/c/index.js"));
}

#[test]
fn empty_restriction_matches_every_path() {
    assert!(resolves("", "/a/b/c/index.js"));
}

#[test]
fn relative_restriction_matches_no_absolute_path() {
    assert!(!resolves(".", "/a/b/c/index.js"));
    assert!(!resolves("..", "/a/b/c/index.js"));
    assert!(!resolves("foo/..", "/a/b/c/index.js"));
}

#[test]
fn file_inside_a_restriction_differing_in_case() {
    assert!(!resolves("/A/B/C", "/a/b/c/index.js"));
}

#[test]
fn every_restriction_must_hold() {
    let both = vec!["/a".to_string(), "/a/b".to_string()];
    assert!(check_restrictions("/a/b/x.js", &both));
    assert!(!check_restrictions("/a/c/x.js", &both));
    assert!(check_restrictions("/anything", &vec![]));
    assert!(is_inside("/a/b", "/a/b"));
}

#[test]
fn normalize_with_resolves_dots() {
    assert_eq!(normalize_with("/a/b", "../c/./d"), "/a/c/d");
    assert_eq!(normalize_with("/a/b", "/abs/x"), "/abs/x");
    assert_eq!(normalize_with("/", "../../x"), "/x");
    assert_eq!(normalize_with("/a/b/", "c/"), "/a/b/c");
}

#[test]
fn join_puts_one_separator_between() {
    assert_eq!(join("/a", "b"), "/a/b");
    assert_eq!(join("/a/", "b"), "/a/b");
    assert_eq!(join("", "b"), "b");
}

#[test]
fn invalid_exports_targets() {
    assert!(is_invalid_exports_target("./a/../b"));
    assert!(is_invalid_exports_target("./Node_Modules/x"));
    assert!(!is_invalid_exports_target("./lib/a.js"));
    assert!(!is_invalid_exports_target("./node_modulesx/a.js"));
}

#[test]
fn parents_as_path_gives_them() {
    assert_eq!(parent_of("/a/b/tsconfig.json"), Some("/a/b".to_string()));
    assert_eq!(parent_of("/a.json"), Some("/".to_string()));
    assert_eq!(parent_of("a.json"), Some("".to_string()));
    assert_eq!(parent_of("./a.json"), Some(".".to_string()));
    assert_eq!(parent_of("a//b/"), Some("a".to_string()));
    assert_eq!(parent_of("/a/./b"), Some("/a".to_string()));
    assert_eq!(parent_of("/"), None);
    assert_eq!(parent_of(""), None);
}

#[test]
fn path_prefixes_compare_components() {
    assert!(starts_with_path("/a/b/c", "/a/b"));
    assert!(starts_with_path("/a/b/c", "/a/b/"));
    assert!(!starts_with_path("/a/bc", "/a/b"));
    assert!(!starts_with_path("a/b", "/a"));
    assert!(starts_with_path("./a/b", "./a"));
    assert!(!starts_with_path("a/b", "./a"));
}
