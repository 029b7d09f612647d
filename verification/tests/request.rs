use std::cmp::Ordering;

use rspack_resolver::pattern::pattern_key_compare;
use rspack_resolver::request::{parse_package_specifier, strip_package_name};

fn split(s: &str) -> (String, String) {
    parse_package_specifier(s)
}

#[test]
fn package_specifiers_split_into_name_and_subpath() {
    assert_eq!(split("pkg"), ("pkg".to_string(), "".to_string()));
    assert_eq!(split("pkg/lib/a.js"), ("pkg".to_string(), "/lib/a.js".to_string()));
    assert_eq!(split("@scope/pkg"), ("@scope/pkg".to_string(), "".to_string()));
    assert_eq!(split("@scope/pkg/lib"), ("@scope/pkg".to_string(), "/lib".to_string()));
    assert_eq!(split("@scope"), ("@scope".to_string(), "".to_string()));
    assert_eq!(split(""), ("".to_string(), "".to_string()));
}

#[test]
fn package_names_are_stripped_at_a_separator_only() {
    assert_eq!(strip_package_name("pkg/a", "pkg"), Some("/a".to_string()));
    assert_eq!(strip_package_name("pkg", "pkg"), Some("".to_string()));
    assert_eq!(strip_package_name("pkg\\a", "pkg"), Some("\\a".to_string()));
    assert_eq!(strip_package_name("pkgx", "pkg"), None);
    assert_eq!(strip_package_name("other", "pkg"), None);
}

#[test]
fn pattern_keys_order_by_specificity() {
    assert_eq!(pattern_key_compare("", "./a/*"), Ordering::Greater);
    assert_eq!(pattern_key_compare("./a/b/*", "./a/*"), Ordering::Less);
    assert_eq!(pattern_key_compare("./a/*", "./a/b/*"), Ordering::Greater);
    assert_eq!(pattern_key_compare("./a/*", "./a/*"), Ordering::Equal);
    assert_eq!(pattern_key_compare("./a/*.js", "./a/*"), Ordering::Less);
    assert_eq!(pattern_key_compare("./a/", "./a/*"), Ordering::Greater);
    assert_eq!(pattern_key_compare("./ab/", "./a/*"), Ordering::Greater);
    assert_eq!(pattern_key_compare("./abc/", "./a/*"), Ordering::Less);
}

#[test]
fn pattern_key_order_is_antisymmetric_on_patterns() {
    let keys = ["./a/*", "./a/b/*", "./a/*.js", "./ab*", "#x/*"];
    for a in keys {
        for b in keys {
            assert_eq!(pattern_key_compare(a, b), pattern_key_compare(b, a).reverse(), "{a} {b}");
        }
    }
}

#[test]
fn pattern_key_ranking_is_transitive() {
    let keys = ["./a/b/c/*", "./a/b/*.js", "./a/b/*", "./a/*"];
    for i in 0..keys.len() {
        for j in i + 1..keys.len() {
            assert_eq!(pattern_key_compare(keys[i], keys[j]), Ordering::Less, "{} before {}", keys[i], keys[j]);
            assert_eq!(pattern_key_compare(keys[j], keys[i]), Ordering::Greater);
        }
    }
}
