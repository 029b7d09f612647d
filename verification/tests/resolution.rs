use rspack_resolver::{resolution::Resolution, Interner, UstrPath};

#[test]
fn resolution_test() {
    let mut interner = Interner::new();
    let resolution = Resolution::new(
        UstrPath::new(&mut interner, "foo"),
        Some("?query".to_string()),
        Some("#fragment".to_string()),
        None,
    );
    assert_eq!(resolution.path(), "foo");
    assert_eq!(resolution.query(), Some("?query"));
    assert_eq!(resolution.fragment(), Some("#fragment"));
    assert_eq!(resolution.full_path(), "foo?query#fragment");
    assert_eq!(resolution.into_path_buf(), "foo");
}

#[test]
fn ustr_path_accessor_is_the_same_pointer_as_the_stored_path() {
    let mut interner = Interner::new();
    let resolution = Resolution::new(UstrPath::new(&mut interner, "foo"), None, None, None);
    assert_eq!(resolution.ustr_path().as_str(), "foo");
    assert_eq!(
        resolution.ustr_path().as_str().as_ptr(),
        UstrPath::new(&mut interner, "foo").as_str().as_ptr()
    );
    assert_eq!(resolution.path(), "foo");
    assert_eq!(resolution.into_path_buf(), "foo");
}

#[test]
fn full_path_without_query_or_fragment_is_the_path() {
    let mut interner = Interner::new();
    let only_query = Resolution::new(UstrPath::new(&mut interner, "/a.js"), Some("?x".to_string()), None, None);
    assert_eq!(only_query.full_path(), "/a.js?x");
    let plain = Resolution::new(UstrPath::new(&mut interner, "/a.js"), None, None, None);
    assert_eq!(plain.full_path(), "/a.js");
    assert_eq!(plain.package_json().is_none(), true);
}
