use std::hash::{Hash, Hasher};

use rspack_resolver::{normalize_windows_separators, IdentityHasher, Interner, ToUstrPath, UstrPath, UstrPathSet};

fn set_hash(p: &UstrPath) -> u64 {
    let mut hasher = IdentityHasher::default();
    p.hash(&mut hasher);
    hasher.finish()
}

#[test]
fn default_is_the_empty_path() {
    assert_eq!(UstrPath::default().as_str(), "");
}

#[test]
fn the_handle_is_one_pointer_wide() {
    assert_eq!(std::mem::size_of::<UstrPath>(), std::mem::size_of::<usize>());
}

#[test]
fn same_string_is_same_pointer() {
    let mut interner = Interner::new();
    let a = UstrPath::new(&mut interner, "/a/b/c.js");
    let b = UstrPath::new(&mut interner, "/a/b/c.js");
    assert_eq!(a.as_str().as_ptr(), b.as_str().as_ptr());
    assert!(a == b);
}

#[test]
fn different_strings_are_not_equal() {
    let mut interner = Interner::new();
    assert!(UstrPath::new(&mut interner, "/a/b") != UstrPath::new(&mut interner, "/a/c"));
}

#[test]
fn windows_distinct_paths_stay_distinct() {
    let mut interner = Interner::new();
    assert!(UstrPath::new(&mut interner, r"C:\a\b") != UstrPath::new(&mut interner, r"C:\a\c"));
    assert!(UstrPath::new(&mut interner, r"C:\a\b") != UstrPath::new(&mut interner, r"D:\a\b"));
}

#[test]
fn hash_delivers_eight_bytes_to_the_identity_hasher() {
    let mut interner = Interner::new();
    assert_ne!(set_hash(&UstrPath::new(&mut interner, "/some/long/path/segment.js")), 0);
}

#[test]
fn equal_paths_always_hash_equal() {
    let mut interner = Interner::new();
    let a = UstrPath::new(&mut interner, "/a/b");
    let b = UstrPath::new(&mut interner, "/a/b");
    assert!(a == b);
    assert_eq!(set_hash(&a), set_hash(&b));
}

#[test]
fn hash_is_the_precomputed_hash() {
    let mut interner = Interner::new();
    let p = UstrPath::new(&mut interner, "/x/y");
    let mut hasher = std::collections::hash_map::DefaultHasher::new();
    p.hash(&mut hasher);
    let mut expected = std::collections::hash_map::DefaultHasher::new();
    expected.write_u64(p.precomputed_hash());
    assert_eq!(hasher.finish(), expected.finish());
}

#[test]
fn works_in_an_identity_hashed_set() {
    let mut interner = Interner::new();
    let mut set: UstrPathSet = UstrPathSet::default();
    set.insert(UstrPath::new(&mut interner, "/a/b"));
    assert!(set.contains(&UstrPath::new(&mut interner, "/a/b")));
    assert!(!set.contains(&UstrPath::new(&mut interner, "/a/c")));
}

#[test]
fn debug_prints_the_path_not_the_ustr_wrapper() {
    let mut interner = Interner::new();
    let p = UstrPath::new(&mut interner, "/a/b");
    assert_eq!(p.debug_string(), "\"/a/b\"");
    assert_eq!(p.to_string(), "/a/b");
}

#[test]
fn identity_hasher_receives_eight_bytes() {
    let mut interner = Interner::new();
    let mut hasher = IdentityHasher::default();
    UstrPath::new(&mut interner, "/some/long/path/that/is/not/eight/bytes").hash(&mut hasher);
    assert_ne!(hasher.finish(), 0);
}

#[test]
fn already_canonical_windows_paths_need_no_rewrite() {
    assert_eq!(normalize_windows_separators(r"C:\a\b"), None);
    assert_eq!(normalize_windows_separators(r"C:\"), None);
    assert_eq!(normalize_windows_separators(r"\"), None);
    assert_eq!(normalize_windows_separators("a"), None);
}

#[test]
fn forward_slashes_become_backslashes() {
    assert_eq!(normalize_windows_separators("C:/a/b").as_deref(), Some(r"C:\a\b"));
    assert_eq!(normalize_windows_separators(r"C:/a\b").as_deref(), Some(r"C:\a\b"));
}

#[test]
fn repeated_separators_collapse() {
    assert_eq!(normalize_windows_separators(r"C:\a\\b").as_deref(), Some(r"C:\a\b"));
    assert_eq!(normalize_windows_separators("C://a//b").as_deref(), Some(r"C:\a\b"));
}

#[test]
fn trailing_separator_is_dropped_but_roots_survive() {
    assert_eq!(normalize_windows_separators(r"C:\a\b\").as_deref(), Some(r"C:\a\b"));
    assert_eq!(normalize_windows_separators("C:/").as_deref(), Some(r"C:\"));
    assert_eq!(normalize_windows_separators(r"C:\"), None);
}

#[test]
fn unc_and_verbatim_paths_pass_through_untouched() {
    assert_eq!(normalize_windows_separators(r"\\?\C:\a/b"), None);
    assert_eq!(normalize_windows_separators("//?/C:/a/b"), None);
    assert_eq!(normalize_windows_separators(r"\\server\share\a"), None);
}

#[test]
fn non_ascii_segments_survive_normalization() {
    assert_eq!(normalize_windows_separators("C:/项目/源码").as_deref(), Some(r"C:\项目\源码"));
}

#[test]
fn lowercase_drive_letter_is_folded_to_uppercase() {
    assert_eq!(normalize_windows_separators(r"c:\a\b").as_deref(), Some(r"C:\a\b"));
    assert_eq!(normalize_windows_separators("c:/a/b").as_deref(), Some(r"C:\a\b"));
    assert_eq!(normalize_windows_separators(r"c:\").as_deref(), Some(r"C:\"));
    assert_eq!(normalize_windows_separators(r"C:\a\b"), None);
}

#[test]
fn case_is_folded_only_on_the_drive_letter() {
    assert_eq!(normalize_windows_separators(r"c:\Foo\BAR.ts").as_deref(), Some(r"C:\Foo\BAR.ts"));
    assert_eq!(normalize_windows_separators(r"relative\Path"), None);
}

#[test]
fn to_ustr_path_accepts_every_path_flavor() {
    let mut interner = Interner::new();
    let expected = UstrPath::new(&mut interner, "/a/b");
    assert!("/a/b".to_ustr_path(&mut interner) == expected);
    assert!(String::from("/a/b").to_ustr_path(&mut interner) == expected);
    assert!(expected.to_ustr_path(&mut interner) == expected);
}

#[test]
fn canonical_form_is_a_fixed_point() {
    for s in ["C:/a/b", r"c:\a\\b\", "C://x//y//", r"c:\"] {
        let once = normalize_windows_separators(s).expect("needs a rewrite");
        assert_eq!(normalize_windows_separators(&once), None, "{once:?} is already canonical");
    }
}

#[test]
fn clone_and_equal_share_the_text() {
    let mut interner = Interner::new();
    let a = UstrPath::new(&mut interner, "/q.js");
    let b = a.clone();
    assert!(a == b);
    assert_eq!(b.as_str(), "/q.js");
    assert_eq!(a.refcount(), 3);
}

#[test]
fn the_default_path_equals_the_interned_empty_path() {
    let mut interner = Interner::new();
    assert!(UstrPath::default() == UstrPath::new(&mut interner, ""));
}
