use rspack_resolver::error::ResolveError;
use rspack_resolver::resolver::{browser_field_step, root_relative_specifier, BrowserFieldStep};
use rspack_resolver::resolver::{
    alias_key_match, classify_specifier, extended_config, extension, extension_alias_candidates, extension_alias_error,
    extension_candidates, require_core,
    file_name, find_extension_alias, main_field_request, normalize_path, path_without_extension, plan_alias,
    pnp_inner_request, query_split_candidates, AliasPlan, ExtendedConfig, SpecifierKind,
};

#[test]
fn specifiers_are_classified_by_their_first_component() {
    assert_eq!(classify_specifier("/a"), SpecifierKind::Absolute);
    assert_eq!(classify_specifier("./a"), SpecifierKind::Relative);
    assert_eq!(classify_specifier("."), SpecifierKind::Relative);
    assert_eq!(classify_specifier(".."), SpecifierKind::Relative);
    assert_eq!(classify_specifier("../a"), SpecifierKind::Relative);
    assert_eq!(classify_specifier("..a"), SpecifierKind::Bare);
    assert_eq!(classify_specifier(".a"), SpecifierKind::Bare);
    assert_eq!(classify_specifier("#a"), SpecifierKind::Hash);
    assert_eq!(classify_specifier("pkg/a"), SpecifierKind::Bare);
    assert_eq!(classify_specifier(""), SpecifierKind::Bare);
}

#[test]
fn alias_keys_match_exactly_or_as_a_package_name() {
    assert_eq!(alias_key_match("foo", "foo$"), Some("foo".to_string()));
    assert_eq!(alias_key_match("foo/bar", "foo$"), None);
    assert_eq!(alias_key_match("foo/bar", "foo"), Some("foo".to_string()));
    assert_eq!(alias_key_match("foobar", "foo"), None);
    assert_eq!(alias_key_match("@scope-js/package-name/dir", "@scope-js/package-name/dir$"), Some("@scope-js/package-name/dir".to_string()));
}

fn plan(request: &str, key: &str, value: &str) -> String {
    match plan_alias(request, key, value) {
        AliasPlan::Skip => "skip".to_string(),
        AliasPlan::Use(s) => format!("use {s}"),
        AliasPlan::UnlessFile { alias_path, specifier } => format!("unless-file {alias_path} {specifier}"),
    }
}

#[test]
fn alias_values_rewrite_the_request() {
    assert_eq!(plan("foo", "foo", "bar"), "use bar");
    assert_eq!(plan("foo/a/b", "foo", "./src/bar"), "unless-file src/bar src/bar/a/b");
    assert_eq!(plan("foo/", "foo", "/abs/bar"), "unless-file /abs/bar /abs/bar");
    assert_eq!(plan("bar", "bar", "bar"), "skip");
    assert_eq!(plan("bar/x", "bar", "bar"), "skip");
}

#[test]
fn normalize_drops_dots_and_applies_parents() {
    assert_eq!(normalize_path("/a/./b/../c"), "/a/c");
    assert_eq!(normalize_path("./a/b"), "a/b");
    assert_eq!(normalize_path("../a"), "a");
}

#[test]
fn main_fields_become_relative_requests() {
    assert_eq!(main_field_request("lib/index.js"), "./lib/index.js");
    assert_eq!(main_field_request("./lib/index.js"), "./lib/index.js");
    assert_eq!(main_field_request("../up.js"), "../up.js");
    assert_eq!(pnp_inner_request(Some("lib/a.js")), "./lib/a.js");
    assert_eq!(pnp_inner_request(None), ".");
}

#[test]
fn extended_configs_are_paths_or_packages() {
    assert!(matches!(extended_config("/p", ""), ExtendedConfig::EmptySpecifier));
    assert!(matches!(extended_config("/p", "/x/tsconfig.json"), ExtendedConfig::Path(p) if p == "/x/tsconfig.json"));
    assert!(matches!(extended_config("/p", "./base.json"), ExtendedConfig::Path(p) if p == "/p/base.json"));
    assert!(matches!(extended_config("/p", "../base.json"), ExtendedConfig::Path(p) if p == "/base.json"));
    assert!(matches!(extended_config("/p", "@tsconfig/node"), ExtendedConfig::Package));
}

#[test]
fn query_candidates_cut_at_each_question_mark_from_the_right() {
    assert_eq!(query_split_candidates("/a?b?c"), vec!["/a?b".to_string(), "/a".to_string()]);
    assert!(query_split_candidates("/a/b").is_empty());
}

#[test]
fn file_names_stems_and_extensions() {
    assert_eq!(file_name("/a/b.js"), Some("b.js".to_string()));
    assert_eq!(file_name("/a/b/"), Some("b".to_string()));
    assert_eq!(file_name("/"), None);
    assert_eq!(file_name("/a/.."), None);
    assert_eq!(extension("/a/b.test.js"), Some("js".to_string()));
    assert_eq!(extension("/a/.hidden"), None);
    assert_eq!(extension("/a/b."), Some("".to_string()));
    assert_eq!(path_without_extension("/a/b.test.js"), "/a/b.test");
    assert_eq!(path_without_extension("/a/.hidden"), "/a/.hidden");
    assert_eq!(path_without_extension("/a/b/"), "/a/b");
}

#[test]
fn extension_aliases_find_their_extension_and_candidates() {
    let aliases = vec![
        (".ts".to_string(), vec![".tsx".to_string()]),
        (".js".to_string(), vec![".ts".to_string(), ".js".to_string()]),
    ];
    assert_eq!(find_extension_alias("/src/a.js", &aliases), Some(1));
    assert_eq!(find_extension_alias("/src/a.mjs", &aliases), None);
    assert_eq!(find_extension_alias("/src/a", &aliases), None);
    assert_eq!(
        extension_alias_candidates("/src/a.js", &aliases[1].1),
        vec!["/src/a.ts".to_string(), "/src/a.js".to_string()]
    );
    assert_eq!(
        extension_alias_error("/src/a.js", &aliases[1].1),
        ResolveError::ExtensionAlias("a.js".to_string(), "a.ts,a.js".to_string(), "/src".to_string())
    );
}

#[test]
fn browser_field_steps() {
    assert_eq!(browser_field_step("/p/a.js", Some("x"), "x", None), BrowserFieldStep::Stop);
    assert_eq!(browser_field_step("/p/a.js", None, "./a.js", Some("./a.js")), BrowserFieldStep::SelfFile);
    assert_eq!(browser_field_step("/p/b.js", None, "./a.js", Some("./a.js")), BrowserFieldStep::Recursion);
    assert_eq!(browser_field_step("/p/a.js", None, "other", Some("other")), BrowserFieldStep::Recursion);
    assert_eq!(browser_field_step("/p/a.js", Some("m"), "./shim.js", None), BrowserFieldStep::Resolve);
}

#[test]
fn roots_take_server_relative_specifiers() {
    assert_eq!(root_relative_specifier("/a/b"), Some("a/b".to_string()));
    assert_eq!(root_relative_specifier("\\a"), Some("a".to_string()));
    assert_eq!(root_relative_specifier("a/b"), None);
}

#[test]
fn extension_candidates_append_each_extension() {
    let exts = vec![".js".to_string(), ".json".to_string(), ".node".to_string()];
    assert_eq!(
        extension_candidates("/a/index", &exts, false),
        vec!["/a/index.js".to_string(), "/a/index.json".to_string(), "/a/index.node".to_string()]
    );
    assert_eq!(extension_candidates("/a/b.ts", &exts, false)[0], "/a/b.ts.js");
    assert!(extension_candidates("/a/index", &exts, true).is_empty());
}

#[test]
fn builtin_modules_are_reported_with_their_node_prefix() {
    let builtins = vec!["fs".to_string(), "path".to_string()];
    assert_eq!(require_core("fs", true, &builtins), Err(ResolveError::Builtin("node:fs".to_string())));
    assert_eq!(require_core("node:fs", true, &builtins), Err(ResolveError::Builtin("node:fs".to_string())));
    assert_eq!(require_core("node:other", true, &builtins), Err(ResolveError::Builtin("node:other".to_string())));
    assert_eq!(require_core("lodash", true, &builtins), Ok(()));
    assert_eq!(require_core("fs", false, &builtins), Ok(()));
    assert_eq!(require_core("fs/promises", true, &builtins), Ok(()));
}
