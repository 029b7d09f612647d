use std::sync::Arc;

use rspack_resolver::error::JsonParseError;
use rspack_resolver::json::JsonValue;
use rspack_resolver::error::ResolveError;
use rspack_resolver::tsconfig::{check_self_reference, ExtendsField, ProjectReference, TsConfig, TsconfigReferences};

fn s(v: &str) -> JsonValue {
    JsonValue::String(v.to_string())
}

fn obj(entries: Vec<(&str, JsonValue)>) -> JsonValue {
    JsonValue::Object(entries.into_iter().map(|(k, v)| (k.to_string(), v)).collect())
}

fn arr(items: Vec<JsonValue>) -> JsonValue {
    JsonValue::Array(items)
}

fn parse(value: JsonValue) -> Result<TsConfig, JsonParseError> {
    TsConfig::parse(true, "/project/tsconfig.json", value)
}

fn message(r: Result<TsConfig, JsonParseError>) -> String {
    r.err().expect("should fail").message
}

#[test]
fn extends_reads_one_or_several_configs() {
    let t = parse(obj(vec![("extends", s("./base.json"))])).unwrap();
    assert_eq!(t.extends, Some(ExtendsField::Single("./base.json".to_string())));
    let t = parse(obj(vec![("extends", arr(vec![s("a"), s("b")]))])).unwrap();
    assert_eq!(t.extends, Some(ExtendsField::Multiple(vec!["a".to_string(), "b".to_string()])));
    let t = parse(obj(vec![("extends", JsonValue::Null)])).unwrap();
    assert_eq!(t.extends, None);
}

#[test]
fn malformed_fields_give_their_messages() {
    assert_eq!(message(parse(arr(vec![]))), "tsconfig root value must be a JSON object");
    assert_eq!(message(parse(obj(vec![("extends", JsonValue::Bool(true))]))), "tsconfig extends must be a string or an array of strings");
    assert_eq!(message(parse(obj(vec![("extends", arr(vec![JsonValue::Null]))]))), "tsconfig extends array entries must be strings");
    assert_eq!(message(parse(obj(vec![("compilerOptions", s("x"))]))), "tsconfig compilerOptions must be an object");
    assert_eq!(
        message(parse(obj(vec![("compilerOptions", obj(vec![("baseUrl", JsonValue::Null)]))]))),
        "tsconfig compilerOptions.baseUrl must be a string"
    );
    assert_eq!(
        message(parse(obj(vec![("compilerOptions", obj(vec![("paths", arr(vec![]))]))]))),
        "tsconfig compilerOptions.paths must be an object"
    );
    assert_eq!(
        message(parse(obj(vec![("compilerOptions", obj(vec![("paths", obj(vec![("a", s("x"))]))]))]))),
        "tsconfig compilerOptions.paths values must be arrays"
    );
    assert_eq!(
        message(parse(obj(vec![("compilerOptions", obj(vec![("paths", obj(vec![("a", arr(vec![JsonValue::Null]))]))]))]))),
        "tsconfig compilerOptions.paths entries must be strings"
    );
    assert_eq!(message(parse(obj(vec![("references", obj(vec![]))]))), "tsconfig references must be an array");
    assert_eq!(message(parse(obj(vec![("references", arr(vec![s("x")]))]))), "tsconfig references entries must be objects");
    assert_eq!(
        message(parse(obj(vec![("references", arr(vec![obj(vec![])]))]))),
        "tsconfig references entries must contain a path"
    );
    assert_eq!(
        message(parse(obj(vec![("references", arr(vec![obj(vec![("path", JsonValue::Bool(false))])]))]))),
        "tsconfig references path must be a string"
    );
}

fn with_paths(base_url: Option<&str>, paths: Vec<(&str, Vec<&str>)>) -> TsConfig {
    let mut options = vec![];
    if let Some(b) = base_url {
        options.push(("baseUrl", s(b)));
    }
    options.push(("paths", obj(paths.into_iter().map(|(k, v)| (k, arr(v.into_iter().map(s).collect()))).collect())));
    parse(obj(vec![("compilerOptions", obj(options))])).unwrap().build()
}

#[test]
fn exact_aliases_come_before_patterns() {
    let t = with_paths(None, vec![("foo", vec!["./exact/foo.ts"]), ("f*", vec!["./pattern/*.ts"])]);
    assert_eq!(t.resolve_path_alias("foo"), vec!["/project/exact/foo.ts".to_string()]);
    assert_eq!(t.resolve_path_alias("fab"), vec!["/project/pattern/ab.ts".to_string()]);
}

#[test]
fn the_longest_prefix_wins_and_base_url_comes_last() {
    let t = with_paths(Some("./src"), vec![("@/*", vec!["./app/*"]), ("@/lib/*", vec!["./lib/*", "./vendor/*"])]);
    assert_eq!(
        t.resolve_path_alias("@/lib/x"),
        vec!["/project/src/lib/x".to_string(), "/project/src/vendor/x".to_string(), "/project/src/@/lib/x".to_string()]
    );
    assert_eq!(t.resolve_path_alias("@/y"), vec!["/project/src/app/y".to_string(), "/project/src/@/y".to_string()]);
    assert_eq!(t.resolve_path_alias("none"), vec!["/project/src/none".to_string()]);
}

#[test]
fn relative_and_absolute_specifiers_are_not_aliased() {
    let t = with_paths(Some("."), vec![("*", vec!["./*"])]);
    assert!(t.resolve_path_alias("./x").is_empty());
    assert!(t.resolve_path_alias("/x").is_empty());
}

#[test]
fn config_dir_is_substituted_in_the_root_config() {
    let t = with_paths(Some("${configDir}/src"), vec![("a/*", vec!["${configDir}/lib/*"])]);
    assert_eq!(
        t.resolve_path_alias("a/b"),
        vec!["/project/lib/b".to_string(), "/project/src/a/b".to_string()]
    );
}

#[test]
fn an_extending_config_takes_what_it_lacks() {
    let mut child = parse(obj(vec![])).unwrap();
    let parent = TsConfig::parse(
        false,
        "/base/tsconfig.json",
        obj(vec![("compilerOptions", obj(vec![("baseUrl", s("./root")), ("paths", obj(vec![("x", arr(vec![s("./y")]))]))]))]),
    )
    .unwrap();
    child.extend_tsconfig(&parent);
    assert_eq!(child.resolve_path_alias("x"), vec!["/base/root/y".to_string(), "/base/root/x".to_string()]);
}

#[test]
fn references_map_paths_under_their_base() {
    let reference = TsConfig::parse(
        true,
        "/project/packages/a/tsconfig.json",
        obj(vec![("compilerOptions", obj(vec![("paths", obj(vec![("z", arr(vec![s("./ref-z")]))]))]))]),
    )
    .unwrap()
    .build();
    let mut root = parse(obj(vec![("references", arr(vec![obj(vec![("path", s("./packages/a"))])]))])).unwrap();
    assert_eq!(root.references.len(), 1);
    assert_eq!(root.references[0].path, "./packages/a");
    root.references[0] = ProjectReference { path: "./packages/a".to_string(), tsconfig: Some(Arc::new(reference)) };
    assert_eq!(root.resolve("/project/packages/a/src/index.ts", "z"), vec!["/project/packages/a/ref-z".to_string()]);
    assert!(root.resolve("/project/other/index.ts", "z").is_empty());
}

#[test]
fn comments_are_stripped_before_parsing() {
    let mut text = String::from("{ // comment\n \"a\": 1, /* b */ }");
    let blank = TsConfig::strip_comments(&mut text);
    assert!(!blank);
    assert!(!text.contains("comment"));
    assert!(!text.contains("/*"));
    let mut only_comment = String::from("  // nothing here\n");
    assert!(TsConfig::strip_comments(&mut only_comment));
}

#[test]
fn directory_is_the_parent_of_the_file() {
    let t = parse(obj(vec![])).unwrap();
    assert_eq!(t.directory(), "/project");
}

#[test]
fn reference_options_replace_or_drop_the_listed_references() {
    let text = || obj(vec![("references", arr(vec![obj(vec![("path", s("./a"))]), obj(vec![("path", s("../b"))])]))]);
    let mut t = parse(text()).unwrap();
    t.apply_references_option(&TsconfigReferences::Auto);
    assert_eq!(t.reference_config_paths(), vec!["/project/a".to_string(), "/b".to_string()]);
    t.apply_references_option(&TsconfigReferences::Paths(vec!["./c".to_string()]));
    assert_eq!(t.reference_config_paths(), vec!["/project/c".to_string()]);
    t.apply_references_option(&TsconfigReferences::Disabled);
    assert!(t.references.is_empty());
}

#[test]
fn a_config_may_not_reference_itself() {
    assert_eq!(
        check_self_reference("/p/tsconfig.json", "/p//tsconfig.json"),
        Err(ResolveError::TsconfigSelfReference("/p//tsconfig.json".to_string()))
    );
    assert_eq!(check_self_reference("/p/tsconfig.json", "/p/a/tsconfig.json"), Ok(()));
}

#[test]
fn loaded_reference_configs_are_recorded() {
    let mut t = parse(obj(vec![("references", arr(vec![obj(vec![("path", s("./a"))])]))])).unwrap();
    let loaded = parse(obj(vec![])).unwrap();
    t.set_reference_config(0, Arc::new(loaded));
    assert!(t.references[0].tsconfig.is_some());
    assert_eq!(t.references[0].path, "./a");
}

#[test]
fn a_blank_text_reads_as_an_empty_config() {
    let mut text = "  // nothing here\n  /* at all */ ".to_string();
    assert!(TsConfig::strip_comments(&mut text));
    let t = TsConfig::parse_text_value(true, "/p/tsconfig.json", None).unwrap();
    assert!(t.extends.is_none());
    assert!(t.references.is_empty());
    assert_eq!(t.path, "/p/tsconfig.json");
    let err = TsConfig::parse_text_value(true, "/p/tsconfig.json", Some(JsonValue::Array(vec![]))).unwrap_err();
    assert_eq!(err.message, "tsconfig root value must be a JSON object");
}

#[test]
fn an_alias_whose_parts_overlap_in_the_specifier_does_not_fit() {
    let t = with_paths(None, vec![("a*ab", vec!["./x/*"])]);
    assert!(!t.path_alias_fits("ab"));
    assert!(t.path_alias_fits("aab"));
    assert!(t.path_alias_fits("./ab"));
    assert!(t.path_alias_fits("zzz"));
    assert!(t.resolve_fits_check("/project/src", "aab"));
    assert!(!t.resolve_fits_check("/project/src", "ab"));
}
