use rspack_resolver::error::ResolveError;
use rspack_resolver::exports::{
    package_exports_resolve, package_imports_exports_resolve, package_imports_resolve, package_target_resolve,
    BareCall, NoPackageResolver, PackageResolver,
};
use rspack_resolver::json::JsonValue;

fn s(v: &str) -> JsonValue {
    JsonValue::String(v.to_string())
}

fn obj(entries: Vec<(&str, JsonValue)>) -> JsonValue {
    JsonValue::Object(entries.into_iter().map(|(k, v)| (k.to_string(), v)).collect())
}

fn entries(v: JsonValue) -> Vec<(String, JsonValue)> {
    match v {
        JsonValue::Object(e) => e,
        _ => panic!("not an object"),
    }
}

fn conds(c: &[&str]) -> Vec<String> {
    c.iter().map(|s| s.to_string()).collect()
}

const PKG: &str = "/root/node_modules/pkg";

fn exports(subpath: &str, e: &JsonValue, c: &[&str]) -> Result<Option<String>, ResolveError> {
    package_exports_resolve(PKG, subpath, e, &conds(c), &None, &None)
}

#[test]
fn string_exports_is_the_main_entry() {
    let e = s("./index.js");
    assert_eq!(exports(".", &e, &[]), Ok(Some("/root/node_modules/pkg/index.js".to_string())));
    assert_eq!(
        exports("./other", &e, &[]),
        Err(ResolveError::PackagePathNotExported("./other".to_string(), "/root/node_modules/pkg/package.json".to_string()))
    );
}

#[test]
fn conditions_pick_the_first_applying_entry_in_document_order() {
    let e = obj(vec![(".", obj(vec![("import", s("./esm.js")), ("require", s("./cjs.js")), ("default", s("./any.js"))]))]);
    assert_eq!(exports(".", &e, &["require"]), Ok(Some("/root/node_modules/pkg/cjs.js".to_string())));
    assert_eq!(exports(".", &e, &["require", "import"]), Ok(Some("/root/node_modules/pkg/esm.js".to_string())));
    assert_eq!(exports(".", &e, &["node"]), Ok(Some("/root/node_modules/pkg/any.js".to_string())));
}

#[test]
fn a_conditions_object_without_dot_keys_is_the_main_export() {
    let e = obj(vec![("require", s("./cjs.js"))]);
    assert_eq!(exports(".", &e, &["require"]), Ok(Some("/root/node_modules/pkg/cjs.js".to_string())));
}

#[test]
fn mixing_subpath_and_condition_keys_is_invalid() {
    let e = obj(vec![("./a", s("./a.js")), ("require", s("./cjs.js"))]);
    assert_eq!(
        exports(".", &e, &[]),
        Err(ResolveError::InvalidPackageConfig("/root/node_modules/pkg/package.json".to_string()))
    );
}

#[test]
fn the_most_specific_pattern_wins() {
    let e = obj(vec![
        ("./*", s("./dist/*.js")),
        ("./features/*", s("./src/features/*.js")),
        ("./features/internal/*", JsonValue::Null),
    ]);
    assert_eq!(exports("./features/x", &e, &[]), Ok(Some("/root/node_modules/pkg/src/features/x.js".to_string())));
    assert_eq!(exports("./y", &e, &[]), Ok(Some("/root/node_modules/pkg/dist/y.js".to_string())));
    assert_eq!(
        exports("./features/internal/z", &e, &[]),
        Err(ResolveError::PackagePathNotExported(
            "./features/internal/z".to_string(),
            "/root/node_modules/pkg/package.json".to_string()
        ))
    );
}

#[test]
fn pattern_with_a_trailer_needs_the_whole_key_length() {
    let e = obj(vec![("./lib/*.js", s("./out/*.mjs"))]);
    assert_eq!(exports("./lib/a/b.js", &e, &[]), Ok(Some("/root/node_modules/pkg/out/a/b.mjs".to_string())));
    assert!(exports("./lib/.js", &e, &[]).is_err());
}

#[test]
fn folder_mappings_append_the_rest() {
    let e = obj(vec![("./dist/", s("./build/"))]);
    assert_eq!(exports("./dist/a/b.js", &e, &[]), Ok(Some("/root/node_modules/pkg/build/a/b.js".to_string())));
    let bad = obj(vec![("./dist/", s("./build"))]);
    assert_eq!(
        exports("./dist/a.js", &bad, &[]),
        Err(ResolveError::InvalidPackageConfigDirectory("/root/node_modules/pkg/package.json".to_string()))
    );
}

#[test]
fn targets_that_leave_the_package_are_invalid() {
    let e = obj(vec![("./a", s("./../x.js")), ("./b", s("../x.js")), ("./c", s("./node_modules/x.js"))]);
    assert_eq!(
        exports("./a", &e, &[]),
        Err(ResolveError::InvalidPackageTarget(
            "./../x.js".to_string(),
            "./a".to_string(),
            "/root/node_modules/pkg/package.json".to_string()
        ))
    );
    assert_eq!(
        exports("./b", &e, &[]),
        Err(ResolveError::InvalidPackageTarget(
            "../x.js".to_string(),
            "./b".to_string(),
            "/root/node_modules/pkg/package.json".to_string()
        ))
    );
    assert!(matches!(exports("./c", &e, &[]), Err(ResolveError::InvalidPackageTarget(..))));
}

#[test]
fn arrays_fall_back_past_failures() {
    let e = obj(vec![(".", JsonValue::Array(vec![s("bad"), s("./good.js")]))]);
    assert_eq!(exports(".", &e, &[]), Ok(Some("/root/node_modules/pkg/good.js".to_string())));
    let empty = obj(vec![(".", JsonValue::Array(vec![]))]);
    assert_eq!(
        exports(".", &empty, &[]),
        Err(ResolveError::PackagePathNotExported(".".to_string(), "/root/node_modules/pkg/package.json".to_string()))
    );
}

#[test]
fn the_main_entry_with_a_query_is_not_exported() {
    let e = s("./index.js");
    let r = package_exports_resolve(PKG, ".", &e, &conds(&[]), &Some("?q".to_string()), &Some("#f".to_string()));
    assert_eq!(
        r,
        Err(ResolveError::PackagePathNotExported("./?q#f".to_string(), "/root/node_modules/pkg/package.json".to_string()))
    );
}

#[test]
fn keys_ending_in_a_slash_match_nothing() {
    let e = entries(obj(vec![("./dir/", s("./dir/"))]));
    let mut none = NoPackageResolver;
    let mut calls = Vec::new();
    let r = package_imports_exports_resolve(&mut none, "./dir/", &e, PKG, false, &conds(&[]), &mut calls);
    assert_eq!(r, Ok(None));
    assert!(calls.is_empty());
}

struct Fixed;

impl PackageResolver for Fixed {
    fn package_resolve(&mut self, package_url: &str, specifier: &str) -> Result<Option<String>, ResolveError> {
        if specifier.starts_with("missing") {
            Err(ResolveError::NotFound(specifier.to_string()))
        } else {
            Ok(Some(format!("{package_url}/node_modules/{specifier}")))
        }
    }
}

fn imports(spec: &str, fields: Vec<JsonValue>) -> (Result<Option<String>, ResolveError>, Vec<BareCall>) {
    let fields: Vec<Vec<(String, JsonValue)>> = fields.into_iter().map(entries).collect();
    let mut calls = Vec::new();
    let r = package_imports_resolve(
        &mut Fixed,
        spec,
        &fields,
        "/root/package.json",
        "/root",
        &conds(&["import"]),
        &mut calls,
    );
    (r, calls)
}

#[test]
fn imports_map_to_files_and_to_packages() {
    let (r, calls) = imports("#internal", vec![obj(vec![("#internal", s("./src/internal.js"))])]);
    assert_eq!(r, Ok(Some("/root/src/internal.js".to_string())));
    assert!(calls.is_empty());

    let (r, calls) = imports("#dep", vec![obj(vec![("#dep", s("dep/lib"))])]);
    assert_eq!(r, Ok(Some("/root/node_modules/dep/lib".to_string())));
    assert_eq!(calls.len(), 1);
    assert_eq!(calls[0].specifier, "dep/lib");
}

#[test]
fn an_imports_array_passes_over_a_package_that_is_not_found() {
    let (r, calls) = imports("#dep", vec![obj(vec![("#dep", JsonValue::Array(vec![s("missing-dep"), s("./local.js")]))])]);
    assert_eq!(r, Ok(Some("/root/local.js".to_string())));
    assert_eq!(calls.len(), 1);
    assert_eq!(calls[0].result, Err(ResolveError::NotFound("missing-dep".to_string())));
}

#[test]
fn imports_errors() {
    let (r, _) = imports("#", vec![obj(vec![])]);
    assert_eq!(r, Err(ResolveError::InvalidModuleSpecifier("#".to_string(), "/root/package.json".to_string())));
    let (r, _) = imports("#/x", vec![obj(vec![])]);
    assert_eq!(r, Err(ResolveError::InvalidModuleSpecifier("#/x".to_string(), "/root/package.json".to_string())));
    let (r, _) = imports("#nope", vec![obj(vec![("#other", s("./o.js"))])]);
    assert_eq!(r, Err(ResolveError::PackageImportNotDefined("#nope".to_string(), "/root/package.json".to_string())));
    let (r, _) = imports("#nope", vec![]);
    assert_eq!(r, Ok(None));
    let (r, _) = imports("#abs", vec![obj(vec![("#abs", s("/etc/x.js"))])]);
    assert_eq!(
        r,
        Err(ResolveError::InvalidPackageTarget("/etc/x.js".to_string(), "#abs".to_string(), "/root/package.json".to_string()))
    );
}

#[test]
fn imports_patterns_put_the_match_into_package_targets() {
    let (r, calls) = imports("#lib/a", vec![obj(vec![("#lib/*", s("dep/*.js"))])]);
    assert_eq!(r, Ok(Some("/root/node_modules/dep/a.js".to_string())));
    assert_eq!(calls[0].specifier, "dep/a.js");
}

#[test]
fn target_resolve_of_null_is_nothing() {
    let mut calls = Vec::new();
    let r = package_target_resolve(&mut NoPackageResolver, PKG, ".", &JsonValue::Null, None, false, &conds(&[]), &mut calls);
    assert_eq!(r, Ok(None));
    let r = package_target_resolve(&mut NoPackageResolver, PKG, ".", &JsonValue::Bool(true), None, false, &conds(&[]), &mut calls);
    assert_eq!(r, Ok(None));
}

#[test]
fn a_string_exports_is_shorthand_for_the_main_entry() {
    let short = s("./main.js");
    let long = obj(vec![(".", s("./main.js"))]);
    for subpath in [".", "./main.js", "./x/", "./*"] {
        assert_eq!(exports(subpath, &short, &[]), exports(subpath, &long, &[]), "{subpath}");
    }
}

#[test]
fn exports_never_leave_the_package() {
    let e = obj(vec![("./*", s("./*"))]);
    for subpath in ["./a/../../x", "./../y", "./a/./b"] {
        match exports(subpath, &e, &[]) {
            Ok(Some(p)) => assert!(p.starts_with("/root/node_modules/pkg/"), "{p}"),
            other => assert!(other.is_err(), "{other:?}"),
        }
    }
}

#[test]
fn an_array_whose_items_all_fail_gives_the_last_error() {
    let mut calls = Vec::new();
    let target = JsonValue::Array(vec![s("../a")]);
    let r = package_target_resolve(&mut NoPackageResolver, "/pkg", ".", &target, None, false, &conds(&[]), &mut calls);
    assert_eq!(
        r,
        Err(ResolveError::InvalidPackageTarget("../a".to_string(), ".".to_string(), "/pkg/package.json".to_string()))
    );
    let target = JsonValue::Array(vec![s("../a"), JsonValue::Null]);
    let r = package_target_resolve(&mut NoPackageResolver, "/pkg", ".", &target, None, false, &conds(&[]), &mut calls);
    assert_eq!(r, Ok(None));
    let target = JsonValue::Array(vec![JsonValue::Null, s("../b")]);
    let r = package_target_resolve(&mut NoPackageResolver, "/pkg", ".", &target, None, false, &conds(&[]), &mut calls);
    assert_eq!(
        r,
        Err(ResolveError::InvalidPackageTarget("../b".to_string(), ".".to_string(), "/pkg/package.json".to_string()))
    );
}
