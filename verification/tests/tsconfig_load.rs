use rspack_resolver::error::ResolveError;
use rspack_resolver::tsconfig::ExtendsField;
use rspack_resolver::tsconfig_load::{TsLoadAnswer, TsLoadQuery, TsconfigLoad};

fn begin(directory: &str, extends: Option<ExtendsField>) -> (TsconfigLoad, TsLoadQuery) {
    let mut load = TsconfigLoad::new(directory, &extends);
    let q = load.next(TsLoadAnswer::Begin);
    (load, q)
}

#[test]
fn a_config_without_extends_goes_to_its_references() {
    let (mut load, q) = begin("/app", None);
    assert_eq!(q, TsLoadQuery::ApplyReferences);
    let q = load.next(TsLoadAnswer::ReferencePaths(vec![]));
    assert_eq!(q, TsLoadQuery::Done(Ok(())));
}

#[test]
fn relative_and_absolute_extends_are_loaded_in_order() {
    let extends = ExtendsField::Multiple(vec![
        "./base/tsconfig.json".to_string(),
        "/shared/tsconfig.json".to_string(),
    ]);
    let (mut load, q) = begin("/app", Some(extends));
    assert_eq!(q, TsLoadQuery::LoadExtended("/app/base/tsconfig.json".to_string()));
    let q = load.next(TsLoadAnswer::Done);
    assert_eq!(q, TsLoadQuery::LoadExtended("/shared/tsconfig.json".to_string()));
    let q = load.next(TsLoadAnswer::Done);
    assert_eq!(q, TsLoadQuery::ApplyReferences);
}

#[test]
fn a_package_extends_is_found_before_any_config_is_loaded() {
    let extends = ExtendsField::Multiple(vec!["@tsconfig/node".to_string(), "./local.json".to_string()]);
    let (mut load, q) = begin("/app", Some(extends));
    assert_eq!(
        q,
        TsLoadQuery::FindPackage { directory: "/app".to_string(), specifier: "@tsconfig/node".to_string() }
    );
    let found = "/app/node_modules/@tsconfig/node/tsconfig.json".to_string();
    let q = load.next(TsLoadAnswer::Found(Ok(found.clone())));
    assert_eq!(q, TsLoadQuery::LoadExtended(found));
    let q = load.next(TsLoadAnswer::Done);
    assert_eq!(q, TsLoadQuery::LoadExtended("/app/local.json".to_string()));
}

#[test]
fn a_package_extends_that_is_not_found_names_the_entry() {
    let extends = ExtendsField::Single("missing-config".to_string());
    let (mut load, _) = begin("/app", Some(extends));
    let q = load.next(TsLoadAnswer::Found(Err(ResolveError::NotFound("missing-config".to_string()))));
    assert_eq!(q, TsLoadQuery::Done(Err(ResolveError::TsconfigNotFound("missing-config".to_string()))));
}

#[test]
fn an_empty_extends_entry_is_an_error() {
    let extends = ExtendsField::Single(String::new());
    let (_, q) = begin("/app", Some(extends));
    assert_eq!(q, TsLoadQuery::Done(Err(ResolveError::EmptySpecifier(String::new()))));
}

#[test]
fn each_reference_is_loaded_with_its_index() {
    let (mut load, _) = begin("/app", None);
    let q = load.next(TsLoadAnswer::ReferencePaths(vec!["/a/tsconfig.json".to_string(), "/b/tsconfig.json".to_string()]));
    assert_eq!(q, TsLoadQuery::LoadReference { index: 0, path: "/a/tsconfig.json".to_string() });
    let q = load.next(TsLoadAnswer::Done);
    assert_eq!(q, TsLoadQuery::LoadReference { index: 1, path: "/b/tsconfig.json".to_string() });
    let q = load.next(TsLoadAnswer::Done);
    assert_eq!(q, TsLoadQuery::Done(Ok(())));
}
