use rspack_resolver::alias::AliasValue;
use rspack_resolver::error::ResolveError;
use rspack_resolver::file_load::LoadOptions;
use rspack_resolver::file_system::FileMetadata;
use rspack_resolver::json::JsonValue;
use rspack_resolver::resolve::{FsAnswer, FsQuery, ResolveOptions, ResolveWalk};

fn strings(v: &[&str]) -> Vec<String> {
    v.iter().map(|s| s.to_string()).collect()
}

fn options(symlinks: bool) -> ResolveOptions {
    ResolveOptions {
        load: LoadOptions {
            extensions: strings(&[".js", ".json"]),
            main_files: strings(&["index"]),
            main_fields: strings(&["main"]),
            description_files: true,
            enforce_extension: false,
            fully_specified: false,
            resolve_to_context: false,
            restrictions: vec![],
            function_restrictions: false,
            extension_alias: vec![],
        },
        modules: strings(&["node_modules"]),
        condition_names: strings(&["require"]),
        builtin_modules: true,
        builtins: strings(&["fs", "path"]),
        symlinks,
        alias: vec![],
        fallback: vec![],
        tsconfig: false,
        prefer_relative: false,
    }
}

struct Fs {
    dirs: Vec<&'static str>,
    files: Vec<&'static str>,
    package_json: fn(&str) -> Option<JsonValue>,
}

fn none(_: &str) -> Option<JsonValue> {
    None
}

fn obj(entries: Vec<(&str, JsonValue)>) -> JsonValue {
    JsonValue::Object(entries.into_iter().map(|(k, v)| (k.to_string(), v)).collect())
}

fn s(v: &str) -> JsonValue {
    JsonValue::String(v.to_string())
}

fn run(fs: &Fs, o: ResolveOptions, dir: &str, specifier: &str) -> (Result<String, ResolveError>, Vec<FsQuery>) {
    let mut nested = o.clone();
    nested.symlinks = false;
    nested.load.fully_specified = false;
    let mut walk = ResolveWalk::new(o, dir, specifier);
    let mut answer = FsAnswer::Begin;
    let mut asked = Vec::new();
    loop {
        assert!(walk.expects(&answer));
        let q = walk.next(answer);
        answer = match &q {
            FsQuery::Metadata(p) => {
                let p = p.as_str();
                if fs.dirs.contains(&p) {
                    FsAnswer::Metadata(Some(FileMetadata::new(false, true, false)))
                } else if fs.files.contains(&p) {
                    FsAnswer::Metadata(Some(FileMetadata::new(true, false, false)))
                } else {
                    FsAnswer::Metadata(None)
                }
            }
            FsQuery::ReadPackageJson(d) => FsAnswer::PackageJson((fs.package_json)(d.as_str())),
            FsQuery::Canonicalize(p) => FsAnswer::Canonical(format!("/real{p}")),
            FsQuery::CheckRestrictions(p) => FsAnswer::Allowed(!p.ends_with(".js")),
            FsQuery::TsconfigPaths { specifier, .. } => FsAnswer::TsconfigPaths(if specifier.starts_with("@app/") {
                vec![format!("/app/src/{}", &specifier[5..]), "/app/never".to_string()]
            } else {
                vec![]
            }),
            FsQuery::Require { directory, specifier } => {
                FsAnswer::Required(run(fs, nested.clone(), directory, specifier).0)
            }
            FsQuery::LoadPackageImports { specifier, .. } => {
                FsAnswer::Imports(if specifier == "#x" {
                    Ok(Some("/app/x.js".to_string()))
                } else if specifier == "#q" {
                    Ok(Some("/app/x.js?raw".to_string()))
                } else {
                    Ok(None)
                })
            }
            FsQuery::Done(r) => return (r.clone(), asked),
        };
        asked.push(q);
    }
}

#[test]
fn a_relative_file_is_tried_with_each_extension() {
    let fs = Fs { dirs: vec!["/app"], files: vec!["/app/a.js"], package_json: none };
    let (r, asked) = run(&fs, options(false), "/app", "./a");
    assert_eq!(r, Ok("/app/a.js".to_string()));
    assert_eq!(asked, vec![FsQuery::Metadata("/app/a".to_string()), FsQuery::Metadata("/app/a.js".to_string())]);
}

#[test]
fn a_directory_is_loaded_through_its_main_field() {
    let fs = Fs {
        dirs: vec!["/app", "/app/lib"],
        files: vec!["/app/lib/main.js"],
        package_json: |d| if d == "/app/lib" { Some(obj(vec![("main", s("main.js"))])) } else { None },
    };
    let (r, _) = run(&fs, options(false), "/app", "./lib");
    assert_eq!(r, Ok("/app/lib/main.js".to_string()));
}

#[test]
fn a_directory_without_main_is_loaded_through_its_index() {
    let fs = Fs { dirs: vec!["/app", "/app/lib"], files: vec!["/app/lib/index.json"], package_json: none };
    let (r, _) = run(&fs, options(false), "/app", "./lib/");
    assert_eq!(r, Ok("/app/lib/index.json".to_string()));
}

#[test]
fn a_missing_relative_path_is_not_found() {
    let fs = Fs { dirs: vec!["/app"], files: vec![], package_json: none };
    let (r, _) = run(&fs, options(false), "/app", "../b");
    assert_eq!(r, Err(ResolveError::NotFound("../b".to_string())));
}

#[test]
fn a_bare_specifier_resolves_through_package_exports() {
    let fs = Fs {
        dirs: vec!["/", "/app", "/app/src", "/app/node_modules", "/app/node_modules/pkg"],
        files: vec!["/app/node_modules/pkg/dist/main.js"],
        package_json: |d| {
            if d == "/app/node_modules/pkg" {
                Some(obj(vec![("exports", obj(vec![(".", s("./dist/main.js"))]))]))
            } else {
                None
            }
        },
    };
    let (r, _) = run(&fs, options(false), "/app/src", "pkg");
    assert_eq!(r, Ok("/app/node_modules/pkg/dist/main.js".to_string()));
}

#[test]
fn a_bare_specifier_without_exports_loads_as_a_file_or_directory() {
    let fs = Fs {
        dirs: vec!["/", "/app", "/app/node_modules", "/app/node_modules/pkg"],
        files: vec!["/app/node_modules/pkg/index.js"],
        package_json: none,
    };
    let (r, _) = run(&fs, options(false), "/app", "pkg");
    assert_eq!(r, Ok("/app/node_modules/pkg/index.js".to_string()));
}

#[test]
fn a_missing_package_is_not_found() {
    let fs = Fs { dirs: vec!["/", "/app"], files: vec![], package_json: none };
    let (r, _) = run(&fs, options(false), "/app", "pkg/x");
    assert_eq!(r, Err(ResolveError::NotFound("pkg/x".to_string())));
}

#[test]
fn a_builtin_module_fails_as_one() {
    let fs = Fs { dirs: vec!["/app"], files: vec![], package_json: none };
    let (r, asked) = run(&fs, options(false), "/app", "fs");
    assert_eq!(r, Err(ResolveError::Builtin("node:fs".to_string())));
    assert!(asked.is_empty());
}

#[test]
fn what_is_found_is_canonicalized_when_links_are_followed() {
    let fs = Fs { dirs: vec!["/app"], files: vec!["/app/a.js"], package_json: none };
    let (r, _) = run(&fs, options(true), "/app", "/app/a.js");
    assert_eq!(r, Ok("/real/app/a.js".to_string()));
}

#[test]
fn an_imports_specifier_loads_what_the_imports_give() {
    let fs = Fs { dirs: vec!["/app"], files: vec!["/app/x.js"], package_json: none };
    let (r, asked) = run(&fs, options(false), "/app", "#x");
    assert_eq!(r, Ok("/app/x.js".to_string()));
    assert_eq!(
        asked[0],
        FsQuery::LoadPackageImports { directory: "/app".to_string(), specifier: "#x".to_string() }
    );
}

#[test]
fn a_file_a_function_restriction_refuses_is_passed_over() {
    let fs = Fs { dirs: vec!["/app"], files: vec!["/app/a.js", "/app/a.json"], package_json: none };
    let mut o = options(false);
    o.load.function_restrictions = true;
    let (r, asked) = run(&fs, o, "/app", "./a");
    assert_eq!(r, Ok("/app/a.json".to_string()));
    assert!(asked.contains(&FsQuery::CheckRestrictions("/app/a.js".to_string())));
}

#[test]
fn folder_restrictions_keep_files_outside_from_being_found() {
    let fs = Fs { dirs: vec!["/app"], files: vec!["/app/a.js"], package_json: none };
    let mut o = options(false);
    o.load.restrictions = vec!["/lib".to_string()];
    let (r, _) = run(&fs, o, "/app", "./a");
    assert_eq!(r, Err(ResolveError::NotFound("./a".to_string())));
}

#[test]
fn an_alias_maps_the_specifier_before_anything_else() {
    let fs = Fs { dirs: vec!["/app", "/app/src"], files: vec!["/app/src/util.js"], package_json: none };
    let mut o = options(false);
    o.alias = vec![("@".to_string(), vec![AliasValue::Path("/app/src".to_string())])];
    let (r, asked) = run(&fs, o, "/app", "@/util");
    assert_eq!(r, Ok("/app/src/util.js".to_string()));
    assert!(asked.contains(&FsQuery::Require { directory: "/app".to_string(), specifier: "/app/src/util".to_string() }));
}

#[test]
fn an_ignored_alias_fails_as_ignored() {
    let fs = Fs { dirs: vec!["/app"], files: vec![], package_json: none };
    let mut o = options(false);
    o.alias = vec![("pkg".to_string(), vec![AliasValue::Ignore])];
    o.fallback = vec![("pkg".to_string(), vec![AliasValue::Path("./x".to_string())])];
    let (r, _) = run(&fs, o, "/app", "pkg");
    assert_eq!(r, Err(ResolveError::Ignored("/app/pkg".to_string())));
}

#[test]
fn fallback_aliases_are_tried_when_the_resolution_fails() {
    let fs = Fs { dirs: vec!["/", "/app"], files: vec!["/app/shim.js"], package_json: none };
    let mut o = options(false);
    o.fallback = vec![("pkg".to_string(), vec![AliasValue::Path("/app/shim.js".to_string())])];
    let (r, _) = run(&fs, o, "/app", "pkg");
    assert_eq!(r, Ok("/app/shim.js".to_string()));
}

#[test]
fn without_a_matching_fallback_the_first_error_stands() {
    let fs = Fs { dirs: vec!["/", "/app"], files: vec![], package_json: none };
    let mut o = options(false);
    o.fallback = vec![("other".to_string(), vec![AliasValue::Path("/app/shim.js".to_string())])];
    let (r, _) = run(&fs, o, "/app", "pkg");
    assert_eq!(r, Err(ResolveError::NotFound("pkg".to_string())));
}

#[test]
fn tsconfig_paths_are_tried_before_aliases() {
    let fs = Fs { dirs: vec!["/app", "/app/src"], files: vec!["/app/src/util.ts.js"], package_json: none };
    let mut o = options(false);
    o.tsconfig = true;
    let (r, asked) = run(&fs, o, "/app", "@app/util.ts");
    assert_eq!(r, Ok("/app/src/util.ts.js".to_string()));
    assert_eq!(
        asked[0],
        FsQuery::TsconfigPaths { directory: "/app".to_string(), specifier: "@app/util.ts".to_string() }
    );
}

#[test]
fn without_tsconfig_paths_the_specifier_goes_on() {
    let fs = Fs { dirs: vec!["/app"], files: vec!["/app/a.js"], package_json: none };
    let mut o = options(false);
    o.tsconfig = true;
    let (r, _) = run(&fs, o, "/app", "./a");
    assert_eq!(r, Ok("/app/a.js".to_string()));
}

#[test]
fn a_bare_specifier_is_tried_relatively_first_when_preferred() {
    let fs = Fs {
        dirs: vec!["/", "/app", "/app/node_modules", "/app/node_modules/lib"],
        files: vec!["/app/lib.js", "/app/node_modules/lib/index.js"],
        package_json: none,
    };
    let mut o = options(false);
    let (r, _) = run(&fs, o.clone(), "/app", "lib");
    assert_eq!(r, Ok("/app/node_modules/lib/index.js".to_string()));
    o.prefer_relative = true;
    let (r, _) = run(&fs, o, "/app", "lib");
    assert_eq!(r, Ok("/app/lib.js".to_string()));
}

#[test]
fn a_package_without_subpath_is_not_fully_specified() {
    let fs = Fs {
        dirs: vec!["/", "/app", "/app/node_modules", "/app/node_modules/pkg"],
        files: vec!["/app/node_modules/pkg/index.js"],
        package_json: none,
    };
    let mut o = options(false);
    o.load.fully_specified = true;
    let (r, _) = run(&fs, o, "/app", "pkg");
    assert_eq!(r, Ok("/app/node_modules/pkg/index.js".to_string()));
}

#[test]
fn a_target_with_a_query_is_found_by_its_path_before_the_query() {
    let fs = Fs { dirs: vec!["/app"], files: vec!["/app/x.js"], package_json: none };
    let (r, asked) = run(&fs, options(false), "/app", "#q");
    assert_eq!(r, Ok("/app/x.js?raw".to_string()));
    assert!(asked.contains(&FsQuery::Metadata("/app/x.js".to_string())));
}

#[test]
fn a_package_resolves_its_own_name_through_its_exports() {
    let fs = Fs {
        dirs: vec!["/", "/proj", "/proj/src"],
        files: vec!["/proj/lib/feature.js"],
        package_json: |d| {
            if d == "/proj" {
                Some(obj(vec![("name", s("my-pkg")), ("exports", obj(vec![("./feature", s("./lib/feature.js"))]))]))
            } else {
                None
            }
        },
    };
    let (r, asked) = run(&fs, options(false), "/proj/src", "my-pkg/feature");
    assert_eq!(r, Ok("/proj/lib/feature.js".to_string()));
    assert_eq!(asked[0], FsQuery::ReadPackageJson("/proj/src".to_string()));
    assert_eq!(asked[1], FsQuery::ReadPackageJson("/proj".to_string()));
}

fn with_extension_alias(alias: &[&str]) -> ResolveOptions {
    let mut o = options(false);
    o.load.extension_alias = vec![(".js".to_string(), strings(alias))];
    o
}

#[test]
fn an_aliased_extension_is_tried_first() {
    let fs = Fs { dirs: vec!["/app"], files: vec!["/app/a.ts", "/app/a.js"], package_json: none };
    let (r, asked) = run(&fs, with_extension_alias(&[".ts", ".js"]), "/app", "./a.js");
    assert_eq!(r, Ok("/app/a.ts".to_string()));
    assert_eq!(asked, vec![FsQuery::Metadata("/app/a.ts".to_string())]);
}

#[test]
fn a_file_whose_aliased_extensions_are_all_missing_is_an_error() {
    let fs = Fs { dirs: vec!["/app"], files: vec!["/app/a.js"], package_json: none };
    let (r, _) = run(&fs, with_extension_alias(&[".ts", ".tsx"]), "/app", "./a.js");
    assert_eq!(
        r,
        Err(ResolveError::ExtensionAlias("a.js".to_string(), "a.ts,a.tsx".to_string(), "/app".to_string()))
    );
}

#[test]
fn a_missing_aliased_file_goes_on_with_the_extensions_not_fully_specified() {
    let fs = Fs { dirs: vec!["/app"], files: vec!["/app/a.js.json"], package_json: none };
    let mut o = with_extension_alias(&[".ts"]);
    o.load.fully_specified = true;
    let (r, asked) = run(&fs, o, "/app", "./a.js");
    assert_eq!(r, Ok("/app/a.js.json".to_string()));
    assert_eq!(
        asked,
        vec![
            FsQuery::Metadata("/app/a.ts".to_string()),
            FsQuery::Metadata("/app/a.js".to_string()),
            FsQuery::Metadata("/app/a.js".to_string()),
            FsQuery::Metadata("/app/a.js.js".to_string()),
            FsQuery::Metadata("/app/a.js.json".to_string()),
        ]
    );
}

#[test]
fn a_main_file_is_tried_through_its_aliased_extensions() {
    let fs = Fs {
        dirs: vec!["/app", "/app/lib"],
        files: vec!["/app/lib/main.ts", "/app/lib/main.js"],
        package_json: |d| if d == "/app/lib" { Some(obj(vec![("main", s("main.js"))])) } else { None },
    };
    let (r, _) = run(&fs, with_extension_alias(&[".ts"]), "/app", "./lib/");
    assert_eq!(r, Ok("/app/lib/main.ts".to_string()));
}

#[test]
fn a_main_file_whose_aliased_extensions_are_missing_leaves_the_request_fully_specified() {
    let fs = Fs {
        dirs: vec!["/app", "/app/lib"],
        files: vec!["/app/lib/main.js", "/app/lib/index.js"],
        package_json: |d| if d == "/app/lib" { Some(obj(vec![("main", s("main.js"))])) } else { None },
    };
    let (r, asked) = run(&fs, with_extension_alias(&[".ts"]), "/app", "./lib/");
    // The main file is a file while its aliased one is not: that failure is
    // passed over, but the index files are then tried without extensions.
    assert_eq!(r, Err(ResolveError::NotFound("./lib/".to_string())));
    assert_eq!(
        asked,
        vec![
            FsQuery::Metadata("/app/lib".to_string()),
            FsQuery::ReadPackageJson("/app/lib".to_string()),
            FsQuery::Metadata("/app/lib/main.ts".to_string()),
            FsQuery::Metadata("/app/lib/main.js".to_string()),
            FsQuery::Metadata("/app/lib/main.js/index".to_string()),
            FsQuery::Metadata("/app/lib/index".to_string()),
        ]
    );
}
