use rspack_resolver::node_modules::{NodeModulesWalk, WalkAction, WalkEvent};

/// Runs a walk against a file system made of `dirs`, where `loads` are the
/// paths whose load succeeds; returns the questions asked, the last one
/// being the load that succeeded or `NotFound`.
fn run(start: &str, specifier: &str, modules: &[&str], dirs: &[&str], loads: &[&str]) -> Vec<WalkAction> {
    let mut walk = NodeModulesWalk::new(start, specifier, modules.iter().map(|m| m.to_string()).collect());
    let mut asked = Vec::new();
    let mut event = WalkEvent::Begin;
    loop {
        assert!(walk.expects(&event));
        let action = walk.next(event);
        event = match &action {
            WalkAction::IsDirectory(p) => WalkEvent::IsDirectory(dirs.contains(&p.as_str())),
            WalkAction::FindModuleFolder { folder, module_name } => {
                let candidate = if folder.ends_with('/') {
                    format!("{folder}{module_name}")
                } else {
                    format!("{folder}/{module_name}")
                };
                WalkEvent::ModuleFolder(dirs.contains(&candidate.as_str()).then_some(candidate))
            }
            WalkAction::LoadPackageExports { package_folder, .. } => {
                if loads.contains(&package_folder.as_str()) {
                    asked.push(action);
                    return asked;
                }
                WalkEvent::NothingFound
            }
            WalkAction::LoadAsFileOrDirectory(p) => {
                if loads.contains(&p.as_str()) {
                    asked.push(action);
                    return asked;
                }
                WalkEvent::NothingFound
            }
            WalkAction::NotFound => {
                asked.push(action);
                return asked;
            }
        };
        asked.push(action);
    }
}

fn is_dir(p: &str) -> WalkAction {
    WalkAction::IsDirectory(p.to_string())
}

fn find(folder: &str, name: &str) -> WalkAction {
    WalkAction::FindModuleFolder { folder: folder.to_string(), module_name: name.to_string() }
}

#[test]
fn walk_goes_up_to_the_root_and_finds_nothing() {
    let asked = run(
        "/app/src",
        "pkg/lib/x.js",
        &["node_modules"],
        &["/", "/app", "/app/src", "/app/node_modules", "/app/node_modules/pkg"],
        &[],
    );
    assert_eq!(
        asked,
        vec![
            is_dir("/app/src"),
            find("/app/src", "node_modules"),
            is_dir("/app"),
            find("/app", "node_modules"),
            is_dir("/app/node_modules/pkg"),
            WalkAction::LoadPackageExports {
                package_folder: "/app/node_modules/pkg".to_string(),
                subpath: "/lib/x.js".to_string(),
            },
            WalkAction::LoadAsFileOrDirectory("/app/node_modules/pkg/lib/x.js".to_string()),
            is_dir("/"),
            find("/", "node_modules"),
            WalkAction::NotFound,
        ]
    );
}

#[test]
fn walk_stops_at_the_first_load_that_succeeds() {
    let asked = run(
        "/app/src",
        "pkg",
        &["node_modules"],
        &["/", "/app", "/app/src", "/app/node_modules", "/app/node_modules/pkg"],
        &["/app/node_modules/pkg"],
    );
    assert_eq!(asked.len(), 6);
    assert_eq!(
        asked.last(),
        Some(&WalkAction::LoadPackageExports {
            package_folder: "/app/node_modules/pkg".to_string(),
            subpath: String::new(),
        })
    );
}

#[test]
fn walk_passes_over_folders_that_are_not_directories() {
    let asked = run("/gone/deeper", "pkg", &["node_modules"], &["/"], &[]);
    assert_eq!(
        asked,
        vec![is_dir("/gone/deeper"), is_dir("/gone"), is_dir("/"), find("/", "node_modules"), WalkAction::NotFound]
    );
}

#[test]
fn walk_skips_a_scoped_package_without_its_scope_folder() {
    let asked = run("/app", "@scope/pkg", &["node_modules"], &["/app", "/app/node_modules"], &[]);
    assert_eq!(
        asked,
        vec![
            is_dir("/app"),
            find("/app", "node_modules"),
            is_dir("/app/node_modules/@scope/pkg"),
            is_dir("/app/node_modules/@scope"),
            is_dir("/"),
            WalkAction::NotFound,
        ]
    );
}

#[test]
fn walk_loads_an_unscoped_missing_package_as_a_file() {
    let asked = run("/app", "pkg.js", &["node_modules"], &["/app", "/app/node_modules"], &["/app/node_modules/pkg.js"]);
    assert_eq!(
        asked,
        vec![
            is_dir("/app"),
            find("/app", "node_modules"),
            is_dir("/app/node_modules/pkg.js"),
            WalkAction::LoadAsFileOrDirectory("/app/node_modules/pkg.js".to_string()),
        ]
    );
}

#[test]
fn walk_skips_a_missing_package_folder_when_a_subpath_follows() {
    let asked = run("/app", "pkg/index.js", &["node_modules"], &["/app", "/app/node_modules"], &[]);
    assert_eq!(
        asked,
        vec![
            is_dir("/app"),
            find("/app", "node_modules"),
            is_dir("/app/node_modules/pkg"),
            is_dir("/"),
            WalkAction::NotFound,
        ]
    );
}

#[test]
fn walk_takes_a_folder_named_after_the_module_folder_as_it_is() {
    let asked = run("/x/web_modules", "pkg", &["web_modules"], &["/x/web_modules"], &[]);
    assert_eq!(asked[0], is_dir("/x/web_modules"));
    assert_eq!(asked[1], is_dir("/x/web_modules/pkg"));
}

#[test]
fn walk_looks_up_node_modules_even_inside_node_modules() {
    let asked = run("/x/node_modules", "pkg", &["node_modules"], &["/x/node_modules"], &[]);
    assert_eq!(asked[1], find("/x/node_modules", "node_modules"));
}

#[test]
fn walk_tries_each_module_folder_name_from_the_start() {
    let asked = run("/a", "pkg", &["node_modules", "web_modules"], &[], &[]);
    assert_eq!(asked, vec![is_dir("/a"), is_dir("/"), is_dir("/a"), is_dir("/"), WalkAction::NotFound]);
}

#[test]
fn walk_without_module_folder_names_finds_nothing() {
    let asked = run("/a", "pkg", &[], &["/a"], &[]);
    assert_eq!(asked, vec![WalkAction::NotFound]);
}

use rspack_resolver::node_modules::{PackageWalk, PackageWalkAction};

/// Runs a package lookup against a file system made of `dirs`.
fn run_package(start: &str, specifier: &str, modules: &[&str], dirs: &[&str]) -> Vec<PackageWalkAction> {
    let mut walk = PackageWalk::new(start, specifier, modules.iter().map(|m| m.to_string()).collect());
    let mut asked = Vec::new();
    let mut event = WalkEvent::Begin;
    loop {
        assert!(walk.expects(&event));
        let action = walk.next(event);
        event = match &action {
            PackageWalkAction::FindModuleFolder { folder, module_name } => {
                let candidate = if folder.ends_with('/') {
                    format!("{folder}{module_name}")
                } else {
                    format!("{folder}/{module_name}")
                };
                WalkEvent::ModuleFolder(dirs.contains(&candidate.as_str()).then_some(candidate))
            }
            PackageWalkAction::IsDirectory(p) => WalkEvent::IsDirectory(dirs.contains(&p.as_str())),
            PackageWalkAction::ResolveInPackage { .. } | PackageWalkAction::NotFound => {
                asked.push(action);
                assert!(!walk.expects(&WalkEvent::Begin));
                return asked;
            }
        };
        asked.push(action);
    }
}

#[test]
fn package_lookup_finds_the_nearest_package_folder() {
    let asked = run_package(
        "/app/src",
        "@scope/pkg/lib/a.js",
        &["node_modules"],
        &["/node_modules", "/node_modules/@scope/pkg", "/app/node_modules"],
    );
    assert_eq!(
        asked,
        vec![
            PackageWalkAction::FindModuleFolder { folder: "/app/src".to_string(), module_name: "node_modules".to_string() },
            PackageWalkAction::FindModuleFolder { folder: "/app".to_string(), module_name: "node_modules".to_string() },
            PackageWalkAction::IsDirectory("/app/node_modules/@scope/pkg".to_string()),
            PackageWalkAction::FindModuleFolder { folder: "/".to_string(), module_name: "node_modules".to_string() },
            PackageWalkAction::IsDirectory("/node_modules/@scope/pkg".to_string()),
            PackageWalkAction::ResolveInPackage {
                package_folder: "/node_modules/@scope/pkg".to_string(),
                subpath: "./lib/a.js".to_string(),
            },
        ]
    );
}

#[test]
fn package_lookup_without_the_package_is_not_found() {
    let asked = run_package("/a", "pkg", &["node_modules"], &["/a/node_modules"]);
    assert_eq!(
        asked,
        vec![
            PackageWalkAction::FindModuleFolder { folder: "/a".to_string(), module_name: "node_modules".to_string() },
            PackageWalkAction::IsDirectory("/a/node_modules/pkg".to_string()),
            PackageWalkAction::FindModuleFolder { folder: "/".to_string(), module_name: "node_modules".to_string() },
            PackageWalkAction::NotFound,
        ]
    );
}

#[test]
fn package_lookup_resolves_the_bare_package_at_dot() {
    let asked = run_package("/x/web_modules", "pkg", &["web_modules"], &["/x/web_modules/pkg"]);
    assert_eq!(
        asked,
        vec![
            PackageWalkAction::IsDirectory("/x/web_modules/pkg".to_string()),
            PackageWalkAction::ResolveInPackage {
                package_folder: "/x/web_modules/pkg".to_string(),
                subpath: ".".to_string(),
            },
        ]
    );
}
