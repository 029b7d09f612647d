use rspack_resolver::alias::{AliasAction, AliasEvent, AliasValue, AliasWalk};
use rspack_resolver::error::ResolveError;

fn path(v: &str) -> AliasValue {
    AliasValue::Path(v.to_string())
}

/// Runs an alias walk where `files` are the paths that are files and
/// `resolvable` the specifiers whose resolution succeeds; returns the
/// questions asked, the last being the outcome.
fn run(
    specifier: &str,
    aliases: Vec<(&str, Vec<AliasValue>)>,
    files: &[&str],
    resolvable: &[&str],
) -> Vec<AliasAction> {
    let aliases = aliases.into_iter().map(|(k, v)| (k.to_string(), v)).collect();
    let mut walk = AliasWalk::new("/dir", specifier, aliases);
    let mut asked = Vec::new();
    let mut event = AliasEvent::Begin;
    loop {
        assert!(walk.expects(&event));
        let action = walk.next(event);
        event = match &action {
            AliasAction::IsFile(p) => AliasEvent::IsFile(files.contains(&p.as_str())),
            AliasAction::Require(s) if !resolvable.contains(&s.as_str()) => AliasEvent::NothingFound,
            _ => {
                asked.push(action);
                return asked;
            }
        };
        asked.push(action);
    }
}

#[test]
fn alias_walk_without_a_matching_key_gives_nothing() {
    let asked = run("lodash", vec![("react", vec![path("preact")]), ("lodash$x", vec![path("x")])], &[], &[]);
    assert_eq!(asked, vec![AliasAction::NoAlias]);
}

#[test]
fn alias_walk_resolves_an_exact_key_to_its_value() {
    let asked = run("foo", vec![("foo$", vec![path("./bar")])], &[], &["./bar"]);
    assert_eq!(asked, vec![AliasAction::Require("./bar".to_string())]);
}

#[test]
fn alias_walk_exact_key_does_not_apply_to_a_subpath() {
    let asked = run("foo/x", vec![("foo$", vec![path("./bar")])], &[], &[]);
    assert_eq!(asked, vec![AliasAction::NoAlias]);
}

#[test]
fn alias_walk_fails_when_every_value_of_a_matched_alias_fails() {
    let asked = run("foo/x", vec![("foo", vec![path("/a/foo-lib"), path("/b/foo-lib")])], &[], &[]);
    assert_eq!(
        asked,
        vec![
            AliasAction::IsFile("/a/foo-lib".to_string()),
            AliasAction::Require("/a/foo-lib/x".to_string()),
            AliasAction::IsFile("/b/foo-lib".to_string()),
            AliasAction::Require("/b/foo-lib/x".to_string()),
            AliasAction::Fail(ResolveError::MatchedAliasNotFound("foo/x".to_string(), "foo".to_string())),
        ]
    );
}

#[test]
fn alias_walk_tries_the_next_value_after_one_that_fails() {
    let asked = run("foo/x", vec![("foo", vec![path("/a/foo-lib"), path("/b/foo-lib")])], &[], &["/b/foo-lib/x"]);
    assert_eq!(asked.last(), Some(&AliasAction::Require("/b/foo-lib/x".to_string())));
    assert_eq!(asked.len(), 4);
}

#[test]
fn alias_walk_does_not_append_to_a_value_that_is_a_file() {
    let asked = run("foo/x", vec![("foo", vec![path("/a/foo.js")]), ("foo/x", vec![path("./y")])], &["/a/foo.js"], &["./y"]);
    assert_eq!(
        asked,
        vec![AliasAction::IsFile("/a/foo.js".to_string()), AliasAction::Require("./y".to_string())]
    );
}

#[test]
fn alias_walk_ignores_a_key_mapped_to_nothing() {
    let asked = run("foo/x", vec![("foo", vec![AliasValue::Ignore, path("./bar")])], &[], &[]);
    assert_eq!(asked, vec![AliasAction::Fail(ResolveError::Ignored("/dir/foo".to_string()))]);
}

#[test]
fn alias_walk_passes_over_a_value_that_leaves_the_specifier_alone() {
    let asked = run("foo/x", vec![("foo", vec![path("foo")]), ("foo", vec![path("bar")])], &[], &["bar/x"]);
    assert_eq!(asked, vec![AliasAction::IsFile("bar".to_string()), AliasAction::Require("bar/x".to_string())]);
}
