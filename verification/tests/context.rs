use rspack_resolver::context::{ResolveContext, MAX_RECURSION_DEPTH};
use rspack_resolver::error::ResolveError;
use rspack_resolver::Interner;

#[test]
fn recursion_fails_past_the_limit() {
    let mut ctx = ResolveContext::default();
    for _ in 0..MAX_RECURSION_DEPTH {
        assert_eq!(ctx.test_for_infinite_recursion(), Ok(()));
    }
    assert_eq!(ctx.test_for_infinite_recursion(), Err(ResolveError::Recursion));
}

#[test]
fn query_and_fragment_keep_what_is_not_given() {
    let mut ctx = ResolveContext::default();
    ctx.with_query_fragment(Some("?a"), Some("#b"));
    ctx.with_query_fragment(None, Some("#c"));
    assert_eq!(ctx.0.query.as_deref(), Some("?a"));
    assert_eq!(ctx.0.fragment.as_deref(), Some("#c"));
    ctx.with_fully_specified(true);
    assert!(ctx.0.fully_specified);
    ctx.with_resolving_alias("x".to_string());
    assert_eq!(ctx.0.resolving_alias.as_deref(), Some("x"));
}

#[test]
fn dependencies_are_recorded_once_recording_starts() {
    let mut interner = Interner::new();
    let mut ctx = ResolveContext::default();
    ctx.add_file_dependency(&mut interner, "/a.js");
    assert!(ctx.0.file_dependencies.is_none());
    ctx.init_file_dependencies();
    ctx.add_file_dependency(&mut interner, "/a.js");
    ctx.add_missing_dependency(&mut interner, "/b.js");
    let files: Vec<&str> = ctx.0.file_dependencies.as_ref().unwrap().iter().map(|p| p.as_str()).collect();
    let missing: Vec<&str> = ctx.0.missing_dependencies.as_ref().unwrap().iter().map(|p| p.as_str()).collect();
    assert_eq!(files, vec!["/a.js"]);
    assert_eq!(missing, vec!["/b.js"]);
}
