use sloc_guard::error::SlocGuardError;
use sloc_guard::logical_glob::{
    build_logical_path_glob_set, compile_logical_path_glob, matching_logical_path_globs, matches_one_glob,
    ScopeMatcher,
};
use sloc_guard::project::{normalize_for_matching, normalize_pattern_for_matching, pattern_is_path_qualified};

#[test]
fn logical_path_globs_share_candidate_normalization() {
    assert_eq!(normalize_pattern_for_matching("."), "");
    assert_eq!(normalize_pattern_for_matching("./src/**"), "src/**");
    assert_eq!(normalize_pattern_for_matching(".\\src\\**"), "src/**");
    assert_eq!(normalize_pattern_for_matching("../shared/**"), "../shared/**");

    let root = compile_logical_path_glob(".").unwrap();
    assert!(matches_one_glob(&root, normalize_for_matching(".").as_str()));
    assert!(!matches_one_glob(&root, normalize_for_matching("src").as_str()));

    let src = compile_logical_path_glob("./src/**").unwrap();
    assert!(matches_one_glob(&src, normalize_for_matching("./src/lib").as_str()));
}

#[test]
fn scope_without_trailing_separator_keeps_plain_glob_semantics() {
    let exact = ScopeMatcher::compile("web/src").unwrap();
    assert!(exact.is_match("web/src"));
    assert!(!exact.is_match("web/src/components"));

    let descendants = ScopeMatcher::compile("web/src/**").unwrap();
    assert!(!descendants.is_match("web/src"));
    assert!(descendants.is_match("web/src/components"));
}

#[test]
fn trailing_separator_scope_matches_base_and_descendants() {
    for scope in ["web/src/", "web\\src\\", "web/src//"] {
        let matcher = ScopeMatcher::compile(scope).unwrap();
        assert!(matcher.is_match("web/src"), "base for {scope}");
        assert!(matcher.is_match("web/src/components/button"), "descendant for {scope}");
        assert!(!matcher.is_match("web/src2"), "sibling prefix for {scope}");
        assert!(!matcher.is_match("web"), "parent for {scope}");
    }
}

#[test]
fn trailing_separator_scope_supports_brace_alternation() {
    let matcher = ScopeMatcher::compile("web/{src,test}/").unwrap();
    assert!(matcher.is_match("web/src"));
    assert!(matcher.is_match("web/test"));
    assert!(matcher.is_match("web/test/fixtures"));
    assert!(!matcher.is_match("web/docs"));
}

#[test]
fn config_root_subtree_scope_matches_everything() {
    let matcher = ScopeMatcher::compile("./").unwrap();
    assert!(matcher.is_match(normalize_for_matching(".").as_str()));
    assert!(matcher.is_match("src"));
    assert!(matcher.is_match("src/nested/deep"));
}

#[test]
fn invalid_subtree_scope_error_reports_authored_pattern() {
    let error = ScopeMatcher::compile("web/{src/").unwrap_err();
    match error {
        SlocGuardError::InvalidPattern { pattern, .. } => assert_eq!(pattern, "web/{src/"),
        other => panic!("expected InvalidPattern, got {other:?}"),
    }
}

#[test]
fn explicit_paths_do_not_gain_basename_semantics() {
    assert!(!pattern_is_path_qualified("node_modules/"));
    assert!(pattern_is_path_qualified("./node_modules/"));
    assert!(pattern_is_path_qualified("src/node_modules/"));

    let patterns = vec!["temp_*".to_string(), "./root.rs".to_string()];
    let matcher = build_logical_path_glob_set(&patterns).unwrap();

    assert_eq!(
        matching_logical_path_globs(&matcher, &patterns, "nested/temp_cache"),
        vec![0]
    );
    assert_eq!(
        matching_logical_path_globs(&matcher, &vec![], "nested/temp_cache"),
        vec![0]
    );
    assert_eq!(matching_logical_path_globs(&matcher, &patterns, "root.rs"), vec![1]);
    assert!(matching_logical_path_globs(&matcher, &patterns, "nested/root.rs").is_empty());
}
