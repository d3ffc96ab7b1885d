use sloc_guard::allowlist::AllowlistRuleBuilder;

#[test]
fn naming_pattern_tests_allowlist_rule_builder_with_naming_pattern() {
    let rule = AllowlistRuleBuilder::new("src/**".to_string())
        .with_naming_pattern(Some("^[A-Z][a-zA-Z0-9]*\\.tsx$".to_string()))
        .build()
        .unwrap();
    assert!(rule.naming_pattern_str.is_some());
    assert_eq!(
        rule.naming_pattern_str.unwrap(),
        "^[A-Z][a-zA-Z0-9]*\\.tsx$"
    );
}

#[test]
fn naming_pattern_tests_allowlist_rule_naming_pattern_matches_valid_filename() {
    let rule = AllowlistRuleBuilder::new("src/**".to_string())
        .with_naming_pattern(Some("^[A-Z][a-zA-Z0-9]*\\.tsx$".to_string()))
        .build()
        .unwrap();

    assert!(rule.filename_matches_naming_pattern("Button.tsx"));
    assert!(rule.filename_matches_naming_pattern("UserProfile.tsx"));
    assert!(rule.filename_matches_naming_pattern("A.tsx"));
}

#[test]
fn naming_pattern_tests_allowlist_rule_naming_pattern_rejects_invalid_filename() {
    let rule = AllowlistRuleBuilder::new("src/**".to_string())
        .with_naming_pattern(Some("^[A-Z][a-zA-Z0-9]*\\.tsx$".to_string()))
        .build()
        .unwrap();

    assert!(!rule.filename_matches_naming_pattern("button.tsx"));
    assert!(!rule.filename_matches_naming_pattern("userProfile.tsx"));
    assert!(!rule.filename_matches_naming_pattern("user_profile.tsx"));
    assert!(!rule.filename_matches_naming_pattern("Button.ts"));
}

#[test]
fn naming_pattern_tests_allowlist_rule_no_naming_pattern_accepts_all() {
    let rule = AllowlistRuleBuilder::new("src/**".to_string())
        .with_extensions(vec![".rs".to_string()])
        .build()
        .unwrap();

    assert!(rule.filename_matches_naming_pattern("anything.rs"));
    assert!(rule.filename_matches_naming_pattern("123.txt"));
    assert!(rule.filename_matches_naming_pattern("UPPERCASE.rs"));
}

#[test]
fn naming_pattern_tests_allowlist_rule_builder_invalid_regex_returns_error() {
    let result = AllowlistRuleBuilder::new("src/**".to_string())
        .with_naming_pattern(Some("[invalid".to_string()))
        .build();
    assert!(result.is_err());
}


#[test]
fn invalid_naming_regex_reports_pattern_and_regex_error() {
    let err = AllowlistRuleBuilder::new("src/**".to_string())
        .with_naming_pattern(Some("[invalid".to_string()))
        .build()
        .unwrap_err();
    let msg = err.message();
    assert!(msg.starts_with("Invalid naming pattern regex '[invalid': "));
    assert!(msg.len() > "Invalid naming pattern regex '[invalid': ".len());
}
