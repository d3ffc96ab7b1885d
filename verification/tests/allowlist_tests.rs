use sloc_guard::allowlist::AllowlistRuleBuilder;

#[test]
fn allowlist_rule_matches_directory_with_dot_prefix() {
    // Scope pattern like {src,src/**} should match both ./src and src
    let rule = AllowlistRuleBuilder::new("{src,src/**}".to_string())
        .build()
        .unwrap();

    // Should match without dot prefix
    assert!(rule.matches_directory("src"));
    assert!(rule.matches_directory("src/lib"));
    assert!(rule.matches_directory("src/output"));

    // Should also match WITH dot prefix (the bug fix)
    assert!(rule.matches_directory("./src"));
    assert!(rule.matches_directory("./src/lib"));
    assert!(rule.matches_directory("./src/output"));
}

#[test]
fn allowlist_rule_matches_directory_glob_star_with_dot_prefix() {
    let rule = AllowlistRuleBuilder::new("src/**".to_string())
        .with_extensions(vec![".rs".to_string()])
        .build()
        .unwrap();

    // Without dot prefix
    assert!(rule.matches_directory("src/lib"));

    // With dot prefix
    assert!(rule.matches_directory("./src/lib"));
}

#[test]
fn allowlist_rule_matches_directory_double_star_prefix_with_dot() {
    let rule = AllowlistRuleBuilder::new("**/src".to_string())
        .build()
        .unwrap();

    // Should match paths with and without dot prefix
    assert!(rule.matches_directory("project/src"));
    assert!(rule.matches_directory("./project/src"));
}

#[test]
fn allowlist_tests_allowlist_rule_builder_creates_rule() {
    let rule = AllowlistRuleBuilder::new("src/**".to_string())
        .with_extensions(vec![".rs".to_string()])
        .build()
        .unwrap();
    assert_eq!(rule.scope, "src/**");
    assert_eq!(rule.allow_extensions, vec![".rs".to_string()]);
}

#[test]
fn allowlist_tests_allowlist_rule_builder_with_patterns() {
    let rule = AllowlistRuleBuilder::new("src/**".to_string())
        .with_patterns(vec!["*.config".to_string()])
        .build()
        .unwrap();
    assert!(!rule.allow_patterns.is_empty());
}

#[test]
fn allowlist_tests_allowlist_rule_matches_directory() {
    let rule = AllowlistRuleBuilder::new("src/**".to_string())
        .with_extensions(vec![".rs".to_string()])
        .build()
        .unwrap();
    assert!(rule.matches_directory("src/lib"));
    assert!(!rule.matches_directory("tests/lib"));
}

#[test]
fn allowlist_tests_allowlist_rule_file_matches_extension() {
    let rule = AllowlistRuleBuilder::new("src/**".to_string())
        .with_extensions(vec![".rs".to_string(), ".toml".to_string()])
        .build()
        .unwrap();
    assert!(rule.file_matches("src/main.rs"));
    assert!(rule.file_matches("src/Cargo.toml"));
    assert!(!rule.file_matches("src/config.json"));
}

#[test]
fn allowlist_tests_allowlist_rule_file_matches_pattern() {
    let rule = AllowlistRuleBuilder::new("src/**".to_string())
        .with_patterns(vec!["Makefile".to_string()])
        .build()
        .unwrap();
    assert!(rule.file_matches("src/Makefile"));
    assert!(!rule.file_matches("src/config.json"));
}

#[test]
fn allowlist_tests_allowlist_rule_invalid_pattern_returns_error() {
    let result = AllowlistRuleBuilder::new("[invalid".to_string())
        .with_extensions(vec![".rs".to_string()])
        .build();
    assert!(result.is_err());
}

#[test]
fn allowlist_tests_allowlist_rule_file_no_match_empty_allowlist() {
    let rule = AllowlistRuleBuilder::new("src/**".to_string())
        .with_extensions(vec![])
        .with_patterns(vec![])
        .build()
        .unwrap();
    assert!(!rule.file_matches("src/main.rs"));
}

#[test]
fn allowlist_tests_allowlist_rule_builder_invalid_allow_pattern() {
    let result = AllowlistRuleBuilder::new("src/**".to_string())
        .with_patterns(vec!["[invalid".to_string()])
        .build();
    assert!(result.is_err());
}

#[test]
fn allowlist_tests_allowlist_rule_empty_extension_list() {
    let rule = AllowlistRuleBuilder::new("src/**".to_string())
        .with_extensions(vec![])
        .build()
        .unwrap();
    assert!(rule.allow_extensions.is_empty());
}

#[test]
fn allowlist_tests_allowlist_rule_matches_pattern() {
    let rule = AllowlistRuleBuilder::new("src/**".to_string())
        .with_patterns(vec!["Makefile".to_string(), "*.config".to_string()])
        .build()
        .unwrap();
    assert!(rule.file_matches("src/Makefile"));
    assert!(rule.file_matches("src/app.config"));
    assert!(!rule.file_matches("src/random.txt"));
}

#[test]
fn allowlist_tests_allowlist_rule_file_matches_by_full_path() {
    let rule = AllowlistRuleBuilder::new("src/**".to_string())
        .with_patterns(vec!["**/special.txt".to_string()])
        .build()
        .unwrap();
    assert!(rule.file_matches("src/nested/special.txt"));
}

#[test]
fn allowlist_tests_allowlist_rule_no_extension_match_when_file_has_no_extension() {
    let rule = AllowlistRuleBuilder::new("src/**".to_string())
        .with_extensions(vec![".rs".to_string()])
        .build()
        .unwrap();

    assert!(!rule.file_matches("src/Makefile"));
}

#[test]
fn allowlist_tests_allowlist_rule_matches_directory_partial() {
    let rule = AllowlistRuleBuilder::new("**/src/**".to_string())
        .with_extensions(vec![".rs".to_string()])
        .build()
        .unwrap();

    assert!(rule.matches_directory("project/src/lib"));
    assert!(rule.matches_directory("src/nested/deep"));
    assert!(!rule.matches_directory("tests/unit"));
}

#[test]
fn allowlist_tests_allowlist_rule_extension_match_with_dot() {
    let rule = AllowlistRuleBuilder::new("src/**".to_string())
        .with_extensions(vec![".rs".to_string(), ".toml".to_string()])
        .build()
        .unwrap();

    assert!(rule.file_matches("src/main.rs"));
    assert!(rule.file_matches("src/Cargo.toml"));
    assert!(!rule.file_matches("src/data.json"));
}

#[test]
fn allowlist_rule_builder_with_allow_files() {
    let rule = AllowlistRuleBuilder::new("src/**".to_string())
        .with_allow_files(vec!["Cargo.*".to_string(), "README*".to_string()])
        .build()
        .unwrap();
    assert_eq!(rule.allow_file_strs.len(), 2);
}

#[test]
fn allowlist_rule_builder_with_allow_dirs() {
    let rule = AllowlistRuleBuilder::new("src/**".to_string())
        .with_allow_dirs(vec!["utils".to_string(), "test*".to_string()])
        .build()
        .unwrap();
    assert_eq!(rule.allow_dir_strs.len(), 2);
}

#[test]
fn allowlist_rule_has_dir_allowlist_empty() {
    let rule = AllowlistRuleBuilder::new("src/**".to_string())
        .with_extensions(vec![".rs".to_string()])
        .build()
        .unwrap();
    assert!(!rule.has_dir_allowlist());
}

#[test]
fn allowlist_rule_has_dir_allowlist_with_dirs() {
    let rule = AllowlistRuleBuilder::new("src/**".to_string())
        .with_allow_dirs(vec!["utils".to_string()])
        .build()
        .unwrap();
    assert!(rule.has_dir_allowlist());
}

#[test]
fn allowlist_rule_dir_matches() {
    let rule = AllowlistRuleBuilder::new("src/**".to_string())
        .with_allow_dirs(vec!["utils".to_string(), "test*".to_string()])
        .build()
        .unwrap();
    assert!(rule.dir_matches("src/utils"));
    assert!(rule.dir_matches("src/tests"));
    assert!(rule.dir_matches("src/test_helpers"));
    assert!(!rule.dir_matches("src/vendor"));
}

#[test]
fn allowlist_rule_dir_matches_empty_allowlist() {
    let rule = AllowlistRuleBuilder::new("src/**".to_string())
        .with_allow_dirs(vec![])
        .build()
        .unwrap();
    assert!(!rule.dir_matches("src/utils"));
}

#[test]
fn allowlist_rule_file_matches_allow_files() {
    let rule = AllowlistRuleBuilder::new("src/**".to_string())
        .with_allow_files(vec!["*.config".to_string(), "Makefile".to_string()])
        .build()
        .unwrap();
    assert!(rule.file_matches("src/app.config"));
    assert!(rule.file_matches("src/Makefile"));
    assert!(!rule.file_matches("src/main.rs"));
}

#[test]
fn allowlist_rule_has_allowlist_with_allow_files() {
    let rule = AllowlistRuleBuilder::new("src/**".to_string())
        .with_allow_files(vec!["Cargo.*".to_string()])
        .build()
        .unwrap();
    assert!(rule.has_allowlist());
}

#[test]
fn allowlist_rule_has_allowlist_empty() {
    let rule = AllowlistRuleBuilder::new("src/**".to_string())
        .build()
        .unwrap();
    assert!(!rule.has_allowlist());
}

#[test]
fn allowlist_tests_allowlist_rule_file_matches_deny_extension() {
    let rule = AllowlistRuleBuilder::new("src/**".to_string())
        .with_deny_extensions(vec![".exe".to_string(), ".dll".to_string()])
        .build()
        .unwrap();

    assert!(rule.file_matches_deny("src/app.exe").is_some());
    assert!(rule.file_matches_deny("src/lib.dll").is_some());
    assert!(rule.file_matches_deny("src/main.rs").is_none());
}

#[test]
fn allowlist_tests_allowlist_rule_file_matches_deny_pattern() {
    let rule = AllowlistRuleBuilder::new("src/**".to_string())
        .with_deny_patterns(vec!["*.bak".to_string(), "temp_*".to_string()])
        .build()
        .unwrap();

    assert!(rule.file_matches_deny("src/file.bak").is_some());
    assert!(
        rule.file_matches_deny("src/temp_data.txt")
            .is_some()
    );
    assert!(rule.file_matches_deny("src/main.rs").is_none());
}

#[test]
fn allowlist_rule_file_matches_deny_file_pattern() {
    let rule = AllowlistRuleBuilder::new("src/**".to_string())
        .with_deny_files(vec!["*.bak".to_string(), "temp_*".to_string()])
        .build()
        .unwrap();

    // Should match filename patterns
    assert!(rule.file_matches_deny("src/file.bak").is_some());
    assert!(
        rule.file_matches_deny("src/temp_data.txt")
            .is_some()
    );
    assert!(rule.file_matches_deny("src/main.rs").is_none());
}

