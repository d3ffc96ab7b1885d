use sloc_guard::filter::{FileFilter, GlobFilter};

#[test]
fn filter_by_extension() {
    let filter = GlobFilter::new(vec!["rs".to_string()], &vec![]).unwrap();

    assert!(filter.should_include("src/main.rs"));
    assert!(!filter.should_include("src/main.py"));
}

#[test]
fn filter_multiple_extensions() {
    let filter = GlobFilter::new(vec!["rs".to_string(), "go".to_string()], &vec![]).unwrap();

    assert!(filter.should_include("main.rs"));
    assert!(filter.should_include("main.go"));
    assert!(!filter.should_include("main.py"));
}

#[test]
fn filter_empty_extensions_accepts_all() {
    let filter = GlobFilter::new(vec![], &vec![]).unwrap();

    assert!(filter.should_include("main.rs"));
    assert!(filter.should_include("main.py"));
    assert!(filter.should_include("readme.txt"));
}

#[test]
fn filter_exclude_patterns() {
    let filter = GlobFilter::new(
        vec!["rs".to_string()], &vec!["**/target/**".to_string(), "**/generated/**".to_string()],
    )
    .unwrap();

    assert!(filter.should_include("src/main.rs"));
    assert!(!filter.should_include("target/debug/main.rs"));
    assert!(!filter.should_include("src/generated/code.rs"));
}

#[test]
fn filter_exclude_specific_files() {
    let filter =
        GlobFilter::new(vec!["rs".to_string()], &vec!["**/*.generated.rs".to_string()]).unwrap();

    assert!(filter.should_include("src/main.rs"));
    assert!(!filter.should_include("src/code.generated.rs"));
}

#[test]
fn filter_invalid_pattern_returns_error() {
    let result = GlobFilter::new(vec![], &vec!["[invalid".to_string()]);
    assert!(result.is_err());
}

#[test]
fn filter_complex_exclude_patterns() {
    let filter = GlobFilter::new(
        vec!["rs".to_string()],
        &vec![
            "**/target/**".to_string(),
            "**/node_modules/**".to_string(),
            "**/.git/**".to_string(),
        ],
    )
    .unwrap();

    assert!(filter.should_include("src/lib.rs"));
    assert!(!filter.should_include("target/release/build/main.rs"));
    assert!(!filter.should_include(".git/hooks/pre-commit.rs"));
}

#[test]
fn filter_file_without_extension_accepted_when_empty_extensions() {
    let filter = GlobFilter::new(vec![], &vec![]).unwrap();

    assert!(filter.should_include("Makefile"));
    assert!(filter.should_include("Dockerfile"));
    assert!(filter.should_include(".gitignore"));
}

#[test]
fn filter_file_without_extension_rejected_when_extensions_set() {
    let filter = GlobFilter::new(vec!["rs".to_string()], &vec![]).unwrap();

    assert!(!filter.should_include("Makefile"));
    assert!(!filter.should_include("Dockerfile"));
}

#[test]
fn filter_exclude_by_filename() {
    let filter = GlobFilter::new(vec![], &vec!["*.lock".to_string()]).unwrap();

    assert!(filter.should_include("Cargo.toml"));
    assert!(!filter.should_include("Cargo.lock"));
}

