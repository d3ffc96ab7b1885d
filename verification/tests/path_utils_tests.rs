use sloc_guard::path_utils::path_matches_override;

#[test]
fn test_exact_filename_match() {
        let path = "src/lib.rs";
        assert!(path_matches_override(path, "lib.rs"));
    }

#[test]
fn test_partial_path_match() {
        let path = "project/src/lib.rs";
        assert!(path_matches_override(path, "src/lib.rs"));
    }

#[test]
fn test_full_path_match() {
        let path = "project/src/lib.rs";
        assert!(path_matches_override(path, "project/src/lib.rs"));
    }

#[test]
fn test_no_match_different_directory() {
        let path = "other/src/lib.rs";
        // "project/src/lib.rs" should not match because prefix differs
        assert!(!path_matches_override(path, "project/src/lib.rs"));
    }

#[test]
fn test_no_match_override_longer_than_path() {
        let path = "lib.rs";
        assert!(!path_matches_override(path, "src/lib.rs"));
    }

#[test]
fn test_empty_override_no_match() {
        let path = "src/lib.rs";
        assert!(!path_matches_override(path, ""));
    }

#[test]
fn test_windows_separator_in_override() {
        let path = "project/src/lib.rs";
        assert!(path_matches_override(path, "src\\lib.rs"));
    }

#[test]
fn test_mixed_separators() {
        let path = "project/src/components/Button.tsx";
        assert!(path_matches_override(path, "src/components\\Button.tsx"));
    }

#[test]
fn test_directory_path() {
        let path = "project/src/components";
        assert!(path_matches_override(path, "src/components"));
    }

#[test]
fn test_trailing_separator_filtered() {
        let path = "src/components";
        // Trailing separator should be filtered out
        assert!(path_matches_override(path, "src/components/"));
    }
