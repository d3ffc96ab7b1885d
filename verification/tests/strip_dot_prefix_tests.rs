use sloc_guard::project::strip_dot_prefix;

#[test]
fn removes_leading_dot() {
        assert_eq!(strip_dot_prefix("./src"), "src");
        assert_eq!(
            strip_dot_prefix("./src/lib"),
            "src/lib"
        );
    }

#[test]
fn handles_backslash_paths() {
        // On Windows, paths may use backslashes
        assert_eq!(strip_dot_prefix(".\\src"), "src");
        assert_eq!(
            strip_dot_prefix(".\\src\\lib"),
            "src\\lib"
        );
    }

#[test]
fn no_op_for_paths_without_dot() {
        assert_eq!(strip_dot_prefix("src"), "src");
        assert_eq!(
            strip_dot_prefix("src/lib"),
            "src/lib"
        );
    }

#[test]
fn preserves_dot_in_filename() {
        // Dot in filename should not be stripped
        assert_eq!(
            strip_dot_prefix("src/.gitignore"),
            "src/.gitignore"
        );
        assert_eq!(
            strip_dot_prefix("./.gitignore"),
            ".gitignore"
        );
    }

#[test]
fn handles_just_dot() {
        assert_eq!(strip_dot_prefix("."), "");
    }

#[test]
fn preserves_parent_dir_prefix() {
        // "../" is ParentDir, NOT CurDir - it should not be stripped
        assert_eq!(
            strip_dot_prefix("../src"),
            "../src"
        );
        assert_eq!(
            strip_dot_prefix("..\\src"),
            "..\\src"
        );
        assert_eq!(
            strip_dot_prefix("../../lib"),
            "../../lib"
        );
    }

#[test]
fn handles_mixed_separators() {
        // Path with Unix prefix "./" but Windows separators internally
        assert_eq!(
            strip_dot_prefix("./src\\lib"),
            "src\\lib"
        );
        // Path with Windows prefix ".\" but Unix separators internally
        assert_eq!(
            strip_dot_prefix(".\\src/lib"),
            "src/lib"
        );
    }
