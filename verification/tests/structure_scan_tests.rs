use sloc_guard::allowlist::AllowlistRuleBuilder;
use sloc_guard::checker::{DirStats, ViolationType};
use sloc_guard::filter::GlobFilter;
use sloc_guard::project::ProjectPaths;
use sloc_guard::scanner::{
    scan_files, CompositeScanner, DirectoryScanner, EntryKind, ScanResult, WalkEntry,
};
use sloc_guard::structure_config::{StructureScanConfig, TestConfigParams};

fn dir(path: &str, depth: usize) -> WalkEntry {
    WalkEntry { path: path.to_string(), depth, kind: EntryKind::Directory }
}

fn file(path: &str, depth: usize) -> WalkEntry {
    WalkEntry { path: path.to_string(), depth, kind: EntryKind::File }
}

fn accept_all() -> DirectoryScanner<GlobFilter> {
    DirectoryScanner::new(GlobFilter::new(vec![], &vec![]).unwrap())
}

#[test]
fn structure_scan_collects_files_and_stats() {
    let entries = vec![
        dir("/work", 0),
        dir("/work/src", 1),
        file("/work/src/main.rs", 2),
        file("/work/src/lib.rs", 2),
    ];
    let result = accept_all().scan_with_structure("/work", None, &entries, "/").unwrap();
    assert_eq!(result.files, vec!["/work/src/main.rs".to_string(), "/work/src/lib.rs".to_string()]);
    assert_eq!(
        result.stats_of("/work/src"),
        Some(DirStats { file_count: 2, dir_count: 0, depth: 1 })
    );
    assert_eq!(
        result.stats_of("/work"),
        Some(DirStats { file_count: 0, dir_count: 1, depth: 0 })
    );
    assert!(result.allowlist_violations.is_empty());
}

#[test]
fn structure_scan_counts_subdirectories_and_depth() {
    let entries = vec![
        dir("/w", 0),
        dir("/w/src", 1),
        dir("/w/src/sub1", 2),
        file("/w/src/sub1/a.rs", 3),
        dir("/w/src/sub2", 2),
        file("/w/src/sub2/b.rs", 3),
    ];
    let result = accept_all().scan_with_structure("/w", None, &entries, "/").unwrap();
    assert_eq!(result.stats_of("/w/src").unwrap().dir_count, 2);
    assert_eq!(result.stats_of("/w/src/sub1").unwrap().depth, 2);
    assert_eq!(result.stats_of("/w/src/sub1").unwrap().file_count, 1);
    // keys are compared by components
    assert_eq!(result.stats_of("/w//src/").unwrap().dir_count, 2);
}

#[test]
fn structure_scan_respects_scanner_exclude() {
    let config = StructureScanConfig::new(TestConfigParams {
        scanner_exclude_patterns: vec!["**/target/**".to_string()],
        ..Default::default()
    })
    .unwrap();
    let entries = vec![
        dir("/w", 0),
        dir("/w/src", 1),
        file("/w/src/main.rs", 2),
        dir("/w/target", 1),
        file("/w/target/build.rs", 2),
    ];
    let result = accept_all().scan_with_structure("/w", Some(&config), &entries, "/").unwrap();
    assert_eq!(result.files, vec!["/w/src/main.rs".to_string()]);
    assert_eq!(result.stats_of("/w/target").unwrap().file_count, 0);
}

#[test]
fn structure_scan_respects_count_exclude() {
    let config = StructureScanConfig::new(TestConfigParams {
        count_exclude_patterns: vec!["*.txt".to_string()],
        ..Default::default()
    })
    .unwrap();
    let entries = vec![
        dir("/w", 0),
        dir("/w/src", 1),
        file("/w/src/main.rs", 2),
        file("/w/src/generated.txt", 2),
    ];
    let result = accept_all().scan_with_structure("/w", Some(&config), &entries, "/").unwrap();
    assert_eq!(result.files.len(), 2);
    assert_eq!(result.stats_of("/w/src").unwrap().file_count, 1);
}

#[test]
fn structure_scan_reports_disallowed_file_with_rule_scope() {
    let rule = AllowlistRuleBuilder::new("**/src".to_string())
        .with_extensions(vec![".rs".to_string()])
        .build()
        .unwrap();
    let config = StructureScanConfig::new(TestConfigParams {
        allowlist_rules: vec![rule],
        ..Default::default()
    })
    .unwrap();
    let entries = vec![
        dir("/w", 0),
        dir("/w/src", 1),
        file("/w/src/main.rs", 2),
        file("/w/src/config.json", 2),
    ];
    let result = accept_all().scan_with_structure("/w", Some(&config), &entries, "/").unwrap();
    assert_eq!(result.allowlist_violations.len(), 1);
    let v = &result.allowlist_violations[0];
    assert_eq!(v.path, "/w/src/config.json");
    assert_eq!(v.violation_type, ViolationType::DisallowedFile);
    assert_eq!(v.triggering_rule_pattern, "**/src");
}

#[test]
fn structure_scan_global_deny_and_rule_override() {
    let rule = AllowlistRuleBuilder::new("**/tools".to_string())
        .with_extensions(vec![".exe".to_string()])
        .build()
        .unwrap();
    let config = StructureScanConfig::new(TestConfigParams {
        allowlist_rules: vec![rule],
        global_deny_extensions: vec![".exe".to_string()],
        ..Default::default()
    })
    .unwrap();
    let entries = vec![
        dir("/w", 0),
        dir("/w/bin", 1),
        file("/w/bin/app.exe", 2),
        dir("/w/tools", 1),
        file("/w/tools/helper.exe", 2),
    ];
    let result = accept_all().scan_with_structure("/w", Some(&config), &entries, "/").unwrap();
    assert_eq!(result.allowlist_violations.len(), 1);
    let v = &result.allowlist_violations[0];
    assert_eq!(v.path, "/w/bin/app.exe");
    assert_eq!(v.violation_type, ViolationType::DeniedFile { pattern: ".exe".to_string() });
    assert_eq!(v.triggering_rule_pattern, "global");
}

#[test]
fn structure_scan_global_file_allowlist() {
    let config = StructureScanConfig::new(TestConfigParams {
        global_allow_extensions: vec![".rs".to_string()],
        ..Default::default()
    })
    .unwrap();
    let entries = vec![dir("/w", 0), file("/w/main.rs", 1), file("/w/notes.md", 1)];
    let result = accept_all().scan_with_structure("/w", Some(&config), &entries, "/").unwrap();
    assert_eq!(result.allowlist_violations.len(), 1);
    assert_eq!(result.allowlist_violations[0].path, "/w/notes.md");
    assert_eq!(result.allowlist_violations[0].violation_type, ViolationType::DisallowedFile);
    assert_eq!(result.allowlist_violations[0].triggering_rule_pattern, "global");
}

#[test]
fn structure_scan_naming_convention_violation() {
    let rule = AllowlistRuleBuilder::new("**/components".to_string())
        .with_naming_pattern(Some("^[A-Z][a-zA-Z0-9]*\\.tsx$".to_string()))
        .build()
        .unwrap();
    let config = StructureScanConfig::new(TestConfigParams {
        allowlist_rules: vec![rule],
        ..Default::default()
    })
    .unwrap();
    let entries = vec![
        dir("/w", 0),
        dir("/w/components", 1),
        file("/w/components/Button.tsx", 2),
        file("/w/components/helper.tsx", 2),
    ];
    let result = accept_all().scan_with_structure("/w", Some(&config), &entries, "/").unwrap();
    assert_eq!(result.allowlist_violations.len(), 1);
    assert_eq!(result.allowlist_violations[0].path, "/w/components/helper.tsx");
    assert_eq!(
        result.allowlist_violations[0].violation_type,
        ViolationType::NamingConvention { expected_pattern: "^[A-Z][a-zA-Z0-9]*\\.tsx$".to_string() }
    );
}

#[test]
fn structure_scan_directory_deny_rules() {
    let config = StructureScanConfig::new(TestConfigParams {
        global_deny_patterns: vec!["**/node_modules/".to_string()],
        global_deny_dirs: vec!["temp_*".to_string()],
        ..Default::default()
    })
    .unwrap();
    let entries = vec![
        dir("/w", 0),
        dir("/w/node_modules", 1),
        dir("/w/temp_cache", 1),
        dir("/w/src", 1),
    ];
    let result = accept_all().scan_with_structure("/w", Some(&config), &entries, "/").unwrap();
    assert_eq!(result.allowlist_violations.len(), 2);
    assert_eq!(result.allowlist_violations[0].path, "/w/node_modules");
    assert_eq!(
        result.allowlist_violations[0].violation_type,
        ViolationType::DeniedDirectory { pattern: "**/node_modules/".to_string() }
    );
    assert_eq!(result.allowlist_violations[1].path, "/w/temp_cache");
    assert_eq!(
        result.allowlist_violations[1].violation_type,
        ViolationType::DeniedDirectory { pattern: "temp_*".to_string() }
    );
}

#[test]
fn structure_scan_pruner_combines_filter_and_config() {
    let config = StructureScanConfig::new(TestConfigParams {
        scanner_exclude_patterns: vec!["vendor/**".to_string()],
        ..Default::default()
    })
    .unwrap();
    let scanner = DirectoryScanner::new(
        GlobFilter::new(vec![], &vec!["**/target/**".to_string()]).unwrap(),
    );
    let pruner = scanner.combined_directory_pruner("/w", Some(&config), "/").unwrap();
    assert!(pruner.prunes("/w/vendor"));
    assert!(!pruner.prunes("/w/apps/vendor"));
    assert!(pruner.prunes("/w/x/target"));
    assert!(!pruner.prunes("/w/src"));
}

#[test]
fn select_files_keeps_filtered_files_in_order() {
    let scanner = DirectoryScanner::new(GlobFilter::new(vec!["rs".to_string()], &vec![]).unwrap());
    let entries = vec![dir("/w", 0), file("/w/a.rs", 1), file("/w/b.py", 1), file("/w/c.rs", 1)];
    assert_eq!(scanner.select_files(&entries), vec!["/w/a.rs".to_string(), "/w/c.rs".to_string()]);
    assert!(!scanner.uses_gitignore());
}

#[test]
fn scan_files_concatenates_walks_and_applies_excludes() {
    let walks = vec![
        vec![dir("a", 0), file("a/x.rs", 1), file("a/x.lock", 1)],
        vec![dir("b", 0), file("b/y.rs", 1)],
    ];
    let files = scan_files(&walks, &vec!["*.lock".to_string()], false).unwrap();
    assert_eq!(files, vec!["a/x.rs".to_string(), "b/y.rs".to_string()]);
    let err = scan_files(&walks, &vec!["[bad".to_string()], true).unwrap_err();
    assert_eq!(err.message(), "Invalid glob pattern '[bad'");
}

#[test]
fn composite_scanner_builds_its_directory_scanner() {
    let scanner = CompositeScanner::new(vec!["**/gen/**".to_string()], true);
    assert!(scanner.use_gitignore);
    let dir_scanner = scanner.directory_scanner().unwrap();
    assert!(dir_scanner.uses_gitignore());
    let entries = vec![file("src/gen/x.rs", 2), file("src/y.rs", 1)];
    assert_eq!(dir_scanner.select_files(&entries), vec!["src/y.rs".to_string()]);
    assert!(CompositeScanner::new(vec!["[".to_string()], false).directory_scanner().is_err());
}

#[test]
fn scan_result_absorb_appends_and_overrides_stats() {
    let mut a = ScanResult::default();
    a.files.push("x".to_string());
    a.dir_stats.push(("d".to_string(), DirStats { file_count: 1, dir_count: 0, depth: 0 }));
    let mut b = ScanResult::default();
    b.files.push("y".to_string());
    b.dir_stats.push(("d".to_string(), DirStats { file_count: 5, dir_count: 2, depth: 1 }));
    b.dir_stats.push(("e".to_string(), DirStats { file_count: 3, dir_count: 0, depth: 2 }));
    a.absorb(b);
    assert_eq!(a.files, vec!["x".to_string(), "y".to_string()]);
    assert_eq!(a.dir_stats.len(), 2);
    assert_eq!(a.stats_of("d").unwrap().file_count, 5);
    assert_eq!(a.stats_of("e").unwrap().depth, 2);
}

#[test]
fn scan_result_rebase_logical_paths() {
    let mut r = ScanResult::default();
    r.files.push("/repo/src/main.rs".to_string());
    r.dir_stats.push(("/repo/src".to_string(), DirStats { file_count: 1, dir_count: 0, depth: 7 }));
    let pp = ProjectPaths::rooted_with_cwd("/repo", "/repo", "/");
    r.rebase_logical_paths(&pp);
    assert_eq!(r.files, vec!["src/main.rs".to_string()]);
    assert_eq!(r.stats_of("src"), Some(DirStats { file_count: 1, dir_count: 0, depth: 1 }));

    let mut u = ScanResult::default();
    u.files.push("a/b.rs".to_string());
    u.rebase_logical_paths(&ProjectPaths::unrooted());
    assert_eq!(u.files, vec!["a/b.rs".to_string()]);
}

#[test]
fn structure_scan_invalid_directory_prefix_is_reported() {
    let mut config = StructureScanConfig::default();
    config.scanner_exclude_dir_names.push("[bad".to_string());
    let err = accept_all().combined_directory_pruner("/w", Some(&config), "/").unwrap_err();
    assert_eq!(err.message(), "Invalid glob pattern '[bad'");
    assert!(!config.is_valid());
    assert!(StructureScanConfig::default().is_valid());
}
