use sloc_guard::trend::{
    FileStatistics, LineStats, ProjectStatistics, TrendConfig, TrendDelta, TrendEntry,
    TrendHistory, SECONDS_PER_DAY,
};

fn sample_project_stats(total_files: usize, total_code: usize) -> ProjectStatistics {
    let files: Vec<FileStatistics> = (0..total_files)
        .map(|i| FileStatistics {
            path: format!("file{i}.rs"),
            stats: LineStats {
                total: total_code / total_files + 20,
                code: total_code / total_files,
                comment: 10,
                blank: 10,
                ignored: 0,
            },
            language: "Rust".to_string(),
        })
        .collect();
    ProjectStatistics::new(files)
}

#[allow(dead_code)]
fn make_entry(timestamp: u64) -> TrendEntry {
    TrendEntry {
        timestamp,
        total_files: 10,
        total_lines: 100,
        code: 50,
        comment: 30,
        blank: 20,
        git_ref: None,
        git_branch: None,
    }
}

#[test]
fn test_compute_increase() {
    let prev = TrendEntry {
        timestamp: 1000,
        total_files: 10,
        total_lines: 1000,
        code: 500,
        comment: 300,
        blank: 200,
        git_ref: None,
        git_branch: None,
    };
    let current = sample_project_stats(15, 600);

    let delta = TrendDelta::compute(&prev, &current);

    assert_eq!(delta.files_delta, 5);
    assert_eq!(delta.code_delta, 100);
    assert!(delta.has_changes());
    assert_eq!(delta.previous_timestamp, Some(1000));
}

#[test]
fn test_compute_decrease() {
    let prev = TrendEntry {
        timestamp: 1000,
        total_files: 20,
        total_lines: 2000,
        code: 1000,
        comment: 600,
        blank: 400,
        git_ref: None,
        git_branch: None,
    };
    let current = sample_project_stats(10, 500);

    let delta = TrendDelta::compute(&prev, &current);

    assert_eq!(delta.files_delta, -10);
    assert_eq!(delta.code_delta, -500);
    assert!(delta.has_changes());
}

#[test]
fn test_no_changes() {
    let prev = TrendEntry {
        timestamp: 1000,
        total_files: 5,
        total_lines: 150,
        code: 100,
        comment: 50,
        blank: 50,
        git_ref: None,
        git_branch: None,
    };

    // Create stats with same totals
    let files = vec![FileStatistics {
        path: "file.rs".to_string(),
        stats: LineStats {
            total: 150,
            code: 100,
            comment: 50,
            blank: 50,
            ignored: 0,
        },
        language: "Rust".to_string(),
    }];

    // Manually create stats with 5 files
    let mut stats = ProjectStatistics::new(files);
    // Override to match previous
    stats.total_files = 5;
    stats.total_lines = 150;
    stats.total_code = 100;
    stats.total_comment = 50;
    stats.total_blank = 50;

    let delta = TrendDelta::compute(&prev, &stats);

    assert!(!delta.has_changes());
}

#[test]
fn test_default() {
    let delta = TrendDelta::default();

    assert_eq!(delta.files_delta, 0);
    assert_eq!(delta.lines_delta, 0);
    assert_eq!(delta.code_delta, 0);
    assert_eq!(delta.comment_delta, 0);
    assert_eq!(delta.blank_delta, 0);
    assert!(delta.previous_timestamp.is_none());
    assert!(!delta.has_changes());
}

#[test]
fn entry_tests_test_new() {
    let stats = sample_project_stats(5, 100);
    let entry = TrendEntry::new(&stats).unwrap();

    assert_eq!(entry.total_files, 5);
    assert_eq!(entry.code, 100);
    assert!(entry.timestamp > 0);
    // Git context is None by default
    assert!(entry.git_ref.is_none());
    assert!(entry.git_branch.is_none());
}

#[test]
fn test_with_timestamp() {
    let stats = sample_project_stats(5, 100);
    let entry = TrendEntry::new(&stats).unwrap().with_timestamp(12345);

    assert_eq!(entry.timestamp, 12345);
}

#[test]
fn test_with_git_context() {
    let stats = sample_project_stats(5, 100);
    let entry = TrendEntry::new(&stats).unwrap()
        .with_git_context(Some("a1b2c3d".to_string()), Some("main".to_string()));

    assert_eq!(entry.git_ref, Some("a1b2c3d".to_string()));
    assert_eq!(entry.git_branch, Some("main".to_string()));
}

#[test]
fn test_with_git_context_commit_only() {
    let stats = sample_project_stats(5, 100);
    let entry = TrendEntry::new(&stats).unwrap().with_git_context(Some("a1b2c3d".to_string()), None);

    assert_eq!(entry.git_ref, Some("a1b2c3d".to_string()));
    assert!(entry.git_branch.is_none());
}

#[test]
fn entry_tests_test_equality() {
    let entry1 = TrendEntry {
        timestamp: 1000,
        total_files: 10,
        total_lines: 100,
        code: 50,
        comment: 30,
        blank: 20,
        git_ref: None,
        git_branch: None,
    };
    let entry2 = TrendEntry {
        timestamp: 1000,
        total_files: 10,
        total_lines: 100,
        code: 50,
        comment: 30,
        blank: 20,
        git_ref: None,
        git_branch: None,
    };
    let entry3 = TrendEntry {
        timestamp: 2000,
        total_files: 10,
        total_lines: 100,
        code: 50,
        comment: 30,
        blank: 20,
        git_ref: None,
        git_branch: None,
    };

    assert_eq!(entry1, entry2);
    assert_ne!(entry1, entry3);
}

#[test]
fn history_tests_test_new() {
    let history = TrendHistory::new();

    assert!(history.is_empty());
    assert_eq!(history.len(), 0);
    assert_eq!(history.version(), 1);
}

#[test]
fn test_add() {
    let mut history = TrendHistory::new();
    let stats = sample_project_stats(5, 100);

    assert!(history.add(&stats));

    assert!(!history.is_empty());
    assert_eq!(history.len(), 1);
    assert!(history.latest().is_some());
}

#[test]
fn test_add_entry() {
    let mut history = TrendHistory::new();
    let entry = TrendEntry {
        timestamp: 12345,
        total_files: 10,
        total_lines: 1000,
        code: 500,
        comment: 300,
        blank: 200,
        git_ref: None,
        git_branch: None,
    };

    history.add_entry(entry);

    assert_eq!(history.len(), 1);
    assert_eq!(history.latest().unwrap().timestamp, 12345);
}

#[test]
fn test_compute_delta_empty() {
    let history = TrendHistory::new();
    let stats = sample_project_stats(5, 100);

    let delta = history.compute_delta(&stats);

    assert!(delta.is_none());
}

#[test]
fn test_compute_delta_with_entry() {
    let mut history = TrendHistory::new();
    let entry = TrendEntry {
        timestamp: 1000,
        total_files: 10,
        total_lines: 1000,
        code: 500,
        comment: 300,
        blank: 200,
        git_ref: None,
        git_branch: None,
    };
    history.add_entry(entry);

    let current = sample_project_stats(15, 600);
    let delta = history.compute_delta(&current);

    assert!(delta.is_some());
    let delta = delta.unwrap();
    assert_eq!(delta.files_delta, 5);
    assert_eq!(delta.code_delta, 100);
}

#[test]
fn test_entries() {
    let mut history = TrendHistory::new();

    history.add_entry(TrendEntry {
        timestamp: 1000,
        total_files: 10,
        total_lines: 100,
        code: 50,
        comment: 30,
        blank: 20,
        git_ref: None,
        git_branch: None,
    });
    history.add_entry(TrendEntry {
        timestamp: 2000,
        total_files: 15,
        total_lines: 150,
        code: 75,
        comment: 45,
        blank: 30,
        git_ref: None,
        git_branch: None,
    });

    let entries = history.entries();
    assert_eq!(entries.len(), 2);
    assert_eq!(entries[0].timestamp, 1000);
    assert_eq!(entries[1].timestamp, 2000);
}

#[test]
fn test_default_trait() {
    let history = TrendHistory::default();
    assert!(history.is_empty());
    assert_eq!(history.len(), 0);
    assert_eq!(history.version(), 1);
}

#[test]
fn history_tests_test_equality() {
    let mut history1 = TrendHistory::new();
    let mut history2 = TrendHistory::new();

    assert_eq!(history1, history2);

    history1.add_entry(TrendEntry {
        timestamp: 1000,
        total_files: 10,
        total_lines: 100,
        code: 50,
        comment: 30,
        blank: 20,
        git_ref: None,
        git_branch: None,
    });

    assert_ne!(history1, history2);

    history2.add_entry(TrendEntry {
        timestamp: 1000,
        total_files: 10,
        total_lines: 100,
        code: 50,
        comment: 30,
        blank: 20,
        git_ref: None,
        git_branch: None,
    });

    assert_eq!(history1, history2);
}

#[test]
fn test_find_entry_at_or_before_empty_history() {
    let history = TrendHistory::new();
    assert!(history.find_entry_at_or_before(1000).is_none());
}

#[test]
fn test_find_entry_at_or_before_single_entry_before() {
    let mut history = TrendHistory::new();
    history.add_entry(make_entry(500));

    let found = history.find_entry_at_or_before(1000);
    assert!(found.is_some());
    assert_eq!(found.unwrap().timestamp, 500);
}

#[test]
fn test_find_entry_at_or_before_single_entry_after() {
    let mut history = TrendHistory::new();
    history.add_entry(make_entry(1500));

    let found = history.find_entry_at_or_before(1000);
    assert!(found.is_none());
}

#[test]
fn test_find_entry_at_or_before_single_entry_exact() {
    let mut history = TrendHistory::new();
    history.add_entry(make_entry(1000));

    // Should find entry exactly AT the timestamp
    let found = history.find_entry_at_or_before(1000);
    assert!(found.is_some());
    assert_eq!(found.unwrap().timestamp, 1000);
}

#[test]
fn test_find_entry_at_or_before_multiple_entries_finds_nearest() {
    let mut history = TrendHistory::new();
    history.add_entry(make_entry(100));
    history.add_entry(make_entry(500));
    history.add_entry(make_entry(800));
    history.add_entry(make_entry(1200));

    // Looking for entry at or before 1000, should find 800 (nearest <= 1000)
    let found = history.find_entry_at_or_before(1000);
    assert!(found.is_some());
    assert_eq!(found.unwrap().timestamp, 800);
}

#[test]
fn test_find_entry_at_or_before_all_entries_after() {
    let mut history = TrendHistory::new();
    history.add_entry(make_entry(2000));
    history.add_entry(make_entry(3000));
    history.add_entry(make_entry(4000));

    let found = history.find_entry_at_or_before(1000);
    assert!(found.is_none());
}

#[test]
fn test_find_entry_at_or_before_all_entries_before() {
    let mut history = TrendHistory::new();
    history.add_entry(make_entry(100));
    history.add_entry(make_entry(200));
    history.add_entry(make_entry(300));

    // Should find the nearest (300)
    let found = history.find_entry_at_or_before(1000);
    assert!(found.is_some());
    assert_eq!(found.unwrap().timestamp, 300);
}

#[test]
fn test_compute_delta_since_empty_history() {
    let history = TrendHistory::new();
    let stats = sample_project_stats(10, 500);

    let delta = history.compute_delta_since(86400, &stats, 100_000_000);
    assert!(delta.is_none());
}

#[test]
fn test_compute_delta_since_finds_entry() {
    let mut history = TrendHistory::new();
    let current_time = 100_000_000u64;

    // Add entry 10 days ago - this is BEFORE the 7-day target
    history.add_entry(TrendEntry {
        timestamp: current_time - 10 * SECONDS_PER_DAY,
        total_files: 10,
        total_lines: 1000,
        code: 500,
        comment: 300,
        blank: 200,
        git_ref: None,
        git_branch: None,
    });

    let current = sample_project_stats(15, 600);

    // Look back 7 days - should find the 10-day-old entry (nearest at or before 7 days ago)
    let delta = history.compute_delta_since(7 * SECONDS_PER_DAY, &current, current_time);

    assert!(delta.is_some());
    let delta = delta.unwrap();
    assert_eq!(delta.files_delta, 5);
    assert_eq!(delta.code_delta, 100);
}

#[test]
fn test_compute_delta_since_no_entry_old_enough() {
    let mut history = TrendHistory::new();
    let current_time = 100_000_000u64;

    // Add entry only 2 days ago - too recent for 7-day lookback
    history.add_entry(make_entry(current_time - 2 * SECONDS_PER_DAY));

    let current = sample_project_stats(15, 600);

    // Look back 7 days - no entry exists at or before 7 days ago
    let delta = history.compute_delta_since(7 * SECONDS_PER_DAY, &current, current_time);

    assert!(delta.is_none());
}

#[test]
fn test_compute_delta_since_picks_nearest_entry() {
    let mut history = TrendHistory::new();
    let current_time = 100_000_000u64;

    // Add entries at 30, 10, and 5 days ago
    history.add_entry(TrendEntry {
        timestamp: current_time - 30 * SECONDS_PER_DAY,
        total_files: 5,
        total_lines: 500,
        code: 250,
        comment: 150,
        blank: 100,
        git_ref: None,
        git_branch: None,
    });
    history.add_entry(TrendEntry {
        timestamp: current_time - 10 * SECONDS_PER_DAY,
        total_files: 10,
        total_lines: 1000,
        code: 500,
        comment: 300,
        blank: 200,
        git_ref: None,
        git_branch: None,
    });
    history.add_entry(TrendEntry {
        timestamp: current_time - 5 * SECONDS_PER_DAY,
        total_files: 12,
        total_lines: 1200,
        code: 600,
        comment: 360,
        blank: 240,
        git_ref: None,
        git_branch: None,
    });

    // 15 files with 750 / 15 = 50 code lines each = 750 total code
    let current = sample_project_stats(15, 750);

    // Look back 7 days - should find the 10-day-old entry (nearest at or before 7 days ago)
    let delta = history.compute_delta_since(7 * SECONDS_PER_DAY, &current, current_time);

    assert!(delta.is_some());
    let delta = delta.unwrap();
    // Comparing against 10-day-old entry (code: 500)
    assert_eq!(delta.files_delta, 5); // 15 - 10
    assert_eq!(delta.code_delta, 250); // 750 - 500
}

#[test]
fn test_compute_delta_since_exact_boundary() {
    let mut history = TrendHistory::new();
    let current_time = 100_000_000u64;

    // Add entry exactly 7 days ago
    history.add_entry(TrendEntry {
        timestamp: current_time - 7 * SECONDS_PER_DAY,
        total_files: 10,
        total_lines: 1000,
        code: 500,
        comment: 300,
        blank: 200,
        git_ref: None,
        git_branch: None,
    });

    let current = sample_project_stats(15, 600);

    // Look back 7 days - entry is at exact boundary, should be included
    let delta = history.compute_delta_since(7 * SECONDS_PER_DAY, &current, current_time);

    assert!(delta.is_some());
}

#[test]
fn retention_tests_test_should_add_empty_history_always_true() {
    let history = TrendHistory::new();
    let config = TrendConfig {
        min_interval_secs: Some(3600),
        ..Default::default()
    };

    assert!(history.should_add(&config, 1000));
}

#[test]
fn retention_tests_test_should_add_no_min_interval_always_true() {
    let mut history = TrendHistory::new();
    history.add_entry(make_entry(1000));

    let config = TrendConfig::default();
    assert!(history.should_add(&config, 1001));
}

#[test]
fn retention_tests_test_should_add_within_interval_returns_false() {
    let mut history = TrendHistory::new();
    history.add_entry(make_entry(1000));

    let config = TrendConfig {
        min_interval_secs: Some(3600), // 1 hour
        ..Default::default()
    };

    // Only 1800 seconds passed (30 minutes)
    assert!(!history.should_add(&config, 2800));
}

#[test]
fn retention_tests_test_should_add_after_interval_returns_true() {
    let mut history = TrendHistory::new();
    history.add_entry(make_entry(1000));

    let config = TrendConfig {
        min_interval_secs: Some(3600), // 1 hour
        ..Default::default()
    };

    // 3600 seconds passed (exactly 1 hour)
    assert!(history.should_add(&config, 4600));
}

#[test]
fn retention_tests_test_should_add_exactly_at_interval_returns_true() {
    let mut history = TrendHistory::new();
    history.add_entry(make_entry(1000));

    let config = TrendConfig {
        min_interval_secs: Some(100),
        ..Default::default()
    };

    assert!(history.should_add(&config, 1100));
}

#[test]
fn retention_tests_test_apply_retention_max_entries() {
    let mut history = TrendHistory::new();
    for i in 0..10 {
        history.add_entry(make_entry(i * 100));
    }
    assert_eq!(history.len(), 10);

    let config = TrendConfig {
        max_entries: Some(5),
        ..Default::default()
    };

    let removed = history.apply_retention(&config, 10000);

    assert_eq!(removed, 5);
    assert_eq!(history.len(), 5);
    // Should keep the 5 newest (timestamps 500-900)
    assert_eq!(history.entries()[0].timestamp, 500);
    assert_eq!(history.entries()[4].timestamp, 900);
}

#[test]
fn retention_tests_test_apply_retention_max_entries_no_excess() {
    let mut history = TrendHistory::new();
    for i in 0..3 {
        history.add_entry(make_entry(i * 100));
    }

    let config = TrendConfig {
        max_entries: Some(10),
        ..Default::default()
    };

    let removed = history.apply_retention(&config, 10000);

    assert_eq!(removed, 0);
    assert_eq!(history.len(), 3);
}

#[test]
fn retention_tests_test_apply_retention_max_age_days() {
    let mut history = TrendHistory::new();
    // Add entries at various ages (use large enough timestamp to avoid overflow)
    let current_time = 10_000_000u64;
    let one_day = SECONDS_PER_DAY;

    history.add_entry(make_entry(current_time - 10 * one_day)); // 10 days old
    history.add_entry(make_entry(current_time - 5 * one_day)); // 5 days old
    history.add_entry(make_entry(current_time - 2 * one_day)); // 2 days old
    history.add_entry(make_entry(current_time - one_day)); // 1 day old

    let config = TrendConfig {
        max_age_days: Some(7),
        ..Default::default()
    };

    let removed = history.apply_retention(&config, current_time);

    assert_eq!(removed, 1); // Only the 10-day-old entry removed
    assert_eq!(history.len(), 3);
}

#[test]
fn retention_tests_test_apply_retention_max_age_days_removes_all_old() {
    let mut history = TrendHistory::new();
    // Use large enough timestamp to avoid overflow
    let current_time = 100_000_000u64;
    let one_day = SECONDS_PER_DAY;

    // All entries older than 30 days
    history.add_entry(make_entry(current_time - 100 * one_day));
    history.add_entry(make_entry(current_time - 50 * one_day));

    let config = TrendConfig {
        max_age_days: Some(30),
        ..Default::default()
    };

    let removed = history.apply_retention(&config, current_time);

    assert_eq!(removed, 2);
    assert!(history.is_empty());
}

#[test]
fn retention_tests_test_apply_retention_combined_age_and_entries() {
    let mut history = TrendHistory::new();
    // Use large enough timestamp to avoid overflow
    let current_time = 100_000_000u64;
    let one_day = SECONDS_PER_DAY;

    // 10 entries, some old, some recent (index 0 = oldest, index 9 = newest)
    for i in 0u64..10 {
        let age_days = 10 - i;
        history.add_entry(make_entry(current_time - age_days * one_day));
    }

    // First remove entries older than 7 days (entries 0-2), then trim to 3 entries
    let config = TrendConfig {
        max_age_days: Some(7),
        max_entries: Some(3),
        ..Default::default()
    };

    let removed = history.apply_retention(&config, current_time);

    // 3 removed by age, then 4 more by max_entries (7 total entries → 3)
    assert_eq!(removed, 7);
    assert_eq!(history.len(), 3);
}

#[test]
fn retention_tests_test_apply_retention_no_config_no_changes() {
    let mut history = TrendHistory::new();
    for i in 0..5 {
        history.add_entry(make_entry(i * 100));
    }

    let config = TrendConfig::default();
    let removed = history.apply_retention(&config, 10000);

    assert_eq!(removed, 0);
    assert_eq!(history.len(), 5);
}

#[test]
fn retention_tests_test_add_if_allowed_respects_interval() {
    // Note: add_if_allowed uses current system time, so we can't deterministically
    // test interval blocking. The should_add method is tested separately with
    // explicit timestamps for deterministic behavior.
    let mut history = TrendHistory::new();
    let stats = sample_project_stats(5, 100);
    let config = TrendConfig::default();

    // Empty history should always allow
    let added = history.add_if_allowed(&stats, &config);
    assert!(added);
    assert_eq!(history.len(), 1);
}

#[test]
fn retention_tests_test_apply_retention_max_entries_zero() {
    let mut history = TrendHistory::new();
    for i in 0..5 {
        history.add_entry(make_entry(i * 100));
    }

    let config = TrendConfig {
        max_entries: Some(0),
        ..Default::default()
    };

    let removed = history.apply_retention(&config, 10000);

    assert_eq!(removed, 5);
    assert!(history.is_empty());
}

#[test]
fn retention_tests_test_apply_retention_max_age_zero() {
    let mut history = TrendHistory::new();
    let current_time = 10_000_000u64;
    history.add_entry(make_entry(current_time - 100)); // Very recent

    let config = TrendConfig {
        max_age_days: Some(0),
        ..Default::default()
    };

    let removed = history.apply_retention(&config, current_time);

    // Entry is within 0 days old (cutoff = current_time - 0 = current_time)
    // Entry timestamp < cutoff, so removed
    assert_eq!(removed, 1);
    assert!(history.is_empty());
}

#[test]
fn retention_tests_test_should_add_with_zero_interval() {
    let mut history = TrendHistory::new();
    history.add_entry(make_entry(1000));

    let config = TrendConfig {
        min_interval_secs: Some(0),
        ..Default::default()
    };

    // Zero interval means always allow
    assert!(history.should_add(&config, 1000));
}

#[test]
fn test_file_change_always_significant() {
    let delta = TrendDelta {
        files_delta: 1, // File added
        code_delta: 0,  // No code change
        ..Default::default()
    };
    let config = TrendConfig::default();

    assert!(delta.is_significant(&config));
}

#[test]
fn test_file_removed_always_significant() {
    let delta = TrendDelta {
        files_delta: -1, // File removed
        code_delta: 5,   // Small code change
        ..Default::default()
    };
    let config = TrendConfig::default();

    assert!(delta.is_significant(&config));
}

#[test]
fn test_code_above_default_threshold() {
    // Default threshold is 10, so 11 lines should be significant
    let delta = TrendDelta {
        files_delta: 0,
        code_delta: 11,
        ..Default::default()
    };
    let config = TrendConfig::default();

    assert!(delta.is_significant(&config));
}

#[test]
fn test_code_at_default_threshold_not_significant() {
    // Exactly 10 lines is NOT significant (threshold is >10, not >=10)
    let delta = TrendDelta {
        files_delta: 0,
        code_delta: 10,
        ..Default::default()
    };
    let config = TrendConfig::default();

    assert!(!delta.is_significant(&config));
}

#[test]
fn test_code_below_default_threshold_not_significant() {
    let delta = TrendDelta {
        files_delta: 0,
        code_delta: 5,
        ..Default::default()
    };
    let config = TrendConfig::default();

    assert!(!delta.is_significant(&config));
}

#[test]
fn test_negative_code_delta_uses_absolute_value() {
    // -15 lines should be significant (abs > 10)
    let delta = TrendDelta {
        files_delta: 0,
        code_delta: -15,
        ..Default::default()
    };
    let config = TrendConfig::default();

    assert!(delta.is_significant(&config));
}

#[test]
fn test_negative_code_below_threshold() {
    // -5 lines should NOT be significant (abs <= 10)
    let delta = TrendDelta {
        files_delta: 0,
        code_delta: -5,
        ..Default::default()
    };
    let config = TrendConfig::default();

    assert!(!delta.is_significant(&config));
}

#[test]
fn test_custom_threshold() {
    let delta = TrendDelta {
        files_delta: 0,
        code_delta: 50,
        ..Default::default()
    };
    let config = TrendConfig {
        min_code_delta: Some(100), // Custom high threshold
        ..Default::default()
    };

    // 50 lines is below the 100-line threshold
    assert!(!delta.is_significant(&config));
}

#[test]
fn test_custom_threshold_exceeded() {
    let delta = TrendDelta {
        files_delta: 0,
        code_delta: 150,
        ..Default::default()
    };
    let config = TrendConfig {
        min_code_delta: Some(100),
        ..Default::default()
    };

    assert!(delta.is_significant(&config));
}

#[test]
fn test_zero_threshold_always_significant() {
    let delta = TrendDelta {
        files_delta: 0,
        code_delta: 1,
        ..Default::default()
    };
    let config = TrendConfig {
        min_code_delta: Some(0), // Any change is significant
        ..Default::default()
    };

    assert!(delta.is_significant(&config));
}

#[test]
fn test_zero_delta_with_zero_threshold() {
    let delta = TrendDelta {
        files_delta: 0,
        code_delta: 0,
        ..Default::default()
    };
    let config = TrendConfig {
        min_code_delta: Some(0),
        ..Default::default()
    };

    // 0 > 0 is false, so not significant
    assert!(!delta.is_significant(&config));
}

#[test]
fn test_no_changes_not_significant() {
    let delta = TrendDelta::default();
    let config = TrendConfig::default();

    assert!(!delta.is_significant(&config));
}

#[test]
fn test_only_comment_blank_changes_not_significant() {
    // Only comment and blank changes, no code or file changes
    let delta = TrendDelta {
        files_delta: 0,
        lines_delta: 100,
        code_delta: 0,
        comment_delta: 50,
        blank_delta: 50,
        previous_timestamp: Some(1000),
        previous_git_ref: None,
        previous_git_branch: None,
    };
    let config = TrendConfig::default();

    // Comment/blank changes don't count toward significance threshold
    assert!(!delta.is_significant(&config));
}

#[test]
fn compute_reads_counts_as_i64() {
    let prev = TrendEntry {
        timestamp: 5,
        total_files: usize::MAX,
        total_lines: 10,
        code: 7,
        comment: 2,
        blank: 1,
        git_ref: Some("abc1234".to_string()),
        git_branch: None,
    };
    let current = ProjectStatistics {
        files: Vec::new(),
        total_files: usize::MAX - 1,
        total_lines: 4,
        total_code: 7,
        total_comment: 0,
        total_blank: 3,
    };
    let delta = TrendDelta::compute(&prev, &current);
    assert_eq!(delta.files_delta, -1);
    assert_eq!(delta.lines_delta, -6);
    assert_eq!(delta.code_delta, 0);
    assert_eq!(delta.comment_delta, -2);
    assert_eq!(delta.blank_delta, 2);
    assert_eq!(delta.previous_git_ref, Some("abc1234".to_string()));
    assert_eq!(delta.previous_git_branch, None);
}
