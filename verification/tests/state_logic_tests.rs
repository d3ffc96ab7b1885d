use sloc_guard::allowlist::AllowlistRuleBuilder;
use sloc_guard::checker::{DirStats, StructureViolation, ViolationType};
use sloc_guard::error::SlocGuardError;
use sloc_guard::state::{lock_poll_step, temp_file_name, LockAttempt, LockError, LockPoll};

#[test]
fn lock_poll_step_decides_each_attempt() {
    assert_eq!(lock_poll_step(LockAttempt::Acquired, 10_000, 5000), LockPoll::Locked);
    assert_eq!(lock_poll_step(LockAttempt::Failed, 0, 5000), LockPoll::Failed);
    assert_eq!(lock_poll_step(LockAttempt::WouldBlock, 100, 5000), LockPoll::Retry(50));
    assert_eq!(lock_poll_step(LockAttempt::WouldBlock, 5000, 5000), LockPoll::TimedOut);
    assert_eq!(lock_poll_step(LockAttempt::WouldBlock, 0, 0), LockPoll::TimedOut);
}

#[test]
fn temp_file_name_uses_name_and_pid() {
    assert_eq!(temp_file_name(Some("history.json"), 4242), ".history.json.tmp.4242");
    assert_eq!(temp_file_name(None, 7), ".file.tmp.7");
}

#[test]
fn lock_error_messages() {
    assert_eq!(LockError::Timeout.message(), "lock acquisition timed out");
    assert!(LockError::Timeout.source().is_none());
    let io = LockError::from(std::io::Error::other("disk on fire"));
    assert_eq!(io.message(), "lock I/O error: disk on fire");
    assert!(io.source().is_some());
}

#[test]
fn violation_constructors_keep_their_parts() {
    let v = StructureViolation::denied_file("a/b.exe".to_string(), "global".to_string(), ".exe".to_string());
    assert_eq!(v.path, "a/b.exe");
    assert_eq!(v.triggering_rule_pattern, "global");
    assert_eq!(v.violation_type, ViolationType::DeniedFile { pattern: ".exe".to_string() });
    let d = StructureViolation::disallowed_directory("x".to_string(), "src/**".to_string());
    assert_eq!(d.violation_type, ViolationType::DisallowedDirectory);
    let c = d.clone_violation();
    assert_eq!(c.path, "x");
    assert_eq!(c.triggering_rule_pattern, "src/**");
    assert_eq!(DirStats::default(), DirStats { file_count: 0, dir_count: 0, depth: 0 });
    assert_eq!(DirStats::at_depth(3).depth, 3);
}

#[test]
fn invalid_naming_regex_is_a_config_error() {
    let err = AllowlistRuleBuilder::new("src/**".to_string())
        .with_naming_pattern(Some("([unclosed".to_string()))
        .build()
        .unwrap_err();
    match err {
        SlocGuardError::Config(msg) => {
            assert!(msg.starts_with("Invalid naming pattern regex '([unclosed': "));
            assert!(msg.len() > "Invalid naming pattern regex '([unclosed': ".len());
        }
        other => panic!("expected a configuration error, got {other:?}"),
    }
}

#[test]
fn invalid_glob_reports_the_first_bad_pattern_in_build_order() {
    let err = AllowlistRuleBuilder::new("src/**".to_string())
        .with_deny_files(vec!["[deny".to_string()])
        .with_allow_dirs(vec!["ok".to_string(), "[allow".to_string()])
        .build()
        .unwrap_err();
    assert_eq!(err, SlocGuardError::InvalidPattern { pattern: "[allow".to_string() });
    assert_eq!(err.message(), "Invalid glob pattern '[allow'");
}

#[test]
fn deny_reports_name_the_matched_text() {
    let rule = AllowlistRuleBuilder::new("src/**".to_string())
        .with_deny_extensions(vec![".bak".to_string()])
        .with_deny_files(vec!["secret*".to_string()])
        .with_deny_patterns(vec!["*.tmp".to_string(), "**/cache/**".to_string()])
        .with_deny_dirs(vec!["build*".to_string()])
        .build()
        .unwrap();
    assert_eq!(rule.file_matches_deny("src/a.bak"), Some(".bak".to_string()));
    assert_eq!(rule.file_matches_deny("src/secret.txt"), Some("secret*".to_string()));
    assert_eq!(rule.file_matches_deny("src/x.tmp"), Some("pattern #0".to_string()));
    assert_eq!(rule.file_matches_deny("src/cache/x.rs"), Some("pattern #1".to_string()));
    assert_eq!(rule.file_matches_deny("src/ok.rs"), None);
    assert_eq!(rule.dir_matches_deny("src/build_out"), Some("build*".to_string()));
    assert_eq!(rule.dir_matches_deny("src/lib"), None);
    assert!(rule.is_valid());
}
