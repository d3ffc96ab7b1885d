use sloc_guard::trend::TrendDelta;
use sloc_guard::trend_formatting::{
    format_delta, format_relative_time, format_trend_header, format_trend_header_markdown,
    percentage_base,
    trend_arrow, ColorMode, TrendLineFormatter, DAY, HOUR, MINUTE, MONTH, WEEK,
};

/// The percentage suffix that a trend line shows: the change relative to the previous value,
/// to one decimal place with its sign.
fn percentage_suffix(delta: i64, current: usize) -> String {
    let previous = current as i64 - delta;
    if previous == 0 {
        String::new()
    } else {
        format!(" ({:+.1}%)", delta as f64 / previous as f64 * 100.0)
    }
}

#[test]
fn format_delta_positive() {
        assert_eq!(format_delta(5), "+5");
    }

#[test]
fn format_delta_negative() {
        assert_eq!(format_delta(-5), "-5");
    }

#[test]
fn format_delta_zero() {
        assert_eq!(format_delta(0), "0");
    }

#[test]
fn trend_arrow_positive() {
        assert_eq!(trend_arrow(10), "↑");
    }

#[test]
fn trend_arrow_negative() {
        assert_eq!(trend_arrow(-10), "↓");
    }

#[test]
fn trend_arrow_zero() {
        assert_eq!(trend_arrow(0), "~");
    }

#[test]
fn relative_time_just_now() {
        let now = std::time::SystemTime::now()
            .duration_since(std::time::UNIX_EPOCH)
            .unwrap()
            .as_secs();
        assert_eq!(format_relative_time(now), Some("just now".to_string()));
    }

#[test]
fn relative_time_one_minute() {
        let now = std::time::SystemTime::now()
            .duration_since(std::time::UNIX_EPOCH)
            .unwrap()
            .as_secs();
        assert_eq!(
            format_relative_time(now - MINUTE),
            Some("1 minute ago".to_string())
        );
    }

#[test]
fn relative_time_minutes() {
        let now = std::time::SystemTime::now()
            .duration_since(std::time::UNIX_EPOCH)
            .unwrap()
            .as_secs();
        assert_eq!(
            format_relative_time(now - 5 * MINUTE),
            Some("5 minutes ago".to_string())
        );
    }

#[test]
fn relative_time_one_hour() {
        let now = std::time::SystemTime::now()
            .duration_since(std::time::UNIX_EPOCH)
            .unwrap()
            .as_secs();
        assert_eq!(
            format_relative_time(now - HOUR),
            Some("1 hour ago".to_string())
        );
    }

#[test]
fn relative_time_hours() {
        let now = std::time::SystemTime::now()
            .duration_since(std::time::UNIX_EPOCH)
            .unwrap()
            .as_secs();
        assert_eq!(
            format_relative_time(now - 3 * HOUR),
            Some("3 hours ago".to_string())
        );
    }

#[test]
fn relative_time_one_day() {
        let now = std::time::SystemTime::now()
            .duration_since(std::time::UNIX_EPOCH)
            .unwrap()
            .as_secs();
        assert_eq!(
            format_relative_time(now - DAY),
            Some("1 day ago".to_string())
        );
    }

#[test]
fn relative_time_days() {
        let now = std::time::SystemTime::now()
            .duration_since(std::time::UNIX_EPOCH)
            .unwrap()
            .as_secs();
        assert_eq!(
            format_relative_time(now - 2 * DAY),
            Some("2 days ago".to_string())
        );
    }

#[test]
fn relative_time_one_week() {
        let now = std::time::SystemTime::now()
            .duration_since(std::time::UNIX_EPOCH)
            .unwrap()
            .as_secs();
        assert_eq!(
            format_relative_time(now - WEEK),
            Some("1 week ago".to_string())
        );
    }

#[test]
fn relative_time_weeks() {
        let now = std::time::SystemTime::now()
            .duration_since(std::time::UNIX_EPOCH)
            .unwrap()
            .as_secs();
        assert_eq!(
            format_relative_time(now - 2 * WEEK),
            Some("2 weeks ago".to_string())
        );
    }

#[test]
fn relative_time_one_month() {
        let now = std::time::SystemTime::now()
            .duration_since(std::time::UNIX_EPOCH)
            .unwrap()
            .as_secs();
        assert_eq!(
            format_relative_time(now - MONTH),
            Some("1 month ago".to_string())
        );
    }

#[test]
fn relative_time_months() {
        let now = std::time::SystemTime::now()
            .duration_since(std::time::UNIX_EPOCH)
            .unwrap()
            .as_secs();
        assert_eq!(
            format_relative_time(now - 3 * MONTH),
            Some("3 months ago".to_string())
        );
    }

#[test]
fn relative_time_future_returns_none() {
        let now = std::time::SystemTime::now()
            .duration_since(std::time::UNIX_EPOCH)
            .unwrap()
            .as_secs();
        assert!(format_relative_time(now + 1000).is_none());
    }

#[test]
fn trend_line_formatter_no_colors() {
        let formatter = TrendLineFormatter::new(ColorMode::Never, false);
        let line = formatter.format_line_with_percentage("Code", 50, &percentage_suffix(50, 550));
        assert!(line.contains("Code:"));
        assert!(line.contains("↑"));
        assert!(line.contains("+50"));
        assert!(line.contains('%'));
    }

#[test]
fn trend_line_formatter_with_colors() {
        let formatter = TrendLineFormatter::new(ColorMode::Always, false);
        let line = formatter.format_line_with_percentage("Code", -10, &percentage_suffix(-10, 90));
        assert!(line.contains('\x1b')); // ANSI escape
        assert!(line.contains("↓"));
    }

#[test]
fn trend_header_with_git_and_branch() {
        let trend = TrendDelta {
            files_delta: 0,
            lines_delta: 0,
            code_delta: 0,
            comment_delta: 0,
            blank_delta: 0,
            previous_timestamp: None,
            previous_git_ref: Some("a1b2c3d".to_string()),
            previous_git_branch: Some("main".to_string()),
        };
        let header = format_trend_header(&trend);
        assert_eq!(header, "Changes since commit a1b2c3d on main:");
    }

#[test]
fn trend_header_with_git_no_branch() {
        let trend = TrendDelta {
            files_delta: 0,
            lines_delta: 0,
            code_delta: 0,
            comment_delta: 0,
            blank_delta: 0,
            previous_timestamp: None,
            previous_git_ref: Some("a1b2c3d".to_string()),
            previous_git_branch: None,
        };
        let header = format_trend_header(&trend);
        assert_eq!(header, "Changes since commit a1b2c3d:");
    }

#[test]
fn trend_header_no_git_no_timestamp() {
        let trend = TrendDelta::default();
        let header = format_trend_header(&trend);
        assert_eq!(header, "Changes from previous run:");
    }

#[test]
fn trend_header_no_git_with_timestamp() {
        let now = std::time::SystemTime::now()
            .duration_since(std::time::UNIX_EPOCH)
            .unwrap()
            .as_secs();
        let trend = TrendDelta {
            previous_timestamp: Some(now - 2 * HOUR),
            ..Default::default()
        };
        let header = format_trend_header(&trend);
        assert_eq!(header, "Changes since previous run (2 hours ago):");
    }

#[test]
fn trend_header_with_git_and_timestamp() {
        let now = std::time::SystemTime::now()
            .duration_since(std::time::UNIX_EPOCH)
            .unwrap()
            .as_secs();
        let trend = TrendDelta {
            previous_timestamp: Some(now - 2 * HOUR),
            previous_git_ref: Some("a1b2c3d".to_string()),
            previous_git_branch: None,
            ..Default::default()
        };
        let header = format_trend_header(&trend);
        assert_eq!(header, "Changes since commit a1b2c3d (2 hours ago):");
    }

#[test]
fn trend_header_markdown_removes_colon() {
        let trend = TrendDelta {
            previous_git_ref: Some("a1b2c3d".to_string()),
            previous_git_branch: Some("main".to_string()),
            ..Default::default()
        };
        let header = format_trend_header_markdown(&trend);
        assert_eq!(header, "Changes since commit a1b2c3d on main");
        assert!(!header.ends_with(':'));
    }

#[test]
fn percentage_base_is_the_previous_value() {
    assert_eq!(percentage_base(50, 450), Some(400));
    assert_eq!(percentage_base(-20, 80), Some(100));
    assert_eq!(percentage_base(10, 10), None);
}
