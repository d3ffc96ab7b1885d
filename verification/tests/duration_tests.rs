use sloc_guard::duration::{duration_fits_u64, parse_duration};

#[test]
fn test_parse_seconds() {
        assert_eq!(parse_duration("30s").unwrap(), 30);
        assert_eq!(parse_duration("1sec").unwrap(), 1);
        assert_eq!(parse_duration("60seconds").unwrap(), 60);
    }

#[test]
fn test_parse_minutes() {
        assert_eq!(parse_duration("5m").unwrap(), 5 * 60);
        assert_eq!(parse_duration("1min").unwrap(), 60);
        assert_eq!(parse_duration("30minutes").unwrap(), 30 * 60);
    }

#[test]
fn test_parse_hours() {
        assert_eq!(parse_duration("12h").unwrap(), 12 * 3600);
        assert_eq!(parse_duration("1hr").unwrap(), 3600);
        assert_eq!(parse_duration("24hours").unwrap(), 24 * 3600);
    }

#[test]
fn test_parse_days() {
        assert_eq!(parse_duration("7d").unwrap(), 7 * 86400);
        assert_eq!(parse_duration("30days").unwrap(), 30 * 86400);
        assert_eq!(parse_duration("1day").unwrap(), 86400);
    }

#[test]
fn test_parse_weeks() {
        assert_eq!(parse_duration("1w").unwrap(), 604_800);
        assert_eq!(parse_duration("2weeks").unwrap(), 2 * 604_800);
        assert_eq!(parse_duration("4wk").unwrap(), 4 * 604_800);
    }

#[test]
fn test_case_insensitive() {
        assert_eq!(parse_duration("7D").unwrap(), 7 * 86400);
        assert_eq!(parse_duration("1W").unwrap(), 604_800);
        assert_eq!(parse_duration("12H").unwrap(), 12 * 3600);
    }

#[test]
fn test_whitespace_trimmed() {
        assert_eq!(parse_duration("  7d  ").unwrap(), 7 * 86400);
    }

#[test]
fn test_empty_string_error() {
        let err = parse_duration("").unwrap_err();
        assert!(err.message().contains("cannot be empty"));
    }

#[test]
fn test_missing_unit_error() {
        let err = parse_duration("30").unwrap_err();
        assert!(err.message().contains("Missing unit"));
    }

#[test]
fn test_missing_number_error() {
        let err = parse_duration("d").unwrap_err();
        assert!(err.message().contains("Missing number"));
    }

#[test]
fn test_invalid_unit_error() {
        let err = parse_duration("30x").unwrap_err();
        assert!(err.message().contains("Invalid duration unit"));
    }

#[test]
fn test_zero_duration_error() {
        let err = parse_duration("0d").unwrap_err();
        assert!(err.message().contains("greater than zero"));
    }

#[test]
fn test_invalid_number_error() {
        let err = parse_duration("abc").unwrap_err();
        assert!(err.message().contains("Missing number"));
    }

#[test]
fn duration_fits_u64_tells_when_parse_duration_may_be_asked() {
    assert!(duration_fits_u64("7d"));
    assert!(duration_fits_u64(""));
    assert!(duration_fits_u64("abc"));
    assert!(duration_fits_u64("99999999999999999999999d"));
    assert!(duration_fits_u64("18446744073709551615s"));
    assert!(!duration_fits_u64("18446744073709551615w"));
    assert!(!duration_fits_u64("  213503982334602d "));
    assert!(duration_fits_u64("213503982334601d"));
    assert!(duration_fits_u64("30500568904943s"));
}
