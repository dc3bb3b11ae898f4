use envvars::message::{
    fallback, invalid_port, not_found, parse_failed, range_error, required_env, required_port,
};

#[test]
fn not_found_text() {
    assert_eq!(not_found("HOME"), "No such environment HOME");
    assert_eq!(not_found(""), "No such environment ");
}

#[test]
fn parse_failed_text() {
    assert_eq!(parse_failed("12.34"), "Failed to parse 12.34");
    assert_eq!(parse_failed(""), "Failed to parse ");
}

#[test]
fn range_error_text() {
    assert_eq!(range_error(5, 10, 20), "5 is not in the range [10, 20]");
    assert_eq!(range_error(-5, -3, 3), "-5 is not in the range [-3, 3]");
    assert_eq!(
        range_error(i64::MIN, i64::MAX, i64::MAX),
        "-9223372036854775808 is not in the range [9223372036854775807, 9223372036854775807]"
    );
    assert_eq!(range_error(0, 1, 0), "0 is not in the range [1, 0]");
}

#[test]
fn invalid_port_text() {
    assert_eq!(invalid_port(Some("-4567")), "invalid port: -4567");
    assert_eq!(invalid_port(Some("")), "invalid port: ");
    assert_eq!(invalid_port(None), "invalid port: UNKNOWN");
}

#[test]
fn fallback_notice_text() {
    assert_eq!(
        fallback("No such environment X", "abc123"),
        "No such environment X ... using default abc123"
    );
    assert_eq!(fallback("", ""), " ... using default ");
}

#[test]
fn fatal_texts() {
    assert_eq!(required_env("DATABASE_URL"), "Could not find required env: DATABASE_URL");
    assert_eq!(required_port("PORT"), "Invalid or missing port for: PORT");
}
