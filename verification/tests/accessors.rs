use envvars::message::{required_env, required_port};
use envvars::{
    env_default_notice, get_env, get_env_or_die, get_env_with_default, get_int, get_int_in_range,
    get_int_with_default, get_parsed, get_port, get_port_or_die, get_port_with_default, has_env,
    int_default_notice, Environment,
};

#[test]
pub fn test_has_env() {
    let key1 = "test_key::test_has_env::1";
    let key2 = "test_key::test_has_env::2";

    let mut env = Environment::new();
    env.set(key1, "hello");
    assert_eq!(has_env(&env, key1), true);
    assert_eq!(has_env(&env, key2), false);
}

#[test]
pub fn test_get_env() {
    let key1 = "test_key::test_get_env::1";
    let key2 = "test_key::test_get_env::2";

    let mut env = Environment::new();
    env.set(key1, "bar");
    env.set(key2, "world");
    let result: Result<String, String> = get_env(&env, key1);
    match result {
        Ok(v) => assert_eq!(v, "bar"),
        Err(_) => assert_eq!(true, false),
    };
}

#[test]
pub fn test_get_env_with_default() {
    let key = "test_key::test_get_env_with_default::1";
    let mut env = Environment::new();
    env.remove(key);
    let result1: String = get_env_with_default(&env, key, "abc123");
    assert_eq!(result1, "abc123");
    env.set(key, "bar");
    let result2: String = get_env_with_default(&env, key, "abc123");
    assert_eq!(result2, "bar");
}

#[test]
pub fn test_get_env_or_die() {
    let key1 = "test_key::test_get_env_or_die::1";
    let mut env = Environment::new();
    env.set(key1, "foo");
    assert_eq!(get_env_or_die(&env, key1), "foo");

    let key2 = "test_key::test_get_env_or_die::2";
    env.remove(key2);
    assert!(!has_env(&env, key2));
    assert_eq!(
        required_env(key2),
        "Could not find required env: test_key::test_get_env_or_die::2"
    );
    assert_eq!(get_env_or_die(&env, key1), "foo");
}

#[test]
pub fn test_get_port() {
    let mut env = Environment::new();

    let key1 = "test_key::test_get_port::1";
    env.set(key1, "4567");
    let result1: Result<u16, String> = get_port(&env, key1);
    assert_eq!(result1.unwrap(), 4567);

    let key2 = "test_key::test_get_port::2";
    env.set(key2, "-4567");
    let result2: Result<u16, String> = get_port(&env, key2);
    match result2 {
        Ok(_) => assert_eq!(true, false),
        Err(msg) => assert_eq!(msg, "invalid port: -4567"),
    };

    let key3 = "test_key::test_get_port::3";
    env.remove(key3);
    let result3: Result<u16, String> = get_port(&env, key3);
    match result3 {
        Ok(_) => assert_eq!(true, false),
        Err(msg) => assert_eq!(msg, "invalid port: UNKNOWN"),
    };
}

#[test]
pub fn test_get_parsed() {
    let mut env = Environment::new();

    let key1 = "test_key::test_get_parsed::1";
    env.set(key1, "-1");
    let result1: Result<i64, String> = get_int(&env, key1);
    assert_eq!(result1.unwrap(), -1);

    let key2 = "test_key::test_get_parsed::2";
    env.set(key2, "0");
    let result2: Result<i64, String> = get_int(&env, key2);
    assert_eq!(result2.unwrap(), 0);

    let key3 = "test_key::test_get_parsed::3";
    env.set(key3, "1234567890");
    let result3: Result<i64, String> = get_int(&env, key3);
    assert_eq!(result3.unwrap(), 1234567890);

    let key4 = "test_key::test_get_parsed::4";
    env.set(key4, "12.34");
    let result4: Result<i64, String> = get_int(&env, key4);
    match result4 {
        Ok(_) => assert_eq!(true, false),
        Err(msg) => assert_eq!(msg, "Failed to parse 12.34"),
    };

    let key5 = "test_key::test_get_parsed::5";
    env.set(key5, "trees");
    let result5: Result<i64, String> = get_int(&env, key5);
    match result5 {
        Ok(_) => assert_eq!(true, false),
        Err(msg) => assert_eq!(msg, "Failed to parse trees"),
    };
}

fn sample() -> Environment {
    let mut env = Environment::new();
    env.set("HOST", "localhost");
    env.set("EMPTY", "");
    env.set("WORKERS", "8");
    env.set("OFFSET", "-40");
    env.set("PORT", "8080");
    env.set("RATIO", "12.34");
    env.set("BIG_PORT", "65536");
    env
}

#[test]
fn lookup_of_unbound_key_fails_with_its_name() {
    let env = sample();
    assert_eq!(get_env(&env, "MISSING"), Err("No such environment MISSING".to_string()));
    assert_eq!(has_env(&env, "MISSING"), false);
    assert_eq!(get_env(&env, ""), Err("No such environment ".to_string()));
}

#[test]
fn lookup_of_bound_key_yields_exactly_its_value() {
    let env = sample();
    assert_eq!(get_env(&env, "HOST"), Ok("localhost".to_string()));
    assert_eq!(has_env(&env, "HOST"), true);
}

#[test]
fn empty_value_counts_as_present() {
    let env = sample();
    assert_eq!(get_env(&env, "EMPTY"), Ok(String::new()));
    assert_eq!(has_env(&env, "EMPTY"), true);
    assert_eq!(get_env_with_default(&env, "EMPTY", "fallback"), "");
    assert_eq!(get_env_or_die(&env, "EMPTY"), "");
}

#[test]
fn keys_match_exactly() {
    let env = sample();
    assert_eq!(has_env(&env, "host"), false);
    assert_eq!(has_env(&env, "HOST "), false);
    assert_eq!(has_env(&env, "HOS"), false);
}

#[test]
fn default_is_returned_verbatim_when_unset() {
    let env = sample();
    assert_eq!(get_env_with_default(&env, "MISSING", ""), "");
    assert_eq!(get_env_with_default(&env, "MISSING", " spaced out "), " spaced out ");
    assert_eq!(get_env_with_default(&env, "HOST", "other"), "localhost");
}

#[test]
fn notice_for_text_default() {
    let env = sample();
    assert_eq!(
        env_default_notice(&env, "MISSING", "abc123"),
        Some("No such environment MISSING ... using default abc123".to_string())
    );
    assert_eq!(env_default_notice(&env, "HOST", "abc123"), None);
}

#[test]
fn int_with_default() {
    let env = sample();
    assert_eq!(get_int_with_default(&env, "WORKERS", 3), 8);
    assert_eq!(get_int_with_default(&env, "MISSING", 3), 3);
    assert_eq!(get_int_with_default(&env, "RATIO", -3), -3);
    assert_eq!(get_int_with_default(&env, "EMPTY", i64::MIN), i64::MIN);
}

#[test]
fn notice_for_int_default() {
    let env = sample();
    assert_eq!(int_default_notice(&env, "WORKERS", 3), None);
    assert_eq!(
        int_default_notice(&env, "MISSING", 3),
        Some("No such environment MISSING ... using default 3".to_string())
    );
    assert_eq!(
        int_default_notice(&env, "RATIO", -17),
        Some("Failed to parse 12.34 ... using default -17".to_string())
    );
}

#[test]
fn get_int_reports_missing_key_as_lookup_does() {
    let env = sample();
    assert_eq!(get_int(&env, "MISSING"), Err("No such environment MISSING".to_string()));
    assert_eq!(get_int(&env, "MISSING").err(), get_env(&env, "MISSING").err());
}

#[test]
fn get_int_rejects_empty_and_padded_text() {
    let mut env = sample();
    assert_eq!(get_int(&env, "EMPTY"), Err("Failed to parse ".to_string()));
    env.set("PADDED", " 7");
    assert_eq!(get_int(&env, "PADDED"), Err("Failed to parse  7".to_string()));
    env.set("GROUPED", "1,000");
    assert_eq!(get_int(&env, "GROUPED"), Err("Failed to parse 1,000".to_string()));
}

#[test]
fn get_parsed_follows_the_target_type() {
    let env = sample();
    assert_eq!(get_parsed::<i64>(&env, "OFFSET"), Ok(-40));
    assert_eq!(get_parsed::<u16>(&env, "OFFSET"), Err("Failed to parse -40".to_string()));
    assert_eq!(get_parsed::<i64>(&env, "BIG_PORT"), Ok(65536));
    assert_eq!(get_parsed::<u16>(&env, "BIG_PORT"), Err("Failed to parse 65536".to_string()));
    assert_eq!(get_parsed::<u16>(&env, "PORT"), Ok(8080));
    assert_eq!(
        get_parsed::<u16>(&env, "MISSING"),
        Err("No such environment MISSING".to_string())
    );
}

#[test]
fn range_bounds_are_inclusive() {
    let env = sample();
    assert_eq!(get_int_in_range(&env, "WORKERS", 1, 16), Ok(8));
    assert_eq!(get_int_in_range(&env, "WORKERS", 8, 16), Ok(8));
    assert_eq!(get_int_in_range(&env, "WORKERS", 1, 8), Ok(8));
    assert_eq!(get_int_in_range(&env, "WORKERS", 8, 8), Ok(8));
    assert_eq!(get_int_in_range(&env, "OFFSET", -40, -40), Ok(-40));
    assert_eq!(get_int_in_range(&env, "OFFSET", i64::MIN, i64::MAX), Ok(-40));
}

#[test]
fn range_error_names_value_and_bounds() {
    let env = sample();
    assert_eq!(
        get_int_in_range(&env, "WORKERS", 9, 16),
        Err("8 is not in the range [9, 16]".to_string())
    );
    assert_eq!(
        get_int_in_range(&env, "WORKERS", 1, 7),
        Err("8 is not in the range [1, 7]".to_string())
    );
    assert_eq!(
        get_int_in_range(&env, "OFFSET", -39, 100),
        Err("-40 is not in the range [-39, 100]".to_string())
    );
    assert_eq!(
        get_int_in_range(&env, "WORKERS", 16, 1),
        Err("8 is not in the range [16, 1]".to_string())
    );
}

#[test]
fn range_passes_earlier_failures_on() {
    let env = sample();
    assert_eq!(
        get_int_in_range(&env, "MISSING", 0, 10),
        Err("No such environment MISSING".to_string())
    );
    assert_eq!(
        get_int_in_range(&env, "RATIO", 0, 10),
        Err("Failed to parse 12.34".to_string())
    );
}

#[test]
fn port_limits() {
    let mut env = sample();
    env.set("LOW", "0");
    env.set("HIGH", "65535");
    env.set("PLUS", "+443");
    assert_eq!(get_port(&env, "LOW"), Ok(0));
    assert_eq!(get_port(&env, "HIGH"), Ok(65535));
    assert_eq!(get_port(&env, "PLUS"), Ok(443));
    assert_eq!(get_port(&env, "BIG_PORT"), Err("invalid port: 65536".to_string()));
    assert_eq!(get_port(&env, "EMPTY"), Err("invalid port: ".to_string()));
    assert_eq!(get_port(&env, "HOST"), Err("invalid port: localhost".to_string()));
}

#[test]
fn port_named_unknown_reads_like_a_missing_one() {
    let mut env = Environment::new();
    env.set("P", "UNKNOWN");
    assert_eq!(get_port(&env, "P"), Err("invalid port: UNKNOWN".to_string()));
    assert_eq!(get_port(&env, "Q"), Err("invalid port: UNKNOWN".to_string()));
}

#[test]
fn port_with_default() {
    let env = sample();
    assert_eq!(get_port_with_default(&env, "PORT", 80), 8080);
    assert_eq!(get_port_with_default(&env, "MISSING", 80), 80);
    assert_eq!(get_port_with_default(&env, "BIG_PORT", 80), 80);
    assert_eq!(get_port_with_default(&env, "OFFSET", 0), 0);
}

#[test]
fn port_or_die_returns_a_readable_port() {
    let env = sample();
    assert_eq!(get_port_or_die(&env, "PORT"), 8080);
    assert!(get_port(&env, "MISSING").is_err());
    assert_eq!(required_port("MISSING"), "Invalid or missing port for: MISSING");
}

#[test]
fn repeated_calls_agree() {
    let env = sample();
    for key in ["HOST", "EMPTY", "WORKERS", "OFFSET", "PORT", "RATIO", "BIG_PORT", "MISSING"] {
        assert_eq!(get_env(&env, key), get_env(&env, key));
        assert_eq!(has_env(&env, key), has_env(&env, key));
        assert_eq!(get_int(&env, key), get_int(&env, key));
        assert_eq!(get_int_in_range(&env, key, 0, 10), get_int_in_range(&env, key, 0, 10));
        assert_eq!(get_port(&env, key), get_port(&env, key));
        assert_eq!(get_port_with_default(&env, key, 1), get_port_with_default(&env, key, 1));
        assert_eq!(get_env_with_default(&env, key, "d"), get_env_with_default(&env, key, "d"));
    }
}

#[test]
fn answers_follow_the_binding_alone() {
    let mut crowded = sample();
    crowded.set("EXTRA", "1");
    crowded.remove("HOST");
    let mut lone = Environment::new();
    lone.set("WORKERS", "8");
    assert_eq!(get_int(&crowded, "WORKERS"), get_int(&lone, "WORKERS"));
    assert_eq!(get_port(&crowded, "WORKERS"), get_port(&lone, "WORKERS"));
    assert_eq!(get_env(&crowded, "HOST"), get_env(&lone, "HOST"));
}
