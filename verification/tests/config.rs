use amd::config::credentials;
use amd::config::log_plan;
use amd::config::parse_flag;
use amd::config::parse_number;
use amd::config::ConfigError;
use amd::text::push_signed;
use amd::text::push_unsigned;

#[test]
fn switch_is_true_or_false_and_nothing_else() {
    assert_eq!(parse_flag("true"), Some(true));
    assert_eq!(parse_flag("false"), Some(false));
    assert_eq!(parse_flag("True"), None);
    assert_eq!(parse_flag("1"), None);
    assert_eq!(parse_flag(" true"), None);
    assert_eq!(parse_flag(""), None);
}

#[test]
fn filter_in_production() {
    let plan = log_plan(Some("production"), Some("true"), "amd").unwrap();
    assert_eq!(plan.filter, "info");
    assert!(!plan.to_stdout);
    let plan = log_plan(Some("production"), Some("false"), "amd").unwrap();
    assert_eq!(plan.filter, "amd=info");
    assert!(!plan.to_stdout);
}

#[test]
fn filter_elsewhere() {
    let plan = log_plan(Some("development"), Some("true"), "amd").unwrap();
    assert_eq!(plan.filter, "trace");
    assert!(plan.to_stdout);
    let plan = log_plan(Some(""), Some("false"), "bot").unwrap();
    assert_eq!(plan.filter, "bot=trace");
    assert!(plan.to_stdout);
}

#[test]
fn log_settings_that_are_missing_or_malformed() {
    assert_eq!(log_plan(None, Some("true"), "amd").err(), Some(ConfigError::MissingEnvironment));
    assert_eq!(log_plan(None, None, "amd").err(), Some(ConfigError::MissingEnvironment));
    assert_eq!(log_plan(Some("production"), None, "amd").err(), Some(ConfigError::MissingDebugFlag));
    assert_eq!(
        log_plan(Some("production"), Some("yes"), "amd").err(),
        Some(ConfigError::MalformedDebugFlag)
    );
}

#[test]
fn numbers_are_decimal_digits_with_or_without_a_plus() {
    assert_eq!(parse_number("0"), Some(0));
    assert_eq!(parse_number("007"), Some(7));
    assert_eq!(parse_number("+15"), Some(15));
    assert_eq!(parse_number("764575524127244318"), Some(764575524127244318));
    assert_eq!(parse_number("18446744073709551615"), Some(u64::MAX));
    assert_eq!(parse_number("18446744073709551616"), None);
    assert_eq!(parse_number("99999999999999999999999"), None);
    assert_eq!(parse_number(""), None);
    assert_eq!(parse_number("+"), None);
    assert_eq!(parse_number("-1"), None);
    assert_eq!(parse_number("++1"), None);
    assert_eq!(parse_number("1+"), None);
    assert_eq!(parse_number("12a"), None);
    assert_eq!(parse_number(" 12"), None);
    assert_eq!(parse_number("١٢"), None);
}

#[test]
fn credentials_need_a_token_and_an_owner() {
    let ok = credentials(Some("SECRET-REDACTED"), Some("42")).unwrap();
    assert_eq!(ok.discord_token, "SECRET-REDACTED");
    assert_eq!(ok.owner_id, 42);
    assert_eq!(credentials(None, Some("42")).err(), Some(ConfigError::MissingToken));
    assert_eq!(credentials(Some("t"), None).err(), Some(ConfigError::MissingOwner));
    assert_eq!(credentials(Some("t"), Some("me")).err(), Some(ConfigError::MalformedOwner));
}

#[test]
fn numbers_are_written_in_decimal() {
    let mut out = String::from("n=");
    push_unsigned(&mut out, 0);
    out.push(',');
    push_unsigned(&mut out, 10);
    out.push(',');
    push_unsigned(&mut out, u64::MAX);
    assert_eq!(out, "n=0,10,18446744073709551615");
    let mut out = String::new();
    push_signed(&mut out, -1);
    out.push(',');
    push_signed(&mut out, i64::MIN);
    out.push(',');
    push_signed(&mut out, i64::MAX);
    out.push(',');
    push_signed(&mut out, 0);
    assert_eq!(out, "-1,-9223372036854775808,9223372036854775807,0");
}
