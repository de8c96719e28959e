use hyprzoom::{
    check_duration, parse_duration, parse_log_level, parse_steps, ConfigError, LogLevel,
    MIN_DURATION_NANOS, MIN_STEPS,
};

#[test]
fn log_level_names_any_case() {
    assert_eq!(parse_log_level("info"), Ok(LogLevel::Info));
    assert_eq!(parse_log_level("INFO"), Ok(LogLevel::Info));
    assert_eq!(parse_log_level("Trace"), Ok(LogLevel::Trace));
    assert_eq!(parse_log_level("off"), Ok(LogLevel::Off));
    assert_eq!(parse_log_level("error"), Ok(LogLevel::Error));
    assert_eq!(parse_log_level("wArN"), Ok(LogLevel::Warn));
    assert_eq!(parse_log_level("debug"), Ok(LogLevel::Debug));
}

#[test]
fn log_level_unknown_is_rejected() {
    assert_eq!(parse_log_level("verbose"), Err(ConfigError::InvalidLogLevel));
    assert_eq!(parse_log_level(""), Err(ConfigError::InvalidLogLevel));
    assert_eq!(parse_log_level(" info"), Err(ConfigError::InvalidLogLevel));
}

#[test]
fn steps_accept_decimal_numbers() {
    assert_eq!(parse_steps("15"), Ok(15));
    assert_eq!(parse_steps("1"), Ok(MIN_STEPS));
    assert_eq!(parse_steps("+3"), Ok(3));
    assert_eq!(parse_steps("007"), Ok(7));
}

#[test]
fn steps_below_floor_rejected() {
    assert_eq!(parse_steps("0"), Err(ConfigError::TooFewSteps));
}

#[test]
fn steps_not_a_number_rejected() {
    assert_eq!(parse_steps("abc"), Err(ConfigError::InvalidSteps));
    assert_eq!(parse_steps(""), Err(ConfigError::InvalidSteps));
    assert_eq!(parse_steps(" 3"), Err(ConfigError::InvalidSteps));
    assert_eq!(parse_steps("-1"), Err(ConfigError::InvalidSteps));
    assert_eq!(parse_steps("+"), Err(ConfigError::InvalidSteps));
    assert_eq!(
        parse_steps("99999999999999999999999999"),
        Err(ConfigError::InvalidSteps)
    );
}

#[test]
fn durations_with_units() {
    assert_eq!(parse_duration("250ms"), Ok(250_000_000));
    assert_eq!(parse_duration("1s"), Ok(1_000_000_000));
    assert_eq!(parse_duration("1ms"), Ok(MIN_DURATION_NANOS));
    assert_eq!(parse_duration("2 minutes"), Ok(120_000_000_000));
}

#[test]
fn durations_below_floor_rejected() {
    assert_eq!(parse_duration("0ms"), Err(ConfigError::DurationTooShort));
    assert_eq!(parse_duration("500us"), Err(ConfigError::DurationTooShort));
}

#[test]
fn durations_unparseable_rejected() {
    assert_eq!(parse_duration("soon"), Err(ConfigError::InvalidDuration));
    assert_eq!(parse_duration(""), Err(ConfigError::InvalidDuration));
}

#[test]
fn duration_floor_check() {
    assert_eq!(check_duration(999_999), Err(ConfigError::DurationTooShort));
    assert_eq!(check_duration(1_000_000), Ok(1_000_000));
    assert_eq!(check_duration(0), Err(ConfigError::DurationTooShort));
}
