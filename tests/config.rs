use pertaasr::config::{parse_args, parse_u64, ConfigError, DEFAULT_BATCH_SIZE};

fn args(list: &[&str]) -> Vec<String> {
    list.iter().map(|s| s.to_string()).collect()
}

#[test]
fn reads_three_positional_arguments() {
    let cfg = parse_args(&args(&["bench", "127.0.0.1:8080", "30", "64"])).unwrap();
    assert_eq!(cfg.target, "127.0.0.1:8080");
    assert_eq!(cfg.duration_secs, 30);
    assert_eq!(cfg.connections, 64);
    assert_eq!(cfg.batch_size, DEFAULT_BATCH_SIZE);
    assert_eq!(DEFAULT_BATCH_SIZE, 128);
}

#[test]
fn missing_arguments() {
    assert_eq!(parse_args(&args(&["bench", "h:1", "5"])).unwrap_err(), ConfigError::MissingArguments);
    assert_eq!(parse_args(&args(&[])).unwrap_err(), ConfigError::MissingArguments);
}

#[test]
fn invalid_duration() {
    assert_eq!(parse_args(&args(&["bench", "h:1", "ten", "4"])).unwrap_err(), ConfigError::InvalidDuration);
    assert_eq!(parse_args(&args(&["bench", "h:1", "-1", "4"])).unwrap_err(), ConfigError::InvalidDuration);
}

#[test]
fn invalid_connection_count() {
    assert_eq!(parse_args(&args(&["bench", "h:1", "1", "x"])).unwrap_err(), ConfigError::InvalidConnectionCount);
    assert_eq!(parse_args(&args(&["bench", "h:1", "1", "0"])).unwrap_err(), ConfigError::InvalidConnectionCount);
    assert_eq!(ConfigError::InvalidConnectionCount.message(), "Invalid connection count");
}

#[test]
fn parses_like_std() {
    for text in ["0", "7", "+5", "", "+", "-1", "12a", " 1", "007", "18446744073709551615",
        "18446744073709551616", "99999999999999999999999"] {
        assert_eq!(parse_u64(text), text.parse::<u64>().ok(), "{}", text);
    }
}
