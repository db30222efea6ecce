use postfix_ratelimit::config::Config;
use postfix_ratelimit::to_yes_or_no;

#[test]
fn defaults_match_the_documented_table() {
    let c = Config::default();
    assert_eq!(c.db_file, "");
    assert_eq!(c.socket, "inet:127.0.0.1:11847");
    assert_eq!(c.interval, 60);
    assert_eq!(c.limit, 20);
    assert_eq!(c.max_recipients, 20);
    assert!(c.count_recipients);
    assert!(!c.per_host);
    assert!(!c.use_sasl);
    assert_eq!(c.clean_interval, 120);
    assert_eq!(c.log_file, "");
    assert!(!c.debug);
    assert!(!c.reject_error);
}

#[test]
fn validate_message() {
    let c = Config::default();
    assert_eq!(
        c.validate(),
        Err("Required field \"db_file\" is missing from config or empty".to_string())
    );
}

#[test]
fn describe_defaults() {
    let c = Config::default();
    assert_eq!(
        c.describe(),
        "Interval: 60m\nLimit: 20\nSocket: inet:127.0.0.1:11847\nMax recipients: 20\n\
         Count recipients: Yes\nPer host: No\nUse SASL: No\nClean interval: 120m\nDebug mode: No\n\
         Reject errors: No\nLog file: No"
    );
}

#[test]
fn describe_with_database_and_log() {
    let mut c = Config::default();
    c.db_file = "/var/db/rl.db".to_string();
    c.log_file = "/var/log/rl.log".to_string();
    c.interval = 1234567;
    c.per_host = true;
    let s = c.describe();
    assert!(s.starts_with("Database: /var/db/rl.db\nInterval: 1234567m\n"));
    assert!(s.contains("\nPer host: Yes\nUse SASL: No\n"));
    assert!(s.ends_with("\nLog file: /var/log/rl.log"));
}

#[test]
fn describe_shows_sasl() {
    let mut c = Config::default();
    c.use_sasl = true;
    assert!(c.describe().contains("\nUse SASL: Yes\n"));
}

#[test]
fn window_seconds() {
    let mut c = Config::default();
    assert_eq!(c.window_seconds(), 3600);
    c.interval = 1;
    assert_eq!(c.window_seconds(), 60);
}

#[test]
fn yes_or_no() {
    assert_eq!(to_yes_or_no(true), "Yes");
    assert_eq!(to_yes_or_no(false), "No");
}

#[test]
fn log_file_only_when_named() {
    let mut c = Config::default();
    assert!(!c.logs_to_file());
    c.log_file = " \t ".to_string();
    assert!(!c.logs_to_file());
    c.log_file = " /var/log/x.log".to_string();
    assert!(c.logs_to_file());
}

#[test]
fn validate_accepts_a_database_path() {
    let mut c = Config::default();
    c.db_file = "/var/db/ratelimit.db".to_string();
    assert!(c.validate().is_ok());
}

#[test]
fn cleaning_schedule() {
    let mut c = Config::default();
    assert!(c.cleans());
    assert_eq!(c.clean_pause_seconds(), 7200);
    c.clean_interval = 0;
    assert!(!c.cleans());
    assert_eq!(c.clean_pause_seconds(), 0);
}
