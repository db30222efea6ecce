use postfix_ratelimit::cli::config_locations;
use postfix_ratelimit::CommandLine;
use postfix_ratelimit::Config;
use postfix_ratelimit::LimiterSignals;
use postfix_ratelimit::ListenSpec;
use postfix_ratelimit::UnixSignal;

fn args(v: &[&str]) -> Vec<String> {
    v.iter().map(|s| s.to_string()).collect()
}

#[test]
fn options_are_read() {
    let cl = CommandLine::parse(&args(&["prog", "--debug", "--config=  /tmp/x.conf \n"]));
    assert!(cl.debug);
    assert!(!cl.help);
    assert_eq!(cl.config_path, Some("/tmp/x.conf".to_string()));
}

#[test]
fn first_config_option_wins_and_repeated_prefix_is_removed() {
    let cl = CommandLine::parse(&args(&[
        "prog",
        "--config=--config=/a.conf",
        "--config=/b.conf",
        "--help",
    ]));
    assert!(cl.help);
    assert_eq!(cl.config_path, Some("/a.conf".to_string()));
}

#[test]
fn no_options() {
    let cl = CommandLine::parse(&args(&["prog", "--helpme", "-config=/x"]));
    assert!(!cl.help);
    assert!(!cl.debug);
    assert_eq!(cl.config_path, None);
}

#[test]
fn socket_option_overrides_the_setting() {
    let cl = CommandLine::parse(&args(&["prog", "--socket= unix:/run/rl.sock"]));
    assert_eq!(cl.socket, Some("unix:/run/rl.sock".to_string()));
    let mut c = Config::default();
    cl.apply(&mut c);
    assert_eq!(c.socket, "unix:/run/rl.sock");
    assert_eq!(c.limit, 20);
    let none = CommandLine::parse(&args(&["prog"]));
    assert_eq!(none.socket, None);
    let mut d = Config::default();
    none.apply(&mut d);
    assert_eq!(d.socket, "inet:127.0.0.1:11847");
}

#[test]
fn debug_logging_from_either_source() {
    let mut c = Config::default();
    let quiet = CommandLine::parse(&args(&["prog"]));
    let loud = CommandLine::parse(&args(&["prog", "--debug"]));
    assert!(!quiet.debug_logging(&c));
    assert!(loud.debug_logging(&c));
    c.debug = true;
    assert!(quiet.debug_logging(&c));
}

#[test]
fn default_locations() {
    assert_eq!(
        config_locations(),
        vec![
            "/etc/postfix_ratelimit.conf".to_string(),
            "/usr/local/etc/postfix_ratelimit.conf".to_string()
        ]
    );
}

#[test]
fn sockets() {
    assert!(matches!(ListenSpec::parse("unix:/run/rl.sock"), Some(ListenSpec::Unix(p)) if p == "/run/rl.sock"));
    assert!(matches!(ListenSpec::parse("inet:127.0.0.1:11847"), Some(ListenSpec::Inet(a)) if a == "127.0.0.1:11847"));
    assert!(matches!(ListenSpec::parse("unix:unix:/x"), Some(ListenSpec::Unix(p)) if p == "/x"));
    assert!(ListenSpec::parse("tcp:127.0.0.1:1").is_none());
    assert!(ListenSpec::parse("").is_none());
}

#[test]
fn signals_follow_the_documentation() {
    assert_eq!(LimiterSignals::from_signal(UnixSignal::User1), LimiterSignals::CONFIG);
    assert_eq!(LimiterSignals::from_signal(UnixSignal::User2), LimiterSignals::CLEAR_DB);
    assert_eq!(LimiterSignals::from_signal(UnixSignal::Hangup), LimiterSignals::RELOAD);
    assert_eq!(LimiterSignals::from_signal(UnixSignal::Interrupt), LimiterSignals::STOP);
    assert_eq!(LimiterSignals::from_signal(UnixSignal::Quit), LimiterSignals::STOP);
    assert_eq!(LimiterSignals::from_signal(UnixSignal::Terminate), LimiterSignals::STOP);
}
