use postfix_ratelimit::limiter::MAIL_PATTERN;
use postfix_ratelimit::Config;
use postfix_ratelimit::ConnectionData;
use postfix_ratelimit::EomStep;
use postfix_ratelimit::Limiter;
use postfix_ratelimit::Peer;
use postfix_ratelimit::Status;

fn limiter_with(f: impl FnOnce(&mut Config)) -> Limiter {
    let mut c = Config::default();
    c.db_file = "/tmp/rl.db".to_string();
    f(&mut c);
    Limiter::new(c).unwrap()
}

fn arg(s: &str) -> Vec<String> {
    vec![s.to_string()]
}

#[test]
fn pattern_compiles() {
    assert!(regex::Regex::new(MAIL_PATTERN).is_ok());
    assert!(Limiter::new(Config::default()).is_ok());
}

#[test]
fn address_is_picked_out_of_the_argument() {
    let l = limiter_with(|_| {});
    assert_eq!(
        l.email_regex(Some("<alice@example.com>".to_string())),
        Some("alice@example.com".to_string())
    );
    assert_eq!(l.email_regex(Some("<>".to_string())), None);
    assert_eq!(l.email_regex(None), None);
}

#[test]
fn connect_starts_a_session() {
    let l = limiter_with(|_| {});
    let mut data = None;
    assert_eq!(l.handle_connect(&mut data, Peer::Inet("10.0.0.1".to_string())), Status::Continue);
    let d = data.as_ref().unwrap();
    assert_eq!(d.host, "10.0.0.1");
    assert!(d.sender.is_none());
    assert!(d.recipients.is_empty());
    l.handle_connect(&mut data, Peer::Other);
    assert_eq!(data.as_ref().unwrap().host, "Unknown");
    l.handle_connect(&mut data, Peer::Unix("/run/pf.sock".to_string()));
    assert_eq!(data.as_ref().unwrap().host, "/run/pf.sock");
}

#[test]
fn mail_sets_the_sender() {
    let l = limiter_with(|_| {});
    let mut data = None;
    l.handle_connect(&mut data, Peer::Inet("10.0.0.1".to_string()));
    assert_eq!(l.handle_mail(&mut data, &arg("<bob@mail.example.org>")), Status::Continue);
    assert_eq!(data.as_ref().unwrap().sender, Some("bob@mail.example.org".to_string()));
    let mut none: Option<ConnectionData> = None;
    assert_eq!(l.handle_mail(&mut none, &arg("<bob@example.org>")), Status::Continue);
    assert!(none.is_none());
}

#[test]
fn recipients_beyond_the_maximum_are_rejected() {
    let l = limiter_with(|c| c.max_recipients = 2);
    let mut data = None;
    l.handle_connect(&mut data, Peer::Inet("10.0.0.1".to_string()));
    assert_eq!(l.handle_rcpt(&mut data, &arg("<a@x.org>")), Status::Continue);
    assert_eq!(l.handle_rcpt(&mut data, &arg("<no address>")), Status::Continue);
    assert_eq!(l.handle_rcpt(&mut data, &arg("<b@x.org>")), Status::Continue);
    assert_eq!(l.handle_rcpt(&mut data, &arg("<c@x.org>")), Status::Reject);
    assert_eq!(data.as_ref().unwrap().recipients.len(), 3);
}

#[test]
fn zero_maximum_means_no_limit() {
    let l = limiter_with(|c| c.max_recipients = 0);
    let mut data = None;
    l.handle_connect(&mut data, Peer::Inet("10.0.0.1".to_string()));
    for i in 0..50 {
        let a = format!("<u{}@x.org>", i);
        assert_eq!(l.handle_rcpt(&mut data, &arg(&a)), Status::Continue);
    }
}

#[test]
fn eom_without_sender() {
    let lenient = limiter_with(|_| {});
    let strict = limiter_with(|c| c.reject_error = true);
    assert!(matches!(lenient.handle_eom(&None, None), EomStep::Done(Status::Continue)));
    assert!(matches!(strict.handle_eom(&None, None), EomStep::Done(Status::Reject)));
    let mut data = None;
    lenient.handle_connect(&mut data, Peer::Inet("10.0.0.1".to_string()));
    assert!(matches!(lenient.handle_eom(&data, None), EomStep::Done(Status::Continue)));
    assert!(matches!(strict.handle_eom(&data, None), EomStep::Done(Status::Reject)));
}

fn session(l: &Limiter, recipients: usize) -> Option<ConnectionData> {
    let mut data = None;
    l.handle_connect(&mut data, Peer::Inet("192.0.2.7".to_string()));
    l.handle_mail(&mut data, &arg("<sender@example.com>"));
    for i in 0..recipients {
        l.handle_rcpt(&mut data, &arg(&format!("<r{}@example.net>", i)));
    }
    data
}

#[test]
fn eom_counts_recipients() {
    let l = limiter_with(|c| c.interval = 2);
    match l.handle_eom(&session(&l, 3), None) {
        EomStep::Check(c) => {
            assert_eq!(c.address, "sender@example.com");
            assert_eq!(c.host_key, "global");
            assert_eq!(c.increment, 3);
        }
        EomStep::Done(_) => panic!("expected a check"),
    }
    match l.handle_eom(&session(&l, 1), None) {
        EomStep::Check(c) => assert_eq!(c.increment, 1),
        EomStep::Done(_) => panic!("expected a check"),
    }
    match l.handle_eom(&session(&l, 0), None) {
        EomStep::Check(c) => assert_eq!(c.increment, 1),
        EomStep::Done(_) => panic!("expected a check"),
    }
}

#[test]
fn eom_without_recipient_counting() {
    let l = limiter_with(|c| {
        c.count_recipients = false;
        c.per_host = true;
    });
    match l.handle_eom(&session(&l, 4), None) {
        EomStep::Check(c) => {
            assert_eq!(c.increment, 1);
            assert_eq!(c.host_key, "192.0.2.7");
        }
        EomStep::Done(_) => panic!("expected a check"),
    }
}

#[test]
fn window_is_interval_in_seconds() {
    let l = limiter_with(|c| c.interval = 2);
    assert_eq!(l.window(), 120);
}

#[test]
fn each_message_starts_without_recipients() {
    let l = limiter_with(|c| c.max_recipients = 1);
    let mut data = session(&l, 1);
    assert!(matches!(l.handle_eom(&data, None), EomStep::Check(c) if c.increment == 1));
    assert_eq!(l.handle_mail(&mut data, &arg("<sender@example.com>")), Status::Continue);
    assert!(data.as_ref().unwrap().recipients.is_empty());
    assert_eq!(l.handle_rcpt(&mut data, &arg("<x@example.net>")), Status::Continue);
    assert_eq!(l.handle_rcpt(&mut data, &arg("<y@example.net>")), Status::Reject);
}

#[test]
fn second_message_counts_only_its_own_recipients() {
    let l = limiter_with(|_| {});
    let mut data = session(&l, 1);
    l.handle_mail(&mut data, &arg("<sender@example.com>"));
    l.handle_rcpt(&mut data, &arg("<x@example.net>"));
    l.handle_rcpt(&mut data, &arg("<y@example.net>"));
    match l.handle_eom(&data, None) {
        EomStep::Check(c) => assert_eq!(c.increment, 2),
        EomStep::Done(_) => panic!("expected a check"),
    }
}

#[test]
fn sasl_user_is_counted_when_enabled() {
    let l = limiter_with(|c| c.use_sasl = true);
    let data = session(&l, 2);
    match l.handle_eom(&data, Some("alice".to_string())) {
        EomStep::Check(c) => {
            assert_eq!(c.address, "alice");
            assert_eq!(c.increment, 2);
        }
        EomStep::Done(_) => panic!("expected a check"),
    }
    assert!(matches!(l.handle_eom(&data, None), EomStep::Done(Status::Continue)));
    assert!(matches!(
        l.handle_eom(&data, Some(String::new())),
        EomStep::Done(Status::Continue)
    ));
    let strict = limiter_with(|c| {
        c.use_sasl = true;
        c.reject_error = true;
    });
    assert!(matches!(strict.handle_eom(&data, None), EomStep::Done(Status::Reject)));
    let plain = limiter_with(|_| {});
    match plain.handle_eom(&data, Some("alice".to_string())) {
        EomStep::Check(c) => assert_eq!(c.address, "sender@example.com"),
        EomStep::Done(_) => panic!("expected a check"),
    }
}

#[test]
fn address_is_a_piece_of_the_argument() {
    let l = limiter_with(|_| {});
    let a = "From: Someone <someone@example.org> (ok)".to_string();
    let m = l.email_regex(Some(a.clone())).unwrap();
    assert!(a.contains(&m));
    assert_eq!(m, "someone@example.org");
}

#[test]
fn verdict_follows_the_limit() {
    let l = limiter_with(|c| c.limit = 20);
    assert_eq!(l.allowed(20), (true, 20));
    assert_eq!(l.allowed(21), (false, 21));
    assert_eq!(l.finish_eom(1), Status::Accept);
    assert_eq!(l.finish_eom(20), Status::Accept);
    assert_eq!(l.finish_eom(21), Status::Reject);
    assert_eq!(l.finish_eom(0), Status::Accept);
    let strict = limiter_with(|c| c.reject_error = true);
    assert_eq!(strict.finish_eom(0), Status::Reject);
    assert_eq!(strict.finish_eom(3), Status::Accept);
}

#[test]
fn config_is_kept() {
    let l = limiter_with(|c| c.limit = 7);
    assert_eq!(l.config().limit, 7);
}

fn count_in(
    store: &mut std::collections::HashMap<(String, String), postfix_ratelimit::RateRecord>,
    l: &Limiter,
    host: &str,
    now: i64,
    n: u64,
) -> u64 {
    let check = l.rate_check(&"e@example.com".to_string(), &host.to_string(), n);
    let key = (check.address.clone(), check.host_key.clone());
    let r = postfix_ratelimit::advance(store.get(&key).copied(), now, l.window(), check.increment)
        .unwrap();
    store.insert(key, r);
    r.count
}

#[test]
fn hosts_share_a_count_unless_per_host() {
    let shared = limiter_with(|_| {});
    let mut store = std::collections::HashMap::new();
    assert_eq!(count_in(&mut store, &shared, "10.0.0.1", 100, 2), 2);
    assert_eq!(count_in(&mut store, &shared, "10.0.0.2", 200, 3), 5);
    let split = limiter_with(|c| c.per_host = true);
    let mut store = std::collections::HashMap::new();
    assert_eq!(count_in(&mut store, &split, "10.0.0.1", 100, 2), 2);
    assert_eq!(count_in(&mut store, &split, "10.0.0.2", 200, 3), 3);
}

#[test]
fn recording_given_addresses() {
    let l = limiter_with(|c| c.max_recipients = 2);
    let mut data = None;
    l.handle_connect(&mut data, Peer::Other);
    assert_eq!(l.record_sender(&mut data, Some("s@x.org".to_string())), Status::Continue);
    assert_eq!(data.as_ref().unwrap().sender, Some("s@x.org".to_string()));
    assert_eq!(l.record_recipient(&mut data, Some("a".to_string())), Status::Continue);
    assert_eq!(l.record_recipient(&mut data, None), Status::Continue);
    assert_eq!(l.record_recipient(&mut data, Some("b".to_string())), Status::Continue);
    assert_eq!(l.record_recipient(&mut data, Some("c".to_string())), Status::Reject);
    assert_eq!(data.as_ref().unwrap().recipients, vec!["a", "b", "c"]);
    assert_eq!(l.record_sender(&mut data, None), Status::Continue);
    assert!(data.as_ref().unwrap().recipients.is_empty());
    assert_eq!(data.as_ref().unwrap().sender, None);
}

#[test]
fn counting_step_updates_the_record_and_decides() {
    let l = limiter_with(|c| {
        c.limit = 3;
        c.interval = 1;
    });
    let (r, ok) = l.count_step(None, 1000, 2).unwrap();
    assert_eq!(r, postfix_ratelimit::RateRecord { count: 2, time: 1000 });
    assert!(ok);
    let (r, ok) = l.count_step(Some(r), 1060, 2).unwrap();
    assert_eq!(r, postfix_ratelimit::RateRecord { count: 4, time: 1000 });
    assert!(!ok);
    let (r, ok) = l.count_step(Some(r), 1061, 1).unwrap();
    assert_eq!(r, postfix_ratelimit::RateRecord { count: 1, time: 1061 });
    assert!(ok);
    let full = postfix_ratelimit::RateRecord { count: i64::MAX as u64, time: 1061 };
    assert_eq!(l.count_step(Some(full), 1062, 1), None);
}

#[test]
fn first_limit_single_emails_are_allowed() {
    let l = limiter_with(|c| c.limit = 2);
    let mut stored = None;
    let mut verdicts = Vec::new();
    for t in 0..5i64 {
        let (r, ok) = l.count_step(stored, 100 + t, 1).unwrap();
        verdicts.push(ok);
        stored = Some(r);
    }
    assert_eq!(verdicts, vec![true, true, false, false, false]);
}
