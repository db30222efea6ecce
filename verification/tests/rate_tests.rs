use postfix_ratelimit::rate::advance;
use postfix_ratelimit::rate::is_expired;
use postfix_ratelimit::rate::RateRecord;

#[test]
fn first_email_opens_a_window() {
    assert_eq!(
        advance(None, 1000, 3600, 1),
        Some(RateRecord { count: 1, time: 1000 })
    );
    assert_eq!(
        advance(None, 1000, 3600, 4),
        Some(RateRecord { count: 4, time: 1000 })
    );
}

#[test]
fn counts_accumulate_within_the_window() {
    let r1 = advance(None, 1000, 3600, 2).unwrap();
    let r2 = advance(Some(r1), 2000, 3600, 3).unwrap();
    assert_eq!(r2, RateRecord { count: 5, time: 1000 });
    let r3 = advance(Some(r2), 4600, 3600, 1).unwrap();
    assert_eq!(r3, RateRecord { count: 6, time: 1000 });
}

#[test]
fn window_restarts_after_the_interval() {
    let r = RateRecord { count: 50, time: 1000 };
    assert_eq!(
        advance(Some(r), 4601, 3600, 2),
        Some(RateRecord { count: 2, time: 4601 })
    );
    assert!(is_expired(r, 4601, 3600));
    assert!(!is_expired(r, 4600, 3600));
}

#[test]
fn cleaned_record_gives_the_same_result() {
    let r = RateRecord { count: 9, time: 0 };
    assert!(is_expired(r, 200, 100));
    assert_eq!(advance(Some(r), 300, 100, 1), advance(None, 300, 100, 1));
}

#[test]
fn count_that_does_not_fit_is_refused() {
    let r = RateRecord { count: i64::MAX as u64, time: 0 };
    assert_eq!(advance(Some(r), 1, 100, 1), None);
    assert_eq!(advance(None, 1, 100, u64::MAX), None);
}

#[test]
fn accepted_emails_in_one_window_stay_within_the_limit() {
    let limit = 5u64;
    let mut stored = None;
    let mut accepted = 0u64;
    for (t, inc) in [(0i64, 2u64), (10, 2), (20, 2), (30, 1), (40, 1), (50, 3)] {
        let r = advance(stored, t, 3600, inc).unwrap();
        if r.count <= limit {
            accepted += inc;
        }
        stored = Some(r);
    }
    assert_eq!(accepted, 4);
    assert!(accepted <= limit);
}

#[test]
fn exactly_the_first_limit_single_emails_are_within_it() {
    let limit = 3u64;
    let mut stored = Some(RateRecord { count: 40, time: 0 });
    let mut within = Vec::new();
    for t in 5000i64..5008 {
        let r = advance(stored, t, 3600, 1).unwrap();
        within.push(r.count <= limit);
        stored = Some(r);
    }
    assert_eq!(within, vec![true, true, true, false, false, false, false, false]);
}
