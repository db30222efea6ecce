//! The per-sender counting window.
//!
//! Every (address, host key) pair owns one record: how many emails were
//! counted in its current window, and when that window opened.  A window
//! stays open for `window` seconds; a request that arrives later restarts it.
//! Counts live in a SQLite integer column, so a count above `i64::MAX`
//! cannot be stored.

use vstd::prelude::*;

verus! {

/// The stored state of one sender: the count of its current window and the
/// second at which that window opened.
#[derive(Clone, Copy, Debug, PartialEq, Eq, Structural)]
pub struct RateRecord {
    pub count: u64,
    pub time: i64,
}

/// One request to count `increment` emails at second `time`.
#[derive(Clone, Copy, Debug, PartialEq, Eq, Structural)]
pub struct Request {
    pub time: i64,
    pub increment: u64,
}

/// The window of `rec` has run out at second `now`.
pub open spec fn expired(rec: RateRecord, now: int, window: int) -> bool {
    now - rec.time > window
}

/// The record after `increment` more emails at second `now`, or `None` when
/// the new count does not fit a SQLite integer (the store keeps its old state).
pub open spec fn next_record(stored: Option<RateRecord>, now: i64, window: u64, increment: u64)
    -> Option<RateRecord>
{
    match stored {
        Some(rec) if !expired(rec, now as int, window as int) => {
            if rec.count + increment <= i64::MAX {
                Some(RateRecord { count: (rec.count + increment) as u64, time: rec.time })
            } else {
                None
            }
        },
        _ => {
            if increment <= i64::MAX {
                Some(RateRecord { count: increment, time: now })
            } else {
                None
            }
        },
    }
}

/// Whether the window of `rec` has run out at second `now`.
pub fn is_expired(rec: RateRecord, now: i64, window: u64) -> (r: bool)
    ensures
        r == expired(rec, now as int, window as int),
{
    (now as i128) - (rec.time as i128) > (window as i128)
}

/// Counts `increment` more emails at second `now` against the stored record:
/// a missing or expired record opens a new window holding `increment`; an
/// open window adds `increment` to its count and keeps its opening time.
pub fn advance(stored: Option<RateRecord>, now: i64, window: u64, increment: u64) -> (r: Option<
    RateRecord,
>)
    ensures
        r == next_record(stored, now, window, increment),
{
    let max: u64 = i64::MAX as u64;
    match stored {
        Some(rec) => {
            if !is_expired(rec, now, window) {
                if rec.count <= max && increment <= max - rec.count {
                    return Some(RateRecord { count: rec.count + increment, time: rec.time });
                } else {
                    return None;
                }
            }
        },
        None => {},
    }
    if increment <= max {
        Some(RateRecord { count: increment, time: now })
    } else {
        None
    }
}

/// The sum of the increments of `reqs`.
pub open spec fn total_increment(reqs: Seq<Request>) -> int
    decreases reqs.len(),
{
    if reqs.len() == 0 {
        0
    } else {
        reqs[0].increment + total_increment(reqs.drop_first())
    }
}

/// The sum of increments is never negative.
pub proof fn lemma_total_nonneg(reqs: Seq<Request>)
    ensures
        total_increment(reqs) >= 0,
    decreases reqs.len(),
{
    if reqs.len() > 0 {
        lemma_total_nonneg(reqs.drop_first());
    }
}

/// Every request of `reqs` arrives while the window opened at `start` is open.
pub open spec fn within_window(reqs: Seq<Request>, start: i64, window: u64) -> bool {
    forall|i: int| 0 <= i < reqs.len() ==> reqs[i].time - start <= window
}

/// The emails accepted among `reqs`, counted one request after the other
/// from `rec`; a request is accepted when its new count is at most `limit`.
pub open spec fn accepted_total(rec: RateRecord, reqs: Seq<Request>, window: u64, limit: u64) -> int
    decreases reqs.len(),
{
    if reqs.len() == 0 {
        0
    } else {
        let next = next_record(Some(rec), reqs[0].time, window, reqs[0].increment).unwrap();
        (if next.count <= limit {
            reqs[0].increment as int
        } else {
            0
        }) + accepted_total(next, reqs.drop_first(), window, limit)
    }
}

/// The first email of a sender opens a window at its own second and counts
/// its increment, exactly as if an empty window had been opened then.
pub proof fn law_first_request_opens_window(now: i64, window: u64, increment: u64)
    ensures
        next_record(None, now, window, increment) == next_record(
            Some(RateRecord { count: 0, time: now }),
            now,
            window,
            increment,
        ),
        increment <= i64::MAX ==> next_record(None, now, window, increment) == Some(
            RateRecord { count: increment, time: now },
        ),
{
}

/// Within one open window, two requests count as one request of their sum:
/// the count adds up and the window keeps its opening time.
pub proof fn law_counts_accumulate(
    rec: RateRecord,
    t1: i64,
    t2: i64,
    window: u64,
    a: u64,
    b: u64,
)
    requires
        t1 - rec.time <= window,
        t2 - rec.time <= window,
        rec.count + a + b <= i64::MAX,
    ensures
        next_record(next_record(Some(rec), t1, window, a), t2, window, b) == Some(
            RateRecord { count: (rec.count + a + b) as u64, time: rec.time },
        ),
{
}

/// Once the window has run out, the old count is forgotten: the request is
/// counted as the first of a new window opened at its own second.
pub proof fn law_window_restarts(rec: RateRecord, now: i64, window: u64, increment: u64)
    requires
        now - rec.time > window,
    ensures
        next_record(Some(rec), now, window, increment) == next_record(None, now, window, increment),
{
}

/// Removing a record whose window had run out at the time of cleaning changes
/// no later decision: any later request sees the same result as with no record.
pub proof fn law_cleaning_is_invisible(
    rec: RateRecord,
    cleaned_at: i64,
    now: i64,
    window: u64,
    increment: u64,
)
    requires
        cleaned_at - rec.time > window,
        cleaned_at <= now,
    ensures
        next_record(Some(rec), now, window, increment) == next_record(None, now, window, increment),
{
}

/// Within an open window the count never decreases, so a sender over the
/// limit stays over it until the window runs out.
pub proof fn law_over_limit_stays_over(rec: RateRecord, now: i64, window: u64, increment: u64, limit: u64)
    requires
        now - rec.time <= window,
        rec.count > limit,
    ensures
        next_record(Some(rec), now, window, increment) matches Some(r) ==> r.count > limit
            && r.count >= rec.count && r.time == rec.time,
{
}

/// The emails accepted while one window is open, together with those already
/// counted in it, never exceed the limit (or none is accepted at all).
pub proof fn law_window_bounds_accepted(rec: RateRecord, reqs: Seq<Request>, window: u64, limit: u64)
    requires
        within_window(reqs, rec.time, window),
        rec.count + total_increment(reqs) <= i64::MAX,
    ensures
        accepted_total(rec, reqs, window, limit) == 0 || rec.count + accepted_total(
            rec,
            reqs,
            window,
            limit,
        ) <= limit,
    decreases reqs.len(),
{
    if reqs.len() > 0 {
        lemma_total_nonneg(reqs.drop_first());
        let next = next_record(Some(rec), reqs[0].time, window, reqs[0].increment).unwrap();
        assert(reqs[0].time - rec.time <= window);
        assert(next.count == rec.count + reqs[0].increment);
        assert(next.time == rec.time);
        let rest = reqs.drop_first();
        assert(within_window(rest, next.time, window)) by {
            assert forall|i: int| 0 <= i < rest.len() implies rest[i].time - next.time <= window by {
                assert(rest[i] == reqs[i + 1]);
            }
        }
        law_window_bounds_accepted(next, rest, window, limit);
    }
}

/// The counts reported for `reqs`, one request after the other from
/// `stored`: each request's new count, or 0 when the count does not fit (the
/// store then keeps its old state).
pub open spec fn run_counts(stored: Option<RateRecord>, reqs: Seq<Request>, window: u64) -> Seq<int>
    decreases reqs.len(),
{
    if reqs.len() == 0 {
        Seq::empty()
    } else {
        let r = next_record(stored, reqs[0].time, window, reqs[0].increment);
        let count = match r {
            Some(x) => x.count as int,
            None => 0,
        };
        let after = match r {
            Some(_) => r,
            None => stored,
        };
        seq![count] + run_counts(after, reqs.drop_first(), window)
    }
}

/// Every request of `reqs` counts one email.
pub open spec fn all_single(reqs: Seq<Request>) -> bool {
    forall|i: int| 0 <= i < reqs.len() ==> reqs[i].increment == 1
}

proof fn lemma_single_counts(rec: RateRecord, reqs: Seq<Request>, window: u64)
    requires
        all_single(reqs),
        within_window(reqs, rec.time, window),
        rec.count + reqs.len() <= i64::MAX,
    ensures
        run_counts(Some(rec), reqs, window).len() == reqs.len(),
        forall|i: int|
            0 <= i < reqs.len() ==> #[trigger] run_counts(Some(rec), reqs, window)[i] == rec.count
                + i + 1,
    decreases reqs.len(),
{
    if reqs.len() > 0 {
        assert(reqs[0].increment == 1);
        assert(reqs[0].time - rec.time <= window);
        let next = RateRecord { count: (rec.count + 1) as u64, time: rec.time };
        assert(next_record(Some(rec), reqs[0].time, window, 1) == Some(next));
        let rest = reqs.drop_first();
        assert(all_single(rest)) by {
            assert forall|i: int| 0 <= i < rest.len() implies rest[i].increment == 1 by {
                assert(rest[i] == reqs[i + 1]);
            }
        }
        assert(within_window(rest, next.time, window)) by {
            assert forall|i: int| 0 <= i < rest.len() implies rest[i].time - next.time <= window by {
                assert(rest[i] == reqs[i + 1]);
            }
        }
        lemma_single_counts(next, rest, window);
        let counts = run_counts(Some(rec), reqs, window);
        assert(counts == seq![next.count as int] + run_counts(Some(next), rest, window));
        assert forall|i: int| 0 <= i < reqs.len() implies #[trigger] counts[i] == rec.count + i + 1 by {
            if i > 0 {
                assert(counts[i] == run_counts(Some(next), rest, window)[i - 1]);
            }
        }
    }
}

/// Single emails of one sender in one window, starting with no record or an
/// expired one: the `i`-th email (from 0) finds the count `i + 1`, so exactly
/// the first `limit` of them are within the limit and every later one is not.
pub proof fn law_first_emails_within_limit(
    stored: Option<RateRecord>,
    reqs: Seq<Request>,
    window: u64,
    limit: u64,
)
    requires
        reqs.len() > 0,
        stored matches Some(rec) ==> expired(rec, reqs[0].time as int, window as int),
        all_single(reqs),
        within_window(reqs, reqs[0].time, window),
        reqs.len() <= i64::MAX,
    ensures
        run_counts(stored, reqs, window).len() == reqs.len(),
        forall|i: int|
            0 <= i < reqs.len() ==> #[trigger] run_counts(stored, reqs, window)[i] == i + 1,
        forall|i: int|
            0 <= i < reqs.len() ==> (#[trigger] run_counts(stored, reqs, window)[i] <= limit
                <==> i < limit),
{
    assert(reqs[0].increment == 1);
    let first = RateRecord { count: 1, time: reqs[0].time };
    assert(next_record(stored, reqs[0].time, window, 1) == Some(first));
    let rest = reqs.drop_first();
    assert(all_single(rest)) by {
        assert forall|i: int| 0 <= i < rest.len() implies rest[i].increment == 1 by {
            assert(rest[i] == reqs[i + 1]);
        }
    }
    assert(within_window(rest, first.time, window)) by {
        assert forall|i: int| 0 <= i < rest.len() implies rest[i].time - first.time <= window by {
            assert(rest[i] == reqs[i + 1]);
        }
    }
    lemma_single_counts(first, rest, window);
    let counts = run_counts(stored, reqs, window);
    assert(counts == seq![1int] + run_counts(Some(first), rest, window));
    assert forall|i: int| 0 <= i < reqs.len() implies #[trigger] counts[i] == i + 1 by {
        if i > 0 {
            assert(counts[i] == run_counts(Some(first), rest, window)[i - 1]);
        }
    }
}

} // verus!
