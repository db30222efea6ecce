//! The decisions the milter takes for one SMTP session.
//!
//! A session runs through `connect`, `mail`, `rcpt` (once per recipient)
//! and end-of-message; `mail` starts a new message on the connection.  The
//! session's data lives with the caller, who passes it to each stage.  At
//! end-of-message the limiter names the count to add to the sender's window;
//! the caller reads the sender's record from the store, lets
//! [`Limiter::count_step`] compute the new record and the verdict, writes the
//! record back and hands the new count to [`Limiter::finish_eom`].

use vstd::prelude::*;

use crate::config::Config;
use crate::config::ConfigModel;
use crate::mail::regex_compiles;
use crate::mail::regex_first_match;
use crate::mail::MailPattern;
use crate::rate::all_single;
use crate::rate::expired;
use crate::rate::law_first_emails_within_limit;
use crate::rate::lemma_total_nonneg;
use crate::rate::next_record;
use crate::rate::run_counts;
use crate::rate::total_increment;
use crate::rate::within_window;
use crate::rate::advance;
use crate::rate::RateRecord;
use crate::rate::Request;

verus! {

/// The expression that picks an email address out of an SMTP argument.
pub const MAIL_PATTERN: &'static str = r#"(?:[a-z0-9!#$%&'*+/=?^_`{|}~-]+(?:\.[a-z0-9!#$%&'*+/=?^_`{|}~-]+)*|"(?:[\x01-\x08\x0b\x0c\x0e-\x1f\x21\x23-\x5b\x5d-\x7f]|\\[\x01-\x09\x0b\x0c\x0e-\x7f])*")@(?:(?:[a-z0-9](?:[a-z0-9-]*[a-z0-9])?\.)+[a-z0-9](?:[a-z0-9-]*[a-z0-9])?|\[(?:(?:25[0-5]|2[0-4][0-9]|[01]?[0-9][0-9]?)\.){3}(?:25[0-5]|2[0-4][0-9]|[01]?[0-9][0-9]?|[a-z0-9-]*[a-z0-9]:(?:[\x01-\x08\x0b\x0c\x0e-\x1f\x21-\x5a\x53-\x7f]|\\[\x01-\x09\x0b\x0c\x0e-\x7f])+)\])"#;

/// The answer to the mail server at one stage.
#[derive(Clone, Copy, Debug, PartialEq, Eq, Structural)]
pub enum Status {
    Continue,
    Accept,
    Reject,
}

/// Where a connection comes from.
pub enum Peer {
    /// A TCP peer, by the text of its IP address.
    Inet(String),
    /// A peer on a Unix socket, by the socket's path.
    Unix(String),
    /// Any other kind of peer.
    Other,
}

/// What is known of an SMTP session so far.
pub struct ConnectionData {
    pub sender: Option<String>,
    pub recipients: Vec<String>,
    pub host: String,
}

/// The mathematical form of [`ConnectionData`].
#[verifier::ext_equal]
pub struct SessionModel {
    pub sender: Option<Seq<char>>,
    pub recipients: Seq<Seq<char>>,
    pub host: Seq<char>,
}

pub open spec fn option_text(o: Option<String>) -> Option<Seq<char>> {
    match o {
        Some(s) => Some(s@),
        None => None,
    }
}

impl View for ConnectionData {
    type V = SessionModel;

    open spec fn view(&self) -> SessionModel {
        SessionModel {
            sender: option_text(self.sender),
            recipients: self.recipients@.map_values(|r: String| r@),
            host: self.host@,
        }
    }
}

/// The session model of an optional session.
pub open spec fn session(o: Option<ConnectionData>) -> Option<SessionModel> {
    match o {
        Some(d) => Some(d@),
        None => None,
    }
}

/// The host text recorded for a peer.
pub open spec fn peer_host(peer: Peer) -> Seq<char> {
    match peer {
        Peer::Inet(ip) => ip@,
        Peer::Unix(path) => path@,
        Peer::Other => "Unknown"@,
    }
}

/// The first argument of an SMTP command, if any.
pub open spec fn first_arg(args: Seq<String>) -> Option<Seq<char>> {
    if args.len() > 0 {
        Some(args[0]@)
    } else {
        None
    }
}

/// The address found in `arg` by the expression `pattern`.
pub open spec fn address_in(pattern: Seq<char>, arg: Option<Seq<char>>) -> Option<Seq<char>> {
    match arg {
        Some(a) => regex_first_match(pattern, a),
        None => None,
    }
}

/// The session after one more recipient: an address found is appended.
pub open spec fn add_recipient(s: SessionModel, found: Option<Seq<char>>) -> SessionModel {
    match found {
        Some(a) => SessionModel { recipients: s.recipients.push(a), ..s },
        None => s,
    }
}

/// A message has more recipients than the configuration allows.
pub open spec fn too_many_recipients(c: ConfigModel, n: int) -> bool {
    c.max_recipients != 0 && n > c.max_recipients
}

/// How many emails a message counts for: one per recipient when recipients
/// are counted and there are several, else one.
pub open spec fn message_weight(c: ConfigModel, recipients: int) -> int {
    if recipients > 1 && c.count_recipients {
        recipients
    } else {
        1
    }
}

/// The host under which a sender is counted.
pub open spec fn host_key(c: ConfigModel, host: Seq<char>) -> Seq<char> {
    if c.per_host {
        host
    } else {
        "global"@
    }
}

/// The answer when a message cannot be processed.
pub open spec fn error_status(c: ConfigModel) -> Status {
    if c.reject_error {
        Status::Reject
    } else {
        Status::Continue
    }
}

/// The answer at end-of-message, given the sender's new count.
pub open spec fn count_status(c: ConfigModel, emails: u64) -> Status {
    if emails == 0 && c.reject_error {
        Status::Reject
    } else if emails <= c.limit {
        Status::Accept
    } else {
        Status::Reject
    }
}

/// The answer to `RCPT TO` once the message has `n` recipients.
pub open spec fn rcpt_status(c: ConfigModel, n: int) -> Status {
    if too_many_recipients(c, n) {
        Status::Reject
    } else {
        Status::Continue
    }
}

/// The SASL user, when one is given and not empty.
pub open spec fn sasl_identity(sasl: Option<Seq<char>>) -> Option<Seq<char>> {
    match sasl {
        Some(u) => if u.len() > 0 {
            Some(u)
        } else {
            None
        },
        None => None,
    }
}

/// Whom a message is counted for: the SASL user when `use_sasl` is set, else
/// the sender; `None` when that identity is unknown.
pub open spec fn counted_identity(c: ConfigModel, s: SessionModel, sasl: Option<Seq<char>>) -> Option<
    Seq<char>,
> {
    if c.use_sasl {
        sasl_identity(sasl)
    } else {
        s.sender
    }
}

/// The record kept for `address` under the host key `key`, if any.
pub open spec fn stored_at(
    store: Map<(Seq<char>, Seq<char>), RateRecord>,
    address: Seq<char>,
    key: Seq<char>,
) -> Option<RateRecord> {
    if store.dom().contains((address, key)) {
        Some(store[(address, key)])
    } else {
        None
    }
}

/// One counting step under the settings `c`: the record after `increment`
/// more emails at second `now`, with whether its count is within the limit;
/// `None` when the count does not fit (the store keeps its old record).
pub open spec fn rate_step(c: ConfigModel, stored: Option<RateRecord>, now: i64, increment: u64)
    -> Option<(RateRecord, bool)>
{
    match next_record(stored, now, window_of(c) as u64, increment) {
        Some(r) => Some((r, r.count <= c.limit)),
        None => None,
    }
}

/// The session once a new message starts with the sender `found`: no
/// recipients yet, the host kept.
pub open spec fn mail_session(s: SessionModel, found: Option<Seq<char>>) -> SessionModel {
    SessionModel { sender: found, recipients: Seq::empty(), host: s.host }
}

/// The length of a window in seconds.
pub open spec fn window_of(c: ConfigModel) -> int {
    c.interval * 60
}

/// With `max_recipients` at 0 no message is rejected for its recipients;
/// otherwise a message is rejected exactly when it has more than that many.
pub proof fn law_recipient_limit(c: ConfigModel, n: int)
    ensures
        c.max_recipients == 0 ==> !too_many_recipients(c, n),
        c.max_recipients != 0 ==> (too_many_recipients(c, n) <==> n > c.max_recipients),
{
}

/// A message counts for at least one email; for its number of recipients
/// when recipients are counted and it has several; otherwise for exactly one.
pub proof fn law_message_weight(c: ConfigModel, n: int)
    requires
        n >= 0,
    ensures
        message_weight(c, n) >= 1,
        message_weight(c, n) <= if n > 1 { n } else { 1 },
        c.count_recipients && n > 1 ==> message_weight(c, n) == n,
        !c.count_recipients ==> message_weight(c, n) == 1,
{
}

/// Without `per_host` a sender is counted alike from every host; with it,
/// each host keeps its own count.
pub proof fn law_host_keys(c: ConfigModel, h1: Seq<char>, h2: Seq<char>)
    ensures
        !c.per_host ==> host_key(c, h1) == host_key(c, h2),
        c.per_host ==> (host_key(c, h1) == host_key(c, h2) <==> h1 == h2),
{
}

/// Once a message has been counted, it is accepted exactly when the sender's
/// new count is within the limit.
pub proof fn law_accept_iff_within_limit(
    c: ConfigModel,
    stored: Option<RateRecord>,
    now: i64,
    increment: u64,
)
    requires
        increment >= 1,
        next_record(stored, now, window_of(c) as u64, increment) is Some,
    ensures
        ({
            let r = next_record(stored, now, window_of(c) as u64, increment)->0;
            count_status(c, r.count) == Status::Accept <==> r.count <= c.limit
        }),
{
}

/// A message whose sender is unknown, or that arrives without a session, is
/// rejected when errors are rejected and passed on otherwise; it is never accepted.
pub proof fn law_unknown_sender_never_accepted(c: ConfigModel)
    ensures
        error_status(c) != Status::Accept,
        c.reject_error <==> error_status(c) == Status::Reject,
{
}

/// The session after one recipient for each address of `addrs`, in order.
pub open spec fn recipients_after(s: SessionModel, addrs: Seq<Seq<char>>) -> SessionModel
    decreases addrs.len(),
{
    if addrs.len() == 0 {
        s
    } else {
        add_recipient(recipients_after(s, addrs.drop_last()), Some(addrs.last()))
    }
}

proof fn lemma_recipients_after_len(s: SessionModel, addrs: Seq<Seq<char>>)
    ensures
        recipients_after(s, addrs).recipients.len() == s.recipients.len() + addrs.len(),
    decreases addrs.len(),
{
    if addrs.len() > 0 {
        lemma_recipients_after_len(s, addrs.drop_last());
    }
}

/// One sender mails from two different hosts within one window, starting
/// with no records, each message counted by [`Limiter::count_step`] under the
/// key [`Limiter::rate_check`] names: without `per_host` the second message
/// finds the count of both, `n1 + n2`; with `per_host` only its own, `n2`;
/// each verdict compares that count with the limit.
pub proof fn law_per_host_counting(
    c: ConfigModel,
    address: Seq<char>,
    h1: Seq<char>,
    h2: Seq<char>,
    t1: i64,
    t2: i64,
    n1: u64,
    n2: u64,
)
    requires
        h1 != h2,
        t1 <= t2,
        t2 - t1 <= window_of(c),
        window_of(c) <= u64::MAX,
        n1 + n2 <= i64::MAX,
    ensures
        ({
            let first = rate_step(c, stored_at(Map::empty(), address, host_key(c, h1)), t1, n1);
            &&& first == Some((RateRecord { count: n1, time: t1 }, n1 <= c.limit))
            &&& ({
                let store1 = Map::empty().insert(
                    (address, host_key(c, h1)),
                    RateRecord { count: n1, time: t1 },
                );
                let expected: int = if c.per_host {
                    n2 as int
                } else {
                    n1 + n2
                };
                rate_step(c, stored_at(store1, address, host_key(c, h2)), t2, n2) matches Some(
                    (r, ok),
                ) && r.count == expected && ok == (expected <= c.limit)
            })
        }),
{
    let first = rate_step(c, stored_at(Map::empty(), address, host_key(c, h1)), t1, n1);
    assert(stored_at(Map::empty(), address, host_key(c, h1)) is None);
    let rec1 = RateRecord { count: n1, time: t1 };
    assert(first == Some((rec1, n1 <= c.limit)));
    let store1 = Map::empty().insert((address, host_key(c, h1)), rec1);
    if c.per_host {
        assert((address, h1) != (address, h2));
        assert(stored_at(store1, address, host_key(c, h2)) is None);
    } else {
        assert(stored_at(store1, address, host_key(c, h2)) == Some(rec1));
    }
}

/// A record whose window has run out restarts: the step counts only the new
/// emails, opens a window at `now`, and decides on that count alone.
pub proof fn law_window_restart_step(c: ConfigModel, rec: RateRecord, now: i64, count: u64)
    requires
        now - rec.time > window_of(c),
        window_of(c) <= u64::MAX,
        count <= i64::MAX,
    ensures
        rate_step(c, Some(rec), now, count) == Some(
            (RateRecord { count, time: now }, count <= c.limit),
        ),
{
}

/// The verdicts of counting steps for `reqs`, one after the other from
/// `stored`; a step whose count does not fit leaves the record and reports
/// the count 0, which is within any limit.
pub open spec fn step_verdicts(c: ConfigModel, stored: Option<RateRecord>, reqs: Seq<Request>) -> Seq<
    bool,
>
    decreases reqs.len(),
{
    if reqs.len() == 0 {
        Seq::empty()
    } else {
        match rate_step(c, stored, reqs[0].time, reqs[0].increment) {
            Some((r, ok)) => seq![ok] + step_verdicts(c, Some(r), reqs.drop_first()),
            None => seq![true] + step_verdicts(c, stored, reqs.drop_first()),
        }
    }
}

proof fn lemma_verdicts_follow_counts(c: ConfigModel, stored: Option<RateRecord>, reqs: Seq<Request>)
    ensures
        step_verdicts(c, stored, reqs).len() == reqs.len(),
        run_counts(stored, reqs, window_of(c) as u64).len() == reqs.len(),
        forall|i: int|
            0 <= i < reqs.len() ==> #[trigger] step_verdicts(c, stored, reqs)[i] == (run_counts(
                stored,
                reqs,
                window_of(c) as u64,
            )[i] <= c.limit),
    decreases reqs.len(),
{
    if reqs.len() > 0 {
        let w = window_of(c) as u64;
        let r = next_record(stored, reqs[0].time, w, reqs[0].increment);
        let after = match r {
            Some(_) => r,
            None => stored,
        };
        let rest = reqs.drop_first();
        lemma_verdicts_follow_counts(c, after, rest);
        let v = step_verdicts(c, stored, reqs);
        let k = run_counts(stored, reqs, w);
        assert(v == seq![v[0]] + step_verdicts(c, after, rest));
        assert(k == seq![k[0]] + run_counts(after, rest, w));
        assert forall|i: int| 0 <= i < reqs.len() implies #[trigger] v[i] == (k[i] <= c.limit) by {
            if i > 0 {
                assert(v[i] == step_verdicts(c, after, rest)[i - 1]);
                assert(k[i] == run_counts(after, rest, w)[i - 1]);
            }
        }
    }
}

/// Single emails of one sender, counted step by step within one window that
/// opens with the first of them (no record before, or an expired one):
/// exactly the first `limit` are allowed and every later one is refused.
pub proof fn law_first_limit_allowed(c: ConfigModel, stored: Option<RateRecord>, reqs: Seq<Request>)
    requires
        reqs.len() > 0,
        window_of(c) <= u64::MAX,
        stored matches Some(rec) ==> expired(rec, reqs[0].time as int, window_of(c)),
        all_single(reqs),
        within_window(reqs, reqs[0].time, window_of(c) as u64),
        reqs.len() <= i64::MAX,
    ensures
        step_verdicts(c, stored, reqs).len() == reqs.len(),
        forall|i: int|
            0 <= i < reqs.len() ==> #[trigger] step_verdicts(c, stored, reqs)[i] == (i < c.limit),
{
    lemma_verdicts_follow_counts(c, stored, reqs);
    law_first_emails_within_limit(stored, reqs, window_of(c) as u64, c.limit);
    assert forall|i: int| 0 <= i < reqs.len() implies #[trigger] step_verdicts(c, stored, reqs)[i]
        == (i < c.limit) by {
        assert(run_counts(stored, reqs, window_of(c) as u64)[i] == i + 1);
    }
}

/// The emails allowed among `reqs`, counted step by step from `stored`.
pub open spec fn allowed_total(c: ConfigModel, stored: Option<RateRecord>, reqs: Seq<Request>) -> int
    decreases reqs.len(),
{
    if reqs.len() == 0 {
        0
    } else {
        match rate_step(c, stored, reqs[0].time, reqs[0].increment) {
            Some((r, ok)) => (if ok {
                reqs[0].increment as int
            } else {
                0
            }) + allowed_total(c, Some(r), reqs.drop_first()),
            None => allowed_total(c, stored, reqs.drop_first()),
        }
    }
}

/// Within one open window, the emails allowed step by step, together with
/// those already counted, never exceed the limit (or none is allowed).
pub proof fn law_allowed_within_limit(c: ConfigModel, rec: RateRecord, reqs: Seq<Request>)
    requires
        window_of(c) <= u64::MAX,
        within_window(reqs, rec.time, window_of(c) as u64),
        rec.count + total_increment(reqs) <= i64::MAX,
    ensures
        allowed_total(c, Some(rec), reqs) == 0 || rec.count + allowed_total(c, Some(rec), reqs)
            <= c.limit,
    decreases reqs.len(),
{
    if reqs.len() > 0 {
        lemma_total_nonneg(reqs.drop_first());
        let w = window_of(c) as u64;
        assert(reqs[0].time - rec.time <= w);
        let next = RateRecord { count: (rec.count + reqs[0].increment) as u64, time: rec.time };
        assert(rate_step(c, Some(rec), reqs[0].time, reqs[0].increment) == Some(
            (next, next.count <= c.limit),
        ));
        let rest = reqs.drop_first();
        assert(within_window(rest, next.time, w)) by {
            assert forall|i: int| 0 <= i < rest.len() implies rest[i].time - next.time <= w by {
                assert(rest[i] == reqs[i + 1]);
            }
        }
        law_allowed_within_limit(c, next, rest);
    }
}

/// A message on a connection: `MAIL FROM` (whatever the earlier messages
/// left), then one recipient per address of `addrs`.  The `j`-th recipient
/// is refused exactly when there is a maximum and `j` exceeds it, and at
/// end-of-message the message counts for its own recipients only.
pub proof fn law_message_on_connection(
    c: ConfigModel,
    s: SessionModel,
    sender: Option<Seq<char>>,
    addrs: Seq<Seq<char>>,
    j: int,
)
    requires
        1 <= j <= addrs.len(),
    ensures
        ({
            let after = recipients_after(mail_session(s, sender), addrs.take(j));
            &&& after.recipients.len() == j
            &&& rcpt_status(c, after.recipients.len() as int) == if c.max_recipients != 0 && j
                > c.max_recipients {
                Status::Reject
            } else {
                Status::Continue
            }
        }),
        message_weight(c, recipients_after(mail_session(s, sender), addrs).recipients.len() as int)
            == if c.count_recipients && addrs.len() > 1 {
            addrs.len() as int
        } else {
            1
        },
{
    lemma_recipients_after_len(mail_session(s, sender), addrs.take(j));
    lemma_recipients_after_len(mail_session(s, sender), addrs);
}

/// The address recorded from an SMTP argument is the expression's first
/// match in the whole argument, whatever its length; without an argument
/// there is none.
pub proof fn law_address_is_first_match(pattern: Seq<char>, arg: Seq<char>)
    ensures
        address_in(pattern, Some(arg)) == regex_first_match(pattern, arg),
        address_in(pattern, None) is None,
{
}

/// Whom a message is counted for.  Without `use_sasl` it is exactly the
/// sender, whatever SASL user is given, so a message without a sender is
/// never counted.  With `use_sasl` it is exactly the SASL user when one is
/// given and not empty, whatever the sender.
pub proof fn law_counted_identity(c: ConfigModel, s: SessionModel, sasl: Option<Seq<char>>)
    ensures
        !c.use_sasl ==> counted_identity(c, s, sasl) == s.sender,
        c.use_sasl ==> (counted_identity(c, s, sasl) is Some <==> (sasl is Some && sasl->0.len()
            > 0)),
        c.use_sasl && sasl is Some && sasl->0.len() > 0 ==> counted_identity(c, s, sasl) == sasl,
{
}

/// The host under which a message is counted: the connecting host with
/// `per_host`, the shared key "global" without.
pub proof fn law_host_key_choice(c: ConfigModel, host: Seq<char>)
    ensures
        c.per_host ==> host_key(c, host) == host,
        !c.per_host ==> host_key(c, host) == "global"@,
{
}

/// The answer at end-of-message from the new count: a count of 0 is refused
/// when errors are rejected; otherwise the message is accepted exactly when
/// the count is within the limit.
pub proof fn law_count_answer(c: ConfigModel, emails: u64)
    ensures
        emails == 0 && c.reject_error ==> count_status(c, emails) == Status::Reject,
        !(emails == 0 && c.reject_error) ==> (count_status(c, emails) == Status::Accept
            <==> emails <= c.limit),
        count_status(c, emails) != Status::Continue,
{
}

/// The host recorded for a connection: the peer's address text or socket
/// path, "Unknown" for any other peer.
pub proof fn law_peer_host(ip: String, path: String)
    ensures
        peer_host(Peer::Inet(ip)) == ip@,
        peer_host(Peer::Unix(path)) == path@,
        peer_host(Peer::Other) == "Unknown"@,
{
}

/// A new message keeps the connection's host, takes the sender found and
/// has no recipients; a recipient found is appended after the others, and
/// an argument without an address changes nothing.
pub proof fn law_session_updates(s: SessionModel, found: Option<Seq<char>>, a: Seq<char>)
    ensures
        mail_session(s, found).host == s.host,
        mail_session(s, found).sender == found,
        mail_session(s, found).recipients.len() == 0,
        add_recipient(s, Some(a)).recipients.len() == s.recipients.len() + 1,
        add_recipient(s, Some(a)).recipients.last() == a,
        add_recipient(s, Some(a)).recipients.take(s.recipients.len() as int) == s.recipients,
        add_recipient(s, Some(a)).sender == s.sender && add_recipient(s, Some(a)).host == s.host,
        add_recipient(s, None) == s,
{
    assert(add_recipient(s, Some(a)).recipients.take(s.recipients.len() as int) =~= s.recipients);
}

/// A window lasts `interval` minutes.
pub proof fn law_window_length(c: ConfigModel)
    ensures
        window_of(c) == c.interval * 60,
{
}

/// The first argument of a command, if there is one.
pub proof fn law_first_arg(args: Seq<String>)
    ensures
        args.len() == 0 ==> first_arg(args) is None,
        args.len() > 0 ==> first_arg(args) == Some(args[0]@),
{
}

/// A count to add to a sender's window.
pub struct RateCheck {
    pub address: String,
    pub host_key: String,
    pub increment: u64,
}

/// What end-of-message needs next.
pub enum EomStep {
    /// The answer is known.
    Done(Status),
    /// The answer waits for the sender's new count.
    Check(RateCheck),
}

/// The rate limiter: its settings and the expression that recognises addresses.
pub struct Limiter {
    config: Config,
    mail_regex: MailPattern,
}

impl Limiter {
    /// The settings of the limiter.
    pub closed spec fn settings(&self) -> ConfigModel {
        self.config@
    }

    /// The pattern addresses are recognised with.
    pub closed spec fn pattern(&self) -> Seq<char> {
        self.mail_regex@
    }

    /// A limiter with the settings `config`; fails only if the address
    /// expression does not compile.
    pub fn new(config: Config) -> (r: Result<Limiter, regex::Error>)
        ensures
            r is Ok <==> regex_compiles(MAIL_PATTERN@),
            r matches Ok(l) ==> l.settings() == config@ && l.pattern() == MAIL_PATTERN@,
    {
        let mail_regex = MailPattern::compile(MAIL_PATTERN)?;
        Ok(Limiter { config, mail_regex })
    }

    /// The settings of the limiter.
    pub fn config(&self) -> (r: &Config)
        ensures
            r@ == self.settings(),
    {
        &self.config
    }

    /// The address found in `email` by the address expression; it is a piece
    /// of `email`.
    pub fn email_regex(&self, email: Option<String>) -> (r: Option<String>)
        ensures
            option_text(r) == address_in(self.pattern(), option_text(email)),
            r matches Some(m) ==> email matches Some(e) && exists|i: int, j: int|
                0 <= i <= j <= e@.len() && m@ == e@.subrange(i, j),
    {
        let email = match email {
            Some(e) => e,
            None => return None,
        };
        self.mail_regex.first_match(email.as_str())
    }

    /// A new session starts: its host is recorded, sender and recipients are empty.
    pub fn handle_connect(&self, data: &mut Option<ConnectionData>, peer: Peer) -> (r: Status)
        ensures
            r == Status::Continue,
            session(*final(data)) == Some(
                SessionModel { sender: None, recipients: Seq::empty(), host: peer_host(peer) },
            ),
    {
        let host = match peer {
            Peer::Inet(ip) => ip,
            Peer::Unix(path) => path,
            Peer::Other => String::from_str("Unknown"),
        };
        *data = Some(ConnectionData { sender: None, recipients: Vec::new(), host });
        assert(session(*data)->0.recipients =~= Seq::<Seq<char>>::empty());
        Status::Continue
    }

    /// A new message starts on the connection with the sender `found`
    /// (the address found in the `MAIL FROM` argument) and no recipients.
    pub fn record_sender(&self, data: &mut Option<ConnectionData>, found: Option<String>) -> (r:
        Status)
        ensures
            r == Status::Continue,
            session(*final(data)) == match session(*old(data)) {
                Some(s) => Some(mail_session(s, option_text(found))),
                None => None,
            },
    {
        match data {
            Some(d) => {
                d.sender = found;
                d.recipients = Vec::new();
                assert(d@.recipients =~= Seq::<Seq<char>>::empty());
            },
            None => {},
        }
        Status::Continue
    }

    /// `MAIL FROM`: a new message starts on the connection.  Its sender is the
    /// address found in the first argument, and it has no recipients yet.
    pub fn handle_mail(&self, data: &mut Option<ConnectionData>, args: &Vec<String>) -> (r: Status)
        ensures
            r == Status::Continue,
            session(*final(data)) == match session(*old(data)) {
                Some(s) => Some(mail_session(s, address_in(self.pattern(), first_arg(args@)))),
                None => None,
            },
    {
        let arg = if args.len() > 0 {
            Some(args[0].clone())
        } else {
            None
        };
        let sender = self.email_regex(arg);
        self.record_sender(data, sender)
    }

    /// A recipient of the message: the address `found` in the `RCPT TO`
    /// argument, if any, joins the recipients; the answer refuses the message
    /// once it has more recipients than allowed.
    pub fn record_recipient(&self, data: &mut Option<ConnectionData>, found: Option<String>) -> (r:
        Status)
        ensures
            match session(*old(data)) {
                Some(s) => {
                    let next = add_recipient(s, option_text(found));
                    &&& session(*final(data)) == Some(next)
                    &&& r == rcpt_status(self.settings(), next.recipients.len() as int)
                },
                None => session(*final(data)) is None && r == Status::Continue,
            },
    {
        match data {
            Some(d) => {
                let ghost before = d@;
                match found {
                    Some(rec) => {
                        d.recipients.push(rec);
                        assert(d@.recipients =~= before.recipients.push(rec@));
                    },
                    None => {},
                }
                let n = d.recipients.len();
                if self.config.max_recipients != 0 && n as u64 > self.config.max_recipients {
                    return Status::Reject;
                }
                Status::Continue
            },
            None => Status::Continue,
        }
    }

    /// `RCPT TO`: an address found in the first argument joins the recipients
    /// of the message; the message is rejected once it has more recipients
    /// than allowed.
    pub fn handle_rcpt(&self, data: &mut Option<ConnectionData>, args: &Vec<String>) -> (r: Status)
        ensures
            match session(*old(data)) {
                Some(s) => {
                    let next = add_recipient(s, address_in(self.pattern(), first_arg(args@)));
                    &&& session(*final(data)) == Some(next)
                    &&& r == rcpt_status(self.settings(), next.recipients.len() as int)
                },
                None => session(*final(data)) is None && r == Status::Continue,
            },
    {
        let arg = if args.len() > 0 {
            Some(args[0].clone())
        } else {
            None
        };
        let found = self.email_regex(arg);
        self.record_recipient(data, found)
    }

    /// The count to add for the message of `identity` from `host` counting
    /// for `count` emails.
    pub fn rate_check(&self, identity: &String, host: &String, count: u64) -> (r: RateCheck)
        ensures
            r.address@ == identity@,
            r.host_key@ == host_key(self.settings(), host@),
            r.increment == count,
    {
        let host_key = if self.config.per_host {
            host.clone()
        } else {
            String::from_str("global")
        };
        RateCheck { address: identity.clone(), host_key, increment: count }
    }

    /// The length of a counting window in seconds.
    pub fn window(&self) -> (r: u64)
        requires
            window_of(self.settings()) <= u64::MAX,
        ensures
            r == window_of(self.settings()),
    {
        self.config.window_seconds()
    }

    /// End-of-message, first half.  The message is counted for the SASL user
    /// `sasl_user` when `use_sasl` is set, for its sender otherwise.  A
    /// message without session data, or whose identity is unknown, is
    /// answered at once; otherwise it is to be counted.
    pub fn handle_eom(&self, data: &Option<ConnectionData>, sasl_user: Option<String>) -> (r: EomStep)
        ensures
            match session(*data) {
                None => r == EomStep::Done(error_status(self.settings())),
                Some(s) => match counted_identity(self.settings(), s, option_text(sasl_user)) {
                    None => r == EomStep::Done(error_status(self.settings())),
                    Some(id) => r matches EomStep::Check(c) && c.address@ == id && c.host_key@
                        == host_key(self.settings(), s.host) && c.increment == message_weight(
                        self.settings(),
                        s.recipients.len() as int,
                    ),
                },
            },
    {
        let d = match data {
            Some(d) => d,
            None => return EomStep::Done(self.error_status()),
        };
        let identity: &String = if self.config.use_sasl {
            match &sasl_user {
                Some(u) => {
                    if u.as_str().is_empty() {
                        return EomStep::Done(self.error_status());
                    }
                    u
                },
                None => return EomStep::Done(self.error_status()),
            }
        } else {
            match &d.sender {
                Some(s) => s,
                None => return EomStep::Done(self.error_status()),
            }
        };
        let n = d.recipients.len();
        let count: u64 = if n > 1 && self.config.count_recipients {
            n as u64
        } else {
            1
        };
        EomStep::Check(self.rate_check(identity, &d.host, count))
    }

    /// The answer when a message cannot be processed.
    fn error_status(&self) -> (r: Status)
        ensures
            r == error_status(self.settings()),
    {
        if self.config.reject_error {
            Status::Reject
        } else {
            Status::Continue
        }
    }

    /// One counting step: the record of the message's identity after
    /// `increment` more emails at second `now` (a new window when there was
    /// none or it ran out), with whether its count is within the limit;
    /// `None` when the count does not fit a SQLite integer.
    pub fn count_step(&self, stored: Option<RateRecord>, now: i64, increment: u64) -> (r: Option<
        (RateRecord, bool),
    >)
        requires
            window_of(self.settings()) <= u64::MAX,
        ensures
            r == rate_step(self.settings(), stored, now, increment),
    {
        let window = self.window();
        match advance(stored, now, window, increment) {
            Some(rec) => {
                let (ok, _) = self.allowed(rec.count);
                Some((rec, ok))
            },
            None => None,
        }
    }

    /// Whether a sender whose count is now `current_count` may send, with that count.
    pub fn allowed(&self, current_count: u64) -> (r: (bool, u64))
        ensures
            r.0 == (current_count <= self.settings().limit),
            r.1 == current_count,
    {
        (current_count <= self.config.limit, current_count)
    }

    /// End-of-message, second half: the answer given the sender's new count
    /// (0 when the store could not count it).
    pub fn finish_eom(&self, emails: u64) -> (r: Status)
        ensures
            r == count_status(self.settings(), emails),
    {
        let (allowed, emails) = self.allowed(emails);
        if emails == 0 && self.config.reject_error {
            return Status::Reject;
        }
        if allowed {
            Status::Accept
        } else {
            Status::Reject
        }
    }
}

} // verus!
