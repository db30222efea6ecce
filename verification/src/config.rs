//! The configuration of the rate limiter: its settings and defaults, its
//! validation and its human-readable summary.  The program reads the settings
//! from a TOML file; settings the file leaves out keep their defaults.

use vstd::prelude::*;

use crate::text::decimal;
use crate::text::decimal_string;
use crate::text::contains_piece;
use crate::text::has_prefix;
use crate::text::has_suffix;
use crate::text::join_lines;
use crate::text::lemma_join_ends;
use crate::text::lemma_join_inner;
use crate::text::lemma_join_starts;

verus! {

/// The settings of the rate limiter.
#[derive(Clone, Debug)]
pub struct Config {
    /// Path to the SQLite database file used for storing rate limit data.
    pub db_file: String,
    /// Time window for rate limiting, in minutes.
    pub interval: u64,
    /// Maximum number of emails allowed to be sent within each interval.
    pub limit: u64,
    /// Address to listen on: "inet:IP:PORT" or "unix:/path/to/socket".
    pub socket: String,
    /// Maximum number of recipients of one message; 0 for no limit.
    pub max_recipients: u64,
    /// Each recipient counts separately towards the limit.
    pub count_recipients: bool,
    /// Senders are tracked separately per connecting host.
    pub per_host: bool,
    /// How often, in minutes, expired entries are removed from the database.
    pub clean_interval: u64,
    /// Debug mode: extra messages on the terminal.
    pub debug: bool,
    /// Reject emails whose processing ran into a problem, such as a missing sender.
    pub reject_error: bool,
    /// File to write the log to; empty for none.
    pub log_file: String,
    /// Rate limiting by the SASL user.
    pub use_sasl: bool,
}

/// The mathematical form of a [`Config`].
#[verifier::ext_equal]
pub struct ConfigModel {
    pub db_file: Seq<char>,
    pub interval: u64,
    pub limit: u64,
    pub socket: Seq<char>,
    pub max_recipients: u64,
    pub count_recipients: bool,
    pub per_host: bool,
    pub clean_interval: u64,
    pub debug: bool,
    pub reject_error: bool,
    pub log_file: Seq<char>,
    pub use_sasl: bool,
}

impl View for Config {
    type V = ConfigModel;

    open spec fn view(&self) -> ConfigModel {
        ConfigModel {
            db_file: self.db_file@,
            interval: self.interval,
            limit: self.limit,
            socket: self.socket@,
            max_recipients: self.max_recipients,
            count_recipients: self.count_recipients,
            per_host: self.per_host,
            clean_interval: self.clean_interval,
            debug: self.debug,
            reject_error: self.reject_error,
            log_file: self.log_file@,
            use_sasl: self.use_sasl,
        }
    }
}

/// The settings used where the configuration names none.
pub open spec fn default_model() -> ConfigModel {
    ConfigModel {
        db_file: Seq::empty(),
        interval: 60,
        limit: 20,
        socket: "inet:127.0.0.1:11847"@,
        max_recipients: 20,
        count_recipients: true,
        per_host: false,
        clean_interval: 120,
        debug: false,
        reject_error: false,
        log_file: Seq::empty(),
        use_sasl: false,
    }
}

/// The message that names the missing database path.
pub open spec fn missing_db_file_message() -> Seq<char> {
    "Required field \"db_file\" is missing from config or empty"@
}

/// "Yes" for `true`, "No" for `false`.
pub open spec fn yes_or_no(b: bool) -> Seq<char> {
    if b {
        "Yes"@
    } else {
        "No"@
    }
}

/// The lines of the summary of the settings `c`, one per setting; the
/// database line only when a database is named.
pub open spec fn summary_lines(c: ConfigModel) -> Seq<Seq<char>> {
    (if c.db_file.len() > 0 {
        seq!["Database: "@ + c.db_file]
    } else {
        Seq::empty()
    }) + seq![
        "Interval: "@ + decimal(c.interval as nat) + "m"@,
        "Limit: "@ + decimal(c.limit as nat),
        "Socket: "@ + c.socket,
        "Max recipients: "@ + decimal(c.max_recipients as nat),
        "Count recipients: "@ + yes_or_no(c.count_recipients),
        "Per host: "@ + yes_or_no(c.per_host),
        "Use SASL: "@ + yes_or_no(c.use_sasl),
        "Clean interval: "@ + decimal(c.clean_interval as nat) + "m"@,
        "Debug mode: "@ + yes_or_no(c.debug),
        "Reject errors: "@ + yes_or_no(c.reject_error),
        "Log file: "@ + (if c.log_file.len() == 0 {
            "No"@
        } else {
            c.log_file
        }),
    ]
}

/// The summary of the settings `c`: its lines joined by line breaks.
pub open spec fn summary(c: ConfigModel) -> Seq<char> {
    join_lines(summary_lines(c), "\n"@)
}

/// Each setting appears in the summary on a line of its own, under its label
/// and with its own value: the database path first when one is named, then
/// the interval, and the log file last; every line in between has a line
/// break on each side.
pub proof fn law_summary_shows_settings(c: ConfigModel)
    ensures
        c.db_file.len() > 0 ==> has_prefix(summary(c), "Database: "@ + c.db_file + "\n"@),
        c.db_file.len() == 0 ==> has_prefix(
            summary(c),
            "Interval: "@ + decimal(c.interval as nat) + "m"@ + "\n"@,
        ),
        c.db_file.len() > 0 ==> contains_piece(
            summary(c),
            "\n"@ + ("Interval: "@ + decimal(c.interval as nat) + "m"@) + "\n"@,
        ),
        contains_piece(summary(c), "\n"@ + ("Limit: "@ + decimal(c.limit as nat)) + "\n"@),
        contains_piece(summary(c), "\n"@ + ("Socket: "@ + c.socket) + "\n"@),
        contains_piece(
            summary(c),
            "\n"@ + ("Max recipients: "@ + decimal(c.max_recipients as nat)) + "\n"@,
        ),
        contains_piece(
            summary(c),
            "\n"@ + ("Count recipients: "@ + yes_or_no(c.count_recipients)) + "\n"@,
        ),
        contains_piece(summary(c), "\n"@ + ("Per host: "@ + yes_or_no(c.per_host)) + "\n"@),
        contains_piece(summary(c), "\n"@ + ("Use SASL: "@ + yes_or_no(c.use_sasl)) + "\n"@),
        contains_piece(
            summary(c),
            "\n"@ + ("Clean interval: "@ + decimal(c.clean_interval as nat) + "m"@) + "\n"@,
        ),
        contains_piece(summary(c), "\n"@ + ("Debug mode: "@ + yes_or_no(c.debug)) + "\n"@),
        contains_piece(
            summary(c),
            "\n"@ + ("Reject errors: "@ + yes_or_no(c.reject_error)) + "\n"@,
        ),
        has_suffix(
            summary(c),
            "\n"@ + ("Log file: "@ + (if c.log_file.len() == 0 {
                "No"@
            } else {
                c.log_file
            })),
        ),
{
    let ls = summary_lines(c);
    let nl = "\n"@;
    let d: int = if c.db_file.len() > 0 {
        1
    } else {
        0
    };
    assert(ls.len() == d + 11);
    lemma_join_starts(ls, nl);
    lemma_join_ends(ls, nl);
    if d == 1 {
        lemma_join_inner(ls, nl, 1);
    }
    lemma_join_inner(ls, nl, d + 1);
    lemma_join_inner(ls, nl, d + 2);
    lemma_join_inner(ls, nl, d + 3);
    lemma_join_inner(ls, nl, d + 4);
    lemma_join_inner(ls, nl, d + 5);
    lemma_join_inner(ls, nl, d + 6);
    lemma_join_inner(ls, nl, d + 7);
    lemma_join_inner(ls, nl, d + 8);
    lemma_join_inner(ls, nl, d + 9);
}

/// The message given when no database is named.
pub proof fn law_missing_db_file_message()
    ensures
        missing_db_file_message() == "Required field \"db_file\" is missing from config or empty"@,
{
}

/// "Yes" stands for `true` and "No" for `false`.
pub proof fn law_yes_or_no()
    ensures
        yes_or_no(true) == "Yes"@,
        yes_or_no(false) == "No"@,
{
}

/// The documented defaults: no database, a window of 60 minutes, a limit of
/// 20 emails, the socket "inet:127.0.0.1:11847", at most 20 recipients, each
/// recipient counted, no tracking per host, no SASL, cleaning every 120
/// minutes, no debug mode, errors not rejected, no log file.
pub proof fn law_documented_defaults()
    ensures
        default_model().db_file.len() == 0,
        default_model().interval == 60,
        default_model().limit == 20,
        default_model().socket == "inet:127.0.0.1:11847"@,
        default_model().max_recipients == 20,
        default_model().count_recipients,
        !default_model().per_host,
        !default_model().use_sasl,
        default_model().clean_interval == 120,
        !default_model().debug,
        !default_model().reject_error,
        default_model().log_file.len() == 0,
{
}

impl Default for Config {
    fn default() -> (c: Self)
        ensures
            c@ == default_model(),
    {
        Config {
            db_file: String::new(),
            interval: 60,
            limit: 20,
            socket: String::from_str("inet:127.0.0.1:11847"),
            max_recipients: 20,
            count_recipients: true,
            per_host: false,
            clean_interval: 120,
            debug: false,
            reject_error: false,
            log_file: String::new(),
            use_sasl: false,
        }
    }
}

impl Config {
    /// Checks the rules that the settings must obey: a database path is required.
    pub fn validate(&self) -> (r: Result<(), String>)
        ensures
            r is Ok <==> self.db_file@.len() > 0,
            r matches Err(msg) ==> msg@ == missing_db_file_message(),
    {
        if self.db_file.as_str().is_empty() {
            Err(String::from_str("Required field \"db_file\" is missing from config or empty"))
        } else {
            Ok(())
        }
    }

    /// The pause between two cleaning passes, in seconds: `clean_interval` minutes.
    pub fn clean_pause_seconds(&self) -> (r: u64)
        requires
            self.clean_interval * 60 <= u64::MAX,
        ensures
            r == self.clean_interval * 60,
    {
        self.clean_interval * 60
    }

    /// Whether expired records are removed periodically: only with a
    /// positive `clean_interval`.
    pub fn cleans(&self) -> (r: bool)
        ensures
            r == (self.clean_interval > 0),
    {
        self.clean_interval > 0
    }

    /// The length of a counting window in seconds: `interval` minutes.
    pub fn window_seconds(&self) -> (r: u64)
        requires
            self.interval * 60 <= u64::MAX,
        ensures
            r == self.interval * 60,
    {
        self.interval * 60
    }

    /// The summary of the settings, one "Name: value" line per setting, as
    /// printed on request.
    pub fn describe(&self) -> (r: String)
        ensures
            r@ == summary(self@),
    {
        let mut lines: Vec<String> = Vec::new();
        if !self.db_file.as_str().is_empty() {
            lines.push(labelled("Database: ", self.db_file.as_str()));
        }
        let mut interval = labelled("Interval: ", decimal_string(self.interval).as_str());
        interval.append("m");
        lines.push(interval);
        lines.push(labelled("Limit: ", decimal_string(self.limit).as_str()));
        lines.push(labelled("Socket: ", self.socket.as_str()));
        lines.push(labelled("Max recipients: ", decimal_string(self.max_recipients).as_str()));
        lines.push(labelled("Count recipients: ", to_yes_or_no(self.count_recipients).as_str()));
        lines.push(labelled("Per host: ", to_yes_or_no(self.per_host).as_str()));
        lines.push(labelled("Use SASL: ", to_yes_or_no(self.use_sasl).as_str()));
        let mut clean = labelled("Clean interval: ", decimal_string(self.clean_interval).as_str());
        clean.append("m");
        lines.push(clean);
        lines.push(labelled("Debug mode: ", to_yes_or_no(self.debug).as_str()));
        lines.push(labelled("Reject errors: ", to_yes_or_no(self.reject_error).as_str()));
        if self.log_file.as_str().is_empty() {
            lines.push(labelled("Log file: ", "No"));
        } else {
            lines.push(labelled("Log file: ", self.log_file.as_str()));
        }
        let ghost want = summary_lines(self@);
        assert(lines@.map_values(|l: String| l@) =~= want);
        join_with_breaks(&lines)
    }
}

/// `label` followed by `value`.
fn labelled(label: &str, value: &str) -> (r: String)
    ensures
        r@ == label@ + value@,
{
    let mut s = String::from_str(label);
    s.append(value);
    s
}

/// The lines joined by line breaks.
fn join_with_breaks(lines: &Vec<String>) -> (r: String)
    ensures
        r@ == join_lines(lines@.map_values(|l: String| l@), "\n"@),
{
    let ghost ls = lines@.map_values(|l: String| l@);
    let mut out = String::new();
    let mut i: usize = 0;
    while i < lines.len()
        invariant
            i <= lines.len(),
            ls == lines@.map_values(|l: String| l@),
            out@ == join_lines(ls.take(i as int), "\n"@),
        decreases lines.len() - i,
    {
        assert(ls.take(i + 1).drop_last() =~= ls.take(i as int));
        if i > 0 {
            out.append("\n");
        } else {
            assert(ls.take(1) =~= seq![ls[0]]);
        }
        out.append(lines[i].as_str());
        i = i + 1;
    }
    assert(ls.take(lines.len() as int) =~= ls);
    out
}

/// "Yes" for `true`, "No" for `false`.
pub fn to_yes_or_no(boolean: bool) -> (r: String)
    ensures
        r@ == yes_or_no(boolean),
{
    if boolean {
        String::from_str("Yes")
    } else {
        String::from_str("No")
    }
}

} // verus!
