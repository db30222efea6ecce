//! Command-line options, configuration file locations, listening sockets and
//! process signals.

use vstd::prelude::*;

use crate::config::Config;
use crate::config::ConfigModel;
use crate::text::has_prefix;
use crate::text::law_strip_once;
use crate::text::law_trim_keeps_unpadded;
use crate::text::unpadded;
use crate::text::starts_with;
use crate::text::strip_prefix_repeated;
use crate::text::strip_repeated;
use crate::text::trim;
use crate::text::trim_str;

verus! {

/// The file name of the configuration file.
pub const CONFIG_NAME: &'static str = "postfix_ratelimit.conf";

/// The options given on the command line.
pub struct CommandLine {
    /// `--help` was given.
    pub help: bool,
    /// `--debug` was given.
    pub debug: bool,
    /// The path given with `--config=<path>`, if any.
    pub config_path: Option<String>,
    /// The socket given with `--socket=<socket>`, if any.
    pub socket: Option<String>,
}

/// Some argument of `args` is exactly `flag`.
pub open spec fn has_flag(args: Seq<String>, flag: Seq<char>) -> bool {
    exists|i: int| 0 <= i < args.len() && args[i]@ == flag
}

/// The value of the first argument that begins with `prefix`: the rest of
/// that argument, with every leading `prefix` and surrounding white space removed.
pub open spec fn option_value(args: Seq<String>, prefix: Seq<char>) -> Option<Seq<char>>
    decreases args.len(),
{
    if args.len() == 0 {
        None
    } else if has_prefix(args[0]@, prefix) {
        Some(trim(strip_repeated(args[0]@, prefix)))
    } else {
        option_value(args.drop_first(), prefix)
    }
}

/// Whether `a` and `b` hold the same text.
fn same_text(a: &str, b: &str) -> (r: bool)
    ensures
        r == (a@ == b@),
{
    proof {
        if a@ == b@ {
            assert(a@.take(b@.len() as int) =~= a@);
        }
    }
    let p = starts_with(a, b);
    if p && a.unicode_len() == b.unicode_len() {
        assert(a@ =~= a@.take(b@.len() as int));
        true
    } else {
        false
    }
}

/// Whether some argument is exactly `flag`.
fn find_flag(args: &Vec<String>, flag: &str) -> (r: bool)
    ensures
        r == has_flag(args@, flag@),
{
    let mut i: usize = 0;
    while i < args.len()
        invariant
            i <= args.len(),
            forall|k: int| 0 <= k < i ==> args@[k]@ != flag@,
        decreases args.len() - i,
    {
        if same_text(args[i].as_str(), flag) {
            return true;
        }
        i = i + 1;
    }
    false
}

/// The value of the first argument that begins with `prefix`, as
/// [`option_value`] says.
fn find_option(args: &Vec<String>, prefix: &str) -> (r: Option<String>)
    ensures
        match r {
            Some(v) => option_value(args@, prefix@) == Some(v@),
            None => option_value(args@, prefix@) is None,
        },
{
    let mut i: usize = 0;
    assert(args@.skip(0) =~= args@);
    while i < args.len()
        invariant
            i <= args.len(),
            option_value(args@.skip(i as int), prefix@) == option_value(args@, prefix@),
        decreases args.len() - i,
    {
        if starts_with(args[i].as_str(), prefix) {
            let rest = strip_prefix_repeated(args[i].as_str(), prefix);
            return Some(trim_str(rest.as_str()));
        }
        assert(args@.skip(i as int).drop_first() =~= args@.skip(i + 1));
        i = i + 1;
    }
    None
}

impl CommandLine {
    /// Reads the options from the program's arguments (the program name included).
    pub fn parse(args: &Vec<String>) -> (r: CommandLine)
        ensures
            r.help == has_flag(args@, "--help"@),
            r.debug == has_flag(args@, "--debug"@),
            match r.config_path {
                Some(p) => option_value(args@, "--config="@) == Some(p@),
                None => option_value(args@, "--config="@) is None,
            },
            match r.socket {
                Some(p) => option_value(args@, "--socket="@) == Some(p@),
                None => option_value(args@, "--socket="@) is None,
            },
    {
        let help = find_flag(args, "--help");
        let debug = find_flag(args, "--debug");
        let config_path = find_option(args, "--config=");
        let socket = find_option(args, "--socket=");
        CommandLine { help, debug, config_path, socket }
    }

    /// The settings as the command line amends them: `--socket=` replaces the
    /// socket; everything else is kept.
    pub fn apply(&self, config: &mut Config)
        ensures
            final(config)@ == match self.socket {
                Some(p) => ConfigModel { socket: p@, ..old(config)@ },
                None => old(config)@,
            },
    {
        match &self.socket {
            Some(p) => {
                config.socket = p.clone();
            },
            None => {},
        }
    }

    /// Whether debug messages are logged: by the configuration or by `--debug`.
    pub fn debug_logging(&self, config: &Config) -> (r: bool)
        ensures
            r == (config.debug || self.debug),
    {
        config.debug || self.debug
    }
}

/// The places searched for the configuration file, in order, when no
/// `--config=` is given.
pub fn config_locations() -> (r: Vec<String>)
    ensures
        r@.len() == 2,
        r@[0]@ == "/etc/"@ + CONFIG_NAME@,
        r@[1]@ == "/usr/local/etc/"@ + CONFIG_NAME@,
{
    let mut first = String::from_str("/etc/");
    first.append(CONFIG_NAME);
    let mut second = String::from_str("/usr/local/etc/");
    second.append(CONFIG_NAME);
    let mut v: Vec<String> = Vec::new();
    v.push(first);
    v.push(second);
    v
}

impl Config {
    /// Whether the log is also written to the file `log_file`: only when it
    /// names something other than white space.
    pub fn logs_to_file(&self) -> (r: bool)
        ensures
            r == (trim(self.log_file@).len() > 0),
    {
        let t = trim_str(self.log_file.as_str());
        !t.as_str().is_empty()
    }
}

/// Where the milter listens.
pub enum ListenSpec {
    /// A Unix socket at this path.
    Unix(String),
    /// A TCP socket at this address.
    Inet(String),
}

/// The listening place named by `socket`: "unix:<path>" or "inet:<address>",
/// the prefix removed as often as it repeats; `None` for any other form.
pub open spec fn listen_spec(socket: Seq<char>) -> Option<(bool, Seq<char>)> {
    if has_prefix(socket, "unix:"@) {
        Some((true, strip_repeated(socket, "unix:"@)))
    } else if has_prefix(socket, "inet:"@) {
        Some((false, strip_repeated(socket, "inet:"@)))
    } else {
        None
    }
}

impl ListenSpec {
    /// Reads the listening place from the `socket` setting.
    pub fn parse(socket: &str) -> (r: Option<ListenSpec>)
        ensures
            match r {
                Some(ListenSpec::Unix(p)) => listen_spec(socket@) == Some((true, p@)),
                Some(ListenSpec::Inet(a)) => listen_spec(socket@) == Some((false, a@)),
                None => listen_spec(socket@) is None,
            },
    {
        if starts_with(socket, "unix:") {
            Some(ListenSpec::Unix(strip_prefix_repeated(socket, "unix:")))
        } else if starts_with(socket, "inet:") {
            Some(ListenSpec::Inet(strip_prefix_repeated(socket, "inet:")))
        } else {
            None
        }
    }
}

/// The process signals the milter reacts to.
#[derive(Clone, Copy, Debug, PartialEq, Eq, Structural)]
pub enum UnixSignal {
    Hangup,
    User1,
    User2,
    Interrupt,
    Quit,
    Terminate,
}

/// What the running milter is asked to do.
#[allow(non_camel_case_types)]
#[derive(Clone, Copy, Debug, PartialEq, Eq, Structural)]
pub enum LimiterSignals {
    /// Save the database and restart to reload the configuration.
    RELOAD,
    /// Save the database and stop.
    STOP,
    /// Print the loaded configuration.
    CONFIG,
    /// Reset all rate limits by clearing the database.
    CLEAR_DB,
}

/// The request that a signal stands for.
pub open spec fn signal_request(sig: UnixSignal) -> LimiterSignals {
    match sig {
        UnixSignal::Hangup => LimiterSignals::RELOAD,
        UnixSignal::User1 => LimiterSignals::CONFIG,
        UnixSignal::User2 => LimiterSignals::CLEAR_DB,
        UnixSignal::Interrupt => LimiterSignals::STOP,
        UnixSignal::Quit => LimiterSignals::STOP,
        UnixSignal::Terminate => LimiterSignals::STOP,
    }
}

impl LimiterSignals {
    /// The request that the signal `sig` stands for.
    pub fn from_signal(sig: UnixSignal) -> (r: LimiterSignals)
        ensures
            r == signal_request(sig),
    {
        match sig {
            UnixSignal::Hangup => LimiterSignals::RELOAD,
            UnixSignal::User1 => LimiterSignals::CONFIG,
            UnixSignal::User2 => LimiterSignals::CLEAR_DB,
            UnixSignal::Interrupt => LimiterSignals::STOP,
            UnixSignal::Quit => LimiterSignals::STOP,
            UnixSignal::Terminate => LimiterSignals::STOP,
        }
    }
}


/// The value of an option is the whole rest of its argument: when the
/// first argument that begins with `prefix` is `prefix + v`, with `v` not
/// beginning with `prefix` again and without white space at its ends, the
/// value is exactly `v`, whatever its length.
pub proof fn law_option_value_is_rest(args: Seq<String>, prefix: Seq<char>, k: int, v: Seq<char>)
    requires
        prefix.len() > 0,
        0 <= k < args.len(),
        forall|j: int| 0 <= j < k ==> !has_prefix(#[trigger] args[j]@, prefix),
        args[k]@ == prefix + v,
        !has_prefix(v, prefix),
        unpadded(v),
    ensures
        option_value(args, prefix) == Some(v),
    decreases k,
{
    if k == 0 {
        law_strip_once(prefix, v);
        law_trim_keeps_unpadded(v);
    } else {
        let rest = args.drop_first();
        assert forall|j: int| 0 <= j < k - 1 implies !has_prefix(#[trigger] rest[j]@, prefix) by {
            assert(rest[j] == args[j + 1]);
        }
        assert(!has_prefix(args[0]@, prefix));
        law_option_value_is_rest(rest, prefix, k - 1, v);
    }
}

/// An option that no argument begins with has no value.
pub proof fn law_option_absent(args: Seq<String>, prefix: Seq<char>)
    requires
        forall|j: int| 0 <= j < args.len() ==> !has_prefix(#[trigger] args[j]@, prefix),
    ensures
        option_value(args, prefix) is None,
    decreases args.len(),
{
    if args.len() > 0 {
        let rest = args.drop_first();
        assert forall|j: int| 0 <= j < rest.len() implies !has_prefix(#[trigger] rest[j]@, prefix) by {
            assert(rest[j] == args[j + 1]);
        }
        assert(!has_prefix(args[0]@, prefix));
        law_option_absent(rest, prefix);
    }
}

/// "unix:" + `p` names exactly the Unix socket at `p`, and "inet:" + `a`
/// exactly the TCP address `a`, whatever their lengths, as long as the
/// prefix is not repeated; any other setting names no listening place.
pub proof fn law_listen_spec(p: Seq<char>, a: Seq<char>, other: Seq<char>)
    ensures
        !has_prefix(p, "unix:"@) ==> listen_spec("unix:"@ + p) == Some((true, p)),
        !has_prefix(a, "inet:"@) && !has_prefix("inet:"@ + a, "unix:"@) ==> listen_spec(
            "inet:"@ + a,
        ) == Some((false, a)),
        !has_prefix(other, "unix:"@) && !has_prefix(other, "inet:"@) ==> listen_spec(other) is None,
{
    reveal_strlit("unix:");
    reveal_strlit("inet:");
    if !has_prefix(p, "unix:"@) {
        law_strip_once("unix:"@, p);
    }
    if !has_prefix(a, "inet:"@) {
        law_strip_once("inet:"@, a);
    }
}

/// An "inet:" setting never reads as a Unix socket.
pub proof fn law_inet_is_not_unix(a: Seq<char>)
    ensures
        !has_prefix("inet:"@ + a, "unix:"@),
{
    reveal_strlit("unix:");
    reveal_strlit("inet:");
    assert(("inet:"@ + a).take(5)[0] == 'i');
}

/// The signals do what the documentation says: SIGHUP reloads, SIGUSR1
/// shows the configuration, SIGUSR2 clears the database, and SIGINT,
/// SIGQUIT and SIGTERM stop.
pub proof fn law_signal_requests()
    ensures
        signal_request(UnixSignal::Hangup) == LimiterSignals::RELOAD,
        signal_request(UnixSignal::User1) == LimiterSignals::CONFIG,
        signal_request(UnixSignal::User2) == LimiterSignals::CLEAR_DB,
        signal_request(UnixSignal::Interrupt) == LimiterSignals::STOP,
        signal_request(UnixSignal::Quit) == LimiterSignals::STOP,
        signal_request(UnixSignal::Terminate) == LimiterSignals::STOP,
{
}


/// A flag is given exactly when some argument, the program name included,
/// is that flag.
pub proof fn law_flag_found(args: Seq<String>, flag: Seq<char>, i: int)
    ensures
        0 <= i < args.len() && args[i]@ == flag ==> has_flag(args, flag),
        (forall|k: int| 0 <= k < args.len() ==> #[trigger] args[k]@ != flag) ==> !has_flag(args, flag),
{
}

} // verus!
