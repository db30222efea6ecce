//! A rate limiter for outgoing mail, driven by a milter front end.
//!
//! The library holds the verified logic: the configuration schema and its
//! validation, the per-sender counting window, the decisions taken at each
//! milter stage, and the command-line, socket and signal rules.

pub mod cli;
pub mod config;
pub mod limiter;
pub mod mail;
pub mod rate;
pub mod text;

pub use cli::CommandLine;
pub use cli::LimiterSignals;
pub use cli::ListenSpec;
pub use cli::UnixSignal;
pub use config::to_yes_or_no;
pub use config::Config;
pub use limiter::ConnectionData;
pub use limiter::EomStep;
pub use limiter::Limiter;
pub use limiter::Peer;
pub use limiter::RateCheck;
pub use limiter::Status;
pub use rate::advance;
pub use rate::RateRecord;
