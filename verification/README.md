# postfix_ratelimit

A milter for Postfix that limits how many emails a sender may send within a
time window.

- `src/` is the verified library (Verus):
  - `config.rs`: the settings, their defaults, validation, the summary text;
  - `rate.rs`: the per-sender counting window and its laws;
  - `limiter.rs`: the decision at each milter stage (connect, mail, rcpt, end of message);
  - `mail.rs`: recognising addresses with the `regex` crate;
  - `cli.rs`: command-line options, config file locations, listening sockets, signals;
  - `text.rs`: string helpers with exact specifications.
- `app/` is the program around it: signals, the configuration file (read
  with `toml` and serde), logging, the SQLite store and the milter protocol loop.
- `tests/` runs the library on concrete values.
