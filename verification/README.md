# ClipPin

A clipboard history manager for the macOS menu bar, written in Rust and
verified with Verus.

- `src/` is the library. It decides everything that can be decided without
  asking the system: what a capture holds and how it is identified, what the
  history keeps, which statements go to the database and which rows are pruned,
  how settings are read and stored, where the popover's controls stand, what a
  row says, what each event of the application leads to, and how the steps of
  pasting, of launching at login and of detaching from a terminal follow one
  another. Each function states what it returns, and each module states the
  laws that its functions keep together, as proof functions named `law_…`.
- `tests/` runs the library on concrete values, with SQLite in memory behind
  the statements.
- `app/` is the application around it: AppKit, the pasteboard, SQLite,
  `launchctl` and the command line. It asks the system, hands what it was told
  to the library and carries out the answer.

What the proofs rest on without proving it: SHA-256 (`digest::sha256`), JSON
(`storage::encode_json`, `storage::decode_json`), lower-casing
(`text::to_lowercase`) and `String::push`. Each of these says in its doc
comment what is claimed of it.
