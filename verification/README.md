# jotainchat

A LAN chat and file-transfer core whose rules are specified and proved with
Verus.

## Layout

- `src/` — the verified library:
  - `frame` — length-prefixed frames, with a round-trip law;
  - `config` — identity, display-name rules, config repair, save-then-commit updates;
  - `diagnostics` — stable codes per logic node and a bounded newest-first log;
  - `discovery` — announce validation and the peer table (TTL, ordering);
  - `session` — preferred-dialer rule and arbitration of duplicate connections;
  - `protocol` — control messages and text validation;
  - `group` — group registry, join codes, roster rules;
  - `transfer` — the transfer registry: confirm-by-default admission, resume,
    cancel, restart recovery;
  - `fsutil` — file-name sanitization, candidate names, resume alignment;
  - `hashing` — whole-file SHA-256 over the bytes fed to it, checked on receive;
  - `commands`, `sound`, `db`, `ids`, `text`, `order`, `sort`, `table` — supporting pieces.
- `tests/` — executable tests of the library.
- `app/` — the host code: serde forms, SQLite history, files, sockets,
  the control-connection and data-plane threads, processes. It calls the
  library for every decision.

Run `verus` on `src/lib.rs` to check the proofs.
