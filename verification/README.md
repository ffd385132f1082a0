# mailctl

An agent-first command-line mail client for Gmail and Outlook/Hotmail,
whose decisions are proved correct with Verus.

- `src/` is the verified library: the command plans and the safety model
  (preview before trash, audit before every change, UIDVALIDITY pins,
  drafts first), query translation and offline matching, incremental sync
  planning, OAuth URLs, forms, redirect parsing and token freshness, retry
  scheduling, credential selection, RFC 2047 / modified UTF-7 / MIME
  reading through their crates, IMAP command encodings, and the TSV / audit
  renderings, and the keychain calls behind credential storage. Each public
  function states its result in `ensures`, over named results where an
  outside crate computes it; where the result rests on outside state (the
  keychain, the clock) the contract states which entry or value was handed
  over and what holds of every outcome. The laws that relate several
  functions are public proof functions.
- `app/` is the program around it: argument parsing, the IMAP session, the
  SQLite cache, the token endpoint, the loopback listener, the browser, the
  environment and files.
- `tests/` exercises the library on concrete values.
