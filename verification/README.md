# xunlie

Deterministic compilation of requirement histories into canonical,
self-validating contracts, and certification that two histories compile to
the same contract.

Layout:

- `src/` — the verified library. `engine` ingests source documents
  (`decode` turns a parsed JSON document into a source envelope),
  `resolution` applies add / replace / revoke events in precedence order,
  `contract` builds and validates the canonical contract, `certificate` and
  `variant` certify and replay equivalent variants produced by the
  `operators`. `cli` holds the command decisions (exit codes, failures,
  human-readable texts). `laws`, `ordering` and `presentation` state and prove
  the properties that span several functions.
- `tests/` — executable tests of the library.
- `app/` — the command-line program: argument parsing, file and stream I/O,
  and the serde copies of the library types used on the wire.
