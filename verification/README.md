# cclean — verified core

The decision logic of a small Windows drive-C cleanup tool, written in Verus
and proved against its contracts. The tool's window, its commands, and every
file-system or Windows call stay in `app/`; the library decides what they do
and accounts for what they report.

- `src/targets.rs` — the cleanup catalogue, which items are shown, their
  safety level, and lookup by identifier.
- `src/guard.rs`, `src/winpath.rs` — the guard in front of every deletion and
  the Windows reading of a path into components.
- `src/template.rs`, `src/expand.rs`, `src/glob.rs` — `%VAR%` path templates,
  the one-`*` component expansion, and case-insensitive name matching.
- `src/scan.rs`, `src/stats.rs`, `src/outcome.rs` — scan results (sorted,
  non-empty, totalled), cleanup accounting, and the reports of each kind of
  cleanup.
- `src/text.rs` — character-level helpers on strings.
