# useract-forensic

A verified user-activity correlation library. Decoded shell-history entries and
external-device connections are normalized into one `UserActivity` event, merged
into a single epoch-ordered timeline, and audited for cross-source findings
(`USERACT-HISTORY-TAMPERED`, `USERACT-EXEC-DURING-REMOVABLE-MEDIA`) plus a generic
volume-serial join between devices and the files or folders that name the same
volume serial.

Layout:

- `src/` — the library, proved with Verus: the event model (`activity`), source
  adapters (`sources`), history-tampering recognition (`tamper`), the timeline
  (`timeline`), the volume-serial join (`joins`), bus classification through
  `peripheral_core` (`bus`), the findings model (`report`) and the audit (`audit`),
  over character-level text helpers (`text`, `render`).
- `app/` — glue to the reader crates (`shellhist_core`, `peripheral_core`) and to
  `forensicnomicon::report`, which the findings are emitted through.
- `tests/` — scenario tests, including a run over a bash-format history decoded
  with `shellhist_core::parse_auto`.
