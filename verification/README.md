# bspterm

The verified core of a remote-connection terminal, written in Verus.

- `src/suggestion_history.rs`: the command history behind autosuggestion
  (most recent first, deduplicated, bounded, purged by age), with its
  specification; `src/history_laws.rs` proves its laws.
- `src/keystroke_recorder.rs`: the state machine that records keyboard
  shortcuts; `src/recording_indicator.rs`: the status-bar label.
- `src/auto_recognize.rs`: parsed connections and the test for session
  environment info text.
- `src/text.rs`: character-level helpers (prefixes, Unicode trimming, line
  splitting) proved against their specifications.
- `src/clock.rs`: the system clock, read as Unix seconds without panicking.
- `app/`: JSON storage of the history (serde, serde_json).
