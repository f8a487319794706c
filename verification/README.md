# ishi

A terminal client for the Linear issue tracker that links issues to Amp agent
threads and tracks background agent runs.

The logic lives in a library verified with Verus (`src/`); the program that
draws the screens, talks to the network and runs processes is ordinary Rust
(`app/`).

## Layout

- `src/amp/` — agent threads and runs: persisted state (thread links,
  workspace history, run records), run reconciliation, run logs, thread
  summaries and timestamps, live-session bookkeeping and session output.
- `src/api/` — issue-tracker records, the response cache, and the prompt and
  answer clean-up for turning free text into an issue draft.
- `src/app.rs`, `src/app/` — the UI state machine: lists, sorting, search and
  filters, the detail view, the workspace picker, loading and refreshing, and
  the input modes that decide what each key press does.
- `src/keys.rs`, `src/views.rs` — key bindings and display styles.
- `src/launch.rs`, `src/issue_context.rs`, `src/config.rs`, `src/suspend.rs` —
  launcher scripts and shell quoting, the issue context handed to a new
  thread, API-key selection, and the terminal sequence around an interactive
  command.
- `src/laws.rs` — properties that span several functions, proved.
- `tests/` — tests of the library.
- `app/` — the event loop, screens, HTTP client, files and processes.
