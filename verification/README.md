# rustbox

A small collection of tools whose logic is verified with Verus.

- `src/executor*`: a cooperative, round-robin task scheduler. The library
  decides which task is polled next and what happens after each poll; the
  caller holds the futures (`app/runtime.rs`).
- `src/chat*`: the state machine of a terminal chat client (login form,
  rooms, message input, `/` command palette, mouse hit testing, cursor and
  popup geometry). `app/chat_ui.rs` draws it with ratatui and feeds it
  crossterm's events.
- `src/cli*`: what two task-manager command lines print for each command;
  `app/cli_apps.rs` parses the arguments with clap.
- `src/derive_helpers.rs`: the rules behind a few derive/attribute helpers;
  `app/macros.rs` runs the helpers with syn, darling and quote.
- `src/text.rs`: character-level helpers (decimal formatting, trimming,
  prefixes).

`app/main.rs` picks a program by its first argument:
`chat | sched | taskmgr ... | subcmd2 ... | macros`.
