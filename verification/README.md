# quickhorse_core

The core of QuickHorse, a terminal coding agent, written in Verus: every
function in `src/` carries a `requires`/`ensures` contract that Verus proves.

## Layout

- `src/text.rs`, `src/unicode.rs`, `src/paths.rs`, `src/time.rs`: string,
  Unicode, path and clock primitives, with the specifications the rest of
  the library is stated in. Calls into `unicode-width`,
  `unicode-segmentation`, `unicode-normalization`, `std::path` and the
  clock sit behind small trusted wrappers whose contracts are documented
  next to them.
- `src/tools/`: the agent's tools (shell, code execution, git, SQLite,
  images, file read/edit/write, unified-diff patches, glob, grep, web
  fetch). Each tool's decisions live here: input validation, permission
  outcomes, command arguments, parsing of command output, result messages.
  Running processes and touching disk or network is left to the caller.
- `src/tui/`: the terminal UI state: the text editor, cursor and kill ring,
  completion (slash commands and paths), scrolling, stream buffering,
  progress, the permission dialog, command history, the transcript cache
  and layout, and the application state machine (`tui/app/state.rs`),
  which turns key presses and stream events into new states and tells its
  caller what outside work to do next.
- `tests/`: executable tests of the library.
- `app/`: the process-facing side (ordinary Rust, not verified): JSON
  forms of tool inputs and outputs, tool runners that spawn processes and
  read and write files, the HTTP client, history persistence, terminal
  setup, the event loop step, and drawing with ratatui.

## Laws

Besides the per-function contracts, `src/` states and proves properties
that relate several operations, as `pub proof fn lemma_*` items, for
example: editing undone by the inverse key restores the editor; moving a
selection down then up returns to it; scrolling stays in range and reaches
the tail; the per-cell transcript cache produces the same transcript as a
fresh render; path suggestions come out sorted with directories first.
