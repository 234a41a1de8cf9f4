# hyprnote

The core logic of the Char command-line tools, the desktop app's plugin
list and the file-sync core, written in Verus. Every function in `src/`
carries a contract. Verus proves them all, except the contracts of the few
`#[verifier::external_body]` functions that call std, `uuid`, `crossterm` and
`tui_textarea`: those are trusted, and each one's doc comment says what it
claims of the call.

- `src/` — the library:
  - `text` — character-level string helpers (trimming, case, search, UTF-8 lengths, order).
  - `commands`, `entry`, `entry_ui`, `textarea` — the entry screen: slash-command scoring
    and highlighting, the ranked popup, the screen's state machine, its input box and what
    its widgets show.
  - `connect`, `stt`, `listen`, `batch`, `models` — command arguments and decisions of the
    `connect`, transcription, `listen`, `batch` and `model list` commands.
  - `transcript`, `rich`, `stream`, `logs` — live transcripts, the rich transcript's word
    bookkeeping, streamed chat answers, and captured log lines.
  - `fs_sync`, `plugins` — paths, attachment names and orphan cleanup decisions; plugin
    entry points and their order.
  - `error` — the tool's error values and their text.
- `tests/` — tests of the library on concrete values.
- `app/` — the program around it: terminal, file system, JSON and tables.
