# kanban_lite

A keyboard-driven Kanban board for the terminal: cards with a title, a
description and a priority (`Low`, `Medium`, `High`) move between the
columns `Todo`, `Doing` and `Done`, and the board is kept in
`data/board.json`.

The library under `src/` is verified with Verus:

- `model` – cards, the board, the selection, and the board operations
  (adding, moving forward, deleting, cycling priority, editing, clamping the
  selection), each specified over a plain-value view of the board.
- `app` – the command state machine: normal mode and the add/edit forms;
  `App::apply_command` is specified by the transition function
  `AppView::step`.
- `input` – keys to commands.
- `storage`, `error`, `session` – the checks on a loaded or saved board,
  the error messages, and the start-up and save-failure decisions.
- `ui` – the layout arithmetic and text wrapping used when drawing.
- `text` – trimming, splitting into words, and small string helpers.
- `laws` – properties of the whole state machine: the selection stays
  valid, ids stay unique, no card ever gets a blank title, cancelling keeps
  the board, and more.

`app/` is the terminal program: crossterm and ratatui, the event loop, and
reading and writing the JSON file with serde.
