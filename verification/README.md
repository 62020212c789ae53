# portmon

A monitor of listening ports: which process owns each listening TCP and UDP
socket, with its user, command line, project directory and resources. It
lists the ports (`list`, as a table or JSON), shows one in detail (`info`),
kills its owner (`kill`), watches it for binds and releases (`watch`), or
runs an interactive table with filtering, sorting, a detail pane and
clipboard and browser shortcuts.

## Layout

- `src/` is the library, verified with Verus: the data model and its sort
  order (`types`), the socket-table filter (`scanner`), process and container
  information (`process`), the join of sockets with owners (`collector`),
  the interactive table's state (`app`), what each key and action does
  (`keybindings`, `actions`), the subcommands' decisions and printed text
  (`commands`, `report`, `output`), and what the screen shows (`view`,
  `screen`). Text helpers live in `text` and `path`.
- `app/` is the program around it: argument parsing, reading `/proc`,
  signals, the clipboard, the browser, JSON and table printing, and drawing
  the terminal interface.
- `tests/` runs the library on concrete values.
