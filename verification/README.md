# s8n

S8n is a terminal system manager: one interface over the installed package
managers (apt, flatpak, snap, brew, npm, pip, pacstall, soar, bun, cargo, am,
topgrade and the Lilith package repository), a Miller-column file manager, a
theme picker, and a graveyard for packages buried with `rip`.

The decisions of the tool are a library verified with Verus; the terminal,
processes and files are handled by a thin program around it.

## Layout

- `src/` — the verified library.
  - `text.rs`, `paths.rs` — text and path operations with their specifications.
  - `sys.rs` — the calls into std and outside crates that the library trusts,
    each with its contract.
  - `pm/` — package records, the output parsers and command lines of the
    built-in managers (`builtin.rs`), and the Lilith manifest's search,
    install and removal steps (`lilith.rs`).
  - `cli.rs` — `source:name` arguments, grouping by source, and the choice of
    the manager that serves a request.
  - `config.rs` — the theme file.
  - `graveyard.rs` — the graveyard's paths, `rip` command lines and listing.
  - `ui.rs` — the one-line progress display's text.
  - `tui/` — the screens' state machines: the package search (`search.rs`),
    the installed packages view (`installed.rs`), the file manager, the menu,
    the theme picker, the paginator, the tab bar and the result table's
    widths.
- `app/` — the `s8n` program: argument handling, drawing with ratatui,
  keyboard input, running the managers' commands, the file system.
- `tests/` — tests of the library on concrete values.
