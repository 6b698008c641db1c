# NurSearch

NurSearch is a local desktop app launcher: a search window over the installed
applications, an inline calculator and unit converter, system actions,
quicklinks, a launch history that learns what you pick, and a plugin platform
with push-view sessions and per-plugin storage.

This crate is written in Verus. Its library states what each part does as
`requires` / `ensures` contracts over mathematical models and proves the code
against them.

## Layout

- `src/` is the verified library:
  - `calc`, `num`, `units`: the calculator (exact rationals) and unit conversion;
  - `rank`, `ranking`, `search`, `direct`, `system`, `classic`: matching and
    ranking of results;
  - `db`, `history`: the launch history and plugin storage over SQLite;
  - `desktop`, `config`, `shortcut`, `kcm`, `i18n`, `cli`, `launch`: parsing of
    `.desktop` files, settings, shortcuts and command lines;
  - `proto`, `session`, `plugin`, `sdk`, `pm`, `plugins/`: the plugin protocol,
    view sessions, capabilities, the plugin manager and the bundled plugins;
  - `text`: string helpers and the few calls into `std` that the rest builds on.
- `tests/` holds the tests, run against the compiled library.
- `app/` is the program around it: the GTK window, file and process I/O, the
  plugin host's pipes, and the command-line tools.

Calls into outside crates (rusqlite, ciborium, shell-words, std) stand behind
small trusted functions whose doc comments say what is claimed of each.
