# boltshell

The logic of a small SSH client with a desktop window, written in Verus.

- `src/` is the verified library:
  - `text`: character classes, `trim`, line splitting and substring search.
  - `escape`: removes ANSI escape sequences and control characters from
    terminal output.
  - `terminal`: the terminal view's buffer, prompt detection, typed commands,
    and the decisions of the session loop.
  - `tabs`: the tab bar (home tab first, no page shown twice).
  - `session`: saved sessions, the session form, its checks and messages.
  - `state`: what each button and each finished background task does to the
    window's state.
- `app/` holds the window (egui/eframe), the SQLite store (rusqlite), the SSH
  connections (ssh2), the file picker (rfd) and the tokio runtime, and calls
  the library for every decision.
- `tests/` runs the library on concrete values.

At run time the program reads `data/bolt.png`, the icons under `data/` and
`fonts/LXGWWenKai-Medium.ttf` from the working directory.
