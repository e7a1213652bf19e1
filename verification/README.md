# yobiko

A terminal launcher for the tasks of a project tree: it finds the tasks that
`yobiko.toml`, `Cargo.toml`, `compose.yaml`, `go.mod`, `package.json`,
`mise.toml` and `pyproject.toml` declare, lets the user filter them by a fuzzy
query, edit the shell command, and run it once or in the background.

Layout:

- `src/` is the verified library (Verus): the task model and its shell
  quoting, the providers that read each manifest, the scan that orders what
  they find, path display, and the key handling of every screen as state
  machines. Contracts are stated over spec functions and views; the laws of
  the library are public proof functions beside the code they speak of.
- `app/` is the program around it: walking the directory tree and reading
  files, spawning processes, and drawing the screens with ratatui and
  crossterm.
- `tests/` runs the library on concrete values.
