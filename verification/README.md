# stick

Keeps Hangul file names in Unicode NFC form, so that names written on macOS
(decomposed, NFD) read correctly elsewhere.

- `src/` is the library, verified with Verus: which names need converting and
  to what, which paths are left alone, the leaf-first order of a scan, the
  configuration and its checks, the service files and the steps that start,
  stop and query the service, the watch loop's decisions, and the settings
  screen (its state, its keys and what it shows).
- `app/` is the `stick` program around it: command line, configuration file,
  logging, walking and renaming on disk, the file system watcher, the service
  manager's programs, and the terminal.
- `tests/` exercises the library on concrete values.

Commands: `stick config` (settings screen), `stick scan [--dry-run] [--yes]`,
`stick start`, `stick stop`, `stick status`, `stick version`.
