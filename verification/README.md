# howdy

A library for inspecting and driving a [Howdy](https://github.com/boltgolt/howdy)
face-authentication install on Linux, verified with Verus, and `howdyctl`, a TUI
and CLI built on it.

- `src/` — the verified library. Every decision is made here on plain values:
  `config.ini` lookups and edits (`config`), IR-camera detection and camera order
  (`camera`, `ioctl`), health checks (`doctor`), idempotent repairs (`fix`), model
  paths and Howdy CLI arguments (`model`), recognition-test reports
  (`recognition`), and the manager's navigation (`tui`). `text` models the `str`
  operations these rely on.
- `app/` — `howdyctl`: reads files and devices, runs processes, draws the TUI,
  and hands what it finds to the library.
- `tests/` — unit tests of the library.
