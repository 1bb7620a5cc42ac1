# experiment_tracker

A terminal experiment tracker for machine-learning runs: it watches
directories for JSON-lines and CSV training logs, stores their metrics,
shows runs, charts and comparisons, exports them to Markdown, CSV and
LaTeX, starts training containers with Docker and monitors the GPU.

## Layout

- `src/` — the library, verified with Verus. Every public function carries
  a contract; the laws of the library (navigation, the comparison limit,
  debouncing, the GPU history ring, sorting, the default configuration, …)
  are public proof functions.
  - `control/` — the application state, key handling and actions. Actions
    return an `Effect` naming the outside work they need; its outcome comes
    back through the `finish_` methods of `App`.
  - `parser.rs`, `watcher.rs` — log formats, parsing, debouncing, scan order.
  - `export/` — Markdown, CSV and LaTeX reports.
  - `docker.rs`, `gpu.rs` — container bookkeeping, `docker` and
    `nvidia-smi` output parsing, the GPU history ring buffer.
  - `config.rs`, `platform.rs`, `paths.rs`, `time.rs`, `display.rs`,
    `models.rs`, `text.rs`, `numbers.rs`, `order.rs` — the supporting pieces.
- `app/` — the program around the library: command line, configuration
  file, SQLite database, file watching, the `docker` and `nvidia-smi`
  processes, and drawing the screens.
- `tests/` — tests of the library.
