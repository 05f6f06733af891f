# blitz_rs

An HTTP load benchmarking tool whose decisions and statistics are verified
with Verus.

- `src/` — the verified library: request sources (`source`), request
  configuration and its display text (`config`), header selection (`http`),
  command-line decisions (`cli`), errors (`error`), the benchmark scheduler,
  latency sorting and outcome statistics (`bench`), and the reported figures
  (`output`).
- `app/` — the program around it: argument parsing with clap, reading the TOML
  configuration, sending requests with reqwest on tokio, progress bar, colored
  and JSON output, and a small axum test server.
- `tests/` — tests of the library on concrete values.
