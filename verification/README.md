# tale

A tail-compatible pretty-printer for newline-delimited JSON logs, with its
logic verified by Verus.

- `src/` is the library: the option handling and offsets, the readers'
  decisions (which reader, where to seek, how chunks tile a file, what stdin
  keeps), the log-line patterns and their rendering, the logfmt parser, the
  column layout, the ordering and batching of lines from several files, file
  state tracking and the memory budget. Every function carries a contract
  that Verus proves; calls into `bytes`, `jiff`, `owo-colors`, `textwrap`,
  `humansize`, `ansi-width`, `tabwriter` and `std::path` go through small
  trusted wrappers whose contracts say what those crates promise.
- `app/` is the `tale` binary: option parsing, reading files and stdin,
  watching files, JSON deserialization and writing the output.
- `tests/` runs the library on concrete inputs.
