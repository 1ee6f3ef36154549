# rustc_driver

The option handling and planning logic of a compiler driver, written in
Verus with its contracts proved.

- `cli`: the command line option table and its parse with `getopts`.
- `options`, `codegen`, `cfgspec`: session options from the parsed command
  line (crate types, lints, `-Z` flags, output types, optimization, debug
  info, `--cfg` items, `-C` codegen options).
- `session`, `target`: the session model and the target configuration.
- `config`: the crate configuration (`--cfg` items, `test`, `gc`/`nogc`, and
  the target bindings), with its laws.
- `path`, `output`: `/`-separated paths in their normal form (no `.` or
  empty components, `..` folded), the input, and output file names.
- `driver`: setting up a session, the phases that a compilation runs, LLVM
  and dependency-info plans, pretty-printing modes.
- `annotate`: what the pretty-printer's annotations add around nodes.
- `app/`: the `rustc` command line around the library.
