# bacon

The core of **bacon**, which runs jobs on a project in background: the analysis of the output
of build and test tools (cargo, cargo-nextest, eslint, biome, go, ruff,
pytest, unittest, C++ compilers and the doctest framework, swift and
swiftlint) into reports of errors, warnings and test failures.

The library in `src/` states the behavior of each recognizer and report
builder in contracts that are proved with Verus:

- `text.rs`, `tline.rs`: character classes, styled strings and lines;
- `analysis/patterns.rs`: locations ("src/main.rs:12:5"), counts of
  warnings, test panics;
- `analysis/standard`: cargo-like outputs, line by line, then the report
  (errors first, then test failures, then warnings, each item numbered);
- one module per other tool, and `analysis/analyzer.rs` to pick an analyzer
  by kind;
- `positional_args.rs`, `cli/`, `display_settings.rs`, `exec/period.rs`:
  launch arguments and settings;
- `action.rs`: the actions bound to keys, read from and written to their
  text form, with the proof that a well written action reads back;
- `mission.rs`: the decisions of a running job (rerun on change, pause,
  scope to failures, change of job, quit) as a function from state and
  event to new state and action;
- `watches.rs`: what a job watches, and which of the watched paths are
  kept;
- `conf/`: the key bindings (the last binding of a key counts), the jobs,
  the configuration items and the settings they make, layered in order
  and overridden by the launch arguments, with their check.

`app/` reads the configuration files (TOML), runs the job, feeds its
output to an analyzer, prints the report, and runs it again when the
watched files change or when a key asks for it.
