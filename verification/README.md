# sloc_guard

The decision logic of a tool that enforces limits on source lines and on directory
structure, written in Verus. Every function in `src/` carries a contract; Verus proves all of
them except those of the few functions marked `#[verifier::external_body]`, which wrap calls
into `globset`, `regex` and std (the clock, `String::push`, the text of an I/O error). Their
contracts, and the named results (`glob_valid`, `glob_matches`, `regex_compile_error`,
`regex_matches`, `set_patterns`, `builder_patterns`, `glob_set_compiles`) that they speak of,
are trusted, not proved: each wrapper's doc comment says what it claims of the outside code.

## Layout

- `src/` — the verified library.
  - `project.rs`, `project_laws.rs` — logical (configuration-root-relative) paths and the law
    that mapping a path to its logical form and back makes it absolute.
  - `glob.rs`, `logical_glob.rs` — glob and regular-expression matching (the `globset` and
    `regex` crates behind named results), ordered glob lists, scope matchers.
  - `allowlist.rs`, `structure_config.rs`, `filter.rs`, `scanner.rs`, `checker.rs` — allow and
    deny rules, scan configuration, file filters, and the structure scan as a step function
    over walked entries, with its laws.
  - `trend.rs`, `trend_formatting.rs`, `duration.rs` — trend history, retention, deltas, and
    their text.
  - `state.rs`, `path_utils.rs`, `text.rs`, `error.rs` — state-file paths, lock polling, path
    helpers, string helpers, errors.
- `app/` — the side that touches the outside world: file I/O and locks, directory walks,
  JSON, the process working directory, floating-point percentages.
- `tests/` — tests of the library.

## Not included

The walker built on `gix` (`GitAwareScanner` and its collectors) is not part of this crate:
`gix` is not among the crates available to it, and the walk itself is I/O. Walks are done in
`app/` with `walkdir` and `ignore`; the decisions taken on each walked entry are the verified
`walk_step` of `src/scanner.rs`.
