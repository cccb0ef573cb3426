# fallow_cli

The decision logic of the `fallow` command line for JavaScript and TypeScript
projects (dead code, complexity health, duplication audits, regression
baselines, configuration migration, feature flags, runtime coverage),
written in Verus. Every function in `src/` carries a contract; Verus proves
each one except the small trusted wrappers around outside crates and std,
whose contracts are believed and say only what those crates document.

Layout:

- `src/` — the verified library, one module per concern (`audit`, `baseline`,
  `codeowners`, `complexity`, `dead_code`, `dependency_fix`, `dupes`, `fix`,
  `flags`, `health_run`, `migrate`, `regression`, `runtime_coverage`,
  `sidecar`, `targets`, …) and the shared text, search, path and ordering
  utilities they are built on. Public `proof fn`s state the laws that relate
  several functions.
- `tests/` — tests of the library on concrete values.
- `app/` — the `fallow` binary: argument handling, files, git, JSON and the
  floating-point scores, around the library.

Outside crates: `globset` (CODEOWNERS and ignore patterns), `xxhash-rust`
(stable runtime ids), `serde_json` (whether a text is plain JSON) and
`json_comments` (blanking JSONC comments) are called from the library through
small trusted wrappers; the binary also uses `serde` and `serde_json` to read
and write JSON.

Paths are compared by components split at `/`, as on Unix; the remainder of
`Path::strip_prefix` is taken from std on the platform the crate is built for.
