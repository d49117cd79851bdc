# mirl_build_tools

Helper functionality for `build.rs` scripts: it reads the manifest, the lock
file and the output of `cargo metadata`, decides whether a crate needs
nightly, checks the `miri`/`test` flags, and warns when a feature of the crate
does not activate the feature of the same name of a dependency. A small
formatter draws boxed console messages.

## Layout

- `src/` is the library, written in Verus: every function carries a
  contract and is proved against it.
  - `toml.rs`, `lock.rs`, `nightly.rs`: reading the manifest, the lock file
    and the sources line by line, with positions of what was found.
  - `json.rs`, `metadata.rs`: the document of `cargo metadata` as a flat tape
    (parsed by `simd_json`), the packages, features and dependencies read from
    it, and the dependency check itself.
  - `report.rs`, `sorting.rs`: the warnings of the dependency check, ordered
    by the lines of the manifest.
  - `settings.rs`: the settings of `setup`.
  - `pretty_print/`: the boxed text formatter; border, margin and the
    character set are chosen from arguments (terminal width, forced set),
    which `app/` supplies.
  - `laws.rs`: properties that span several operations.
- `app/` is the plain Rust around it: reading files and the environment,
  running `cargo metadata`, printing the instructions cargo reads from a
  build script.
- `tests/` runs the library on concrete inputs.
