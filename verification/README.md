# talenode

A verified library for branching dialogue graphs, written in Verus.

- `src/` is the library. Every function carries a `requires` / `ensures`
  contract that Verus proves, except the few small wrappers around `std`,
  `uuid` and `serde_json` marked `#[verifier::external_body]`, whose
  contracts are assumed from those crates' documentation and source; the
  public `law_*` proof functions state
  properties that span several operations (undo after save, reading back an
  exported locale table, flattening, diff then apply, entering and leaving a
  sub-graph, saving a selection as a template and inserting it back, ...).
- `tests/` runs the library on concrete values.
- `app/` is the command-line program around the library: argument handling,
  files, and the JSON document written with serde.

Verify with `verus src/lib.rs --crate-type lib` and the outside crates listed
in `Cargo.toml` (`uuid`, `serde_json`).
