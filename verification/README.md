# cell_arch

Architecture governance for layered ("cell") Rust projects: linting and
validation of layer rules, dependency and impact analysis, decision records,
handoff packages, development-workflow phases, configuration and plugin
sandboxes.

- `src/` is the library, written in Verus: every function carries a contract
  that the verifier proves. Reading files, running git or cargo, the clock
  and random identifiers stay outside it or behind small trusted wrappers
  whose contracts are documented where they are declared.
- `app/` is the `cell` command-line tool: it walks the project, runs git and
  cargo, reads and writes JSON/TOML files, hands plain values to the library
  and prints what comes back.
- `tests/` exercises the library on concrete inputs.

Outside crates: `proc-macro2` is listed only for its `span-locations`
feature, which gives `app/ast.rs` the line numbers of `syn`'s spans.
