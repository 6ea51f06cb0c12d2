# pact

The logic of the Pact toolchain, verified with Verus.

- `src/` — the verified library:
  - `name.rs` — the rules for project names given to `pact new`;
  - `manifest.rs` — the `pact.toml` model and its validation (package name,
    `X.Y.Z[-pre][+meta]` versions, required fields);
  - `project.rs` — project-root search, the source-walk rules and the
    assembly of a project's sorted source set;
  - `order.rs` — path order and a sort into it;
  - `template.rs` — the `pact new` templates and `{{name}}` substitution;
  - `cli.rs` — the command-line model, logging choices and the plan that
    `pact new` carries out;
  - `text.rs` — character classes and small string operations.
- `app/` — the `pact` binary: argument parsing (clap), TOML reading (serde,
  toml), logging (tracing) and every file-system access.
- `tests/` — tests of the library.
