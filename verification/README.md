# modal-rust (verified core)

The planning core of the `modal-rust` tooling — the part that decides what is
uploaded, built and created on Modal — written in Verus and proved against
its contracts.

## Layout

- `src/` — the verified library.
  - `path.rs`, `order.rs`, `text.rs` — path components, the `str`/`Path`
    orders, and the text helpers the rest is written with.
  - `scope.rs`, `upload.rs` — the cargo-metadata dependency closure of a
    package (least, sorted, with the escaping path dependencies) and the
    scoped upload built over it.
  - `manifest.rs` — `Cargo.toml` rewrites over `toml_edit` documents:
    workspace members, dev-dependency tables, shadow path dependencies.
  - `runner_gen.rs` — the generated `modal_runner` bin and where it goes.
  - `config.rs`, `remote.rs`, `deploy.rs`, `env.rs` — per-function options,
    the run and deploy configurations, object tags and adapter names, image
    steps, the wrapper configuration and the environment knobs.
  - `control_plane.rs` — the run/deploy boundary, the image and function
    plans, the publish union, the one provisioning sequence over any
    control plane, and the run path's resolution of a function over it.
  - `deploy.rs` also holds the deploy over any control plane.
  - `dump.rs` — the offline recording control plane, the run and deploy
    dumps recorded over it, and the manifest render.
  - `error.rs` — the runner's failure taxonomy and the library's errors.
- `app/` — the process side: environment and working-directory discovery,
  `cargo metadata`, the shadow build's file system work, and the JSON shapes
  (serde) the runner and the CLI exchange.
- `tests/` — tests over the library's public API.

The in-process and remote call API (`App`, `Function`, the typed calls) and
the runner CLI's dispatch sit on the runtime's handler registry and the Modal
client; they are not part of this crate.
