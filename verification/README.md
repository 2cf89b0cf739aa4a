# ask_workflow

A durable workflow engine: workflow runs with cached activity results,
retries with exponential backoff, duplicate handling per instance, and
signals sent to and from runs, kept in a store.

- `src/` is the engine's logic, verified with Verus: the run state and its
  transitions (`workflow_state.rs`, `workflow.rs`), the in-memory store
  (`db_trait.rs`), the worker's decisions (`worker.rs`), signals
  (`workflow_signal.rs`), what the web pages show (`ui.rs`), the typed
  variant (`typed_version.rs`), and keyed sequences (`keyed.rs`). Calls
  into serde_json and chrono sit behind small trusted wrappers; their
  contracts state what those crates' code does as far as it can be stated,
  and name, or leave open, the texts that cannot (a formatted time, a
  `Debug` text).
- `app/` is the runtime around it: the async worker loop, the MongoDB
  store, the axum/tera web pages, id generation and clocks, and serde
  copies of the engine's types.
- `tests/` runs the library on concrete values.

Times are milliseconds since the UNIX epoch; JSON documents are carried as
text.
