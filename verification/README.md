# redpill

The logic of an SSH / Kubernetes / SSM terminal manager, verified with Verus.

- `src/` is the verified library:
  - `session/`: sessions and hierarchical groups, the session manager (add, update,
    delete, move with cycle checks, recursive collection for mass connect), keychain
    secrets, and the proofs about the group hierarchy.
  - `terminal/`: key-to-escape-sequence translation, colour schemes and palettes, grid
    sizes, the SSH backend (connection steps, authentication requests, read buffering,
    reconnection schedule, `known_hosts` checking), the SSM message format and backend
    state, and the Kubernetes pod-exec backend.
  - `agent/`: the stream-json protocol of the coding-agent CLI and its connection errors.
  - `ui/`: the state behind the interface: agent panel, session and group forms, tabs,
    split panes, search bar and session tree.
  - `state.rs`: the application state tying the session manager to the open tabs
    (deleting a session closes its tabs; mass connect).
  - `kubernetes/`, `sftp/`, `config.rs`: kubeconfig parsing, pod summaries, directory
    listings, application defaults and colour schemes.
  - `text.rs`, `bytes.rs`, `doc.rs`, `keyed.rs`, `ids.rs`, `matching.rs`: strings,
    big-endian encodings, parsed JSON/YAML documents, string-keyed sets and maps, UUIDs
    and regular expressions.
- `app/` is the program around it: files, configuration with floating-point zoom,
  serde formats, the CLI process, and the command line.
- `tests/` exercise the library from outside.
