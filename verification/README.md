# trust_runtime

The decision-making core of a PLC runtime's operator surfaces, verified with
Verus: the terminal console, the web IDE, the configuration UI, pairing and
access control, runtime-cloud targeting, and the scheduling clocks.

## Layout

- `src/` — the verified library.
  - `text.rs` — character-level string helpers and their specifications.
  - `security.rs`, `pairing.rs`, `entropy.rs` — access roles, pairing codes and
    tokens, and the random/time/base64 calls behind them.
  - `clock.rs`, `resource.rs` — scheduling clocks, the start gate and resource
    control.
  - `cloud/` — runtime-cloud addresses, target status, profile policy and error
    mapping.
  - `ide/` — IDE paths, formatting, completion, sessions, documents (and what
    renames, deletions and creations do to them), audit log, UTF-8 positions,
    rename edits, symbol and text search, directory listings, telemetry and the
    shared workspace state.
  - `ui/` — the console: commands, menus, prompt, settings, I/O lists, key
    handling and its effect on the prompt, the status panel, alerts.
  - `web/` — route tables and the roles or sessions they need, POST policy,
    authentication, configuration-UI inputs and stale-write checks, live
    targets and proxied requests.
- `tests/` — tests of the library.
- `app/` — the I/O around it: files and workspace entries, network probes,
  JSON answers, and text that formats floating-point metrics.
