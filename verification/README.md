# cpex

A plugin runtime core: hook registration, route-based plugin selection,
capability-gated message extensions, and a five-phase execution pipeline
(sequential, transform, audit, concurrent, fire-and-forget), with the
common message format (CMF) and its policy view.

## Layout

- `src/` — the library, verified with Verus.
  - `config` — configuration types, validation, glob patterns, route
    matching and plugin resolution.
  - `registry`, `manager` — registered plugins, hook entries in priority
    order, lifecycle plans.
  - `executor` — the pipeline as a state machine: `start`, then
    `next_step` until `Finished`, reporting each plugin's outcome back
    (`serial_result`, `audit_result`, `concurrent_result`), then `finish`.
  - `extensions` — extension slots with their mutability tiers, the
    copy-on-write workspace, write tokens, and capability filtering.
  - `context` — per-plugin local state and shared global state across
    invocations.
  - `cmf` — messages, content parts, views and their dictionary form.
  - `plugins` — the decisions of the reference plugins.
  - `boundary` — status codes and settings of the C interface.
- `tests/` — tests of the library.
- `app/` — the host: plugin objects and typed handlers, the async runtime
  that carries out the pipeline's steps with timeouts and tasks, YAML and
  MessagePack formats, and the C interface.
