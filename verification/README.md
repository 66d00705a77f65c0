# libsy

Routing for coding sessions: a capable model plans, an efficient model
executes, and the capable model comes back for bounded checkpoints or for the
final word. Written in Verus: every decision is proved to meet its contract.

- `src/` is the verified library. `plan_execute` and `plan_execute_finalize`
  hold the routers, `compaction` shortens conversations, `replay` keeps
  preserved wire bodies in step, `turn` buffers and inspects an executor's
  turn. `laws` and `compaction_laws` state what holds across requests.
- JSON values are `serde_json`'s and patterns are `regex`'s. What is believed of
  these crates stands in `json` and `pattern`, and of the standard library in
  `text`.
- `app/` runs the routers: calls to models, streams, locks and logging.
- `tests/` runs the library on concrete values.
