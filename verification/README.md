# stateless_codex

A stateless, resumable agent runtime built around an append-only session ledger, with
its logic verified by Verus.

- `src/` is the verified library: the domain model (content, ledger, configuration,
  tools, hooks), the projections of a session's ledger (visible context, title,
  summary), prompt and request building, skill resolution, memory merging, the builder's
  checks, the session slot's reserve/commit/rollback protocol, the plugin hook folds,
  the session set-up (new or resumed) and close, the tool dispatcher and the turn as
  state machines, and the bookkeeping of the
  in-memory storages. Contracts are stated over mathematical views; laws that relate
  several operations are public proof functions.
- `app/` drives the library: the ports that providers, tools, plugins and storages
  implement, the async set-up, turn and dispatch loops that perform the actions the
  state machines ask for, and the serialized forms of ledger metadata.
- `tests/` exercises the library on concrete values.
