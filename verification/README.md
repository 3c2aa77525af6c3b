# agent_workbench

The core of a local multi-agent development workbench, verified with Verus:
a task graph whose dependency edges carry declared artifacts, an append-only
journal, layered memory (standing L0 rules, soft-invalidated L1 facts,
proposals that reach L2 only when approved), standing permission decisions
keyed by operation type, and the deterministic rules for running a graph:
which task is ready, when its gate passed, when it may merge, and what an
agent's stdio messages are answered.

## Layout

- `src/` — the verified library.
  - `types`, `json`, `error`, `text` — shared values, a JSON model, errors, string helpers.
  - `journal`, `memory`, `permissions`, `store` — the tables and what survives saving them.
  - `graph`, `scheduler` — graph validation, readiness, and the run driver
    (a state machine: it names the next outside action and takes its outcome).
  - `worktree`, `orphans`, `gate`, `merge`, `pathutil` — checkouts, artifacts,
    orphan detection, gates, merges and path containment.
  - `acp` — normalized session events, configuration menus, the process pool,
    the OpenCode probe and the client's decisions.
  - `daemon` — startup banners, the workbench façade and smoke-test reports.
  - `external` — the calls into std and outside crates, with their contracts.
- `tests/` — tests of the library.
- `app/` — the command line: SQLite storage, `git`, gate commands, the agent
  process and its read loop, all driving the library.
