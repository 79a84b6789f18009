# anda_core

A registry of callable agents, verified with Verus.

- `src/` is the library. `AgentSet` keeps agents by name: names are registered in lower case,
  found in any case, and listed in ascending order. Each agent is offered as a function with a
  definition and a JSON schema, and is handed the resources whose tags it supports.
- `src/laws.rs` and the `law_` functions beside the code state what holds across calls.
- `app/` puts async agents, boxed errors and serialization around the library.
- `tests/` runs the library.
