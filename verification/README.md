# mh

A durable runtime for coding agents: tasks that outlive a process and a context
window, programs that call tools under a budget, delegated workers in isolated
workspaces, background processes, checkpoints, and explicit, validated
completion.

- `src/` is the library, verified with Verus: the state machines, rules, parsers
  and formats of the runtime, each with its contract. What holds across functions
  is stated in the public proof functions named `law_*`.
- `tests/` runs the library, with the outside crates linked.
- `app/` is the program around the library: the command line, the terminal, files,
  processes, threads, the provider's transport and the script engine.

The library asks its callers for plain values and hands plain values back. Where
it calls an outside crate (`serde_json` for JSON, `sha2` for digests), the call
stands behind a function whose doc comment says what is taken on trust.
