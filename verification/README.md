# orchid_core

The verified core of `orchid`, a command-line runner for model sessions:
sessions and their event logs, the configuration tree (policies,
connections, prompts, authentication profiles), the hooks that events fire,
the requests sent to model providers and the decoding of their streamed
replies, token accounting and budgets, and the tools a model may call
(path scope, file reads, structured file edits).

- `src/` is the library, verified by Verus. The calls it makes into
  `serde_json`, `chrono`, `getrandom`, `globset`, `tiktoken-rs`,
  `fancy-regex` and std go through small trusted wrappers whose contracts
  are written in their doc comments. Hexadecimal ids and UUID text are
  written by verified functions of the library itself.
- `tests/` runs the library on concrete values.
- `app/` is the `orchid` program: argument handling, the session store on
  disk, worker and hook processes, around the library.
