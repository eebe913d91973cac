# spawningpool

Define, inspect and run hyper-specific LLM agents ("specialists") from the
command line: providers (which wire protocol, which endpoint, which key),
models, specialists (a system prompt, tools, an optional forced tool call, a
reasoning level) and tools (executable scripts with a small header).

The library in `src/` is verified with Verus: every public function carries a
`requires`/`ensures` contract, and the laws that relate several functions
are stated and proved as `law_*` proof functions.

## Layout

- `src/` — the verified library
  - `text`, `sort`, `names`: strings, sorting, and the `NameMap` every
    registry section is.
  - `domain`: the registry and its consistency checks (resolving a
    specialist's model, missing references, who refers to what).
  - `commands`, `display`: what `define`, `delete`, `run` and bare
    `spawningpool` decide and print.
  - `ai`, `message`: the provider-neutral request vocabulary.
  - `anthropic`, `openai`, `sse`, `json`: the two wire protocols — request
    bodies, whole replies and streamed events — and server-sent events.
  - `run`, `log`: the specialist run loop as a state machine, and the
    structured log events.
  - `converse`: turn-taking around a one-turn workflow — the mode picked
    each turn, the window carried between turns, the workflow's input
    contract, and the stored record of a conversation.
  - `script`, `validation`, `clock`, `snapshot`, `editor`: tool-script
    headers and results, tool-call schema checks, timestamps and log file
    names, registry snapshots, and how an editor is launched.
  - `counter`: the update rule of the desktop front end's counter.
  - `tui`, `screen`: the terminal UI's state machine and what it shows.
- `app/` — the `spawningpool` binary: argument parsing, files, the HTTP
  client, the terminal, and JSON.
- `tests/` — tests of the library on concrete values.
