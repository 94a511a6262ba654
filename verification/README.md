# agent_host

A host for a self-modifying coding agent whose control loop is written in Lua.
The host gives the agent tools (files, shell, edit sessions, a chat model),
keeps its conversations in SQLite, offers a terminal interface, and rolls the
last commit back when the agent keeps crashing.

## Layout

- `src/` is the verified library (Verus). Every function there carries a
  contract, and the laws that span several functions are public proof
  functions next to the code they speak of:
  - `recovery`: the sliding-window crash detector;
  - `self_update`: the table of edit sessions (open, record, commit, roll back);
  - `compile`: the parser of compiler diagnostics;
  - `search`: glob matching, line search with context, fuzzy matching;
  - `llm`: the retry decisions of a chat request;
  - `tui`: the state machine of the terminal session, slash commands included;
  - `config`: configuration priority and the choice of workspace root;
  - `persistence`: calendar arithmetic and the rows written to the store;
  - `bash`, `fs`, `git`: command screening, path rules, `git status` and
    `git diff --numstat` parsing;
  - `text`, `pattern`, `host`: string helpers, compiled regular expressions,
    and the program's constants and command line.
- `tests/` runs the library on concrete values.
- `app/` is the program around it: the Lua runtime, SQLite, HTTP, the
  terminal, processes and the file system.
