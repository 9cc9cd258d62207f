# lpagent

The decision logic of a coding agent — its tools, the rules of its server
and of its terminal interface — written in Verus, with each function's
behaviour stated as a contract and proved. The async server runtime, the
terminal event loop and the worker's client connection are not part of
it. Some of their decisions stand here as step functions from state and
input to the next state and what to do: a session's turns
(`server/turn_state.rs`), the worker's commands (`tui/worker_loop.rs`),
slash commands (`tui/commands.rs`), onboarding (`tui/configure.rs`) and
what a key asks for (`tui/keys.rs`). The editing of the composer's text is
not modelled.

## Layout

- `src/` — the library. Its functions are verified, except a few small
  wrappers around outside calls (`textwrap`, `unicode-width`, tokio's
  oneshot channel, and some std string functions); their doc comments say
  what their contracts assume.
  - `patch/` — the patch format: parsing, locating hunks in a file,
    applying them, and planning and reporting a patch request.
  - `ls.rs` — the directory listing tool.
  - `registry.rs` — the registry of tools and its allow/deny filters.
  - `mcp.rs` — tools offered by MCP servers, registered under namespaced
    names, and their results flattened to text.
  - `server/` — approvals, the routing of client messages, the checks on
    turn requests, a session's turns, session titles, settings and forks,
    and the streaming of a turn.
  - `tui/` — the terminal interface's decisions: the transcript and its
    wrapping, the slash commands, key handling, the pickers, onboarding,
    the worker's commands, popups and theme.
  - `text.rs` — the character-level text functions the rest builds on.
- `tests/` — tests run against the compiled library.
- `app/` — what the library leaves out: the file system, the environment,
  JSON and the command line.

Laws that relate several functions are public proof functions named
`law_*`, next to the functions they speak of.
