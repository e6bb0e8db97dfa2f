# amux

amux runs coding agents on several machines behind one server. A daemon on every machine starts the
agents, opens terminals, reads files and asks Git. A client keeps sessions, workflows, changes and
terminals at hand and says what is to be shown of them.

- `src/` is the library: what the daemon and the client decide and compute. Every function has a
  contract that Verus proves.
  - `common` holds the types and rules that both sides share.
  - `daemon` holds agents, frames, the outbox, files, Git, terminals and the built-in agent.
  - `desktop` holds the client's state, its polling, its panels and what the user's actions do.
  - `strings`, `sorting`, `table`, `percent`, `json`, `encoding` and `ids` are what these rest on.
- `tests/` runs the library.
- `app/` is the programs around it: sockets, processes, files, the clock and floating-point layout.
  The client there draws no window: it takes its commands from standard input and prints the list
  of sessions, the conversation and the notices.

What the library takes from other crates stands behind a few functions marked
`#[verifier::external_body]`; the comment above each names the outside function and says what is
believed of it. The laws that tie functions together are public proof functions whose names begin
with `law_`.
