# komrad

Komrad is a small actor language: programs are agents that answer
messages with handlers, `[pattern] { block }`. This crate is its core,
written in Verus and proved against its specifications:

- `ast`, `values`, `number`, `operators`, `value_type`, `error`, `message`,
  `channel`, `convert` — the values and syntax trees of the language, each
  with a mathematical view;
- `sexpr`, `to_sexpr` — printing syntax as coloured S-expressions;
- `scope`, `try_bind`, `closure` — scopes, pattern matching of messages
  against handler patterns, closing code over a scope. A scope keeps its
  bindings in a vector in which no name occurs twice, viewed as a map from
  names to values. An agent matches a message in a working copy of its
  scope and takes the copy's bindings back once the message is answered,
  so holes bound by a match that failed part-way stay bound;
- `debug_text` — the debugging form of values and pattern terms that
  error messages and console output show;
- `eval`, `run`, `execute`, `replay` — the interpreter. Running code is a
  function of the code, the starting scope and a list of events: outside
  work (sending, asking, starting list agents, reading another agent's
  scope) is recorded as requests, and a run that lacks the answer to its
  last request waits. `replay` proves that a runtime which answers the
  last request and runs again is answering the request the code waits on,
  and that the second run repeats the first;
- `agent`, `list_agent`, `registry`, `io_agent`, `fs_agent`,
  `assert_agent`, `json_agent`, `ollama_agent`, `dynamic_agent`,
  `default_agents` — the built-in agents and agents defined in the
  language, each as a function from its state and a message to its next
  state and the messages it sends;
- `banner`, `conversation`, `text` — smaller helpers and data.

`app/` is the command and the runtime around the library: tokio tasks and
mailboxes for the agents, the console and the file system, and the
start-up banner.
