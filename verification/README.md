# gent

The verified core of gent, a desktop workbench in which LLM, retrieval and
query-translation nodes are wired into a graph and run from a trigger.

`src/` is a Verus library; every function in it carries a contract that
Verus proves. Its modules:

- `config`: application configuration (default format, per-provider defaults).
- `llm`: merging a node's LLM settings with the configuration, choosing the
  API key and endpoint, and reading provider replies into the node's output.
- `rag`: the retrieval request and how a search reply becomes results.
- `query_translation`: multi-query and step-back prompts and replies, and the
  grouping of ranked lists that reciprocal rank fusion scores.
- `react`: the decisions of one ReAct loop (prompt, reply parsing, allowed
  actions, history, warnings, final answer); `engine` gives how the loop
  ends, including the node its `done` port fires.
- `engine`: where a node's inputs come from when a graph runs.
- `graph`, `selection`, `shortcuts`: ports, connections and wire edits,
  click selection, deleting the selection, keyboard shortcuts.
- `nodes`, `properties`, `inspector`, `palette`: node settings and their
  editors, the inspector tabs, the node palette.
- `strings`: string operations specified over `Seq<char>`.

`app/` is ordinary Rust around the library: configuration loading, HTTP
calls to the LLM providers and the search service, shell execution, file
access, the floating-point scoring of rank fusion, and the async drivers of
the ReAct loop and RAG-fusion. `tests/` exercises the library.
