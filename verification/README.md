# neonia_swarm

A swarm of language-model agents lays out a factory on a canvas. A producer
orders batches of buildings onto a work queue; a consumer pops them and hands
each to a worker agent that places it, then a router agent draws the route
from the previous building; a window shows the agents, their reasoning and
the drawings.

- `src/` is the library, verified with Verus: the building catalog and the
  batch plan (`producer`), reading the queue (`queue`), what a popped item
  means and what an agent's answer asks for (`consumer`), route redrawing
  (`routes`), the agents' instructions and the route drawings (`templates`),
  the tool hook's reports (`hooks`), the canvas operations (`canvas`) and the
  window's state with its step on each event and its invariant (`window`), identifiers
  (`ids`), and the text primitives beneath them (`text`). JSON is read through
  `serde_json` and UUIDs are drawn through `uuid`, behind trusted wrappers.
- `app/` is the program around it: the Tauri backend's tasks and network
  calls, the Leptos window, and the floating-point geometry (placement search,
  cursor motion, zoom).
- `tests/` runs the library on concrete values.
