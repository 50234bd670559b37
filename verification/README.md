# monocle_layout

A monocle window layout system: each layout is a stack of windows that all
fill the tiling area, with the selected window raised on top. The library is
written in Verus; every operation is stated over a mathematical model and
proved against it.

- `src/window.rs` — window ids and navigation directions.
- `src/window_set.rs` — a set of windows kept in a vector.
- `src/model.rs` — the model of one layout and of each operation on it.
- `src/layout_state.rs` — one layout: the executable state and operations.
- `src/slots.rs` — the trusted wrappers around `slotmap::SlotMap`.
- `src/monocle.rs` — the system of layouts, by id.
- `src/render.rs` — the text and container-tree descriptions of a layout.
- `src/laws.rs`, `src/seq_facts.rs` — properties across calls, and the
  sequence facts their proofs use.
- `app/` — frame geometry in floating point, serde forms, and entry points
  that check preconditions and panic as the slot map would.
