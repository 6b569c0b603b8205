# flow

A small component framework with a to-do list application, verified with Verus.

- `src/render.rs`: element trees, the component traits (`Render`, `AnyEqual`,
  `CloneBox`), lifecycle effects, and `render` for what can be turned into
  elements.
- `src/render_tree.rs`: render trees (`Node`), and building and reconciling them
  against element trees; each function's contract is given by the spec functions
  `build`, `reconcile`, `reconcile_list`, `from_render_model` and `update_model`.
- `src/laws.rs`: what holds of reconciliation as a whole.
- `src/start.rs`: showing a component in a possibly empty render tree.
- `src/todo.rs`, `src/todo_view.rs`, `src/text_input.rs`: the to-do application's
  state, reducers and components.
- `src/dom.rs`: click handlers.
- `app/`: the program that runs the to-do script and performs the lifecycle
  hooks, and the browser entry points.
