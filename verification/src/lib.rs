//! A small component framework: components render to element trees, and a
//! render tree is kept in step with the elements by reconciliation, which
//! reports the lifecycle effects (mounts and unmounts) it causes. A to-do list
//! application is built with it.
pub mod render;
pub mod render_tree;
pub mod laws;
pub mod start;
pub mod dom;
pub mod todo;
pub mod todo_view;
pub mod text_input;
pub mod todo_laws;
