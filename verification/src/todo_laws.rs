use vstd::prelude::*;
use crate::render::ElementModel;
use crate::todo::{reduce_todos, AnyEvent, TodoEntry, TodoEvent, VisibilityFilter};
use crate::todo_view::{rendered_props, ComponentProps};

verus! {

/// Adding an entry keeps every entry but the last as it was, appends `1` to the
/// text of the last one (keeping whether it is completed), and puts the new entry,
/// not completed, at the end.
pub proof fn lemma_add_todo_marks_last_and_appends(todos: Seq<TodoEntry>, text: String)
    ensures
        reduce_todos(todos, AnyEvent::Todo(TodoEvent::AddTodo { text })).len() == todos.len() + 1,
        reduce_todos(todos, AnyEvent::Todo(TodoEvent::AddTodo { text }))[todos.len() as int]
            == (TodoEntry { text: text@, completed: false }),
        forall|i: int|
            0 <= i < todos.len() - 1 ==> #[trigger] reduce_todos(
                todos,
                AnyEvent::Todo(TodoEvent::AddTodo { text }),
            )[i] == todos[i],
        todos.len() >= 1 ==> reduce_todos(todos, AnyEvent::Todo(TodoEvent::AddTodo { text }))[todos.len()
            - 1] == (TodoEntry {
            text: todos[todos.len() - 1].text + seq!['1'],
            completed: todos[todos.len() - 1].completed,
        }),
{
}

/// Toggling an entry flips whether that entry is completed, keeps its text, and
/// leaves every other entry and the length as they were.
pub proof fn lemma_toggle_flips_one_entry(todos: Seq<TodoEntry>, index: usize)
    requires
        index < todos.len(),
    ensures
        reduce_todos(todos, AnyEvent::Todo(TodoEvent::ToggleTodo { index })).len() == todos.len(),
        reduce_todos(todos, AnyEvent::Todo(TodoEvent::ToggleTodo { index }))[index as int] == (TodoEntry {
            text: todos[index as int].text,
            completed: !todos[index as int].completed,
        }),
        forall|i: int|
            0 <= i < todos.len() && i != index ==> #[trigger] reduce_todos(
                todos,
                AnyEvent::Todo(TodoEvent::ToggleTodo { index }),
            )[i] == todos[i],
{
}

/// Under `ShowCompleted` the application renders the list of exactly the completed
/// entries, in order: every completed entry is shown and nothing else is.
pub proof fn lemma_app_shows_completed_entries(todos: Seq<TodoEntry>)
    ensures
        rendered_props(ComponentProps::TodoApp { todos, visibility_filter: VisibilityFilter::ShowCompleted })
            == ElementModel::Multiple(
            seq![
                ElementModel::Single(ComponentProps::TodoList { todos: todos.filter(|t: TodoEntry| t.completed) }),
                ElementModel::Single(ComponentProps::VisibilityFilter { visibility_filter: VisibilityFilter::ShowCompleted }),
                ElementModel::Single(ComponentProps::TextInput),
            ],
        ),
        forall|i: int|
            0 <= i < todos.len() && #[trigger] todos[i].completed ==> todos.filter(
                |t: TodoEntry| t.completed,
            ).contains(todos[i]),
        forall|x: TodoEntry| todos.filter(|t: TodoEntry| t.completed).contains(x) ==> x.completed,
{
    let pred = |t: TodoEntry| t.completed;
    assert(rendered_props(ComponentProps::TodoApp { todos, visibility_filter: VisibilityFilter::ShowCompleted })
        =~= ElementModel::Multiple(
        seq![
            ElementModel::Single(ComponentProps::TodoList { todos: todos.filter(pred) }),
            ElementModel::Single(ComponentProps::VisibilityFilter { visibility_filter: VisibilityFilter::ShowCompleted }),
            ElementModel::Single(ComponentProps::TextInput),
        ],
    ));
    assert forall|i: int| 0 <= i < todos.len() && #[trigger] todos[i].completed implies todos.filter(pred).contains(
        todos[i],
    ) by {
        broadcast use vstd::seq_lib::group_filter_ensures;
        assert(todos.contains(todos[i]));
    }
    assert forall|x: TodoEntry| todos.filter(pred).contains(x) implies x.completed by {
        broadcast use vstd::seq_lib::group_filter_ensures;
    }
}

/// Under `ShowAll` the application renders the list of all entries.
pub proof fn lemma_app_shows_all_entries(todos: Seq<TodoEntry>)
    ensures
        rendered_props(ComponentProps::TodoApp { todos, visibility_filter: VisibilityFilter::ShowAll })->Multiple_0[0]
            == ElementModel::Single(ComponentProps::TodoList { todos }),
{
}

} // verus!
