use flow::dom::on_click;
use flow::todo::{AnyEvent, Todo, TodoAppState, TodoEvent, TodoState, VisibilityFilter, VisibilityFilterEvent, VisibilityFilterState};
use flow::text_input::State;
use flow::todo_view::app_view;

fn texts(state: &TodoState) -> Vec<(String, bool)> {
    state.todos.iter().map(|t| (t.text.clone(), t.completed)).collect()
}

#[test]
fn add_todo_marks_the_last_entry_and_appends() {
    let state = TodoState { todos: vec![] };
    let state = state.reduce(&AnyEvent::Todo(TodoEvent::AddTodo { text: "Hello".to_string() }));
    assert_eq!(texts(&state), vec![("Hello".to_string(), false)]);
    let state = state.reduce(&AnyEvent::Todo(TodoEvent::AddTodo { text: "World".to_string() }));
    assert_eq!(texts(&state), vec![("Hello1".to_string(), false), ("World".to_string(), false)]);
}

#[test]
fn toggle_flips_one_entry() {
    let state = TodoState {
        todos: vec![
            Todo { text: "a".to_string(), completed: false },
            Todo { text: "b".to_string(), completed: true },
        ],
    };
    let state = state.reduce(&AnyEvent::Todo(TodoEvent::ToggleTodo { index: 1 }));
    assert_eq!(texts(&state), vec![("a".to_string(), false), ("b".to_string(), false)]);
    let state = state.reduce(&AnyEvent::Todo(TodoEvent::ToggleTodo { index: 0 }));
    assert_eq!(texts(&state), vec![("a".to_string(), true), ("b".to_string(), false)]);
}

#[test]
fn other_events_leave_the_entries() {
    let state = TodoState { todos: vec![Todo { text: "a".to_string(), completed: false }] };
    let state = state.reduce(&AnyEvent::Todo(TodoEvent::Nothing));
    let state = state.reduce(&AnyEvent::VisibilityFilter(VisibilityFilterEvent::SetVisibilityFilter(
        VisibilityFilter::ShowCompleted,
    )));
    assert_eq!(texts(&state), vec![("a".to_string(), false)]);
}

#[test]
fn the_app_state_passes_each_event_to_every_part() {
    let state = TodoAppState {
        todos: TodoState { todos: vec![] },
        visibility_filter: VisibilityFilterState { visibility_filter: VisibilityFilter::ShowAll },
        text_input: State::new(),
    };
    let state = state.reduce(&AnyEvent::Todo(TodoEvent::AddTodo { text: "x".to_string() }));
    let state = state.reduce(&AnyEvent::VisibilityFilter(VisibilityFilterEvent::SetVisibilityFilter(
        VisibilityFilter::ShowCompleted,
    )));
    assert_eq!(texts(&state.todos), vec![("x".to_string(), false)]);
    assert!(state.visibility_filter.visibility_filter == VisibilityFilter::ShowCompleted);
    let view = app_view(&state);
    assert_eq!(view.todos.len(), 1);
    assert_eq!(view.todos[0].text, "x");
    assert!(view.visibility_filter == VisibilityFilter::ShowCompleted);
}

#[test]
fn click_handlers_compare_and_copy_their_events() {
    let a = on_click(TodoEvent::ToggleTodo { index: 1 });
    let b = on_click(TodoEvent::ToggleTodo { index: 1 });
    let c = on_click(TodoEvent::ToggleTodo { index: 2 });
    let d = on_click(TodoEvent::AddTodo { text: "t".to_string() });
    assert!(a == b);
    assert!(a != c);
    assert!(a != d);
    assert!(a.clone() == a);
    assert!(d.clone() == d);
}
