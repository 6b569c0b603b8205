use vstd::prelude::*;
use crate::render::{AnyEqual, CloneBox};
use crate::text_input;

verus! {

/// A to-do entry as the contracts see it.
pub struct TodoEntry {
    pub text: Seq<char>,
    pub completed: bool,
}

/// A to-do entry.
pub struct Todo {
    pub text: String,
    pub completed: bool,
}

impl View for Todo {
    type V = TodoEntry;

    open spec fn view(&self) -> TodoEntry {
        TodoEntry { text: self.text@, completed: self.completed }
    }
}

pub open spec fn todos_view(todos: Seq<Todo>) -> Seq<TodoEntry> {
    todos.map_values(|t: Todo| t@)
}

impl Todo {
    pub fn clone_todo(&self) -> (r: Todo)
        ensures
            r@ == self@,
    {
        Todo { text: self.text.clone(), completed: self.completed }
    }
}

/// A copy of a list of entries.
pub fn clone_todos(todos: &Vec<Todo>) -> (r: Vec<Todo>)
    ensures
        todos_view(r@) == todos_view(todos@),
{
    let mut r: Vec<Todo> = Vec::new();
    let mut i: usize = 0;
    while i < todos.len()
        invariant
            0 <= i <= todos.len(),
            r@.len() == i,
            forall|j: int| 0 <= j < i ==> #[trigger] r@[j]@ == todos@[j]@,
        decreases todos.len() - i,
    {
        r.push(todos[i].clone_todo());
        i = i + 1;
    }
    assert(todos_view(r@) =~= todos_view(todos@));
    r
}

/// Whether two lists of entries are equal, entry by entry.
pub fn todos_equal(a: &Vec<Todo>, b: &Vec<Todo>) -> (r: bool)
    ensures
        r == (todos_view(a@) == todos_view(b@)),
{
    if a.len() != b.len() {
        proof {
            assert(todos_view(a@).len() != todos_view(b@).len());
        }
        return false;
    }
    let mut i: usize = 0;
    while i < a.len()
        invariant
            0 <= i <= a.len(),
            a.len() == b.len(),
            forall|j: int| 0 <= j < i ==> #[trigger] a@[j]@ == b@[j]@,
        decreases a.len() - i,
    {
        if a[i].text != b[i].text || a[i].completed != b[i].completed {
            proof {
                assert(todos_view(a@)[i as int] != todos_view(b@)[i as int]);
            }
            return false;
        }
        i = i + 1;
    }
    assert(todos_view(a@) =~= todos_view(b@));
    true
}

/// The events of the to-do list.
#[derive(Debug)]
pub enum TodoEvent {
    AddTodo { text: String },
    ToggleTodo { index: usize },
    Nothing,
}

/// Which entries the list shows.
#[derive(Clone, Copy, PartialEq, Eq, Structural, Debug)]
pub enum VisibilityFilter {
    ShowAll,
    ShowCompleted,
}

#[derive(Debug)]
pub enum VisibilityFilterEvent {
    SetVisibilityFilter(VisibilityFilter),
}

/// An event of the application, of whichever part it is meant for: each part
/// reacts to its own events and passes over the others.
#[derive(Debug)]
pub enum AnyEvent {
    Todo(TodoEvent),
    VisibilityFilter(VisibilityFilterEvent),
    TextInput(text_input::Event),
}

/// The state of the to-do list.
pub struct TodoState {
    pub todos: Vec<Todo>,
}

/// Adding an entry: the text of the last entry, if any, gets a `1` appended; then
/// the new entry is added, not completed.
pub open spec fn add_todo(todos: Seq<TodoEntry>, text: Seq<char>) -> Seq<TodoEntry> {
    let marked = if todos.len() == 0 {
        todos
    } else {
        todos.update(
            todos.len() - 1,
            TodoEntry { text: todos.last().text + seq!['1'], completed: todos.last().completed },
        )
    };
    marked.push(TodoEntry { text: text, completed: false })
}

/// Toggling whether the entry at `index` is completed.
pub open spec fn toggle_todo(todos: Seq<TodoEntry>, index: int) -> Seq<TodoEntry> {
    todos.update(index, TodoEntry { text: todos[index].text, completed: !todos[index].completed })
}

/// The entries after an event.
pub open spec fn reduce_todos(todos: Seq<TodoEntry>, event: AnyEvent) -> Seq<TodoEntry> {
    match event {
        AnyEvent::Todo(TodoEvent::AddTodo { text }) => add_todo(todos, text@),
        AnyEvent::Todo(TodoEvent::ToggleTodo { index }) => toggle_todo(todos, index as int),
        _ => todos,
    }
}

/// The events that a list with this many entries can take: a toggle must name an entry.
pub open spec fn event_fits(len: nat, event: AnyEvent) -> bool {
    match event {
        AnyEvent::Todo(TodoEvent::ToggleTodo { index }) => index < len,
        _ => true,
    }
}

/// The events that the whole application can take: those the list can take, and no
/// text-input event (none is handled yet).
pub open spec fn app_event_fits(len: nat, event: AnyEvent) -> bool {
    event_fits(len, event) && !(event is TextInput)
}

impl TodoState {
    pub fn reduce(self, event: &AnyEvent) -> (r: Self)
        requires
            event_fits(self.todos@.len(), *event),
        ensures
            todos_view(r.todos@) == reduce_todos(todos_view(self.todos@), *event),
    {
        let mut todos = self.todos;
        let ghost before = todos_view(todos@);
        match event {
            AnyEvent::Todo(TodoEvent::AddTodo { text }) => {
                let n = todos.len();
                if n > 0 {
                    let ghost kept = todos@.subrange(0, n - 1);
                    let mut last = todos.remove(n - 1);
                    let ghost old_text = last.text@;
                    last.text.append("1");
                    proof {
                        reveal_strlit("1");
                        assert("1"@ =~= seq!['1']);
                        assert(last.text@ == old_text + seq!['1']);
                        assert(todos@ =~= kept);
                    }
                    todos.push(last);
                }
                let ghost marked = todos_view(todos@);
                proof {
                    if n > 0 {
                        assert(marked =~= before.update(
                            before.len() - 1,
                            TodoEntry { text: before.last().text + seq!['1'], completed: before.last().completed },
                        ));
                    } else {
                        assert(marked =~= before);
                    }
                }
                todos.push(Todo { text: text.clone(), completed: false });
                proof {
                    assert(todos_view(todos@) =~= marked.push(TodoEntry { text: text@, completed: false }));
                }
            },
            AnyEvent::Todo(TodoEvent::ToggleTodo { index }) => {
                let i = *index;
                let mut t = todos.remove(i);
                t.completed = !t.completed;
                todos.insert(i, t);
                proof {
                    assert(todos_view(todos@) =~= toggle_todo(before, i as int));
                }
            },
            _ => {},
        }
        TodoState { todos }
    }
}

pub struct VisibilityFilterState {
    pub visibility_filter: VisibilityFilter,
}

impl VisibilityFilterState {
    pub fn reduce(self, event: &AnyEvent) -> (r: Self)
        ensures
            r.visibility_filter == match *event {
                AnyEvent::VisibilityFilter(VisibilityFilterEvent::SetVisibilityFilter(f)) => f,
                _ => self.visibility_filter,
            },
    {
        match event {
            AnyEvent::VisibilityFilter(VisibilityFilterEvent::SetVisibilityFilter(f)) => {
                VisibilityFilterState { visibility_filter: *f }
            },
            _ => self,
        }
    }
}

/// The DOM example names the states of its parts models.
pub type TodoModel = TodoState;

pub type VisibilityFilterModel = VisibilityFilterState;

pub type TodoAppModel = TodoAppState;

/// The state of the whole application.
pub struct TodoAppState {
    pub todos: TodoState,
    pub visibility_filter: VisibilityFilterState,
    pub text_input: text_input::State,
}

impl TodoAppState {
    /// Each part of the state takes the event in turn.
    pub fn reduce(self, event: &AnyEvent) -> (r: Self)
        requires
            app_event_fits(self.todos.todos@.len(), *event),
        ensures
            todos_view(r.todos.todos@) == reduce_todos(todos_view(self.todos.todos@), *event),
            r.visibility_filter.visibility_filter == match *event {
                AnyEvent::VisibilityFilter(VisibilityFilterEvent::SetVisibilityFilter(f)) => f,
                _ => self.visibility_filter.visibility_filter,
            },
    {
        TodoAppState {
            todos: self.todos.reduce(event),
            visibility_filter: self.visibility_filter.reduce(event),
            text_input: self.text_input.reduce(event),
        }
    }
}

/// A to-do event as the contracts see it.
pub enum TodoEventModel {
    AddTodo { text: Seq<char> },
    ToggleTodo { index: usize },
    Nothing,
}

impl View for TodoEvent {
    type V = TodoEventModel;

    open spec fn view(&self) -> TodoEventModel {
        match self {
            TodoEvent::AddTodo { text } => TodoEventModel::AddTodo { text: text@ },
            TodoEvent::ToggleTodo { index } => TodoEventModel::ToggleTodo { index: *index },
            TodoEvent::Nothing => TodoEventModel::Nothing,
        }
    }
}

impl AnyEqual for TodoEvent {
    open spec fn kind_of(props: TodoEventModel) -> int {
        0
    }

    fn same_kind(&self, other: &Self) -> (r: bool) {
        true
    }

    fn equals(&self, other: &Self) -> (r: bool) {
        match (self, other) {
            (TodoEvent::AddTodo { text: a }, TodoEvent::AddTodo { text: b }) => *a == *b,
            (TodoEvent::ToggleTodo { index: a }, TodoEvent::ToggleTodo { index: b }) => *a == *b,
            (TodoEvent::Nothing, TodoEvent::Nothing) => true,
            _ => false,
        }
    }
}

impl CloneBox for TodoEvent {
    fn clone_box(&self) -> (r: Self) {
        match self {
            TodoEvent::AddTodo { text } => TodoEvent::AddTodo { text: text.clone() },
            TodoEvent::ToggleTodo { index } => TodoEvent::ToggleTodo { index: *index },
            TodoEvent::Nothing => TodoEvent::Nothing,
        }
    }
}

} // verus!
