use vstd::prelude::*;
use crate::render::{
    elements_model, lemma_elements_model_eq, render, text, top, top_list, AnyEqual, CloneBox,
    Element, ElementModel, Render,
};
use crate::text_input;
use crate::todo::{clone_todos, todos_equal, todos_view, Todo, TodoAppState, TodoEntry, VisibilityFilter};

verus! {

/// The properties of a component of the to-do application, by component type.
pub enum ComponentProps {
    TodoApp { todos: Seq<TodoEntry>, visibility_filter: VisibilityFilter },
    TodoList { todos: Seq<TodoEntry> },
    Todo { text: Seq<char>, completed: bool, index: usize },
    VisibilityFilter { visibility_filter: VisibilityFilter },
    TextInput,
}

/// The whole application: the list, the filter and the text input.
pub struct TodoAppView {
    pub todos: Vec<Todo>,
    pub visibility_filter: VisibilityFilter,
    pub text_input: text_input::View,
}

/// The list of the entries that are shown.
pub struct TodoListView {
    pub todos: Vec<Todo>,
}

/// One entry, with its position in the list.
pub struct TodoView {
    pub text: String,
    pub completed: bool,
    pub index: usize,
}

/// The choice of which entries are shown.
pub struct VisibilityFilterView {
    pub visibility_filter: VisibilityFilter,
}

impl View for TodoAppView {
    type V = ComponentProps;

    open spec fn view(&self) -> ComponentProps {
        ComponentProps::TodoApp { todos: todos_view(self.todos@), visibility_filter: self.visibility_filter }
    }
}

impl View for TodoListView {
    type V = ComponentProps;

    open spec fn view(&self) -> ComponentProps {
        ComponentProps::TodoList { todos: todos_view(self.todos@) }
    }
}

impl View for TodoView {
    type V = ComponentProps;

    open spec fn view(&self) -> ComponentProps {
        ComponentProps::Todo { text: self.text@, completed: self.completed, index: self.index }
    }
}

impl View for VisibilityFilterView {
    type V = ComponentProps;

    open spec fn view(&self) -> ComponentProps {
        ComponentProps::VisibilityFilter { visibility_filter: self.visibility_filter }
    }
}

/// A component of the to-do application.
pub enum TodoComponent {
    TodoApp(TodoAppView),
    TodoList(TodoListView),
    Todo(TodoView),
    VisibilityFilter(VisibilityFilterView),
    TextInput(text_input::View),
}

impl View for TodoComponent {
    type V = ComponentProps;

    open spec fn view(&self) -> ComponentProps {
        match self {
            TodoComponent::TodoApp(v) => v@,
            TodoComponent::TodoList(v) => v@,
            TodoComponent::Todo(v) => v@,
            TodoComponent::VisibilityFilter(v) => v@,
            TodoComponent::TextInput(_) => ComponentProps::TextInput,
        }
    }
}

/// The entries that the filter lets through, in order.
pub open spec fn visible_todos(todos: Seq<TodoEntry>, filter: VisibilityFilter) -> Seq<TodoEntry> {
    match filter {
        VisibilityFilter::ShowAll => todos,
        VisibilityFilter::ShowCompleted => completed_only(todos),
    }
}

/// The completed entries, in order.
pub open spec fn completed_only(todos: Seq<TodoEntry>) -> Seq<TodoEntry> {
    todos.filter(|t: TodoEntry| t.completed)
}

pub proof fn lemma_completed_only_push(todos: Seq<TodoEntry>, t: TodoEntry)
    ensures
        completed_only(todos.push(t)) == if t.completed {
            completed_only(todos).push(t)
        } else {
            completed_only(todos)
        },
{
    reveal_with_fuel(Seq::<_>::filter, 1);
    assert(todos.push(t).drop_last() =~= todos);
    assert(todos.push(t).last() == t);
}

/// One entry component per entry, each with its position.
pub open spec fn todo_items(todos: Seq<TodoEntry>) -> Seq<ElementModel<ComponentProps>> {
    Seq::new(
        todos.len(),
        |i: int|
            ElementModel::Single(
                ComponentProps::Todo { text: todos[i].text, completed: todos[i].completed, index: i as usize },
            ),
    )
}

/// What each component renders: the application renders the list of the visible
/// entries, the filter and the text input; the list renders one component per
/// entry; the others render nothing of their own.
pub open spec fn rendered_props(props: ComponentProps) -> ElementModel<ComponentProps> {
    match props {
        ComponentProps::TodoApp { todos, visibility_filter } => ElementModel::Multiple(
            seq![
                ElementModel::Single(ComponentProps::TodoList { todos: visible_todos(todos, visibility_filter) }),
                ElementModel::Single(ComponentProps::VisibilityFilter { visibility_filter }),
                ElementModel::Single(ComponentProps::TextInput),
            ],
        ),
        ComponentProps::TodoList { todos } => ElementModel::Multiple(todo_items(todos)),
        _ => ElementModel::Multiple(Seq::empty()),
    }
}

pub open spec fn props_level(props: ComponentProps) -> nat {
    match props {
        ComponentProps::TodoApp { .. } => 2,
        ComponentProps::TodoList { .. } => 1,
        _ => 0,
    }
}

pub open spec fn props_kind(props: ComponentProps) -> int {
    match props {
        ComponentProps::TodoApp { .. } => 0,
        ComponentProps::TodoList { .. } => 1,
        ComponentProps::Todo { .. } => 2,
        ComponentProps::VisibilityFilter { .. } => 3,
        ComponentProps::TextInput => 4,
    }
}

/// A list whose trees all have a height of at most `b` has a height of at most `b`.
pub proof fn lemma_top_list_at_most<V>(es: Seq<ElementModel<V>>, level: spec_fn(V) -> nat, b: nat)
    requires
        forall|i: int| 0 <= i < es.len() ==> #[trigger] top(es[i], level) <= b,
    ensures
        top_list(es, level) <= b,
    decreases es.len(),
{
    if es.len() > 0 {
        let rest = es.subrange(1, es.len() as int);
        assert forall|i: int| 0 <= i < rest.len() implies #[trigger] top(rest[i], level) <= b by {
            assert(rest[i] == es[i + 1]);
        }
        lemma_top_list_at_most(rest, level, b);
        assert(top(es[0], level) <= b);
    }
}

impl TodoAppView {
    pub fn render(&self) -> (e: Element<TodoComponent>)
        ensures
            e.model() == rendered_props(self@),
    {
        let ghost all = todos_view(self.todos@);
        let mut filtered: Vec<Todo> = Vec::new();
        let mut i: usize = 0;
        while i < self.todos.len()
            invariant
                0 <= i <= self.todos.len(),
                all == todos_view(self.todos@),
                todos_view(filtered@) == visible_todos(all.take(i as int), self.visibility_filter),
            decreases self.todos.len() - i,
        {
            let ghost before = todos_view(filtered@);
            let shown = match self.visibility_filter {
                VisibilityFilter::ShowAll => true,
                VisibilityFilter::ShowCompleted => self.todos[i].completed,
            };
            if shown {
                filtered.push(self.todos[i].clone_todo());
            }
            proof {
                let s = all.take(i + 1);
                assert(s =~= all.take(i as int).push(self.todos@[i as int]@));
                lemma_completed_only_push(all.take(i as int), self.todos@[i as int]@);
                if shown {
                    assert(todos_view(filtered@) =~= before.push(self.todos@[i as int]@));
                } else {
                    assert(todos_view(filtered@) =~= before);
                }
            }
            i = i + 1;
        }
        proof {
            assert(all.take(i as int) =~= all);
        }
        let list = TodoComponent::TodoList(TodoListView { todos: filtered });
        let filter = TodoComponent::VisibilityFilter(VisibilityFilterView { visibility_filter: self.visibility_filter });
        let input = TodoComponent::TextInput(self.text_input);
        let e = render((list, filter, input));
        proof {
            assert(e.model()->Multiple_0 =~= rendered_props(self@)->Multiple_0);
        }
        e
    }
}

impl TodoListView {
    pub fn render(&self) -> (e: Element<TodoComponent>)
        ensures
            e.model() == rendered_props(self@),
    {
        let ghost all = todos_view(self.todos@);
        let mut elements: Vec<Element<TodoComponent>> = Vec::new();
        let mut index: usize = 0;
        while index < self.todos.len()
            invariant
                0 <= index <= self.todos.len(),
                all == todos_view(self.todos@),
                elements@.len() == index,
                forall|j: int| 0 <= j < index ==> #[trigger] elements@[j].model() == todo_items(all)[j],
            decreases self.todos.len() - index,
        {
            let todo = &self.todos[index];
            let item = TodoView { text: todo.text.clone(), completed: todo.completed, index };
            elements.push(Element::Single { component: TodoComponent::Todo(item) });
            index = index + 1;
        }
        proof {
            lemma_elements_model_eq(elements@);
            assert(elements_model(elements@) =~= todo_items(all));
        }
        Element::Multiple { elements }
    }
}

impl TodoView {
    /// The entry's text, with a click on it toggling the entry.
    pub fn render(&self) -> (e: Element<TodoComponent>)
        ensures
            e.model() == rendered_props(self@),
    {
        text::<TodoComponent>(self.text.as_str()).event()
    }
}

impl VisibilityFilterView {
    pub fn render(&self) -> (e: Element<TodoComponent>)
        ensures
            e.model() == rendered_props(self@),
    {
        render(())
    }
}

impl AnyEqual for TodoComponent {
    open spec fn kind_of(props: ComponentProps) -> int {
        props_kind(props)
    }

    fn same_kind(&self, other: &Self) -> (r: bool) {
        match (self, other) {
            (TodoComponent::TodoApp(_), TodoComponent::TodoApp(_)) => true,
            (TodoComponent::TodoList(_), TodoComponent::TodoList(_)) => true,
            (TodoComponent::Todo(_), TodoComponent::Todo(_)) => true,
            (TodoComponent::VisibilityFilter(_), TodoComponent::VisibilityFilter(_)) => true,
            (TodoComponent::TextInput(_), TodoComponent::TextInput(_)) => true,
            _ => false,
        }
    }

    fn equals(&self, other: &Self) -> (r: bool) {
        match (self, other) {
            (TodoComponent::TodoApp(a), TodoComponent::TodoApp(b)) => {
                todos_equal(&a.todos, &b.todos) && a.visibility_filter == b.visibility_filter
            },
            (TodoComponent::TodoList(a), TodoComponent::TodoList(b)) => todos_equal(&a.todos, &b.todos),
            (TodoComponent::Todo(a), TodoComponent::Todo(b)) => {
                a.text == b.text && a.completed == b.completed && a.index == b.index
            },
            (TodoComponent::VisibilityFilter(a), TodoComponent::VisibilityFilter(b)) => {
                a.visibility_filter == b.visibility_filter
            },
            (TodoComponent::TextInput(_), TodoComponent::TextInput(_)) => true,
            _ => false,
        }
    }
}

impl CloneBox for TodoComponent {
    fn clone_box(&self) -> (r: Self) {
        match self {
            TodoComponent::TodoApp(v) => TodoComponent::TodoApp(
                TodoAppView {
                    todos: clone_todos(&v.todos),
                    visibility_filter: v.visibility_filter,
                    text_input: v.text_input,
                },
            ),
            TodoComponent::TodoList(v) => TodoComponent::TodoList(TodoListView { todos: clone_todos(&v.todos) }),
            TodoComponent::Todo(v) => TodoComponent::Todo(
                TodoView { text: v.text.clone(), completed: v.completed, index: v.index },
            ),
            TodoComponent::VisibilityFilter(v) => TodoComponent::VisibilityFilter(
                VisibilityFilterView { visibility_filter: v.visibility_filter },
            ),
            TodoComponent::TextInput(v) => TodoComponent::TextInput(*v),
        }
    }
}

impl Render for TodoComponent {
    open spec fn level(props: ComponentProps) -> nat {
        props_level(props)
    }

    open spec fn rendered(props: ComponentProps) -> ElementModel<ComponentProps> {
        rendered_props(props)
    }

    proof fn lemma_rendered_level(props: ComponentProps) {
        let level = |p: ComponentProps| TodoComponent::level(p);
        let es = rendered_props(props)->Multiple_0;
        match props {
            ComponentProps::TodoApp { .. } => {
                assert forall|i: int| 0 <= i < es.len() implies #[trigger] top(es[i], level) <= 2 by {}
                lemma_top_list_at_most(es, level, 2);
            },
            ComponentProps::TodoList { .. } => {
                assert forall|i: int| 0 <= i < es.len() implies #[trigger] top(es[i], level) <= 1 by {}
                lemma_top_list_at_most(es, level, 1);
            },
            _ => {
                lemma_top_list_at_most(es, level, 0);
            },
        }
    }

    fn render(&self) -> (e: Element<TodoComponent>) {
        match self {
            TodoComponent::TodoApp(v) => v.render(),
            TodoComponent::TodoList(v) => v.render(),
            TodoComponent::Todo(v) => v.render(),
            TodoComponent::VisibilityFilter(v) => v.render(),
            TodoComponent::TextInput(_) => render(()),
        }
    }
}

/// What the application shows for a state: all entries, the filter and the text input.
pub fn app_view(state: &TodoAppState) -> (v: TodoAppView)
    ensures
        v@ == (ComponentProps::TodoApp {
            todos: todos_view(state.todos.todos@),
            visibility_filter: state.visibility_filter.visibility_filter,
        }),
{
    TodoAppView {
        todos: clone_todos(&state.todos.todos),
        visibility_filter: state.visibility_filter.visibility_filter,
        text_input: state.text_input.map_to_view(),
    }
}

} // verus!
