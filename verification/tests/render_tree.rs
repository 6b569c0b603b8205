use flow::render::{render, text, Effect, Element};
use flow::render_tree::Node;
use flow::start::{get_event, update_view};
use flow::text_input::{Model, State, View};
use flow::todo::{
    AnyEvent, Todo, TodoAppState, TodoEvent, TodoState, VisibilityFilter, VisibilityFilterEvent,
    VisibilityFilterState,
};
use flow::todo_view::{
    app_view, TodoAppView, TodoComponent, TodoListView, TodoView, VisibilityFilterView,
};

fn describe(c: &TodoComponent) -> String {
    match c {
        TodoComponent::TodoApp(v) => format!("TodoApp({})", v.todos.len()),
        TodoComponent::TodoList(v) => format!("TodoList({})", v.todos.len()),
        TodoComponent::Todo(v) => format!("Todo({}#{}{})", v.text, v.index, if v.completed { "x" } else { "" }),
        TodoComponent::VisibilityFilter(_) => "VisibilityFilter".to_string(),
        TodoComponent::TextInput(_) => "TextInput".to_string(),
    }
}

fn effects(es: &[Effect<TodoComponent>]) -> Vec<String> {
    es.iter()
        .map(|e| match e {
            Effect::Mount(c) => format!("mount {}", describe(c)),
            Effect::Unmount(c) => format!("unmount {}", describe(c)),
        })
        .collect()
}

fn shape(n: &Node<TodoComponent>) -> String {
    match n {
        Node::Single { component, children } => {
            let kids: Vec<String> = children.iter().map(shape).collect();
            format!("{}[{}]", describe(component), kids.join(","))
        }
        Node::Multiple { nodes } => {
            let kids: Vec<String> = nodes.iter().map(shape).collect();
            format!("<{}>", kids.join(","))
        }
    }
}

fn todo(text: &str, completed: bool) -> Todo {
    Todo { text: text.to_string(), completed }
}

fn app(todos: Vec<Todo>, filter: VisibilityFilter) -> TodoComponent {
    TodoComponent::TodoApp(TodoAppView { todos, visibility_filter: filter, text_input: View {} })
}

fn list(todos: Vec<Todo>) -> TodoComponent {
    TodoComponent::TodoList(TodoListView { todos })
}

fn new_state() -> TodoAppState {
    TodoAppState {
        text_input: State::new(),
        todos: TodoState { todos: vec![] },
        visibility_filter: VisibilityFilterState { visibility_filter: VisibilityFilter::ShowAll },
    }
}

#[test]
fn from_render_mounts_the_whole_tree_in_order() {
    let (tree, effs) = Node::from_render(app(vec![todo("Hello", false), todo("World", true)], VisibilityFilter::ShowAll));
    assert_eq!(
        effects(&effs),
        vec![
            "mount TodoApp(2)",
            "mount TodoList(2)",
            "mount Todo(Hello#0)",
            "mount Todo(World#1x)",
            "mount VisibilityFilter",
            "mount TextInput",
        ]
    );
    assert_eq!(
        shape(&tree),
        "TodoApp(2)[TodoList(2)[Todo(Hello#0)[],Todo(World#1x)[]],VisibilityFilter[],TextInput[]]"
    );
}

#[test]
fn filter_shows_completed_only() {
    let (tree, _) = Node::from_render(app(
        vec![todo("a", false), todo("b", true), todo("c", true)],
        VisibilityFilter::ShowCompleted,
    ));
    assert_eq!(
        shape(&tree),
        "TodoApp(3)[TodoList(2)[Todo(b#0x)[],Todo(c#1x)[]],VisibilityFilter[],TextInput[]]"
    );
}

#[test]
fn update_with_an_equal_component_changes_nothing() {
    let (mut tree, _) = Node::from_render(app(vec![todo("Hello", false)], VisibilityFilter::ShowAll));
    let before = shape(&tree);
    let effs = tree.update(app(vec![todo("Hello", false)], VisibilityFilter::ShowAll));
    assert!(effs.is_empty());
    assert_eq!(shape(&tree), before);
}

#[test]
fn update_twice_with_the_same_component_is_a_no_op() {
    let (mut tree, _) = Node::from_render(app(vec![], VisibilityFilter::ShowAll));
    let first = tree.update(app(vec![todo("x", false)], VisibilityFilter::ShowAll));
    assert_eq!(effects(&first), vec!["mount Todo(x#0)"]);
    let after_first = shape(&tree);
    let second = tree.update(app(vec![todo("x", false)], VisibilityFilter::ShowAll));
    assert!(second.is_empty());
    assert_eq!(shape(&tree), after_first);
}

#[test]
fn update_agrees_with_a_fresh_tree_when_lists_grow() {
    let (mut tree, _) = Node::from_render(app(vec![todo("a", false)], VisibilityFilter::ShowAll));
    tree.update(app(vec![todo("a", true), todo("b", false), todo("c", false)], VisibilityFilter::ShowAll));
    let (fresh, _) = Node::from_render(app(
        vec![todo("a", true), todo("b", false), todo("c", false)],
        VisibilityFilter::ShowAll,
    ));
    assert_eq!(shape(&tree), shape(&fresh));
}

#[test]
fn a_shorter_list_keeps_the_nodes_past_its_end() {
    let (mut tree, _) = Node::from_render(app(vec![todo("a", false), todo("b", false)], VisibilityFilter::ShowAll));
    let effs = tree.update(app(vec![todo("a", false), todo("b", false)], VisibilityFilter::ShowCompleted));
    assert!(effs.is_empty());
    assert_eq!(
        shape(&tree),
        "TodoApp(2)[TodoList(0)[Todo(a#0)[],Todo(b#1)[]],VisibilityFilter[],TextInput[]]"
    );
    let (fresh, _) = Node::from_render(app(vec![todo("a", false), todo("b", false)], VisibilityFilter::ShowCompleted));
    assert_ne!(shape(&tree), shape(&fresh));
}

#[test]
fn a_root_of_another_type_is_mounted_and_changed_children_are_replaced() {
    let (mut tree, effs) = Node::from_render(list(vec![todo("x", false), todo("y", false)]));
    assert_eq!(effects(&effs), vec!["mount TodoList(2)", "mount Todo(x#0)", "mount Todo(y#1)"]);
    let effs = tree.update(app(vec![], VisibilityFilter::ShowAll));
    assert_eq!(
        effects(&effs),
        vec![
            "mount TodoApp(0)",
            "unmount Todo(x#0)",
            "mount TodoList(0)",
            "unmount Todo(y#1)",
            "mount VisibilityFilter",
            "mount TextInput",
        ]
    );
    assert_eq!(shape(&tree), "TodoApp(0)[TodoList(0)[],VisibilityFilter[],TextInput[]]");
}

#[test]
fn unmount_takes_children_before_their_parent() {
    let (tree, _) = Node::from_render(list(vec![todo("x", false), todo("y", false)]));
    let mut effs = Vec::new();
    tree.on_unmount(&mut effs);
    assert_eq!(effects(&effs), vec!["unmount Todo(x#0)", "unmount Todo(y#1)", "unmount TodoList(2)"]);
}

#[test]
fn update_view_builds_then_updates() {
    let mut rep_tree: Option<Node<TodoComponent>> = None;
    let effs = update_view(&mut rep_tree, list(vec![todo("x", false)]));
    assert_eq!(effects(&effs), vec!["mount TodoList(1)", "mount Todo(x#0)"]);
    let effs = update_view(&mut rep_tree, list(vec![todo("x", false), todo("y", false)]));
    assert_eq!(effects(&effs), vec!["mount Todo(y#1)"]);
    assert_eq!(shape(rep_tree.as_ref().unwrap()), "TodoList(2)[Todo(x#0)[],Todo(y#1)[]]");
}

#[test]
fn the_scripted_run_mounts_each_new_entry_once() {
    let mut state = new_state();
    let mut rep_tree: Option<Node<TodoComponent>> = None;
    let first = update_view(&mut rep_tree, TodoComponent::TodoApp(app_view(&state)));
    assert_eq!(
        effects(&first),
        vec!["mount TodoApp(0)", "mount TodoList(0)", "mount VisibilityFilter", "mount TextInput"]
    );
    let events = vec![
        AnyEvent::Todo(TodoEvent::AddTodo { text: "Hello".to_string() }),
        AnyEvent::Todo(TodoEvent::AddTodo { text: "World".to_string() }),
        AnyEvent::Todo(TodoEvent::Nothing),
        AnyEvent::Todo(TodoEvent::Nothing),
    ];
    let mut all = Vec::new();
    for event in events {
        state = state.reduce(&event);
        let effs = update_view(&mut rep_tree, TodoComponent::TodoApp(app_view(&state)));
        all.push(effects(&effs));
    }
    assert_eq!(
        all,
        vec![
            vec!["mount Todo(Hello#0)".to_string()],
            vec!["mount Todo(World#1)".to_string()],
            vec![],
            vec![],
        ]
    );
    assert_eq!(
        shape(rep_tree.as_ref().unwrap()),
        "TodoApp(2)[TodoList(2)[Todo(Hello1#0)[],Todo(World#1)[]],VisibilityFilter[],TextInput[]]"
    );
}

#[test]
fn elements_mount_and_unmount_each_component() {
    let element: Element<TodoComponent> = render((list(vec![]), TodoComponent::TextInput(View {})));
    let mut effs = Vec::new();
    element.on_mount(&mut effs);
    element.on_unmount(&mut effs);
    assert_eq!(
        effects(&effs),
        vec!["mount TodoList(0)", "mount TextInput", "unmount TodoList(0)", "unmount TextInput"]
    );
}

#[test]
fn element_clone_keeps_the_components() {
    let element: Element<TodoComponent> = render(vec![
        TodoComponent::Todo(TodoView { text: "a".to_string(), completed: false, index: 0 }),
        TodoComponent::VisibilityFilter(VisibilityFilterView { visibility_filter: VisibilityFilter::ShowAll }),
    ]);
    let copy = element.clone();
    let mut effs = Vec::new();
    copy.on_mount(&mut effs);
    assert_eq!(effects(&effs), vec!["mount Todo(a#0)", "mount VisibilityFilter"]);
}

#[test]
fn nothing_and_text_render_to_empty_lists() {
    let empty: Element<TodoComponent> = render(());
    let t: Element<TodoComponent> = text("hello");
    let s: Element<TodoComponent> = render("hi");
    let owned: Element<TodoComponent> = render("hi".to_string());
    for e in [empty, t, s, owned] {
        match e {
            Element::Multiple { elements } => assert!(elements.is_empty()),
            Element::Single { .. } => panic!("expected an empty list"),
        }
    }
}

#[test]
fn one_component_renders_to_a_list_of_one() {
    let e: Element<TodoComponent> = render(TodoComponent::TextInput(View {}));
    let mut effs = Vec::new();
    e.on_mount(&mut effs);
    assert_eq!(effects(&effs), vec!["mount TextInput"]);
    match e {
        Element::Multiple { elements } => assert_eq!(elements.len(), 1),
        Element::Single { .. } => panic!("expected a list"),
    }
}

#[test]
fn get_event_adds_hello() {
    match get_event() {
        AnyEvent::Todo(TodoEvent::AddTodo { text }) => assert_eq!(text, "Hello"),
        _ => panic!("unexpected event"),
    }
}

#[test]
fn visibility_filter_events_set_the_filter() {
    let state = VisibilityFilterState { visibility_filter: VisibilityFilter::ShowAll };
    let state = state.reduce(&AnyEvent::Todo(TodoEvent::Nothing));
    assert!(state.visibility_filter == VisibilityFilter::ShowAll);
    let state = state.reduce(&AnyEvent::VisibilityFilter(VisibilityFilterEvent::SetVisibilityFilter(
        VisibilityFilter::ShowCompleted,
    )));
    assert!(state.visibility_filter == VisibilityFilter::ShowCompleted);
}

#[test]
fn text_input_state_and_model() {
    let state = State::new();
    assert!(state.map_to_view() == View {});
    let model: Model = Model::new();
    let model = model.reduce(&AnyEvent::Todo(TodoEvent::Nothing));
    assert!(model.map_to_view() == View {});
}
