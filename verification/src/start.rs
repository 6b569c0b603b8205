use vstd::prelude::*;
use vstd::string::*;
use crate::render::{effects_model, Effect, EffectModel, Render};
use crate::render_tree::{from_render_model, update_model, Node, NodeModel};
use crate::todo::{AnyEvent, TodoEvent};

verus! {

/// Showing a component: the first time a render tree is made from it, after that
/// the root of the tree is updated to it.
pub open spec fn update_view_model<C: Render>(tree: Option<NodeModel<C::V>>, props: C::V) -> (NodeModel<C::V>, Seq<EffectModel<C::V>>) {
    match tree {
        Some(n) => update_model::<C>(n, props),
        None => from_render_model::<C>(props),
    }
}

pub open spec fn tree_model<C: Render>(tree: Option<Node<C>>) -> Option<NodeModel<C::V>> {
    match tree {
        Some(n) => Some(n.model()),
        None => None,
    }
}

/// Shows a component in the render tree (see `update_view_model`); returns the
/// lifecycle effects, in order.
pub fn update_view<C: Render>(rep_tree: &mut Option<Node<C>>, view: C) -> (effects: Vec<Effect<C>>)
    requires
        *old(rep_tree) is Some ==> old(rep_tree)->0 is Single,
    ensures
        *final(rep_tree) is Some,
        final(rep_tree)->0 is Single,
        final(rep_tree)->0.model() == update_view_model::<C>(tree_model(*old(rep_tree)), view@).0,
        effects_model(effects@) == update_view_model::<C>(tree_model(*old(rep_tree)), view@).1,
{
    let current = rep_tree.take();
    match current {
        Some(mut tree) => {
            let effects = tree.update(view);
            *rep_tree = Some(tree);
            effects
        },
        None => {
            let (tree, effects) = Node::from_render(view);
            *rep_tree = Some(tree);
            effects
        },
    }
}

/// The event that the application waits for next.
pub fn get_event() -> (r: AnyEvent)
    ensures
        r matches AnyEvent::Todo(TodoEvent::AddTodo { text }) && text@ == "Hello"@,
{
    AnyEvent::Todo(TodoEvent::AddTodo { text: String::from_str("Hello") })
}

} // verus!
