use vstd::prelude::*;
use crate::render::{
    effects_model, lemma_effects_push, Effect, Element, elements_model, lemma_elements_model, lemma_top_list_bounds,
    as_list, lemma_rendered_top, level_of, mounts, top, top_list, EffectModel, ElementModel, Render,
};

verus! {

/// What a render tree means: mounted components by their properties, with their children.
pub enum NodeModel<V> {
    Single(V, Seq<NodeModel<V>>),
    Multiple(Seq<NodeModel<V>>),
}

/// The unmounts that unmounting a render tree performs: children before their parent.
pub open spec fn unmounts<V>(n: NodeModel<V>) -> Seq<EffectModel<V>>
    decreases n,
{
    match n {
        NodeModel::Single(props, kids) => unmounts_list(kids) + seq![EffectModel::Unmount(props)],
        NodeModel::Multiple(ns) => unmounts_list(ns),
    }
}

pub open spec fn unmounts_list<V>(ns: Seq<NodeModel<V>>) -> Seq<EffectModel<V>>
    decreases ns,
{
    if ns.len() == 0 {
        Seq::empty()
    } else {
        unmounts(ns[0]) + unmounts_list(ns.subrange(1, ns.len() as int))
    }
}

/// The render tree that mounting an element tree builds, and the effects on the way.
pub open spec fn build<C: Render>(e: ElementModel<C::V>) -> (NodeModel<C::V>, Seq<EffectModel<C::V>>)
    decreases top(e, level_of::<C>()), e,
{
    match e {
        ElementModel::Single(props) => {
            proof {
                lemma_rendered_top::<C>(props);
            }
            let (kids, effs) = build_list::<C>(as_list(C::rendered(props)));
            (NodeModel::Single(props, kids), mounts(e) + effs)
        },
        ElementModel::Multiple(es) => {
            let (nodes, effs) = build_list::<C>(es);
            (NodeModel::Multiple(nodes), mounts(e) + effs)
        },
    }
}

pub open spec fn build_list<C: Render>(es: Seq<ElementModel<C::V>>) -> (Seq<NodeModel<C::V>>, Seq<EffectModel<C::V>>)
    decreases top_list(es, level_of::<C>()), es,
{
    if es.len() == 0 {
        (Seq::empty(), Seq::empty())
    } else {
        let (n, e1) = build::<C>(es[0]);
        let (ns, e2) = build_list::<C>(es.subrange(1, es.len() as int));
        (seq![n] + ns, e1 + e2)
    }
}


/// Bringing a mounted render tree in step with an element tree: the tree that
/// results, and the lifecycle effects on the way.
///
/// A component with equal properties is kept with its children as they are. A
/// changed component takes the new properties and its children are brought in
/// step with what the new properties render; if its type changed, the old one
/// is unmounted (with its children) and the new one mounted first. Otherwise
/// the old tree is unmounted and the new one built.
pub open spec fn reconcile<C: Render>(n: NodeModel<C::V>, e: ElementModel<C::V>) -> (NodeModel<C::V>, Seq<EffectModel<C::V>>)
    decreases n,
{
    match n {
        NodeModel::Single(props, kids) => match e {
            ElementModel::Single(new_props) => {
                if props == new_props {
                    (n, Seq::empty())
                } else {
                    let pre = if C::kind_of(props) != C::kind_of(new_props) {
                        unmounts(n) + seq![EffectModel::Mount(new_props)]
                    } else {
                        Seq::empty()
                    };
                    let (kids2, effs) = reconcile_list::<C>(kids, as_list(C::rendered(new_props)));
                    (NodeModel::Single(new_props, kids2), pre + effs)
                }
            },
            ElementModel::Multiple(es) => {
                let (nodes, effs) = build_list::<C>(es);
                (NodeModel::Multiple(nodes), unmounts(n) + effs)
            },
        },
        NodeModel::Multiple(ns) => match e {
            ElementModel::Single(new_props) => {
                let (kids, effs) = build_list::<C>(as_list(C::rendered(new_props)));
                (NodeModel::Single(new_props, kids), unmounts(n) + seq![EffectModel::Mount(new_props)] + effs)
            },
            ElementModel::Multiple(es) => {
                let (nodes, effs) = reconcile_list::<C>(ns, es);
                (NodeModel::Multiple(nodes), effs)
            },
        },
    }
}

/// Bringing a list of render trees in step with a list of element trees, position
/// by position: where the old list is shorter the rest is built; where it is longer
/// the rest is kept as it is.
pub open spec fn reconcile_list<C: Render>(ns: Seq<NodeModel<C::V>>, es: Seq<ElementModel<C::V>>) -> (Seq<NodeModel<C::V>>, Seq<EffectModel<C::V>>)
    decreases ns,
{
    if es.len() == 0 {
        (ns, Seq::empty())
    } else if ns.len() == 0 {
        build_list::<C>(es)
    } else {
        let (n, e1) = reconcile::<C>(ns[0], es[0]);
        let (rest, e2) = reconcile_list::<C>(ns.subrange(1, ns.len() as int), es.subrange(1, es.len() as int));
        (seq![n] + rest, e1 + e2)
    }
}

/// The render tree that a component builds as the root: it is mounted, then its
/// rendered elements are built as its children.
pub open spec fn from_render_model<C: Render>(props: C::V) -> (NodeModel<C::V>, Seq<EffectModel<C::V>>) {
    let (kids, effs) = build_list::<C>(as_list(C::rendered(props)));
    (NodeModel::Single(props, kids), seq![EffectModel::Mount(props)] + effs)
}

/// Giving the root new properties: nothing happens if they are equal; otherwise a
/// component of another type is mounted (the old root is not unmounted) and the
/// children are brought in step with what the new properties render.
pub open spec fn update_model<C: Render>(n: NodeModel<C::V>, props: C::V) -> (NodeModel<C::V>, Seq<EffectModel<C::V>>)
    recommends
        n is Single,
{
    match n {
        NodeModel::Single(old_props, kids) => {
            if old_props == props {
                (n, Seq::empty())
            } else {
                let pre = if C::kind_of(old_props) != C::kind_of(props) {
                    seq![EffectModel::Mount(props)]
                } else {
                    Seq::empty()
                };
                let (kids2, effs) = reconcile_list::<C>(kids, as_list(C::rendered(props)));
                (NodeModel::Single(props, kids2), pre + effs)
            }
        },
        NodeModel::Multiple(_) => (n, Seq::empty()),
    }
}

/// A render tree shows an element tree: the components at each position are the
/// ones the elements give (a list of nodes may go on past the elements).
pub open spec fn shows<V>(n: NodeModel<V>, e: ElementModel<V>) -> bool
    decreases n,
{
    match n {
        NodeModel::Single(props, _) => e == ElementModel::Single(props),
        NodeModel::Multiple(ns) => match e {
            ElementModel::Multiple(es) => shows_list(ns, es),
            ElementModel::Single(_) => false,
        },
    }
}

pub open spec fn shows_list<V>(ns: Seq<NodeModel<V>>, es: Seq<ElementModel<V>>) -> bool
    decreases ns,
{
    if es.len() == 0 {
        true
    } else {
        ns.len() > 0 && shows(ns[0], es[0]) && shows_list(
            ns.subrange(1, ns.len() as int),
            es.subrange(1, es.len() as int),
        )
    }
}

/// A render tree is consistent when the children of every component show what
/// that component renders.
pub open spec fn consistent<C: Render>(n: NodeModel<C::V>) -> bool
    decreases n,
{
    match n {
        NodeModel::Single(props, kids) => shows_list(kids, as_list(C::rendered(props)))
            && consistent_list::<C>(kids),
        NodeModel::Multiple(ns) => consistent_list::<C>(ns),
    }
}

pub open spec fn consistent_list<C: Render>(ns: Seq<NodeModel<C::V>>) -> bool
    decreases ns,
{
    if ns.len() == 0 {
        true
    } else {
        consistent::<C>(ns[0]) && consistent_list::<C>(ns.subrange(1, ns.len() as int))
    }
}


/// A mounted render tree: a component with the trees built from what it rendered,
/// or a list of trees.
pub enum Node<C> {
    Single { component: C, children: Vec<Node<C>> },
    Multiple { nodes: Vec<Node<C>> },
}

impl<C: View> Node<C> {
    pub open spec fn model(self) -> NodeModel<C::V>
        decreases self,
    {
        match self {
            Node::Single { component, children } => NodeModel::Single(
                component@,
                nodes_model(children@),
            ),
            Node::Multiple { nodes } => NodeModel::Multiple(nodes_model(nodes@)),
        }
    }
}

pub open spec fn nodes_model<C: View>(s: Seq<Node<C>>) -> Seq<NodeModel<C::V>>
    decreases s,
{
    if s.len() == 0 {
        Seq::empty()
    } else {
        seq![s[0].model()] + nodes_model(s.subrange(1, s.len() as int))
    }
}

pub proof fn lemma_nodes_model<C: View>(s: Seq<Node<C>>)
    ensures
        nodes_model(s).len() == s.len(),
        forall|i: int| 0 <= i < s.len() ==> #[trigger] nodes_model(s)[i] == s[i].model(),
    decreases s.len(),
{
    if s.len() > 0 {
        let rest = s.subrange(1, s.len() as int);
        lemma_nodes_model(rest);
        assert forall|i: int| 0 <= i < s.len() implies #[trigger] nodes_model(s)[i] == s[i].model() by {
            if i > 0 {
                assert(rest[i - 1] == s[i]);
            }
        }
    }
}

pub proof fn lemma_nodes_model_eq<C: View>(s: Seq<Node<C>>)
    ensures
        nodes_model(s) == Seq::new(s.len(), |i: int| s[i].model()),
{
    lemma_nodes_model(s);
    assert(nodes_model(s) =~= Seq::new(s.len(), |i: int| s[i].model()));
}

/// A list with its first element taken off, at any position.
pub proof fn lemma_subrange_step<T>(s: Seq<T>, k: int)
    requires
        0 <= k < s.len(),
    ensures
        s.subrange(k, s.len() as int).subrange(1, s.len() - k) == s.subrange(k + 1, s.len() as int),
        s.subrange(k, s.len() as int)[0] == s[k],
        s.subrange(k, s.len() as int).len() == s.len() - k,
{
    assert(s.subrange(k, s.len() as int).subrange(1, s.len() - k) =~= s.subrange(k + 1, s.len() as int));
}

/// Building nothing from no elements, and reconciling no nodes is building.
pub proof fn lemma_reconcile_list_empty<C: Render>(es: Seq<ElementModel<C::V>>)
    ensures
        reconcile_list::<C>(Seq::empty(), es) == build_list::<C>(es),
{
}


pub proof fn lemma_unmounts_list_step<V>(ns: Seq<NodeModel<V>>, k: int)
    requires
        0 <= k < ns.len(),
    ensures
        unmounts_list(ns.subrange(k, ns.len() as int)) == unmounts(ns[k]) + unmounts_list(
            ns.subrange(k + 1, ns.len() as int),
        ),
{
    lemma_subrange_step(ns, k);
}

/// Unmounts each tree of a list, in order.
fn unmount_all<C: Render>(nodes: &Vec<Node<C>>, effects: &mut Vec<Effect<C>>)
    ensures
        effects_model(final(effects)@) == effects_model(old(effects)@) + unmounts_list(
            nodes_model(nodes@),
        ),
    decreases nodes_model(nodes@), 0nat,
{
    let ghost ns = nodes_model(nodes@);
    let ghost start = effects_model(effects@);
    proof {
        lemma_nodes_model(nodes@);
        assert(ns.subrange(0, ns.len() as int) =~= ns);
    }
    let mut i: usize = 0;
    while i < nodes.len()
        invariant
            0 <= i <= nodes.len(),
            ns == nodes_model(nodes@),
            ns.len() == nodes@.len(),
            forall|j: int| 0 <= j < nodes@.len() ==> #[trigger] ns[j] == nodes@[j].model(),
            effects_model(effects@) + unmounts_list(ns.subrange(i as int, ns.len() as int)) == start
                + unmounts_list(ns),
        decreases nodes.len() - i,
    {
        let ghost before = effects_model(effects@);
        proof {
            assert(decreases_to!(ns => ns[i as int]));
        }
        nodes[i].on_unmount(effects);
        proof {
            lemma_unmounts_list_step(ns, i as int);
            assert(before + unmounts(ns[i as int]) + unmounts_list(ns.subrange(i + 1, ns.len() as int))
                =~= before + unmounts_list(ns.subrange(i as int, ns.len() as int)));
        }
        i = i + 1;
    }
    proof {
        assert(ns.subrange(i as int, ns.len() as int) =~= Seq::<NodeModel<C::V>>::empty());
        assert(effects_model(effects@) + Seq::<EffectModel<C::V>>::empty() =~= effects_model(effects@));
    }
}

impl<C: Render> Node<C> {
    /// Unmounts the tree: the children of a component before the component.
    pub fn on_unmount(&self, effects: &mut Vec<Effect<C>>)
        ensures
            effects_model(final(effects)@) == effects_model(old(effects)@) + unmounts(self.model()),
        decreases self.model(), 1nat,
    {
        match self {
            Node::Single { component, children } => {
                proof {
                    assert(decreases_to!(self.model() => self.model()->Single_1));
                }
                unmount_all(children, effects);
                let ghost before = effects@;
                let c = component.clone_box();
                effects.push(Effect::Unmount(c));
                proof {
                    lemma_effects_push(before, Effect::Unmount(c));
                    assert(effects_model(effects@) =~= effects_model(old(effects)@) + unmounts(self.model()));
                }
            },
            Node::Multiple { nodes } => {
                proof {
                    assert(decreases_to!(self.model() => self.model()->Multiple_0));
                }
                unmount_all(nodes, effects);
            },
        }
    }
}


pub proof fn lemma_nodes_model_push<C: View>(s: Seq<Node<C>>, x: Node<C>)
    ensures
        nodes_model(s.push(x)) == nodes_model(s).push(x.model()),
{
    lemma_nodes_model_eq(s);
    lemma_nodes_model_eq(s.push(x));
    assert(nodes_model(s.push(x)) =~= nodes_model(s).push(x.model()));
}

/// The elements that a component renders, as a list of children.
pub fn render_to_elements<C: Render>(render: &C) -> (r: Vec<Element<C>>)
    ensures
        elements_model(r@) == as_list(C::rendered(render@)),
{
    match render.render() {
        Element::Single { component } => {
            let r = vec![Element::Single { component }];
            proof {
                assert(r@.subrange(1, 1) =~= Seq::<Element<C>>::empty());
                assert(elements_model(r@.subrange(1, 1)) == Seq::<ElementModel<C::V>>::empty());
                assert(elements_model(r@) =~= seq![r@[0].model()]);
            }
            r
        },
        Element::Multiple { elements } => elements,
    }
}

/// Builds the render trees of what a component renders.
pub fn render_to_children<C: Render>(render: &C, effects: &mut Vec<Effect<C>>) -> (r: Vec<Node<C>>)
    ensures
        nodes_model(r@) == build_list::<C>(as_list(C::rendered(render@))).0,
        effects_model(final(effects)@) == effects_model(old(effects)@) + build_list::<C>(
            as_list(C::rendered(render@)),
        ).1,
    decreases C::level(render@) + 1, ElementModel::<C::V>::Single(render@), 0nat,
{
    let elements = render_to_elements(render);
    proof {
        lemma_rendered_top::<C>(render@);
    }
    from_elements(elements, effects)
}

/// Builds a render tree for each element tree of a list, in order.
fn from_elements<C: Render>(elements: Vec<Element<C>>, effects: &mut Vec<Effect<C>>) -> (r: Vec<Node<C>>)
    ensures
        nodes_model(r@) == build_list::<C>(elements_model(elements@)).0,
        effects_model(final(effects)@) == effects_model(old(effects)@) + build_list::<C>(
            elements_model(elements@),
        ).1,
    decreases top_list(elements_model(elements@), level_of::<C>()), elements_model(elements@), 0nat,
{
    let ghost es = elements_model(elements@);
    let ghost start = effects_model(effects@);
    let mut remaining = elements;
    let mut nodes: Vec<Node<C>> = Vec::new();
    let ghost mut k: int = 0;
    proof {
        lemma_elements_model(remaining@);
        assert(es.subrange(0, es.len() as int) =~= es);
        assert(nodes_model(nodes@) =~= Seq::<NodeModel<C::V>>::empty());
    }
    while remaining.len() > 0
        invariant
            0 <= k <= es.len(),
            es == elements_model(elements@),
            remaining@.len() == es.len() - k,
            elements_model(remaining@) == es.subrange(k, es.len() as int),
            nodes_model(nodes@) + build_list::<C>(es.subrange(k, es.len() as int)).0 == build_list::<C>(es).0,
            effects_model(effects@) + build_list::<C>(es.subrange(k, es.len() as int)).1 == start
                + build_list::<C>(es).1,
        decreases remaining.len(),
    {
        let ghost rem = remaining@;
        let ghost before_nodes = nodes_model(nodes@);
        let ghost before_effects = effects_model(effects@);
        let e = remaining.remove(0);
        proof {
            assert(rem.remove(0) =~= rem.subrange(1, rem.len() as int));
            assert(elements_model(rem)[0] == e.model());
            lemma_subrange_step(es, k);
            assert(e.model() == es[k]);
            lemma_top_list_bounds(es, level_of::<C>(), k);
            assert(decreases_to!(es => es[k]));
        }
        let n = Node::from_view(e, effects);
        proof {
            lemma_nodes_model_push(nodes@, n);
        }
        nodes.push(n);
        proof {
            let rest = es.subrange(k + 1, es.len() as int);
            assert(nodes_model(nodes@) + build_list::<C>(rest).0 =~= before_nodes + build_list::<C>(
                es.subrange(k, es.len() as int),
            ).0);
            assert(effects_model(effects@) + build_list::<C>(rest).1 =~= before_effects + build_list::<C>(
                es.subrange(k, es.len() as int),
            ).1);
            k = k + 1;
        }
    }
    proof {
        assert(es.subrange(k, es.len() as int) =~= Seq::<ElementModel<C::V>>::empty());
        assert(nodes_model(nodes@) + Seq::<NodeModel<C::V>>::empty() =~= nodes_model(nodes@));
        assert(effects_model(effects@) + Seq::<EffectModel<C::V>>::empty() =~= effects_model(effects@));
    }
    nodes
}

impl<C: Render> Node<C> {
    /// Builds the render tree of an element tree: the whole tree is mounted first,
    /// then each component's rendered elements are built as its children.
    fn from_view(view: Element<C>, effects: &mut Vec<Effect<C>>) -> (r: Self)
        ensures
            r.model() == build::<C>(view.model()).0,
            effects_model(final(effects)@) == effects_model(old(effects)@) + build::<C>(view.model()).1,
        decreases top(view.model(), level_of::<C>()), view.model(), 1nat,
    {
        let ghost start = effects_model(effects@);
        view.on_mount(effects);
        match view {
            Element::Single { component } => {
                let children = render_to_children(&component, effects);
                proof {
                    assert(effects_model(effects@) =~= start + build::<C>(view.model()).1);
                }
                Node::Single { component, children }
            },
            Element::Multiple { elements } => {
                proof {
                    assert(decreases_to!(view.model() => view.model()->Multiple_0));
                }
                let nodes = from_elements(elements, effects);
                proof {
                    assert(effects_model(effects@) =~= start + build::<C>(view.model()).1);
                }
                Node::Multiple { nodes }
            },
        }
    }
}


/// Brings the children in step with what `render` renders.
pub fn update_children<C: Render>(children: &mut Vec<Node<C>>, render: &C, effects: &mut Vec<Effect<C>>)
    ensures
        nodes_model(final(children)@) == reconcile_list::<C>(
            nodes_model(old(children)@),
            as_list(C::rendered(render@)),
        ).0,
        effects_model(final(effects)@) == effects_model(old(effects)@) + reconcile_list::<C>(
            nodes_model(old(children)@),
            as_list(C::rendered(render@)),
        ).1,
    decreases nodes_model(old(children)@), 1nat,
{
    let elements = render_to_elements(render);
    update_nodes(children, elements, effects);
}

/// Brings a list of render trees in step with a list of element trees, position
/// by position; trees past the end of the elements stay as they are.
fn update_nodes<C: Render>(nodes: &mut Vec<Node<C>>, elements: Vec<Element<C>>, effects: &mut Vec<Effect<C>>)
    ensures
        nodes_model(final(nodes)@) == reconcile_list::<C>(
            nodes_model(old(nodes)@),
            elements_model(elements@),
        ).0,
        effects_model(final(effects)@) == effects_model(old(effects)@) + reconcile_list::<C>(
            nodes_model(old(nodes)@),
            elements_model(elements@),
        ).1,
    decreases nodes_model(old(nodes)@), 0nat,
{
    let ghost ns = nodes_model(old(nodes)@);
    let ghost es = elements_model(elements@);
    let ghost start = effects_model(effects@);
    let mut old_nodes: Vec<Node<C>> = Vec::new();
    std::mem::swap(&mut old_nodes, nodes);
    let mut remaining = elements;
    proof {
        lemma_nodes_model(old_nodes@);
        assert(nodes_model(nodes@) =~= Seq::<NodeModel<C::V>>::empty());
    }
    while remaining.len() > 0
        invariant
            ns == nodes_model(old(nodes)@),
            es == elements_model(elements@),
            nodes_model(old_nodes@).len() == old_nodes@.len(),
            old_nodes@.len() <= ns.len(),
            old_nodes@ == old(nodes)@.subrange(ns.len() - old_nodes@.len(), ns.len() as int),
            nodes_model(nodes@) + reconcile_list::<C>(nodes_model(old_nodes@), elements_model(remaining@)).0
                == reconcile_list::<C>(ns, es).0,
            effects_model(effects@) + reconcile_list::<C>(
                nodes_model(old_nodes@),
                elements_model(remaining@),
            ).1 == start + reconcile_list::<C>(ns, es).1,
        decreases remaining.len(),
    {
        let ghost rem_e = remaining@;
        let ghost rem_n = old_nodes@;
        let ghost before_nodes = nodes_model(nodes@);
        let ghost before_effects = effects_model(effects@);
        let e = remaining.remove(0);
        proof {
            lemma_elements_model(rem_e);
            assert(rem_e.remove(0) =~= rem_e.subrange(1, rem_e.len() as int));
            assert(elements_model(rem_e)[0] == e.model());
            let me = elements_model(rem_e);
            assert(me.subrange(1, me.len() as int) =~= elements_model(remaining@));
        }
        if old_nodes.len() > 0 {
            let mut child = old_nodes.remove(0);
            proof {
                lemma_nodes_model(rem_n);
                lemma_nodes_model(old(nodes)@);
                assert(rem_n.remove(0) =~= rem_n.subrange(1, rem_n.len() as int));
                assert(nodes_model(rem_n)[0] == child.model());
                let j = ns.len() - rem_n.len();
                assert(child == old(nodes)@[j]);
                assert(child.model() == ns[j]);
                assert(decreases_to!(ns => ns[j]));
                assert(old_nodes@ =~= old(nodes)@.subrange(ns.len() - old_nodes@.len(), ns.len() as int));
                lemma_nodes_model(old_nodes@);
                let mn = nodes_model(rem_n);
                assert(mn.subrange(1, mn.len() as int) =~= nodes_model(old_nodes@));
            }
            child.update_by_view(e, effects);
            proof {
                lemma_nodes_model_push(nodes@, child);
            }
            nodes.push(child);
        } else {
            let child = Node::from_view(e, effects);
            proof {
                lemma_nodes_model_push(nodes@, child);
                assert(rem_n =~= Seq::<Node<C>>::empty());
                assert(nodes_model(rem_n) =~= Seq::<NodeModel<C::V>>::empty());
                lemma_reconcile_list_empty::<C>(elements_model(rem_e));
                lemma_reconcile_list_empty::<C>(elements_model(remaining@));
            }
            nodes.push(child);
        }
        proof {
            let rn = nodes_model(old_nodes@);
            let re = elements_model(remaining@);
            assert(nodes_model(nodes@) + reconcile_list::<C>(rn, re).0 =~= before_nodes
                + reconcile_list::<C>(nodes_model(rem_n), elements_model(rem_e)).0);
            assert(effects_model(effects@) + reconcile_list::<C>(rn, re).1 =~= before_effects
                + reconcile_list::<C>(nodes_model(rem_n), elements_model(rem_e)).1);
        }
    }
    let ghost kept = old_nodes@;
    let ghost built = nodes@;
    nodes.append(&mut old_nodes);
    proof {
        lemma_elements_model(remaining@);
        assert(elements_model(remaining@) =~= Seq::<ElementModel<C::V>>::empty());
        lemma_nodes_model_eq(built);
        lemma_nodes_model_eq(kept);
        lemma_nodes_model_eq(nodes@);
        assert(nodes_model(nodes@) =~= nodes_model(built) + nodes_model(kept));
        assert(effects_model(effects@) + Seq::<EffectModel<C::V>>::empty() =~= effects_model(effects@));
    }
}

impl<C: Render> Node<C> {
    /// Brings the render tree in step with an element tree (see `reconcile`).
    fn update_by_view(&mut self, view: Element<C>, effects: &mut Vec<Effect<C>>)
        ensures
            final(self).model() == reconcile::<C>(old(self).model(), view.model()).0,
            effects_model(final(effects)@) == effects_model(old(effects)@) + reconcile::<C>(
                old(self).model(),
                view.model(),
            ).1,
        decreases old(self).model(), 2nat,
    {
        let ghost start = effects_model(effects@);
        let mut old_node = Node::Multiple { nodes: Vec::new() };
        std::mem::swap(&mut old_node, self);
        match old_node {
            Node::Single { component, children } => match view {
                Element::Single { component: new_component } => {
                    if component.equals(&new_component) {
                        *self = Node::Single { component, children };
                        proof {
                            assert(effects_model(effects@) =~= start + Seq::<EffectModel<C::V>>::empty());
                        }
                        return;
                    }
                    if !component.same_kind(&new_component) {
                        unmount_all(&children, effects);
                        let ghost before = effects@;
                        let gone = component.clone_box();
                        effects.push(Effect::Unmount(gone));
                        proof {
                            lemma_effects_push(before, Effect::Unmount(gone));
                        }
                        let ghost before = effects@;
                        let mounted = new_component.clone_box();
                        effects.push(Effect::Mount(mounted));
                        proof {
                            lemma_effects_push(before, Effect::Mount(mounted));
                        }
                    }
                    let mut children = children;
                    proof {
                        assert(decreases_to!(old(self).model() => old(self).model()->Single_1));
                    }
                    update_children(&mut children, &new_component, effects);
                    *self = Node::Single { component: new_component, children };
                    proof {
                        assert(effects_model(effects@) =~= start + reconcile::<C>(
                            old(self).model(),
                            view.model(),
                        ).1);
                    }
                },
                Element::Multiple { elements } => {
                    let gone = Node::Single { component, children };
                    gone.on_unmount(effects);
                    let nodes = from_elements(elements, effects);
                    *self = Node::Multiple { nodes };
                    proof {
                        assert(effects_model(effects@) =~= start + reconcile::<C>(
                            old(self).model(),
                            view.model(),
                        ).1);
                    }
                },
            },
            Node::Multiple { nodes } => match view {
                Element::Single { component: new_component } => {
                    unmount_all(&nodes, effects);
                    let ghost before = effects@;
                    let mounted = new_component.clone_box();
                    effects.push(Effect::Mount(mounted));
                    proof {
                        lemma_effects_push(before, Effect::Mount(mounted));
                    }
                    let children = render_to_children(&new_component, effects);
                    *self = Node::Single { component: new_component, children };
                    proof {
                        assert(effects_model(effects@) =~= start + reconcile::<C>(
                            old(self).model(),
                            view.model(),
                        ).1);
                    }
                },
                Element::Multiple { elements } => {
                    let mut nodes = nodes;
                    proof {
                        assert(decreases_to!(old(self).model() => old(self).model()->Multiple_0));
                    }
                    update_nodes(&mut nodes, elements, effects);
                    *self = Node::Multiple { nodes };
                },
            },
        }
    }
}


impl<C: Render> Node<C> {
    /// Mounts a component as the root of a new render tree and builds the trees
    /// of what it renders; returns the tree and the lifecycle effects, in order.
    pub fn from_render(render: C) -> (r: (Self, Vec<Effect<C>>))
        ensures
            r.0.model() == from_render_model::<C>(render@).0,
            effects_model(r.1@) == from_render_model::<C>(render@).1,
    {
        let mut effects: Vec<Effect<C>> = Vec::new();
        let mounted = render.clone_box();
        effects.push(Effect::Mount(mounted));
        let mut children: Vec<Node<C>> = Vec::new();
        proof {
            assert(effects_model(effects@) =~= seq![EffectModel::Mount(render@)]);
            assert(nodes_model(children@) =~= Seq::<NodeModel<C::V>>::empty());
            lemma_reconcile_list_empty::<C>(as_list(C::rendered(render@)));
        }
        update_children(&mut children, &render, &mut effects);
        (Node::Single { component: render, children }, effects)
    }

    /// Gives the root component new properties (see `update_model`); returns the
    /// lifecycle effects, in order.
    pub fn update(&mut self, render: C) -> (effects: Vec<Effect<C>>)
        requires
            *old(self) is Single,
        ensures
            final(self).model() == update_model::<C>(old(self).model(), render@).0,
            effects_model(effects@) == update_model::<C>(old(self).model(), render@).1,
    {
        let mut effects: Vec<Effect<C>> = Vec::new();
        let mut old_node = Node::Multiple { nodes: Vec::new() };
        std::mem::swap(&mut old_node, self);
        match old_node {
            Node::Single { component, children } => {
                if component.equals(&render) {
                    *self = Node::Single { component, children };
                    proof {
                        assert(effects_model(effects@) =~= Seq::<EffectModel<C::V>>::empty());
                    }
                    return effects;
                }
                if !component.same_kind(&render) {
                    let mounted = render.clone_box();
                    effects.push(Effect::Mount(mounted));
                }
                let ghost pre = effects_model(effects@);
                proof {
                    assert(pre =~= (if C::kind_of(component@) != C::kind_of(render@) {
                        seq![EffectModel::Mount(render@)]
                    } else {
                        Seq::empty()
                    }));
                }
                let mut children = children;
                update_children(&mut children, &render, &mut effects);
                *self = Node::Single { component: render, children };
            },
            Node::Multiple { nodes } => {
                *self = Node::Multiple { nodes };
            },
        }
        effects
    }
}


/// No list of children gets shorter when `n` is brought in step with `e`: at every
/// place where reconciliation goes position by position, there are at least as
/// many elements as nodes.
pub open spec fn grows<C: Render>(n: NodeModel<C::V>, e: ElementModel<C::V>) -> bool
    decreases n,
{
    match n {
        NodeModel::Single(props, kids) => match e {
            ElementModel::Single(new_props) => props == new_props || grows_list::<C>(
                kids,
                as_list(C::rendered(new_props)),
            ),
            ElementModel::Multiple(_) => true,
        },
        NodeModel::Multiple(ns) => match e {
            ElementModel::Single(_) => true,
            ElementModel::Multiple(es) => grows_list::<C>(ns, es),
        },
    }
}

pub open spec fn grows_list<C: Render>(ns: Seq<NodeModel<C::V>>, es: Seq<ElementModel<C::V>>) -> bool
    decreases ns,
{
    if ns.len() == 0 {
        true
    } else {
        es.len() > 0 && grows::<C>(ns[0], es[0]) && grows_list::<C>(
            ns.subrange(1, ns.len() as int),
            es.subrange(1, es.len() as int),
        )
    }
}

} // verus!
