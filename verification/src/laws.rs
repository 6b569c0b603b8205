use vstd::prelude::*;
use crate::render::{as_list, mounts, mounts_list, lemma_rendered_top, lemma_top_list_bounds, level_of, top, top_list, EffectModel, ElementModel, Render};
use crate::render_tree::{
    build, build_list, consistent, consistent_list, from_render_model, reconcile, reconcile_list,
    grows, grows_list, shows, shows_list, unmounts, unmounts_list, update_model, NodeModel,
};

verus! {

/// Facts about a list built head first: its head and its tail.
proof fn lemma_cons<T>(x: T, rest: Seq<T>)
    ensures
        (seq![x] + rest)[0] == x,
        (seq![x] + rest).subrange(1, (seq![x] + rest).len() as int) == rest,
        (seq![x] + rest).len() == rest.len() + 1,
{
    assert((seq![x] + rest).subrange(1, (seq![x] + rest).len() as int) =~= rest);
}

/// Building an element tree gives a consistent render tree that shows exactly that
/// element tree.
pub proof fn lemma_build_shows<C: Render>(e: ElementModel<C::V>)
    ensures
        shows(build::<C>(e).0, e),
        consistent::<C>(build::<C>(e).0),
    decreases top(e, level_of::<C>()), e,
{
    match e {
        ElementModel::Single(props) => {
            lemma_rendered_top::<C>(props);
            lemma_build_list_shows::<C>(as_list(C::rendered(props)));
        },
        ElementModel::Multiple(es) => {
            lemma_build_list_shows::<C>(es);
        },
    }
}

/// Building a list of element trees gives one consistent render tree per element,
/// each showing its element.
pub proof fn lemma_build_list_shows<C: Render>(es: Seq<ElementModel<C::V>>)
    ensures
        shows_list(build_list::<C>(es).0, es),
        consistent_list::<C>(build_list::<C>(es).0),
        build_list::<C>(es).0.len() == es.len(),
    decreases top_list(es, level_of::<C>()), es,
{
    if es.len() > 0 {
        lemma_top_list_bounds(es, level_of::<C>(), 0);
        lemma_build_shows::<C>(es[0]);
        let rest = es.subrange(1, es.len() as int);
        lemma_build_list_shows::<C>(rest);
        lemma_cons(build::<C>(es[0]).0, build_list::<C>(rest).0);
    }
}

/// After reconciliation a render tree shows the element tree it was brought in step with.
pub proof fn lemma_reconcile_shows<C: Render>(n: NodeModel<C::V>, e: ElementModel<C::V>)
    ensures
        shows(reconcile::<C>(n, e).0, e),
    decreases n,
{
    match n {
        NodeModel::Single(props, kids) => match e {
            ElementModel::Single(new_props) => {},
            ElementModel::Multiple(es) => {
                lemma_build_list_shows::<C>(es);
            },
        },
        NodeModel::Multiple(ns) => match e {
            ElementModel::Single(new_props) => {},
            ElementModel::Multiple(es) => {
                lemma_reconcile_list_shows::<C>(ns, es);
            },
        },
    }
}

/// After reconciliation each position of a list shows its element; nodes past the
/// last element are kept.
pub proof fn lemma_reconcile_list_shows<C: Render>(ns: Seq<NodeModel<C::V>>, es: Seq<ElementModel<C::V>>)
    ensures
        shows_list(reconcile_list::<C>(ns, es).0, es),
        reconcile_list::<C>(ns, es).0.len() == if ns.len() >= es.len() {
            ns.len()
        } else {
            es.len()
        },
    decreases ns,
{
    if es.len() == 0 {
    } else if ns.len() == 0 {
        lemma_build_list_shows::<C>(es);
    } else {
        lemma_reconcile_shows::<C>(ns[0], es[0]);
        let ns1 = ns.subrange(1, ns.len() as int);
        let es1 = es.subrange(1, es.len() as int);
        lemma_reconcile_list_shows::<C>(ns1, es1);
        lemma_cons(reconcile::<C>(ns[0], es[0]).0, reconcile_list::<C>(ns1, es1).0);
    }
}

/// Reconciliation keeps a render tree consistent.
pub proof fn lemma_reconcile_consistent<C: Render>(n: NodeModel<C::V>, e: ElementModel<C::V>)
    requires
        consistent::<C>(n),
    ensures
        consistent::<C>(reconcile::<C>(n, e).0),
    decreases n,
{
    match n {
        NodeModel::Single(props, kids) => match e {
            ElementModel::Single(new_props) => {
                if props != new_props {
                    let es = as_list(C::rendered(new_props));
                    lemma_reconcile_list_shows::<C>(kids, es);
                    lemma_reconcile_list_consistent::<C>(kids, es);
                }
            },
            ElementModel::Multiple(es) => {
                lemma_build_list_shows::<C>(es);
            },
        },
        NodeModel::Multiple(ns) => match e {
            ElementModel::Single(new_props) => {
                lemma_build_list_shows::<C>(as_list(C::rendered(new_props)));
            },
            ElementModel::Multiple(es) => {
                lemma_reconcile_list_consistent::<C>(ns, es);
            },
        },
    }
}

/// Reconciling a list keeps every render tree of it consistent.
pub proof fn lemma_reconcile_list_consistent<C: Render>(ns: Seq<NodeModel<C::V>>, es: Seq<ElementModel<C::V>>)
    requires
        consistent_list::<C>(ns),
    ensures
        consistent_list::<C>(reconcile_list::<C>(ns, es).0),
    decreases ns,
{
    if es.len() == 0 {
    } else if ns.len() == 0 {
        lemma_build_list_shows::<C>(es);
    } else {
        lemma_reconcile_consistent::<C>(ns[0], es[0]);
        let ns1 = ns.subrange(1, ns.len() as int);
        let es1 = es.subrange(1, es.len() as int);
        lemma_reconcile_list_consistent::<C>(ns1, es1);
        lemma_cons(reconcile::<C>(ns[0], es[0]).0, reconcile_list::<C>(ns1, es1).0);
    }
}

/// Reconciling a freshly built render tree with the element tree it was built from
/// changes nothing and has no lifecycle effects.
pub proof fn lemma_rebuild_is_noop<C: Render>(e: ElementModel<C::V>)
    ensures
        reconcile::<C>(build::<C>(e).0, e) == (build::<C>(e).0, Seq::<EffectModel<C::V>>::empty()),
    decreases top(e, level_of::<C>()), e,
{
    match e {
        ElementModel::Single(props) => {},
        ElementModel::Multiple(es) => {
            lemma_rebuild_list_is_noop::<C>(es);
        },
    }
}

/// Reconciling freshly built render trees with the elements they were built from
/// changes nothing and has no lifecycle effects.
pub proof fn lemma_rebuild_list_is_noop<C: Render>(es: Seq<ElementModel<C::V>>)
    ensures
        reconcile_list::<C>(build_list::<C>(es).0, es) == (
            build_list::<C>(es).0,
            Seq::<EffectModel<C::V>>::empty(),
        ),
    decreases top_list(es, level_of::<C>()), es,
{
    if es.len() > 0 {
        lemma_top_list_bounds(es, level_of::<C>(), 0);
        lemma_rebuild_is_noop::<C>(es[0]);
        let rest = es.subrange(1, es.len() as int);
        lemma_rebuild_list_is_noop::<C>(rest);
        lemma_cons(build::<C>(es[0]).0, build_list::<C>(rest).0);
        assert(Seq::<EffectModel<C::V>>::empty() + Seq::<EffectModel<C::V>>::empty() =~= Seq::<
            EffectModel<C::V>,
        >::empty());
    }
}


/// A render tree made from a component has that component at the root and is consistent.
pub proof fn lemma_from_render_consistent<C: Render>(props: C::V)
    ensures
        from_render_model::<C>(props).0 is Single,
        from_render_model::<C>(props).0->Single_0 == props,
        consistent::<C>(from_render_model::<C>(props).0),
{
    lemma_build_list_shows::<C>(as_list(C::rendered(props)));
}

/// Updating the root keeps a render tree consistent and leaves the new component at the root.
pub proof fn lemma_update_consistent<C: Render>(n: NodeModel<C::V>, props: C::V)
    requires
        n is Single,
        consistent::<C>(n),
    ensures
        update_model::<C>(n, props).0 is Single,
        update_model::<C>(n, props).0->Single_0 == props,
        consistent::<C>(update_model::<C>(n, props).0),
{
    let kids = n->Single_1;
    if n->Single_0 != props {
        let es = as_list(C::rendered(props));
        lemma_reconcile_list_shows::<C>(kids, es);
        lemma_reconcile_list_consistent::<C>(kids, es);
    }
}

/// Updating the root with the component it already has changes nothing and has no
/// lifecycle effects; in particular a second update with the same component after
/// any update is a no-op.
pub proof fn lemma_update_twice_is_noop<C: Render>(n: NodeModel<C::V>, props: C::V)
    requires
        n is Single,
    ensures
        update_model::<C>(update_model::<C>(n, props).0, props) == (
            update_model::<C>(n, props).0,
            Seq::<EffectModel<C::V>>::empty(),
        ),
        update_model::<C>(from_render_model::<C>(props).0, props) == (
            from_render_model::<C>(props).0,
            Seq::<EffectModel<C::V>>::empty(),
        ),
{
}


/// Reconciliation agrees with building afresh: bringing a tree built from `e0` in
/// step with `e` gives the tree that building `e` gives, as long as no list of
/// children gets shorter (nodes past the end of a shorter list are kept).
pub proof fn lemma_reconcile_matches_rebuild<C: Render>(e0: ElementModel<C::V>, e: ElementModel<C::V>)
    requires
        grows::<C>(build::<C>(e0).0, e),
    ensures
        reconcile::<C>(build::<C>(e0).0, e).0 == build::<C>(e).0,
    decreases top(e0, level_of::<C>()), e0,
{
    match e0 {
        ElementModel::Single(props) => match e {
            ElementModel::Single(new_props) => {
                if props != new_props {
                    lemma_rendered_top::<C>(props);
                    lemma_reconcile_list_matches_rebuild::<C>(
                        as_list(C::rendered(props)),
                        as_list(C::rendered(new_props)),
                    );
                }
            },
            ElementModel::Multiple(_) => {},
        },
        ElementModel::Multiple(es0) => match e {
            ElementModel::Single(_) => {},
            ElementModel::Multiple(es) => {
                lemma_reconcile_list_matches_rebuild::<C>(es0, es);
            },
        },
    }
}

/// Reconciliation of lists agrees with building afresh, as long as no list of
/// children gets shorter.
pub proof fn lemma_reconcile_list_matches_rebuild<C: Render>(es0: Seq<ElementModel<C::V>>, es: Seq<ElementModel<C::V>>)
    requires
        grows_list::<C>(build_list::<C>(es0).0, es),
    ensures
        reconcile_list::<C>(build_list::<C>(es0).0, es).0 == build_list::<C>(es).0,
    decreases top_list(es0, level_of::<C>()), es0,
{
    if es0.len() > 0 {
        lemma_top_list_bounds(es0, level_of::<C>(), 0);
        let rest0 = es0.subrange(1, es0.len() as int);
        lemma_cons(build::<C>(es0[0]).0, build_list::<C>(rest0).0);
        lemma_reconcile_matches_rebuild::<C>(es0[0], es[0]);
        lemma_reconcile_list_matches_rebuild::<C>(rest0, es.subrange(1, es.len() as int));
    } else if es.len() == 0 {
        assert(build_list::<C>(es).0 =~= Seq::<NodeModel<C::V>>::empty());
    }
}

/// At the root: a tree made from one component and then updated to another is the
/// tree made from the other, as long as no list of children gets shorter.
pub proof fn lemma_update_matches_from_render<C: Render>(old_props: C::V, props: C::V)
    requires
        grows::<C>(from_render_model::<C>(old_props).0, ElementModel::Single(props)),
    ensures
        update_model::<C>(from_render_model::<C>(old_props).0, props).0 == from_render_model::<C>(
            props,
        ).0,
{
    if old_props != props {
        lemma_reconcile_list_matches_rebuild::<C>(
            as_list(C::rendered(old_props)),
            as_list(C::rendered(props)),
        );
    }
}


/// Building a render tree only mounts: it unmounts nothing.
pub proof fn lemma_build_only_mounts<C: Render>(e: ElementModel<C::V>)
    ensures
        forall|i: int| 0 <= i < build::<C>(e).1.len() ==> #[trigger] build::<C>(e).1[i] is Mount,
    decreases top(e, level_of::<C>()), e,
{
    lemma_mounts_only_mounts(e);
    match e {
        ElementModel::Single(props) => {
            lemma_rendered_top::<C>(props);
            lemma_build_list_only_mounts::<C>(as_list(C::rendered(props)));
        },
        ElementModel::Multiple(es) => {
            lemma_build_list_only_mounts::<C>(es);
        },
    }
}

/// Building render trees for a list only mounts: it unmounts nothing.
pub proof fn lemma_build_list_only_mounts<C: Render>(es: Seq<ElementModel<C::V>>)
    ensures
        forall|i: int| 0 <= i < build_list::<C>(es).1.len() ==> #[trigger] build_list::<C>(es).1[i] is Mount,
    decreases top_list(es, level_of::<C>()), es,
{
    if es.len() > 0 {
        lemma_top_list_bounds(es, level_of::<C>(), 0);
        lemma_build_only_mounts::<C>(es[0]);
        lemma_build_list_only_mounts::<C>(es.subrange(1, es.len() as int));
    }
}

/// Mounting an element tree only mounts.
pub proof fn lemma_mounts_only_mounts<V>(e: ElementModel<V>)
    ensures
        forall|i: int| 0 <= i < mounts(e).len() ==> #[trigger] mounts(e)[i] is Mount,
    decreases e,
{
    match e {
        ElementModel::Single(_) => {},
        ElementModel::Multiple(es) => {
            lemma_mounts_list_only_mounts(es);
        },
    }
}

pub proof fn lemma_mounts_list_only_mounts<V>(es: Seq<ElementModel<V>>)
    ensures
        forall|i: int| 0 <= i < mounts_list(es).len() ==> #[trigger] mounts_list(es)[i] is Mount,
    decreases es,
{
    if es.len() > 0 {
        lemma_mounts_only_mounts(es[0]);
        lemma_mounts_list_only_mounts(es.subrange(1, es.len() as int));
    }
}

} // verus!

verus! {

/// How many components a render tree holds.
pub open spec fn count<V>(n: NodeModel<V>) -> nat
    decreases n,
{
    match n {
        NodeModel::Single(_, kids) => 1 + count_list(kids),
        NodeModel::Multiple(ns) => count_list(ns),
    }
}

pub open spec fn count_list<V>(ns: Seq<NodeModel<V>>) -> nat
    decreases ns,
{
    if ns.len() == 0 {
        0
    } else {
        count(ns[0]) + count_list(ns.subrange(1, ns.len() as int))
    }
}

/// Whether a component with properties `p` is somewhere in a render tree.
pub open spec fn in_tree<V>(p: V, n: NodeModel<V>) -> bool
    decreases n,
{
    match n {
        NodeModel::Single(q, kids) => p == q || in_list(p, kids),
        NodeModel::Multiple(ns) => in_list(p, ns),
    }
}

pub open spec fn in_list<V>(p: V, ns: Seq<NodeModel<V>>) -> bool
    decreases ns,
{
    ns.len() > 0 && (in_tree(p, ns[0]) || in_list(p, ns.subrange(1, ns.len() as int)))
}

/// Unmounting a render tree unmounts each of its components once: as many
/// unmounts as components, and every component of the tree among them; the
/// component at the root comes last, after everything below it.
pub proof fn lemma_unmounts_cover_tree<V>(n: NodeModel<V>)
    ensures
        unmounts(n).len() == count(n),
        forall|j: int| 0 <= j < unmounts(n).len() ==> #[trigger] unmounts(n)[j] is Unmount,
        forall|p: V| #[trigger] in_tree(p, n) ==> exists|j: int| 0 <= j < count(n) && unmounts(n)[j] == EffectModel::Unmount(p),
        n is Single ==> unmounts(n)[count(n) - 1] == EffectModel::Unmount(n->Single_0),
        n is Single ==> forall|p: V| #[trigger] in_list(p, n->Single_1) ==> exists|j: int|
            0 <= j < count(n) - 1 && unmounts(n)[j] == EffectModel::Unmount(p),
    decreases n,
{
    match n {
        NodeModel::Single(q, kids) => {
            lemma_unmounts_list_cover(kids);
            let u = unmounts_list(kids);
            assert(unmounts(n) == u + seq![EffectModel::Unmount(q)]);
            assert(count(n) == u.len() + 1);
            assert forall|p: V| #[trigger] in_list(p, kids) implies exists|j: int|
                0 <= j < count(n) - 1 && unmounts(n)[j] == EffectModel::Unmount(p) by {
                let j = choose|j: int| 0 <= j < count_list(kids) && u[j] == EffectModel::Unmount(p);
                assert(unmounts(n)[j] == u[j]);
            }
            assert forall|p: V| #[trigger] in_tree(p, n) implies exists|j: int|
                0 <= j < count(n) && unmounts(n)[j] == EffectModel::Unmount(p) by {
                if p == q {
                    assert(count(n) == u.len() + 1);
                    assert(unmounts(n)[u.len() as int] == EffectModel::Unmount(p));
                } else {
                    assert(in_list(p, kids));
                    let j = choose|j: int| 0 <= j < count_list(kids) && u[j] == EffectModel::Unmount(p);
                    assert(unmounts(n)[j] == u[j]);
                }
            }
        },
        NodeModel::Multiple(ns) => {
            lemma_unmounts_list_cover(ns);
            assert(unmounts(n) == unmounts_list(ns));
            assert(count(n) == count_list(ns));
            assert forall|p: V| #[trigger] in_tree(p, n) implies exists|j: int|
                0 <= j < count(n) && unmounts(n)[j] == EffectModel::Unmount(p) by {
                assert(in_list(p, ns));
            }
        },
    }
}

pub proof fn lemma_unmounts_list_cover<V>(ns: Seq<NodeModel<V>>)
    ensures
        unmounts_list(ns).len() == count_list(ns),
        forall|j: int| 0 <= j < unmounts_list(ns).len() ==> #[trigger] unmounts_list(ns)[j] is Unmount,
        forall|p: V| #[trigger] in_list(p, ns) ==> exists|j: int|
            0 <= j < count_list(ns) && unmounts_list(ns)[j] == EffectModel::Unmount(p),
    decreases ns,
{
    if ns.len() > 0 {
        let rest = ns.subrange(1, ns.len() as int);
        lemma_unmounts_cover_tree(ns[0]);
        lemma_unmounts_list_cover(rest);
        let a = unmounts(ns[0]);
        let b = unmounts_list(rest);
        assert(unmounts_list(ns) == a + b);
        assert forall|j: int| 0 <= j < unmounts_list(ns).len() implies #[trigger] unmounts_list(ns)[j] is Unmount by {
            if j < a.len() {
                assert(unmounts_list(ns)[j] == a[j]);
            } else {
                assert(unmounts_list(ns)[j] == b[j - a.len()]);
            }
        }
        assert forall|p: V| #[trigger] in_list(p, ns) implies exists|j: int|
            0 <= j < count_list(ns) && unmounts_list(ns)[j] == EffectModel::Unmount(p) by {
            if in_tree(p, ns[0]) {
                let j = choose|j: int| 0 <= j < count(ns[0]) && a[j] == EffectModel::Unmount(p);
                assert(unmounts_list(ns)[j] == a[j]);
            } else {
                assert(in_list(p, rest));
                let j = choose|j: int| 0 <= j < count_list(rest) && b[j] == EffectModel::Unmount(p);
                assert(unmounts_list(ns)[j + a.len()] == b[j]);
            }
        }
    }
}

/// When reconciliation replaces a component by one of another type, it first
/// unmounts the whole old subtree, each component once and every child before the
/// replaced component, and then mounts the new component.
pub proof fn lemma_replaced_subtree_unmounted<C: Render>(n: NodeModel<C::V>, new_props: C::V)
    requires
        n is Single,
        C::kind_of(n->Single_0) != C::kind_of(new_props),
    ensures
        ({
            let effs = reconcile::<C>(n, ElementModel::Single(new_props)).1;
            let c = count(n);
            &&& effs.len() > c
            &&& forall|j: int| 0 <= j < c ==> #[trigger] effs[j] is Unmount
            &&& effs[c - 1] == EffectModel::Unmount(n->Single_0)
            &&& effs[c as int] == EffectModel::Mount(new_props)
            &&& forall|p: C::V| #[trigger] in_tree(p, n) ==> exists|j: int|
                0 <= j < c && effs[j] == EffectModel::Unmount(p)
            &&& forall|p: C::V| #[trigger] in_list(p, n->Single_1) ==> exists|j: int|
                0 <= j < c - 1 && effs[j] == EffectModel::Unmount(p)
        }),
{
    let props = n->Single_0;
    let kids = n->Single_1;
    lemma_unmounts_cover_tree(n);
    let u = unmounts(n);
    let pre = u + seq![EffectModel::Mount(new_props)];
    let rest = reconcile_list::<C>(kids, as_list(C::rendered(new_props))).1;
    let effs = reconcile::<C>(n, ElementModel::Single(new_props)).1;
    assert(props != new_props);
    assert(effs == pre + rest);
    assert forall|j: int| 0 <= j < u.len() implies #[trigger] effs[j] == u[j] by {}
    assert(effs[u.len() as int] == EffectModel::Mount(new_props));
    assert forall|p: C::V| #[trigger] in_tree(p, n) implies exists|j: int|
        0 <= j < count(n) && effs[j] == EffectModel::Unmount(p) by {
        let j = choose|j: int| 0 <= j < count(n) && u[j] == EffectModel::Unmount(p);
        assert(effs[j] == u[j]);
    }
    assert forall|p: C::V| #[trigger] in_list(p, kids) implies exists|j: int|
        0 <= j < count(n) - 1 && effs[j] == EffectModel::Unmount(p) by {
        let j = choose|j: int| 0 <= j < count(n) - 1 && u[j] == EffectModel::Unmount(p);
        assert(effs[j] == u[j]);
    }
}

/// Making a render tree from a component mounts that component first, and then
/// only mounts: there is always at least that one mount.
pub proof fn lemma_from_render_mounts_root_first<C: Render>(props: C::V)
    ensures
        from_render_model::<C>(props).1.len() >= 1,
        from_render_model::<C>(props).1[0] == EffectModel::Mount(props),
        forall|i: int|
            0 <= i < from_render_model::<C>(props).1.len() ==> #[trigger] from_render_model::<C>(props).1[i] is Mount,
{
    let es = as_list(C::rendered(props));
    lemma_build_list_only_mounts::<C>(es);
    let effs = from_render_model::<C>(props).1;
    let b = build_list::<C>(es).1;
    assert(effs == seq![EffectModel::Mount(props)] + b);
    assert forall|i: int| 0 <= i < effs.len() implies #[trigger] effs[i] is Mount by {
        if i > 0 {
            assert(effs[i] == b[i - 1]);
        }
    }
}

} // verus!
