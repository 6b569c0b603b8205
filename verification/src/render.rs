use vstd::prelude::*;

verus! {

/// What an element tree means: components by their properties.
pub enum ElementModel<V> {
    Single(V),
    Multiple(Seq<ElementModel<V>>),
}

/// An element tree: one component, or a list of element trees.
pub enum Element<C> {
    Single { component: C },
    Multiple { elements: Vec<Element<C>> },
}

impl<C: View> Element<C> {
    pub open spec fn model(self) -> ElementModel<C::V>
        decreases self,
    {
        match self {
            Element::Single { component } => ElementModel::Single(component@),
            Element::Multiple { elements } => ElementModel::Multiple(elements_model(elements@)),
        }
    }
}

pub open spec fn elements_model<C: View>(s: Seq<Element<C>>) -> Seq<ElementModel<C::V>>
    decreases s,
{
    if s.len() == 0 {
        Seq::empty()
    } else {
        seq![s[0].model()] + elements_model(s.subrange(1, s.len() as int))
    }
}


/// Telling components apart: by the type they are of, and by their properties.
pub trait AnyEqual: View + Sized {
    /// The component type that a component with these properties is of.
    spec fn kind_of(props: Self::V) -> int;

    /// Whether two components are of the same type.
    fn same_kind(&self, other: &Self) -> (r: bool)
        ensures
            r == (Self::kind_of(self@) == Self::kind_of(other@)),
    ;

    /// Whether two components are equal: same type and equal properties.
    fn equals(&self, other: &Self) -> (r: bool)
        ensures
            r == (self@ == other@),
    ;
}

/// Copying a component.
pub trait CloneBox: View + Sized {
    fn clone_box(&self) -> (r: Self)
        ensures
            r@ == self@,
    ;
}

/// A component: it renders to an element tree of components of a lower level.
pub trait Render: AnyEqual + CloneBox {
    /// How deep the components that this one renders can nest.
    spec fn level(props: Self::V) -> nat;

    /// The element tree that a component with these properties renders to.
    spec fn rendered(props: Self::V) -> ElementModel<Self::V>;

    /// Rendering goes down in level, so that rendering a tree terminates.
    proof fn lemma_rendered_level(props: Self::V)
        ensures
            top(Self::rendered(props), |p: Self::V| Self::level(p)) <= Self::level(props),
    ;

    fn render(&self) -> (e: Element<Self>)
        ensures
            e.model() == Self::rendered(self@),
    ;
}

/// One more than the highest level of a component in an element tree.
pub open spec fn top<V>(e: ElementModel<V>, level: spec_fn(V) -> nat) -> nat
    decreases e,
{
    match e {
        ElementModel::Single(props) => level(props) + 1,
        ElementModel::Multiple(es) => top_list(es, level),
    }
}

pub open spec fn top_list<V>(es: Seq<ElementModel<V>>, level: spec_fn(V) -> nat) -> nat
    decreases es,
{
    if es.len() == 0 {
        0
    } else {
        let head = top(es[0], level);
        let tail = top_list(es.subrange(1, es.len() as int), level);
        if head >= tail { head } else { tail }
    }
}

/// The list of element trees that an element tree stands for as children.
pub open spec fn as_list<V>(e: ElementModel<V>) -> Seq<ElementModel<V>> {
    match e {
        ElementModel::Single(_) => seq![e],
        ElementModel::Multiple(es) => es,
    }
}


/// The level function of a component type.
pub open spec fn level_of<C: Render>() -> spec_fn(C::V) -> nat {
    |props: C::V| C::level(props)
}

/// No tree of a list is higher than the list.
pub proof fn lemma_top_list_bounds<V>(es: Seq<ElementModel<V>>, level: spec_fn(V) -> nat, i: int)
    requires
        0 <= i < es.len(),
    ensures
        top(es[i], level) <= top_list(es, level),
    decreases es.len(),
{
    if i > 0 {
        let rest = es.subrange(1, es.len() as int);
        lemma_top_list_bounds(rest, level, i - 1);
        assert(rest[i - 1] == es[i]);
    }
}

/// An element tree seen as a list of children is as high as the tree.
pub proof fn lemma_top_as_list<V>(e: ElementModel<V>, level: spec_fn(V) -> nat)
    ensures
        top_list(as_list(e), level) == top(e, level),
{
    match e {
        ElementModel::Single(_) => {
            let es = as_list(e);
            assert(es.subrange(1, es.len() as int) =~= Seq::<ElementModel<V>>::empty());
            assert(top_list(es.subrange(1, es.len() as int), level) == 0);
            assert(es[0] == e);
        },
        ElementModel::Multiple(_) => {},
    }
}

/// What a component renders is lower than the component.
pub proof fn lemma_rendered_top<C: Render>(props: C::V)
    ensures
        top_list(as_list(C::rendered(props)), level_of::<C>()) < C::level(props) + 1,
{
    C::lemma_rendered_level(props);
    assert(level_of::<C>() =~= |p: C::V| C::level(p));
    lemma_top_as_list(C::rendered(props), level_of::<C>());
}

/// A lifecycle effect that the render tree asks for: a component was mounted or unmounted.
pub enum Effect<C> {
    Mount(C),
    Unmount(C),
}

pub enum EffectModel<V> {
    Mount(V),
    Unmount(V),
}

impl<C: View> Effect<C> {
    pub open spec fn model(self) -> EffectModel<C::V> {
        match self {
            Effect::Mount(c) => EffectModel::Mount(c@),
            Effect::Unmount(c) => EffectModel::Unmount(c@),
        }
    }
}

pub open spec fn effects_model<C: View>(s: Seq<Effect<C>>) -> Seq<EffectModel<C::V>> {
    s.map_values(|e: Effect<C>| e.model())
}

/// The mounts that mounting an element tree performs: each component, in order.
pub open spec fn mounts<V>(e: ElementModel<V>) -> Seq<EffectModel<V>>
    decreases e,
{
    match e {
        ElementModel::Single(props) => seq![EffectModel::Mount(props)],
        ElementModel::Multiple(es) => mounts_list(es),
    }
}

pub open spec fn mounts_list<V>(es: Seq<ElementModel<V>>) -> Seq<EffectModel<V>>
    decreases es,
{
    if es.len() == 0 {
        Seq::empty()
    } else {
        mounts(es[0]) + mounts_list(es.subrange(1, es.len() as int))
    }
}


pub proof fn lemma_elements_model<C: View>(s: Seq<Element<C>>)
    ensures
        elements_model(s).len() == s.len(),
        forall|i: int| 0 <= i < s.len() ==> #[trigger] elements_model(s)[i] == s[i].model(),
    decreases s.len(),
{
    if s.len() > 0 {
        let rest = s.subrange(1, s.len() as int);
        lemma_elements_model(rest);
        assert forall|i: int| 0 <= i < s.len() implies #[trigger] elements_model(s)[i] == s[i].model() by {
            if i > 0 {
                assert(rest[i - 1] == s[i]);
            }
        }
    }
}

/// The model of a list of elements, read off element by element.
pub proof fn lemma_elements_model_eq<C: View>(s: Seq<Element<C>>)
    ensures
        elements_model(s) == Seq::new(s.len(), |i: int| s[i].model()),
{
    lemma_elements_model(s);
    assert(elements_model(s) =~= Seq::new(s.len(), |i: int| s[i].model()));
}

pub proof fn lemma_effects_push<C: View>(s: Seq<Effect<C>>, x: Effect<C>)
    ensures
        effects_model(s.push(x)) == effects_model(s) + seq![x.model()],
{
    assert(effects_model(s.push(x)) =~= effects_model(s) + seq![x.model()]);
}

/// The head and tail of a list, seen through a function defined head first.
pub proof fn lemma_mounts_list_step<V>(es: Seq<ElementModel<V>>, k: int)
    requires
        0 <= k < es.len(),
    ensures
        mounts_list(es.subrange(k, es.len() as int)) == mounts(es[k]) + mounts_list(
            es.subrange(k + 1, es.len() as int),
        ),
{
    let s = es.subrange(k, es.len() as int);
    assert(s.subrange(1, s.len() as int) =~= es.subrange(k + 1, es.len() as int));
    assert(s[0] == es[k]);
}

impl<C: CloneBox> Element<C> {
    /// Mounts every component of the element tree, in order (`on_mount` of each).
    pub fn on_mount(&self, effects: &mut Vec<Effect<C>>)
        ensures
            effects_model(final(effects)@) == effects_model(old(effects)@) + mounts(self.model()),
        decreases self.model(),
    {
        match self {
            Element::Single { component } => {
                let ghost before = effects@;
                let c = component.clone_box();
                effects.push(Effect::Mount(c));
                proof {
                    lemma_effects_push(before, Effect::Mount(c));
                }
            },
            Element::Multiple { elements } => {
                let ghost es = elements_model(elements@);
                let ghost start = effects_model(effects@);
                proof {
                    lemma_elements_model(elements@);
                    assert(es.subrange(0, es.len() as int) =~= es);
                }
                let mut i: usize = 0;
                while i < elements.len()
                    invariant
                        0 <= i <= elements.len(),
                        es == elements_model(elements@),
                        self.model() == ElementModel::Multiple(es),
                        es.len() == elements@.len(),
                        forall|j: int| 0 <= j < elements@.len() ==> #[trigger] es[j] == elements@[j].model(),
                        effects_model(effects@) + mounts_list(es.subrange(i as int, es.len() as int))
                            == start + mounts_list(es),
                    decreases elements.len() - i,
                {
                    let ghost before = effects_model(effects@);
                    proof {
                        assert(self.model() == ElementModel::Multiple(es));
                        assert(decreases_to!(self.model() => self.model()->Multiple_0));
                        assert(decreases_to!(es => es[i as int]));
                        assert(decreases_to!(self.model() => es[i as int]));
                    }
                    elements[i].on_mount(effects);
                    proof {
                        lemma_mounts_list_step(es, i as int);
                        assert(before + mounts(es[i as int]) + mounts_list(es.subrange(i + 1, es.len() as int))
                            =~= before + mounts_list(es.subrange(i as int, es.len() as int)));
                    }
                    i = i + 1;
                }
                proof {
                    assert(es.subrange(i as int, es.len() as int) =~= Seq::<ElementModel<C::V>>::empty());
                    assert(effects_model(effects@) + Seq::<EffectModel<C::V>>::empty() =~= effects_model(effects@));
                }
            },
        }
    }
}


/// The unmounts that unmounting an element tree performs: each component, in order.
pub open spec fn element_unmounts<V>(e: ElementModel<V>) -> Seq<EffectModel<V>>
    decreases e,
{
    match e {
        ElementModel::Single(props) => seq![EffectModel::Unmount(props)],
        ElementModel::Multiple(es) => element_unmounts_list(es),
    }
}

pub open spec fn element_unmounts_list<V>(es: Seq<ElementModel<V>>) -> Seq<EffectModel<V>>
    decreases es,
{
    if es.len() == 0 {
        Seq::empty()
    } else {
        element_unmounts(es[0]) + element_unmounts_list(es.subrange(1, es.len() as int))
    }
}

pub proof fn lemma_element_unmounts_list_step<V>(es: Seq<ElementModel<V>>, k: int)
    requires
        0 <= k < es.len(),
    ensures
        element_unmounts_list(es.subrange(k, es.len() as int)) == element_unmounts(es[k])
            + element_unmounts_list(es.subrange(k + 1, es.len() as int)),
{
    let s = es.subrange(k, es.len() as int);
    assert(s.subrange(1, s.len() as int) =~= es.subrange(k + 1, es.len() as int));
    assert(s[0] == es[k]);
}

impl<C: CloneBox> Element<C> {
    /// Unmounts every component of the element tree, in order (`on_unmount` of each).
    pub fn on_unmount(&self, effects: &mut Vec<Effect<C>>)
        ensures
            effects_model(final(effects)@) == effects_model(old(effects)@) + element_unmounts(
                self.model(),
            ),
        decreases self.model(),
    {
        match self {
            Element::Single { component } => {
                let ghost before = effects@;
                let c = component.clone_box();
                effects.push(Effect::Unmount(c));
                proof {
                    lemma_effects_push(before, Effect::Unmount(c));
                }
            },
            Element::Multiple { elements } => {
                let ghost es = elements_model(elements@);
                let ghost start = effects_model(effects@);
                proof {
                    lemma_elements_model(elements@);
                    assert(es.subrange(0, es.len() as int) =~= es);
                }
                let mut i: usize = 0;
                while i < elements.len()
                    invariant
                        0 <= i <= elements.len(),
                        es == elements_model(elements@),
                        self.model() == ElementModel::Multiple(es),
                        es.len() == elements@.len(),
                        forall|j: int| 0 <= j < elements@.len() ==> #[trigger] es[j] == elements@[j].model(),
                        effects_model(effects@) + element_unmounts_list(es.subrange(i as int, es.len() as int))
                            == start + element_unmounts_list(es),
                    decreases elements.len() - i,
                {
                    let ghost before = effects_model(effects@);
                    proof {
                        assert(decreases_to!(self.model() => self.model()->Multiple_0));
                        assert(decreases_to!(es => es[i as int]));
                    }
                    elements[i].on_unmount(effects);
                    proof {
                        lemma_element_unmounts_list_step(es, i as int);
                        assert(before + element_unmounts(es[i as int]) + element_unmounts_list(
                            es.subrange(i + 1, es.len() as int),
                        ) =~= before + element_unmounts_list(es.subrange(i as int, es.len() as int)));
                    }
                    i = i + 1;
                }
                proof {
                    assert(es.subrange(i as int, es.len() as int) =~= Seq::<ElementModel<C::V>>::empty());
                    assert(effects_model(effects@) + Seq::<EffectModel<C::V>>::empty() =~= effects_model(effects@));
                }
            },
        }
    }

    /// A copy of the element tree, component by component.
    pub fn clone_element(&self) -> (r: Self)
        ensures
            r.model() == self.model(),
        decreases self.model(),
    {
        match self {
            Element::Single { component } => Element::Single { component: component.clone_box() },
            Element::Multiple { elements } => {
                let ghost es = elements_model(elements@);
                proof {
                    lemma_elements_model(elements@);
                }
                let mut copies: Vec<Element<C>> = Vec::new();
                let mut i: usize = 0;
                while i < elements.len()
                    invariant
                        0 <= i <= elements.len(),
                        es == elements_model(elements@),
                        self.model() == ElementModel::Multiple(es),
                        es.len() == elements@.len(),
                        forall|j: int| 0 <= j < elements@.len() ==> #[trigger] es[j] == elements@[j].model(),
                        copies@.len() == i,
                        forall|j: int| 0 <= j < i ==> #[trigger] copies@[j].model() == es[j],
                    decreases elements.len() - i,
                {
                    proof {
                        assert(decreases_to!(self.model() => self.model()->Multiple_0));
                        assert(decreases_to!(es => es[i as int]));
                    }
                    let copy = elements[i].clone_element();
                    copies.push(copy);
                    i = i + 1;
                }
                proof {
                    lemma_elements_model_eq(copies@);
                    assert(elements_model(copies@) =~= es);
                }
                Element::Multiple { elements: copies }
            },
        }
    }
}

impl<C: CloneBox> Clone for Element<C> {
    fn clone(&self) -> (r: Self)
        ensures
            r.model() == self.model(),
    {
        self.clone_element()
    }
}


/// What can be turned into an element tree: nothing, one component, two or
/// three components, or a list of components.
pub trait IntoView<C: View>: Sized {
    /// The element tree it turns into.
    spec fn rep(self) -> ElementModel<C::V>;

    fn into_rep(self) -> (e: Element<C>)
        ensures
            e.model() == self.rep(),
    ;
}

impl<C: View> IntoView<C> for () {
    open spec fn rep(self) -> ElementModel<C::V> {
        ElementModel::Multiple(Seq::empty())
    }

    fn into_rep(self) -> (e: Element<C>) {
        let e = Element::Multiple { elements: Vec::new() };
        proof {
            assert(elements_model(Seq::<Element<C>>::empty()) =~= Seq::<ElementModel<C::V>>::empty());
        }
        e
    }
}

impl<C: Render> IntoView<C> for C {
    open spec fn rep(self) -> ElementModel<C::V> {
        ElementModel::Multiple(seq![ElementModel::Single(self@)])
    }

    fn into_rep(self) -> (e: Element<C>) {
        let elements = vec![Element::Single { component: self }];
        proof {
            lemma_elements_model_eq(elements@);
            assert(elements_model(elements@) =~= seq![ElementModel::Single(self@)]);
        }
        Element::Multiple { elements }
    }
}

impl<C: View> IntoView<C> for (C, C) {
    open spec fn rep(self) -> ElementModel<C::V> {
        ElementModel::Multiple(seq![ElementModel::Single(self.0@), ElementModel::Single(self.1@)])
    }

    fn into_rep(self) -> (e: Element<C>) {
        let (t0, t1) = self;
        let elements = vec![Element::Single { component: t0 }, Element::Single { component: t1 }];
        proof {
            lemma_elements_model_eq(elements@);
            assert(elements_model(elements@) =~= seq![ElementModel::Single(t0@), ElementModel::Single(t1@)]);
        }
        Element::Multiple { elements }
    }
}

impl<C: View> IntoView<C> for (C, C, C) {
    open spec fn rep(self) -> ElementModel<C::V> {
        ElementModel::Multiple(
            seq![
                ElementModel::Single(self.0@),
                ElementModel::Single(self.1@),
                ElementModel::Single(self.2@),
            ],
        )
    }

    fn into_rep(self) -> (e: Element<C>) {
        let (t0, t1, t2) = self;
        let elements = vec![
            Element::Single { component: t0 },
            Element::Single { component: t1 },
            Element::Single { component: t2 },
        ];
        proof {
            lemma_elements_model_eq(elements@);
            assert(elements_model(elements@) =~= seq![
                ElementModel::Single(t0@),
                ElementModel::Single(t1@),
                ElementModel::Single(t2@),
            ]);
        }
        Element::Multiple { elements }
    }
}

/// A list of components as element trees, one each.
pub open spec fn singles<C: View>(cs: Seq<C>) -> Seq<ElementModel<C::V>> {
    Seq::new(cs.len(), |i: int| ElementModel::Single(cs[i]@))
}

impl<C: View> IntoView<C> for Vec<C> {
    open spec fn rep(self) -> ElementModel<C::V> {
        ElementModel::Multiple(singles(self@))
    }

    fn into_rep(self) -> (e: Element<C>) {
        let ghost cs = self@;
        let mut remaining = self;
        let mut elements: Vec<Element<C>> = Vec::new();
        let ghost mut k: int = 0;
        while remaining.len() > 0
            invariant
                0 <= k <= cs.len(),
                remaining@ == cs.subrange(k, cs.len() as int),
                elements@.len() == k,
                forall|j: int| 0 <= j < k ==> #[trigger] elements@[j].model() == ElementModel::Single(cs[j]@),
            decreases remaining.len(),
        {
            let c = remaining.remove(0);
            elements.push(Element::Single { component: c });
            proof {
                assert(remaining@ =~= cs.subrange(k + 1, cs.len() as int));
                k = k + 1;
            }
        }
        proof {
            lemma_elements_model_eq(elements@);
            assert(elements_model(elements@) =~= singles(cs));
        }
        Element::Multiple { elements }
    }
}

/// Turns what can be rendered into an element tree.
pub fn render<C: View, T: IntoView<C>>(into_rep: T) -> (e: Element<C>)
    ensures
        e.model() == into_rep.rep(),
{
    into_rep.into_rep()
}

/// A text: it renders to nothing of its own.
pub fn text<C: View>(content: &str) -> (e: Element<C>)
    ensures
        e.model() == ElementModel::<C::V>::Multiple(Seq::empty()),
{
    render(())
}

impl<C: View> Element<C> {
    /// Attaches event handlers: the result renders to nothing of its own.
    pub fn event(self) -> (e: Element<C>)
        ensures
            e.model() == ElementModel::<C::V>::Multiple(Seq::empty()),
    {
        render(())
    }
}


impl<'a, C: View> IntoView<C> for &'a str {
    open spec fn rep(self) -> ElementModel<C::V> {
        ElementModel::Multiple(Seq::empty())
    }

    fn into_rep(self) -> (e: Element<C>) {
        text(self)
    }
}

impl<'a, C: View> IntoView<C> for &'a String {
    open spec fn rep(self) -> ElementModel<C::V> {
        ElementModel::Multiple(Seq::empty())
    }

    fn into_rep(self) -> (e: Element<C>) {
        text(self.as_str())
    }
}

impl<C: View> IntoView<C> for String {
    open spec fn rep(self) -> ElementModel<C::V> {
        ElementModel::Multiple(Seq::empty())
    }

    fn into_rep(self) -> (e: Element<C>) {
        text(self.as_str())
    }
}

} // verus!
