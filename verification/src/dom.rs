use vstd::prelude::*;
use vstd::std_specs::cmp::PartialEqSpecImpl;
use crate::render::{AnyEqual, CloneBox};

verus! {

/// A click handler: the event that a click sends.
pub struct OnClick<E> {
    event: E,
}

impl<E: View> View for OnClick<E> {
    type V = E::V;

    closed spec fn view(&self) -> E::V {
        self.event@
    }
}

impl<E: CloneBox> Clone for OnClick<E> {
    fn clone(&self) -> (r: Self)
        ensures
            r@ == self@,
    {
        OnClick { event: self.event.clone_box() }
    }
}

impl<E: AnyEqual> PartialEq for OnClick<E> {
    fn eq(&self, other: &Self) -> (r: bool) {
        self.event.equals(&other.event)
    }
}

impl<E: AnyEqual> PartialEqSpecImpl for OnClick<E> {
    open spec fn obeys_eq_spec() -> bool {
        true
    }

    open spec fn eq_spec(&self, other: &Self) -> bool {
        self@ == other@
    }
}

/// A click handler that sends `event`.
pub fn on_click<E: AnyEqual + CloneBox>(event: E) -> (r: OnClick<E>)
    ensures
        r@ == event@,
{
    OnClick { event }
}

} // verus!
