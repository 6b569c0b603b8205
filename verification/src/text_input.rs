use vstd::prelude::*;
use crate::todo::AnyEvent;

verus! {

/// The state of the text input (it holds nothing yet).
pub struct State {}

/// The same state under the name the DOM example gives it.
pub type Model = State;

/// The events of the text input. None is handled yet: a reducer that is handed
/// one cannot go on, so the reducers require that none comes.
#[derive(Debug)]
pub enum Event {
    Unhandled,
}

/// What the text input shows.
#[derive(Clone, Copy, PartialEq, Eq, Structural)]
pub struct View {}

impl State {
    pub fn new() -> (r: Self)
        ensures
            r == (State {}),
    {
        State {}
    }

    pub fn map_to_view(&self) -> (r: View)
        ensures
            r == (View {}),
    {
        View {}
    }

    /// Events of the other parts leave the text input as it is.
    pub fn reduce(self, event: &AnyEvent) -> (r: Self)
        requires
            !(*event is TextInput),
        ensures
            r == self,
    {
        self
    }
}

} // verus!
