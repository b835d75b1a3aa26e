//! The handler registry: actions by handler id, and what a call of a handler
//! comes to.

use crate::interaction::HandlerCall;
use std::collections::HashMap;
use vstd::prelude::*;

verus! {

broadcast use vstd::std_specs::hash::group_hash_axioms;

/// The actions that were registered, by handler id. What an action is, is up
/// to the one who registers it.
pub struct HandlerRegistry<A> {
    actions: HashMap<u8, A>,
}

/// What the call of a handler comes to.
#[derive(Debug, PartialEq, Eq)]
pub enum Dispatch<'a, A> {
    /// The action that is registered for the handler.
    Action(&'a A),
    /// No action is registered for the handler: the call is only reported.
    LogOnly { element_id: u8, handler_id: u8 },
}

impl<A> View for HandlerRegistry<A> {
    type V = Map<u8, A>;

    closed spec fn view(&self) -> Map<u8, A> {
        self.actions@
    }
}

impl<A> HandlerRegistry<A> {
    /// A registry without actions.
    pub fn new() -> (registry: Self)
        ensures
            registry@ == Map::<u8, A>::empty(),
    {
        HandlerRegistry { actions: HashMap::new() }
    }

    /// Registers an action for a handler, in place of the one that was
    /// registered for it.
    pub fn register(&mut self, handler_id: u8, action: A)
        ensures
            final(self)@ == old(self)@.insert(handler_id, action),
    {
        self.actions.insert(handler_id, action);
    }

    /// Looks up the action that a call asks for.
    pub fn dispatch(&self, call: HandlerCall) -> (dispatch: Dispatch<'_, A>)
        ensures
            match dispatch {
                Dispatch::Action(action) => self@.contains_key(call.handler_id) && *action
                    == self@[call.handler_id],
                Dispatch::LogOnly { element_id, handler_id } => !self@.contains_key(
                    call.handler_id,
                ) && element_id == call.element_id && handler_id == call.handler_id,
            },
    {
        match self.actions.get(&call.handler_id) {
            Some(action) => Dispatch::Action(action),
            None => Dispatch::LogOnly {
                element_id: call.element_id,
                handler_id: call.handler_id,
            },
        }
    }
}

} // verus!
