use vstd::prelude::*;
use crate::actions::Action;
use crate::structs::AppState;

verus! {

/// Passes every action on.
pub struct CommandMiddleware;

impl CommandMiddleware {
    pub fn process(&self, _state: &AppState, action: Action) -> (r: Option<Action>)
        ensures
            r == Some(action),
    {
        Some(action)
    }
}

} // verus!
