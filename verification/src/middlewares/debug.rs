use vstd::prelude::*;
use crate::actions::Action;
use crate::structs::AppState;

verus! {

/// Passes every action on.
pub struct DebugMiddleware;

impl DebugMiddleware {
    pub fn process(&self, _state: &AppState, action: Action) -> (r: Option<Action>)
        ensures
            r == Some(action),
    {
        Some(action)
    }
}

} // verus!
