//! The editing mode.
use vstd::prelude::*;
use crate::structs::{AppState, StateView, StoreView};
use crate::text::copy_str;

verus! {

pub open spec fn spec_set(s: StateView, mode: Seq<char>) -> StateView {
    StateView { json_store: StoreView { mode, ..s.json_store }, ..s }
}

pub fn set(state: &mut AppState, mode: &str)
    ensures
        final(state)@ == spec_set(old(state)@, mode@),
{
    state.json_store.mode = copy_str(mode);
    assert(state@ =~= spec_set(old(state)@, mode@));
}

} // verus!
