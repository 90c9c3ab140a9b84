//! Lines printed to the console area.
use vstd::prelude::*;
use crate::structs::{AppState, StateView, StoreView};
use crate::text::copy_str;
use crate::util::seq_view;

verus! {

pub open spec fn spec_console_push(s: StateView, line: Seq<char>) -> StateView {
    StateView {
        json_store: StoreView {
            console_output_lines: s.json_store.console_output_lines.push(line),
            ..s.json_store
        },
        ..s
    }
}

pub fn push(state: &mut AppState, line: &str)
    ensures
        final(state)@ == spec_console_push(old(state)@, line@),
{
    let ghost before = seq_view(state.json_store.console_output_lines@);
    state.json_store.console_output_lines.push(copy_str(line));
    assert(seq_view(state.json_store.console_output_lines@) =~= before.push(line@));
    assert(state@ =~= spec_console_push(old(state)@, line@));
}

} // verus!
