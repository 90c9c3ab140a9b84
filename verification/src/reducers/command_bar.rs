//! The command line shown while in command mode.
use vstd::prelude::*;
use crate::structs::{AppState, StateView, StoreView};
use crate::text::{
    byte_len, utf8_width, byte_len_exceeds_one, chars_of, push_char, str_eq, copy_str,
    string_from_range,
};

verus! {

pub open spec fn with_command(s: StateView, command: Seq<char>) -> StateView {
    StateView { json_store: StoreView { command, ..s.json_store }, ..s }
}

/// Entering normal or insert mode empties the command line; entering
/// command mode starts it with `:`; other modes leave it as it is.
pub open spec fn spec_set_mode(s: StateView, mode: Seq<char>) -> StateView {
    if mode == "normal"@ || mode == "insert"@ {
        with_command(s, Seq::empty())
    } else if mode == "command"@ {
        with_command(s, ":"@)
    } else {
        s
    }
}

pub open spec fn spec_push(s: StateView, c: char) -> StateView {
    with_command(s, s.json_store.command.push(c))
}

/// The last character goes where more than one byte is left.
pub open spec fn spec_pop(s: StateView) -> StateView {
    if byte_len(s.json_store.command) > 1 {
        with_command(s, s.json_store.command.drop_last())
    } else {
        s
    }
}

/// Whether the command line can be split after its first byte.
pub open spec fn enqueue_ok(s: StateView) -> bool {
    byte_len(s.json_store.command) > 1 ==> utf8_width(s.json_store.command[0]) == 1
}

/// Where more than one byte is typed, everything after the leading
/// character is queued under `uuid` and the leading character stays.
pub open spec fn spec_enqueue_cmd(s: StateView, uuid: Seq<char>) -> StateView {
    let cmd = s.json_store.command;
    if byte_len(cmd) > 1 {
        StateView {
            cmd_str_queue: s.cmd_str_queue.insert(uuid, cmd.skip(1)),
            json_store: StoreView { command: cmd.take(1), ..s.json_store },
            ..s
        }
    } else {
        s
    }
}

pub fn set_mode(state: &mut AppState, mode: &str)
    ensures
        final(state)@ == spec_set_mode(old(state)@, mode@),
{
    if str_eq(mode, "normal") || str_eq(mode, "insert") {
        state.json_store.command = String::new();
        assert(state@ =~= spec_set_mode(old(state)@, mode@));
    } else if str_eq(mode, "command") {
        state.json_store.command = copy_str(":");
        assert(state@ =~= spec_set_mode(old(state)@, mode@));
    }
}

pub fn push(state: &mut AppState, c: char)
    ensures
        final(state)@ == spec_push(old(state)@, c),
{
    push_char(&mut state.json_store.command, c);
    assert(state@ =~= spec_push(old(state)@, c));
}

pub fn pop(state: &mut AppState, _pop_index: u16)
    ensures
        final(state)@ == spec_pop(old(state)@),
{
    if byte_len_exceeds_one(state.json_store.command.as_str()) {
        let v = chars_of(state.json_store.command.as_str());
        let n = v.len();
        proof {
            crate::text::lemma_byte_len_ge_len(v@);
            if n == 0 {
                assert(v@ =~= Seq::<char>::empty());
            }
        }
        let t = string_from_range(&v, 0, n - 1);
        state.json_store.command = t;
        assert(state@ =~= spec_pop(old(state)@));
    }
}

pub fn enqueue_cmd(state: &mut AppState, uuid: &str)
    requires
        enqueue_ok(old(state)@),
    ensures
        final(state)@ == spec_enqueue_cmd(old(state)@, uuid@),
{
    if byte_len_exceeds_one(state.json_store.command.as_str()) {
        let v = chars_of(state.json_store.command.as_str());
        let n = v.len();
        proof {
            if n == 0 {
                assert(v@ =~= Seq::<char>::empty());
                assert(byte_len(v@) == 0);
            }
        }
        let head = string_from_range(&v, 0, 1);
        let tail = string_from_range(&v, 1, n);
        state.cmd_str_queue.insert(copy_str(uuid), tail);
        state.json_store.command = head;
        assert(state@ =~= spec_enqueue_cmd(old(state)@, uuid@));
    }
}

} // verus!
