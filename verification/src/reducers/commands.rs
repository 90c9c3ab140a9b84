//! Commands typed on the command line, from queued to finished.
use vstd::prelude::*;
use crate::structs::{AppState, Command, CommandView, StateView};
use crate::text::{copy_str, str_eq};
use crate::util::{first_match, lemma_first_match_found, lemma_first_match_none, seq_view};

verus! {

/// A queued command becomes a running one, or an ended one where it is
/// marked as failed; an id with nothing queued changes nothing.
pub open spec fn spec_create(s: StateView, uuid: Seq<char>, failed: bool) -> StateView {
    if s.cmd_str_queue.dom().contains(uuid) {
        let cmd = CommandView { name: s.cmd_str_queue[uuid], id: uuid, failed };
        if failed {
            StateView {
                cmd_str_queue: s.cmd_str_queue.remove(uuid),
                cmd_ended: s.cmd_ended.push(cmd),
                ..s
            }
        } else {
            StateView {
                cmd_str_queue: s.cmd_str_queue.remove(uuid),
                cmd_running: s.cmd_running.push(cmd),
                ..s
            }
        }
    } else {
        s
    }
}

pub open spec fn running_index(cmds: Seq<CommandView>, uuid: Seq<char>) -> Option<int> {
    first_match(cmds, |c: CommandView| c.id == uuid)
}

/// The first running command with id `uuid` moves to the ended ones,
/// failed unless it succeeded.
pub open spec fn spec_end(s: StateView, uuid: Seq<char>, success: bool) -> StateView {
    match running_index(s.cmd_running, uuid) {
        Some(i) => StateView {
            cmd_running: s.cmd_running.remove(i),
            cmd_ended: s.cmd_ended.push(CommandView { failed: !success, ..s.cmd_running[i] }),
            ..s
        },
        None => s,
    }
}

pub fn create(state: &mut AppState, uuid: &str, failed: bool)
    ensures
        final(state)@ == spec_create(old(state)@, uuid@, failed),
{
    if let Some(cmd_str) = state.cmd_str_queue.remove(uuid) {
        let cmd = Command::new(cmd_str, copy_str(uuid), failed);
        let ghost cv = cmd@;
        if failed {
            let ghost before = seq_view(state.cmd_ended@);
            state.cmd_ended.push(cmd);
            assert(seq_view(state.cmd_ended@) =~= before.push(cv));
        } else {
            let ghost before = seq_view(state.cmd_running@);
            state.cmd_running.push(cmd);
            assert(seq_view(state.cmd_running@) =~= before.push(cv));
        }
        assert(state@ =~= spec_create(old(state)@, uuid@, failed));
    } else {
        assert(state.cmd_str_queue@ =~= old(state)@.cmd_str_queue);
        assert(state@ =~= spec_create(old(state)@, uuid@, failed));
    }
}

fn find_running(cmds: &Vec<Command>, uuid: &str) -> (r: Option<usize>)
    ensures
        match r {
            Some(i) => running_index(seq_view(cmds@), uuid@) == Some(i as int) && i < cmds@.len(),
            None => running_index(seq_view(cmds@), uuid@) is None,
        },
{
    let ghost s = seq_view(cmds@);
    let ghost p = |c: CommandView| c.id == uuid@;
    let n = cmds.len();
    let mut i: usize = 0;
    while i < n
        invariant
            n == cmds@.len(),
            i <= n,
            s == seq_view(cmds@),
            p == (|c: CommandView| c.id == uuid@),
            forall|j: int| 0 <= j < i ==> !p(#[trigger] s[j]),
        decreases n - i,
    {
        if str_eq(cmds[i].id.as_str(), uuid) {
            proof {
                lemma_first_match_found(s, p, i as int);
            }
            return Some(i);
        }
        i = i + 1;
    }
    proof {
        lemma_first_match_none(s, p);
    }
    None
}

pub fn end(state: &mut AppState, uuid: &str, success: bool)
    ensures
        final(state)@ == spec_end(old(state)@, uuid@, success),
{
    if let Some(i) = find_running(&state.cmd_running, uuid) {
        let ghost s = seq_view(state.cmd_running@);
        let mut cmd = state.cmd_running.remove(i);
        cmd.failed = !success;
        let ghost cv = cmd@;
        let ghost before = seq_view(state.cmd_ended@);
        state.cmd_ended.push(cmd);
        assert(seq_view(state.cmd_ended@) =~= before.push(cv));
        assert(seq_view(state.cmd_running@) =~= s.remove(i as int));
        assert(state@ =~= spec_end(old(state)@, uuid@, success));
    }
}

} // verus!

verus! {

/// Ending a command moves it: the commands running and ended together stay
/// as many, and a command that ran ends last, with its id.
pub proof fn lemma_end_moves_command(s: StateView, uuid: Seq<char>, success: bool)
    ensures
        spec_end(s, uuid, success).cmd_running.len() + spec_end(s, uuid, success).cmd_ended.len()
            == s.cmd_running.len() + s.cmd_ended.len(),
        (exists|i: int| 0 <= i < s.cmd_running.len() && s.cmd_running[i].id == uuid) ==> {
            let e = spec_end(s, uuid, success).cmd_ended;
            &&& e.len() == s.cmd_ended.len() + 1
            &&& e.last().id == uuid
            &&& e.last().failed == !success
        },
{
    crate::util::lemma_first_match(s.cmd_running, |c: CommandView| c.id == uuid);
}

/// Creating a queued command takes it off the queue into the running
/// commands, or into the ended ones where it failed; an unknown id changes
/// nothing.
pub proof fn lemma_create_takes_queued(s: StateView, uuid: Seq<char>, failed: bool)
    ensures
        !s.cmd_str_queue.dom().contains(uuid) ==> spec_create(s, uuid, failed) == s,
        s.cmd_str_queue.dom().contains(uuid) ==> {
            let t = spec_create(s, uuid, failed);
            &&& !t.cmd_str_queue.dom().contains(uuid)
            &&& t.cmd_running.len() + t.cmd_ended.len() == s.cmd_running.len() + s.cmd_ended.len() + 1
        },
{
}

} // verus!
