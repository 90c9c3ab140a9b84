//! What a command typed on the command line does.
use vstd::prelude::*;
use crate::actions::{Action, ActionView};
use crate::structs::{AppState, StateView, MessageView};
use crate::text::{chars_of, copy_str, concat, str_eq, string_from_range, trim, trimmed};
use crate::util::seq_view;

verus! {

/// Index of the first space in `s`, or its length.
pub open spec fn first_space(s: Seq<char>) -> int
    decreases s.len(),
{
    if s.len() == 0 {
        0
    } else if s[0] == ' ' {
        0
    } else {
        1 + first_space(s.drop_first())
    }
}

/// The command word: the trimmed text up to its first space.
pub open spec fn command_word(cmd: Seq<char>) -> Seq<char> {
    let t = trimmed(cmd);
    t.take(first_space(t))
}

pub open spec fn is_quit(w: Seq<char>) -> bool {
    w == "q"@ || w == "quit"@
}

pub open spec fn help_lines() -> Seq<Seq<char>> {
    seq![
        ":q         quit"@,
        ":clear     clear chat history"@,
        ":sessions  manage sessions"@,
        ":connect   connect to backend"@,
        ":theme     switch theme"@,
        ":help      show this help"@,
    ]
}

/// The console lines a command prints.
pub open spec fn command_output(w: Seq<char>) -> Seq<Seq<char>> {
    if w == "clear"@ {
        Seq::empty()
    } else if w == "sessions"@ {
        seq!["Sessions not yet implemented"@]
    } else if w == "connect"@ {
        seq!["Connect not yet implemented"@]
    } else if w == "theme"@ {
        seq!["Themes not yet implemented"@]
    } else if w == "help"@ {
        help_lines()
    } else {
        seq!["Unknown command: "@ + w]
    }
}

/// The actions a command sends: its console lines, then a return to
/// normal mode.
pub open spec fn command_actions(w: Seq<char>) -> Seq<ActionView> {
    command_output(w).map_values(|l: Seq<char>| ActionView::ConsolePush(l)).push(
        ActionView::SetMode("normal"@),
    )
}

/// The state after a command: `clear` empties the chat and scrolls back to
/// the bottom.
pub open spec fn command_state(s: StateView, w: Seq<char>) -> StateView {
    if w == "clear"@ {
        StateView { messages: Seq::empty(), scroll_offset: 0, sticky_bottom: true, ..s }
    } else {
        s
    }
}

fn console(out: &mut Vec<Action>, line: &str)
    ensures
        seq_view(final(out)@) == seq_view(old(out)@).push(ActionView::ConsolePush(line@)),
{
    let ghost before = seq_view(out@);
    let a = Action::ConsolePush(copy_str(line));
    let ghost av = a@;
    out.push(a);
    assert(seq_view(out@) =~= before.push(av));
}

fn word_of(cmd: &str) -> (w: String)
    ensures
        w@ == command_word(cmd@),
{
    let t = trim(cmd);
    let v = chars_of(t.as_str());
    let mut i: usize = 0;
    assert(v@.skip(0) =~= v@);
    while i < v.len() && v[i] != ' '
        invariant
            i <= v@.len(),
            first_space(v@) == i + first_space(v@.skip(i as int)),
        decreases v@.len() - i,
    {
        assert(v@.skip(i as int).drop_first() =~= v@.skip(i as int + 1));
        i = i + 1;
    }
    proof {
        if i < v@.len() {
            assert(v@.skip(i as int)[0] == ' ');
        } else {
            assert(v@.skip(i as int).len() == 0);
        }
    }
    string_from_range(&v, 0, i)
}

/// Runs a command line; the actions it sends are appended to `out`.
/// Returns whether the application should quit.
pub fn execute(state: &mut AppState, cmd: &str, out: &mut Vec<Action>) -> (quit: bool)
    ensures
        quit == is_quit(command_word(cmd@)),
        quit ==> final(state)@ == old(state)@ && final(out)@ == old(out)@,
        !quit ==> final(state)@ == command_state(old(state)@, command_word(cmd@)),
        !quit ==> seq_view(final(out)@) == seq_view(old(out)@) + command_actions(
            command_word(cmd@),
        ),
{
    let w = word_of(cmd);
    let ghost wv = w@;
    let ghost start = seq_view(out@);
    let c = w.as_str();
    if str_eq(c, "q") || str_eq(c, "quit") {
        return true;
    }
    if str_eq(c, "clear") {
        state.messages.clear();
        state.scroll_offset = 0;
        state.sticky_bottom = true;
        assert(seq_view(state.messages@) =~= Seq::<MessageView>::empty());
    } else if str_eq(c, "sessions") {
        console(out, "Sessions not yet implemented");
    } else if str_eq(c, "connect") {
        console(out, "Connect not yet implemented");
    } else if str_eq(c, "theme") {
        console(out, "Themes not yet implemented");
    } else if str_eq(c, "help") {
        console(out, ":q         quit");
        console(out, ":clear     clear chat history");
        console(out, ":sessions  manage sessions");
        console(out, ":connect   connect to backend");
        console(out, ":theme     switch theme");
        console(out, ":help      show this help");
    } else {
        let line = concat("Unknown command: ", c);
        console(out, line.as_str());
    }
    assert(state@ =~= command_state(old(state)@, wv));
    let ghost mid = seq_view(out@);
    assert(mid =~= start + command_output(wv).map_values(|l: Seq<char>| ActionView::ConsolePush(l)));
    let a = Action::SetMode(copy_str("normal"));
    let ghost av = a@;
    out.push(a);
    assert(seq_view(out@) =~= mid.push(av));
    assert(seq_view(out@) =~= start + command_actions(wv));
    false
}

} // verus!

verus! {

/// A text without whitespace has no space before its end.
proof fn lemma_first_space_of_word(w: Seq<char>)
    requires
        forall|i: int| 0 <= i < w.len() ==> !crate::text::is_ws(#[trigger] w[i]),
    ensures
        first_space(w) == w.len(),
    decreases w.len(),
{
    if w.len() > 0 {
        assert(!crate::text::is_ws(w[0]));
        assert(w[0] != ' ');
        assert forall|i: int| 0 <= i < w.drop_first().len() implies !crate::text::is_ws(
            #[trigger] w.drop_first()[i],
        ) by {
            assert(w.drop_first()[i] == w[i + 1]);
        }
        lemma_first_space_of_word(w.drop_first());
    }
}

/// A command line that is a single word is that command, and it quits the
/// application exactly when the word is `q` or `quit`; any other word
/// returns to normal mode, as the last action it sends.
pub proof fn lemma_only_q_and_quit_quit(w: Seq<char>)
    requires
        forall|i: int| 0 <= i < w.len() ==> !crate::text::is_ws(#[trigger] w[i]),
    ensures
        command_word(w) == w,
        is_quit(command_word(w)) <==> (w == "q"@ || w == "quit"@),
        !is_quit(command_word(w)) ==> command_actions(command_word(w)).last() == ActionView::SetMode("normal"@),
{
    assert(crate::text::trim_start(w) == w);
    assert(crate::text::trim_end(w) == w);
    lemma_first_space_of_word(w);
    assert(w.take(w.len() as int) =~= w);
}

} // verus!
