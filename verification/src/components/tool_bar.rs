//! The status bar of tools, sub-tasks and queued messages.
use vstd::prelude::*;
use crate::components::spans::{Tone, StyledSpan, SpanLook, look, line_look, styled, styled_owned};
use crate::structs::{AppState, StateView, ToolCallView, ChildTaskView};
use crate::text::{str_eq, concat, decimal, decimal_string, push_char};

verus! {

/// The icon of a tool's status and its colour.
pub open spec fn tool_icon(s: Seq<char>) -> (Seq<char>, Tone) {
    if s == "success"@ || s == "done"@ {
        ("\u{2713}"@, Tone::Green)
    } else if s == "running"@ || s == "active"@ {
        ("\u{27F3}"@, Tone::Yellow)
    } else if s == "failed"@ || s == "error"@ {
        ("\u{2717}"@, Tone::Red)
    } else {
        ("\u{25CB}"@, Tone::DarkGray)
    }
}

/// The icon of a tool's status and its colour.
pub fn status_icon(status: &str) -> (r: (&'static str, Tone))
    ensures
        (r.0@, r.1) == tool_icon(status@),
{
    if str_eq(status, "success") || str_eq(status, "done") {
        ("\u{2713}", Tone::Green)
    } else if str_eq(status, "running") || str_eq(status, "active") {
        ("\u{27F3}", Tone::Yellow)
    } else if str_eq(status, "failed") || str_eq(status, "error") {
        ("\u{2717}", Tone::Red)
    } else {
        ("\u{25CB}", Tone::DarkGray)
    }
}

/// Frame `i` of the spinner.
pub open spec fn spinner_char(i: int) -> char {
    if i == 0 {
        '\u{280B}'
    } else if i == 1 {
        '\u{2819}'
    } else if i == 2 {
        '\u{2839}'
    } else if i == 3 {
        '\u{2838}'
    } else if i == 4 {
        '\u{283C}'
    } else if i == 5 {
        '\u{2834}'
    } else if i == 6 {
        '\u{2826}'
    } else if i == 7 {
        '\u{2827}'
    } else if i == 8 {
        '\u{2807}'
    } else {
        '\u{280F}'
    }
}

fn spinner_frame_char(i: usize) -> (c: char)
    requires
        i < 10,
    ensures
        c == spinner_char(i as int),
{
    if i == 0 {
        '\u{280B}'
    } else if i == 1 {
        '\u{2819}'
    } else if i == 2 {
        '\u{2839}'
    } else if i == 3 {
        '\u{2838}'
    } else if i == 4 {
        '\u{283C}'
    } else if i == 5 {
        '\u{2834}'
    } else if i == 6 {
        '\u{2826}'
    } else if i == 7 {
        '\u{2827}'
    } else if i == 8 {
        '\u{2807}'
    } else {
        '\u{280F}'
    }
}

/// The tools in order, arrows between them.
pub open spec fn tool_spans(ts: Seq<ToolCallView>) -> Seq<SpanLook>
    decreases ts.len(),
{
    if ts.len() == 0 {
        Seq::empty()
    } else {
        let prev = tool_spans(ts.drop_last());
        let sep = if ts.len() > 1 {
            seq![look(" \u{2192} "@, Tone::DarkGray)]
        } else {
            Seq::empty()
        };
        let icon = tool_icon(ts.last().status);
        prev + sep + seq![look(ts.last().tool_name + " "@, Tone::White), look(icon.0, icon.1)]
    }
}

/// How many sub-tasks have succeeded.
pub open spec fn done_count(ts: Seq<ChildTaskView>) -> nat
    decreases ts.len(),
{
    if ts.len() == 0 {
        0
    } else {
        done_count(ts.drop_last()) + if ts.last().status == "success"@ {
            1nat
        } else {
            0nat
        }
    }
}

pub proof fn lemma_done_count_le(ts: Seq<ChildTaskView>)
    ensures
        done_count(ts) <= ts.len(),
    decreases ts.len(),
{
    if ts.len() > 0 {
        lemma_done_count_le(ts.drop_last());
    }
}

/// Whether the bar only says that it is ready.
pub open spec fn tool_bar_ready(s: StateView) -> bool {
    s.tool_calls.len() == 0 && !s.json_store.nodes_running
}

/// The spinner and the agent, while nodes run.
pub open spec fn spinner_part(s: StateView) -> Seq<SpanLook> {
    if s.json_store.nodes_running {
        seq![
            look(
                seq![spinner_char(((s.json_store.spinner_frame as usize) % 10) as int)] + " "@
                    + s.json_store.agent_name + " "@,
                Tone::Yellow,
            ),
        ]
    } else {
        Seq::empty()
    }
}

/// The tools, where there are any.
pub open spec fn tools_part(s: StateView) -> Seq<SpanLook> {
    if s.tool_calls.len() > 0 {
        seq![look(" "@, Tone::Plain)] + tool_spans(s.tool_calls)
    } else {
        Seq::empty()
    }
}

/// The sub-tasks done of all, where there are any.
pub open spec fn tasks_part(s: StateView) -> Seq<SpanLook> {
    let done = done_count(s.child_tasks);
    let total = s.child_tasks.len();
    if total > 0 {
        if done == total {
            seq![look(" "@, Tone::Plain), look(decimal(total) + "/"@ + decimal(total) + " tasks \u{2713}"@, Tone::Green)]
        } else {
            seq![look(" "@, Tone::Plain), look(decimal(done) + "/"@ + decimal(total) + " tasks \u{27F3}"@, Tone::Yellow)]
        }
    } else {
        Seq::empty()
    }
}

/// The queued messages, where there are any.
pub open spec fn queued_part(s: StateView) -> Seq<SpanLook> {
    if s.message_queue.len() > 0 {
        seq![look(" "@, Tone::Plain), look(decimal(s.message_queue.len()) + " queued"@, Tone::DarkGray)]
    } else {
        Seq::empty()
    }
}

/// The bar while something goes on: the spinner and the agent while nodes
/// run, the tools, the sub-tasks done of all, and the queued messages.
pub open spec fn tool_bar_line(s: StateView) -> Seq<SpanLook> {
    seq![look(" "@, Tone::Plain)] + spinner_part(s) + tools_part(s) + tasks_part(s) + queued_part(s)
}

/// The bar while nothing goes on.
pub open spec fn ready_line() -> Seq<SpanLook> {
    seq![look("\u{25CF} "@, Tone::Green), look("ready "@, Tone::DarkGray)]
}

/// What the bar shows; `ready` says that it is the right-aligned ready
/// sign.
pub struct ToolBarView {
    pub ready: bool,
    pub spans: Vec<StyledSpan>,
}

/// Lays out the bar.
pub fn tool_bar(state: &AppState) -> (r: ToolBarView)
    ensures
        r.ready == tool_bar_ready(state@),
        line_look(r.spans@) == (if r.ready {
            ready_line()
        } else {
            tool_bar_line(state@)
        }),
{
    let ghost s = state@;
    let nodes_running = state.json_store.nodes_running;
    let mut spans: Vec<StyledSpan> = Vec::new();
    if state.tool_calls.len() == 0 && !nodes_running {
        spans.push(styled("\u{25CF} ", Tone::Green));
        spans.push(styled("ready ", Tone::DarkGray));
        assert(line_look(spans@) =~~= ready_line());
        return ToolBarView { ready: true, spans };
    }
    spans.push(styled(" ", Tone::Plain));
    let ghost blank = look(" "@, Tone::Plain);
    assert(line_look(spans@) =~~= seq![blank]);
    if nodes_running {
        let frame_idx = (state.json_store.spinner_frame as usize) % 10;
        let mut t = String::new();
        push_char(&mut t, spinner_frame_char(frame_idx));
        push_char(&mut t, ' ');
        let t = concat(t.as_str(), state.json_store.agent_name.as_str());
        let t = concat(t.as_str(), " ");
        proof {
            reveal_strlit(" ");
        }
        assert(t@ =~= seq![spinner_char(((s.json_store.spinner_frame as usize) % 10) as int)] + " "@
            + s.json_store.agent_name + " "@);
        let ghost before = line_look(spans@);
        spans.push(styled_owned(t, Tone::Yellow));
        assert(line_look(spans@) =~~= before + spinner_part(s));
    } else {
        assert(line_look(spans@) =~~= line_look(spans@) + spinner_part(s));
    }
    let ghost after_spinner = line_look(spans@);
    if state.tool_calls.len() > 0 {
        spans.push(styled(" ", Tone::Plain));
        let ghost base = line_look(spans@);
        assert(base =~~= after_spinner + seq![blank]);
        let mut i: usize = 0;
        while i < state.tool_calls.len()
            invariant
                i <= state.tool_calls@.len(),
                s == state@,
                line_look(spans@) == base + tool_spans(s.tool_calls.take(i as int)),
            decreases state.tool_calls@.len() - i,
        {
            let ghost cur = s.tool_calls.take(i as int + 1);
            assert(cur.drop_last() =~= s.tool_calls.take(i as int));
            assert(cur.last() == state.tool_calls@[i as int]@);
            let ghost before = line_look(spans@);
            if i > 0 {
                spans.push(styled(" \u{2192} ", Tone::DarkGray));
            }
            let tool = &state.tool_calls[i];
            let (icon, tone) = status_icon(tool.status.as_str());
            spans.push(styled_owned(concat(tool.tool_name.as_str(), " "), Tone::White));
            spans.push(styled(icon, tone));
            proof {
                let sep = if cur.len() > 1 {
                    seq![look(" \u{2192} "@, Tone::DarkGray)]
                } else {
                    Seq::empty()
                };
                let ic = tool_icon(cur.last().status);
                assert(line_look(spans@) =~~= before + (sep + seq![look(cur.last().tool_name + " "@, Tone::White), look(ic.0, ic.1)]));
                assert(tool_spans(cur) == tool_spans(cur.drop_last()) + sep + seq![look(cur.last().tool_name + " "@, Tone::White), look(ic.0, ic.1)]);
            }
            i = i + 1;
        }
        assert(s.tool_calls.take(i as int) =~= s.tool_calls);
        assert(line_look(spans@) =~~= after_spinner + tools_part(s));
    } else {
        assert(line_look(spans@) =~~= after_spinner + tools_part(s));
    }
    let ghost after_tools = line_look(spans@);
    let total = state.child_tasks.len();
    if total > 0 {
        let mut done: usize = 0;
        let mut i: usize = 0;
        while i < total
            invariant
                i <= total,
                total == s.child_tasks.len(),
                s == state@,
                done == done_count(s.child_tasks.take(i as int)),
                done <= i,
            decreases total - i,
        {
            let ghost cur = s.child_tasks.take(i as int + 1);
            assert(cur.drop_last() =~= s.child_tasks.take(i as int));
            assert(cur.last() == state.child_tasks@[i as int]@);
            if str_eq(state.child_tasks[i].status.as_str(), "success") {
                done = done + 1;
            }
            i = i + 1;
        }
        assert(s.child_tasks.take(i as int) =~= s.child_tasks);
        spans.push(styled(" ", Tone::Plain));
        let total_s = decimal_string(total);
        if done == total {
            let t = concat(total_s.as_str(), "/");
            let t = concat(t.as_str(), total_s.as_str());
            let t = concat(t.as_str(), " tasks \u{2713}");
            spans.push(styled_owned(t, Tone::Green));
        } else {
            let done_s = decimal_string(done);
            let t = concat(done_s.as_str(), "/");
            let t = concat(t.as_str(), total_s.as_str());
            let t = concat(t.as_str(), " tasks \u{27F3}");
            spans.push(styled_owned(t, Tone::Yellow));
        }
        assert(line_look(spans@) =~~= after_tools + tasks_part(s));
    } else {
        assert(line_look(spans@) =~~= after_tools + tasks_part(s));
    }
    let ghost after_tasks = line_look(spans@);
    if state.message_queue.len() > 0 {
        spans.push(styled(" ", Tone::Plain));
        let t = concat(decimal_string(state.message_queue.len()).as_str(), " queued");
        spans.push(styled_owned(t, Tone::DarkGray));
        assert(line_look(spans@) =~~= after_tasks + queued_part(s));
    } else {
        assert(line_look(spans@) =~~= after_tasks + queued_part(s));
    }
    assert(line_look(spans@) =~~= tool_bar_line(s));
    ToolBarView { ready: false, spans }
}

} // verus!
