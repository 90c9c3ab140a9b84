//! How each action changes the application state.
pub mod chat;
pub mod command_bar;
pub mod commands;
pub mod console;
pub mod mode;

use vstd::prelude::*;
use crate::actions::{Action, ActionView};
use crate::structs::{
    AppState, ChatMessage, NodeActivity, ToolCall, ChildTask, StateView, StoreView, ActivityView,
    ToolCallView, ChildTaskView, agent_lines_for,
};
use crate::types::{WorkflowView, clone_workflows, spec_model_name};
use crate::text::{copy_str, str_eq, trim, char_count, trimmed};
use crate::util::{first_match, lemma_first_match_found, lemma_first_match_none, seq_view};

verus! {

/// A workflow's model name, or the empty string.
pub open spec fn model_or_empty(w: WorkflowView) -> Seq<char> {
    match spec_model_name(w) {
        Some(m) => m,
        None => Seq::empty(),
    }
}

pub open spec fn with_store(s: StateView, st: StoreView) -> StateView {
    StateView { json_store: st, ..s }
}

pub open spec fn activity_index(acts: Seq<ActivityView>, name: Seq<char>) -> Option<int> {
    first_match(acts, |a: ActivityView| a.node_name == name)
}

pub open spec fn tool_call_index(calls: Seq<ToolCallView>, node_id: Seq<char>) -> Option<int> {
    first_match(calls, |t: ToolCallView| t.node_id == node_id)
}

pub open spec fn child_task_index(tasks: Seq<ChildTaskView>, id: Seq<char>) -> Option<int> {
    first_match(tasks, |t: ChildTaskView| t.execution_id == id)
}

/// The first activity entry of the node gets the new status; a node
/// without one gets a new entry at the end.
pub open spec fn upsert_activity(acts: Seq<ActivityView>, name: Seq<char>, status: Seq<char>) -> Seq<ActivityView> {
    match activity_index(acts, name) {
        Some(i) => acts.update(i, ActivityView { status, ..acts[i] }),
        None => acts.push(ActivityView { node_name: name, status }),
    }
}

pub open spec fn upsert_tool_call(
    calls: Seq<ToolCallView>,
    tool_name: Seq<char>,
    node_id: Seq<char>,
    status: Seq<char>,
) -> Seq<ToolCallView> {
    match tool_call_index(calls, node_id) {
        Some(i) => calls.update(i, ToolCallView { status, ..calls[i] }),
        None => calls.push(ToolCallView { tool_name, node_id, status }),
    }
}

pub open spec fn upsert_child_task(tasks: Seq<ChildTaskView>, id: Seq<char>, status: Seq<char>) -> Seq<ChildTaskView> {
    match child_task_index(tasks, id) {
        Some(i) => tasks.update(i, ChildTaskView { status, ..tasks[i] }),
        None => tasks.push(ChildTaskView { execution_id: id, status }),
    }
}

pub open spec fn scrolled_indicator() -> Seq<char> {
    "\u{2191} scrolled"@
}

/// What `reduce` needs of the state so that no arithmetic overflows and
/// no string is split inside a character.
pub open spec fn reduce_ok(s: StateView, a: ActionView) -> bool {
    match a {
        ActionView::InputChar(_) | ActionView::InputNewline => s.input.cursor < usize::MAX,
        ActionView::CommandBarEnqueueCmd(_) => command_bar::enqueue_ok(s),
        ActionView::TabNext => s.json_store.tabs_titles.len() > 0 && s.json_store.tabs_selection
            < usize::MAX,
        ActionView::TabPrev => s.json_store.tabs_selection == 0 ==> s.json_store.tabs_titles.len()
            > 0,
        ActionView::AgentDown => s.workflows.len() > 0 ==> s.selected_agent < usize::MAX,
        ActionView::ChatMessageReceived { .. } => !s.sticky_bottom ==> s.unread_count
            < usize::MAX,
        ActionView::SpinnerTick => s.json_store.spinner_frame < u64::MAX,
        _ => true,
    }
}

pub open spec fn spec_workflows_loaded(s: StateView, ws: Seq<WorkflowView>) -> StateView {
    let st = StoreView { agent_lines: agent_lines_for(ws, 0), ..s.json_store };
    let st = if ws.len() > 0 {
        StoreView { agent_name: ws[0].name, model_name: model_or_empty(ws[0]), ..st }
    } else {
        st
    };
    StateView { workflows: ws, selected_agent: 0, json_store: st, ..s }
}

pub open spec fn with_selection(s: StateView, selected: usize) -> StateView {
    StateView {
        selected_agent: selected,
        json_store: StoreView {
            agent_lines: agent_lines_for(s.workflows, selected),
            ..s.json_store
        },
        ..s
    }
}

pub open spec fn spec_agent_select(s: StateView) -> StateView {
    if s.selected_agent < s.workflows.len() {
        let w = s.workflows[s.selected_agent as int];
        with_store(
            s,
            StoreView {
                agent_name: w.name,
                model_name: model_or_empty(w),
                tabs_selection: 1,
                ..s.json_store
            },
        )
    } else {
        s
    }
}

/// Text typed while nodes run is queued; otherwise it is sent, and sending
/// non-blank text marks nodes as running.
pub open spec fn spec_reduce_input_send(s: StateView) -> StateView {
    let text = trimmed(s.input.text);
    if text.len() > 0 && s.json_store.nodes_running {
        StateView {
            message_queue: s.message_queue.push(text),
            input: crate::structs::InputView { text: Seq::empty(), cursor: 0 },
            ..s
        }
    } else {
        let s1 = if text.len() > 0 {
            with_store(s, StoreView { nodes_running: true, ..s.json_store })
        } else {
            s
        };
        chat::spec_input_send(s1)
    }
}

/// The state after `a`.
pub open spec fn spec_reduce(s: StateView, a: ActionView) -> StateView {
    let st = s.json_store;
    match a {
        ActionView::SetMode(m) => command_bar::spec_set_mode(mode::spec_set(s, m), m),
        ActionView::CommandBarPush(c) => command_bar::spec_push(s, c),
        ActionView::CommandBarPop(_) => command_bar::spec_pop(s),
        ActionView::CommandBarEnqueueCmd(u) => command_bar::spec_enqueue_cmd(s, u),
        ActionView::ConsolePush(l) => console::spec_console_push(s, l),
        ActionView::CommandCreate(u) => commands::spec_create(s, u, false),
        ActionView::CommandInvalid(u) => commands::spec_create(s, u, true),
        ActionView::CommandEnd { uuid, success, .. } => commands::spec_end(s, uuid, success),
        ActionView::TabNext => with_store(
            s,
            StoreView {
                tabs_selection: ((st.tabs_selection + 1) % (st.tabs_titles.len() as int)) as usize,
                ..st
            },
        ),
        ActionView::TabPrev => with_store(
            s,
            StoreView {
                tabs_selection: if st.tabs_selection == 0 {
                    (st.tabs_titles.len() - 1) as usize
                } else {
                    (st.tabs_selection - 1) as usize
                },
                ..st
            },
        ),
        ActionView::ScrollDown(n) => StateView {
            scroll_offset: if s.scroll_offset + n > usize::MAX {
                usize::MAX
            } else {
                (s.scroll_offset + n) as usize
            },
            sticky_bottom: false,
            json_store: StoreView { scroll_indicator: scrolled_indicator(), ..st },
            ..s
        },
        ActionView::ScrollUp(n) => {
            let off: usize = if s.scroll_offset < n {
                0
            } else {
                (s.scroll_offset - n) as usize
            };
            StateView {
                scroll_offset: off,
                sticky_bottom: false,
                json_store: StoreView {
                    scroll_indicator: if off == 0 {
                        "top"@
                    } else {
                        scrolled_indicator()
                    },
                    ..st
                },
                ..s
            }
        },
        ActionView::ScrollToTop => StateView {
            scroll_offset: 0,
            sticky_bottom: false,
            json_store: StoreView { scroll_indicator: "top"@, ..st },
            ..s
        },
        ActionView::ScrollToBottom => StateView {
            sticky_bottom: true,
            unread_count: 0,
            json_store: StoreView { scroll_indicator: Seq::empty(), ..st },
            ..s
        },
        ActionView::WorkflowsLoaded(ws) => spec_workflows_loaded(s, ws),
        ActionView::AgentDown => if s.workflows.len() > 0 {
            with_selection(
                s,
                if s.selected_agent + 1 < s.workflows.len() {
                    (s.selected_agent + 1) as usize
                } else {
                    (s.workflows.len() - 1) as usize
                },
            )
        } else {
            s
        },
        ActionView::AgentUp => with_selection(
            s,
            if s.selected_agent == 0 {
                0
            } else {
                (s.selected_agent - 1) as usize
            },
        ),
        ActionView::AgentSelect => spec_agent_select(s),
        ActionView::InputChar(c) => chat::spec_input_char(s, c),
        ActionView::InputBackspace => chat::spec_input_backspace(s),
        ActionView::InputNewline => chat::spec_input_char(s, '\n'),
        ActionView::InputSend => spec_reduce_input_send(s),
        ActionView::ChatMessageReceived { role, content } => {
            let s1 = chat::spec_chat_message_received(s, role, content);
            if !s.sticky_bottom {
                StateView { unread_count: (s.unread_count + 1) as usize, ..s1 }
            } else {
                s1
            }
        },
        ActionView::ChatHistoryLoaded(msgs) => StateView {
            messages: msgs,
            json_store: StoreView { nodes_running: false, ..st },
            sticky_bottom: true,
            activity: Seq::empty(),
            ..s
        },
        ActionView::WsStatusChanged(status) => with_store(s, StoreView { ws_status: status, ..st }),
        ActionView::WsNodeStatus { node_name, status, model_name } => StateView {
            json_store: StoreView {
                model_name: match model_name {
                    Some(m) => m,
                    None => st.model_name,
                },
                nodes_running: true,
                ..st
            },
            activity: upsert_activity(s.activity, node_name, status),
            ..s
        },
        ActionView::WsToolCall { tool_name, node_id, status } => StateView {
            tool_calls: upsert_tool_call(s.tool_calls, tool_name, node_id, status),
            ..s
        },
        ActionView::WsChildTask { execution_id, status } => StateView {
            child_tasks: upsert_child_task(s.child_tasks, execution_id, status),
            ..s
        },
        ActionView::WsExecutionStarted => StateView {
            json_store: StoreView { nodes_running: true, ..st },
            activity: Seq::empty(),
            tool_calls: Seq::empty(),
            child_tasks: Seq::empty(),
            ..s
        },
        ActionView::WsExecutionDone { .. } => StateView {
            json_store: StoreView { nodes_running: false, ..st },
            activity: Seq::empty(),
            tool_calls: Seq::empty(),
            child_tasks: Seq::empty(),
            ..s
        },
        ActionView::SpinnerTick => with_store(
            s,
            StoreView { spinner_frame: ((st.spinner_frame + 1) % 10) as u64, ..st },
        ),
        _ => s,
    }
}

fn find_activity(acts: &Vec<NodeActivity>, name: &str) -> (r: Option<usize>)
    ensures
        match r {
            Some(i) => activity_index(seq_view(acts@), name@) == Some(i as int) && i < acts@.len(),
            None => activity_index(seq_view(acts@), name@) is None,
        },
{
    let ghost s = seq_view(acts@);
    let ghost p = |a: ActivityView| a.node_name == name@;
    let n = acts.len();
    let mut i: usize = 0;
    while i < n
        invariant
            n == acts@.len(),
            i <= n,
            s == seq_view(acts@),
            p == (|a: ActivityView| a.node_name == name@),
            forall|j: int| 0 <= j < i ==> !p(#[trigger] s[j]),
        decreases n - i,
    {
        if str_eq(acts[i].node_name.as_str(), name) {
            proof {
                lemma_first_match_found(s, p, i as int);
            }
            return Some(i);
        }
        i = i + 1;
    }
    proof {
        lemma_first_match_none(s, p);
    }
    None
}

fn find_tool_call(calls: &Vec<ToolCall>, node_id: &str) -> (r: Option<usize>)
    ensures
        match r {
            Some(i) => tool_call_index(seq_view(calls@), node_id@) == Some(i as int) && i
                < calls@.len(),
            None => tool_call_index(seq_view(calls@), node_id@) is None,
        },
{
    let ghost s = seq_view(calls@);
    let ghost p = |t: ToolCallView| t.node_id == node_id@;
    let n = calls.len();
    let mut i: usize = 0;
    while i < n
        invariant
            n == calls@.len(),
            i <= n,
            s == seq_view(calls@),
            p == (|t: ToolCallView| t.node_id == node_id@),
            forall|j: int| 0 <= j < i ==> !p(#[trigger] s[j]),
        decreases n - i,
    {
        if str_eq(calls[i].node_id.as_str(), node_id) {
            proof {
                lemma_first_match_found(s, p, i as int);
            }
            return Some(i);
        }
        i = i + 1;
    }
    proof {
        lemma_first_match_none(s, p);
    }
    None
}

fn find_child_task(tasks: &Vec<ChildTask>, id: &str) -> (r: Option<usize>)
    ensures
        match r {
            Some(i) => child_task_index(seq_view(tasks@), id@) == Some(i as int) && i
                < tasks@.len(),
            None => child_task_index(seq_view(tasks@), id@) is None,
        },
{
    let ghost s = seq_view(tasks@);
    let ghost p = |t: ChildTaskView| t.execution_id == id@;
    let n = tasks.len();
    let mut i: usize = 0;
    while i < n
        invariant
            n == tasks@.len(),
            i <= n,
            s == seq_view(tasks@),
            p == (|t: ChildTaskView| t.execution_id == id@),
            forall|j: int| 0 <= j < i ==> !p(#[trigger] s[j]),
        decreases n - i,
    {
        if str_eq(tasks[i].execution_id.as_str(), id) {
            proof {
                lemma_first_match_found(s, p, i as int);
            }
            return Some(i);
        }
        i = i + 1;
    }
    proof {
        lemma_first_match_none(s, p);
    }
    None
}

fn set_activity(state: &mut AppState, name: &str, status: &str)
    ensures
        final(state)@ == (StateView {
            activity: upsert_activity(old(state)@.activity, name@, status@),
            ..old(state)@
        }),
{
    let ghost before = seq_view(state.activity@);
    match find_activity(&state.activity, name) {
        Some(i) => {
            let old_entry = state.activity.remove(i);
            let entry = NodeActivity { node_name: old_entry.node_name, status: copy_str(status) };
            let ghost ev = entry@;
            state.activity.insert(i, entry);
            assert(seq_view(state.activity@) =~= before.update(i as int, ev));
        },
        None => {
            let entry = NodeActivity { node_name: copy_str(name), status: copy_str(status) };
            let ghost ev = entry@;
            state.activity.push(entry);
            assert(seq_view(state.activity@) =~= before.push(ev));
        },
    }
    assert(state@ =~= (StateView {
        activity: upsert_activity(old(state)@.activity, name@, status@),
        ..old(state)@
    }));
}

fn set_tool_call(state: &mut AppState, tool_name: &str, node_id: &str, status: &str)
    ensures
        final(state)@ == (StateView {
            tool_calls: upsert_tool_call(old(state)@.tool_calls, tool_name@, node_id@, status@),
            ..old(state)@
        }),
{
    let ghost before = seq_view(state.tool_calls@);
    match find_tool_call(&state.tool_calls, node_id) {
        Some(i) => {
            let old_entry = state.tool_calls.remove(i);
            let entry = ToolCall {
                tool_name: old_entry.tool_name,
                node_id: old_entry.node_id,
                status: copy_str(status),
            };
            let ghost ev = entry@;
            state.tool_calls.insert(i, entry);
            assert(seq_view(state.tool_calls@) =~= before.update(i as int, ev));
        },
        None => {
            let entry = ToolCall {
                tool_name: copy_str(tool_name),
                node_id: copy_str(node_id),
                status: copy_str(status),
            };
            let ghost ev = entry@;
            state.tool_calls.push(entry);
            assert(seq_view(state.tool_calls@) =~= before.push(ev));
        },
    }
    assert(state@ =~= (StateView {
        tool_calls: upsert_tool_call(old(state)@.tool_calls, tool_name@, node_id@, status@),
        ..old(state)@
    }));
}

fn set_child_task(state: &mut AppState, id: &str, status: &str)
    ensures
        final(state)@ == (StateView {
            child_tasks: upsert_child_task(old(state)@.child_tasks, id@, status@),
            ..old(state)@
        }),
{
    let ghost before = seq_view(state.child_tasks@);
    match find_child_task(&state.child_tasks, id) {
        Some(i) => {
            let old_entry = state.child_tasks.remove(i);
            let entry = ChildTask { execution_id: old_entry.execution_id, status: copy_str(status) };
            let ghost ev = entry@;
            state.child_tasks.insert(i, entry);
            assert(seq_view(state.child_tasks@) =~= before.update(i as int, ev));
        },
        None => {
            let entry = ChildTask { execution_id: copy_str(id), status: copy_str(status) };
            let ghost ev = entry@;
            state.child_tasks.push(entry);
            assert(seq_view(state.child_tasks@) =~= before.push(ev));
        },
    }
    assert(state@ =~= (StateView {
        child_tasks: upsert_child_task(old(state)@.child_tasks, id@, status@),
        ..old(state)@
    }));
}

fn model_name_or_empty(state: &AppState, i: usize) -> (r: String)
    requires
        i < state.workflows@.len(),
    ensures
        r@ == model_or_empty(state@.workflows[i as int]),
{
    assert(state.workflows@[i as int]@ == state@.workflows[i as int]);
    match state.workflows[i].model_name() {
        Some(m) => m,
        None => String::new(),
    }
}

fn clone_messages(v: &Vec<ChatMessage>) -> (r: Vec<ChatMessage>)
    ensures
        seq_view(r@) == seq_view(v@),
{
    let mut r: Vec<ChatMessage> = Vec::new();
    let mut i: usize = 0;
    while i < v.len()
        invariant
            i <= v@.len(),
            seq_view(r@) =~= seq_view(v@).take(i as int),
        decreases v@.len() - i,
    {
        let x = v[i].clone();
        let ghost before = seq_view(r@);
        let ghost xv = x@;
        r.push(x);
        assert(seq_view(r@) =~= before.push(xv));
        i = i + 1;
    }
    assert(seq_view(v@).take(v@.len() as int) =~= seq_view(v@));
    r
}

/// Applies `action` to the state.
pub fn reduce(state: &mut AppState, action: &Action)
    requires
        reduce_ok(old(state)@, action@),
    ensures
        final(state)@ == spec_reduce(old(state)@, action@),
{
    match action {
        Action::SetMode(m) => {
            mode::set(state, m.as_str());
            command_bar::set_mode(state, m.as_str());
        },
        Action::CommandBarPush(c) => command_bar::push(state, *c),
        Action::CommandBarPop(n) => command_bar::pop(state, *n),
        Action::CommandBarEnqueueCmd(uuid) => command_bar::enqueue_cmd(state, uuid.as_str()),
        Action::ConsolePush(line) => console::push(state, line.as_str()),
        Action::CommandCreate(uuid) => commands::create(state, uuid.as_str(), false),
        Action::CommandInvalid(uuid) => commands::create(state, uuid.as_str(), true),
        Action::CommandEnd { uuid, success, reason: _ } => commands::end(
            state,
            uuid.as_str(),
            *success,
        ),
        Action::TabNext => {
            let len = state.json_store.tabs_titles.len();
            let current = state.json_store.tabs_selection;
            state.json_store.tabs_selection = (current + 1) % len;
            assert(state@ =~= spec_reduce(old(state)@, action@));
        },
        Action::TabPrev => {
            let len = state.json_store.tabs_titles.len();
            let current = state.json_store.tabs_selection;
            let prev = if current == 0 {
                len - 1
            } else {
                current - 1
            };
            state.json_store.tabs_selection = prev;
            assert(state@ =~= spec_reduce(old(state)@, action@));
        },
        Action::ScrollDown(n) => {
            state.scroll_offset = state.scroll_offset.saturating_add(*n);
            state.sticky_bottom = false;
            state.json_store.scroll_indicator = copy_str("\u{2191} scrolled");
            assert(state@ =~= spec_reduce(old(state)@, action@));
        },
        Action::ScrollUp(n) => {
            state.scroll_offset = state.scroll_offset.saturating_sub(*n);
            state.sticky_bottom = false;
            let indicator = if state.scroll_offset == 0 {
                copy_str("top")
            } else {
                copy_str("\u{2191} scrolled")
            };
            state.json_store.scroll_indicator = indicator;
            assert(state@ =~= spec_reduce(old(state)@, action@));
        },
        Action::ScrollToTop => {
            state.scroll_offset = 0;
            state.sticky_bottom = false;
            state.json_store.scroll_indicator = copy_str("top");
            assert(state@ =~= spec_reduce(old(state)@, action@));
        },
        Action::ScrollToBottom => {
            state.sticky_bottom = true;
            state.unread_count = 0;
            state.json_store.scroll_indicator = String::new();
            assert(state@ =~= spec_reduce(old(state)@, action@));
        },
        Action::WorkflowsLoaded(workflows) => {
            state.workflows = clone_workflows(workflows);
            state.selected_agent = 0;
            state.rebuild_agent_lines();
            if state.selected_agent < state.workflows.len() {
                state.json_store.agent_name = state.workflows[0].name.clone();
                let m = model_name_or_empty(state, 0);
                state.json_store.model_name = m;
            }
            assert(state@ =~= spec_reduce(old(state)@, action@));
        },
        Action::AgentDown => {
            if state.workflows.len() > 0 {
                let next = state.selected_agent + 1;
                let last = state.workflows.len() - 1;
                state.selected_agent = if next < last {
                    next
                } else {
                    last
                };
                state.rebuild_agent_lines();
                assert(state@ =~= spec_reduce(old(state)@, action@));
            }
        },
        Action::AgentUp => {
            state.selected_agent = state.selected_agent.saturating_sub(1);
            state.rebuild_agent_lines();
            assert(state@ =~= spec_reduce(old(state)@, action@));
        },
        Action::AgentSelect => {
            let i = state.selected_agent;
            if i < state.workflows.len() {
                state.json_store.agent_name = state.workflows[i].name.clone();
                let m = model_name_or_empty(state, i);
                state.json_store.model_name = m;
                state.json_store.tabs_selection = 1;
                assert(state@ =~= spec_reduce(old(state)@, action@));
            }
        },
        Action::InputChar(c) => chat::input_char(state, *c),
        Action::InputBackspace => chat::input_backspace(state),
        Action::InputNewline => chat::input_newline(state),
        Action::InputSend => {
            let text = trim(state.input.text.as_str());
            if char_count(text.as_str()) > 0 && state.json_store.nodes_running {
                let ghost before = seq_view(state.message_queue@);
                let ghost tv = text@;
                state.message_queue.push(text);
                assert(seq_view(state.message_queue@) =~= before.push(tv));
                state.input.text = String::new();
                state.input.cursor = 0;
                assert(state@ =~= spec_reduce(old(state)@, action@));
            } else {
                if char_count(text.as_str()) > 0 {
                    state.json_store.nodes_running = true;
                }
                let ghost mid = state@;
                assert(mid =~= (if trimmed(old(state)@.input.text).len() > 0 {
                    with_store(old(state)@, StoreView { nodes_running: true, ..old(state)@.json_store })
                } else {
                    old(state)@
                }));
                chat::input_send(state);
            }
        },
        Action::ChatMessageReceived { role, content } => {
            chat::chat_message_received(state, role.as_str(), content.as_str());
            if !state.sticky_bottom {
                state.unread_count = state.unread_count + 1;
            }
            assert(state@ =~= spec_reduce(old(state)@, action@));
        },
        Action::ChatHistoryLoaded(messages) => {
            chat::chat_history_loaded(state, clone_messages(messages));
            state.json_store.nodes_running = false;
            state.sticky_bottom = true;
            state.activity.clear();
            assert(seq_view(state.activity@) =~= Seq::<ActivityView>::empty());
            assert(state@ =~= spec_reduce(old(state)@, action@));
        },
        Action::WsStatusChanged(status) => {
            state.json_store.ws_status = status.clone();
            assert(state@ =~= spec_reduce(old(state)@, action@));
        },
        Action::WsNodeStatus { node_name, status, model_name } => {
            if let Some(model) = model_name {
                state.json_store.model_name = model.clone();
            }
            state.json_store.nodes_running = true;
            set_activity(state, node_name.as_str(), status.as_str());
            assert(state@ =~= spec_reduce(old(state)@, action@));
        },
        Action::WsToolCall { tool_name, node_id, status } => {
            set_tool_call(state, tool_name.as_str(), node_id.as_str(), status.as_str());
        },
        Action::WsChildTask { execution_id, status } => {
            set_child_task(state, execution_id.as_str(), status.as_str());
        },
        Action::WsExecutionStarted => {
            state.json_store.nodes_running = true;
            state.activity.clear();
            state.tool_calls.clear();
            state.child_tasks.clear();
            assert(seq_view(state.activity@) =~= Seq::<ActivityView>::empty());
            assert(seq_view(state.tool_calls@) =~= Seq::<ToolCallView>::empty());
            assert(seq_view(state.child_tasks@) =~= Seq::<ChildTaskView>::empty());
            assert(state@ =~= spec_reduce(old(state)@, action@));
        },
        Action::WsExecutionDone { .. } => {
            state.activity.clear();
            state.tool_calls.clear();
            state.child_tasks.clear();
            state.json_store.nodes_running = false;
            assert(seq_view(state.activity@) =~= Seq::<ActivityView>::empty());
            assert(seq_view(state.tool_calls@) =~= Seq::<ToolCallView>::empty());
            assert(seq_view(state.child_tasks@) =~= Seq::<ChildTaskView>::empty());
            assert(state@ =~= spec_reduce(old(state)@, action@));
        },
        Action::SpinnerTick => {
            let frame = state.json_store.spinner_frame;
            state.json_store.spinner_frame = (frame + 1) % 10;
            assert(state@ =~= spec_reduce(old(state)@, action@));
        },
        _ => {},
    }
}

} // verus!

verus! {

/// No two activity entries are for the same node.
pub open spec fn activity_distinct(a: Seq<ActivityView>) -> bool {
    forall|i: int, j: int| 0 <= i < j < a.len() ==> a[i].node_name != a[j].node_name
}

/// No two tool calls are for the same node.
pub open spec fn tool_calls_distinct(t: Seq<ToolCallView>) -> bool {
    forall|i: int, j: int| 0 <= i < j < t.len() ==> t[i].node_id != t[j].node_id
}

/// No two sub-tasks have the same execution.
pub open spec fn child_tasks_distinct(t: Seq<ChildTaskView>) -> bool {
    forall|i: int, j: int| 0 <= i < j < t.len() ==> t[i].execution_id != t[j].execution_id
}

/// What every state the application reaches keeps: the agent list shows
/// the workflows with the selected one marked, the selection is a workflow
/// where there are any, the selected tab and the spinner frame are in
/// range, the cursor is within the typed text, and the activity, tool and
/// sub-task lists hold one entry per node, node and execution.
pub open spec fn state_inv(s: StateView) -> bool {
    &&& s.json_store.agent_lines == agent_lines_for(s.workflows, s.selected_agent)
    &&& (s.selected_agent == 0 || s.selected_agent < s.workflows.len())
    &&& s.json_store.tabs_titles.len() >= 2
    &&& s.json_store.tabs_selection < s.json_store.tabs_titles.len()
    &&& s.json_store.spinner_frame < 10
    &&& s.input.cursor <= s.input.text.len()
    &&& activity_distinct(s.activity)
    &&& tool_calls_distinct(s.tool_calls)
    &&& child_tasks_distinct(s.child_tasks)
}

/// A fresh state keeps the invariant.
pub proof fn lemma_initial_state_inv()
    ensures
        state_inv(crate::structs::initial_state()),
{
    let s = crate::structs::initial_state();
    assert(agent_lines_for(s.workflows, 0) =~= Seq::<Seq<char>>::empty());
}

proof fn lemma_upsert_activity(acts: Seq<ActivityView>, name: Seq<char>, status: Seq<char>)
    requires
        activity_distinct(acts),
    ensures
        activity_distinct(upsert_activity(acts, name, status)),
{
    crate::util::lemma_first_match(acts, |a: ActivityView| a.node_name == name);
    let r = upsert_activity(acts, name, status);
    assert forall|i: int, j: int| 0 <= i < j < r.len() implies r[i].node_name != r[j].node_name by {
        if j == acts.len() {
            assert(acts[i].node_name != name);
        } else {
            assert(r[i].node_name == acts[i].node_name);
            assert(r[j].node_name == acts[j].node_name);
        }
    }
}

proof fn lemma_upsert_tool_call(calls: Seq<ToolCallView>, tool_name: Seq<char>, node_id: Seq<char>, status: Seq<char>)
    requires
        tool_calls_distinct(calls),
    ensures
        tool_calls_distinct(upsert_tool_call(calls, tool_name, node_id, status)),
{
    crate::util::lemma_first_match(calls, |t: ToolCallView| t.node_id == node_id);
    let r = upsert_tool_call(calls, tool_name, node_id, status);
    assert forall|i: int, j: int| 0 <= i < j < r.len() implies r[i].node_id != r[j].node_id by {
        if j == calls.len() {
            assert(calls[i].node_id != node_id);
        } else {
            assert(r[i].node_id == calls[i].node_id);
            assert(r[j].node_id == calls[j].node_id);
        }
    }
}

proof fn lemma_upsert_child_task(tasks: Seq<ChildTaskView>, id: Seq<char>, status: Seq<char>)
    requires
        child_tasks_distinct(tasks),
    ensures
        child_tasks_distinct(upsert_child_task(tasks, id, status)),
{
    crate::util::lemma_first_match(tasks, |t: ChildTaskView| t.execution_id == id);
    let r = upsert_child_task(tasks, id, status);
    assert forall|i: int, j: int| 0 <= i < j < r.len() implies r[i].execution_id != r[j].execution_id by {
        if j == tasks.len() {
            assert(tasks[i].execution_id != id);
        } else {
            assert(r[i].execution_id == tasks[i].execution_id);
            assert(r[j].execution_id == tasks[j].execution_id);
        }
    }
}

/// Every action keeps the invariant.
pub proof fn lemma_reduce_keeps_inv(s: StateView, a: ActionView)
    requires
        state_inv(s),
        reduce_ok(s, a),
    ensures
        state_inv(spec_reduce(s, a)),
{
    match a {
        ActionView::WsNodeStatus { node_name, status, .. } => {
            lemma_upsert_activity(s.activity, node_name, status);
        },
        ActionView::WsToolCall { tool_name, node_id, status } => {
            lemma_upsert_tool_call(s.tool_calls, tool_name, node_id, status);
        },
        ActionView::WsChildTask { execution_id, status } => {
            lemma_upsert_child_task(s.child_tasks, execution_id, status);
        },
        ActionView::InputBackspace => {
            if s.input.cursor > 0 {
                assert((s.input.cursor - 1) < s.input.text.len());
            }
        },
        _ => {},
    }
}

} // verus!
