//! Application state.
pub mod command_handler;

use vstd::prelude::*;
use crate::str_map::StrMap;
use crate::text::{concat, copy_str};
use crate::types::{WorkflowDetail, WorkflowView};
use crate::util::seq_view;

verus! {

pub struct Command {
    pub name: String,
    pub id: String,
    pub failed: bool,
}

impl Command {
    pub fn new(name: String, id: String, failed: bool) -> (c: Command)
        ensures
            c.name == name,
            c.id == id,
            c.failed == failed,
    {
        Command { name, id, failed }
    }
}

pub struct ChatMessage {
    pub role: String,
    pub content: String,
}

pub struct InputState {
    pub text: String,
    pub cursor: usize,
}

pub struct NodeActivity {
    pub node_name: String,
    pub status: String,
}

pub struct ToolCall {
    pub tool_name: String,
    pub node_id: String,
    pub status: String,
}

pub struct ChildTask {
    pub execution_id: String,
    pub status: String,
}

/// The screens that can be stacked.
#[derive(Clone, Copy, PartialEq, Eq, Debug)]
pub enum ViewId {
    Chat,
    AgentList,
}

/// The values that the templates read, by key.
pub struct Store {
    pub mode: String,
    pub tabs_titles: Vec<String>,
    pub tabs_selection: usize,
    pub command: String,
    pub agent_name: String,
    pub model_name: String,
    pub ws_status: String,
    pub host_display: String,
    pub scroll_indicator: String,
    pub spinner_frame: u64,
    pub nodes_running: bool,
    pub console_output_lines: Vec<String>,
    pub agent_lines: Vec<String>,
}

pub struct AppState {
    pub json_store: Store,
    pub cmd_str_queue: StrMap,
    pub cmd_running: Vec<Command>,
    pub cmd_ended: Vec<Command>,
    pub messages: Vec<ChatMessage>,
    pub input: InputState,
    pub workflows: Vec<WorkflowDetail>,
    pub selected_agent: usize,
    pub activity: Vec<NodeActivity>,
    pub tool_calls: Vec<ToolCall>,
    pub child_tasks: Vec<ChildTask>,
    pub message_queue: Vec<String>,
    pub scroll_offset: usize,
    pub sticky_bottom: bool,
    pub unread_count: usize,
    pub view_stack: Vec<ViewId>,
}

// ---------------------------------------------------------------- views
pub struct CommandView {
    pub name: Seq<char>,
    pub id: Seq<char>,
    pub failed: bool,
}

pub struct MessageView {
    pub role: Seq<char>,
    pub content: Seq<char>,
}

pub struct InputView {
    pub text: Seq<char>,
    pub cursor: usize,
}

pub struct ActivityView {
    pub node_name: Seq<char>,
    pub status: Seq<char>,
}

pub struct ToolCallView {
    pub tool_name: Seq<char>,
    pub node_id: Seq<char>,
    pub status: Seq<char>,
}

pub struct ChildTaskView {
    pub execution_id: Seq<char>,
    pub status: Seq<char>,
}

#[verifier::ext_equal]
pub struct StoreView {
    pub mode: Seq<char>,
    pub tabs_titles: Seq<Seq<char>>,
    pub tabs_selection: usize,
    pub command: Seq<char>,
    pub agent_name: Seq<char>,
    pub model_name: Seq<char>,
    pub ws_status: Seq<char>,
    pub host_display: Seq<char>,
    pub scroll_indicator: Seq<char>,
    pub spinner_frame: u64,
    pub nodes_running: bool,
    pub console_output_lines: Seq<Seq<char>>,
    pub agent_lines: Seq<Seq<char>>,
}

#[verifier::ext_equal]
pub struct StateView {
    pub json_store: StoreView,
    pub cmd_str_queue: Map<Seq<char>, Seq<char>>,
    pub cmd_running: Seq<CommandView>,
    pub cmd_ended: Seq<CommandView>,
    pub messages: Seq<MessageView>,
    pub input: InputView,
    pub workflows: Seq<WorkflowView>,
    pub selected_agent: usize,
    pub activity: Seq<ActivityView>,
    pub tool_calls: Seq<ToolCallView>,
    pub child_tasks: Seq<ChildTaskView>,
    pub message_queue: Seq<Seq<char>>,
    pub scroll_offset: usize,
    pub sticky_bottom: bool,
    pub unread_count: usize,
    pub view_stack: Seq<ViewId>,
}

impl View for Command {
    type V = CommandView;

    open spec fn view(&self) -> CommandView {
        CommandView { name: self.name@, id: self.id@, failed: self.failed }
    }
}

impl View for ChatMessage {
    type V = MessageView;

    open spec fn view(&self) -> MessageView {
        MessageView { role: self.role@, content: self.content@ }
    }
}

impl View for InputState {
    type V = InputView;

    open spec fn view(&self) -> InputView {
        InputView { text: self.text@, cursor: self.cursor }
    }
}

impl View for NodeActivity {
    type V = ActivityView;

    open spec fn view(&self) -> ActivityView {
        ActivityView { node_name: self.node_name@, status: self.status@ }
    }
}

impl View for ToolCall {
    type V = ToolCallView;

    open spec fn view(&self) -> ToolCallView {
        ToolCallView { tool_name: self.tool_name@, node_id: self.node_id@, status: self.status@ }
    }
}

impl View for ChildTask {
    type V = ChildTaskView;

    open spec fn view(&self) -> ChildTaskView {
        ChildTaskView { execution_id: self.execution_id@, status: self.status@ }
    }
}

impl View for Store {
    type V = StoreView;

    open spec fn view(&self) -> StoreView {
        StoreView {
            mode: self.mode@,
            tabs_titles: seq_view(self.tabs_titles@),
            tabs_selection: self.tabs_selection,
            command: self.command@,
            agent_name: self.agent_name@,
            model_name: self.model_name@,
            ws_status: self.ws_status@,
            host_display: self.host_display@,
            scroll_indicator: self.scroll_indicator@,
            spinner_frame: self.spinner_frame,
            nodes_running: self.nodes_running,
            console_output_lines: seq_view(self.console_output_lines@),
            agent_lines: seq_view(self.agent_lines@),
        }
    }
}

impl View for AppState {
    type V = StateView;

    open spec fn view(&self) -> StateView {
        StateView {
            json_store: self.json_store@,
            cmd_str_queue: self.cmd_str_queue@,
            cmd_running: seq_view(self.cmd_running@),
            cmd_ended: seq_view(self.cmd_ended@),
            messages: seq_view(self.messages@),
            input: self.input@,
            workflows: seq_view(self.workflows@),
            selected_agent: self.selected_agent,
            activity: seq_view(self.activity@),
            tool_calls: seq_view(self.tool_calls@),
            child_tasks: seq_view(self.child_tasks@),
            message_queue: seq_view(self.message_queue@),
            scroll_offset: self.scroll_offset,
            sticky_bottom: self.sticky_bottom,
            unread_count: self.unread_count,
            view_stack: self.view_stack@,
        }
    }
}

impl Default for AppState {
    fn default() -> (s: AppState)
        ensures
            s@ == initial_state(),
    {
        AppState::new()
    }
}

impl Clone for ChatMessage {
    fn clone(&self) -> (r: Self)
        ensures
            r == *self,
    {
        ChatMessage { role: self.role.clone(), content: self.content.clone() }
    }
}

/// The store as a fresh state holds it.
pub open spec fn initial_store() -> StoreView {
    StoreView {
        mode: "normal"@,
        tabs_titles: seq!["Workflows"@, "Chat"@],
        tabs_selection: 0,
        command: Seq::empty(),
        agent_name: Seq::empty(),
        model_name: Seq::empty(),
        ws_status: "disconnected"@,
        host_display: Seq::empty(),
        scroll_indicator: Seq::empty(),
        spinner_frame: 0,
        nodes_running: false,
        console_output_lines: Seq::empty(),
        agent_lines: Seq::empty(),
    }
}

/// A fresh state.
pub open spec fn initial_state() -> StateView {
    StateView {
        json_store: initial_store(),
        cmd_str_queue: Map::empty(),
        cmd_running: Seq::empty(),
        cmd_ended: Seq::empty(),
        messages: Seq::empty(),
        input: InputView { text: Seq::empty(), cursor: 0 },
        workflows: Seq::empty(),
        selected_agent: 0,
        activity: Seq::empty(),
        tool_calls: Seq::empty(),
        child_tasks: Seq::empty(),
        message_queue: Seq::empty(),
        scroll_offset: 0,
        sticky_bottom: true,
        unread_count: 0,
        view_stack: seq![ViewId::Chat],
    }
}

/// The list line shown for workflow `w`, marked where it is the selected one.
pub open spec fn agent_line(name: Seq<char>, selected: bool) -> Seq<char> {
    if selected {
        "  \u{25C9} "@ + name
    } else {
        "    "@ + name
    }
}

/// The agent list, one line per workflow.
pub open spec fn agent_lines_for(ws: Seq<WorkflowView>, selected: usize) -> Seq<Seq<char>> {
    Seq::new(ws.len(), |i: int| agent_line(ws[i].name, i == selected))
}

impl AppState {
    pub fn new() -> (s: AppState)
        ensures
            s@ == initial_state(),
    {
        let mut titles: Vec<String> = Vec::new();
        titles.push(copy_str("Workflows"));
        titles.push(copy_str("Chat"));
        let store = Store {
            mode: copy_str("normal"),
            tabs_titles: titles,
            tabs_selection: 0,
            command: String::new(),
            agent_name: String::new(),
            model_name: String::new(),
            ws_status: copy_str("disconnected"),
            host_display: String::new(),
            scroll_indicator: String::new(),
            spinner_frame: 0,
            nodes_running: false,
            console_output_lines: Vec::new(),
            agent_lines: Vec::new(),
        };
        let mut view_stack: Vec<ViewId> = Vec::new();
        view_stack.push(ViewId::Chat);
        let s = AppState {
            json_store: store,
            cmd_str_queue: StrMap::new(),
            cmd_running: Vec::new(),
            cmd_ended: Vec::new(),
            messages: Vec::new(),
            input: InputState { text: String::new(), cursor: 0 },
            workflows: Vec::new(),
            selected_agent: 0,
            activity: Vec::new(),
            tool_calls: Vec::new(),
            child_tasks: Vec::new(),
            message_queue: Vec::new(),
            scroll_offset: 0,
            sticky_bottom: true,
            unread_count: 0,
            view_stack,
        };
        assert(s@.json_store.tabs_titles =~= seq!["Workflows"@, "Chat"@]);
        assert(s@.json_store.console_output_lines =~= Seq::<Seq<char>>::empty());
        assert(s@.view_stack =~= seq![ViewId::Chat]);
        assert(s@.json_store.agent_lines =~= Seq::<Seq<char>>::empty());
        assert(s@.messages =~= Seq::<MessageView>::empty());
        assert(s@.cmd_running =~= Seq::<CommandView>::empty());
        assert(s@.cmd_ended =~= Seq::<CommandView>::empty());
        assert(s@.workflows =~= Seq::<WorkflowView>::empty());
        assert(s@.activity =~= Seq::<ActivityView>::empty());
        assert(s@.tool_calls =~= Seq::<ToolCallView>::empty());
        assert(s@.child_tasks =~= Seq::<ChildTaskView>::empty());
        assert(s@.message_queue =~= Seq::<Seq<char>>::empty());
        assert(s@ =~= initial_state());
        s
    }

    /// Rewrites `agent_lines` from the workflows and the selection.
    pub fn rebuild_agent_lines(&mut self)
        ensures
            final(self)@ == (StateView {
                json_store: StoreView {
                    agent_lines: agent_lines_for(old(self)@.workflows, old(self)@.selected_agent),
                    ..old(self)@.json_store
                },
                ..old(self)@
            }),
    {
        let mut lines: Vec<String> = Vec::new();
        let n = self.workflows.len();
        let mut i: usize = 0;
        while i < n
            invariant
                n == self.workflows@.len(),
                i <= n,
                seq_view(lines@) =~= agent_lines_for(self@.workflows, self.selected_agent).take(
                    i as int,
                ),
            decreases n - i,
        {
            let name = self.workflows[i].name.as_str();
            let line = if i == self.selected_agent {
                concat("  \u{25C9} ", name)
            } else {
                concat("    ", name)
            };
            assert(self.workflows@[i as int]@.name == self@.workflows[i as int].name);
            assert(line@ == agent_lines_for(self@.workflows, self.selected_agent)[i as int]);
            let ghost prev = seq_view(lines@);
            let ghost lv = line@;
            lines.push(line);
            assert(seq_view(lines@) =~= prev.push(lv));
            i = i + 1;
            assert(seq_view(lines@) =~= agent_lines_for(self@.workflows, self.selected_agent).take(
                i as int,
            ));
        }
        self.json_store.agent_lines = lines;
        assert(seq_view(self.json_store.agent_lines@) =~= agent_lines_for(
            self@.workflows,
            self.selected_agent,
        ));
    }
}

} // verus!
