//! Everything that can happen to the application, as values.
use vstd::prelude::*;
use crate::structs::{ChatMessage, MessageView};
use crate::types::{WorkflowDetail, WorkflowView, opt_str_view};
use crate::util::seq_view;

verus! {

/// A key as the terminal reports it.
#[derive(Clone, Copy, PartialEq, Eq, Debug)]
pub enum KeyCode {
    Char(char),
    Enter,
    Esc,
    Backspace,
    PageUp,
    PageDown,
    Tab,
    BackTab,
    Other,
}

/// A key press: the key and whether Control was held.
#[derive(Clone, Copy, PartialEq, Eq, Debug)]
pub struct KeyPress {
    pub code: KeyCode,
    pub control: bool,
}

pub enum Action {
    Keyboard(KeyPress),
    SetMode(String),
    CommandBarPush(char),
    CommandBarPop(u16),
    CommandBarEnqueueCmd(String),
    CommandConsume(String),
    CommandCreate(String),
    CommandInvalid(String),
    CommandEnd { uuid: String, success: bool, reason: String },
    ConsolePush(String),
    Quit,
    TabNext,
    TabPrev,
    ScrollUp(usize),
    ScrollDown(usize),
    ScrollToTop,
    ScrollToBottom,
    InputChar(char),
    InputBackspace,
    InputNewline,
    InputSend,
    WorkflowsLoaded(Vec<WorkflowDetail>),
    AgentDown,
    AgentUp,
    AgentSelect,
    ChatMessageReceived { role: String, content: String },
    ChatHistoryLoaded(Vec<ChatMessage>),
    WsStatusChanged(String),
    WsNodeStatus { node_name: String, status: String, model_name: Option<String> },
    WsToolCall { tool_name: String, node_id: String, status: String },
    WsChildTask { execution_id: String, status: String },
    WsExecutionStarted,
    WsExecutionDone { success: bool },
    WsSubscribe(String),
    SpinnerTick,
}

pub enum ActionView {
    Keyboard(KeyPress),
    SetMode(Seq<char>),
    CommandBarPush(char),
    CommandBarPop(u16),
    CommandBarEnqueueCmd(Seq<char>),
    CommandConsume(Seq<char>),
    CommandCreate(Seq<char>),
    CommandInvalid(Seq<char>),
    CommandEnd { uuid: Seq<char>, success: bool, reason: Seq<char> },
    ConsolePush(Seq<char>),
    Quit,
    TabNext,
    TabPrev,
    ScrollUp(usize),
    ScrollDown(usize),
    ScrollToTop,
    ScrollToBottom,
    InputChar(char),
    InputBackspace,
    InputNewline,
    InputSend,
    WorkflowsLoaded(Seq<WorkflowView>),
    AgentDown,
    AgentUp,
    AgentSelect,
    ChatMessageReceived { role: Seq<char>, content: Seq<char> },
    ChatHistoryLoaded(Seq<MessageView>),
    WsStatusChanged(Seq<char>),
    WsNodeStatus { node_name: Seq<char>, status: Seq<char>, model_name: Option<Seq<char>> },
    WsToolCall { tool_name: Seq<char>, node_id: Seq<char>, status: Seq<char> },
    WsChildTask { execution_id: Seq<char>, status: Seq<char> },
    WsExecutionStarted,
    WsExecutionDone { success: bool },
    WsSubscribe(Seq<char>),
    SpinnerTick,
}

impl View for Action {
    type V = ActionView;

    open spec fn view(&self) -> ActionView {
        match self {
            Action::Keyboard(k) => ActionView::Keyboard(*k),
            Action::SetMode(m) => ActionView::SetMode(m@),
            Action::CommandBarPush(c) => ActionView::CommandBarPush(*c),
            Action::CommandBarPop(n) => ActionView::CommandBarPop(*n),
            Action::CommandBarEnqueueCmd(u) => ActionView::CommandBarEnqueueCmd(u@),
            Action::CommandConsume(u) => ActionView::CommandConsume(u@),
            Action::CommandCreate(u) => ActionView::CommandCreate(u@),
            Action::CommandInvalid(u) => ActionView::CommandInvalid(u@),
            Action::CommandEnd { uuid, success, reason } => ActionView::CommandEnd {
                uuid: uuid@,
                success: *success,
                reason: reason@,
            },
            Action::ConsolePush(l) => ActionView::ConsolePush(l@),
            Action::Quit => ActionView::Quit,
            Action::TabNext => ActionView::TabNext,
            Action::TabPrev => ActionView::TabPrev,
            Action::ScrollUp(n) => ActionView::ScrollUp(*n),
            Action::ScrollDown(n) => ActionView::ScrollDown(*n),
            Action::ScrollToTop => ActionView::ScrollToTop,
            Action::ScrollToBottom => ActionView::ScrollToBottom,
            Action::InputChar(c) => ActionView::InputChar(*c),
            Action::InputBackspace => ActionView::InputBackspace,
            Action::InputNewline => ActionView::InputNewline,
            Action::InputSend => ActionView::InputSend,
            Action::WorkflowsLoaded(w) => ActionView::WorkflowsLoaded(seq_view(w@)),
            Action::AgentDown => ActionView::AgentDown,
            Action::AgentUp => ActionView::AgentUp,
            Action::AgentSelect => ActionView::AgentSelect,
            Action::ChatMessageReceived { role, content } => ActionView::ChatMessageReceived {
                role: role@,
                content: content@,
            },
            Action::ChatHistoryLoaded(m) => ActionView::ChatHistoryLoaded(seq_view(m@)),
            Action::WsStatusChanged(s) => ActionView::WsStatusChanged(s@),
            Action::WsNodeStatus { node_name, status, model_name } => ActionView::WsNodeStatus {
                node_name: node_name@,
                status: status@,
                model_name: opt_str_view(*model_name),
            },
            Action::WsToolCall { tool_name, node_id, status } => ActionView::WsToolCall {
                tool_name: tool_name@,
                node_id: node_id@,
                status: status@,
            },
            Action::WsChildTask { execution_id, status } => ActionView::WsChildTask {
                execution_id: execution_id@,
                status: status@,
            },
            Action::WsExecutionStarted => ActionView::WsExecutionStarted,
            Action::WsExecutionDone { success } => ActionView::WsExecutionDone { success: *success },
            Action::WsSubscribe(s) => ActionView::WsSubscribe(s@),
            Action::SpinnerTick => ActionView::SpinnerTick,
        }
    }
}

} // verus!
