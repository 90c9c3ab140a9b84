//! Sending typed messages to the backend.
use vstd::prelude::*;
use crate::actions::{Action, ActionView};
use crate::structs::{AppState, StateView};
use crate::text::{trim, trimmed, char_count};

verus! {

/// The backend stage. Where a client is configured, sending non-blank
/// text while no nodes run asks for the message to go to the selected
/// workflow's chat.
pub struct ApiMiddleware {
    pub has_client: bool,
}

/// A chat message to deliver to a workflow.
pub struct ChatRequest {
    pub slug: String,
    pub text: String,
}

pub struct ChatRequestView {
    pub slug: Seq<char>,
    pub text: Seq<char>,
}

impl View for ChatRequest {
    type V = ChatRequestView;

    open spec fn view(&self) -> ChatRequestView {
        ChatRequestView { slug: self.slug@, text: self.text@ }
    }
}

pub open spec fn opt_request_view(r: Option<ChatRequest>) -> Option<ChatRequestView> {
    match r {
        Some(r) => Some(r@),
        None => None,
    }
}

/// Blank input is dropped; other actions pass.
pub open spec fn spec_api_action(s: StateView, a: ActionView) -> Option<ActionView> {
    match a {
        ActionView::InputSend => if trimmed(s.input.text).len() == 0 {
            None
        } else {
            Some(a)
        },
        _ => Some(a),
    }
}

/// The message to deliver for `a`, if any.
pub open spec fn spec_api_request(s: StateView, a: ActionView, has_client: bool) -> Option<ChatRequestView> {
    let text = trimmed(s.input.text);
    match a {
        ActionView::InputSend => if text.len() > 0 && !s.json_store.nodes_running && has_client
            && s.selected_agent < s.workflows.len() {
            Some(ChatRequestView { slug: s.workflows[s.selected_agent as int].slug, text })
        } else {
            None
        },
        _ => None,
    }
}

impl ApiMiddleware {
    pub fn new(has_client: bool) -> (m: ApiMiddleware)
        ensures
            m.has_client == has_client,
    {
        ApiMiddleware { has_client }
    }

    pub fn process(&self, state: &AppState, action: Action) -> (r: (
        Option<Action>,
        Option<ChatRequest>,
    ))
        ensures
            crate::middlewares::keyboard::opt_action_view(r.0) == spec_api_action(
                state@,
                action@,
            ),
            opt_request_view(r.1) == spec_api_request(state@, action@, self.has_client),
    {
        if let Action::InputSend = action {
            let text = trim(state.input.text.as_str());
            if char_count(text.as_str()) == 0 {
                return (None, None);
            }
            let nodes_running = state.json_store.nodes_running;
            if !nodes_running && self.has_client && state.selected_agent < state.workflows.len() {
                let slug = state.workflows[state.selected_agent].slug.clone();
                return (Some(action), Some(ChatRequest { slug, text }));
            }
        }
        (Some(action), None)
    }
}

} // verus!
