//! The decisions of the application's event loop: which server to talk
//! to, when a key ends the session, and what follows a reduced action.
use vstd::prelude::*;
use crate::actions::{Action, ActionView, KeyCode, KeyPress};
use crate::auth::AuthConfig;
use crate::structs::{AppState, StateView, StoreView, ChatMessage, MessageView};
use crate::types::{ChatMessageResponse, WorkflowDetail, WorkflowView, spec_has_trigger_chat, opt_str_view};
use crate::text::{chars_of, string_from_range, copy_str, str_eq};
use crate::middlewares::websocket::workflow_channel;
use crate::middlewares::keyboard::opt_action_view;
use crate::util::seq_view;

verus! {

/// The server: the one asked for, else the stored one, else a local one.
pub open spec fn spec_base_url(url: Option<Seq<char>>, stored: Option<Seq<char>>) -> Seq<char> {
    match url {
        Some(u) => u,
        None => match stored {
            Some(s) => s,
            None => "http://localhost:8000"@,
        },
    }
}

/// The server to talk to.
pub fn base_url(url: Option<String>, auth: &Option<AuthConfig>) -> (r: String)
    ensures
        r@ == spec_base_url(
            opt_str_view(url),
            match auth {
                Some(a) => Some(a.pipelit_url@),
                None => None,
            },
        ),
{
    match url {
        Some(u) => u,
        None => match auth {
            Some(a) => a.pipelit_url.clone(),
            None => copy_str("http://localhost:8000"),
        },
    }
}

/// The stored token, or none.
pub fn auth_token(auth: &Option<AuthConfig>) -> (r: String)
    ensures
        r@ == match auth {
            Some(a) => a.token@,
            None => Seq::<char>::empty(),
        },
{
    match auth {
        Some(a) => a.token.clone(),
        None => String::new(),
    }
}

/// Whether the client talks to the server at all: the API client, the
/// token check, the socket and the loading of workflows exist only for a
/// token that is not empty.
pub fn wants_client(token: &str) -> (b: bool)
    ensures
        b == (token@.len() > 0),
{
    !crate::text::is_empty_str(token)
}

/// `s` without any number of leading `p`s (`str::trim_start_matches`).
pub open spec fn strip_prefix_all(s: Seq<char>, p: Seq<char>) -> Seq<char>
    decreases s.len(),
{
    if p.len() > 0 && p.len() <= s.len() && s.take(p.len() as int) == p {
        strip_prefix_all(s.skip(p.len() as int), p)
    } else {
        s
    }
}

/// Whether `v[i..]` starts with `p`.
fn starts_with_at(v: &Vec<char>, i: usize, p: &Vec<char>) -> (b: bool)
    requires
        i <= v@.len(),
    ensures
        b == (p@.len() <= v@.len() - i && v@.subrange(i as int, i + p@.len()) == p@),
{
    if p.len() > v.len() - i {
        return false;
    }
    let vn = v.len();
    let mut k: usize = 0;
    while k < p.len()
        invariant
            vn == v@.len(),
            k <= p@.len(),
            i <= v@.len(),
            i + p@.len() <= v@.len(),
            forall|j: int| 0 <= j < k ==> v@[i + j] == p@[j],
        decreases p@.len() - k,
    {
        if v[i + k] != p[k] {
            assert(v@.subrange(i as int, i + p@.len())[k as int] != p@[k as int]);
            return false;
        }
        k = k + 1;
    }
    assert(v@.subrange(i as int, i + p@.len()) =~= p@);
    true
}

/// `s` without any number of leading `prefix`es.
fn trim_start_all(s: &str, prefix: &str) -> (r: String)
    ensures
        r@ == strip_prefix_all(s@, prefix@),
{
    let v = chars_of(s);
    let p = chars_of(prefix);
    if p.len() == 0 {
        return copy_str(s);
    }
    let vn = v.len();
    let mut i: usize = 0;
    assert(v@.skip(0) =~= v@);
    loop
        invariant
            vn == v@.len(),
            i <= v@.len(),
            v@ == s@,
            p@ == prefix@,
            p@.len() > 0,
            strip_prefix_all(s@, prefix@) == strip_prefix_all(v@.skip(i as int), prefix@),
        ensures
            i <= v@.len(),
            strip_prefix_all(s@, prefix@) == strip_prefix_all(v@.skip(i as int), prefix@),
            !(p@.len() <= v@.len() - i && v@.subrange(i as int, i + p@.len()) == p@),
        decreases v@.len() - i,
    {
        if !starts_with_at(&v, i, &p) {
            break;
        }
        let ghost rest = v@.skip(i as int);
        assert(rest.take(p@.len() as int) =~= v@.subrange(i as int, i + p@.len()));
        assert(rest.skip(p@.len() as int) =~= v@.skip(i + p@.len()));
        i = i + p.len();
    }
    let ghost rest = v@.skip(i as int);
    proof {
        if p@.len() <= rest.len() {
            assert(rest.take(p@.len() as int) =~= v@.subrange(i as int, i + p@.len()));
        }
    }
    assert(v@.subrange(i as int, v@.len() as int) =~= rest);
    string_from_range(&v, i, v.len())
}

/// The server as the status bar names it: without its scheme.
pub open spec fn spec_host_display(base_url: Seq<char>) -> Seq<char> {
    strip_prefix_all(strip_prefix_all(base_url, "https://"@), "http://"@)
}

/// The server as the status bar names it.
pub fn host_display(base_url: &str) -> (r: String)
    ensures
        r@ == spec_host_display(base_url@),
{
    let a = trim_start_all(base_url, "https://");
    trim_start_all(a.as_str(), "http://")
}

/// Whether a key press ends the session at once: Control-C.
pub fn is_interrupt(key: &KeyPress) -> (b: bool)
    ensures
        b == (key.code == KeyCode::Char('c') && key.control),
{
    match key.code {
        KeyCode::Char(c) => c == 'c' && key.control,
        _ => false,
    }
}

/// What a tick of the clock dispatches: the spinner turns while nodes run.
pub fn tick_action(state: &AppState) -> (r: Option<Action>)
    ensures
        opt_action_view(r) == (if state@.json_store.nodes_running {
            Some(ActionView::SpinnerTick)
        } else {
            None
        }),
{
    if state.json_store.nodes_running {
        Some(Action::SpinnerTick)
    } else {
        None
    }
}

/// Chat messages as the history gives them, as the conversation holds them.
pub open spec fn history_messages(h: Seq<ChatMessageResponse>) -> Seq<MessageView> {
    h.map_values(|m: ChatMessageResponse| MessageView { role: m.role@, content: m.text@ })
}

/// The conversation that a chat history holds.
pub fn history_to_messages(history: Vec<ChatMessageResponse>) -> (r: Vec<ChatMessage>)
    ensures
        seq_view(r@) == history_messages(history@),
{
    let ghost h = history@;
    let mut history = history;
    let mut out: Vec<ChatMessage> = Vec::new();
    let ghost mut k: int = 0;
    assert(h.skip(0) =~= h);
    while history.len() > 0
        invariant
            0 <= k <= h.len(),
            history@ == h.skip(k),
            seq_view(out@) == history_messages(h.take(k)),
        decreases history@.len(),
    {
        let ghost before = seq_view(out@);
        let m = history.remove(0);
        assert(m == h[k]);
        out.push(ChatMessage { role: m.role, content: m.text });
        proof {
            let mv = MessageView { role: h[k].role@, content: h[k].text@ };
            assert(h.take(k + 1) =~= h.take(k).push(h[k]));
            assert(seq_view(out@) =~~= before.push(mv));
            assert(history_messages(h.take(k + 1)) =~~= history_messages(h.take(k)).push(mv));
            assert(history@ =~= h.skip(k + 1));
            k = k + 1;
        }
    }
    assert(h.take(k) =~= h);
    out
}

/// The workflows that can be chatted with, in order.
pub fn keep_chat_workflows(details: Vec<WorkflowDetail>) -> (r: Vec<WorkflowDetail>)
    ensures
        seq_view(r@) == seq_view(details@).filter(|w: WorkflowView| spec_has_trigger_chat(w)),
{
    let ghost all = seq_view(details@);
    let ghost p = |w: WorkflowView| spec_has_trigger_chat(w);
    let mut details = details;
    let mut out: Vec<WorkflowDetail> = Vec::new();
    let ghost mut k: int = 0;
    assert(all.take(0) =~= Seq::<WorkflowView>::empty());
    assert(Seq::<WorkflowView>::empty().filter(p) =~= Seq::<WorkflowView>::empty()) by {
        reveal(Seq::filter);
    }
    assert(seq_view(details@) =~= all.skip(0));
    while details.len() > 0
        invariant
            0 <= k <= all.len(),
            seq_view(details@) == all.skip(k),
            seq_view(out@) == all.take(k).filter(p),
            p == (|w: WorkflowView| spec_has_trigger_chat(w)),
        decreases details@.len(),
    {
        let ghost before = seq_view(out@);
        let ghost d0 = details@;
        assert(seq_view(d0).len() == d0.len());
        assert(k < all.len());
        let w = details.remove(0);
        assert(w == d0[0]);
        assert(seq_view(d0)[0] == d0[0]@);
        assert(w@ == all[k]);
        let keep = w.has_trigger_chat();
        let ghost wv = w@;
        if keep {
            out.push(w);
            assert(seq_view(out@) =~= before.push(wv));
        }
        proof {
            assert(all.take(k + 1).drop_last() =~= all.take(k));
            assert(all.take(k + 1).last() == all[k]);
            assert(all.take(k + 1).filter(p) == (if p(all[k]) {
                all.take(k).filter(p).push(all[k])
            } else {
                all.take(k).filter(p)
            })) by {
                reveal(Seq::filter);
            }
            assert forall|i: int| 0 <= i < details@.len() implies seq_view(details@)[i] == all.skip(k + 1)[i] by {
                assert(details@[i] == d0[i + 1]);
                assert(seq_view(d0)[i + 1] == all.skip(k)[i + 1]);
            }
            assert(seq_view(details@) =~= all.skip(k + 1));
            k = k + 1;
        }
    }
    assert(all.take(k) =~= all);
    out
}

/// The channel to follow first: that of the first workflow, where there
/// is one.
pub fn first_channel(workflows: &Vec<WorkflowDetail>) -> (r: Option<String>)
    ensures
        opt_str_view(r) == (if workflows@.len() > 0 {
            Some("workflow:"@ + workflows@[0].slug@)
        } else {
            None
        }),
{
    if workflows.len() > 0 {
        Some(workflow_channel(workflows[0].slug.as_str()))
    } else {
        None
    }
}

/// Outside work that follows a reduced action.
pub enum LoopEffect {
    /// Subscribe the socket to a channel.
    Subscribe(String),
    /// Send a queued message to a workflow.
    SendChat { slug: String, text: String },
    /// Load a workflow's chat history.
    FetchHistory(String),
}

pub enum LoopEffectView {
    Subscribe(Seq<char>),
    SendChat { slug: Seq<char>, text: Seq<char> },
    FetchHistory(Seq<char>),
}

impl View for LoopEffect {
    type V = LoopEffectView;

    open spec fn view(&self) -> LoopEffectView {
        match self {
            LoopEffect::Subscribe(c) => LoopEffectView::Subscribe(c@),
            LoopEffect::SendChat { slug, text } => LoopEffectView::SendChat { slug: slug@, text: text@ },
            LoopEffect::FetchHistory(s) => LoopEffectView::FetchHistory(s@),
        }
    }
}

/// Whether an action leads the loop to follow up on the selected workflow:
/// selecting it, or the success of one of its runs.
pub open spec fn follows_up(a: ActionView) -> bool {
    a is AgentSelect || a == ActionView::WsExecutionDone { success: true }
}

/// What follows a reduced action. With an API client and a selected
/// workflow, after a selection or a successful run: the socket follows the
/// workflow, and then either the next queued message goes out (after a
/// run, where one is queued) or the conversation is loaded again.
pub open spec fn spec_after_action(s: StateView, a: Option<ActionView>, has_client: bool) -> (StateView, Seq<LoopEffectView>) {
    match a {
        Some(act) => if follows_up(act) && has_client && s.selected_agent < s.workflows.len() {
            let slug = s.workflows[s.selected_agent as int].slug;
            let sub = LoopEffectView::Subscribe("workflow:"@ + slug);
            if act is WsExecutionDone && s.message_queue.len() > 0 {
                let q = s.message_queue[0];
                (
                    StateView {
                        message_queue: s.message_queue.drop_first(),
                        messages: s.messages.push(MessageView { role: "user"@, content: q }),
                        json_store: StoreView { nodes_running: true, ..s.json_store },
                        ..s
                    },
                    seq![sub, LoopEffectView::SendChat { slug, text: q }],
                )
            } else {
                (s, seq![sub, LoopEffectView::FetchHistory(slug)])
            }
        } else {
            (s, Seq::empty())
        },
        None => (s, Seq::empty()),
    }
}

/// Decides what follows a reduced action, and takes a queued message off
/// the queue where it goes out.
pub fn after_action(state: &mut AppState, action: &Option<Action>, has_client: bool) -> (r: Vec<LoopEffect>)
    ensures
        final(state)@ == spec_after_action(old(state)@, opt_action_view(*action), has_client).0,
        seq_view(r@) == spec_after_action(old(state)@, opt_action_view(*action), has_client).1,
{
    let ghost s0 = state@;
    let mut out: Vec<LoopEffect> = Vec::new();
    let act = match action {
        Some(a) => a,
        None => {
            assert(seq_view(out@) =~= Seq::<LoopEffectView>::empty());
            return out;
        },
    };
    let (follow, done) = match act {
        Action::AgentSelect => (true, false),
        Action::WsExecutionDone { success } => (*success, true),
        _ => (false, false),
    };
    if !(follow && has_client && state.selected_agent < state.workflows.len()) {
        assert(seq_view(out@) =~= Seq::<LoopEffectView>::empty());
        return out;
    }
    let slug = state.workflows[state.selected_agent].slug.clone();
    assert(slug@ == s0.workflows[s0.selected_agent as int].slug);
    out.push(LoopEffect::Subscribe(workflow_channel(slug.as_str())));
    if done && state.message_queue.len() > 0 {
        let queued = state.message_queue.remove(0);
        state.messages.push(ChatMessage { role: copy_str("user"), content: queued.clone() });
        state.json_store.nodes_running = true;
        out.push(LoopEffect::SendChat { slug, text: queued });
        assert(state@ =~~= spec_after_action(s0, opt_action_view(*action), has_client).0);
    } else {
        out.push(LoopEffect::FetchHistory(slug));
    }
    assert(seq_view(out@) =~~= spec_after_action(s0, opt_action_view(*action), has_client).1);
    out
}

} // verus!

verus! {

/// Following up never loses a message: one that leaves the queue joins
/// the conversation, and the queue and the conversation together stay as
/// long; nothing else in the state changes but the running flag.
pub proof fn lemma_after_action_keeps_messages(s: StateView, a: Option<ActionView>, has_client: bool)
    ensures
        spec_after_action(s, a, has_client).0.message_queue.len() + spec_after_action(s, a, has_client).0.messages.len()
            == s.message_queue.len() + s.messages.len(),
        spec_after_action(s, a, has_client).0.workflows == s.workflows,
        spec_after_action(s, a, has_client).0.selected_agent == s.selected_agent,
        spec_after_action(s, a, has_client).0.input == s.input,
{
}

} // verus!
