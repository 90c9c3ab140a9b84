//! What the live connection to the backend does with what it receives.
use vstd::prelude::*;
use crate::actions::{Action, ActionView};
use crate::text::{chars_of, concat, copy_str, str_eq, string_from_range};
use crate::types::opt_str_view;
use crate::util::seq_view;
use crate::json::{Json, JsonView, json_of, json_value, json_view, member, member_of, str_member, str_of, bool_of};

verus! {

/// The fields of a `data` object that the connection reads. A field is
/// `None` where it is missing or not of the type read.
pub struct WsData {
    pub text: Option<String>,
    pub is_tool_call: bool,
    pub tool_name: Option<String>,
    pub node_id: Option<String>,
    pub status: Option<String>,
    pub model_name: Option<String>,
    /// The `child_execution_ids` array, each element a string or not.
    pub child_execution_ids: Option<Vec<Option<String>>>,
    pub child_execution_id: Option<String>,
}

/// A received JSON message: its `type` and its `data`.
pub struct WsMessage {
    pub msg_type: Option<String>,
    pub data: WsData,
}

/// What to do with a received message: answer with a pong, and the
/// actions to dispatch, in order.
pub struct WsReaction {
    pub pong: bool,
    pub actions: Vec<Action>,
}

pub struct WsDataView {
    pub text: Option<Seq<char>>,
    pub is_tool_call: bool,
    pub tool_name: Option<Seq<char>>,
    pub node_id: Option<Seq<char>>,
    pub status: Option<Seq<char>>,
    pub model_name: Option<Seq<char>>,
    pub child_execution_ids: Option<Seq<Option<Seq<char>>>>,
    pub child_execution_id: Option<Seq<char>>,
}

pub struct WsMessageView {
    pub msg_type: Option<Seq<char>>,
    pub data: WsDataView,
}

pub open spec fn ids_view(o: Option<Vec<Option<String>>>) -> Option<Seq<Option<Seq<char>>>> {
    match o {
        Some(v) => Some(v@.map_values(|x: Option<String>| opt_str_view(x))),
        None => None,
    }
}

impl View for WsData {
    type V = WsDataView;

    open spec fn view(&self) -> WsDataView {
        WsDataView {
            text: opt_str_view(self.text),
            is_tool_call: self.is_tool_call,
            tool_name: opt_str_view(self.tool_name),
            node_id: opt_str_view(self.node_id),
            status: opt_str_view(self.status),
            model_name: opt_str_view(self.model_name),
            child_execution_ids: ids_view(self.child_execution_ids),
            child_execution_id: opt_str_view(self.child_execution_id),
        }
    }
}

impl View for WsMessage {
    type V = WsMessageView;

    open spec fn view(&self) -> WsMessageView {
        WsMessageView { msg_type: opt_str_view(self.msg_type), data: self.data@ }
    }
}

/// The text, or the empty text where there is none (`unwrap_or_default`).
pub open spec fn or_empty(o: Option<Seq<char>>) -> Seq<char> {
    match o {
        Some(s) => s,
        None => Seq::empty(),
    }
}

/// The fields of a received JSON value that the connection reads: the
/// `type`, and the members of `data`; a field is missing where the member
/// is missing or not of the type read.
pub open spec fn spec_ws_message(v: JsonView) -> WsMessageView {
    let d = member_of(v, "data"@);
    WsMessageView {
        msg_type: str_of(member_of(v, "type"@)),
        data: WsDataView {
            text: str_of(member_of(d, "text"@)),
            is_tool_call: bool_of(member_of(d, "is_tool_call"@)) == Some(true),
            tool_name: str_of(member_of(d, "tool_name"@)),
            node_id: str_of(member_of(d, "node_id"@)),
            status: str_of(member_of(d, "status"@)),
            model_name: str_of(member_of(d, "model_name"@)),
            child_execution_ids: match member_of(d, "child_execution_ids"@) {
                JsonView::Array(items) => Some(items.map_values(|x: JsonView| str_of(x))),
                _ => None,
            },
            child_execution_id: str_of(member_of(d, "child_execution_id"@)),
        },
    }
}

/// The view of a member that may be missing.
pub open spec fn opt_member_view(d: Option<&Json>) -> JsonView {
    match d {
        Some(x) => x@,
        None => JsonView::Null,
    }
}

fn data_str(d: Option<&Json>, key: &str) -> (r: Option<String>)
    ensures
        opt_str_view(r) == str_of(member_of(opt_member_view(d), key@)),
{
    match d {
        Some(x) => str_member(x, key),
        None => None,
    }
}

fn data_ids(d: Option<&Json>) -> (r: Option<Vec<Option<String>>>)
    ensures
        ids_view(r) == match member_of(opt_member_view(d), "child_execution_ids"@) {
            JsonView::Array(items) => Some(items.map_values(|x: JsonView| str_of(x))),
            _ => None,
        },
{
    let x = match d {
        Some(x) => x,
        None => return None,
    };
    match member(x, "child_execution_ids") {
        Some(Json::Array(items)) => {
            let ghost js = member_of(x@, "child_execution_ids"@)->Array_0;
            let mut out: Vec<Option<String>> = Vec::new();
            let n = items.len();
            let mut i: usize = 0;
            while i < n
                invariant
                    n == items@.len(),
                    js.len() == n,
                    forall|k: int| 0 <= k < n ==> js[k] == json_view(#[trigger] items@[k]),
                    i <= n,
                    out@.map_values(|o: Option<String>| opt_str_view(o)) == js.take(i as int).map_values(
                        |y: JsonView| str_of(y),
                    ),
                decreases n - i,
            {
                let ghost before = out@.map_values(|o: Option<String>| opt_str_view(o));
                let s = match &items[i] {
                    Json::Str(s) => Some(s.clone()),
                    _ => None,
                };
                out.push(s);
                assert(out@.map_values(|o: Option<String>| opt_str_view(o)) =~= before.push(opt_str_view(s)));
                assert(js.take(i as int + 1).map_values(|y: JsonView| str_of(y)) =~= js.take(i as int).map_values(
                    |y: JsonView| str_of(y),
                ).push(str_of(js[i as int])));
                i = i + 1;
            }
            assert(js.take(n as int) =~= js);
            Some(out)
        },
        _ => None,
    }
}

/// Reads the fields of a received JSON value.
pub fn ws_message_from(v: &Json) -> (m: WsMessage)
    ensures
        m@ == spec_ws_message(v@),
{
    let d = member(v, "data");
    assert(opt_member_view(d) == member_of(v@, "data"@));
    let is_tool_call = match d {
        Some(x) => match member(x, "is_tool_call") {
            Some(Json::Bool(b)) => *b,
            _ => false,
        },
        None => false,
    };
    let msg_type = str_member(v, "type");
    let data = WsData {
        text: data_str(d, "text"),
        is_tool_call,
        tool_name: data_str(d, "tool_name"),
        node_id: data_str(d, "node_id"),
        status: data_str(d, "status"),
        model_name: data_str(d, "model_name"),
        child_execution_ids: data_ids(d),
        child_execution_id: data_str(d, "child_execution_id"),
    };
    let m = WsMessage { msg_type, data };
    assert(m@ == spec_ws_message(v@));
    m
}

/// A running child task for each string among `ids`.
pub open spec fn child_tasks_started(ids: Seq<Option<Seq<char>>>) -> Seq<ActionView>
    decreases ids.len(),
{
    if ids.len() == 0 {
        Seq::empty()
    } else {
        let rest = child_tasks_started(ids.drop_last());
        match ids.last() {
            Some(id) => rest.push(ActionView::WsChildTask { execution_id: id, status: "running"@ }),
            None => rest,
        }
    }
}

/// The actions a message of type `node_status` leads to.
pub open spec fn node_status_actions(d: WsDataView) -> Seq<ActionView> {
    if d.is_tool_call {
        seq![ActionView::WsToolCall {
            tool_name: or_empty(d.tool_name),
            node_id: or_empty(d.node_id),
            status: or_empty(d.status),
        }]
    } else {
        let status = or_empty(d.status);
        let children = if status == "waiting"@ {
            match d.child_execution_ids {
                Some(ids) => child_tasks_started(ids),
                None => Seq::empty(),
            }
        } else {
            Seq::empty()
        };
        children.push(ActionView::WsNodeStatus {
            node_name: or_empty(d.node_id),
            status,
            model_name: d.model_name,
        })
    }
}

/// The actions a message leads to.
pub open spec fn message_actions(m: WsMessageView) -> Seq<ActionView> {
    let t = or_empty(m.msg_type);
    let d = m.data;
    if t == "chat_message"@ {
        let text = or_empty(d.text);
        if text.len() > 0 {
            seq![ActionView::ChatMessageReceived { role: "assistant"@, content: text }]
        } else {
            Seq::empty()
        }
    } else if t == "node_status"@ {
        node_status_actions(d)
    } else if t == "child_node_status"@ {
        let id = or_empty(d.child_execution_id);
        if id.len() > 0 {
            seq![ActionView::WsChildTask { execution_id: id, status: or_empty(d.status) }]
        } else {
            Seq::empty()
        }
    } else if t == "execution_started"@ {
        seq![ActionView::WsExecutionStarted]
    } else if t == "execution_completed"@ {
        seq![ActionView::WsExecutionDone { success: true }]
    } else if t == "execution_failed"@ {
        seq![ActionView::WsExecutionDone { success: false }]
    } else {
        Seq::empty()
    }
}

pub open spec fn message_pong(m: WsMessageView) -> bool {
    or_empty(m.msg_type) == "ping"@
}

fn field(o: &Option<String>) -> (r: String)
    ensures
        r@ == or_empty(opt_str_view(*o)),
{
    match o {
        Some(s) => s.clone(),
        None => String::new(),
    }
}

fn push_action(v: &mut Vec<Action>, a: Action)
    ensures
        seq_view(final(v)@) == seq_view(old(v)@).push(a@),
{
    let ghost before = seq_view(v@);
    let ghost av = a@;
    v.push(a);
    assert(seq_view(v@) =~= before.push(av));
}

fn node_status(d: &WsData, out: &mut Vec<Action>)
    requires
        old(out)@.len() == 0,
    ensures
        seq_view(final(out)@) == node_status_actions(d@),
{
    if d.is_tool_call {
        push_action(
            out,
            Action::WsToolCall {
                tool_name: field(&d.tool_name),
                node_id: field(&d.node_id),
                status: field(&d.status),
            },
        );
        return;
    }
    let status = field(&d.status);
    if str_eq(status.as_str(), "waiting") {
        match &d.child_execution_ids {
            Some(ids) => {
                let n = ids.len();
                let mut i: usize = 0;
                let ghost idv = ids@.map_values(|x: Option<String>| opt_str_view(x));
                while i < n
                    invariant
                        n == ids@.len(),
                        i <= n,
                        idv == ids@.map_values(|x: Option<String>| opt_str_view(x)),
                        seq_view(out@) == child_tasks_started(idv.take(i as int)),
                    decreases n - i,
                {
                    assert(idv.take(i as int + 1).drop_last() =~= idv.take(i as int));
                    match &ids[i] {
                        Some(id) => {
                            push_action(
                                out,
                                Action::WsChildTask {
                                    execution_id: id.clone(),
                                    status: copy_str("running"),
                                },
                            );
                        },
                        None => {},
                    }
                    i = i + 1;
                }
                assert(idv.take(n as int) =~= idv);
            },
            None => {
                assert(seq_view(out@) =~= Seq::<ActionView>::empty());
            },
        }
    } else {
        assert(seq_view(out@) =~= Seq::<ActionView>::empty());
    }
    let model = match &d.model_name {
        Some(m) => Some(m.clone()),
        None => None,
    };
    push_action(out, Action::WsNodeStatus { node_name: field(&d.node_id), status, model_name: model });
}

/// Interprets a received message.
pub fn handle_text_message(msg: &WsMessage) -> (r: WsReaction)
    ensures
        r.pong == message_pong(msg@),
        seq_view(r.actions@) == message_actions(msg@),
{
    let t = field(&msg.msg_type);
    let t = t.as_str();
    let d = &msg.data;
    let mut actions: Vec<Action> = Vec::new();
    assert(seq_view(actions@) =~= Seq::<ActionView>::empty());
    let pong = str_eq(t, "ping");
    proof {
        reveal_strlit("ping");
        reveal_strlit("chat_message");
        reveal_strlit("node_status");
        reveal_strlit("child_node_status");
        reveal_strlit("execution_started");
        reveal_strlit("execution_completed");
        reveal_strlit("execution_failed");
    }
    if pong {
        assert(t@ != "chat_message"@) by {
            assert("ping"@.len() == 4);
            assert("chat_message"@.len() == 12);
        }
    } else if str_eq(t, "chat_message") {
        let text = field(&d.text);
        if crate::text::char_count(text.as_str()) > 0 {
            push_action(
                &mut actions,
                Action::ChatMessageReceived { role: copy_str("assistant"), content: text },
            );
        }
        assert(seq_view(actions@) == message_actions(msg@));
    } else if str_eq(t, "node_status") {
        node_status(d, &mut actions);
        assert(seq_view(actions@) == message_actions(msg@));
    } else if str_eq(t, "child_node_status") {
        let id = field(&d.child_execution_id);
        if crate::text::char_count(id.as_str()) > 0 {
            push_action(
                &mut actions,
                Action::WsChildTask { execution_id: id, status: field(&d.status) },
            );
        }
        assert(seq_view(actions@) == message_actions(msg@));
    } else if str_eq(t, "execution_started") {
        push_action(&mut actions, Action::WsExecutionStarted);
    } else if str_eq(t, "execution_completed") {
        push_action(&mut actions, Action::WsExecutionDone { success: true });
    } else if str_eq(t, "execution_failed") {
        push_action(&mut actions, Action::WsExecutionDone { success: false });
        assert(seq_view(actions@) == message_actions(msg@));
    } else {
        assert(seq_view(actions@) == message_actions(msg@));
    }
    WsReaction { pong, actions }
}

/// Whether a received text is answered with a pong.
pub open spec fn text_pong(text: Seq<char>) -> bool {
    match json_of(text) {
        Some(v) => message_pong(spec_ws_message(v)),
        None => false,
    }
}

/// The actions a received text leads to; none where it is not JSON.
pub open spec fn text_actions(text: Seq<char>) -> Seq<ActionView> {
    match json_of(text) {
        Some(v) => message_actions(spec_ws_message(v)),
        None => Seq::empty(),
    }
}

/// Interprets a text received on the socket: a text that is not JSON is
/// ignored.
pub fn handle_text(text: &str) -> (r: WsReaction)
    ensures
        match json_of(text@) {
            Some(v) => r.pong == message_pong(spec_ws_message(v)) && seq_view(r.actions@) == message_actions(
                spec_ws_message(v),
            ),
            None => !r.pong && r.actions@.len() == 0,
        },
{
    match json_value(text) {
        Some(v) => handle_text_message(&ws_message_from(&v)),
        None => WsReaction { pong: false, actions: Vec::new() },
    }
}

// ------------------------------------------------------------ connection

/// First index at or after `i` where `pat` occurs in `s`.
pub open spec fn find_from(s: Seq<char>, pat: Seq<char>, i: int) -> Option<int>
    decreases s.len() + 1 - i,
{
    if i < 0 || i + pat.len() > s.len() {
        None
    } else if s.subrange(i, i + pat.len()) == pat {
        Some(i)
    } else {
        find_from(s, pat, i + 1)
    }
}

/// `str::replacen(pat, rep, 1)`: the first occurrence of `pat` replaced.
pub open spec fn replace_first(s: Seq<char>, pat: Seq<char>, rep: Seq<char>) -> Seq<char> {
    match find_from(s, pat, 0) {
        Some(i) => s.take(i) + rep + s.skip(i + pat.len()),
        None => s,
    }
}

fn replace_first_exec(s: &str, pat: &str, rep: &str) -> (r: String)
    requires
        pat@.len() > 0,
    ensures
        r@ == replace_first(s@, pat@, rep@),
{
    let v = chars_of(s);
    let p = chars_of(pat);
    let n = v.len();
    let m = p.len();
    if m > n {
        return copy_str(s);
    }
    let mut i: usize = 0;
    while i <= n - m
        invariant
            n == v@.len(),
            m == p@.len(),
            v@ == s@,
            p@ == pat@,
            m <= n,
            i <= n - m + 1,
            find_from(s@, pat@, 0) == find_from(s@, pat@, i as int),
        decreases n - i,
    {
        let mut j: usize = 0;
        while j < m && v[i + j] == p[j]
            invariant
                i + m <= n,
                n == v@.len(),
                m == p@.len(),
                j <= m,
                forall|k: int| 0 <= k < j ==> v@[i + k] == p@[k],
            decreases m - j,
        {
            j = j + 1;
        }
        if j == m {
            assert(v@.subrange(i as int, i + m) =~= p@);
            let mut r = string_from_range(&v, 0, i);
            r.append(rep);
            let tail = string_from_range(&v, i + m, n);
            r.append(tail.as_str());
            assert(r@ =~= replace_first(s@, pat@, rep@));
            return r;
        }
        assert(v@.subrange(i as int, i + m) != p@) by {
            assert(v@.subrange(i as int, i + m)[j as int] != p@[j as int]);
        }
        i = i + 1;
    }
    copy_str(s)
}

/// The address of the live connection for a backend: `https://` becomes
/// `wss://`, then `http://` becomes `ws://` (each once), and the token is
/// passed as a query parameter.
pub open spec fn spec_ws_url(base_url: Seq<char>, token: Seq<char>) -> Seq<char> {
    replace_first(replace_first(base_url, "https://"@, "wss://"@), "http://"@, "ws://"@)
        + "/ws/?token="@ + token
}

pub fn ws_url(base_url: &str, token: &str) -> (r: String)
    ensures
        r@ == spec_ws_url(base_url@, token@),
{
    proof {
        reveal_strlit("https://");
        reveal_strlit("http://");
    }
    let a = replace_first_exec(base_url, "https://", "wss://");
    let b = replace_first_exec(a.as_str(), "http://", "ws://");
    let c = concat(b.as_str(), "/ws/?token=");
    concat(c.as_str(), token)
}

/// The wait before the next connection attempt: double the last one, at
/// most thirty seconds.
pub fn next_backoff(secs: u64) -> (r: u64)
    requires
        secs <= u64::MAX / 2,
    ensures
        r == spec_backoff(secs as int),
{
    let d = secs * 2;
    if d < 30 {
        d
    } else {
        30
    }
}

/// The channel of a workflow's updates.
pub fn workflow_channel(slug: &str) -> (r: String)
    ensures
        r@ == "workflow:"@ + slug@,
{
    concat("workflow:", slug)
}

/// Remembers a channel to subscribe to again after reconnecting; a channel
/// is remembered once.
pub fn remember_subscription(pending: &mut Vec<String>, channel: &str)
    ensures
        seq_view(final(pending)@) == if seq_view(old(pending)@).contains(channel@) {
            seq_view(old(pending)@)
        } else {
            seq_view(old(pending)@).push(channel@)
        },
{
    let ghost before = seq_view(pending@);
    let n = pending.len();
    let mut i: usize = 0;
    while i < n
        invariant
            n == pending@.len(),
            i <= n,
            before == seq_view(pending@),
            forall|j: int| 0 <= j < i ==> before[j] != channel@,
        decreases n - i,
    {
        if str_eq(pending[i].as_str(), channel) {
            assert(before[i as int] == channel@);
            return;
        }
        i = i + 1;
    }
    pending.push(copy_str(channel));
    assert(seq_view(pending@) =~= before.push(channel@));
}

} // verus!

verus! {

/// Remembering a channel never makes one remembered twice.
pub proof fn lemma_remember_keeps_distinct(pending: Seq<Seq<char>>, channel: Seq<char>)
    requires
        pending.no_duplicates(),
    ensures
        (if pending.contains(channel) {
            pending
        } else {
            pending.push(channel)
        }).no_duplicates(),
        (if pending.contains(channel) {
            pending
        } else {
            pending.push(channel)
        }).contains(channel),
{
    if !pending.contains(channel) {
        let r = pending.push(channel);
        assert forall|i: int, j: int| 0 <= i < r.len() && 0 <= j < r.len() && i != j implies r[i] != r[j] by {
            if i == pending.len() {
                assert(pending[j] != channel);
            } else if j == pending.len() {
                assert(pending[i] != channel);
            }
        }
        assert(r[pending.len() as int] == channel);
    }
}

/// The pause after one of `secs` seconds: twice as long, at most thirty
/// seconds.
pub open spec fn spec_backoff(secs: int) -> int {
    if 2 * secs < 30 {
        2 * secs
    } else {
        30
    }
}

/// The pause between attempts to reconnect never exceeds thirty seconds,
/// never shrinks, and doubles until it reaches them.
pub proof fn lemma_backoff_bounded(secs: int)
    requires
        0 <= secs <= 30,
    ensures
        spec_backoff(secs) <= 30,
        spec_backoff(secs) >= secs,
        secs < 15 ==> spec_backoff(secs) == 2 * secs,
{
}

} // verus!

verus! {

/// The seconds between two `ping` messages on an open socket.
pub const HEARTBEAT_SECS: u64 = 15;

/// What happens on an open socket.
pub enum WsEvent {
    /// The client is shutting down.
    Cancelled,
    /// The heartbeat is due.
    Heartbeat,
    /// The client asks to follow a channel.
    Follow(String),
    /// A text message arrived.
    Received(String),
    /// The server sent a ping frame.
    Pinged,
    /// The server closed the socket, or the socket ended.
    Closed,
    /// Reading from the socket failed.
    Broken,
    /// Something else arrived.
    Ignored,
}

/// What to send on the socket.
#[derive(PartialEq, Eq, Debug)]
pub enum WsSend {
    /// A close frame.
    Close,
    /// The `ping` message.
    Ping,
    /// The `pong` message.
    Pong,
    /// A pong frame with the data of the ping frame.
    PongFrame,
    /// The `subscribe` message for a channel.
    Subscribe(String),
}

pub enum WsSendView {
    Close,
    Ping,
    Pong,
    PongFrame,
    Subscribe(Seq<char>),
}

impl View for WsSend {
    type V = WsSendView;

    open spec fn view(&self) -> WsSendView {
        match self {
            WsSend::Close => WsSendView::Close,
            WsSend::Ping => WsSendView::Ping,
            WsSend::Pong => WsSendView::Pong,
            WsSend::PongFrame => WsSendView::PongFrame,
            WsSend::Subscribe(c) => WsSendView::Subscribe(c@),
        }
    }
}

/// What is sent as the socket opens: a subscription to each remembered
/// channel, in the order they were remembered.
pub fn resubscribe(pending: &Vec<String>) -> (r: Vec<WsSend>)
    ensures
        seq_view(r@) == seq_view(pending@).map_values(|c: Seq<char>| WsSendView::Subscribe(c)),
{
    let ghost want = seq_view(pending@).map_values(|c: Seq<char>| WsSendView::Subscribe(c));
    let mut out: Vec<WsSend> = Vec::new();
    let n = pending.len();
    let mut i: usize = 0;
    while i < n
        invariant
            n == pending@.len(),
            i <= n,
            want == seq_view(pending@).map_values(|c: Seq<char>| WsSendView::Subscribe(c)),
            seq_view(out@) == want.take(i as int),
        decreases n - i,
    {
        let ghost before = seq_view(out@);
        let m = WsSend::Subscribe(pending[i].clone());
        out.push(m);
        assert(seq_view(out@) =~= before.push(m@));
        assert(want.take(i as int + 1) =~= want.take(i as int).push(want[i as int]));
        i = i + 1;
    }
    assert(want.take(n as int) =~= want);
    out
}

/// What the socket session does with an event: what it sends, the actions
/// it dispatches, whether it ends, whether a failed send ends it, and
/// whether it ends with the socket's error.
pub struct WsStep {
    pub send: Vec<WsSend>,
    pub actions: Vec<Action>,
    pub stop: bool,
    pub stop_on_send_error: bool,
    /// The session ends with the error of the socket.
    pub failed: bool,
}

/// Handles an event of an open socket; `pending` holds the channels to
/// follow again after reconnecting.
pub fn ws_step(pending: &mut Vec<String>, event: WsEvent) -> (r: WsStep)
    ensures
        r.failed == (event is Broken),
        match event {
            WsEvent::Cancelled => seq_view(r.send@) == seq![WsSendView::Close] && r.actions@.len() == 0 && r.stop
                && !r.stop_on_send_error && final(pending)@ == old(pending)@,
            WsEvent::Heartbeat => seq_view(r.send@) == seq![WsSendView::Ping] && r.actions@.len() == 0 && !r.stop
                && r.stop_on_send_error && final(pending)@ == old(pending)@,
            WsEvent::Follow(c) => seq_view(r.send@) == seq![WsSendView::Subscribe(c@)] && r.actions@.len() == 0
                && !r.stop && !r.stop_on_send_error && seq_view(final(pending)@) == (if seq_view(
                old(pending)@,
            ).contains(c@) {
                seq_view(old(pending)@)
            } else {
                seq_view(old(pending)@).push(c@)
            }),
            WsEvent::Received(t) => seq_view(r.send@) == (if text_pong(t@) {
                seq![WsSendView::Pong]
            } else {
                Seq::empty()
            }) && seq_view(r.actions@) == text_actions(t@) && !r.stop && !r.stop_on_send_error
                && final(pending)@ == old(pending)@,
            WsEvent::Pinged => seq_view(r.send@) == seq![WsSendView::PongFrame] && r.actions@.len() == 0 && !r.stop
                && !r.stop_on_send_error && final(pending)@ == old(pending)@,
            WsEvent::Broken => r.send@.len() == 0 && r.actions@.len() == 0 && r.stop && !r.stop_on_send_error
                && final(pending)@ == old(pending)@,
            WsEvent::Closed => r.send@.len() == 0 && r.actions@.len() == 0 && r.stop && !r.stop_on_send_error
                && final(pending)@ == old(pending)@,
            WsEvent::Ignored => r.send@.len() == 0 && r.actions@.len() == 0 && !r.stop && !r.stop_on_send_error
                && final(pending)@ == old(pending)@,
        },
{
    let mut send: Vec<WsSend> = Vec::new();
    let mut actions: Vec<Action> = Vec::new();
    let mut stop = false;
    let mut stop_on_send_error = false;
    let failed = matches!(event, WsEvent::Broken);
    match event {
        WsEvent::Cancelled => {
            send.push(WsSend::Close);
            stop = true;
        },
        WsEvent::Heartbeat => {
            send.push(WsSend::Ping);
            stop_on_send_error = true;
        },
        WsEvent::Follow(c) => {
            remember_subscription(pending, c.as_str());
            send.push(WsSend::Subscribe(c));
        },
        WsEvent::Received(t) => {
            let reaction = handle_text(t.as_str());
            if reaction.pong {
                send.push(WsSend::Pong);
            }
            actions = reaction.actions;
        },
        WsEvent::Pinged => {
            send.push(WsSend::PongFrame);
        },
        WsEvent::Closed | WsEvent::Broken => {
            stop = true;
        },
        WsEvent::Ignored => {},
    }
    assert(seq_view(send@) =~= match event {
        WsEvent::Cancelled => seq![WsSendView::Close],
        WsEvent::Heartbeat => seq![WsSendView::Ping],
        WsEvent::Follow(c) => seq![WsSendView::Subscribe(c@)],
        WsEvent::Received(t) => if text_pong(t@) {
            seq![WsSendView::Pong]
        } else {
            Seq::empty()
        },
        WsEvent::Pinged => seq![WsSendView::PongFrame],
        _ => Seq::empty(),
    });
    WsStep { send, actions, stop, stop_on_send_error, failed }
}

} // verus!

verus! {

/// The reconnecting side of the socket: the pause before the next attempt,
/// which starts at one second and doubles up to thirty.
pub struct Reconnect {
    backoff_secs: u64,
}

impl Reconnect {
    #[verifier::type_invariant]
    spec fn inv(self) -> bool {
        1 <= self.backoff_secs <= 30
    }

    /// The pause before the next attempt, in seconds.
    pub closed spec fn pause(self) -> int {
        self.backoff_secs as int
    }

    /// Before the first attempt.
    pub fn new() -> (r: Reconnect)
        ensures
            r.pause() == 1,
    {
        Reconnect { backoff_secs: 1 }
    }

    /// An attempt starts: the status says so.
    pub fn attempt(&self) -> (a: Action)
        ensures
            a@ == ActionView::WsStatusChanged("reconnecting"@),
    {
        Action::WsStatusChanged(copy_str("reconnecting"))
    }

    /// The socket opened: the pause starts over, and the status says so.
    pub fn connected(&mut self) -> (a: Action)
        ensures
            final(self).pause() == 1,
            a@ == ActionView::WsStatusChanged("connected"@),
    {
        self.backoff_secs = 1;
        Action::WsStatusChanged(copy_str("connected"))
    }

    /// The socket closed, or did not open. Unless the client is shutting
    /// down, the status says so, the pause to wait comes back, and the next
    /// pause doubles, up to thirty seconds.
    pub fn closed(&mut self, cancelled: bool) -> (r: Option<(Action, u64)>)
        ensures
            1 <= old(self).pause() <= 30,
            1 <= final(self).pause() <= 30,
            cancelled ==> r is None && final(self).pause() == old(self).pause(),
            !cancelled ==> (r matches Some((a, secs)) && a@ == ActionView::WsStatusChanged("disconnected"@)
                && secs == old(self).pause() && final(self).pause() == spec_backoff(old(self).pause())),
    {
        proof {
            use_type_invariant(&*self);
        }
        if cancelled {
            return None;
        }
        let secs = self.backoff_secs;
        self.backoff_secs = next_backoff(secs);
        Some((Action::WsStatusChanged(copy_str("disconnected")), secs))
    }
}

} // verus!
