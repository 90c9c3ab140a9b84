use plit_tui::client::{user_name, UserInfoError};
use plit_tui::actions::{Action, KeyCode, KeyPress};
use plit_tui::auth::AuthConfig;
use plit_tui::client::{classify_status, PipelitClient, StatusClass};
use plit_tui::middlewares::websocket::{
    handle_text, handle_text_message, next_backoff, remember_subscription, resubscribe,
    workflow_channel, ws_message_from, ws_step, ws_url, Reconnect, WsData, WsEvent, WsMessage,
    WsSend,
};
use plit_tui::reducers::reduce;
use plit_tui::session::{
    after_action, auth_token, base_url, first_channel, history_to_messages, host_display,
    is_interrupt, keep_chat_workflows, tick_action, wants_client, LoopEffect,
};
use plit_tui::json::{json_value, member, str_member, Json};
use plit_tui::str_map::StrMap;
use plit_tui::structs::AppState;
use plit_tui::text::{decimal_string, parse_unsigned_exec, trim, IntError};
use plit_tui::types::{ChatMessageResponse, NodeConfig, NodeInfo, WorkflowDetail};

fn auth(url: &str, token: &str) -> AuthConfig {
    AuthConfig { token: token.to_string(), username: "me".to_string(), pipelit_url: url.to_string() }
}

#[test]
fn base_url_prefers_flag_then_stored() {
    assert_eq!(base_url(Some("http://a".to_string()), &Some(auth("https://b", "t"))), "http://a");
    assert_eq!(base_url(None, &Some(auth("https://b", "t"))), "https://b");
    assert_eq!(base_url(None, &None), "http://localhost:8000");
    assert_eq!(auth_token(&Some(auth("x", "tok"))), "tok");
    assert_eq!(auth_token(&None), "");
}

#[test]
fn host_display_drops_schemes() {
    assert_eq!(host_display("https://x.com"), "x.com");
    assert_eq!(host_display("http://h:8000"), "h:8000");
    assert_eq!(host_display("https://https://x"), "x");
    assert_eq!(host_display("https://http://x"), "x");
    assert_eq!(host_display("ftp://x"), "ftp://x");
}

#[test]
fn control_c_interrupts() {
    assert!(is_interrupt(&KeyPress { code: KeyCode::Char('c'), control: true }));
    assert!(!is_interrupt(&KeyPress { code: KeyCode::Char('c'), control: false }));
    assert!(!is_interrupt(&KeyPress { code: KeyCode::Esc, control: true }));
}

#[test]
fn ticks_turn_spinner_only_while_running() {
    let mut s = AppState::new();
    assert!(tick_action(&s).is_none());
    s.json_store.nodes_running = true;
    assert!(matches!(tick_action(&s), Some(Action::SpinnerTick)));
}

#[test]
fn history_becomes_messages() {
    let h = vec![
        ChatMessageResponse { role: "user".into(), text: "a".into(), timestamp: None },
        ChatMessageResponse { role: "assistant".into(), text: "b".into(), timestamp: Some("t".into()) },
    ];
    let m = history_to_messages(h);
    assert_eq!(m.len(), 2);
    assert_eq!((m[1].role.as_str(), m[1].content.as_str()), ("assistant", "b"));
}

fn loaded_state() -> AppState {
    let mut s = AppState::new();
    let w = WorkflowDetail { slug: "wf".into(), name: "W".into(), nodes: vec![], edges: vec![] };
    reduce(&mut s, &Action::WorkflowsLoaded(vec![w]));
    s
}

#[test]
fn finished_run_sends_next_queued_message() {
    let mut s = loaded_state();
    s.message_queue = vec!["q1".to_string(), "q2".to_string()];
    let fx = after_action(&mut s, &Some(Action::WsExecutionDone { success: true }), true);
    assert_eq!(fx.len(), 2);
    assert!(matches!(&fx[0], LoopEffect::Subscribe(c) if c == "workflow:wf"));
    assert!(matches!(&fx[1], LoopEffect::SendChat { slug, text } if slug == "wf" && text == "q1"));
    assert_eq!(s.message_queue, vec!["q2"]);
    assert_eq!(s.messages.last().map(|m| m.content.as_str()), Some("q1"));
    assert!(s.json_store.nodes_running);
}

#[test]
fn selection_reloads_history() {
    let mut s = loaded_state();
    let fx = after_action(&mut s, &Some(Action::AgentSelect), true);
    assert_eq!(fx.len(), 2);
    assert!(matches!(&fx[1], LoopEffect::FetchHistory(slug) if slug == "wf"));
    assert!(after_action(&mut s, &Some(Action::AgentSelect), false).is_empty());
    assert!(after_action(&mut s, &Some(Action::WsExecutionDone { success: false }), true).is_empty());
    assert!(after_action(&mut s, &None, true).is_empty());
}

#[test]
fn client_builds_addresses() {
    let c = PipelitClient::new("http://x:8000//", "tok");
    assert_eq!(c.base_url, "http://x:8000");
    assert_eq!(c.auth_header(), "Bearer tok");
    assert_eq!(c.me_url(), "http://x:8000/api/v1/auth/me/");
    assert_eq!(c.workflows_url(), "http://x:8000/api/v1/workflows/");
    assert_eq!(c.workflow_url("s"), "http://x:8000/api/v1/workflows/s/");
    assert_eq!(c.chat_url("s"), "http://x:8000/api/v1/workflows/s/chat/");
    assert_eq!(c.history_url("s"), "http://x:8000/api/v1/workflows/s/chat/history?limit=200");
    assert_eq!(classify_status(204), StatusClass::Success);
    assert_eq!(classify_status(401), StatusClass::Unauthorized);
    assert_eq!(classify_status(500), StatusClass::Failure);
}

#[test]
fn socket_address_and_backoff() {
    assert_eq!(ws_url("https://h", "t"), "wss://h/ws/?token=t");
    assert_eq!(ws_url("http://h:1", "t"), "ws://h:1/ws/?token=t");
    assert_eq!(next_backoff(1), 2);
    assert_eq!(next_backoff(16), 30);
    assert_eq!(workflow_channel("s"), "workflow:s");
}

#[test]
fn subscriptions_remembered_once() {
    let mut p = Vec::new();
    remember_subscription(&mut p, "workflow:a");
    remember_subscription(&mut p, "workflow:b");
    remember_subscription(&mut p, "workflow:a");
    assert_eq!(p, vec!["workflow:a", "workflow:b"]);
}

fn data() -> WsData {
    WsData {
        text: None,
        is_tool_call: false,
        tool_name: None,
        node_id: None,
        status: None,
        model_name: None,
        child_execution_ids: None,
        child_execution_id: None,
    }
}

#[test]
fn socket_messages_become_actions() {
    let ping = WsMessage { msg_type: Some("ping".into()), data: data() };
    let r = handle_text_message(&ping);
    assert!(r.pong && r.actions.is_empty());

    let mut d = data();
    d.text = Some("hello".into());
    let r = handle_text_message(&WsMessage { msg_type: Some("chat_message".into()), data: d });
    assert!(!r.pong);
    assert!(matches!(&r.actions[..], [Action::ChatMessageReceived { role, content }] if role == "assistant" && content == "hello"));

    let r = handle_text_message(&WsMessage { msg_type: Some("chat_message".into()), data: data() });
    assert!(r.actions.is_empty());

    let mut d = data();
    d.node_id = Some("n".into());
    d.status = Some("waiting".into());
    d.child_execution_ids = Some(vec![Some("e1".into()), None, Some("e2".into())]);
    let r = handle_text_message(&WsMessage { msg_type: Some("node_status".into()), data: d });
    assert_eq!(r.actions.len(), 3);
    assert!(matches!(&r.actions[1], Action::WsChildTask { execution_id, status } if execution_id == "e2" && status == "running"));
    assert!(matches!(&r.actions[2], Action::WsNodeStatus { node_name, .. } if node_name == "n"));

    let mut d = data();
    d.is_tool_call = true;
    d.tool_name = Some("t".into());
    let r = handle_text_message(&WsMessage { msg_type: Some("node_status".into()), data: d });
    assert!(matches!(&r.actions[..], [Action::WsToolCall { tool_name, node_id, .. }] if tool_name == "t" && node_id.is_empty()));

    let r = handle_text_message(&WsMessage { msg_type: Some("execution_failed".into()), data: data() });
    assert!(matches!(&r.actions[..], [Action::WsExecutionDone { success: false }]));
    let r = handle_text_message(&WsMessage { msg_type: None, data: data() });
    assert!(r.actions.is_empty() && !r.pong);
}

#[test]
fn text_helpers() {
    assert_eq!(decimal_string(0), "0");
    assert_eq!(decimal_string(1203), "1203");
    assert_eq!(trim("  a b \n"), "a b");
    assert_eq!(parse_unsigned_exec("42", 100), Ok(42));
    assert_eq!(parse_unsigned_exec("420", 100), Err(IntError::PosOverflow));
    assert_eq!(parse_unsigned_exec("-", 100), Err(IntError::InvalidDigit));
}

#[test]
fn str_map_insert_get_remove() {
    let mut m = StrMap::new();
    m.insert("a".to_string(), "1".to_string());
    m.insert("a".to_string(), "2".to_string());
    assert_eq!(m.get("a").map(|s| s.as_str()), Some("2"));
    assert_eq!(m.remove("a"), Some("2".to_string()));
    assert!(m.get("a").is_none());
}

fn workflow(slug: &str, chat: bool) -> WorkflowDetail {
    let kind = if chat { "trigger_chat" } else { "trigger_webhook" };
    WorkflowDetail {
        slug: slug.into(),
        name: slug.to_uppercase(),
        nodes: vec![NodeInfo {
            name: "t".into(),
            component_type: kind.into(),
            config: NodeConfig { model_name: None },
        }],
        edges: vec![],
    }
}

#[test]
fn only_chat_workflows_are_kept() {
    let kept = keep_chat_workflows(vec![workflow("a", false), workflow("b", true), workflow("c", true)]);
    let slugs: Vec<&str> = kept.iter().map(|w| w.slug.as_str()).collect();
    assert_eq!(slugs, vec!["b", "c"]);
    assert_eq!(first_channel(&kept).as_deref(), Some("workflow:b"));
    assert!(first_channel(&vec![]).is_none());
}

#[test]
fn socket_steps() {
    let mut pending = Vec::new();
    let s = ws_step(&mut pending, WsEvent::Follow("workflow:a".into()));
    assert_eq!(s.send, vec![WsSend::Subscribe("workflow:a".into())]);
    assert_eq!(pending, vec!["workflow:a"]);
    ws_step(&mut pending, WsEvent::Follow("workflow:a".into()));
    assert_eq!(pending.len(), 1);
    let s = ws_step(&mut pending, WsEvent::Heartbeat);
    assert_eq!(s.send, vec![WsSend::Ping]);
    assert!(s.stop_on_send_error && !s.stop);
    let s = ws_step(&mut pending, WsEvent::Cancelled);
    assert_eq!(s.send, vec![WsSend::Close]);
    assert!(s.stop);
    let s = ws_step(&mut pending, WsEvent::Closed);
    assert!(s.send.is_empty() && s.stop);
    let s = ws_step(&mut pending, WsEvent::Broken);
    assert!(s.send.is_empty() && s.stop && s.failed);
    assert!(!ws_step(&mut pending, WsEvent::Closed).failed);
    let s = ws_step(&mut pending, WsEvent::Pinged);
    assert_eq!(s.send, vec![WsSend::PongFrame]);
    let s = ws_step(&mut pending, WsEvent::Received(r#"{"type":"ping"}"#.into()));
    assert_eq!(s.send, vec![WsSend::Pong]);
    let s = ws_step(&mut pending, WsEvent::Received("not json".into()));
    assert!(s.send.is_empty() && s.actions.is_empty() && !s.stop);
    let s = ws_step(&mut pending, WsEvent::Received(r#"{"type":"execution_completed"}"#.into()));
    assert!(s.send.is_empty());
    assert!(matches!(&s.actions[..], [Action::WsExecutionDone { success: true }]));
}

#[test]
fn reconnect_pauses_double_up_to_thirty() {
    let mut link = Reconnect::new();
    assert!(matches!(link.attempt(), Action::WsStatusChanged(s) if s == "reconnecting"));
    let mut pauses = Vec::new();
    for _ in 0..7 {
        match link.closed(false) {
            Some((Action::WsStatusChanged(s), secs)) => {
                assert_eq!(s, "disconnected");
                pauses.push(secs);
            }
            _ => panic!("expected a pause"),
        }
    }
    assert_eq!(pauses, vec![1, 2, 4, 8, 16, 30, 30]);
    assert!(matches!(link.connected(), Action::WsStatusChanged(s) if s == "connected"));
    assert!(matches!(link.closed(false), Some((_, 1))));
    assert!(link.closed(true).is_none());
}

#[test]
fn socket_texts_become_actions() {
    let r = handle_text(r#"{"type":"ping"}"#);
    assert!(r.pong && r.actions.is_empty());
    let r = handle_text("{not json");
    assert!(!r.pong && r.actions.is_empty());
    let r = handle_text("[1, 2]");
    assert!(!r.pong && r.actions.is_empty());
    let r = handle_text(r#"{"type":"chat_message","data":{"text":"hi there"}}"#);
    assert!(matches!(&r.actions[..], [Action::ChatMessageReceived { role, content }] if role == "assistant" && content == "hi there"));
    let r = handle_text(r#"{"type":"chat_message","data":{"text":7}}"#);
    assert!(r.actions.is_empty());
    let r = handle_text(
        r#"{"type":"node_status","data":{"node_id":"agent","status":"waiting","model_name":"m1","child_execution_ids":["c1",3,"c2"]}}"#,
    );
    assert_eq!(r.actions.len(), 3);
    assert!(matches!(&r.actions[0], Action::WsChildTask { execution_id, status } if execution_id == "c1" && status == "running"));
    assert!(matches!(&r.actions[1], Action::WsChildTask { execution_id, .. } if execution_id == "c2"));
    assert!(matches!(&r.actions[2], Action::WsNodeStatus { node_name, status, model_name }
        if node_name == "agent" && status == "waiting" && model_name.as_deref() == Some("m1")));
    let r = handle_text(r#"{"type":"node_status","data":{"is_tool_call":true,"tool_name":"grep","node_id":"n","status":"ok"}}"#);
    assert!(matches!(&r.actions[..], [Action::WsToolCall { tool_name, node_id, status }]
        if tool_name == "grep" && node_id == "n" && status == "ok"));
    let r = handle_text(r#"{"type":"node_status","data":{"is_tool_call":"yes","node_id":"n"}}"#);
    assert!(matches!(&r.actions[..], [Action::WsNodeStatus { node_name, status, model_name: None }] if node_name == "n" && status.is_empty()));
    let r = handle_text(r#"{"type":"child_node_status","data":{"child_execution_id":"c9","status":"done"}}"#);
    assert!(matches!(&r.actions[..], [Action::WsChildTask { execution_id, status }] if execution_id == "c9" && status == "done"));
    let r = handle_text(r#"{"type":"child_node_status","data":{}}"#);
    assert!(r.actions.is_empty());
    let r = handle_text(r#"{"type":"execution_started"}"#);
    assert!(matches!(&r.actions[..], [Action::WsExecutionStarted]));
    let r = handle_text(r#"{"type":"something_else","data":{"text":"x"}}"#);
    assert!(r.actions.is_empty() && !r.pong);
}

#[test]
fn json_texts_parse_into_trees() {
    assert!(json_value("{").is_none());
    assert!(matches!(json_value("null"), Some(Json::Null)));
    assert!(matches!(json_value("12"), Some(Json::Number(Some(12)))));
    assert!(matches!(json_value("-1"), Some(Json::Number(None))));
    let v = json_value(r#"{"a":[true,"x"],"b":{"c":"d"}}"#).unwrap();
    match member(&v, "a") {
        Some(Json::Array(items)) => {
            assert_eq!(items.len(), 2);
            assert!(matches!(&items[0], Json::Bool(true)));
            assert!(matches!(&items[1], Json::Str(s) if s == "x"));
        }
        _ => panic!("expected an array"),
    }
    let b = member(&v, "b").unwrap();
    assert_eq!(str_member(b, "c").as_deref(), Some("d"));
    assert!(member(&v, "z").is_none());
    assert!(str_member(&v, "a").is_none());
    let m = ws_message_from(&json_value(r#"{"type":"t","data":{"status":"s","is_tool_call":true}}"#).unwrap());
    assert_eq!(m.msg_type.as_deref(), Some("t"));
    assert_eq!(m.data.status.as_deref(), Some("s"));
    assert!(m.data.is_tool_call);
    assert!(m.data.text.is_none() && m.data.child_execution_ids.is_none());
}

#[test]
fn remembered_channels_are_followed_again_in_order() {
    let mut pending = Vec::new();
    remember_subscription(&mut pending, "workflow:b");
    remember_subscription(&mut pending, "workflow:a");
    remember_subscription(&mut pending, "workflow:b");
    assert_eq!(
        resubscribe(&pending),
        vec![WsSend::Subscribe("workflow:b".into()), WsSend::Subscribe("workflow:a".into())]
    );
    assert!(resubscribe(&Vec::new()).is_empty());
}

#[test]
fn client_only_with_a_token() {
    assert!(!wants_client(""));
    assert!(wants_client("tok"));
}

#[test]
fn token_check_reply_names_the_user() {
    assert_eq!(user_name(r#"{"username":"ada","id":3}"#), Ok("ada".to_string()));
    assert_eq!(user_name("<html>"), Err(UserInfoError::NotJson));
    assert_eq!(user_name(r#"{"username":7}"#), Err(UserInfoError::NoUsername));
    assert_eq!(user_name(r#"{"name":"ada"}"#), Err(UserInfoError::NoUsername));
    assert_eq!(user_name(r#"["ada"]"#), Err(UserInfoError::NoUsername));
}
