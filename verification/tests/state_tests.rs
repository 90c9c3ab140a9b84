use plit_tui::actions::{Action, KeyCode, KeyPress};
use plit_tui::middlewares::keyboard::map_key;
use plit_tui::middlewares::{check_state, dispatch, init_middlewares, DispatchResult, Effect};
use plit_tui::reducers::chat::{char_to_byte_pos, input_backspace, input_char, input_send};
use plit_tui::reducers::commands::{create, end};
use plit_tui::reducers::reduce;
use plit_tui::structs::command_handler::execute;
use plit_tui::structs::{AppState, Command};
use plit_tui::types::{EdgeInfo, NodeConfig, NodeInfo, WorkflowDetail};

fn key(code: KeyCode) -> KeyPress {
    KeyPress { code, control: false }
}

fn node(name: &str, kind: &str, model: Option<&str>) -> NodeInfo {
    NodeInfo {
        name: name.to_string(),
        component_type: kind.to_string(),
        config: NodeConfig { model_name: model.map(|m| m.to_string()) },
    }
}

fn edge(from: &str, to: &str, label: &str) -> EdgeInfo {
    EdgeInfo {
        source_node_id: from.to_string(),
        target_node_id: to.to_string(),
        edge_label: label.to_string(),
    }
}

fn chat_workflow(slug: &str, name: &str) -> WorkflowDetail {
    WorkflowDetail {
        slug: slug.to_string(),
        name: name.to_string(),
        nodes: vec![
            node("trigger", "trigger_chat", None),
            node("agent", "agent", None),
            node("llm", "ai_model", Some("gpt-4o")),
        ],
        edges: vec![edge("trigger", "agent", ""), edge("llm", "agent", "llm")],
    }
}

#[test]
fn command_new_keeps_fields() {
    let c = Command::new("help".to_string(), "id-1".to_string(), true);
    assert_eq!(c.name, "help");
    assert_eq!(c.id, "id-1");
    assert!(c.failed);
}

#[test]
fn new_state_starts_in_normal_mode() {
    let s = AppState::new();
    assert_eq!(s.json_store.mode, "normal");
    assert_eq!(s.json_store.tabs_titles, vec!["Workflows", "Chat"]);
    assert_eq!(s.json_store.ws_status, "disconnected");
    assert!(s.sticky_bottom);
    assert!(check_state(&s));
}

#[test]
fn typing_then_backspace_restores_input() {
    let mut s = AppState::new();
    input_char(&mut s, 'h');
    input_char(&mut s, 'i');
    s.input.cursor = 1;
    input_char(&mut s, '\u{E9}');
    assert_eq!(s.input.text, "h\u{E9}i");
    assert_eq!(s.input.cursor, 2);
    input_backspace(&mut s);
    assert_eq!(s.input.text, "hi");
    assert_eq!(s.input.cursor, 1);
}

#[test]
fn char_to_byte_pos_counts_utf8() {
    assert_eq!(char_to_byte_pos("h\u{E9}llo", 2), 3);
    assert_eq!(char_to_byte_pos("abc", 10), 3);
}

#[test]
fn input_send_trims_and_clears() {
    let mut s = AppState::new();
    s.input.text = "  hello  ".to_string();
    s.input.cursor = 4;
    input_send(&mut s);
    assert_eq!(s.messages.len(), 1);
    assert_eq!(s.messages[0].role, "user");
    assert_eq!(s.messages[0].content, "hello");
    assert_eq!(s.input.text, "");
    assert_eq!(s.input.cursor, 0);
}

#[test]
fn input_send_blank_adds_nothing() {
    let mut s = AppState::new();
    s.input.text = "   ".to_string();
    input_send(&mut s);
    assert!(s.messages.is_empty());
}

#[test]
fn reduce_input_send_queues_while_running() {
    let mut s = AppState::new();
    s.json_store.nodes_running = true;
    s.input.text = " later ".to_string();
    reduce(&mut s, &Action::InputSend);
    assert_eq!(s.message_queue, vec!["later"]);
    assert!(s.messages.is_empty());
}

#[test]
fn workflows_loaded_selects_first_agent() {
    let mut s = AppState::new();
    reduce(
        &mut s,
        &Action::WorkflowsLoaded(vec![chat_workflow("a", "Alpha"), chat_workflow("b", "Beta")]),
    );
    assert_eq!(s.selected_agent, 0);
    assert_eq!(s.json_store.agent_name, "Alpha");
    assert_eq!(s.json_store.model_name, "gpt-4o");
    assert_eq!(s.json_store.agent_lines, vec!["  \u{25C9} Alpha", "    Beta"]);
    reduce(&mut s, &Action::AgentDown);
    assert_eq!(s.selected_agent, 1);
    assert_eq!(s.json_store.agent_lines, vec!["    Alpha", "  \u{25C9} Beta"]);
    reduce(&mut s, &Action::AgentDown);
    assert_eq!(s.selected_agent, 1);
    reduce(&mut s, &Action::AgentUp);
    reduce(&mut s, &Action::AgentUp);
    assert_eq!(s.selected_agent, 0);
}

#[test]
fn agent_select_switches_to_chat_tab() {
    let mut s = AppState::new();
    reduce(&mut s, &Action::WorkflowsLoaded(vec![chat_workflow("a", "Alpha")]));
    reduce(&mut s, &Action::AgentSelect);
    assert_eq!(s.json_store.tabs_selection, 1);
}

#[test]
fn tabs_wrap_around() {
    let mut s = AppState::new();
    reduce(&mut s, &Action::TabPrev);
    assert_eq!(s.json_store.tabs_selection, 1);
    reduce(&mut s, &Action::TabNext);
    assert_eq!(s.json_store.tabs_selection, 0);
}

#[test]
fn spinner_cycles_through_ten_frames() {
    let mut s = AppState::new();
    for _ in 0..10 {
        reduce(&mut s, &Action::SpinnerTick);
    }
    assert_eq!(s.json_store.spinner_frame, 0);
    reduce(&mut s, &Action::SpinnerTick);
    assert_eq!(s.json_store.spinner_frame, 1);
}

#[test]
fn node_status_updates_one_entry_per_node() {
    let mut s = AppState::new();
    let st = |name: &str, status: &str| Action::WsNodeStatus {
        node_name: name.to_string(),
        status: status.to_string(),
        model_name: None,
    };
    reduce(&mut s, &st("a", "running"));
    reduce(&mut s, &st("b", "running"));
    reduce(&mut s, &st("a", "completed"));
    assert_eq!(s.activity.len(), 2);
    assert_eq!(s.activity[0].node_name, "a");
    assert_eq!(s.activity[0].status, "completed");
    assert!(s.json_store.nodes_running);
    reduce(&mut s, &Action::WsExecutionDone { success: true });
    assert!(s.activity.is_empty());
    assert!(!s.json_store.nodes_running);
}

#[test]
fn scrolling_leaves_the_bottom() {
    let mut s = AppState::new();
    reduce(&mut s, &Action::ScrollDown(3));
    assert_eq!(s.scroll_offset, 3);
    assert!(!s.sticky_bottom);
    reduce(&mut s, &Action::ScrollUp(5));
    assert_eq!(s.scroll_offset, 0);
    assert_eq!(s.json_store.scroll_indicator, "top");
    reduce(&mut s, &Action::ChatMessageReceived {
        role: "assistant".to_string(),
        content: "x".to_string(),
    });
    assert_eq!(s.unread_count, 1);
    reduce(&mut s, &Action::ScrollToBottom);
    assert!(s.sticky_bottom);
    assert_eq!(s.unread_count, 0);
}

#[test]
fn commands_move_from_queue_to_ended() {
    let mut s = AppState::new();
    s.cmd_str_queue.insert("u1".to_string(), "help".to_string());
    create(&mut s, "u1", false);
    assert_eq!(s.cmd_running.len(), 1);
    assert!(s.cmd_str_queue.get("u1").is_none());
    end(&mut s, "u1", false);
    assert!(s.cmd_running.is_empty());
    assert_eq!(s.cmd_ended.len(), 1);
    assert!(s.cmd_ended[0].failed);
    create(&mut s, "unknown", false);
    assert_eq!(s.cmd_running.len(), 0);
}

#[test]
fn execute_help_prints_and_returns_to_normal() {
    let mut s = AppState::new();
    let mut out = Vec::new();
    let quit = execute(&mut s, " help ", &mut out);
    assert!(!quit);
    assert_eq!(out.len(), 7);
    assert!(matches!(&out[0], Action::ConsolePush(l) if l == ":q         quit"));
    assert!(matches!(&out[6], Action::SetMode(m) if m == "normal"));
}

#[test]
fn execute_quit_and_unknown() {
    let mut s = AppState::new();
    let mut out = Vec::new();
    assert!(execute(&mut s, "q", &mut out));
    assert!(out.is_empty());
    assert!(!execute(&mut s, "frob now", &mut out));
    assert!(matches!(&out[0], Action::ConsolePush(l) if l == "Unknown command: frob"));
}

#[test]
fn execute_clear_empties_chat() {
    let mut s = AppState::new();
    s.input.text = "x".to_string();
    reduce(&mut s, &Action::ChatMessageReceived { role: "user".to_string(), content: "a".to_string() });
    s.scroll_offset = 4;
    let mut out = Vec::new();
    execute(&mut s, "clear", &mut out);
    assert!(s.messages.is_empty());
    assert_eq!(s.scroll_offset, 0);
    assert!(s.sticky_bottom);
}

#[test]
fn keys_map_by_mode() {
    let mut s = AppState::new();
    assert!(matches!(map_key(&key(KeyCode::Char('q')), &s), Some(Action::Quit)));
    assert!(matches!(map_key(&key(KeyCode::Char('j')), &s), Some(Action::AgentDown)));
    s.json_store.tabs_selection = 1;
    assert!(matches!(map_key(&key(KeyCode::Char('j')), &s), Some(Action::ScrollDown(1))));
    assert!(matches!(map_key(&key(KeyCode::Enter), &s), None));
    s.json_store.mode = "insert".to_string();
    assert!(matches!(map_key(&key(KeyCode::Char('x')), &s), Some(Action::InputChar('x'))));
    let ctrl_j = KeyPress { code: KeyCode::Char('j'), control: true };
    assert!(matches!(map_key(&ctrl_j, &s), Some(Action::InputNewline)));
    s.json_store.mode = "command".to_string();
    match map_key(&key(KeyCode::Enter), &s) {
        Some(Action::CommandBarEnqueueCmd(id)) => {
            assert_eq!(id.len(), 36);
            assert_eq!(&id[8..9], "-");
            assert_eq!(&id[14..15], "4");
            assert!(id.chars().all(|c| c == '-' || c.is_ascii_digit() || ('a'..='f').contains(&c)));
        }
        _ => panic!("expected a queued command"),
    }
    s.json_store.mode = "other".to_string();
    assert!(map_key(&key(KeyCode::Char('q')), &s).is_none());
}

#[test]
fn dispatch_runs_typed_command() {
    let mut s = AppState::new();
    let mws = init_middlewares(false);
    let mut effects = Vec::new();
    for c in [':', 'h', 'e', 'l', 'p'] {
        assert!(check_state(&s));
        let r = dispatch(&mut s, Action::Keyboard(key(KeyCode::Char(c))), &mws, &mut effects);
        assert!(matches!(r, DispatchResult::Continue(_)));
    }
    assert_eq!(s.json_store.mode, "command");
    assert_eq!(s.json_store.command, ":help");
    let r = dispatch(&mut s, Action::Keyboard(key(KeyCode::Enter)), &mws, &mut effects);
    assert!(matches!(r, DispatchResult::Continue(_)));
    assert_eq!(s.json_store.command, ":");
    assert_eq!(effects.len(), 7);
    assert!(matches!(&effects[6], Effect::Send(Action::SetMode(m)) if m == "normal"));
}

#[test]
fn dispatch_quit_command_ends() {
    let mut s = AppState::new();
    let mws = init_middlewares(false);
    let mut effects = Vec::new();
    for c in [':', 'q'] {
        dispatch(&mut s, Action::Keyboard(key(KeyCode::Char(c))), &mws, &mut effects);
    }
    let r = dispatch(&mut s, Action::Keyboard(key(KeyCode::Enter)), &mws, &mut effects);
    assert!(matches!(r, DispatchResult::Quit));
    let r = dispatch(&mut s, Action::Quit, &mws, &mut effects);
    assert!(matches!(r, DispatchResult::Quit));
}

#[test]
fn dispatch_send_asks_api_with_client() {
    let mut s = AppState::new();
    s.json_store.mode = "insert".to_string();
    reduce(&mut s, &Action::WorkflowsLoaded(vec![chat_workflow("wf", "Alpha")]));
    s.input.text = "hello".to_string();
    let mws = init_middlewares(true);
    let mut effects = Vec::new();
    dispatch(&mut s, Action::Keyboard(key(KeyCode::Enter)), &mws, &mut effects);
    assert_eq!(s.messages.len(), 1);
    assert!(s.json_store.nodes_running);
    assert!(effects.iter().any(|e| matches!(e, Effect::SendChat(_))));
}

#[test]
fn model_name_follows_llm_edge() {
    let w = chat_workflow("a", "Alpha");
    assert!(w.has_trigger_chat());
    assert_eq!(w.model_name().as_deref(), Some("gpt-4o"));
    let plain = WorkflowDetail { slug: "p".into(), name: "P".into(), nodes: vec![], edges: vec![] };
    assert!(!plain.has_trigger_chat());
    assert!(plain.model_name().is_none());
}
