use plit_tui::components::activity_bar::{activity_bar, node_short_name};
use plit_tui::components::height_buffer::HeightBufferHelper;
use plit_tui::components::input_box::input_box;
use plit_tui::components::message_list::{
    byte_offset_for_cols, calc_height, message_list_view, scroll_window, wrap_text,
};
use plit_tui::components::powerline_tab::tab_cells;
use plit_tui::components::spans::{StyledSpan, Tone};
use plit_tui::components::tool_bar::tool_bar;
use plit_tui::structs::{AppState, ChatMessage, ChildTask, NodeActivity, ToolCall};

fn texts(spans: &[StyledSpan]) -> Vec<(String, Tone)> {
    spans.iter().map(|s| (s.text.clone(), s.tone)).collect()
}

fn t(s: &str, tone: Tone) -> (String, Tone) {
    (s.to_string(), tone)
}

#[test]
fn wrap_text_cuts_after_spaces() {
    assert_eq!(wrap_text("hello world", 5), vec!["hello", " ", "world"]);
    assert_eq!(wrap_text("hello world", 9), vec!["hello ", "world"]);
    assert_eq!(wrap_text("hello world", 11), vec!["hello world"]);
}

#[test]
fn wrap_text_keeps_lines_and_blank_lines() {
    assert_eq!(wrap_text("a\n\nb", 10), vec!["a", "", "b"]);
    assert_eq!(wrap_text("x\r\ny\n", 10), vec!["x", "y"]);
    assert_eq!(wrap_text("", 10), vec![""]);
}

#[test]
fn wrap_text_at_width_zero_keeps_text() {
    assert_eq!(wrap_text("a b\nc", 0), vec!["a b\nc"]);
}

#[test]
fn wrap_text_forces_progress_on_wide_char() {
    // A double-width character never fits in one column; it still goes out.
    assert_eq!(wrap_text("\u{4E2D}\u{6587}", 1), vec!["\u{4E2D}", "\u{6587}"]);
}

#[test]
fn wrap_pieces_join_back_to_line() {
    let line = "the quick brown fox jumps over the lazy dog";
    let pieces = wrap_text(line, 7);
    assert!(pieces.iter().all(|p| !p.is_empty()));
    assert_eq!(pieces.concat(), line);
}

#[test]
fn byte_offset_counts_bytes_of_fitting_chars() {
    assert_eq!(byte_offset_for_cols("h\u{E9}llo", 3), 4);
    assert_eq!(byte_offset_for_cols("hello", 10), 5);
    assert_eq!(byte_offset_for_cols("\u{4E2D}x", 1), 0);
}

#[test]
fn calc_height_counts_header_and_gap() {
    assert_eq!(calc_height("hello world", 9), 5);
    assert_eq!(calc_height("hi", 80), 3);
    assert_eq!(calc_height("abc", 3), 3);
}

#[test]
fn scroll_window_sticks_to_bottom() {
    let w = scroll_window(&vec![3, 4, 5], 5, true, 0);
    assert_eq!((w.offset, w.percent, w.first), (7, 100, 2));
}

#[test]
fn scroll_window_holds_offset() {
    let w = scroll_window(&vec![3, 4, 5], 5, false, 4);
    assert_eq!((w.offset, w.percent, w.first), (4, 57, 1));
    let w = scroll_window(&vec![3, 4, 5], 5, false, 100);
    assert_eq!((w.offset, w.percent, w.first), (7, 100, 2));
    let w = scroll_window(&vec![3, 4, 5], 20, false, 3);
    assert_eq!((w.offset, w.percent, w.first), (0, 100, 0));
}

fn chat_state() -> AppState {
    let mut s = AppState::new();
    s.messages.push(ChatMessage { role: "user".to_string(), content: "hello world".to_string() });
    s.messages.push(ChatMessage { role: "assistant".to_string(), content: "hi".to_string() });
    s.json_store.model_name = "gpt".to_string();
    s
}

#[test]
fn message_list_shows_conversation() {
    let mut s = chat_state();
    let v = message_list_view(&mut s, 13, 20).unwrap();
    let lines: Vec<Vec<(String, Tone)>> = v.lines.iter().map(|l| texts(l)).collect();
    assert_eq!(
        lines,
        vec![
            vec![t("  \u{2503} ", Tone::DarkGray), t("you", Tone::DarkGray)],
            vec![t("  \u{2503} ", Tone::DarkGray), t("hello ", Tone::Plain)],
            vec![t("  \u{2503} ", Tone::DarkGray), t("world", Tone::Plain)],
            vec![],
            vec![t("  \u{25A3} agent", Tone::DarkGray), t(" \u{00B7} gpt", Tone::DarkGray)],
            vec![t("  hi", Tone::Plain)],
        ]
    );
    assert!(v.indicator.is_none());
    assert_eq!(s.scroll_offset, 0);
    assert_eq!(s.json_store.scroll_indicator, "100%");
}

#[test]
fn message_list_scrolled_window() {
    let mut s = chat_state();
    s.sticky_bottom = false;
    s.scroll_offset = 2;
    s.unread_count = 2;
    let v = message_list_view(&mut s, 13, 3).unwrap();
    let lines: Vec<Vec<(String, Tone)>> = v.lines.iter().map(|l| texts(l)).collect();
    assert_eq!(
        lines,
        vec![vec![t("  \u{2503} ", Tone::DarkGray), t("world", Tone::Plain)], vec![]]
    );
    assert_eq!(v.indicator.as_deref(), Some(" \u{2193} 2 new "));
    assert_eq!(s.scroll_offset, 2);
    assert_eq!(s.json_store.scroll_indicator, "50%");
}

#[test]
fn message_list_placeholder_when_empty() {
    let mut s = AppState::new();
    let v = message_list_view(&mut s, 40, 10).unwrap();
    assert_eq!(v.lines.len(), 1);
    assert_eq!(texts(&v.lines[0]), vec![t("  No messages yet", Tone::DarkGray)]);
    assert_eq!(s.json_store.scroll_indicator, "");
}

fn activity_state() -> Vec<NodeActivity> {
    vec![
        NodeActivity { node_name: "agent_main".to_string(), status: "running".to_string() },
        NodeActivity { node_name: "tool_x".to_string(), status: "completed".to_string() },
    ]
}

#[test]
fn activity_bar_narrow_shows_icons() {
    assert_eq!(
        texts(&activity_bar(&activity_state(), 50)),
        vec![t("\u{27F3}", Tone::Yellow), t(" \u{2192} ", Tone::DarkGray), t("\u{2713}", Tone::Green)]
    );
}

#[test]
fn activity_bar_middle_shows_short_names() {
    assert_eq!(
        texts(&activity_bar(&activity_state(), 80)),
        vec![
            t("agent ", Tone::White),
            t("\u{27F3}", Tone::Yellow),
            t(" \u{2192} ", Tone::DarkGray),
            t("tool ", Tone::White),
            t("\u{2713}", Tone::Green),
        ]
    );
}

#[test]
fn activity_bar_wide_shows_status_words() {
    let mut acts = activity_state();
    acts.push(NodeActivity { node_name: "n".to_string(), status: "queued".to_string() });
    assert_eq!(
        texts(&activity_bar(&acts, 120)),
        vec![
            t("agent_main ", Tone::White),
            t("\u{27F3}", Tone::Yellow),
            t(" running", Tone::DarkGray),
            t(" \u{2192} ", Tone::DarkGray),
            t("tool_x ", Tone::White),
            t("\u{2713}", Tone::Green),
            t(" \u{2192} ", Tone::DarkGray),
            t("n ", Tone::White),
            t("\u{25CB}", Tone::DarkGray),
            t(" queued", Tone::DarkGray),
        ]
    );
}

#[test]
fn activity_bar_empty() {
    assert_eq!(texts(&activity_bar(&vec![], 80)), vec![t("", Tone::DarkGray)]);
}

#[test]
fn short_names_cut_at_underscore_and_eight() {
    assert_eq!(node_short_name("agent_main"), "agent");
    assert_eq!(node_short_name("verylongnodename"), "verylong");
    assert_eq!(node_short_name("_x"), "");
}

#[test]
fn tool_bar_ready_when_idle() {
    let s = AppState::new();
    let v = tool_bar(&s);
    assert!(v.ready);
    assert_eq!(texts(&v.spans), vec![t("\u{25CF} ", Tone::Green), t("ready ", Tone::DarkGray)]);
}

#[test]
fn tool_bar_while_running() {
    let mut s = AppState::new();
    s.json_store.nodes_running = true;
    s.json_store.spinner_frame = 2;
    s.json_store.agent_name = "Bot".to_string();
    s.tool_calls.push(ToolCall {
        tool_name: "search".to_string(),
        node_id: "n1".to_string(),
        status: "success".to_string(),
    });
    s.child_tasks.push(ChildTask { execution_id: "e1".to_string(), status: "success".to_string() });
    s.child_tasks.push(ChildTask { execution_id: "e2".to_string(), status: "running".to_string() });
    s.message_queue.push("hi".to_string());
    let v = tool_bar(&s);
    assert!(!v.ready);
    assert_eq!(
        texts(&v.spans),
        vec![
            t(" ", Tone::Plain),
            t("\u{2839} Bot ", Tone::Yellow),
            t(" ", Tone::Plain),
            t("search ", Tone::White),
            t("\u{2713}", Tone::Green),
            t(" ", Tone::Plain),
            t("1/2 tasks \u{27F3}", Tone::Yellow),
            t(" ", Tone::Plain),
            t("1 queued", Tone::DarkGray),
        ]
    );
}

#[test]
fn tool_bar_all_tasks_done() {
    let mut s = AppState::new();
    s.child_tasks.push(ChildTask { execution_id: "e1".to_string(), status: "success".to_string() });
    s.tool_calls.push(ToolCall {
        tool_name: "a".to_string(),
        node_id: "1".to_string(),
        status: "weird".to_string(),
    });
    let v = tool_bar(&s);
    assert_eq!(
        texts(&v.spans),
        vec![
            t(" ", Tone::Plain),
            t(" ", Tone::Plain),
            t("a ", Tone::White),
            t("\u{25CB}", Tone::DarkGray),
            t(" ", Tone::Plain),
            t("1/1 tasks \u{2713}", Tone::Green),
        ]
    );
}

fn input_state(text: &str, cursor: usize, mode: &str) -> AppState {
    let mut s = AppState::new();
    s.input.text = text.to_string();
    s.input.cursor = cursor;
    s.json_store.mode = mode.to_string();
    s
}

#[test]
fn input_box_marks_cursor_char() {
    let s = input_state("ab\ncd", 1, "insert");
    let lines: Vec<Vec<(String, Tone)>> = input_box(&s, 10).unwrap().iter().map(|l| texts(l)).collect();
    assert_eq!(
        lines,
        vec![
            vec![],
            vec![
                t("  \u{258E} ", Tone::Gray),
                t("a", Tone::Plain),
                t("b", Tone::Cursor),
                t("", Tone::Plain),
            ],
            vec![t("  \u{258E} ", Tone::Gray), t("cd", Tone::Plain)],
        ]
    );
}

#[test]
fn input_box_cursor_at_line_end() {
    let s = input_state("ab\ncd", 2, "normal");
    let lines: Vec<Vec<(String, Tone)>> = input_box(&s, 10).unwrap().iter().map(|l| texts(l)).collect();
    assert_eq!(
        lines[1],
        vec![
            t("  \u{258E} ", Tone::Gray),
            t("ab", Tone::Plain),
            t("_", Tone::DarkGray),
            t("", Tone::Plain),
        ]
    );
    assert_eq!(lines[2], vec![t("  \u{258E} ", Tone::Gray), t("cd", Tone::Plain)]);
}

#[test]
fn input_box_placeholder_outside_insert() {
    let s = input_state("", 0, "normal");
    let lines: Vec<Vec<(String, Tone)>> = input_box(&s, 10).unwrap().iter().map(|l| texts(l)).collect();
    assert_eq!(
        lines,
        vec![
            vec![],
            vec![t("  \u{258E} ", Tone::DarkGray), t("Type a message...", Tone::DarkGray)],
        ]
    );
}

#[test]
fn input_box_empty_in_insert_mode() {
    let s = input_state("", 0, "insert");
    let lines: Vec<Vec<(String, Tone)>> = input_box(&s, 10).unwrap().iter().map(|l| texts(l)).collect();
    assert_eq!(
        lines,
        vec![
            vec![],
            vec![
                t("  \u{258E} ", Tone::Gray),
                t("", Tone::Plain),
                t("_", Tone::DarkGray),
                t("", Tone::Plain),
            ],
        ]
    );
}

#[test]
fn input_box_keeps_last_lines() {
    let s = input_state("a\nb\nc", 5, "insert");
    let lines: Vec<Vec<(String, Tone)>> = input_box(&s, 2).unwrap().iter().map(|l| texts(l)).collect();
    assert_eq!(
        lines,
        vec![
            vec![t("  \u{258E} ", Tone::Gray), t("b", Tone::Plain)],
            vec![
                t("  \u{258E} ", Tone::Gray),
                t("c", Tone::Plain),
                t("_", Tone::DarkGray),
                t("", Tone::Plain),
            ],
        ]
    );
}

#[test]
fn tab_cells_place_titles() {
    let titles = vec!["Workflows".to_string(), "Chat".to_string()];
    let cells = tab_cells(&titles, 1, 0, 30).unwrap();
    let got: Vec<(u16, String, bool)> =
        cells.iter().map(|c| (c.x, c.text.clone(), c.highlighted)).collect();
    assert_eq!(
        got,
        vec![(0, "  Workflows  ".to_string(), false), (13, "  Chat  ".to_string(), true)]
    );
    let cells = tab_cells(&titles, 0, 0, 15).unwrap();
    assert_eq!(cells.len(), 1);
    assert!(cells[0].highlighted);
}

#[test]
fn tab_cells_overflow_is_none() {
    let titles = vec!["abc".to_string()];
    assert!(tab_cells(&titles, 0, 65530, 65535).is_none());
}

#[test]
fn height_buffer_keeps_last_rows() {
    let h = HeightBufferHelper;
    assert_eq!(h.window_start(10, 3), 7);
    assert_eq!(h.window_start(2, 3), 0);
}

#[test]
fn input_box_refuses_cursor_inside_a_character() {
    // The cursor is read as a byte offset: inside `é`, or on it, it cannot show.
    assert!(input_box(&input_state("\u{E9}a", 1, "insert"), 5).is_none());
    assert!(input_box(&input_state("a\u{E9}", 1, "insert"), 5).is_none());
    assert!(input_box(&input_state("\u{E9}a", 2, "insert"), 5).is_some());
}

#[test]
fn second_layout_changes_nothing() {
    let mut s = chat_state();
    s.sticky_bottom = false;
    s.scroll_offset = 40;
    let first = message_list_view(&mut s, 13, 3).unwrap();
    let (offset, indicator) = (s.scroll_offset, s.json_store.scroll_indicator.clone());
    assert_eq!(offset, 4);
    assert_eq!(indicator, "100%");
    let second = message_list_view(&mut s, 13, 3).unwrap();
    assert_eq!(s.scroll_offset, offset);
    assert_eq!(s.json_store.scroll_indicator, indicator);
    let a: Vec<Vec<(String, Tone)>> = first.lines.iter().map(|l| texts(l)).collect();
    let b: Vec<Vec<(String, Tone)>> = second.lines.iter().map(|l| texts(l)).collect();
    assert_eq!(a, b);
}
