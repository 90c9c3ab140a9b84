//! Key bindings: which action a key press stands for in each mode.
use vstd::prelude::*;
use crate::actions::{Action, ActionView, KeyCode, KeyPress};
use crate::structs::{AppState, StateView};
use crate::text::{copy_str, str_eq};

verus! {

pub struct KeyboardMiddleware;

/// Whether `c` is a lowercase hexadecimal digit.
pub open spec fn is_lower_hex(c: char) -> bool {
    ('0' <= c <= '9') || ('a' <= c <= 'f')
}

/// A fresh random identifier, `uuid::Uuid::new_v4()` in its text form:
/// lowercase hex digits in groups of 8, 4, 4, 4 and 12 joined by hyphens,
/// the version digit `4`. Which identifier comes back is left open.
#[verifier::external_body]
fn new_uuid() -> (r: String)
    ensures
        r@.len() == 36,
        forall|i: int| 0 <= i < 36 ==> if i == 8 || i == 13 || i == 18 || i == 23 {
            r@[i] == '-'
        } else {
            is_lower_hex(#[trigger] r@[i])
        },
        r@[14] == '4',
{
    uuid::Uuid::new_v4().to_string()
}

pub open spec fn set_mode(m: Seq<char>) -> Option<ActionView> {
    Some(ActionView::SetMode(m))
}

/// Normal mode. On the first tab `j`, `k` and Enter move through and pick
/// agents; elsewhere `j` and `k` scroll.
pub open spec fn spec_normal_key(key: KeyPress, tab: usize) -> Option<ActionView> {
    match key.code {
        KeyCode::Char(':') => set_mode("command"@),
        KeyCode::Char('i') | KeyCode::Char('a') => set_mode("insert"@),
        KeyCode::Char('q') => Some(ActionView::Quit),
        KeyCode::Char('j') => if tab == 0 {
            Some(ActionView::AgentDown)
        } else {
            Some(ActionView::ScrollDown(1))
        },
        KeyCode::Char('k') => if tab == 0 {
            Some(ActionView::AgentUp)
        } else {
            Some(ActionView::ScrollUp(1))
        },
        KeyCode::Enter => if tab == 0 {
            Some(ActionView::AgentSelect)
        } else {
            None
        },
        KeyCode::Char('G') => Some(ActionView::ScrollToBottom),
        KeyCode::Char('g') => Some(ActionView::ScrollToTop),
        KeyCode::PageUp => Some(ActionView::ScrollUp(15)),
        KeyCode::PageDown => Some(ActionView::ScrollDown(15)),
        KeyCode::Tab => Some(ActionView::TabNext),
        KeyCode::BackTab => Some(ActionView::TabPrev),
        _ => None,
    }
}

/// Command mode; Enter queues the line under the identifier `id`.
pub open spec fn spec_command_key(key: KeyPress, id: Seq<char>) -> Option<ActionView> {
    match key.code {
        KeyCode::Esc => set_mode("normal"@),
        KeyCode::Backspace => Some(ActionView::CommandBarPop(1)),
        KeyCode::Enter => Some(ActionView::CommandBarEnqueueCmd(id)),
        KeyCode::Char(c) => Some(ActionView::CommandBarPush(c)),
        _ => None,
    }
}

/// Insert mode; Control-J breaks the line.
pub open spec fn spec_insert_key(key: KeyPress) -> Option<ActionView> {
    match key.code {
        KeyCode::Esc => set_mode("normal"@),
        KeyCode::Enter => Some(ActionView::InputSend),
        KeyCode::Backspace => Some(ActionView::InputBackspace),
        KeyCode::Char(c) => if c == 'j' && key.control {
            Some(ActionView::InputNewline)
        } else {
            Some(ActionView::InputChar(c))
        },
        _ => None,
    }
}

/// The action for `key` in the current mode; an unknown mode binds no key.
pub open spec fn spec_map_key(key: KeyPress, s: StateView, id: Seq<char>) -> Option<ActionView> {
    let mode = s.json_store.mode;
    if mode == "normal"@ {
        spec_normal_key(key, s.json_store.tabs_selection)
    } else if mode == "command"@ {
        spec_command_key(key, id)
    } else if mode == "insert"@ {
        spec_insert_key(key)
    } else {
        None
    }
}

pub open spec fn opt_action_view(a: Option<Action>) -> Option<ActionView> {
    match a {
        Some(a) => Some(a@),
        None => None,
    }
}

fn mode_action(m: &str) -> (r: Option<Action>)
    ensures
        opt_action_view(r) == set_mode(m@),
{
    Some(Action::SetMode(copy_str(m)))
}

fn normal_key(key: &KeyPress, state: &AppState) -> (r: Option<Action>)
    ensures
        opt_action_view(r) == spec_normal_key(*key, state@.json_store.tabs_selection),
{
    let tab = state.json_store.tabs_selection;
    match key.code {
        KeyCode::Char(':') => mode_action("command"),
        KeyCode::Char('i') | KeyCode::Char('a') => mode_action("insert"),
        KeyCode::Char('q') => Some(Action::Quit),
        KeyCode::Char('j') if tab == 0 => Some(Action::AgentDown),
        KeyCode::Char('k') if tab == 0 => Some(Action::AgentUp),
        KeyCode::Enter if tab == 0 => Some(Action::AgentSelect),
        KeyCode::Char('j') => Some(Action::ScrollDown(1)),
        KeyCode::Char('k') => Some(Action::ScrollUp(1)),
        KeyCode::Char('G') => Some(Action::ScrollToBottom),
        KeyCode::Char('g') => Some(Action::ScrollToTop),
        KeyCode::PageUp => Some(Action::ScrollUp(15)),
        KeyCode::PageDown => Some(Action::ScrollDown(15)),
        KeyCode::Tab => Some(Action::TabNext),
        KeyCode::BackTab => Some(Action::TabPrev),
        _ => None,
    }
}

fn command_key(key: &KeyPress) -> (r: Option<Action>)
    ensures
        exists|id: Seq<char>| #![trigger spec_command_key(*key, id)] id.len() == 36 && opt_action_view(r) == spec_command_key(*key, id),
{
    let r = match key.code {
        KeyCode::Esc => mode_action("normal"),
        KeyCode::Backspace => Some(Action::CommandBarPop(1)),
        KeyCode::Enter => {
            let id = new_uuid();
            let r = Some(Action::CommandBarEnqueueCmd(id));
            assert(opt_action_view(r) == spec_command_key(*key, id@));
            return r;
        },
        KeyCode::Char(c) => Some(Action::CommandBarPush(c)),
        _ => None,
    };
    let ghost id = Seq::new(36, |i: int| '0');
    assert(id.len() == 36);
    assert(opt_action_view(r) == spec_command_key(*key, id));
    r
}

fn insert_key(key: &KeyPress) -> (r: Option<Action>)
    ensures
        opt_action_view(r) == spec_insert_key(*key),
{
    match key.code {
        KeyCode::Esc => mode_action("normal"),
        KeyCode::Enter => Some(Action::InputSend),
        KeyCode::Backspace => Some(Action::InputBackspace),
        KeyCode::Char('j') if key.control => Some(Action::InputNewline),
        KeyCode::Char(c) => Some(Action::InputChar(c)),
        _ => None,
    }
}

/// The action `key` stands for in the state's mode.
pub fn map_key(key: &KeyPress, state: &AppState) -> (r: Option<Action>)
    ensures
        exists|id: Seq<char>| #![trigger spec_map_key(*key, state@, id)] id.len() == 36 && opt_action_view(r) == spec_map_key(*key, state@, id),
{
    let ghost dummy = Seq::new(36, |i: int| '0');
    assert(dummy.len() == 36);
    let mode = state.json_store.mode.as_str();
    if str_eq(mode, "normal") {
        let r = normal_key(key, state);
        assert(opt_action_view(r) == spec_map_key(*key, state@, dummy));
        r
    } else if str_eq(mode, "command") {
        let r = command_key(key);
        let ghost id = choose|id: Seq<char>| #![trigger spec_command_key(*key, id)] id.len() == 36 && opt_action_view(r) == spec_command_key(*key, id);
        assert(opt_action_view(r) == spec_map_key(*key, state@, id));
        r
    } else if str_eq(mode, "insert") {
        let r = insert_key(key);
        assert(opt_action_view(r) == spec_map_key(*key, state@, dummy));
        r
    } else {
        assert(spec_map_key(*key, state@, dummy) is None);
        None
    }
}

/// What the keyboard stage does with an action: key presses become the
/// bound action (or nothing), other actions pass.
pub open spec fn spec_keyboard(s: StateView, a: ActionView, id: Seq<char>) -> Option<ActionView> {
    match a {
        ActionView::Keyboard(k) => spec_map_key(k, s, id),
        _ => Some(a),
    }
}

impl KeyboardMiddleware {
    pub fn process(&self, state: &AppState, action: Action) -> (r: Option<Action>)
        ensures
            exists|id: Seq<char>| #![trigger spec_keyboard(state@, action@, id)] id.len() == 36 && opt_action_view(r) == spec_keyboard(state@, action@, id),
    {
        let ghost av = action@;
        match action {
            Action::Keyboard(key) => {
                let r = map_key(&key, state);
                let ghost id = choose|id: Seq<char>| #![trigger spec_map_key(key, state@, id)] id.len() == 36 && opt_action_view(r) == spec_map_key(key, state@, id);
                assert(opt_action_view(r) == spec_keyboard(state@, av, id));
                r
            },
            other => {
                let ghost dummy = Seq::new(36, |i: int| '0');
                assert(dummy.len() == 36);
                assert(opt_action_view(Some(other)) == spec_keyboard(state@, av, dummy));
                Some(other)
            },
        }
    }
}

} // verus!

verus! {

/// In normal mode away from the first tab, `k` scrolls the conversation up
/// by one row and `j` down by one row: the two keys move the view the same
/// distance in opposite directions, with or without Control.
pub proof fn lemma_j_and_k_scroll_opposite_ways(s: StateView, id: Seq<char>, control: bool)
    requires
        s.json_store.mode == "normal"@,
        s.json_store.tabs_selection != 0,
    ensures
        spec_map_key(KeyPress { code: KeyCode::Char('k'), control }, s, id) == Some(ActionView::ScrollUp(1)),
        spec_map_key(KeyPress { code: KeyCode::Char('j'), control }, s, id) == Some(ActionView::ScrollDown(1)),
{
}

/// On the first tab in normal mode, `k` and `j` move through the agents
/// instead, up and down.
pub proof fn lemma_j_and_k_pick_agents_on_first_tab(s: StateView, id: Seq<char>, control: bool)
    requires
        s.json_store.mode == "normal"@,
        s.json_store.tabs_selection == 0,
    ensures
        spec_map_key(KeyPress { code: KeyCode::Char('k'), control }, s, id) == Some(ActionView::AgentUp),
        spec_map_key(KeyPress { code: KeyCode::Char('j'), control }, s, id) == Some(ActionView::AgentDown),
{
}

} // verus!
