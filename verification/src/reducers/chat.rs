//! The chat input line and the message list.
use vstd::prelude::*;
use crate::structs::{AppState, ChatMessage, StateView, InputView, MessageView};
use crate::text::{
    byte_len, lemma_byte_len_push, lemma_byte_len_prefix, lemma_encode_len, chars_of,
    insert_char, remove_char, string_insert_char, string_remove_char, char_count, trimmed, trim,
    copy_str,
};
use crate::util::seq_view;

verus! {

/// The character index the cursor stands at: the cursor, or the end of the
/// text where the cursor lies past it.
pub open spec fn cursor_index(text: Seq<char>, cursor: usize) -> int {
    if cursor < text.len() {
        cursor as int
    } else {
        text.len() as int
    }
}

pub open spec fn spec_input_char(s: StateView, c: char) -> StateView {
    StateView {
        input: InputView {
            text: insert_char(s.input.text, cursor_index(s.input.text, s.input.cursor), c),
            cursor: (s.input.cursor + 1) as usize,
        },
        ..s
    }
}

pub open spec fn spec_input_backspace(s: StateView) -> StateView {
    if s.input.cursor > 0 {
        let k = (s.input.cursor - 1) as usize;
        StateView {
            input: InputView {
                text: if k < s.input.text.len() {
                    remove_char(s.input.text, k as int)
                } else {
                    s.input.text
                },
                cursor: k,
            },
            ..s
        }
    } else {
        s
    }
}

pub open spec fn user_message(text: Seq<char>) -> MessageView {
    MessageView { role: "user"@, content: text }
}

pub open spec fn spec_input_send(s: StateView) -> StateView {
    let text = trimmed(s.input.text);
    StateView {
        messages: if text.len() > 0 {
            s.messages.push(user_message(text))
        } else {
            s.messages
        },
        input: InputView { text: Seq::empty(), cursor: 0 },
        ..s
    }
}

pub open spec fn spec_chat_message_received(s: StateView, role: Seq<char>, content: Seq<char>) -> StateView {
    StateView { messages: s.messages.push(MessageView { role, content }), ..s }
}

/// Byte offset of character `char_pos` of `s`, or the byte length of `s`
/// where `s` has no more than `char_pos` characters.
pub fn char_to_byte_pos(s: &str, char_pos: usize) -> (r: usize)
    ensures
        r == byte_len(s@.take(if char_pos < s@.len() { char_pos as int } else { s@.len() as int })),
{
    let total = s.as_bytes().len();
    proof {
        lemma_encode_len(s@);
    }
    let v = chars_of(s);
    let n = v.len();
    let mut i: usize = 0;
    let mut acc: usize = 0;
    while i < n && i < char_pos
        invariant
            n == v@.len(),
            v@ == s@,
            total == byte_len(s@),
            i <= n,
            i <= char_pos,
            acc == byte_len(v@.take(i as int)),
        decreases n - i,
    {
        proof {
            lemma_byte_len_push(v@.take(i as int), v@[i as int]);
            assert(v@.take(i as int).push(v@[i as int]) =~= v@.take(i as int + 1));
            lemma_byte_len_prefix(v@, i as int + 1);
        }
        let c = v[i];
        let w: usize = if (c as u32) <= 0x7F {
            1
        } else if (c as u32) <= 0x7FF {
            2
        } else if (c as u32) <= 0xFFFF {
            3
        } else {
            4
        };
        acc = acc + w;
        i = i + 1;
    }
    acc
}

/// Inserts `c` at the cursor and moves the cursor past it.
pub fn input_char(state: &mut AppState, c: char)
    requires
        old(state).input.cursor < usize::MAX,
    ensures
        final(state)@ == spec_input_char(old(state)@, c),
{
    let cursor = state.input.cursor;
    let n = char_count(state.input.text.as_str());
    let k = if cursor < n {
        cursor
    } else {
        n
    };
    let t = string_insert_char(&state.input.text, k, c);
    state.input.text = t;
    state.input.cursor = cursor + 1;
    assert(state@ =~= spec_input_char(old(state)@, c));
}

/// Deletes the character before the cursor.
pub fn input_backspace(state: &mut AppState)
    ensures
        final(state)@ == spec_input_backspace(old(state)@),
{
    if state.input.cursor > 0 {
        state.input.cursor = state.input.cursor - 1;
        let k = state.input.cursor;
        let n = char_count(state.input.text.as_str());
        if k < n {
            let t = string_remove_char(&state.input.text, k);
            state.input.text = t;
        }
        assert(state@ =~= spec_input_backspace(old(state)@));
    }
}

/// Inserts a line break at the cursor.
pub fn input_newline(state: &mut AppState)
    requires
        old(state).input.cursor < usize::MAX,
    ensures
        final(state)@ == spec_input_char(old(state)@, '\n'),
{
    input_char(state, '\n');
}

/// Sends the typed text as a user message, where it is not blank, and
/// empties the input.
pub fn input_send(state: &mut AppState)
    ensures
        final(state)@ == spec_input_send(old(state)@),
{
    let text = trim(state.input.text.as_str());
    if char_count(text.as_str()) > 0 {
        let role = copy_str("user");
        let ghost before = seq_view(state.messages@);
        let ghost m = ChatMessage { role, content: text }@;
        state.messages.push(ChatMessage { role, content: text });
        assert(seq_view(state.messages@) =~= before.push(m));
    }
    state.input.text = String::new();
    state.input.cursor = 0;
    assert(state@ =~= spec_input_send(old(state)@));
}

/// Appends a received message.
pub fn chat_message_received(state: &mut AppState, role: &str, content: &str)
    ensures
        final(state)@ == spec_chat_message_received(old(state)@, role@, content@),
{
    let ghost before = seq_view(state.messages@);
    let m = ChatMessage { role: copy_str(role), content: copy_str(content) };
    let ghost mv = m@;
    state.messages.push(m);
    assert(seq_view(state.messages@) =~= before.push(mv));
    assert(state@ =~= spec_chat_message_received(old(state)@, role@, content@));
}

/// Replaces the message list.
pub fn chat_history_loaded(state: &mut AppState, messages: Vec<ChatMessage>)
    ensures
        final(state)@ == (StateView { messages: seq_view(messages@), ..old(state)@ }),
{
    state.messages = messages;
    assert(state@ =~= (StateView { messages: seq_view(messages@), ..old(state)@ }));
}

} // verus!

verus! {

/// Backspace takes back the character just typed: typing `c` and then
/// deleting leaves the input as it was, wherever the cursor stood in the
/// text.
pub proof fn lemma_backspace_undoes_input_char(s: StateView, c: char)
    requires
        s.input.cursor <= s.input.text.len(),
        s.input.cursor < usize::MAX,
    ensures
        spec_input_backspace(spec_input_char(s, c)) == s,
{
    let k = s.input.cursor as int;
    let t = s.input.text;
    let typed = insert_char(t, k, c);
    assert(typed.len() == t.len() + 1);
    assert(remove_char(typed, k) =~= t);
    let s1 = spec_input_char(s, c);
    assert(s1.input.cursor == s.input.cursor + 1);
    assert(s1.input.text == typed);
    assert(spec_input_backspace(s1).input.text == t);
    assert(spec_input_backspace(s1) =~~= s);
}

} // verus!
