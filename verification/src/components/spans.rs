//! Styled text as the widgets lay it out, before it is drawn.
use vstd::prelude::*;
use crate::text::copy_str;

verus! {

/// How a piece of text is coloured.
#[derive(Clone, Copy, PartialEq, Eq, Debug)]
pub enum Tone {
    /// The terminal's own colours.
    Plain,
    DarkGray,
    Gray,
    White,
    Green,
    Yellow,
    Red,
    /// Black on white: the character under the cursor.
    Cursor,
    /// Yellow on dark gray: the unread-messages badge.
    Alert,
}

/// A run of text in one tone.
pub struct StyledSpan {
    pub text: String,
    pub tone: Tone,
}

pub struct SpanLook {
    pub text: Seq<char>,
    pub tone: Tone,
}

impl View for StyledSpan {
    type V = SpanLook;

    open spec fn view(&self) -> SpanLook {
        SpanLook { text: self.text@, tone: self.tone }
    }
}

pub open spec fn look(text: Seq<char>, tone: Tone) -> SpanLook {
    SpanLook { text, tone }
}

/// A screen line as runs of text.
pub open spec fn line_look(l: Seq<StyledSpan>) -> Seq<SpanLook> {
    l.map_values(|s: StyledSpan| s@)
}

/// Screen lines as runs of text.
pub open spec fn lines_look(ls: Seq<Vec<StyledSpan>>) -> Seq<Seq<SpanLook>> {
    ls.map_values(|l: Vec<StyledSpan>| line_look(l@))
}

/// A run of `text` in `tone`.
pub fn styled(text: &str, tone: Tone) -> (s: StyledSpan)
    ensures
        s@ == look(text@, tone),
{
    StyledSpan { text: copy_str(text), tone }
}

/// A run of `text` in `tone`, taking the string.
pub fn styled_owned(text: String, tone: Tone) -> (s: StyledSpan)
    ensures
        s@ == look(text@, tone),
{
    StyledSpan { text, tone }
}

} // verus!
