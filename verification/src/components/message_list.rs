//! Laying out the conversation: message text wrapped to the width of the
//! screen, the height of each message, and the window of lines that the
//! scroll position shows.
use vstd::prelude::*;
use unicode_width::{UnicodeWidthChar, UnicodeWidthStr};
use crate::text::{byte_len, chars_of, string_from_range, concat, str_eq, decimal, decimal_string, push_char};
use crate::types::opt_str_view;
use crate::reducers::chat::char_to_byte_pos;
use crate::components::spans::{Tone, StyledSpan, SpanLook, look, line_look, lines_look, styled, styled_owned};
use crate::structs::{ChatMessage, MessageView, AppState, StateView, StoreView};
use crate::util::seq_view;

verus! {

// ---------------------------------------------------------------- widths

/// The display width that `unicode-width` gives a character.
pub uninterp spec fn char_display_width(c: char) -> Option<usize>;

/// The display width that `unicode-width` gives a string.
pub uninterp spec fn str_display_width(s: Seq<char>) -> usize;

/// `UnicodeWidthChar::width`. Its table lookup is named, not restated; the
/// contract also gives what its first branches decide: printable ASCII is
/// one column wide, C0 and C1 control characters have no width, and every
/// character from U+00A0 on has one.
#[verifier::external_body]
fn char_width(c: char) -> (r: Option<usize>)
    ensures
        r == char_display_width(c),
        0x20 <= (c as u32) < 0x7F ==> r == Some(1usize),
        ((c as u32) < 0x20 || 0x7F <= (c as u32) < 0xA0) ==> r is None,
        0xA0 <= (c as u32) ==> r is Some,
{
    UnicodeWidthChar::width(c)
}

/// `UnicodeWidthStr::width`. Its rules (emoji sequences, ligatures) are
/// named, not restated; the contract also gives that a string of printable
/// ASCII is as wide as it is long.
#[verifier::external_body]
pub(crate) fn str_width(s: &str) -> (r: usize)
    ensures
        r == str_display_width(s@),
        (forall|i: int| 0 <= i < s@.len() ==> 0x20 <= (#[trigger] s@[i] as u32) < 0x7F) ==> r
            == s@.len(),
{
    UnicodeWidthStr::width(s)
}

/// The columns a character takes, a control character none.
pub open spec fn col_width(c: char) -> int {
    match char_display_width(c) {
        Some(w) => w as int,
        None => 0,
    }
}

/// How many leading characters of `s` fit in `max` columns, counting up to
/// the first that would overflow.
pub open spec fn fit_count(s: Seq<char>, max: int) -> nat
    decreases s.len(),
{
    if s.len() == 0 {
        0
    } else if col_width(s[0]) > max {
        0
    } else {
        1 + fit_count(s.drop_first(), max - col_width(s[0]))
    }
}

pub proof fn lemma_fit_count_le(s: Seq<char>, max: int)
    ensures
        fit_count(s, max) <= s.len(),
    decreases s.len(),
{
    if s.len() > 0 {
        lemma_fit_count_le(s.drop_first(), max - col_width(s[0]));
    }
}

/// How many characters of `v[from..to]` fit in `max_cols` columns.
fn fit_chars(v: &Vec<char>, from: usize, to: usize, max_cols: usize) -> (k: usize)
    requires
        from <= to <= v@.len(),
    ensures
        k == fit_count(v@.subrange(from as int, to as int), max_cols as int),
        k <= to - from,
{
    let ghost s = v@.subrange(from as int, to as int);
    let mut cols: usize = 0;
    let mut i: usize = from;
    while i < to
        invariant
            from <= i <= to <= v@.len(),
            s == v@.subrange(from as int, to as int),
            cols <= max_cols,
            fit_count(s, max_cols as int) == (i - from) + fit_count(
                v@.subrange(i as int, to as int),
                max_cols - cols,
            ),
        decreases to - i,
    {
        let ghost rest = v@.subrange(i as int, to as int);
        assert(rest[0] == v@[i as int]);
        assert(rest.drop_first() =~= v@.subrange(i as int + 1, to as int));
        let w = match char_width(v[i]) {
            Some(w) => w,
            None => 0,
        };
        if w > max_cols - cols {
            return i - from;
        }
        cols = cols + w;
        i = i + 1;
    }
    i - from
}

/// The byte offset in `s` up to which its characters fit in `max_cols`
/// columns.
pub fn byte_offset_for_cols(s: &str, max_cols: usize) -> (r: usize)
    ensures
        r == byte_len(s@.take(fit_count(s@, max_cols as int) as int)),
{
    let v = chars_of(s);
    assert(v@.subrange(0, v@.len() as int) =~= s@);
    let k = fit_chars(&v, 0, v.len(), max_cols);
    char_to_byte_pos(s, k)
}

// ---------------------------------------------------------------- wrapping

/// Index of the last space of `s` (`str::rfind(' ')`).
pub open spec fn last_space(s: Seq<char>) -> Option<int>
    decreases s.len(),
{
    if s.len() == 0 {
        None
    } else if s.last() == ' ' {
        Some(s.len() - 1)
    } else {
        last_space(s.drop_last())
    }
}

pub proof fn lemma_last_space(s: Seq<char>)
    ensures
        last_space(s) matches Some(p) ==> 0 <= p < s.len() && s[p] == ' ',
        last_space(s) is None ==> forall|i: int| 0 <= i < s.len() ==> s[i] != ' ',
    decreases s.len(),
{
    if s.len() > 0 && s.last() != ' ' {
        lemma_last_space(s.drop_last());
        assert forall|i: int| 0 <= i < s.len() - 1 implies s[i] == s.drop_last()[i] by {}
    }
}

/// Where a line too wide for `max` columns is cut: after the last space
/// among the characters that fit, else after those characters, and after
/// the first character where not even that one fits.
pub open spec fn split_point(line: Seq<char>, max: int) -> int {
    let f = fit_count(line, max) as int;
    let s = match last_space(line.take(f)) {
        Some(p) => p + 1,
        None => f,
    };
    if s == 0 {
        1
    } else {
        s
    }
}

pub proof fn lemma_split_point(line: Seq<char>, max: int)
    requires
        line.len() > 0,
    ensures
        1 <= split_point(line, max) <= line.len(),
{
    lemma_fit_count_le(line, max);
    lemma_last_space(line.take(fit_count(line, max) as int));
}

/// The pieces a line is wrapped into at `max` columns.
pub open spec fn wrap_pieces(line: Seq<char>, max: int) -> Seq<Seq<char>>
    decreases line.len(),
{
    if line.len() == 0 {
        Seq::empty()
    } else if str_display_width(line) <= max {
        seq![line]
    } else {
        proof {
            lemma_split_point(line, max);
        }
        seq![line.take(split_point(line, max))] + wrap_pieces(line.skip(split_point(line, max)), max)
    }
}

/// The pieces of `v[lo..hi]`, a line without its line break.
fn wrap_line(v: &Vec<char>, lo: usize, hi: usize, max_width: usize, out: &mut Vec<String>)
    requires
        lo < hi <= v@.len(),
    ensures
        final(out)@.map_values(|s: String| s@) == old(out)@.map_values(|s: String| s@) + wrap_pieces(
            v@.subrange(lo as int, hi as int),
            max_width as int,
        ),
        final(out)@.len() <= old(out)@.len() + (hi - lo),
{
    let ghost line = v@.subrange(lo as int, hi as int);
    let ghost base = out@.map_values(|s: String| s@);
    let ghost base_len = out@.len();
    let mut pos: usize = lo;
    while pos < hi
        invariant_except_break
            lo <= pos <= hi <= v@.len(),
            line == v@.subrange(lo as int, hi as int),
            base + wrap_pieces(line, max_width as int) == out@.map_values(|s: String| s@)
                + wrap_pieces(v@.subrange(pos as int, hi as int), max_width as int),
            out@.len() <= base_len + (pos - lo),
        ensures
            out@.map_values(|s: String| s@) == base + wrap_pieces(line, max_width as int),
            out@.len() <= base_len + (hi - lo),
        decreases hi - pos,
    {
        let ghost rem = v@.subrange(pos as int, hi as int);
        let ghost before = out@.map_values(|s: String| s@);
        let rest = string_from_range(v, pos, hi);
        if str_width(rest.as_str()) <= max_width {
            out.push(rest);
            assert(out@.map_values(|s: String| s@) =~= before.push(rem));
            assert(wrap_pieces(rem, max_width as int) == seq![rem]);
            assert(before + seq![rem] =~= before.push(rem));
            break;
        }
        let f = fit_chars(v, pos, hi, max_width);
        let mut j: usize = pos + f;
        let mut split: usize = f;
        proof {
            lemma_last_space(rem.take(f as int));
        }
        while j > pos
            invariant_except_break
                split == f,
            invariant
                pos <= j <= pos + f <= hi <= v@.len(),
                rem == v@.subrange(pos as int, hi as int),
                f == fit_count(rem, max_width as int),
                last_space(rem.take(f as int)) == last_space(rem.take(j - pos)),
            ensures
                (split == f && j == pos) || (pos < j && split == j - pos && v@[j - 1] == ' '),
                last_space(rem.take(f as int)) == last_space(rem.take(j - pos)),
            decreases j - pos,
        {
            let ghost t = rem.take(j - pos);
            assert(t.last() == v@[j - 1]);
            assert(t.drop_last() =~= rem.take(j - pos - 1));
            if v[j - 1] == ' ' {
                split = j - pos;
                break;
            }
            j = j - 1;
        }
        proof {
            if split == f && j == pos {
                assert(rem.take(0).len() == 0);
            } else {
                assert(rem.take(j - pos).last() == v@[j - 1]);
            }
        }
        if split == 0 {
            split = 1;
        }
        assert(split == split_point(rem, max_width as int));
        let piece = string_from_range(v, pos, pos + split);
        out.push(piece);
        proof {
            assert(rem.take(split as int) =~= v@.subrange(pos as int, pos + split));
            assert(rem.skip(split as int) =~= v@.subrange(pos + split, hi as int));
            assert(out@.map_values(|s: String| s@) =~= before.push(rem.take(split as int)));
            assert(wrap_pieces(rem, max_width as int) == seq![rem.take(split as int)] + wrap_pieces(
                rem.skip(split as int),
                max_width as int,
            ));
            assert(before.push(rem.take(split as int)) + wrap_pieces(rem.skip(split as int), max_width as int)
                =~= before + wrap_pieces(rem, max_width as int));
        }
        pos = pos + split;
    }
}

/// The columns of `s` counted character by character.
pub open spec fn sum_cols(s: Seq<char>) -> int
    decreases s.len(),
{
    if s.len() == 0 {
        0
    } else {
        col_width(s[0]) + sum_cols(s.drop_first())
    }
}

/// The characters that `fit_count` lets through fit.
proof fn lemma_fit_prefix(s: Seq<char>, max: int, k: int)
    requires
        max >= 0,
        0 <= k <= fit_count(s, max),
    ensures
        sum_cols(s.take(k)) <= max,
    decreases k,
{
    lemma_fit_count_le(s, max);
    if k > 0 {
        let w = col_width(s[0]);
        assert(w >= 0);
        lemma_fit_prefix(s.drop_first(), max - w, k - 1);
        assert(s.take(k)[0] == s[0]);
        assert(s.take(k).drop_first() =~= s.drop_first().take(k - 1));
    }
}

/// Wrapping a line loses nothing and cuts only where it must: the pieces
/// put back together are the line, none is empty, and each piece fits the
/// width as a whole, or counted character by character, or is a single
/// character.
pub proof fn lemma_wrap_pieces(line: Seq<char>, max: int)
    requires
        max >= 0,
    ensures
        wrap_pieces(line, max).flatten() == line,
        forall|i: int| 0 <= i < wrap_pieces(line, max).len() ==> (#[trigger] wrap_pieces(line, max)[i]).len() > 0,
        forall|i: int|
            0 <= i < wrap_pieces(line, max).len() ==> str_display_width(#[trigger] wrap_pieces(line, max)[i]) <= max
                || wrap_pieces(line, max)[i].len() == 1 || sum_cols(wrap_pieces(line, max)[i]) <= max,
    decreases line.len(),
{
    let ps = wrap_pieces(line, max);
    if line.len() == 0 {
    } else if str_display_width(line) <= max {
        assert(ps == seq![line]);
        assert(ps.drop_first() =~= Seq::<Seq<char>>::empty());
        assert(ps.drop_first().flatten() == Seq::<char>::empty());
        assert(ps.flatten() == line + Seq::<char>::empty());
        assert(line + Seq::<char>::empty() =~= line);
    } else {
        lemma_split_point(line, max);
        let k = split_point(line, max);
        let head = line.take(k);
        let rest = wrap_pieces(line.skip(k), max);
        lemma_wrap_pieces(line.skip(k), max);
        assert(ps == seq![head] + rest);
        assert(ps.first() == head);
        assert(ps.drop_first() =~= rest);
        assert(head + line.skip(k) =~= line);
        assert forall|i: int| 0 < i < ps.len() implies ps[i] == rest[i - 1] by {}
        let f = fit_count(line, max) as int;
        lemma_fit_count_le(line, max);
        lemma_last_space(line.take(f));
        if k != 1 {
            assert(k <= f);
            lemma_fit_prefix(line, max, k);
        }
    }
}

// ---------------------------------------------------------------- lines

/// Index of the first `c` in `s`.
pub open spec fn index_of_char(s: Seq<char>, c: char) -> Option<int>
    decreases s.len(),
{
    if s.len() == 0 {
        None
    } else if s[0] == c {
        Some(0)
    } else {
        match index_of_char(s.drop_first(), c) {
            Some(i) => Some(i + 1),
            None => None,
        }
    }
}

pub proof fn lemma_index_of_char(s: Seq<char>, c: char)
    ensures
        index_of_char(s, c) matches Some(i) ==> 0 <= i < s.len() && s[i] == c && forall|j: int|
            0 <= j < i ==> s[j] != c,
        index_of_char(s, c) is None ==> forall|j: int| 0 <= j < s.len() ==> s[j] != c,
    decreases s.len(),
{
    if s.len() > 0 && s[0] != c {
        lemma_index_of_char(s.drop_first(), c);
        assert forall|j: int| 0 < j < s.len() implies s[j] == s.drop_first()[j - 1] by {}
    }
}

/// A line without the `\r` of a `\r\n` line break.
pub open spec fn strip_cr(l: Seq<char>) -> Seq<char> {
    if l.len() > 0 && l.last() == '\r' {
        l.drop_last()
    } else {
        l
    }
}

/// The lines of `s` as `str::lines` yields them: split at `\n`, a `\r`
/// before it dropped, and no empty line after a final line break.
pub open spec fn text_lines(s: Seq<char>) -> Seq<Seq<char>>
    decreases s.len(),
{
    if s.len() == 0 {
        Seq::empty()
    } else {
        match index_of_char(s, '\n') {
            Some(j) => {
                proof {
                    lemma_index_of_char(s, '\n');
                }
                seq![strip_cr(s.take(j))] + text_lines(s.skip(j + 1))
            },
            None => seq![s],
        }
    }
}

/// The first `c` in `v[from..]`, as an index into `v`.
pub(crate) fn find_char(v: &Vec<char>, from: usize, c: char) -> (r: Option<usize>)
    requires
        from <= v@.len(),
    ensures
        match index_of_char(v@.skip(from as int), c) {
            Some(i) => r == Some((from + i) as usize),
            None => r is None,
        },
{
    let mut i: usize = from;
    while i < v.len()
        invariant
            from <= i <= v@.len(),
            index_of_char(v@.skip(from as int), c) == match index_of_char(v@.skip(i as int), c) {
                Some(k) => Some(k + (i - from)),
                None => None,
            },
        decreases v@.len() - i,
    {
        assert(v@.skip(i as int)[0] == v@[i as int]);
        if v[i] == c {
            return Some(i);
        }
        assert(v@.skip(i as int).drop_first() =~= v@.skip(i as int + 1));
        i = i + 1;
    }
    assert(v@.skip(i as int).len() == 0);
    None
}

/// The pieces of one line; an empty line stays one empty piece.
pub open spec fn line_pieces(l: Seq<char>, max: int) -> Seq<Seq<char>> {
    if l.len() == 0 {
        seq![Seq::empty()]
    } else {
        wrap_pieces(l, max)
    }
}

/// The pieces of all lines, in order.
pub open spec fn wrap_all(ls: Seq<Seq<char>>, max: int) -> Seq<Seq<char>>
    decreases ls.len(),
{
    if ls.len() == 0 {
        Seq::empty()
    } else {
        line_pieces(ls[0], max) + wrap_all(ls.drop_first(), max)
    }
}

/// `text` wrapped at `max_width` columns: each line cut into pieces that
/// fit, the whole text untouched at width 0, and one empty piece for a
/// text without lines.
pub open spec fn wrapped(text: Seq<char>, max_width: int) -> Seq<Seq<char>> {
    if max_width == 0 {
        seq![text]
    } else {
        let r = wrap_all(text_lines(text), max_width);
        if r.len() == 0 {
            seq![Seq::empty()]
        } else {
            r
        }
    }
}

/// Wraps `text` at `max_width` columns.
pub fn wrap_text(text: &str, max_width: usize) -> (r: Vec<String>)
    ensures
        r@.map_values(|s: String| s@) == wrapped(text@, max_width as int),
        r@.len() <= text@.len() + 1,
{
    if max_width == 0 {
        let mut r: Vec<String> = Vec::new();
        r.push(text.to_string());
        assert(r@.map_values(|s: String| s@) =~= seq![text@]);
        return r;
    }
    let v = chars_of(text);
    let n = v.len();
    let ghost m = max_width as int;
    let mut out: Vec<String> = Vec::new();
    let mut i: usize = 0;
    assert(v@.skip(0) =~= v@);
    assert(out@.map_values(|s: String| s@) =~= Seq::<Seq<char>>::empty());
    while i < n
        invariant
            i <= n,
            n == v@.len(),
            v@ == text@,
            m == max_width as int,
            wrap_all(text_lines(v@), m) == out@.map_values(|s: String| s@) + wrap_all(
                text_lines(v@.skip(i as int)),
                m,
            ),
            out@.len() <= i,
        decreases n - i,
    {
        let ghost s = v@.skip(i as int);
        let ghost before = out@.map_values(|s: String| s@);
        let ghost before_len = out@.len();
        proof {
            lemma_index_of_char(s, '\n');
        }
        match find_char(&v, i, '\n') {
            Some(j) => {
                let ghost k = j - i;
                let hi = if j > i && v[j - 1] == '\r' {
                    j - 1
                } else {
                    j
                };
                let ghost line = strip_cr(s.take(k));
                assert(line =~= v@.subrange(i as int, hi as int));
                if hi > i {
                    wrap_line(&v, i, hi, max_width, &mut out);
                } else {
                    out.push(String::new());
                    assert(out@.map_values(|s: String| s@) =~= before + seq![Seq::<char>::empty()]);
                }
                proof {
                    assert(s.skip(k + 1) =~= v@.skip(j + 1));
                    let rest = text_lines(s.skip(k + 1));
                    assert(text_lines(s) == seq![line] + rest);
                    assert((seq![line] + rest)[0] == line);
                    assert((seq![line] + rest).drop_first() =~= rest);
                    assert(wrap_all(seq![line] + rest, m) == line_pieces(line, m) + wrap_all(rest, m));
                    assert(out@.map_values(|s: String| s@) == before + line_pieces(line, m));
                    assert(before + (line_pieces(line, m) + wrap_all(rest, m)) =~= (before + line_pieces(
                        line,
                        m,
                    )) + wrap_all(rest, m));
                }
                i = j + 1;
            },
            None => {
                wrap_line(&v, i, n, max_width, &mut out);
                proof {
                    assert(s =~= v@.subrange(i as int, n as int));
                    assert(text_lines(s) == seq![s]);
                    assert(seq![s].drop_first() =~= Seq::<Seq<char>>::empty());
                    assert(wrap_all(seq![s], m) == line_pieces(s, m) + wrap_all(Seq::empty(), m));
                    assert(line_pieces(s, m) + wrap_all(Seq::<Seq<char>>::empty(), m) =~= line_pieces(s, m));
                    assert(v@.skip(n as int).len() == 0);
                }
                i = n;
            },
        }
    }
    proof {
        assert(v@.skip(n as int).len() == 0);
        assert(out@.map_values(|s: String| s@) + wrap_all(text_lines(v@.skip(n as int)), m) =~= out@.map_values(
            |s: String| s@,
        ));
    }
    if out.len() == 0 {
        out.push(String::new());
        assert(out@.map_values(|s: String| s@) =~= seq![Seq::<char>::empty()]);
    }
    out
}

/// The rows a message takes: a header, its wrapped text at the width less
/// four columns of margin, and a gap.
pub open spec fn message_height(content: Seq<char>, width: int) -> nat {
    wrapped(content, if width >= 4 { width - 4 } else { 0 }).len() + 2
}

/// The rows a message takes.
pub fn calc_height(content: &str, width: usize) -> (r: usize)
    requires
        content@.len() + 3 <= usize::MAX,
    ensures
        r == message_height(content@, width as int),
{
    let usable = if width >= 4 {
        width - 4
    } else {
        0
    };
    let lines = wrap_text(content, usable);
    1 + lines.len() + 1
}

// ---------------------------------------------------------------- messages

/// The left bar of the user's messages.
pub open spec fn user_bar() -> SpanLook {
    look("  \u{2503} "@, Tone::DarkGray)
}

/// The lines of a message of the user: a `you` header, then each wrapped
/// piece behind a bar.
pub open spec fn user_msg_lines(content: Seq<char>, usable: int) -> Seq<Seq<SpanLook>> {
    seq![seq![user_bar(), look("you"@, Tone::DarkGray)]] + wrapped(content, usable).map_values(
        |w: Seq<char>| user_text_line(w),
    )
}

/// A wrapped piece of the user's message.
pub open spec fn user_text_line(w: Seq<char>) -> Seq<SpanLook> {
    seq![user_bar(), look(w, Tone::Plain)]
}

/// A wrapped piece of an agent's message.
pub open spec fn agent_text_line(w: Seq<char>) -> Seq<SpanLook> {
    seq![look("  "@ + w, Tone::Plain)]
}

/// The header of an agent's message: `agent`, and the model where there is one.
pub open spec fn agent_header(model: Seq<char>) -> Seq<SpanLook> {
    if model.len() == 0 {
        seq![look("  \u{25A3} agent"@, Tone::DarkGray)]
    } else {
        seq![look("  \u{25A3} agent"@, Tone::DarkGray), look(" \u{00B7} "@ + model, Tone::DarkGray)]
    }
}

/// The lines of an agent's message: the header, then each wrapped piece
/// indented by two spaces.
pub open spec fn agent_msg_lines(content: Seq<char>, model: Seq<char>, usable: int) -> Seq<Seq<SpanLook>> {
    seq![agent_header(model)] + wrapped(content, usable).map_values(|w: Seq<char>| agent_text_line(w))
}

/// The lines of a message of the user.
pub fn build_user_msg(msg: &ChatMessage, usable_width: usize) -> (r: Vec<Vec<StyledSpan>>)
    ensures
        lines_look(r@) == user_msg_lines(msg.content@, usable_width as int),
{
    let mut lines: Vec<Vec<StyledSpan>> = Vec::new();
    let mut head: Vec<StyledSpan> = Vec::new();
    head.push(styled("  \u{2503} ", Tone::DarkGray));
    head.push(styled("you", Tone::DarkGray));
    assert(line_look(head@) =~= seq![user_bar(), look("you"@, Tone::DarkGray)]);
    lines.push(head);
    let pieces = wrap_text(msg.content.as_str(), usable_width);
    let ghost pv = pieces@.map_values(|s: String| s@);
    let mut i: usize = 0;
    while i < pieces.len()
        invariant
            i <= pieces@.len(),
            pv == pieces@.map_values(|s: String| s@),
            lines_look(lines@) == seq![seq![user_bar(), look("you"@, Tone::DarkGray)]] + pv.take(i as int).map_values(|w: Seq<char>| user_text_line(w)),
        decreases pieces@.len() - i,
    {
        let mut l: Vec<StyledSpan> = Vec::new();
        l.push(styled("  \u{2503} ", Tone::DarkGray));
        let piece = pieces[i].clone();
        assert(piece@ == pv[i as int]);
        l.push(styled_owned(piece, Tone::Plain));
        assert(line_look(l@) =~~= seq![user_bar(), look(pv[i as int], Tone::Plain)]);
        let ghost before = lines_look(lines@);
        lines.push(l);
        assert(lines_look(lines@) =~= before.push(user_text_line(pv[i as int])));
        assert(pv.take(i as int + 1).map_values(|w: Seq<char>| user_text_line(w)) =~= pv.take(i as int).map_values(|w: Seq<char>| user_text_line(w)).push(user_text_line(pv[i as int])));
        i = i + 1;
    }
    assert(pv.take(i as int) =~= pv);
    lines
}

/// The lines of an agent's message.
pub fn build_agent_msg(msg: &ChatMessage, model: &str, usable_width: usize) -> (r: Vec<Vec<StyledSpan>>)
    ensures
        lines_look(r@) == agent_msg_lines(msg.content@, model@, usable_width as int),
{
    let mut lines: Vec<Vec<StyledSpan>> = Vec::new();
    let mut meta: Vec<StyledSpan> = Vec::new();
    meta.push(styled("  \u{25A3} agent", Tone::DarkGray));
    if model.unicode_len() > 0 {
        meta.push(styled_owned(concat(" \u{00B7} ", model), Tone::DarkGray));
    }
    assert(line_look(meta@) =~= agent_header(model@));
    lines.push(meta);
    let pieces = wrap_text(msg.content.as_str(), usable_width);
    let ghost pv = pieces@.map_values(|s: String| s@);
    let mut i: usize = 0;
    while i < pieces.len()
        invariant
            i <= pieces@.len(),
            pv == pieces@.map_values(|s: String| s@),
            lines_look(lines@) == seq![agent_header(model@)] + pv.take(i as int).map_values(|w: Seq<char>| agent_text_line(w)),
        decreases pieces@.len() - i,
    {
        let mut l: Vec<StyledSpan> = Vec::new();
        assert(pieces@[i as int]@ == pv[i as int]);
        l.push(styled_owned(concat("  ", pieces[i].as_str()), Tone::Plain));
        assert(line_look(l@) =~~= seq![look("  "@ + pv[i as int], Tone::Plain)]);
        let ghost before = lines_look(lines@);
        lines.push(l);
        assert(lines_look(lines@) =~= before.push(agent_text_line(pv[i as int])));
        assert(pv.take(i as int + 1).map_values(|w: Seq<char>| agent_text_line(w)) =~= pv.take(i as int).map_values(|w: Seq<char>| agent_text_line(w)).push(agent_text_line(pv[i as int])));
        i = i + 1;
    }
    assert(pv.take(i as int) =~= pv);
    lines
}

/// The lines of message `idx`: a blank line before every message but the
/// first, then the message as its author's kind lays it out.
pub open spec fn msg_lines(msgs: Seq<MessageView>, idx: int, model: Seq<char>, usable: int) -> Seq<Seq<SpanLook>> {
    let body = if msgs[idx].role == "user"@ {
        user_msg_lines(msgs[idx].content, usable)
    } else {
        agent_msg_lines(msgs[idx].content, model, usable)
    };
    if idx > 0 {
        seq![Seq::<SpanLook>::empty()] + body
    } else {
        body
    }
}

fn message_lines(msgs: &Vec<ChatMessage>, idx: usize, model: &str, usable_width: usize) -> (r: Vec<Vec<StyledSpan>>)
    requires
        idx < msgs@.len(),
    ensures
        lines_look(r@) == msg_lines(seq_view(msgs@), idx as int, model@, usable_width as int),
{
    let msg = &msgs[idx];
    let mut body = if str_eq(msg.role.as_str(), "user") {
        build_user_msg(msg, usable_width)
    } else {
        build_agent_msg(msg, model, usable_width)
    };
    if idx > 0 {
        let mut r: Vec<Vec<StyledSpan>> = Vec::new();
        r.push(Vec::new());
        let ghost bv = lines_look(body@);
        r.append(&mut body);
        assert(lines_look(r@) =~~= seq![Seq::<SpanLook>::empty()] + bv);
        r
    } else {
        body
    }
}

// ---------------------------------------------------------------- scrolling

/// The rows of the first `i` messages.
pub open spec fn sum_to(hs: Seq<usize>, i: int) -> int
    decreases i,
{
    if i <= 0 {
        0
    } else {
        sum_to(hs, i - 1) + hs[i - 1]
    }
}

/// The rows of all messages.
pub open spec fn total_height(hs: Seq<usize>) -> int {
    sum_to(hs, hs.len() as int)
}

pub proof fn lemma_sum_to_mono(hs: Seq<usize>, i: int, j: int)
    requires
        0 <= i <= j <= hs.len(),
    ensures
        0 <= sum_to(hs, i) <= sum_to(hs, j),
    decreases j,
{
    if i < j {
        lemma_sum_to_mono(hs, i, j - 1);
    } else if i > 0 {
        lemma_sum_to_mono(hs, i - 1, i - 1);
    }
}

pub open spec fn sat_sub(a: int, b: int) -> int {
    if a > b {
        a - b
    } else {
        0
    }
}

/// The furthest the view can scroll.
pub open spec fn scroll_max(hs: Seq<usize>, view: int) -> int {
    sat_sub(total_height(hs), view)
}

/// Where the view starts: at the bottom while it sticks there, else where
/// it was, held within the conversation.
pub open spec fn window_offset(hs: Seq<usize>, view: int, sticky: bool, scroll: int) -> int {
    if sticky {
        scroll_max(hs, view)
    } else if scroll < scroll_max(hs, view) {
        scroll
    } else {
        scroll_max(hs, view)
    }
}

/// How far down the view is, in percent.
pub open spec fn window_percent(offset: int, max: int) -> int {
    if max == 0 {
        100
    } else {
        offset * 100 / max
    }
}

/// The first message boundary at or below row `offset`, from boundary `i` on.
pub open spec fn reach_from(hs: Seq<usize>, offset: int, i: int) -> int
    decreases hs.len() + 1 - i,
{
    if i >= hs.len() || sum_to(hs, i) >= offset {
        i
    } else {
        reach_from(hs, offset, i + 1)
    }
}

/// The first message the view shows: the one that starts at `offset`, or
/// the one that row `offset` falls in.
pub open spec fn first_visible(hs: Seq<usize>, offset: int) -> int {
    let i = reach_from(hs, offset, 0);
    if sum_to(hs, i) == offset {
        if i < sat_sub(hs.len() as int, 1) {
            i
        } else {
            sat_sub(hs.len() as int, 1)
        }
    } else {
        sat_sub(i, 1)
    }
}

/// Where the view stands.
pub struct ScrollWindow {
    pub offset: usize,
    pub percent: usize,
    pub first: usize,
}

/// Places the view over messages of heights `heights`.
pub fn scroll_window(heights: &Vec<usize>, view_height: usize, sticky_bottom: bool, scroll_offset: usize) -> (w: ScrollWindow)
    requires
        total_height(heights@) <= usize::MAX,
        window_offset(heights@, view_height as int, sticky_bottom, scroll_offset as int) * 100 <= usize::MAX,
    ensures
        w.offset == window_offset(heights@, view_height as int, sticky_bottom, scroll_offset as int),
        w.percent == window_percent(w.offset as int, scroll_max(heights@, view_height as int)),
        w.first == first_visible(heights@, w.offset as int),
        w.first <= heights@.len(),
{
    let ghost hs = heights@;
    let n = heights.len();
    let mut total: usize = 0;
    let mut i: usize = 0;
    while i < n
        invariant
            n == hs.len(),
            hs == heights@,
            i <= n,
            total == sum_to(hs, i as int),
            total_height(hs) <= usize::MAX,
        decreases n - i,
    {
        proof {
            lemma_sum_to_mono(hs, i as int + 1, n as int);
        }
        total = total + heights[i];
        i = i + 1;
    }
    let max_scroll = if total > view_height {
        total - view_height
    } else {
        0
    };
    let offset = if sticky_bottom {
        max_scroll
    } else if scroll_offset < max_scroll {
        scroll_offset
    } else {
        max_scroll
    };
    let percent = if max_scroll == 0 {
        100
    } else {
        (offset * 100) / max_scroll
    };
    let mut j: usize = 0;
    let mut acc: usize = 0;
    while j < n && acc < offset
        invariant
            n == hs.len(),
            hs == heights@,
            j <= n,
            acc == sum_to(hs, j as int),
            total == total_height(hs),
            offset <= total,
            reach_from(hs, offset as int, 0) == reach_from(hs, offset as int, j as int),
        decreases n - j,
    {
        proof {
            lemma_sum_to_mono(hs, j as int + 1, n as int);
        }
        acc = acc + heights[j];
        j = j + 1;
    }
    let last = if n > 0 {
        n - 1
    } else {
        0
    };
    let first = if acc == offset {
        if j < last {
            j
        } else {
            last
        }
    } else if j > 0 {
        j - 1
    } else {
        0
    };
    ScrollWindow { offset, percent, first }
}

/// The lines of `ml` that the view shows: from row `skip_top` on, at most
/// `count` of them.
pub open spec fn slice_window(ml: Seq<Seq<SpanLook>>, skip_top: int, count: int) -> Seq<Seq<SpanLook>> {
    if skip_top >= ml.len() {
        Seq::empty()
    } else if count >= ml.len() - skip_top {
        ml.skip(skip_top)
    } else {
        ml.subrange(skip_top, skip_top + count)
    }
}

/// The lines shown of the messages from `idx` on, message `idx` starting
/// at row `start`, while messages start above the bottom of the view.
pub open spec fn window_lines(
    msgs: Seq<MessageView>,
    hs: Seq<usize>,
    idx: int,
    start: int,
    offset: int,
    view: int,
    model: Seq<char>,
    usable: int,
) -> Seq<Seq<SpanLook>>
    decreases msgs.len() - idx,
{
    if idx < 0 || idx >= msgs.len() || start >= offset + view {
        Seq::empty()
    } else {
        let ml = msg_lines(msgs, idx, model, usable);
        let skip_top = sat_sub(offset, start);
        let take = if sat_sub(offset + view, start) < ml.len() {
            sat_sub(offset + view, start)
        } else {
            ml.len() as int
        };
        slice_window(ml, skip_top, sat_sub(take, skip_top)) + window_lines(
            msgs,
            hs,
            idx + 1,
            start + hs[idx],
            offset,
            view,
            model,
            usable,
        )
    }
}

/// The screen lines of the conversation, at most `view` of them.
pub open spec fn shown_lines(
    msgs: Seq<MessageView>,
    hs: Seq<usize>,
    first: int,
    offset: int,
    view: int,
    model: Seq<char>,
    usable: int,
) -> Seq<Seq<SpanLook>> {
    let all = window_lines(msgs, hs, first, sum_to(hs, first), offset, view, model, usable);
    if all.len() <= view {
        all
    } else {
        all.take(view)
    }
}

/// The screen lines of the conversation from message `first` on.
pub fn visible_lines(
    msgs: &Vec<ChatMessage>,
    heights: &Vec<usize>,
    first: usize,
    offset: usize,
    view_height: usize,
    model: &str,
    usable_width: usize,
) -> (r: Vec<Vec<StyledSpan>>)
    requires
        heights@.len() == msgs@.len(),
        first <= msgs@.len(),
        total_height(heights@) <= usize::MAX,
        offset + view_height <= usize::MAX,
    ensures
        lines_look(r@) == shown_lines(
            seq_view(msgs@),
            heights@,
            first as int,
            offset as int,
            view_height as int,
            model@,
            usable_width as int,
        ),
{
    let ghost ms = seq_view(msgs@);
    let ghost hs = heights@;
    let n = msgs.len();
    let mut start: usize = 0;
    let mut k: usize = 0;
    while k < first
        invariant
            k <= first <= n,
            n == msgs@.len(),
            hs == heights@,
            hs.len() == n,
            start == sum_to(hs, k as int),
            total_height(hs) <= usize::MAX,
        decreases first - k,
    {
        proof {
            lemma_sum_to_mono(hs, k as int + 1, n as int);
        }
        start = start + heights[k];
        k = k + 1;
    }
    let ghost all = window_lines(ms, hs, first as int, start as int, offset as int, view_height as int, model@, usable_width as int);
    let bottom = offset + view_height;
    let mut out: Vec<Vec<StyledSpan>> = Vec::new();
    let mut idx: usize = first;
    assert(lines_look(out@) =~= Seq::<Seq<SpanLook>>::empty());
    assert(all =~= lines_look(out@) + all);
    while idx < n
        invariant_except_break
            lines_look(out@) + window_lines(ms, hs, idx as int, start as int, offset as int, view_height as int, model@, usable_width as int) == all,
        invariant
            first <= idx <= n,
            n == msgs@.len(),
            ms == seq_view(msgs@),
            hs == heights@,
            hs.len() == n,
            start == sum_to(hs, idx as int),
            total_height(hs) <= usize::MAX,
            bottom == offset + view_height,
        ensures
            lines_look(out@) == all,
        decreases n - idx,
    {
        if start >= bottom {
            assert(lines_look(out@) + Seq::<Seq<SpanLook>>::empty() =~= lines_look(out@));
            break;
        }
        let mut ml = message_lines(msgs, idx, model, usable_width);
        let ghost mlv = lines_look(ml@);
        let skip_top = if offset > start {
            offset - start
        } else {
            0
        };
        let remaining_view = bottom - start;
        let take = if remaining_view < ml.len() {
            remaining_view
        } else {
            ml.len()
        };
        let count = if take > skip_top {
            take - skip_top
        } else {
            0
        };
        let ghost before = lines_look(out@);
        if skip_top < ml.len() {
            let mut tail = ml.split_off(skip_top);
            tail.truncate(count);
            out.append(&mut tail);
            proof {
                if count >= mlv.len() - skip_top {
                    assert(lines_look(out@) =~= before + mlv.skip(skip_top as int));
                } else {
                    assert(lines_look(out@) =~= before + mlv.subrange(skip_top as int, skip_top + count));
                }
            }
        } else {
            assert(lines_look(out@) =~= before + Seq::<Seq<SpanLook>>::empty());
        }
        proof {
            lemma_sum_to_mono(hs, idx as int + 1, n as int);
            let rest = window_lines(ms, hs, idx as int + 1, start + hs[idx as int], offset as int, view_height as int, model@, usable_width as int);
            let piece = slice_window(mlv, skip_top as int, count as int);
            assert(lines_look(out@) == before + piece);
            assert(before + (piece + rest) =~= (before + piece) + rest);
        }
        start = start + heights[idx];
        idx = idx + 1;
    }
    proof {
        if idx == n {
            assert(lines_look(out@) + Seq::<Seq<SpanLook>>::empty() =~= lines_look(out@));
        }
    }
    let ghost outv = lines_look(out@);
    out.truncate(view_height);
    assert(lines_look(out@) =~= (if outv.len() <= view_height { outv } else { outv.take(view_height as int) }));
    out
}

// ---------------------------------------------------------------- the view

/// What the conversation shows: its lines, and the unread badge.
pub struct MessageListView {
    pub lines: Vec<Vec<StyledSpan>>,
    pub indicator: Option<String>,
}

/// What shows while there are no messages.
pub open spec fn placeholder_lines() -> Seq<Seq<SpanLook>> {
    seq![seq![look("  No messages yet"@, Tone::DarkGray)]]
}

/// The badge counting unread messages.
pub open spec fn unread_badge(n: nat) -> Seq<char> {
    " \u{2193} "@ + decimal(n) + " new "@
}

/// The height of each message at a screen `width` columns wide.
pub open spec fn msg_heights(msgs: Seq<MessageView>, width: int) -> Seq<usize> {
    Seq::new(msgs.len(), |i: int| message_height(msgs[i].content, width) as usize)
}

/// Whether the rows of the conversation, and the percentage of the view,
/// can be counted in a `usize`.
pub open spec fn window_fits(s: StateView, width: int, height: int) -> bool {
    let hs = msg_heights(s.messages, width);
    &&& total_height(hs) <= usize::MAX
    &&& window_offset(hs, height, s.sticky_bottom, s.scroll_offset as int) * 100 <= usize::MAX
}

/// The state once the view has been placed: the scroll position held
/// within the conversation, and its percentage in the store.
pub open spec fn scrolled_state(s: StateView, width: int, height: int) -> StateView {
    let hs = msg_heights(s.messages, width);
    let off = window_offset(hs, height, s.sticky_bottom, s.scroll_offset as int);
    let pct = window_percent(off, scroll_max(hs, height));
    StateView {
        scroll_offset: off as usize,
        json_store: StoreView {
            scroll_indicator: decimal((if pct < 100 { pct } else { 100 }) as nat).push('%'),
            ..s.json_store
        },
        ..s
    }
}

/// The lines the conversation shows on a screen of `width` by `height`.
pub open spec fn conversation_lines(s: StateView, width: int, height: int) -> Seq<Seq<SpanLook>> {
    let hs = msg_heights(s.messages, width);
    let off = window_offset(hs, height, s.sticky_bottom, s.scroll_offset as int);
    shown_lines(
        s.messages,
        hs,
        first_visible(hs, off),
        off,
        height,
        s.json_store.model_name,
        sat_sub(width, 4),
    )
}

/// Lays out the conversation for a screen of `width` by `height`, and
/// keeps the scroll position within it. `None`, with the state untouched,
/// where its rows cannot be counted in a `usize`.
pub fn message_list_view(state: &mut AppState, width: u16, height: u16) -> (r: Option<MessageListView>)
    requires
        forall|i: int| 0 <= i < old(state)@.messages.len() ==> #[trigger] old(state)@.messages[i].content.len() + 3
            <= usize::MAX,
    ensures
        old(state)@.messages.len() == 0 ==> (r matches Some(v) && lines_look(v.lines@) == placeholder_lines()
            && v.indicator is None && final(state)@ == old(state)@),
        old(state)@.messages.len() > 0 && !window_fits(old(state)@, width as int, height as int) ==> r is None
            && final(state)@ == old(state)@,
        old(state)@.messages.len() > 0 && window_fits(old(state)@, width as int, height as int) ==> (r matches Some(
            v,
        ) && final(state)@ == scrolled_state(old(state)@, width as int, height as int) && lines_look(v.lines@)
            == conversation_lines(old(state)@, width as int, height as int) && opt_str_view(v.indicator) == (if old(
            state,
        )@.unread_count > 0 && !old(state)@.sticky_bottom {
            Some(unread_badge(old(state)@.unread_count as nat))
        } else {
            None
        })),
{
    let ghost s0 = state@;
    if state.messages.len() == 0 {
        let mut line: Vec<StyledSpan> = Vec::new();
        line.push(styled("  No messages yet", Tone::DarkGray));
        let mut lines: Vec<Vec<StyledSpan>> = Vec::new();
        lines.push(line);
        assert(lines_look(lines@) =~~= placeholder_lines());
        return Some(MessageListView { lines, indicator: None });
    }
    let w = width as usize;
    let view_height = height as usize;
    let usable_width = if w >= 4 {
        w - 4
    } else {
        0
    };
    let ghost hs = msg_heights(s0.messages, w as int);
    let n = state.messages.len();
    let mut heights: Vec<usize> = Vec::new();
    let mut total: usize = 0;
    let mut i: usize = 0;
    while i < n
        invariant
            n == state.messages@.len(),
            state@ == s0,
            old(state)@ == s0,
            w == width as usize,
            view_height == height as usize,
            hs == msg_heights(s0.messages, w as int),
            i <= n,
            heights@ == hs.take(i as int),
            total == sum_to(hs, i as int),
            forall|j: int| 0 <= j < s0.messages.len() ==> #[trigger] s0.messages[j].content.len() + 3 <= usize::MAX,
        decreases n - i,
    {
        assert(s0.messages[i as int] == state.messages@[i as int]@);
        assert(s0.messages[i as int].content.len() + 3 <= usize::MAX);
        let h = calc_height(state.messages[i].content.as_str(), w);
        assert(hs[i as int] == h);
        if h > usize::MAX - total {
            proof {
                lemma_sum_to_mono(hs, i as int + 1, n as int);
                assert(sum_to(hs, i as int + 1) == total + h);
                assert(!window_fits(s0, w as int, view_height as int));
            }
            return None;
        }
        heights.push(h);
        assert(hs.take(i as int + 1) =~= hs.take(i as int).push(h));
        total = total + h;
        i = i + 1;
    }
    assert(hs.take(n as int) =~= hs);
    let max_scroll = if total > view_height {
        total - view_height
    } else {
        0
    };
    let off = if state.sticky_bottom {
        max_scroll
    } else if state.scroll_offset < max_scroll {
        state.scroll_offset
    } else {
        max_scroll
    };
    if off > usize::MAX / 100 {
        return None;
    }
    let win = scroll_window(&heights, view_height, state.sticky_bottom, state.scroll_offset);
    state.scroll_offset = win.offset;
    let pct = if win.percent < 100 {
        win.percent
    } else {
        100
    };
    let mut label = decimal_string(pct);
    push_char(&mut label, '%');
    state.json_store.scroll_indicator = label;
    assert(state@ =~~= scrolled_state(s0, w as int, view_height as int));
    let lines = visible_lines(
        &state.messages,
        &heights,
        win.first,
        win.offset,
        view_height,
        state.json_store.model_name.as_str(),
        usable_width,
    );
    let indicator = if state.unread_count > 0 && !state.sticky_bottom {
        let t = concat(" \u{2193} ", decimal_string(state.unread_count).as_str());
        let t2 = concat(t.as_str(), " new ");
        Some(t2)
    } else {
        None
    };
    Some(MessageListView { lines, indicator })
}

} // verus!

verus! {

/// The view never scrolls past the conversation: its offset is at most
/// the furthest it can scroll, its percentage at most a hundred, and the
/// first message it shows is a message.
pub proof fn lemma_window_in_range(hs: Seq<usize>, view: int, sticky: bool, scroll: int)
    requires
        view >= 0,
        scroll >= 0,
        hs.len() > 0,
    ensures
        0 <= window_offset(hs, view, sticky, scroll) <= scroll_max(hs, view),
        0 <= window_percent(window_offset(hs, view, sticky, scroll), scroll_max(hs, view)) <= 100,
        0 <= first_visible(hs, window_offset(hs, view, sticky, scroll)) < hs.len(),
{
    let off = window_offset(hs, view, sticky, scroll);
    let m = scroll_max(hs, view);
    if m > 0 {
        assert(off * 100 / m <= 100) by (nonlinear_arith)
            requires
                0 <= off <= m,
                m > 0,
        ;
        assert(off * 100 / m >= 0) by (nonlinear_arith)
            requires
                0 <= off <= m,
                m > 0,
        ;
    }
    lemma_reach_from_le(hs, off, 0);
}

proof fn lemma_reach_from_le(hs: Seq<usize>, offset: int, i: int)
    requires
        0 <= i <= hs.len(),
    ensures
        i <= reach_from(hs, offset, i) <= hs.len(),
    decreases hs.len() + 1 - i,
{
    if !(i >= hs.len() || sum_to(hs, i) >= offset) {
        lemma_reach_from_le(hs, offset, i + 1);
    }
}

/// Sticking to the bottom shows the end of the conversation: the view
/// stands at the furthest it can scroll, which reads a hundred percent.
pub proof fn lemma_sticky_shows_bottom(hs: Seq<usize>, view: int, scroll: int)
    requires
        view >= 0,
    ensures
        window_offset(hs, view, true, scroll) == scroll_max(hs, view),
        window_percent(window_offset(hs, view, true, scroll), scroll_max(hs, view)) == 100,
{
    let m = scroll_max(hs, view);
    if m > 0 {
        assert(m * 100 / m == 100) by (nonlinear_arith)
            requires
                m > 0,
        ;
    }
}

} // verus!

verus! {

proof fn lemma_reach_from_first(hs: Seq<usize>, offset: int, i: int)
    requires
        0 <= i <= hs.len(),
        forall|j: int| 0 <= j < i ==> sum_to(hs, j) < offset,
    ensures
        i <= reach_from(hs, offset, i) <= hs.len(),
        reach_from(hs, offset, i) < hs.len() ==> sum_to(hs, reach_from(hs, offset, i)) >= offset,
        forall|j: int| 0 <= j < reach_from(hs, offset, i) ==> sum_to(hs, j) < offset,
    decreases hs.len() + 1 - i,
{
    if !(i >= hs.len() || sum_to(hs, i) >= offset) {
        lemma_reach_from_first(hs, offset, i + 1);
    }
}

/// Messages at least a row high: the first message the view shows is the
/// one that its top row falls in.
pub proof fn lemma_first_visible_holds_top_row(hs: Seq<usize>, offset: int)
    requires
        forall|i: int| 0 <= i < hs.len() ==> #[trigger] hs[i] >= 1,
        0 <= offset < total_height(hs),
    ensures
        0 <= first_visible(hs, offset) < hs.len(),
        sum_to(hs, first_visible(hs, offset)) <= offset < sum_to(hs, first_visible(hs, offset) + 1),
{
    lemma_reach_from_first(hs, offset, 0);
    let r = reach_from(hs, offset, 0);
    if sum_to(hs, r) == offset {
        assert(r < hs.len());
        assert(hs[r] >= 1);
    } else {
        assert(r >= 1);
        assert(sum_to(hs, r - 1) < offset);
        if r < hs.len() {
            assert(sum_to(hs, r) > offset);
        }
    }
}

/// Every message takes at least three rows: a header, a line of text, and
/// a gap.
pub proof fn lemma_message_height_at_least_three(content: Seq<char>, width: int)
    ensures
        message_height(content, width) >= 3,
{
}

} // verus!

verus! {

/// The conversation never shows more lines than the view has rows.
pub proof fn lemma_conversation_fits(s: StateView, width: int, height: int)
    requires
        height >= 0,
    ensures
        conversation_lines(s, width, height).len() <= height,
{
}

} // verus!

verus! {

/// Laying the conversation out a second time, with nothing changed in
/// between, leaves the scroll position and its percentage where the first
/// layout left them and shows the same lines.
pub proof fn lemma_layout_settles(s: StateView, width: int, height: int)
    requires
        window_fits(s, width, height),
    ensures
        window_fits(scrolled_state(s, width, height), width, height),
        scrolled_state(scrolled_state(s, width, height), width, height) == scrolled_state(s, width, height),
        conversation_lines(scrolled_state(s, width, height), width, height) == conversation_lines(s, width, height),
{
    let hs = msg_heights(s.messages, width);
    let off = window_offset(hs, height, s.sticky_bottom, s.scroll_offset as int);
    let t = scrolled_state(s, width, height);
    assert(0 <= off <= usize::MAX) by (nonlinear_arith)
        requires
            off * 100 <= usize::MAX,
            off >= 0,
    ;
    assert(t.messages == s.messages);
    assert(msg_heights(t.messages, width) == hs);
    assert(window_offset(hs, height, t.sticky_bottom, t.scroll_offset as int) == off);
    assert(scrolled_state(t, width, height) =~~= t);
}

} // verus!

verus! {

/// Nothing after the last space of `s` is a space.
pub proof fn lemma_last_space_is_last(s: Seq<char>)
    ensures
        last_space(s) matches Some(p) ==> forall|q: int| p < q < s.len() ==> s[q] != ' ',
    decreases s.len(),
{
    if s.len() > 0 && s.last() != ' ' {
        let d = s.drop_last();
        lemma_last_space_is_last(d);
        lemma_last_space(d);
        if let Some(p) = last_space(d) {
            assert forall|q: int| p < q < s.len() implies s[q] != ' ' by {
                if q < s.len() - 1 {
                    assert(s[q] == d[q]);
                }
            }
        }
    }
}

/// Where a line too wide for `max` columns is cut: the first piece ends
/// right after the last space among the characters that fit, so that no
/// space among them is left to the next piece; where none of them is a
/// space, the piece is all of them (one character where not even one fits).
/// The rest of the line is wrapped in the same way.
pub proof fn lemma_wrap_cuts_after_last_fitting_space(line: Seq<char>, max: int)
    requires
        line.len() > 0,
        str_display_width(line) > max,
    ensures
        ({
            let ps = wrap_pieces(line, max);
            let k = ps[0].len() as int;
            let f = fit_count(line, max) as int;
            &&& ps.len() >= 1
            &&& 1 <= k <= line.len()
            &&& ps[0] == line.take(k)
            &&& ps.drop_first() == wrap_pieces(line.skip(k), max)
            &&& forall|q: int| k <= q < f ==> line[q] != ' '
            &&& (exists|q: int| 0 <= q < f && line[q] == ' ') ==> k <= f && line[k - 1] == ' '
            &&& (forall|q: int| 0 <= q < f ==> line[q] != ' ') ==> k == (if f == 0 {
                1
            } else {
                f
            })
        }),
{
    let ps = wrap_pieces(line, max);
    let f = fit_count(line, max) as int;
    let t = line.take(f);
    lemma_split_point(line, max);
    lemma_fit_count_le(line, max);
    lemma_last_space(t);
    lemma_last_space_is_last(t);
    let k = split_point(line, max);
    assert(ps == seq![line.take(k)] + wrap_pieces(line.skip(k), max));
    assert(ps[0] == line.take(k));
    assert(ps.drop_first() =~= wrap_pieces(line.skip(k), max));
    assert forall|q: int| 0 <= q < f implies t[q] == line[q] by {}
    match last_space(t) {
        Some(p) => {
            assert(k == p + 1);
            assert(t[p] == ' ');
            assert forall|q: int| k <= q < f implies line[q] != ' ' by {
                assert(t[q] != ' ');
            }
        },
        None => {
            assert forall|q: int| 0 <= q < f implies line[q] != ' ' by {
                assert(t[q] != ' ');
            }
        },
    }
}

} // verus!
