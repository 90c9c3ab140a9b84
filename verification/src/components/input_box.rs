//! The input box: the lines being typed, with the cursor shown.
//!
//! The cursor is counted in characters while typing, and the box reads it
//! as a byte offset into the text, line by line.
use vstd::prelude::*;
use crate::components::spans::{Tone, StyledSpan, SpanLook, look, line_look, lines_look, styled, styled_owned};
use crate::components::message_list::{index_of_char, lemma_index_of_char, find_char};
use crate::structs::{AppState, StateView};
use crate::text::{byte_len, utf8_width, utf8_len, chars_of, string_from_range, str_eq, lemma_byte_len_push,
    lemma_byte_len_prefix, lemma_byte_len_concat, lemma_encode_len};

verus! {

/// `s` split at every `\n` (`str::split('\n')`).
pub open spec fn split_nl(s: Seq<char>) -> Seq<Seq<char>>
    decreases s.len(),
{
    match index_of_char(s, '\n') {
        Some(j) => {
            proof {
                lemma_index_of_char(s, '\n');
            }
            seq![s.take(j)] + split_nl(s.skip(j + 1))
        },
        None => seq![s],
    }
}

/// Whether byte offset `p` of `line` falls between two characters.
pub open spec fn is_boundary(line: Seq<char>, p: int) -> bool
    decreases line.len(),
{
    if p == 0 {
        true
    } else if p < 0 || line.len() == 0 {
        false
    } else {
        utf8_width(line[0]) <= p && is_boundary(line.drop_first(), p - utf8_width(line[0]))
    }
}

/// The character that starts at byte offset `p` of `line`.
pub open spec fn char_at(line: Seq<char>, p: int) -> int
    decreases line.len(),
{
    if p <= 0 || line.len() == 0 {
        0
    } else {
        1 + char_at(line.drop_first(), p - utf8_width(line[0]))
    }
}

pub proof fn lemma_char_at(line: Seq<char>, p: int)
    requires
        is_boundary(line, p),
    ensures
        0 <= char_at(line, p) <= line.len(),
        byte_len(line.take(char_at(line, p))) == p,
        p < byte_len(line) ==> char_at(line, p) < line.len(),
    decreases line.len(),
{
    if p != 0 {
        lemma_char_at(line.drop_first(), p - utf8_width(line[0]));
        let k = char_at(line, p);
        assert(line.take(k)[0] == line[0]);
        assert(line.take(k).drop_first() =~= line.drop_first().take(k - 1));
    } else {
        assert(line.take(0).len() == 0);
    }
}

/// The bar in front of each typed line.
pub open spec fn input_bar() -> SpanLook {
    look("  \u{258E} "@, Tone::Gray)
}

/// How a typed line shows, the line starting at byte `start` of the text:
/// with the character under the cursor marked, or `_` after the line,
/// where the cursor is on it.
pub open spec fn input_line_look(line: Seq<char>, start: int, cursor: int) -> Seq<SpanLook> {
    let end = start + byte_len(line);
    if start <= cursor <= end {
        let p = cursor - start;
        let k = char_at(line, p);
        if p < byte_len(line) {
            seq![
                input_bar(),
                look(line.take(k), Tone::Plain),
                look(seq![line[k]], Tone::Cursor),
                look(line.skip(k + 1), Tone::Plain),
            ]
        } else {
            seq![input_bar(), look(line, Tone::Plain), look("_"@, Tone::DarkGray), look(Seq::empty(), Tone::Plain)]
        }
    } else {
        seq![input_bar(), look(line, Tone::Plain)]
    }
}

/// Whether the cursor can be shown on the line: it falls between two
/// characters, and where a character follows, that one is one byte long.
pub open spec fn cursor_fits(line: Seq<char>, start: int, cursor: int) -> bool {
    let p = cursor - start;
    start <= cursor <= start + byte_len(line) ==> is_boundary(line, p) && (p < byte_len(line) ==> utf8_width(
        line[char_at(line, p)],
    ) == 1)
}

/// The typed lines, the first starting at byte `start`.
pub open spec fn input_lines_look(ls: Seq<Seq<char>>, start: int, cursor: int) -> Seq<Seq<SpanLook>>
    decreases ls.len(),
{
    if ls.len() == 0 {
        Seq::empty()
    } else {
        seq![input_line_look(ls[0], start, cursor)] + input_lines_look(
            ls.drop_first(),
            start + byte_len(ls[0]) + 1,
            cursor,
        )
    }
}

/// Whether the cursor can be shown on whichever of the lines it is on.
pub open spec fn cursor_fits_all(ls: Seq<Seq<char>>, start: int, cursor: int) -> bool
    decreases ls.len(),
{
    ls.len() == 0 || (cursor_fits(ls[0], start, cursor) && cursor_fits_all(
        ls.drop_first(),
        start + byte_len(ls[0]) + 1,
        cursor,
    ))
}

/// Whether the box shows the hint to type, in place of the text.
pub open spec fn shows_placeholder(s: StateView) -> bool {
    s.input.text.len() == 0 && s.json_store.mode != "insert"@
}

/// The hint to type.
pub open spec fn input_placeholder() -> Seq<Seq<SpanLook>> {
    seq![
        Seq::empty(),
        seq![look("  \u{258E} "@, Tone::DarkGray), look("Type a message..."@, Tone::DarkGray)],
    ]
}

/// Whether the box can be laid out: the hint shows, or the cursor can be
/// shown where it is.
pub open spec fn input_box_renders(s: StateView) -> bool {
    shows_placeholder(s) || cursor_fits_all(split_nl(s.input.text), 0, s.input.cursor as int)
}

/// The lines of the box, the last `max` of them.
pub open spec fn input_box_lines(s: StateView, max: int) -> Seq<Seq<SpanLook>> {
    if shows_placeholder(s) {
        input_placeholder()
    } else {
        let all = seq![Seq::<SpanLook>::empty()] + input_lines_look(
            split_nl(s.input.text),
            0,
            s.input.cursor as int,
        );
        if all.len() > max {
            all.skip(all.len() - max)
        } else {
            all
        }
    }
}

/// The character index in `v[lo..hi]` at byte offset `p`.
fn char_index_at(v: &Vec<char>, lo: usize, hi: usize, p: usize) -> (k: usize)
    requires
        lo <= hi <= v@.len(),
        is_boundary(v@.subrange(lo as int, hi as int), p as int),
    ensures
        k == char_at(v@.subrange(lo as int, hi as int), p as int),
{
    let ghost line = v@.subrange(lo as int, hi as int);
    let mut k: usize = 0;
    let mut acc: usize = 0;
    proof {
        lemma_char_at(line, p as int);
        assert(line.skip(0) =~= line);
    }
    while acc < p
        invariant
            lo <= hi <= v@.len(),
            line == v@.subrange(lo as int, hi as int),
            acc <= p,
            k <= line.len(),
            is_boundary(line.skip(k as int), p - acc),
            char_at(line, p as int) == k + char_at(line.skip(k as int), p - acc),
        decreases p - acc,
    {
        let ghost rest = line.skip(k as int);
        assert(rest[0] == v@[lo + k]);
        assert(rest.drop_first() =~= line.skip(k as int + 1));
        acc = acc + utf8_len(v[lo + k]);
        k = k + 1;
    }
    k
}

/// Adds the look of `v[lo..hi]`, a line starting at byte `start`.
fn push_input_line(
    out: &mut Vec<Vec<StyledSpan>>,
    v: &Vec<char>,
    lo: usize,
    hi: usize,
    start: usize,
    line_len: usize,
    cursor: usize,
)
    requires
        lo <= hi <= v@.len(),
        line_len == byte_len(v@.subrange(lo as int, hi as int)),
        start + line_len <= usize::MAX,
        cursor_fits(v@.subrange(lo as int, hi as int), start as int, cursor as int),
    ensures
        lines_look(final(out)@) == lines_look(old(out)@).push(
            input_line_look(v@.subrange(lo as int, hi as int), start as int, cursor as int),
        ),
{
    let ghost line = v@.subrange(lo as int, hi as int);
    let ghost before = lines_look(out@);
    let end = start + line_len;
    let mut l: Vec<StyledSpan> = Vec::new();
    l.push(styled("  \u{258E} ", Tone::Gray));
    if cursor >= start && cursor <= end {
        let p = cursor - start;
        let k = char_index_at(v, lo, hi, p);
        proof {
            lemma_char_at(line, p as int);
        }
        if p < line_len {
            l.push(styled_owned(string_from_range(v, lo, lo + k), Tone::Plain));
            l.push(styled_owned(string_from_range(v, lo + k, lo + k + 1), Tone::Cursor));
            l.push(styled_owned(string_from_range(v, lo + k + 1, hi), Tone::Plain));
            assert(v@.subrange(lo + k, lo + k + 1) =~= seq![line[k as int]]);
            assert(v@.subrange(lo as int, lo + k) =~= line.take(k as int));
            assert(v@.subrange(lo + k + 1, hi as int) =~= line.skip(k as int + 1));
        } else {
            l.push(styled_owned(string_from_range(v, lo, hi), Tone::Plain));
            l.push(styled("_", Tone::DarkGray));
            l.push(styled("", Tone::Plain));
            proof {
                reveal_strlit("");
                assert(""@ =~= Seq::<char>::empty());
            }
        }
    } else {
        l.push(styled_owned(string_from_range(v, lo, hi), Tone::Plain));
    }
    assert(line_look(l@) =~~= input_line_look(line, start as int, cursor as int));
    out.push(l);
    assert(lines_look(out@) =~~= before.push(input_line_look(line, start as int, cursor as int)));
}

/// The bytes of `v[lo..hi]`, given those of `v[..lo]`.
fn bytes_through(v: &Vec<char>, lo: usize, hi: usize, at_lo: usize, total: usize) -> (r: usize)
    requires
        lo <= hi <= v@.len(),
        at_lo == byte_len(v@.take(lo as int)),
        total == byte_len(v@),
    ensures
        r == byte_len(v@.take(hi as int)),
        r <= total,
{
    let mut acc = at_lo;
    let mut i = lo;
    while i < hi
        invariant
            lo <= i <= hi <= v@.len(),
            acc == byte_len(v@.take(i as int)),
            total == byte_len(v@),
        decreases hi - i,
    {
        proof {
            lemma_byte_len_push(v@.take(i as int), v@[i as int]);
            assert(v@.take(i as int).push(v@[i as int]) =~= v@.take(i as int + 1));
            lemma_byte_len_prefix(v@, i as int + 1);
        }
        acc = acc + utf8_len(v[i]);
        i = i + 1;
    }
    proof {
        lemma_byte_len_prefix(v@, hi as int);
    }
    acc
}

/// Whether the cursor can be shown on `v[lo..hi]`, a line starting at
/// byte `start`.
fn cursor_fits_line(v: &Vec<char>, lo: usize, hi: usize, start: usize, line_len: usize, cursor: usize) -> (b: bool)
    requires
        lo <= hi <= v@.len(),
        line_len == byte_len(v@.subrange(lo as int, hi as int)),
        start + line_len <= usize::MAX,
    ensures
        b == cursor_fits(v@.subrange(lo as int, hi as int), start as int, cursor as int),
{
    let ghost line = v@.subrange(lo as int, hi as int);
    if !(cursor >= start && cursor <= start + line_len) {
        return true;
    }
    let p = cursor - start;
    let mut k: usize = 0;
    let mut acc: usize = 0;
    assert(line.skip(0) =~= line);
    while acc < p && lo + k < hi
        invariant
            lo <= hi <= v@.len(),
            line == v@.subrange(lo as int, hi as int),
            p == cursor - start,
            start <= cursor <= start + line_len,
            line_len == byte_len(line),
            acc <= p,
            k <= line.len(),
            is_boundary(line, p as int) == is_boundary(line.skip(k as int), p - acc),
            is_boundary(line, p as int) ==> char_at(line, p as int) == k + char_at(line.skip(k as int), p - acc),
        decreases line.len() - k,
    {
        let ghost rest = line.skip(k as int);
        assert(rest[0] == v@[lo + k]);
        assert(rest.drop_first() =~= line.skip(k as int + 1));
        let w = utf8_len(v[lo + k]);
        if w > p - acc {
            assert(!is_boundary(rest, p - acc));
            assert(!is_boundary(line, p as int));
            return false;
        }
        acc = acc + w;
        k = k + 1;
    }
    if acc < p {
        assert(line.skip(k as int).len() == 0);
        return false;
    }
    assert(is_boundary(line.skip(k as int), 0));
    proof {
        lemma_char_at(line, p as int);
    }
    if p < line_len {
        assert(char_at(line, p as int) == k);
        utf8_len(v[lo + k]) == 1
    } else {
        true
    }
}

/// Whether the cursor can be shown on whichever line of `v` it is on.
fn cursor_fits_text(v: &Vec<char>, total: usize, cursor: usize) -> (b: bool)
    requires
        total == byte_len(v@),
        total < usize::MAX,
    ensures
        b == cursor_fits_all(split_nl(v@), 0, cursor as int),
{
    let n = v.len();
    let mut pos: usize = 0;
    let mut off: usize = 0;
    assert(v@.skip(0) =~= v@);
    assert(v@.take(0).len() == 0);
    loop
        invariant_except_break
            pos <= n,
            n == v@.len(),
            total == byte_len(v@),
            total < usize::MAX,
            off == byte_len(v@.take(pos as int)),
            cursor_fits_all(split_nl(v@), 0, cursor as int) == cursor_fits_all(split_nl(v@.skip(pos as int)), off as int, cursor as int),
        ensures
            true,
        decreases n - pos,
    {
        let ghost rest = v@.skip(pos as int);
        proof {
            lemma_index_of_char(rest, '\n');
        }
        match find_char(v, pos, '\n') {
            Some(j) => {
                let end = bytes_through(v, pos, j, off, total);
                proof {
                    assert(v@.take(j as int) =~= v@.take(pos as int) + v@.subrange(pos as int, j as int));
                    lemma_byte_len_concat(v@.take(pos as int), v@.subrange(pos as int, j as int));
                    assert(rest.take(j - pos) =~= v@.subrange(pos as int, j as int));
                    assert(rest.skip(j - pos + 1) =~= v@.skip(j + 1));
                    assert(split_nl(rest) == seq![rest.take(j - pos)] + split_nl(rest.skip(j - pos + 1)));
                    assert((seq![rest.take(j - pos)] + split_nl(v@.skip(j + 1))).drop_first() =~= split_nl(v@.skip(j + 1)));
                    assert(v@.take(j + 1) =~= v@.take(j as int).push(v@[j as int]));
                    lemma_byte_len_push(v@.take(j as int), v@[j as int]);
                    lemma_byte_len_prefix(v@, j + 1);
                }
                if !cursor_fits_line(v, pos, j, off, end - off, cursor) {
                    return false;
                }
                off = end + 1;
                pos = j + 1;
            },
            None => {
                let end = bytes_through(v, pos, n, off, total);
                proof {
                    assert(v@.take(n as int) =~= v@.take(pos as int) + v@.subrange(pos as int, n as int));
                    lemma_byte_len_concat(v@.take(pos as int), v@.subrange(pos as int, n as int));
                    assert(rest =~= v@.subrange(pos as int, n as int));
                    assert(split_nl(rest) == seq![rest]);
                    assert(seq![rest].drop_first() =~= Seq::<Seq<char>>::empty());
                    assert(v@.take(n as int) =~= v@);
                    assert(seq![rest][0] == rest);
                    assert(cursor_fits_all(Seq::<Seq<char>>::empty(), end + 1, cursor as int));
                    assert(cursor_fits_all(split_nl(rest), off as int, cursor as int) == cursor_fits(rest, off as int, cursor as int));
                }
                return cursor_fits_line(v, pos, n, off, end - off, cursor);
            },
        }
    }
}

/// The lines of the input box for a box `height` rows high; `None` where
/// the cursor falls inside a character, or before one longer than a byte.
pub fn input_box(state: &AppState, height: u16) -> (r: Option<Vec<Vec<StyledSpan>>>)
    requires
        byte_len(state@.input.text) < usize::MAX,
    ensures
        match r {
            Some(lines) => input_box_renders(state@) && lines_look(lines@) == input_box_lines(state@, height as int),
            None => !input_box_renders(state@),
        },
{
    let ghost s = state@;
    let text = state.input.text.as_str();
    let cursor = state.input.cursor;
    if text.unicode_len() == 0 && !str_eq(state.json_store.mode.as_str(), "insert") {
        let mut lines: Vec<Vec<StyledSpan>> = Vec::new();
        lines.push(Vec::new());
        let mut hint: Vec<StyledSpan> = Vec::new();
        hint.push(styled("  \u{258E} ", Tone::DarkGray));
        hint.push(styled("Type a message...", Tone::DarkGray));
        lines.push(hint);
        assert(lines_look(lines@) =~~= input_placeholder());
        return Some(lines);
    }
    let total = text.as_bytes().len();
    proof {
        lemma_encode_len(text@);
    }
    let v = chars_of(text);
    if !cursor_fits_text(&v, total, cursor) {
        return None;
    }
    let n = v.len();
    let mut out: Vec<Vec<StyledSpan>> = Vec::new();
    out.push(Vec::new());
    let ghost want = seq![Seq::<SpanLook>::empty()] + input_lines_look(split_nl(v@), 0, cursor as int);
    let mut pos: usize = 0;
    let mut off: usize = 0;
    assert(v@.skip(0) =~= v@);
    assert(v@.take(0).len() == 0);
    assert(lines_look(out@) =~~= seq![Seq::<SpanLook>::empty()]);
    loop
        invariant_except_break
            pos <= n,
            n == v@.len(),
            v@ == s.input.text,
            total == byte_len(v@),
            total < usize::MAX,
            off == byte_len(v@.take(pos as int)),
            cursor == s.input.cursor,
            cursor_fits_all(split_nl(v@.skip(pos as int)), off as int, cursor as int),
            lines_look(out@) + input_lines_look(split_nl(v@.skip(pos as int)), off as int, cursor as int) == want,
        ensures
            lines_look(out@) == want,
        decreases n - pos,
    {
        let ghost rest = v@.skip(pos as int);
        let ghost before = lines_look(out@);
        proof {
            lemma_index_of_char(rest, '\n');
        }
        match find_char(&v, pos, '\n') {
            Some(j) => {
                let end = bytes_through(&v, pos, j, off, total);
                proof {
                    assert(v@.take(j as int) =~= v@.take(pos as int) + v@.subrange(pos as int, j as int));
                    lemma_byte_len_concat(v@.take(pos as int), v@.subrange(pos as int, j as int));
                    assert(rest.take(j - pos) =~= v@.subrange(pos as int, j as int));
                    assert(rest.skip(j - pos + 1) =~= v@.skip(j + 1));
                    assert(split_nl(rest) == seq![rest.take(j - pos)] + split_nl(rest.skip(j - pos + 1)));
                    assert((seq![rest.take(j - pos)] + split_nl(v@.skip(j + 1))).drop_first() =~= split_nl(v@.skip(j + 1)));
                    assert(v@.take(j + 1) =~= v@.take(j as int).push(v@[j as int]));
                    lemma_byte_len_push(v@.take(j as int), v@[j as int]);
                    lemma_byte_len_prefix(v@, j + 1);
                }
                push_input_line(&mut out, &v, pos, j, off, end - off, cursor);
                proof {
                    let line = v@.subrange(pos as int, j as int);
                    let tail = input_lines_look(split_nl(v@.skip(j + 1)), end + 1, cursor as int);
                    assert(input_lines_look(split_nl(rest), off as int, cursor as int) == seq![input_line_look(line, off as int, cursor as int)] + tail);
                    assert(before + (seq![input_line_look(line, off as int, cursor as int)] + tail) =~= before.push(input_line_look(line, off as int, cursor as int)) + tail);
                }
                off = end + 1;
                pos = j + 1;
            },
            None => {
                let end = bytes_through(&v, pos, n, off, total);
                proof {
                    assert(v@.take(n as int) =~= v@.take(pos as int) + v@.subrange(pos as int, n as int));
                    lemma_byte_len_concat(v@.take(pos as int), v@.subrange(pos as int, n as int));
                    assert(rest =~= v@.subrange(pos as int, n as int));
                    assert(split_nl(rest) == seq![rest]);
                    assert(seq![rest].drop_first() =~= Seq::<Seq<char>>::empty());
                    assert(v@.take(n as int) =~= v@);
                }
                push_input_line(&mut out, &v, pos, n, off, end - off, cursor);
                proof {
                    let tail = input_lines_look(Seq::<Seq<char>>::empty(), end + 1, cursor as int);
                    assert(tail =~= Seq::<Seq<SpanLook>>::empty());
                    assert(input_lines_look(split_nl(rest), off as int, cursor as int) == seq![input_line_look(rest, off as int, cursor as int)] + tail);
                    assert(lines_look(out@) =~= want);
                }
                break;
            },
        }
    }
    let max_lines = height as usize;
    if out.len() > max_lines {
        let skip = out.len() - max_lines;
        let ghost all = lines_look(out@);
        let kept = out.split_off(skip);
        assert(lines_look(kept@) =~= all.skip(skip as int));
        return Some(kept);
    }
    Some(out)
}

} // verus!

verus! {

/// The typed lines never take more rows than the box has; only the hint
/// to type, two lines, shows whatever the height.
pub proof fn lemma_input_box_fits(s: StateView, max: int)
    requires
        max >= 0,
    ensures
        shows_placeholder(s) ==> input_box_lines(s, max).len() == 2,
        !shows_placeholder(s) ==> input_box_lines(s, max).len() <= max,
{
}

} // verus!
