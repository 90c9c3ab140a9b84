//! The bar that follows a workflow's nodes as they run.
use vstd::prelude::*;
use crate::components::spans::{Tone, StyledSpan, SpanLook, look, line_look, styled, styled_owned};
use crate::structs::{NodeActivity, ActivityView};
use crate::text::{str_eq, concat, chars_of, string_from_range};
use crate::util::seq_view;

verus! {

pub open spec fn is_done_status(s: Seq<char>) -> bool {
    s == "completed"@ || s == "done"@ || s == "success"@
}

pub open spec fn is_running_status(s: Seq<char>) -> bool {
    s == "running"@ || s == "active"@
}

pub open spec fn is_failed_status(s: Seq<char>) -> bool {
    s == "failed"@ || s == "error"@
}

/// The icon of a node's status and its colour.
pub open spec fn activity_icon(s: Seq<char>) -> (Seq<char>, Tone) {
    if is_done_status(s) {
        ("\u{2713}"@, Tone::Green)
    } else if is_running_status(s) {
        ("\u{27F3}"@, Tone::Yellow)
    } else if is_failed_status(s) {
        ("\u{2717}"@, Tone::Red)
    } else {
        ("\u{25CB}"@, Tone::DarkGray)
    }
}

/// The icon of a node's status and its colour.
pub fn status_icon(status: &str) -> (r: (&'static str, Tone))
    ensures
        (r.0@, r.1) == activity_icon(status@),
{
    if str_eq(status, "completed") || str_eq(status, "done") || str_eq(status, "success") {
        ("\u{2713}", Tone::Green)
    } else if str_eq(status, "running") || str_eq(status, "active") {
        ("\u{27F3}", Tone::Yellow)
    } else if str_eq(status, "failed") || str_eq(status, "error") {
        ("\u{2717}", Tone::Red)
    } else {
        ("\u{25CB}", Tone::DarkGray)
    }
}

/// The part of a node name before its first `_`, at most eight characters.
pub open spec fn short_name(name: Seq<char>) -> Seq<char> {
    let head = match crate::components::message_list::index_of_char(name, '_') {
        Some(j) => name.take(j),
        None => name,
    };
    if head.len() <= 8 {
        head
    } else {
        head.take(8)
    }
}

/// The part of a node name before its first `_`, at most eight characters.
pub fn node_short_name(name: &str) -> (r: String)
    ensures
        r@ == short_name(name@),
{
    let v = chars_of(name);
    let mut end: usize = 0;
    while end < v.len() && v[end] != '_'
        invariant
            end <= v@.len(),
            v@ == name@,
            forall|j: int| 0 <= j < end ==> v@[j] != '_',
        decreases v@.len() - end,
    {
        end = end + 1;
    }
    proof {
        crate::components::message_list::lemma_index_of_char(name@, '_');
        let head = match crate::components::message_list::index_of_char(name@, '_') {
            Some(j) => name@.take(j),
            None => name@,
        };
        if end < v@.len() {
            assert(head =~= v@.subrange(0, end as int));
        } else {
            assert(head =~= v@.subrange(0, end as int));
        }
    }
    let stop = if end <= 8 {
        end
    } else {
        8
    };
    let r = string_from_range(&v, 0, stop);
    assert(r@ =~= short_name(name@));
    r
}

/// The arrow between two nodes.
pub open spec fn activity_arrow() -> SpanLook {
    look(" \u{2192} "@, Tone::DarkGray)
}

/// How one node shows at a bar `cols` columns wide: the icon alone when
/// narrow, with a short name when middling, and with the whole name and a
/// word on its status when wide.
pub open spec fn node_spans(node: ActivityView, cols: int) -> Seq<SpanLook> {
    let icon = activity_icon(node.status);
    let icon_look = look(icon.0, icon.1);
    if cols < 60 {
        seq![icon_look]
    } else if cols < 100 {
        seq![look(short_name(node.node_name) + " "@, Tone::White), icon_look]
    } else {
        let base = seq![look(node.node_name + " "@, Tone::White), icon_look];
        if is_done_status(node.status) {
            base
        } else if is_running_status(node.status) {
            base.push(look(" running"@, Tone::DarkGray))
        } else if is_failed_status(node.status) {
            base.push(look(" failed"@, Tone::DarkGray))
        } else {
            base.push(look(" "@ + node.status, Tone::DarkGray))
        }
    }
}

/// The nodes in order, arrows between them.
pub open spec fn activity_line(acts: Seq<ActivityView>, cols: int) -> Seq<SpanLook>
    decreases acts.len(),
{
    if acts.len() == 0 {
        Seq::empty()
    } else if acts.len() == 1 {
        node_spans(acts[0], cols)
    } else {
        activity_line(acts.drop_last(), cols).push(activity_arrow()) + node_spans(acts.last(), cols)
    }
}

/// The bar: an empty dark span while nothing runs, else the nodes.
pub open spec fn activity_bar_line(acts: Seq<ActivityView>, cols: int) -> Seq<SpanLook> {
    if acts.len() == 0 {
        seq![look(Seq::empty(), Tone::DarkGray)]
    } else {
        activity_line(acts, cols)
    }
}

fn push_node_spans(out: &mut Vec<StyledSpan>, node: &NodeActivity, cols: usize)
    ensures
        line_look(final(out)@) == line_look(old(out)@) + node_spans(node@, cols as int),
{
    let ghost before = line_look(out@);
    let (icon, tone) = status_icon(node.status.as_str());
    if cols < 60 {
        out.push(styled(icon, tone));
    } else if cols < 100 {
        let short = node_short_name(node.node_name.as_str());
        out.push(styled_owned(concat(short.as_str(), " "), Tone::White));
        out.push(styled(icon, tone));
    } else {
        out.push(styled_owned(concat(node.node_name.as_str(), " "), Tone::White));
        out.push(styled(icon, tone));
        let st = node.status.as_str();
        if str_eq(st, "completed") || str_eq(st, "done") || str_eq(st, "success") {
        } else if str_eq(st, "running") || str_eq(st, "active") {
            out.push(styled(" running", Tone::DarkGray));
        } else if str_eq(st, "failed") || str_eq(st, "error") {
            out.push(styled(" failed", Tone::DarkGray));
        } else {
            out.push(styled_owned(concat(" ", st), Tone::DarkGray));
        }
    }
    assert(line_look(out@) =~~= before + node_spans(node@, cols as int));
}

/// The bar for a screen `cols` columns wide.
pub fn activity_bar(activity: &Vec<NodeActivity>, cols: usize) -> (r: Vec<StyledSpan>)
    ensures
        line_look(r@) == activity_bar_line(seq_view(activity@), cols as int),
{
    let ghost acts = seq_view(activity@);
    let mut out: Vec<StyledSpan> = Vec::new();
    if activity.len() == 0 {
        out.push(styled("", Tone::DarkGray));
        proof {
            reveal_strlit("");
            assert(""@ =~= Seq::<char>::empty());
            assert(acts.len() == 0);
            assert(line_look(out@) =~~= seq![look(Seq::empty(), Tone::DarkGray)]);
        }
        return out;
    }
    let mut i: usize = 0;
    while i < activity.len()
        invariant
            i <= activity@.len(),
            acts == seq_view(activity@),
            line_look(out@) == activity_line(acts.take(i as int), cols as int),
        decreases activity@.len() - i,
    {
        let ghost prev = acts.take(i as int);
        let ghost cur = acts.take(i as int + 1);
        assert(cur.drop_last() =~= prev);
        assert(cur.last() == activity@[i as int]@);
        if i > 0 {
            out.push(styled(" \u{2192} ", Tone::DarkGray));
        }
        push_node_spans(&mut out, &activity[i], cols);
        proof {
            if i == 0 {
                assert(line_look(out@) =~~= node_spans(cur[0], cols as int));
            }
        }
        i = i + 1;
    }
    assert(acts.take(i as int) =~= acts);
    out
}

} // verus!

verus! {

/// A failed node (status `failed` or `error`) shows a red cross, and never
/// the green check of a completed node; a completed node (`completed`,
/// `done`, `success`) shows the green check.
pub proof fn lemma_failed_nodes_show_a_red_cross(status: Seq<char>, done: Seq<char>)
    requires
        status == "failed"@ || status == "error"@,
        done == "completed"@ || done == "done"@ || done == "success"@,
    ensures
        activity_icon(status) == ("\u{2717}"@, Tone::Red),
        activity_icon(done) == ("\u{2713}"@, Tone::Green),
        activity_icon(status) != activity_icon(done),
{
    reveal_strlit("failed");
    reveal_strlit("error");
    reveal_strlit("completed");
    reveal_strlit("done");
    reveal_strlit("success");
    reveal_strlit("running");
    reveal_strlit("active");
    reveal_strlit("\u{2717}");
    reveal_strlit("\u{2713}");
    assert(status.len() == 6 ==> status[0] == 'f');
    assert(status != "running"@ && status != "active"@ && !is_done_status(status));
}

/// However wide the bar, a failed node shows the red cross; on a bar
/// narrower than sixty columns a lone failed node is that cross alone.
pub proof fn lemma_failed_node_in_the_bar(node: ActivityView, cols: int)
    requires
        node.status == "failed"@ || node.status == "error"@,
    ensures
        node_spans(node, cols).contains(look("\u{2717}"@, Tone::Red)),
        cols < 60 ==> activity_bar_line(seq![node], cols) == seq![look("\u{2717}"@, Tone::Red)],
{
    lemma_failed_nodes_show_a_red_cross(node.status, "done"@);
    let ps = node_spans(node, cols);
    let cross = look("\u{2717}"@, Tone::Red);
    if cols < 60 {
        assert(ps[0] == cross);
        let one = seq![node];
        assert(one.len() == 1 && one[0] == node);
        assert(activity_bar_line(one, cols) == ps);
    } else {
        assert(ps[1] == cross);
    }
}

} // verus!
