//! Where the tab titles go on their row.
use vstd::prelude::*;
use crate::components::message_list::{str_display_width, str_width};
use crate::text::concat;
use crate::util::seq_view;

verus! {

/// A tab title placed on the row: its column, its padded text, and
/// whether it is the selected tab.
pub struct TabCell {
    pub x: u16,
    pub text: String,
    pub highlighted: bool,
}

pub struct TabCellView {
    pub x: int,
    pub text: Seq<char>,
    pub highlighted: bool,
}

impl View for TabCell {
    type V = TabCellView;

    open spec fn view(&self) -> TabCellView {
        TabCellView { x: self.x as int, text: self.text@, highlighted: self.highlighted }
    }
}

/// A title with two spaces on each side.
pub open spec fn padded_title(t: Seq<char>) -> Seq<char> {
    "  "@ + t + "  "@
}

/// The width a padded title takes, as a `u16`.
pub open spec fn title_width(t: Seq<char>) -> int {
    (str_display_width(padded_title(t)) as u16) as int
}

/// The titles from `i` on, placed left to right from column `x` while each
/// ends by column `right`.
pub open spec fn tab_cells_from(titles: Seq<Seq<char>>, selected: int, x: int, right: int, i: int) -> Seq<TabCellView>
    decreases titles.len() - i,
{
    if i < 0 || i >= titles.len() || x + title_width(titles[i]) > right {
        Seq::empty()
    } else {
        seq![TabCellView { x, text: padded_title(titles[i]), highlighted: i == selected }] + tab_cells_from(
            titles,
            selected,
            x + title_width(titles[i]),
            right,
            i + 1,
        )
    }
}

/// Whether placing the titles from `i` on counts columns past `u16::MAX`
/// before it stops.
pub open spec fn tab_cells_overflow(titles: Seq<Seq<char>>, x: int, right: int, i: int) -> bool
    decreases titles.len() - i,
{
    if i < 0 || i >= titles.len() {
        false
    } else if x + title_width(titles[i]) > u16::MAX {
        true
    } else if x + title_width(titles[i]) > right {
        false
    } else {
        tab_cells_overflow(titles, x + title_width(titles[i]), right, i + 1)
    }
}

/// Places the titles on a row from column `left` to column `right`; `None`
/// where a column would pass `u16::MAX`.
pub fn tab_cells(titles: &Vec<String>, selected: usize, left: u16, right: u16) -> (r: Option<Vec<TabCell>>)
    ensures
        match r {
            Some(cells) => !tab_cells_overflow(seq_view(titles@), left as int, right as int, 0) && seq_view(
                cells@,
            ) == tab_cells_from(seq_view(titles@), selected as int, left as int, right as int, 0),
            None => tab_cells_overflow(seq_view(titles@), left as int, right as int, 0),
        },
{
    let ghost ts = seq_view(titles@);
    let mut cells: Vec<TabCell> = Vec::new();
    let mut x: u16 = left;
    let mut i: usize = 0;
    assert(seq_view(cells@) =~= Seq::<TabCellView>::empty());
    while i < titles.len()
        invariant_except_break
            tab_cells_overflow(ts, left as int, right as int, 0) == tab_cells_overflow(ts, x as int, right as int, i as int),
            tab_cells_from(ts, selected as int, left as int, right as int, 0) == seq_view(cells@) + tab_cells_from(
                ts,
                selected as int,
                x as int,
                right as int,
                i as int,
            ),
        invariant
            i <= titles@.len(),
            ts == seq_view(titles@),
        ensures
            !tab_cells_overflow(ts, left as int, right as int, 0),
            tab_cells_from(ts, selected as int, left as int, right as int, 0) == seq_view(cells@),
        decreases titles@.len() - i,
    {
        let padded = concat(concat("  ", titles[i].as_str()).as_str(), "  ");
        assert(padded@ == padded_title(ts[i as int]));
        let w = str_width(padded.as_str()) as u16;
        if w > u16::MAX - x {
            return None;
        }
        if x + w > right {
            assert(seq_view(cells@) + Seq::<TabCellView>::empty() =~= seq_view(cells@));
            break;
        }
        let ghost before = seq_view(cells@);
        let cell = TabCell { x, text: padded, highlighted: i == selected };
        let ghost cv = cell@;
        cells.push(cell);
        assert(seq_view(cells@) =~= before.push(cv));
        proof {
            let rest = tab_cells_from(ts, selected as int, (x + w) as int, right as int, i + 1);
            assert(before + (seq![cv] + rest) =~= before.push(cv) + rest);
        }
        x = x + w;
        i = i + 1;
    }
    proof {
        if i == titles@.len() {
            assert(seq_view(cells@) + Seq::<TabCellView>::empty() =~= seq_view(cells@));
        }
    }
    Some(cells)
}

} // verus!

verus! {

/// The titles go left to right without overlapping, each one where the
/// last one ends, and none past the end of the row.
pub proof fn lemma_tab_cells_in_row(titles: Seq<Seq<char>>, selected: int, x: int, right: int, i: int)
    requires
        x >= 0,
    ensures
        forall|k: int|
            0 <= k < tab_cells_from(titles, selected, x, right, i).len() ==> {
                let c = #[trigger] tab_cells_from(titles, selected, x, right, i)[k];
                &&& x <= c.x
                &&& c.x + (str_display_width(c.text) as u16) <= right
            },
        forall|k: int|
            0 <= k < tab_cells_from(titles, selected, x, right, i).len() - 1 ==> #[trigger] tab_cells_from(
                titles,
                selected,
                x,
                right,
                i,
            )[k + 1].x == tab_cells_from(titles, selected, x, right, i)[k].x + (str_display_width(
                tab_cells_from(titles, selected, x, right, i)[k].text,
            ) as u16),
    decreases titles.len() - i,
{
    let cells = tab_cells_from(titles, selected, x, right, i);
    if !(i < 0 || i >= titles.len() || x + title_width(titles[i]) > right) {
        let w = title_width(titles[i]);
        let rest = tab_cells_from(titles, selected, x + w, right, i + 1);
        lemma_tab_cells_in_row(titles, selected, x + w, right, i + 1);
        assert forall|k: int| 0 < k < cells.len() implies cells[k] == rest[k - 1] by {}
        if rest.len() > 0 {
            assert(rest[0].x == x + w) by {
                assert(rest == seq![rest[0]] + rest.drop_first()) by {
                    assert(rest =~= seq![rest[0]] + rest.drop_first());
                }
            }
        }
        assert forall|k: int| 0 <= k < cells.len() - 1 implies #[trigger] cells[k + 1].x == cells[k].x
            + (str_display_width(cells[k].text) as u16) by {
            if k > 0 {
                assert(cells[k] == rest[k - 1]);
                assert(cells[k + 1] == rest[k]);
            } else {
                assert(cells[1] == rest[0]);
            }
        }
    }
}

} // verus!
