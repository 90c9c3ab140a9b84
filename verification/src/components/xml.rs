//! The element tree that templates describe, built from parsed XML.
use vstd::prelude::*;
use crate::components::parsing::xml::{
    XmlElement, XmlNode, node_of, StyleSpec, StyleView, Align, JsonShape, JsonShapeView,
    JsonScalar, JsonScalarView, parse_attr, spec_parse_attr, parse_styles, spec_parse_styles,
    parse_str_list, spec_parse_str_list, parse_usize, spec_parse_usize, parse_text_attr,
    extract_text, json_get, json_get_exec, as_str, as_bool, spec_alignment, alignment_from_text,
    get_u16_value, get_ratio_value, ratio_of, members_view, ratio_from_text,
};
use crate::text::str_eq;
use crate::types::opt_str_view;

verus! {

pub struct SpanEl {
    pub text: String,
    pub style: StyleSpec,
}

pub enum LineEl {
    Spans(Vec<SpanEl>),
    Text(String),
}

#[derive(Clone, Copy, PartialEq, Eq, Debug)]
pub enum Direction {
    Vertical,
    Horizontal,
}

#[derive(Clone, Copy, PartialEq, Eq, Debug)]
pub enum ConstraintEl {
    Length(u16),
    Min(u16),
    Max(u16),
    Percentage(u16),
    Ratio(u32, u32),
}

pub struct ParagraphEl {
    pub lines: Vec<LineEl>,
    pub wrap_trim: Option<bool>,
    pub alignment: Option<Align>,
    pub style: StyleSpec,
}

pub struct TabsEl {
    pub titles: Vec<String>,
    pub selection: usize,
    pub style: StyleSpec,
    pub highlight_style: StyleSpec,
    pub divider_style: StyleSpec,
}

/// An element of the screen.
pub enum El {
    Paragraph(ParagraphEl),
    Line(LineEl),
    Span(SpanEl),
    Tabs(TabsEl),
    Layout(Option<Direction>, Vec<ConstraintEl>, Vec<Option<Box<El>>>),
    Constraint(ConstraintEl, Option<Box<El>>),
    Component(Option<String>),
    MessageList,
    InputBox,
    ActivityBar,
    ToolBar,
    ProgressBar,
}

// ---------------------------------------------------------------- views
pub struct SpanView {
    pub text: Seq<char>,
    pub style: StyleView,
}

pub enum LineView {
    Spans(Seq<SpanView>),
    Text(Seq<char>),
}

pub enum ElView {
    Paragraph { lines: Seq<LineView>, wrap_trim: Option<bool>, alignment: Option<Align>, style: StyleView },
    Line(LineView),
    Span(SpanView),
    Tabs { titles: Seq<Seq<char>>, selection: usize, style: StyleView, highlight_style: StyleView, divider_style: StyleView },
    Layout(Option<Direction>, Seq<ConstraintEl>, Seq<Option<ElView>>),
    Constraint(ConstraintEl, Option<Box<ElView>>),
    Component(Option<Seq<char>>),
    MessageList,
    InputBox,
    ActivityBar,
    ToolBar,
    ProgressBar,
}

impl View for SpanEl {
    type V = SpanView;

    open spec fn view(&self) -> SpanView {
        SpanView { text: self.text@, style: self.style@ }
    }
}

impl View for LineEl {
    type V = LineView;

    open spec fn view(&self) -> LineView {
        match self {
            LineEl::Spans(v) => LineView::Spans(v@.map_values(|s: SpanEl| s@)),
            LineEl::Text(t) => LineView::Text(t@),
        }
    }
}

pub open spec fn el_view(e: El) -> ElView
    decreases e,
{
    match e {
        El::Paragraph(p) => ElView::Paragraph {
            lines: p.lines@.map_values(|l: LineEl| l@),
            wrap_trim: p.wrap_trim,
            alignment: p.alignment,
            style: p.style@,
        },
        El::Line(l) => ElView::Line(l@),
        El::Span(s) => ElView::Span(s@),
        El::Tabs(t) => ElView::Tabs {
            titles: t.titles@.map_values(|s: String| s@),
            selection: t.selection,
            style: t.style@,
            highlight_style: t.highlight_style@,
            divider_style: t.divider_style@,
        },
        El::Layout(d, cs, children) => ElView::Layout(
            d,
            cs@,
            Seq::new(
                children@.len(),
                |i: int|
                    if 0 <= i < children@.len() {
                        match children@[i] {
                            Some(b) => Some(el_view(*b)),
                            None => None,
                        }
                    } else {
                        None
                    },
            ),
        ),
        El::Constraint(c, child) => ElView::Constraint(
            c,
            match child {
                Some(b) => Some(Box::new(el_view(*b))),
                None => None,
            },
        ),
        El::Component(t) => ElView::Component(opt_str_view(t)),
        El::MessageList => ElView::MessageList,
        El::InputBox => ElView::InputBox,
        El::ActivityBar => ElView::ActivityBar,
        El::ToolBar => ElView::ToolBar,
        El::ProgressBar => ElView::ProgressBar,
    }
}

// ---------------------------------------------------------------- spec

pub open spec fn line_of(c: ElView) -> LineView {
    match c {
        ElView::Line(l) => l,
        _ => LineView::Text(Seq::empty()),
    }
}

pub open spec fn span_of(c: ElView) -> SpanView {
    match c {
        ElView::Span(s) => s,
        _ => SpanView { text: Seq::empty(), style: StyleView { fg: None, bg: None } },
    }
}

pub open spec fn constraint_of(c: ElView) -> ConstraintEl {
    match c {
        ElView::Constraint(k, _) => k,
        _ => ConstraintEl::Length(0),
    }
}

pub open spec fn constraint_child(c: ElView) -> Option<ElView> {
    match c {
        ElView::Constraint(_, Some(b)) => Some(*b),
        _ => None,
    }
}

pub open spec fn text_of(n: XmlNode) -> Seq<char> {
    match n.text {
        Some(t) => t,
        None => Seq::empty(),
    }
}

pub open spec fn attr_text(n: XmlNode, a: Seq<char>) -> Option<Seq<char>> {
    if n.attributes.dom().contains(a) {
        Some(n.attributes[a])
    } else {
        None
    }
}

/// The members of the `type` attribute of a constraint.
pub open spec fn constraint_members(n: XmlNode) -> Seq<(Seq<char>, JsonScalarView)> {
    match spec_parse_attr(n, "type"@) {
        Some(JsonShapeView::Object(m)) => m,
        _ => Seq::empty(),
    }
}

pub open spec fn is_u16_kind(k: Seq<char>) -> bool {
    k == "length"@ || k == "min"@ || k == "max"@ || k == "percentage"@
}

/// The constraint an element describes: its `type` attribute is an object
/// whose first member names the kind.
pub open spec fn constraint_spec(n: XmlNode) -> ConstraintEl {
    let m = constraint_members(n);
    let key = m[0].0;
    let v = m[0].1;
    let len16: u16 = match v {
        JsonScalarView::Num(Some(x)) => x as u16,
        _ => 0,
    };
    if key == "length"@ {
        ConstraintEl::Length(len16)
    } else if key == "min"@ {
        ConstraintEl::Min(len16)
    } else if key == "max"@ {
        ConstraintEl::Max(len16)
    } else if key == "percentage"@ {
        ConstraintEl::Percentage(len16)
    } else {
        match v {
            JsonScalarView::Str(t) => match ratio_of(t) {
                Some(p) => ConstraintEl::Ratio(p.0 as u32, p.1 as u32),
                None => ConstraintEl::Length(0),
            },
            _ => ConstraintEl::Length(0),
        }
    }
}

/// Whether the `type` attribute of a constraint describes one.
pub open spec fn constraint_ok(n: XmlNode) -> bool {
    let m = constraint_members(n);
    &&& spec_parse_attr(n, "type"@) matches Some(JsonShapeView::Object(_))
    &&& m.len() > 0
    &&& if is_u16_kind(m[0].0) {
        m[0].1 matches JsonScalarView::Num(Some(_))
    } else if m[0].0 == "ratio"@ {
        m[0].1 matches JsonScalarView::Str(t) && ratio_of(t) is Some
    } else {
        false
    }
}

pub open spec fn known_name(name: Seq<char>) -> bool {
    ||| name == "paragraph"@
    ||| name == "line"@
    ||| name == "span"@
    ||| name == "tabs"@
    ||| name == "layout"@
    ||| name == "constraint"@
    ||| name == "component"@
    ||| name == "message_list"@
    ||| name == "input_box"@
    ||| name == "activity_bar"@
    ||| name == "tool_bar"@
    ||| name == "progress_bar"@
}

/// The elements of an element's children.
pub open spec fn child_els(n: XmlNode) -> Seq<ElView>
    decreases n, 0nat,
{
    Seq::new(
        n.children.len(),
        |i: int|
            if 0 <= i < n.children.len() {
                el_of(n.children[i])
            } else {
                ElView::ProgressBar
            },
    )
}

/// The element an XML element describes.
pub open spec fn el_of(n: XmlNode) -> ElView
    decreases n, 1nat,
{
    let cs = child_els(n);
    let style = spec_parse_styles(n, "styles"@);
    if n.name == "paragraph"@ {
        ElView::Paragraph {
            lines: cs.map_values(|c: ElView| line_of(c)),
            wrap_trim: match spec_parse_attr(n, "wrap"@) {
                Some(v) => as_bool(json_get(v, "trim"@)),
                None => None,
            },
            alignment: match spec_parse_attr(n, "alignment"@) {
                Some(v) => match as_str(json_get(v, "position"@)) {
                    Some(a) => Some(spec_alignment(a)),
                    None => None,
                },
                None => None,
            },
            style,
        }
    } else if n.name == "line"@ {
        if cs.len() > 0 {
            ElView::Line(LineView::Spans(cs.map_values(|c: ElView| span_of(c))))
        } else {
            ElView::Line(LineView::Text(text_of(n)))
        }
    } else if n.name == "span"@ {
        ElView::Span(SpanView { text: text_of(n), style })
    } else if n.name == "tabs"@ {
        ElView::Tabs {
            titles: match spec_parse_str_list(n, "tab_titles"@) {
                Some(t) => t,
                None => Seq::empty(),
            },
            selection: match spec_parse_usize(n, "tab_selection"@) {
                Ok(v) => v as usize,
                Err(_) => 0,
            },
            style,
            highlight_style: spec_parse_styles(n, "highlight_styles"@),
            divider_style: spec_parse_styles(n, "divider_styles"@),
        }
    } else if n.name == "layout"@ {
        let d = attr_text(n, "direction"@);
        ElView::Layout(
            if d == Some("vertical"@) {
                Some(Direction::Vertical)
            } else if d == Some("horizontal"@) {
                Some(Direction::Horizontal)
            } else {
                None
            },
            cs.map_values(|c: ElView| constraint_of(c)),
            cs.map_values(|c: ElView| constraint_child(c)),
        )
    } else if n.name == "constraint"@ {
        ElView::Constraint(
            constraint_spec(n),
            if cs.len() > 0 {
                Some(Box::new(cs[0]))
            } else {
                None
            },
        )
    } else if n.name == "component"@ {
        ElView::Component(attr_text(n, "template"@))
    } else if n.name == "message_list"@ {
        ElView::MessageList
    } else if n.name == "input_box"@ {
        ElView::InputBox
    } else if n.name == "activity_bar"@ {
        ElView::ActivityBar
    } else if n.name == "tool_bar"@ {
        ElView::ToolBar
    } else {
        ElView::ProgressBar
    }
}

/// The first `k` children of `n` describe elements.
pub open spec fn children_ok(n: XmlNode, k: nat) -> bool
    decreases n, k,
{
    if k == 0 || k > n.children.len() {
        true
    } else {
        children_ok(n, (k - 1) as nat) && element_ok(n.children[k - 1])
    }
}

/// Whether an XML element describes an element: a known name, children
/// of the kind its name asks for, and attributes that parse.
pub open spec fn element_ok(n: XmlNode) -> bool
    decreases n, n.children.len() + 1,
{
    let cs = child_els(n);
    &&& children_ok(n, n.children.len())
    &&& known_name(n.name)
    &&& (n.name == "paragraph"@ ==> forall|i: int| 0 <= i < cs.len() ==> #[trigger] cs[i] is Line)
    &&& (n.name == "line"@ ==> forall|i: int| 0 <= i < cs.len() ==> #[trigger] cs[i] is Span)
    &&& (n.name == "layout"@ ==> forall|i: int| 0 <= i < cs.len() ==> #[trigger] cs[i] is Constraint)
    &&& (n.name == "tabs"@ ==> spec_parse_str_list(n, "tab_titles"@) is Some && spec_parse_usize(n, "tab_selection"@) is Ok)
    &&& (n.name == "constraint"@ ==> constraint_ok(n))
}

// ---------------------------------------------------------------- building

proof fn lemma_children_ok(n: XmlNode, k: nat, i: int)
    requires
        children_ok(n, k),
        k <= n.children.len(),
        0 <= i < k,
    ensures
        element_ok(n.children[i]),
    decreases k,
{
    if i < k - 1 {
        lemma_children_ok(n, (k - 1) as nat, i);
    }
}

fn into_lines(children: Vec<El>) -> (r: Vec<LineEl>)
    requires
        forall|i: int| 0 <= i < children@.len() ==> #[trigger] children@[i] is Line,
    ensures
        r@.map_values(|l: LineEl| l@) == children@.map_values(|c: El| el_view(c)).map_values(|c: ElView| line_of(c)),
{
    let ghost all = children@;
    let mut children = children;
    let mut r: Vec<LineEl> = Vec::new();
    let ghost mut k: int = 0;
    while children.len() > 0
        invariant
            0 <= k <= all.len(),
            children@ == all.skip(k),
            forall|i: int| 0 <= i < all.len() ==> #[trigger] all[i] is Line,
            r@.map_values(|l: LineEl| l@) == all.take(k).map_values(|c: El| el_view(c)).map_values(|c: ElView| line_of(c)),
        decreases children@.len(),
    {
        let ghost cb = children@;
        let c = children.remove(0);
        assert(c == all[k]);
        let ghost rb = r@;
        match c {
            El::Line(l) => {
                let ghost lv = l@;
                r.push(l);
                assert(r@.map_values(|l: LineEl| l@) =~= rb.map_values(|l: LineEl| l@).push(lv));
                assert(all.take(k + 1).map_values(|c: El| el_view(c)).map_values(|c: ElView| line_of(c))
                    =~= all.take(k).map_values(|c: El| el_view(c)).map_values(|c: ElView| line_of(c)).push(lv));
            },
            _ => {
                assert(false);
            },
        }
        proof {
            assert(all.take(k + 1) =~= all.take(k).push(all[k]));
            assert(r@.map_values(|l: LineEl| l@) =~= all.take(k + 1).map_values(|c: El| el_view(c)).map_values(|c: ElView| line_of(c)));
            assert(children@ =~= cb.remove(0));
            k = k + 1;
            assert(children@ =~= all.skip(k));
        }
    }
    assert(all.take(k) =~= all);
    r
}

fn into_spans(children: Vec<El>) -> (r: Vec<SpanEl>)
    requires
        forall|i: int| 0 <= i < children@.len() ==> #[trigger] children@[i] is Span,
    ensures
        r@.map_values(|l: SpanEl| l@) == children@.map_values(|c: El| el_view(c)).map_values(|c: ElView| span_of(c)),
{
    let ghost all = children@;
    let mut children = children;
    let mut r: Vec<SpanEl> = Vec::new();
    let ghost mut k: int = 0;
    while children.len() > 0
        invariant
            0 <= k <= all.len(),
            children@ == all.skip(k),
            forall|i: int| 0 <= i < all.len() ==> #[trigger] all[i] is Span,
            r@.map_values(|l: SpanEl| l@) == all.take(k).map_values(|c: El| el_view(c)).map_values(|c: ElView| span_of(c)),
        decreases children@.len(),
    {
        let ghost cb = children@;
        let c = children.remove(0);
        assert(c == all[k]);
        let ghost rb = r@;
        match c {
            El::Span(l) => {
                let ghost lv = l@;
                r.push(l);
                assert(r@.map_values(|l: SpanEl| l@) =~= rb.map_values(|l: SpanEl| l@).push(lv));
                assert(all.take(k + 1).map_values(|c: El| el_view(c)).map_values(|c: ElView| span_of(c))
                    =~= all.take(k).map_values(|c: El| el_view(c)).map_values(|c: ElView| span_of(c)).push(lv));
            },
            _ => {
                assert(false);
            },
        }
        proof {
            assert(all.take(k + 1) =~= all.take(k).push(all[k]));
            assert(r@.map_values(|l: SpanEl| l@) =~= all.take(k + 1).map_values(|c: El| el_view(c)).map_values(|c: ElView| span_of(c)));
            assert(children@ =~= cb.remove(0));
            k = k + 1;
            assert(children@ =~= all.skip(k));
        }
    }
    assert(all.take(k) =~= all);
    r
}

pub open spec fn opt_box_view(o: Option<Box<El>>) -> Option<ElView> {
    match o {
        Some(b) => Some(el_view(*b)),
        None => None,
    }
}

fn into_layout(children: Vec<El>) -> (r: (Vec<ConstraintEl>, Vec<Option<Box<El>>>))
    requires
        forall|i: int| 0 <= i < children@.len() ==> #[trigger] children@[i] is Constraint,
    ensures
        r.0@ == children@.map_values(|c: El| el_view(c)).map_values(|c: ElView| constraint_of(c)),
        r.1@.map_values(|o: Option<Box<El>>| opt_box_view(o)) == children@.map_values(|c: El| el_view(c)).map_values(|c: ElView| constraint_child(c)),
{
    let ghost all = children@;
    let mut children = children;
    let mut cs: Vec<ConstraintEl> = Vec::new();
    let mut kids: Vec<Option<Box<El>>> = Vec::new();
    let ghost mut k: int = 0;
    while children.len() > 0
        invariant
            0 <= k <= all.len(),
            children@ == all.skip(k),
            forall|i: int| 0 <= i < all.len() ==> #[trigger] all[i] is Constraint,
            cs@ == all.take(k).map_values(|c: El| el_view(c)).map_values(|c: ElView| constraint_of(c)),
            kids@.map_values(|o: Option<Box<El>>| opt_box_view(o)) == all.take(k).map_values(|c: El| el_view(c)).map_values(|c: ElView| constraint_child(c)),
        decreases children@.len(),
    {
        let ghost cb = children@;
        let c = children.remove(0);
        assert(c == all[k]);
        let ghost kb = kids@;
        match c {
            El::Constraint(x, child) => {
                let ghost cv = opt_box_view(child);
                cs.push(x);
                kids.push(child);
                assert(kids@.map_values(|o: Option<Box<El>>| opt_box_view(o)) =~= kb.map_values(|o: Option<Box<El>>| opt_box_view(o)).push(cv));
                assert(all.take(k + 1).map_values(|c: El| el_view(c)).map_values(|c: ElView| constraint_child(c))
                    =~= all.take(k).map_values(|c: El| el_view(c)).map_values(|c: ElView| constraint_child(c)).push(cv));
            },
            _ => {
                assert(false);
            },
        }
        proof {
            assert(all.take(k + 1) =~= all.take(k).push(all[k]));
            assert(cs@ =~= all.take(k + 1).map_values(|c: El| el_view(c)).map_values(|c: ElView| constraint_of(c)));
            assert(kids@.map_values(|o: Option<Box<El>>| opt_box_view(o)) =~= all.take(k + 1).map_values(|c: El| el_view(c)).map_values(|c: ElView| constraint_child(c)));
            assert(children@ =~= cb.remove(0));
            k = k + 1;
            assert(children@ =~= all.skip(k));
        }
    }
    assert(all.take(k) =~= all);
    (cs, kids)
}

fn constraint_from(el: &XmlElement) -> (r: ConstraintEl)
    requires
        constraint_ok(node_of(*el)),
    ensures
        r == constraint_spec(node_of(*el)),
{
    let ghost n = node_of(*el);
    let v = match parse_attr(el, "type") {
        Some(v) => v,
        None => {
            assert(false);
            return ConstraintEl::Length(0);
        },
    };
    let key: String = match &v {
        JsonShape::Object(m) => {
            assert(members_view(m@)[0].0 == m@[0].0@);
            m[0].0.clone()
        },
        JsonShape::Other => {
            assert(false);
            return ConstraintEl::Length(0);
        },
    };
    let ghost mv = constraint_members(n);
    proof {
        crate::util::lemma_first_match_found(mv, |q: (Seq<char>, JsonScalarView)| q.0 == key@, 0);
        assert(json_get(v@, key@) == Some(mv[0].1));
    }
    let k = key.as_str();
    if str_eq(k, "length") {
        ConstraintEl::Length(get_u16_value(&v, k))
    } else if str_eq(k, "min") {
        ConstraintEl::Min(get_u16_value(&v, k))
    } else if str_eq(k, "max") {
        ConstraintEl::Max(get_u16_value(&v, k))
    } else if str_eq(k, "percentage") {
        ConstraintEl::Percentage(get_u16_value(&v, k))
    } else {
        let rv = get_ratio_value(&v, k);
        ConstraintEl::Ratio(rv[0], rv[1])
    }
}

/// Builds the element an XML element describes.
pub fn create_element(el: &XmlElement) -> (r: El)
    requires
        element_ok(node_of(*el)),
    ensures
        el_view(r) == el_of(node_of(*el)),
    decreases node_of(*el),
{
    let ghost n = node_of(*el);
    let count = el.children.len();
    let mut children: Vec<El> = Vec::new();
    let mut i: usize = 0;
    while i < count
        invariant
            count == el.children@.len(),
            i <= count,
            n == node_of(*el),
            element_ok(n),
            children@.len() == i,
            forall|j: int| 0 <= j < i ==> el_view(#[trigger] children@[j]) == child_els(n)[j],
        decreases count - i,
    {
        proof {
            lemma_children_ok(n, n.children.len(), i as int);
            assert(n.children[i as int] == node_of(el.children@[i as int]));
        }
        let c = create_element(&el.children[i]);
        children.push(c);
        i = i + 1;
    }
    let ghost cs = child_els(n);
    assert(children@.map_values(|c: El| el_view(c)) =~= cs);
    let style = parse_styles(el, "styles");
    let name = el.name.as_str();
    if str_eq(name, "paragraph") {
        let wrap = parse_attr(el, "wrap");
        let alignment_json = parse_attr(el, "alignment");
        assert forall|j: int| 0 <= j < children@.len() implies #[trigger] children@[j] is Line by {
            assert(cs[j] is Line);
        }
        let lines = into_lines(children);
        let wrap_trim = match &wrap {
            Some(v) => match json_get_exec(v, "trim") {
                Some(JsonScalar::Bool(b)) => Some(*b),
                _ => None,
            },
            None => None,
        };
        let alignment = match &alignment_json {
            Some(v) => match json_get_exec(v, "position") {
                Some(JsonScalar::Str(a)) => Some(alignment_from_text(a.as_str())),
                _ => None,
            },
            None => None,
        };
        let r = El::Paragraph(ParagraphEl { lines, wrap_trim, alignment, style });
        assert(el_view(r) =~~= el_of(n));
        r
    } else if str_eq(name, "line") {
        if count > 0 {
            assert forall|j: int| 0 <= j < children@.len() implies #[trigger] children@[j] is Span by {
                assert(cs[j] is Span);
            }
            let spans = into_spans(children);
            let r = El::Line(LineEl::Spans(spans));
            assert(el_view(r) =~~= el_of(n));
            r
        } else {
            El::Line(LineEl::Text(extract_text(el)))
        }
    } else if str_eq(name, "span") {
        El::Span(SpanEl { text: extract_text(el), style })
    } else if str_eq(name, "tabs") {
        let titles = match parse_str_list(el, "tab_titles") {
            Some(t) => t,
            None => {
                assert(false);
                Vec::new()
            },
        };
        let selection = match parse_usize(el, "tab_selection") {
            Ok(s) => s,
            Err(_) => {
                assert(false);
                0
            },
        };
        let highlight_style = parse_styles(el, "highlight_styles");
        let divider_style = parse_styles(el, "divider_styles");
        let r = El::Tabs(TabsEl { titles, selection, style, highlight_style, divider_style });
        assert(el_view(r) =~~= el_of(n));
        r
    } else if str_eq(name, "layout") {
        let direction_str = parse_text_attr(el, "direction");
        let direction = match &direction_str {
            Some(d) => if str_eq(d.as_str(), "vertical") {
                Some(Direction::Vertical)
            } else if str_eq(d.as_str(), "horizontal") {
                Some(Direction::Horizontal)
            } else {
                None
            },
            None => None,
        };
        assert forall|j: int| 0 <= j < children@.len() implies #[trigger] children@[j] is Constraint by {
            assert(cs[j] is Constraint);
        }
        let ghost chv = children@;
        assert(chv.map_values(|c: El| el_view(c)) == cs);
        let (constraints, kids) = into_layout(children);
        let ghost kv = kids@;
        let ghost dspec = attr_text(n, "direction"@);
        let ghost dv = if dspec == Some("vertical"@) {
            Some(Direction::Vertical)
        } else if dspec == Some("horizontal"@) {
            Some(Direction::Horizontal)
        } else {
            None
        };
        assert(direction == dv) by {
            reveal_strlit("vertical");
            reveal_strlit("horizontal");
        }
        let r = El::Layout(direction, constraints, kids);
        proof {
            assert(Seq::new(kv.len(), |j: int| if 0 <= j < kv.len() { match kv[j] { Some(b) => Some(el_view(*b)), None => None } } else { None }) =~= kv.map_values(|o: Option<Box<El>>| opt_box_view(o)));
            assert(constraints@ == cs.map_values(|c: ElView| constraint_of(c)));
            assert(kv.map_values(|o: Option<Box<El>>| opt_box_view(o)) == cs.map_values(|c: ElView| constraint_child(c)));
            assert(el_view(r)->Layout_2 =~= kv.map_values(|o: Option<Box<El>>| opt_box_view(o)));
            assert(el_view(r) == ElView::Layout(direction, constraints@, kv.map_values(|o: Option<Box<El>>| opt_box_view(o))));
            assert(el_of(n) == ElView::Layout(dv, cs.map_values(|c: ElView| constraint_of(c)), cs.map_values(|c: ElView| constraint_child(c))));
        }
        assert(el_view(r) =~~= el_of(n));
        r
    } else if str_eq(name, "constraint") {
        let c = constraint_from(el);
        let ghost before = children@;
        let child = if count > 0 {
            let first = children.remove(0);
            assert(first == before[0]);
            assert(el_view(first) == cs[0]);
            Some(Box::new(first))
        } else {
            None
        };
        let r = El::Constraint(c, child);
        assert(cs.len() == count);
        assert(el_of(n) == ElView::Constraint(constraint_spec(n), if cs.len() > 0 { Some(Box::new(cs[0])) } else { None }));
        assert(el_view(r) == ElView::Constraint(c, if count > 0 { Some(Box::new(cs[0])) } else { None }));
        assert(el_view(r) =~~= el_of(n));
        r
    } else if str_eq(name, "component") {
        El::Component(parse_text_attr(el, "template"))
    } else if str_eq(name, "message_list") {
        El::MessageList
    } else if str_eq(name, "input_box") {
        El::InputBox
    } else if str_eq(name, "activity_bar") {
        El::ActivityBar
    } else if str_eq(name, "tool_bar") {
        El::ToolBar
    } else {
        El::ProgressBar
    }
}

// ---------------------------------------------------------------- checking

/// Which element kind a name describes: the element is a line exactly when
/// it is named so, and likewise for spans and constraints.
proof fn lemma_el_kind(m: XmlNode)
    ensures
        el_of(m) is Line <==> m.name == "line"@,
        el_of(m) is Span <==> m.name == "span"@,
        el_of(m) is Constraint <==> m.name == "constraint"@,
{
    reveal_strlit("paragraph");
    reveal_strlit("line");
    reveal_strlit("span");
    reveal_strlit("tabs");
    reveal_strlit("layout");
    reveal_strlit("constraint");
    assert("paragraph"@.len() == 9);
    assert("line"@.len() == 4 && "line"@[0] == 'l');
    assert("span"@.len() == 4 && "span"@[0] == 's');
    assert("tabs"@.len() == 4 && "tabs"@[0] == 't');
    assert("layout"@.len() == 6);
    assert("constraint"@.len() == 10);
}

/// The names that ask something of an element's children or attributes
/// are distinct.
proof fn lemma_kind_names_distinct()
    ensures
        "paragraph"@ != "line"@,
        "paragraph"@ != "layout"@,
        "paragraph"@ != "tabs"@,
        "paragraph"@ != "constraint"@,
        "line"@ != "layout"@,
        "line"@ != "tabs"@,
        "line"@ != "constraint"@,
        "layout"@ != "tabs"@,
        "layout"@ != "constraint"@,
        "tabs"@ != "constraint"@,
{
    reveal_strlit("paragraph");
    reveal_strlit("line");
    reveal_strlit("tabs");
    reveal_strlit("layout");
    reveal_strlit("constraint");
    assert("paragraph"@.len() == 9);
    assert("line"@.len() == 4 && "line"@[0] == 'l');
    assert("tabs"@.len() == 4 && "tabs"@[0] == 't');
    assert("layout"@.len() == 6);
    assert("constraint"@.len() == 10);
}

/// Whether every child of `el` is named `kind`.
fn children_named(el: &XmlElement, kind: &str) -> (b: bool)
    ensures
        b == (forall|i: int| 0 <= i < node_of(*el).children.len() ==> #[trigger] node_of(*el).children[i].name == kind@),
{
    let ghost n = node_of(*el);
    let mut i: usize = 0;
    while i < el.children.len()
        invariant
            i <= el.children@.len(),
            n == node_of(*el),
            forall|j: int| 0 <= j < i ==> #[trigger] n.children[j].name == kind@,
        decreases el.children@.len() - i,
    {
        assert(n.children[i as int] == node_of(el.children@[i as int]));
        if !str_eq(el.children[i].name.as_str(), kind) {
            assert(n.children[i as int].name != kind@);
            return false;
        }
        i = i + 1;
    }
    true
}

fn constraint_check(el: &XmlElement) -> (b: bool)
    ensures
        b == constraint_ok(node_of(*el)),
{
    let ghost n = node_of(*el);
    let v = match parse_attr(el, "type") {
        Some(v) => v,
        None => return false,
    };
    let m = match &v {
        JsonShape::Object(m) => m,
        JsonShape::Other => return false,
    };
    if m.len() == 0 {
        return false;
    }
    let ghost mv = constraint_members(n);
    assert(mv == members_view(m@));
    assert(mv[0] == (m@[0].0@, m@[0].1@));
    let k = m[0].0.as_str();
    if str_eq(k, "length") || str_eq(k, "min") || str_eq(k, "max") || str_eq(k, "percentage") {
        match &m[0].1 {
            JsonScalar::Num(Some(_)) => true,
            _ => false,
        }
    } else if str_eq(k, "ratio") {
        match &m[0].1 {
            JsonScalar::Str(t) => ratio_from_text(t.as_str()).is_some(),
            _ => false,
        }
    } else {
        false
    }
}

/// Whether an XML element describes an element (`element_ok`).
pub fn element_check(el: &XmlElement) -> (b: bool)
    ensures
        b == element_ok(node_of(*el)),
    decreases node_of(*el),
{
    let ghost n = node_of(*el);
    let count = el.children.len();
    let mut i: usize = 0;
    while i < count
        invariant
            count == el.children@.len(),
            i <= count,
            n == node_of(*el),
            children_ok(n, i as nat),
        decreases count - i,
    {
        assert(n.children[i as int] == node_of(el.children@[i as int]));
        if !element_check(&el.children[i]) {
            proof {
                assert(!children_ok(n, (i + 1) as nat));
                lemma_children_ok_grows(n, (i + 1) as nat, n.children.len());
            }
            return false;
        }
        i = i + 1;
    }
    let ghost cs = child_els(n);
    let name = el.name.as_str();
    let known = str_eq(name, "paragraph") || str_eq(name, "line") || str_eq(name, "span")
        || str_eq(name, "tabs") || str_eq(name, "layout") || str_eq(name, "constraint")
        || str_eq(name, "component") || str_eq(name, "message_list") || str_eq(name, "input_box")
        || str_eq(name, "activity_bar") || str_eq(name, "tool_bar") || str_eq(name, "progress_bar");
    if !known {
        return false;
    }
    proof {
        lemma_kind_names_distinct();
        assert forall|j: int| 0 <= j < cs.len() implies
            (#[trigger] cs[j] is Line <==> n.children[j].name == "line"@)
            && (cs[j] is Span <==> n.children[j].name == "span"@)
            && (cs[j] is Constraint <==> n.children[j].name == "constraint"@) by {
            lemma_el_kind(n.children[j]);
        }
    }
    assert(children_ok(n, n.children.len()));
    assert(known_name(n.name));
    if str_eq(name, "paragraph") {
        let b = children_named(el, "line");
        if b {
            assert forall|j: int| 0 <= j < cs.len() implies #[trigger] cs[j] is Line by {
                assert(n.children[j].name == "line"@);
            }
        } else {
            let ghost j = choose|j: int| 0 <= j < n.children.len() && !(#[trigger] n.children[j].name == "line"@);
            assert(!(cs[j] is Line));
        }
        b
    } else if str_eq(name, "line") {
        let b = children_named(el, "span");
        if b {
            assert forall|j: int| 0 <= j < cs.len() implies #[trigger] cs[j] is Span by {
                assert(n.children[j].name == "span"@);
            }
        } else {
            let ghost j = choose|j: int| 0 <= j < n.children.len() && !(#[trigger] n.children[j].name == "span"@);
            assert(!(cs[j] is Span));
        }
        b
    } else if str_eq(name, "layout") {
        let b = children_named(el, "constraint");
        if b {
            assert forall|j: int| 0 <= j < cs.len() implies #[trigger] cs[j] is Constraint by {
                assert(n.children[j].name == "constraint"@);
            }
        } else {
            let ghost j = choose|j: int| 0 <= j < n.children.len() && !(#[trigger] n.children[j].name == "constraint"@);
            assert(!(cs[j] is Constraint));
        }
        b
    } else if str_eq(name, "tabs") {
        parse_str_list(el, "tab_titles").is_some() && parse_usize(el, "tab_selection").is_ok()
    } else if str_eq(name, "constraint") {
        constraint_check(el)
    } else {
        true
    }
}

/// A failing child keeps later prefixes failing.
proof fn lemma_children_ok_grows(n: XmlNode, k: nat, m: nat)
    requires
        !children_ok(n, k),
        0 < k <= m <= n.children.len(),
    ensures
        !children_ok(n, m),
    decreases m - k,
{
    if k < m {
        lemma_children_ok_grows(n, k, (m - 1) as nat);
    }
}

/// Builds the element an XML element describes, where it describes one.
pub fn try_create_element(el: &XmlElement) -> (r: Option<El>)
    ensures
        match r {
            Some(e) => el_view(e) == el_of(node_of(*el)),
            None => !element_ok(node_of(*el)),
        },
{
    if element_check(el) {
        Some(create_element(el))
    } else {
        None
    }
}

} // verus!

verus! {

/// A constraint element whose `type` object starts with a member `min`,
/// `max`, `percentage` or `length` holding a number `x` becomes a
/// constraint of that kind, of `x` cut to 16 bits, with its first child
/// element, if any, inside.
pub proof fn lemma_constraint_kind_from_first_member(n: XmlNode, key: Seq<char>, x: u64)
    requires
        n.name == "constraint"@,
        constraint_members(n).len() > 0,
        constraint_members(n)[0] == (key, JsonScalarView::Num(Some(x))),
    ensures
        key == "min"@ ==> (el_of(n) is Constraint && el_of(n)->Constraint_0 == ConstraintEl::Min(x as u16)),
        key == "max"@ ==> (el_of(n) is Constraint && el_of(n)->Constraint_0 == ConstraintEl::Max(x as u16)),
        key == "length"@ ==> (el_of(n) is Constraint && el_of(n)->Constraint_0 == ConstraintEl::Length(x as u16)),
        key == "percentage"@ ==> (el_of(n) is Constraint && el_of(n)->Constraint_0 == ConstraintEl::Percentage(
            x as u16,
        )),
{
    reveal_strlit("constraint");
    reveal_strlit("paragraph");
    reveal_strlit("line");
    reveal_strlit("span");
    reveal_strlit("tabs");
    reveal_strlit("layout");
    reveal_strlit("min");
    reveal_strlit("max");
    reveal_strlit("length");
    reveal_strlit("percentage");
    assert(n.name.len() == 10);
    assert("paragraph"@.len() == 9 && "line"@.len() == 4 && "span"@.len() == 4);
    assert("tabs"@.len() == 4 && "layout"@.len() == 6);
    assert("min"@.len() == 3 && "max"@.len() == 3 && "length"@.len() == 6 && "percentage"@.len() == 10);
    assert("max"@[1] == 'a' && "min"@[1] == 'i');
    assert("max"@ != "min"@);
}

} // verus!
