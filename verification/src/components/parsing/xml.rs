//! Turning rendered template text into an element tree, and reading
//! element attributes.
use vstd::prelude::*;
use quick_xml::Reader;
use quick_xml::events::{BytesStart, Event};
use self::XmlToken::{Open, Close, SelfClosed, Text, End, Failed, Skip};
use crate::str_map::StrMap;
use crate::json::{Json, JsonView, json_of, json_value, json_view};
use crate::text::{chars_of, concat, copy_str, str_eq, trim, trimmed, char_count, string_from_range};
use crate::types::opt_str_view;
use crate::text::{IntError, parse_unsigned, parse_unsigned_exec};
use crate::util::{first_match, lemma_first_match_found, lemma_first_match_none};

verus! {

// ------------------------------------------------------------ element tree

pub struct XmlElement {
    pub name: String,
    pub attributes: StrMap,
    pub children: Vec<XmlElement>,
    pub text: Option<String>,
}

#[verifier::ext_equal]
pub struct XmlNode {
    pub name: Seq<char>,
    pub attributes: Map<Seq<char>, Seq<char>>,
    pub children: Seq<XmlNode>,
    pub text: Option<Seq<char>>,
}

pub open spec fn empty_node() -> XmlNode {
    XmlNode { name: Seq::empty(), attributes: Map::empty(), children: Seq::empty(), text: None }
}

/// The element as a value.
pub open spec fn node_of(e: XmlElement) -> XmlNode
    decreases e,
{
    XmlNode {
        name: e.name@,
        attributes: e.attributes@,
        children: Seq::new(
            e.children@.len(),
            |i: int|
                if 0 <= i < e.children@.len() {
                    node_of(e.children@[i])
                } else {
                    empty_node()
                },
        ),
        text: opt_str_view(e.text),
    }
}

pub open spec fn nodes_of(v: Seq<XmlElement>) -> Seq<XmlNode> {
    v.map_values(|e: XmlElement| node_of(e))
}

// ------------------------------------------------------------ tokens

/// A start tag: its name and its attributes in document order.
pub struct XmlTag {
    pub name: String,
    pub attributes: Vec<(String, String)>,
}

/// What the reader yields, one item per call.
pub enum XmlToken {
    Open(XmlTag),
    Close,
    SelfClosed(XmlTag),
    Text(String),
    End,
    Failed,
    Skip,
}

pub struct XmlTagView {
    pub name: Seq<char>,
    pub attributes: Seq<(Seq<char>, Seq<char>)>,
}

pub enum XmlTokenView {
    Open(XmlTagView),
    Close,
    SelfClosed(XmlTagView),
    Text(Seq<char>),
    End,
    Failed,
    Skip,
}

pub open spec fn pairs_view(v: Seq<(String, String)>) -> Seq<(Seq<char>, Seq<char>)> {
    v.map_values(|p: (String, String)| (p.0@, p.1@))
}

impl View for XmlTag {
    type V = XmlTagView;

    open spec fn view(&self) -> XmlTagView {
        XmlTagView { name: self.name@, attributes: pairs_view(self.attributes@) }
    }
}

impl View for XmlToken {
    type V = XmlTokenView;

    open spec fn view(&self) -> XmlTokenView {
        match self {
            XmlToken::Open(t) => XmlTokenView::Open(t@),
            XmlToken::Close => XmlTokenView::Close,
            XmlToken::SelfClosed(t) => XmlTokenView::SelfClosed(t@),
            XmlToken::Text(s) => XmlTokenView::Text(s@),
            XmlToken::End => XmlTokenView::End,
            XmlToken::Failed => XmlTokenView::Failed,
            XmlToken::Skip => XmlTokenView::Skip,
        }
    }
}

pub open spec fn is_final(t: XmlTokenView) -> bool {
    t is End || t is Failed
}

/// The stream ends with the end of the document or a failure, and
/// nothing before its last item is either.
pub open spec fn well_ended(ts: Seq<XmlTokenView>) -> bool {
    &&& ts.len() > 0
    &&& is_final(ts.last())
    &&& forall|i: int| 0 <= i < ts.len() - 1 ==> !is_final(#[trigger] ts[i])
}

/// `quick_xml::Reader`, carried as an opaque value; what it has yet to
/// yield is named by `reader_pending`.
#[verifier::external_type_specification]
#[verifier::external_body]
#[verifier::reject_recursive_types(R)]
pub struct ExXmlReader<R>(Reader<R>);

/// The items a `quick_xml` reader over this text yields, up to the end of
/// the document or the first error.
pub uninterp spec fn xml_tokens(xml: Seq<char>) -> Seq<XmlTokenView>;

/// The items a reader has yet to yield.
pub uninterp spec fn reader_pending(reader: Reader<&[u8]>) -> Seq<XmlTokenView>;

/// `quick_xml::Reader::from_str` with its default configuration. The
/// contract names what the reader will yield up to the end of the document
/// or its first error, and claims that this is finite: each read consumes
/// input, and the end of the input is reported as `Eof`. (After some
/// errors the reader would go on reading; nothing here reads past the
/// first.)
#[verifier::external_body]
fn open_reader(xml: &str) -> (r: Reader<&[u8]>)
    ensures
        reader_pending(r) == xml_tokens(xml@),
        well_ended(reader_pending(r)),
{
    Reader::from_str(xml)
}

/// `quick_xml::Reader::read_event`, with the event converted: a start or
/// empty tag to its lossily decoded name and its well-formed attributes
/// (unescaped, an unescaping failure giving the empty string), text
/// unescaped (a failure giving the empty string), `Eof` and errors marked;
/// other events are skipped. The contract claims that the call yields the
/// next pending item.
#[verifier::external_body]
fn next_token(reader: &mut Reader<&[u8]>) -> (t: XmlToken)
    requires
        reader_pending(*old(reader)).len() > 0,
    ensures
        t@ == reader_pending(*old(reader))[0],
        reader_pending(*final(reader)) == reader_pending(*old(reader)).drop_first(),
{
    let tag = |e: &BytesStart| XmlTag {
        name: String::from_utf8_lossy(e.name().as_ref()).into_owned(),
        attributes: e.attributes().flatten().map(|a| (String::from_utf8_lossy(a.key.as_ref()).into_owned(),
            a.unescape_value().unwrap_or_default().into_owned())).collect(),
    };
    match reader.read_event() {
        Ok(Event::Start(e)) => Open(tag(&e)),
        Ok(Event::End(_)) => Close,
        Ok(Event::Empty(e)) => SelfClosed(tag(&e)),
        Ok(Event::Text(e)) => Text(e.unescape().unwrap_or_default().into_owned()),
        Ok(Event::Eof) => End,
        Err(_) => Failed,
        Ok(_) => Skip,
    }
}

// ------------------------------------------------------------ building

/// Attributes inserted in order: a later one under the same key wins.
pub open spec fn attrs_map(pairs: Seq<(Seq<char>, Seq<char>)>) -> Map<Seq<char>, Seq<char>>
    decreases pairs.len(),
{
    if pairs.len() == 0 {
        Map::empty()
    } else {
        attrs_map(pairs.drop_last()).insert(pairs.last().0, pairs.last().1)
    }
}

/// An element with the tag's name and attributes, no children and no text.
pub open spec fn element_of_tag(t: XmlTagView) -> XmlNode {
    XmlNode { name: t.name, attributes: attrs_map(t.attributes), children: Seq::empty(), text: None }
}

pub fn element_from_start(tag: XmlTag) -> (e: XmlElement)
    ensures
        node_of(e) == element_of_tag(tag@),
{
    let ghost tv = tag@;
    let XmlTag { name, attributes: pairs } = tag;
    let mut attributes = StrMap::new();
    let n = pairs.len();
    let mut pairs = pairs;
    let mut rest: Vec<(String, String)> = Vec::new();
    let ghost all = pairs_view(pairs@);
    let mut i: usize = 0;
    // take the pairs from the back so that each can be moved out
    let mut back: Vec<(String, String)> = Vec::new();
    while pairs.len() > 0
        invariant
            pairs_view(pairs@) + pairs_view(back@).reverse() == all,
        decreases pairs@.len(),
    {
        let ghost pb = pairs@;
        let ghost bb = back@;
        let p = pairs.pop().unwrap();
        back.push(p);
        assert(pairs_view(back@).reverse() =~= seq![pairs_view(pb).last()] + pairs_view(bb).reverse());
        assert(pairs_view(pairs@) =~= pairs_view(pb).drop_last());
    }
    assert(pairs_view(back@).reverse() =~= all);
    let ghost done: Seq<(Seq<char>, Seq<char>)> = Seq::empty();
    while back.len() > 0
        invariant
            done + pairs_view(back@).reverse() == all,
            attributes@ == attrs_map(done),
        decreases back@.len(),
    {
        let ghost bb = back@;
        let (k, v) = back.pop().unwrap();
        proof {
            let kv = (k@, v@);
            assert(pairs_view(bb).reverse() =~= seq![kv] + pairs_view(back@).reverse());
            assert((done.push(kv)).drop_last() =~= done);
            done = done.push(kv);
            assert(done + pairs_view(back@).reverse() =~= all);
        }
        attributes.insert(k, v);
    }
    assert(pairs_view(back@).reverse() =~= Seq::<(Seq<char>, Seq<char>)>::empty());
    assert(done =~= tv.attributes);
    let e = XmlElement { name, attributes, children: Vec::new(), text: None };
    assert(node_of(e).children =~= Seq::<XmlNode>::empty());
    assert(node_of(e) =~= element_of_tag(tv));
    e
}

/// The tree under construction: the open elements, innermost last, and
/// the finished root.
pub struct BuildState {
    pub stack: Seq<XmlNode>,
    pub root: Option<XmlNode>,
    pub failed: bool,
    pub done: bool,
}

pub open spec fn initial_build() -> BuildState {
    BuildState { stack: Seq::empty(), root: None, failed: false, done: false }
}

/// `el` finished: it becomes the root where nothing is open, else the last
/// child of the innermost open element.
pub open spec fn attach(st: BuildState, el: XmlNode) -> BuildState {
    if st.stack.len() == 0 {
        BuildState { root: Some(el), ..st }
    } else {
        let top = st.stack.last();
        BuildState {
            stack: st.stack.drop_last().push(XmlNode { children: top.children.push(el), ..top }),
            ..st
        }
    }
}

/// Text kept as it is inside `span` and `line`, trimmed elsewhere, and
/// appended where not empty.
pub open spec fn add_text(st: BuildState, t: Seq<char>) -> BuildState {
    if st.stack.len() == 0 {
        st
    } else {
        let top = st.stack.last();
        let stored = if top.name == "span"@ || top.name == "line"@ {
            t
        } else {
            trimmed(t)
        };
        if stored.len() == 0 {
            st
        } else {
            let text = match top.text {
                Some(old) => old + stored,
                None => stored,
            };
            BuildState {
                stack: st.stack.drop_last().push(XmlNode { text: Some(text), ..top }),
                ..st
            }
        }
    }
}

pub open spec fn build_step(st: BuildState, t: XmlTokenView) -> BuildState {
    if st.failed || st.done {
        st
    } else {
        match t {
            XmlTokenView::Open(tag) => BuildState { stack: st.stack.push(element_of_tag(tag)), ..st },
            XmlTokenView::Close => if st.stack.len() == 0 {
                BuildState { failed: true, ..st }
            } else {
                attach(BuildState { stack: st.stack.drop_last(), ..st }, st.stack.last())
            },
            XmlTokenView::SelfClosed(tag) => attach(st, element_of_tag(tag)),
            XmlTokenView::Text(s) => add_text(st, s),
            XmlTokenView::End => BuildState { done: true, ..st },
            XmlTokenView::Failed => BuildState { failed: true, ..st },
            XmlTokenView::Skip => st,
        }
    }
}

pub open spec fn build_all(ts: Seq<XmlTokenView>) -> BuildState
    decreases ts.len(),
{
    if ts.len() == 0 {
        initial_build()
    } else {
        build_step(build_all(ts.drop_last()), ts.last())
    }
}

/// The root element of a document, where it parses: no error, no
/// unmatched end tag, and some element.
pub open spec fn document_tree(ts: Seq<XmlTokenView>) -> Option<XmlNode> {
    let st = build_all(ts);
    if st.failed || !st.done {
        None
    } else {
        st.root
    }
}

pub open spec fn parses(xml: Seq<char>) -> bool {
    document_tree(xml_tokens(xml)) is Some
}

fn finish(mut parent: XmlElement, child: XmlElement) -> (r: XmlElement)
    ensures
        node_of(r) == (XmlNode { children: node_of(parent).children.push(node_of(child)), ..node_of(parent) }),
{
    let ghost pv = node_of(parent);
    let ghost cv = node_of(child);
    let ghost before = parent.children@;
    parent.children.push(child);
    assert(parent.children@ =~= before.push(child));
    assert(node_of(parent).children =~= pv.children.push(cv));
    assert(node_of(parent) =~= (XmlNode { children: pv.children.push(cv), ..pv }));
    parent
}

fn attach_exec(stack: &mut Vec<XmlElement>, root: &mut Option<XmlElement>, el: XmlElement)
    ensures
        nodes_of(final(stack)@) == attach(
            BuildState { stack: nodes_of(old(stack)@), root: opt_node(*old(root)), failed: false, done: false },
            node_of(el),
        ).stack,
        opt_node(*final(root)) == attach(
            BuildState { stack: nodes_of(old(stack)@), root: opt_node(*old(root)), failed: false, done: false },
            node_of(el),
        ).root,
{
    let ghost sv = nodes_of(stack@);
    if stack.len() == 0 {
        *root = Some(el);
    } else {
        let top = stack.pop().unwrap();
        assert(nodes_of(stack@) =~= sv.drop_last());
        let top = finish(top, el);
        let ghost tv = node_of(top);
        stack.push(top);
        assert(nodes_of(stack@) =~= sv.drop_last().push(tv));
    }
}

pub open spec fn opt_node(o: Option<XmlElement>) -> Option<XmlNode> {
    match o {
        Some(e) => Some(node_of(e)),
        None => None,
    }
}

fn add_text_exec(stack: &mut Vec<XmlElement>, t: String)
    ensures
        nodes_of(final(stack)@) == add_text(
            BuildState { stack: nodes_of(old(stack)@), root: None, failed: false, done: false },
            t@,
        ).stack,
{
    if stack.len() == 0 {
        return;
    }
    let ghost sv = nodes_of(stack@);
    let mut top = stack.pop().unwrap();
    assert(nodes_of(stack@) =~= sv.drop_last());
    let ghost topv = node_of(top);
    let preserve = str_eq(top.name.as_str(), "span") || str_eq(top.name.as_str(), "line");
    let stored = if preserve {
        t
    } else {
        trim(t.as_str())
    };
    if char_count(stored.as_str()) > 0 {
        let text = match &top.text {
            Some(old) => concat(old.as_str(), stored.as_str()),
            None => stored,
        };
        let ghost textv = text@;
        top.text = Some(text);
        assert(node_of(top) =~= (XmlNode { text: Some(textv), ..topv }));
    }
    let ghost nt = node_of(top);
    stack.push(top);
    assert(nodes_of(stack@) =~= sv.drop_last().push(nt));
    proof {
        if stored@.len() == 0 {
            assert(nodes_of(stack@) =~= sv);
        }
    }
}

/// Builds the tree from the reader's items; `None` where the document does
/// not parse.
fn build_tree(xml: &str) -> (r: Option<XmlElement>)
    ensures
        match r {
            Some(e) => document_tree(xml_tokens(xml@)) == Some(node_of(e)),
            None => document_tree(xml_tokens(xml@)) is None,
        },
{
    let mut reader = open_reader(xml);
    let ghost all = reader_pending(reader);
    let mut stack: Vec<XmlElement> = Vec::new();
    let mut root: Option<XmlElement> = None;
    let ghost mut k: int = 0;
    assert(all.take(0) =~= Seq::<XmlTokenView>::empty());
    loop
        invariant
            all == xml_tokens(xml@),
            well_ended(all),
            0 <= k < all.len(),
            reader_pending(reader) == all.skip(k),
            build_all(all.take(k)).failed == false,
            build_all(all.take(k)).done == false,
            build_all(all.take(k)).stack == nodes_of(stack@),
            build_all(all.take(k)).root == opt_node(root),
        decreases all.len() - k,
    {
        let ghost prev = build_all(all.take(k));
        let tok = next_token(&mut reader);
        let ghost tv = tok@;
        proof {
            assert(all.skip(k)[0] == all[k]);
            assert(all.take(k + 1).drop_last() =~= all.take(k));
            assert(all.take(k + 1).last() == all[k]);
            assert(all.skip(k).drop_first() =~= all.skip(k + 1));
        }
        match tok {
            XmlToken::Open(tag) => {
                let el = element_from_start(tag);
                let ghost ev = node_of(el);
                let ghost sb = nodes_of(stack@);
                stack.push(el);
                assert(nodes_of(stack@) =~= sb.push(ev));
            },
            XmlToken::Close => {
                if stack.len() == 0 {
                    proof {
                        assert(build_all(all.take(k + 1)) == build_step(prev, tv));
                        assert(build_all(all.take(k + 1)).failed);
                        lemma_build_stops(all, k + 1);
                    }
                    return None;
                }
                let ghost sv = nodes_of(stack@);
                let el = stack.pop().unwrap();
                assert(nodes_of(stack@) =~= sv.drop_last());
                attach_exec(&mut stack, &mut root, el);
            },
            XmlToken::SelfClosed(tag) => {
                let el = element_from_start(tag);
                attach_exec(&mut stack, &mut root, el);
            },
            XmlToken::Text(t) => {
                add_text_exec(&mut stack, t);
            },
            XmlToken::End => {
                proof {
                    assert(k + 1 == all.len());
                    assert(all.take(k + 1) =~= all);
                    assert(build_all(all.take(k + 1)) == build_step(prev, tv));
                }
                return root;
            },
            XmlToken::Failed => {
                proof {
                    assert(k + 1 == all.len());
                    assert(all.take(k + 1) =~= all);
                    assert(build_all(all.take(k + 1)) == build_step(prev, tv));
                    assert(build_all(all).failed);
                }
                return None;
            },
            XmlToken::Skip => {},
        }
        proof {
            assert(!is_final(all[k]));
            assert(k + 1 < all.len());
            k = k + 1;
        }
    }
}

/// A failed build stays failed.
proof fn lemma_build_stops(ts: Seq<XmlTokenView>, n: int)
    requires
        0 < n <= ts.len(),
        build_all(ts.take(n)).failed,
    ensures
        build_all(ts).failed,
    decreases ts.len() - n,
{
    if n < ts.len() {
        assert(ts.take(n + 1).drop_last() =~= ts.take(n));
        lemma_build_stops(ts, n + 1);
    } else {
        assert(ts.take(n) =~= ts);
    }
}

/// Parses a rendered template into its root element.
pub fn parse_xml(xml: &str) -> (e: XmlElement)
    requires
        parses(xml@),
    ensures
        document_tree(xml_tokens(xml@)) == Some(node_of(e)),
{
    match build_tree(xml) {
        Some(e) => e,
        None => {
            assert(false);
            XmlElement { name: String::new(), attributes: StrMap::new(), children: Vec::new(), text: None }
        },
    }
}

/// Parses a rendered template; `None` where it is not a document with one
/// root element.
pub fn try_parse_xml(xml: &str) -> (r: Option<XmlElement>)
    ensures
        match r {
            Some(e) => document_tree(xml_tokens(xml@)) == Some(node_of(e)),
            None => !parses(xml@),
        },
{
    match build_tree(xml) {
        Some(_) => Some(parse_xml(xml)),
        None => None,
    }
}

// ------------------------------------------------------------ templates

/// `handlebars::Handlebars`, the template registry, carried as an opaque
/// value.
#[verifier::external_type_specification]
#[verifier::external_body]
pub struct ExHandlebars<'reg>(handlebars::Handlebars<'reg>);

/// `Handlebars::render`: the template named `name` filled with `data`, or
/// `None` where rendering fails. What it writes depends on the registry's
/// templates and helpers, and, in dev mode, on template files read again at
/// each call; a helper may read anything. So the contract says nothing of
/// the text.
#[verifier::external_body]
fn render_template(reg: &handlebars::Handlebars<'_>, name: &str, data: &serde_json::Value) -> (r: Option<String>) {
    reg.render(name, data).ok()
}

/// Fills the template `template_name` with `v` and parses the text into
/// its root element; `None` where the template does not render, or
/// renders to something that is not a document with one root element.
/// Whatever the renderer wrote, an element comes back only as the tree of a
/// parsed document (`try_parse_xml` states exactly which).
pub fn parse(template_name: &str, v: &serde_json::Value, reg: &mut handlebars::Handlebars<'_>) -> (r: Option<
    XmlElement,
>)
    ensures
        *final(reg) == *old(reg),
        r matches Some(e) ==> exists|t: Seq<char>| document_tree(xml_tokens(t)) == Some(node_of(e)),
{
    match render_template(reg, template_name, v) {
        Some(t) => {
            let r = try_parse_xml(t.as_str());
            assert(r matches Some(e) ==> document_tree(xml_tokens(t@)) == Some(node_of(e)));
            r
        },
        None => None,
    }
}

// ------------------------------------------------------------ attributes

/// The text of an attribute.
pub fn parse_text_attr(el: &XmlElement, attr_name: &str) -> (r: Option<String>)
    ensures
        opt_str_view(r) == (if node_of(*el).attributes.dom().contains(attr_name@) {
            Some(node_of(*el).attributes[attr_name@])
        } else {
            None
        }),
{
    match el.attributes.get(attr_name) {
        Some(v) => Some(v.clone()),
        None => None,
    }
}

/// The element's text, or the empty string.
pub fn extract_text(el: &XmlElement) -> (r: String)
    ensures
        r@ == match node_of(*el).text {
            Some(t) => t,
            None => Seq::empty(),
        },
{
    match &el.text {
        Some(t) => t.clone(),
        None => String::new(),
    }
}

/// The message of a failed integer parse, as `ParseIntError` prints in
/// debug form.
pub open spec fn parse_error_message(e: IntError) -> Seq<char> {
    "Attribute Parse Error: ParseIntError { kind: "@ + match e {
        IntError::Empty => "Empty"@,
        IntError::InvalidDigit => "InvalidDigit"@,
        IntError::PosOverflow => "PosOverflow"@,
    } + " }"@
}

/// A `usize` attribute: the number, the parse error, or that the attribute
/// is missing.
pub open spec fn spec_parse_usize(n: XmlNode, attr_name: Seq<char>) -> Result<int, Seq<char>> {
    if n.attributes.dom().contains(attr_name) {
        match parse_unsigned(n.attributes[attr_name], usize::MAX as int) {
            Ok(v) => Ok(v),
            Err(e) => Err(parse_error_message(e)),
        }
    } else {
        Err(attr_name + " not found"@)
    }
}

pub fn parse_usize(el: &XmlElement, attr_name: &str) -> (r: Result<usize, String>)
    ensures
        match r {
            Ok(v) => spec_parse_usize(node_of(*el), attr_name@) == Ok::<int, Seq<char>>(v as int),
            Err(m) => spec_parse_usize(node_of(*el), attr_name@) == Err::<int, Seq<char>>(m@),
        },
{
    match el.attributes.get(attr_name) {
        Some(v) => match parse_unsigned_exec(v.as_str(), usize::MAX as u64) {
            Ok(n) => {
                assert(n <= usize::MAX);
                Ok(n as usize)
            },
            Err(e) => {
                let kind = match e {
                    IntError::Empty => "Empty",
                    IntError::InvalidDigit => "InvalidDigit",
                    IntError::PosOverflow => "PosOverflow",
                };
                let a = concat("Attribute Parse Error: ParseIntError { kind: ", kind);
                Err(concat(a.as_str(), " }"))
            },
        },
        None => Err(concat(attr_name, " not found")),
    }
}

// ------------------------------------------------------------ JSON values

/// A JSON value as the attribute readers see it.
pub enum JsonScalar {
    Bool(bool),
    Str(String),
    /// A number, with its value where that is a `u64`.
    Num(Option<u64>),
    Other,
}

/// A parsed JSON attribute: an object's members, in the order the
/// parser's map keeps them, or some other value.
pub enum JsonShape {
    Object(Vec<(String, JsonScalar)>),
    Other,
}

pub enum JsonScalarView {
    Bool(bool),
    Str(Seq<char>),
    Num(Option<u64>),
    Other,
}

pub enum JsonShapeView {
    Object(Seq<(Seq<char>, JsonScalarView)>),
    Other,
}

impl View for JsonScalar {
    type V = JsonScalarView;

    open spec fn view(&self) -> JsonScalarView {
        match self {
            JsonScalar::Bool(b) => JsonScalarView::Bool(*b),
            JsonScalar::Str(s) => JsonScalarView::Str(s@),
            JsonScalar::Num(n) => JsonScalarView::Num(*n),
            JsonScalar::Other => JsonScalarView::Other,
        }
    }
}

pub open spec fn members_view(v: Seq<(String, JsonScalar)>) -> Seq<(Seq<char>, JsonScalarView)> {
    v.map_values(|p: (String, JsonScalar)| (p.0@, p.1@))
}

impl View for JsonShape {
    type V = JsonShapeView;

    open spec fn view(&self) -> JsonShapeView {
        match self {
            JsonShape::Object(m) => JsonShapeView::Object(members_view(m@)),
            JsonShape::Other => JsonShapeView::Other,
        }
    }
}

pub open spec fn opt_shape_view(o: Option<JsonShape>) -> Option<JsonShapeView> {
    match o {
        Some(s) => Some(s@),
        None => None,
    }
}

/// A value as the attribute readers see it.
pub open spec fn scalar_of(j: JsonView) -> JsonScalarView {
    match j {
        JsonView::Bool(b) => JsonScalarView::Bool(b),
        JsonView::Str(t) => JsonScalarView::Str(t),
        JsonView::Number(n) => JsonScalarView::Num(n),
        _ => JsonScalarView::Other,
    }
}

/// An object's members with their values as scalars; anything else as
/// `Other`.
pub open spec fn shape_of(j: JsonView) -> JsonShapeView {
    match j {
        JsonView::Object(ms) => JsonShapeView::Object(
            ms.map_values(|m: (Seq<char>, JsonView)| (m.0, scalar_of(m.1))),
        ),
        _ => JsonShapeView::Other,
    }
}

/// What `serde_json` parses this text into, where it is JSON, as the
/// attribute readers see it.
pub open spec fn json_shape_of(text: Seq<char>) -> Option<JsonShapeView> {
    match json_of(text) {
        Some(v) => Some(shape_of(v)),
        None => None,
    }
}

/// The list of strings `serde_json` parses this text into, where it is a
/// JSON array of strings.
pub uninterp spec fn json_string_list_of(text: Seq<char>) -> Option<Seq<Seq<char>>>;

fn scalar(j: &Json) -> (r: JsonScalar)
    ensures
        r@ == scalar_of(j@),
{
    match j {
        Json::Bool(b) => JsonScalar::Bool(*b),
        Json::Str(t) => JsonScalar::Str(t.clone()),
        Json::Number(n) => JsonScalar::Num(*n),
        _ => JsonScalar::Other,
    }
}

/// Parses a JSON text as the attribute readers see it.
fn json_shape(text: &str) -> (r: Option<JsonShape>)
    ensures
        opt_shape_view(r) == json_shape_of(text@),
{
    let j = match json_value(text) {
        Some(j) => j,
        None => return None,
    };
    match &j {
        Json::Object(members) => {
            let ghost ms = j@->Object_0;
            let ghost want = ms.map_values(|m: (Seq<char>, JsonView)| (m.0, scalar_of(m.1)));
            let mut out: Vec<(String, JsonScalar)> = Vec::new();
            let n = members.len();
            let mut i: usize = 0;
            while i < n
                invariant
                    n == members@.len(),
                    ms.len() == n,
                    forall|k: int|
                        0 <= k < n ==> ms[k] == (#[trigger] members@[k].0@, json_view(members@[k].1)),
                    want == ms.map_values(|m: (Seq<char>, JsonView)| (m.0, scalar_of(m.1))),
                    i <= n,
                    members_view(out@) == want.take(i as int),
                decreases n - i,
            {
                let ghost before = members_view(out@);
                let p = (members[i].0.clone(), scalar(&members[i].1));
                assert(ms[i as int] == (members@[i as int].0@, json_view(members@[i as int].1)));
                out.push(p);
                assert(members_view(out@) =~= before.push((p.0@, p.1@)));
                assert(want.take(i as int + 1) =~= want.take(i as int).push(want[i as int]));
                i = i + 1;
            }
            assert(want.take(n as int) =~= want);
            Some(JsonShape::Object(out))
        },
        _ => Some(JsonShape::Other),
    }
}

/// `serde_json::from_str::<Vec<String>>`.
#[verifier::external_body]
fn json_string_list(text: &str) -> (r: Option<Vec<String>>)
    ensures
        match r {
            Some(v) => json_string_list_of(text@) == Some(v@.map_values(|s: String| s@)),
            None => json_string_list_of(text@) is None,
        },
{
    serde_json::from_str::<Vec<String>>(text).ok()
}

/// An attribute parsed as JSON; `None` where it is missing or not JSON.
pub open spec fn spec_parse_attr(n: XmlNode, attr_name: Seq<char>) -> Option<JsonShapeView> {
    if n.attributes.dom().contains(attr_name) {
        json_shape_of(n.attributes[attr_name])
    } else {
        None
    }
}

pub fn parse_attr(el: &XmlElement, attr_name: &str) -> (r: Option<JsonShape>)
    ensures
        opt_shape_view(r) == spec_parse_attr(node_of(*el), attr_name@),
{
    match el.attributes.get(attr_name) {
        Some(v) => json_shape(v.as_str()),
        None => None,
    }
}

/// An attribute parsed as a JSON list of strings.
pub open spec fn spec_parse_str_list(n: XmlNode, attr_name: Seq<char>) -> Option<Seq<Seq<char>>> {
    if n.attributes.dom().contains(attr_name) {
        json_string_list_of(n.attributes[attr_name])
    } else {
        None
    }
}

pub fn parse_str_list(el: &XmlElement, attr_name: &str) -> (r: Option<Vec<String>>)
    ensures
        match r {
            Some(v) => spec_parse_str_list(node_of(*el), attr_name@) == Some(v@.map_values(|s: String| s@)),
            None => spec_parse_str_list(node_of(*el), attr_name@) is None,
        },
{
    match el.attributes.get(attr_name) {
        Some(v) => json_string_list(v.as_str()),
        None => None,
    }
}

pub open spec fn member_index(m: Seq<(Seq<char>, JsonScalarView)>, key: Seq<char>) -> Option<int> {
    first_match(m, |q: (Seq<char>, JsonScalarView)| q.0 == key)
}

/// The member `key` of an object (`Value::get`).
pub open spec fn json_get(v: JsonShapeView, key: Seq<char>) -> Option<JsonScalarView> {
    match v {
        JsonShapeView::Object(m) => match member_index(m, key) {
            Some(i) => Some(m[i].1),
            None => None,
        },
        JsonShapeView::Other => None,
    }
}

pub open spec fn as_str(v: Option<JsonScalarView>) -> Option<Seq<char>> {
    match v {
        Some(JsonScalarView::Str(s)) => Some(s),
        _ => None,
    }
}

pub open spec fn as_bool(v: Option<JsonScalarView>) -> Option<bool> {
    match v {
        Some(JsonScalarView::Bool(b)) => Some(b),
        _ => None,
    }
}

pub fn json_get_exec<'a>(v: &'a JsonShape, key: &str) -> (r: Option<&'a JsonScalar>)
    ensures
        match r {
            Some(x) => json_get(v@, key@) == Some(x@),
            None => json_get(v@, key@) is None,
        },
{
    match v {
        JsonShape::Object(m) => {
            let ghost s = members_view(m@);
            let ghost p = |q: (Seq<char>, JsonScalarView)| q.0 == key@;
            let n = m.len();
            let mut i: usize = 0;
            while i < n
                invariant
                    n == m@.len(),
                    i <= n,
                    s == members_view(m@),
                    v@ == JsonShapeView::Object(s),
                    p == (|q: (Seq<char>, JsonScalarView)| q.0 == key@),
                    forall|j: int| 0 <= j < i ==> !p(#[trigger] s[j]),
                decreases n - i,
            {
                if str_eq(m[i].0.as_str(), key) {
                    proof {
                        lemma_first_match_found(s, p, i as int);
                        assert(s[i as int].1 == m@[i as int].1@);
                        assert(member_index(s, key@) == Some(i as int));
                    }
                    return Some(&m[i].1);
                }
                i = i + 1;
            }
            proof {
                lemma_first_match_none(s, p);
            }
            None
        },
        JsonShape::Other => None,
    }
}

/// A colour name set in a JSON style attribute (`fg` or `bg`).
pub fn apply_color(v: &JsonShape, color_attr: &str) -> (r: Option<String>)
    ensures
        opt_str_view(r) == as_str(json_get(v@, color_attr@)),
{
    match json_get_exec(v, color_attr) {
        Some(JsonScalar::Str(s)) => Some(s.clone()),
        _ => None,
    }
}

/// Foreground and background colour names of a style.
pub struct StyleSpec {
    pub fg: Option<String>,
    pub bg: Option<String>,
}

pub struct StyleView {
    pub fg: Option<Seq<char>>,
    pub bg: Option<Seq<char>>,
}

impl View for StyleSpec {
    type V = StyleView;

    open spec fn view(&self) -> StyleView {
        StyleView { fg: opt_str_view(self.fg), bg: opt_str_view(self.bg) }
    }
}

/// The style a JSON style attribute sets; no attribute or no JSON sets none.
pub open spec fn spec_parse_styles(n: XmlNode, attr_name: Seq<char>) -> StyleView {
    match spec_parse_attr(n, attr_name) {
        Some(v) => StyleView { fg: as_str(json_get(v, "fg"@)), bg: as_str(json_get(v, "bg"@)) },
        None => StyleView { fg: None, bg: None },
    }
}

pub fn parse_styles(el: &XmlElement, attr_name: &str) -> (r: StyleSpec)
    ensures
        r@ == spec_parse_styles(node_of(*el), attr_name@),
{
    match parse_attr(el, attr_name) {
        Some(v) => StyleSpec { fg: apply_color(&v, "fg"), bg: apply_color(&v, "bg") },
        None => StyleSpec { fg: None, bg: None },
    }
}

/// Text alignment.
#[derive(Clone, Copy, PartialEq, Eq, Debug)]
pub enum Align {
    Left,
    Center,
    Right,
}

pub open spec fn spec_alignment(t: Seq<char>) -> Align {
    if t == "Center"@ {
        Align::Center
    } else if t == "Right"@ {
        Align::Right
    } else {
        Align::Left
    }
}

pub fn alignment_from_text(txt_alignment: &str) -> (r: Align)
    ensures
        r == spec_alignment(txt_alignment@),
{
    if str_eq(txt_alignment, "Center") {
        Align::Center
    } else if str_eq(txt_alignment, "Right") {
        Align::Right
    } else {
        Align::Left
    }
}

/// A number member, truncated to 16 bits as `as u16` does.
pub fn get_u16_value(obj: &JsonShape, key: &str) -> (r: u16)
    requires
        json_get(obj@, key@) matches Some(JsonScalarView::Num(Some(_))),
    ensures
        json_get(obj@, key@) matches Some(JsonScalarView::Num(Some(n))) && r == n as u16,
{
    match json_get_exec(obj, key) {
        Some(JsonScalar::Num(Some(n))) => *n as u16,
        _ => {
            assert(false);
            0
        },
    }
}

/// The pieces of `s` between colons (`str::split(':')`).
pub open spec fn split_colon(s: Seq<char>) -> Seq<Seq<char>>
    decreases s.len(),
{
    if s.len() == 0 {
        seq![Seq::empty()]
    } else {
        let rest = split_colon(s.drop_last());
        if s.last() == ':' {
            rest.push(Seq::empty())
        } else {
            rest.update(rest.len() - 1, rest.last().push(s.last()))
        }
    }
}

/// A ratio `a:b` of two `u32`s.
pub open spec fn ratio_of(s: Seq<char>) -> Option<(int, int)> {
    let parts = split_colon(s);
    if parts.len() == 2 {
        match (parse_unsigned(parts[0], u32::MAX as int), parse_unsigned(parts[1], u32::MAX as int)) {
            (Ok(a), Ok(b)) => Some((a, b)),
            _ => None,
        }
    } else {
        None
    }
}

fn split_on_colon(s: &str) -> (r: Vec<String>)
    ensures
        r@.map_values(|x: String| x@) == split_colon(s@),
{
    let v = chars_of(s);
    let n = v.len();
    let mut parts: Vec<String> = Vec::new();
    let mut start: usize = 0;
    let mut i: usize = 0;
    assert(v@.take(0) =~= Seq::<char>::empty());
    assert(parts@.map_values(|x: String| x@).push(v@.subrange(0, 0)) =~= seq![Seq::<char>::empty()]);
    while i < n
        invariant
            n == v@.len(),
            v@ == s@,
            start <= i <= n,
            split_colon(v@.take(i as int)) == parts@.map_values(|x: String| x@).push(v@.subrange(start as int, i as int)),
        decreases n - i,
    {
        let ghost pv = parts@.map_values(|x: String| x@);
        assert(v@.take(i as int + 1).drop_last() =~= v@.take(i as int));
        assert(v@.take(i as int + 1).last() == v@[i as int]);
        if v[i] == ':' {
            let piece = string_from_range(&v, start, i);
            parts.push(piece);
            assert(parts@.map_values(|x: String| x@) =~= pv.push(v@.subrange(start as int, i as int)));
            start = i + 1;
        } else {
            assert(v@.subrange(start as int, i as int + 1) =~= v@.subrange(start as int, i as int).push(v@[i as int]));
        }
        i = i + 1;
        assert(v@.subrange(start as int, i as int) =~= v@.subrange(start as int, i as int) );
        proof {
            if start == i {
                assert(v@.subrange(start as int, i as int) =~= Seq::<char>::empty());
            }
        }
    }
    assert(v@.take(n as int) =~= v@);
    let last = string_from_range(&v, start, n);
    let ghost pv = parts@.map_values(|x: String| x@);
    parts.push(last);
    assert(parts@.map_values(|x: String| x@) =~= pv.push(v@.subrange(start as int, n as int)));
    parts
}

/// Reads a ratio `a:b`; `None` where the text is not one.
pub fn ratio_from_text(s: &str) -> (r: Option<(u32, u32)>)
    ensures
        match ratio_of(s@) {
            Some(p) => r == Some((p.0 as u32, p.1 as u32)),
            None => r is None,
        },
{
    let parts = split_on_colon(s);
    if parts.len() != 2 {
        return None;
    }
    assert(parts@[0]@ == split_colon(s@)[0]);
    assert(parts@[1]@ == split_colon(s@)[1]);
    let a = parse_unsigned_exec(parts[0].as_str(), u32::MAX as u64);
    let b = parse_unsigned_exec(parts[1].as_str(), u32::MAX as u64);
    match (a, b) {
        (Ok(a), Ok(b)) => Some((a as u32, b as u32)),
        _ => None,
    }
}

/// A ratio member `"a:b"`.
pub fn get_ratio_value(obj: &JsonShape, key: &str) -> (r: Vec<u32>)
    requires
        as_str(json_get(obj@, key@)) matches Some(t) && ratio_of(t) is Some,
    ensures
        as_str(json_get(obj@, key@)) matches Some(t) && ratio_of(t) matches Some(p) && r@ == seq![
            p.0 as u32,
            p.1 as u32,
        ],
{
    let text = match json_get_exec(obj, key) {
        Some(JsonScalar::Str(s)) => s,
        _ => {
            assert(false);
            return Vec::new();
        },
    };
    match ratio_from_text(text.as_str()) {
        Some((a, b)) => {
            let mut r: Vec<u32> = Vec::new();
            r.push(a);
            r.push(b);
            assert(r@ =~= seq![a, b]);
            r
        },
        None => {
            assert(false);
            Vec::new()
        },
    }
}

} // verus!
