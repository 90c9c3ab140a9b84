//! JSON documents as the library reads them: a tree of values parsed by
//! `serde_json`, and the lookups the socket messages need.
use vstd::prelude::*;
use serde_json::Value;
use crate::text::str_eq;
use crate::types::opt_str_view;
use crate::util::{first_match, lemma_first_match_found, lemma_first_match_none};

verus! {

/// A JSON value. A number keeps its value where it is a `u64`.
pub enum Json {
    Null,
    Bool(bool),
    Number(Option<u64>),
    Str(String),
    Array(Vec<Json>),
    /// The members in the order of the parser's map; no key occurs twice.
    Object(Vec<(String, Json)>),
}

pub enum JsonView {
    Null,
    Bool(bool),
    Number(Option<u64>),
    Str(Seq<char>),
    Array(Seq<JsonView>),
    Object(Seq<(Seq<char>, JsonView)>),
}

/// The value as a mathematical tree.
pub open spec fn json_view(j: Json) -> JsonView
    decreases j,
{
    match j {
        Json::Null => JsonView::Null,
        Json::Bool(b) => JsonView::Bool(b),
        Json::Number(n) => JsonView::Number(n),
        Json::Str(s) => JsonView::Str(s@),
        Json::Array(items) => JsonView::Array(
            Seq::new(
                items@.len(),
                |i: int|
                    if 0 <= i < items@.len() {
                        json_view(items@[i])
                    } else {
                        JsonView::Null
                    },
            ),
        ),
        Json::Object(members) => JsonView::Object(
            Seq::new(
                members@.len(),
                |i: int|
                    if 0 <= i < members@.len() {
                        (members@[i].0@, json_view(members@[i].1))
                    } else {
                        (Seq::empty(), JsonView::Null)
                    },
            ),
        ),
    }
}

impl View for Json {
    type V = JsonView;

    open spec fn view(&self) -> JsonView {
        json_view(*self)
    }
}

pub open spec fn opt_json_view(o: Option<Json>) -> Option<JsonView> {
    match o {
        Some(j) => Some(j@),
        None => None,
    }
}

// ------------------------------------------------------------ parsing

/// `serde_json::Value`, carried as an opaque value; the tree it holds is
/// named by `value_json`.
#[verifier::external_type_specification]
#[verifier::external_body]
pub struct ExJsonValue(Value);

/// What `serde_json` parses this text into, where it is JSON.
pub uninterp spec fn json_of(text: Seq<char>) -> Option<JsonView>;

/// The tree a parsed `serde_json::Value` holds.
pub uninterp spec fn value_json(v: Value) -> JsonView;

/// `serde_json::from_str::<serde_json::Value>`. The contract claims that
/// the call succeeds exactly where the text is JSON, with the tree that
/// `json_of` names.
#[verifier::external_body]
fn read_json(text: &str) -> (r: Option<Value>)
    ensures
        match r {
            Some(v) => json_of(text@) == Some(value_json(v)),
            None => json_of(text@) is None,
        },
{
    serde_json::from_str::<Value>(text).ok()
}

/// The top of a parsed value, its elements and members still parsed values.
pub enum JsonLayer<'a> {
    Null,
    Bool(bool),
    Number(Option<u64>),
    Str(String),
    Array(Vec<&'a Value>),
    Object(Vec<(String, &'a Value)>),
}

/// The top of `j` is what `layer` holds.
pub open spec fn layer_of(layer: JsonLayer, j: JsonView) -> bool {
    match layer {
        JsonLayer::Null => j is Null,
        JsonLayer::Bool(b) => j == JsonView::Bool(b),
        JsonLayer::Number(n) => j == JsonView::Number(n),
        JsonLayer::Str(s) => j == JsonView::Str(s@),
        JsonLayer::Array(items) => j matches JsonView::Array(js) && items@.len() == js.len() && forall|i: int|
            0 <= i < js.len() ==> value_json(*#[trigger] items@[i]) == js[i],
        JsonLayer::Object(members) => j matches JsonView::Object(ms) && members@.len() == ms.len() && forall|i: int|
            0 <= i < ms.len() ==> (#[trigger] members@[i]).0@ == ms[i].0 && value_json(*members@[i].1) == ms[i].1,
    }
}

/// The variant of a `serde_json::Value` with its contents: a number as
/// `Number::as_u64` reads it, an array's elements in order, an object's
/// members in the map's iteration order. The contract claims that this is
/// the top of the tree `value_json` names.
#[verifier::external_body]
fn value_layer(v: &Value) -> (r: JsonLayer<'_>)
    ensures
        layer_of(r, value_json(*v)),
{
    match v {
        Value::Null => JsonLayer::Null,
        Value::Bool(b) => JsonLayer::Bool(*b),
        Value::Number(n) => JsonLayer::Number(n.as_u64()),
        Value::String(s) => JsonLayer::Str(s.clone()),
        Value::Array(a) => JsonLayer::Array(a.iter().collect()),
        Value::Object(m) => JsonLayer::Object(m.iter().map(|(k, x)| (k.clone(), x)).collect()),
    }
}

/// A parsed value as a tree of the library's values.
fn json_tree(v: &Value) -> (r: Json)
    ensures
        r@ == value_json(*v),
    decreases value_json(*v),
{
    let ghost top = value_json(*v);
    match value_layer(v) {
        JsonLayer::Null => Json::Null,
        JsonLayer::Bool(b) => Json::Bool(b),
        JsonLayer::Number(n) => Json::Number(n),
        JsonLayer::Str(s) => Json::Str(s),
        JsonLayer::Array(items) => {
            let ghost js = top->Array_0;
            let mut out: Vec<Json> = Vec::new();
            let n = items.len();
            let mut i: usize = 0;
            while i < n
                invariant
                    n == items@.len(),
                    top == value_json(*v),
                    top == JsonView::Array(js),
                    js.len() == n,
                    forall|k: int| 0 <= k < js.len() ==> value_json(*#[trigger] items@[k]) == js[k],
                    i <= n,
                    out@.len() == i,
                    forall|k: int| 0 <= k < i ==> json_view(#[trigger] out@[k]) == js[k],
                decreases n - i,
            {
                assert(decreases_to!(top => top->Array_0));
                assert(decreases_to!(js => js[i as int]));
                let x = json_tree(items[i]);
                out.push(x);
                i = i + 1;
            }
            let r = Json::Array(out);
            assert(json_view(r)->Array_0 =~= js);
            r
        },
        JsonLayer::Object(members) => {
            let ghost ms = top->Object_0;
            let mut out: Vec<(String, Json)> = Vec::new();
            let n = members.len();
            let mut i: usize = 0;
            while i < n
                invariant
                    n == members@.len(),
                    top == value_json(*v),
                    top == JsonView::Object(ms),
                    ms.len() == n,
                    forall|k: int|
                        0 <= k < ms.len() ==> (#[trigger] members@[k]).0@ == ms[k].0 && value_json(*members@[k].1)
                            == ms[k].1,
                    i <= n,
                    out@.len() == i,
                    forall|k: int| 0 <= k < i ==> (#[trigger] out@[k]).0@ == ms[k].0 && json_view(out@[k].1) == ms[k].1,
                decreases n - i,
            {
                assert(decreases_to!(top => top->Object_0));
                assert(decreases_to!(ms => ms[i as int]));
                assert(decreases_to!(ms[i as int] => ms[i as int].1));
                let (key, x) = &members[i];
                let x = json_tree(*x);
                out.push((key.clone(), x));
                i = i + 1;
            }
            let r = Json::Object(out);
            assert(json_view(r)->Object_0 =~= ms);
            r
        },
    }
}

/// Parses a JSON text; `None` where it is not JSON.
pub fn json_value(text: &str) -> (r: Option<Json>)
    ensures
        opt_json_view(r) == json_of(text@),
{
    match read_json(text) {
        Some(v) => Some(json_tree(&v)),
        None => None,
    }
}

// ------------------------------------------------------------ lookups

/// The member `key` of an object, as `value[key]` reads it: `Null` where
/// the value is not an object or has no such member.
pub open spec fn member_of(j: JsonView, key: Seq<char>) -> JsonView {
    match j {
        JsonView::Object(ms) => match first_match(ms, |m: (Seq<char>, JsonView)| m.0 == key) {
            Some(i) => ms[i].1,
            None => JsonView::Null,
        },
        _ => JsonView::Null,
    }
}

/// The text of a string value (`Value::as_str`).
pub open spec fn str_of(j: JsonView) -> Option<Seq<char>> {
    match j {
        JsonView::Str(s) => Some(s),
        _ => None,
    }
}

/// The truth value of a boolean (`Value::as_bool`).
pub open spec fn bool_of(j: JsonView) -> Option<bool> {
    match j {
        JsonView::Bool(b) => Some(b),
        _ => None,
    }
}

/// The member `key` of an object; `None` where `member_of` is `Null`
/// because the member is missing.
pub fn member<'a>(j: &'a Json, key: &str) -> (r: Option<&'a Json>)
    ensures
        match r {
            Some(x) => x@ == member_of(j@, key@),
            None => member_of(j@, key@) == JsonView::Null,
        },
{
    match j {
        Json::Object(members) => {
            let ghost ms = j@->Object_0;
            let ghost p = |m: (Seq<char>, JsonView)| m.0 == key@;
            let n = members.len();
            let mut i: usize = 0;
            while i < n
                invariant
                    n == members@.len(),
                    i <= n,
                    j@ == JsonView::Object(ms),
                    ms.len() == n,
                    forall|k: int|
                        0 <= k < n ==> ms[k] == (#[trigger] members@[k].0@, json_view(members@[k].1)),
                    p == (|m: (Seq<char>, JsonView)| m.0 == key@),
                    forall|k: int| 0 <= k < i ==> !p(#[trigger] ms[k]),
                decreases n - i,
            {
                assert(ms[i as int] == (members@[i as int].0@, json_view(members@[i as int].1)));
                if str_eq(members[i].0.as_str(), key) {
                    proof {
                        lemma_first_match_found(ms, p, i as int);
                    }
                    return Some(&members[i].1);
                }
                i = i + 1;
            }
            proof {
                lemma_first_match_none(ms, p);
            }
            None
        },
        _ => None,
    }
}

/// The text of the member `key`, where it is a string.
pub fn str_member(j: &Json, key: &str) -> (r: Option<String>)
    ensures
        opt_str_view(r) == str_of(member_of(j@, key@)),
{
    match member(j, key) {
        Some(Json::Str(s)) => Some(s.clone()),
        _ => None,
    }
}

} // verus!
