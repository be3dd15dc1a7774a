//! A JSON value as plain data, read and written by `serde_json`.
use vstd::prelude::*;

verus! {

/// A JSON value. Numbers keep the text `serde_json` gives them; object members keep the order
/// in which `serde_json` hands them out.
#[derive(Debug)]
pub enum Json {
    Null,
    Bool(bool),
    Number(String),
    Str(String),
    Array(Vec<Json>),
    Object(Vec<(String, Json)>),
}

/// A JSON value in specifications.
pub enum JsonView {
    Null,
    Bool(bool),
    Number(Seq<char>),
    Str(Seq<char>),
    Array(Seq<JsonView>),
    Object(Seq<(Seq<char>, JsonView)>),
}

/// The value of a JSON value in specifications.
pub open spec fn json_view(j: Json) -> JsonView
    decreases j,
{
    match j {
        Json::Null => JsonView::Null,
        Json::Bool(b) => JsonView::Bool(b),
        Json::Number(n) => JsonView::Number(n@),
        Json::Str(s) => JsonView::Str(s@),
        Json::Array(items) => {
            proof {
                assert(decreases_to!(items => items@));
            }
            JsonView::Array(items_view(items@))
        },
        Json::Object(members) => {
            proof {
                assert(decreases_to!(members => members@));
            }
            JsonView::Object(members_view(members@))
        },
    }
}

/// The values of JSON values in specifications.
pub open spec fn items_view(s: Seq<Json>) -> Seq<JsonView>
    decreases s,
{
    if s.len() == 0 {
        Seq::empty()
    } else {
        proof {
            assert(decreases_to!(s => s[s.len() - 1]));
            assert(decreases_to!(s => s.subrange(0, s.len() - 1)));
        }
        items_view(s.subrange(0, s.len() - 1)).push(json_view(s[s.len() - 1]))
    }
}

/// The members of a JSON object in specifications.
pub open spec fn members_view(s: Seq<(String, Json)>) -> Seq<(Seq<char>, JsonView)>
    decreases s,
{
    if s.len() == 0 {
        Seq::empty()
    } else {
        proof {
            assert(decreases_to!(s => s[s.len() - 1]));
            assert(decreases_to!(s[s.len() - 1] => s[s.len() - 1].1));
            assert(decreases_to!(s => s.subrange(0, s.len() - 1)));
        }
        members_view(s.subrange(0, s.len() - 1)).push((s[s.len() - 1].0@, json_view(s[s.len() - 1].1)))
    }
}

impl View for Json {
    type V = JsonView;

    open spec fn view(&self) -> JsonView {
        json_view(*self)
    }
}

/// `serde_json::Value`, carried through the conversions below and never looked into.
#[verifier::external_type_specification]
#[verifier::external_body]
pub struct ExSerdeValue(serde_json::Value);

/// What `serde_json::from_str::<serde_json::Value>` reads from a text, as a plain value;
/// `None` when the text is not JSON.
pub uninterp spec fn spec_parse_json(text: Seq<char>) -> Option<JsonView>;

/// Reads JSON text with `serde_json::from_str::<serde_json::Value>`; the value is handed
/// back as plain data (numbers as `serde_json` prints them, object members in the order
/// `serde_json`'s map gives). Claimed: the result is `spec_parse_json` of the text.
#[verifier::external_body]
pub(crate) fn parse_json(text: &str) -> (r: Option<Json>)
    ensures
        match r {
            Some(j) => spec_parse_json(text@) == Some(j@),
            None => spec_parse_json(text@) is None,
        },
{
    match serde_json::from_str::<serde_json::Value>(text) {
        Ok(v) => Some(from_serde(&v)),
        Err(_) => None,
    }
}

/// A `serde_json::Value` as plain data, member for member.
#[verifier::external_body]
fn from_serde(v: &serde_json::Value) -> Json {
    match v {
        serde_json::Value::Null => Json::Null,
        serde_json::Value::Bool(b) => Json::Bool(*b),
        serde_json::Value::Number(n) => Json::Number(n.to_string()),
        serde_json::Value::String(s) => Json::Str(s.clone()),
        serde_json::Value::Array(a) => Json::Array(a.iter().map(from_serde).collect()),
        serde_json::Value::Object(m) => Json::Object(m.iter().map(|(k, x)| (k.clone(), from_serde(x))).collect()),
    }
}

/// Plain data as a `serde_json::Value`, member for member.
#[verifier::external_body]
fn to_serde(v: &Json) -> serde_json::Value {
    match v {
        Json::Null => serde_json::Value::Null,
        Json::Bool(b) => serde_json::Value::Bool(*b),
        Json::Number(n) => n.parse::<serde_json::Number>().map(serde_json::Value::Number).unwrap_or(serde_json::Value::Null),
        Json::Str(s) => serde_json::Value::String(s.clone()),
        Json::Array(a) => serde_json::Value::Array(a.iter().map(to_serde).collect()),
        Json::Object(m) => serde_json::Value::Object(m.iter().map(|(k, x)| (k.clone(), to_serde(x))).collect()),
    }
}

/// The compact JSON text `serde_json` writes for a value (`Value::to_string`).
pub uninterp spec fn spec_json_text(v: JsonView) -> Seq<char>;

/// Writes a value as compact JSON text with `serde_json` (`Value::to_string`). Claimed: the
/// result is `spec_json_text` of the value.
#[verifier::external_body]
pub(crate) fn json_text(v: &Json) -> (r: String)
    ensures
        r@ == spec_json_text(v@),
{
    to_serde(v).to_string()
}

/// The indented JSON text `serde_json::to_string_pretty` writes for a value.
pub uninterp spec fn spec_json_pretty_text(v: JsonView) -> Seq<char>;

/// Writes a value as indented JSON text with `serde_json::to_string_pretty` (two-space
/// indentation); a `Value` always serializes, so the empty fallback is never taken. Claimed:
/// the result is `spec_json_pretty_text` of the value.
#[verifier::external_body]
pub(crate) fn json_pretty_text(v: &Json) -> (r: String)
    ensures
        r@ == spec_json_pretty_text(v@),
{
    serde_json::to_string_pretty(&to_serde(v)).unwrap_or_default()
}

/// The value of the first member named `key` of an object; `None` for a missing member or a
/// value that is no object (what `serde_json::Value::get` with a name gives).
pub open spec fn member(v: JsonView, key: Seq<char>) -> Option<JsonView> {
    match v {
        JsonView::Object(ms) => member_from(ms, key, 0),
        _ => None,
    }
}

/// The value of the first member named `key`, from position `i` on.
pub open spec fn member_from(ms: Seq<(Seq<char>, JsonView)>, key: Seq<char>, i: nat) -> Option<JsonView>
    decreases ms.len() - i,
{
    if i >= ms.len() {
        None
    } else if ms[i as int].0 == key {
        Some(ms[i as int].1)
    } else {
        member_from(ms, key, i + 1)
    }
}

pub proof fn lemma_members_view_index(s: Seq<(String, Json)>, i: int)
    requires
        0 <= i < s.len(),
    ensures
        members_view(s).len() == s.len(),
        members_view(s)[i] == (s[i].0@, s[i].1@),
    decreases s.len(),
{
    lemma_members_view_len(s);
    let t = s.subrange(0, s.len() - 1);
    lemma_members_view_len(t);
    if i < s.len() - 1 {
        lemma_members_view_index(t, i);
        assert(t[i] == s[i]);
    }
}

pub proof fn lemma_members_view_len(s: Seq<(String, Json)>)
    ensures
        members_view(s).len() == s.len(),
    decreases s.len(),
{
    if s.len() > 0 {
        lemma_members_view_len(s.subrange(0, s.len() - 1));
    }
}

/// The first member named `key` of an object.
pub fn get_member<'a>(v: &'a Json, key: &str) -> (r: Option<&'a Json>)
    ensures
        match r {
            Some(x) => member(v@, key@) == Some(x@),
            None => member(v@, key@) is None,
        },
{
    match v {
        Json::Object(ms) => {
            proof {
                lemma_members_view_len(ms@);
            }
            assert(v@ == JsonView::Object(members_view(ms@)));
            let mut i: usize = 0;
            while i < ms.len()
                invariant
                    i <= ms.len(),
                    members_view(ms@).len() == ms@.len(),
                    v@ == JsonView::Object(members_view(ms@)),
                    member_from(members_view(ms@), key@, 0) == member_from(members_view(ms@), key@, i as nat),
                decreases ms.len() - i,
            {
                proof {
                    lemma_members_view_index(ms@, i as int);
                }
                if crate::text::str_eq(ms[i].0.as_str(), key) {
                    assert(members_view(ms@)[i as int].1 == ms@[i as int].1@);
                    return Some(&ms[i].1);
                }
                i = i + 1;
            }
            None
        },
        _ => None,
    }
}

/// A value as text: a string as it is, a number as written, `true`, `false`, `null`, and
/// arrays and objects as compact JSON.
pub open spec fn value_text(v: JsonView) -> Seq<char> {
    match v {
        JsonView::Str(s) => s,
        JsonView::Number(n) => n,
        JsonView::Bool(b) => if b {
            "true"@
        } else {
            "false"@
        },
        JsonView::Null => "null"@,
        _ => spec_json_text(v),
    }
}

/// A value as text: see `value_text`.
pub fn value_to_text(v: &Json) -> (r: String)
    ensures
        r@ == value_text(v@),
{
    match v {
        Json::Str(s) => s.clone(),
        Json::Number(n) => n.clone(),
        Json::Bool(b) => if *b {
            crate::text::copy_str("true")
        } else {
            crate::text::copy_str("false")
        },
        Json::Null => crate::text::copy_str("null"),
        _ => json_text(v),
    }
}

/// The views of the elements, one for one.
pub proof fn lemma_items_view_index(s: Seq<Json>, i: int)
    requires
        0 <= i < s.len(),
    ensures
        items_view(s).len() == s.len(),
        items_view(s)[i] == s[i]@,
    decreases s.len(),
{
    lemma_items_view_len(s);
    let t = s.subrange(0, s.len() - 1);
    lemma_items_view_len(t);
    if i < s.len() - 1 {
        lemma_items_view_index(t, i);
        assert(t[i] == s[i]);
    }
}

/// As many views as elements.
pub proof fn lemma_items_view_len(s: Seq<Json>)
    ensures
        items_view(s).len() == s.len(),
    decreases s.len(),
{
    if s.len() > 0 {
        lemma_items_view_len(s.subrange(0, s.len() - 1));
    }
}

/// Adding an element adds its view.
pub proof fn lemma_items_view_push(s: Seq<Json>, x: Json)
    ensures
        items_view(s.push(x)) == items_view(s).push(x@),
{
    assert(s.push(x).subrange(0, s.len() as int) =~= s);
}

/// A copy of a value.
pub fn copy_json(v: &Json) -> (r: Json)
    ensures
        r@ == v@,
    decreases v,
{
    match v {
        Json::Null => Json::Null,
        Json::Bool(b) => Json::Bool(*b),
        Json::Number(n) => Json::Number(n.clone()),
        Json::Str(s) => Json::Str(s.clone()),
        Json::Array(items) => {
            let mut out: Vec<Json> = Vec::new();
            let mut i: usize = 0;
            while i < items.len()
                invariant
                    i <= items.len(),
                    *v == Json::Array(*items),
                    items_view(out@) == items_view(items@.take(i as int)),
                decreases items.len() - i,
            {
                proof {
                    assert(decreases_to!(*v => (*v)->Array_0));
                    assert(decreases_to!(*items => items@));
                    assert(decreases_to!(items@ => items@[i as int]));
                }
                let x = copy_json(&items[i]);
                let ghost o0 = out@;
                out.push(x);
                proof {
                    lemma_items_view_push(o0, x);
                    assert(items@.take(i + 1) =~= items@.take(i as int).push(items@[i as int]));
                    lemma_items_view_push(items@.take(i as int), items@[i as int]);
                }
                i = i + 1;
            }
            assert(items@.take(i as int) =~= items@);
            Json::Array(out)
        },
        Json::Object(ms) => {
            let mut out: Vec<(String, Json)> = Vec::new();
            let mut i: usize = 0;
            while i < ms.len()
                invariant
                    i <= ms.len(),
                    *v == Json::Object(*ms),
                    members_view(out@) == members_view(ms@.take(i as int)),
                decreases ms.len() - i,
            {
                proof {
                    assert(decreases_to!(*v => (*v)->Object_0));
                    assert(decreases_to!(*ms => ms@));
                    assert(decreases_to!(ms@ => ms@[i as int]));
                    assert(decreases_to!(ms@[i as int] => ms@[i as int].1));
                }
                let x = copy_json(&ms[i].1);
                let k = ms[i].0.clone();
                let ghost o0 = out@;
                out.push((k, x));
                proof {
                    assert(out@.subrange(0, o0.len() as int) =~= o0);
                    assert(ms@.take(i + 1).subrange(0, i as int) =~= ms@.take(i as int));
                }
                i = i + 1;
            }
            assert(ms@.take(i as int) =~= ms@);
            Json::Object(out)
        },
    }
}

} // verus!
