//! Taking values out of a JSON response body into variables.
use vstd::prelude::*;

use crate::json::{get_member, member, parse_json, spec_parse_json, value_text, value_to_text, Json, JsonView};
use crate::models::Response;
use crate::scripting::{distinct_names, set_var, set_var_exec};
use crate::text::{split_char, split_on};

verus! {

/// Which variable gets which value of the body.
#[derive(Debug, Clone, PartialEq, Eq)]
pub struct Extraction {
    /// The variable to set.
    pub var_name: String,
    /// The member names leading to the value, joined by dots (`data.token`).
    pub json_path: String,
}

/// The value reached from `v` by following the object members named `keys` in turn.
pub open spec fn follow_members(v: JsonView, keys: Seq<Seq<char>>) -> Option<JsonView>
    decreases keys.len(),
{
    if keys.len() == 0 {
        Some(v)
    } else {
        match member(v, keys[0]) {
            Some(x) => follow_members(x, keys.drop_first()),
            None => None,
        }
    }
}

/// Follows the object members named `keys` in turn from `v`.
pub fn follow_member_path<'a>(v: &'a Json, keys: &Vec<String>) -> (r: Option<&'a Json>)
    ensures
        match r {
            Some(x) => follow_members(v@, keys.deep_view()) == Some(x@),
            None => follow_members(v@, keys.deep_view()) is None,
        },
{
    let ghost ks = keys.deep_view();
    let mut cur = v;
    let mut i: usize = 0;
    assert(ks.skip(0) =~= ks);
    while i < keys.len()
        invariant
            i <= keys.len(),
            ks == keys.deep_view(),
            follow_members(v@, ks) == follow_members(cur@, ks.skip(i as int)),
        decreases keys.len() - i,
    {
        let ghost rest = ks.skip(i as int);
        assert(rest[0] == keys[i as int]@);
        assert(rest.drop_first() =~= ks.skip(i + 1));
        match get_member(cur, keys[i].as_str()) {
            Some(x) => {
                cur = x;
            },
            None => {
                return None;
            },
        }
        i = i + 1;
    }
    assert(ks.skip(i as int).len() == 0);
    Some(cur)
}

/// The text of the value at a dotted member path of a JSON body; `None` when the body is no
/// JSON or a member is missing.
pub open spec fn extracted(body: Seq<char>, path: Seq<char>) -> Option<Seq<char>> {
    match spec_parse_json(body) {
        Some(j) => match follow_members(j, split_char(path, '.')) {
            Some(x) => Some(value_text(x)),
            None => None,
        },
        None => None,
    }
}

/// The text of the value at a dotted member path of the response body.
pub fn extract_by_path(resp: &Response, path: &str) -> (r: Option<String>)
    ensures
        match r {
            Some(t) => extracted(resp.body@, path@) == Some(t@),
            None => extracted(resp.body@, path@) is None,
        },
{
    let json = match parse_json(resp.body.as_str()) {
        Some(j) => j,
        None => return None,
    };
    let keys = split_on(path, '.');
    match follow_member_path(&json, &keys) {
        Some(x) => Some(value_to_text(x)),
        None => None,
    }
}

/// The variables the extractions give, in order, from `vars` on: each one found sets its
/// variable (a later one wins), each one missing is skipped.
pub open spec fn extracted_vars(
    body: Seq<char>,
    exts: Seq<Extraction>,
    vars: Seq<(Seq<char>, Seq<char>)>,
) -> Seq<(Seq<char>, Seq<char>)>
    decreases exts.len(),
{
    if exts.len() == 0 {
        vars
    } else {
        let e = exts[0];
        let next = match extracted(body, e.json_path@) {
            Some(v) => set_var(vars, e.var_name@, v),
            None => vars,
        };
        extracted_vars(body, exts.drop_first(), next)
    }
}

/// Takes the values of the extractions out of the response body.
pub fn extract_variables(resp: &Response, extractions: &[Extraction]) -> (r: Vec<(String, String)>)
    ensures
        r.deep_view() == extracted_vars(resp.body@, extractions@, Seq::empty()),
        distinct_names(r.deep_view()),
{
    let mut vars: Vec<(String, String)> = Vec::new();
    let mut i: usize = 0;
    assert(vars.deep_view() =~= Seq::<(Seq<char>, Seq<char>)>::empty());
    assert(extractions@.skip(0) =~= extractions@);
    while i < extractions.len()
        invariant
            i <= extractions.len(),
            distinct_names(vars.deep_view()),
            extracted_vars(resp.body@, extractions@, Seq::empty()) == extracted_vars(
                resp.body@,
                extractions@.skip(i as int),
                vars.deep_view(),
            ),
        decreases extractions.len() - i,
    {
        let e = &extractions[i];
        let ghost rest = extractions@.skip(i as int);
        assert(rest[0] == *e);
        assert(rest.drop_first() =~= extractions@.skip(i + 1));
        if let Some(v) = extract_by_path(resp, e.json_path.as_str()) {
            set_var_exec(&mut vars, e.var_name.as_str(), v.as_str());
        }
        i = i + 1;
    }
    vars
}

} // verus!
