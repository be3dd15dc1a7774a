//! Passing values between requests: variables taken from one response are filled into the
//! `{{prefix.field}}` placeholders of a later request.
use vstd::prelude::*;

use crate::models::{KeyValue, KeyValueView, Request, RequestView, Response};
use crate::json::{
    lemma_members_view_index, lemma_members_view_len, members_view, parse_json, spec_parse_json,
    value_text, value_to_text, Json, JsonView,
};
use crate::scripting::{distinct_names, set_var, set_var_exec};
use crate::text::{copy_str, decimal, decimal_string, push_str, replace, str_replace};
use crate::utils::placeholder;

verus! {

/// One step of a scenario that may depend on an earlier step.
#[derive(Debug, Clone, PartialEq, Eq, Structural)]
pub struct ScenarioStep {
    /// The index of the request in the collection.
    pub request_index: usize,
    /// The pause before the step, in milliseconds.
    pub delay_ms: u64,
    /// Whether a failure skips the following steps.
    pub skip_on_fail: bool,
    /// The step whose response variables are filled into this one.
    pub depends_on: Option<usize>,
}

impl Default for ScenarioStep {
    fn default() -> (r: Self)
        ensures
            r == (ScenarioStep { request_index: 0, delay_ms: 0, skip_on_fail: false, depends_on: None }),
    {
        ScenarioStep { request_index: 0, delay_ms: 0, skip_on_fail: false, depends_on: None }
    }
}

/// What running one step gave.
#[derive(Debug)]
pub struct StepResult {
    pub step_index: usize,
    pub request_index: usize,
    pub response: Option<Response>,
    pub skipped: bool,
    pub error: Option<String>,
    pub extracted_vars: Vec<(String, String)>,
}

/// `s` with, for each variable in turn, `{{name}}` replaced by its value.
pub open spec fn apply_vars(s: Seq<char>, vars: Seq<(Seq<char>, Seq<char>)>) -> Seq<char>
    decreases vars.len(),
{
    if vars.len() == 0 {
        s
    } else {
        apply_vars(replace(s, placeholder(vars[0].0), vars[0].1), vars.drop_first())
    }
}

/// Replaces `{{name}}` by the variable's value, for each variable in order; of two entries with
/// the same name the first one's value is the one the placeholders get, unless that value
/// itself holds the placeholder.
pub fn apply_vars_to_string(text: &str, vars: &Vec<(String, String)>) -> (r: String)
    ensures
        r@ == apply_vars(text@, vars.deep_view()),
{
    let ghost vs = vars.deep_view();
    let mut result = crate::text::copy_str(text);
    let mut i: usize = 0;
    proof {
        reveal_strlit("{{");
        reveal_strlit("}}");
        assert(vs.skip(0) =~= vs);
    }
    while i < vars.len()
        invariant
            i <= vars.len(),
            vs == vars.deep_view(),
            "{{"@.len() == 2,
            apply_vars(text@, vs) == apply_vars(result@, vs.skip(i as int)),
        decreases vars.len() - i,
    {
        let (k, v) = &vars[i];
        let mut p = String::new();
        push_str(&mut p, "{{");
        push_str(&mut p, k.as_str());
        push_str(&mut p, "}}");
        result = str_replace(result.as_str(), p.as_str(), v.as_str());
        assert(vs.skip(i as int).drop_first() =~= vs.skip(i + 1));
        i = i + 1;
    }
    result
}

/// The headers with the variables filled into each value.
pub open spec fn apply_vars_headers(
    hs: Seq<KeyValueView>,
    vars: Seq<(Seq<char>, Seq<char>)>,
) -> Seq<KeyValueView> {
    hs.map_values(|h: KeyValueView| KeyValueView { value: apply_vars(h.value, vars), ..h })
}

/// The request with the variables filled into its URL, its header values and its body.
pub open spec fn apply_vars_request(req: RequestView, vars: Seq<(Seq<char>, Seq<char>)>) -> RequestView {
    RequestView {
        url: apply_vars(req.url, vars),
        headers: apply_vars_headers(req.headers, vars),
        body: apply_vars(req.body, vars),
        ..req
    }
}

/// A copy of the request with the variables filled into its URL, header values and body, the
/// variables applied in list order (see `apply_vars_to_string` for names listed twice).
pub fn apply_vars_to_request(req: &Request, vars: &Vec<(String, String)>) -> (r: Request)
    ensures
        r@ == apply_vars_request(req@, vars.deep_view()),
{
    let mut resolved = req.copy();
    resolved.url = apply_vars_to_string(resolved.url.as_str(), vars);
    let mut headers: Vec<KeyValue> = Vec::new();
    let mut i: usize = 0;
    while i < req.headers.len()
        invariant
            i <= req.headers.len(),
            headers@.len() == i,
            forall|j: int|
                0 <= j < i ==> #[trigger] headers@[j]@ == (KeyValueView {
                    value: apply_vars(req.headers@[j]@.value, vars.deep_view()),
                    ..req.headers@[j]@
                }),
        decreases req.headers.len() - i,
    {
        let h = &req.headers[i];
        headers.push(
            KeyValue {
                key: h.key.clone(),
                value: apply_vars_to_string(h.value.as_str(), vars),
                enabled: h.enabled,
            },
        );
        i = i + 1;
    }
    assert(headers.deep_view() =~= apply_vars_headers(req@.headers, vars.deep_view()));
    resolved.headers = headers;
    resolved.body = apply_vars_to_string(resolved.body.as_str(), vars);
    resolved
}

/// The variables named `prefix.name` for the members `ms`, from `vars` on, member by member
/// (a later setting wins).
pub open spec fn member_vars(
    prefix: Seq<char>,
    ms: Seq<(Seq<char>, JsonView)>,
    vars: Seq<(Seq<char>, Seq<char>)>,
) -> Seq<(Seq<char>, Seq<char>)>
    decreases ms.len(),
{
    if ms.len() == 0 {
        vars
    } else {
        member_vars(
            prefix,
            ms.drop_first(),
            set_var(vars, prefix + "."@ + ms[0].0, value_text(ms[0].1)),
        )
    }
}

/// The variables a response gives under `prefix`: `prefix.status` with the status, then for a
/// JSON object body `prefix.name` for each top-level member, with its value as text.
pub open spec fn response_vars(resp: Response, prefix: Seq<char>) -> Seq<(Seq<char>, Seq<char>)> {
    let start = seq![(prefix + ".status"@, decimal(resp.status as nat))];
    match spec_parse_json(resp.body@) {
        Some(JsonView::Object(ms)) => member_vars(prefix, ms, start),
        _ => start,
    }
}

/// The variables a response gives under `prefix`: see `response_vars`.
pub fn extract_response_vars(resp: &Response, prefix: &str) -> (r: Vec<(String, String)>)
    ensures
        r.deep_view() == response_vars(*resp, prefix@),
        distinct_names(r.deep_view()),
{
    let mut name = copy_str(prefix);
    push_str(&mut name, ".status");
    let mut vars: Vec<(String, String)> = Vec::new();
    let p = (name, decimal_string(resp.status as u128));
    vars.push(p);
    let ghost start = vars.deep_view();
    assert(start =~= seq![(prefix@ + ".status"@, decimal(resp.status as nat))]);
    let json = match parse_json(resp.body.as_str()) {
        Some(j) => j,
        None => return vars,
    };
    match &json {
        Json::Object(ms) => {
            proof {
                lemma_members_view_len(ms@);
            }
            let ghost mv = members_view(ms@);
            let mut i: usize = 0;
            assert(mv.skip(0) =~= mv);
            while i < ms.len()
                invariant
                    i <= ms.len(),
                    mv == members_view(ms@),
                    mv.len() == ms@.len(),
                    distinct_names(vars.deep_view()),
                    member_vars(prefix@, mv, start) == member_vars(prefix@, mv.skip(i as int), vars.deep_view()),
                decreases ms.len() - i,
            {
                proof {
                    lemma_members_view_index(ms@, i as int);
                    assert(mv.skip(i as int).drop_first() =~= mv.skip(i + 1));
                    assert(mv.skip(i as int)[0] == mv[i as int]);
                }
                let mut n = copy_str(prefix);
                push_str(&mut n, ".");
                push_str(&mut n, ms[i].0.as_str());
                let v = value_to_text(&ms[i].1);
                set_var_exec(&mut vars, n.as_str(), v.as_str());
                i = i + 1;
            }
            assert(mv.skip(i as int).len() == 0);
            assert(json@ == JsonView::Object(mv));
            vars
        },
        _ => vars,
    }
}

} // verus!
