//! Pre-request scripts: declarative lines run before a request is sent.
//!
//! ```text
//! @header Key=Value   add a header (built-in variables in the value are filled in)
//! @set name=value     set a variable
//! @delay 100          wait, in milliseconds
//! ```
//! Blank lines and lines starting with `#` are ignored, and so are lines that fit no form.
use vstd::prelude::*;

use crate::models::{KeyValue, KeyValueView, Request, RequestView};
use crate::text::{
    chars_of, has_prefix, index_of, lines, lines_vec, parse_u64, parse_u64_spec, range_eq,
    string_of, string_of_range, trim, trim_bounds,
};
use crate::utils::{is_builtin_resolution, resolve_builtin_variables};

verus! {

/// One action of a pre-request script.
#[derive(Debug, Clone, PartialEq)]
pub enum ScriptAction {
    /// Add the header `key: value`.
    SetHeader { key: String, value: String },
    /// Set the variable `name` to `value`.
    SetVar { name: String, value: String },
    /// Wait this many milliseconds.
    DelayMs(u64),
}

/// The mathematical content of a `ScriptAction`.
pub enum ScriptActionView {
    SetHeader { key: Seq<char>, value: Seq<char> },
    SetVar { name: Seq<char>, value: Seq<char> },
    DelayMs(u64),
}

impl View for ScriptAction {
    type V = ScriptActionView;

    open spec fn view(&self) -> ScriptActionView {
        match self {
            ScriptAction::SetHeader { key, value } => ScriptActionView::SetHeader {
                key: key@,
                value: value@,
            },
            ScriptAction::SetVar { name, value } => ScriptActionView::SetVar {
                name: name@,
                value: value@,
            },
            ScriptAction::DelayMs(n) => ScriptActionView::DelayMs(*n),
        }
    }
}

impl DeepView for ScriptAction {
    type V = ScriptActionView;

    open spec fn deep_view(&self) -> ScriptActionView {
        self@
    }
}

/// `rest` split at its first `=` into a trimmed name and a trimmed value.
pub open spec fn assignment(rest: Seq<char>) -> Option<(Seq<char>, Seq<char>)> {
    match index_of(rest, '=') {
        Some(p) => Some((trim(rest.take(p)), trim(rest.skip(p + 1)))),
        None => None,
    }
}

/// The action a trimmed, non-comment line states, if it states one.
pub open spec fn parse_script_line(t: Seq<char>) -> Option<ScriptActionView> {
    if has_prefix(t, "@header "@) {
        match assignment(t.skip(8)) {
            Some((k, v)) => Some(ScriptActionView::SetHeader { key: k, value: v }),
            None => None,
        }
    } else if has_prefix(t, "@set "@) {
        match assignment(t.skip(5)) {
            Some((k, v)) => Some(ScriptActionView::SetVar { name: k, value: v }),
            None => None,
        }
    } else if has_prefix(t, "@delay "@) {
        match parse_u64_spec(trim(t.skip(7))) {
            Some(n) => Some(ScriptActionView::DelayMs(n)),
            None => None,
        }
    } else {
        None
    }
}

/// The action a script line states: none for a blank line or a comment.
pub open spec fn line_action(line: Seq<char>) -> Option<ScriptActionView> {
    let t = trim(line);
    if t.len() == 0 || has_prefix(t, "#"@) {
        None
    } else {
        parse_script_line(t)
    }
}

/// The actions of the lines `ls[i..]`, in order.
pub open spec fn actions_from(ls: Seq<Seq<char>>, i: int) -> Seq<ScriptActionView>
    decreases ls.len() - i,
{
    if i < 0 || i >= ls.len() {
        Seq::empty()
    } else {
        match line_action(ls[i]) {
            Some(a) => seq![a] + actions_from(ls, i + 1),
            None => actions_from(ls, i + 1),
        }
    }
}

/// The actions a script states, line by line.
pub open spec fn script_actions(script: Seq<char>) -> Seq<ScriptActionView> {
    actions_from(lines(script), 0)
}

/// Splits `v[lo..hi]` at its first `=` into a trimmed name and value.
fn split_assignment(v: &Vec<char>, lo: usize, hi: usize) -> (r: Option<(String, String)>)
    requires
        lo <= hi <= v.len(),
    ensures
        match assignment(v@.subrange(lo as int, hi as int)) {
            Some((k, x)) => r matches Some((a, b)) && a@ == k && b@ == x,
            None => r is None,
        },
{
    let ghost rest = v@.subrange(lo as int, hi as int);
    let mut i: usize = lo;
    while i < hi
        invariant
            lo <= i <= hi <= v.len(),
            rest == v@.subrange(lo as int, hi as int),
            crate::text::find(rest, seq!['=']) == crate::text::find_from(rest, seq!['='], i - lo),
        decreases hi - i,
    {
        proof {
            assert(rest.subrange(i - lo, i - lo + 1) =~= seq![v@[i as int]]);
            if v@[i as int] != '=' {
                assert(rest.subrange(i - lo, i - lo + 1)[0] != seq!['='][0]);
            }
        }
        if v[i] == '=' {
            let (ka, kb) = trim_bounds(v, lo, i);
            let (va, vb) = trim_bounds(v, i + 1, hi);
            proof {
                assert(rest.take(i - lo) =~= v@.subrange(lo as int, i as int));
                assert(rest.skip(i - lo + 1) =~= v@.subrange(i + 1, hi as int));
            }
            return Some((string_of_range(v, ka, kb), string_of_range(v, va, vb)));
        }
        i = i + 1;
    }
    None
}

/// Whether `v[lo..]` starts with `p`.
fn starts_at(v: &Vec<char>, lo: usize, p: &str) -> (r: bool)
    requires
        lo <= v.len(),
    ensures
        r == has_prefix(v@.skip(lo as int), p@),
{
    let pv = chars_of(p);
    if v.len() - lo < pv.len() {
        return false;
    }
    let r = range_eq(v, lo, lo + pv.len(), &pv, 0, pv.len());
    proof {
        assert(v@.skip(lo as int).take(pv@.len() as int) =~= v@.subrange(lo as int, lo + pv@.len()));
        assert(pv@.subrange(0, pv@.len() as int) =~= pv@);
    }
    r
}

/// Reads one trimmed script line.
fn parse_line(t: &Vec<char>) -> (r: Option<ScriptAction>)
    ensures
        match parse_script_line(t@) {
            Some(a) => r matches Some(x) && x@ == a,
            None => r is None,
        },
{
    proof {
        reveal_strlit("@header ");
        reveal_strlit("@set ");
        reveal_strlit("@delay ");
        assert(t@.skip(0) =~= t@);
    }
    if starts_at(t, 0, "@header ") {
        assert(t@.subrange(8, t@.len() as int) =~= t@.skip(8));
        match split_assignment(t, 8, t.len()) {
            Some((k, v)) => Some(ScriptAction::SetHeader { key: k, value: v }),
            None => None,
        }
    } else if starts_at(t, 0, "@set ") {
        assert(t@.subrange(5, t@.len() as int) =~= t@.skip(5));
        match split_assignment(t, 5, t.len()) {
            Some((k, v)) => Some(ScriptAction::SetVar { name: k, value: v }),
            None => None,
        }
    } else if starts_at(t, 0, "@delay ") {
        let (a, b) = trim_bounds(t, 7, t.len());
        assert(t@.subrange(7, t@.len() as int) =~= t@.skip(7));
        let n = string_of_range(t, a, b);
        match parse_u64(n.as_str()) {
            Some(x) => Some(ScriptAction::DelayMs(x)),
            None => None,
        }
    } else {
        None
    }
}

/// Reads a pre-request script into its actions.
pub fn parse_pre_script(script: &str) -> (r: Vec<ScriptAction>)
    ensures
        r.deep_view() == script_actions(script@),
{
    let v = chars_of(script);
    let ls = lines_vec(&v);
    let ghost lsv = ls.deep_view();
    let mut out: Vec<ScriptAction> = Vec::new();
    let mut i: usize = 0;
    assert(out.deep_view() =~= Seq::<ScriptActionView>::empty());
    while i < ls.len()
        invariant
            i <= ls.len(),
            lsv == ls.deep_view(),
            lsv == lines(script@),
            actions_from(lsv, 0) == out.deep_view() + actions_from(lsv, i as int),
        decreases ls.len() - i,
    {
        let line = &ls[i];
        assert(line@ == lsv[i as int]);
        let (a, b) = trim_bounds(line, 0, line.len());
        assert(line@.subrange(0, line@.len() as int) =~= line@);
        let t = crate::text::vec_range(line, a, b);
        proof {
            reveal_strlit("#");
        }
        let skip = t.len() == 0 || t[0] == '#';
        proof {
            assert("#"@ =~= seq!['#']);
            if t@.len() > 0 {
                assert(t@.take(1) =~= seq![t@[0]]);
                if t@[0] != '#' {
                    assert(t@.take(1)[0] != "#"@[0]);
                }
            }
            assert(t@ == trim(lsv[i as int]));
            assert(skip == (t@.len() == 0 || has_prefix(t@, "#"@)));
        }
        if !skip {
            match parse_line(&t) {
                Some(act) => {
                    let ghost o0 = out;
                    out.push(act);
                    proof {
                        crate::text::lemma_deep_view_push(o0, out, act);
                        assert(seq![act@] + actions_from(lsv, i + 1) == actions_from(lsv, i as int));
                        assert(o0.deep_view() + (seq![act@] + actions_from(lsv, i + 1))
                            =~= out.deep_view() + actions_from(lsv, i + 1));
                    }
                },
                None => {},
            }
        }
        i = i + 1;
    }
    assert(actions_from(lsv, i as int) =~= Seq::<ScriptActionView>::empty());
    out
}

/// The header actions of a script: their names and raw values, in order.
pub open spec fn header_actions(acts: Seq<ScriptActionView>) -> Seq<(Seq<char>, Seq<char>)>
    decreases acts.len(),
{
    if acts.len() == 0 {
        Seq::empty()
    } else {
        let rest = header_actions(acts.drop_first());
        match acts[0] {
            ScriptActionView::SetHeader { key, value } => seq![(key, value)] + rest,
            _ => rest,
        }
    }
}

/// The position of the first variable named `name` at or after `from`.
pub open spec fn var_index(vars: Seq<(Seq<char>, Seq<char>)>, name: Seq<char>, from: int) -> Option<int>
    decreases vars.len() - from,
{
    if from < 0 || from >= vars.len() {
        None
    } else if vars[from].0 == name {
        Some(from)
    } else {
        var_index(vars, name, from + 1)
    }
}

/// `vars` with `name` set to `value`: replaced in place when the name is there, else added.
pub open spec fn set_var(vars: Seq<(Seq<char>, Seq<char>)>, name: Seq<char>, value: Seq<char>) -> Seq<
    (Seq<char>, Seq<char>),
> {
    match var_index(vars, name, 0) {
        Some(i) => vars.update(i, (name, value)),
        None => vars.push((name, value)),
    }
}

/// The variables a script sets, starting from `vars`, in order; a later setting wins.
pub open spec fn script_vars(acts: Seq<ScriptActionView>, vars: Seq<(Seq<char>, Seq<char>)>) -> Seq<
    (Seq<char>, Seq<char>),
>
    decreases acts.len(),
{
    if acts.len() == 0 {
        vars
    } else {
        let next = match acts[0] {
            ScriptActionView::SetVar { name, value } => set_var(vars, name, value),
            _ => vars,
        };
        script_vars(acts.drop_first(), next)
    }
}

/// No name occurs twice among the variables.
pub open spec fn distinct_names(vars: Seq<(Seq<char>, Seq<char>)>) -> bool {
    forall|i: int, j: int| 0 <= i < j < vars.len() ==> (#[trigger] vars[i]).0 != (#[trigger] vars[j]).0
}

/// Sets a variable, keeping the names distinct.
pub fn set_var_exec(vars: &mut Vec<(String, String)>, name: &str, value: &str)
    requires
        distinct_names(old(vars).deep_view()),
    ensures
        final(vars).deep_view() == set_var(old(vars).deep_view(), name@, value@),
        distinct_names(final(vars).deep_view()),
{
    let ghost v0 = vars.deep_view();
    let mut i: usize = 0;
    while i < vars.len()
        invariant
            i <= vars.len(),
            vars.deep_view() == v0,
            v0 == old(vars).deep_view(),
            distinct_names(v0),
            forall|j: int| 0 <= j < i ==> (#[trigger] v0[j]).0 != name@,
            var_index(v0, name@, 0) == var_index(v0, name@, i as int),
        decreases vars.len() - i,
    {
        if crate::text::str_eq(vars[i].0.as_str(), name) {
            assert(v0[i as int].0 == name@);
            assert(var_index(v0, name@, i as int) == Some(i as int));
            assert forall|j: int| 0 <= j < v0.len() && (#[trigger] v0[j]).0 == name@ implies j == i by {
                if j < i {
                    assert(v0[j].0 != v0[i as int].0);
                } else if j > i {
                    assert(v0[i as int].0 != v0[j].0);
                }
            }
            vars.set(i, (crate::text::copy_str(name), crate::text::copy_str(value)));
            assert(vars.deep_view() =~= v0.update(i as int, (name@, value@)));
            return;
        }
        i = i + 1;
    }
    let ghost vv = *vars;
    let p = (crate::text::copy_str(name), crate::text::copy_str(value));
    vars.push(p);
    proof {
        crate::text::lemma_deep_view_push(vv, *vars, p);
    }
}

/// The request with each header of `hs` added after its own headers, switched on.
pub open spec fn with_headers(req: RequestView, hs: Seq<(Seq<char>, Seq<char>)>) -> RequestView {
    RequestView {
        headers: req.headers + hs.map_values(
            |h: (Seq<char>, Seq<char>)| KeyValueView { key: h.0, value: h.1, enabled: true },
        ),
        ..req
    }
}

/// Runs a script whose header values have already been resolved, one value per header
/// action in order: adds the headers and returns the variables it sets.
pub fn apply_resolved_script(
    req: &mut Request,
    actions: &[ScriptAction],
    values: &Vec<String>,
) -> (r: Vec<(String, String)>)
    requires
        values@.len() == header_actions(actions@.map_values(|a: ScriptAction| a@)).len(),
    ensures
        final(req)@ == with_headers(
            old(req)@,
            header_actions(actions@.map_values(|a: ScriptAction| a@)).map_values(
                |h: (Seq<char>, Seq<char>)| h.0,
            ).zip_with(values.deep_view()),
        ),
        r.deep_view() == script_vars(actions@.map_values(|a: ScriptAction| a@), Seq::empty()),
{
    let ghost acts = actions@.map_values(|a: ScriptAction| a@);
    let ghost keys = header_actions(acts).map_values(|h: (Seq<char>, Seq<char>)| h.0);
    let ghost r0 = req@;
    let mut vars: Vec<(String, String)> = Vec::new();
    let mut k: usize = 0;
    let mut i: usize = 0;
    assert(vars.deep_view() =~= Seq::<(Seq<char>, Seq<char>)>::empty());
    assert(acts.skip(0) =~= acts);
    while i < actions.len()
        invariant
            i <= actions.len(),
            acts == actions@.map_values(|a: ScriptAction| a@),
            keys == header_actions(acts).map_values(|h: (Seq<char>, Seq<char>)| h.0),
            values@.len() == keys.len(),
            k == header_actions(acts).len() - header_actions(acts.skip(i as int)).len(),
            header_actions(acts) == header_actions(acts.take(i as int)) + header_actions(acts.skip(i as int)),
            req@ == with_headers(r0, keys.take(k as int).zip_with(values.deep_view().take(k as int))),
            distinct_names(vars.deep_view()),
            script_vars(acts, Seq::empty()) == script_vars(acts.skip(i as int), vars.deep_view()),
        decreases actions.len() - i,
    {
        proof {
            lemma_header_actions_step(acts, i as int);
            assert(acts.skip(i as int)[0] == acts[i as int]);
            assert(acts.skip(i as int).drop_first() =~= acts.skip(i + 1));
            assert(acts[i as int] == actions@[i as int]@);
        }
        match &actions[i] {
            ScriptAction::SetHeader { key, value: _ } => {
                assert(k < values.len());
                let ghost h0 = req.headers;
                let kv = KeyValue { key: key.clone(), value: values[k].clone(), enabled: true };
                req.headers.push(kv);
                proof {
                    crate::text::lemma_deep_view_push(h0, req.headers, kv);
                    assert(keys[k as int] == key@);
                    let z0 = keys.take(k as int).zip_with(values.deep_view().take(k as int));
                    let z1 = keys.take(k + 1).zip_with(values.deep_view().take(k + 1));
                    assert(z1 =~= z0.push((key@, values.deep_view()[k as int])));
                    let f = |h: (Seq<char>, Seq<char>)| KeyValueView { key: h.0, value: h.1, enabled: true };
                    assert(z1.map_values(f) =~= z0.map_values(f).push(kv@));
                    assert(req@.headers =~= r0.headers + z1.map_values(f));
                }
                k = k + 1;
            },
            ScriptAction::SetVar { name, value } => {
                set_var_exec(&mut vars, name.as_str(), value.as_str());
            },
            ScriptAction::DelayMs(_) => {},
        }
        i = i + 1;
    }
    proof {
        assert(acts.skip(i as int) =~= Seq::<ScriptActionView>::empty());
        assert(keys.take(k as int) =~= keys);
        assert(values.deep_view().take(k as int) =~= values.deep_view());
    }
    vars
}

/// Splitting the header actions at `i`: the part before and the part from `i` on.
proof fn lemma_header_actions_step(acts: Seq<ScriptActionView>, i: int)
    requires
        0 <= i < acts.len(),
    ensures
        header_actions(acts.skip(i)) == (match acts[i] {
            ScriptActionView::SetHeader { key, value } => seq![(key, value)],
            _ => Seq::empty(),
        }) + header_actions(acts.skip(i + 1)),
        header_actions(acts.take(i + 1)) == header_actions(acts.take(i)) + (match acts[i] {
            ScriptActionView::SetHeader { key, value } => seq![(key, value)],
            _ => Seq::empty(),
        }),
{
    assert(acts.skip(i).drop_first() =~= acts.skip(i + 1));
    lemma_header_actions_append(acts.take(i), seq![acts[i]]);
    assert(acts.take(i) + seq![acts[i]] =~= acts.take(i + 1));
    let one = seq![acts[i]];
    assert(one.drop_first() =~= Seq::<ScriptActionView>::empty());
    assert(header_actions(one.drop_first()) =~= Seq::<(Seq<char>, Seq<char>)>::empty());
    assert(header_actions(one) =~= (match acts[i] {
        ScriptActionView::SetHeader { key, value } => seq![(key, value)],
        _ => Seq::empty(),
    }));
}

/// The header actions of two scripts run one after the other.
proof fn lemma_header_actions_append(a: Seq<ScriptActionView>, b: Seq<ScriptActionView>)
    ensures
        header_actions(a + b) == header_actions(a) + header_actions(b),
    decreases a.len(),
{
    if a.len() == 0 {
        assert(a + b =~= b);
    } else {
        assert((a + b).drop_first() =~= a.drop_first() + b);
        lemma_header_actions_append(a.drop_first(), b);
    }
}

/// Runs a script on a request: each header action adds its header, with the built-in
/// variables of its value filled in; returns the variables the script sets.
pub fn apply_pre_script(req: &mut Request, actions: &[ScriptAction]) -> (r: Vec<(String, String)>)
    ensures
        r.deep_view() == script_vars(actions@.map_values(|a: ScriptAction| a@), Seq::empty()),
        ({
            let hs = header_actions(actions@.map_values(|a: ScriptAction| a@));
            &&& final(req)@.headers.len() == old(req)@.headers.len() + hs.len()
            &&& final(req)@ == RequestView { headers: final(req)@.headers, ..old(req)@ }
            &&& final(req)@.headers.take(old(req)@.headers.len() as int) == old(req)@.headers
            &&& forall|j: int|
                0 <= j < hs.len() ==> {
                    let h = #[trigger] final(req)@.headers[old(req)@.headers.len() + j];
                    &&& h.key == hs[j].0
                    &&& h.enabled
                    &&& is_builtin_resolution(hs[j].1, h.value)
                }
        }),
{
    let ghost acts = actions@.map_values(|a: ScriptAction| a@);
    let mut values: Vec<String> = Vec::new();
    let mut i: usize = 0;
    assert(acts.take(0) =~= Seq::<ScriptActionView>::empty());
    while i < actions.len()
        invariant
            i <= actions.len(),
            acts == actions@.map_values(|a: ScriptAction| a@),
            values@.len() == header_actions(acts.take(i as int)).len(),
            forall|j: int|
                0 <= j < values@.len() ==> is_builtin_resolution(
                    #[trigger] header_actions(acts.take(i as int))[j].1,
                    values@[j]@,
                ),
        decreases actions.len() - i,
    {
        proof {
            lemma_header_actions_step(acts, i as int);
        }
        match &actions[i] {
            ScriptAction::SetHeader { key: _, value } => {
                let v = resolve_builtin_variables(value.as_str());
                values.push(v);
            },
            _ => {},
        }
        i = i + 1;
    }
    assert(acts.take(i as int) =~= acts);
    let ghost r0 = req@;
    let r = apply_resolved_script(req, actions, &values);
    proof {
        let hs = header_actions(acts);
        let keys = hs.map_values(|h: (Seq<char>, Seq<char>)| h.0);
        let z = keys.zip_with(values.deep_view());
        assert(req@.headers.take(r0.headers.len() as int) =~= r0.headers);
        assert forall|j: int| 0 <= j < hs.len() implies {
            let h = #[trigger] req@.headers[r0.headers.len() + j];
            &&& h.key == hs[j].0
            &&& h.enabled
            &&& is_builtin_resolution(hs[j].1, h.value)
        } by {
            assert(z[j] == (keys[j], values.deep_view()[j]));
            assert(values.deep_view()[j] == values@[j]@);
            assert(is_builtin_resolution(header_actions(acts.take(i as int))[j].1, values@[j]@));
        }
    }
    r
}

} // verus!
