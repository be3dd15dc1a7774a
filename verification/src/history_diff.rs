//! Comparing two requests of the history field by field.
//!
//! Headers and query parameters are compared as maps from name to value: when a name occurs
//! several times its last value counts, and names are visited in the order of their first
//! occurrence.
use vstd::prelude::*;

use crate::models::{method_name, KeyValue, KeyValueView, Request, RequestView};
use crate::text::str_eq;

verus! {

/// One difference between two requests.
#[derive(Debug, Clone, PartialEq)]
pub enum FieldDiff {
    Method { old: String, new: String },
    Url { old: String, new: String },
    Header { key: String, old_value: Option<String>, new_value: Option<String> },
    Body { old: String, new: String },
    Param { key: String, old_value: Option<String>, new_value: Option<String> },
}

/// The mathematical content of a `FieldDiff`.
pub enum FieldDiffView {
    Method { old: Seq<char>, new: Seq<char> },
    Url { old: Seq<char>, new: Seq<char> },
    Header { key: Seq<char>, old_value: Option<Seq<char>>, new_value: Option<Seq<char>> },
    Body { old: Seq<char>, new: Seq<char> },
    Param { key: Seq<char>, old_value: Option<Seq<char>>, new_value: Option<Seq<char>> },
}

impl View for FieldDiff {
    type V = FieldDiffView;

    open spec fn view(&self) -> FieldDiffView {
        match self {
            FieldDiff::Method { old, new } => FieldDiffView::Method { old: old@, new: new@ },
            FieldDiff::Url { old, new } => FieldDiffView::Url { old: old@, new: new@ },
            FieldDiff::Header { key, old_value, new_value } => FieldDiffView::Header {
                key: key@,
                old_value: crate::models::opt_view(*old_value),
                new_value: crate::models::opt_view(*new_value),
            },
            FieldDiff::Body { old, new } => FieldDiffView::Body { old: old@, new: new@ },
            FieldDiff::Param { key, old_value, new_value } => FieldDiffView::Param {
                key: key@,
                old_value: crate::models::opt_view(*old_value),
                new_value: crate::models::opt_view(*new_value),
            },
        }
    }
}

impl DeepView for FieldDiff {
    type V = FieldDiffView;

    open spec fn deep_view(&self) -> FieldDiffView {
        self@
    }
}

/// The value of the last pair named `k`.
pub open spec fn last_value(kvs: Seq<KeyValueView>, k: Seq<char>) -> Option<Seq<char>>
    decreases kvs.len(),
{
    if kvs.len() == 0 {
        None
    } else if kvs.last().key == k {
        Some(kvs.last().value)
    } else {
        last_value(kvs.drop_last(), k)
    }
}

/// The names of `kvs[i..]` not already in `acc`, in order of first occurrence, after `acc`.
pub open spec fn first_keys_from(kvs: Seq<KeyValueView>, i: int, acc: Seq<Seq<char>>) -> Seq<Seq<char>>
    decreases kvs.len() - i,
{
    if i < 0 || i >= kvs.len() {
        acc
    } else if acc.contains(kvs[i].key) {
        first_keys_from(kvs, i + 1, acc)
    } else {
        first_keys_from(kvs, i + 1, acc.push(kvs[i].key))
    }
}

/// The distinct names of `kvs`, in order of first occurrence.
pub open spec fn first_keys(kvs: Seq<KeyValueView>) -> Seq<Seq<char>> {
    first_keys_from(kvs, 0, Seq::empty())
}

/// A change of one name: the name, its old value and its new value (`None` where absent).
pub type PairChange = (Seq<char>, Option<Seq<char>>, Option<Seq<char>>);

/// The changes for the names `ks[i..]` of the old pairs: a name whose value changed, and a
/// name that is gone.
pub open spec fn changed_or_removed(
    old: Seq<KeyValueView>,
    new: Seq<KeyValueView>,
    ks: Seq<Seq<char>>,
    i: int,
) -> Seq<PairChange>
    decreases ks.len() - i,
{
    if i < 0 || i >= ks.len() {
        Seq::empty()
    } else {
        let k = ks[i];
        let rest = changed_or_removed(old, new, ks, i + 1);
        match last_value(new, k) {
            Some(nv) => if Some(nv) != last_value(old, k) {
                seq![(k, last_value(old, k), Some(nv))] + rest
            } else {
                rest
            },
            None => seq![(k, last_value(old, k), None::<Seq<char>>)] + rest,
        }
    }
}

/// The changes for the names `ks[i..]` of the new pairs that the old pairs lack.
pub open spec fn added(old: Seq<KeyValueView>, new: Seq<KeyValueView>, ks: Seq<Seq<char>>, i: int) -> Seq<
    PairChange,
>
    decreases ks.len() - i,
{
    if i < 0 || i >= ks.len() {
        Seq::empty()
    } else {
        let k = ks[i];
        let rest = added(old, new, ks, i + 1);
        if last_value(old, k) is None {
            seq![(k, None::<Seq<char>>, last_value(new, k))] + rest
        } else {
            rest
        }
    }
}

/// All changes between two lists of pairs: changed and removed names first, then added ones.
pub open spec fn pair_changes(old: Seq<KeyValueView>, new: Seq<KeyValueView>) -> Seq<PairChange> {
    changed_or_removed(old, new, first_keys(old), 0) + added(old, new, first_keys(new), 0)
}

/// The header differences for a list of changes.
pub open spec fn header_diffs(cs: Seq<PairChange>) -> Seq<FieldDiffView> {
    cs.map_values(|c: PairChange| FieldDiffView::Header { key: c.0, old_value: c.1, new_value: c.2 })
}

/// The parameter differences for a list of changes.
pub open spec fn param_diffs(cs: Seq<PairChange>) -> Seq<FieldDiffView> {
    cs.map_values(|c: PairChange| FieldDiffView::Param { key: c.0, old_value: c.1, new_value: c.2 })
}

/// The differences between two requests, in order: method, URL, headers, body, parameters.
pub open spec fn request_diffs(old: RequestView, new: RequestView) -> Seq<FieldDiffView> {
    (if old.method != new.method {
        seq![FieldDiffView::Method { old: method_name(old.method), new: method_name(new.method) }]
    } else {
        Seq::empty()
    }) + (if old.url != new.url {
        seq![FieldDiffView::Url { old: old.url, new: new.url }]
    } else {
        Seq::empty()
    }) + header_diffs(pair_changes(old.headers, new.headers)) + (if old.body != new.body {
        seq![FieldDiffView::Body { old: old.body, new: new.body }]
    } else {
        Seq::empty()
    }) + param_diffs(pair_changes(old.params, new.params))
}

/// The value of the last pair named `k`.
fn find_last_value(kvs: &Vec<KeyValue>, k: &str) -> (r: Option<String>)
    ensures
        crate::models::opt_view(r) == last_value(kvs.deep_view(), k@),
{
    let ghost kv = kvs.deep_view();
    let mut i: usize = kvs.len();
    assert(kv.take(i as int) =~= kv);
    while i > 0
        invariant
            i <= kvs.len(),
            kv == kvs.deep_view(),
            last_value(kv, k@) == last_value(kv.take(i as int), k@),
        decreases i,
    {
        assert(kv.take(i as int).drop_last() =~= kv.take(i - 1));
        if str_eq(kvs[i - 1].key.as_str(), k) {
            return Some(kvs[i - 1].value.clone());
        }
        i = i - 1;
    }
    None
}

/// The distinct names of a list of pairs, in order of first occurrence.
fn distinct_keys(kvs: &Vec<KeyValue>) -> (r: Vec<String>)
    ensures
        r.deep_view() == first_keys(kvs.deep_view()),
{
    let ghost kv = kvs.deep_view();
    let mut r: Vec<String> = Vec::new();
    let mut i: usize = 0;
    assert(r.deep_view() =~= Seq::<Seq<char>>::empty());
    while i < kvs.len()
        invariant
            i <= kvs.len(),
            kv == kvs.deep_view(),
            first_keys(kv) == first_keys_from(kv, i as int, r.deep_view()),
        decreases kvs.len() - i,
    {
        if !crate::text::strings_contain(&r, kvs[i].key.as_str()) {
            let ghost r0 = r;
            let k = kvs[i].key.clone();
            r.push(k);
            proof {
                crate::text::lemma_deep_view_push(r0, r, k);
            }
        }
        i = i + 1;
    }
    r
}

/// Appends the changes for the names of the old pairs.
fn push_changed_or_removed(
    out: &mut Vec<FieldDiff>,
    before: &Vec<KeyValue>,
    after: &Vec<KeyValue>,
    as_param: bool,
)
    ensures
        final(out).deep_view() == old(out).deep_view() + (if as_param {
            param_diffs(changed_or_removed(before.deep_view(), after.deep_view(), first_keys(before.deep_view()), 0))
        } else {
            header_diffs(changed_or_removed(before.deep_view(), after.deep_view(), first_keys(before.deep_view()), 0))
        }),
{
    let ghost ov = before.deep_view();
    let ghost nv = after.deep_view();
    let ghost start = out.deep_view();
    let ks = distinct_keys(before);
    let ghost ksv = ks.deep_view();
    let ghost mk = |cs: Seq<PairChange>| if as_param { param_diffs(cs) } else { header_diffs(cs) };
    let mut i: usize = 0;
    assert(mk(changed_or_removed(ov, nv, ksv, 0)) =~= mk(Seq::<PairChange>::empty()) + mk(
        changed_or_removed(ov, nv, ksv, 0),
    ));
    while i < ks.len()
        invariant
            i <= ks.len(),
            ksv == ks.deep_view(),
            ov == before.deep_view(),
            nv == after.deep_view(),
            mk == (|cs: Seq<PairChange>| if as_param { param_diffs(cs) } else { header_diffs(cs) }),
            start + mk(changed_or_removed(ov, nv, ksv, 0)) == out.deep_view() + mk(
                changed_or_removed(ov, nv, ksv, i as int),
            ),
        decreases ks.len() - i,
    {
        let k = ks[i].as_str();
        let ghost rest = changed_or_removed(ov, nv, ksv, i + 1);
        let old_v = find_last_value(before, k);
        let new_v = find_last_value(after, k);
        let ghost o0 = *out;
        match new_v {
            Some(nv_s) => {
                let same = match &old_v {
                    Some(ov_s) => str_eq(ov_s.as_str(), nv_s.as_str()),
                    None => false,
                };
                if !same {
                    let d = if as_param {
                        FieldDiff::Param { key: ks[i].clone(), old_value: old_v, new_value: Some(nv_s) }
                    } else {
                        FieldDiff::Header { key: ks[i].clone(), old_value: old_v, new_value: Some(nv_s) }
                    };
                    out.push(d);
                    proof {
                        crate::text::lemma_deep_view_push(o0, *out, d);
                        let c = seq![(ksv[i as int], last_value(ov, ksv[i as int]), last_value(nv, ksv[i as int]))];
                        assert(mk(c + rest) =~= mk(c) + mk(rest));
                        assert(mk(c) =~= seq![d.deep_view()]);
                    }
                }
            },
            None => {
                let d = if as_param {
                    FieldDiff::Param { key: ks[i].clone(), old_value: old_v, new_value: None }
                } else {
                    FieldDiff::Header { key: ks[i].clone(), old_value: old_v, new_value: None }
                };
                out.push(d);
                proof {
                    crate::text::lemma_deep_view_push(o0, *out, d);
                    let c = seq![(ksv[i as int], last_value(ov, ksv[i as int]), None::<Seq<char>>)];
                    assert(mk(c + rest) =~= mk(c) + mk(rest));
                    assert(mk(c) =~= seq![d.deep_view()]);
                }
            },
        }
        i = i + 1;
    }
    assert(mk(changed_or_removed(ov, nv, ksv, i as int)) =~= Seq::<FieldDiffView>::empty());
}

/// Appends the changes for the names that only the new pairs have.
fn push_added(out: &mut Vec<FieldDiff>, before: &Vec<KeyValue>, after: &Vec<KeyValue>, as_param: bool)
    ensures
        final(out).deep_view() == old(out).deep_view() + (if as_param {
            param_diffs(added(before.deep_view(), after.deep_view(), first_keys(after.deep_view()), 0))
        } else {
            header_diffs(added(before.deep_view(), after.deep_view(), first_keys(after.deep_view()), 0))
        }),
{
    let ghost ov = before.deep_view();
    let ghost nv = after.deep_view();
    let ghost start = out.deep_view();
    let ks = distinct_keys(after);
    let ghost ksv = ks.deep_view();
    let ghost mk = |cs: Seq<PairChange>| if as_param { param_diffs(cs) } else { header_diffs(cs) };
    let mut i: usize = 0;
    assert(mk(added(ov, nv, ksv, 0)) =~= mk(Seq::<PairChange>::empty()) + mk(added(ov, nv, ksv, 0)));
    while i < ks.len()
        invariant
            i <= ks.len(),
            ksv == ks.deep_view(),
            ov == before.deep_view(),
            nv == after.deep_view(),
            mk == (|cs: Seq<PairChange>| if as_param { param_diffs(cs) } else { header_diffs(cs) }),
            start + mk(added(ov, nv, ksv, 0)) == out.deep_view() + mk(added(ov, nv, ksv, i as int)),
        decreases ks.len() - i,
    {
        let k = ks[i].as_str();
        let ghost rest = added(ov, nv, ksv, i + 1);
        let old_v = find_last_value(before, k);
        if old_v.is_none() {
            let new_v = find_last_value(after, k);
            let ghost o0 = *out;
            let d = if as_param {
                FieldDiff::Param { key: ks[i].clone(), old_value: None, new_value: new_v }
            } else {
                FieldDiff::Header { key: ks[i].clone(), old_value: None, new_value: new_v }
            };
            out.push(d);
            proof {
                crate::text::lemma_deep_view_push(o0, *out, d);
                let c = seq![(ksv[i as int], None::<Seq<char>>, last_value(nv, ksv[i as int]))];
                assert(mk(c + rest) =~= mk(c) + mk(rest));
                assert(mk(c) =~= seq![d.deep_view()]);
            }
        }
        i = i + 1;
    }
    assert(mk(added(ov, nv, ksv, i as int)) =~= Seq::<FieldDiffView>::empty());
}

/// The differences between two requests: method, URL, headers, body and parameters.
pub fn diff_requests(old: &Request, new: &Request) -> (r: Vec<FieldDiff>)
    ensures
        r.deep_view() == request_diffs(old@, new@),
{
    let mut diffs: Vec<FieldDiff> = Vec::new();
    let ghost d0 = diffs.deep_view();
    assert(d0 =~= Seq::<FieldDiffView>::empty());
    if old.method != new.method {
        let ghost v0 = diffs;
        let d = FieldDiff::Method { old: old.method.to_string(), new: new.method.to_string() };
        diffs.push(d);
        proof {
            crate::text::lemma_deep_view_push(v0, diffs, d);
        }
    }
    let ghost d1 = diffs.deep_view();
    if !str_eq(old.url.as_str(), new.url.as_str()) {
        let ghost v0 = diffs;
        let d = FieldDiff::Url { old: old.url.clone(), new: new.url.clone() };
        diffs.push(d);
        proof {
            crate::text::lemma_deep_view_push(v0, diffs, d);
        }
    }
    let ghost d2 = diffs.deep_view();
    push_changed_or_removed(&mut diffs, &old.headers, &new.headers, false);
    push_added(&mut diffs, &old.headers, &new.headers, false);
    let ghost d3 = diffs.deep_view();
    if !str_eq(old.body.as_str(), new.body.as_str()) {
        let ghost v0 = diffs;
        let d = FieldDiff::Body { old: old.body.clone(), new: new.body.clone() };
        diffs.push(d);
        proof {
            crate::text::lemma_deep_view_push(v0, diffs, d);
        }
    }
    let ghost d4 = diffs.deep_view();
    push_changed_or_removed(&mut diffs, &old.params, &new.params, true);
    push_added(&mut diffs, &old.params, &new.params, true);
    proof {
        let hc = pair_changes(old@.headers, new@.headers);
        let pc = pair_changes(old@.params, new@.params);
        assert(header_diffs(hc) =~= header_diffs(
            changed_or_removed(old@.headers, new@.headers, first_keys(old@.headers), 0),
        ) + header_diffs(added(old@.headers, new@.headers, first_keys(new@.headers), 0)));
        assert(param_diffs(pc) =~= param_diffs(
            changed_or_removed(old@.params, new@.params, first_keys(old@.params), 0),
        ) + param_diffs(added(old@.params, new@.params, first_keys(new@.params), 0)));
        assert(diffs.deep_view() =~= request_diffs(old@, new@));
    }
    diffs
}

/// A name occurring in the pairs has a last value.
proof fn lemma_last_value_some(kvs: Seq<KeyValueView>, j: int)
    requires
        0 <= j < kvs.len(),
    ensures
        last_value(kvs, kvs[j].key) is Some,
    decreases kvs.len(),
{
    if kvs.last().key != kvs[j].key {
        assert(kvs.drop_last()[j] == kvs[j]);
        lemma_last_value_some(kvs.drop_last(), j);
    }
}

/// Every name collected from `kvs[i..]` is in `acc` or is the name of a pair of `kvs[i..]`.
proof fn lemma_first_keys_from_names(kvs: Seq<KeyValueView>, i: int, acc: Seq<Seq<char>>)
    requires
        0 <= i,
    ensures
        forall|x: int|
            0 <= x < first_keys_from(kvs, i, acc).len() ==> acc.contains(
                #[trigger] first_keys_from(kvs, i, acc)[x],
            ) || exists|j: int| i <= j < kvs.len() && kvs[j].key == first_keys_from(kvs, i, acc)[x],
    decreases kvs.len() - i,
{
    if i < kvs.len() {
        let r = first_keys_from(kvs, i, acc);
        let acc2 = if acc.contains(kvs[i].key) {
            acc
        } else {
            acc.push(kvs[i].key)
        };
        assert(r == first_keys_from(kvs, i + 1, acc2));
        lemma_first_keys_from_names(kvs, i + 1, acc2);
        assert forall|x: int| 0 <= x < r.len() implies acc.contains(#[trigger] r[x]) || exists|
            j: int,
        | i <= j < kvs.len() && kvs[j].key == r[x] by {
            if acc2.contains(r[x]) {
                let y = choose|y: int| 0 <= y < acc2.len() && acc2[y] == r[x];
                if y < acc.len() {
                    assert(acc[y] == r[x]);
                } else {
                    assert(kvs[i].key == r[x]);
                }
            } else {
                let j = choose|j: int| i + 1 <= j < kvs.len() && kvs[j].key == r[x];
                assert(kvs[j].key == r[x]);
            }
        }
    }
}

/// Comparing pairs with themselves finds no change.
proof fn lemma_no_changes_self(kvs: Seq<KeyValueView>, ks: Seq<Seq<char>>, i: int)
    requires
        0 <= i,
        forall|x: int| 0 <= x < ks.len() ==> last_value(kvs, #[trigger] ks[x]) is Some,
    ensures
        changed_or_removed(kvs, kvs, ks, i) == Seq::<PairChange>::empty(),
        added(kvs, kvs, ks, i) == Seq::<PairChange>::empty(),
    decreases ks.len() - i,
{
    if i < ks.len() {
        assert(last_value(kvs, ks[i]) is Some);
        lemma_no_changes_self(kvs, ks, i + 1);
    }
}

/// Every distinct name of a list of pairs has a last value.
proof fn lemma_first_keys_have_values(kvs: Seq<KeyValueView>)
    ensures
        forall|x: int|
            0 <= x < first_keys(kvs).len() ==> last_value(kvs, #[trigger] first_keys(kvs)[x]) is Some,
{
    lemma_first_keys_from_names(kvs, 0, Seq::empty());
    assert forall|x: int| 0 <= x < first_keys(kvs).len() implies last_value(
        kvs,
        #[trigger] first_keys(kvs)[x],
    ) is Some by {
        let k = first_keys(kvs)[x];
        assert(!Seq::<Seq<char>>::empty().contains(k));
        let j = choose|j: int| 0 <= j < kvs.len() && kvs[j].key == k;
        lemma_last_value_some(kvs, j);
    }
}

/// A request compared with itself shows no difference.
pub proof fn law_diff_requests_identical(r: RequestView)
    ensures
        request_diffs(r, r) == Seq::<FieldDiffView>::empty(),
{
    lemma_first_keys_have_values(r.headers);
    lemma_first_keys_have_values(r.params);
    lemma_no_changes_self(r.headers, first_keys(r.headers), 0);
    lemma_no_changes_self(r.params, first_keys(r.params), 0);
    assert(header_diffs(pair_changes(r.headers, r.headers)) =~= Seq::<FieldDiffView>::empty());
    assert(param_diffs(pair_changes(r.params, r.params)) =~= Seq::<FieldDiffView>::empty());
    assert(request_diffs(r, r) =~= Seq::<FieldDiffView>::empty());
}

/// The names gathered from `kvs[i..]` include those already gathered and every later name.
proof fn lemma_first_keys_from_covers(kvs: Seq<KeyValueView>, i: int, acc: Seq<Seq<char>>)
    requires
        0 <= i,
    ensures
        forall|x: Seq<char>| acc.contains(x) ==> #[trigger] first_keys_from(kvs, i, acc).contains(x),
        forall|j: int| i <= j < kvs.len() ==> first_keys_from(kvs, i, acc).contains(#[trigger] kvs[j].key),
    decreases kvs.len() - i,
{
    if i < kvs.len() {
        let acc2 = if acc.contains(kvs[i].key) {
            acc
        } else {
            acc.push(kvs[i].key)
        };
        lemma_first_keys_from_covers(kvs, i + 1, acc2);
        assert forall|x: Seq<char>| acc.contains(x) implies acc2.contains(x) by {
            if !acc.contains(kvs[i].key) {
                let k = choose|k: int| 0 <= k < acc.len() && acc[k] == x;
                assert(acc2[k] == x);
            }
        }
        if !acc.contains(kvs[i].key) {
            assert(acc2[acc.len() as int] == kvs[i].key);
        }
        assert(acc2.contains(kvs[i].key));
        assert(first_keys_from(kvs, i, acc) == first_keys_from(kvs, i + 1, acc2));
        assert forall|j: int| i <= j < kvs.len() implies first_keys_from(kvs, i, acc).contains(
            #[trigger] kvs[j].key,
        ) by {
            if j == i {
                assert(acc2.contains(kvs[j].key));
            }
        }
    }
}

/// A name with a value has a pair.
proof fn lemma_last_value_index(kvs: Seq<KeyValueView>, k: Seq<char>)
    requires
        last_value(kvs, k) is Some,
    ensures
        exists|j: int| 0 <= j < kvs.len() && kvs[j].key == k,
    decreases kvs.len(),
{
    if kvs.last().key == k {
        assert(kvs[kvs.len() - 1].key == k);
    } else {
        lemma_last_value_index(kvs.drop_last(), k);
        let j = choose|j: int| 0 <= j < kvs.drop_last().len() && kvs.drop_last()[j].key == k;
        assert(kvs[j] == kvs.drop_last()[j]);
    }
}

/// The distinct names of a list are exactly the names that have a value.
proof fn lemma_first_keys_exact(kvs: Seq<KeyValueView>, k: Seq<char>)
    ensures
        first_keys(kvs).contains(k) <==> last_value(kvs, k) is Some,
{
    lemma_first_keys_have_values(kvs);
    lemma_first_keys_from_covers(kvs, 0, Seq::empty());
    if last_value(kvs, k) is Some {
        lemma_last_value_index(kvs, k);
        let j = choose|j: int| 0 <= j < kvs.len() && kvs[j].key == k;
        assert(first_keys(kvs).contains(kvs[j].key));
    }
    if first_keys(kvs).contains(k) {
        let x = choose|x: int| 0 <= x < first_keys(kvs).len() && first_keys(kvs)[x] == k;
        assert(last_value(kvs, first_keys(kvs)[x]) is Some);
    }
}

/// What the changed-or-removed list holds, for names that all have an old value.
proof fn lemma_changed_or_removed_contains(
    old: Seq<KeyValueView>,
    new: Seq<KeyValueView>,
    ks: Seq<Seq<char>>,
    i: int,
    c: PairChange,
)
    requires
        0 <= i,
        forall|x: int| 0 <= x < ks.len() ==> last_value(old, #[trigger] ks[x]) is Some,
    ensures
        changed_or_removed(old, new, ks, i).contains(c) <==> (exists|j: int| i <= j < ks.len() && ks[j] == c.0)
            && c.1 == last_value(old, c.0) && c.2 == last_value(new, c.0) && c.1 != c.2,
    decreases ks.len() - i,
{
    if i < ks.len() {
        let k = ks[i];
        assert(last_value(old, k) is Some);
        lemma_changed_or_removed_contains(old, new, ks, i + 1, c);
        let rest = changed_or_removed(old, new, ks, i + 1);
        let here = (k, last_value(old, k), last_value(new, k));
        let whole = changed_or_removed(old, new, ks, i);
        if here.1 != here.2 {
            assert(whole == seq![here] + rest);
            assert(whole.contains(c) <==> c == here || rest.contains(c)) by {
                if whole.contains(c) {
                    let x = choose|x: int| 0 <= x < whole.len() && whole[x] == c;
                    if x > 0 {
                        assert(rest[x - 1] == c);
                    }
                }
                if rest.contains(c) {
                    let x = choose|x: int| 0 <= x < rest.len() && rest[x] == c;
                    assert(whole[x + 1] == c);
                }
                if c == here {
                    assert(whole[0] == c);
                }
            }
        } else {
            assert(whole == rest);
        }
        if exists|j: int| i <= j < ks.len() && ks[j] == c.0 {
            let j = choose|j: int| i <= j < ks.len() && ks[j] == c.0;
            if j > i {
                assert(exists|j2: int| i + 1 <= j2 < ks.len() && ks[j2] == c.0);
            }
        }
    }
}

/// What the added list holds.
proof fn lemma_added_contains(
    old: Seq<KeyValueView>,
    new: Seq<KeyValueView>,
    ks: Seq<Seq<char>>,
    i: int,
    c: PairChange,
)
    requires
        0 <= i,
        forall|x: int| 0 <= x < ks.len() ==> last_value(new, #[trigger] ks[x]) is Some,
    ensures
        added(old, new, ks, i).contains(c) <==> (exists|j: int| i <= j < ks.len() && ks[j] == c.0)
            && c.1 == last_value(old, c.0) && c.1 is None && c.2 == last_value(new, c.0),
    decreases ks.len() - i,
{
    if i < ks.len() {
        let k = ks[i];
        assert(last_value(new, k) is Some);
        lemma_added_contains(old, new, ks, i + 1, c);
        let rest = added(old, new, ks, i + 1);
        let here = (k, None::<Seq<char>>, last_value(new, k));
        let whole = added(old, new, ks, i);
        if last_value(old, k) is None {
            assert(whole == seq![here] + rest);
            assert(whole.contains(c) <==> c == here || rest.contains(c)) by {
                if whole.contains(c) {
                    let x = choose|x: int| 0 <= x < whole.len() && whole[x] == c;
                    if x > 0 {
                        assert(rest[x - 1] == c);
                    }
                }
                if rest.contains(c) {
                    let x = choose|x: int| 0 <= x < rest.len() && rest[x] == c;
                    assert(whole[x + 1] == c);
                }
                if c == here {
                    assert(whole[0] == c);
                }
            }
        } else {
            assert(whole == rest);
        }
        if exists|j: int| i <= j < ks.len() && ks[j] == c.0 {
            let j = choose|j: int| i <= j < ks.len() && ks[j] == c.0;
            if j > i {
                assert(exists|j2: int| i + 1 <= j2 < ks.len() && ks[j2] == c.0);
            }
        }
    }
}

/// A change is listed between two lists of pairs exactly when the name's last values in the
/// two lists differ, with those values.
pub open spec fn is_pair_change(old: Seq<KeyValueView>, new: Seq<KeyValueView>, c: PairChange) -> bool {
    c.1 == last_value(old, c.0) && c.2 == last_value(new, c.0) && c.1 != c.2
}

proof fn lemma_pair_changes_contains(old: Seq<KeyValueView>, new: Seq<KeyValueView>, c: PairChange)
    ensures
        pair_changes(old, new).contains(c) <==> is_pair_change(old, new, c),
{
    lemma_first_keys_have_values(old);
    lemma_first_keys_have_values(new);
    lemma_first_keys_exact(old, c.0);
    lemma_first_keys_exact(new, c.0);
    lemma_changed_or_removed_contains(old, new, first_keys(old), 0, c);
    lemma_added_contains(old, new, first_keys(new), 0, c);
    let a = changed_or_removed(old, new, first_keys(old), 0);
    let b = added(old, new, first_keys(new), 0);
    let ab = a + b;
    assert(ab.contains(c) <==> a.contains(c) || b.contains(c)) by {
        if ab.contains(c) {
            let x = choose|x: int| 0 <= x < ab.len() && ab[x] == c;
            if x < a.len() {
                assert(a[x] == c);
            } else {
                assert(b[x - a.len()] == c);
            }
        }
        if a.contains(c) {
            let x = choose|x: int| 0 <= x < a.len() && a[x] == c;
            assert(ab[x] == c);
        }
        if b.contains(c) {
            let x = choose|x: int| 0 <= x < b.len() && b[x] == c;
            assert(ab[x + a.len()] == c);
        }
    }
    if is_pair_change(old, new, c) {
        if c.1 is Some {
            let x = choose|x: int| 0 <= x < first_keys(old).len() && first_keys(old)[x] == c.0;
            assert(exists|j: int| 0 <= j < first_keys(old).len() && first_keys(old)[j] == c.0);
        } else {
            let x = choose|x: int| 0 <= x < first_keys(new).len() && first_keys(new)[x] == c.0;
            assert(exists|j: int| 0 <= j < first_keys(new).len() && first_keys(new)[j] == c.0);
        }
    }
    if a.contains(c) {
        let j = choose|j: int| 0 <= j < first_keys(old).len() && first_keys(old)[j] == c.0;
        assert(first_keys(old).contains(c.0));
    }
}

/// Comparing two lists of pairs the other way round lists the same changes with old and new
/// values swapped.
pub proof fn law_pair_changes_swap(a: Seq<KeyValueView>, b: Seq<KeyValueView>, k: Seq<char>, x: Option<Seq<char>>, y: Option<Seq<char>>)
    ensures
        pair_changes(a, b).contains((k, x, y)) <==> pair_changes(b, a).contains((k, y, x)),
{
    lemma_pair_changes_contains(a, b, (k, x, y));
    lemma_pair_changes_contains(b, a, (k, y, x));
}

/// A difference read the other way round: old and new swapped.
pub open spec fn swapped(d: FieldDiffView) -> FieldDiffView {
    match d {
        FieldDiffView::Method { old, new } => FieldDiffView::Method { old: new, new: old },
        FieldDiffView::Url { old, new } => FieldDiffView::Url { old: new, new: old },
        FieldDiffView::Header { key, old_value, new_value } => FieldDiffView::Header {
            key,
            old_value: new_value,
            new_value: old_value,
        },
        FieldDiffView::Body { old, new } => FieldDiffView::Body { old: new, new: old },
        FieldDiffView::Param { key, old_value, new_value } => FieldDiffView::Param {
            key,
            old_value: new_value,
            new_value: old_value,
        },
    }
}

proof fn lemma_concat_contains<A>(s: Seq<A>, t: Seq<A>, x: A)
    ensures
        (s + t).contains(x) <==> s.contains(x) || t.contains(x),
{
    if (s + t).contains(x) {
        let i = choose|i: int| 0 <= i < (s + t).len() && (s + t)[i] == x;
        if i < s.len() {
            assert(s[i] == x);
        } else {
            assert(t[i - s.len()] == x);
        }
    }
    if s.contains(x) {
        let i = choose|i: int| 0 <= i < s.len() && s[i] == x;
        assert((s + t)[i] == x);
    }
    if t.contains(x) {
        let i = choose|i: int| 0 <= i < t.len() && t[i] == x;
        assert((s + t)[i + s.len()] == x);
    }
}

/// The header differences of a list of changes hold a header difference exactly when the
/// list holds that change, and hold nothing else.
proof fn lemma_field_diffs_contains(cs: Seq<PairChange>, d: FieldDiffView)
    ensures
        header_diffs(cs).contains(d) <==> (d matches FieldDiffView::Header { key, old_value, new_value }
            && cs.contains((key, old_value, new_value))),
        param_diffs(cs).contains(d) <==> (d matches FieldDiffView::Param { key, old_value, new_value }
            && cs.contains((key, old_value, new_value))),
{
    if header_diffs(cs).contains(d) {
        let i = choose|i: int| 0 <= i < header_diffs(cs).len() && header_diffs(cs)[i] == d;
        assert(cs[i] == (cs[i].0, cs[i].1, cs[i].2));
    }
    if param_diffs(cs).contains(d) {
        let i = choose|i: int| 0 <= i < param_diffs(cs).len() && param_diffs(cs)[i] == d;
        assert(cs[i] == (cs[i].0, cs[i].1, cs[i].2));
    }
    match d {
        FieldDiffView::Header { key, old_value, new_value } => {
            if cs.contains((key, old_value, new_value)) {
                let i = choose|i: int| 0 <= i < cs.len() && cs[i] == (key, old_value, new_value);
                assert(header_diffs(cs)[i] == d);
            }
        },
        FieldDiffView::Param { key, old_value, new_value } => {
            if cs.contains((key, old_value, new_value)) {
                let i = choose|i: int| 0 <= i < cs.len() && cs[i] == (key, old_value, new_value);
                assert(param_diffs(cs)[i] == d);
            }
        },
        _ => {},
    }
}

/// Which differences two requests have, part by part.
proof fn lemma_request_diffs_contains(a: RequestView, b: RequestView, d: FieldDiffView)
    ensures
        request_diffs(a, b).contains(d) <==> {
            ||| a.method != b.method && d == FieldDiffView::Method { old: method_name(a.method), new: method_name(b.method) }
            ||| a.url != b.url && d == FieldDiffView::Url { old: a.url, new: b.url }
            ||| header_diffs(pair_changes(a.headers, b.headers)).contains(d)
            ||| a.body != b.body && d == FieldDiffView::Body { old: a.body, new: b.body }
            ||| param_diffs(pair_changes(a.params, b.params)).contains(d)
        },
{
    let p1 = if a.method != b.method {
        seq![FieldDiffView::Method { old: method_name(a.method), new: method_name(b.method) }]
    } else {
        Seq::empty()
    };
    let p2 = if a.url != b.url {
        seq![FieldDiffView::Url { old: a.url, new: b.url }]
    } else {
        Seq::empty()
    };
    let p3 = header_diffs(pair_changes(a.headers, b.headers));
    let p4 = if a.body != b.body {
        seq![FieldDiffView::Body { old: a.body, new: b.body }]
    } else {
        Seq::empty()
    };
    let p5 = param_diffs(pair_changes(a.params, b.params));
    assert(request_diffs(a, b) == p1 + p2 + p3 + p4 + p5);
    lemma_concat_contains(p1 + p2 + p3 + p4, p5, d);
    lemma_concat_contains(p1 + p2 + p3, p4, d);
    lemma_concat_contains(p1 + p2, p3, d);
    lemma_concat_contains(p1, p2, d);
    if p1.contains(d) {
        assert(p1[0] == d);
    }
    if p2.contains(d) {
        assert(p2[0] == d);
    }
    if p4.contains(d) {
        assert(p4[0] == d);
    }
    if a.method != b.method && d == (FieldDiffView::Method { old: method_name(a.method), new: method_name(b.method) }) {
        assert(p1[0] == d);
    }
    if a.url != b.url && d == (FieldDiffView::Url { old: a.url, new: b.url }) {
        assert(p2[0] == d);
    }
    if a.body != b.body && d == (FieldDiffView::Body { old: a.body, new: b.body }) {
        assert(p4[0] == d);
    }
}

/// A difference is listed for (a, b) exactly when its swap is listed for (b, a).
proof fn lemma_diff_requests_swap_member(a: RequestView, b: RequestView, d: FieldDiffView)
    ensures
        request_diffs(a, b).contains(d) <==> request_diffs(b, a).contains(swapped(d)),
{
    lemma_request_diffs_contains(a, b, d);
    lemma_request_diffs_contains(b, a, swapped(d));
    lemma_field_diffs_contains(pair_changes(a.headers, b.headers), d);
    lemma_field_diffs_contains(pair_changes(b.headers, a.headers), swapped(d));
    lemma_field_diffs_contains(pair_changes(a.params, b.params), d);
    lemma_field_diffs_contains(pair_changes(b.params, a.params), swapped(d));
    match d {
        FieldDiffView::Header { key, old_value, new_value } => {
            law_pair_changes_swap(a.headers, b.headers, key, old_value, new_value);
        },
        FieldDiffView::Param { key, old_value, new_value } => {
            law_pair_changes_swap(a.params, b.params, key, old_value, new_value);
        },
        _ => {},
    }
}

/// Swapping twice gives the difference back.
proof fn lemma_swapped_twice(d: FieldDiffView)
    ensures
        swapped(swapped(d)) == d,
{
}

/// The differences with old and new swapped in each.
pub open spec fn swapped_all(ds: Seq<FieldDiffView>) -> Seq<FieldDiffView> {
    ds.map_values(|d: FieldDiffView| swapped(d))
}

/// Gathering names never lists one twice.
proof fn lemma_first_keys_from_no_dup(kvs: Seq<KeyValueView>, i: int, acc: Seq<Seq<char>>)
    requires
        0 <= i,
        acc.no_duplicates(),
    ensures
        first_keys_from(kvs, i, acc).no_duplicates(),
    decreases kvs.len() - i,
{
    if i < kvs.len() {
        if acc.contains(kvs[i].key) {
            lemma_first_keys_from_no_dup(kvs, i + 1, acc);
        } else {
            let acc2 = acc.push(kvs[i].key);
            assert forall|x: int, y: int| 0 <= x < acc2.len() && 0 <= y < acc2.len() && x != y implies acc2[x]
                != acc2[y] by {
                if x == acc.len() as int {
                    assert(acc[y] == acc2[y]);
                } else if y == acc.len() as int {
                    assert(acc[x] == acc2[x]);
                }
            }
            lemma_first_keys_from_no_dup(kvs, i + 1, acc2);
        }
    }
}

/// `seq![x] + s` has no duplicates when `s` has none and lacks `x`.
proof fn lemma_cons_no_dup<A>(x: A, s: Seq<A>)
    requires
        s.no_duplicates(),
        !s.contains(x),
    ensures
        (seq![x] + s).no_duplicates(),
{
    assert forall|i: int, j: int| 0 <= i < 1 && 0 <= j < s.len() implies seq![x][i] != s[j] by {
        if s[j] == x {
            assert(s.contains(x));
        }
    }
    vstd::seq_lib::lemma_no_dup_in_concat(seq![x], s);
}

/// The changed-or-removed list never lists a change twice.
proof fn lemma_changed_or_removed_no_dup(old: Seq<KeyValueView>, new: Seq<KeyValueView>, ks: Seq<Seq<char>>, i: int)
    requires
        0 <= i,
        ks.no_duplicates(),
        forall|x: int| 0 <= x < ks.len() ==> last_value(old, #[trigger] ks[x]) is Some,
    ensures
        changed_or_removed(old, new, ks, i).no_duplicates(),
    decreases ks.len() - i,
{
    if i < ks.len() {
        lemma_changed_or_removed_no_dup(old, new, ks, i + 1);
        let k = ks[i];
        let here = (k, last_value(old, k), last_value(new, k));
        let rest = changed_or_removed(old, new, ks, i + 1);
        lemma_changed_or_removed_contains(old, new, ks, i + 1, here);
        if rest.contains(here) {
            let j = choose|j: int| i + 1 <= j < ks.len() && ks[j] == here.0;
            assert(ks[j] == ks[i]);
        }
        if here.1 != here.2 {
            assert(changed_or_removed(old, new, ks, i) == seq![here] + rest);
            lemma_cons_no_dup(here, rest);
        }
    }
}

/// The added list never lists a change twice.
proof fn lemma_added_no_dup(old: Seq<KeyValueView>, new: Seq<KeyValueView>, ks: Seq<Seq<char>>, i: int)
    requires
        0 <= i,
        ks.no_duplicates(),
        forall|x: int| 0 <= x < ks.len() ==> last_value(new, #[trigger] ks[x]) is Some,
    ensures
        added(old, new, ks, i).no_duplicates(),
    decreases ks.len() - i,
{
    if i < ks.len() {
        lemma_added_no_dup(old, new, ks, i + 1);
        let k = ks[i];
        let here = (k, None::<Seq<char>>, last_value(new, k));
        let rest = added(old, new, ks, i + 1);
        lemma_added_contains(old, new, ks, i + 1, here);
        if rest.contains(here) {
            let j = choose|j: int| i + 1 <= j < ks.len() && ks[j] == here.0;
            assert(ks[j] == ks[i]);
        }
        if last_value(old, k) is None {
            assert(added(old, new, ks, i) == seq![here] + rest);
            lemma_cons_no_dup(here, rest);
        }
    }
}

/// The changes between two lists of pairs never list a change twice.
proof fn lemma_pair_changes_no_dup(old: Seq<KeyValueView>, new: Seq<KeyValueView>)
    ensures
        pair_changes(old, new).no_duplicates(),
{
    lemma_first_keys_from_no_dup(old, 0, Seq::empty());
    lemma_first_keys_from_no_dup(new, 0, Seq::empty());
    lemma_first_keys_have_values(old);
    lemma_first_keys_have_values(new);
    lemma_changed_or_removed_no_dup(old, new, first_keys(old), 0);
    lemma_added_no_dup(old, new, first_keys(new), 0);
    let a = changed_or_removed(old, new, first_keys(old), 0);
    let b = added(old, new, first_keys(new), 0);
    assert forall|i: int, j: int| 0 <= i < a.len() && 0 <= j < b.len() implies a[i] != b[j] by {
        lemma_changed_or_removed_contains(old, new, first_keys(old), 0, a[i]);
        lemma_added_contains(old, new, first_keys(new), 0, b[j]);
        assert(a.contains(a[i]));
        assert(b.contains(b[j]));
        let x = choose|x: int| 0 <= x < first_keys(old).len() && first_keys(old)[x] == a[i].0;
        assert(last_value(old, first_keys(old)[x]) is Some);
    }
    vstd::seq_lib::lemma_no_dup_in_concat(a, b);
}

/// Which variant a difference is, as a number.
pub open spec fn diff_kind(d: FieldDiffView) -> int {
    match d {
        FieldDiffView::Method { .. } => 0,
        FieldDiffView::Url { .. } => 1,
        FieldDiffView::Header { .. } => 2,
        FieldDiffView::Body { .. } => 3,
        FieldDiffView::Param { .. } => 4,
    }
}

/// The differences of two requests never list one twice.
proof fn lemma_request_diffs_no_dup(a: RequestView, b: RequestView)
    ensures
        request_diffs(a, b).no_duplicates(),
{
    let p1 = if a.method != b.method {
        seq![FieldDiffView::Method { old: method_name(a.method), new: method_name(b.method) }]
    } else {
        Seq::empty()
    };
    let p2 = if a.url != b.url {
        seq![FieldDiffView::Url { old: a.url, new: b.url }]
    } else {
        Seq::empty()
    };
    let hc = pair_changes(a.headers, b.headers);
    let pc = pair_changes(a.params, b.params);
    let p3 = header_diffs(hc);
    let p4 = if a.body != b.body {
        seq![FieldDiffView::Body { old: a.body, new: b.body }]
    } else {
        Seq::empty()
    };
    let p5 = param_diffs(pc);
    lemma_pair_changes_no_dup(a.headers, b.headers);
    lemma_pair_changes_no_dup(a.params, b.params);
    assert forall|i: int, j: int| 0 <= i < p3.len() && 0 <= j < p3.len() && i != j implies p3[i] != p3[j] by {
        if p3[i] == p3[j] {
            assert(hc[i] == (hc[i].0, hc[i].1, hc[i].2));
            assert(hc[j] == (hc[j].0, hc[j].1, hc[j].2));
        }
    }
    assert forall|i: int, j: int| 0 <= i < p5.len() && 0 <= j < p5.len() && i != j implies p5[i] != p5[j] by {
        if p5[i] == p5[j] {
            assert(pc[i] == (pc[i].0, pc[i].1, pc[i].2));
            assert(pc[j] == (pc[j].0, pc[j].1, pc[j].2));
        }
    }
    assert(forall|i: int| 0 <= i < p1.len() ==> diff_kind(#[trigger] p1[i]) == 0);
    assert(forall|i: int| 0 <= i < p2.len() ==> diff_kind(#[trigger] p2[i]) == 1);
    assert(forall|i: int| 0 <= i < p3.len() ==> diff_kind(#[trigger] p3[i]) == 2);
    assert(forall|i: int| 0 <= i < p4.len() ==> diff_kind(#[trigger] p4[i]) == 3);
    assert(forall|i: int| 0 <= i < p5.len() ==> diff_kind(#[trigger] p5[i]) == 4);
    let q2 = p1 + p2;
    let q3 = q2 + p3;
    let q4 = q3 + p4;
    vstd::seq_lib::lemma_no_dup_in_concat(p1, p2);
    assert(forall|i: int| 0 <= i < q2.len() ==> diff_kind(#[trigger] q2[i]) <= 1) by {
        assert forall|i: int| 0 <= i < q2.len() implies diff_kind(#[trigger] q2[i]) <= 1 by {
            if i >= p1.len() {
                assert(q2[i] == p2[i - p1.len()]);
            }
        }
    }
    vstd::seq_lib::lemma_no_dup_in_concat(q2, p3);
    assert forall|i: int| 0 <= i < q3.len() implies diff_kind(#[trigger] q3[i]) <= 2 by {
        if i >= q2.len() {
            assert(q3[i] == p3[i - q2.len()]);
        }
    }
    vstd::seq_lib::lemma_no_dup_in_concat(q3, p4);
    assert forall|i: int| 0 <= i < q4.len() implies diff_kind(#[trigger] q4[i]) <= 3 by {
        if i >= q3.len() {
            assert(q4[i] == p4[i - q3.len()]);
        }
    }
    vstd::seq_lib::lemma_no_dup_in_concat(q4, p5);
    assert(request_diffs(a, b) == q4 + p5);
}

/// Two sequences without duplicates that hold the same elements have the same multiset.
proof fn lemma_same_elements_multiset<A>(s: Seq<A>, t: Seq<A>)
    requires
        s.no_duplicates(),
        t.no_duplicates(),
        forall|x: A| s.contains(x) <==> t.contains(x),
    ensures
        s.to_multiset() == t.to_multiset(),
{
    broadcast use vstd::seq_lib::group_to_multiset_ensures;
    s.lemma_multiset_has_no_duplicates();
    t.lemma_multiset_has_no_duplicates();
    assert forall|x: A| s.to_multiset().count(x) == t.to_multiset().count(x) by {
        if s.contains(x) {
            assert(s.to_multiset().contains(x));
            assert(t.to_multiset().contains(x));
        }
    }
    assert(s.to_multiset() =~= t.to_multiset());
}

/// Comparing two requests the other way round gives the same differences with old and new
/// swapped in each, as a multiset: a difference is listed for (a, b) exactly when its swap is
/// listed for (b, a), and neither comparison lists a difference twice.
pub proof fn law_diff_requests_swap(a: RequestView, b: RequestView)
    ensures
        swapped_all(request_diffs(a, b)).to_multiset() == request_diffs(b, a).to_multiset(),
{
    let r = request_diffs(a, b);
    let s = swapped_all(r);
    let t = request_diffs(b, a);
    lemma_request_diffs_no_dup(a, b);
    lemma_request_diffs_no_dup(b, a);
    assert forall|i: int, j: int| 0 <= i < s.len() && 0 <= j < s.len() && i != j implies s[i] != s[j] by {
        lemma_swapped_twice(r[i]);
        lemma_swapped_twice(r[j]);
    }
    assert forall|x: FieldDiffView| s.contains(x) <==> t.contains(x) by {
        lemma_swapped_twice(x);
        if s.contains(x) {
            let i = choose|i: int| 0 <= i < s.len() && s[i] == x;
            assert(r.contains(r[i]));
            lemma_diff_requests_swap_member(a, b, r[i]);
        }
        if t.contains(x) {
            lemma_diff_requests_swap_member(a, b, swapped(x));
            let i = choose|i: int| 0 <= i < r.len() && r[i] == swapped(x);
            lemma_swapped_twice(r[i]);
            assert(s[i] == x);
        }
    }
    lemma_same_elements_multiset(s, t);
}

} // verus!
