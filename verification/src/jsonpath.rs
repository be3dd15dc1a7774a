//! A small JSONPath: dotted member names, array positions, and `*` for all values of a level.
use vstd::prelude::*;

use crate::json::{
    copy_json, items_view, json_text, json_view, lemma_items_view_index, lemma_items_view_len,
    lemma_items_view_push, lemma_members_view_index, lemma_members_view_len, members_view,
    parse_json, spec_json_text, spec_parse_json, value_text, value_to_text, Json, JsonView,
};
use crate::text::{join, join_strings, parse_u64, parse_u64_spec, split_char, split_on, str_eq};

verus! {

/// The position of the first member named `key`, from `i` on.
pub open spec fn member_index(ms: Seq<(Seq<char>, JsonView)>, key: Seq<char>, i: nat) -> Option<nat>
    decreases ms.len() - i,
{
    if i >= ms.len() {
        None
    } else if ms[i as int].0 == key {
        Some(i)
    } else {
        member_index(ms, key, i + 1)
    }
}

/// The path after a `*` at `i`: the remaining parts joined by dots, if there are any.
pub open spec fn rest_after(parts: Seq<Seq<char>>, i: nat) -> Option<Seq<char>> {
    if i + 1 < parts.len() {
        Some(join(parts.subrange(i + 1 as int, parts.len() as int), "."@))
    } else {
        None
    }
}

/// Following `parts` from position `i` on, from the value `cur`: a name picks an object
/// member, a number an array element, and `*` gives the array of the values of this level,
/// each followed by the rest of the path (those where it leads nowhere are left out).
pub open spec fn walk(cur: JsonView, parts: Seq<Seq<char>>, i: nat) -> Option<JsonView>
    decreases cur, parts.len() - i,
{
    if i >= parts.len() {
        Some(cur)
    } else if parts[i as int] == "*"@ {
        match cur {
            JsonView::Object(ms) => Some(JsonView::Array(gather_members(ms, rest_after(parts, i)))),
            JsonView::Array(items) => Some(JsonView::Array(gather_items(items, rest_after(parts, i)))),
            _ => None,
        }
    } else {
        match cur {
            JsonView::Object(ms) => match member_index(ms, parts[i as int], 0) {
                Some(k) => if k < ms.len() {
                    proof {
                        assert(decreases_to!(ms => ms[k as int]));
                        assert(decreases_to!(ms[k as int] => ms[k as int].1));
                    }
                    walk(ms[k as int].1, parts, i + 1)
                } else {
                    None
                },
                None => None,
            },
            JsonView::Array(items) => match parse_u64_spec(parts[i as int]) {
                Some(k) => if k < items.len() {
                    proof {
                        assert(decreases_to!(items => items[k as int]));
                    }
                    walk(items[k as int], parts, i + 1)
                } else {
                    None
                },
                None => None,
            },
            _ => None,
        }
    }
}

/// The elements, each followed by the rest of the path when there is one.
pub open spec fn gather_items(items: Seq<JsonView>, rest: Option<Seq<char>>) -> Seq<JsonView>
    decreases items, 0nat,
{
    if items.len() == 0 {
        Seq::empty()
    } else {
        proof {
            assert(decreases_to!(items => items[items.len() - 1]));
            assert(decreases_to!(items => items.subrange(0, items.len() - 1)));
        }
        let before = gather_items(items.subrange(0, items.len() - 1), rest);
        let last = items[items.len() - 1];
        match rest {
            Some(r) => match if r.len() == 0 {
                Some(last)
            } else {
                walk(last, split_char(r, '.'), 0)
            } {
                Some(x) => before.push(x),
                None => before,
            },
            None => before.push(last),
        }
    }
}

/// The member values, each followed by the rest of the path when there is one.
pub open spec fn gather_members(ms: Seq<(Seq<char>, JsonView)>, rest: Option<Seq<char>>) -> Seq<JsonView>
    decreases ms, 0nat,
{
    if ms.len() == 0 {
        Seq::empty()
    } else {
        proof {
            assert(decreases_to!(ms => ms[ms.len() - 1]));
            assert(decreases_to!(ms[ms.len() - 1] => ms[ms.len() - 1].1));
            assert(decreases_to!(ms => ms.subrange(0, ms.len() - 1)));
        }
        let before = gather_members(ms.subrange(0, ms.len() - 1), rest);
        let last = ms[ms.len() - 1].1;
        match rest {
            Some(r) => match if r.len() == 0 {
                Some(last)
            } else {
                walk(last, split_char(r, '.'), 0)
            } {
                Some(x) => before.push(x),
                None => before,
            },
            None => before.push(last),
        }
    }
}

/// What a path gives for a JSON value, as text: for an empty path the value as JSON; for a
/// path with a `*` the JSON array it gathers; otherwise the text of the value it leads to
/// (`value_text`).
pub open spec fn resolved(v: JsonView, path: Seq<char>) -> Option<Seq<char>> {
    if path.len() == 0 {
        Some(spec_json_text(v))
    } else {
        let parts = split_char(path, '.');
        match walk(v, parts, 0) {
            Some(x) => Some(if parts.contains("*"@) {
                spec_json_text(x)
            } else {
                value_text(x)
            }),
            None => None,
        }
    }
}

/// An optional value as plain data.
pub open spec fn opt_json(o: Option<Json>) -> Option<JsonView> {
    match o {
        Some(j) => Some(j@),
        None => None,
    }
}

/// An optional text as plain data.
pub open spec fn opt_str(o: Option<String>) -> Option<Seq<char>> {
    match o {
        Some(s) => Some(s@),
        None => None,
    }
}

/// The position of the first member named `key`.
fn member_position(ms: &Vec<(String, Json)>, key: &str) -> (r: Option<usize>)
    ensures
        match r {
            Some(k) => member_index(members_view(ms@), key@, 0) == Some(k as nat) && k < ms@.len(),
            None => member_index(members_view(ms@), key@, 0) is None,
        },
{
    proof {
        lemma_members_view_len(ms@);
    }
    let mut i: usize = 0;
    while i < ms.len()
        invariant
            i <= ms.len(),
            members_view(ms@).len() == ms@.len(),
            member_index(members_view(ms@), key@, 0) == member_index(members_view(ms@), key@, i as nat),
        decreases ms.len() - i,
    {
        proof {
            lemma_members_view_index(ms@, i as int);
        }
        if str_eq(ms[i].0.as_str(), key) {
            return Some(i);
        }
        i = i + 1;
    }
    None
}

/// The parts after position `i` joined by dots, when there are any.
fn rest_text(parts: &Vec<String>, i: usize) -> (r: Option<String>)
    requires
        i < parts.len(),
    ensures
        opt_str(r) == rest_after(parts.deep_view(), i as nat),
{
    if i + 1 >= parts.len() {
        return None;
    }
    let mut tail: Vec<String> = Vec::new();
    let mut k: usize = i + 1;
    assert(tail.deep_view() =~= Seq::<Seq<char>>::empty());
    while k < parts.len()
        invariant
            i + 1 <= k <= parts.len(),
            tail.deep_view() == parts.deep_view().subrange(i + 1, k as int),
        decreases parts.len() - k,
    {
        let ghost t0 = tail;
        let x = parts[k].clone();
        tail.push(x);
        proof {
            crate::text::lemma_deep_view_push(t0, tail, x);
            assert(parts.deep_view().subrange(i + 1, k + 1) =~= parts.deep_view().subrange(i + 1, k as int).push(
                parts.deep_view()[k as int],
            ));
        }
        k = k + 1;
    }
    Some(join_strings(&tail, "."))
}

/// Follows `parts` from position `i` on, from `cur`: see `walk`.
pub fn walk_path(cur: &Json, parts: &Vec<String>, i: usize) -> (r: Option<Json>)
    requires
        i <= parts.len(),
    ensures
        opt_json(r) == walk(cur@, parts.deep_view(), i as nat),
    decreases *cur, parts.len() - i,
{
    if i >= parts.len() {
        return Some(copy_json(cur));
    }
    proof {
        reveal_strlit("*");
    }
    if str_eq(parts[i].as_str(), "*") {
        let rest = rest_text(parts, i);
        return match cur {
            Json::Object(ms) => {
                proof {
                    assert(decreases_to!(*cur => (*cur)->Object_0));
                }
                Some(Json::Array(gather_member_values(ms, &rest)))
            },
            Json::Array(items) => {
                proof {
                    assert(decreases_to!(*cur => (*cur)->Array_0));
                }
                Some(Json::Array(gather_elements(items, &rest)))
            },
            _ => None,
        };
    }
    match cur {
        Json::Object(ms) => match member_position(ms, parts[i].as_str()) {
            Some(k) => {
                proof {
                    lemma_members_view_index(ms@, k as int);
                    assert(decreases_to!(*cur => (*cur)->Object_0));
                    assert(decreases_to!(*ms => ms@));
                    assert(decreases_to!(ms@ => ms@[k as int]));
                    assert(decreases_to!(ms@[k as int] => ms@[k as int].1));
                }
                walk_path(&ms[k].1, parts, i + 1)
            },
            None => None,
        },
        Json::Array(items) => match parse_u64(parts[i].as_str()) {
            Some(k) => {
                proof {
                    lemma_items_view_len(items@);
                }
                if k < items.len() as u64 {
                    proof {
                        lemma_items_view_index(items@, k as int);
                        assert(decreases_to!(*cur => (*cur)->Array_0));
                        assert(decreases_to!(*items => items@));
                        assert(decreases_to!(items@ => items@[k as int]));
                    }
                    walk_path(&items[k as usize], parts, i + 1)
                } else {
                    None
                }
            },
            None => None,
        },
        _ => None,
    }
}

/// The elements, each followed by the rest of the path when there is one.
fn gather_elements(items: &Vec<Json>, rest: &Option<String>) -> (r: Vec<Json>)
    ensures
        items_view(r@) == gather_items(items_view(items@), opt_str(*rest)),
    decreases *items, 0nat,
{
    let mut out: Vec<Json> = Vec::new();
    let mut k: usize = 0;
    assert(items@.take(0) =~= Seq::<Json>::empty());
    assert(out@ =~= Seq::<Json>::empty());
    while k < items.len()
        invariant
            k <= items.len(),
            items_view(out@) == gather_items(items_view(items@.take(k as int)), opt_str(*rest)),
        decreases items.len() - k,
    {
        proof {
            assert(items@.take(k + 1) =~= items@.take(k as int).push(items@[k as int]));
            lemma_items_view_push(items@.take(k as int), items@[k as int]);
            let vs = items_view(items@.take(k as int)).push(items@[k as int]@);
            assert(vs.subrange(0, vs.len() - 1) =~= items_view(items@.take(k as int)));
            assert(decreases_to!(*items => items@));
            assert(decreases_to!(items@ => items@[k as int]));
        }
        let next = match rest {
            Some(r) => if r.as_str().is_empty() {
                Some(copy_json(&items[k]))
            } else {
                let ps = crate::text::split_on(r.as_str(), '.');
                walk_path(&items[k], &ps, 0)
            },
            None => Some(copy_json(&items[k])),
        };
        match next {
            Some(x) => {
                let ghost o0 = out@;
                out.push(x);
                proof {
                    lemma_items_view_push(o0, x);
                }
            },
            None => {},
        }
        k = k + 1;
    }
    assert(items@.take(k as int) =~= items@);
    out
}

/// The member values, each followed by the rest of the path when there is one.
fn gather_member_values(ms: &Vec<(String, Json)>, rest: &Option<String>) -> (r: Vec<Json>)
    ensures
        items_view(r@) == gather_members(members_view(ms@), opt_str(*rest)),
    decreases *ms, 0nat,
{
    let mut out: Vec<Json> = Vec::new();
    let mut k: usize = 0;
    assert(ms@.take(0) =~= Seq::<(String, Json)>::empty());
    assert(out@ =~= Seq::<Json>::empty());
    while k < ms.len()
        invariant
            k <= ms.len(),
            items_view(out@) == gather_members(members_view(ms@.take(k as int)), opt_str(*rest)),
        decreases ms.len() - k,
    {
        proof {
            let t = ms@.take(k + 1);
            assert(t.subrange(0, k as int) =~= ms@.take(k as int));
            assert(t[k as int] == ms@[k as int]);
            lemma_members_view_len(t);
            lemma_members_view_index(t, k as int);
            let mv = members_view(t);
            assert(mv =~= members_view(ms@.take(k as int)).push((ms@[k as int].0@, ms@[k as int].1@)));
            assert(mv.subrange(0, mv.len() - 1) =~= members_view(ms@.take(k as int)));
            assert(decreases_to!(*ms => ms@));
            assert(decreases_to!(ms@ => ms@[k as int]));
            assert(decreases_to!(ms@[k as int] => ms@[k as int].1));
        }
        let next = match rest {
            Some(r) => if r.as_str().is_empty() {
                Some(copy_json(&ms[k].1))
            } else {
                let ps = crate::text::split_on(r.as_str(), '.');
                walk_path(&ms[k].1, &ps, 0)
            },
            None => Some(copy_json(&ms[k].1)),
        };
        match next {
            Some(x) => {
                let ghost o0 = out@;
                out.push(x);
                proof {
                    lemma_items_view_push(o0, x);
                }
            },
            None => {},
        }
        k = k + 1;
    }
    assert(ms@.take(k as int) =~= ms@);
    out
}

/// Whether one of the parts is `*`.
fn has_star(parts: &Vec<String>) -> (r: bool)
    ensures
        r == parts.deep_view().contains("*"@),
{
    crate::text::strings_contain(parts, "*")
}

/// Reads a JSON text and gives what the path picks from it as text (see `resolved`); `None`
/// when the text is no JSON or the path leads nowhere.
pub fn parse_jsonpath(json_str: &str, path: &str) -> (r: Option<String>)
    ensures
        match spec_parse_json(json_str@) {
            Some(j) => opt_str(r) == resolved(j, path@),
            None => r is None,
        },
{
    let v = match parse_json(json_str) {
        Some(v) => v,
        None => return None,
    };
    if path.is_empty() {
        return Some(json_text(&v));
    }
    let parts = split_on(path, '.');
    match walk_path(&v, &parts, 0) {
        Some(x) => if has_star(&parts) {
            Some(json_text(&x))
        } else {
            Some(value_to_text(&x))
        },
        None => None,
    }
}

/// The values of an object's members, in order.
pub open spec fn member_values(ms: Seq<(Seq<char>, JsonView)>) -> Seq<JsonView> {
    Seq::new(ms.len(), |k: int| ms[k].1)
}

/// A `*` over an object gathers exactly what it gathers over the array of the object's member
/// values: each value followed by the rest of the path, those where it leads nowhere left out.
pub proof fn law_object_star_as_array(ms: Seq<(Seq<char>, JsonView)>, rest: Option<Seq<char>>)
    ensures
        gather_members(ms, rest) == gather_items(member_values(ms), rest),
    decreases ms.len(),
{
    if ms.len() > 0 {
        let n = ms.len() - 1;
        law_object_star_as_array(ms.subrange(0, n), rest);
        assert(member_values(ms.subrange(0, n)) =~= member_values(ms).subrange(0, n));
        assert(member_values(ms)[n] == ms[n].1);
    } else {
        assert(member_values(ms).len() == 0);
    }
}

/// Following a path whose part at `i` is `*` from an object gives what it gives from the array
/// of the object's member values.
pub proof fn law_walk_object_star(ms: Seq<(Seq<char>, JsonView)>, parts: Seq<Seq<char>>, i: nat)
    requires
        i < parts.len(),
        parts[i as int] == "*"@,
    ensures
        walk(JsonView::Object(ms), parts, i) == walk(JsonView::Array(member_values(ms)), parts, i),
{
    law_object_star_as_array(ms, rest_after(parts, i));
}

/// Where the rest of the path leads somewhere from every member's value, a `*` over the
/// object gives, member by member in order, what the rest of the path leads to from its value.
pub proof fn law_object_star_follows_rest(ms: Seq<(Seq<char>, JsonView)>, r: Seq<char>)
    requires
        r.len() > 0,
        forall|k: int| 0 <= k < ms.len() ==> (#[trigger] walk(ms[k].1, split_char(r, '.'), 0)) is Some,
    ensures
        gather_members(ms, Some(r)).len() == ms.len(),
        forall|k: int|
            0 <= k < ms.len() ==> #[trigger] gather_members(ms, Some(r))[k] == walk(
                ms[k].1,
                split_char(r, '.'),
                0,
            )->0,
    decreases ms.len(),
{
    if ms.len() > 0 {
        let n = ms.len() - 1;
        let front = ms.subrange(0, n);
        assert forall|k: int| 0 <= k < front.len() implies (#[trigger] walk(
            front[k].1,
            split_char(r, '.'),
            0,
        )) is Some by {
            assert(front[k] == ms[k]);
        }
        law_object_star_follows_rest(front, r);
        assert(walk(ms[n].1, split_char(r, '.'), 0) is Some);
        assert forall|k: int| 0 <= k < ms.len() implies #[trigger] gather_members(ms, Some(r))[k]
            == walk(ms[k].1, split_char(r, '.'), 0)->0 by {
            if k < n {
                assert(front[k] == ms[k]);
                assert(gather_members(front, Some(r))[k] == walk(front[k].1, split_char(r, '.'), 0)->0);
            }
        }
    }
}

} // verus!
