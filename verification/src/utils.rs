//! `{{name}}` variable substitution and the built-in dynamic variables.
//!
//! A variable set is a list of `(name, value)` pairs; substitution goes through the list in
//! order.
use vstd::prelude::*;

use crate::outside::{new_uuid, random_u64, system_time_millis, today_date};
use crate::text::{
    contains, decimal, occurs_at, decimal_string, push_char, push_str, replace, str_contains, str_replace,
};

verus! {

/// The placeholder `{{name}}`.
pub open spec fn placeholder(name: Seq<char>) -> Seq<char> {
    "{{"@ + name + "}}"@
}

/// The placeholder `{{ name }}`, with one space inside each brace pair.
pub open spec fn spaced_placeholder(name: Seq<char>) -> Seq<char> {
    "{{ "@ + name + " }}"@
}

/// `s` with, for each variable in turn, `{{name}}` and then `{{ name }}` replaced by its value.
pub open spec fn subst_vars(s: Seq<char>, vars: Seq<(Seq<char>, Seq<char>)>) -> Seq<char>
    decreases vars.len(),
{
    if vars.len() == 0 {
        s
    } else {
        let (k, v) = vars[0];
        subst_vars(
            replace(replace(s, placeholder(k), v), spaced_placeholder(k), v),
            vars.drop_first(),
        )
    }
}

/// Builds `open + name + close`.
fn wrap(open: &str, name: &str, close: &str) -> (r: String)
    ensures
        r@ == open@ + name@ + close@,
{
    let mut r = String::new();
    push_str(&mut r, open);
    push_str(&mut r, name);
    push_str(&mut r, close);
    r
}

/// Replaces `{{name}}` and `{{ name }}` by the variable's value, for each variable in order.
/// A name listed twice is not an error: its first entry replaces the placeholders, and a later
/// entry only replaces placeholders that an earlier value brought in.
pub fn replace_variables(text: &str, vars: &Vec<(String, String)>) -> (r: String)
    ensures
        r@ == subst_vars(text@, vars.deep_view()),
{
    let ghost vs = vars.deep_view();
    let mut result = crate::text::copy_str(text);
    let mut i: usize = 0;
    proof {
        reveal_strlit("{{");
        reveal_strlit("}}");
        reveal_strlit("{{ ");
        reveal_strlit(" }}");
        assert(vs.skip(0) =~= vs);
    }
    while i < vars.len()
        invariant
            i <= vars.len(),
            vs == vars.deep_view(),
            "{{"@.len() == 2,
            "{{ "@.len() == 3,
            subst_vars(text@, vs) == subst_vars(result@, vs.skip(i as int)),
        decreases vars.len() - i,
    {
        let (k, v) = &vars[i];
        let p1 = wrap("{{", k.as_str(), "}}");
        let p2 = wrap("{{ ", k.as_str(), " }}");
        let r1 = str_replace(result.as_str(), p1.as_str(), v.as_str());
        result = str_replace(r1.as_str(), p2.as_str(), v.as_str());
        assert(vs.skip(i as int).drop_first() =~= vs.skip(i + 1));
        i = i + 1;
    }
    result
}

/// The text with each built-in variable that occurs in it replaced by the value given for it:
/// `{{$timestamp}}`, `{{$uuid}}`, `{{$randomInt}}`, `{{$randomStr}}` and `{{$date}}`, in that
/// order.
pub open spec fn subst_builtins(
    text: Seq<char>,
    timestamp: Seq<char>,
    uuid: Seq<char>,
    random_int: Seq<char>,
    random_str: Seq<char>,
    date: Seq<char>,
) -> Seq<char> {
    let r1 = if contains(text, "{{$timestamp}}"@) {
        replace(text, "{{$timestamp}}"@, timestamp)
    } else {
        text
    };
    let r2 = if contains(r1, "{{$uuid}}"@) {
        replace(r1, "{{$uuid}}"@, uuid)
    } else {
        r1
    };
    let r3 = if contains(r2, "{{$randomInt}}"@) {
        replace(r2, "{{$randomInt}}"@, random_int)
    } else {
        r2
    };
    let r4 = if contains(r3, "{{$randomStr}}"@) {
        replace(r3, "{{$randomStr}}"@, random_str)
    } else {
        r3
    };
    if contains(r4, "{{$date}}"@) {
        replace(r4, "{{$date}}"@, date)
    } else {
        r4
    }
}

/// Replaces `pattern` by `value` in `s` when it occurs there.
fn replace_if_present(s: String, pattern: &str, value: &str) -> (r: String)
    requires
        pattern@.len() > 0,
    ensures
        r@ == (if contains(s@, pattern@) {
            replace(s@, pattern@, value@)
        } else {
            s@
        }),
{
    if str_contains(s.as_str(), pattern) {
        str_replace(s.as_str(), pattern, value)
    } else {
        s
    }
}

/// Fills in the built-in variables from the values given for them.
pub fn fill_builtin_variables(
    text: &str,
    timestamp: &str,
    uuid: &str,
    random_int: &str,
    random_str: &str,
    date: &str,
) -> (r: String)
    ensures
        r@ == subst_builtins(text@, timestamp@, uuid@, random_int@, random_str@, date@),
{
    proof {
        reveal_strlit("{{$timestamp}}");
        reveal_strlit("{{$uuid}}");
        reveal_strlit("{{$randomInt}}");
        reveal_strlit("{{$randomStr}}");
        reveal_strlit("{{$date}}");
    }
    let r = crate::text::copy_str(text);
    let r = replace_if_present(r, "{{$timestamp}}", timestamp);
    let r = replace_if_present(r, "{{$uuid}}", uuid);
    let r = replace_if_present(r, "{{$randomInt}}", random_int);
    let r = replace_if_present(r, "{{$randomStr}}", random_str);
    replace_if_present(r, "{{$date}}", date)
}

/// The character a number below 36 stands for in a random string: a digit, then a letter.
pub open spec fn alnum_char(b: nat) -> char {
    if b < 10 {
        (b + 48) as char
    } else {
        (b - 10 + 97) as char
    }
}

/// A string of lower-case letters and digits.
pub open spec fn is_alnum_string(s: Seq<char>) -> bool {
    forall|i: int| 0 <= i < s.len() ==> exists|b: nat| b < 36 && #[trigger] s[i] == alnum_char(b)
}

/// Eight random characters, each a digit or a lower-case letter.
pub fn random_alnum8() -> (r: String)
    ensures
        r@.len() == 8,
        is_alnum_string(r@),
{
    let mut s = String::new();
    let mut i: usize = 0;
    while i < 8
        invariant
            i <= 8,
            s@.len() == i,
            is_alnum_string(s@),
        decreases 8 - i,
    {
        let b = (random_u64() % 36) as u8;
        let c = if b < 10 {
            (b + 48) as char
        } else {
            (b - 10 + 97) as char
        };
        assert(c == alnum_char(b as nat));
        let ghost s0 = s@;
        push_char(&mut s, c);
        assert forall|j: int| 0 <= j < s@.len() implies exists|d: nat|
            d < 36 && #[trigger] s@[j] == alnum_char(d) by {
            if j < s0.len() {
                assert(s@[j] == s0[j]);
            } else {
                assert(s@[j] == alnum_char(b as nat));
            }
        }
        i = i + 1;
    }
    s
}

/// `r` is `text` with the built-in variables filled in from some clock reading, some UUID,
/// some number below 10000, some string of 8 digits and lower-case letters, and some date.
pub open spec fn is_builtin_resolution(text: Seq<char>, r: Seq<char>) -> bool {
    exists|ts: nat, uuid: Seq<char>, ri: nat, rs: Seq<char>, date: Seq<char>|
        uuid.len() == 36 && ri < 10000 && rs.len() == 8 && is_alnum_string(rs) && r
            == #[trigger] subst_builtins(text, decimal(ts), uuid, decimal(ri), rs, date)
}

/// Fills in `{{$timestamp}}` (milliseconds since the epoch), `{{$uuid}}` (a fresh v4 UUID),
/// `{{$randomInt}}` (0 to 9999), `{{$randomStr}}` (8 random digits or lower-case letters)
/// and `{{$date}}` (today, `YYYY-MM-DD`).
pub fn resolve_builtin_variables(text: &str) -> (r: String)
    ensures
        is_builtin_resolution(text@, r@),
{
    let ts = system_time_millis();
    let ts_s = decimal_string(ts);
    let uuid = new_uuid();
    let ri = random_u64() % 10000;
    let ri_s = decimal_string(ri as u128);
    let rs = random_alnum8();
    let date = today_date();
    let r = fill_builtin_variables(
        text,
        ts_s.as_str(),
        uuid.as_str(),
        ri_s.as_str(),
        rs.as_str(),
        date.as_str(),
    );
    assert(r@ == subst_builtins(
        text@,
        decimal(ts as nat),
        uuid@,
        decimal(ri as nat),
        rs@,
        date@,
    ));
    r
}

/// A pattern that occurs nowhere in a text is replaced nowhere.
proof fn lemma_replace_absent(s: Seq<char>, p: Seq<char>, v: Seq<char>)
    requires
        forall|j: int| 0 <= j ==> !occurs_at(s, p, j),
    ensures
        replace(s, p, v) == s,
    decreases s.len(),
{
    if p.len() == 0 || s.len() < p.len() {
    } else {
        assert(!occurs_at(s, p, 0));
        assert(s.take(p.len() as int) =~= s.subrange(0, p.len() as int));
        let t = s.drop_first();
        assert forall|j: int| 0 <= j implies !occurs_at(t, p, j) by {
            assert(!occurs_at(s, p, j + 1));
            if j + p.len() <= t.len() {
                assert(t.subrange(j, j + p.len()) =~= s.subrange(j + 1, j + 1 + p.len()));
            }
        }
        lemma_replace_absent(t, p, v);
        assert(seq![s[0]] + t =~= s);
    }
}

/// Where `{{` occurs nowhere, no pattern that starts with it occurs.
proof fn lemma_no_braces_no_pattern(s: Seq<char>, p: Seq<char>)
    requires
        forall|j: int| 0 <= j ==> !occurs_at(s, "{{"@, j),
        p.len() >= 2,
        p.take(2) == "{{"@,
    ensures
        forall|j: int| 0 <= j ==> !occurs_at(s, p, j),
{
    assert forall|j: int| 0 <= j implies !occurs_at(s, p, j) by {
        if occurs_at(s, p, j) {
            assert(s.subrange(j, j + 2) =~= p.take(2));
            assert(occurs_at(s, "{{"@, j));
        }
    }
}

/// Text in which `{{` does not occur comes out of variable substitution unchanged, whatever
/// the variables.
pub proof fn law_text_without_placeholders_unchanged(s: Seq<char>, vars: Seq<(Seq<char>, Seq<char>)>)
    requires
        !contains(s, "{{"@),
    ensures
        subst_vars(s, vars) == s,
    decreases vars.len(),
{
    reveal_strlit("{{");
    reveal_strlit("{{ ");
    reveal_strlit("}}");
    reveal_strlit(" }}");
    crate::text::lemma_find_from_spec(s, "{{"@, 0);
    if vars.len() > 0 {
        let (k, v) = vars[0];
        let p1 = placeholder(k);
        let p2 = spaced_placeholder(k);
        assert(p1.take(2) =~= "{{"@);
        assert(p2.take(2) =~= "{{"@);
        lemma_no_braces_no_pattern(s, p1);
        lemma_replace_absent(s, p1, v);
        lemma_no_braces_no_pattern(s, p2);
        lemma_replace_absent(s, p2, v);
        law_text_without_placeholders_unchanged(s, vars.drop_first());
    }
}

/// Substituting one variable `(k, v)` into a text that starts with `{{k}}` puts `v` in the
/// placeholder's place, whatever characters the name holds, where neither the value nor the
/// rest of the text brings a `{{` in.
pub proof fn law_single_variable_fills_placeholder(k: Seq<char>, v: Seq<char>, t: Seq<char>)
    requires
        !contains(v + t, "{{"@),
    ensures
        subst_vars(placeholder(k) + t, seq![(k, v)]) == v + t,
{
    reveal_strlit("{{");
    reveal_strlit("{{ ");
    reveal_strlit("}}");
    reveal_strlit(" }}");
    let p1 = placeholder(k);
    let p2 = spaced_placeholder(k);
    let s = p1 + t;
    let vt = v + t;
    crate::text::lemma_find_from_spec(vt, "{{"@, 0);
    assert forall|j: int| 0 <= j implies !occurs_at(t, "{{"@, j) by {
        if occurs_at(t, "{{"@, j) {
            assert(vt.subrange(j + v.len(), j + v.len() + 2) =~= t.subrange(j, j + 2));
            assert(occurs_at(vt, "{{"@, j + v.len()));
        }
    }
    assert(p1.take(2) =~= "{{"@);
    assert(p2.take(2) =~= "{{"@);
    lemma_no_braces_no_pattern(t, p1);
    lemma_replace_absent(t, p1, v);
    assert(s.take(p1.len() as int) =~= p1);
    assert(s.skip(p1.len() as int) =~= t);
    assert(replace(s, p1, v) == v + replace(t, p1, v));
    lemma_no_braces_no_pattern(vt, p2);
    lemma_replace_absent(vt, p2, v);
    let vars = seq![(k, v)];
    assert(vars[0] == (k, v));
    assert(vars.drop_first() =~= Seq::<(Seq<char>, Seq<char>)>::empty());
    assert(replace(replace(s, p1, v), p2, v) == vt);
    assert(subst_vars(s, vars) == subst_vars(vt, vars.drop_first()));
    assert(subst_vars(vt, Seq::<(Seq<char>, Seq<char>)>::empty()) == vt);
}

/// Substituting one variable `(k, v)` into the text `{{k}}` gives `v`, whatever characters the
/// name holds, where the value brings no `{{` in.
pub proof fn law_single_placeholder_becomes_value(k: Seq<char>, v: Seq<char>)
    requires
        !contains(v, "{{"@),
    ensures
        subst_vars(placeholder(k), seq![(k, v)]) == v,
{
    assert(v + Seq::<char>::empty() =~= v);
    assert(placeholder(k) + Seq::<char>::empty() =~= placeholder(k));
    law_single_variable_fills_placeholder(k, v, Seq::empty());
}

} // verus!
