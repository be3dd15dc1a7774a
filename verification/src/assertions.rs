//! Checks on a response: its status, a header, or a value of its JSON body.
use vstd::prelude::*;

use crate::extraction::{follow_member_path, follow_members};
use crate::json::{parse_json, spec_parse_json, value_text, value_to_text};
use crate::models::Response;
use crate::text::{contains, copy_str, decimal, decimal_string, push_str, split_char, split_on, str_contains, str_eq};

verus! {

/// How the actual value is compared with the expected one.
#[derive(Debug, Clone, Copy, PartialEq, Eq, Structural)]
pub enum AssertOp {
    Equals,
    NotEquals,
    Contains,
    GreaterThan,
    LessThan,
    Exists,
}

/// A check: the value at `path` (`status`, `header.Name` or `body.a.b`) compared with
/// `expected`.
#[derive(Debug, Clone, PartialEq, Eq)]
pub struct Assertion {
    pub path: String,
    pub operator: AssertOp,
    pub expected: String,
}

/// The outcome of a check.
#[derive(Debug, Clone, PartialEq, Eq)]
pub enum AssertResult {
    Pass,
    Fail(String),
}

/// How the actual value compared as a number, for `GreaterThan` and `LessThan`: not a number
/// (or no value), the comparison held, or it failed for the number printed as given.
#[derive(Debug, Clone, PartialEq, Eq)]
pub enum NumberCheck {
    NotNumeric,
    Holds,
    Fails(String),
}

/// The value of the first header named `name`.
pub open spec fn header_value(headers: Seq<(Seq<char>, Seq<char>)>, name: Seq<char>, i: nat) -> Option<Seq<char>>
    decreases headers.len() - i,
{
    if i >= headers.len() {
        None
    } else if headers[i as int].0 == name {
        Some(headers[i as int].1)
    } else {
        header_value(headers, name, i + 1)
    }
}

/// The value a check looks at: the status as a number, a header's value, or the text of a
/// value of the JSON body; `None` when there is none.
pub open spec fn checked_value(resp: Response, path: Seq<char>) -> Option<Seq<char>> {
    let parts = split_char(path, '.');
    if parts[0] == "status"@ {
        Some(decimal(resp.status as nat))
    } else if parts[0] == "header"@ && parts.len() >= 2 {
        header_value(resp.headers.deep_view(), path.skip(7), 0)
    } else if parts[0] == "body"@ && parts.len() >= 2 {
        match spec_parse_json(resp.body@) {
            Some(j) => match follow_members(j, parts.drop_first()) {
                Some(x) => Some(value_text(x)),
                None => None,
            },
            None => None,
        }
    } else {
        None
    }
}

/// The value a check looks at: see `checked_value`.
pub fn extract_value(resp: &Response, path: &str) -> (r: Option<String>)
    ensures
        match r {
            Some(t) => checked_value(*resp, path@) == Some(t@),
            None => checked_value(*resp, path@) is None,
        },
{
    let parts = split_on(path, '.');
    proof {
        reveal_strlit("status");
        reveal_strlit("header");
        reveal_strlit("body");
        crate::text::lemma_split_char_first(path@, '.');
    }
    assert(parts.deep_view()[0] == parts@[0]@);
    let first = parts[0].as_str();
    if str_eq(first, "status") {
        return Some(decimal_string(resp.status as u128));
    }
    if str_eq(first, "header") && parts.len() >= 2 {
        let chars = crate::text::chars_of(path);
        let name = crate::text::string_of_range(&chars, 7, chars.len());
        let mut i: usize = 0;
        assert(checked_value(*resp, path@) == header_value(resp.headers.deep_view(), path@.skip(7), 0));
        while i < resp.headers.len()
            invariant
                i <= resp.headers.len(),
                name@ == path@.skip(7),
                checked_value(*resp, path@) == header_value(resp.headers.deep_view(), path@.skip(7), 0),
                header_value(resp.headers.deep_view(), path@.skip(7), 0) == header_value(
                    resp.headers.deep_view(),
                    path@.skip(7),
                    i as nat,
                ),
            decreases resp.headers.len() - i,
        {
            assert(resp.headers.deep_view()[i as int] == resp.headers@[i as int].deep_view());
            if str_eq(resp.headers[i].0.as_str(), name.as_str()) {
                return Some(resp.headers[i].1.clone());
            }
            i = i + 1;
        }
        return None;
    }
    if str_eq(first, "body") && parts.len() >= 2 {
        let json = match parse_json(resp.body.as_str()) {
            Some(j) => j,
            None => return None,
        };
        let mut keys = parts;
        let ghost all = keys.deep_view();
        keys.remove(0);
        assert(keys.deep_view() =~= all.drop_first());
        assert(spec_parse_json(resp.body@) == Some(json@));
        return match follow_member_path(&json, &keys) {
            Some(x) => Some(value_to_text(x)),
            None => None,
        };
    }
    None
}

/// The outcome of a check as an optional failure message (`None` when it passes), given the
/// actual value and, for the number comparisons, how the value compared as a number.
pub open spec fn judgement(a: Assertion, actual: Option<Seq<char>>, number: NumberCheck) -> Option<Seq<char>> {
    let not_found = "path '"@ + a.path@ + "' not found"@;
    match a.operator {
        AssertOp::Equals => match actual {
            Some(v) => if v == a.expected@ {
                None
            } else {
                Some("expected '"@ + a.expected@ + "', got '"@ + v + "'"@)
            },
            None => Some(not_found),
        },
        AssertOp::NotEquals => match actual {
            Some(v) => if v != a.expected@ {
                None
            } else {
                Some("expected not '"@ + a.expected@ + "', but got '"@ + v + "'"@)
            },
            None => None,
        },
        AssertOp::Contains => match actual {
            Some(v) => if contains(v, a.expected@) {
                None
            } else {
                Some("'"@ + v + "' does not contain '"@ + a.expected@ + "'"@)
            },
            None => Some(not_found),
        },
        AssertOp::GreaterThan => match number {
            NumberCheck::Holds => None,
            NumberCheck::Fails(n) => Some(n@ + " is not greater than "@ + a.expected@),
            NumberCheck::NotNumeric => Some("path '"@ + a.path@ + "' not found or not numeric"@),
        },
        AssertOp::LessThan => match number {
            NumberCheck::Holds => None,
            NumberCheck::Fails(n) => Some(n@ + " is not less than "@ + a.expected@),
            NumberCheck::NotNumeric => Some("path '"@ + a.path@ + "' not found or not numeric"@),
        },
        AssertOp::Exists => match actual {
            Some(_) => None,
            None => Some("path '"@ + a.path@ + "' does not exist"@),
        },
    }
}

/// Decides a check from the actual value and, for the number comparisons, the outcome of
/// comparing as numbers.
pub fn judge_assertion(a: &Assertion, actual: Option<String>, number: NumberCheck) -> (r: AssertResult)
    ensures
        match r {
            AssertResult::Pass => judgement(*a, opt_text(actual), number) is None,
            AssertResult::Fail(m) => judgement(*a, opt_text(actual), number) == Some(m@),
        },
{
    match a.operator {
        AssertOp::Equals => match actual {
            Some(v) => if str_eq(v.as_str(), a.expected.as_str()) {
                AssertResult::Pass
            } else {
                let mut m = copy_str("expected '");
                push_str(&mut m, a.expected.as_str());
                push_str(&mut m, "', got '");
                push_str(&mut m, v.as_str());
                push_str(&mut m, "'");
                AssertResult::Fail(m)
            },
            None => AssertResult::Fail(path_message(a.path.as_str(), "' not found")),
        },
        AssertOp::NotEquals => match actual {
            Some(v) => if !str_eq(v.as_str(), a.expected.as_str()) {
                AssertResult::Pass
            } else {
                let mut m = copy_str("expected not '");
                push_str(&mut m, a.expected.as_str());
                push_str(&mut m, "', but got '");
                push_str(&mut m, v.as_str());
                push_str(&mut m, "'");
                AssertResult::Fail(m)
            },
            None => AssertResult::Pass,
        },
        AssertOp::Contains => match actual {
            Some(v) => if str_contains(v.as_str(), a.expected.as_str()) {
                AssertResult::Pass
            } else {
                let mut m = copy_str("'");
                push_str(&mut m, v.as_str());
                push_str(&mut m, "' does not contain '");
                push_str(&mut m, a.expected.as_str());
                push_str(&mut m, "'");
                AssertResult::Fail(m)
            },
            None => AssertResult::Fail(path_message(a.path.as_str(), "' not found")),
        },
        AssertOp::GreaterThan | AssertOp::LessThan => match number {
            NumberCheck::Holds => AssertResult::Pass,
            NumberCheck::Fails(n) => {
                let mut m = n;
                push_str(
                    &mut m,
                    if a.operator == AssertOp::GreaterThan {
                        " is not greater than "
                    } else {
                        " is not less than "
                    },
                );
                push_str(&mut m, a.expected.as_str());
                AssertResult::Fail(m)
            },
            NumberCheck::NotNumeric => {
                let mut m = copy_str("path '");
                push_str(&mut m, a.path.as_str());
                push_str(&mut m, "' not found or not numeric");
                AssertResult::Fail(m)
            },
        },
        AssertOp::Exists => match actual {
            Some(_) => AssertResult::Pass,
            None => {
                let mut m = copy_str("path '");
                push_str(&mut m, a.path.as_str());
                push_str(&mut m, "' does not exist");
                AssertResult::Fail(m)
            },
        },
    }
}

/// `path '<path>` followed by `rest`.
fn path_message(path: &str, rest: &str) -> (m: String)
    ensures
        m@ == "path '"@ + path@ + rest@,
{
    let mut m = copy_str("path '");
    push_str(&mut m, path);
    push_str(&mut m, rest);
    m
}

/// An optional text as plain data.
pub open spec fn opt_text(o: Option<String>) -> Option<Seq<char>> {
    match o {
        Some(s) => Some(s@),
        None => None,
    }
}

/// When a check passes: an equals check when the value is there and is the expected text;
/// a not-equals check when the value is missing or is another text (a value equal to the
/// expected one fails it); a contains check when the value is there and holds the expected
/// text; an exists check when the value is there; the number comparisons when the
/// comparison holds.
pub proof fn law_when_checks_pass(a: Assertion, actual: Option<Seq<char>>, number: NumberCheck)
    ensures
        a.operator is Equals ==> (judgement(a, actual, number) is None <==> actual == Some(
            a.expected@,
        )),
        a.operator is NotEquals ==> (judgement(a, actual, number) is None <==> actual != Some(
            a.expected@,
        )),
        a.operator is NotEquals && actual == Some(a.expected@) ==> judgement(a, actual, number)
            == Some("expected not '"@ + a.expected@ + "', but got '"@ + a.expected@ + "'"@),
        a.operator is Contains ==> (judgement(a, actual, number) is None <==> (actual matches Some(
            v,
        ) && contains(v, a.expected@))),
        a.operator is Exists ==> (judgement(a, actual, number) is None <==> actual is Some),
        (a.operator is GreaterThan || a.operator is LessThan) ==> (judgement(a, actual, number) is None
            <==> number is Holds),
{
}

} // verus!
