//! What goes on the wire for a request: the URL with its query, the headers, the body and
//! its content type, the authentication. Sending it is done by the caller.
use vstd::prelude::*;

use crate::models::{opt_view, Auth, AuthView, BodyType, HttpMethod, KeyValue, KeyValueView, Request};
use crate::scripting::{set_var, var_index};
use crate::text::{
    chars_of, copy_str, index_of, index_of_from, join, push_str, string_of_range, trim, trim_bounds,
};
use vstd::utf8::encode_utf8;

verus! {

/// A character `http` accepts in a header name: a letter, a digit, or one of
/// ``!"#$%&'*+-.^_`|~`` (its `HEADER_CHARS` table).
pub open spec fn header_name_char(c: char) -> bool {
    ||| 'a' <= c <= 'z'
    ||| 'A' <= c <= 'Z'
    ||| '0' <= c <= '9'
    ||| c == '!' || c == '"' || c == '#' || c == '$' || c == '%' || c == '&' || c == '\''
    ||| c == '*' || c == '+' || c == '-' || c == '.' || c == '^' || c == '_' || c == '`'
    ||| c == '|' || c == '~'
}

/// A character with ASCII upper-case letters lowered.
pub open spec fn ascii_lower(c: char) -> char {
    if 'A' <= c <= 'Z' {
        ((c as u32) + 32) as char
    } else {
        c
    }
}

/// The header name `http::HeaderName::from_bytes` makes of some text: refused when empty,
/// longer than 65535 bytes, or holding a character outside the table; otherwise the text
/// with ASCII letters lowered.
pub open spec fn canonical_header_name(key: Seq<char>) -> Option<Seq<char>> {
    if 1 <= key.len() <= 65535 && forall|i: int| 0 <= i < key.len() ==> header_name_char(#[trigger] key[i]) {
        Some(key.map_values(|c: char| ascii_lower(c)))
    } else {
        None
    }
}

/// `reqwest::header::HeaderName::from_bytes` then `HeaderName::as_str` (http 0.2): the name is
/// refused when it is empty, longer than `MAX_HEADER_NAME_LEN` (65535) bytes, or holds a byte
/// that `HEADER_CHARS` maps to 0; otherwise each byte is mapped through that table, which
/// lowers ASCII letters and keeps the other accepted characters. A non-ASCII character is
/// refused, as its bytes are all 128 or more.
#[verifier::external_body]
fn header_name_of(key: &str) -> (r: Option<String>)
    ensures
        opt_view(r) == canonical_header_name(key@),
{
    match reqwest::header::HeaderName::from_bytes(key.as_bytes()) {
        Ok(n) => Some(n.as_str().to_string()),
        Err(_) => None,
    }
}

/// A hexadecimal digit, upper case.
pub open spec fn hex_upper(d: nat) -> char {
    if d < 10 {
        (d + 48) as char
    } else {
        (d + 55) as char
    }
}

/// How `form_urlencoded::byte_serialize` writes one byte: ASCII letters, digits and `*-._`
/// as they are, a space as `+`, any other byte as `%` and two upper-case hex digits.
pub open spec fn form_byte(b: u8) -> Seq<char> {
    if b == 42 || b == 45 || b == 46 || b == 95 || (48 <= b <= 57) || (65 <= b <= 90) || (97 <= b <= 122) {
        seq![b as char]
    } else if b == 32 {
        seq!['+']
    } else {
        seq!['%', hex_upper((b / 16) as nat), hex_upper((b % 16) as nat)]
    }
}

/// The form encoding of some bytes, byte by byte.
pub open spec fn form_bytes(bs: Seq<u8>) -> Seq<char>
    decreases bs.len(),
{
    if bs.len() == 0 {
        Seq::empty()
    } else {
        form_byte(bs[0]) + form_bytes(bs.drop_first())
    }
}

/// The form encoding of a text: of its UTF-8 bytes.
pub open spec fn form_text(s: Seq<char>) -> Seq<char> {
    form_bytes(encode_utf8(s))
}

/// One pair of a query: the encoded name, `=`, the encoded value.
pub open spec fn form_pair(p: (Seq<char>, Seq<char>)) -> Seq<char> {
    form_text(p.0) + "="@ + form_text(p.1)
}

/// The query string of a list of pairs: the encoded pairs joined by `&`.
pub open spec fn url_encoded(pairs: Seq<(Seq<char>, Seq<char>)>) -> Seq<char> {
    join(pairs.map_values(|p: (Seq<char>, Seq<char>)| form_pair(p)), "&"@)
}

/// `serde_urlencoded::to_string` on a list of `(name, value)` pairs. Each pair of strings is
/// serialized as a tuple of two and handed to `form_urlencoded::Serializer::append_pair`,
/// which writes `&` before every pair but the first, then the name and the value through
/// `byte_serialize` with `=` between them; strings are never refused, so the result is
/// always `Some`.
#[verifier::external_body]
fn urlencode_pairs(pairs: &Vec<(String, String)>) -> (r: Option<String>)
    ensures
        opt_view(r) == Some(url_encoded(pairs.deep_view())),
{
    serde_urlencoded::to_string(pairs).ok()
}

/// A character `http::HeaderValue::from_str` accepts: a tab, or anything from space on but
/// DEL (every byte of a non-ASCII character is at least 128).
pub open spec fn header_value_char(c: char) -> bool {
    c == '\t' || (' ' <= c && c != '\x7f')
}

/// A header value `http::HeaderValue::from_str` accepts.
pub open spec fn valid_header_value(v: Seq<char>) -> bool {
    forall|i: int| 0 <= i < v.len() ==> header_value_char(#[trigger] v[i])
}

/// Whether a header value is accepted.
pub fn is_valid_header_value(v: &str) -> (r: bool)
    ensures
        r == valid_header_value(v@),
{
    let cs = chars_of(v);
    let mut i: usize = 0;
    while i < cs.len()
        invariant
            i <= cs.len(),
            cs@ == v@,
            forall|j: int| 0 <= j < i ==> header_value_char(#[trigger] cs@[j]),
        decreases cs.len() - i,
    {
        let c = cs[i];
        if !(c == '\t' || (' ' <= c && c != '\x7f')) {
            assert(!header_value_char(cs@[i as int]));
            return false;
        }
        i = i + 1;
    }
    true
}

/// Everything the request says that is sent, but for the method.
#[derive(Debug)]
pub struct HttpPlan {
    pub method: HttpMethod,
    /// The URL with the query of the active parameters appended.
    pub url: String,
    /// The headers by canonical name, each at most once, in order of first setting.
    pub headers: Vec<(String, String)>,
    /// The content type the body type calls for.
    pub content_type: Option<String>,
    /// The body, when the body type sends one and it is not empty.
    pub body: Option<String>,
    pub auth: Auth,
}

/// Why a request could not be prepared.
#[derive(Debug, Clone, Copy, PartialEq, Eq, Structural)]
pub enum PlanError {
    /// The query could not be encoded.
    QueryEncoding,
}

/// The parameters that are sent: switched on and with a name.
pub open spec fn active_params(ps: Seq<KeyValueView>) -> Seq<(Seq<char>, Seq<char>)>
    decreases ps.len(),
{
    if ps.len() == 0 {
        Seq::empty()
    } else {
        let rest = active_params(ps.drop_last());
        let p = ps.last();
        if p.enabled && p.key.len() > 0 {
            rest.push((p.key, p.value))
        } else {
            rest
        }
    }
}

/// The URL with the encoded query appended after `?`, or after `&` when the URL already has
/// a query; the URL itself when there is nothing to append.
pub open spec fn url_with_query(url: Seq<char>, query: Option<Seq<char>>) -> Seq<char> {
    match query {
        None => url,
        Some(q) => if index_of(url, '?') is Some {
            url + "&"@ + q
        } else {
            url + "?"@ + q
        },
    }
}

/// The headers that are sent: for each header switched on, with a name, a valid canonical
/// name and a valid value, in order, the value set under the canonical name (a later one
/// replaces an earlier one in place).
pub open spec fn planned_headers(hs: Seq<KeyValueView>) -> Seq<(Seq<char>, Seq<char>)>
    decreases hs.len(),
{
    if hs.len() == 0 {
        Seq::empty()
    } else {
        let acc = planned_headers(hs.drop_last());
        let h = hs.last();
        if h.enabled && h.key.len() > 0 && valid_header_value(h.value) {
            match canonical_header_name(h.key) {
                Some(n) => set_var(acc, n, h.value),
                None => acc,
            }
        } else {
            acc
        }
    }
}

/// The content type a body type is sent with.
pub open spec fn content_type_of(b: BodyType) -> Option<Seq<char>> {
    match b {
        BodyType::Json => Some("application/json"@),
        BodyType::Text => Some("text/plain"@),
        BodyType::Form => Some("application/x-www-form-urlencoded"@),
        BodyType::Xml => Some("application/xml"@),
        BodyType::Graphql => Some("application/json"@),
        BodyType::FormData => None,
        BodyType::NoBody => None,
    }
}

/// Writes the content type of a body type.
pub fn content_type_for(b: BodyType) -> (r: Option<String>)
    ensures
        opt_view(r) == content_type_of(b),
{
    match b {
        BodyType::Json => Some(copy_str("application/json")),
        BodyType::Text => Some(copy_str("text/plain")),
        BodyType::Form => Some(copy_str("application/x-www-form-urlencoded")),
        BodyType::Xml => Some(copy_str("application/xml")),
        BodyType::Graphql => Some(copy_str("application/json")),
        BodyType::FormData => None,
        BodyType::NoBody => None,
    }
}

/// The active parameters of a request.
fn collect_active_params(ps: &Vec<KeyValue>) -> (r: Vec<(String, String)>)
    ensures
        r.deep_view() == active_params(ps.deep_view()),
{
    let ghost pv = ps.deep_view();
    let mut r: Vec<(String, String)> = Vec::new();
    let mut i: usize = 0;
    assert(pv.take(0) =~= Seq::<KeyValueView>::empty());
    assert(r.deep_view() =~= Seq::<(Seq<char>, Seq<char>)>::empty());
    while i < ps.len()
        invariant
            i <= ps.len(),
            pv == ps.deep_view(),
            r.deep_view() == active_params(pv.take(i as int)),
        decreases ps.len() - i,
    {
        assert(pv.take(i + 1).drop_last() =~= pv.take(i as int));
        let p = &ps[i];
        if p.enabled && !p.key.as_str().is_empty() {
            let ghost r0 = r;
            let x = (p.key.clone(), p.value.clone());
            r.push(x);
            proof {
                crate::text::lemma_deep_view_push(r0, r, x);
            }
        }
        i = i + 1;
    }
    assert(pv.take(i as int) =~= pv);
    r
}

/// The headers of a request as they are sent.
fn collect_headers(hs: &Vec<KeyValue>) -> (r: Vec<(String, String)>)
    ensures
        r.deep_view() == planned_headers(hs.deep_view()),
        crate::scripting::distinct_names(r.deep_view()),
{
    let ghost hv = hs.deep_view();
    let mut r: Vec<(String, String)> = Vec::new();
    let mut i: usize = 0;
    assert(hv.take(0) =~= Seq::<KeyValueView>::empty());
    assert(r.deep_view() =~= Seq::<(Seq<char>, Seq<char>)>::empty());
    while i < hs.len()
        invariant
            i <= hs.len(),
            hv == hs.deep_view(),
            r.deep_view() == planned_headers(hv.take(i as int)),
            crate::scripting::distinct_names(r.deep_view()),
        decreases hs.len() - i,
    {
        assert(hv.take(i + 1).drop_last() =~= hv.take(i as int));
        let h = &hs[i];
        if h.enabled && !h.key.as_str().is_empty() && is_valid_header_value(h.value.as_str()) {
            match header_name_of(h.key.as_str()) {
                Some(n) => {
                    crate::scripting::set_var_exec(&mut r, n.as_str(), h.value.as_str());
                },
                None => {},
            }
        }
        i = i + 1;
    }
    assert(hv.take(i as int) =~= hv);
    r
}

/// What is sent for a request, given the encoding of its active parameters.
pub open spec fn plan_of(
    url: Seq<char>,
    query: Option<Seq<char>>,
    headers: Seq<(Seq<char>, Seq<char>)>,
    b: BodyType,
    body: Seq<char>,
) -> (Seq<char>, Seq<(Seq<char>, Seq<char>)>, Option<Seq<char>>, Option<Seq<char>>) {
    (
        url_with_query(url, query),
        headers,
        content_type_of(b),
        if content_type_of(b) is Some && body.len() > 0 {
            Some(body)
        } else {
            None
        },
    )
}

/// Prepares a request for sending. Encoding the query of the active parameters never fails,
/// so the plan is always `Ok`; the `Err` case is kept for the shape of the original API.
pub fn plan_request(req: &Request) -> (r: Result<HttpPlan, PlanError>)
    ensures
        ({
            let ps = active_params(req@.params);
            let q = if ps.len() == 0 {
                Some(None::<Seq<char>>)
            } else {
                Some(Some(url_encoded(ps)))
            };
            match q {
                None => r == Err::<HttpPlan, PlanError>(PlanError::QueryEncoding),
                Some(query) => r matches Ok(p) && p.method == req.method && p.auth@ == req.auth@
                    && (p.url@, p.headers.deep_view(), opt_view(p.content_type), opt_view(p.body))
                    == plan_of(req@.url, query, planned_headers(req@.headers), req.body_type, req@.body),
            }
        }),
{
    let params = collect_active_params(&req.params);
    let mut url = req.url.clone();
    if params.len() > 0 {
        let query = match urlencode_pairs(&params) {
            Some(q) => q,
            None => {
                return Err(PlanError::QueryEncoding);
            },
        };
        let uv = chars_of(url.as_str());
        let has_q = index_of_from(&uv, '?', 0).is_some();
        proof {
            reveal_strlit("&");
            reveal_strlit("?");
        }
        if has_q {
            push_str(&mut url, "&");
        } else {
            push_str(&mut url, "?");
        }
        push_str(&mut url, query.as_str());
    }
    let headers = collect_headers(&req.headers);
    let content_type = content_type_for(req.body_type);
    let body = if content_type.is_some() && !req.body.as_str().is_empty() {
        Some(req.body.clone())
    } else {
        None
    };
    Ok(HttpPlan { method: req.method, url, headers, content_type, body, auth: req.auth.copy() })
}

/// The pairs `name: value` of header lines that have a colon: the trimmed text before the
/// first colon and the trimmed text after it, in order; lines without a colon are dropped.
pub open spec fn header_lines(raw: Seq<Seq<char>>) -> Seq<KeyValueView>
    decreases raw.len(),
{
    if raw.len() == 0 {
        Seq::empty()
    } else {
        let rest = header_lines(raw.drop_last());
        let s = raw.last();
        match index_of(s, ':') {
            Some(p) => rest.push(
                KeyValueView { key: trim(s.take(p)), value: trim(s.skip(p + 1)), enabled: true },
            ),
            None => rest,
        }
    }
}

/// Reads `Name: value` header lines; lines without a colon are skipped.
pub fn parse_headers(raw: &[String]) -> (r: Vec<KeyValue>)
    ensures
        r.deep_view() == header_lines(raw@.map_values(|s: String| s@)),
{
    let ghost rv = raw@.map_values(|s: String| s@);
    let mut r: Vec<KeyValue> = Vec::new();
    let mut i: usize = 0;
    assert(rv.take(0) =~= Seq::<Seq<char>>::empty());
    assert(r.deep_view() =~= Seq::<KeyValueView>::empty());
    while i < raw.len()
        invariant
            i <= raw.len(),
            rv == raw@.map_values(|s: String| s@),
            r.deep_view() == header_lines(rv.take(i as int)),
        decreases raw.len() - i,
    {
        assert(rv.take(i + 1).drop_last() =~= rv.take(i as int));
        assert(rv.take(i + 1).last() == raw@[i as int]@);
        let v = chars_of(raw[i].as_str());
        match index_of_from(&v, ':', 0) {
            Some(p) => {
                proof {
                    crate::text::lemma_find_from_spec(v@, seq![':'], 0);
                }
                let (ka, kb) = trim_bounds(&v, 0, p);
                let (va, vb) = trim_bounds(&v, p + 1, v.len());
                proof {
                    assert(v@.subrange(0, p as int) =~= v@.take(p as int));
                    assert(v@.subrange(p + 1, v@.len() as int) =~= v@.skip(p + 1));
                }
                let kv = KeyValue {
                    key: string_of_range(&v, ka, kb),
                    value: string_of_range(&v, va, vb),
                    enabled: true,
                };
                let ghost r0 = r;
                r.push(kv);
                proof {
                    crate::text::lemma_deep_view_push(r0, r, kv);
                }
            },
            None => {},
        }
        i = i + 1;
    }
    assert(rv.take(i as int) =~= rv);
    r
}

} // verus!
