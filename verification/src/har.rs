//! Requests recorded in an HTTP archive (HAR), as a collection.
//!
//! The archive is plain data here; reading it from JSON is left to the caller.
use vstd::prelude::*;

use crate::export_import::{parse_method, postman_method};
use crate::models::{AuthView, BodyType, Collection, KeyValue, KeyValueView, Request, RequestView};
use crate::text::{contains, copy_str, index_of, str_contains};

verus! {

/// An HTTP archive.
#[derive(Debug, Clone)]
pub struct HarFile {
    pub log: HarLog,
}

/// The log of an archive.
#[derive(Debug, Clone)]
pub struct HarLog {
    pub entries: Vec<HarEntry>,
}

/// One recorded exchange.
#[derive(Debug, Clone)]
pub struct HarEntry {
    pub request: HarRequest,
}

/// A recorded request.
#[derive(Debug, Clone)]
pub struct HarRequest {
    pub method: String,
    pub url: String,
    pub headers: Vec<HarPair>,
    pub query_string: Vec<HarPair>,
    pub post_data: Option<HarPostData>,
}

/// A header or a query parameter.
#[derive(Debug, Clone)]
pub struct HarPair {
    pub name: String,
    pub value: String,
}

/// The body of a recorded request.
#[derive(Debug, Clone)]
pub struct HarPostData {
    pub mime_type: Option<String>,
    pub text: Option<String>,
}

/// The body type a MIME type stands for, by what it mentions.
pub open spec fn mime_body_type(mime: Seq<char>) -> BodyType {
    if contains(mime, "json"@) {
        BodyType::Json
    } else if contains(mime, "x-www-form-urlencoded"@) {
        BodyType::Form
    } else if contains(mime, "xml"@) {
        BodyType::Xml
    } else if contains(mime, "text"@) {
        BodyType::Text
    } else {
        BodyType::NoBody
    }
}

/// The body type a MIME type stands for: see `mime_body_type`.
pub fn mime_to_body_type(mime: &str) -> (r: BodyType)
    ensures
        r == mime_body_type(mime@),
{
    if str_contains(mime, "json") {
        BodyType::Json
    } else if str_contains(mime, "x-www-form-urlencoded") {
        BodyType::Form
    } else if str_contains(mime, "xml") {
        BodyType::Xml
    } else if str_contains(mime, "text") {
        BodyType::Text
    } else {
        BodyType::NoBody
    }
}

/// The name a recorded request gets: its URL without the query.
pub open spec fn url_without_query(url: Seq<char>) -> Seq<char> {
    match index_of(url, '?') {
        Some(k) => url.take(k),
        None => url,
    }
}

/// Pairs as enabled rows.
pub open spec fn pair_rows(ps: Seq<HarPair>) -> Seq<KeyValueView> {
    ps.map_values(|p: HarPair| KeyValueView { key: p.name@, value: p.value@, enabled: true })
}

/// A recorded request is imported as a request: named by its URL without the query, with its
/// method, URL, headers and query parameters as enabled rows, and its body with the type its
/// MIME type names.
pub open spec fn imports_har_request(h: HarRequest, req: RequestView) -> bool {
    &&& req.id.len() == 36
    &&& req.name == url_without_query(h.url@)
    &&& req.method == postman_method(h.method@)
    &&& req.url == h.url@
    &&& req.headers == pair_rows(h.headers@)
    &&& req.params == pair_rows(h.query_string@)
    &&& match h.post_data {
        Some(pd) => {
            &&& req.body_type == match pd.mime_type {
                Some(m) => mime_body_type(m@),
                None => BodyType::NoBody,
            }
            &&& req.body == match pd.text {
                Some(t) => t@,
                None => Seq::empty(),
            }
        },
        None => req.body_type == BodyType::NoBody && req.body.len() == 0,
    }
    &&& req.auth == AuthView::NoAuth
    &&& req.graphql_query is None
    &&& req.graphql_variables is None
    &&& req.form_data.len() == 0
    &&& req.notes.len() == 0
}

/// Pairs as enabled rows.
fn rows_of_pairs(ps: &Vec<HarPair>) -> (r: Vec<KeyValue>)
    ensures
        r.deep_view() == pair_rows(ps@),
{
    let mut r: Vec<KeyValue> = Vec::new();
    let mut i: usize = 0;
    while i < ps.len()
        invariant
            i <= ps.len(),
            r.deep_view() == pair_rows(ps@.take(i as int)),
        decreases ps.len() - i,
    {
        let kv = KeyValue { key: ps[i].name.clone(), value: ps[i].value.clone(), enabled: true };
        let ghost r0 = r;
        r.push(kv);
        proof {
            crate::text::lemma_deep_view_push(r0, r, kv);
            assert(pair_rows(ps@.take(i + 1)) =~= pair_rows(ps@.take(i as int)).push(kv@));
        }
        i = i + 1;
    }
    assert(ps@.take(i as int) =~= ps@);
    r
}

/// The URL without its query.
fn strip_query(url: &str) -> (r: String)
    ensures
        r@ == url_without_query(url@),
{
    let v = crate::text::chars_of(url);
    proof {
        crate::text::lemma_find_from_spec(v@, seq!['?'], 0);
    }
    match crate::text::index_of_from(&v, '?', 0) {
        Some(k) => crate::text::string_of_range(&v, 0, k),
        None => copy_str(url),
    }
}

/// One recorded request as a request.
fn request_of_har(h: &HarRequest) -> (req: Request)
    ensures
        imports_har_request(*h, req@),
{
    let name = strip_query(h.url.as_str());
    let method = parse_method(h.method.as_str());
    let mut req = Request::new(name.as_str(), method, h.url.as_str());
    req.headers = rows_of_pairs(&h.headers);
    req.params = rows_of_pairs(&h.query_string);
    match &h.post_data {
        Some(pd) => {
            req.body_type = match &pd.mime_type {
                Some(m) => mime_to_body_type(m.as_str()),
                None => BodyType::NoBody,
            };
            req.body = match &pd.text {
                Some(t) => t.clone(),
                None => String::new(),
            };
        },
        None => {},
    }
    req
}

/// An archive as a collection named "HAR Import": its requests in order.
pub fn collection_from_har(har: &HarFile) -> (col: Collection)
    ensures
        col.id@.len() == 36,
        col.name@ == "HAR Import"@,
        col.folders@.len() == 0,
        col.requests@.len() == har.log.entries@.len(),
        forall|i: int|
            0 <= i < har.log.entries@.len() ==> imports_har_request(
                har.log.entries@[i].request,
                #[trigger] col.requests@[i]@,
            ),
{
    let mut col = Collection::new("HAR Import");
    let mut i: usize = 0;
    while i < har.log.entries.len()
        invariant
            i <= har.log.entries.len(),
            col.id@.len() == 36,
            col.name@ == "HAR Import"@,
            col.folders@.len() == 0,
            col.requests@.len() == i,
            forall|j: int|
                0 <= j < i ==> imports_har_request(har.log.entries@[j].request, #[trigger] col.requests@[j]@),
        decreases har.log.entries.len() - i,
    {
        let req = request_of_har(&har.log.entries[i].request);
        col.requests.push(req);
        i = i + 1;
    }
    col
}

} // verus!
