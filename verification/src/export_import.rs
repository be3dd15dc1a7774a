//! Collections in the Postman format, and telling the import formats apart.
//!
//! The Postman document is plain data here; reading and writing it as JSON is left to the
//! caller.
use vstd::prelude::*;

use crate::curl_parser::method_named;
use crate::models::{
    body_type_name, method_name, Auth, AuthView, BodyType, Collection, HttpMethod, KeyValue,
    KeyValueView, Request, RequestView,
};
use crate::text::{
    contains, copy_str, has_prefix, spec_to_uppercase, str_contains, str_eq, str_starts_with,
    str_trim, to_uppercase, trim,
};

verus! {

/// The schema a Postman collection of version 2.1 names.
pub const POSTMAN_SCHEMA: &'static str = "https://schema.getpostman.com/json/collection/v2.1.0/collection.json";

/// A Postman collection.
#[derive(Debug, Clone)]
pub struct PostmanCollection {
    pub info: PostmanInfo,
    pub item: Vec<PostmanItem>,
}

/// The description of a Postman collection.
#[derive(Debug, Clone)]
pub struct PostmanInfo {
    pub name: String,
    pub id: String,
    pub schema: String,
}

/// A request of a Postman collection, with its name.
#[derive(Debug, Clone)]
pub struct PostmanItem {
    pub name: String,
    pub request: PostmanRequest,
}

/// A Postman request.
#[derive(Debug, Clone)]
pub struct PostmanRequest {
    pub method: String,
    pub header: Vec<PostmanHeader>,
    pub url: PostmanUrl,
    pub body: Option<PostmanBody>,
}

/// A Postman header.
#[derive(Debug, Clone)]
pub struct PostmanHeader {
    pub key: String,
    pub value: String,
    pub disabled: bool,
}

/// A Postman URL.
#[derive(Debug, Clone)]
pub struct PostmanUrl {
    pub raw: String,
}

/// A Postman body.
#[derive(Debug, Clone)]
pub struct PostmanBody {
    pub mode: String,
    pub raw: Option<String>,
}

/// The headers of a request as Postman headers: a disabled row is a disabled header.
pub open spec fn postman_headers(hs: Seq<KeyValueView>) -> Seq<(Seq<char>, Seq<char>, bool)> {
    hs.map_values(|h: KeyValueView| (h.key, h.value, !h.enabled))
}

/// Postman headers as plain data.
pub open spec fn postman_header_views(hs: Seq<PostmanHeader>) -> Seq<(Seq<char>, Seq<char>, bool)> {
    hs.map_values(|h: PostmanHeader| (h.key@, h.value@, h.disabled))
}

/// A request is exported as a Postman item: name, method, headers, raw URL, and a body (its
/// type as mode, its text as raw) only when the body is not empty.
pub open spec fn exports_request(req: RequestView, item: PostmanItem) -> bool {
    &&& item.name@ == req.name
    &&& item.request.method@ == method_name(req.method)
    &&& postman_header_views(item.request.header@) == postman_headers(req.headers)
    &&& item.request.url.raw@ == req.url
    &&& if req.body.len() == 0 {
        item.request.body is None
    } else {
        item.request.body matches Some(b) && b.mode@ == body_type_name(req.body_type) && (b.raw
            matches Some(r) && r@ == req.body)
    }
}

/// One request as a Postman item.
fn postman_item(req: &Request) -> (item: PostmanItem)
    ensures
        exports_request(req@, item),
{
    let mut header: Vec<PostmanHeader> = Vec::new();
    let mut i: usize = 0;
    while i < req.headers.len()
        invariant
            i <= req.headers.len(),
            postman_header_views(header@) == postman_headers(req.headers.deep_view().take(i as int)),
        decreases req.headers.len() - i,
    {
        let h = &req.headers[i];
        let ph = PostmanHeader { key: h.key.clone(), value: h.value.clone(), disabled: !h.enabled };
        header.push(ph);
        assert(req.headers.deep_view()[i as int] == h@);
        assert(postman_headers(req.headers.deep_view().take(i + 1)) =~= postman_headers(
            req.headers.deep_view().take(i as int),
        ).push((h.key@, h.value@, !h.enabled)));
        assert(postman_header_views(header@) =~= postman_header_views(header@.drop_last()).push(
            (ph.key@, ph.value@, ph.disabled),
        ));
        i = i + 1;
    }
    assert(req.headers.deep_view().take(i as int) =~= req.headers.deep_view());
    let body = if req.body.as_str().is_empty() {
        None
    } else {
        Some(PostmanBody { mode: req.body_type.to_string(), raw: Some(req.body.clone()) })
    };
    PostmanItem {
        name: req.name.clone(),
        request: PostmanRequest {
            method: req.method.to_string(),
            header,
            url: PostmanUrl { raw: req.url.clone() },
            body,
        },
    }
}

/// A collection as a Postman collection: its name and id, the version 2.1 schema, and its
/// top-level requests in order.
pub fn postman_of(col: &Collection) -> (p: PostmanCollection)
    ensures
        p.info.name@ == col.name@,
        p.info.id@ == col.id@,
        p.info.schema@ == POSTMAN_SCHEMA@,
        p.item@.len() == col.requests@.len(),
        forall|i: int| 0 <= i < p.item@.len() ==> exports_request(col.requests@[i]@, #[trigger] p.item@[i]),
{
    let mut items: Vec<PostmanItem> = Vec::new();
    let mut i: usize = 0;
    while i < col.requests.len()
        invariant
            i <= col.requests.len(),
            items@.len() == i,
            forall|j: int| 0 <= j < i ==> exports_request(col.requests@[j]@, #[trigger] items@[j]),
        decreases col.requests.len() - i,
    {
        items.push(postman_item(&col.requests[i]));
        i = i + 1;
    }
    PostmanCollection {
        info: PostmanInfo { name: col.name.clone(), id: col.id.clone(), schema: copy_str(POSTMAN_SCHEMA) },
        item: items,
    }
}

/// The method a Postman method names (any case); unknown names are `GET`.
pub open spec fn postman_method(s: Seq<char>) -> HttpMethod {
    match method_named(s) {
        Some(m) => m,
        None => match method_named(spec_to_uppercase(s)) {
            Some(m) => m,
            None => HttpMethod::GET,
        },
    }
}

/// Reads a Postman method.
pub fn parse_method(s: &str) -> (r: HttpMethod)
    ensures
        r == postman_method(s@),
{
    match crate::curl_parser::method_from_upper(s) {
        Some(m) => m,
        None => {
            let u = to_uppercase(s);
            match crate::curl_parser::method_from_upper(u.as_str()) {
                Some(m) => m,
                None => HttpMethod::GET,
            }
        },
    }
}

/// The body type a Postman body mode stands for.
pub open spec fn mode_body_type(mode: Seq<char>) -> BodyType {
    if mode == "json"@ || mode == "raw"@ {
        BodyType::Json
    } else if mode == "formdata"@ || mode == "urlencoded"@ {
        BodyType::Form
    } else {
        BodyType::Text
    }
}

/// A Postman item is imported as a request: name, method, raw URL, headers (disabled ones as
/// disabled rows), and the body with the type of its mode; everything else is empty.
pub open spec fn imports_item(item: PostmanItem, req: RequestView) -> bool {
    &&& req.id.len() == 36
    &&& req.name == item.name@
    &&& req.method == postman_method(item.request.method@)
    &&& req.url == item.request.url.raw@
    &&& postman_headers(req.headers) == postman_header_views(item.request.header@)
    &&& forall|i: int| 0 <= i < req.headers.len() ==> #[trigger] req.headers[i].enabled == !item.request.header@[i].disabled
    &&& req.params.len() == 0
    &&& match item.request.body {
        Some(b) => req.body_type == mode_body_type(b.mode@) && req.body == match b.raw {
            Some(r) => r@,
            None => Seq::empty(),
        },
        None => req.body_type == BodyType::NoBody && req.body.len() == 0,
    }
    &&& req.auth == AuthView::NoAuth
    &&& req.graphql_query is None
    &&& req.graphql_variables is None
    &&& req.form_data.len() == 0
    &&& req.notes.len() == 0
}

/// One Postman item as a request.
fn request_of_item(item: &PostmanItem) -> (req: Request)
    ensures
        imports_item(*item, req@),
{
    let method = parse_method(item.request.method.as_str());
    let mut headers: Vec<KeyValue> = Vec::new();
    let mut i: usize = 0;
    while i < item.request.header.len()
        invariant
            i <= item.request.header.len(),
            headers@.len() == i,
            postman_headers(headers.deep_view()) == postman_header_views(item.request.header@.take(i as int)),
        decreases item.request.header.len() - i,
    {
        let h = &item.request.header[i];
        let kv = KeyValue { key: h.key.clone(), value: h.value.clone(), enabled: !h.disabled };
        let ghost h0 = headers;
        headers.push(kv);
        proof {
            crate::text::lemma_deep_view_push(h0, headers, kv);
            assert(postman_headers(headers.deep_view()) =~= postman_headers(h0.deep_view()).push(
                (kv@.key, kv@.value, !kv@.enabled),
            ));
            assert(postman_header_views(item.request.header@.take(i + 1)) =~= postman_header_views(
                item.request.header@.take(i as int),
            ).push((h.key@, h.value@, h.disabled)));
        }
        i = i + 1;
    }
    assert(item.request.header@.take(i as int) =~= item.request.header@);
    let (body_type, body) = match &item.request.body {
        Some(b) => {
            let m = b.mode.as_str();
            let bt = if str_eq(m, "json") || str_eq(m, "raw") {
                BodyType::Json
            } else if str_eq(m, "formdata") || str_eq(m, "urlencoded") {
                BodyType::Form
            } else {
                BodyType::Text
            };
            let text = match &b.raw {
                Some(r) => r.clone(),
                None => String::new(),
            };
            (bt, text)
        },
        None => (BodyType::NoBody, String::new()),
    };
    let mut req = Request::new(item.name.as_str(), method, item.request.url.raw.as_str());
    req.headers = headers;
    req.body = body;
    req.body_type = body_type;
    proof {
        assert forall|k: int| 0 <= k < req@.headers.len() implies #[trigger] req@.headers[k].enabled
            == !item.request.header@[k].disabled by {
            assert(postman_headers(req@.headers)[k] == postman_header_views(item.request.header@)[k]);
        }
    }
    req
}

/// A Postman collection as a collection: a fresh id, the Postman name, and its items as
/// requests in order.
pub fn collection_from_postman(p: &PostmanCollection) -> (col: Collection)
    ensures
        col.id@.len() == 36,
        col.name@ == p.info.name@,
        col.folders@.len() == 0,
        col.requests@.len() == p.item@.len(),
        forall|i: int| 0 <= i < p.item@.len() ==> imports_item(p.item@[i], #[trigger] col.requests@[i]@),
{
    let mut col = Collection::new(p.info.name.as_str());
    let mut i: usize = 0;
    while i < p.item.len()
        invariant
            i <= p.item.len(),
            col.id@.len() == 36,
            col.name@ == p.info.name@,
            col.folders@.len() == 0,
            col.requests@.len() == i,
            forall|j: int| 0 <= j < i ==> imports_item(p.item@[j], #[trigger] col.requests@[j]@),
        decreases p.item.len() - i,
    {
        let req = request_of_item(&p.item[i]);
        col.requests.push(req);
        i = i + 1;
    }
    col
}

/// Which format a collection file is in: `postman` when its trimmed text starts with `{` and
/// it mentions `info`, `schema` and `getpostman.com`; otherwise `json`.
pub open spec fn guessed_format(data: Seq<char>) -> Seq<char> {
    if has_prefix(trim(data), "{"@) && contains(data, "info"@) && contains(data, "schema"@) && contains(
        data,
        "getpostman.com"@,
    ) {
        "postman"@
    } else {
        "json"@
    }
}

/// Which format a collection file is in: see `guessed_format`.
pub fn guess_format(data: &str) -> (r: &'static str)
    ensures
        r@ == guessed_format(data@),
{
    let t = str_trim(data);
    if str_starts_with(t.as_str(), "{") && str_contains(data, "info") && str_contains(data, "schema")
        && str_contains(data, "getpostman.com") {
        "postman"
    } else {
        "json"
    }
}

/// Exporting a request to Postman and importing it back keeps its name, method, URL, headers (with
/// their enabled flags) and body text; a JSON or text body keeps its type, and a request
/// without body text comes back without a body.
pub proof fn law_postman_roundtrip(req: RequestView, item: PostmanItem, back: RequestView)
    requires
        exports_request(req, item),
        imports_item(item, back),
    ensures
        back.name == req.name,
        back.method == req.method,
        back.url == req.url,
        back.headers == req.headers,
        back.body == req.body,
        req.body.len() > 0 && (req.body_type == BodyType::Json || req.body_type == BodyType::Text)
            ==> back.body_type == req.body_type,
        req.body.len() == 0 ==> back.body_type == BodyType::NoBody,
{
    crate::helios_format::lemma_method_name_roundtrip(req.method);
    let a = postman_headers(back.headers);
    let b = postman_headers(req.headers);
    assert(a == b);
    assert(back.headers.len() == a.len());
    assert forall|i: int| 0 <= i < back.headers.len() implies back.headers[i] == req.headers[i] by {
        assert(a[i] == b[i]);
    }
    assert(back.headers =~= req.headers);
    reveal_strlit("json");
    reveal_strlit("raw");
    reveal_strlit("formdata");
    reveal_strlit("urlencoded");
    reveal_strlit("text");
    if req.body.len() > 0 && req.body_type == BodyType::Text {
        assert("text"@[0] != "json"@[0]);
        assert("text"@.len() != "raw"@.len());
        assert("text"@.len() != "formdata"@.len());
        assert("text"@.len() != "urlencoded"@.len());
    }
}

/// An imported Postman item with a body gets the body's raw text, and a type by its mode:
/// JSON for the modes `raw` and `json`, a form for `formdata` and `urlencoded`, text for any
/// other mode.
pub proof fn law_postman_body_modes(item: PostmanItem, req: RequestView)
    requires
        imports_item(item, req),
        item.request.body is Some,
    ensures
        ({
            let b = item.request.body->0;
            &&& b.mode@ == "raw"@ ==> req.body_type == BodyType::Json
            &&& b.mode@ == "json"@ ==> req.body_type == BodyType::Json
            &&& (b.mode@ == "formdata"@ || b.mode@ == "urlencoded"@) ==> req.body_type == BodyType::Form
            &&& !(b.mode@ == "raw"@ || b.mode@ == "json"@ || b.mode@ == "formdata"@ || b.mode@
                == "urlencoded"@) ==> req.body_type == BodyType::Text
            &&& req.body == match b.raw {
                Some(r) => r@,
                None => Seq::empty(),
            }
        }),
{
    reveal_strlit("json");
    reveal_strlit("raw");
    reveal_strlit("formdata");
    reveal_strlit("urlencoded");
    assert("formdata"@.len() != "json"@.len() && "formdata"@.len() != "raw"@.len());
    assert("urlencoded"@.len() != "json"@.len() && "urlencoded"@.len() != "raw"@.len());
}

} // verus!
