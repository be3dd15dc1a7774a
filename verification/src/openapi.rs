//! The operations of an OpenAPI 3.0 description, as a collection.
//!
//! The description is plain data here; reading it from JSON (and writing each JSON request
//! body schema as pretty text) is left to the caller.
use vstd::prelude::*;

use crate::models::{method_name, AuthView, BodyType, Collection, HttpMethod, KeyValue, KeyValueView, Request, RequestView};
use crate::text::{copy_str, push_str, str_eq};
use crate::json::{json_pretty_text, spec_json_pretty_text, Json};

verus! {

/// An OpenAPI description.
#[derive(Debug)]
pub struct OpenApiSpec {
    pub info: OpenApiInfo,
    /// The paths with their operations, in the order they are read.
    pub paths: Vec<(String, OpenApiPathItem)>,
    pub servers: Vec<OpenApiServer>,
}

/// The description's title.
#[derive(Debug, Clone)]
pub struct OpenApiInfo {
    pub title: String,
}

/// A server of the description.
#[derive(Debug, Clone)]
pub struct OpenApiServer {
    pub url: String,
}

/// The operations of one path.
#[derive(Debug)]
pub struct OpenApiPathItem {
    pub get: Option<OpenApiOperation>,
    pub post: Option<OpenApiOperation>,
    pub put: Option<OpenApiOperation>,
    pub delete: Option<OpenApiOperation>,
    pub patch: Option<OpenApiOperation>,
    pub head: Option<OpenApiOperation>,
    pub options: Option<OpenApiOperation>,
}

/// One operation.
#[derive(Debug)]
pub struct OpenApiOperation {
    pub summary: Option<String>,
    pub operation_id: Option<String>,
    pub parameters: Vec<OpenApiParameter>,
    pub request_body: Option<OpenApiRequestBody>,
}

/// A parameter of an operation; `location` is where it goes (`header`, `query`, ...).
#[derive(Debug, Clone)]
pub struct OpenApiParameter {
    pub name: String,
    pub location: String,
    pub required: Option<bool>,
}

/// The request body of an operation: its media types, each with its schema, if it has one.
#[derive(Debug)]
pub struct OpenApiRequestBody {
    pub content: Vec<(String, Option<Json>)>,
}

/// `s` without every trailing `c`.
pub open spec fn trim_end_char(s: Seq<char>, c: char) -> Seq<char>
    decreases s.len(),
{
    if s.len() > 0 && s.last() == c {
        trim_end_char(s.drop_last(), c)
    } else {
        s
    }
}

/// `s` without every trailing `c` (what `str::trim_end_matches` gives for a `char`).
pub fn trim_end_matches(s: &str, c: char) -> (r: String)
    ensures
        r@ == trim_end_char(s@, c),
{
    let v = crate::text::chars_of(s);
    let mut n: usize = v.len();
    assert(v@.take(n as int) =~= v@);
    while n > 0 && v[n - 1] == c
        invariant
            n <= v.len(),
            trim_end_char(s@, c) == trim_end_char(v@.take(n as int), c),
            v@ == s@,
        decreases n,
    {
        assert(v@.take(n as int).drop_last() =~= v@.take(n - 1));
        n = n - 1;
    }
    crate::text::string_of_range(&v, 0, n)
}

/// The URL the paths are relative to: the first server's URL without trailing slashes, or
/// nothing.
pub open spec fn base_url(spec: OpenApiSpec) -> Seq<char> {
    if spec.servers@.len() > 0 {
        trim_end_char(spec.servers@[0].url@, '/')
    } else {
        Seq::empty()
    }
}

/// The operation for method `m`, if the path has one.
pub open spec fn opt_op(path: Seq<char>, o: Option<OpenApiOperation>, m: HttpMethod) -> Seq<(Seq<char>, HttpMethod, OpenApiOperation)> {
    match o {
        Some(op) => seq![(path, m, op)],
        None => Seq::empty(),
    }
}

/// The operations of a path, in the order GET, POST, PUT, DELETE, PATCH, HEAD, OPTIONS.
pub open spec fn item_ops(path: Seq<char>, item: OpenApiPathItem) -> Seq<(Seq<char>, HttpMethod, OpenApiOperation)> {
    opt_op(path, item.get, HttpMethod::GET) + opt_op(path, item.post, HttpMethod::POST) + opt_op(
        path,
        item.put,
        HttpMethod::PUT,
    ) + opt_op(path, item.delete, HttpMethod::DELETE) + opt_op(path, item.patch, HttpMethod::PATCH)
        + opt_op(path, item.head, HttpMethod::HEAD) + opt_op(path, item.options, HttpMethod::OPTIONS)
}

/// Every operation of the first `n` paths, each with its path, path by path.
pub open spec fn all_ops(paths: Seq<(String, OpenApiPathItem)>, n: nat) -> Seq<(Seq<char>, HttpMethod, OpenApiOperation)>
    decreases n,
{
    if n == 0 || n > paths.len() {
        Seq::empty()
    } else {
        all_ops(paths, (n - 1) as nat) + item_ops(paths[n - 1].0@, paths[n - 1].1)
    }
}

/// The parameters that go in `location`, as enabled rows without a value.
pub open spec fn params_in(ps: Seq<OpenApiParameter>, location: Seq<char>) -> Seq<KeyValueView>
    decreases ps.len(),
{
    if ps.len() == 0 {
        Seq::empty()
    } else {
        let rest = params_in(ps.drop_last(), location);
        if ps.last().location@ == location {
            rest.push(KeyValueView { key: ps.last().name@, value: Seq::empty(), enabled: true })
        } else {
            rest
        }
    }
}

/// The sample body a schema gives: the schema as indented JSON, empty without a schema.
pub open spec fn schema_text(schema: Option<Json>) -> Seq<char> {
    match schema {
        Some(v) => spec_json_pretty_text(v@),
        None => Seq::empty(),
    }
}

/// The sample body of the first entry of a media type, when the body has it.
pub open spec fn media_schema(content: Seq<(String, Option<Json>)>, media: Seq<char>, i: nat) -> Option<Seq<char>>
    decreases content.len() - i,
{
    if i >= content.len() {
        None
    } else if content[i as int].0@ == media {
        Some(schema_text(content[i as int].1))
    } else {
        media_schema(content, media, i + 1)
    }
}

/// The body type and body of an operation: JSON with the schema as a sample when it takes
/// JSON, a form when it takes a form, text for other bodies, none without a body.
pub open spec fn op_body(op: OpenApiOperation) -> (BodyType, Seq<char>) {
    match op.request_body {
        Some(rb) => match media_schema(rb.content@, "application/json"@, 0) {
            Some(schema) => (BodyType::Json, schema),
            None => if media_schema(rb.content@, "application/x-www-form-urlencoded"@, 0) is Some {
                (BodyType::Form, Seq::empty())
            } else {
                (BodyType::Text, Seq::empty())
            },
        },
        None => (BodyType::NoBody, Seq::empty()),
    }
}

/// An operation is imported as a request: named by its operation id, else its summary, else
/// method and path; at the base URL followed by the path; with its header and query
/// parameters as rows and the body `op_body` gives.
pub open spec fn imports_op(base: Seq<char>, path: Seq<char>, m: HttpMethod, op: OpenApiOperation, req: RequestView) -> bool {
    &&& req.id.len() == 36
    &&& req.name == match op.operation_id {
        Some(id) => id@,
        None => match op.summary {
            Some(s) => s@,
            None => method_name(m) + " "@ + path,
        },
    }
    &&& req.method == m
    &&& req.url == base + path
    &&& req.headers == params_in(op.parameters@, "header"@)
    &&& req.params == params_in(op.parameters@, "query"@)
    &&& req.body_type == op_body(op).0
    &&& req.body == op_body(op).1
    &&& req.auth == AuthView::NoAuth
    &&& req.graphql_query is None
    &&& req.graphql_variables is None
    &&& req.form_data.len() == 0
    &&& req.notes.len() == 0
}

/// The parameters that go in `location`, as rows.
fn rows_in(ps: &Vec<OpenApiParameter>, location: &str) -> (r: Vec<KeyValue>)
    ensures
        r.deep_view() == params_in(ps@, location@),
{
    let mut r: Vec<KeyValue> = Vec::new();
    let mut i: usize = 0;
    assert(r.deep_view() =~= Seq::<KeyValueView>::empty());
    while i < ps.len()
        invariant
            i <= ps.len(),
            r.deep_view() == params_in(ps@.take(i as int), location@),
        decreases ps.len() - i,
    {
        assert(ps@.take(i + 1).drop_last() =~= ps@.take(i as int));
        if str_eq(ps[i].location.as_str(), location) {
            let kv = KeyValue { key: ps[i].name.clone(), value: String::new(), enabled: true };
            let ghost r0 = r;
            r.push(kv);
            proof {
                crate::text::lemma_deep_view_push(r0, r, kv);
            }
        }
        i = i + 1;
    }
    assert(ps@.take(i as int) =~= ps@);
    r
}

/// The sample body of a media type, when the body has it.
fn find_media(content: &Vec<(String, Option<Json>)>, media: &str) -> (r: Option<String>)
    ensures
        match r {
            Some(t) => media_schema(content@, media@, 0) == Some(t@),
            None => media_schema(content@, media@, 0) is None,
        },
{
    let mut i: usize = 0;
    while i < content.len()
        invariant
            i <= content.len(),
            media_schema(content@, media@, 0) == media_schema(content@, media@, i as nat),
        decreases content.len() - i,
    {
        if str_eq(content[i].0.as_str(), media) {
            return Some(
                match &content[i].1 {
                    Some(v) => json_pretty_text(v),
                    None => String::new(),
                },
            );
        }
        i = i + 1;
    }
    None
}

/// One operation as a request.
fn request_of_op(base: &str, path: &str, m: HttpMethod, op: &OpenApiOperation) -> (req: Request)
    ensures
        imports_op(base@, path@, m, *op, req@),
{
    let mut url = copy_str(base);
    push_str(&mut url, path);
    let name = match &op.operation_id {
        Some(id) => id.clone(),
        None => match &op.summary {
            Some(s) => s.clone(),
            None => {
                let mut n = m.to_string();
                push_str(&mut n, " ");
                push_str(&mut n, path);
                n
            },
        },
    };
    let mut req = Request::new(name.as_str(), m, url.as_str());
    req.headers = rows_in(&op.parameters, "header");
    req.params = rows_in(&op.parameters, "query");
    match &op.request_body {
        Some(rb) => {
            match find_media(&rb.content, "application/json") {
                Some(schema) => {
                    req.body_type = BodyType::Json;
                    req.body = schema;
                },
                None => {
                    if find_media(&rb.content, "application/x-www-form-urlencoded").is_some() {
                        req.body_type = BodyType::Form;
                    } else {
                        req.body_type = BodyType::Text;
                    }
                },
            }
        },
        None => {},
    }
    req
}

/// The requests are the imports of the operations, one for one.
pub open spec fn imported_ops(base: Seq<char>, ops: Seq<(Seq<char>, HttpMethod, OpenApiOperation)>, reqs: Seq<Request>) -> bool {
    &&& reqs.len() == ops.len()
    &&& forall|i: int|
        0 <= i < reqs.len() ==> {
            let (path, m, op) = ops[i];
            imports_op(base, path, m, op, #[trigger] reqs[i]@)
        }
}

/// Adds the request of an operation, when the path has one for method `m`.
fn push_op(
    reqs: &mut Vec<Request>,
    base: &str,
    path: &str,
    o: &Option<OpenApiOperation>,
    m: HttpMethod,
    Ghost(done): Ghost<Seq<(Seq<char>, HttpMethod, OpenApiOperation)>>,
)
    requires
        imported_ops(base@, done, old(reqs)@),
    ensures
        imported_ops(base@, done + opt_op(path@, *o, m), final(reqs)@),
{
    if let Some(op) = o {
        let req = request_of_op(base, path, m, op);
        reqs.push(req);
        proof {
            let all = done + opt_op(path@, *o, m);
            assert forall|i: int| 0 <= i < reqs@.len() implies {
                let (p, mm, oo) = all[i];
                imports_op(base@, p, mm, oo, #[trigger] reqs@[i]@)
            } by {
                if i < done.len() {
                    assert(reqs@[i] == old(reqs)@[i]);
                }
            }
        }
    } else {
        assert(done + opt_op(path@, *o, m) =~= done);
    }
}

/// Adds the requests of the operations of one path.
#[verifier::rlimit(50)]
fn push_path_ops(
    reqs: &mut Vec<Request>,
    base: &str,
    path: &str,
    item: &OpenApiPathItem,
    Ghost(d0): Ghost<Seq<(Seq<char>, HttpMethod, OpenApiOperation)>>,
)
    requires
        imported_ops(base@, d0, old(reqs)@),
    ensures
        imported_ops(base@, d0 + item_ops(path@, *item), final(reqs)@),
{
    push_op(reqs, base, path, &item.get, HttpMethod::GET, Ghost(d0));
    let ghost d1 = d0 + opt_op(path@, item.get, HttpMethod::GET);
    push_op(reqs, base, path, &item.post, HttpMethod::POST, Ghost(d1));
    let ghost d2 = d1 + opt_op(path@, item.post, HttpMethod::POST);
    push_op(reqs, base, path, &item.put, HttpMethod::PUT, Ghost(d2));
    let ghost d3 = d2 + opt_op(path@, item.put, HttpMethod::PUT);
    push_op(reqs, base, path, &item.delete, HttpMethod::DELETE, Ghost(d3));
    let ghost d4 = d3 + opt_op(path@, item.delete, HttpMethod::DELETE);
    push_op(reqs, base, path, &item.patch, HttpMethod::PATCH, Ghost(d4));
    let ghost d5 = d4 + opt_op(path@, item.patch, HttpMethod::PATCH);
    push_op(reqs, base, path, &item.head, HttpMethod::HEAD, Ghost(d5));
    let ghost d6 = d5 + opt_op(path@, item.head, HttpMethod::HEAD);
    push_op(reqs, base, path, &item.options, HttpMethod::OPTIONS, Ghost(d6));
    assert(d6 + opt_op(path@, item.options, HttpMethod::OPTIONS) =~= d0 + item_ops(path@, *item));
}

/// An OpenAPI description as a collection named by its title: one request per operation,
/// path by path, in the order GET, POST, PUT, DELETE, PATCH, HEAD, OPTIONS within a path.
pub fn collection_from_openapi(spec: &OpenApiSpec) -> (col: Collection)
    ensures
        col.id@.len() == 36,
        col.name@ == spec.info.title@,
        col.folders@.len() == 0,
        imported_ops(base_url(*spec), all_ops(spec.paths@, spec.paths@.len()), col.requests@),
{
    let base = if spec.servers.len() > 0 {
        trim_end_matches(spec.servers[0].url.as_str(), '/')
    } else {
        String::new()
    };
    let mut reqs: Vec<Request> = Vec::new();
    let mut pi: usize = 0;
    while pi < spec.paths.len()
        invariant
            pi <= spec.paths.len(),
            base@ == base_url(*spec),
            imported_ops(base@, all_ops(spec.paths@, pi as nat), reqs@),
        decreases spec.paths.len() - pi,
    {
        let path = spec.paths[pi].0.as_str();
        let item = &spec.paths[pi].1;
        push_path_ops(&mut reqs, base.as_str(), path, item, Ghost(all_ops(spec.paths@, pi as nat)));
        assert(spec.paths@[pi as int].0@ == path@);
        pi = pi + 1;
    }
    let mut col = Collection::new(spec.info.title.as_str());
    col.requests = reqs;
    col
}

} // verus!
