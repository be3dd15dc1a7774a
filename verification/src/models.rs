//! The data model: requests, responses, folders, collections and environments.
use vstd::prelude::*;

use crate::outside::{new_uuid, now_millis};
use crate::text::copy_str;

verus! {

/// An HTTP request method.
#[derive(Debug, Clone, Copy, PartialEq, Eq, Structural)]
pub enum HttpMethod {
    GET,
    POST,
    PUT,
    DELETE,
    PATCH,
    HEAD,
    OPTIONS,
}

/// The name of a method as it is displayed: the variant name in capitals.
pub open spec fn method_name(m: HttpMethod) -> Seq<char> {
    match m {
        HttpMethod::GET => "GET"@,
        HttpMethod::POST => "POST"@,
        HttpMethod::PUT => "PUT"@,
        HttpMethod::DELETE => "DELETE"@,
        HttpMethod::PATCH => "PATCH"@,
        HttpMethod::HEAD => "HEAD"@,
        HttpMethod::OPTIONS => "OPTIONS"@,
    }
}

impl Default for HttpMethod {
    fn default() -> (r: Self)
        ensures
            r == HttpMethod::GET,
    {
        HttpMethod::GET
    }
}

impl HttpMethod {
    /// The displayed name of the method (`GET`, `POST`, ...).
    pub fn to_string(&self) -> (r: String)
        ensures
            r@ == method_name(*self),
    {
        match self {
            HttpMethod::GET => copy_str("GET"),
            HttpMethod::POST => copy_str("POST"),
            HttpMethod::PUT => copy_str("PUT"),
            HttpMethod::DELETE => copy_str("DELETE"),
            HttpMethod::PATCH => copy_str("PATCH"),
            HttpMethod::HEAD => copy_str("HEAD"),
            HttpMethod::OPTIONS => copy_str("OPTIONS"),
        }
    }
}

/// The kind of a request body.
#[derive(Debug, Clone, Copy, PartialEq, Eq, Structural)]
pub enum BodyType {
    NoBody,
    Json,
    Form,
    Text,
    Xml,
    Graphql,
    FormData,
}

/// The name of a body type as it is displayed.
pub open spec fn body_type_name(b: BodyType) -> Seq<char> {
    match b {
        BodyType::NoBody => "none"@,
        BodyType::Json => "json"@,
        BodyType::Form => "form"@,
        BodyType::Text => "text"@,
        BodyType::Xml => "xml"@,
        BodyType::Graphql => "graphql"@,
        BodyType::FormData => "form-data"@,
    }
}

impl Default for BodyType {
    fn default() -> (r: Self)
        ensures
            r == BodyType::NoBody,
    {
        BodyType::NoBody
    }
}

impl BodyType {
    /// The displayed name of the body type (`none`, `json`, ...).
    pub fn to_string(&self) -> (r: String)
        ensures
            r@ == body_type_name(*self),
    {
        match self {
            BodyType::NoBody => copy_str("none"),
            BodyType::Json => copy_str("json"),
            BodyType::Form => copy_str("form"),
            BodyType::Text => copy_str("text"),
            BodyType::Xml => copy_str("xml"),
            BodyType::Graphql => copy_str("graphql"),
            BodyType::FormData => copy_str("form-data"),
        }
    }
}

/// A key/value pair that can be switched off (headers, query parameters).
#[derive(Debug, Clone, PartialEq)]
pub struct KeyValue {
    pub key: String,
    pub value: String,
    pub enabled: bool,
}

/// The mathematical content of a `KeyValue`.
pub struct KeyValueView {
    pub key: Seq<char>,
    pub value: Seq<char>,
    pub enabled: bool,
}

impl View for KeyValue {
    type V = KeyValueView;

    open spec fn view(&self) -> KeyValueView {
        KeyValueView { key: self.key@, value: self.value@, enabled: self.enabled }
    }
}

impl DeepView for KeyValue {
    type V = KeyValueView;

    open spec fn deep_view(&self) -> KeyValueView {
        self@
    }
}

impl Default for KeyValue {
    fn default() -> (r: Self)
        ensures
            r@ == (KeyValueView { key: Seq::empty(), value: Seq::empty(), enabled: false }),
    {
        KeyValue { key: String::new(), value: String::new(), enabled: false }
    }
}

impl KeyValue {
    /// A copy of this pair.
    pub fn copy(&self) -> (r: Self)
        ensures
            r@ == self@,
    {
        KeyValue { key: self.key.clone(), value: self.value.clone(), enabled: self.enabled }
    }
}

/// A copy of a list of pairs.
pub fn copy_key_values(v: &Vec<KeyValue>) -> (r: Vec<KeyValue>)
    ensures
        r.deep_view() == v.deep_view(),
{
    let mut r: Vec<KeyValue> = Vec::new();
    let mut i: usize = 0;
    while i < v.len()
        invariant
            i <= v.len(),
            r@.len() == i,
            forall|j: int| 0 <= j < i ==> #[trigger] r@[j]@ == v@[j]@,
        decreases v.len() - i,
    {
        r.push(v[i].copy());
        i = i + 1;
    }
    assert(r.deep_view() =~= v.deep_view());
    r
}

/// One field of a multipart form.
#[derive(Debug, Clone, PartialEq)]
pub struct FormDataItem {
    pub key: String,
    pub value: String,
    pub is_file: bool,
    pub file_path: Option<String>,
}

/// The mathematical content of a `FormDataItem`.
pub struct FormDataItemView {
    pub key: Seq<char>,
    pub value: Seq<char>,
    pub is_file: bool,
    pub file_path: Option<Seq<char>>,
}

/// The view of an optional string.
pub open spec fn opt_view(o: Option<String>) -> Option<Seq<char>> {
    match o {
        Some(s) => Some(s@),
        None => None,
    }
}

/// A copy of an optional string.
pub fn copy_opt(o: &Option<String>) -> (r: Option<String>)
    ensures
        opt_view(r) == opt_view(*o),
{
    match o {
        Some(s) => Some(s.clone()),
        None => None,
    }
}

impl View for FormDataItem {
    type V = FormDataItemView;

    open spec fn view(&self) -> FormDataItemView {
        FormDataItemView {
            key: self.key@,
            value: self.value@,
            is_file: self.is_file,
            file_path: opt_view(self.file_path),
        }
    }
}

impl DeepView for FormDataItem {
    type V = FormDataItemView;

    open spec fn deep_view(&self) -> FormDataItemView {
        self@
    }
}

impl FormDataItem {
    /// A copy of this item.
    pub fn copy(&self) -> (r: Self)
        ensures
            r@ == self@,
    {
        FormDataItem {
            key: self.key.clone(),
            value: self.value.clone(),
            is_file: self.is_file,
            file_path: copy_opt(&self.file_path),
        }
    }
}

/// A copy of a list of form items.
pub fn copy_form_data(v: &Vec<FormDataItem>) -> (r: Vec<FormDataItem>)
    ensures
        r.deep_view() == v.deep_view(),
{
    let mut r: Vec<FormDataItem> = Vec::new();
    let mut i: usize = 0;
    while i < v.len()
        invariant
            i <= v.len(),
            r@.len() == i,
            forall|j: int| 0 <= j < i ==> #[trigger] r@[j]@ == v@[j]@,
        decreases v.len() - i,
    {
        r.push(v[i].copy());
        i = i + 1;
    }
    assert(r.deep_view() =~= v.deep_view());
    r
}

/// Authentication attached to a request.
#[derive(Debug, Clone, PartialEq)]
pub enum Auth {
    NoAuth,
    Bearer { token: String },
    Basic { username: String, password: String },
}

/// The mathematical content of an `Auth`.
pub enum AuthView {
    NoAuth,
    Bearer { token: Seq<char> },
    Basic { username: Seq<char>, password: Seq<char> },
}

impl View for Auth {
    type V = AuthView;

    open spec fn view(&self) -> AuthView {
        match self {
            Auth::NoAuth => AuthView::NoAuth,
            Auth::Bearer { token } => AuthView::Bearer { token: token@ },
            Auth::Basic { username, password } => AuthView::Basic {
                username: username@,
                password: password@,
            },
        }
    }
}

impl Default for Auth {
    fn default() -> (r: Self)
        ensures
            r@ == AuthView::NoAuth,
    {
        Auth::NoAuth
    }
}

impl Auth {
    /// A copy of this authentication.
    pub fn copy(&self) -> (r: Self)
        ensures
            r@ == self@,
    {
        match self {
            Auth::NoAuth => Auth::NoAuth,
            Auth::Bearer { token } => Auth::Bearer { token: token.clone() },
            Auth::Basic { username, password } => Auth::Basic {
                username: username.clone(),
                password: password.clone(),
            },
        }
    }
}

/// An HTTP request as the user edits and stores it.
#[derive(Debug, Clone, PartialEq)]
pub struct Request {
    pub id: String,
    pub name: String,
    pub method: HttpMethod,
    pub url: String,
    pub headers: Vec<KeyValue>,
    pub params: Vec<KeyValue>,
    pub body: String,
    pub body_type: BodyType,
    pub auth: Auth,
    pub graphql_query: Option<String>,
    pub graphql_variables: Option<String>,
    pub form_data: Vec<FormDataItem>,
    pub notes: String,
}

/// The mathematical content of a `Request`.
pub struct RequestView {
    pub id: Seq<char>,
    pub name: Seq<char>,
    pub method: HttpMethod,
    pub url: Seq<char>,
    pub headers: Seq<KeyValueView>,
    pub params: Seq<KeyValueView>,
    pub body: Seq<char>,
    pub body_type: BodyType,
    pub auth: AuthView,
    pub graphql_query: Option<Seq<char>>,
    pub graphql_variables: Option<Seq<char>>,
    pub form_data: Seq<FormDataItemView>,
    pub notes: Seq<char>,
}

impl View for Request {
    type V = RequestView;

    open spec fn view(&self) -> RequestView {
        RequestView {
            id: self.id@,
            name: self.name@,
            method: self.method,
            url: self.url@,
            headers: self.headers.deep_view(),
            params: self.params.deep_view(),
            body: self.body@,
            body_type: self.body_type,
            auth: self.auth@,
            graphql_query: opt_view(self.graphql_query),
            graphql_variables: opt_view(self.graphql_variables),
            form_data: self.form_data.deep_view(),
            notes: self.notes@,
        }
    }
}

impl DeepView for Request {
    type V = RequestView;

    open spec fn deep_view(&self) -> RequestView {
        self@
    }
}

/// The request that `Request::default()` gives: every field empty, `GET`, no body, no auth.
pub open spec fn empty_request() -> RequestView {
    RequestView {
        id: Seq::empty(),
        name: Seq::empty(),
        method: HttpMethod::GET,
        url: Seq::empty(),
        headers: Seq::empty(),
        params: Seq::empty(),
        body: Seq::empty(),
        body_type: BodyType::NoBody,
        auth: AuthView::NoAuth,
        graphql_query: None,
        graphql_variables: None,
        form_data: Seq::empty(),
        notes: Seq::empty(),
    }
}

impl Default for Request {
    fn default() -> (r: Self)
        ensures
            r@ == empty_request(),
    {
        let r = Request {
            id: String::new(),
            name: String::new(),
            method: HttpMethod::GET,
            url: String::new(),
            headers: Vec::new(),
            params: Vec::new(),
            body: String::new(),
            body_type: BodyType::NoBody,
            auth: Auth::NoAuth,
            graphql_query: None,
            graphql_variables: None,
            form_data: Vec::new(),
            notes: String::new(),
        };
        assert(r.headers.deep_view() =~= Seq::empty());
        assert(r.params.deep_view() =~= Seq::empty());
        assert(r.form_data.deep_view() =~= Seq::empty());
        r
    }
}

impl Request {
    /// A new request with a fresh id, the given name, method and URL, and every other field empty.
    pub fn new(name: &str, method: HttpMethod, url: &str) -> (r: Self)
        ensures
            r@.id.len() == 36,
            r@ == (RequestView { id: r@.id, name: name@, method: method, url: url@, ..empty_request() }),
    {
        let r = Request {
            id: new_uuid(),
            name: copy_str(name),
            method,
            url: copy_str(url),
            headers: Vec::new(),
            params: Vec::new(),
            body: String::new(),
            body_type: BodyType::NoBody,
            auth: Auth::NoAuth,
            graphql_query: None,
            graphql_variables: None,
            form_data: Vec::new(),
            notes: String::new(),
        };
        assert(r.headers.deep_view() =~= Seq::empty());
        assert(r.params.deep_view() =~= Seq::empty());
        assert(r.form_data.deep_view() =~= Seq::empty());
        r
    }

    /// A copy of this request.
    pub fn copy(&self) -> (r: Self)
        ensures
            r@ == self@,
    {
        Request {
            id: self.id.clone(),
            name: self.name.clone(),
            method: self.method,
            url: self.url.clone(),
            headers: copy_key_values(&self.headers),
            params: copy_key_values(&self.params),
            body: self.body.clone(),
            body_type: self.body_type,
            auth: self.auth.copy(),
            graphql_query: copy_opt(&self.graphql_query),
            graphql_variables: copy_opt(&self.graphql_variables),
            form_data: copy_form_data(&self.form_data),
            notes: self.notes.clone(),
        }
    }
}

/// An HTTP response as received.
///
/// The headers are kept as a list of `(name, value)` pairs in which no name occurs twice.
#[derive(Debug, Clone)]
pub struct Response {
    pub status: u16,
    pub status_text: String,
    pub headers: Vec<(String, String)>,
    pub body: String,
    pub duration_ms: u64,
    pub timestamp: i64,
}

impl Response {
    /// A copy of the response.
    pub fn copy(&self) -> (r: Self)
        ensures
            r.status == self.status,
            r.status_text@ == self.status_text@,
            r.headers.deep_view() == self.headers.deep_view(),
            r.body@ == self.body@,
            r.duration_ms == self.duration_ms,
            r.timestamp == self.timestamp,
    {
        Response {
            status: self.status,
            status_text: self.status_text.clone(),
            headers: crate::file_storage::copy_pairs(&self.headers),
            body: self.body.clone(),
            duration_ms: self.duration_ms,
            timestamp: self.timestamp,
        }
    }
}

/// A folder of a collection: requests and nested folders, ordered by `seq`.
#[derive(Debug)]
pub struct Folder {
    pub id: String,
    pub name: String,
    pub seq: u32,
    pub variables: Vec<(String, String)>,
    pub docs: String,
    pub folders: Vec<Folder>,
    pub requests: Vec<Request>,
    pub created_at: i64,
}

/// The requests of a folder and of all its sub-folders, depth first.
pub open spec fn folder_requests(f: Folder) -> Seq<RequestView>
    decreases f,
{
    f.requests.deep_view() + folders_requests(f.folders@)
}

/// The requests of a list of folders, in order.
pub open spec fn folders_requests(fs: Seq<Folder>) -> Seq<RequestView>
    decreases fs,
{
    if fs.len() == 0 {
        Seq::empty()
    } else {
        folder_requests(fs[0]) + folders_requests(fs.drop_first())
    }
}

/// The views of a list of request references.
pub open spec fn ref_views(v: Seq<&Request>) -> Seq<RequestView> {
    v.map_values(|r: &Request| r@)
}

/// Appends references to the requests of `reqs` to `out`.
fn push_request_refs<'a>(out: &mut Vec<&'a Request>, reqs: &'a Vec<Request>)
    ensures
        ref_views(final(out)@) == ref_views(old(out)@) + reqs.deep_view(),
{
    let ghost start = out@;
    let mut i: usize = 0;
    while i < reqs.len()
        invariant
            i <= reqs.len(),
            out@.len() == start.len() + i,
            forall|j: int| 0 <= j < start.len() ==> #[trigger] out@[j] == start[j],
            forall|j: int| 0 <= j < i ==> #[trigger] out@[start.len() + j]@ == reqs@[j]@,
        decreases reqs.len() - i,
    {
        out.push(&reqs[i]);
        i = i + 1;
    }
    assert(ref_views(out@) =~= ref_views(start) + reqs.deep_view()) by {
        assert forall|j: int| 0 <= j < out@.len() implies #[trigger] ref_views(out@)[j] == (
        ref_views(start) + reqs.deep_view())[j] by {
            if j >= start.len() {
                assert(out@[start.len() + (j - start.len())]@ == reqs@[j - start.len()]@);
            }
        }
    }
}

/// Appends references to the requests of the folders `fs[from..]`, recursively.
fn push_folder_refs<'a>(out: &mut Vec<&'a Request>, fs: &'a Vec<Folder>, from: usize)
    requires
        from <= fs.len(),
    ensures
        ref_views(final(out)@) == ref_views(old(out)@) + folders_requests(fs@.skip(from as int)),
    decreases fs@, fs.len() - from,
{
    if from == fs.len() {
        assert(fs@.skip(from as int) =~= Seq::<Folder>::empty());
        return;
    }
    let ghost o0 = ref_views(out@);
    let f = &fs[from];
    assert(decreases_to!(fs@ => fs@[from as int]));
    push_request_refs(out, &f.requests);
    let ghost o1 = ref_views(out@);
    assert(decreases_to!(fs@[from as int] => f.folders));
    assert(decreases_to!(f.folders => f.folders@));
    push_folder_refs(out, &f.folders, 0);
    let ghost o2 = ref_views(out@);
    assert(f.folders@.skip(0) =~= f.folders@);
    push_folder_refs(out, fs, from + 1);
    assert(fs@.skip(from as int).drop_first() =~= fs@.skip(from + 1));
    assert(fs@.skip(from as int)[0] == fs@[from as int]);
    assert(folders_requests(fs@.skip(from as int)) == folder_requests(fs@[from as int])
        + folders_requests(fs@.skip(from + 1)));
    assert(ref_views(out@) =~= o0 + folders_requests(fs@.skip(from as int)));
}

impl Folder {
    /// All requests of this folder and its sub-folders, depth first.
    pub fn all_requests(&self) -> (r: Vec<&Request>)
        ensures
            ref_views(r@) == folder_requests(*self),
    {
        let mut r: Vec<&Request> = Vec::new();
        push_request_refs(&mut r, &self.requests);
        push_folder_refs(&mut r, &self.folders, 0);
        assert(self.folders@.skip(0) =~= self.folders@);
        assert(ref_views(Seq::<&Request>::empty()) =~= Seq::<RequestView>::empty());
        r
    }
}

/// A named collection of requests and folders.
#[derive(Debug)]
pub struct Collection {
    pub id: String,
    pub name: String,
    pub folders: Vec<Folder>,
    pub requests: Vec<Request>,
    pub created_at: i64,
}

impl Collection {
    /// All requests of the collection: the root requests, then those of each folder, depth first.
    pub fn all_requests(&self) -> (r: Vec<&Request>)
        ensures
            ref_views(r@) == self.requests.deep_view() + folders_requests(self.folders@),
    {
        let mut r: Vec<&Request> = Vec::new();
        push_request_refs(&mut r, &self.requests);
        push_folder_refs(&mut r, &self.folders, 0);
        assert(self.folders@.skip(0) =~= self.folders@);
        assert(ref_views(Seq::<&Request>::empty()) =~= Seq::<RequestView>::empty());
        r
    }
}

/// A named set of variables.
///
/// The variables are `(name, value)` pairs in which no name occurs twice.
#[derive(Debug, Clone)]
pub struct Environment {
    pub id: String,
    pub name: String,
    pub variables: Vec<(String, String)>,
}

/// A request that was sent, with its response.
#[derive(Debug, Clone)]
pub struct HistoryItem {
    pub id: String,
    pub request: Request,
    pub response: Response,
    pub timestamp: i64,
}

/// Everything the application stores.
#[derive(Debug)]
pub struct AppData {
    pub collections: Vec<Collection>,
    pub environments: Vec<Environment>,
    pub history: Vec<HistoryItem>,
    pub active_env_id: Option<String>,
}

impl Default for AppData {
    fn default() -> (r: Self)
        ensures
            r.collections@.len() == 0,
            r.environments@.len() == 0,
            r.history@.len() == 0,
            r.active_env_id is None,
    {
        AppData {
            collections: Vec::new(),
            environments: Vec::new(),
            history: Vec::new(),
            active_env_id: None,
        }
    }
}

impl Collection {
    /// A new empty collection with a fresh id, created now.
    pub fn new(name: &str) -> (r: Self)
        ensures
            r.name@ == name@,
            r.id@.len() == 36,
            r.folders@.len() == 0,
            r.requests@.len() == 0,
    {
        Collection {
            id: new_uuid(),
            name: copy_str(name),
            folders: Vec::new(),
            requests: Vec::new(),
            created_at: now_millis(),
        }
    }
}

impl Environment {
    /// A new environment without variables and with a fresh id.
    pub fn new(name: &str) -> (r: Self)
        ensures
            r.name@ == name@,
            r.id@.len() == 36,
            r.variables@.len() == 0,
    {
        Environment { id: new_uuid(), name: copy_str(name), variables: Vec::new() }
    }
}

impl Default for Response {
    fn default() -> (r: Self)
        ensures
            r.status == 0,
            r.status_text@.len() == 0,
            r.headers@.len() == 0,
            r.body@.len() == 0,
            r.duration_ms == 0,
            r.timestamp == 0,
    {
        Response {
            status: 0,
            status_text: String::new(),
            headers: Vec::new(),
            body: String::new(),
            duration_ms: 0,
            timestamp: 0,
        }
    }
}

impl Default for Folder {
    fn default() -> (r: Self)
        ensures
            r.id@.len() == 0,
            r.name@.len() == 0,
            r.seq == 0,
            r.variables@.len() == 0,
            r.docs@.len() == 0,
            r.folders@.len() == 0,
            r.requests@.len() == 0,
            r.created_at == 0,
    {
        Folder {
            id: String::new(),
            name: String::new(),
            seq: 0,
            variables: Vec::new(),
            docs: String::new(),
            folders: Vec::new(),
            requests: Vec::new(),
            created_at: 0,
        }
    }
}

impl Folder {
    /// The folder as it is displayed: its name.
    pub fn to_string(&self) -> (r: String)
        ensures
            r@ == self.name@,
    {
        self.name.clone()
    }
}

impl Default for Collection {
    fn default() -> (r: Self)
        ensures
            r.id@.len() == 0,
            r.name@.len() == 0,
            r.folders@.len() == 0,
            r.requests@.len() == 0,
            r.created_at == 0,
    {
        Collection {
            id: String::new(),
            name: String::new(),
            folders: Vec::new(),
            requests: Vec::new(),
            created_at: 0,
        }
    }
}

impl Default for Environment {
    fn default() -> (r: Self)
        ensures
            r.id@.len() == 0,
            r.name@.len() == 0,
            r.variables@.len() == 0,
    {
        Environment { id: String::new(), name: String::new(), variables: Vec::new() }
    }
}

} // verus!
