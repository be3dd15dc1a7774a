//! The `.helios.yml` request file: its structure, and the conversions between it and the
//! request model. One file is one request; a directory of them is a collection.
//!
//! Reading and writing the YAML text is done where the files are handled; here are the
//! structures it fills and the rules that turn them into requests and back.
use vstd::prelude::*;

pub use crate::models::FormDataItem;
use crate::models::{
    body_type_name, copy_form_data, copy_key_values, copy_opt, empty_request, method_name,
    opt_view, Auth, AuthView, BodyType, FormDataItemView, HttpMethod, KeyValue, KeyValueView,
    Request, RequestView,
};
use crate::curl_parser::{method_from_upper, method_named};
use crate::text::{copy_str, spec_to_uppercase, str_eq, to_uppercase};

verus! {

/// Why a `.helios.yml` structure could not be turned into a request.
#[derive(Debug, Clone, Copy, PartialEq, Eq, Structural)]
pub enum HeliosError {
    /// The method is not one of the seven known methods, in any case.
    UnknownMethod,
}

/// The root of a `.helios.yml` file.
#[derive(Debug, Clone, PartialEq)]
pub struct HeliosYml {
    pub info: HeliosInfo,
    pub http: HeliosHttp,
    pub runtime: Option<HeliosRuntime>,
    pub settings: Option<HeliosSettings>,
    pub docs: Option<String>,
}

/// What a request file says about itself.
#[derive(Debug, Clone, PartialEq)]
pub struct HeliosInfo {
    pub name: String,
    pub request_type: String,
    pub seq: u32,
    pub tags: Vec<String>,
}

/// The HTTP part of a request file.
#[derive(Debug, Clone, PartialEq)]
pub struct HeliosHttp {
    pub method: String,
    pub url: String,
    pub params: Vec<KeyValue>,
    pub headers: Vec<KeyValue>,
    pub body: Option<HeliosBody>,
    pub auth: Option<HeliosAuth>,
}

/// The body of a request file.
#[derive(Debug, Clone, PartialEq)]
pub struct HeliosBody {
    pub body_type: String,
    pub content: String,
    pub graphql_query: Option<String>,
    pub graphql_variables: Option<String>,
    pub form_data: Vec<FormDataItem>,
}

/// The authentication of a request file.
#[derive(Debug, Clone, PartialEq)]
pub struct HeliosAuth {
    pub auth_type: String,
    pub username: Option<String>,
    pub password: Option<String>,
    pub token: Option<String>,
}

/// The actions run before a request and after its response.
#[derive(Debug, Clone, PartialEq)]
pub struct HeliosRuntime {
    pub pre_request: Vec<HeliosAction>,
    pub post_response: Vec<HeliosAction>,
}

/// One runtime action: a header to set, a variable to extract, an assertion.
#[derive(Debug, Clone, PartialEq)]
pub struct HeliosAction {
    pub action: String,
    pub key: Option<String>,
    pub value: Option<String>,
    pub var_name: Option<String>,
    pub json_path: Option<String>,
    pub assert: Option<String>,
    pub operator: Option<String>,
    pub expected: Option<String>,
}

/// The settings of a request file.
#[derive(Debug, Clone, Copy, PartialEq, Eq, Structural)]
pub struct HeliosSettings {
    pub timeout: u64,
    pub follow_redirects: bool,
    pub max_redirects: u32,
    pub encode_url: bool,
}

/// The `collection.yml` file at the root of a collection directory.
#[derive(Debug, Clone, PartialEq)]
pub struct CollectionYml {
    pub name: String,
    pub description: Option<String>,
    pub version: Option<String>,
}

/// The type a request file has when it gives none.
pub fn default_request_type() -> (r: String)
    ensures
        r@ == "http"@,
{
    copy_str("http")
}

/// The method a request file has when it gives none.
pub fn default_method() -> (r: String)
    ensures
        r@ == "GET"@,
{
    copy_str("GET")
}

/// The body type a request body has when it gives none.
pub fn default_body_type() -> (r: String)
    ensures
        r@ == "none"@,
{
    copy_str("none")
}

/// The timeout in milliseconds when a file gives none.
pub fn default_timeout() -> (r: u64)
    ensures
        r == 30000,
{
    30000
}

/// The value of the settings flags that default to on.
pub fn default_true() -> (r: bool)
    ensures
        r,
{
    true
}

/// The number of redirects followed when a file gives none.
pub fn default_max_redirects() -> (r: u32)
    ensures
        r == 5,
{
    5
}

/// The mathematical content of a `HeliosBody`.
pub struct HeliosBodyView {
    pub body_type: Seq<char>,
    pub content: Seq<char>,
    pub graphql_query: Option<Seq<char>>,
    pub graphql_variables: Option<Seq<char>>,
    pub form_data: Seq<FormDataItemView>,
}

impl View for HeliosBody {
    type V = HeliosBodyView;

    open spec fn view(&self) -> HeliosBodyView {
        HeliosBodyView {
            body_type: self.body_type@,
            content: self.content@,
            graphql_query: opt_view(self.graphql_query),
            graphql_variables: opt_view(self.graphql_variables),
            form_data: self.form_data.deep_view(),
        }
    }
}

/// The mathematical content of a `HeliosAuth`.
pub struct HeliosAuthView {
    pub auth_type: Seq<char>,
    pub username: Option<Seq<char>>,
    pub password: Option<Seq<char>>,
    pub token: Option<Seq<char>>,
}

impl View for HeliosAuth {
    type V = HeliosAuthView;

    open spec fn view(&self) -> HeliosAuthView {
        HeliosAuthView {
            auth_type: self.auth_type@,
            username: opt_view(self.username),
            password: opt_view(self.password),
            token: opt_view(self.token),
        }
    }
}

/// The view of an optional body.
pub open spec fn opt_body_view(b: Option<HeliosBody>) -> Option<HeliosBodyView> {
    match b {
        Some(x) => Some(x@),
        None => None,
    }
}

/// The view of an optional authentication.
pub open spec fn opt_auth_view(a: Option<HeliosAuth>) -> Option<HeliosAuthView> {
    match a {
        Some(x) => Some(x@),
        None => None,
    }
}

/// The parts of a request file that the conversions read and write.
pub struct HeliosYmlView {
    pub name: Seq<char>,
    pub info_type: Seq<char>,
    pub seq: u32,
    pub tags: Seq<Seq<char>>,
    pub method: Seq<char>,
    pub url: Seq<char>,
    pub params: Seq<KeyValueView>,
    pub headers: Seq<KeyValueView>,
    pub body: Option<HeliosBodyView>,
    pub auth: Option<HeliosAuthView>,
    pub has_runtime: bool,
    pub settings: Option<HeliosSettings>,
    pub docs: Option<Seq<char>>,
}

impl View for HeliosYml {
    type V = HeliosYmlView;

    open spec fn view(&self) -> HeliosYmlView {
        HeliosYmlView {
            name: self.info.name@,
            info_type: self.info.request_type@,
            seq: self.info.seq,
            tags: self.info.tags.deep_view(),
            method: self.http.method@,
            url: self.http.url@,
            params: self.http.params.deep_view(),
            headers: self.http.headers.deep_view(),
            body: opt_body_view(self.http.body),
            auth: opt_auth_view(self.http.auth),
            has_runtime: self.runtime is Some,
            settings: self.settings,
            docs: opt_view(self.docs),
        }
    }
}

/// The method a file names: its exact name, else its name after upper-casing.
pub open spec fn yaml_method(s: Seq<char>) -> Result<HttpMethod, HeliosError> {
    match method_named(s) {
        Some(m) => Ok(m),
        None => match method_named(spec_to_uppercase(s)) {
            Some(m) => Ok(m),
            None => Err(HeliosError::UnknownMethod),
        },
    }
}

/// Reads the method of a request file, ignoring case.
pub fn parse_method_from_str(s: &str) -> (r: Result<HttpMethod, HeliosError>)
    ensures
        r == yaml_method(s@),
{
    match method_from_upper(s) {
        Some(m) => Ok(m),
        None => {
            let upper = to_uppercase(s);
            match method_from_upper(upper.as_str()) {
                Some(m) => Ok(m),
                None => Err(HeliosError::UnknownMethod),
            }
        },
    }
}

/// The body type a file names; unknown names mean no body.
pub open spec fn yaml_body_type(s: Seq<char>) -> BodyType {
    if s == "json"@ {
        BodyType::Json
    } else if s == "form-urlencoded"@ || s == "form"@ {
        BodyType::Form
    } else if s == "text"@ {
        BodyType::Text
    } else if s == "xml"@ {
        BodyType::Xml
    } else if s == "graphql"@ {
        BodyType::Graphql
    } else if s == "multipart-form"@ || s == "form-data"@ {
        BodyType::FormData
    } else {
        BodyType::NoBody
    }
}

/// Reads the body type of a request file.
pub fn parse_body_type_from_str(s: &str) -> (r: BodyType)
    ensures
        r == yaml_body_type(s@),
{
    if str_eq(s, "json") {
        BodyType::Json
    } else if str_eq(s, "form-urlencoded") || str_eq(s, "form") {
        BodyType::Form
    } else if str_eq(s, "text") {
        BodyType::Text
    } else if str_eq(s, "xml") {
        BodyType::Xml
    } else if str_eq(s, "graphql") {
        BodyType::Graphql
    } else if str_eq(s, "multipart-form") || str_eq(s, "form-data") {
        BodyType::FormData
    } else {
        BodyType::NoBody
    }
}

/// An optional string, or the empty string.
pub open spec fn or_empty(o: Option<Seq<char>>) -> Seq<char> {
    match o {
        Some(s) => s,
        None => Seq::empty(),
    }
}

/// A copy of an optional string, or an empty string.
fn string_or_empty(o: &Option<String>) -> (r: String)
    ensures
        r@ == or_empty(opt_view(*o)),
{
    match o {
        Some(s) => s.clone(),
        None => String::new(),
    }
}

/// The authentication a file gives: `bearer` and `basic` with their fields (missing ones
/// empty); anything else, or none, is no authentication.
pub open spec fn yaml_auth(a: Option<HeliosAuthView>) -> AuthView {
    match a {
        Some(x) => if x.auth_type == "bearer"@ {
            AuthView::Bearer { token: or_empty(x.token) }
        } else if x.auth_type == "basic"@ {
            AuthView::Basic { username: or_empty(x.username), password: or_empty(x.password) }
        } else {
            AuthView::NoAuth
        },
        None => AuthView::NoAuth,
    }
}

/// Reads the authentication of a request file.
pub fn parse_auth_from_helios(auth: &Option<HeliosAuth>) -> (r: Auth)
    ensures
        r@ == yaml_auth(opt_auth_view(*auth)),
{
    match auth {
        Some(a) => if str_eq(a.auth_type.as_str(), "bearer") {
            Auth::Bearer { token: string_or_empty(&a.token) }
        } else if str_eq(a.auth_type.as_str(), "basic") {
            Auth::Basic {
                username: string_or_empty(&a.username),
                password: string_or_empty(&a.password),
            }
        } else {
            Auth::NoAuth
        },
        None => Auth::NoAuth,
    }
}

/// The request a file describes, with the given id; notes are not kept in the file's request.
pub open spec fn yml_request(y: HeliosYmlView, id: Seq<char>) -> Result<RequestView, HeliosError> {
    match yaml_method(y.method) {
        Err(e) => Err(e),
        Ok(m) => Ok(
            RequestView {
                id: id,
                name: y.name,
                method: m,
                url: y.url,
                headers: y.headers,
                params: y.params,
                body: match y.body {
                    Some(b) => b.content,
                    None => Seq::empty(),
                },
                body_type: match y.body {
                    Some(b) => yaml_body_type(b.body_type),
                    None => BodyType::NoBody,
                },
                auth: yaml_auth(y.auth),
                graphql_query: match y.body {
                    Some(b) => b.graphql_query,
                    None => None,
                },
                graphql_variables: match y.body {
                    Some(b) => b.graphql_variables,
                    None => None,
                },
                form_data: match y.body {
                    Some(b) => b.form_data,
                    None => Seq::empty(),
                },
                notes: Seq::empty(),
            },
        ),
    }
}

/// Turns a request file into a request with the given id.
pub fn helios_yml_to_request(yml: &HeliosYml, id: &str) -> (r: Result<Request, HeliosError>)
    ensures
        match yml_request(yml@, id@) {
            Ok(q) => r matches Ok(req) && req@ == q,
            Err(e) => r matches Err(e2) && e2 == e,
        },
{
    let method = match parse_method_from_str(yml.http.method.as_str()) {
        Ok(m) => m,
        Err(e) => {
            return Err(e);
        },
    };
    let (body_type, body, graphql_query, graphql_variables, form_data) = match &yml.http.body {
        Some(b) => (
            parse_body_type_from_str(b.body_type.as_str()),
            b.content.clone(),
            copy_opt(&b.graphql_query),
            copy_opt(&b.graphql_variables),
            copy_form_data(&b.form_data),
        ),
        None => (BodyType::NoBody, String::new(), None, None, Vec::new()),
    };
    let req = Request {
        id: copy_str(id),
        name: yml.info.name.clone(),
        method,
        url: yml.http.url.clone(),
        headers: copy_key_values(&yml.http.headers),
        params: copy_key_values(&yml.http.params),
        body,
        body_type,
        auth: parse_auth_from_helios(&yml.http.auth),
        graphql_query,
        graphql_variables,
        form_data,
        notes: String::new(),
    };
    assert(req.form_data.deep_view() =~= (match yml@.body {
        Some(b) => b.form_data,
        None => Seq::<FormDataItemView>::empty(),
    }));
    Ok(req)
}

/// The name a body type has in a request file.
pub open spec fn yaml_body_type_name(b: BodyType) -> Seq<char> {
    match b {
        BodyType::NoBody => "none"@,
        BodyType::Json => "json"@,
        BodyType::Form => "form-urlencoded"@,
        BodyType::Text => "text"@,
        BodyType::Xml => "xml"@,
        BodyType::Graphql => "graphql"@,
        BodyType::FormData => "multipart-form"@,
    }
}

/// Writes the method of a request file.
pub fn method_to_yaml_str(method: &HttpMethod) -> (r: String)
    ensures
        r@ == method_name(*method),
{
    method.to_string()
}

/// Writes the body type of a request file.
pub fn body_type_to_yaml_str(bt: &BodyType) -> (r: String)
    ensures
        r@ == yaml_body_type_name(*bt),
{
    match bt {
        BodyType::NoBody => copy_str("none"),
        BodyType::Json => copy_str("json"),
        BodyType::Form => copy_str("form-urlencoded"),
        BodyType::Text => copy_str("text"),
        BodyType::Xml => copy_str("xml"),
        BodyType::Graphql => copy_str("graphql"),
        BodyType::FormData => copy_str("multipart-form"),
    }
}

/// The file form of an authentication.
pub open spec fn helios_auth_of(a: AuthView) -> HeliosAuthView {
    match a {
        AuthView::Bearer { token } => HeliosAuthView {
            auth_type: "bearer"@,
            username: None,
            password: None,
            token: Some(token),
        },
        AuthView::Basic { username, password } => HeliosAuthView {
            auth_type: "basic"@,
            username: Some(username),
            password: Some(password),
            token: None,
        },
        AuthView::NoAuth => HeliosAuthView {
            auth_type: "none"@,
            username: None,
            password: None,
            token: None,
        },
    }
}

/// Writes an authentication in file form.
pub fn auth_to_helios(auth: &Auth) -> (r: HeliosAuth)
    ensures
        r@ == helios_auth_of(auth@),
{
    match auth {
        Auth::Bearer { token } => HeliosAuth {
            auth_type: copy_str("bearer"),
            username: None,
            password: None,
            token: Some(token.clone()),
        },
        Auth::Basic { username, password } => HeliosAuth {
            auth_type: copy_str("basic"),
            username: Some(username.clone()),
            password: Some(password.clone()),
            token: None,
        },
        Auth::NoAuth => HeliosAuth {
            auth_type: copy_str("none"),
            username: None,
            password: None,
            token: None,
        },
    }
}

/// The file a request is written to: type `http`, sequence 0, no tags, no runtime actions and
/// no settings; the body is left out when there is none (no body type, no content, no form
/// fields), the authentication when there is none, and the notes become the docs unless empty.
pub open spec fn request_yml(r: RequestView) -> HeliosYmlView {
    HeliosYmlView {
        name: r.name,
        info_type: "http"@,
        seq: 0,
        tags: Seq::empty(),
        method: method_name(r.method),
        url: r.url,
        params: r.params,
        headers: r.headers,
        body: if r.body_type == BodyType::NoBody && r.body.len() == 0 && r.form_data.len() == 0 {
            None
        } else {
            Some(
                HeliosBodyView {
                    body_type: yaml_body_type_name(r.body_type),
                    content: r.body,
                    graphql_query: r.graphql_query,
                    graphql_variables: r.graphql_variables,
                    form_data: r.form_data,
                },
            )
        },
        auth: if r.auth is NoAuth {
            None
        } else {
            Some(helios_auth_of(r.auth))
        },
        has_runtime: false,
        settings: None,
        docs: if r.notes.len() == 0 {
            None
        } else {
            Some(r.notes)
        },
    }
}

/// Turns a request into its file form; this never fails.
pub fn request_to_helios_yml(req: &Request) -> (r: Result<HeliosYml, HeliosError>)
    ensures
        r matches Ok(y) && y@ == request_yml(req@),
{
    Ok(helios_yml_of(req))
}

/// The file form of a request.
pub fn helios_yml_of(req: &Request) -> (r: HeliosYml)
    ensures
        r@ == request_yml(req@),
{
    let body = if req.body_type == BodyType::NoBody && req.body.as_str().is_empty()
        && req.form_data.len() == 0 {
        None
    } else {
        Some(
            HeliosBody {
                body_type: body_type_to_yaml_str(&req.body_type),
                content: req.body.clone(),
                graphql_query: copy_opt(&req.graphql_query),
                graphql_variables: copy_opt(&req.graphql_variables),
                form_data: copy_form_data(&req.form_data),
            },
        )
    };
    let auth = match &req.auth {
        Auth::NoAuth => None,
        a => Some(auth_to_helios(a)),
    };
    let tags: Vec<String> = Vec::new();
    let y = HeliosYml {
        info: HeliosInfo { name: req.name.clone(), request_type: copy_str("http"), seq: 0, tags },
        http: HeliosHttp {
            method: method_to_yaml_str(&req.method),
            url: req.url.clone(),
            params: copy_key_values(&req.params),
            headers: copy_key_values(&req.headers),
            body,
            auth,
        },
        runtime: None,
        settings: None,
        docs: if req.notes.as_str().is_empty() {
            None
        } else {
            Some(req.notes.clone())
        },
    };
    assert(y.info.tags.deep_view() =~= Seq::<Seq<char>>::empty());
    y
}

/// Reading back the name of a method gives the method.
pub(crate) proof fn lemma_method_name_roundtrip(m: HttpMethod)
    ensures
        method_named(method_name(m)) == Some(m),
{
    reveal_strlit("GET");
    reveal_strlit("POST");
    reveal_strlit("PUT");
    reveal_strlit("DELETE");
    reveal_strlit("PATCH");
    reveal_strlit("HEAD");
    reveal_strlit("OPTIONS");
    assert("GET"@[0] == 'G' && "PUT"@[0] == 'P' && "POST"@[0] == 'P' && "HEAD"@[0] == 'H');
    assert("GET"@.len() == 3 && "POST"@.len() == 4 && "PUT"@.len() == 3 && "DELETE"@.len() == 6
        && "PATCH"@.len() == 5 && "HEAD"@.len() == 4 && "OPTIONS"@.len() == 7);
    match m {
        HttpMethod::GET => assert(method_named("GET"@) == Some(HttpMethod::GET)),
        HttpMethod::POST => assert(method_named("POST"@) == Some(HttpMethod::POST)),
        HttpMethod::PUT => assert(method_named("PUT"@) == Some(HttpMethod::PUT)),
        HttpMethod::DELETE => assert(method_named("DELETE"@) == Some(HttpMethod::DELETE)),
        HttpMethod::PATCH => assert(method_named("PATCH"@) == Some(HttpMethod::PATCH)),
        HttpMethod::HEAD => assert(method_named("HEAD"@) == Some(HttpMethod::HEAD)),
        HttpMethod::OPTIONS => assert(method_named("OPTIONS"@) == Some(HttpMethod::OPTIONS)),
    }
}

/// Reading back the file name of a body type gives the body type.
proof fn lemma_body_type_name_roundtrip(b: BodyType)
    ensures
        yaml_body_type(yaml_body_type_name(b)) == b,
{
    reveal_strlit("none");
    reveal_strlit("json");
    reveal_strlit("form-urlencoded");
    reveal_strlit("form");
    reveal_strlit("text");
    reveal_strlit("xml");
    reveal_strlit("graphql");
    reveal_strlit("multipart-form");
    reveal_strlit("form-data");
    assert("none"@[0] == 'n' && "json"@[0] == 'j' && "form"@[0] == 'f' && "text"@[0] == 't');
    assert("none"@.len() == 4 && "json"@.len() == 4 && "form-urlencoded"@.len() == 15
        && "form"@.len() == 4 && "text"@.len() == 4 && "xml"@.len() == 3 && "graphql"@.len() == 7
        && "multipart-form"@.len() == 14 && "form-data"@.len() == 9);
    match b {
        BodyType::NoBody => assert(yaml_body_type("none"@) == BodyType::NoBody),
        BodyType::Json => assert(yaml_body_type("json"@) == BodyType::Json),
        BodyType::Form => assert(yaml_body_type("form-urlencoded"@) == BodyType::Form),
        BodyType::Text => assert(yaml_body_type("text"@) == BodyType::Text),
        BodyType::Xml => assert(yaml_body_type("xml"@) == BodyType::Xml),
        BodyType::Graphql => assert(yaml_body_type("graphql"@) == BodyType::Graphql),
        BodyType::FormData => assert(yaml_body_type("multipart-form"@) == BodyType::FormData),
    }
}

/// A request survives being written to its file form and read back, id aside: except for its
/// notes, which the file keeps only as docs, and for GraphQL text on a request that has no
/// body at all, which the file does not keep.
pub proof fn law_request_file_roundtrip(r: RequestView)
    requires
        r.notes.len() == 0,
        r.body_type == BodyType::NoBody && r.body.len() == 0 && r.form_data.len() == 0
            ==> r.graphql_query is None && r.graphql_variables is None,
    ensures
        yml_request(request_yml(r), r.id) == Ok::<RequestView, HeliosError>(r),
{
    reveal_strlit("bearer");
    reveal_strlit("basic");
    reveal_strlit("none");
    assert("bearer"@.len() == 6 && "basic"@.len() == 5 && "none"@.len() == 4);
    let y = request_yml(r);
    lemma_method_name_roundtrip(r.method);
    lemma_body_type_name_roundtrip(r.body_type);
    assert(yaml_method(y.method) == Ok::<HttpMethod, HeliosError>(r.method));
    assert(yaml_auth(y.auth) == r.auth);
    let q = yml_request(y, r.id)->Ok_0;
    assert(q.body =~= r.body);
    assert(q.form_data =~= r.form_data);
    assert(q.notes =~= r.notes);
    assert(q == r);
}

} // verus!
