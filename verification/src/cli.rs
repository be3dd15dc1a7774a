//! The command line: its commands, and what each does to the stored data and prints.
//!
//! Reading and writing the data, sending requests and printing are left to the caller.
use vstd::prelude::*;

use crate::curl_parser::{method_from_upper, method_named};
use crate::http_client::{header_lines, parse_headers};
use crate::models::{
    method_name, AppData, Auth, BodyType, Collection, Environment, HttpMethod, Request,
    RequestView,
};
use crate::scripting::{distinct_names, set_var, set_var_exec};
use crate::text::{
    copy_str, decimal, push_decimal, push_str, spec_to_lowercase, spec_to_uppercase, str_eq,
    to_lowercase, to_uppercase,
};

verus! {

/// The parsed command line.
pub struct Cli {
    /// No command starts the terminal interface.
    pub command: Option<Commands>,
}

/// The commands.
pub enum Commands {
    /// Send one request and print the response.
    Send {
        method: String,
        url: String,
        header: Vec<String>,
        body: Option<String>,
        content_type: Option<String>,
    },
    Collection { action: CollectionAction },
    Env { action: EnvAction },
    /// Send every request of a collection and count the successes.
    Run { name: String },
    Export { name: String, format: String, output: Option<String> },
    Import { file: String, format: String },
}

/// The collection commands.
pub enum CollectionAction {
    List,
    Add { name: String },
    Remove { name: String },
    AddReq { collection: String, method: String, url: String, name: Option<String> },
}

/// The environment commands.
pub enum EnvAction {
    List,
    Add { name: String },
    SetVar { env: String, key: String, value: String },
    Remove { name: String },
}

/// What a command printed, and whether the data has to be saved.
pub struct CliOutput {
    pub lines: Vec<String>,
    pub save: bool,
}

/// The method a command-line method name stands for (any case).
pub open spec fn cli_method(s: Seq<char>) -> Result<HttpMethod, Seq<char>> {
    match method_named(spec_to_uppercase(s)) {
        Some(m) => Ok(m),
        None => Err("Unknown HTTP method: "@ + s),
    }
}

/// Reads a method name in any case; other names are an error.
pub fn parse_method(s: &str) -> (r: Result<HttpMethod, String>)
    ensures
        match r {
            Ok(m) => cli_method(s@) == Ok::<HttpMethod, Seq<char>>(m),
            Err(e) => cli_method(s@) == Err::<HttpMethod, Seq<char>>(e@),
        },
{
    let upper = to_uppercase(s);
    match method_from_upper(upper.as_str()) {
        Some(m) => Ok(m),
        None => {
            let mut e = copy_str("Unknown HTTP method: ");
            push_str(&mut e, s);
            Err(e)
        },
    }
}

/// The body type a content-type option names (short names or MIME types, any case).
pub open spec fn content_type_body(s: Seq<char>) -> BodyType {
    let l = spec_to_lowercase(s);
    if l == "json"@ || l == "application/json"@ {
        BodyType::Json
    } else if l == "form"@ || l == "application/x-www-form-urlencoded"@ {
        BodyType::Form
    } else if l == "text"@ || l == "text/plain"@ {
        BodyType::Text
    } else if l == "xml"@ || l == "application/xml"@ {
        BodyType::Xml
    } else {
        BodyType::NoBody
    }
}

/// Reads a content-type option.
pub fn parse_content_type(s: &str) -> (r: BodyType)
    ensures
        r == content_type_body(s@),
{
    let l = to_lowercase(s);
    let t = l.as_str();
    if str_eq(t, "json") || str_eq(t, "application/json") {
        BodyType::Json
    } else if str_eq(t, "form") || str_eq(t, "application/x-www-form-urlencoded") {
        BodyType::Form
    } else if str_eq(t, "text") || str_eq(t, "text/plain") {
        BodyType::Text
    } else if str_eq(t, "xml") || str_eq(t, "application/xml") {
        BodyType::Xml
    } else {
        BodyType::NoBody
    }
}

/// The request the `send` command sends: named "CLI Request", with the parsed headers, the
/// body (empty when none is given) and the body type of the content-type option.
pub fn send_command_request(
    method: &str,
    url: &str,
    header: &Vec<String>,
    body: &Option<String>,
    content_type: &Option<String>,
) -> (r: Result<Request, String>)
    ensures
        match r {
            Ok(req) => {
                &&& cli_method(method@) == Ok::<HttpMethod, Seq<char>>(req@.method)
                &&& req@.id.len() == 36
                &&& req@.name == "CLI Request"@
                &&& req@.url == url@
                &&& req@.headers == header_lines(header@.map_values(|s: String| s@))
                &&& req@.params.len() == 0
                &&& req@.body == match body {
                    Some(b) => b@,
                    None => Seq::empty(),
                }
                &&& req@.body_type == match content_type {
                    Some(ct) => content_type_body(ct@),
                    None => BodyType::NoBody,
                }
                &&& req@.auth == crate::models::AuthView::NoAuth
            },
            Err(e) => cli_method(method@) == Err::<HttpMethod, Seq<char>>(e@),
        },
{
    let m = match parse_method(method) {
        Ok(m) => m,
        Err(e) => return Err(e),
    };
    let body_type = match content_type {
        Some(ct) => parse_content_type(ct.as_str()),
        None => BodyType::NoBody,
    };
    let mut req = Request::new("CLI Request", m, url);
    req.headers = parse_headers(header.as_slice());
    req.body = match body {
        Some(b) => b.clone(),
        None => String::new(),
    };
    req.body_type = body_type;
    proof {
        reveal_strlit("CLI Request");
    }
    Ok(req)
}

/// The line `send` prints about a response.
pub fn response_summary(status: u16, status_text: &str, duration_ms: u64, size: usize) -> (r: String)
    ensures
        r@ == "Status: "@ + decimal(status as nat) + " "@ + status_text@ + " | Time: "@ + decimal(
            duration_ms as nat,
        ) + "ms | Size: "@ + decimal(size as nat) + " bytes"@,
{
    let mut r = copy_str("Status: ");
    push_decimal(&mut r, status as u128);
    push_str(&mut r, " ");
    push_str(&mut r, status_text);
    push_str(&mut r, " | Time: ");
    push_decimal(&mut r, duration_ms as u128);
    push_str(&mut r, "ms | Size: ");
    push_decimal(&mut r, size as u128);
    push_str(&mut r, " bytes");
    r
}

/// Whether a collection or environment is the one a command names: by name or by id.
pub open spec fn named(name: Seq<char>, id: Seq<char>, key: Seq<char>) -> bool {
    name == key || id == key
}

/// The position of the first collection a command names, from `i` on.
pub open spec fn find_collection_from(cols: Seq<Collection>, key: Seq<char>, i: nat) -> Option<nat>
    decreases cols.len() - i,
{
    if i >= cols.len() {
        None
    } else if named(cols[i as int].name@, cols[i as int].id@, key) {
        Some(i)
    } else {
        find_collection_from(cols, key, i + 1)
    }
}

/// The position of the first collection named `key` (by name or id).
pub fn find_collection(cols: &Vec<Collection>, key: &str) -> (r: Option<usize>)
    ensures
        match r {
            Some(i) => find_collection_from(cols@, key@, 0) == Some(i as nat) && i < cols@.len(),
            None => find_collection_from(cols@, key@, 0) is None,
        },
{
    let mut i: usize = 0;
    while i < cols.len()
        invariant
            i <= cols.len(),
            find_collection_from(cols@, key@, 0) == find_collection_from(cols@, key@, i as nat),
        decreases cols.len() - i,
    {
        if str_eq(cols[i].name.as_str(), key) || str_eq(cols[i].id.as_str(), key) {
            return Some(i);
        }
        i = i + 1;
    }
    None
}

/// The position of the first environment named `key`, from `i` on.
pub open spec fn find_env_named_from(envs: Seq<Environment>, key: Seq<char>, i: nat) -> Option<nat>
    decreases envs.len() - i,
{
    if i >= envs.len() {
        None
    } else if named(envs[i as int].name@, envs[i as int].id@, key) {
        Some(i)
    } else {
        find_env_named_from(envs, key, i + 1)
    }
}

/// The position of the first environment named `key` (by name or id).
pub fn find_env(envs: &Vec<Environment>, key: &str) -> (r: Option<usize>)
    ensures
        match r {
            Some(i) => find_env_named_from(envs@, key@, 0) == Some(i as nat) && i < envs@.len(),
            None => find_env_named_from(envs@, key@, 0) is None,
        },
{
    let mut i: usize = 0;
    while i < envs.len()
        invariant
            i <= envs.len(),
            find_env_named_from(envs@, key@, 0) == find_env_named_from(envs@, key@, i as nat),
        decreases envs.len() - i,
    {
        if str_eq(envs[i].name.as_str(), key) || str_eq(envs[i].id.as_str(), key) {
            return Some(i);
        }
        i = i + 1;
    }
    None
}

/// The line listing a collection.
pub open spec fn collection_line(c: Collection) -> Seq<char> {
    c.id@ + " - "@ + c.name@ + " ("@ + decimal(c.requests@.len()) + " requests)"@
}

/// The line listing an environment, starred when it is the active one.
pub open spec fn env_line(e: Environment, active: Option<String>) -> Seq<char> {
    let star = match active {
        Some(id) => id@ == e.id@,
        None => false,
    };
    (if star {
        "*"@
    } else {
        " "@
    }) + " "@ + e.id@ + " - "@ + e.name@ + " ("@ + decimal(e.variables@.len()) + " vars)"@
}

/// The single line `lines` holds.
pub open spec fn says(out: CliOutput, line: Seq<char>) -> bool {
    out.lines.deep_view() == seq![line]
}

/// One line of output.
fn one_line(s: &str, save: bool) -> (r: CliOutput)
    ensures
        says(r, s@),
        r.save == save,
{
    let mut lines: Vec<String> = Vec::new();
    let ghost l0 = lines;
    assert(l0.deep_view() =~= Seq::<Seq<char>>::empty());
    let line = copy_str(s);
    lines.push(line);
    proof {
        crate::text::lemma_deep_view_push(l0, lines, line);
    }
    CliOutput { lines, save }
}

/// The collections named `key` (by name or id) taken out.
pub open spec fn without_named_collections(cols: Seq<Collection>, key: Seq<char>) -> Seq<Collection>
    decreases cols.len(),
{
    if cols.len() == 0 {
        cols
    } else {
        let rest = without_named_collections(cols.drop_last(), key);
        if named(cols.last().name@, cols.last().id@, key) {
            rest
        } else {
            rest.push(cols.last())
        }
    }
}

/// The environments named `key` (by name or id) taken out.
pub open spec fn without_named_envs(envs: Seq<Environment>, key: Seq<char>) -> Seq<Environment>
    decreases envs.len(),
{
    if envs.len() == 0 {
        envs
    } else {
        let rest = without_named_envs(envs.drop_last(), key);
        if named(envs.last().name@, envs.last().id@, key) {
            rest
        } else {
            rest.push(envs.last())
        }
    }
}

/// What a collection command does to the data and prints.
pub fn run_collection_action(data: &mut AppData, action: CollectionAction) -> (r: Result<CliOutput, String>)
    ensures
        match action {
            CollectionAction::List => r matches Ok(out) && !out.save && *final(data) == *old(data) && if old(
                data,
            ).collections@.len() == 0 {
                says(out, "No collections found."@)
            } else {
                out.lines.deep_view() == old(data).collections@.map_values(|c: Collection| collection_line(c))
            },
            CollectionAction::Add { name } => r matches Ok(out) && out.save && says(out, "Collection created."@)
                && final(data).collections@.len() == old(data).collections@.len() + 1
                && final(data).collections@.drop_last() == old(data).collections@
                && final(data).collections@.last().name@ == name@
                && final(data).collections@.last().requests@.len() == 0
                && final(data).environments == old(data).environments,
            CollectionAction::Remove { name } => r matches Ok(out) && final(data).collections@
                == without_named_collections(old(data).collections@, name@) && final(data).environments
                == old(data).environments && if final(data).collections@.len() < old(data).collections@.len() {
                out.save && says(out, "Collection removed."@)
            } else {
                !out.save && says(out, "Collection not found."@)
            },
            CollectionAction::AddReq { collection, method, url, name } => match cli_method(method@) {
                Err(e) => r matches Err(m) && m@ == e && *final(data) == *old(data),
                Ok(m) => r matches Ok(out) && match find_collection_from(old(data).collections@, collection@, 0) {
                    None => !out.save && says(out, "Collection not found."@) && *final(data) == *old(data),
                    Some(ci) => {
                        let c0 = old(data).collections@[ci as int];
                        let c1 = final(data).collections@[ci as int];
                        &&& out.save
                        &&& says(out, "Request added to collection."@)
                        &&& final(data).collections@.len() == old(data).collections@.len()
                        &&& forall|j: int|
                            0 <= j < old(data).collections@.len() && j != ci ==> #[trigger] final(data).collections@[j]
                                == old(data).collections@[j]
                        &&& c1 == (Collection { requests: c1.requests, ..c0 })
                        &&& c1.requests@.drop_last() == c0.requests@
                        &&& c1.requests@.len() == c0.requests@.len() + 1
                        &&& c1.requests@.last()@ == (RequestView {
                            id: c1.requests@.last()@.id,
                            name: match name {
                                Some(n) => n@,
                                None => method_name(m) + " "@ + url@,
                            },
                            method: m,
                            url: url@,
                            ..crate::models::empty_request()
                        })
                        &&& final(data).environments == old(data).environments
                    },
                },
            },
        },
{
    match action {
        CollectionAction::List => {
            if data.collections.len() == 0 {
                return Ok(one_line("No collections found.", false));
            }
            let mut lines: Vec<String> = Vec::new();
            let mut i: usize = 0;
            while i < data.collections.len()
                invariant
                    i <= data.collections.len(),
                    *data == *old(data),
                    lines.deep_view() == data.collections@.take(i as int).map_values(
                        |c: Collection| collection_line(c),
                    ),
                decreases data.collections.len() - i,
            {
                let c = &data.collections[i];
                let mut line = c.id.clone();
                push_str(&mut line, " - ");
                push_str(&mut line, c.name.as_str());
                push_str(&mut line, " (");
                push_decimal(&mut line, c.requests.len() as u128);
                push_str(&mut line, " requests)");
                let ghost l0 = lines;
                lines.push(line);
                proof {
                    crate::text::lemma_deep_view_push(l0, lines, line);
                    assert(data.collections@.take(i + 1).map_values(|c: Collection| collection_line(c))
                        =~= data.collections@.take(i as int).map_values(|c: Collection| collection_line(c)).push(
                        collection_line(data.collections@[i as int]),
                    ));
                }
                i = i + 1;
            }
            assert(data.collections@.take(i as int) =~= data.collections@);
            Ok(CliOutput { lines, save: false })
        },
        CollectionAction::Add { name } => {
            let ghost c0 = data.collections@;
            let col = Collection::new(name.as_str());
            data.collections.push(col);
            assert(data.collections@.drop_last() =~= c0);
            Ok(one_line("Collection created.", true))
        },
        CollectionAction::Remove { name } => {
            let before = data.collections.len();
            remove_named_collections(&mut data.collections, name.as_str());
            if data.collections.len() < before {
                Ok(one_line("Collection removed.", true))
            } else {
                Ok(one_line("Collection not found.", false))
            }
        },
        CollectionAction::AddReq { collection, method, url, name } => {
            let m = match parse_method(method.as_str()) {
                Ok(m) => m,
                Err(e) => return Err(e),
            };
            match find_collection(&data.collections, collection.as_str()) {
                None => Ok(one_line("Collection not found.", false)),
                Some(ci) => {
                    let req_name = match name {
                        Some(n) => n,
                        None => {
                            let mut n = m.to_string();
                            push_str(&mut n, " ");
                            push_str(&mut n, url.as_str());
                            n
                        },
                    };
                    let req = Request::new(req_name.as_str(), m, url.as_str());
                    let ghost cols0 = data.collections@;
                    let mut col = data.collections.remove(ci);
                    let ghost r0 = col.requests@;
                    col.requests.push(req);
                    data.collections.insert(ci, col);
                    proof {
                        let c1 = data.collections@[ci as int];
                        assert(c1.requests@.drop_last() =~= r0);
                        assert forall|j: int| 0 <= j < cols0.len() && j != ci implies #[trigger] data.collections@[j]
                            == cols0[j] by {
                            if j < ci {
                            } else {
                            }
                        }
                    }
                    Ok(one_line("Request added to collection.", true))
                },
            }
        },
    }
}

/// Each environment's variable names are distinct.
pub open spec fn env_vars_distinct(envs: Seq<Environment>) -> bool {
    forall|i: int| 0 <= i < envs.len() ==> distinct_names(#[trigger] envs[i].variables.deep_view())
}

/// What an environment command does to the data and prints.
pub fn run_env_action(data: &mut AppData, action: EnvAction) -> (out: CliOutput)
    requires
        env_vars_distinct(old(data).environments@),
    ensures
        env_vars_distinct(final(data).environments@),
        final(data).collections == old(data).collections,
        match action {
            EnvAction::List => !out.save && *final(data) == *old(data) && if old(data).environments@.len() == 0 {
                says(out, "No environments found."@)
            } else {
                out.lines.deep_view() == old(data).environments@.map_values(
                    |e: Environment| env_line(e, old(data).active_env_id),
                )
            },
            EnvAction::Add { name } => out.save && says(out, "Environment created."@)
                && final(data).environments@.len() == old(data).environments@.len() + 1
                && final(data).environments@.drop_last() == old(data).environments@
                && final(data).environments@.last().name@ == name@
                && final(data).environments@.last().variables@.len() == 0,
            EnvAction::SetVar { env, key, value } => match find_env_named_from(old(data).environments@, env@, 0) {
                None => !out.save && says(out, "Environment not found."@) && *final(data) == *old(data),
                Some(ei) => {
                    let e0 = old(data).environments@[ei as int];
                    let e1 = final(data).environments@[ei as int];
                    &&& out.save
                    &&& says(out, "Variable set."@)
                    &&& final(data).environments@.len() == old(data).environments@.len()
                    &&& forall|j: int|
                        0 <= j < old(data).environments@.len() && j != ei ==> #[trigger] final(data).environments@[j]
                            == old(data).environments@[j]
                    &&& e1 == (Environment { variables: e1.variables, ..e0 })
                    &&& e1.variables.deep_view() == set_var(e0.variables.deep_view(), key@, value@)
                },
            },
            EnvAction::Remove { name } => final(data).environments@ == without_named_envs(
                old(data).environments@,
                name@,
            ) && if final(data).environments@.len() < old(data).environments@.len() {
                out.save && says(out, "Environment removed."@)
            } else {
                !out.save && says(out, "Environment not found."@)
            },
        },
{
    match action {
        EnvAction::List => {
            if data.environments.len() == 0 {
                return one_line("No environments found.", false);
            }
            let mut lines: Vec<String> = Vec::new();
            let mut i: usize = 0;
            while i < data.environments.len()
                invariant
                    i <= data.environments.len(),
                    *data == *old(data),
                    lines.deep_view() == data.environments@.take(i as int).map_values(
                        |e: Environment| env_line(e, data.active_env_id),
                    ),
                decreases data.environments.len() - i,
            {
                let e = &data.environments[i];
                let active = match &data.active_env_id {
                    Some(id) => str_eq(id.as_str(), e.id.as_str()),
                    None => false,
                };
                let mut line = if active {
                    copy_str("*")
                } else {
                    copy_str(" ")
                };
                push_str(&mut line, " ");
                push_str(&mut line, e.id.as_str());
                push_str(&mut line, " - ");
                push_str(&mut line, e.name.as_str());
                push_str(&mut line, " (");
                push_decimal(&mut line, e.variables.len() as u128);
                push_str(&mut line, " vars)");
                let ghost l0 = lines;
                lines.push(line);
                proof {
                    crate::text::lemma_deep_view_push(l0, lines, line);
                    assert(data.environments@.take(i + 1).map_values(|e: Environment| env_line(e, data.active_env_id))
                        =~= data.environments@.take(i as int).map_values(
                        |e: Environment| env_line(e, data.active_env_id),
                    ).push(env_line(data.environments@[i as int], data.active_env_id)));
                }
                i = i + 1;
            }
            assert(data.environments@.take(i as int) =~= data.environments@);
            CliOutput { lines, save: false }
        },
        EnvAction::Add { name } => {
            let ghost e0 = data.environments@;
            let env = Environment::new(name.as_str());
            data.environments.push(env);
            assert(data.environments@.drop_last() =~= e0);
            proof {
                assert(env.variables.deep_view() =~= Seq::<(Seq<char>, Seq<char>)>::empty());
                assert forall|i: int| 0 <= i < data.environments@.len() implies distinct_names(
                    #[trigger] data.environments@[i].variables.deep_view(),
                ) by {
                    if i < e0.len() {
                        assert(data.environments@[i] == e0[i]);
                    }
                }
            }
            one_line("Environment created.", true)
        },
        EnvAction::SetVar { env, key, value } => match find_env(&data.environments, env.as_str()) {
            None => one_line("Environment not found.", false),
            Some(ei) => {
                let ghost envs0 = data.environments@;
                let mut e = data.environments.remove(ei);
                assert(envs0[ei as int] == e);
                set_var_exec(&mut e.variables, key.as_str(), value.as_str());
                data.environments.insert(ei, e);
                proof {
                    assert forall|j: int| 0 <= j < envs0.len() && j != ei implies #[trigger] data.environments@[j]
                        == envs0[j] by {
                        if j < ei {
                        } else {
                        }
                    }
                    assert forall|i: int| 0 <= i < data.environments@.len() implies distinct_names(
                        #[trigger] data.environments@[i].variables.deep_view(),
                    ) by {
                        if i != ei {
                            assert(data.environments@[i] == envs0[i]);
                        }
                    }
                }
                one_line("Variable set.", true)
            },
        },
        EnvAction::Remove { name } => {
            let before = data.environments.len();
            let ghost envs0 = data.environments@;
            remove_named_envs(&mut data.environments, name.as_str());
            proof {
                lemma_without_named_envs_sub(envs0, name@);
            }
            if data.environments.len() < before {
                one_line("Environment removed.", true)
            } else {
                one_line("Environment not found.", false)
            }
        },
    }
}

/// Every environment left after a removal was there before.
proof fn lemma_without_named_envs_sub(envs: Seq<Environment>, key: Seq<char>)
    ensures
        forall|i: int|
            0 <= i < without_named_envs(envs, key).len() ==> envs.contains(
                #[trigger] without_named_envs(envs, key)[i],
            ),
    decreases envs.len(),
{
    if envs.len() > 0 {
        lemma_without_named_envs_sub(envs.drop_last(), key);
        let rest = without_named_envs(envs.drop_last(), key);
        assert forall|i: int| 0 <= i < without_named_envs(envs, key).len() implies envs.contains(
            #[trigger] without_named_envs(envs, key)[i],
        ) by {
            let x = without_named_envs(envs, key)[i];
            if i < rest.len() {
                assert(rest[i] == x);
                let k = choose|k: int| 0 <= k < envs.drop_last().len() && envs.drop_last()[k] == x;
                assert(envs[k] == x);
            } else {
                assert(envs[envs.len() - 1] == x);
            }
        }
    }
}

/// The line `run` prints for one request, and whether it passed (a status below 400).
pub open spec fn run_line_text(req: RequestView, outcome: Result<u16, Seq<char>>) -> Seq<char> {
    "  "@ + method_name(req.method) + " "@ + req.url + " ... "@ + match outcome {
        Ok(s) => if s < 400 {
            "OK ("@ + decimal(s as nat) + ")"@
        } else {
            "FAIL ("@ + decimal(s as nat) + ")"@
        },
        Err(e) => "ERROR: "@ + e,
    }
}

/// The line `run` prints for one request and whether it passed; `outcome` is the response
/// status or the error.
pub fn run_line(req: &Request, outcome: &Result<u16, String>) -> (r: (String, bool))
    ensures
        r.0@ == run_line_text(req@, match outcome {
            Ok(s) => Ok(*s),
            Err(e) => Err(e@),
        }),
        r.1 == (outcome matches Ok(s) && *s < 400),
{
    let mut line = copy_str("  ");
    let m = req.method.to_string();
    push_str(&mut line, m.as_str());
    push_str(&mut line, " ");
    push_str(&mut line, req.url.as_str());
    push_str(&mut line, " ... ");
    match outcome {
        Ok(s) => {
            let passed = *s < 400;
            push_str(&mut line, if passed { "OK (" } else { "FAIL (" });
            push_decimal(&mut line, *s as u128);
            push_str(&mut line, ")");
            (line, passed)
        },
        Err(e) => {
            push_str(&mut line, "ERROR: ");
            push_str(&mut line, e.as_str());
            (line, false)
        },
    }
}

/// The first line of `run`.
pub fn run_header(col: &Collection) -> (r: String)
    ensures
        r@ == "Running collection: "@ + col.name@ + " ("@ + decimal(col.requests@.len()) + " requests)"@,
{
    let mut r = copy_str("Running collection: ");
    push_str(&mut r, col.name.as_str());
    push_str(&mut r, " (");
    push_decimal(&mut r, col.requests.len() as u128);
    push_str(&mut r, " requests)");
    r
}

/// The last line of `run`: how many requests passed and failed.
pub fn run_summary(passed: usize, failed: usize) -> (r: String)
    ensures
        r@ == "\nResults: "@ + decimal(passed as nat) + " passed, "@ + decimal(failed as nat) + " failed"@,
{
    let mut r = copy_str("\nResults: ");
    push_decimal(&mut r, passed as u128);
    push_str(&mut r, " passed, ");
    push_decimal(&mut r, failed as u128);
    push_str(&mut r, " failed");
    r
}

/// An outcome of sending a request, as plain data: the status, or the error's text.
pub open spec fn outcome_view(o: Result<u16, String>) -> Result<u16, Seq<char>> {
    match o {
        Ok(s) => Ok(s),
        Err(e) => Err(e@),
    }
}

/// How many of the outcomes passed: a status below 400.
pub open spec fn passed_count(os: Seq<Result<u16, Seq<char>>>) -> nat
    decreases os.len(),
{
    if os.len() == 0 {
        0
    } else {
        passed_count(os.drop_last()) + if os.last() matches Ok(s) && s < 400 {
            1nat
        } else {
            0nat
        }
    }
}

/// A prefix of the outcomes has no more passes than its length.
proof fn lemma_passed_count_bound(os: Seq<Result<u16, Seq<char>>>)
    ensures
        passed_count(os) <= os.len(),
    decreases os.len(),
{
    if os.len() > 0 {
        lemma_passed_count_bound(os.drop_last());
    }
}

/// The text `run` prints for a collection whose requests had the given outcomes: the header,
/// one line per request, then the tally of passed (status below 400) and failed requests.
pub open spec fn run_report_text(col: Collection, os: Seq<Result<u16, Seq<char>>>) -> Seq<Seq<char>> {
    let n = col.requests@.len();
    let p = passed_count(os);
    seq!["Running collection: "@ + col.name@ + " ("@ + decimal(n) + " requests)"@]
        + Seq::new(n, |i: int| run_line_text(col.requests@[i]@, os[i]))
        + seq!["\nResults: "@ + decimal(p) + " passed, "@ + decimal((n - p) as nat) + " failed"@]
}

/// The lines `run` prints, given the outcome of sending each request of the collection.
pub fn run_report(col: &Collection, outcomes: &Vec<Result<u16, String>>) -> (lines: Vec<String>)
    requires
        outcomes@.len() == col.requests@.len(),
    ensures
        lines@.map_values(|l: String| l@) == run_report_text(
            *col,
            outcomes@.map_values(|o: Result<u16, String>| outcome_view(o)),
        ),
{
    let ghost os = outcomes@.map_values(|o: Result<u16, String>| outcome_view(o));
    let mut lines: Vec<String> = Vec::new();
    lines.push(run_header(col));
    let mut passed: usize = 0;
    let mut i: usize = 0;
    while i < col.requests.len()
        invariant
            i <= col.requests@.len(),
            outcomes@.len() == col.requests@.len(),
            os == outcomes@.map_values(|o: Result<u16, String>| outcome_view(o)),
            passed == passed_count(os.take(i as int)),
            passed <= i,
            lines@.len() == i + 1,
            lines@[0]@ == "Running collection: "@ + col.name@ + " ("@ + decimal(col.requests@.len()) + " requests)"@,
            forall|j: int| 0 <= j < i ==> (#[trigger] lines@[j + 1])@ == run_line_text(col.requests@[j]@, os[j]),
        decreases col.requests.len() - i,
    {
        let (line, ok) = run_line(&col.requests[i], &outcomes[i]);
        proof {
            assert(os.take(i + 1).drop_last() =~= os.take(i as int));
            assert(os.take(i + 1).last() == os[i as int]);
        }
        if ok {
            passed = passed + 1;
        }
        lines.push(line);
        i = i + 1;
    }
    assert(os.take(i as int) =~= os);
    proof {
        lemma_passed_count_bound(os);
    }
    lines.push(run_summary(passed, col.requests.len() - passed));
    let ghost want = run_report_text(*col, os);
    let ghost got = lines@.map_values(|l: String| l@);
    assert(got =~= want) by {
        assert forall|k: int| 0 <= k < want.len() implies #[trigger] got[k] == want[k] by {
            if 1 <= k <= col.requests@.len() {
                assert(lines@[(k - 1) + 1] == lines@[k]);
            }
        }
    }
    lines
}

/// Removes every collection named `key` (by name or id), keeping the order of the others.
fn remove_named_collections(cols: &mut Vec<Collection>, key: &str)
    ensures
        final(cols)@ == without_named_collections(old(cols)@, key@),
{
    let ghost all = cols@;
    let mut taken: Vec<Collection> = Vec::new();
    std::mem::swap(&mut taken, cols);
    let mut kept: Vec<Collection> = Vec::new();
    let ghost mut done: int = 0;
    assert(all.take(0) =~= Seq::<Collection>::empty());
    assert(all.skip(0) =~= all);
    while taken.len() > 0
        invariant
            0 <= done <= all.len(),
            taken@ == all.skip(done),
            kept@ == without_named_collections(all.take(done), key@),
        decreases taken.len(),
    {
        let c = taken.remove(0);
        proof {
            assert(all.take(done + 1).drop_last() =~= all.take(done));
            assert(all[done] == c);
            assert(taken@ =~= all.skip(done + 1));
        }
        if !(str_eq(c.name.as_str(), key) || str_eq(c.id.as_str(), key)) {
            kept.push(c);
        }
        proof {
            done = done + 1;
        }
    }
    assert(all.take(done) =~= all);
    *cols = kept;
}

/// Removes every environment named `key` (by name or id), keeping the order of the others.
fn remove_named_envs(envs: &mut Vec<Environment>, key: &str)
    ensures
        final(envs)@ == without_named_envs(old(envs)@, key@),
{
    let ghost all = envs@;
    let mut taken: Vec<Environment> = Vec::new();
    std::mem::swap(&mut taken, envs);
    let mut kept: Vec<Environment> = Vec::new();
    let ghost mut done: int = 0;
    assert(all.take(0) =~= Seq::<Environment>::empty());
    assert(all.skip(0) =~= all);
    while taken.len() > 0
        invariant
            0 <= done <= all.len(),
            taken@ == all.skip(done),
            kept@ == without_named_envs(all.take(done), key@),
        decreases taken.len(),
    {
        let e = taken.remove(0);
        proof {
            assert(all.take(done + 1).drop_last() =~= all.take(done));
            assert(all[done] == e);
            assert(taken@ =~= all.skip(done + 1));
        }
        if !(str_eq(e.name.as_str(), key) || str_eq(e.id.as_str(), key)) {
            kept.push(e);
        }
        proof {
            done = done + 1;
        }
    }
    assert(all.take(done) =~= all);
    *envs = kept;
}

} // verus!
