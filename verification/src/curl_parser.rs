//! Turning a `curl` command line into a request.
//!
//! Supported flags: `-X`/`--request` (method), `-H`/`--header` (a header, repeatable),
//! `-d`/`--data`/`--data-raw` (a JSON body); the URL is the first argument that starts
//! with `http://` or `https://`; other arguments are skipped.
use vstd::prelude::*;

use crate::models::{
    empty_request, method_name, Auth, BodyType, HttpMethod, KeyValue, KeyValueView, Request,
    RequestView,
};
use crate::outside::new_uuid;
use crate::text::{
    chars_of, copy_str, has_prefix, index_of, index_of_from, push_char, push_str, str_eq,
    str_starts_with, str_trim, string_of_range, to_uppercase, spec_to_uppercase, trim, trim_bounds,
};

verus! {

/// Why a curl command could not be read.
#[derive(Debug, Clone, Copy, PartialEq, Eq, Structural)]
pub enum CurlError {
    /// The command holds no token at all.
    EmptyCommand,
    /// The first token is not `curl`.
    NotCurl,
    /// `-X`/`--request` is the last token.
    MissingMethod,
    /// `-H`/`--header` is the last token.
    MissingHeader,
    /// `-d`/`--data`/`--data-raw` is the last token.
    MissingData,
    /// The method given with `-X` is not one of the seven known methods.
    UnknownMethod,
    /// No argument starts with `http://` or `https://`.
    NoUrl,
    /// A single quote is never closed.
    UnclosedSingleQuote,
    /// A double quote is never closed.
    UnclosedDoubleQuote,
}

impl CurlError {
    /// A description of the error.
    pub fn message(&self) -> (r: String)
        ensures
            r@.len() > 0,
    {
        let r = match self {
            CurlError::EmptyCommand => copy_str("Empty curl command"),
            CurlError::NotCurl => copy_str("Expected 'curl' as the first token"),
            CurlError::MissingMethod => copy_str("Missing value for method flag"),
            CurlError::MissingHeader => copy_str("Missing value for header flag"),
            CurlError::MissingData => copy_str("Missing value for data flag"),
            CurlError::UnknownMethod => copy_str("Unknown HTTP method"),
            CurlError::NoUrl => copy_str("No URL found in curl command"),
            CurlError::UnclosedSingleQuote => copy_str("Unclosed single quote in curl command"),
            CurlError::UnclosedDoubleQuote => copy_str("Unclosed double quote in curl command"),
        };
        proof {
            reveal_strlit("Empty curl command");
            reveal_strlit("Expected 'curl' as the first token");
            reveal_strlit("Missing value for method flag");
            reveal_strlit("Missing value for header flag");
            reveal_strlit("Missing value for data flag");
            reveal_strlit("Unknown HTTP method");
            reveal_strlit("No URL found in curl command");
            reveal_strlit("Unclosed single quote in curl command");
            reveal_strlit("Unclosed double quote in curl command");
        }
        r
    }
}

/// The state of the tokenizer: the finished tokens, the token being read, and whether a
/// single or a double quote is open.
pub struct TokState {
    pub tokens: Seq<Seq<char>>,
    pub current: Seq<char>,
    pub in_single: bool,
    pub in_double: bool,
}

/// The tokenizer state once the token being read, if it is not empty, is finished.
pub open spec fn flush(st: TokState) -> TokState {
    if st.current.len() > 0 {
        TokState { tokens: st.tokens.push(st.current), current: Seq::empty(), ..st }
    } else {
        st
    }
}

/// Separators between tokens outside quotes.
pub open spec fn is_separator(c: char) -> bool {
    c == ' ' || c == '\t' || c == '\n'
}

/// The tokenizer run over `s` from position `i`: a single quote (outside double quotes) and a
/// double quote (outside single quotes) toggle quoting and are dropped; a backslash (outside
/// single quotes) is dropped and keeps the next character whatever it is; a space, tab or
/// newline outside quotes ends the token; any other character is kept.
pub open spec fn tok_run(s: Seq<char>, i: int, st: TokState) -> TokState
    decreases s.len() - i,
{
    if i < 0 || i >= s.len() {
        st
    } else {
        let c = s[i];
        if c == '\'' && !st.in_double {
            tok_run(s, i + 1, TokState { in_single: !st.in_single, ..st })
        } else if c == '"' && !st.in_single {
            tok_run(s, i + 1, TokState { in_double: !st.in_double, ..st })
        } else if c == '\\' && !st.in_single {
            if i + 1 < s.len() {
                tok_run(s, i + 2, TokState { current: st.current.push(s[i + 1]), ..st })
            } else {
                tok_run(s, i + 1, st)
            }
        } else if is_separator(c) && !st.in_single && !st.in_double {
            tok_run(s, i + 1, flush(st))
        } else {
            tok_run(s, i + 1, TokState { current: st.current.push(c), ..st })
        }
    }
}

/// The tokenizer's starting state.
pub open spec fn tok_start() -> TokState {
    TokState { tokens: Seq::empty(), current: Seq::empty(), in_single: false, in_double: false }
}

/// The tokens of a command line (trimmed first), or the quote left open.
pub open spec fn tokens_of(input: Seq<char>) -> Result<Seq<Seq<char>>, CurlError> {
    let st = tok_run(trim(input), 0, tok_start());
    if st.in_single {
        Err(CurlError::UnclosedSingleQuote)
    } else if st.in_double {
        Err(CurlError::UnclosedDoubleQuote)
    } else {
        Ok(flush(st).tokens)
    }
}

/// Splits a command line into tokens, honouring single and double quotes and backslashes.
pub fn tokenize(input: &str) -> (r: Result<Vec<String>, CurlError>)
    ensures
        match tokens_of(input@) {
            Ok(ts) => r matches Ok(v) && v.deep_view() == ts,
            Err(e) => r == Err::<Vec<String>, CurlError>(e),
        },
{
    let trimmed = str_trim(input);
    let s = chars_of(trimmed.as_str());
    let mut tokens: Vec<String> = Vec::new();
    let mut current = String::new();
    let mut in_single = false;
    let mut in_double = false;
    let mut i: usize = 0;
    assert(tokens.deep_view() =~= Seq::<Seq<char>>::empty());
    while i < s.len()
        invariant
            i <= s.len(),
            s@ == trim(input@),
            tok_run(s@, 0, tok_start()) == tok_run(
                s@,
                i as int,
                TokState {
                    tokens: tokens.deep_view(),
                    current: current@,
                    in_single: in_single,
                    in_double: in_double,
                },
            ),
        decreases s.len() - i,
    {
        let c = s[i];
        if c == '\'' && !in_double {
            in_single = !in_single;
            i = i + 1;
        } else if c == '"' && !in_single {
            in_double = !in_double;
            i = i + 1;
        } else if c == '\\' && !in_single {
            if i + 1 < s.len() {
                push_char(&mut current, s[i + 1]);
                i = i + 2;
            } else {
                i = i + 1;
            }
        } else if (c == ' ' || c == '\t' || c == '\n') && !in_single && !in_double {
            if !current.as_str().is_empty() {
                let ghost t0 = tokens;
                tokens.push(current);
                proof {
                    crate::text::lemma_deep_view_push(t0, tokens, current);
                }
                current = String::new();
            }
            i = i + 1;
        } else {
            push_char(&mut current, c);
            i = i + 1;
        }
    }
    if in_single {
        return Err(CurlError::UnclosedSingleQuote);
    }
    if in_double {
        return Err(CurlError::UnclosedDoubleQuote);
    }
    if !current.as_str().is_empty() {
        let ghost t0 = tokens;
        tokens.push(current);
        proof {
            crate::text::lemma_deep_view_push(t0, tokens, current);
        }
    }
    Ok(tokens)
}

/// The method whose name is exactly `u`.
pub open spec fn method_named(u: Seq<char>) -> Option<HttpMethod> {
    if u == "GET"@ {
        Some(HttpMethod::GET)
    } else if u == "POST"@ {
        Some(HttpMethod::POST)
    } else if u == "PUT"@ {
        Some(HttpMethod::PUT)
    } else if u == "DELETE"@ {
        Some(HttpMethod::DELETE)
    } else if u == "PATCH"@ {
        Some(HttpMethod::PATCH)
    } else if u == "HEAD"@ {
        Some(HttpMethod::HEAD)
    } else if u == "OPTIONS"@ {
        Some(HttpMethod::OPTIONS)
    } else {
        None
    }
}

/// The method whose name, in capitals, is `upper`.
pub fn method_from_upper(upper: &str) -> (r: Option<HttpMethod>)
    ensures
        r == method_named(upper@),
{
    if str_eq(upper, "GET") {
        Some(HttpMethod::GET)
    } else if str_eq(upper, "POST") {
        Some(HttpMethod::POST)
    } else if str_eq(upper, "PUT") {
        Some(HttpMethod::PUT)
    } else if str_eq(upper, "DELETE") {
        Some(HttpMethod::DELETE)
    } else if str_eq(upper, "PATCH") {
        Some(HttpMethod::PATCH)
    } else if str_eq(upper, "HEAD") {
        Some(HttpMethod::HEAD)
    } else if str_eq(upper, "OPTIONS") {
        Some(HttpMethod::OPTIONS)
    } else {
        None
    }
}

/// The method a `-X` value names, compared after upper-casing.
pub open spec fn curl_method(s: Seq<char>) -> Result<HttpMethod, CurlError> {
    match method_named(spec_to_uppercase(s)) {
        Some(m) => Ok(m),
        None => Err(CurlError::UnknownMethod),
    }
}

/// Reads a `-X` value: the method it names, case-insensitively.
pub fn parse_method(s: &str) -> (r: Result<HttpMethod, CurlError>)
    ensures
        r == curl_method(s@),
{
    let upper = to_uppercase(s);
    match method_from_upper(upper.as_str()) {
        Some(m) => Ok(m),
        None => Err(CurlError::UnknownMethod),
    }
}

/// A header line split at its first colon into a trimmed name and a trimmed value; a line
/// without a colon is all name, with an empty value.
pub open spec fn header_parts(s: Seq<char>) -> (Seq<char>, Seq<char>) {
    match index_of(s, ':') {
        Some(p) => (trim(s.take(p)), trim(s.skip(p + 1))),
        None => (s, Seq::empty()),
    }
}

/// Splits a `-H` value into a header name and value.
pub fn parse_header_value(s: &str) -> (r: (String, String))
    ensures
        (r.0@, r.1@) == header_parts(s@),
{
    let v = chars_of(s);
    match index_of_from(&v, ':', 0) {
        Some(p) => {
            proof {
                crate::text::lemma_find_from_spec(v@, seq![':'], 0);
            }
            let (ka, kb) = trim_bounds(&v, 0, p);
            let (va, vb) = trim_bounds(&v, p + 1, v.len());
            proof {
                assert(v@.subrange(0, p as int) =~= v@.take(p as int));
                assert(v@.subrange(p + 1, v@.len() as int) =~= v@.skip(p + 1));
            }
            (string_of_range(&v, ka, kb), string_of_range(&v, va, vb))
        },
        None => (copy_str(s), String::new()),
    }
}

/// What the arguments after `curl` say: the method given with `-X`, the URL, the headers,
/// the body and its type.
pub struct CurlArgs {
    pub method: Option<HttpMethod>,
    pub url: Option<Seq<char>>,
    pub headers: Seq<KeyValueView>,
    pub body: Seq<char>,
    pub body_type: BodyType,
}

/// Nothing read yet.
pub open spec fn curl_args_start() -> CurlArgs {
    CurlArgs {
        method: None,
        url: None,
        headers: Seq::empty(),
        body: Seq::empty(),
        body_type: BodyType::NoBody,
    }
}

/// A token is one of the method flags.
pub open spec fn is_method_flag(t: Seq<char>) -> bool {
    t == "-X"@ || t == "--request"@
}

/// A token is one of the header flags.
pub open spec fn is_header_flag(t: Seq<char>) -> bool {
    t == "-H"@ || t == "--header"@
}

/// A token is one of the data flags.
pub open spec fn is_data_flag(t: Seq<char>) -> bool {
    t == "-d"@ || t == "--data"@ || t == "--data-raw"@
}

/// A token is taken for the URL.
pub open spec fn is_url(t: Seq<char>) -> bool {
    has_prefix(t, "http://"@) || has_prefix(t, "https://"@)
}

/// Reads the arguments `ts[i..]` into `st`: each flag takes the token after it; a later
/// method or body replaces an earlier one; the URL is the first positional argument that is
/// one; headers accumulate.
pub open spec fn curl_args(ts: Seq<Seq<char>>, i: int, st: CurlArgs) -> Result<CurlArgs, CurlError>
    decreases ts.len() - i,
{
    if i < 0 || i >= ts.len() {
        Ok(st)
    } else {
        let t = ts[i];
        if is_method_flag(t) {
            if i + 1 >= ts.len() {
                Err(CurlError::MissingMethod)
            } else {
                match curl_method(ts[i + 1]) {
                    Err(e) => Err(e),
                    Ok(m) => curl_args(ts, i + 2, CurlArgs { method: Some(m), ..st }),
                }
            }
        } else if is_header_flag(t) {
            if i + 1 >= ts.len() {
                Err(CurlError::MissingHeader)
            } else {
                let (k, v) = header_parts(ts[i + 1]);
                curl_args(
                    ts,
                    i + 2,
                    CurlArgs {
                        headers: st.headers.push(KeyValueView { key: k, value: v, enabled: true }),
                        ..st
                    },
                )
            }
        } else if is_data_flag(t) {
            if i + 1 >= ts.len() {
                Err(CurlError::MissingData)
            } else {
                curl_args(ts, i + 2, CurlArgs { body: ts[i + 1], body_type: BodyType::Json, ..st })
            }
        } else if is_url(t) {
            if st.url is None {
                curl_args(ts, i + 1, CurlArgs { url: Some(t), ..st })
            } else {
                curl_args(ts, i + 1, st)
            }
        } else {
            curl_args(ts, i + 1, st)
        }
    }
}

/// The request a curl command describes, but for its id: the method given, else `POST` when
/// there is a body and `GET` when there is none; the name is the method and the URL.
pub open spec fn curl_request(input: Seq<char>) -> Result<RequestView, CurlError> {
    match tokens_of(input) {
        Err(e) => Err(e),
        Ok(ts) => if ts.len() == 0 {
            Err(CurlError::EmptyCommand)
        } else if ts[0] != "curl"@ {
            Err(CurlError::NotCurl)
        } else {
            match curl_args(ts, 1, curl_args_start()) {
                Err(e) => Err(e),
                Ok(a) => match a.url {
                    None => Err(CurlError::NoUrl),
                    Some(url) => {
                        let m = match a.method {
                            Some(m) => m,
                            None => if a.body.len() == 0 {
                                HttpMethod::GET
                            } else {
                                HttpMethod::POST
                            },
                        };
                        Ok(
                            RequestView {
                                name: method_name(m) + " "@ + url,
                                method: m,
                                url: url,
                                headers: a.headers,
                                body: a.body,
                                body_type: a.body_type,
                                ..empty_request()
                            },
                        )
                    },
                },
            }
        },
    }
}

/// Parses a curl command into a request with a fresh id.
pub fn parse_curl(input: &str) -> (r: Result<Request, CurlError>)
    ensures
        match curl_request(input@) {
            Ok(q) => r matches Ok(req) && req@ == (RequestView { id: req@.id, ..q })
                && req@.id.len() == 36,
            Err(e) => r matches Err(e2) && e2 == e,
        },
{
    let args = match tokenize(input) {
        Err(e) => {
            return Err(e);
        },
        Ok(a) => a,
    };
    if args.len() == 0 {
        return Err(CurlError::EmptyCommand);
    }
    proof {
        reveal_strlit("curl");
    }
    if !str_eq(args[0].as_str(), "curl") {
        return Err(CurlError::NotCurl);
    }
    let ghost ts = args.deep_view();
    let mut method: Option<HttpMethod> = None;
    let mut url: Option<String> = None;
    let mut headers: Vec<KeyValue> = Vec::new();
    let mut body = String::new();
    let mut body_type = BodyType::NoBody;
    let mut i: usize = 1;
    assert(headers.deep_view() =~= Seq::<KeyValueView>::empty());
    while i < args.len()
        invariant
            1 <= i <= args.len(),
            ts == args.deep_view(),
            tokens_of(input@) == Ok::<Seq<Seq<char>>, CurlError>(ts),
            ts.len() > 0,
            ts[0] == "curl"@,
            curl_args(ts, 1, curl_args_start()) == curl_args(
                ts,
                i as int,
                CurlArgs {
                    method: method,
                    url: crate::models::opt_view(url),
                    headers: headers.deep_view(),
                    body: body@,
                    body_type: body_type,
                },
            ),
        decreases args.len() - i,
    {
        let a = args[i].as_str();
        assert(a@ == ts[i as int]);
        if str_eq(a, "-X") || str_eq(a, "--request") {
            if i + 1 >= args.len() {
                return Err(CurlError::MissingMethod);
            }
            match parse_method(args[i + 1].as_str()) {
                Err(e) => {
                    return Err(e);
                },
                Ok(m) => {
                    method = Some(m);
                },
            }
            i = i + 2;
        } else if str_eq(a, "-H") || str_eq(a, "--header") {
            if i + 1 >= args.len() {
                return Err(CurlError::MissingHeader);
            }
            let (key, value) = parse_header_value(args[i + 1].as_str());
            let kv = KeyValue { key, value, enabled: true };
            let ghost h0 = headers;
            headers.push(kv);
            proof {
                crate::text::lemma_deep_view_push(h0, headers, kv);
            }
            i = i + 2;
        } else if str_eq(a, "-d") || str_eq(a, "--data") || str_eq(a, "--data-raw") {
            if i + 1 >= args.len() {
                return Err(CurlError::MissingData);
            }
            body = args[i + 1].clone();
            body_type = BodyType::Json;
            i = i + 2;
        } else if str_starts_with(a, "http://") || str_starts_with(a, "https://") {
            if url.is_none() {
                url = Some(args[i].clone());
            }
            i = i + 1;
        } else {
            i = i + 1;
        }
    }
    let url = match url {
        None => {
            return Err(CurlError::NoUrl);
        },
        Some(u) => u,
    };
    let method = match method {
        Some(m) => m,
        None => if body.as_str().is_empty() {
            HttpMethod::GET
        } else {
            HttpMethod::POST
        },
    };
    let mut name = method.to_string();
    push_str(&mut name, " ");
    push_str(&mut name, url.as_str());
    let req = Request {
        id: new_uuid(),
        name,
        method,
        url,
        headers,
        params: Vec::new(),
        body,
        body_type,
        auth: Auth::NoAuth,
        graphql_query: None,
        graphql_variables: None,
        form_data: Vec::new(),
        notes: String::new(),
    };
    assert(req.params.deep_view() =~= Seq::empty());
    assert(req.form_data.deep_view() =~= Seq::empty());
    Ok(req)
}

/// Each data flag (`-d`, `--data`, `--data-raw`) takes the token after it as the body, of
/// type JSON, and reading goes on after that token: the three flags are read alike.
pub proof fn law_data_flags_read_alike(ts: Seq<Seq<char>>, i: int, st: CurlArgs)
    requires
        0 <= i,
        i + 1 < ts.len(),
        ts[i] == "-d"@ || ts[i] == "--data"@ || ts[i] == "--data-raw"@,
    ensures
        curl_args(ts, i, st) == curl_args(
            ts,
            i + 2,
            CurlArgs { body: ts[i + 1], body_type: BodyType::Json, ..st },
        ),
{
    reveal_strlit("-d");
    reveal_strlit("--data");
    reveal_strlit("--data-raw");
    reveal_strlit("-X");
    reveal_strlit("--request");
    reveal_strlit("-H");
    reveal_strlit("--header");
    assert(ts[i][1] != ("-X"@)[1] || ts[i].len() != 2);
    assert(ts[i][1] != ("-H"@)[1] || ts[i].len() != 2);
    assert(ts[i].len() != ("--request"@).len() && ts[i].len() != ("--header"@).len());
    assert(!is_method_flag(ts[i]));
    assert(!is_header_flag(ts[i]));
}

/// `curl <url> <flag> <d>`, with `<flag>` any of `-d`, `--data`, `--data-raw` and `<d>` not
/// empty, is a `POST` to the URL whose body is `<d>`, of type JSON.
pub proof fn law_curl_data_command(input: Seq<char>, url: Seq<char>, flag: Seq<char>, d: Seq<char>)
    requires
        flag == "-d"@ || flag == "--data"@ || flag == "--data-raw"@,
        tokens_of(input) == Ok::<Seq<Seq<char>>, CurlError>(seq!["curl"@, url, flag, d]),
        has_prefix(url, "http://"@) || has_prefix(url, "https://"@),
        d.len() > 0,
    ensures
        curl_request(input) matches Ok(q) && q.body == d && q.body_type == BodyType::Json
            && q.method == HttpMethod::POST && q.url == url && q.headers.len() == 0,
{
    let ts = seq!["curl"@, url, flag, d];
    reveal_strlit("http://");
    reveal_strlit("https://");
    reveal_strlit("-X");
    reveal_strlit("--request");
    reveal_strlit("-H");
    reveal_strlit("--header");
    reveal_strlit("-d");
    reveal_strlit("--data");
    reveal_strlit("--data-raw");
    assert(url.len() >= 7);
    assert(url.len() != ("-X"@).len() && url.len() != ("-H"@).len() && url.len() != ("-d"@).len());
    assert(url[0] == 'h') by {
        if has_prefix(url, "http://"@) {
            assert(url.take(7)[0] == url[0]);
        } else {
            assert(url.take(8)[0] == url[0]);
        }
    }
    assert(url[0] != ("--request"@)[0] && url[0] != ("--header"@)[0]);
    assert(url[0] != ("--data"@)[0] && url[0] != ("--data-raw"@)[0]);
    assert(!is_method_flag(url));
    assert(!is_header_flag(url));
    assert(!is_data_flag(url));
    assert(is_url(url));
    let st1 = CurlArgs { url: Some(url), ..curl_args_start() };
    assert(curl_args(ts, 1, curl_args_start()) == curl_args(ts, 2, st1));
    law_data_flags_read_alike(ts, 2, st1);
    let st2 = CurlArgs { body: d, body_type: BodyType::Json, ..st1 };
    assert(curl_args(ts, 4, st2) == Ok::<CurlArgs, CurlError>(st2));
}

} // verus!
