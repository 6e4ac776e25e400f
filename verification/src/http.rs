//! The HTTP tool's decisions: what request a call asks for, what the egress
//! gate and the credential resolver make of it, and how a response is
//! reported.
//!
//! The egress gate's verdict on the URL's host and the token the resolver
//! finds for a named credential are inputs: a refused host is never
//! contacted, a credential that is named but not resolved refuses the call
//! (fail-closed), and an `Authorization` header the caller set is never
//! overridden.

use vstd::prelude::*;

use crate::schema::{
    enum_default_prop, enum_default_property, int_prop, integer_property, member, object_schema, object_schema_of, props_view, string_map_prop, string_map_property, typed_prop, typed_property, untyped_prop, untyped_property,
};
use crate::json::{json_as_u64, json_clone, json_get, json_view, JsonValue, JsonView};
use crate::text::{
    chars_eq, chars_eq_ignore_ascii_case, chars_of, decimal, eq_ignore_ascii_case, extend_str,
    push_decimal, string_of, to_uppercase, uppercase,
};
use crate::tools::{string_arg, string_arg_or, ToolResult};
use crate::track0::{BlastRadius, OutputTrust, RiskClass};

verus! {

broadcast use vstd::string::group_string_axioms;

/// Make HTTP requests (GET, POST, PUT, DELETE, PATCH).
#[derive(Debug, Clone, Copy, PartialEq, Eq)]
pub struct HttpTool;

/// A request body.
#[derive(Debug, PartialEq)]
pub enum HttpBody {
    /// Sent as it is.
    Text(String),
    /// Sent as JSON.
    Json(JsonValue),
}

/// A request to send.
#[derive(Debug, PartialEq)]
pub struct HttpPlan {
    /// The method, uppercase.
    pub method: String,
    pub url: String,
    /// The caller's headers with string values, in order.
    pub headers: Vec<(String, String)>,
    /// A bearer token to authenticate with.
    pub bearer: Option<String>,
    pub body: Option<HttpBody>,
    /// Between 1 and 120 seconds.
    pub timeout_secs: u64,
}

/// What becomes of a call.
#[derive(Debug, PartialEq)]
pub enum HttpOutcome {
    /// Send this request.
    Send(HttpPlan),
    /// Answer with this result without sending anything.
    Refuse(ToolResult),
}

/// The members of the `headers` object of a call (none when absent or not an
/// object).
pub open spec fn header_members(args: JsonValue) -> Seq<(String, JsonValue)> {
    match json_get(args, "headers"@) {
        Some(JsonValue::Object(h)) => h@,
        _ => seq![],
    }
}

/// Whether the caller set an `Authorization` header (any case).
pub open spec fn sets_authorization(args: JsonValue) -> bool {
    exists|k: int|
        0 <= k < header_members(args).len() && eq_ignore_ascii_case(
            (#[trigger] header_members(args)[k]).0@,
            "authorization"@,
        )
}

/// The headers among `h[..n]` with string values, in order.
pub open spec fn string_headers(h: Seq<(String, JsonValue)>, n: int) -> Seq<(Seq<char>, Seq<char>)>
    decreases n,
{
    if n <= 0 || n > h.len() {
        seq![]
    } else {
        match h[n - 1].1 {
            JsonValue::String(v) => string_headers(h, n - 1).push((h[n - 1].0@, v@)),
            _ => string_headers(h, n - 1),
        }
    }
}

/// The request timeout: `timeout_secs` when an unsigned integer, else 30,
/// clamped to 1..=120.
pub open spec fn timeout_of(args: JsonValue) -> u64 {
    let t = match json_get(args, "timeout_secs"@) {
        Some(v) => match json_as_u64(v) {
            Some(n) => n,
            None => 30,
        },
        None => 30,
    };
    if t < 1 {
        1
    } else if t > 120 {
        120
    } else {
        t
    }
}

/// The methods the tool sends.
pub open spec fn supported_method(m: Seq<char>) -> bool {
    m == "GET"@ || m == "POST"@ || m == "PUT"@ || m == "DELETE"@ || m == "PATCH"@
}

/// The content of a body.
pub enum BodyView {
    Text(Seq<char>),
    Json(JsonView),
}

/// The body a call sends: a string as text, an object or array as JSON,
/// nothing otherwise.
pub open spec fn body_of(args: JsonValue) -> Option<BodyView> {
    match json_get(args, "body"@) {
        Some(JsonValue::String(s)) => Some(BodyView::Text(s@)),
        Some(b) => match b {
            JsonValue::Object(_) => Some(BodyView::Json(json_view(b))),
            JsonValue::Array(_) => Some(BodyView::Json(json_view(b))),
            _ => None,
        },
        None => None,
    }
}

pub open spec fn plan_body_view(b: Option<HttpBody>) -> Option<BodyView> {
    match b {
        Some(HttpBody::Text(s)) => Some(BodyView::Text(s@)),
        Some(HttpBody::Json(v)) => Some(BodyView::Json(json_view(v))),
        None => None,
    }
}

/// The refusal when a named credential could not be resolved.
pub open spec fn unresolved_message(name: Seq<char>) -> Seq<char> {
    "conscience: credential '"@ + name
        + "' is required for this host but could not be resolved (not in the vault or environment)"@
}

/// What a call with `args` to `url` comes to, given the egress gate's
/// verdict `reach` (the credential its rule names, or the reason it refuses)
/// and the `token` resolved for that credential: the error message of a
/// refusal, or the request to send as (method, url, headers, bearer, body,
/// timeout).
pub open spec fn http_outcome_spec(
    args: JsonValue,
    url: Seq<char>,
    reach: Result<Option<Seq<char>>, Seq<char>>,
    token: Option<Seq<char>>,
) -> Result<
    (Seq<char>, Seq<char>, Seq<(Seq<char>, Seq<char>)>, Option<Seq<char>>, Option<BodyView>, u64),
    Seq<char>,
> {
    let method = uppercase(string_arg_or(args, "method"@, "GET"@));
    match reach {
        Err(reason) => Err("conscience: "@ + reason),
        Ok(cred) => if !supported_method(method) {
            Err("Unsupported HTTP method: "@ + method)
        } else {
            let headers = string_headers(header_members(args), header_members(args).len() as int);
            let rest = (body_of(args), timeout_of(args));
            match cred {
                Some(name) => if sets_authorization(args) {
                    Ok((method, url, headers, None, rest.0, rest.1))
                } else {
                    match token {
                        Some(t) => Ok((method, url, headers, Some(t), rest.0, rest.1)),
                        None => Err(unresolved_message(name)),
                    }
                },
                None => Ok((method, url, headers, None, rest.0, rest.1)),
            }
        },
    }
}

pub open spec fn opt_chars(o: Option<String>) -> Option<Seq<char>> {
    match o {
        Some(s) => Some(s@),
        None => None,
    }
}

/// The result reporting a response with status `code` (`reason` its
/// canonical phrase, if any) and `body`: a success for 2xx, a failure
/// naming the status otherwise; either way the output shows both.
pub open spec fn response_spec(code: u16, reason: Option<Seq<char>>, body: Seq<char>) -> (bool, Seq<char>, Option<Seq<char>>) {
    let output = "HTTP "@ + decimal(code as nat) + " "@ + match reason {
        Some(r) => r,
        None => ""@,
    } + "\n"@ + body;
    if 200 <= code <= 299 {
        (true, output, None)
    } else {
        (
            false,
            output,
            Some("HTTP error: "@ + decimal(code as nat) + " "@ + match reason {
                Some(r) => r,
                None => "<unknown status code>"@,
            }),
        )
    }
}

fn header_members_of(args: &JsonValue) -> (r: Option<&Vec<(String, JsonValue)>>)
    ensures
        match r {
            Some(h) => h@ == header_members(*args),
            None => header_members(*args) == Seq::<(String, JsonValue)>::empty(),
        },
{
    match args.get("headers") {
        Some(JsonValue::Object(h)) => Some(h),
        _ => None,
    }
}

/// The parameters of [`HttpTool`].
pub open spec fn http_schema() -> JsonView {
    object_schema(
        seq![
            ("body"@, untyped_prop("Optional request body (string or JSON object)."@)),
            ("headers"@, string_map_prop("Optional HTTP headers as key-value pairs."@)),
            ("method"@, enum_default_prop("HTTP method (default: GET)."@, seq!["GET"@, "POST"@, "PUT"@, "DELETE"@, "PATCH"@], "GET"@)),
            ("timeout_secs"@, int_prop("Request timeout in seconds (default: 30, max: 120)."@, 30, 1, 120)),
            ("url"@, typed_prop("string"@, "The URL to request."@)),
        ],
        seq!["url"@],
    )
}

/// The host `reqwest::Url::parse` finds in a URL (`None` when it does not
/// parse, or has no host), as text (named, not stated: the URL grammar is
/// the `url` crate's).
pub uninterp spec fn url_host_of(url: Seq<char>) -> Option<Seq<char>>;

/// Calls `reqwest::Url::parse` and `Url::host_str`. Claims that the host
/// is a function of the URL text, named `url_host_of`.
#[verifier::external_body]
fn parse_host(url: &str) -> (h: Option<String>)
    ensures
        match h {
            Some(x) => url_host_of(url@) == Some(x@),
            None => url_host_of(url@) is None,
        },
{
    reqwest::Url::parse(url).ok().and_then(|u| u.host_str().map(|h| h.to_string()))
}

impl HttpTool {
    /// The host of a URL, as the egress gate and the audit records see it
    /// (empty when the URL does not parse or has no host).
    pub fn host_of(url: &str) -> (h: String)
        ensures
            h@ == match url_host_of(url@) {
                Some(x) => x,
                None => Seq::<char>::empty(),
            },
    {
        match parse_host(url) {
            Some(h) => h,
            None => String::new(),
        }
    }

    pub fn new() -> (t: Self) {
        HttpTool
    }

    pub fn name(&self) -> (s: &'static str)
        ensures
            s@ == "http"@,
    {
        "http"
    }

    pub fn description(&self) -> (s: &'static str)
        ensures
            s@ == "Make an HTTP request to a URL and return the response body. Supports GET, POST, PUT, DELETE, and PATCH methods. Can send JSON bodies and custom headers. Use this to call APIs, fetch web pages, or interact with web services."@,
    {
        "Make an HTTP request to a URL and return the response body. Supports GET, POST, PUT, DELETE, and PATCH methods. Can send JSON bodies and custom headers. Use this to call APIs, fetch web pages, or interact with web services."
    }

    /// The JSON Schema of the tool's parameters (see [`http_schema`]).
    pub fn parameters_schema(&self) -> (v: JsonValue)
        ensures
            json_view(v) == http_schema(),
    {
        let c0: &[&str] = &["GET", "POST", "PUT", "DELETE", "PATCH"];
        let props: Vec<(String, JsonValue)> = vec![
            member("body", untyped_property("Optional request body (string or JSON object).")),
            member("headers", string_map_property("Optional HTTP headers as key-value pairs.")),
            member("method", enum_default_property("HTTP method (default: GET).", c0, "GET")),
            member("timeout_secs", integer_property("Request timeout in seconds (default: 30, max: 120).", 30, 1, 120)),
            member("url", typed_property("string", "The URL to request.")),
        ];
        let required: &[&str] = &["url"];
        assert(c0@.map_values(|n: &str| n@) =~= seq!["GET"@, "POST"@, "PUT"@, "DELETE"@, "PATCH"@]);
        assert(props_view(props@) =~= seq![
            ("body"@, untyped_prop("Optional request body (string or JSON object)."@)),
            ("headers"@, string_map_prop("Optional HTTP headers as key-value pairs."@)),
            ("method"@, enum_default_prop("HTTP method (default: GET)."@, seq!["GET"@, "POST"@, "PUT"@, "DELETE"@, "PATCH"@], "GET"@)),
            ("timeout_secs"@, int_prop("Request timeout in seconds (default: 30, max: 120)."@, 30, 1, 120)),
            ("url"@, typed_prop("string"@, "The URL to request."@)),
        ]);
        assert(required@.map_values(|n: &str| n@) =~= seq!["url"@]);
        object_schema_of(props, required)
    }

    /// Web content comes from outside the trust boundary.
    pub fn output_trust(&self) -> (t: OutputTrust)
        ensures
            t == OutputTrust::External,
    {
        OutputTrust::External
    }

    /// Requests can change remote state: not reversible, a low blast
    /// radius, not physical.
    pub fn risk_class(&self) -> (r: RiskClass)
        ensures
            r == (RiskClass { physical: false, reversible: false, blast: BlastRadius::Low }),
    {
        RiskClass { physical: false, reversible: false, blast: BlastRadius::Low }
    }

    /// Whether the caller already set an `Authorization` header (any case).
    pub fn caller_set_authorization(args: &JsonValue) -> (b: bool)
        ensures
            b == sets_authorization(*args),
    {
        match header_members_of(args) {
            Some(h) => {
                let key = chars_of("authorization");
                let mut i: usize = 0;
                while i < h.len()
                    invariant
                        i <= h.len(),
                        h@ == header_members(*args),
                        key@ == "authorization"@,
                        forall|k: int| 0 <= k < i ==> !eq_ignore_ascii_case((#[trigger] h@[k]).0@, "authorization"@),
                    decreases h.len() - i,
                {
                    if chars_eq_ignore_ascii_case(&chars_of(h[i].0.as_str()), &key) {
                        return true;
                    }
                    i = i + 1;
                }
                false
            },
            None => false,
        }
    }

    /// The URL a call asks for, if any.
    pub fn requested_url(args: &JsonValue) -> (u: Option<String>)
        ensures
            opt_chars(u) == string_arg(*args, "url"@),
    {
        match args.get("url") {
            Some(v) => match v.as_str() {
                Some(s) => Some(s.to_string()),
                None => None,
            },
            None => None,
        }
    }

    /// What a call with `args` to `url` comes to (see [`http_outcome_spec`]).
    pub fn plan(args: &JsonValue, url: String, reach: Result<Option<String>, String>, token: Option<String>) -> (r: HttpOutcome)
        ensures
            match r {
                HttpOutcome::Send(p) => http_outcome_spec(
                    *args,
                    url@,
                    match reach {
                        Ok(c) => Ok(opt_chars(c)),
                        Err(e) => Err(e@),
                    },
                    opt_chars(token),
                ) == Ok::<(Seq<char>, Seq<char>, Seq<(Seq<char>, Seq<char>)>, Option<Seq<char>>, Option<BodyView>, u64), Seq<char>>(
                    (
                        p.method@,
                        p.url@,
                        p.headers@.map_values(|h: (String, String)| (h.0@, h.1@)),
                        opt_chars(p.bearer),
                        plan_body_view(p.body),
                        p.timeout_secs,
                    ),
                ),
                HttpOutcome::Refuse(e) => !e.success && e.output@.len() == 0 && e.error is Some && http_outcome_spec(
                    *args,
                    url@,
                    match reach {
                        Ok(c) => Ok(opt_chars(c)),
                        Err(e) => Err(e@),
                    },
                    opt_chars(token),
                ) == Err::<(Seq<char>, Seq<char>, Seq<(Seq<char>, Seq<char>)>, Option<Seq<char>>, Option<BodyView>, u64), Seq<char>>(
                    e.error->0@,
                ),
            },
    {
        let m = match args.get("method") {
            Some(v) => match v.as_str() {
                Some(s) => s.to_string(),
                None => "GET".to_string(),
            },
            None => "GET".to_string(),
        };
        proof {
            assert(m@ == string_arg_or(*args, "method"@, "GET"@));
        }
        let method = to_uppercase(m.as_str());
        let cred = match reach {
            Err(reason) => {
                let mut e = chars_of("conscience: ");
                extend_str(&mut e, reason.as_str());
                return HttpOutcome::Refuse(ToolResult::err(string_of(&e)));
            },
            Ok(c) => c,
        };
        let mc = chars_of(method.as_str());
        if !(chars_eq(&mc, &chars_of("GET")) || chars_eq(&mc, &chars_of("POST")) || chars_eq(
            &mc,
            &chars_of("PUT"),
        ) || chars_eq(&mc, &chars_of("DELETE")) || chars_eq(&mc, &chars_of("PATCH"))) {
            let mut e = chars_of("Unsupported HTTP method: ");
            extend_str(&mut e, method.as_str());
            return HttpOutcome::Refuse(ToolResult::err(string_of(&e)));
        }
        let timeout = match args.get("timeout_secs") {
            Some(v) => match v.as_u64() {
                Some(n) => n,
                None => 30,
            },
            None => 30,
        };
        let timeout_secs = if timeout < 1 {
            1
        } else if timeout > 120 {
            120
        } else {
            timeout
        };
        let mut headers: Vec<(String, String)> = Vec::new();
        match header_members_of(args) {
            Some(h) => {
                let mut i: usize = 0;
                while i < h.len()
                    invariant
                        i <= h.len(),
                        h@ == header_members(*args),
                        headers@.map_values(|x: (String, String)| (x.0@, x.1@)) == string_headers(h@, i as int),
                    decreases h.len() - i,
                {
                    let ghost before = headers@.map_values(|x: (String, String)| (x.0@, x.1@));
                    match &h[i].1 {
                        JsonValue::String(v) => {
                            headers.push((h[i].0.clone(), v.clone()));
                            assert(headers@.map_values(|x: (String, String)| (x.0@, x.1@)) =~= before.push(
                                (h@[i as int].0@, v@),
                            ));
                        },
                        _ => {},
                    }
                    i = i + 1;
                }
            },
            None => {
                assert(headers@.map_values(|x: (String, String)| (x.0@, x.1@)) =~= seq![]);
            },
        }
        let bearer = match cred {
            Some(name) => if HttpTool::caller_set_authorization(args) {
                None
            } else {
                match token {
                    Some(t) => Some(t),
                    None => {
                        let mut e = chars_of("conscience: credential '");
                        extend_str(&mut e, name.as_str());
                        extend_str(
                            &mut e,
                            "' is required for this host but could not be resolved (not in the vault or environment)",
                        );
                        return HttpOutcome::Refuse(ToolResult::err(string_of(&e)));
                    },
                }
            },
            None => None,
        };
        let body = match args.get("body") {
            Some(b) => match b {
                JsonValue::String(s) => Some(HttpBody::Text(s.clone())),
                JsonValue::Object(_) => Some(HttpBody::Json(json_clone(b))),
                JsonValue::Array(_) => Some(HttpBody::Json(json_clone(b))),
                _ => None,
            },
            None => None,
        };
        HttpOutcome::Send(HttpPlan { method, url, headers, bearer, body, timeout_secs })
    }

    /// The result reporting a response (see [`response_spec`]).
    pub fn response_result(code: u16, reason: Option<String>, body: String) -> (r: ToolResult)
        ensures
            (r.success, r.output@, opt_chars(r.error)) == response_spec(code, opt_chars(reason), body@),
    {
        let mut out = chars_of("HTTP ");
        push_decimal(&mut out, code as u64);
        out.push(' ');
        match &reason {
            Some(r) => extend_str(&mut out, r.as_str()),
            None => {},
        }
        out.push('\n');
        extend_str(&mut out, body.as_str());
        proof {
            reveal_strlit(" ");
            reveal_strlit("\n");
            reveal_strlit("");
        }
        if 200 <= code && code <= 299 {
            ToolResult::ok(string_of(&out))
        } else {
            let mut e = chars_of("HTTP error: ");
            push_decimal(&mut e, code as u64);
            e.push(' ');
            match &reason {
                Some(r) => extend_str(&mut e, r.as_str()),
                None => extend_str(&mut e, "<unknown status code>"),
            }
            ToolResult { success: false, output: string_of(&out), error: Some(string_of(&e)) }
        }
    }
}

} // verus!
