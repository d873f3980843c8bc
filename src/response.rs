//! Responses produced by the engine: success shaping, error
//! classification and the JSON bodies of each outcome.

use vstd::prelude::*;
use vstd::utf8::encode_utf8;
use crate::key::upper;
use crate::path::params_view;
use crate::text::{chars_of, contains_chars, contains_seq, push_char, string_of};

verus! {

/// Longest error message carried in an error body, in characters.
pub const MAX_MESSAGE_CHARS: usize = 200;

/// A response: status, headers in order, body.
pub struct Response {
    pub status: u16,
    pub headers: Vec<(String, String)>,
    pub body: String,
}

/// What a response carries: status, headers, body.
pub type ResponseView = (u16, Seq<(Seq<char>, Seq<char>)>, Seq<char>);

impl Response {
    pub open spec fn view(&self) -> ResponseView {
        (self.status, headers_view(self.headers@), self.body@)
    }
}

/// The views of a header list.
pub open spec fn headers_view(h: Seq<(String, String)>) -> Seq<(Seq<char>, Seq<char>)> {
    h.map_values(|p: (String, String)| (p.0@, p.1@))
}

/// The decimal digit for `d < 10`.
pub open spec fn digit(d: nat) -> char {
    ((d + 48) as u32) as char
}

/// The decimal representation of `n`, without leading zeros.
pub open spec fn decimal(n: nat) -> Seq<char>
    decreases n,
{
    if n < 10 {
        seq![digit(n)]
    } else {
        decimal(n / 10).push(digit(n % 10))
    }
}

/// Appends the decimal representation of `n`.
pub fn push_decimal(s: &mut String, n: u64)
    ensures
        final(s)@ == old(s)@ + decimal(n as nat),
    decreases n,
{
    if n >= 10 {
        push_decimal(s, n / 10);
    }
    let d = (n % 10) as u8;
    push_char(s, (d + 48) as char);
    assert(final(s)@ =~= old(s)@ + decimal(n as nat));
}

/// Error status and error name for a handler's error text.
pub open spec fn classify(e: Seq<char>) -> (u16, Seq<char>) {
    if contains_seq(e, "validation"@) {
        (400, "ValidationError"@)
    } else if contains_seq(e, "timeout"@) {
        (408, "TimeoutError"@)
    } else if contains_seq(e, "not found"@) {
        (404, "NotFoundError"@)
    } else {
        (500, "InternalServerError"@)
    }
}

/// Classifies a handler's error text by the words it contains.
pub fn classify_error(e: &str) -> (r: (u16, String))
    ensures
        (r.0, r.1@) == classify(e@),
{
    let ec = chars_of(e);
    if contains_chars(&ec, &chars_of("validation")) {
        (400, "ValidationError".to_string())
    } else if contains_chars(&ec, &chars_of("timeout")) {
        (408, "TimeoutError".to_string())
    } else if contains_chars(&ec, &chars_of("not found")) {
        (404, "NotFoundError".to_string())
    } else {
        (500, "InternalServerError".to_string())
    }
}

/// The first `n` characters of `s` (all of them when it is shorter).
pub open spec fn truncated(s: Seq<char>, n: nat) -> Seq<char> {
    if s.len() <= n {
        s
    } else {
        s.take(n as int)
    }
}

/// The first `MAX_MESSAGE_CHARS` characters of `s`.
pub fn truncate_message(s: &str) -> (r: String)
    ensures
        r@ == truncated(s@, MAX_MESSAGE_CHARS as nat),
{
    let cs = chars_of(s);
    let mut out: Vec<char> = Vec::new();
    let mut i: usize = 0;
    while i < cs.len() && i < MAX_MESSAGE_CHARS
        invariant
            cs@ == s@,
            i <= cs@.len(),
            i <= MAX_MESSAGE_CHARS,
            out@ == s@.take(i as int),
        decreases cs@.len() - i,
    {
        out.push(cs[i]);
        i = i + 1;
        assert(out@ =~= s@.take(i as int));
    }
    assert(s@.len() <= MAX_MESSAGE_CHARS ==> s@.take(i as int) =~= s@);
    string_of(&out)
}

/// Body of the rate-limit response.
pub open spec fn rate_limited_body() -> Seq<char> {
    "{\"error\": \"RateLimitExceeded\", \"message\": \"Too many requests\", \"retry_after\": 60}"@
}

/// Body of the response when no worker can take a request.
pub open spec fn unavailable_body() -> Seq<char> {
    "{\"error\": \"Service Unavailable\", \"message\": \"Server overloaded\"}"@
}

/// Body of the response when no route matches.
pub open spec fn not_found_body(method: Seq<char>, path: Seq<char>) -> Seq<char> {
    "{\"error\": \"Not Found\", \"message\": \"No handler registered for "@ + method + " "@ + path
        + "\", \"method\": \""@ + method + "\", \"path\": \""@ + path
        + "\", \"available_routes\": \"Check registered routes\"}"@
}

/// Body of the response for a handler error.
pub open spec fn error_body(kind: Seq<char>, e: Seq<char>, method: Seq<char>, path: Seq<char>, now: u64) -> Seq<char> {
    "{\"error\": \""@ + kind + "\", \"message\": \"Request failed: "@ + truncated(e, MAX_MESSAGE_CHARS as nat)
        + "\", \"method\": \""@ + method + "\", \"path\": \""@ + path + "\", \"timestamp\": "@ + decimal(
        now as nat,
    ) + "}"@
}

/// One captured parameter as a JSON member.
pub open spec fn param_json(p: (Seq<char>, Seq<char>)) -> Seq<char> {
    "\""@ + p.0 + "\": \""@ + p.1 + "\""@
}

/// Captured parameters as the members of a JSON object, comma-separated.
pub open spec fn params_members(ps: Seq<(Seq<char>, Seq<char>)>) -> Seq<char>
    decreases ps.len(),
{
    if ps.len() == 0 {
        Seq::empty()
    } else if ps.len() == 1 {
        param_json(ps[0])
    } else {
        params_members(ps.drop_last()) + ", "@ + param_json(ps.last())
    }
}

/// Body of the diagnostic response for a path that only a template matches.
pub open spec fn diagnostic_body(
    method: Seq<char>,
    path: Seq<char>,
    route_key: Seq<char>,
    params: Seq<(Seq<char>, Seq<char>)>,
) -> Seq<char> {
    "{\"message\": \"Parameterized route found\", \"method\": \""@ + method + "\", \"path\": \""@ + path
        + "\", \"status\": \"success\", \"route_key\": \""@ + route_key + "\", \"params\": {"@
        + params_members(params) + "}}"@
}

/// The response to a client over its quota.
pub open spec fn rate_limited_view() -> ResponseView {
    (429, seq![json_header(), ("retry-after"@, "60"@)], rate_limited_body())
}

/// The response when no worker can take or answer a request.
pub open spec fn unavailable_view() -> ResponseView {
    (503, seq![json_header()], unavailable_body())
}

/// The response when nothing matches.
pub open spec fn not_found_view(method: Seq<char>, path: Seq<char>) -> ResponseView {
    (404, seq![json_header()], not_found_body(method, path))
}

/// The response for a handler's error text.
pub open spec fn error_view(e: Seq<char>, method: Seq<char>, path: Seq<char>, now: u64) -> ResponseView {
    (
        classify(e).0,
        seq![json_header(), ("x-error-recovery"@, "attempted"@)],
        error_body(classify(e).1, e, method, path, now),
    )
}

/// The response for a handler's result.
pub open spec fn success_view(method: Seq<char>, result: Seq<char>) -> ResponseView {
    (
        200,
        seq![json_header(), ("content-length"@, decimal(encode_utf8(result).len()))],
        if is_head(method) { Seq::<char>::empty() } else { result },
    )
}

/// The diagnostic response for a path that only a template matches.
pub open spec fn diagnostic_view(
    method: Seq<char>,
    path: Seq<char>,
    route_key: Seq<char>,
    params: Seq<(Seq<char>, Seq<char>)>,
) -> ResponseView {
    (200, seq![json_header()], diagnostic_body(method, path, route_key, params))
}

/// A `content-type: application/json` header.
pub open spec fn json_header() -> (Seq<char>, Seq<char>) {
    ("content-type"@, "application/json"@)
}

fn push_str(s: &mut String, t: &str)
    ensures
        final(s)@ == old(s)@ + t@,
{
    s.append(t);
}

fn json_content_type() -> (r: (String, String))
    ensures
        (r.0@, r.1@) == json_header(),
{
    ("content-type".to_string(), "application/json".to_string())
}

/// The response to a client over its quota.
pub fn rate_limited_response() -> (r: Response)
    ensures
        r.status == 429,
        headers_view(r.headers@) == seq![json_header(), ("retry-after"@, "60"@)],
        r.body@ == rate_limited_body(),
        r.view() == rate_limited_view(),
{
    let mut headers: Vec<(String, String)> = Vec::new();
    headers.push(json_content_type());
    headers.push(("retry-after".to_string(), "60".to_string()));
    let body = "{\"error\": \"RateLimitExceeded\", \"message\": \"Too many requests\", \"retry_after\": 60}".to_string();
    assert(headers_view(headers@) =~= seq![json_header(), ("retry-after"@, "60"@)]);
    Response { status: 429, headers, body }
}

/// The response when the selected worker cannot take or answer a request.
pub fn unavailable_response() -> (r: Response)
    ensures
        r.status == 503,
        headers_view(r.headers@) == seq![json_header()],
        r.body@ == unavailable_body(),
        r.view() == unavailable_view(),
{
    let mut headers: Vec<(String, String)> = Vec::new();
    headers.push(json_content_type());
    assert(headers_view(headers@) =~= seq![json_header()]);
    Response {
        status: 503,
        headers,
        body: "{\"error\": \"Service Unavailable\", \"message\": \"Server overloaded\"}".to_string(),
    }
}

/// The response when nothing matches the request.
pub fn not_found_response(method: &str, path: &str) -> (r: Response)
    ensures
        r.status == 404,
        headers_view(r.headers@) == seq![json_header()],
        r.body@ == not_found_body(method@, path@),
        r.view() == not_found_view(method@, path@),
{
    let mut body = String::new();
    push_str(&mut body, "{\"error\": \"Not Found\", \"message\": \"No handler registered for ");
    push_str(&mut body, method);
    push_str(&mut body, " ");
    push_str(&mut body, path);
    push_str(&mut body, "\", \"method\": \"");
    push_str(&mut body, method);
    push_str(&mut body, "\", \"path\": \"");
    push_str(&mut body, path);
    push_str(&mut body, "\", \"available_routes\": \"Check registered routes\"}");
    let mut headers: Vec<(String, String)> = Vec::new();
    headers.push(json_content_type());
    assert(headers_view(headers@) =~= seq![json_header()]);
    assert(body@ =~= not_found_body(method@, path@));
    Response { status: 404, headers, body }
}

/// The response for a handler's error text `e`, classified by its words.
pub fn handler_error_response(e: &str, method: &str, path: &str, now: u64) -> (r: Response)
    ensures
        r.status == classify(e@).0,
        headers_view(r.headers@) == seq![json_header(), ("x-error-recovery"@, "attempted"@)],
        r.body@ == error_body(classify(e@).1, e@, method@, path@, now),
        r.view() == error_view(e@, method@, path@, now),
{
    let (status, kind) = classify_error(e);
    let msg = truncate_message(e);
    let mut body = String::new();
    push_str(&mut body, "{\"error\": \"");
    push_str(&mut body, kind.as_str());
    push_str(&mut body, "\", \"message\": \"Request failed: ");
    push_str(&mut body, msg.as_str());
    push_str(&mut body, "\", \"method\": \"");
    push_str(&mut body, method);
    push_str(&mut body, "\", \"path\": \"");
    push_str(&mut body, path);
    push_str(&mut body, "\", \"timestamp\": ");
    push_decimal(&mut body, now);
    push_str(&mut body, "}");
    let mut headers: Vec<(String, String)> = Vec::new();
    headers.push(json_content_type());
    headers.push(("x-error-recovery".to_string(), "attempted".to_string()));
    assert(headers_view(headers@) =~= seq![json_header(), ("x-error-recovery"@, "attempted"@)]);
    assert(body@ =~= error_body(classify(e@).1, e@, method@, path@, now));
    Response { status, headers, body }
}

/// Whether a method names `HEAD`, in any letter case.
pub open spec fn is_head(method: Seq<char>) -> bool {
    upper(method) == "HEAD"@
}

/// The response for a handler's result: status 200, JSON content type, the
/// result's byte length, and the result as body (empty for `HEAD`).
pub fn success_response(method: &str, result: String) -> (r: Response)
    ensures
        r.status == 200,
        headers_view(r.headers@) == seq![json_header(), ("content-length"@, decimal(encode_utf8(result@).len()))],
        r.body@ == if is_head(method@) { Seq::<char>::empty() } else { result@ },
        r.view() == success_view(method@, result@),
{
    let m = crate::key::normalize_method(method);
    let head = m == "HEAD".to_string();
    let n = result.as_str().as_bytes().len();
    let mut len_text = String::new();
    push_decimal(&mut len_text, n as u64);
    let mut headers: Vec<(String, String)> = Vec::new();
    headers.push(json_content_type());
    headers.push(("content-length".to_string(), len_text));
    assert(headers_view(headers@) =~= seq![json_header(), ("content-length"@, decimal(encode_utf8(result@).len()))]);
    let body = if head {
        String::new()
    } else {
        result
    };
    Response { status: 200, headers, body }
}

/// The diagnostic response for a path matched only by a template.
pub fn diagnostic_response(method: &str, path: &str, route_key: &str, params: &Vec<(String, String)>) -> (r: Response)
    ensures
        r.status == 200,
        headers_view(r.headers@) == seq![json_header()],
        r.body@ == diagnostic_body(method@, path@, route_key@, params_view(params@)),
        r.view() == diagnostic_view(method@, path@, route_key@, params_view(params@)),
{
    let mut body = String::new();
    push_str(&mut body, "{\"message\": \"Parameterized route found\", \"method\": \"");
    push_str(&mut body, method);
    push_str(&mut body, "\", \"path\": \"");
    push_str(&mut body, path);
    push_str(&mut body, "\", \"status\": \"success\", \"route_key\": \"");
    push_str(&mut body, route_key);
    push_str(&mut body, "\", \"params\": {");
    let ghost start = body@;
    let mut i: usize = 0;
    while i < params.len()
        invariant
            i <= params@.len(),
            body@ == start + params_members(params_view(params@).take(i as int)),
        decreases params@.len() - i,
    {
        let ghost pv = params_view(params@);
        assert(pv.take(i + 1).drop_last() =~= pv.take(i as int));
        if i > 0 {
            push_str(&mut body, ", ");
        }
        push_str(&mut body, "\"");
        push_str(&mut body, params[i].0.as_str());
        push_str(&mut body, "\": \"");
        push_str(&mut body, params[i].1.as_str());
        push_str(&mut body, "\"");
        i = i + 1;
        assert(body@ =~= start + params_members(pv.take(i as int)));
    }
    push_str(&mut body, "}}");
    assert(params_view(params@).take(params@.len() as int) =~= params_view(params@));
    let mut headers: Vec<(String, String)> = Vec::new();
    headers.push(json_content_type());
    assert(headers_view(headers@) =~= seq![json_header()]);
    assert(body@ =~= diagnostic_body(method@, path@, route_key@, params_view(params@)));
    Response { status: 200, headers, body }
}

} // verus!
