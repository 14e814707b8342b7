use vstd::prelude::*;
use vstd::utf8::encode_utf8;
use std::collections::HashMap;
use vstd::string::StringExecFns;
use http_wire::WireEncode;

verus! {

/// A resolved request description: where to send it and what it must meet.
#[derive(Debug, Clone, PartialEq)]
pub struct ForyRequest {
    pub label: String,
    pub absolute_url: String,
    pub host: String,
    pub port: i32,
    pub method: String,
    pub path: String,
    pub valid_status_codes: Vec<i32>,
    pub max_response_time_sla_micros: u64,
    pub insecure: bool,
    pub headers: HashMap<String, String>,
    pub query_params: HashMap<String, String>,
    pub body: String,
}

/// The request methods a request description may name.
#[derive(PartialEq, Eq, Structural, Clone, Copy, Debug)]
pub enum HttpMethod {
    Get,
    Post,
    Put,
    Delete,
    Patch,
    Head,
    Options,
    Trace,
    Connect,
}

pub open spec fn ascii_lower(b: u8) -> u8 {
    if 65 <= b <= 90 { (b + 32) as u8 } else { b }
}

/// Equality of two byte strings when ASCII letters are compared without case.
pub open spec fn eq_ignore_ascii_case(a: Seq<u8>, b: Seq<u8>) -> bool {
    a.len() == b.len() && forall|i: int| 0 <= i < a.len() ==> ascii_lower(#[trigger] a[i]) == ascii_lower(b[i])
}

/// The method that a name denotes, letters in any case; `GET` for an
/// unknown name.
pub open spec fn method_named(s: Seq<u8>) -> HttpMethod {
    if eq_ignore_ascii_case(s, seq![71u8, 69, 84]) {
        HttpMethod::Get
    } else if eq_ignore_ascii_case(s, seq![80u8, 79, 83, 84]) {
        HttpMethod::Post
    } else if eq_ignore_ascii_case(s, seq![80u8, 85, 84]) {
        HttpMethod::Put
    } else if eq_ignore_ascii_case(s, seq![68u8, 69, 76, 69, 84, 69]) {
        HttpMethod::Delete
    } else if eq_ignore_ascii_case(s, seq![80u8, 65, 84, 67, 72]) {
        HttpMethod::Patch
    } else if eq_ignore_ascii_case(s, seq![72u8, 69, 65, 68]) {
        HttpMethod::Head
    } else if eq_ignore_ascii_case(s, seq![79u8, 80, 84, 73, 79, 78, 83]) {
        HttpMethod::Options
    } else if eq_ignore_ascii_case(s, seq![84u8, 82, 65, 67, 69]) {
        HttpMethod::Trace
    } else if eq_ignore_ascii_case(s, seq![67u8, 79, 78, 78, 69, 67, 84]) {
        HttpMethod::Connect
    } else {
        HttpMethod::Get
    }
}

fn lower(b: u8) -> (r: u8)
    ensures
        r == ascii_lower(b),
{
    if 65 <= b && b <= 90 { b + 32 } else { b }
}

fn same_ignoring_case(a: &[u8], b: &Vec<u8>) -> (r: bool)
    ensures
        r == eq_ignore_ascii_case(a@, b@),
{
    if a.len() != b.len() {
        return false;
    }
    let mut i: usize = 0;
    while i < a.len()
        invariant
            a@.len() == b@.len(),
            i <= a@.len(),
            forall|j: int| 0 <= j < i ==> ascii_lower(#[trigger] a@[j]) == ascii_lower(b@[j]),
        decreases a@.len() - i,
    {
        if lower(a[i]) != lower(b[i]) {
            return false;
        }
        i = i + 1;
    }
    true
}

/// The method named by `method_name`, compared without regard to ASCII case;
/// an unknown name gives `GET`.
pub fn reqwest_method(method_name: String) -> (r: HttpMethod)
    ensures
        r == method_named(encode_utf8(method_name@)),
{
    let s = method_name.as_str().as_bytes();
    if same_ignoring_case(s, &vec![71u8, 69, 84]) {
        HttpMethod::Get
    } else if same_ignoring_case(s, &vec![80u8, 79, 83, 84]) {
        HttpMethod::Post
    } else if same_ignoring_case(s, &vec![80u8, 85, 84]) {
        HttpMethod::Put
    } else if same_ignoring_case(s, &vec![68u8, 69, 76, 69, 84, 69]) {
        HttpMethod::Delete
    } else if same_ignoring_case(s, &vec![80u8, 65, 84, 67, 72]) {
        HttpMethod::Patch
    } else if same_ignoring_case(s, &vec![72u8, 69, 65, 68]) {
        HttpMethod::Head
    } else if same_ignoring_case(s, &vec![79u8, 80, 84, 73, 79, 78, 83]) {
        HttpMethod::Options
    } else if same_ignoring_case(s, &vec![84u8, 82, 65, 67, 69]) {
        HttpMethod::Trace
    } else if same_ignoring_case(s, &vec![67u8, 79, 78, 78, 69, 67, 84]) {
        HttpMethod::Connect
    } else {
        HttpMethod::Get
    }
}

/// Length of the part of `addr` before its first `:` (all of it if there is
/// none).
pub open spec fn host_end(addr: Seq<char>, k: int) -> bool {
    &&& 0 <= k <= addr.len()
    &&& forall|j: int| 0 <= j < k ==> #[trigger] addr[j] != ':'
    &&& (k == addr.len() || addr[k] == ':')
}

/// The host named by a `host:port` target: what precedes the first `:`.
pub fn target_host(addr: &str) -> (r: String)
    ensures
        exists|k: int| host_end(addr@, k) && r@ == addr@.subrange(0, k),
{
    let n = addr.unicode_len();
    let mut k: usize = 0;
    while k < n
        invariant
            n == addr@.len(),
            k <= n,
            forall|j: int| 0 <= j < k ==> #[trigger] addr@[j] != ':',
        ensures
            k <= n,
            forall|j: int| 0 <= j < k ==> #[trigger] addr@[j] != ':',
            k == n || addr@[k as int] == ':',
        decreases n - k,
    {
        if addr.get_char(k) == ':' {
            break;
        }
        k = k + 1;
    }
    let host = addr.substring_char(0, k);
    assert(host_end(addr@, k as int));
    String::from_str(host)
}

/// The URI of the target's root: `http://` and the target, then `/`.
pub fn target_uri(addr: &str) -> (r: String)
    ensures
        r@ == "http://"@ + addr@ + "/"@,
{
    let mut uri = String::from_str("http://");
    uri.append(addr);
    uri.append("/");
    uri
}

/// The bytes that http_wire writes for a request with this method, URI and
/// `host` and `connection` headers, and no body.
pub uninterp spec fn wire_request(
    method: Seq<char>,
    uri: Seq<char>,
    host: Seq<char>,
    connection: Seq<char>,
) -> Option<Seq<u8>>;

/// Relies on `http::Request::builder` to assemble the request (it fails on a
/// method, URI or header value that does not parse) and on http_wire's
/// `WireEncode::encode` to write it in HTTP/1.1 wire form.
#[verifier::external_body]
fn encode_request(method: &str, uri: &str, host: &str, connection: &str) -> (r: Option<Vec<u8>>)
    ensures
        match r {
            Some(b) => wire_request(method@, uri@, host@, connection@) == Some(b@),
            None => wire_request(method@, uri@, host@, connection@) is None,
        },
{
    let request = http::Request::builder()
        .method(method)
        .uri(uri)
        .header("host", host)
        .header("connection", connection)
        .body(http_body_util::Full::new(bytes::Bytes::new()))
        .ok()?;
    request.encode().ok().map(|b| b.to_vec())
}

/// Why no request could be prepared for the target.
#[derive(PartialEq, Eq, Structural, Clone, Copy, Debug)]
pub enum TemplateError {
    /// The target does not make a valid request URI or host header.
    InvalidTarget,
}

/// The keep-alive `GET /` request sent on every iteration to `addr`
/// (`host:port`), encoded once so that the measured loop only writes bytes.
pub fn request_template(addr: &str) -> (r: Result<Vec<u8>, TemplateError>)
    ensures
        exists|k: int|
            host_end(addr@, k) && match wire_request(
                "GET"@,
                "http://"@ + addr@ + "/"@,
                addr@.subrange(0, k),
                "keep-alive"@,
            ) {
                Some(b) => r matches Ok(v) && v@ == b,
                None => r == Err::<Vec<u8>, TemplateError>(TemplateError::InvalidTarget),
            },
{
    let host = target_host(addr);
    let uri = target_uri(addr);
    match encode_request("GET", uri.as_str(), host.as_str(), "keep-alive") {
        Some(b) => Ok(b),
        None => Err(TemplateError::InvalidTarget),
    }
}

} // verus!
