//! What the HTTP client hands over and is configured by: responses,
//! failures, and the decisions that do not need the network.

use vstd::prelude::*;
use std::time::Duration;
use crate::json::{body_document, JsonModel, JsonValue};
use crate::strmap::{pairs_map, StringMap};
use crate::text::{append_chars, chars_of, find_chars, occurs_at, string_of};

verus! {
/// A response as the evaluators see it.
#[derive(Debug)]
pub struct Response {
    pub status: u16,
    pub headers: StringMap,
    pub body: JsonValue,
    pub duration: Duration,
}

/// What the evaluators read of a `Response`.
pub ghost struct ResponseModel {
    pub status: u16,
    pub headers: Map<Seq<char>, Seq<char>>,
    pub body: JsonModel,
}

impl View for Response {
    type V = ResponseModel;

    open spec fn view(&self) -> ResponseModel {
        ResponseModel { status: self.status, headers: self.headers@, body: self.body@ }
    }
}

impl Response {
    /// The response made of a status, the header lines in the order in
    /// which they came, and the text of the body. A header line overrides
    /// the lines before it that have the same name. The body is the document
    /// that the text encodes, or the text as a string where it is not JSON.
    pub fn from_parts(
        status: u16,
        header_lines: Vec<(String, String)>,
        body_text: &str,
        duration: Duration,
    ) -> (r: Self)
        ensures
            r@.status == status,
            r@.headers == pairs_map(
                Seq::new(header_lines@.len(), |i: int| (header_lines@[i].0@, header_lines@[i].1@)),
            ),
            r@.body == body_document(body_text@),
            r.duration == duration,
            r.headers.well_formed(),
    {
        Response {
            status,
            headers: StringMap::from_pairs(header_lines),
            body: JsonValue::from_body_text(body_text),
            duration,
        }
    }
}

/// HTTP configuration.
#[derive(Debug)]
pub struct HttpConfig {
    pub timeout: u64,
    pub follow_redirects: bool,
    pub max_redirects: usize,
    pub proxy: Option<String>,
    pub ca_cert: Option<String>,
    pub client_cert: Option<String>,
    pub client_key: Option<String>,
    pub insecure: bool,
}

impl Default for HttpConfig {
    fn default() -> (r: Self)
        ensures
            r.timeout == 0,
            !r.follow_redirects,
            r.max_redirects == 0,
            r.proxy is None,
            r.ca_cert is None,
            r.client_cert is None,
            r.client_key is None,
            !r.insecure,
    {
        HttpConfig {
            timeout: 0,
            follow_redirects: false,
            max_redirects: 0,
            proxy: None,
            ca_cert: None,
            client_cert: None,
            client_key: None,
            insecure: false,
        }
    }
}

impl Clone for HttpConfig {
    fn clone(&self) -> (r: Self)
        ensures
            r.timeout == self.timeout,
            r.follow_redirects == self.follow_redirects,
            r.max_redirects == self.max_redirects,
            r.proxy == self.proxy,
            r.ca_cert == self.ca_cert,
            r.client_cert == self.client_cert,
            r.client_key == self.client_key,
            r.insecure == self.insecure,
    {
        HttpConfig {
            timeout: self.timeout,
            follow_redirects: self.follow_redirects,
            max_redirects: self.max_redirects,
            proxy: self.proxy.clone(),
            ca_cert: self.ca_cert.clone(),
            client_cert: self.client_cert.clone(),
            client_key: self.client_key.clone(),
            insecure: self.insecure,
        }
    }
}

/// The timeout of a request, in milliseconds, where a configuration file
/// names none.
pub fn default_timeout() -> (r: u64)
    ensures
        r == 30000,
{
    30000
}

/// Whether redirects are followed where a configuration file does not say.
pub fn default_true() -> (r: bool)
    ensures
        r,
{
    true
}

/// The number of redirects followed where a configuration file names none.
pub fn default_max_redirects() -> (r: usize)
    ensures
        r == 10,
{
    10
}

/// Why a request produced no response.
#[derive(Debug)]
pub enum RequestError {
    /// The connection failed.
    Network(String),
    /// The method is no HTTP method.
    InvalidMethod(String),
    /// A header's name or value cannot be sent.
    InvalidHeader(String),
    /// The request took too long.
    Timeout,
}

/// The message of a failure.
pub open spec fn error_text(error: RequestError) -> Seq<char> {
    match error {
        RequestError::Network(detail) => "Network error: "@ + detail@,
        RequestError::InvalidMethod(method) => "Invalid HTTP method: "@ + method@,
        RequestError::InvalidHeader(name) => "Invalid header: "@ + name@,
        RequestError::Timeout => "Timeout"@,
    }
}

impl RequestError {
    /// Whether the failure is of the network class: the connection failed
    /// or timed out. Only such a failure is worth another attempt.
    pub fn is_network_error(&self) -> (r: bool)
        ensures
            r == (self is Network || self is Timeout),
    {
        matches!(self, RequestError::Network(_) | RequestError::Timeout)
    }

    /// The message of the failure.
    pub fn message(&self) -> (r: String)
        ensures
            r@ == error_text(*self),
    {
        match self {
            RequestError::Network(detail) => {
                let mut out = chars_of("Network error: ");
                append_chars(&mut out, &chars_of(detail.as_str()));
                string_of(&out)
            },
            RequestError::InvalidMethod(method) => {
                let mut out = chars_of("Invalid HTTP method: ");
                append_chars(&mut out, &chars_of(method.as_str()));
                string_of(&out)
            },
            RequestError::InvalidHeader(name) => {
                let mut out = chars_of("Invalid header: ");
                append_chars(&mut out, &chars_of(name.as_str()));
                string_of(&out)
            },
            RequestError::Timeout => "Timeout".to_owned(),
        }
    }
}

/// What to do after an attempt has failed.
#[derive(Debug, Clone, Copy, PartialEq, Eq, Structural)]
pub enum RetryDecision {
    /// Wait for the configured delay, then try again.
    Retry,
    /// Report the failure.
    GiveUp,
}

/// What to do once the attempt with the number `attempt`, counted from
/// zero, has failed with `error`, where `retries` further attempts are
/// allowed after the first: try again after a failure of the network class
/// while attempts are left, and give up otherwise.
pub fn after_failure(error: &RequestError, attempt: u32, retries: u32) -> (r: RetryDecision)
    ensures
        r == (if (error is Network || error is Timeout) && attempt < retries {
            RetryDecision::Retry
        } else {
            RetryDecision::GiveUp
        }),
{
    if error.is_network_error() && attempt < retries {
        RetryDecision::Retry
    } else {
        RetryDecision::GiveUp
    }
}

/// The query parameters as text: each as name, `=` and value, with `&`
/// between them.
pub open spec fn query_text(pairs: Seq<(Seq<char>, Seq<char>)>) -> Seq<char>
    decreases pairs.len(),
{
    if pairs.len() == 0 {
        Seq::empty()
    } else if pairs.len() == 1 {
        pairs[0].0 + seq!['='] + pairs[0].1
    } else {
        query_text(pairs.drop_last()) + seq!['&'] + pairs.last().0 + seq!['='] + pairs.last().1
    }
}

/// The URL of a request with its query parameters: the URL itself where
/// there are none; else the URL, then `?`, or `&` where the URL holds a `?`
/// already, then the parameters.
pub open spec fn url_with_query(url: Seq<char>, pairs: Seq<(Seq<char>, Seq<char>)>) -> Seq<char> {
    if pairs.len() == 0 {
        url
    } else if url.contains('?') {
        url + seq!['&'] + query_text(pairs)
    } else {
        url + seq!['?'] + query_text(pairs)
    }
}

/// The URL of a request with its query parameters.
pub fn request_url(url: &str, query: &StringMap) -> (r: String)
    ensures
        r@ == url_with_query(url@, query.pairs()),
{
    let n = query.len();
    if n == 0 {
        return url.to_owned();
    }
    let mut out = chars_of(url);
    let mark = vec!['?'];
    let has_mark = find_chars(&out, &mark).is_some();
    proof {
        if has_mark {
            let at = choose|at: int| occurs_at(url@, mark@, at);
        } else {
            if url@.contains('?') {
                let at = choose|at: int| 0 <= at < url@.len() && url@[at] == '?';
                assert(url@.subrange(at, at + 1) =~= mark@);
                assert(occurs_at(url@, mark@, at));
            }
        }
    }
    if has_mark {
        out.push('&');
    } else {
        out.push('?');
    }
    let ghost head = out@;
    let ghost pairs = query.pairs();
    let mut i: usize = 0;
    while i < n
        invariant
            i <= n,
            n == query.pairs().len(),
            pairs == query.pairs(),
            out@ == head + query_text(pairs.take(i as int)),
        decreases n - i,
    {
        if i > 0 {
            out.push('&');
        }
        append_chars(&mut out, &chars_of(query.name_at(i).as_str()));
        out.push('=');
        append_chars(&mut out, &chars_of(query.text_at(i).as_str()));
        proof {
            let next = pairs.take(i + 1);
            assert(next.drop_last() == pairs.take(i as int));
        }
        i += 1;
    }
    assert(pairs.take(n as int) == pairs);
    string_of(&out)
}

} // verus!
