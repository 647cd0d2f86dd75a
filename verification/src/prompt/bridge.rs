//! The client of the bridge server that runs the language-model prompts:
//! its settings and the requests it sends.
use vstd::prelude::*;
use vstd::string::*;
use crate::text::{parse_integer, parse_integer_str};
use crate::external::{parse_url, parsed_url};

verus! {

/// Where the bridge server is and how it is called.
#[derive(Debug, Clone)]
pub struct BridgeServer {
    /// The server's host, without a trailing `/`.
    pub host: String,
    /// The connection timeout, in milliseconds.
    pub timeout: usize,
    /// The endpoint that normalises titles.
    pub normalize_endpoint: String,
    /// The endpoint that embeds texts.
    pub embedding_endpoint: String,
    /// The endpoint that tells whether a book belongs to a series.
    pub series_similar_endpoint: String,
}

/// The text of a setting, or the default when it is not set.
pub open spec fn setting_or(s: Option<String>, default: Seq<char>) -> Seq<char> {
    match s {
        Some(v) => v@,
        None => default,
    }
}

fn or_default(s: Option<String>, default: &str) -> (r: String)
    ensures
        r@ == setting_or(s, default@),
{
    match s {
        Some(v) => v,
        None => default.to_owned(),
    }
}

impl BridgeServer {
    /// The server the settings describe, each setting not given taking its
    /// default (`http://localhost:5000`, 30000 ms, `/normalize`,
    /// `/embedding`, `/series-similar`); `None` when the timeout is given
    /// but is not a `usize`.
    pub fn from_settings(
        host: Option<String>,
        timeout: Option<String>,
        normalize_endpoint: Option<String>,
        embedding_endpoint: Option<String>,
        series_similar_endpoint: Option<String>,
    ) -> (r: Option<BridgeServer>)
        ensures
            (timeout matches Some(t) && parse_integer(t@, 0, usize::MAX as int) is Err) ==> r is None,
            !(timeout matches Some(t) && parse_integer(t@, 0, usize::MAX as int) is Err) ==> (r matches Some(s)
                && s.host@ == setting_or(host, "http://localhost:5000"@)
                && s.timeout == match timeout {
                    Some(t) => parse_integer(t@, 0, usize::MAX as int)->Ok_0 as usize,
                    None => 30000,
                }
                && s.normalize_endpoint@ == setting_or(normalize_endpoint, "/normalize"@)
                && s.embedding_endpoint@ == setting_or(embedding_endpoint, "/embedding"@)
                && s.series_similar_endpoint@ == setting_or(series_similar_endpoint, "/series-similar"@)),
    {
        let timeout = match timeout {
            Some(t) => match parse_integer_str(t.as_str(), 0, usize::MAX as i128) {
                Ok(v) => v as usize,
                Err(_) => return None,
            },
            None => 30000,
        };
        Some(BridgeServer {
            host: or_default(host, "http://localhost:5000"),
            timeout,
            normalize_endpoint: or_default(normalize_endpoint, "/normalize"),
            embedding_endpoint: or_default(embedding_endpoint, "/embedding"),
            series_similar_endpoint: or_default(series_similar_endpoint, "/series-similar"),
        })
    }
}

/// The text of an endpoint's address: the host, then the endpoint with a
/// single `/` between them (the host has no trailing `/`; an endpoint that
/// starts with `/` brings its own).
pub open spec fn address_text(host: Seq<char>, endpoint: Seq<char>) -> Seq<char> {
    if endpoint.len() > 0 && endpoint[0] == '/' {
        host + endpoint
    } else {
        host + "/"@ + endpoint
    }
}

fn address(host: &str, endpoint: &str) -> (r: String)
    ensures
        r@ == address_text(host@, endpoint@),
{
    proof {
        reveal_strlit("/");
    }
    let mut s = host.to_owned();
    let starts_with_slash = endpoint.unicode_len() > 0 && endpoint.get_char(0) == '/';
    if !starts_with_slash {
        s.append("/");
    }
    s.append(endpoint);
    s
}

/// The address of an endpoint, parsed and written back by the `url` crate:
/// the host and the endpoint joined by a single `/`. The joined text must
/// parse as an address.
pub fn request_url(host: &str, endpoint: &str) -> (r: String)
    requires
        parsed_url(address_text(host@, endpoint@)) is Some,
    ensures
        Some(r@) == parsed_url(address_text(host@, endpoint@)),
{
    let text = address(host, endpoint);
    match parse_url(text.as_str()) {
        Some(u) => u,
        None => text,
    }
}

/// The address of an endpoint as [`request_url`] gives it, or `None` where
/// the joined text does not parse as an address.
pub fn try_request_url(host: &str, endpoint: &str) -> (r: Option<String>)
    ensures
        match parsed_url(address_text(host@, endpoint@)) {
            Some(u) => r matches Some(s) && s@ == u,
            None => r is None,
        },
{
    let text = address(host, endpoint);
    match parse_url(text.as_str()) {
        Some(_) => Some(request_url(host, endpoint)),
        None => None,
    }
}

/// The body of an embedding request: the texts to embed.
#[derive(Debug, Clone)]
pub struct EmbeddingRequest {
    pub text: Vec<String>,
}

impl EmbeddingRequest {
    /// A request for the given texts, in order.
    pub fn new(text: &[String]) -> (r: Self)
        ensures
            r.text@ == text@,
    {
        let mut out: Vec<String> = Vec::new();
        let n = text.len();
        let mut i: usize = 0;
        while i < n
            invariant
                n == text@.len(),
                i <= n,
                out@ == text@.subrange(0, i as int),
            decreases n - i,
        {
            out.push(text[i].clone());
            i = i + 1;
            proof {
                assert(out@ =~= text@.subrange(0, i as int));
            }
        }
        proof {
            assert(text@.subrange(0, n as int) =~= text@);
        }
        EmbeddingRequest { text: out }
    }
}

/// The client of the bridge server.
#[derive(Debug, Clone)]
pub struct BridgeClient {
    pub server: BridgeServer,
}

impl BridgeClient {
    pub fn new(server: BridgeServer) -> (r: Self)
        ensures
            r.server == server,
    {
        BridgeClient { server }
    }
}

} // verus!
