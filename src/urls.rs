//! URLs: parsing, and the URLs that clients are handed for a document.
use vstd::prelude::*;
use crate::keys::{concat, opt_seq};

verus! {

/// The scheme, host and port of a URL that parses.
pub struct UrlParts {
    pub scheme: String,
    pub host: Option<String>,
    pub port: Option<u16>,
}

/// The scheme, host and port of `s` where it parses as a URL.
pub uninterp spec fn parsed_url(s: Seq<char>) -> Option<(Seq<char>, Option<Seq<char>>, Option<u16>)>;

/// Relies on `url::Url::parse` with `Url::scheme`, `Url::host_str` and `Url::port`: the parts
/// of a URL, or `None` where `s` does not parse.
#[verifier::external_body]
pub(crate) fn parse_url(s: &str) -> (r: Option<UrlParts>)
    ensures
        match r {
            Some(p) => parsed_url(s@) == Some((p.scheme@, opt_seq(p.host), p.port)),
            None => parsed_url(s@) is None,
        },
{
    url::Url::parse(s).ok().map(
        |u| UrlParts {
            scheme: u.scheme().to_string(),
            host: u.host_str().map(|h| h.to_string()),
            port: u.port(),
        },
    )
}

/// The URL that joining `path` onto `base` gives, after switching `base` to `scheme`, where
/// each step succeeds.
pub uninterp spec fn joined_url(base: Seq<char>, scheme: Seq<char>, path: Seq<char>) -> Option<Seq<char>>;

/// Relies on `url::Url::parse`, `Url::set_scheme` and `Url::join`: `base` with its scheme
/// switched to `scheme` and `path` resolved against it, or `None` where a step fails.
#[verifier::external_body]
fn join_with_scheme(base: &str, scheme: &str, path: &str) -> (r: Option<String>)
    ensures
        opt_seq(r) == joined_url(base@, scheme@, path@),
{
    let mut u = url::Url::parse(base).ok()?;
    u.set_scheme(scheme).ok()?;
    u.join(path).ok().map(|j| j.to_string())
}

/// The WebSocket scheme that matches a base URL's scheme.
pub open spec fn ws_scheme_for(scheme: Seq<char>) -> Seq<char> {
    if scheme == "https"@ {
        "wss"@
    } else {
        "ws"@
    }
}

/// The URLs a client uses for a document: the WebSocket URL and the base URL of its HTTP
/// endpoints. With a public URL prefix (in its serialized form), both derive from it; else
/// from the request's host.
pub open spec fn client_urls_of(url_prefix: Option<Seq<char>>, host: Seq<char>, doc_id: Seq<char>) -> Option<
    (Seq<char>, Seq<char>),
> {
    match url_prefix {
        None => Some(
            (
                "ws://"@ + host + "/d/"@ + doc_id + "/ws"@,
                "http://"@ + host + "/d/"@ + doc_id,
            ),
        ),
        Some(p) => match parsed_url(p) {
            None => None,
            Some(parts) => match joined_url(p, ws_scheme_for(parts.0), "/d/"@ + doc_id + "/ws"@) {
                None => None,
                Some(ws) => {
                    let base = if p.len() > 0 && p.last() == '/' {
                        p
                    } else {
                        p + "/"@
                    };
                    Some((ws, base + "d/"@ + doc_id))
                },
            },
        },
    }
}

/// The WebSocket URL and the HTTP base URL that a client uses for a document, or `None`
/// where the URL prefix does not parse or does not take a WebSocket scheme.
pub fn client_urls(url_prefix: &Option<String>, host: &str, doc_id: &str) -> (r: Option<
    (String, String),
>)
    ensures
        match r {
            Some((ws, base)) => client_urls_of(opt_seq(*url_prefix), host@, doc_id@) == Some(
                (ws@, base@),
            ),
            None => client_urls_of(opt_seq(*url_prefix), host@, doc_id@) is None,
        },
{
    match url_prefix {
        None => {
            let mut ws = concat("ws://", host);
            ws.append("/d/");
            ws.append(doc_id);
            ws.append("/ws");
            let mut base = concat("http://", host);
            base.append("/d/");
            base.append(doc_id);
            Some((ws, base))
        },
        Some(p) => {
            let parts = match parse_url(p.as_str()) {
                None => return None,
                Some(parts) => parts,
            };
            let https = String::from_str("https");
            let scheme = if parts.scheme == https {
                "wss"
            } else {
                "ws"
            };
            let mut path = concat("/d/", doc_id);
            path.append("/ws");
            let ws = match join_with_scheme(p.as_str(), scheme, path.as_str()) {
                None => return None,
                Some(ws) => ws,
            };
            let n = p.unicode_len();
            let mut base = p.clone();
            if !(n > 0 && p.get_char(n - 1) == '/') {
                base.append("/");
            }
            base.append("d/");
            base.append(doc_id);
            Some((ws, base))
        },
    }
}

} // verus!
