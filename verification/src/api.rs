//! The rules of the qBittorrent client around its HTTP calls: which hosts a
//! client can be made for, the endpoint URLs, the authorization header and
//! what counts as a usable version answer.
use vstd::prelude::*;
use crate::text::{chars_of, owned, starts_with, starts_with_chars, trim, trim_text};

verus! {

/// Whether an API client can be made for a host: it starts with `http://`
/// or `https://`.
pub fn has_http_scheme(host: &str) -> (r: bool)
    ensures
        r == (starts_with(host@, "http://"@) || starts_with(host@, "https://"@)),
{
    let v = chars_of(host);
    let http = chars_of("http://");
    let https = chars_of("https://");
    starts_with_chars(&v, &http) || starts_with_chars(&v, &https)
}

/// The URL of a Web API endpoint on a host.
pub fn endpoint_url(host: &str, endpoint: &str) -> (r: String)
    ensures
        r@ == host@ + "/api/v2/"@ + endpoint@,
{
    let mut r = owned(host);
    r.append("/api/v2/");
    r.append(endpoint);
    r
}

/// Whether the server's version answer is usable: not blank once trimmed.
pub fn version_is_usable(version: &str) -> (r: bool)
    ensures
        r == (trim(version@).len() > 0),
{
    let t = trim_text(version);
    t.unicode_len() > 0
}

} // verus!
