//! Host URLs: parsing what a user types into its parts, and building the
//! URL text back from them.
use vstd::prelude::*;
use crate::bindings::{parse_url, url_error_message, url_parse, UrlParts, UrlPartsView};
use crate::text::{
    chars_of, contains, contains_chars, decimal, ends_with, ends_with_chars, owned, push_decimal,
    text_equals, trim, trim_text,
};

verus! {

/// The text `build_full_url` makes of its parts. A scheme separator is added
/// to a non-empty protocol that lacks one; a non-empty user name comes with
/// `@`; the port is left out only for `http://` with 80 and `https://` with
/// 443; a path that does not start with `/` gets one.
pub open spec fn full_url(
    protocol: Seq<char>,
    host: Seq<char>,
    port: Option<u16>,
    pathname: Seq<char>,
    username: Option<Seq<char>>,
) -> Seq<char> {
    let with_scheme = if ends_with(protocol, "://"@) || protocol.len() == 0 {
        protocol
    } else {
        protocol + "://"@
    };
    let with_user = match username {
        Some(u) => if u.len() > 0 { with_scheme + u + "@"@ } else { with_scheme },
        None => with_scheme,
    };
    let with_host = with_user + host;
    let with_port = match port {
        Some(p) => if (protocol == "http://"@ && p == 80) || (protocol == "https://"@ && p == 443) {
            with_host
        } else {
            with_host + ":"@ + decimal(p as nat)
        },
        None => with_host,
    };
    if pathname.len() == 0 {
        with_port
    } else if pathname[0] == '/' {
        with_port + pathname
    } else {
        with_port + "/"@ + pathname
    }
}

/// Builds a URL text from its parts.
pub fn build_full_url(
    protocol: &str,
    host: &str,
    port: Option<u16>,
    pathname: &str,
    username: Option<&str>,
) -> (r: String)
    ensures
        r@ == full_url(
            protocol@,
            host@,
            port,
            pathname@,
            match username {
                Some(u) => Some(u@),
                None => None,
            },
        ),
{
    let mut url = owned(protocol);
    let pv = chars_of(protocol);
    let sep = chars_of("://");
    if ends_with_chars(&pv, &sep) {
    } else if !protocol.is_empty() {
        url.append("://");
    }
    match username {
        Some(u) => {
            if !u.is_empty() {
                url.append(u);
                url.append("@");
            }
        },
        None => {},
    }
    url.append(host);
    match port {
        Some(p) => {
            let default_http = text_equals(protocol, "http://") && p == 80;
            let default_https = text_equals(protocol, "https://") && p == 443;
            if !default_http && !default_https {
                url.append(":");
                push_decimal(&mut url, p as u64);
            }
        },
        None => {},
    }
    if !pathname.is_empty() {
        if pathname.get_char(0) != '/' {
            url.append("/");
        }
        url.append(pathname);
    }
    url
}

/// A host URL split into the parts this tool keeps.
#[derive(Debug, Clone)]
pub struct ParsedHost {
    pub protocol: String,
    pub host: String,
    pub port: Option<u16>,
    pub pathname: String,
    pub username: String,
    pub password: String,
}

/// The mathematical value of a [`ParsedHost`].
pub ghost struct ParsedHostView {
    pub protocol: Seq<char>,
    pub host: Seq<char>,
    pub port: Option<u16>,
    pub pathname: Seq<char>,
    pub username: Seq<char>,
    pub password: Seq<char>,
}

impl View for ParsedHost {
    type V = ParsedHostView;

    open spec fn view(&self) -> ParsedHostView {
        ParsedHostView {
            protocol: self.protocol@,
            host: self.host@,
            port: self.port,
            pathname: self.pathname@,
            username: self.username@,
            password: self.password@,
        }
    }
}

impl ParsedHost {
    /// The URL without the user name.
    pub fn to_string(&self) -> (r: String)
        ensures
            r@ == full_url(self@.protocol, self@.host, self@.port, self@.pathname, None),
    {
        build_full_url(self.protocol.as_str(), self.host.as_str(), self.port, self.pathname.as_str(), None)
    }

    /// The URL with the user name, for showing to the user.
    pub fn display(&self) -> (r: String)
        ensures
            r@ == full_url(
                self@.protocol,
                self@.host,
                self@.port,
                self@.pathname,
                Some(self@.username),
            ),
    {
        build_full_url(
            self.protocol.as_str(),
            self.host.as_str(),
            self.port,
            self.pathname.as_str(),
            Some(self.username.as_str()),
        )
    }
}

/// Why a host text was refused.
#[derive(Debug)]
pub enum HostError {
    /// The URL parser refused the text (held here as its error's text).
    InvalidUrl(String),
    /// The URL carries a query string (held here without the `?`).
    QueryNotSupported(String),
    /// The URL carries a fragment (held here without the `#`).
    FragmentNotSupported(String),
}

impl HostError {
    /// The message shown for the error.
    pub fn message(&self) -> (r: String)
        ensures
            self matches HostError::InvalidUrl(m) ==> r@ == m@,
            self matches HostError::QueryNotSupported(q) ==> r@ == "URL query string not supported: '?"@
                + q@ + "'"@,
            self matches HostError::FragmentNotSupported(f) ==> r@ == "URL fragment not supported: '#"@
                + f@ + "'"@,
    {
        match self {
            HostError::InvalidUrl(m) => m.clone(),
            HostError::QueryNotSupported(q) => {
                let mut m = owned("URL query string not supported: '?");
                m.append(q.as_str());
                m.append("'");
                m
            },
            HostError::FragmentNotSupported(f) => {
                let mut m = owned("URL fragment not supported: '#");
                m.append(f.as_str());
                m.append("'");
                m
            },
        }
    }
}

/// The text handed to the URL parser: the trimmed input, with `http://`
/// in front when it has no scheme separator.
pub open spec fn url_candidate(input: Seq<char>) -> Seq<char> {
    let t = trim(input);
    if contains(t, "://"@) {
        t
    } else {
        "http://"@ + t
    }
}

/// The host parts kept from a parsed URL: the scheme as protocol, the host
/// (empty when there is none), port, path, user name and password (empty
/// when there is none).
pub open spec fn host_of_parts(p: UrlPartsView) -> ParsedHostView {
    ParsedHostView {
        protocol: p.scheme,
        host: match p.host {
            Some(h) => h,
            None => Seq::empty(),
        },
        port: p.port,
        pathname: p.path,
        username: p.username,
        password: match p.password {
            Some(w) => w,
            None => Seq::empty(),
        },
    }
}

/// The parsed host for an input, where it is accepted: the parser must take
/// it, and it may carry neither query nor fragment.
pub open spec fn parsed_host(input: Seq<char>) -> Option<ParsedHostView> {
    match url_parse(url_candidate(input)) {
        Some(p) => if p.query is None && p.fragment is None {
            Some(host_of_parts(p))
        } else {
            None
        },
        None => None,
    }
}

/// The text handed to the URL parser for an input (`url_candidate`).
pub fn candidate_text(input: &str) -> (r: String)
    ensures
        r@ == url_candidate(input@),
{
    let t = trim_text(input);
    let tv = chars_of(t.as_str());
    let sep = chars_of("://");
    if contains_chars(&tv, &sep) {
        t
    } else {
        let mut c = owned("http://");
        c.append(t.as_str());
        c
    }
}

/// Whether a character ends the authority part of a URL text.
pub open spec fn ends_authority(c: char) -> bool {
    c == '/' || c == '?' || c == '#' || c == '\\'
}

/// What follows the first `://` of a text (nothing where it has none).
pub open spec fn after_scheme(t: Seq<char>) -> Seq<char>
    decreases t.len(),
{
    if t.len() < 3 {
        Seq::empty()
    } else if t[0] == ':' && t[1] == '/' && t[2] == '/' {
        t.skip(3)
    } else {
        after_scheme(t.drop_first())
    }
}

/// The leading part of a text up to the first character that ends an
/// authority.
pub open spec fn authority(r: Seq<char>) -> Seq<char>
    decreases r.len(),
{
    if r.len() == 0 || ends_authority(r[0]) {
        Seq::empty()
    } else {
        seq![r[0]] + authority(r.drop_first())
    }
}

/// The part of an authority after its last `@` (all of it where it has none).
pub open spec fn host_and_port(a: Seq<char>) -> Seq<char>
    decreases a.len(),
{
    if a.len() == 0 {
        a
    } else if a.last() == '@' {
        Seq::empty()
    } else {
        host_and_port(a.drop_last()).push(a.last())
    }
}

/// Whether a character is an ASCII digit.
pub open spec fn is_digit(c: char) -> bool {
    '0' <= c <= '9'
}

/// Whether a host-and-port text ends in `:` and at least one digit.
pub open spec fn ends_with_port(h: Seq<char>) -> bool {
    exists|k: int| 0 <= k < h.len() - 1 && h[k] == ':' && forall|j: int| k < j < h.len() ==> #[trigger] is_digit(h[j])
}

/// Whether a URL text writes a port after its host.
pub open spec fn written_port(t: Seq<char>) -> bool {
    ends_with_port(host_and_port(authority(after_scheme(t))))
}

fn scheme_end(v: &Vec<char>) -> (r: usize)
    ensures
        r <= v.len(),
        after_scheme(v@) == v@.skip(r as int),
{
    let mut i: usize = 0;
    assert(v@.skip(0) =~= v@);
    while i < v.len() && v.len() - i >= 3
        invariant
            i <= v.len(),
            after_scheme(v@) == after_scheme(v@.skip(i as int)),
        decreases v.len() - i,
    {
        if v[i] == ':' && v[i + 1] == '/' && v[i + 2] == '/' {
            assert(v@.skip(i as int).skip(3) =~= v@.skip(i + 3));
            return i + 3;
        }
        assert(v@.skip(i as int).drop_first() =~= v@.skip(i + 1));
        i = i + 1;
    }
    assert(v@.skip(v.len() as int) =~= Seq::<char>::empty());
    v.len()
}

fn ends_authority_char(c: char) -> (r: bool)
    ensures
        r == ends_authority(c),
{
    c == '/' || c == '?' || c == '#' || c == '\\'
}

fn authority_end(v: &Vec<char>, s: usize) -> (e: usize)
    requires
        s <= v.len(),
    ensures
        s <= e <= v.len(),
        authority(v@.skip(s as int)) == v@.subrange(s as int, e as int),
{
    let mut j: usize = s;
    assert(v@.subrange(s as int, s as int) + v@.skip(s as int) =~= v@.skip(s as int));
    assert(v@.subrange(s as int, s as int) =~= Seq::<char>::empty());
    while j < v.len() && !ends_authority_char(v[j])
        invariant
            s <= j <= v.len(),
            authority(v@.skip(s as int)) == v@.subrange(s as int, j as int) + authority(v@.skip(j as int)),
        decreases v.len() - j,
    {
        assert(v@.skip(j as int).drop_first() =~= v@.skip(j + 1));
        assert(v@.subrange(s as int, j + 1) =~= v@.subrange(s as int, j as int) + seq![v@[j as int]]);
        assert(v@.subrange(s as int, j as int) + (seq![v@[j as int]] + authority(v@.skip(j + 1)))
            =~= v@.subrange(s as int, j + 1) + authority(v@.skip(j + 1)));
        j = j + 1;
    }
    assert(v@.subrange(s as int, j as int) + Seq::<char>::empty() =~= v@.subrange(s as int, j as int));
    j
}

fn host_start(v: &Vec<char>, s: usize, e: usize) -> (b: usize)
    requires
        s <= e <= v.len(),
    ensures
        s <= b <= e,
        host_and_port(v@.subrange(s as int, e as int)) == v@.subrange(b as int, e as int),
{
    let mut k: usize = e;
    assert(v@.subrange(e as int, e as int) =~= Seq::<char>::empty());
    assert(host_and_port(v@.subrange(s as int, e as int)) + Seq::<char>::empty()
        =~= host_and_port(v@.subrange(s as int, e as int)));
    while k > s && v[k - 1] != '@'
        invariant
            s <= k <= e <= v.len(),
            host_and_port(v@.subrange(s as int, e as int)) == host_and_port(v@.subrange(s as int, k as int))
                + v@.subrange(k as int, e as int),
        decreases k,
    {
        let ghost a = v@.subrange(s as int, k as int);
        assert(a.drop_last() =~= v@.subrange(s as int, k - 1));
        assert(a.last() == v@[k - 1]);
        assert(host_and_port(a) == host_and_port(a.drop_last()).push(v@[k - 1]));
        assert(host_and_port(a.drop_last()).push(v@[k - 1]) + v@.subrange(k as int, e as int)
            =~= host_and_port(a.drop_last()) + v@.subrange(k - 1, e as int));
        k = k - 1;
    }
    proof {
        let a = v@.subrange(s as int, k as int);
        if k == s {
            assert(a =~= Seq::<char>::empty());
        } else {
            assert(a.last() == v@[k - 1]);
        }
        assert(host_and_port(a) =~= Seq::<char>::empty());
        assert(Seq::<char>::empty() + v@.subrange(k as int, e as int) =~= v@.subrange(k as int, e as int));
    }
    k
}

fn is_digit_char(c: char) -> (r: bool)
    ensures
        r == is_digit(c),
{
    '0' <= c && c <= '9'
}

/// Whether a URL text writes a port after its host (`written_port`).
pub fn has_written_port(text: &str) -> (r: bool)
    ensures
        r == written_port(text@),
{
    let v = chars_of(text);
    let s = scheme_end(&v);
    let e = authority_end(&v, s);
    let b = host_start(&v, s, e);
    let ghost h = v@.subrange(b as int, e as int);
    assert(h == host_and_port(authority(after_scheme(text@))));
    let mut m: usize = e;
    while m > b && is_digit_char(v[m - 1])
        invariant
            b <= m <= e <= v.len(),
            forall|j: int| m <= j < e ==> #[trigger] is_digit(v@[j]),
        decreases m,
    {
        m = m - 1;
    }
    let r = m < e && m > b && v[m - 1] == ':';
    proof {
        if r {
            let k = m - 1 - b;
            assert(h[k] == ':');
            assert forall|j: int| k < j < h.len() implies #[trigger] is_digit(h[j]) by {
                assert(h[j] == v@[b + j]);
            }
        } else if ends_with_port(h) {
            let k = choose|k: int| 0 <= k < h.len() - 1 && h[k] == ':' && forall|j: int| k < j < h.len() ==> #[trigger] is_digit(h[j]);
            assert(h[k] == v@[b + k]);
            assert(!is_digit(v@[b + k]));
            if m == b {
                assert(is_digit(v@[b + k]));
            } else {
                assert(!is_digit(v@[m - 1]));
                if m - 1 > b + k {
                    assert(is_digit(h[m - 1 - b]));
                    assert(h[m - 1 - b] == v@[m - 1]);
                } else if m - 1 < b + k {
                    assert(is_digit(v@[b + k]));
                }
            }
        }
    }
    r
}

/// Parses a host as the user typed it.
pub fn parse_host_url(input: &str) -> (r: Result<ParsedHost, HostError>)
    ensures
        r matches Ok(h) ==> parsed_host(input@) == Some(h@),
        parsed_host(input@) is Some <==> r is Ok,
        url_parse(url_candidate(input@)) is None <==> r matches Err(HostError::InvalidUrl(_)),
        r matches Err(HostError::InvalidUrl(m)) ==> m@ == url_error_message(url_candidate(input@)),
        url_parse(url_candidate(input@)) matches Some(p) ==> (match p.query {
            Some(q) => r matches Err(HostError::QueryNotSupported(qs)) && qs@ == q,
            None => match p.fragment {
                Some(f) => r matches Err(HostError::FragmentNotSupported(fs)) && fs@ == f,
                None => r is Ok,
            },
        }),
{
    let candidate = candidate_text(input);
    match parse_url(candidate.as_str()) {
        Err(e) => Err(HostError::InvalidUrl(e)),
        Ok(parts) => host_from_parts(parts),
    }
}

/// The host kept from the parts of a parsed URL: refused where they carry a
/// query or (else) a fragment, otherwise `host_of_parts`.
pub fn host_from_parts(parts: UrlParts) -> (r: Result<ParsedHost, HostError>)
    ensures
        match parts@.query {
            Some(q) => r matches Err(HostError::QueryNotSupported(qs)) && qs@ == q,
            None => match parts@.fragment {
                Some(f) => r matches Err(HostError::FragmentNotSupported(fs)) && fs@ == f,
                None => r matches Ok(h) && h@ == host_of_parts(parts@),
            },
        },
{
    let ghost pv = parts@;
    match parts.query {
        Some(q) => {
            return Err(HostError::QueryNotSupported(q));
        },
        None => {},
    }
    match parts.fragment {
        Some(f) => {
            return Err(HostError::FragmentNotSupported(f));
        },
        None => {},
    }
    let host = match parts.host {
        Some(h) => h,
        None => String::new(),
    };
    let password = match parts.password {
        Some(w) => w,
        None => String::new(),
    };
    let h = ParsedHost {
        protocol: parts.scheme,
        host,
        port: parts.port,
        pathname: parts.path,
        username: parts.username,
        password,
    };
    assert(h@ == host_of_parts(pv));
    Ok(h)
}

} // verus!
