//! Calls into std and into outside crates whose behaviour Verus cannot see,
//! with the spec functions their contracts speak of. Each item marked
//! `external_body` is trusted: its contract restates the documented
//! behaviour of the function it calls. The whitespace test is written out
//! and proved instead.
use vstd::prelude::*;
use base64::Engine;
use chrono::TimeZone;

verus! {

/// The Unicode `White_Space` property, the set of characters that
/// `char::is_whitespace` documents as whitespace.
pub open spec fn is_white_space(c: char) -> bool {
    let v = c as u32;
    ||| 0x9 <= v <= 0xd
    ||| v == 0x20
    ||| v == 0x85
    ||| v == 0xa0
    ||| v == 0x1680
    ||| 0x2000 <= v <= 0x200a
    ||| v == 0x2028
    ||| v == 0x2029
    ||| v == 0x202f
    ||| v == 0x205f
    ||| v == 0x3000
}

/// Whether a character has the Unicode `White_Space` property, as
/// `char::is_whitespace` decides it.
pub fn char_is_whitespace(c: char) -> (r: bool)
    ensures
        r == is_white_space(c),
{
    let v = c as u32;
    (0x9 <= v && v <= 0xd) || v == 0x20 || v == 0x85 || v == 0xa0 || v == 0x1680 || (0x2000 <= v && v
        <= 0x200a) || v == 0x2028 || v == 0x2029 || v == 0x202f || v == 0x205f || v == 0x3000
}

/// `String::push`: appends one character.
#[verifier::external_body]
pub fn push_char(s: &mut String, c: char)
    ensures
        final(s)@ == old(s)@.push(c),
{
    s.push(c)
}

/// `String::pop`: removes and returns the last character, if any.
#[verifier::external_body]
pub fn pop_char(s: &mut String) -> (r: Option<char>)
    ensures
        old(s)@.len() == 0 ==> r is None && final(s)@ == old(s)@,
        old(s)@.len() > 0 ==> r == Some(old(s)@.last()) && final(s)@ == old(s)@.drop_last(),
{
    s.pop()
}

/// What `str::to_lowercase` returns for a text (the Unicode lowercase mapping).
pub uninterp spec fn lowercase_text(s: Seq<char>) -> Seq<char>;

/// `str::to_lowercase`: its result is the lowercase mapping of the argument,
/// a function of the text alone.
#[verifier::external_body]
pub fn to_lowercase(s: &str) -> (r: String)
    ensures
        r@ == lowercase_text(s@),
{
    s.to_lowercase()
}

/// The parts of a parsed URL that this library reads.
pub struct UrlParts {
    pub scheme: String,
    pub username: String,
    pub password: Option<String>,
    pub host: Option<String>,
    pub port: Option<u16>,
    pub known_port: Option<u16>,
    pub path: String,
    pub query: Option<String>,
    pub fragment: Option<String>,
}

/// The mathematical value of [`UrlParts`].
pub ghost struct UrlPartsView {
    pub scheme: Seq<char>,
    pub username: Seq<char>,
    pub password: Option<Seq<char>>,
    pub host: Option<Seq<char>>,
    pub port: Option<u16>,
    pub known_port: Option<u16>,
    pub path: Seq<char>,
    pub query: Option<Seq<char>>,
    pub fragment: Option<Seq<char>>,
}

/// The view of an optional text.
pub open spec fn opt_view(o: Option<String>) -> Option<Seq<char>> {
    match o {
        Some(s) => Some(s@),
        None => None,
    }
}

impl View for UrlParts {
    type V = UrlPartsView;

    open spec fn view(&self) -> UrlPartsView {
        UrlPartsView {
            scheme: self.scheme@,
            username: self.username@,
            password: opt_view(self.password),
            host: opt_view(self.host),
            port: self.port,
            known_port: self.known_port,
            path: self.path@,
            query: opt_view(self.query),
            fragment: opt_view(self.fragment),
        }
    }
}

/// What `url::Url::parse` makes of a text, read through its accessors
/// (`scheme`, `username`, `password`, `host_str`, `port`,
/// `port_or_known_default`, `path`, `query`, `fragment`); `None` where it
/// returns an error.
pub uninterp spec fn url_parse(input: Seq<char>) -> Option<UrlPartsView>;

/// The `Display` text of the `url::ParseError` that `url::Url::parse`
/// returns for a text it refuses (each error kind has a fixed description).
pub uninterp spec fn url_error_message(input: Seq<char>) -> Seq<char>;

/// `url::Url::parse`, with the parsed URL read into [`UrlParts`] and a
/// refusal read as its error's `Display` text. It fails exactly where
/// `url_parse` is `None`, and otherwise yields `url_parse`'s parts.
#[verifier::external_body]
pub fn parse_url(input: &str) -> (r: Result<UrlParts, String>)
    ensures
        r is Ok <==> url_parse(input@) is Some,
        r matches Ok(p) ==> Some(p@) == url_parse(input@),
        r matches Err(m) ==> m@ == url_error_message(input@),
{
    let u = match url::Url::parse(input) {
        Ok(u) => u,
        Err(e) => return Err(e.to_string()),
    };
    Ok(UrlParts {
        scheme: u.scheme().to_string(),
        username: u.username().to_string(),
        password: u.password().map(|s| s.to_string()),
        host: u.host_str().map(|s| s.to_string()),
        port: u.port(),
        known_port: u.port_or_known_default(),
        path: u.path().to_string(),
        query: u.query().map(|s| s.to_string()),
        fragment: u.fragment().map(|s| s.to_string()),
    })
}

/// The character of the standard base64 alphabet for a 6-bit value.
pub open spec fn base64_digit(v: int) -> char {
    if v < 26 {
        (('A' as int) + v) as char
    } else if v < 52 {
        (('a' as int) + v - 26) as char
    } else if v < 62 {
        (('0' as int) + v - 52) as char
    } else if v == 62 {
        '+'
    } else {
        '/'
    }
}

/// Standard base64 (RFC 4648 alphabet, `=` padding) of a byte sequence.
pub open spec fn base64_standard(b: Seq<u8>) -> Seq<char>
    decreases b.len(),
{
    if b.len() == 0 {
        Seq::empty()
    } else {
        let b0 = b[0] as int;
        let b1 = if b.len() > 1 { b[1] as int } else { 0 };
        let b2 = if b.len() > 2 { b[2] as int } else { 0 };
        let c0 = base64_digit(b0 / 4);
        let c1 = base64_digit((b0 % 4) * 16 + b1 / 16);
        let c2 = base64_digit((b1 % 16) * 4 + b2 / 64);
        let c3 = base64_digit(b2 % 64);
        if b.len() == 1 {
            seq![c0, c1, '=', '=']
        } else if b.len() == 2 {
            seq![c0, c1, c2, '=']
        } else {
            seq![c0, c1, c2, c3] + base64_standard(b.skip(3))
        }
    }
}

/// `base64::engine::general_purpose::STANDARD.encode`: standard alphabet
/// with padding.
#[verifier::external_body]
pub fn base64_encode(bytes: &[u8]) -> (r: String)
    ensures
        r@ == base64_standard(bytes@),
{
    base64::engine::general_purpose::STANDARD.encode(bytes)
}

/// A UTC instant: whole seconds since the Unix epoch and the nanoseconds
/// past that second.
#[derive(Debug, Clone, Copy, PartialEq, Eq, Structural)]
pub struct UtcTime {
    pub secs: i64,
    pub nanos: u32,
}

/// `std::time::SystemTime`, carried through opaque.
#[verifier::external_type_specification]
#[verifier::external_body]
pub struct ExSystemTime(std::time::SystemTime);

/// `std::time::SystemTime::now`: the system clock's reading. The clock
/// decides the value; nothing is stated of it.
#[verifier::external_body]
pub(crate) fn system_time_now() -> (r: std::time::SystemTime) {
    std::time::SystemTime::now()
}

/// `SystemTime::duration_since(UNIX_EPOCH)`: the time since the Unix epoch,
/// `None` where the reading lies before it. Nothing more is stated: the
/// reading has no view here.
#[verifier::external_body]
pub(crate) fn since_unix_epoch(t: &std::time::SystemTime) -> (r: Option<core::time::Duration>) {
    match t.duration_since(std::time::UNIX_EPOCH) {
        Ok(d) => Some(d),
        Err(_) => None,
    }
}

/// `Duration::as_secs`: the whole seconds of a duration. The duration has
/// no view here, so nothing is stated of the number.
#[verifier::external_body]
pub(crate) fn duration_secs(d: &core::time::Duration) -> (r: u64) {
    d.as_secs()
}

/// `Duration::subsec_nanos`: the nanoseconds past the whole seconds, which
/// the documentation promises are below one billion.
#[verifier::external_body]
pub(crate) fn duration_subsec_nanos(d: &core::time::Duration) -> (r: u32)
    ensures
        r < 1_000_000_000,
{
    d.subsec_nanos()
}

/// What `chrono::Utc.timestamp_opt(secs, 0).single()` formatted with
/// `"%Y-%m-%d %H:%M:%S"` gives: `None` where chrono has no such instant.
pub uninterp spec fn utc_date_text(secs: int) -> Option<Seq<char>>;

/// `chrono::Utc.timestamp_opt(secs, 0).single()` then `format("%Y-%m-%d %H:%M:%S")`.
#[verifier::external_body]
pub fn format_utc_seconds(secs: i64) -> (r: Option<String>)
    ensures
        opt_view(r) == utc_date_text(secs as int),
{
    match chrono::Utc.timestamp_opt(secs, 0).single() {
        Some(dt) => Some(dt.format("%Y-%m-%d %H:%M:%S").to_string()),
        None => None,
    }
}

} // verus!
