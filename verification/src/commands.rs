//! The decisions behind the command-line commands: which credentials a
//! login uses, which URLs to try, how to register the handler, and how a
//! run is tagged.
use vstd::prelude::*;
use vstd::utf8::encode_utf8;
use crate::bindings::{base64_encode, base64_standard, opt_view};
use crate::bindings::{url_error_message, url_parse};
use crate::text::occurs_at;
use crate::host::{build_full_url, full_url, parse_host_url, parsed_host, url_candidate, HostError, ParsedHost, ParsedHostView};
use crate::models::{fail_tag, has_tag, ok_tag, PreferencesForUpdate, Torrent};
use crate::app_state::hash_position;
use crate::sort::torrent_views;
use crate::tags::outcome_tag;
use crate::text::{chars_of, contains, contains_chars, ends_with, ends_with_chars, owned, string_of_range, text_equals};
use crate::models::tags_have;

verus! {

/// The text without the copies of `c` at its end.
pub open spec fn strip_trailing(s: Seq<char>, c: char) -> Seq<char>
    decreases s.len(),
{
    if s.len() > 0 && s.last() == c { strip_trailing(s.drop_last(), c) } else { s }
}

/// The text without the copies of `c` at its start.
pub open spec fn strip_leading(s: Seq<char>, c: char) -> Seq<char>
    decreases s.len(),
{
    if s.len() > 0 && s[0] == c { strip_leading(s.drop_first(), c) } else { s }
}

/// The bounds of `v` without the copies of `c` at its start and end.
fn strip_bounds(v: &Vec<char>, c: char, front: bool) -> (r: (usize, usize))
    ensures
        r.0 <= r.1 <= v.len(),
        front ==> v@.subrange(r.0 as int, r.1 as int) == strip_trailing(strip_leading(v@, c), c),
        !front ==> v@.subrange(r.0 as int, r.1 as int) == strip_trailing(v@, c),
{
    let mut i: usize = 0;
    assert(v@.skip(0) =~= v@);
    if front {
        while i < v.len() && v[i] == c
            invariant
                i <= v.len(),
                strip_leading(v@, c) == strip_leading(v@.skip(i as int), c),
            decreases v.len() - i,
        {
            assert(v@.skip(i as int).drop_first() =~= v@.skip(i + 1));
            i = i + 1;
        }
    }
    let ghost t = v@.skip(i as int);
    assert(front ==> strip_leading(v@, c) == t);
    assert(!front ==> t =~= v@);
    let mut j: usize = v.len();
    assert(t.take(v.len() - i) =~= t);
    while j > i && v[j - 1] == c
        invariant
            i <= j <= v.len(),
            t == v@.skip(i as int),
            strip_trailing(t, c) == strip_trailing(t.take(j - i), c),
        decreases j,
    {
        assert(t.take(j - i).drop_last() =~= t.take(j - i - 1));
        assert(t.take(j - i).last() == v@[j - 1]);
        j = j - 1;
    }
    assert(t.take(j - i) =~= v@.subrange(i as int, j as int));
    if j > i {
        assert(t.take(j - i).last() == v@[j - 1]);
    }
    (i, j)
}

/// `str::trim_matches('"')`: the torrent id argument without surrounding quotes.
pub fn torrent_id_argument(raw: &str) -> (r: String)
    ensures
        r@ == strip_trailing(strip_leading(raw@, '"'), '"'),
{
    let v = chars_of(raw);
    let (i, j) = strip_bounds(&v, '"', true);
    string_of_range(&v, i, j)
}

/// The first torrent whose hash is `id`.
pub fn find_torrent<'a>(torrents: &'a Vec<Torrent>, id: &str) -> (r: Option<&'a Torrent>)
    ensures
        match hash_position(torrent_views(torrents@), id@) {
            Some(i) => r matches Some(t) && t@ == torrent_views(torrents@)[i],
            None => r is None,
        },
{
    let ghost s = torrent_views(torrents@);
    let mut i: usize = 0;
    while i < torrents.len()
        invariant
            s == torrent_views(torrents@),
            i <= torrents.len(),
            hash_position(s.take(i as int), id@) is None,
        decreases torrents.len() - i,
    {
        assert(s.take(i + 1).drop_last() =~= s.take(i as int));
        if text_equals(torrents[i].hash.as_str(), id) {
            proof {
                crate::app_state::lemma_hash_position_prefix(s, id@, i as int);
            }
            return Some(&torrents[i]);
        }
        i = i + 1;
    }
    assert(s.take(torrents.len() as int) =~= s);
    None
}

/// The tag to add and the tag to remove after a run of the `run` command:
/// the outcome's tag where the torrent lacks it, the opposite tag where it
/// has it.
pub fn tag_changes(tags: &str, success: bool) -> (r: (Option<&'static str>, Option<&'static str>))
    ensures
        ({
            let add = if success { ok_tag() } else { fail_tag() };
            let remove = if success { fail_tag() } else { ok_tag() };
            &&& (r.0 is Some <==> !has_tag(tags@, add)) && (r.0 matches Some(a) ==> a@ == add)
            &&& (r.1 is Some <==> has_tag(tags@, remove)) && (r.1 matches Some(x) ==> x@ == remove)
        }),
{
    let add = outcome_tag(success);
    let remove = outcome_tag(!success);
    let a = if !tags_have(tags, add) { Some(add) } else { None };
    let x = if tags_have(tags, remove) { Some(remove) } else { None };
    (a, x)
}

/// Why a login was refused before connecting.
#[derive(Debug, Clone, Copy, PartialEq, Eq, Structural)]
pub enum LoginError {
    /// A user name came without a password.
    PasswordRequired,
}

/// `Some` of a non-empty text, `None` of the empty one.
pub open spec fn non_empty(s: Seq<char>) -> Option<Seq<char>> {
    if s.len() == 0 { None } else { Some(s) }
}

/// The first of three optional texts that is present, else the empty text.
pub open spec fn first_present(a: Option<Seq<char>>, b: Option<Seq<char>>, c: Option<Seq<char>>) -> Seq<char> {
    match a {
        Some(x) => x,
        None => match b {
            Some(x) => x,
            None => match c {
                Some(x) => x,
                None => Seq::empty(),
            },
        },
    }
}

/// The user name a login uses: the option, else the environment, else the
/// one in the URL.
pub open spec fn login_username(parsed: ParsedHostView, arg: Option<Seq<char>>, env: Option<Seq<char>>) -> Seq<char> {
    first_present(arg, env, non_empty(parsed.username))
}

/// The password a login uses: a password file's contents without trailing
/// newlines and then carriage returns; else the option, the environment,
/// the one in the URL.
pub open spec fn login_password(
    parsed: ParsedHostView,
    file: Option<Seq<char>>,
    arg: Option<Seq<char>>,
    env: Option<Seq<char>>,
) -> Seq<char> {
    match file {
        Some(f) => strip_trailing(strip_trailing(f, '\n'), '\r'),
        None => first_present(arg, env, non_empty(parsed.password)),
    }
}

/// The user name of a login: the option wins whenever it is given; without
/// it the environment's; without both the one written in the URL.
pub proof fn law_username_option_wins(parsed: ParsedHostView, arg: Option<Seq<char>>, env: Option<Seq<char>>)
    ensures
        arg is Some ==> login_username(parsed, arg, env) == arg->0,
        arg is None && env is Some ==> login_username(parsed, arg, env) == env->0,
        arg is None && env is None ==> login_username(parsed, arg, env) == parsed.username,
{
}

/// The password of a login: a password file's contents (trailing newlines,
/// then carriage returns, cut off), whatever the option, the environment
/// and the URL hold; without a file the option wins whenever it is given,
/// then the environment, then the password written in the URL.
pub proof fn law_password_option_wins(
    parsed: ParsedHostView,
    file: Option<Seq<char>>,
    arg: Option<Seq<char>>,
    env: Option<Seq<char>>,
    arg2: Option<Seq<char>>,
    env2: Option<Seq<char>>,
)
    ensures
        file is Some ==> login_password(parsed, file, arg, env) == login_password(parsed, file, arg2, env2),
        file is None && arg is Some ==> login_password(parsed, file, arg, env) == arg->0,
        file is None && arg is None && env is Some ==> login_password(parsed, file, arg, env) == env->0,
        file is None && arg is None && env is None ==> login_password(parsed, file, arg, env) == parsed.password,
{
}

fn first_present_of(a: Option<String>, b: Option<String>, c: &String) -> (r: String)
    ensures
        r@ == first_present(opt_view(a), opt_view(b), non_empty(c@)),
{
    match a {
        Some(x) => x,
        None => match b {
            Some(x) => x,
            None => c.clone(),
        },
    }
}

/// The user name and password of a login, refused where a user name comes
/// without a password.
pub fn resolve_login(
    parsed: &ParsedHost,
    username_arg: Option<String>,
    username_env: Option<String>,
    password_file: Option<String>,
    password_arg: Option<String>,
    password_env: Option<String>,
) -> (r: Result<(String, String), LoginError>)
    ensures
        ({
            let u = login_username(parsed@, opt_view(username_arg), opt_view(username_env));
            let p = login_password(parsed@, opt_view(password_file), opt_view(password_arg), opt_view(password_env));
            &&& (u.len() > 0 && p.len() == 0) <==> r is Err
            &&& r matches Ok(pair) ==> pair.0@ == u && pair.1@ == p
        }),
{
    let username = first_present_of(username_arg, username_env, &parsed.username);
    let password = match password_file {
        Some(contents) => {
            let v = chars_of(contents.as_str());
            let (i, j) = strip_bounds(&v, '\n', false);
            let once = string_of_range(&v, i, j);
            let w = chars_of(once.as_str());
            let (i2, j2) = strip_bounds(&w, '\r', false);
            string_of_range(&w, i2, j2)
        },
        None => first_present_of(password_arg, password_env, &parsed.password),
    };
    if username.unicode_len() > 0 && password.unicode_len() == 0 {
        return Err(LoginError::PasswordRequired);
    }
    Ok((username, password))
}

/// A URL to try when connecting, and how it is shown while trying.
pub struct Candidate {
    pub url: String,
    pub shown: String,
}

/// The ports tried: the one given, else 8080, 443 and 80.
pub open spec fn candidate_ports(port: Option<u16>) -> Seq<u16> {
    match port {
        Some(p) => seq![p],
        None => seq![8080u16, 443u16, 80u16],
    }
}

/// The protocol of the candidates (`http://` where the URL has none).
pub open spec fn candidate_protocol(h: ParsedHostView) -> Seq<char> {
    if h.protocol.len() == 0 { "http://"@ } else { h.protocol }
}

/// The URLs tried for a host, in order, and how each is shown.
pub fn connection_candidates(host: &str, username: &str) -> (r: Result<Vec<Candidate>, HostError>)
    ensures
        parsed_host(host@) is None <==> r is Err,
        url_parse(url_candidate(host@)) is None <==> r matches Err(HostError::InvalidUrl(_)),
        r matches Err(HostError::InvalidUrl(m)) ==> m@ == url_error_message(url_candidate(host@)),
        url_parse(url_candidate(host@)) matches Some(p) ==> (match p.query {
            Some(q) => r matches Err(HostError::QueryNotSupported(qs)) && qs@ == q,
            None => match p.fragment {
                Some(f) => r matches Err(HostError::FragmentNotSupported(fs)) && fs@ == f,
                None => r is Ok,
            },
        }),
        r matches Ok(cs) ==> ({
            let h = parsed_host(host@)->0;
            let ports = candidate_ports(h.port);
            &&& cs.len() == ports.len()
            &&& forall|i: int| 0 <= i < cs.len() ==> {
                &&& #[trigger] cs@[i].url@ == full_url(candidate_protocol(h), h.host, Some(ports[i]), h.pathname, None)
                &&& cs@[i].shown@ == full_url(candidate_protocol(h), h.host, Some(ports[i]), h.pathname, non_empty(username@))
            }
        }),
{
    let parsed = match parse_host_url(host) {
        Ok(p) => p,
        Err(e) => return Err(e),
    };
    let protocol = if parsed.protocol.unicode_len() == 0 { owned("http://") } else { parsed.protocol.clone() };
    let mut ports: Vec<u16> = Vec::new();
    match parsed.port {
        Some(p) => ports.push(p),
        None => {
            ports.push(8080);
            ports.push(443);
            ports.push(80);
        },
    }
    assert(ports@ =~= candidate_ports(parsed.port));
    let user = if username.unicode_len() == 0 { None } else { Some(username) };
    let mut out: Vec<Candidate> = Vec::new();
    let mut i: usize = 0;
    while i < ports.len()
        invariant
            i <= ports.len(),
            out.len() == i,
            parsed_host(host@) == Some(parsed@),
            ports@ == candidate_ports(parsed@.port),
            protocol@ == candidate_protocol(parsed@),
            match user { Some(u) => Some(u@), None => None } == non_empty(username@),
            forall|k: int| 0 <= k < i ==> {
                &&& #[trigger] out@[k].url@ == full_url(protocol@, parsed@.host, Some(ports@[k]), parsed@.pathname, None)
                &&& out@[k].shown@ == full_url(protocol@, parsed@.host, Some(ports@[k]), parsed@.pathname, non_empty(username@))
            },
        decreases ports.len() - i,
    {
        let url = build_full_url(protocol.as_str(), parsed.host.as_str(), Some(ports[i]), parsed.pathname.as_str(), None);
        let shown = build_full_url(protocol.as_str(), parsed.host.as_str(), Some(ports[i]), parsed.pathname.as_str(), user);
        out.push(Candidate { url, shown });
        i = i + 1;
    }
    Ok(out)
}

/// The on-completion command that registers this tool.
pub open spec fn target_script(path: Seq<char>, config_dir: Option<Seq<char>>) -> Seq<char> {
    match config_dir {
        Some(c) => path + " --config "@ + c + " run \"%K\""@,
        None => path + " run \"%K\""@,
    }
}

/// The on-completion command for the executable at `script_path`, with
/// the configuration directory where one is given.
pub fn register_target(script_path: &str, config_dir: Option<&str>) -> (r: String)
    ensures
        r@ == target_script(script_path@, match config_dir { Some(c) => Some(c@), None => None }),
{
    let mut r = owned(script_path);
    match config_dir {
        Some(c) => {
            r.append(" --config ");
            r.append(c);
            r.append(" run \"%K\"");
        },
        None => {
            r.append(" run \"%K\"");
        },
    }
    r
}

/// What registering does, given the script qBittorrent has.
#[derive(Debug, Clone, Copy, PartialEq, Eq, Structural)]
pub enum RegisterPlan {
    /// This tool is set but disabled: enable it, leaving the script.
    EnableExisting,
    /// This tool is registered under another path ending the same way.
    AlreadyRegisteredPartial,
    /// This tool is registered in another form.
    AlreadyRegistered,
    /// Another script is set and no force was given: refuse.
    ConflictingScript,
    /// Set and enable the target script.
    Register,
}

/// The registration decision.
pub open spec fn registration(enabled: bool, current: Seq<char>, target: Seq<char>, force: bool) -> RegisterPlan {
    let ours = contains(current, "qb-och run \"%K\""@);
    if !enabled && ours {
        RegisterPlan::EnableExisting
    } else if enabled && ours && !(force || current == target) {
        if ends_with(current, "run \"%K\""@) {
            RegisterPlan::AlreadyRegisteredPartial
        } else {
            RegisterPlan::AlreadyRegistered
        }
    } else if current.len() > 0 && !force {
        RegisterPlan::ConflictingScript
    } else {
        RegisterPlan::Register
    }
}

/// What registering decides, for every setting found:
/// - a disabled script of ours is enabled as it stands;
/// - an enabled script of ours that differs from the target is left alone
///   unless forced;
/// - without force, any other non-empty script, enabled or not, is a
///   conflict and is never overwritten;
/// - with force, or where no script is set, the target is registered.
pub proof fn law_registration_respects_other_scripts(enabled: bool, current: Seq<char>, target: Seq<char>, force: bool)
    ensures
        ({
            let ours = contains(current, "qb-och run \"%K\""@);
            let plan = registration(enabled, current, target, force);
            &&& !enabled && ours ==> plan == RegisterPlan::EnableExisting
            &&& enabled && ours && !force && current != target ==> (plan == RegisterPlan::AlreadyRegistered
                || plan == RegisterPlan::AlreadyRegisteredPartial)
            &&& !force && current.len() > 0 && !ours ==> plan == RegisterPlan::ConflictingScript
            &&& !force && current.len() > 0 ==> plan != RegisterPlan::Register
            &&& force && !(!enabled && ours) ==> plan == RegisterPlan::Register
            &&& current.len() == 0 && !(!enabled && ours) ==> plan == RegisterPlan::Register
        }),
{
    let marker = "qb-och run \"%K\""@;
    reveal_strlit("qb-och run \"%K\"");
    if current.len() == 0 && contains(current, marker) {
        let i = choose|i: int| occurs_at(current, marker, i);
        assert(marker.len() > 0);
    }
}

/// Decides how to register, from qBittorrent's current script settings.
pub fn plan_registration(script_enabled: bool, current: &str, target: &str, force: bool) -> (r: RegisterPlan)
    ensures
        r == registration(script_enabled, current@, target@, force),
{
    let cv = chars_of(current);
    let marker = chars_of("qb-och run \"%K\"");
    let tail = chars_of("run \"%K\"");
    let ours = contains_chars(&cv, &marker);
    if !script_enabled && ours {
        return RegisterPlan::EnableExisting;
    }
    if script_enabled && ours {
        if force || text_equals(current, target) {
        } else if ends_with_chars(&cv, &tail) {
            return RegisterPlan::AlreadyRegisteredPartial;
        } else {
            return RegisterPlan::AlreadyRegistered;
        }
    }
    if current.unicode_len() > 0 && !force {
        return RegisterPlan::ConflictingScript;
    }
    RegisterPlan::Register
}

/// The settings change that unregisters: disabled, with an empty script.
pub fn unregister_update() -> (r: PreferencesForUpdate)
    ensures
        r.script_enabled == Some(false),
        r.script matches Some(s) && s@.len() == 0,
{
    PreferencesForUpdate { script_enabled: Some(false), script: Some(String::new()) }
}

/// The settings change a plan makes: enabling leaves the script, registering
/// sets it; the other plans change nothing.
pub fn registration_update(plan: RegisterPlan, target: &str) -> (r: Option<PreferencesForUpdate>)
    ensures
        plan == RegisterPlan::EnableExisting ==> (r matches Some(u) && u.script_enabled == Some(true) && u.script is None),
        plan == RegisterPlan::Register ==> (r matches Some(u) && u.script_enabled == Some(true) && (u.script matches Some(s)
            && s@ == target@)),
        plan != RegisterPlan::EnableExisting && plan != RegisterPlan::Register ==> r is None,
{
    match plan {
        RegisterPlan::EnableExisting => Some(PreferencesForUpdate { script_enabled: Some(true), script: None }),
        RegisterPlan::Register => Some(PreferencesForUpdate { script_enabled: Some(true), script: Some(owned(target)) }),
        _ => None,
    }
}

/// The HTTP basic authorization header for a user name and password.
pub fn basic_auth_header(username: &str, password: &str) -> (r: String)
    ensures
        r@ == "Basic "@ + base64_standard(encode_utf8(username@ + ":"@ + password@)),
{
    let mut d = owned(username);
    d.append(":");
    d.append(password);
    let encoded = base64_encode(d.as_str().as_bytes());
    let mut r = owned("Basic ");
    r.append(encoded.as_str());
    r
}

/// A forced registration never stops at what is set: it registers, or
/// enables the handler that is already set.
pub proof fn law_forced_registration_proceeds(enabled: bool, current: Seq<char>, target: Seq<char>)
    ensures
        registration(enabled, current, target, true) == RegisterPlan::Register
            || registration(enabled, current, target, true) == RegisterPlan::EnableExisting,
{
}

} // verus!
