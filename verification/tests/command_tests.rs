use qb_och::commands::{
    basic_auth_header, connection_candidates, find_torrent, plan_registration, register_target,
    registration_update, resolve_login, tag_changes, torrent_id_argument, unregister_update,
    LoginError, RegisterPlan,
};
use qb_och::host::{build_full_url, candidate_text, has_written_port, parse_host_url, HostError, ParsedHost};
use qb_och::models::Torrent;
use qb_och::script::{dash_or, script_environment, ScriptError, ScriptRunner};

fn torrent(hash: &str, name: &str) -> Torrent {
    Torrent {
        hash: hash.to_string(),
        name: name.to_string(),
        state: "uploading".to_string(),
        complete: true,
        size: 4096,
        size_total: 4096,
        speed_down: 0,
        speed_up: 0,
        num_seeds: 0,
        num_leeches: 0,
        num_complete: 0,
        num_incomplete: 0,
        category: "movies".to_string(),
        tags: "a, b".to_string(),
        content_path: "/dl/Movie".to_string(),
        root_path: "/dl/Movie".to_string(),
        save_path: "/dl".to_string(),
        ratio: "0.00".to_string(),
        added_on: 0,
        completion_on: None,
        tracker: "udp://t".to_string(),
        uploaded: 0,
        downloaded: 0,
        time_active: 0,
        seeding_time: None,
        infohash_v1: Some("v1hash".to_string()),
        infohash_v2: None,
    }
}

fn parsed(username: &str, password: &str) -> ParsedHost {
    ParsedHost {
        protocol: "http".to_string(),
        host: "h".to_string(),
        port: Some(8080),
        pathname: "/".to_string(),
        username: username.to_string(),
        password: password.to_string(),
    }
}

#[test]
fn placeholders_are_substituted() {
    let t = torrent("abc", "Movie");
    assert_eq!(ScriptRunner::process_arg("%N", &t, 3), "Movie");
    assert_eq!(ScriptRunner::process_arg("%K-%C-%Z", &t, 3), "abc-3-4096");
    assert_eq!(ScriptRunner::process_arg("%I/%J", &t, 0), "v1hash/-");
    assert_eq!(ScriptRunner::process_arg("[%L|%G|%T]", &t, 0), "[movies|a, b|udp://t]");
    assert_eq!(ScriptRunner::process_arg("%F %R %D", &t, 0), "/dl/Movie /dl/Movie /dl");
    assert_eq!(ScriptRunner::process_arg("plain%", &t, 0), "plain%");
}

#[test]
fn invocation_splits_words() {
    let t = torrent("abc", "Movie");
    let runner = ScriptRunner::new("  /bin/notify   --id %K  \"%N\" ".to_string());
    assert_eq!(runner.command(), "  /bin/notify   --id %K  \"%N\" ");
    let inv = runner.invocation(&t, 2).expect("a command");
    assert_eq!(inv.program, "/bin/notify");
    assert_eq!(inv.args, vec!["--id".to_string(), "abc".to_string(), "\"Movie\"".to_string()]);
    assert_eq!(inv.env.len(), 12);
    assert_eq!(inv.env[0], ("TORRENT_NAME".to_string(), "Movie".to_string()));
    assert_eq!(inv.env[6], ("TORRENT_NUM_FILES".to_string(), "2".to_string()));
    assert_eq!(inv.env[10], ("TORRENT_INFOHASH_V2".to_string(), "-".to_string()));
    assert_eq!(inv.env[11], ("TORRENT_ID".to_string(), "abc".to_string()));
    assert!(matches!(ScriptRunner::new("   ".to_string()).invocation(&t, 0), Err(ScriptError::EmptyCommand)));
    assert_eq!(script_environment(&t, 1)[7], ("TORRENT_SIZE".to_string(), "4096".to_string()));
    assert_eq!(dash_or(&None), "-");
    assert_eq!(dash_or(&Some("x".to_string())), "x");
}

#[test]
fn failed_run_record() {
    let t = torrent("abc", "Movie");
    let r = qb_och::models::ScriptResult::failed(&t, "/bin/x", "spawn failed");
    assert_eq!(r.name, "Movie");
    assert_eq!(r.hash, "abc");
    assert_eq!(r.script, "/bin/x");
    assert_eq!(r.stderr, "spawn failed");
    assert!(!r.success);
    assert!(r.exit_code.is_none());
}

#[test]
fn torrent_ids_and_lookup() {
    assert_eq!(torrent_id_argument("\"abc\""), "abc");
    assert_eq!(torrent_id_argument("\"\"abc"), "abc");
    assert_eq!(torrent_id_argument("abc"), "abc");
    let ts = vec![torrent("a", "A"), torrent("b", "B"), torrent("b", "B2")];
    assert_eq!(find_torrent(&ts, "b").map(|t| t.name.clone()), Some("B".to_string()));
    assert!(find_torrent(&ts, "z").is_none());
}

#[test]
fn tag_changes_after_run() {
    assert_eq!(tag_changes("", true), (Some("oc_ok"), None));
    assert_eq!(tag_changes("oc_fail", true), (Some("oc_ok"), Some("oc_fail")));
    assert_eq!(tag_changes("oc_ok", true), (None, None));
    assert_eq!(tag_changes("x, oc_ok", false), (Some("oc_fail"), Some("oc_ok")));
}

#[test]
fn login_resolution() {
    let p = parsed("", "");
    assert_eq!(resolve_login(&p, None, None, None, None, None), Ok((String::new(), String::new())));
    assert_eq!(
        resolve_login(&p, Some("admin".to_string()), None, None, None, None),
        Err(LoginError::PasswordRequired)
    );
    assert_eq!(
        resolve_login(&p, Some("admin".to_string()), None, Some("secret\r\n\n".to_string()), Some("x".to_string()), None),
        Ok(("admin".to_string(), "secret".to_string()))
    );
    assert_eq!(
        resolve_login(&p, None, Some("envuser".to_string()), None, None, Some("envpw".to_string())),
        Ok(("envuser".to_string(), "envpw".to_string()))
    );
    let q = parsed("urluser", "urlpw");
    assert_eq!(
        resolve_login(&q, Some(String::new()), None, None, None, None),
        Ok((String::new(), "urlpw".to_string()))
    );
    assert_eq!(
        resolve_login(&q, None, None, None, None, None),
        Ok(("urluser".to_string(), "urlpw".to_string()))
    );
}

#[test]
fn connection_candidates_try_ports() {
    let cs = connection_candidates("myhost", "admin").expect("parses");
    let urls: Vec<String> = cs.iter().map(|c| c.url.clone()).collect();
    assert_eq!(urls, vec!["http://myhost:8080/", "http://myhost:443/", "http://myhost:80/"]);
    assert_eq!(cs[0].shown, "http://admin@myhost:8080/");
    let one = connection_candidates("https://box:9000/qb", "").expect("parses");
    assert_eq!(one.len(), 1);
    assert_eq!(one[0].url, "https://box:9000/qb");
    assert_eq!(one[0].shown, "https://box:9000/qb");
    assert!(connection_candidates("http://h/?a=1", "").is_err());
}

#[test]
fn registration_decisions() {
    let target = register_target("/usr/bin/qb-och", None);
    assert_eq!(target, "/usr/bin/qb-och run \"%K\"");
    assert_eq!(register_target("/x/qb-och", Some("/cfg")), "/x/qb-och --config /cfg run \"%K\"");
    assert_eq!(plan_registration(false, "/usr/bin/qb-och run \"%K\"", &target, false), RegisterPlan::EnableExisting);
    assert_eq!(plan_registration(true, &target, &target, false), RegisterPlan::ConflictingScript);
    assert_eq!(plan_registration(true, &target, &target, true), RegisterPlan::Register);
    assert_eq!(plan_registration(true, "/opt/qb-och run \"%K\"", &target, false), RegisterPlan::AlreadyRegisteredPartial);
    assert_eq!(plan_registration(true, "/opt/qb-och run \"%K\" --v", &target, false), RegisterPlan::AlreadyRegistered);
    assert_eq!(plan_registration(true, "/bin/other", &target, false), RegisterPlan::ConflictingScript);
    assert_eq!(plan_registration(true, "/bin/other", &target, true), RegisterPlan::Register);
    assert_eq!(plan_registration(false, "", &target, false), RegisterPlan::Register);
    let u = registration_update(RegisterPlan::Register, &target).expect("an update");
    assert_eq!(u.script_enabled, Some(true));
    assert_eq!(u.script.as_deref(), Some(target.as_str()));
    let e = registration_update(RegisterPlan::EnableExisting, &target).expect("an update");
    assert_eq!(e.script_enabled, Some(true));
    assert!(e.script.is_none());
    assert!(registration_update(RegisterPlan::ConflictingScript, &target).is_none());
    let off = unregister_update();
    assert_eq!(off.script_enabled, Some(false));
    assert_eq!(off.script.as_deref(), Some(""));
}

#[test]
fn basic_auth_is_base64() {
    assert_eq!(basic_auth_header("admin", "pass"), "Basic YWRtaW46cGFzcw==");
    assert_eq!(basic_auth_header("", ""), "Basic Og==");
    assert_eq!(basic_auth_header("ü", "x"), "Basic w7w6eA==");
}

#[test]
fn urls_are_built() {
    assert_eq!(build_full_url("http", "h", Some(80), "/", None), "http://h:80/");
    assert_eq!(build_full_url("http://", "h", Some(80), "/", None), "http://h/");
    assert_eq!(build_full_url("https://", "h", Some(443), "", Some("u")), "https://u@h");
    assert_eq!(build_full_url("https", "h", Some(8443), "api", Some("")), "https://h:8443/api");
    assert_eq!(build_full_url("", "h", None, "", None), "h");
}

#[test]
fn hosts_are_parsed() {
    let p = parse_host_url("  localhost:8080 ").expect("parses");
    assert_eq!(p.protocol, "http");
    assert_eq!(p.host, "localhost");
    assert_eq!(p.port, Some(8080));
    assert_eq!(p.pathname, "/");
    assert_eq!(p.username, "");
    assert_eq!(p.to_string(), "http://localhost:8080/");
    let q = parse_host_url("https://admin:pw@example.org/qbt").expect("parses");
    assert_eq!(q.protocol, "https");
    assert_eq!(q.username, "admin");
    assert_eq!(q.password, "pw");
    assert_eq!(q.port, None);
    assert_eq!(q.display(), "https://admin@example.org/qbt");
}

#[test]
fn host_errors() {
    match parse_host_url("http://h/?x=1") {
        Err(HostError::QueryNotSupported(q)) => assert_eq!(q, "x=1"),
        _ => panic!("expected a query error"),
    }
    match parse_host_url("http://h/#top") {
        Err(e @ HostError::FragmentNotSupported(_)) => assert_eq!(e.message(), "URL fragment not supported: '#top'"),
        _ => panic!("expected a fragment error"),
    }
    match parse_host_url("http://h:99999") {
        Err(e @ HostError::InvalidUrl(_)) => assert_eq!(e.message(), "invalid port number"),
        _ => panic!("expected an invalid URL"),
    }
    let qe = HostError::QueryNotSupported("a=b".to_string());
    assert_eq!(qe.message(), "URL query string not supported: '?a=b'");
}

#[test]
fn written_ports_are_found() {
    assert!(has_written_port("http://u:p@h:443/x"));
    assert!(!has_written_port("http://u:p@h/x"));
    assert!(!has_written_port("http://[::1]/"));
    assert!(has_written_port("http://[::1]:80"));
    assert!(!has_written_port("http://h"));
    assert!(!has_written_port("http://h:/"));
    assert_eq!(candidate_text("  localhost:9000 "), "http://localhost:9000");
    assert_eq!(candidate_text("https://h"), "https://h");
}

#[test]
fn invalid_urls_carry_the_parsers_text() {
    match connection_candidates("http://h:99999", "") {
        Err(HostError::InvalidUrl(m)) => assert_eq!(m, "invalid port number"),
        _ => panic!("expected an invalid URL"),
    }
    match parse_host_url("http://[::1") {
        Err(e @ HostError::InvalidUrl(_)) => assert_eq!(e.message(), "invalid IPv6 address"),
        _ => panic!("expected an invalid URL"),
    }
    assert_eq!(HostError::InvalidUrl("empty host".to_string()).message(), "empty host");
}
