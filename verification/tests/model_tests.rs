use qb_och::enums::{AppMode, DetailPane, LoginField, View};
use qb_och::models::{
    tags_have, Configuration, Credentials, ScriptResult, ScriptState, ScriptStateFilter, SortConfig,
    SortDirection, SortField, Torrent, loaded_port_of, time_or_epoch, utc_from_epoch_offset,
};
use qb_och::bindings::{UrlParts, UtcTime};
use qb_och::host::{host_from_parts, HostError};
use qb_och::paths::{config_dir_of, log_path_of};
use qb_och::tags::{outcome_tag, retag};

fn torrent(hash: &str, name: &str, tags: &str) -> Torrent {
    Torrent {
        hash: hash.to_string(),
        name: name.to_string(),
        state: "uploading".to_string(),
        complete: true,
        size: 1024,
        size_total: 1024,
        speed_down: 0,
        speed_up: 0,
        num_seeds: 1,
        num_leeches: 2,
        num_complete: 3,
        num_incomplete: 4,
        category: String::new(),
        tags: tags.to_string(),
        content_path: "/data/x".to_string(),
        root_path: "/data/x".to_string(),
        save_path: "/data".to_string(),
        ratio: "1.50".to_string(),
        added_on: 1704110400,
        completion_on: Some(1704114000),
        tracker: String::new(),
        uploaded: 0,
        downloaded: 0,
        time_active: 0,
        seeding_time: None,
        infohash_v1: None,
        infohash_v2: None,
    }
}

#[test]
fn detail_pane_cycles_in_four_steps() {
    let mut p = DetailPane::Info;
    let mut seen = Vec::new();
    for _ in 0..4 {
        p = p.next();
        seen.push(p);
    }
    assert_eq!(seen, vec![DetailPane::Paths, DetailPane::Transfer, DetailPane::Files, DetailPane::Info]);
    assert_eq!(DetailPane::Info.prev(), DetailPane::Files);
    assert_eq!(DetailPane::Files.next().prev(), DetailPane::Files);
}

#[test]
fn view_cycle_and_names() {
    assert_eq!(View::TorrentList.next(), View::VerticalSplit);
    assert_eq!(View::VerticalSplit.next(), View::LogView);
    assert_eq!(View::LogView.next(), View::HorizontalSplit);
    assert_eq!(View::HorizontalSplit.next(), View::TorrentList);
    assert_eq!(View::TorrentList.prev(), View::HorizontalSplit);
    for v in [View::TorrentList, View::LogView, View::VerticalSplit, View::HorizontalSplit, View::Help] {
        assert_eq!(v.next().prev(), v);
        assert_eq!(v.next().next().next().next(), v);
    }
    assert_eq!(View::Help.next(), View::Help);
    assert_eq!(View::LogView.to_str(), "log_view");
    assert_eq!(View::Help.to_str(), "torrent_list");
    assert_eq!(View::from_str("vertical_split"), View::VerticalSplit);
    assert_eq!(View::from_str("nonsense"), View::TorrentList);
    for v in [View::TorrentList, View::LogView, View::VerticalSplit, View::HorizontalSplit] {
        assert_eq!(View::from_str(v.to_str()), v);
    }
}

#[test]
fn login_field_cycle() {
    let mut s = qb_och::app_state::AppState::default();
    assert_eq!(s.login_field, LoginField::Host);
    s.advance_login_field();
    assert_eq!(s.login_field, LoginField::Username);
    s.advance_login_field();
    assert_eq!(s.login_field, LoginField::Password);
    s.advance_login_field();
    assert_eq!(s.login_field, LoginField::Host);
    s.retreat_login_field();
    assert_eq!(s.login_field, LoginField::Password);
}

#[test]
fn filter_cycle_labels_and_names() {
    assert_eq!(ScriptStateFilter::All.next(), ScriptStateFilter::NotRan);
    assert_eq!(ScriptStateFilter::NotRan.next(), ScriptStateFilter::Success);
    assert_eq!(ScriptStateFilter::Success.next(), ScriptStateFilter::Fail);
    assert_eq!(ScriptStateFilter::Fail.next(), ScriptStateFilter::All);
    assert_eq!(ScriptStateFilter::All.prev(), ScriptStateFilter::Fail);
    assert_eq!(ScriptStateFilter::NotRan.label(), "Not ran");
    assert_eq!(ScriptStateFilter::Success.label(), "Ok");
    assert_eq!(ScriptStateFilter::NotRan.to_str(), "not ran");
    assert_eq!(ScriptStateFilter::from_str("ok"), ScriptStateFilter::Success);
    assert_eq!(ScriptStateFilter::from_str("bogus"), ScriptStateFilter::All);
    assert_eq!(ScriptStateFilter::default(), ScriptStateFilter::All);
    for f in [ScriptStateFilter::All, ScriptStateFilter::NotRan, ScriptStateFilter::Success, ScriptStateFilter::Fail] {
        assert_eq!(ScriptStateFilter::from_str(f.to_str()), f);
    }
}

#[test]
fn tags_are_matched_whole_and_trimmed() {
    assert!(tags_have("oc_ok", "oc_ok"));
    assert!(tags_have("movies, oc_ok", "oc_ok"));
    assert!(tags_have(" oc_fail ,x", "oc_fail"));
    assert!(!tags_have("oc_okay", "oc_ok"));
    assert!(!tags_have("", "oc_ok"));
}

#[test]
fn script_state_from_tags() {
    assert_eq!(torrent("a", "A", "").script_state(), ScriptState::NotRan);
    assert_eq!(torrent("a", "A", "oc_fail").script_state(), ScriptState::Fail);
    assert_eq!(torrent("a", "A", "oc_ok").script_state(), ScriptState::Success);
    assert_eq!(torrent("a", "A", "oc_fail, oc_ok").script_state(), ScriptState::Success);
    assert!(torrent("a", "A", "x, oc_ok").has_oc_ok_tag());
    assert!(!torrent("a", "A", "x, oc_ok").has_oc_fail_tag());
    assert_eq!(ScriptState::NotRan.symbol(), "?");
    assert_eq!(ScriptState::Success.symbol(), "\u{2713}");
    assert_eq!(ScriptState::Fail.symbol(), "!");
}

#[test]
fn retag_replaces_the_opposite_tag() {
    assert_eq!(outcome_tag(true), "oc_ok");
    assert_eq!(outcome_tag(false), "oc_fail");
    assert_eq!(retag("", "oc_ok"), "oc_ok");
    assert_eq!(retag("movies, oc_fail", "oc_ok"), "movies, oc_ok");
    assert_eq!(retag("oc_ok", "oc_fail"), "oc_fail");
    assert_eq!(retag("a,b", "oc_fail"), "a, b, oc_fail");
}

#[test]
fn retagging_records_the_outcome() {
    for tags in ["", "x", "oc_fail", "oc_ok, y", "a, oc_fail, b"] {
        let ok = torrent("h", "n", &retag(tags, "oc_ok"));
        assert_eq!(ok.script_state(), ScriptState::Success);
        let fail = torrent("h", "n", &retag(tags, "oc_fail"));
        assert_eq!(fail.script_state(), ScriptState::Fail);
    }
}

#[test]
fn sort_defaults() {
    assert_eq!(SortField::default(), SortField::Name);
    assert_eq!(SortDirection::default(), SortDirection::Desc);
    let c = SortConfig::default();
    assert_eq!(c.field, SortField::AddedAt);
    assert_eq!(c.direction, SortDirection::Desc);
}

#[test]
fn configuration_defaults_and_url() {
    let c = Configuration::new();
    assert_eq!(c.credentials.host, "");
    assert!(c.last_view.is_none());
    assert!(c.last_filter.is_none());
    assert!(c.script.is_none());
    assert_eq!(c.display_url(), "");
    let mut c2 = Configuration::new();
    c2.credentials = Credentials::new("localhost:8080".to_string(), "admin".to_string(), "pw".to_string());
    assert_eq!(c2.display_url(), "http://localhost:8080/");
    c2.credentials.host = "https://admin@example.org:8443/".to_string();
    assert_eq!(c2.display_url(), "https://admin@example.org:8443/");
    c2.credentials.host = "http://[bad".to_string();
    assert_eq!(c2.display_url(), "http://[bad");
    let e = Credentials::empty();
    assert_eq!(e.host, "");
    assert_eq!(e.username, "");
    assert_eq!(e.password, "");
}

#[test]
fn configuration_normalized_host() {
    let mut c = Configuration::new();
    c.credentials = Credentials::new("  localhost:9000 ".to_string(), "u".to_string(), "p".to_string());
    let n = c.normalized().expect("host parses");
    assert_eq!(n.credentials.host, "http://localhost:9000/");
    assert_eq!(n.credentials.username, "u");
}

#[test]
fn script_result_default_is_empty() {
    let r = ScriptResult::default();
    assert_eq!(r.hash, "");
    assert!(!r.success);
    assert!(r.exit_code.is_none());
    assert_eq!(r.started_at, r.completed_at);
}

#[test]
fn app_mode_values() {
    assert_ne!(AppMode::Normal, AppMode::Login);
}

#[test]
fn a_written_default_port_survives_loading() {
    let load = |host: &str| {
        let mut c = Configuration::new();
        c.credentials = Credentials::new(host.to_string(), String::new(), String::new());
        c.normalized().map(|n| n.credentials.host)
    };
    assert_eq!(load("https://example.org:443/"), Some("https://example.org:443/".to_string()));
    assert_eq!(load("http://h:80"), Some("http://h:80/".to_string()));
    assert_eq!(load("https://example.org"), Some("https://example.org:8080/".to_string()));
    assert_eq!(load("http://h:9091/x"), Some("http://h:9091/x".to_string()));
    assert_eq!(load("http://[bad"), None);
}

fn parts(port: Option<u16>, known_port: Option<u16>, query: Option<&str>, fragment: Option<&str>) -> UrlParts {
    UrlParts {
        scheme: "https".to_string(),
        username: "u".to_string(),
        password: None,
        host: Some("example.org".to_string()),
        port,
        known_port,
        path: "/".to_string(),
        query: query.map(|q| q.to_string()),
        fragment: fragment.map(|f| f.to_string()),
    }
}

#[test]
fn clock_values_become_instants() {
    assert_eq!(utc_from_epoch_offset(1_704_110_400, 7), Some(UtcTime { secs: 1_704_110_400, nanos: 7 }));
    assert_eq!(utc_from_epoch_offset(i64::MAX as u64, 0), Some(UtcTime { secs: i64::MAX, nanos: 0 }));
    assert_eq!(utc_from_epoch_offset(i64::MAX as u64 + 1, 0), None);
    assert_eq!(time_or_epoch(Some(UtcTime { secs: 5, nanos: 6 })), UtcTime { secs: 5, nanos: 6 });
    assert_eq!(time_or_epoch(None), UtcTime { secs: 0, nanos: 0 });
}

#[test]
fn hosts_are_kept_from_parsed_parts() {
    let h = host_from_parts(parts(Some(9091), Some(443), None, None)).expect("accepted");
    assert_eq!(h.protocol, "https");
    assert_eq!(h.host, "example.org");
    assert_eq!(h.port, Some(9091));
    assert_eq!(h.username, "u");
    assert_eq!(h.password, "");
    match host_from_parts(parts(None, Some(443), Some("a=1"), Some("top"))) {
        Err(HostError::QueryNotSupported(q)) => assert_eq!(q, "a=1"),
        _ => panic!("expected a query error"),
    }
    match host_from_parts(parts(None, Some(443), None, Some("top"))) {
        Err(HostError::FragmentNotSupported(f)) => assert_eq!(f, "top"),
        _ => panic!("expected a fragment error"),
    }
}

#[test]
fn loaded_ports_follow_the_written_text() {
    assert_eq!(loaded_port_of(&parts(Some(9091), Some(443), None, None), "https://example.org:9091/"), 9091);
    assert_eq!(loaded_port_of(&parts(None, Some(443), None, None), "https://example.org:443/"), 443);
    assert_eq!(loaded_port_of(&parts(None, Some(443), None, None), "https://example.org/"), 8080);
    assert_eq!(loaded_port_of(&parts(None, None, None, None), "x://example.org:1/"), 8080);
}

#[test]
fn file_locations_follow_the_environment() {
    let s = |v: &str| Some(v.to_string());
    assert_eq!(config_dir_of(s("/cfg"), s("/xdg"), s("/home/a")), vec!["/cfg"]);
    assert_eq!(config_dir_of(None, s("/xdg"), s("/home/a")), vec!["/xdg", "qb-och"]);
    assert_eq!(config_dir_of(None, None, s("/home/a")), vec!["/home/a", ".config", "qb-och"]);
    assert_eq!(config_dir_of(None, None, None), vec!["~/.config/qb-och"]);
    assert_eq!(log_path_of(s("/data"), s("/home/a")), vec!["/data", "qb-och", "execution.log"]);
    assert_eq!(log_path_of(None, s("/home/a")), vec!["/home/a", ".local", "share", "qb-och", "execution.log"]);
    assert_eq!(log_path_of(None, None), vec!["~/.local/share", "qb-och", "execution.log"]);
}
