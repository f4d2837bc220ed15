use qb_och::app_state::AppState;
use qb_och::enums::View;
use qb_och::commands::{plan_registration, RegisterPlan};
use qb_och::keys::{KeyCode, KeyPress};
use qb_och::models::{
    tags_have, ScriptResult, ScriptState, ScriptStateFilter, SortConfig, SortDirection, SortField, Torrent, TorrentFile,
};
use qb_och::script::ScriptRunner;
use qb_och::sync::{SyncDelta, SyncStep, TorrentChange};
use qb_och::models::current_time;
use std::cmp::Ordering;
use qb_och::sort::SortKey;
use qb_och::tags::retag;

fn torrent(hash: &str, name: &str, tags: &str, added_on: u64, complete: bool) -> Torrent {
    Torrent {
        hash: hash.to_string(),
        name: name.to_string(),
        state: "uploading".to_string(),
        complete,
        size: 7,
        size_total: 7,
        speed_down: 0,
        speed_up: 0,
        num_seeds: 0,
        num_leeches: 0,
        num_complete: 0,
        num_incomplete: 0,
        category: "c".to_string(),
        tags: tags.to_string(),
        content_path: String::new(),
        root_path: String::new(),
        save_path: String::new(),
        ratio: "0.00".to_string(),
        added_on,
        completion_on: Some(added_on as i64 % 3),
        tracker: String::new(),
        uploaded: 0,
        downloaded: 0,
        time_active: 0,
        seeding_time: None,
        infohash_v1: None,
        infohash_v2: None,
    }
}

fn mixed() -> Vec<Torrent> {
    vec![
        torrent("a", "b", "oc_ok", 5, true),
        torrent("b", "C", "", 3, true),
        torrent("c", "a", "oc_fail", 3, true),
        torrent("d", "B", "x", 9, false),
        torrent("e", "c", "oc_ok, oc_fail", 1, true),
    ]
}

#[test]
fn filters_split_the_completed_torrents() {
    let mut s = AppState::default();
    s.replace_torrents(mixed());
    let count = |s: &mut AppState, f: ScriptStateFilter| {
        s.filter = f;
        s.filtered_torrents().len()
    };
    let all = count(&mut s, ScriptStateFilter::All);
    let not_ran = count(&mut s, ScriptStateFilter::NotRan);
    let ok = count(&mut s, ScriptStateFilter::Success);
    let fail = count(&mut s, ScriptStateFilter::Fail);
    assert_eq!(all, 4);
    assert_eq!(all, not_ran + ok + fail);
    assert_eq!((not_ran, ok, fail), (1, 2, 1));
}

#[test]
fn names_sort_without_case() {
    let mut s = AppState::default();
    s.sort_config = SortConfig { field: SortField::Name, direction: SortDirection::Asc };
    s.replace_torrents(mixed());
    let names: Vec<String> = s.torrents.iter().map(|t| t.name.clone()).collect();
    assert_eq!(names, vec!["a", "b", "B", "C", "c"]);
}

#[test]
fn sorting_again_changes_nothing() {
    for field in [SortField::Name, SortField::AddedAt, SortField::CompletedAt] {
        for direction in [SortDirection::Asc, SortDirection::Desc] {
            let mut s = AppState::default();
            s.sort_config = SortConfig { field, direction };
            s.replace_torrents(mixed());
            let once: Vec<String> = s.torrents.iter().map(|t| t.hash.clone()).collect();
            s.sort_torrents();
            let twice: Vec<String> = s.torrents.iter().map(|t| t.hash.clone()).collect();
            assert_eq!(once, twice);
        }
    }
}

#[test]
fn ties_keep_their_order() {
    let mut s = AppState::default();
    s.sort_config = SortConfig { field: SortField::AddedAt, direction: SortDirection::Asc };
    s.replace_torrents(mixed());
    let hashes: Vec<String> = s.torrents.iter().map(|t| t.hash.clone()).collect();
    assert_eq!(hashes, vec!["e", "b", "c", "a", "d"]);
}

#[test]
fn retagging_keeps_other_tags_and_drops_the_opposite() {
    let tags = " movies ,oc_fail,, 4k , oc_ok";
    let ok = retag(tags, "oc_ok");
    assert_eq!(ok, "movies, 4k, oc_ok");
    assert!(tags_have(&ok, "movies") && tags_have(&ok, "4k"));
    assert!(!tags_have(&ok, "oc_fail"));
    let fail = retag(tags, "oc_fail");
    assert_eq!(fail, "movies, 4k, oc_fail");
    assert!(!tags_have(&fail, "oc_ok"));
    assert_eq!(torrent("h", "n", &fail, 0, true).script_state(), ScriptState::Fail);
}

#[test]
fn forced_registration_never_refuses() {
    for enabled in [false, true] {
        for current in ["", "/bin/other", "/x/qb-och run \"%K\"", "/x/qb-och run \"%K\" -v"] {
            let plan = plan_registration(enabled, current, "/y/qb-och run \"%K\"", true);
            assert!(plan == RegisterPlan::Register || plan == RegisterPlan::EnableExisting);
        }
    }
}

#[test]
fn arguments_without_placeholders_are_kept() {
    let t = torrent("h", "n", "", 0, true);
    for arg in ["plain", "--flag=value", "", "a b c", "50"] {
        assert_eq!(ScriptRunner::process_arg(arg, &t, 4), arg);
    }
    assert_eq!(ScriptRunner::process_arg("%%N", &t, 4), "%n");
}

#[test]
fn removed_torrents_are_gone_after_a_sync() {
    let mut s = AppState::default();
    s.replace_torrents(mixed());
    s.selected_index = 3;
    let delta = SyncDelta {
        rid: 1,
        full_update: false,
        torrents: vec![TorrentChange {
            hash: "gone".to_string(),
            tags: None,
            state: None,
            complete: None,
            completion_on: None,
            is_null: true,
        }],
        torrents_removed: vec!["a".to_string(), "e".to_string()],
    };
    s.apply_sync(delta);
    let hashes: Vec<String> = s.torrents.iter().map(|t| t.hash.clone()).collect();
    assert!(!hashes.contains(&"a".to_string()) && !hashes.contains(&"e".to_string()));
    assert_eq!(hashes.len(), 3);
    assert_eq!(s.selected_index, 1);
}

#[test]
fn keys_keep_the_selection_on_a_row() {
    let mut s = AppState::default();
    s.replace_torrents(mixed());
    let codes = [
        KeyCode::Down,
        KeyCode::Down,
        KeyCode::Down,
        KeyCode::Down,
        KeyCode::PageDown,
        KeyCode::Char('s'),
        KeyCode::Tab,
        KeyCode::Char('S'),
        KeyCode::End,
        KeyCode::Up,
        KeyCode::Tab,
        KeyCode::Tab,
        KeyCode::Home,
        KeyCode::Char('v'),
        KeyCode::PageUp,
        KeyCode::Tab,
        KeyCode::Down,
        KeyCode::Char('s'),
    ];
    for code in codes {
        let before = s.filtered_torrents().len();
        s.handle_key(KeyPress { code, shift: false, control: false, alt: false });
        let count = s.filtered_torrents().len();
        assert!(s.selected_index <= count.saturating_sub(1));
        if code == KeyCode::Char('s') || code == KeyCode::Char('S') {
            assert_eq!(count, before);
        }
    }
}

#[test]
fn retagging_twice_changes_nothing() {
    for tags in ["", " movies ,oc_fail,, 4k , oc_ok", "oc_ok", "a,b,oc_fail", " , ,x"] {
        for tag in ["oc_ok", "oc_fail"] {
            let once = retag(tags, tag);
            assert_eq!(retag(&once, tag), once);
        }
    }
    assert_eq!(retag("a,b,oc_fail", "oc_ok"), "a, b, oc_ok");
}

#[test]
fn descending_is_ascending_reversed() {
    let distinct = vec![
        torrent("a", "delta", "", 4, true),
        torrent("b", "Alpha", "", 9, true),
        torrent("c", "charlie", "", 1, true),
        torrent("d", "bravo", "", 6, true),
    ];
    for field in [SortField::Name, SortField::AddedAt] {
        let order = |direction: SortDirection| {
            let mut s = AppState::default();
            s.sort_config = SortConfig { field, direction };
            s.replace_torrents(distinct.clone());
            s.torrents.iter().map(|t| t.hash.clone()).collect::<Vec<String>>()
        };
        let mut asc = order(SortDirection::Asc);
        let desc = order(SortDirection::Desc);
        asc.reverse();
        assert_eq!(desc, asc);
    }
}

#[test]
fn enter_opens_the_selected_torrents_details() {
    let mut s = AppState::default();
    s.replace_torrents(mixed());
    s.view = View::TorrentList;
    s.selected_index = 1;
    s.handle_key(KeyPress { code: KeyCode::Enter, shift: false, control: false, alt: false });
    assert!(s.show_details);
    assert_eq!(s.selected_index, 1);

    let mut empty = AppState::default();
    empty.handle_key(KeyPress { code: KeyCode::Enter, shift: false, control: false, alt: false });
    assert!(!empty.show_details);

    let mut logs = AppState::default();
    logs.replace_torrents(mixed());
    logs.view = View::LogView;
    logs.handle_key(KeyPress { code: KeyCode::Enter, shift: false, control: false, alt: false });
    assert!(!logs.show_details);
}

#[test]
fn the_file_cache_holds_each_hash_once() {
    let mut s = AppState::default();
    let file = |name: &str| TorrentFile { name: name.to_string(), size: 1, progress_label: "100%".to_string() };
    s.files_loaded("h".to_string(), vec![file("a")]);
    s.files_loaded("g".to_string(), vec![file("b")]);
    s.files_loaded("h".to_string(), vec![file("c"), file("d")]);
    assert_eq!(s.file_cache.len(), 2);
    assert_eq!(s.cached_files("h").map(|f| f.len()), Some(2));
    assert_eq!(s.cached_files("g").map(|f| f[0].name.clone()), Some("b".to_string()));
}

#[test]
fn a_started_run_names_its_torrent_and_script() {
    let t = torrent("abc", "Movie", "", 0, true);
    let r = ScriptResult::started(&t, "/bin/true");
    assert_eq!(r.name, "Movie");
    assert_eq!(r.hash, "abc");
    assert_eq!(r.script, "/bin/true");
    assert_eq!(r.stdout, "");
    assert_eq!(r.stderr, "");
    assert!(!r.success);
    assert!(r.exit_code.is_none());
    assert_eq!(r.started_at, r.completed_at);
}

#[test]
fn the_sort_key_compares_as_configured() {
    let a = torrent("a", "apple", "", 5, true);
    let b = torrent("b", "Banana", "", 3, true);
    let mut s = AppState::default();
    s.sort_config = SortConfig { field: SortField::Name, direction: SortDirection::Asc };
    let key = s.get_sort_key();
    assert_eq!(key.compare(&a, &b), Ordering::Less);
    assert_eq!(key.compare(&b, &a), Ordering::Greater);
    assert_eq!(key.compare(&a, &a), Ordering::Equal);
    s.sort_config = SortConfig { field: SortField::AddedAt, direction: SortDirection::Desc };
    assert_eq!(key.compare(&a, &b), Ordering::Less);
    let desc = s.get_sort_key();
    assert_eq!(desc.compare(&a, &b), Ordering::Less);
    assert_eq!(desc.compare(&b, &a), Ordering::Greater);
    let mut c = torrent("c", "c", "", 1, true);
    c.completion_on = None;
    let mut d = torrent("d", "d", "", 1, true);
    d.completion_on = Some(0);
    let done = SortKey { config: SortConfig { field: SortField::CompletedAt, direction: SortDirection::Asc } };
    assert_eq!(done.compare(&c, &d), Ordering::Equal);
}

#[test]
fn a_failed_sync_starts_over() {
    let mut s = AppState::default();
    s.replace_torrents(mixed());
    s.sync_rid = 41;
    let before = s.torrents.len();
    assert_eq!(s.sync_failed(), SyncStep::NeedFullRefresh);
    assert_eq!(s.sync_rid, 0);
    assert_eq!(s.torrents.len(), before);
}

#[test]
fn the_clock_reads_after_the_epoch() {
    let t = current_time();
    assert!(t.secs > 1_600_000_000);
    assert!(t.nanos < 1_000_000_000);
    let r = ScriptResult::default();
    assert_eq!(r.started_at, r.completed_at);
    assert!(r.started_at.secs > 1_600_000_000);
}
