use qb_och::app_state::{AppState, Chore, ToastLevel, MAX_LOGS};
use qb_och::bindings::UtcTime;
use qb_och::enums::{AppMode, DetailPane, LoginField, View};
use qb_och::keys::{KeyCode, KeyEffect, KeyPress};
use qb_och::models::{
    Configuration, Credentials, ScriptResult, ScriptStateFilter, SortConfig, SortDirection,
    SortField, Torrent, TorrentFile,
};
use qb_och::sync::{SyncDelta, SyncStep, TorrentChange};

fn torrent(hash: &str, name: &str, tags: &str, added_on: u64, complete: bool) -> Torrent {
    Torrent {
        hash: hash.to_string(),
        name: name.to_string(),
        state: "uploading".to_string(),
        complete,
        size: 0,
        size_total: 0,
        speed_down: 0,
        speed_up: 0,
        num_seeds: 0,
        num_leeches: 0,
        num_complete: 0,
        num_incomplete: 0,
        category: String::new(),
        tags: tags.to_string(),
        content_path: String::new(),
        root_path: String::new(),
        save_path: String::new(),
        ratio: "0.00".to_string(),
        added_on,
        completion_on: None,
        tracker: String::new(),
        uploaded: 0,
        downloaded: 0,
        time_active: 0,
        seeding_time: None,
        infohash_v1: None,
        infohash_v2: None,
    }
}

fn result(hash: &str, secs: i64, success: bool) -> ScriptResult {
    ScriptResult {
        hash: hash.to_string(),
        name: format!("name-{}", hash),
        script: "run.sh".to_string(),
        stdout: String::new(),
        stderr: String::new(),
        success,
        exit_code: Some(if success { 0 } else { 1 }),
        started_at: UtcTime { secs, nanos: 0 },
        completed_at: UtcTime { secs: secs + 1, nanos: 0 },
    }
}

fn key(code: KeyCode) -> KeyPress {
    KeyPress { code, shift: false, control: false, alt: false }
}

fn shifted(code: KeyCode) -> KeyPress {
    KeyPress { code, shift: true, control: false, alt: false }
}

fn state_with(torrents: Vec<Torrent>) -> AppState {
    let mut s = AppState::default();
    s.replace_torrents(torrents);
    s
}

fn names(s: &AppState) -> Vec<String> {
    s.torrents.iter().map(|t| t.name.clone()).collect()
}

#[test]
fn default_state() {
    let s = AppState::default();
    assert!(s.torrents.is_empty());
    assert_eq!(s.view, View::TorrentList);
    assert_eq!(s.mode, AppMode::Normal);
    assert_eq!(s.filter, ScriptStateFilter::All);
    assert_eq!(s.sort_config.field, SortField::AddedAt);
    assert_eq!(s.sort_config.direction, SortDirection::Desc);
    assert_eq!(s.detail_pane, DetailPane::Info);
    assert!(!s.show_details);
}

#[test]
fn state_from_configuration() {
    let mut c = Configuration::new();
    c.credentials = Credentials::new("h:1".to_string(), "u".to_string(), "p".to_string());
    c.last_view = Some("log_view".to_string());
    c.last_filter = Some("fail".to_string());
    c.sort_config = SortConfig { field: SortField::Name, direction: SortDirection::Asc };
    c.script = Some("/bin/true".to_string());
    let s = AppState::with_configuration(&c);
    assert_eq!(s.view, View::LogView);
    assert_eq!(s.filter, ScriptStateFilter::Fail);
    assert_eq!(s.sort_config.field, SortField::Name);
    assert_eq!(s.login_host, "h:1");
    assert_eq!(s.login_username, "u");
    assert_eq!(s.login_password, "p");
    assert_eq!(s.script.as_deref(), Some("/bin/true"));
}

#[test]
fn replace_sorts_newest_first_by_default() {
    let s = state_with(vec![
        torrent("a", "A", "", 10, true),
        torrent("b", "B", "", 30, true),
        torrent("c", "C", "", 20, true),
    ]);
    assert_eq!(names(&s), vec!["B", "C", "A"]);
}

#[test]
fn sort_by_name_is_stable_and_toggles() {
    let mut s = state_with(vec![
        torrent("a", "beta", "", 1, true),
        torrent("b", "Alpha", "", 2, true),
        torrent("c", "beta", "", 3, true),
    ]);
    s.sort_config = SortConfig { field: SortField::Name, direction: SortDirection::Asc };
    s.sort_torrents();
    let hashes: Vec<String> = s.torrents.iter().map(|t| t.hash.clone()).collect();
    assert_eq!(hashes, vec!["b", "c", "a"]);
    s.toggle_sort_direction();
    assert_eq!(s.sort_config.direction, SortDirection::Desc);
}

#[test]
fn cycling_sort_fields() {
    let mut s = AppState::default();
    s.sort_config = SortConfig { field: SortField::Name, direction: SortDirection::Asc };
    s.cycle_sort_field(1);
    assert_eq!(s.sort_config.field, SortField::CompletedAt);
    s.cycle_sort_field(1);
    assert_eq!(s.sort_config.field, SortField::AddedAt);
    s.cycle_sort_field(1);
    assert_eq!(s.sort_config.field, SortField::Name);
    s.cycle_sort_field(-1);
    assert_eq!(s.sort_config.field, SortField::AddedAt);
}

#[test]
fn filter_shows_only_completed_matching() {
    let mut s = state_with(vec![
        torrent("a", "A", "oc_ok", 3, true),
        torrent("b", "B", "", 2, true),
        torrent("c", "C", "oc_fail", 1, true),
        torrent("d", "D", "", 0, false),
    ]);
    assert_eq!(s.filtered_torrents().len(), 3);
    s.cycle_filter_forward();
    assert_eq!(s.filter, ScriptStateFilter::NotRan);
    let shown: Vec<&str> = s.filtered_torrents().iter().map(|t| t.hash.as_str()).collect();
    assert_eq!(shown, vec!["b"]);
    s.cycle_filter_forward();
    let shown: Vec<&str> = s.filtered_torrents().iter().map(|t| t.hash.as_str()).collect();
    assert_eq!(shown, vec!["a"]);
    s.cycle_filter_backward();
    s.cycle_filter_backward();
    assert_eq!(s.filter, ScriptStateFilter::All);
    assert_eq!(s.completed_torrents().len(), 3);
}

#[test]
fn selection_moves_within_shown_rows() {
    let ts: Vec<Torrent> = (0..30).map(|i| torrent(&format!("h{}", i), &format!("t{}", i), "", i, true)).collect();
    let mut s = state_with(ts);
    s.move_selection(-1);
    assert_eq!(s.selected_index, 0);
    s.move_selection(25);
    assert_eq!(s.selected_index, 25);
    assert_eq!(s.scroll_offset, 6);
    s.move_selection(100);
    assert_eq!(s.selected_index, 29);
    assert_eq!(s.scroll_offset, 10);
    s.jump_to(0, 30);
    assert_eq!(s.selected_index, 0);
    assert_eq!(s.scroll_offset, 0);
    assert_eq!(s.selected_torrent().map(|t| t.hash.clone()), Some("h29".to_string()));
}

#[test]
fn help_returns_to_previous_view() {
    let mut s = AppState::default();
    s.view = View::HorizontalSplit;
    s.enter_help();
    assert_eq!(s.view, View::Help);
    s.scroll_help(5);
    assert_eq!(s.help_scroll, 5);
    s.exit_help();
    assert_eq!(s.view, View::HorizontalSplit);
    assert_eq!(s.help_scroll, 0);
    assert!(s.previous_view.is_none());
}

#[test]
fn view_cycles_through_state() {
    let mut s = AppState::default();
    s.cycle_view_forward();
    assert_eq!(s.view, View::VerticalSplit);
    s.cycle_view_backward();
    assert_eq!(s.view, View::TorrentList);
}

#[test]
fn update_tag_on_matching_torrent() {
    let mut s = state_with(vec![torrent("a", "A", "x, oc_fail", 1, true)]);
    s.update_torrent_tag("a", "oc_ok");
    assert_eq!(s.torrents[0].tags, "x, oc_ok");
    s.update_torrent_tag("zz", "oc_fail");
    assert_eq!(s.torrents[0].tags, "x, oc_ok");
}

#[test]
fn logs_scroll_and_end() {
    let mut s = AppState::default();
    assert!(s.is_log_at_end());
    for i in 0..5 {
        s.record_script_result(result(&format!("h{}", i), i, true));
    }
    assert_eq!(s.logs.len(), 5);
    assert_eq!(s.log_scroll, 4);
    s.scroll_logs(-10);
    assert_eq!(s.log_scroll, 0);
    assert!(!s.is_log_at_end());
    s.record_script_result(result("late", 99, false));
    assert_eq!(s.log_scroll, 0);
    s.scroll_logs_to_end();
    assert!(s.is_log_at_end());
    assert_eq!(s.log_scroll, 5);
}

#[test]
fn merging_logs_twice_adds_nothing() {
    let mut s = AppState::default();
    let entries = vec![result("a", 1, true), result("b", 2, false)];
    let fresh = s.merge_logs(entries.clone());
    assert_eq!(fresh.len(), 2);
    let again = s.merge_logs(entries);
    assert!(again.is_empty());
    assert_eq!(s.logs.len(), 2);
    assert!(s.holds_run(&result("a", 1, false)));
    assert!(!s.holds_run(&result("a", 3, true)));
}

#[test]
fn log_is_capped() {
    let mut s = AppState::default();
    let entries: Vec<ScriptResult> = (0..(MAX_LOGS as i64 + 5)).map(|i| result("h", i, true)).collect();
    s.merge_logs(entries);
    assert_eq!(s.logs.len(), MAX_LOGS);
    assert_eq!(s.logs[0].started_at.secs, 5);
}

#[test]
fn init_logs_error_is_notified() {
    let mut s = AppState::default();
    s.init_logs(Err("disk".to_string()));
    assert!(s.logs.is_empty());
    let toasts = s.take_toasts();
    assert_eq!(toasts.len(), 1);
    assert_eq!(toasts[0].level, ToastLevel::Error);
    assert_eq!(toasts[0].message, "disk");
    assert!(s.take_toasts().is_empty());
}

#[test]
fn login_form_keys() {
    let mut s = AppState::default();
    s.enter_login_mode();
    assert_eq!(s.mode, AppMode::Login);
    for c in " host ".chars() {
        s.handle_key(key(KeyCode::Char(c)));
    }
    s.handle_key(key(KeyCode::Tab));
    assert_eq!(s.login_field, LoginField::Username);
    s.handle_key(key(KeyCode::Char('u')));
    s.handle_key(key(KeyCode::Down));
    s.handle_key(key(KeyCode::Char('p')));
    s.handle_key(key(KeyCode::Char('w')));
    s.handle_key(key(KeyCode::Backspace));
    assert_eq!(s.login_password, "p");
    s.handle_key(shifted(KeyCode::Tab));
    assert_eq!(s.login_field, LoginField::Username);
    s.handle_key(key(KeyCode::Enter));
    let c = s.take_login().expect("login queued");
    assert_eq!(c.credentials.host, "host");
    assert_eq!(c.credentials.username, "u");
    assert_eq!(c.credentials.password, "p");
    assert_eq!(c.last_view.as_deref(), Some("torrent_list"));
    assert_eq!(c.last_filter.as_deref(), Some("all"));
    assert!(s.take_login().is_none());
    assert!(matches!(s.handle_key(key(KeyCode::Esc)), KeyEffect::Quit));
}

#[test]
fn login_results() {
    let mut s = AppState::default();
    s.enter_login_mode();
    s.login_failed("bad password");
    assert_eq!(s.mode, AppMode::Login);
    let t = s.take_toasts();
    assert_eq!(t[0].title, "Login Failed");
    s.login_succeeded(&Credentials::new("h".to_string(), "u".to_string(), "p".to_string()));
    assert_eq!(s.mode, AppMode::Normal);
    assert_eq!(s.login_host, "h");
}

#[test]
fn normal_keys() {
    let mut s = state_with(vec![torrent("a", "A", "", 2, true), torrent("b", "B", "", 1, true)]);
    assert!(matches!(s.handle_key(key(KeyCode::Down)), KeyEffect::Continue));
    assert_eq!(s.selected_index, 1);
    assert!(matches!(s.handle_key(key(KeyCode::Char('s'))), KeyEffect::SaveSortConfig));
    assert_eq!(s.sort_config.field, SortField::Name);
    assert_eq!(names(&s), vec!["B", "A"]);
    assert!(matches!(s.handle_key(key(KeyCode::Char('S'))), KeyEffect::SaveSortConfig));
    assert_eq!(s.sort_config.direction, SortDirection::Asc);
    assert_eq!(names(&s), vec!["A", "B"]);
    assert!(matches!(s.handle_key(key(KeyCode::Tab)), KeyEffect::SaveViewFilter));
    assert_eq!(s.filter, ScriptStateFilter::NotRan);
    assert_eq!(s.selected_index, 0);
    assert!(matches!(s.handle_key(key(KeyCode::Char('v'))), KeyEffect::SaveViewFilter));
    assert_eq!(s.view, View::VerticalSplit);
    match s.handle_key(key(KeyCode::Char('r'))) {
        KeyEffect::RunScriptOnSelected(t) => assert_eq!(t.hash, "a"),
        _ => panic!("expected a run on the selected torrent"),
    }
    match s.handle_key(key(KeyCode::Char('R'))) {
        KeyEffect::RunScriptOnAll(ts) => assert_eq!(ts.len(), 2),
        _ => panic!("expected a run on all torrents"),
    }
    s.handle_key(key(KeyCode::Char('t')));
    assert!(s.show_details);
    s.handle_key(key(KeyCode::Right));
    assert_eq!(s.detail_pane, DetailPane::Paths);
    s.handle_key(key(KeyCode::Left));
    s.handle_key(key(KeyCode::Left));
    assert_eq!(s.detail_pane, DetailPane::Files);
    s.handle_key(key(KeyCode::Char('h')));
    assert_eq!(s.view, View::Help);
    s.handle_key(key(KeyCode::End));
    assert_eq!(s.help_scroll, 1000);
    assert!(matches!(s.handle_key(key(KeyCode::Char('q'))), KeyEffect::Continue));
    assert_eq!(s.view, View::VerticalSplit);
    assert!(matches!(s.handle_key(key(KeyCode::Esc)), KeyEffect::Quit));
}

#[test]
fn file_loading_flow() {
    let mut s = state_with(vec![torrent("a", "A", "", 1, true)]);
    assert!(s.needs_file_load().is_none());
    s.show_details = true;
    s.detail_pane = DetailPane::Files;
    assert_eq!(s.needs_file_load().as_deref(), Some("a"));
    s.begin_file_load("a".to_string());
    assert!(s.needs_file_load().is_none());
    s.files_loaded(
        "a".to_string(),
        vec![TorrentFile { name: "A/x.mkv".to_string(), size: 10, progress_label: "100%".to_string() }],
    );
    assert!(s.files_loading.is_none());
    assert_eq!(s.cached_files("a").map(|f| f.len()), Some(1));
    assert!(s.needs_file_load().is_none());
}

#[test]
fn run_preparation_needs_a_script() {
    let mut s = state_with(vec![torrent("a", "A", "", 1, true)]);
    assert!(s.prepare_run_selected().is_none());
    assert_eq!(s.take_toasts().len(), 1);
    s.script = Some("/bin/run %K".to_string());
    let (t, script) = s.prepare_run_selected().expect("selected torrent");
    assert_eq!(t.hash, "a");
    assert_eq!(script, "/bin/run %K");
    let (all, _) = s.prepare_run_all().expect("completed torrents");
    assert_eq!(all.len(), 1);
    s.record_outcome("a", true);
    assert_eq!(s.torrents[0].tags, "oc_ok");
}

#[test]
fn sync_applies_changes_and_removals() {
    let mut s = state_with(vec![torrent("a", "A", "", 2, true), torrent("b", "B", "", 1, true)]);
    let step = s.apply_sync(SyncDelta {
        rid: 7,
        full_update: false,
        torrents: vec![TorrentChange {
            hash: "b".to_string(),
            tags: Some("oc_ok".to_string()),
            state: None,
            complete: None,
            completion_on: Some(0),
            is_null: false,
        }],
        torrents_removed: vec!["a".to_string()],
    });
    assert_eq!(step, SyncStep::Done);
    assert_eq!(s.sync_rid, 7);
    assert_eq!(s.torrents.len(), 1);
    assert_eq!(s.torrents[0].tags, "oc_ok");
    assert!(s.torrents[0].completion_on.is_none());
    assert_eq!(s.position_of("b"), Some(0));
    assert_eq!(s.position_of("a"), None);
}

#[test]
fn sync_asks_for_refresh() {
    let mut s = state_with(vec![torrent("a", "A", "", 2, true)]);
    let full = s.apply_sync(SyncDelta { rid: 3, full_update: true, torrents: vec![], torrents_removed: vec![] });
    assert_eq!(full, SyncStep::NeedFullRefresh);
    assert_eq!(s.sync_rid, 3);
    let unknown = s.apply_sync(SyncDelta {
        rid: 4,
        full_update: false,
        torrents: vec![TorrentChange {
            hash: "new".to_string(),
            tags: None,
            state: None,
            complete: Some(true),
            completion_on: None,
            is_null: false,
        }],
        torrents_removed: vec![],
    });
    assert_eq!(unknown, SyncStep::NeedFullRefresh);
}

#[test]
fn server_work_order() {
    let mut s = AppState::default();
    assert_eq!(s.due_chore(false), Chore::Idle);
    assert_eq!(s.due_chore(true), Chore::Sync);
    s.enter_login_mode();
    assert_eq!(s.due_chore(true), Chore::Idle);
    s.queue_login();
    assert_eq!(s.due_chore(false), Chore::ProcessLogin);
}
