use qb_och::app_state::AppState;
use qb_och::bindings::UtcTime;
use qb_och::display::{
    details_height, file_display_name, format_bytes, format_duration, help_offset, masked,
    name_column_width, pad_right, sort_indicator, timestamp_to_date, torrent_state_label,
    truncate_string, visible_rows,
};
use qb_och::enums::View;
use qb_och::models::{ScriptResult, ScriptStateFilter, SortConfig, SortDirection, SortField, Torrent, TorrentFile};
use qb_och::panes::{
    clock_of, column_headers, completion_label, file_rows, header_title, info_pane, list_row,
    list_scroll, login_label, login_origin, pad_left, paths_pane, row_shade, transfer_pane,
    FilesState, RowShade,
};

/// The byte size as the float formatting of the interface writes it.
fn float_bytes(bytes: u64) -> String {
    const KB: u64 = 1024;
    const MB: u64 = KB * 1024;
    const GB: u64 = MB * 1024;
    const TB: u64 = GB * 1024;
    if bytes >= TB {
        format!("{:.2} TiB", bytes as f64 / TB as f64)
    } else if bytes >= GB {
        format!("{:.2} GiB", bytes as f64 / GB as f64)
    } else if bytes >= MB {
        format!("{:.1} MiB", bytes as f64 / MB as f64)
    } else if bytes >= KB {
        format!("{:.0} KiB", bytes as f64 / KB as f64)
    } else {
        format!("{} B", bytes)
    }
}

fn torrent() -> Torrent {
    Torrent {
        hash: "abc123".to_string(),
        name: "Some.Movie.2024".to_string(),
        state: "stalledUP".to_string(),
        complete: true,
        size: 1536,
        size_total: 1048576,
        speed_down: 0,
        speed_up: 2048,
        num_seeds: 5,
        num_leeches: 1,
        num_complete: 40,
        num_incomplete: 3,
        category: String::new(),
        tags: "oc_ok".to_string(),
        content_path: "/dl/Some.Movie.2024".to_string(),
        root_path: "/dl/Some.Movie.2024".to_string(),
        save_path: "/dl".to_string(),
        ratio: "2.25".to_string(),
        added_on: 1704110400,
        completion_on: Some(0),
        tracker: "udp://tracker".to_string(),
        uploaded: 3 * 1073741824,
        downloaded: 512,
        time_active: 90061,
        seeding_time: Some(59),
        infohash_v1: Some("v1".to_string()),
        infohash_v2: None,
    }
}

#[test]
fn bytes_exact_values() {
    assert_eq!(format_bytes(0), "0 B");
    assert_eq!(format_bytes(1023), "1023 B");
    assert_eq!(format_bytes(1024), "1 KiB");
    assert_eq!(format_bytes(1536), "2 KiB");
    assert_eq!(format_bytes(2560), "2 KiB");
    assert_eq!(format_bytes(1048576), "1.0 MiB");
    assert_eq!(format_bytes(1572864), "1.5 MiB");
    assert_eq!(format_bytes(1073741824), "1.00 GiB");
    assert_eq!(format_bytes(1099511627776), "1.00 TiB");
    assert_eq!(format_bytes(u64::MAX), "16777216.00 TiB");
}

#[test]
fn bytes_agree_with_float_formatting() {
    let mut samples: Vec<u64> = vec![u64::MAX, u64::MAX - 1, 1 << 53, (1 << 53) + 1, (1 << 60) + 12345];
    for k in 0..64u32 {
        let p = 1u64 << k;
        samples.extend([p, p - 1, p.saturating_add(1), p / 3, p / 3 * 2, p + p / 2]);
    }
    let mut x: u64 = 0x9E3779B97F4A7C15;
    for _ in 0..20000 {
        x ^= x << 13;
        x ^= x >> 7;
        x ^= x << 17;
        samples.push(x >> (x % 64));
    }
    for base in [1024u64, 1048576, 1073741824, 1099511627776] {
        for m in 0..2000u64 {
            samples.push(base.saturating_mul(m) + base / 200 * (m % 7));
            samples.push(base / 2 + m);
            samples.push(base * 5 / 1000 * m);
        }
    }
    for b in samples {
        assert_eq!(format_bytes(b), float_bytes(b), "bytes {}", b);
    }
}

#[test]
fn durations() {
    assert_eq!(format_duration(0), "0m");
    assert_eq!(format_duration(59), "0m");
    assert_eq!(format_duration(3600), "1h 0m");
    assert_eq!(format_duration(90061), "1d 1h 1m");
    assert_eq!(format_duration(86400 * 2 + 120), "2d 0h 2m");
}

#[test]
fn state_labels() {
    assert_eq!(torrent_state_label("uploading"), "Seeding");
    assert_eq!(torrent_state_label("stalledUP"), "Seeding (stalled)");
    assert_eq!(torrent_state_label("stoppedUP"), "Paused (complete)");
    assert_eq!(torrent_state_label("pausedDL"), "Paused");
    assert_eq!(torrent_state_label("checkingDL"), "Checking");
    assert_eq!(torrent_state_label("missingFiles"), "Missing files");
    assert_eq!(torrent_state_label("queuedUP"), "queuedUP");
}

#[test]
fn truncation() {
    assert_eq!(truncate_string("short", 10), "short");
    assert_eq!(truncate_string("exactly10!", 10), "exactly10!");
    assert_eq!(truncate_string("a longer text", 8), "a lon...");
    assert_eq!(truncate_string("abcdef", 2), "...");
    assert_eq!(truncate_string("héllo world", 6), "hé...");
}

#[test]
fn dates() {
    assert_eq!(timestamp_to_date(0), "-");
    assert_eq!(timestamp_to_date(-5), "-");
    assert_eq!(timestamp_to_date(1704110400), "2024-01-01 12:00:00");
    assert_eq!(timestamp_to_date(1), "1970-01-01 00:00:01");
    assert_eq!(timestamp_to_date(i64::MAX), "-");
    assert_eq!(completion_label(None), "-");
    assert_eq!(completion_label(Some(0)), "-");
    assert_eq!(completion_label(Some(86400)), "1970-01-02 00:00:00");
}

#[test]
fn columns_and_geometry() {
    let sort = SortConfig { field: SortField::Name, direction: SortDirection::Asc };
    assert_eq!(sort_indicator(sort, SortField::Name), " \u{2191}");
    assert_eq!(sort_indicator(sort, SortField::AddedAt), "  ");
    let (name, completed, added) = column_headers(
        SortConfig { field: SortField::AddedAt, direction: SortDirection::Desc },
        12,
    );
    assert_eq!(name, format!("{:<12}", " Name  "));
    assert_eq!(completed, format!("{:<19}", "Completed  "));
    assert_eq!(added, format!("{:<19}", "Added \u{2193}"));
    assert_eq!(added.chars().count(), 19);
    assert_eq!(name_column_width(100), 56);
    assert_eq!(name_column_width(50), 10);
    assert_eq!(details_height(3), 2);
    assert_eq!(details_height(10), 5);
    assert_eq!(details_height(100), 20);
    assert_eq!(visible_rows(10), 7);
    assert_eq!(visible_rows(2), 1);
    assert_eq!(help_offset(100, 57, 22), 37);
    assert_eq!(help_offset(3, 57, 22), 3);
    assert_eq!(help_offset(3, 10, 40), 0);
    assert_eq!(list_scroll(50, 30, 10), 20);
    assert_eq!(list_scroll(5, 30, 10), 5);
    assert_eq!(list_scroll(5, 3, 10), 0);
    assert_eq!(row_shade(4, 4), RowShade::Selected);
    assert_eq!(row_shade(4, 1), RowShade::Even);
    assert_eq!(row_shade(3, 1), RowShade::Odd);
    assert_eq!(pad_right("ab".to_string(), 4), "ab  ");
    assert_eq!(pad_left("ab".to_string(), 4), "  ab");
    assert_eq!(pad_left("abcde".to_string(), 4), "abcde");
}

#[test]
fn list_rows() {
    let t = torrent();
    let row = list_row(&t, 12);
    assert_eq!(row.symbol, "\u{2713}");
    assert_eq!(row.name, "Some.M...   ");
    assert_eq!(row.completed, format!("{:<19}", "-"));
    assert_eq!(row.added, "2024-01-01 12:00:00");
    let wide = list_row(&t, 30);
    assert_eq!(wide.name, format!("{:<30}", "Some.Movie.2024"));
}

#[test]
fn details_panes() {
    let t = torrent();
    let info = info_pane(&t);
    let pairs: Vec<(String, String)> = info.into_iter().map(|(l, v)| (l.trim_end().to_string(), v)).collect();
    assert_eq!(pairs[0], ("Name".to_string(), "Some.Movie.2024".to_string()));
    assert_eq!(pairs[1].1, "v1");
    assert_eq!(pairs[2].1, "N/A");
    assert_eq!(pairs[3].1, "Seeding (stalled)");
    assert_eq!(pairs[4].1, "2 KiB (1.0 MiB)");
    assert_eq!(pairs[5].1, "2.25");
    assert_eq!(pairs[6].1, "5 (40)");
    assert_eq!(pairs[7].1, "1 (3)");
    assert_eq!(pairs[8].1, "2024-01-01 12:00:00");
    assert_eq!(pairs[9].1, "-");
    assert_eq!(pairs[10].1, "-");
    assert_eq!(pairs[11].1, "oc_ok");
    assert_eq!(pairs[12].1, "udp://tracker");
    assert_eq!(info_pane(&t)[0].0, format!("{:<14}", "Name"));
    let paths = paths_pane(&t);
    assert_eq!(paths[2].1, "abc123");
    assert_eq!(paths[1].0, format!("{:<14}", "Content path"));
    let transfer = transfer_pane(&t);
    assert_eq!(transfer[0].1, "3.00 GiB");
    assert_eq!(transfer[1].1, "512 B");
    assert_eq!(transfer[2].1, "2 KiB/s");
    assert_eq!(transfer[3].1, "0 B/s");
    assert_eq!(transfer[4].1, "1d 1h 1m");
    assert_eq!(transfer[5].1, "0m");
}

#[test]
fn files_pane() {
    assert_eq!(file_display_name("Movie/sub/a.mkv"), "sub/a.mkv");
    assert_eq!(file_display_name("single.mkv"), "single.mkv");
    let files = vec![
        TorrentFile { name: "Movie/a.mkv".to_string(), size: 1048576, progress_label: "100%".to_string() },
        TorrentFile { name: "b.nfo".to_string(), size: 10, progress_label: " 50%".to_string() },
    ];
    let rows = file_rows(&files);
    let lines: Vec<String> = rows.iter().map(|r| format!("{}{}{}", r.progress, r.size, r.name)).collect();
    assert_eq!(lines, vec!["100%   1.0 MiB a.mkv".to_string(), " 50%      10 B b.nfo".to_string()]);
    assert_eq!(rows[0].size, "  1.0 MiB ");
    let mut s = AppState::default();
    assert_eq!(s.files_state("abc"), FilesState::Unavailable);
    s.begin_file_load("abc".to_string());
    assert_eq!(s.files_state("abc"), FilesState::Loading);
    s.files_loaded("abc".to_string(), files);
    assert_eq!(s.files_state("abc"), FilesState::Cached);
}

#[test]
fn header_texts() {
    let mut s = AppState::default();
    let mut ts = Vec::new();
    for i in 0..25u64 {
        let mut t = torrent();
        t.hash = format!("h{}", i);
        t.added_on = i;
        ts.push(t);
    }
    s.replace_torrents(ts);
    assert_eq!(s.page_info(), "1-20 of 25 torrents (All) | Press h for help");
    s.scroll_offset = 10;
    assert_eq!(s.page_info(), "11-25 of 25 torrents (All) | Press h for help");
    s.view = View::LogView;
    assert_eq!(s.page_info(), "0 of 0 log entries | Press h for help");
    s.view = View::VerticalSplit;
    s.filter = ScriptStateFilter::NotRan;
    s.scroll_offset = 0;
    assert_eq!(s.page_info(), "0-0 of 0 torrents (Not ran) | 0 of 0 log entries | Press h for help");
    s.view = View::Help;
    assert_eq!(s.page_info(), "Press q or Esc to go back");
    assert_eq!(header_title(&None), " qBittorrent ... ");
    assert_eq!(header_title(&Some("v4.6.2".to_string())), " qBittorrent v4.6.2 ");
}

#[test]
fn log_entries() {
    let mut s = AppState::default();
    let mut t = torrent();
    t.hash = "known".to_string();
    t.name = "Listed Name".to_string();
    s.replace_torrents(vec![t]);
    let entry = ScriptResult {
        hash: "known".to_string(),
        name: "Recorded".to_string(),
        script: "x".to_string(),
        stdout: "  done\n".to_string(),
        stderr: String::new(),
        success: true,
        exit_code: Some(-2),
        started_at: UtcTime { secs: 1704110400 + 3661, nanos: 5 },
        completed_at: UtcTime { secs: 1704110400 + 3662, nanos: 0 },
    };
    let text = s.log_entry_text(&entry);
    assert_eq!(text.heading, "[13:01:01] \u{2713} ");
    assert_eq!(text.name, "Listed Name");
    assert!(text.known);
    assert_eq!(text.exit_code.as_deref(), Some("-2"));
    assert_eq!(text.stdout.as_deref(), Some("done"));
    assert!(text.stderr.is_none());
    let mut other = entry.clone();
    other.hash = "gone".to_string();
    other.success = false;
    other.stderr = "e".repeat(150);
    other.exit_code = None;
    let t2 = s.log_entry_text(&other);
    assert_eq!(t2.name, "Recorded");
    assert!(!t2.known);
    assert!(t2.heading.contains('\u{2717}'));
    assert!(t2.exit_code.is_none());
    assert_eq!(t2.stderr.as_deref().map(|e| e.len()), Some(100));
    other.name = String::new();
    assert_eq!(s.log_entry_text(&other).name, "gone");
    assert_eq!(s.log_start(), 0);
    assert_eq!(clock_of(UtcTime { secs: -1, nanos: 0 }), "23:59:59");
    assert_eq!(clock_of(UtcTime { secs: 59, nanos: 1_000_000_000 }), "00:00:60");
}

#[test]
fn login_form_texts() {
    assert_eq!(masked("secret"), "******");
    assert_eq!(masked(""), "");
    assert_eq!(masked("päss"), "*****");
    assert_eq!(masked("abcde"), masked("zzzzz"));
    assert_eq!(login_label("Host:"), "Host:     ");
    assert_eq!(login_origin(80, 24), (15, 4));
    assert_eq!(login_origin(10, 10), (0, 0));
}

#[test]
fn shortened_texts_fit_their_limit() {
    let text = "a fairly long torrent name, 2024";
    for max in 3..40usize {
        let r = truncate_string(text, max);
        assert!(r.len() <= max, "limit {}", max);
        assert!(r == text || r.ends_with("..."));
    }
}
