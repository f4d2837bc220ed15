//! The data model: torrents and their script-state tags, script results,
//! preferences, sort settings, the saved configuration and host URLs.
use vstd::prelude::*;
use crate::bindings::{duration_secs, duration_subsec_nanos, opt_view, since_unix_epoch, system_time_now, UtcTime};
use crate::text::{chars_of, chars_equal, split_chars, split_on, trim, trim_chars, char_views, text_equals};
use crate::host::{
    build_full_url, candidate_text, full_url, has_written_port, host_from_parts, host_of_parts, parse_host_url, parsed_host,
    url_candidate, written_port,
};
use crate::bindings::{parse_url, url_parse, UrlParts, UrlPartsView};

verus! {

/// The tag that marks a successful script run.
pub open spec fn ok_tag() -> Seq<char> {
    seq!['o', 'c', '_', 'o', 'k']
}

/// The tag that marks a failed script run.
pub open spec fn fail_tag() -> Seq<char> {
    seq!['o', 'c', '_', 'f', 'a', 'i', 'l']
}

/// Whether a comma-separated tag list holds `tag` (pieces compared trimmed).
pub open spec fn has_tag(tags: Seq<char>, tag: Seq<char>) -> bool {
    exists|k: int| 0 <= k < split_on(tags, ',').len() && #[trigger] trim(split_on(tags, ',')[k]) == tag
}

/// Whether the comma-separated list `tags` holds `tag` once each piece is trimmed.
pub fn tags_have(tags: &str, tag: &str) -> (r: bool)
    ensures
        r == has_tag(tags@, tag@),
{
    let v = chars_of(tags);
    let t = chars_of(tag);
    let pieces = split_chars(&v, ',');
    let ghost sp = split_on(tags@, ',');
    assert(char_views(pieces@) == sp);
    let mut k: usize = 0;
    while k < pieces.len()
        invariant
            k <= pieces.len(),
            char_views(pieces@) == sp,
            sp == split_on(tags@, ','),
            t@ == tag@,
            forall|m: int| 0 <= m < k ==> trim(sp[m]) != tag@,
        decreases pieces.len() - k,
    {
        let tp = trim_chars(&pieces[k]);
        assert(sp[k as int] == pieces@[k as int]@);
        if chars_equal(&tp, &t) {
            assert(trim(sp[k as int]) == tag@);
            return true;
        }
        k = k + 1;
    }
    assert(sp.len() == pieces@.len());
    false
}

/// Whether a torrent's script ran, and how it ended, as its tags record it.
#[derive(Debug, Clone, Copy, PartialEq, Eq, Structural)]
pub enum ScriptState {
    NotRan,
    Success,
    Fail,
}

/// The script state that a tag list records: `Ok` wins over `Fail`.
pub open spec fn state_of_tags(tags: Seq<char>) -> ScriptState {
    if has_tag(tags, ok_tag()) {
        ScriptState::Success
    } else if has_tag(tags, fail_tag()) {
        ScriptState::Fail
    } else {
        ScriptState::NotRan
    }
}

impl ScriptState {
    /// The symbol shown in the torrent list.
    pub fn symbol(&self) -> (r: &'static str)
        ensures
            *self == ScriptState::NotRan ==> r@ == seq!['?'],
            *self == ScriptState::Success ==> r@ == seq!['\u{2713}'],
            *self == ScriptState::Fail ==> r@ == seq!['!'],
    {
        proof {
            reveal_strlit("?");
            reveal_strlit("\u{2713}");
            reveal_strlit("!");
        }
        match self {
            ScriptState::NotRan => "?",
            ScriptState::Success => "\u{2713}",
            ScriptState::Fail => "!",
        }
    }
}

/// A torrent as the library holds it. The server's float fields arrive as
/// `complete` (the progress test `progress >= 1`, within `f64::EPSILON`)
/// and `ratio` (the ratio's two-decimal rendering).
#[derive(Debug, Clone)]
pub struct Torrent {
    pub hash: String,
    pub name: String,
    pub state: String,
    pub complete: bool,
    pub size: u64,
    pub size_total: u64,
    pub speed_down: u64,
    pub speed_up: u64,
    pub num_seeds: u32,
    pub num_leeches: u32,
    pub num_complete: u32,
    pub num_incomplete: u32,
    pub category: String,
    pub tags: String,
    pub content_path: String,
    pub root_path: String,
    pub save_path: String,
    pub ratio: String,
    pub added_on: u64,
    pub completion_on: Option<i64>,
    pub tracker: String,
    pub uploaded: u64,
    pub downloaded: u64,
    pub time_active: u64,
    pub seeding_time: Option<u64>,
    pub infohash_v1: Option<String>,
    pub infohash_v2: Option<String>,
}

/// The mathematical value of a [`Torrent`].
pub ghost struct TorrentView {
    pub hash: Seq<char>,
    pub name: Seq<char>,
    pub state: Seq<char>,
    pub complete: bool,
    pub size: u64,
    pub size_total: u64,
    pub speed_down: u64,
    pub speed_up: u64,
    pub num_seeds: u32,
    pub num_leeches: u32,
    pub num_complete: u32,
    pub num_incomplete: u32,
    pub category: Seq<char>,
    pub tags: Seq<char>,
    pub content_path: Seq<char>,
    pub root_path: Seq<char>,
    pub save_path: Seq<char>,
    pub ratio: Seq<char>,
    pub added_on: u64,
    pub completion_on: Option<i64>,
    pub tracker: Seq<char>,
    pub uploaded: u64,
    pub downloaded: u64,
    pub time_active: u64,
    pub seeding_time: Option<u64>,
    pub infohash_v1: Option<Seq<char>>,
    pub infohash_v2: Option<Seq<char>>,
}

impl View for Torrent {
    type V = TorrentView;

    open spec fn view(&self) -> TorrentView {
        TorrentView {
            hash: self.hash@,
            name: self.name@,
            state: self.state@,
            complete: self.complete,
            size: self.size,
            size_total: self.size_total,
            speed_down: self.speed_down,
            speed_up: self.speed_up,
            num_seeds: self.num_seeds,
            num_leeches: self.num_leeches,
            num_complete: self.num_complete,
            num_incomplete: self.num_incomplete,
            category: self.category@,
            tags: self.tags@,
            content_path: self.content_path@,
            root_path: self.root_path@,
            save_path: self.save_path@,
            ratio: self.ratio@,
            added_on: self.added_on,
            completion_on: self.completion_on,
            tracker: self.tracker@,
            uploaded: self.uploaded,
            downloaded: self.downloaded,
            time_active: self.time_active,
            seeding_time: self.seeding_time,
            infohash_v1: opt_view(self.infohash_v1),
            infohash_v2: opt_view(self.infohash_v2),
        }
    }
}

/// A copy of an optional text.
pub fn copy_opt(o: &Option<String>) -> (r: Option<String>)
    ensures
        opt_view(r) == opt_view(*o),
{
    match o {
        Some(s) => Some(s.clone()),
        None => None,
    }
}

impl Torrent {
    /// Whether the tags hold `oc_ok`.
    pub fn has_oc_ok_tag(&self) -> (r: bool)
        ensures
            r == has_tag(self@.tags, ok_tag()),
    {
        let tag = "oc_ok";
        proof {
            reveal_strlit("oc_ok");
            assert(tag@ =~= ok_tag());
        }
        tags_have(self.tags.as_str(), tag)
    }

    /// Whether the tags hold `oc_fail`.
    pub fn has_oc_fail_tag(&self) -> (r: bool)
        ensures
            r == has_tag(self@.tags, fail_tag()),
    {
        let tag = "oc_fail";
        proof {
            reveal_strlit("oc_fail");
            assert(tag@ =~= fail_tag());
        }
        tags_have(self.tags.as_str(), tag)
    }

    /// The script state that the tags record.
    pub fn script_state(&self) -> (r: ScriptState)
        ensures
            r == state_of_tags(self@.tags),
    {
        if self.has_oc_ok_tag() {
            ScriptState::Success
        } else if self.has_oc_fail_tag() {
            ScriptState::Fail
        } else {
            ScriptState::NotRan
        }
    }

    /// A field-by-field copy.
    pub fn duplicate(&self) -> (r: Torrent)
        ensures
            r@ == self@,
    {
        Torrent {
            hash: self.hash.clone(),
            name: self.name.clone(),
            state: self.state.clone(),
            complete: self.complete,
            size: self.size,
            size_total: self.size_total,
            speed_down: self.speed_down,
            speed_up: self.speed_up,
            num_seeds: self.num_seeds,
            num_leeches: self.num_leeches,
            num_complete: self.num_complete,
            num_incomplete: self.num_incomplete,
            category: self.category.clone(),
            tags: self.tags.clone(),
            content_path: self.content_path.clone(),
            root_path: self.root_path.clone(),
            save_path: self.save_path.clone(),
            ratio: self.ratio.clone(),
            added_on: self.added_on,
            completion_on: self.completion_on,
            tracker: self.tracker.clone(),
            uploaded: self.uploaded,
            downloaded: self.downloaded,
            time_active: self.time_active,
            seeding_time: self.seeding_time,
            infohash_v1: copy_opt(&self.infohash_v1),
            infohash_v2: copy_opt(&self.infohash_v2),
        }
    }
}


/// Which torrents the list shows, by recorded script state.
#[derive(Debug, Clone, Copy, PartialEq, Eq, Structural)]
pub enum ScriptStateFilter {
    All,
    NotRan,
    Success,
    Fail,
}

/// Whether a filter lets a torrent with the given script state through.
pub open spec fn filter_admits(f: ScriptStateFilter, s: ScriptState) -> bool {
    match f {
        ScriptStateFilter::All => true,
        ScriptStateFilter::NotRan => s == ScriptState::NotRan,
        ScriptStateFilter::Success => s == ScriptState::Success,
        ScriptStateFilter::Fail => s == ScriptState::Fail,
    }
}

/// The name a filter is saved under.
pub open spec fn filter_name(f: ScriptStateFilter) -> Seq<char> {
    match f {
        ScriptStateFilter::All => "all"@,
        ScriptStateFilter::NotRan => "not ran"@,
        ScriptStateFilter::Success => "ok"@,
        ScriptStateFilter::Fail => "fail"@,
    }
}

/// The filter a saved name stands for; unknown names give `All`.
pub open spec fn filter_from_name(s: Seq<char>) -> ScriptStateFilter {
    if s == "not ran"@ {
        ScriptStateFilter::NotRan
    } else if s == "ok"@ {
        ScriptStateFilter::Success
    } else if s == "fail"@ {
        ScriptStateFilter::Fail
    } else {
        ScriptStateFilter::All
    }
}

/// The label shown in the header.
pub open spec fn filter_label(f: ScriptStateFilter) -> Seq<char> {
    match f {
        ScriptStateFilter::All => "All"@,
        ScriptStateFilter::NotRan => "Not ran"@,
        ScriptStateFilter::Success => "Ok"@,
        ScriptStateFilter::Fail => "Fail"@,
    }
}

impl ScriptStateFilter {
    /// The filter after this one.
    pub open spec fn following(self) -> ScriptStateFilter {
        match self {
            ScriptStateFilter::All => ScriptStateFilter::NotRan,
            ScriptStateFilter::NotRan => ScriptStateFilter::Success,
            ScriptStateFilter::Success => ScriptStateFilter::Fail,
            ScriptStateFilter::Fail => ScriptStateFilter::All,
        }
    }

    /// The filter before this one.
    pub open spec fn preceding(self) -> ScriptStateFilter {
        match self {
            ScriptStateFilter::All => ScriptStateFilter::Fail,
            ScriptStateFilter::NotRan => ScriptStateFilter::All,
            ScriptStateFilter::Success => ScriptStateFilter::NotRan,
            ScriptStateFilter::Fail => ScriptStateFilter::Success,
        }
    }

    /// The label shown in the header.
    pub fn label(&self) -> (r: &'static str)
        ensures
            r@ == filter_label(*self),
    {
        match self {
            ScriptStateFilter::All => "All",
            ScriptStateFilter::NotRan => "Not ran",
            ScriptStateFilter::Success => "Ok",
            ScriptStateFilter::Fail => "Fail",
        }
    }

    /// The next filter: all, not ran, ok, fail, then all again.
    pub fn next(self) -> (r: Self)
        ensures
            r == self.following(),
    {
        match self {
            ScriptStateFilter::All => ScriptStateFilter::NotRan,
            ScriptStateFilter::NotRan => ScriptStateFilter::Success,
            ScriptStateFilter::Success => ScriptStateFilter::Fail,
            ScriptStateFilter::Fail => ScriptStateFilter::All,
        }
    }

    /// The previous filter.
    pub fn prev(self) -> (r: Self)
        ensures
            r == self.preceding(),
    {
        match self {
            ScriptStateFilter::All => ScriptStateFilter::Fail,
            ScriptStateFilter::NotRan => ScriptStateFilter::All,
            ScriptStateFilter::Success => ScriptStateFilter::NotRan,
            ScriptStateFilter::Fail => ScriptStateFilter::Success,
        }
    }

    /// The name the filter is saved under.
    pub fn to_str(self) -> (r: &'static str)
        ensures
            r@ == filter_name(self),
    {
        match self {
            ScriptStateFilter::All => "all",
            ScriptStateFilter::NotRan => "not ran",
            ScriptStateFilter::Success => "ok",
            ScriptStateFilter::Fail => "fail",
        }
    }

    /// The filter a saved name stands for.
    pub fn from_str(s: &str) -> (r: Self)
        ensures
            r == filter_from_name(s@),
    {
        if text_equals(s, "not ran") {
            ScriptStateFilter::NotRan
        } else if text_equals(s, "ok") {
            ScriptStateFilter::Success
        } else if text_equals(s, "fail") {
            ScriptStateFilter::Fail
        } else {
            ScriptStateFilter::All
        }
    }

    /// Whether the filter lets a torrent with state `s` through.
    pub fn admits(self, s: ScriptState) -> (r: bool)
        ensures
            r == filter_admits(self, s),
    {
        match self {
            ScriptStateFilter::All => true,
            ScriptStateFilter::NotRan => s == ScriptState::NotRan,
            ScriptStateFilter::Success => s == ScriptState::Success,
            ScriptStateFilter::Fail => s == ScriptState::Fail,
        }
    }
}

impl Default for ScriptStateFilter {
    fn default() -> (r: Self)
        ensures
            r == ScriptStateFilter::All,
    {
        ScriptStateFilter::All
    }
}

/// Cycling filters: `prev` undoes `next` and the reverse; four steps come back.
pub proof fn law_filter_cycle(f: ScriptStateFilter)
    ensures
        f.following().preceding() == f,
        f.preceding().following() == f,
        f.following().following().following().following() == f,
{
}

/// A saved filter name reads back as the same filter.
pub proof fn law_filter_name_round_trip(f: ScriptStateFilter)
    ensures
        filter_from_name(filter_name(f)) == f,
{
    reveal_strlit("all");
    reveal_strlit("not ran");
    reveal_strlit("ok");
    reveal_strlit("fail");
    assert("all"@.len() != "not ran"@.len());
    assert("all"@.len() != "ok"@.len());
    assert("all"@.len() != "fail"@.len());
    assert("ok"@.len() != "not ran"@.len());
    assert("fail"@.len() != "not ran"@.len());
    assert("fail"@.len() != "ok"@.len());
}

/// The field torrents are sorted by.
#[derive(Debug, Clone, Copy, PartialEq, Eq, Structural)]
pub enum SortField {
    Name,
    AddedAt,
    CompletedAt,
}

impl Default for SortField {
    fn default() -> (r: Self)
        ensures
            r == SortField::Name,
    {
        SortField::Name
    }
}

/// The direction torrents are sorted in.
#[derive(Debug, Clone, Copy, PartialEq, Eq, Structural)]
pub enum SortDirection {
    Asc,
    Desc,
}

impl Default for SortDirection {
    fn default() -> (r: Self)
        ensures
            r == SortDirection::Desc,
    {
        SortDirection::Desc
    }
}

/// How the torrent list is sorted.
#[derive(Debug, Clone, Copy, PartialEq, Eq, Structural)]
pub struct SortConfig {
    pub field: SortField,
    pub direction: SortDirection,
}

impl Default for SortConfig {
    /// Newest additions first.
    fn default() -> (r: Self)
        ensures
            r == (SortConfig { field: SortField::AddedAt, direction: SortDirection::Desc }),
    {
        SortConfig { field: SortField::AddedAt, direction: SortDirection::Desc }
    }
}

/// The sort configuration with its direction flipped.
pub open spec fn flipped_direction(c: SortConfig) -> SortConfig {
    SortConfig {
        field: c.field,
        direction: match c.direction {
            SortDirection::Asc => SortDirection::Desc,
            SortDirection::Desc => SortDirection::Asc,
        },
    }
}

/// Flipping the sort direction twice restores it.
pub proof fn law_direction_flip_twice(c: SortConfig)
    ensures
        flipped_direction(flipped_direction(c)) == c,
{
}

/// The record of one script run.
#[derive(Debug, Clone)]
pub struct ScriptResult {
    pub hash: String,
    pub name: String,
    pub script: String,
    pub stdout: String,
    pub stderr: String,
    pub success: bool,
    pub exit_code: Option<i32>,
    pub started_at: UtcTime,
    pub completed_at: UtcTime,
}

/// The mathematical value of a [`ScriptResult`].
pub ghost struct ScriptResultView {
    pub hash: Seq<char>,
    pub name: Seq<char>,
    pub script: Seq<char>,
    pub stdout: Seq<char>,
    pub stderr: Seq<char>,
    pub success: bool,
    pub exit_code: Option<i32>,
    pub started_at: UtcTime,
    pub completed_at: UtcTime,
}

impl View for ScriptResult {
    type V = ScriptResultView;

    open spec fn view(&self) -> ScriptResultView {
        ScriptResultView {
            hash: self.hash@,
            name: self.name@,
            script: self.script@,
            stdout: self.stdout@,
            stderr: self.stderr@,
            success: self.success,
            exit_code: self.exit_code,
            started_at: self.started_at,
            completed_at: self.completed_at,
        }
    }
}

/// The UTC instant `secs` seconds and `nanos` nanoseconds after the Unix
/// epoch: `None` where the seconds do not fit in an `i64`.
pub fn utc_from_epoch_offset(secs: u64, nanos: u32) -> (r: Option<UtcTime>)
    ensures
        r == (if secs <= i64::MAX { Some(UtcTime { secs: secs as i64, nanos }) } else { None }),
{
    if secs <= 9_223_372_036_854_775_807u64 {
        Some(UtcTime { secs: secs as i64, nanos })
    } else {
        None
    }
}

/// The instant given, or the Unix epoch where there is none.
pub fn time_or_epoch(t: Option<UtcTime>) -> (r: UtcTime)
    ensures
        r == (match t {
            Some(x) => x,
            None => (UtcTime { secs: 0, nanos: 0 }),
        }),
{
    match t {
        Some(x) => x,
        None => UtcTime { secs: 0, nanos: 0 },
    }
}

/// The system clock read as a UTC instant: the time since the Unix epoch
/// through `utc_from_epoch_offset`, `None` where the clock reads before the
/// epoch. Which instant comes back is the clock's to decide.
pub fn utc_now() -> (r: Option<UtcTime>)
    ensures
        r matches Some(t) ==> 0 <= t.secs && t.nanos < 1_000_000_000,
{
    let now = system_time_now();
    match since_unix_epoch(&now) {
        Some(d) => {
            let secs = duration_secs(&d);
            let nanos = duration_subsec_nanos(&d);
            utc_from_epoch_offset(secs, nanos)
        },
        None => None,
    }
}

/// The current UTC instant for a record: `time_or_epoch` of the clock's
/// reading.
pub fn current_time() -> (r: UtcTime)
    ensures
        0 <= r.secs,
        r.nanos < 1_000_000_000,
{
    time_or_epoch(utc_now())
}

impl ScriptResult {
    /// An empty, unsuccessful record started and completed now (at the Unix
    /// epoch where the clock has no reading after it; see `current_time`).
    pub fn default() -> (r: Self)
        ensures
            r@.hash.len() == 0,
            r@.name.len() == 0,
            r@.script.len() == 0,
            r@.stdout.len() == 0,
            r@.stderr.len() == 0,
            !r@.success,
            r@.exit_code is None,
            r@.started_at == r@.completed_at,
            0 <= r@.started_at.secs,
            r@.started_at.nanos < 1_000_000_000,
    {
        let started_at = current_time();
        ScriptResult {
            hash: String::new(),
            name: String::new(),
            script: String::new(),
            stdout: String::new(),
            stderr: String::new(),
            success: false,
            exit_code: None,
            started_at,
            completed_at: started_at,
        }
    }

    /// A field-by-field copy.
    pub fn duplicate(&self) -> (r: Self)
        ensures
            r@ == self@,
    {
        ScriptResult {
            hash: self.hash.clone(),
            name: self.name.clone(),
            script: self.script.clone(),
            stdout: self.stdout.clone(),
            stderr: self.stderr.clone(),
            success: self.success,
            exit_code: self.exit_code,
            started_at: self.started_at,
            completed_at: self.completed_at,
        }
    }
}

/// An info hash as the torrent list keeps it: `None` where the server sent
/// none or an empty one.
pub fn present_hash(o: Option<String>) -> (r: Option<String>)
    ensures
        opt_view(r) == match opt_view(o) {
            Some(h) => if h.len() > 0 { Some(h) } else { None },
            None => None,
        },
{
    match o {
        Some(h) => if h.unicode_len() > 0 { Some(h) } else { None },
        None => None,
    }
}

/// A file of a torrent. Its float progress arrives as `progress_label`, its
/// rendering as a whole percentage.
#[derive(Debug, Clone)]
pub struct TorrentFile {
    pub name: String,
    pub size: u64,
    pub progress_label: String,
}

/// The mathematical value of a [`TorrentFile`].
pub ghost struct TorrentFileView {
    pub name: Seq<char>,
    pub size: u64,
    pub progress_label: Seq<char>,
}

impl View for TorrentFile {
    type V = TorrentFileView;

    open spec fn view(&self) -> TorrentFileView {
        TorrentFileView { name: self.name@, size: self.size, progress_label: self.progress_label@ }
    }
}

/// The views of a sequence of files.
pub open spec fn file_views(v: Seq<TorrentFile>) -> Seq<TorrentFileView> {
    v.map_values(|f: TorrentFile| f@)
}

/// The script settings read from qBittorrent.
#[derive(Debug, Clone)]
pub struct Preferences {
    /// Whether the on-completion program runs.
    pub script_enabled: bool,
    /// The on-completion program.
    pub script: String,
    /// Where qBittorrent writes its log.
    pub log_dir: Option<String>,
}

/// Script settings to change in qBittorrent; `None` leaves a setting alone.
#[derive(Debug, Clone)]
pub struct PreferencesForUpdate {
    pub script_enabled: Option<bool>,
    pub script: Option<String>,
}

impl Default for PreferencesForUpdate {
    fn default() -> (r: Self)
        ensures
            r.script_enabled is None,
            r.script is None,
    {
        PreferencesForUpdate { script_enabled: None, script: None }
    }
}

/// Where and as whom to connect.
#[derive(Debug, Clone)]
pub struct Credentials {
    pub host: String,
    pub username: String,
    pub password: String,
}

impl Credentials {
    /// Credentials from their three texts.
    pub fn new(host: String, username: String, password: String) -> (r: Self)
        ensures
            r.host@ == host@,
            r.username@ == username@,
            r.password@ == password@,
    {
        Self { host, username, password }
    }

    /// Credentials with every field empty.
    pub fn empty() -> (r: Self)
        ensures
            r.host@.len() == 0,
            r.username@.len() == 0,
            r.password@.len() == 0,
    {
        Self { host: String::new(), username: String::new(), password: String::new() }
    }

    /// A field-by-field copy.
    pub fn duplicate(&self) -> (r: Self)
        ensures
            r.host@ == self.host@,
            r.username@ == self.username@,
            r.password@ == self.password@,
    {
        Self { host: self.host.clone(), username: self.username.clone(), password: self.password.clone() }
    }
}

/// The saved settings of the tool.
#[derive(Debug, Clone)]
pub struct Configuration {
    pub credentials: Credentials,
    pub sort_config: SortConfig,
    pub last_view: Option<String>,
    pub last_filter: Option<String>,
    pub script: Option<String>,
}

/// The port a loaded host is given: the port the parser reports; where it
/// reports none, the scheme's default port if the text writes a port (the
/// parser leaves out a written default port), else 8080.
pub open spec fn loaded_port(p: UrlPartsView, text: Seq<char>) -> u16 {
    match p.port {
        Some(x) => x,
        None => match p.known_port {
            Some(d) => if written_port(text) { d } else { 8080 },
            None => 8080,
        },
    }
}

/// The port a loaded host is given, from the parser's parts and the text
/// it parsed (`loaded_port`).
pub fn loaded_port_of(parts: &UrlParts, text: &str) -> (r: u16)
    ensures
        r == loaded_port(parts@, text@),
{
    match parts.port {
        Some(x) => x,
        None => match parts.known_port {
            Some(d) => if has_written_port(text) { d } else { 8080 },
            None => 8080,
        },
    }
}

/// The host text a loaded configuration is given: the URL rebuilt without
/// user name, on the port `loaded_port` gives.
pub open spec fn normalized_host_text(host: Seq<char>) -> Option<Seq<char>> {
    match parsed_host(host) {
        Some(h) => Some(full_url(
            h.protocol,
            h.host,
            Some(loaded_port(url_parse(url_candidate(host))->0, url_candidate(host))),
            h.pathname,
            None,
        )),
        None => None,
    }
}

/// A saved host that writes its scheme's default port (which the parser
/// does not report) keeps that port when loaded: `https://h:443/` loads on
/// port 443, not 8080.
pub proof fn law_written_default_port_is_kept(host: Seq<char>)
    requires
        url_parse(url_candidate(host)) is Some,
        url_parse(url_candidate(host))->0.query is None,
        url_parse(url_candidate(host))->0.fragment is None,
        url_parse(url_candidate(host))->0.port is None,
        url_parse(url_candidate(host))->0.known_port is Some,
        written_port(url_candidate(host)),
    ensures
        ({
            let p = url_parse(url_candidate(host))->0;
            normalized_host_text(host) == Some(full_url(p.scheme, host_of_parts(p).host, p.known_port, p.path, None))
        }),
{
}

impl Configuration {
    /// Empty credentials, the default sort, and nothing else saved.
    pub fn new() -> (r: Self)
        ensures
            r.credentials.host@.len() == 0,
            r.credentials.username@.len() == 0,
            r.credentials.password@.len() == 0,
            r.sort_config == (SortConfig { field: SortField::AddedAt, direction: SortDirection::Desc }),
            r.last_view is None,
            r.last_filter is None,
            r.script is None,
    {
        Self {
            credentials: Credentials::empty(),
            sort_config: SortConfig::default(),
            last_view: None,
            last_filter: None,
            script: None,
        }
    }

    /// The host as shown to the user: the parsed URL with user name, or the
    /// saved text as it is where it does not parse.
    pub fn display_url(&self) -> (r: String)
        ensures
            match parsed_host(self.credentials.host@) {
                Some(h) => r@ == full_url(h.protocol, h.host, h.port, h.pathname, Some(h.username)),
                None => r@ == self.credentials.host@,
            },
    {
        match parse_host_url(self.credentials.host.as_str()) {
            Ok(p) => p.display(),
            Err(_) => self.credentials.host.clone(),
        }
    }

    /// The configuration as loading keeps it: `None` where the saved host does
    /// not parse, else the host normalised and everything else unchanged.
    pub fn normalized(self) -> (r: Option<Self>)
        ensures
            normalized_host_text(self.credentials.host@) is None <==> r is None,
            r matches Some(c) ==> {
                &&& Some(c.credentials.host@) == normalized_host_text(self.credentials.host@)
                &&& c.credentials.username@ == self.credentials.username@
                &&& c.credentials.password@ == self.credentials.password@
                &&& c.sort_config == self.sort_config
                &&& opt_view(c.last_view) == opt_view(self.last_view)
                &&& opt_view(c.last_filter) == opt_view(self.last_filter)
                &&& opt_view(c.script) == opt_view(self.script)
            },
    {
        let mut configuration = self;
        let candidate = candidate_text(configuration.credentials.host.as_str());
        match parse_url(candidate.as_str()) {
            Err(_) => None,
            Ok(parts) => {
                let port = loaded_port_of(&parts, candidate.as_str());
                match host_from_parts(parts) {
                    Err(_) => None,
                    Ok(parsed) => {
                        configuration.credentials.host = build_full_url(
                            parsed.protocol.as_str(),
                            parsed.host.as_str(),
                            Some(port),
                            parsed.pathname.as_str(),
                            None,
                        );
                        Some(configuration)
                    },
                }
            },
        }
    }
}

} // verus!
