//! The text of the screens: the header line, the column headers and rows
//! of the torrent list, the details panes, the log entries and the login
//! form. Drawing them stays with the terminal front end.
use vstd::prelude::*;
use crate::app_state::{shown, AppState};
use crate::display::{
    bytes_text, date_text, duration_text, format_bytes, format_duration, pad_right, padded,
    state_label, timestamp_to_date, torrent_state_label,
};
use crate::enums;
use crate::display::{
    file_display_name, file_label, indicator, less_three, sort_indicator, truncate_string,
    truncated, two_digits,
};
use crate::bindings::UtcTime;
use crate::models::{ScriptResult, ScriptResultView, TorrentFile};
use crate::text::{text_equals, trim, trim_text};
use crate::models::{filter_label, state_of_tags, ScriptState, SortConfig, SortField, Torrent, TorrentView};
use crate::script::pair_views;
use crate::text::{at_char_boundary, decimal, owned, push_decimal, utf8_len};

verus! {

/// Appends `b` to `a`.
fn cat(a: String, b: &str) -> (r: String)
    ensures
        r@ == a@ + b@,
{
    let mut r = a;
    r.append(b);
    r
}

/// Appends the decimal rendering of `n` to `a`.
fn cat_num(a: String, n: u64) -> (r: String)
    ensures
        r@ == a@ + decimal(n as nat),
{
    let mut r = a;
    push_decimal(&mut r, n);
    r
}

/// The torrent part of the header: the rows on screen and the filter.
pub open spec fn torrents_part(first: nat, last: nat, count: nat, label: Seq<char>) -> Seq<char> {
    decimal(first) + "-"@ + decimal(last) + " of "@ + decimal(count) + " torrents ("@ + label + ")"@
}

/// The log part of the header: the entry at the top and how many there are.
pub open spec fn logs_part(position: nat, len: nat) -> Seq<char> {
    decimal(position) + " of "@ + decimal(len) + " log entries"@
}

/// The header line for a view, given how many torrents the list shows,
/// the list's scroll offset, the filter's label, the log's scroll offset
/// and how many log entries there are. The list's page is taken as 20
/// rows.
pub open spec fn page_info_text(
    view: enums::View,
    count: nat,
    scroll: nat,
    label: Seq<char>,
    log_scroll: nat,
    log_len: nat,
) -> Seq<char> {
    let first = if scroll + 1 < count { scroll + 1 } else { count };
    let last = if scroll + 20 < count { scroll + 20 } else { count };
    let position = if log_len > 0 { log_scroll + 1 } else { 0 };
    match view {
        enums::View::TorrentList => torrents_part(first, last, count, label) + " | Press h for help"@,
        enums::View::LogView => logs_part(position, log_len) + " | Press h for help"@,
        enums::View::VerticalSplit | enums::View::HorizontalSplit =>
            torrents_part(first, last, count, label) + " | "@ + logs_part(position, log_len)
                + " | Press h for help"@,
        enums::View::Help => "Press q or Esc to go back"@,
    }
}

/// The title over the header: the server's version, `...` while unknown.
pub open spec fn title_text(version: Option<Seq<char>>) -> Seq<char> {
    " qBittorrent "@ + match version {
        Some(v) => v,
        None => "..."@,
    } + " "@
}

/// The title over the header line.
pub fn header_title(version: &Option<String>) -> (r: String)
    ensures
        r@ == title_text(crate::bindings::opt_view(*version)),
{
    let r = owned(" qBittorrent ");
    let r = match version {
        Some(v) => cat(r, v.as_str()),
        None => cat(r, "..."),
    };
    cat(r, " ")
}

fn torrents_text(first: usize, last: usize, count: usize, label: &str) -> (r: String)
    ensures
        r@ == torrents_part(first as nat, last as nat, count as nat, label@),
{
    let r = cat_num(String::new(), first as u64);
    let r = cat(r, "-");
    let r = cat_num(r, last as u64);
    let r = cat(r, " of ");
    let r = cat_num(r, count as u64);
    let r = cat(r, " torrents (");
    let r = cat(r, label);
    let r = cat(r, ")");
    assert(r@ =~= torrents_part(first as nat, last as nat, count as nat, label@));
    r
}

fn logs_text(position: usize, len: usize) -> (r: String)
    ensures
        r@ == logs_part(position as nat, len as nat),
{
    let r = cat_num(String::new(), position as u64);
    let r = cat(r, " of ");
    let r = cat_num(r, len as u64);
    let r = cat(r, " log entries");
    assert(r@ =~= logs_part(position as nat, len as nat));
    r
}

impl AppState {
    /// The header line (`page_info_text`) for the current view.
    pub fn page_info(&self) -> (r: String)
        requires
            self.scroll_offset + 20 <= usize::MAX,
            self.logs.len() > 0 ==> self.log_scroll < usize::MAX,
        ensures
            r@ == page_info_text(
                self.view,
                shown(self@).len(),
                self.scroll_offset as nat,
                filter_label(self.filter),
                self.log_scroll as nat,
                self.logs.len() as nat,
            ),
    {
        let shown_list = self.filtered_torrents();
        let count = shown_list.len();
        assert(count == shown(self@).len());
        let start = self.scroll_offset + 1;
        let first = if start < count { start } else { count };
        let end = self.scroll_offset + 20;
        let last = if end < count { end } else { count };
        let log_len = self.logs.len();
        let position = if log_len > 0 { self.log_scroll + 1 } else { 0 };
        let label = self.filter.label();
        match self.view {
            enums::View::TorrentList => {
                cat(torrents_text(first, last, count, label), " | Press h for help")
            },
            enums::View::LogView => cat(logs_text(position, log_len), " | Press h for help"),
            enums::View::VerticalSplit | enums::View::HorizontalSplit => {
                let r = cat(torrents_text(first, last, count, label), " | ");
                let logs = logs_text(position, log_len);
                let r = cat(r, logs.as_str());
                cat(r, " | Press h for help")
            },
            enums::View::Help => owned("Press q or Esc to go back"),
        }
    }
}

/// The list's scroll position: the offset, but no further than where the
/// last `visible` of `count` rows fill the list.
pub fn list_scroll(scroll_offset: usize, count: usize, visible: usize) -> (r: usize)
    ensures
        r == if scroll_offset + visible <= count { scroll_offset as int } else if count >= visible {
            count - visible
        } else {
            0
        },
{
    let max_scroll = if count >= visible { count - visible } else { 0 };
    if scroll_offset < max_scroll { scroll_offset } else { max_scroll }
}

/// How a row of the list is shaded.
#[derive(Debug, Clone, Copy, PartialEq, Eq, Structural)]
pub enum RowShade {
    Selected,
    Even,
    Odd,
}

/// The shade of the row at `index`: the selected row stands out, the
/// others alternate.
pub fn row_shade(index: usize, selected: usize) -> (r: RowShade)
    ensures
        r == if index == selected {
            RowShade::Selected
        } else if index % 2 == 0 {
            RowShade::Even
        } else {
            RowShade::Odd
        },
{
    if index == selected {
        RowShade::Selected
    } else if index % 2 == 0 {
        RowShade::Even
    } else {
        RowShade::Odd
    }
}

/// Width of the date columns.
pub const DATE_WIDTH: usize = 19;

/// The three column headers: the name column `name_width` wide, the two
/// date columns 19 wide, each with the sort arrow where it is sorted by.
pub fn column_headers(sort: SortConfig, name_width: usize) -> (r: (String, String, String))
    ensures
        r.0@ == padded(" Name"@ + indicator(sort, SortField::Name), name_width as nat),
        r.1@ == padded("Completed"@ + indicator(sort, SortField::CompletedAt), 19),
        r.2@ == padded("Added"@ + indicator(sort, SortField::AddedAt), 19),
{
    let name = cat(owned(" Name"), sort_indicator(sort, SortField::Name));
    let completed = cat(owned("Completed"), sort_indicator(sort, SortField::CompletedAt));
    let added = cat(owned("Added"), sort_indicator(sort, SortField::AddedAt));
    (pad_right(name, name_width), pad_right(completed, DATE_WIDTH), pad_right(added, DATE_WIDTH))
}

/// The symbol of a script state, as `ScriptState::symbol` gives it.
pub open spec fn symbol_text(s: ScriptState) -> Seq<char> {
    match s {
        ScriptState::NotRan => seq!['?'],
        ScriptState::Success => seq!['\u{2713}'],
        ScriptState::Fail => seq!['!'],
    }
}

/// A completion time for display: its date where it is after the epoch,
/// `-` otherwise.
pub open spec fn completion_text(c: Option<i64>) -> Seq<char> {
    match c {
        Some(v) => if v > 0 { date_text(v as int) } else { "-"@ },
        None => "-"@,
    }
}

/// The completion time of a torrent for display (`completion_text`).
pub fn completion_label(c: Option<i64>) -> (r: String)
    ensures
        r@ == completion_text(c),
{
    match c {
        Some(v) => if v > 0 { timestamp_to_date(v) } else { owned("-") },
        None => owned("-"),
    }
}

/// A row of the torrent list: the state symbol, the name shortened and
/// padded to the name column, and the two dates padded to their columns.
pub struct ListRow {
    pub symbol: &'static str,
    pub name: String,
    pub completed: String,
    pub added: String,
}

/// Where a name must be cut to fit a column `width` wide, the cut falls
/// between characters.
pub open spec fn name_fits(name: Seq<char>, width: nat) -> bool {
    &&& utf8_len(name) <= usize::MAX
    &&& utf8_len(name) > less_three(width as int) ==> at_char_boundary(name, less_three(less_three(width as int)))
}

/// The name column's text for a name: cut to `width - 3` bytes, then
/// padded to `width` characters.
pub open spec fn name_cell(name: Seq<char>, width: nat) -> Seq<char> {
    padded(truncated(name, less_three(width as int)), width)
}

/// The row of the list for a torrent, with the name column `name_width`
/// wide.
pub fn list_row(torrent: &Torrent, name_width: usize) -> (r: ListRow)
    requires
        name_fits(torrent@.name, name_width as nat),
    ensures
        r.symbol@ == symbol_text(state_of_tags(torrent@.tags)),
        r.name@ == name_cell(torrent@.name, name_width as nat),
        r.completed@ == padded(completion_text(torrent@.completion_on), 19),
        r.added@ == padded(date_text(torrent.added_on as i64 as int), 19),
{
    let symbol = torrent.script_state().symbol();
    let keep: usize = if name_width >= 3 { name_width - 3 } else { 0 };
    let name = pad_right(truncate_string(torrent.name.as_str(), keep), name_width);
    let completed = pad_right(completion_label(torrent.completion_on), DATE_WIDTH);
    let added = pad_right(timestamp_to_date(torrent.added_on as i64), DATE_WIDTH);
    ListRow { symbol, name, completed, added }
}

/// Width of the labels in the details panes.
pub const LABEL_WIDTH: usize = 14;

/// A row of a details pane: the label padded to 14 characters, and the value.
pub open spec fn row(label: Seq<char>, value: Seq<char>) -> (Seq<char>, Seq<char>) {
    (padded(label, 14), value)
}

fn row_of(label: &str, value: String) -> (r: (String, String))
    ensures
        r.0@ == padded(label@, 14),
        r.1@ == value@,
{
    (pad_right(owned(label), LABEL_WIDTH), value)
}

/// A text, or `-` where it is empty.
pub open spec fn dash_if_empty(s: Seq<char>) -> Seq<char> {
    if s.len() == 0 { "-"@ } else { s }
}

fn dash_if_blank(s: &str) -> (r: String)
    ensures
        r@ == dash_if_empty(s@),
{
    if s.unicode_len() == 0 { owned("-") } else { owned(s) }
}

/// An info hash, or `N/A` where there is none.
pub open spec fn or_na(o: Option<Seq<char>>) -> Seq<char> {
    match o {
        Some(v) => v,
        None => "N/A"@,
    }
}

fn na_or(o: &Option<String>) -> (r: String)
    ensures
        r@ == or_na(crate::bindings::opt_view(*o)),
{
    match o {
        Some(v) => owned(v.as_str()),
        None => owned("N/A"),
    }
}

/// The size of a torrent: the selected size, and the total where it differs.
pub open spec fn size_text(size: u64, total: u64) -> Seq<char> {
    if size == total {
        bytes_text(size as nat)
    } else {
        bytes_text(size as nat) + " ("@ + bytes_text(total as nat) + ")"@
    }
}

/// Two counts as `a (b)`.
pub open spec fn count_pair(a: nat, b: nat) -> Seq<char> {
    decimal(a) + " ("@ + decimal(b) + ")"@
}

fn count_pair_text(a: u32, b: u32) -> (r: String)
    ensures
        r@ == count_pair(a as nat, b as nat),
{
    let r = cat_num(String::new(), a as u64);
    let r = cat(r, " (");
    let r = cat_num(r, b as u64);
    let r = cat(r, ")");
    assert(r@ =~= count_pair(a as nat, b as nat));
    r
}

/// The rows of the info pane.
pub open spec fn info_rows(t: TorrentView) -> Seq<(Seq<char>, Seq<char>)> {
    seq![
        row("Name"@, t.name),
        row("Info Hash v1"@, or_na(t.infohash_v1)),
        row("Info Hash v2"@, or_na(t.infohash_v2)),
        row("State"@, state_label(t.state)),
        row("Size"@, size_text(t.size, t.size_total)),
        row("Ratio"@, t.ratio),
        row("Seeds"@, count_pair(t.num_seeds as nat, t.num_complete as nat)),
        row("Peers"@, count_pair(t.num_leeches as nat, t.num_incomplete as nat)),
        row("Added"@, date_text(t.added_on as i64 as int)),
        row("Completed"@, completion_text(t.completion_on)),
        row("Category"@, dash_if_empty(t.category)),
        row("Tags"@, dash_if_empty(t.tags)),
        row("Tracker"@, dash_if_empty(t.tracker)),
    ]
}

/// The rows of the info pane for a torrent (`info_rows`).
pub fn info_pane(t: &Torrent) -> (r: Vec<(String, String)>)
    ensures
        pair_views(r@) == info_rows(t@),
{
    let size = if t.size == t.size_total {
        format_bytes(t.size)
    } else {
        let s = cat(format_bytes(t.size), " (");
        let total = format_bytes(t.size_total);
        cat(cat(s, total.as_str()), ")")
    };
    let mut r: Vec<(String, String)> = Vec::new();
    r.push(row_of("Name", owned(t.name.as_str())));
    r.push(row_of("Info Hash v1", na_or(&t.infohash_v1)));
    r.push(row_of("Info Hash v2", na_or(&t.infohash_v2)));
    r.push(row_of("State", torrent_state_label(t.state.as_str())));
    r.push(row_of("Size", size));
    r.push(row_of("Ratio", owned(t.ratio.as_str())));
    r.push(row_of("Seeds", count_pair_text(t.num_seeds, t.num_complete)));
    r.push(row_of("Peers", count_pair_text(t.num_leeches, t.num_incomplete)));
    r.push(row_of("Added", timestamp_to_date(t.added_on as i64)));
    r.push(row_of("Completed", completion_label(t.completion_on)));
    r.push(row_of("Category", dash_if_blank(t.category.as_str())));
    r.push(row_of("Tags", dash_if_blank(t.tags.as_str())));
    r.push(row_of("Tracker", dash_if_blank(t.tracker.as_str())));
    assert(pair_views(r@) =~= info_rows(t@));
    r
}

/// The rows of the paths pane.
pub open spec fn path_rows(t: TorrentView) -> Seq<(Seq<char>, Seq<char>)> {
    seq![row("Save path"@, t.save_path), row("Content path"@, t.content_path), row("Hash"@, t.hash)]
}

/// The rows of the paths pane for a torrent (`path_rows`).
pub fn paths_pane(t: &Torrent) -> (r: Vec<(String, String)>)
    ensures
        pair_views(r@) == path_rows(t@),
{
    let mut r: Vec<(String, String)> = Vec::new();
    r.push(row_of("Save path", owned(t.save_path.as_str())));
    r.push(row_of("Content path", owned(t.content_path.as_str())));
    r.push(row_of("Hash", owned(t.hash.as_str())));
    assert(pair_views(r@) =~= path_rows(t@));
    r
}

/// A seeding time for display: the duration, `-` where unknown.
pub open spec fn seeding_text(s: Option<u64>) -> Seq<char> {
    match s {
        Some(v) => duration_text(v as nat),
        None => "-"@,
    }
}

/// The rows of the transfer pane.
pub open spec fn transfer_rows(t: TorrentView) -> Seq<(Seq<char>, Seq<char>)> {
    seq![
        row("Uploaded"@, bytes_text(t.uploaded as nat)),
        row("Downloaded"@, bytes_text(t.downloaded as nat)),
        row("Upload speed"@, bytes_text(t.speed_up as nat) + "/s"@),
        row("DL speed"@, bytes_text(t.speed_down as nat) + "/s"@),
        row("Active time"@, duration_text(t.time_active as nat)),
        row("Seeding time"@, seeding_text(t.seeding_time)),
    ]
}

/// The rows of the transfer pane for a torrent (`transfer_rows`).
pub fn transfer_pane(t: &Torrent) -> (r: Vec<(String, String)>)
    ensures
        pair_views(r@) == transfer_rows(t@),
{
    let seeding = match t.seeding_time {
        Some(v) => format_duration(v),
        None => owned("-"),
    };
    let mut r: Vec<(String, String)> = Vec::new();
    r.push(row_of("Uploaded", format_bytes(t.uploaded)));
    r.push(row_of("Downloaded", format_bytes(t.downloaded)));
    r.push(row_of("Upload speed", cat(format_bytes(t.speed_up), "/s")));
    r.push(row_of("DL speed", cat(format_bytes(t.speed_down), "/s")));
    r.push(row_of("Active time", format_duration(t.time_active)));
    r.push(row_of("Seeding time", seeding));
    assert(pair_views(r@) =~= transfer_rows(t@));
    r
}

/// What the files pane shows for a torrent.
#[derive(Debug, Clone, Copy, PartialEq, Eq, Structural)]
pub enum FilesState {
    /// Its files are being fetched.
    Loading,
    /// Its files are in the cache.
    Cached,
    /// They could not be fetched.
    Unavailable,
}

impl AppState {
    /// What the files pane shows for the torrent `hash`.
    pub fn files_state(&self, hash: &str) -> (r: FilesState)
        ensures
            r == if self@.files_loading == Some(hash@) {
                FilesState::Loading
            } else if self@.cached_hashes.contains(hash@) {
                FilesState::Cached
            } else {
                FilesState::Unavailable
            },
    {
        let loading = match &self.files_loading {
            Some(h) => text_equals(h.as_str(), hash),
            None => false,
        };
        if loading {
            FilesState::Loading
        } else if self.cache_index(hash).is_some() {
            FilesState::Cached
        } else {
            FilesState::Unavailable
        }
    }
}

/// `n` spaces.
pub open spec fn spaces(n: nat) -> Seq<char> {
    Seq::new(n, |i: int| ' ')
}

/// A text right-aligned in `width` characters.
pub open spec fn right_aligned(s: Seq<char>, width: nat) -> Seq<char> {
    if s.len() >= width { s } else { spaces((width - s.len()) as nat) + s }
}

/// Right-aligns a text in `width` characters (as `{:>width}` does).
pub fn pad_left(s: String, width: usize) -> (r: String)
    ensures
        r@ == right_aligned(s@, width as nat),
{
    let n = s.unicode_len();
    if n >= width {
        return s;
    }
    let mut r = String::new();
    let mut k: usize = n;
    while k < width
        invariant
            n <= k <= width,
            r@ == spaces((k - n) as nat),
        decreases width - k,
    {
        crate::bindings::push_char(&mut r, ' ');
        k = k + 1;
        assert(r@ =~= spaces((k - n) as nat));
    }
    cat(r, s.as_str())
}

/// A row of the files pane: the progress and a space, the size
/// right-aligned in nine characters and a space, and the name without its
/// first directory.
pub struct FileRow {
    pub progress: String,
    pub size: String,
    pub name: String,
}

/// The progress cell of a file row.
pub open spec fn progress_cell(progress: Seq<char>) -> Seq<char> {
    progress + " "@
}

/// The size cell of a file row.
pub open spec fn size_cell(size: u64) -> Seq<char> {
    right_aligned(bytes_text(size as nat), 9) + " "@
}

/// The rows of the files pane, one per file.
pub fn file_rows(files: &Vec<TorrentFile>) -> (r: Vec<FileRow>)
    ensures
        r.len() == files.len(),
        forall|i: int|
            0 <= i < files.len() ==> {
                &&& #[trigger] r@[i].progress@ == progress_cell(files@[i].progress_label@)
                &&& r@[i].size@ == size_cell(files@[i].size)
                &&& r@[i].name@ == file_label(files@[i].name@)
            },
{
    let mut r: Vec<FileRow> = Vec::new();
    let mut i: usize = 0;
    while i < files.len()
        invariant
            i <= files.len(),
            r.len() == i,
            forall|k: int|
                0 <= k < i ==> {
                    &&& #[trigger] r@[k].progress@ == progress_cell(files@[k].progress_label@)
                    &&& r@[k].size@ == size_cell(files@[k].size)
                    &&& r@[k].name@ == file_label(files@[k].name@)
                },
        decreases files.len() - i,
    {
        let f = &files[i];
        let progress = cat(owned(f.progress_label.as_str()), " ");
        let size = cat(pad_left(format_bytes(f.size), 9), " ");
        let name = file_display_name(f.name.as_str());
        r.push(FileRow { progress, size, name });
        i = i + 1;
    }
    r
}

/// The name of the last torrent with hash `h`, if any.
pub open spec fn named_by_hash(ts: Seq<TorrentView>, h: Seq<char>) -> Option<Seq<char>>
    decreases ts.len(),
{
    if ts.len() == 0 {
        None
    } else if ts.last().hash == h {
        Some(ts.last().name)
    } else {
        named_by_hash(ts.drop_last(), h)
    }
}

/// The name a log entry is shown under: that of the torrent with its
/// hash, else the name it recorded, else its hash.
pub open spec fn log_name(ts: Seq<TorrentView>, e: ScriptResultView) -> Seq<char> {
    match named_by_hash(ts, e.hash) {
        Some(n) => n,
        None => if e.name.len() == 0 { e.hash } else { e.name },
    }
}

/// A signed number in decimal.
pub open spec fn signed_decimal(v: int) -> Seq<char> {
    if v < 0 { "-"@ + decimal((-v) as nat) } else { decimal(v as nat) }
}

fn signed_text(v: i32) -> (r: String)
    ensures
        r@ == signed_decimal(v as int),
{
    if v < 0 {
        let r = cat_num(owned("-"), (-(v as i64)) as u64);
        r
    } else {
        let r = cat_num(String::new(), v as u64);
        assert(r@ =~= decimal(v as nat));
        r
    }
}

/// The seconds since midnight of a UTC instant.
pub open spec fn day_seconds(secs: int) -> int {
    secs % 86400
}

/// The time of day of a UTC instant as `%H:%M:%S` writes it (a leap
/// second, held as nanoseconds past one second, reads `60`).
pub open spec fn clock_text(t: UtcTime) -> Seq<char> {
    let d = day_seconds(t.secs as int);
    two_digits((d / 3600) as nat) + ":"@ + two_digits((d % 3600 / 60) as nat) + ":"@
        + two_digits((d % 60 + t.nanos / 1_000_000_000) as nat)
}

fn push_two_digits(out: String, v: u64) -> (r: String)
    requires
        v < 100,
    ensures
        r@ == out@ + two_digits(v as nat),
{
    if v < 10 {
        proof {
            reveal_strlit("0");
        }
        let r = cat(out, "0");
        let r2 = cat_num(r, v);
        assert(r2@ =~= out@ + two_digits(v as nat));
        r2
    } else {
        cat_num(out, v)
    }
}

/// The time of day of a UTC instant (`clock_text`).
pub fn clock_of(t: UtcTime) -> (r: String)
    ensures
        r@ == clock_text(t),
{
    let d: u64 = if t.secs >= 0 {
        (t.secs as u64) % 86400
    } else {
        let a: u64 = (-(t.secs as i128)) as u64;
        let m = a % 86400;
        proof {
            let q = a as int / 86400;
            assert(a as int == 86400 * q + m) by (nonlinear_arith)
                requires
                    q == a as int / 86400,
                    m == a as int % 86400,
            ;
            if m == 0 {
                assert(t.secs as int == 86400 * (-q));
                assert((t.secs as int) % 86400 == 0) by (nonlinear_arith)
                    requires
                        t.secs as int == 86400 * (-q),
                ;
            } else {
                assert(t.secs as int == 86400 * (-q - 1) + (86400 - m));
                assert((t.secs as int) % 86400 == 86400 - m) by (nonlinear_arith)
                    requires
                        t.secs as int == 86400 * (-q - 1) + (86400 - m),
                        0 < m < 86400,
                ;
            }
        }
        if m == 0 { 0 } else { 86400 - m }
    };
    assert(d == day_seconds(t.secs as int));
    let extra: u64 = (t.nanos / 1_000_000_000) as u64;
    let r = push_two_digits(String::new(), d / 3600);
    let r = cat(r, ":");
    let r = push_two_digits(r, d % 3600 / 60);
    let r = cat(r, ":");
    let r = push_two_digits(r, d % 60 + extra);
    assert(r@ =~= clock_text(t));
    r
}

/// The status mark of a run: a tick where it succeeded, a cross where not.
pub open spec fn status_mark(success: bool) -> Seq<char> {
    if success { "\u{2713}"@ } else { "\u{2717}"@ }
}

/// The start of a log entry's first line: `[time] mark `.
pub open spec fn heading_text(e: ScriptResultView) -> Seq<char> {
    "["@ + clock_text(e.started_at) + "] "@ + status_mark(e.success) + " "@
}

/// What the log view shows of an output text: trimmed, then kept within
/// 100 bytes.
pub open spec fn excerpt(s: Seq<char>) -> Seq<char> {
    truncated(trim(s), 100)
}

/// Where an output text must be cut to fit, the cut falls between
/// characters.
pub open spec fn excerpt_fits(s: Seq<char>) -> bool {
    &&& utf8_len(trim(s)) <= usize::MAX
    &&& utf8_len(trim(s)) > 100 ==> at_char_boundary(trim(s), 97)
}

fn excerpt_of(s: &str) -> (r: String)
    requires
        excerpt_fits(s@),
    ensures
        r@ == excerpt(s@),
{
    let t = trim_text(s);
    truncate_string(t.as_str(), 100)
}

/// The texts of a log entry: its heading, the name it is shown under and
/// whether a torrent of the list has its hash, then the exit code, the
/// standard output and the standard error where there are any.
pub struct LogEntryText {
    pub heading: String,
    pub name: String,
    pub known: bool,
    pub exit_code: Option<String>,
    pub stdout: Option<String>,
    pub stderr: Option<String>,
}

impl AppState {
    /// The first log entry shown: the log's scroll offset, within the log.
    pub fn log_start(&self) -> (r: usize)
        ensures
            r == if self.logs.len() == 0 {
                0
            } else if self.log_scroll < self.logs.len() {
                self.log_scroll as int
            } else {
                self.logs.len() - 1
            },
    {
        let last = if self.logs.len() > 0 { self.logs.len() - 1 } else { 0 };
        if self.log_scroll < last { self.log_scroll } else { last }
    }

    /// The name of the last torrent of the list with hash `hash`.
    pub fn name_by_hash(&self, hash: &str) -> (r: Option<String>)
        ensures
            crate::bindings::opt_view(r) == named_by_hash(self@.torrents, hash@),
    {
        let ghost ts = self@.torrents;
        let mut i: usize = self.torrents.len();
        assert(ts.take(i as int) =~= ts);
        while i > 0
            invariant
                i <= self.torrents.len(),
                ts == self@.torrents,
                named_by_hash(ts.take(i as int), hash@) == named_by_hash(ts, hash@),
            decreases i,
        {
            let t = &self.torrents[i - 1];
            assert(ts.take(i as int).last() == ts[i - 1]);
            assert(ts[i - 1] == t@);
            if text_equals(t.hash.as_str(), hash) {
                return Some(owned(t.name.as_str()));
            }
            assert(ts.take(i as int).drop_last() =~= ts.take(i - 1));
            i = i - 1;
        }
        assert(ts.take(0) =~= Seq::<TorrentView>::empty());
        None
    }

    /// The texts of a log entry (`LogEntryText`).
    pub fn log_entry_text(&self, entry: &ScriptResult) -> (r: LogEntryText)
        requires
            excerpt_fits(entry@.stdout),
            excerpt_fits(entry@.stderr),
        ensures
            r.heading@ == heading_text(entry@),
            r.name@ == log_name(self@.torrents, entry@),
            r.known == named_by_hash(self@.torrents, entry@.hash) is Some,
            crate::bindings::opt_view(r.exit_code) == match entry.exit_code {
                Some(c) => Some(signed_decimal(c as int)),
                None => None,
            },
            crate::bindings::opt_view(r.stdout) == if entry@.stdout.len() == 0 {
                None
            } else {
                Some(excerpt(entry@.stdout))
            },
            crate::bindings::opt_view(r.stderr) == if entry@.stderr.len() == 0 {
                None
            } else {
                Some(excerpt(entry@.stderr))
            },
    {
        let h = cat(owned("["), clock_of(entry.started_at).as_str());
        let h = cat(h, "] ");
        let h = cat(h, if entry.success { "\u{2713}" } else { "\u{2717}" });
        let heading = cat(h, " ");
        assert(heading@ =~= heading_text(entry@));
        let found = self.name_by_hash(entry.hash.as_str());
        let known = found.is_some();
        let name = match found {
            Some(n) => n,
            None => if entry.name.unicode_len() == 0 {
                owned(entry.hash.as_str())
            } else {
                owned(entry.name.as_str())
            },
        };
        let exit_code = match entry.exit_code {
            Some(c) => Some(signed_text(c)),
            None => None,
        };
        let stdout = if entry.stdout.unicode_len() == 0 { None } else { Some(excerpt_of(entry.stdout.as_str())) };
        let stderr = if entry.stderr.unicode_len() == 0 { None } else { Some(excerpt_of(entry.stderr.as_str())) };
        LogEntryText { heading, name, known, exit_code, stdout, stderr }
    }
}

/// Width of the login box.
pub const LOGIN_WIDTH: u16 = 50;
/// Height of the login box.
pub const LOGIN_HEIGHT: u16 = 15;

/// The top-left corner of the login box, centred in a screen `width` by
/// `height`.
pub fn login_origin(width: u16, height: u16) -> (r: (u16, u16))
    ensures
        r.0 == (if width >= 50 { width - 50 } else { 0 }) / 2,
        r.1 == (if height >= 15 { height - 15 } else { 0 }) / 2,
{
    let w = if width >= LOGIN_WIDTH { width - LOGIN_WIDTH } else { 0 };
    let h = if height >= LOGIN_HEIGHT { height - LOGIN_HEIGHT } else { 0 };
    (w / 2, h / 2)
}

/// A label of the login form, padded to 10 characters.
pub fn login_label(label: &str) -> (r: String)
    ensures
        r@ == padded(label@, 10),
{
    pad_right(owned(label), 10)
}

} // verus!
