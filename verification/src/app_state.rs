//! The state of the interface and every change made to it, apart from the
//! network, file and terminal work that the application performs around it.
use vstd::prelude::*;
use crate::bindings::opt_view;
use crate::enums::{AppMode, DetailPane, LoginField};
use crate::enums;
use crate::models::{
    file_views, Configuration, Credentials, Preferences, ScriptResult, ScriptResultView,
    ScriptStateFilter, SortConfig, SortDirection, SortField, Torrent, TorrentFile, TorrentFileView,
    TorrentView,
};
use crate::sort::{
    completed_copies, completed_only, listed, listed_refs, ref_views, sorted_by, stably_sorted,
    torrent_views, SortKey,
};
use crate::text::{at_char_boundary, byte_prefix, byte_prefix_of, owned, text_equals, trim, trim_text, utf8_len};
use crate::tags::{
    law_retag_fail_records_failure, law_retag_ok_records_success, law_retag_twice_changes_nothing, outcome_tag, retag,
    retagged,
};
use crate::models::{fail_tag, ok_tag, state_of_tags, ScriptState, filter_name};
use crate::enums::view_name;
use crate::sort::lemma_listed_len;
use crate::models::{filter_from_name, flipped_direction};
use crate::enums::view_from_name;

verus! {

/// How a notification is shown.
#[derive(Debug, Clone, Copy, PartialEq, Eq, Structural)]
pub enum ToastLevel {
    Error,
    Info,
}

/// A notification waiting to be shown.
pub struct Toast {
    pub level: ToastLevel,
    pub title: String,
    pub message: String,
}

/// The mathematical value of a [`Toast`].
pub ghost struct ToastView {
    pub level: ToastLevel,
    pub title: Seq<char>,
    pub message: Seq<char>,
}

impl View for Toast {
    type V = ToastView;

    open spec fn view(&self) -> ToastView {
        ToastView { level: self.level, title: self.title@, message: self.message@ }
    }
}

/// The files of one torrent, once loaded.
pub struct CachedFiles {
    pub hash: String,
    pub files: Vec<TorrentFile>,
}

/// The mathematical value of the [`Preferences`] the state holds.
pub ghost struct PreferencesView {
    pub script_enabled: bool,
    pub script: Seq<char>,
    pub log_dir: Option<Seq<char>>,
}

/// The view of optional preferences.
pub open spec fn preferences_view(p: Option<Preferences>) -> Option<PreferencesView> {
    match p {
        Some(p) => Some(PreferencesView { script_enabled: p.script_enabled, script: p.script@, log_dir: opt_view(p.log_dir) }),
        None => None,
    }
}

/// The view of a queued login: host, user name and password.
pub open spec fn login_view(p: Option<(String, String, String)>) -> Option<(Seq<char>, Seq<char>, Seq<char>)> {
    match p {
        Some(t) => Some((t.0@, t.1@, t.2@)),
        None => None,
    }
}

/// The interface state.
pub struct AppState {
    pub torrents: Vec<Torrent>,
    pub selected_index: usize,
    pub scroll_offset: usize,
    pub view: enums::View,
    pub previous_view: Option<enums::View>,
    pub help_scroll: usize,
    pub mode: AppMode,
    pub error_message: Option<String>,
    pub preferences: Option<Preferences>,
    pub logs: Vec<ScriptResult>,
    pub log_scroll: usize,
    pub qbit_version: Option<String>,
    pub login_host: String,
    pub login_username: String,
    pub login_password: String,
    pub login_field: LoginField,
    pub pending_login: Option<(String, String, String)>,
    pub sort_config: SortConfig,
    /// Notifications waiting for the terminal to show them.
    pub toasts: Vec<Toast>,
    pub filter: ScriptStateFilter,
    pub sync_rid: u64,
    pub show_details: bool,
    pub detail_pane: DetailPane,
    pub file_cache: Vec<CachedFiles>,
    pub files_loading: Option<String>,
    pub script: Option<String>,
}

/// The mathematical value of an [`AppState`].
pub ghost struct AppStateView {
    pub torrents: Seq<TorrentView>,
    pub selected_index: usize,
    pub scroll_offset: usize,
    pub view: enums::View,
    pub previous_view: Option<enums::View>,
    pub help_scroll: usize,
    pub mode: AppMode,
    pub error_message: Option<Seq<char>>,
    pub preferences: Option<PreferencesView>,
    pub logs: Seq<ScriptResultView>,
    pub log_scroll: usize,
    pub qbit_version: Option<Seq<char>>,
    pub login_host: Seq<char>,
    pub login_username: Seq<char>,
    pub login_password: Seq<char>,
    pub login_field: LoginField,
    pub pending_login: Option<(Seq<char>, Seq<char>, Seq<char>)>,
    pub sort_config: SortConfig,
    pub toasts: Seq<ToastView>,
    pub filter: ScriptStateFilter,
    pub sync_rid: u64,
    pub show_details: bool,
    pub detail_pane: DetailPane,
    pub cached_hashes: Seq<Seq<char>>,
    pub cached_files: Seq<Seq<TorrentFileView>>,
    pub files_loading: Option<Seq<char>>,
    pub script: Option<Seq<char>>,
}

/// The views of a sequence of log entries.
pub open spec fn log_views(v: Seq<ScriptResult>) -> Seq<ScriptResultView> {
    v.map_values(|r: ScriptResult| r@)
}

/// The views of a sequence of notifications.
pub open spec fn toast_views(v: Seq<Toast>) -> Seq<ToastView> {
    v.map_values(|t: Toast| t@)
}

/// The hashes whose files the cache holds, in cache order.
pub open spec fn cache_hashes(v: Seq<CachedFiles>) -> Seq<Seq<char>> {
    v.map_values(|c: CachedFiles| c.hash@)
}

/// The files the cache holds, in cache order.
pub open spec fn cache_contents(v: Seq<CachedFiles>) -> Seq<Seq<TorrentFileView>> {
    v.map_values(|c: CachedFiles| file_views(c.files@))
}

/// Whether `i` is the first position of `h` in `hs`.
pub open spec fn first_at(hs: Seq<Seq<char>>, h: Seq<char>, i: int) -> bool {
    0 <= i < hs.len() && hs[i] == h && forall|j: int| 0 <= j < i ==> hs[j] != h
}

/// The first position of `h` in `hs` (meaningful where `hs` holds `h`).
pub open spec fn first_position(hs: Seq<Seq<char>>, h: Seq<char>) -> int {
    choose|i: int| first_at(hs, h, i)
}

/// The first position is the only one with its property.
pub proof fn lemma_first_position(hs: Seq<Seq<char>>, h: Seq<char>, i: int)
    requires
        first_at(hs, h, i),
    ensures
        first_position(hs, h) == i,
{
    let c = first_position(hs, h);
    assert(first_at(hs, h, c));
    if c < i {
        assert(hs[c] != h);
    } else if c > i {
        assert(hs[i] != h);
    }
}

impl View for AppState {
    type V = AppStateView;

    open spec fn view(&self) -> AppStateView {
        AppStateView {
            torrents: torrent_views(self.torrents@),
            selected_index: self.selected_index,
            scroll_offset: self.scroll_offset,
            view: self.view,
            previous_view: self.previous_view,
            help_scroll: self.help_scroll,
            mode: self.mode,
            error_message: opt_view(self.error_message),
            preferences: preferences_view(self.preferences),
            logs: log_views(self.logs@),
            log_scroll: self.log_scroll,
            qbit_version: opt_view(self.qbit_version),
            login_host: self.login_host@,
            login_username: self.login_username@,
            login_password: self.login_password@,
            login_field: self.login_field,
            pending_login: login_view(self.pending_login),
            sort_config: self.sort_config,
            toasts: toast_views(self.toasts@),
            filter: self.filter,
            sync_rid: self.sync_rid,
            show_details: self.show_details,
            detail_pane: self.detail_pane,
            cached_hashes: cache_hashes(self.file_cache@),
            cached_files: cache_contents(self.file_cache@),
            files_loading: opt_view(self.files_loading),
            script: opt_view(self.script),
        }
    }
}

/// The torrents the list shows.
pub open spec fn shown(s: AppStateView) -> Seq<TorrentView> {
    listed(s.torrents, s.filter)
}

/// Where help is entered: the current view remembered, help shown from the top.
pub open spec fn help_entered(s: AppStateView) -> AppStateView {
    AppStateView { previous_view: Some(s.view), view: enums::View::Help, help_scroll: 0, ..s }
}

/// Where help is left: the remembered view (the torrent list if none) shown again.
pub open spec fn help_exited(s: AppStateView) -> AppStateView {
    AppStateView {
        view: match s.previous_view {
            Some(v) => v,
            None => enums::View::TorrentList,
        },
        previous_view: None,
        help_scroll: 0,
        ..s
    }
}

/// Leaving help returns to the view that help was entered from.
pub proof fn law_help_returns_to_view(s: AppStateView)
    ensures
        help_exited(help_entered(s)).view == s.view,
        help_exited(help_entered(s)).previous_view is None,
{
}

impl AppState {
    /// The state before any configuration is known.
    pub fn default() -> (r: Self)
        ensures
            r@.torrents.len() == 0,
            r@.selected_index == 0,
            r@.scroll_offset == 0,
            r@.view == enums::View::TorrentList,
            r@.previous_view is None,
            r@.help_scroll == 0,
            r@.mode == AppMode::Normal,
            r@.error_message is None,
            r@.preferences is None,
            r@.logs.len() == 0,
            r@.log_scroll == 0,
            r@.qbit_version is None,
            r@.login_host.len() == 0,
            r@.login_username.len() == 0,
            r@.login_password.len() == 0,
            r@.login_field == LoginField::Host,
            r@.pending_login is None,
            r@.sort_config == (SortConfig { field: SortField::AddedAt, direction: SortDirection::Desc }),
            r@.toasts.len() == 0,
            r@.filter == ScriptStateFilter::All,
            r@.sync_rid == 0,
            !r@.show_details,
            r@.detail_pane == DetailPane::Info,
            r@.cached_hashes.len() == 0,
            r@.cached_files.len() == 0,
            r@.files_loading is None,
            r@.script is None,
    {
        let r = Self {
            torrents: Vec::new(),
            selected_index: 0,
            scroll_offset: 0,
            view: enums::View::TorrentList,
            previous_view: None,
            help_scroll: 0,
            mode: AppMode::Normal,
            error_message: None,
            preferences: None,
            logs: Vec::new(),
            log_scroll: 0,
            qbit_version: None,
            login_host: String::new(),
            login_username: String::new(),
            login_password: String::new(),
            login_field: LoginField::Host,
            pending_login: None,
            sort_config: SortConfig::default(),
            toasts: Vec::new(),
            filter: ScriptStateFilter::All,
            sync_rid: 0,
            show_details: false,
            detail_pane: DetailPane::Info,
            file_cache: Vec::new(),
            files_loading: None,
            script: None,
        };
        assert(r@.torrents =~= Seq::<TorrentView>::empty());
        assert(r@.logs =~= Seq::<ScriptResultView>::empty());
        assert(r@.toasts =~= Seq::<ToastView>::empty());
        assert(r@.cached_hashes =~= Seq::<Seq<char>>::empty());
        assert(r@.cached_files =~= Seq::<Seq<TorrentFileView>>::empty());
        r
    }

    /// Shows help, remembering the current view.
    pub fn enter_help(&mut self)
        ensures
            final(self)@ == help_entered(old(self)@),
    {
        self.previous_view = Some(self.view);
        self.view = enums::View::Help;
        self.help_scroll = 0;
    }

    /// Leaves help for the remembered view.
    pub fn exit_help(&mut self)
        ensures
            final(self)@ == help_exited(old(self)@),
    {
        if let Some(prev) = self.previous_view {
            self.view = prev;
        } else {
            self.view = enums::View::TorrentList;
        }
        self.previous_view = None;
        self.help_scroll = 0;
    }

    /// The state for a saved configuration: its view, filter, sort, script
    /// and credentials in the login form.
    pub fn with_configuration(configuration: &Configuration) -> (r: Self)
        ensures
            r@.torrents.len() == 0,
            r@.selected_index == 0,
            r@.scroll_offset == 0,
            r@.view == match opt_view(configuration.last_view) {
                Some(v) => view_from_name(v),
                None => enums::View::TorrentList,
            },
            r@.previous_view is None,
            r@.help_scroll == 0,
            r@.mode == AppMode::Normal,
            r@.error_message is None,
            r@.preferences is None,
            r@.logs.len() == 0,
            r@.log_scroll == 0,
            r@.qbit_version is None,
            r@.login_host == configuration.credentials.host@,
            r@.login_username == configuration.credentials.username@,
            r@.login_password == configuration.credentials.password@,
            r@.login_field == LoginField::Host,
            r@.pending_login is None,
            r@.sort_config == configuration.sort_config,
            r@.toasts.len() == 0,
            r@.filter == match opt_view(configuration.last_filter) {
                Some(f) => filter_from_name(f),
                None => ScriptStateFilter::All,
            },
            r@.sync_rid == 0,
            !r@.show_details,
            r@.detail_pane == DetailPane::Info,
            r@.cached_hashes.len() == 0,
            r@.cached_files.len() == 0,
            r@.files_loading is None,
            r@.script == opt_view(configuration.script),
    {
        let view = match &configuration.last_view {
            Some(v) => enums::View::from_str(v.as_str()),
            None => enums::View::TorrentList,
        };
        let filter = match &configuration.last_filter {
            Some(f) => ScriptStateFilter::from_str(f.as_str()),
            None => ScriptStateFilter::default(),
        };
        let script = match &configuration.script {
            Some(s) => Some(s.clone()),
            None => None,
        };
        let r = Self {
            torrents: Vec::new(),
            selected_index: 0,
            scroll_offset: 0,
            view,
            previous_view: None,
            help_scroll: 0,
            mode: AppMode::Normal,
            error_message: None,
            preferences: None,
            logs: Vec::new(),
            log_scroll: 0,
            qbit_version: None,
            login_host: configuration.credentials.host.clone(),
            login_username: configuration.credentials.username.clone(),
            login_password: configuration.credentials.password.clone(),
            login_field: LoginField::Host,
            pending_login: None,
            sort_config: configuration.sort_config,
            toasts: Vec::new(),
            filter,
            sync_rid: 0,
            show_details: false,
            detail_pane: DetailPane::Info,
            file_cache: Vec::new(),
            files_loading: None,
            script,
        };
        assert(r@.torrents =~= Seq::<TorrentView>::empty());
        assert(r@.logs =~= Seq::<ScriptResultView>::empty());
        assert(r@.toasts =~= Seq::<ToastView>::empty());
        assert(r@.cached_hashes =~= Seq::<Seq<char>>::empty());
        assert(r@.cached_files =~= Seq::<Seq<TorrentFileView>>::empty());
        r
    }

    /// Re-sorts the torrents under the current sort configuration.
    pub fn sort_torrents(&mut self)
        ensures
            stably_sorted(old(self)@.sort_config, old(self)@.torrents, final(self)@.torrents),
            final(self)@ == (AppStateView { torrents: final(self)@.torrents, ..old(self)@ }),
    {
        let sorted = sorted_by(&self.torrents, self.sort_config);
        self.torrents = sorted;
    }

    /// Flips the sort direction and re-sorts. Saving the sort is the caller's part.
    pub fn toggle_sort_direction(&mut self)
        ensures
            final(self)@.sort_config == flipped_direction(old(self)@.sort_config),
            stably_sorted(final(self)@.sort_config, old(self)@.torrents, final(self)@.torrents),
            final(self)@ == (AppStateView {
                torrents: final(self)@.torrents,
                sort_config: final(self)@.sort_config,
                ..old(self)@
            }),
    {
        self.sort_config.direction = match self.sort_config.direction {
            SortDirection::Asc => SortDirection::Desc,
            SortDirection::Desc => SortDirection::Asc,
        };
        self.sort_torrents();
    }

    /// Moves the sort field `direction` steps through name, completed, added
    /// (wrapping) and re-sorts. Saving the sort is the caller's part.
    pub fn cycle_sort_field(&mut self, direction: isize)
        requires
            sort_field_index(old(self)@.sort_config.field) + direction + 3 <= isize::MAX,
            sort_field_index(old(self)@.sort_config.field) + direction + 3 >= 0
                || (sort_field_index(old(self)@.sort_config.field) + direction) % 3 == 0,
        ensures
            final(self)@.sort_config == (SortConfig {
                field: sort_field_at((sort_field_index(old(self)@.sort_config.field) + direction + 3) % 3),
                direction: old(self)@.sort_config.direction,
            }),
            stably_sorted(final(self)@.sort_config, old(self)@.torrents, final(self)@.torrents),
            final(self)@ == (AppStateView {
                torrents: final(self)@.torrents,
                sort_config: final(self)@.sort_config,
                ..old(self)@
            }),
    {
        let current_idx: isize = match self.sort_config.field {
            SortField::Name => 0,
            SortField::CompletedAt => 1,
            SortField::AddedAt => 2,
        };
        let sum: isize = current_idx + direction + 3;
        let new_idx: isize = sum % 3;
        proof {
            if sum < 0 {
                assert((current_idx + direction) % 3 == 0);
                assert(sum % 3 == 0);
            }
        }
        let new_field = if new_idx == 0 {
            SortField::Name
        } else if new_idx == 1 {
            SortField::CompletedAt
        } else {
            SortField::AddedAt
        };
        self.sort_config.field = new_field;
        self.sort_torrents();
    }

    /// The next filter; the selection goes back to the top. Saving is the caller's part.
    pub fn cycle_filter_forward(&mut self)
        ensures
            final(self)@ == (AppStateView {
                filter: old(self)@.filter.following(),
                selected_index: 0,
                scroll_offset: 0,
                ..old(self)@
            }),
    {
        self.filter = self.filter.next();
        self.selected_index = 0;
        self.scroll_offset = 0;
    }

    /// The previous filter; the selection goes back to the top. Saving is the caller's part.
    pub fn cycle_filter_backward(&mut self)
        ensures
            final(self)@ == (AppStateView {
                filter: old(self)@.filter.preceding(),
                selected_index: 0,
                scroll_offset: 0,
                ..old(self)@
            }),
    {
        self.filter = self.filter.prev();
        self.selected_index = 0;
        self.scroll_offset = 0;
    }

    /// The next view. Saving is the caller's part.
    pub fn cycle_view_forward(&mut self)
        ensures
            final(self)@ == (AppStateView { view: old(self)@.view.following(), ..old(self)@ }),
    {
        self.view = self.view.next();
    }

    /// The previous view. Saving is the caller's part.
    pub fn cycle_view_backward(&mut self)
        ensures
            final(self)@ == (AppStateView { view: old(self)@.view.preceding(), ..old(self)@ }),
    {
        self.view = self.view.prev();
    }

    /// The torrents the list shows: complete, and admitted by the filter.
    pub fn filtered_torrents(&self) -> (r: Vec<&Torrent>)
        ensures
            ref_views(r@) == shown(self@),
    {
        listed_refs(&self.torrents, self.filter)
    }

    /// The completed torrents, sorted as the list is.
    pub fn completed_torrents(&self) -> (r: Vec<Torrent>)
        ensures
            stably_sorted(self@.sort_config, completed_only(self@.torrents), torrent_views(r@)),
    {
        let completed = completed_copies(&self.torrents);
        sorted_by(&completed, self.sort_config)
    }

    /// The selected torrent among those shown.
    pub fn selected_torrent(&self) -> (r: Option<&Torrent>)
        ensures
            r is Some <==> self@.selected_index < shown(self@).len(),
            r matches Some(t) ==> t@ == shown(self@)[self@.selected_index as int],
    {
        let shown_list = self.filtered_torrents();
        if self.selected_index < shown_list.len() {
            Some(shown_list[self.selected_index])
        } else {
            None
        }
    }

    /// Shows the login form, focused on the host.
    pub fn enter_login_mode(&mut self)
        ensures
            final(self)@ == (AppStateView { mode: AppMode::Login, login_field: LoginField::Host, ..old(self)@ }),
    {
        self.mode = AppMode::Login;
        self.login_field = LoginField::Host;
    }

    /// Moves the login focus forward.
    pub fn advance_login_field(&mut self)
        ensures
            final(self)@ == (AppStateView { login_field: old(self)@.login_field.following(), ..old(self)@ }),
    {
        self.login_field = match self.login_field {
            LoginField::Host => LoginField::Username,
            LoginField::Username => LoginField::Password,
            LoginField::Password => LoginField::Host,
        };
    }

    /// Moves the login focus back.
    pub fn retreat_login_field(&mut self)
        ensures
            final(self)@ == (AppStateView { login_field: old(self)@.login_field.preceding(), ..old(self)@ }),
    {
        self.login_field = match self.login_field {
            LoginField::Host => LoginField::Password,
            LoginField::Username => LoginField::Host,
            LoginField::Password => LoginField::Username,
        };
    }

    /// Queues a login with the form's host and user name trimmed and the
    /// password as typed.
    pub fn queue_login(&mut self)
        ensures
            final(self)@ == (AppStateView {
                pending_login: Some((trim(old(self)@.login_host), trim(old(self)@.login_username), old(self)@.login_password)),
                ..old(self)@
            }),
    {
        let host = trim_text(self.login_host.as_str());
        let username = trim_text(self.login_username.as_str());
        let password = self.login_password.clone();
        self.pending_login = Some((host, username, password));
    }

    /// Scrolls help by `delta` lines, kept within 0 to 30.
    pub fn scroll_help(&mut self, delta: isize)
        requires
            old(self).help_scroll <= isize::MAX,
            isize::MIN <= old(self).help_scroll + delta <= isize::MAX,
        ensures
            final(self)@ == (AppStateView {
                help_scroll: clamp_to(old(self).help_scroll + delta, 30) as usize,
                ..old(self)@
            }),
    {
        let max_scroll: isize = 30;
        let new_scroll: isize = self.help_scroll as isize + delta;
        let bounded: isize = if new_scroll < 0 { 0 } else if new_scroll > max_scroll { max_scroll } else { new_scroll };
        self.help_scroll = bounded as usize;
    }

    /// Scrolls the log by `delta` entries, kept within the log.
    pub fn scroll_logs(&mut self, delta: isize)
        requires
            old(self).log_scroll <= isize::MAX,
            old(self).logs.len() <= isize::MAX,
            isize::MIN <= old(self).log_scroll + delta <= isize::MAX,
        ensures
            final(self)@ == (AppStateView {
                log_scroll: clamp_to(old(self).log_scroll + delta, last_index(old(self)@.logs.len())) as usize,
                ..old(self)@
            }),
    {
        let max_scroll: usize = if self.logs.len() > 0 { self.logs.len() - 1 } else { 0 };
        let new_scroll: isize = self.log_scroll as isize + delta;
        let bounded: isize = if new_scroll < 0 {
            0
        } else if new_scroll > max_scroll as isize {
            max_scroll as isize
        } else {
            new_scroll
        };
        self.log_scroll = bounded as usize;
    }

    /// Scrolls the log to its last entry.
    pub fn scroll_logs_to_end(&mut self)
        ensures
            final(self)@ == logs_at_end(old(self)@),
    {
        self.log_scroll = if self.logs.len() > 0 { self.logs.len() - 1 } else { 0 };
    }

    /// Whether the log is scrolled to its last entry (or empty).
    pub fn is_log_at_end(&self) -> (r: bool)
        ensures
            r == log_at_end(self@),
    {
        let last: usize = if self.logs.len() > 0 { self.logs.len() - 1 } else { 0 };
        self.logs.len() == 0 || self.log_scroll >= last
    }

    /// Keeps the selection inside a window of 20 rows over `count` rows.
    pub fn adjust_scroll(&mut self, count: usize)
        requires
            old(self).scroll_offset <= usize::MAX - 20,
        ensures
            final(self)@ == (AppStateView {
                scroll_offset: scrolled_for(old(self)@.selected_index as int, old(self)@.scroll_offset as int, count as int) as usize,
                ..old(self)@
            }),
            old(self)@.selected_index < count ==> final(self)@.scroll_offset <= final(self)@.selected_index
                < final(self)@.scroll_offset + 20,
            final(self)@.scroll_offset <= last_window(count as int),
    {
        let max_visible: usize = 20;
        let max_scroll: usize = if count > max_visible { count - max_visible } else { 0 };
        if self.selected_index < self.scroll_offset {
            self.scroll_offset = self.selected_index;
        } else if self.selected_index >= self.scroll_offset + max_visible {
            self.scroll_offset = self.selected_index - max_visible + 1;
        }
        if self.scroll_offset > max_scroll {
            self.scroll_offset = max_scroll;
        }
    }

    /// Moves the selection by `delta` rows within the shown torrents and
    /// keeps it in view.
    pub fn move_selection(&mut self, delta: isize)
        requires
            old(self).selected_index <= isize::MAX,
            old(self).torrents.len() <= isize::MAX,
            isize::MIN <= old(self).selected_index + delta <= isize::MAX,
            old(self).scroll_offset <= usize::MAX - 20,
        ensures
            ({
                let count = shown(old(self)@).len() as int;
                let sel = clamp_to(old(self).selected_index + delta, last_index(count as nat));
                final(self)@ == (AppStateView {
                    selected_index: sel as usize,
                    scroll_offset: scrolled_for(sel, old(self)@.scroll_offset as int, count) as usize,
                    ..old(self)@
                })
            }),
    {
        let count = self.filtered_torrents().len();
        proof {
            crate::sort::lemma_listed_len(self@.torrents, self@.filter);
        }
        let last: usize = if count > 0 { count - 1 } else { 0 };
        let new_index: isize = self.selected_index as isize + delta;
        let bounded: isize = if new_index < 0 {
            0
        } else if new_index > last as isize {
            last as isize
        } else {
            new_index
        };
        self.selected_index = bounded as usize;
        self.adjust_scroll(count);
    }

    /// Selects row `position` (the last row where it is past the end) of
    /// `count` rows and keeps it in view.
    pub fn jump_to(&mut self, position: usize, count: usize)
        requires
            old(self).scroll_offset <= usize::MAX - 20,
        ensures
            ({
                let sel = if position as int <= last_index(count as nat) { position as int } else { last_index(count as nat) };
                final(self)@ == (AppStateView {
                    selected_index: sel as usize,
                    scroll_offset: scrolled_for(sel, old(self)@.scroll_offset as int, count as int) as usize,
                    ..old(self)@
                })
            }),
    {
        let last: usize = if count > 0 { count - 1 } else { 0 };
        self.selected_index = if position < last { position } else { last };
        self.adjust_scroll(count);
    }

    /// The comparator the torrent list is sorted with, fixed from the
    /// current sort configuration.
    pub fn get_sort_key(&self) -> (r: SortKey)
        ensures
            r.config == self@.sort_config,
    {
        SortKey { config: self.sort_config }
    }

    /// Re-tags the first torrent with hash `hash` (see `retagged`); the
    /// others are left alone.
    pub fn update_torrent_tag(&mut self, hash: &str, tag: &str)
        ensures
            final(self)@ == tag_updated(old(self)@, hash@, tag@),
    {
        let mut i: usize = 0;
        while i < self.torrents.len()
            invariant
                self@ == old(self)@,
                i <= self.torrents.len(),
                hash_position(self@.torrents.take(i as int), hash@) is None,
            decreases self.torrents.len() - i,
        {
            proof {
                assert(self@.torrents.take(i + 1).drop_last() =~= self@.torrents.take(i as int));
            }
            if text_equals(self.torrents[i].hash.as_str(), hash) {
                proof {
                    lemma_hash_position_prefix(self@.torrents, hash@, i as int);
                }
                let new_tags = retag(self.torrents[i].tags.as_str(), tag);
                let mut t = self.torrents[i].duplicate();
                t.tags = new_tags;
                let ghost before = self@;
                self.torrents.set(i, t);
                proof {
                    assert(self@.torrents =~= before.torrents.update(
                        i as int,
                        TorrentView { tags: retagged(before.torrents[i as int].tags, tag@), ..before.torrents[i as int] },
                    ));
                }
                return;
            }
            i = i + 1;
        }
        proof {
            assert(self@.torrents.take(self.torrents.len() as int) =~= self@.torrents);
        }
    }

    /// Takes a fresh torrent list: sorted as configured, and the selection
    /// moved onto the last shown torrent where it had fallen off the end.
    pub fn replace_torrents(&mut self, torrents: Vec<Torrent>)
        ensures
            stably_sorted(old(self)@.sort_config, torrent_views(torrents@), final(self)@.torrents),
            final(self)@ == (AppStateView {
                torrents: final(self)@.torrents,
                selected_index: clamped_selection(
                    old(self)@.selected_index,
                    listed(final(self)@.torrents, old(self)@.filter).len(),
                ),
                ..old(self)@
            }),
    {
        self.torrents = sorted_by(&torrents, self.sort_config);
        self.clamp_selection();
    }

    /// Moves the selection onto the last shown torrent where it lies past the end.
    pub fn clamp_selection(&mut self)
        ensures
            final(self)@ == (AppStateView {
                selected_index: clamped_selection(old(self)@.selected_index, shown(old(self)@).len()),
                ..old(self)@
            }),
    {
        let count = self.filtered_torrents().len();
        if self.selected_index >= count {
            self.selected_index = if count > 0 { count - 1 } else { 0 };
        }
    }

    /// The hash whose files should be loaded now, if any: the details show
    /// the files pane, a torrent is selected, and its files are neither
    /// cached nor loading.
    pub fn needs_file_load(&self) -> (r: Option<String>)
        ensures
            opt_view(r) == file_load_needed(self@),
    {
        if !self.show_details || self.detail_pane != DetailPane::Files {
            return None;
        }
        let hash = match self.selected_torrent() {
            Some(t) => t.hash.clone(),
            None => return None,
        };
        if self.cache_index(hash.as_str()).is_some() {
            return None;
        }
        match &self.files_loading {
            Some(l) => {
                if text_equals(l.as_str(), hash.as_str()) {
                    return None;
                }
            },
            None => {},
        }
        Some(hash)
    }

    /// Where the cache holds the files of `hash`.
    pub fn cache_index(&self, hash: &str) -> (r: Option<usize>)
        ensures
            r matches Some(i) ==> first_at(self@.cached_hashes, hash@, i as int),
            r is None ==> !self@.cached_hashes.contains(hash@),
    {
        let mut i: usize = 0;
        while i < self.file_cache.len()
            invariant
                i <= self.file_cache.len(),
                forall|m: int| 0 <= m < i ==> self@.cached_hashes[m] != hash@,
            decreases self.file_cache.len() - i,
        {
            if text_equals(self.file_cache[i].hash.as_str(), hash) {
                return Some(i);
            }
            i = i + 1;
        }
        None
    }

    /// The cached files of a torrent.
    pub fn cached_files(&self, hash: &str) -> (r: Option<&Vec<TorrentFile>>)
        ensures
            r is Some <==> self@.cached_hashes.contains(hash@),
            r matches Some(fs) ==> file_views(fs@) == self@.cached_files[first_position(self@.cached_hashes, hash@)],
    {
        match self.cache_index(hash) {
            Some(i) => {
                proof {
                    lemma_first_position(self@.cached_hashes, hash@, i as int);
                }
                Some(&self.file_cache[i].files)
            },
            None => None,
        }
    }

    /// Marks the files of `hash` as loading.
    pub fn begin_file_load(&mut self, hash: String)
        ensures
            final(self)@ == (AppStateView { files_loading: Some(hash@), ..old(self)@ }),
    {
        self.files_loading = Some(hash);
    }

    /// Stores loaded files (replacing any held for the hash) and ends loading.
    /// The cache holds each hash at most once, and keeps doing so.
    pub fn files_loaded(&mut self, hash: String, files: Vec<TorrentFile>)
        ensures
            final(self)@.cached_hashes.contains(hash@),
            old(self)@.cached_hashes.no_duplicates() ==> final(self)@.cached_hashes.no_duplicates(),
            final(self)@ == (AppStateView {
                cached_hashes: if old(self)@.cached_hashes.contains(hash@) {
                    old(self)@.cached_hashes
                } else {
                    old(self)@.cached_hashes.push(hash@)
                },
                cached_files: if old(self)@.cached_hashes.contains(hash@) {
                    old(self)@.cached_files.update(
                        first_position(old(self)@.cached_hashes, hash@),
                        file_views(files@),
                    )
                } else {
                    old(self)@.cached_files.push(file_views(files@))
                },
                files_loading: None,
                ..old(self)@
            }),
    {
        match self.cache_index(hash.as_str()) {
            Some(i) => {
                let ghost before = self@;
                let ghost fv = file_views(files@);
                proof {
                    lemma_first_position(before.cached_hashes, hash@, i as int);
                }
                let entry = CachedFiles { hash, files };
                self.file_cache.set(i, entry);
                proof {
                    assert(self@.cached_hashes =~= before.cached_hashes);
                    assert(self@.cached_files =~= before.cached_files.update(i as int, fv));
                }
            },
            None => {
                let ghost before = self@;
                let ghost fv = file_views(files@);
                self.file_cache.push(CachedFiles { hash, files });
                proof {
                    assert(self@.cached_hashes =~= before.cached_hashes.push(hash@));
                    assert(self@.cached_files =~= before.cached_files.push(fv));
                    let hs = self@.cached_hashes;
                    assert(hs[hs.len() - 1] == hash@);
                    if before.cached_hashes.no_duplicates() {
                        assert forall|a: int, b: int| 0 <= a < hs.len() && 0 <= b < hs.len() && a != b implies hs[a] != hs[b] by {
                            if a < hs.len() - 1 && b < hs.len() - 1 {
                                assert(hs[a] == before.cached_hashes[a]);
                                assert(hs[b] == before.cached_hashes[b]);
                            } else if a < hs.len() - 1 {
                                assert(hs[a] == before.cached_hashes[a]);
                                assert(before.cached_hashes.contains(hs[a]));
                            } else {
                                assert(hs[b] == before.cached_hashes[b]);
                                assert(before.cached_hashes.contains(hs[b]));
                            }
                        }
                    }
                }
            },
        }
        self.files_loading = None;
    }

    /// Ends a failed file load.
    pub fn file_load_failed(&mut self)
        ensures
            final(self)@ == (AppStateView { files_loading: None, ..old(self)@ }),
    {
        self.files_loading = None;
    }

    /// Keeps the preferences read from qBittorrent.
    pub fn set_preferences(&mut self, preferences: Preferences)
        ensures
            final(self)@ == (AppStateView { preferences: preferences_view(Some(preferences)), ..old(self)@ }),
    {
        self.preferences = Some(preferences);
    }

    /// Keeps the qBittorrent version that a connection test reported.
    pub fn set_version(&mut self, version: String)
        ensures
            final(self)@ == (AppStateView { qbit_version: Some(version@), ..old(self)@ }),
    {
        self.qbit_version = Some(version);
    }

    /// Queues a notification.
    pub fn push_toast(&mut self, level: ToastLevel, title: &str, message: &str)
        ensures
            final(self)@ == (AppStateView {
                toasts: old(self)@.toasts.push(ToastView { level, title: title@, message: message@ }),
                ..old(self)@
            }),
    {
        let ghost before = self@;
        self.toasts.push(Toast { level, title: owned(title), message: owned(message) });
        proof {
            assert(self@.toasts =~= before.toasts.push(ToastView { level, title: title@, message: message@ }));
        }
    }

    /// Queues an error notification.
    pub fn show_toast_error(&mut self, title: &str, message: &str)
        ensures
            final(self)@ == (AppStateView {
                toasts: old(self)@.toasts.push(ToastView { level: ToastLevel::Error, title: title@, message: message@ }),
                ..old(self)@
            }),
    {
        self.push_toast(ToastLevel::Error, title, message);
    }

    /// Queues an information notification.
    pub fn show_toast_info(&mut self, title: &str, message: &str)
        ensures
            final(self)@ == (AppStateView {
                toasts: old(self)@.toasts.push(ToastView { level: ToastLevel::Info, title: title@, message: message@ }),
                ..old(self)@
            }),
    {
        self.push_toast(ToastLevel::Info, title, message);
    }

    /// Queues a success notification (shown at information level).
    pub fn show_toast_success(&mut self, title: &str, message: &str)
        ensures
            final(self)@ == (AppStateView {
                toasts: old(self)@.toasts.push(ToastView { level: ToastLevel::Info, title: title@, message: message@ }),
                ..old(self)@
            }),
    {
        self.push_toast(ToastLevel::Info, title, message);
    }

    /// Tells that a script started on a torrent.
    pub fn show_script_started_toast(&mut self, torrent_name: &str, torrent_hash: &str)
        requires
            utf8_len(torrent_name@) <= usize::MAX,
            utf8_len(torrent_name@) > 52 ==> at_char_boundary(torrent_name@, 51),
        ensures
            final(self)@ == (AppStateView {
                toasts: old(self)@.toasts.push(ToastView {
                    level: ToastLevel::Info,
                    title: "Script started"@,
                    message: toast_name(torrent_name@) + "\n"@ + torrent_hash@,
                }),
                ..old(self)@
            }),
    {
        let mut message = shortened_name(torrent_name);
        message.append("\n");
        message.append(torrent_hash);
        self.show_toast_info("Script started", message.as_str());
    }

    /// Tells how a script run ended.
    pub fn show_script_toast(&mut self, result: &ScriptResult)
        requires
            utf8_len(result@.name) <= usize::MAX,
            utf8_len(result@.name) > 52 ==> at_char_boundary(result@.name, 51),
        ensures
            final(self)@ == (AppStateView {
                toasts: old(self)@.toasts.push(ToastView {
                    level: if result@.success { ToastLevel::Info } else { ToastLevel::Error },
                    title: if result@.success { "Script complete"@ } else { "Script failed"@ },
                    message: toast_name(result@.name) + "\n"@ + result@.hash,
                }),
                ..old(self)@
            }),
    {
        let mut message = shortened_name(result.name.as_str());
        message.append("\n");
        message.append(result.hash.as_str());
        if result.success {
            self.show_toast_success("Script complete", message.as_str());
        } else {
            self.show_toast_error("Script failed", message.as_str());
        }
    }

    /// Hands the queued notifications over and clears the queue.
    pub fn take_toasts(&mut self) -> (r: Vec<Toast>)
        ensures
            toast_views(r@) == old(self)@.toasts,
            final(self)@ == (AppStateView { toasts: Seq::empty(), ..old(self)@ }),
    {
        let mut r: Vec<Toast> = Vec::new();
        std::mem::swap(&mut r, &mut self.toasts);
        proof {
            assert(self@.toasts =~= Seq::<ToastView>::empty());
        }
        r
    }

    /// Adds the log entries not already held (same start time and hash),
    /// keeping at most `MAX_LOGS` of the newest, and returns those added.
    pub fn merge_logs(&mut self, entries: Vec<ScriptResult>) -> (r: Vec<ScriptResult>)
        ensures
            log_views(r@) == fresh_logs(old(self)@.logs, log_views(entries@)),
            final(self)@ == (AppStateView { logs: merged_logs(old(self)@.logs, log_views(entries@)), ..old(self)@ }),
    {
        let ghost existing = self@.logs;
        let ghost es = log_views(entries@);
        let mut fresh: Vec<ScriptResult> = Vec::new();
        let mut k: usize = 0;
        assert(es.take(0) =~= Seq::<ScriptResultView>::empty());
        assert(log_views(fresh@) =~= fresh_logs(existing, es.take(0)));
        while k < entries.len()
            invariant
                self@ == old(self)@,
                existing == self@.logs,
                es == log_views(entries@),
                k <= entries.len(),
                log_views(fresh@) == fresh_logs(existing, es.take(k as int)),
            decreases entries.len() - k,
        {
            assert(es.take(k + 1).drop_last() =~= es.take(k as int));
            assert(es.take(k + 1).last() == entries@[k as int]@);
            let known = self.holds_run(&entries[k]);
            if !known {
                let ghost before = fresh@;
                fresh.push(entries[k].duplicate());
                assert(log_views(fresh@) =~= log_views(before).push(entries@[k as int]@));
            }
            k = k + 1;
        }
        assert(es.take(entries.len() as int) =~= es);
        if fresh.len() > 0 {
            let mut i: usize = 0;
            let ghost base = self@;
            while i < fresh.len()
                invariant
                    i <= fresh.len(),
                    self@ == (AppStateView { logs: base.logs + log_views(fresh@).take(i as int), ..base }),
                decreases fresh.len() - i,
            {
                let ghost before = self@;
                self.logs.push(fresh[i].duplicate());
                proof {
                    assert(self@.logs =~= before.logs.push(fresh@[i as int]@));
                    assert(base.logs + log_views(fresh@).take(i + 1) =~= (base.logs + log_views(fresh@).take(i as int)).push(fresh@[i as int]@));
                }
                i = i + 1;
            }
            assert(log_views(fresh@).take(fresh.len() as int) =~= log_views(fresh@));
            self.cap_logs();
        }
        fresh
    }

    /// Whether a run with the same start time and hash is already logged.
    pub fn holds_run(&self, entry: &ScriptResult) -> (r: bool)
        ensures
            r == known_run(self@.logs, entry@),
    {
        let mut i: usize = 0;
        while i < self.logs.len()
            invariant
                i <= self.logs.len(),
                forall|m: int| 0 <= m < i ==> !same_run(#[trigger] self@.logs[m], entry@),
            decreases self.logs.len() - i,
        {
            if self.logs[i].started_at == entry.started_at && text_equals(self.logs[i].hash.as_str(), entry.hash.as_str()) {
                assert(same_run(self@.logs[i as int], entry@));
                return true;
            }
            i = i + 1;
        }
        false
    }

    /// Drops the oldest log entries beyond `MAX_LOGS`.
    fn cap_logs(&mut self)
        ensures
            final(self)@ == (AppStateView { logs: capped(old(self)@.logs), ..old(self)@ }),
    {
        if self.logs.len() > MAX_LOGS {
            let ghost before = self@;
            let cut = self.logs.len() - MAX_LOGS;
            let tail = self.logs.split_off(cut);
            self.logs = tail;
            proof {
                assert(self@.logs =~= before.logs.skip(cut as int));
            }
        }
    }

    /// Takes entries read from the log file; where the view was at the end of
    /// the log and something new came, it stays at the end. Returns the new
    /// entries.
    pub fn absorb_log_entries(&mut self, entries: Vec<ScriptResult>) -> (r: Vec<ScriptResult>)
        ensures
            log_views(r@) == fresh_logs(old(self)@.logs, log_views(entries@)),
            final(self)@ == ({
                let m = merged_logs(old(self)@.logs, log_views(entries@));
                if r@.len() > 0 && log_at_end(old(self)@) {
                    AppStateView { logs: m, log_scroll: last_index(m.len()) as usize, ..old(self)@ }
                } else {
                    AppStateView { logs: m, ..old(self)@ }
                }
            }),
    {
        let at_end = self.is_log_at_end();
        let fresh = self.merge_logs(entries);
        if fresh.len() > 0 && at_end {
            self.scroll_logs_to_end();
        }
        fresh
    }

    /// Starts the log view from what the log file gave: on a read error the
    /// log is emptied and the error notified. The view starts at the end.
    pub fn init_logs(&mut self, loaded: Result<Vec<ScriptResult>, String>)
        ensures
            ({
                let mid = match loaded {
                    Ok(es) => AppStateView { logs: merged_logs(old(self)@.logs, log_views(es@)), ..old(self)@ },
                    Err(e) => AppStateView {
                        logs: Seq::empty(),
                        toasts: old(self)@.toasts.push(ToastView {
                            level: ToastLevel::Error,
                            title: "Error initializing logs from file: {}"@,
                            message: e@,
                        }),
                        ..old(self)@
                    },
                };
                final(self)@ == logs_at_end(mid)
            }),
    {
        match loaded {
            Ok(entries) => {
                let _ = self.merge_logs(entries);
            },
            Err(e) => {
                self.show_toast_error("Error initializing logs from file: {}", e.as_str());
                self.logs.clear();
                proof {
                    assert(self@.logs =~= Seq::<ScriptResultView>::empty());
                }
            },
        }
        self.scroll_logs_to_end();
    }

    /// Logs a script result that just came in, keeping at most `MAX_LOGS`;
    /// where the view was at the end of the log it stays there.
    pub fn record_script_result(&mut self, result: ScriptResult)
        ensures
            ({
                let m = capped(old(self)@.logs.push(result@));
                if log_at_end(old(self)@) {
                    final(self)@ == (AppStateView { logs: m, log_scroll: last_index(m.len()) as usize, ..old(self)@ })
                } else {
                    final(self)@ == (AppStateView { logs: m, ..old(self)@ })
                }
            }),
    {
        let at_end = self.is_log_at_end();
        let ghost before = self@;
        let ghost rv = result@;
        self.logs.push(result);
        proof {
            assert(self@.logs =~= before.logs.push(rv));
        }
        self.cap_logs();
        if at_end {
            self.scroll_logs_to_end();
        }
    }

    /// Takes the queued login, and the configuration it is to be saved as:
    /// its credentials with the current sort, view, filter and script.
    pub fn take_login(&mut self) -> (r: Option<Configuration>)
        ensures
            old(self)@.pending_login is None ==> r is None && final(self)@ == old(self)@,
            old(self)@.pending_login matches Some(p) ==> {
                &&& final(self)@ == (AppStateView { pending_login: None, ..old(self)@ })
                &&& r matches Some(c) && {
                    &&& c.credentials.host@ == p.0
                    &&& c.credentials.username@ == p.1
                    &&& c.credentials.password@ == p.2
                    &&& c.sort_config == old(self)@.sort_config
                    &&& opt_view(c.last_view) == Some(view_name(old(self)@.view))
                    &&& opt_view(c.last_filter) == Some(filter_name(old(self)@.filter))
                    &&& opt_view(c.script) == old(self)@.script
                }
            },
    {
        let pending = self.pending_login.take();
        match pending {
            None => None,
            Some((host, username, password)) => {
                let script = match &self.script {
                    Some(s) => Some(s.clone()),
                    None => None,
                };
                Some(Configuration {
                    credentials: Credentials::new(host, username, password),
                    sort_config: self.sort_config,
                    last_view: Some(owned(self.view.to_str())),
                    last_filter: Some(owned(self.filter.to_str())),
                    script,
                })
            },
        }
    }

    /// Records a login that connected: the form keeps the credentials and
    /// the torrents are shown.
    pub fn login_succeeded(&mut self, credentials: &Credentials)
        ensures
            final(self)@ == (AppStateView {
                login_host: credentials.host@,
                login_username: credentials.username@,
                login_password: credentials.password@,
                mode: AppMode::Normal,
                error_message: None,
                ..old(self)@
            }),
    {
        self.login_host = credentials.host.clone();
        self.login_username = credentials.username.clone();
        self.login_password = credentials.password.clone();
        self.mode = AppMode::Normal;
        self.error_message = None;
    }

    /// Records a login that failed: notified, and the login form shown.
    pub fn login_failed(&mut self, message: &str)
        ensures
            final(self)@ == (AppStateView {
                toasts: old(self)@.toasts.push(ToastView { level: ToastLevel::Error, title: "Login Failed"@, message: message@ }),
                mode: AppMode::Login,
                ..old(self)@
            }),
    {
        self.show_toast_error("Login Failed", message);
        self.mode = AppMode::Login;
    }

    /// The selected torrent and the script to run on it, where both exist;
    /// a missing script is notified.
    pub fn prepare_run_selected(&mut self) -> (r: Option<(Torrent, String)>)
        ensures
            old(self)@.selected_index >= shown(old(self)@).len() ==> r is None && final(self)@ == old(self)@,
            old(self)@.selected_index < shown(old(self)@).len() ==> {
                let script = script_or_empty(old(self)@.script);
                if script.len() == 0 {
                    r is None && final(self)@ == no_script_notified(old(self)@)
                } else {
                    &&& final(self)@ == old(self)@
                    &&& r matches Some(p) && p.0@ == shown(old(self)@)[old(self)@.selected_index as int] && p.1@ == script
                }
            },
    {
        let torrent = match self.selected_torrent() {
            Some(t) => t.duplicate(),
            None => return None,
        };
        let script = match &self.script {
            Some(s) => s.clone(),
            None => String::new(),
        };
        if script.unicode_len() == 0 {
            self.show_toast_error("Error", "No auto-run script configured. Run 'qb-och script' first.");
            return None;
        }
        Some((torrent, script))
    }

    /// The completed torrents in list order and the script to run on them,
    /// where both exist; what is missing is notified.
    pub fn prepare_run_all(&mut self) -> (r: Option<(Vec<Torrent>, String)>)
        ensures
            completed_only(old(self)@.torrents).len() == 0 ==> r is None && final(self)@ == (AppStateView {
                toasts: old(self)@.toasts.push(ToastView {
                    level: ToastLevel::Error,
                    title: "Error"@,
                    message: "No completed/seeding torrents found"@,
                }),
                ..old(self)@
            }),
            completed_only(old(self)@.torrents).len() > 0 ==> {
                let script = script_or_empty(old(self)@.script);
                if script.len() == 0 {
                    r is None && final(self)@ == no_script_notified(old(self)@)
                } else {
                    &&& final(self)@ == old(self)@
                    &&& r matches Some(p) && stably_sorted(
                        old(self)@.sort_config,
                        completed_only(old(self)@.torrents),
                        torrent_views(p.0@),
                    ) && p.1@ == script
                }
            },
    {
        let completed = self.completed_torrents();
        if completed.len() == 0 {
            self.show_toast_error("Error", "No completed/seeding torrents found");
            return None;
        }
        let script = match &self.script {
            Some(s) => s.clone(),
            None => String::new(),
        };
        if script.unicode_len() == 0 {
            self.show_toast_error("Error", "No auto-run script configured. Run 'qb-och script' first.");
            return None;
        }
        Some((completed, script))
    }

    /// Tags the first torrent with `hash` with the outcome of its script
    /// run, so that its recorded state becomes the outcome.
    pub fn record_outcome(&mut self, hash: &str, success: bool)
        ensures
            match hash_position(old(self)@.torrents, hash@) {
                Some(i) => {
                    &&& final(self)@ == (AppStateView {
                        torrents: old(self)@.torrents.update(
                            i,
                            TorrentView {
                                tags: retagged(old(self)@.torrents[i].tags, if success { ok_tag() } else { fail_tag() }),
                                ..old(self)@.torrents[i]
                            },
                        ),
                        ..old(self)@
                    })
                    &&& state_of_tags(final(self)@.torrents[i].tags) == if success {
                        ScriptState::Success
                    } else {
                        ScriptState::Fail
                    }
                },
                None => final(self)@ == old(self)@,
            },
    {
        let tag = outcome_tag(success);
        self.update_torrent_tag(hash, tag);
        proof {
            match hash_position(old(self)@.torrents, hash@) {
                Some(i) => {
                    lemma_hash_position_bounds(old(self)@.torrents, hash@);
                    if success {
                        law_retag_ok_records_success(old(self)@.torrents[i].tags);
                    } else {
                        law_retag_fail_records_failure(old(self)@.torrents[i].tags);
                    }
                },
                None => {},
            }
        }
    }
}

/// The server work that the interface loop does next.
#[derive(Debug, Clone, Copy, PartialEq, Eq, Structural)]
pub enum Chore {
    /// Connect with the queued login.
    ProcessLogin,
    /// Fetch the changes since the last sync.
    Sync,
    /// Nothing this round.
    Idle,
}

impl AppState {
    /// The server work due now: a queued login comes first; otherwise, in
    /// normal mode, a sync when one is due.
    pub fn due_chore(&self, sync_due: bool) -> (r: Chore)
        ensures
            r == if self@.pending_login is Some {
                Chore::ProcessLogin
            } else if self@.mode == AppMode::Normal && sync_due {
                Chore::Sync
            } else {
                Chore::Idle
            },
    {
        if self.pending_login.is_some() {
            Chore::ProcessLogin
        } else if self.mode == AppMode::Normal && sync_due {
            Chore::Sync
        } else {
            Chore::Idle
        }
    }
}

/// The position of a sort field in the cycle name, completed, added.
pub open spec fn sort_field_index(f: SortField) -> int {
    match f {
        SortField::Name => 0,
        SortField::CompletedAt => 1,
        SortField::AddedAt => 2,
    }
}

/// The sort field at a position of the cycle.
pub open spec fn sort_field_at(i: int) -> SortField {
    if i == 0 {
        SortField::Name
    } else if i == 1 {
        SortField::CompletedAt
    } else {
        SortField::AddedAt
    }
}


/// `v` kept within 0 to `hi`.
pub open spec fn clamp_to(v: int, hi: int) -> int {
    if v < 0 { 0 } else if v > hi { hi } else { v }
}

/// The last index of `n` entries (0 when there are none).
pub open spec fn last_index(n: nat) -> int {
    if n > 0 { n - 1 } else { 0 }
}

/// The highest scroll offset for `count` rows in a window of 20.
pub open spec fn last_window(count: int) -> int {
    if count > 20 { count - 20 } else { 0 }
}

/// The scroll offset that keeps row `sel` in the 20-row window, starting from `off`.
pub open spec fn scrolled_for(sel: int, off: int, count: int) -> int {
    let moved = if sel < off { sel } else if sel >= off + 20 { sel - 19 } else { off };
    if moved > last_window(count) { last_window(count) } else { moved }
}

/// The state scrolled to the last log entry.
pub open spec fn logs_at_end(s: AppStateView) -> AppStateView {
    AppStateView { log_scroll: last_index(s.logs.len()) as usize, ..s }
}

/// Whether the log is scrolled to its last entry (or empty).
pub open spec fn log_at_end(s: AppStateView) -> bool {
    s.logs.len() == 0 || s.log_scroll >= last_index(s.logs.len())
}

/// Scrolling the log to its end leaves it at its end.
pub proof fn law_scroll_to_end_is_at_end(s: AppStateView)
    requires
        s.logs.len() <= usize::MAX,
    ensures
        log_at_end(logs_at_end(s)),
{
}

/// Moving the selection keeps it on a shown row (when there is one) and in
/// the scroll window.
pub proof fn law_selection_stays_in_view(sel0: int, delta: int, off: int, count: int)
    requires
        count > 0,
        off >= 0,
    ensures
        ({
            let sel = clamp_to(sel0 + delta, last_index(count as nat));
            let o = scrolled_for(sel, off, count);
            &&& 0 <= sel < count
            &&& o <= sel < o + 20
        }),
{
}


/// Where the first torrent with hash `h` stands.
pub open spec fn hash_position(s: Seq<TorrentView>, h: Seq<char>) -> Option<int>
    decreases s.len(),
{
    if s.len() == 0 {
        None
    } else {
        match hash_position(s.drop_last(), h) {
            Some(i) => Some(i),
            None => if s.last().hash == h { Some(s.len() - 1) } else { None },
        }
    }
}

pub proof fn lemma_hash_position_bounds(s: Seq<TorrentView>, h: Seq<char>)
    ensures
        hash_position(s, h) matches Some(i) ==> 0 <= i < s.len() && s[i].hash == h,
    decreases s.len(),
{
    if s.len() > 0 {
        lemma_hash_position_bounds(s.drop_last(), h);
    }
}

/// The state after re-tagging the first torrent with hash `hash` with `tag`
/// (see `retagged`); the state as it is where no torrent has that hash.
pub open spec fn tag_updated(s: AppStateView, hash: Seq<char>, tag: Seq<char>) -> AppStateView {
    match hash_position(s.torrents, hash) {
        Some(i) => AppStateView {
            torrents: s.torrents.update(i, TorrentView { tags: retagged(s.torrents[i].tags, tag), ..s.torrents[i] }),
            ..s
        },
        None => s,
    }
}

/// Where a hash is found depends on the torrents' hashes alone.
proof fn lemma_hash_position_same_hashes(a: Seq<TorrentView>, b: Seq<TorrentView>, h: Seq<char>)
    requires
        a.len() == b.len(),
        forall|i: int| 0 <= i < a.len() ==> #[trigger] a[i].hash == b[i].hash,
    ensures
        hash_position(a, h) == hash_position(b, h),
    decreases a.len(),
{
    if a.len() > 0 {
        let n = a.len() - 1;
        assert(a[n].hash == b[n].hash);
        lemma_hash_position_same_hashes(a.drop_last(), b.drop_last(), h);
    }
}

/// Re-tagging a torrent a second time with the same outcome tag changes
/// nothing more.
pub proof fn law_retagging_a_torrent_twice_changes_nothing(s: AppStateView, hash: Seq<char>, tag: Seq<char>)
    requires
        tag == ok_tag() || tag == fail_tag(),
    ensures
        tag_updated(tag_updated(s, hash, tag), hash, tag) == tag_updated(s, hash, tag),
{
    let once = tag_updated(s, hash, tag);
    lemma_hash_position_bounds(s.torrents, hash);
    match hash_position(s.torrents, hash) {
        Some(i) => {
            assert forall|k: int| 0 <= k < s.torrents.len() implies #[trigger] s.torrents[k].hash
                == once.torrents[k].hash by {}
            lemma_hash_position_same_hashes(s.torrents, once.torrents, hash);
            law_retag_twice_changes_nothing(s.torrents[i].tags, tag);
            let t2 = TorrentView { tags: retagged(once.torrents[i].tags, tag), ..once.torrents[i] };
            assert(t2 == once.torrents[i]);
            assert(once.torrents.update(i, t2) =~= once.torrents);
        },
        None => {},
    }
}

/// Where no torrent before position `i` has hash `h` and the one at `i` has, `i` is its first position.
pub proof fn lemma_hash_position_prefix(s: Seq<TorrentView>, h: Seq<char>, i: int)
    requires
        0 <= i < s.len(),
        hash_position(s.take(i), h) is None,
        s[i].hash == h,
    ensures
        hash_position(s, h) == Some(i),
    decreases s.len() - i,
{
    assert(s.take(i + 1).drop_last() =~= s.take(i));
    if i + 1 < s.len() {
        lemma_hash_position_prefix_extend(s, h, i, i + 1);
        assert(s.take(s.len() as int) =~= s);
    } else {
        assert(s.take(i + 1) =~= s);
    }
}

proof fn lemma_hash_position_prefix_extend(s: Seq<TorrentView>, h: Seq<char>, i: int, n: int)
    requires
        0 <= i < n <= s.len(),
        hash_position(s.take(i + 1), h) == Some(i),
    ensures
        hash_position(s.take(s.len() as int), h) == Some(i),
    decreases s.len() - n,
{
    if n < s.len() {
        assert(s.take(n + 1).drop_last() =~= s.take(n));
        lemma_hash_position_prefix_step(s, h, i, i + 1, n);
        lemma_hash_position_prefix_extend(s, h, i, n + 1);
    } else {
        lemma_hash_position_prefix_step(s, h, i, i + 1, n);
    }
}

proof fn lemma_hash_position_prefix_step(s: Seq<TorrentView>, h: Seq<char>, i: int, a: int, b: int)
    requires
        0 <= i < a <= b <= s.len(),
        hash_position(s.take(a), h) == Some(i),
    ensures
        hash_position(s.take(b), h) == Some(i),
    decreases b - a,
{
    if a < b {
        assert(s.take(a + 1).drop_last() =~= s.take(a));
        lemma_hash_position_prefix_step(s, h, i, a + 1, b);
    }
}

/// The selection after the list changed to `count` shown rows.
pub open spec fn clamped_selection(sel: usize, count: nat) -> usize {
    if sel >= count { last_index(count) as usize } else { sel }
}

/// Clamping keeps the selection on a row: below the row count wherever
/// there is a row, and unchanged where it was on one already.
pub proof fn law_clamped_selection_on_a_row(sel: usize, count: nat)
    requires
        count <= usize::MAX,
    ensures
        count > 0 ==> clamped_selection(sel, count) < count,
        sel < count ==> clamped_selection(sel, count) == sel,
{
}

/// The hash whose files are to be loaded, where there is one.
pub open spec fn file_load_needed(s: AppStateView) -> Option<Seq<char>> {
    if !s.show_details || s.detail_pane != DetailPane::Files {
        None
    } else if s.selected_index >= shown(s).len() {
        None
    } else {
        let h = shown(s)[s.selected_index as int].hash;
        if s.cached_hashes.contains(h) {
            None
        } else if s.files_loading == Some(h) {
            None
        } else {
            Some(h)
        }
    }
}

/// A torrent name as notifications show it: past 52 bytes, its first 51
/// bytes and an ellipsis.
pub open spec fn toast_name(name: Seq<char>) -> Seq<char> {
    if utf8_len(name) > 52 {
        byte_prefix_of(name, 51) + "\u{2026}"@
    } else {
        name
    }
}


/// A torrent name shortened for a notification.
pub fn shortened_name(name: &str) -> (r: String)
    requires
        utf8_len(name@) <= usize::MAX,
        utf8_len(name@) > 52 ==> at_char_boundary(name@, 51),
    ensures
        r@ == toast_name(name@),
{
    if name.len() > 52 {
        let mut r = byte_prefix(name, 51);
        r.append("\u{2026}");
        r
    } else {
        owned(name)
    }
}


/// How many log entries are kept.
pub const MAX_LOGS: usize = 1000;

/// Whether two log entries record the same run: same start time and hash.
pub open spec fn same_run(a: ScriptResultView, b: ScriptResultView) -> bool {
    a.started_at == b.started_at && a.hash == b.hash
}

/// Whether `existing` already records the run of `e`.
pub open spec fn known_run(existing: Seq<ScriptResultView>, e: ScriptResultView) -> bool {
    exists|i: int| 0 <= i < existing.len() && same_run(#[trigger] existing[i], e)
}

/// The entries of `entries` whose run `existing` does not record, in order.
pub open spec fn fresh_logs(existing: Seq<ScriptResultView>, entries: Seq<ScriptResultView>) -> Seq<ScriptResultView>
    decreases entries.len(),
{
    if entries.len() == 0 {
        Seq::empty()
    } else {
        let p = fresh_logs(existing, entries.drop_last());
        if known_run(existing, entries.last()) { p } else { p.push(entries.last()) }
    }
}

/// The newest `MAX_LOGS` entries of a log.
pub open spec fn capped(s: Seq<ScriptResultView>) -> Seq<ScriptResultView> {
    if s.len() > MAX_LOGS { s.skip(s.len() - MAX_LOGS) } else { s }
}

/// The log after merging `entries` into `existing`.
pub open spec fn merged_logs(existing: Seq<ScriptResultView>, entries: Seq<ScriptResultView>) -> Seq<ScriptResultView> {
    let f = fresh_logs(existing, entries);
    if f.len() == 0 { existing } else { capped(existing + f) }
}

/// Merging never grows the log past `MAX_LOGS`: it ends up as long as the
/// old entries and the new runs together, up to that cap.
pub proof fn law_merge_keeps_log_bounded(existing: Seq<ScriptResultView>, entries: Seq<ScriptResultView>)
    requires
        existing.len() <= MAX_LOGS,
    ensures
        merged_logs(existing, entries).len() <= MAX_LOGS,
        merged_logs(existing, entries).len() == if existing.len() + fresh_logs(existing, entries).len() > MAX_LOGS {
            MAX_LOGS as int
        } else {
            (existing.len() + fresh_logs(existing, entries).len()) as int
        },
{
}

/// Merging the same entries a second time adds nothing.
pub proof fn law_merge_twice_adds_nothing(existing: Seq<ScriptResultView>, entries: Seq<ScriptResultView>)
    requires
        existing.len() + fresh_logs(existing, entries).len() <= MAX_LOGS,
    ensures
        fresh_logs(merged_logs(existing, entries), entries).len() == 0,
{
    let m = merged_logs(existing, entries);
    lemma_fresh_known(existing, entries);
    assert forall|k: int| 0 <= k < entries.len() implies known_run(m, #[trigger] entries[k]) by {
        if known_run(existing, entries[k]) {
            let i = choose|i: int| 0 <= i < existing.len() && same_run(#[trigger] existing[i], entries[k]);
            assert(m[i] == existing[i]);
        } else {
            let f = fresh_logs(existing, entries);
            let j = choose|j: int| 0 <= j < f.len() && same_run(#[trigger] f[j], entries[k]);
            assert(m[existing.len() + j] == f[j]);
        }
    }
    lemma_fresh_empty(m, entries);
}

proof fn lemma_fresh_known(existing: Seq<ScriptResultView>, entries: Seq<ScriptResultView>)
    ensures
        forall|k: int| 0 <= k < entries.len() && !known_run(existing, #[trigger] entries[k]) ==>
            exists|j: int| 0 <= j < fresh_logs(existing, entries).len() && same_run(#[trigger] fresh_logs(existing, entries)[j], entries[k]),
    decreases entries.len(),
{
    if entries.len() > 0 {
        let e2 = entries.drop_last();
        lemma_fresh_known(existing, e2);
        let f = fresh_logs(existing, entries);
        let f2 = fresh_logs(existing, e2);
        assert forall|k: int| 0 <= k < entries.len() && !known_run(existing, #[trigger] entries[k]) implies
            exists|j: int| 0 <= j < f.len() && same_run(#[trigger] f[j], entries[k]) by {
            if k < entries.len() - 1 {
                assert(entries[k] == e2[k]);
                let j = choose|j: int| 0 <= j < f2.len() && same_run(#[trigger] f2[j], e2[k]);
                assert(f[j] == f2[j]);
            } else {
                assert(f[f.len() - 1] == entries.last());
            }
        }
    }
}

proof fn lemma_fresh_empty(m: Seq<ScriptResultView>, entries: Seq<ScriptResultView>)
    requires
        forall|k: int| 0 <= k < entries.len() ==> known_run(m, #[trigger] entries[k]),
    ensures
        fresh_logs(m, entries).len() == 0,
    decreases entries.len(),
{
    if entries.len() > 0 {
        let e2 = entries.drop_last();
        assert forall|k: int| 0 <= k < e2.len() implies known_run(m, #[trigger] e2[k]) by {
            assert(e2[k] == entries[k]);
        }
        lemma_fresh_empty(m, e2);
        assert(known_run(m, entries[entries.len() - 1]));
    }
}

/// A script setting, empty where none is set.
pub open spec fn script_or_empty(s: Option<Seq<char>>) -> Seq<char> {
    match s {
        Some(x) => x,
        None => Seq::empty(),
    }
}

/// The state with the missing-script error notified.
pub open spec fn no_script_notified(s: AppStateView) -> AppStateView {
    AppStateView {
        toasts: s.toasts.push(ToastView {
            level: ToastLevel::Error,
            title: "Error"@,
            message: "No auto-run script configured. Run 'qb-och script' first."@,
        }),
        ..s
    }
}

} // verus!
