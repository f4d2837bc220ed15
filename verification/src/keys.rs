//! What a key press does to the interface state, and what the application
//! has to do afterwards.
use vstd::prelude::*;
use crate::app_state::{
    clamp_to, help_entered, help_exited, last_index, scrolled_for, shown, sort_field_at,
    sort_field_index, AppState, AppStateView,
};
use crate::bindings::{pop_char, push_char};
use crate::enums::{AppMode, LoginField};
use crate::enums;
use crate::models::{flipped_direction, SortConfig, Torrent};
use crate::sort::{stably_sorted, torrent_views};
use crate::text::trim;

verus! {

/// The key of a key press.
#[derive(Debug, Clone, Copy, PartialEq, Eq, Structural)]
pub enum KeyCode {
    Char(char),
    Up,
    Down,
    Left,
    Right,
    Tab,
    Enter,
    Esc,
    Backspace,
    Delete,
    Home,
    End,
    PageUp,
    PageDown,
    /// Any key this tool does not react to.
    Other,
}

/// A key press with its modifiers.
#[derive(Debug, Clone, Copy, PartialEq, Eq, Structural)]
pub struct KeyPress {
    pub code: KeyCode,
    pub shift: bool,
    pub control: bool,
    pub alt: bool,
}

/// What the application does after a key press.
pub enum KeyEffect {
    /// Nothing more.
    Continue,
    /// Leave the interface.
    Quit,
    /// Save the sort configuration.
    SaveSortConfig,
    /// Save the view and filter.
    SaveViewFilter,
    /// Run the script on this torrent in the background.
    RunScriptOnSelected(Torrent),
    /// Run the script on the completed torrents among these in the background.
    RunScriptOnAll(Vec<Torrent>),
}

/// The kind of a [`KeyEffect`].
#[derive(Debug, Clone, Copy, PartialEq, Eq, Structural)]
pub enum EffectKind {
    Continue,
    Quit,
    SaveSortConfig,
    SaveViewFilter,
    RunScriptOnSelected,
    RunScriptOnAll,
}

/// The kind of an effect, without what it carries.
pub open spec fn effect_kind(e: KeyEffect) -> EffectKind {
    match e {
        KeyEffect::Continue => EffectKind::Continue,
        KeyEffect::Quit => EffectKind::Quit,
        KeyEffect::SaveSortConfig => EffectKind::SaveSortConfig,
        KeyEffect::SaveViewFilter => EffectKind::SaveViewFilter,
        KeyEffect::RunScriptOnSelected(_) => EffectKind::RunScriptOnSelected,
        KeyEffect::RunScriptOnAll(_) => EffectKind::RunScriptOnAll,
    }
}

/// Whether the view shows the torrent list (alone or split).
pub open spec fn shows_list(v: enums::View) -> bool {
    v == enums::View::TorrentList || v == enums::View::VerticalSplit || v == enums::View::HorizontalSplit
}

/// Whether the view is one of the two splits.
pub open spec fn is_split(v: enums::View) -> bool {
    v == enums::View::VerticalSplit || v == enums::View::HorizontalSplit
}

/// Whether a vertical movement key moves the log rather than the list.
pub open spec fn moves_log(s: AppStateView, shift: bool) -> bool {
    s.view == enums::View::LogView || (shift && is_split(s.view))
}

/// The state with help scrolled by `d` lines, kept within 0 to 30.
pub open spec fn help_scrolled(s: AppStateView, d: int) -> AppStateView {
    AppStateView { help_scroll: clamp_to(s.help_scroll + d, 30) as usize, ..s }
}

/// The state with the log scrolled by `d` entries, kept within the log.
pub open spec fn logs_scrolled(s: AppStateView, d: int) -> AppStateView {
    AppStateView { log_scroll: clamp_to(s.log_scroll + d, last_index(s.logs.len())) as usize, ..s }
}

/// The state with row `pos` of `count` selected (the last where past the end) and kept in view.
pub open spec fn jumped(s: AppStateView, pos: int, count: int) -> AppStateView {
    let sel = if pos <= last_index(count as nat) { pos } else { last_index(count as nat) };
    AppStateView {
        selected_index: sel as usize,
        scroll_offset: scrolled_for(sel, s.scroll_offset as int, count) as usize,
        ..s
    }
}

/// The state with the selection moved by `d` rows among the shown torrents and kept in view.
pub open spec fn selection_moved(s: AppStateView, d: int) -> AppStateView {
    let count = shown(s).len() as int;
    let sel = clamp_to(s.selected_index + d, last_index(count as nat));
    AppStateView {
        selected_index: sel as usize,
        scroll_offset: scrolled_for(sel, s.scroll_offset as int, count) as usize,
        ..s
    }
}

/// The sort configuration after `s` in normal mode.
pub open spec fn next_sort_field(c: SortConfig) -> SortConfig {
    SortConfig { field: sort_field_at((sort_field_index(c.field) + 1 + 3) % 3), direction: c.direction }
}

/// The state after a key press in normal mode (for the sorting keys, before
/// the torrents are re-sorted), and what follows it.
pub open spec fn normal_key(s: AppStateView, k: KeyPress) -> (AppStateView, EffectKind) {
    let help = s.view == enums::View::Help;
    let count = shown(s).len() as int;
    match k.code {
        KeyCode::Char('h') => (help_entered(s), EffectKind::Continue),
        KeyCode::Up => if help {
            (help_scrolled(s, -1), EffectKind::Continue)
        } else if moves_log(s, k.shift) {
            (logs_scrolled(s, -1), EffectKind::Continue)
        } else {
            (selection_moved(s, -1), EffectKind::Continue)
        },
        KeyCode::Down => if help {
            (help_scrolled(s, 1), EffectKind::Continue)
        } else if moves_log(s, k.shift) {
            (logs_scrolled(s, 1), EffectKind::Continue)
        } else {
            (selection_moved(s, 1), EffectKind::Continue)
        },
        KeyCode::Char('s') => if help {
            (s, EffectKind::Continue)
        } else {
            (AppStateView { sort_config: next_sort_field(s.sort_config), ..s }, EffectKind::SaveSortConfig)
        },
        KeyCode::Char('S') => if help {
            (s, EffectKind::Continue)
        } else {
            (AppStateView { sort_config: flipped_direction(s.sort_config), ..s }, EffectKind::SaveSortConfig)
        },
        KeyCode::Tab => if help {
            (s, EffectKind::Continue)
        } else if k.shift {
            (AppStateView { filter: s.filter.preceding(), selected_index: 0, scroll_offset: 0, ..s }, EffectKind::SaveViewFilter)
        } else {
            (AppStateView { filter: s.filter.following(), selected_index: 0, scroll_offset: 0, ..s }, EffectKind::SaveViewFilter)
        },
        KeyCode::Char('t') => if shows_list(s.view) {
            (AppStateView { show_details: !s.show_details, ..s }, EffectKind::Continue)
        } else {
            (s, EffectKind::Continue)
        },
        KeyCode::Enter => if shows_list(s.view) && s.selected_index < count {
            (AppStateView { show_details: true, ..s }, EffectKind::Continue)
        } else {
            (s, EffectKind::Continue)
        },
        KeyCode::Left => if s.show_details && shows_list(s.view) {
            (AppStateView { detail_pane: s.detail_pane.preceding(), ..s }, EffectKind::Continue)
        } else {
            (s, EffectKind::Continue)
        },
        KeyCode::Right => if s.show_details && shows_list(s.view) {
            (AppStateView { detail_pane: s.detail_pane.following(), ..s }, EffectKind::Continue)
        } else {
            (s, EffectKind::Continue)
        },
        KeyCode::Char('v') => if help {
            (s, EffectKind::Continue)
        } else {
            (AppStateView { view: s.view.following(), ..s }, EffectKind::SaveViewFilter)
        },
        KeyCode::Char('V') => if help {
            (s, EffectKind::Continue)
        } else {
            (AppStateView { view: s.view.preceding(), ..s }, EffectKind::SaveViewFilter)
        },
        KeyCode::Char('r') => if s.selected_index < count {
            (s, EffectKind::RunScriptOnSelected)
        } else {
            (s, EffectKind::Continue)
        },
        KeyCode::Char('R') => (s, EffectKind::RunScriptOnAll),
        KeyCode::Char('q') => if help { (help_exited(s), EffectKind::Continue) } else { (s, EffectKind::Quit) },
        KeyCode::Esc => if help { (help_exited(s), EffectKind::Continue) } else { (s, EffectKind::Quit) },
        KeyCode::Home => if help {
            (AppStateView { help_scroll: 0, ..s }, EffectKind::Continue)
        } else if moves_log(s, k.shift) {
            (AppStateView { log_scroll: 0, ..s }, EffectKind::Continue)
        } else {
            (jumped(s, 0, count), EffectKind::Continue)
        },
        KeyCode::End => if help {
            (AppStateView { help_scroll: 1000, ..s }, EffectKind::Continue)
        } else if moves_log(s, k.shift) {
            (AppStateView { log_scroll: last_index(s.logs.len()) as usize, ..s }, EffectKind::Continue)
        } else {
            (jumped(s, last_index(count as nat), count), EffectKind::Continue)
        },
        KeyCode::PageUp => if help {
            (help_scrolled(s, -10), EffectKind::Continue)
        } else if moves_log(s, k.shift) {
            (logs_scrolled(s, -10), EffectKind::Continue)
        } else {
            (jumped(s, if s.selected_index >= 10 { s.selected_index - 10 } else { 0 }, count), EffectKind::Continue)
        },
        KeyCode::PageDown => if help {
            (help_scrolled(s, 10), EffectKind::Continue)
        } else if moves_log(s, k.shift) {
            (logs_scrolled(s, 10), EffectKind::Continue)
        } else {
            (jumped(s, s.selected_index + 10, count), EffectKind::Continue)
        },
        _ => (s, EffectKind::Continue),
    }
}

/// Whether a key re-sorts the torrents in normal mode.
pub open spec fn key_sorts(s: AppStateView, k: KeyPress) -> bool {
    s.view != enums::View::Help && (k.code == KeyCode::Char('s') || k.code == KeyCode::Char('S'))
}

/// The state after a key press on the login form, and whether it quits.
pub open spec fn login_key(s: AppStateView, k: KeyPress) -> (AppStateView, bool) {
    match k.code {
        KeyCode::Tab => if k.shift {
            (AppStateView { login_field: s.login_field.preceding(), ..s }, false)
        } else {
            (AppStateView { login_field: s.login_field.following(), ..s }, false)
        },
        KeyCode::Up => (AppStateView { login_field: s.login_field.preceding(), ..s }, false),
        KeyCode::Left => (AppStateView { login_field: s.login_field.preceding(), ..s }, false),
        KeyCode::Down => (AppStateView { login_field: s.login_field.following(), ..s }, false),
        KeyCode::Right => (AppStateView { login_field: s.login_field.following(), ..s }, false),
        KeyCode::Enter => (
            AppStateView {
                pending_login: Some((trim(s.login_host), trim(s.login_username), s.login_password)),
                ..s
            },
            false,
        ),
        KeyCode::Esc => (s, true),
        KeyCode::Char('q') => (s, true),
        KeyCode::Backspace => (field_popped(s), false),
        KeyCode::Delete => (field_popped(s), false),
        KeyCode::Char(c) => if !k.control && !k.alt { (field_pushed(s, c), false) } else { (s, false) },
        _ => (s, false),
    }
}

/// A text with its last character removed (unchanged when empty).
pub open spec fn popped(t: Seq<char>) -> Seq<char> {
    if t.len() == 0 { t } else { t.drop_last() }
}

/// The login form with the last character of the focused field removed.
pub open spec fn field_popped(s: AppStateView) -> AppStateView {
    match s.login_field {
        LoginField::Host => AppStateView { login_host: popped(s.login_host), ..s },
        LoginField::Username => AppStateView { login_username: popped(s.login_username), ..s },
        LoginField::Password => AppStateView { login_password: popped(s.login_password), ..s },
    }
}

/// The login form with `c` typed into the focused field.
pub open spec fn field_pushed(s: AppStateView, c: char) -> AppStateView {
    match s.login_field {
        LoginField::Host => AppStateView { login_host: s.login_host.push(c), ..s },
        LoginField::Username => AppStateView { login_username: s.login_username.push(c), ..s },
        LoginField::Password => AppStateView { login_password: s.login_password.push(c), ..s },
    }
}

/// Typing a character into the login form and deleting it again leaves the
/// form as it was.
pub proof fn law_typing_then_deleting_restores(s: AppStateView, c: char)
    ensures
        field_popped(field_pushed(s, c)) == s,
{
    assert(s.login_host.push(c).drop_last() =~= s.login_host);
    assert(s.login_username.push(c).drop_last() =~= s.login_username);
    assert(s.login_password.push(c).drop_last() =~= s.login_password);
}

/// The bounds that keep the key handlers' arithmetic within machine integers.
pub open spec fn key_bounds(s: AppState) -> bool {
    &&& s.selected_index <= isize::MAX - 10
    &&& s.help_scroll <= isize::MAX - 10
    &&& s.log_scroll <= isize::MAX - 10
    &&& s.scroll_offset <= usize::MAX - 20
    &&& s.torrents.len() <= isize::MAX
    &&& s.logs.len() <= isize::MAX
}

/// Whatever key is pressed in normal mode, a selection that was on a shown
/// row, or at the top of an empty list, stays so: `after` is the state that
/// `handle_key` leaves (for the sorting keys, with the torrents re-sorted).
pub proof fn law_keys_keep_selection_on_a_row(s: AppStateView, k: KeyPress, after: AppStateView)
    requires
        s.selected_index <= last_index(shown(s).len()),
        !key_sorts(s, k) ==> after == normal_key(s, k).0,
        key_sorts(s, k) ==> {
            &&& after == (AppStateView { torrents: after.torrents, ..normal_key(s, k).0 })
            &&& stably_sorted(after.sort_config, s.torrents, after.torrents)
        },
    ensures
        after.selected_index <= last_index(shown(after).len()),
{
    if key_sorts(s, k) {
        crate::sort::law_sorting_keeps_shown_count(after.sort_config, s.torrents, after.torrents, s.filter);
    }
}

/// In the torrent list and the split views, Up without shift moves the
/// selection one row up (staying on the top row), and never down.
pub proof fn law_up_moves_the_selection_up(s: AppStateView, k: KeyPress)
    requires
        k.code == KeyCode::Up,
        !k.shift,
        s.view != enums::View::Help,
        s.view != enums::View::LogView,
    ensures
        normal_key(s, k).0.selected_index <= s.selected_index,
        s.selected_index < shown(s).len() ==> normal_key(s, k).0.selected_index == if s.selected_index == 0 {
            0
        } else {
            s.selected_index - 1
        },
        normal_key(s, k).0.view == s.view,
        normal_key(s, k).0.torrents == s.torrents,
{
}

/// In the torrent list and the split views, Down without shift moves the
/// selection one row down (staying on the last shown row), and never up.
pub proof fn law_down_moves_the_selection_down(s: AppStateView, k: KeyPress)
    requires
        k.code == KeyCode::Down,
        !k.shift,
        s.view != enums::View::Help,
        s.view != enums::View::LogView,
        s.selected_index < shown(s).len(),
        s.selected_index < usize::MAX,
    ensures
        normal_key(s, k).0.selected_index >= s.selected_index,
        s.selected_index + 1 < shown(s).len() ==> normal_key(s, k).0.selected_index == s.selected_index + 1,
        s.selected_index + 1 == shown(s).len() ==> normal_key(s, k).0.selected_index == s.selected_index,
        normal_key(s, k).0.view == s.view,
        normal_key(s, k).0.torrents == s.torrents,
{
}

impl AppState {
    /// Handles a key press on the login form. Returns `false` to quit.
    pub fn handle_login_key(&mut self, key: KeyPress) -> (r: bool)
        ensures
            final(self)@ == login_key(old(self)@, key).0,
            r == !login_key(old(self)@, key).1,
    {
        match key.code {
            KeyCode::Tab => {
                if key.shift {
                    self.retreat_login_field();
                } else {
                    self.advance_login_field();
                }
            },
            KeyCode::Up | KeyCode::Left => {
                self.retreat_login_field();
            },
            KeyCode::Down | KeyCode::Right => {
                self.advance_login_field();
            },
            KeyCode::Enter => {
                self.queue_login();
            },
            KeyCode::Esc | KeyCode::Char('q') => {
                return false;
            },
            KeyCode::Backspace | KeyCode::Delete => {
                match self.login_field {
                    LoginField::Host => {
                        let _ = pop_char(&mut self.login_host);
                    },
                    LoginField::Username => {
                        let _ = pop_char(&mut self.login_username);
                    },
                    LoginField::Password => {
                        let _ = pop_char(&mut self.login_password);
                    },
                }
            },
            KeyCode::Char(c) => {
                if !key.control && !key.alt {
                    match self.login_field {
                        LoginField::Host => push_char(&mut self.login_host, c),
                        LoginField::Username => push_char(&mut self.login_username, c),
                        LoginField::Password => push_char(&mut self.login_password, c),
                    }
                }
            },
            _ => {},
        }
        true
    }

    /// Handles a key press in normal mode.
    #[verifier::spinoff_prover]
    #[verifier::rlimit(80)]
    pub fn handle_normal_key(&mut self, key: KeyPress) -> (r: KeyEffect)
        requires
            key_bounds(*old(self)),
        ensures
            effect_kind(r) == normal_key(old(self)@, key).1,
            !key_sorts(old(self)@, key) ==> final(self)@ == normal_key(old(self)@, key).0,
            key_sorts(old(self)@, key) ==> {
                &&& final(self)@ == (AppStateView { torrents: final(self)@.torrents, ..normal_key(old(self)@, key).0 })
                &&& stably_sorted(final(self)@.sort_config, old(self)@.torrents, final(self)@.torrents)
            },
            r matches KeyEffect::RunScriptOnSelected(t) ==> t@ == shown(old(self)@)[old(self)@.selected_index as int],
            r matches KeyEffect::RunScriptOnAll(ts) ==> torrent_views(ts@) == old(self)@.torrents,
    {
        let help = self.view == enums::View::Help;
        let split = self.view == enums::View::VerticalSplit || self.view == enums::View::HorizontalSplit;
        let list = self.view == enums::View::TorrentList || split;
        let log_moves = self.view == enums::View::LogView || (key.shift && split);
        proof {
            crate::sort::lemma_listed_len(self@.torrents, self@.filter);
        }
        match key.code {
            KeyCode::Char('h') => {
                self.enter_help();
                KeyEffect::Continue
            },
            KeyCode::Up => {
                if help {
                    self.scroll_help(-1);
                } else if log_moves {
                    self.scroll_logs(-1);
                } else {
                    self.move_selection(-1);
                }
                KeyEffect::Continue
            },
            KeyCode::Down => {
                if help {
                    self.scroll_help(1);
                } else if log_moves {
                    self.scroll_logs(1);
                } else {
                    self.move_selection(1);
                }
                KeyEffect::Continue
            },
            KeyCode::Char('s') => {
                if help {
                    KeyEffect::Continue
                } else {
                    self.cycle_sort_field(1);
                    KeyEffect::SaveSortConfig
                }
            },
            KeyCode::Char('S') => {
                if help {
                    KeyEffect::Continue
                } else {
                    self.toggle_sort_direction();
                    KeyEffect::SaveSortConfig
                }
            },
            KeyCode::Tab => {
                if help {
                    KeyEffect::Continue
                } else {
                    if key.shift {
                        self.cycle_filter_backward();
                    } else {
                        self.cycle_filter_forward();
                    }
                    KeyEffect::SaveViewFilter
                }
            },
            KeyCode::Char('t') => {
                if list {
                    self.show_details = !self.show_details;
                }
                KeyEffect::Continue
            },
            KeyCode::Enter => {
                if list && self.selected_index < self.filtered_torrents().len() {
                    self.show_details = true;
                }
                KeyEffect::Continue
            },
            KeyCode::Left => {
                if self.show_details && list {
                    self.detail_pane = self.detail_pane.prev();
                }
                KeyEffect::Continue
            },
            KeyCode::Right => {
                if self.show_details && list {
                    self.detail_pane = self.detail_pane.next();
                }
                KeyEffect::Continue
            },
            KeyCode::Char('v') => {
                if help {
                    KeyEffect::Continue
                } else {
                    self.cycle_view_forward();
                    KeyEffect::SaveViewFilter
                }
            },
            KeyCode::Char('V') => {
                if help {
                    KeyEffect::Continue
                } else {
                    self.cycle_view_backward();
                    KeyEffect::SaveViewFilter
                }
            },
            KeyCode::Char('r') => {
                match self.selected_torrent() {
                    Some(t) => KeyEffect::RunScriptOnSelected(t.duplicate()),
                    None => KeyEffect::Continue,
                }
            },
            KeyCode::Char('R') => {
                KeyEffect::RunScriptOnAll(self.copy_torrents())
            },
            KeyCode::Char('q') | KeyCode::Esc => {
                if help {
                    self.exit_help();
                    KeyEffect::Continue
                } else {
                    KeyEffect::Quit
                }
            },
            KeyCode::Home => {
                if help {
                    self.help_scroll = 0;
                } else if log_moves {
                    self.log_scroll = 0;
                } else {
                    let count = self.filtered_torrents().len();
                    self.jump_to(0, count);
                }
                KeyEffect::Continue
            },
            KeyCode::End => {
                if help {
                    self.help_scroll = 1000;
                } else if log_moves {
                    self.log_scroll = if self.logs.len() > 0 { self.logs.len() - 1 } else { 0 };
                } else {
                    let count = self.filtered_torrents().len();
                    let last = if count > 0 { count - 1 } else { 0 };
                    self.jump_to(last, count);
                }
                KeyEffect::Continue
            },
            KeyCode::PageUp => {
                if help {
                    self.scroll_help(-10);
                } else if log_moves {
                    self.scroll_logs(-10);
                } else {
                    let count = self.filtered_torrents().len();
                    let target = if self.selected_index >= 10 { self.selected_index - 10 } else { 0 };
                    self.jump_to(target, count);
                }
                KeyEffect::Continue
            },
            KeyCode::PageDown => {
                if help {
                    self.scroll_help(10);
                } else if log_moves {
                    self.scroll_logs(10);
                } else {
                    let count = self.filtered_torrents().len();
                    self.jump_to(self.selected_index + 10, count);
                }
                KeyEffect::Continue
            },
            _ => KeyEffect::Continue,
        }
    }

    /// Handles a key press in the current mode.
    pub fn handle_key(&mut self, key: KeyPress) -> (r: KeyEffect)
        requires
            key_bounds(*old(self)),
        ensures
            old(self)@.mode == AppMode::Login ==> {
                &&& final(self)@ == login_key(old(self)@, key).0
                &&& effect_kind(r) == if login_key(old(self)@, key).1 { EffectKind::Quit } else { EffectKind::Continue }
            },
            old(self)@.mode == AppMode::Normal ==> {
                &&& effect_kind(r) == normal_key(old(self)@, key).1
                &&& !key_sorts(old(self)@, key) ==> final(self)@ == normal_key(old(self)@, key).0
                &&& key_sorts(old(self)@, key) ==> {
                    &&& final(self)@ == (AppStateView { torrents: final(self)@.torrents, ..normal_key(old(self)@, key).0 })
                    &&& stably_sorted(final(self)@.sort_config, old(self)@.torrents, final(self)@.torrents)
                }
                &&& r matches KeyEffect::RunScriptOnSelected(t) ==> t@ == shown(old(self)@)[old(self)@.selected_index as int]
                &&& r matches KeyEffect::RunScriptOnAll(ts) ==> torrent_views(ts@) == old(self)@.torrents
            },
    {
        if self.mode == AppMode::Login {
            if self.handle_login_key(key) {
                KeyEffect::Continue
            } else {
                KeyEffect::Quit
            }
        } else {
            self.handle_normal_key(key)
        }
    }

    /// A copy of every torrent.
    pub fn copy_torrents(&self) -> (r: Vec<Torrent>)
        ensures
            torrent_views(r@) == self@.torrents,
    {
        let mut out: Vec<Torrent> = Vec::new();
        let mut i: usize = 0;
        while i < self.torrents.len()
            invariant
                i <= self.torrents.len(),
                torrent_views(out@) == self@.torrents.take(i as int),
            decreases self.torrents.len() - i,
        {
            let ghost before = out@;
            out.push(self.torrents[i].duplicate());
            assert(torrent_views(out@) =~= torrent_views(before).push(self@.torrents[i as int]));
            assert(torrent_views(out@) =~= self@.torrents.take(i + 1));
            i = i + 1;
        }
        assert(self@.torrents.take(self.torrents.len() as int) =~= self@.torrents);
        out
    }
}

} // verus!
