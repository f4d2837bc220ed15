//! The small state enums of the interface and their cycling rules.
use vstd::prelude::*;
use crate::text::text_equals;
use vstd::view::View as _;

verus! {

/// The sub-pane shown in the torrent details area.
#[derive(Debug, Clone, Copy, PartialEq, Eq, Structural)]
pub enum DetailPane {
    Info,
    Paths,
    Transfer,
    Files,
}

impl DetailPane {
    /// The pane after this one.
    pub open spec fn following(self) -> DetailPane {
        match self {
            DetailPane::Info => DetailPane::Paths,
            DetailPane::Paths => DetailPane::Transfer,
            DetailPane::Transfer => DetailPane::Files,
            DetailPane::Files => DetailPane::Info,
        }
    }

    /// The pane before this one.
    pub open spec fn preceding(self) -> DetailPane {
        match self {
            DetailPane::Info => DetailPane::Files,
            DetailPane::Paths => DetailPane::Info,
            DetailPane::Transfer => DetailPane::Paths,
            DetailPane::Files => DetailPane::Transfer,
        }
    }

    /// The pane to the right, wrapping around.
    pub fn next(self) -> (r: Self)
        ensures
            r == self.following(),
    {
        match self {
            DetailPane::Info => DetailPane::Paths,
            DetailPane::Paths => DetailPane::Transfer,
            DetailPane::Transfer => DetailPane::Files,
            DetailPane::Files => DetailPane::Info,
        }
    }

    /// The pane to the left, wrapping around.
    pub fn prev(self) -> (r: Self)
        ensures
            r == self.preceding(),
    {
        match self {
            DetailPane::Info => DetailPane::Files,
            DetailPane::Paths => DetailPane::Info,
            DetailPane::Transfer => DetailPane::Paths,
            DetailPane::Files => DetailPane::Transfer,
        }
    }
}

/// `prev` undoes `next` and `next` undoes `prev`; four steps come back round.
pub proof fn law_detail_pane_cycle(p: DetailPane)
    ensures
        p.following().preceding() == p,
        p.preceding().following() == p,
        p.following().following().following().following() == p,
{
}

/// The main view of the interface.
#[derive(Debug, Clone, Copy, PartialEq, Eq, Structural)]
pub enum View {
    TorrentList,
    LogView,
    VerticalSplit,
    HorizontalSplit,
    Help,
}

/// The name a view is saved under; `Help` is saved as the torrent list.
pub open spec fn view_name(v: View) -> Seq<char> {
    match v {
        View::TorrentList => "torrent_list"@,
        View::LogView => "log_view"@,
        View::VerticalSplit => "vertical_split"@,
        View::HorizontalSplit => "horizontal_split"@,
        View::Help => "torrent_list"@,
    }
}

/// The view a saved name stands for; unknown names give the torrent list.
pub open spec fn view_from_name(s: Seq<char>) -> View {
    if s == "log_view"@ {
        View::LogView
    } else if s == "vertical_split"@ {
        View::VerticalSplit
    } else if s == "horizontal_split"@ {
        View::HorizontalSplit
    } else {
        View::TorrentList
    }
}

impl View {
    /// The view after this one in the cycle.
    pub open spec fn following(self) -> View {
        match self {
            View::TorrentList => View::VerticalSplit,
            View::LogView => View::HorizontalSplit,
            View::VerticalSplit => View::LogView,
            View::HorizontalSplit => View::TorrentList,
            View::Help => View::Help,
        }
    }

    /// The view before this one in the cycle.
    pub open spec fn preceding(self) -> View {
        match self {
            View::TorrentList => View::HorizontalSplit,
            View::LogView => View::VerticalSplit,
            View::VerticalSplit => View::TorrentList,
            View::HorizontalSplit => View::LogView,
            View::Help => View::Help,
        }
    }

    /// The next view in the cycle list, vertical split, log, horizontal split.
    pub fn next(self) -> (r: Self)
        ensures
            r == self.following(),
    {
        match self {
            View::TorrentList => View::VerticalSplit,
            View::LogView => View::HorizontalSplit,
            View::VerticalSplit => View::LogView,
            View::HorizontalSplit => View::TorrentList,
            View::Help => View::Help,
        }
    }

    /// The previous view in the cycle.
    pub fn prev(self) -> (r: Self)
        ensures
            r == self.preceding(),
    {
        match self {
            View::TorrentList => View::HorizontalSplit,
            View::LogView => View::VerticalSplit,
            View::VerticalSplit => View::TorrentList,
            View::HorizontalSplit => View::LogView,
            View::Help => View::Help,
        }
    }

    /// The name the view is saved under.
    pub fn to_str(self) -> (r: &'static str)
        ensures
            r@ == view_name(self),
    {
        match self {
            View::TorrentList => "torrent_list",
            View::LogView => "log_view",
            View::VerticalSplit => "vertical_split",
            View::HorizontalSplit => "horizontal_split",
            View::Help => "torrent_list",
        }
    }

    /// The view a saved name stands for.
    pub fn from_str(s: &str) -> (r: Self)
        ensures
            r == view_from_name(s@),
    {
        if text_equals(s, "log_view") {
            View::LogView
        } else if text_equals(s, "vertical_split") {
            View::VerticalSplit
        } else if text_equals(s, "horizontal_split") {
            View::HorizontalSplit
        } else {
            View::TorrentList
        }
    }
}

/// Cycling views: `prev` undoes `next` and the reverse; four steps come back.
/// `Help` is left where it is.
pub proof fn law_view_cycle(v: View)
    ensures
        v.following().preceding() == v,
        v.preceding().following() == v,
        v.following().following().following().following() == v,
{
}

/// A saved view name reads back as the same view, except `Help`, which
/// reads back as the torrent list.
pub proof fn law_view_name_round_trip(v: View)
    ensures
        v != View::Help ==> view_from_name(view_name(v)) == v,
        view_from_name(view_name(View::Help)) == View::TorrentList,
{
    reveal_strlit("torrent_list");
    reveal_strlit("log_view");
    reveal_strlit("vertical_split");
    reveal_strlit("horizontal_split");
    assert("torrent_list"@.len() != "log_view"@.len());
    assert("torrent_list"@.len() != "vertical_split"@.len());
    assert("torrent_list"@.len() != "horizontal_split"@.len());
    assert("log_view"@.len() != "vertical_split"@.len());
    assert("log_view"@.len() != "horizontal_split"@.len());
    assert("vertical_split"@.len() != "horizontal_split"@.len());
}

/// Whether the interface asks for credentials or shows torrents.
#[derive(Debug, Clone, Copy, PartialEq, Eq, Structural)]
pub enum AppMode {
    Login,
    Normal,
}

/// The field of the login form that has the focus.
#[derive(Debug, Clone, Copy, PartialEq, Eq, Structural)]
pub enum LoginField {
    Host,
    Username,
    Password,
}

impl LoginField {
    /// The field after this one.
    pub open spec fn following(self) -> LoginField {
        match self {
            LoginField::Host => LoginField::Username,
            LoginField::Username => LoginField::Password,
            LoginField::Password => LoginField::Host,
        }
    }

    /// The field before this one.
    pub open spec fn preceding(self) -> LoginField {
        match self {
            LoginField::Host => LoginField::Password,
            LoginField::Username => LoginField::Host,
            LoginField::Password => LoginField::Username,
        }
    }
}

/// Moving the login focus back undoes moving it forward; three steps come back.
pub proof fn law_login_field_cycle(f: LoginField)
    ensures
        f.following().preceding() == f,
        f.preceding().following() == f,
        f.following().following().following() == f,
{
}

} // verus!
