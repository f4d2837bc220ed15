//! Where the tool keeps its files, chosen from the environment's values:
//! each path comes back as its components, to be joined in order.
use vstd::prelude::*;
use crate::bindings::opt_view;
use crate::script::text_views;
use crate::text::owned;

verus! {

/// The components of the configuration directory: the override where one
/// is given; else `qb-och` under the XDG configuration home; else
/// `.config/qb-och` under the home directory; else `~/.config/qb-och` as
/// written.
pub open spec fn config_dir_parts(
    home_override: Option<Seq<char>>,
    xdg_config: Option<Seq<char>>,
    home: Option<Seq<char>>,
) -> Seq<Seq<char>> {
    match home_override {
        Some(o) => seq![o],
        None => match xdg_config {
            Some(x) => seq![x, "qb-och"@],
            None => match home {
                Some(h) => seq![h, ".config"@, "qb-och"@],
                None => seq!["~/.config/qb-och"@],
            },
        },
    }
}

/// The components of the execution log's path: `qb-och/execution.log`
/// under the XDG data home, else under `.local/share` in the home
/// directory, else under `~/.local/share` as written.
pub open spec fn log_path_parts(xdg_data: Option<Seq<char>>, home: Option<Seq<char>>) -> Seq<Seq<char>> {
    match xdg_data {
        Some(x) => seq![x, "qb-och"@, "execution.log"@],
        None => match home {
            Some(h) => seq![h, ".local"@, "share"@, "qb-och"@, "execution.log"@],
            None => seq!["~/.local/share"@, "qb-och"@, "execution.log"@],
        },
    }
}

/// The configuration directory for the values of `QBITTORRENT_OCH_HOME`,
/// `XDG_CONFIG_HOME` and the home directory (`None` where unset).
pub fn config_dir_of(home_override: Option<String>, xdg_config: Option<String>, home: Option<String>) -> (r: Vec<String>)
    ensures
        text_views(r@) == config_dir_parts(opt_view(home_override), opt_view(xdg_config), opt_view(home)),
{
    let mut r: Vec<String> = Vec::new();
    match home_override {
        Some(o) => {
            r.push(o);
        },
        None => match xdg_config {
            Some(x) => {
                r.push(x);
                r.push(owned("qb-och"));
            },
            None => match home {
                Some(h) => {
                    r.push(h);
                    r.push(owned(".config"));
                    r.push(owned("qb-och"));
                },
                None => {
                    r.push(owned("~/.config/qb-och"));
                },
            },
        },
    }
    assert(text_views(r@) =~= config_dir_parts(opt_view(home_override), opt_view(xdg_config), opt_view(home)));
    r
}

/// The execution log's path for the values of `XDG_DATA_HOME` and the home
/// directory (`None` where unset).
pub fn log_path_of(xdg_data: Option<String>, home: Option<String>) -> (r: Vec<String>)
    ensures
        text_views(r@) == log_path_parts(opt_view(xdg_data), opt_view(home)),
{
    let mut r: Vec<String> = Vec::new();
    match xdg_data {
        Some(x) => {
            r.push(x);
        },
        None => match home {
            Some(h) => {
                r.push(h);
                r.push(owned(".local"));
                r.push(owned("share"));
            },
            None => {
                r.push(owned("~/.local/share"));
            },
        },
    }
    r.push(owned("qb-och"));
    r.push(owned("execution.log"));
    assert(text_views(r@) =~= log_path_parts(opt_view(xdg_data), opt_view(home)));
    r
}

} // verus!
