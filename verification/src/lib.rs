//! Verified core of a qBittorrent on-completion handler: torrent state,
//! script-state tags, sorting and filtering, key handling and the text
//! rules behind host URLs and script arguments.

pub mod api;
pub mod bindings;
pub mod enums;
pub mod host;
pub mod models;
pub mod tags;
pub mod sort;
pub mod app_state;
pub mod sync;
pub mod keys;
pub mod script;
pub mod commands;
pub mod display;
pub mod panes;
pub mod text;
pub mod paths;
