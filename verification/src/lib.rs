//! Cordial's runtime layer: the logic that decides what a link, a log line or
//! a keystroke means, kept apart from the sockets, windows and files that
//! carry them.

use vstd::prelude::*;

pub mod text;
pub mod deeplink;
pub mod json;
pub mod bloxstrap_rpc;
pub mod game_log;
pub mod wayland;
pub mod client_settings;
pub mod cli;
pub mod devctl;

verus! {

/// The version the window title names.
pub const VERSION: &'static str = "0.1.0";

/// The exact title `window_title` produces for a backend name.
pub open spec fn spec_window_title(backend: Seq<char>) -> Seq<char> {
    "Cordial "@ + VERSION@ + " ("@ + backend + ")"@
}

/// Window title: name, version, and which graphics API is actually in use.
pub fn window_title(backend: &str) -> (title: String)
    ensures
        title@ == spec_window_title(backend@),
{
    let mut title = String::from_str("Cordial ");
    title.append(VERSION);
    title.append(" (");
    title.append(backend);
    title.append(")");
    title
}

} // verus!
