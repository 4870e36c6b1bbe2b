//! Plain state of the terminal interface: which layout is shown, which
//! configuration page is open, which terminal graphics protocol is
//! available, and small queries the interface makes of the player state.

use crate::playlist::current_track_model;
use crate::playlist::MediaType;
use crate::playlist::Playlist;
use vstd::prelude::*;

verus! {

/// The main view's layout.
#[derive(Debug, PartialEq, Eq, Clone, Copy, Structural)]
pub enum TermusicLayout {
    TreeView,
    DataBase,
    Podcast,
}

/// The configuration editor's page.
#[derive(Debug, PartialEq, Eq, Clone, Copy, Structural)]
pub enum ConfigEditorLayout {
    General,
    Color,
    Key1,
    Key2,
}

/// Which terminal graphics protocol cover art can use.
#[derive(Debug, PartialEq, Eq, Clone, Copy, Structural)]
pub enum ViuerSupported {
    Kitty,
    ITerm,
    Sixel,
    NotSupported,
}

/// Whether the playing track is a live radio stream.
pub fn is_radio(playlist: &Playlist) -> (r: bool)
    ensures
        r == (current_track_model(*playlist) matches Some(t) && t.media_type
            is LiveRadio),
{
    match playlist.current_track() {
        Some(track) => matches!(track.media_type, MediaType::LiveRadio),
        None => false,
    }
}

} // verus!
