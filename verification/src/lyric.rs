//! Lyric and song lookup against remote services: the answer data model
//! and per-service extraction logic.

pub mod migu;

use vstd::prelude::*;

verus! {

/// Errors of the lyric-lookup flow.  The cryptography, pattern and JSON
/// failures arise in the shell that performs the requests; the extraction
/// logic here reports a missing or malformed field as `NoneError`.
#[derive(Debug, Clone, Copy, PartialEq, Eq, Structural)]
pub enum Errors {
    OpenSSLError,
    RegexError,
    SerdeJsonError,
    ParseError,
    NoneError,
}

pub type NCMResult<T> = Result<T, Errors>;

/// One song's tags, as the lyric-lookup flow carries them.
#[derive(Debug, Clone)]
pub struct SongTag {
    pub artist: Option<String>,
    pub title: Option<String>,
    pub album: Option<String>,
    pub lang_ext: Option<String>,
    pub service_provider: Option<String>,
    pub song_id: Option<String>,
    pub lyric_id: Option<String>,
    pub url: Option<String>,
    pub pic_id: Option<String>,
    pub album_id: Option<String>,
}

/// Spec-level image of a [`SongTag`].
pub struct SongTagModel {
    pub artist: Option<Seq<char>>,
    pub title: Option<Seq<char>>,
    pub album: Option<Seq<char>>,
    pub lang_ext: Option<Seq<char>>,
    pub service_provider: Option<Seq<char>>,
    pub song_id: Option<Seq<char>>,
    pub lyric_id: Option<Seq<char>>,
    pub url: Option<Seq<char>>,
    pub pic_id: Option<Seq<char>>,
    pub album_id: Option<Seq<char>>,
}

pub open spec fn opt_view(o: Option<String>) -> Option<Seq<char>> {
    match o {
        Some(s) => Some(s@),
        None => None,
    }
}

impl View for SongTag {
    type V = SongTagModel;

    open spec fn view(&self) -> SongTagModel {
        SongTagModel {
            artist: opt_view(self.artist),
            title: opt_view(self.title),
            album: opt_view(self.album),
            lang_ext: opt_view(self.lang_ext),
            service_provider: opt_view(self.service_provider),
            song_id: opt_view(self.song_id),
            lyric_id: opt_view(self.lyric_id),
            url: opt_view(self.url),
            pic_id: opt_view(self.pic_id),
            album_id: opt_view(self.album_id),
        }
    }
}

} // verus!
