//! Song-tag lookup: the data model for answers from remote song-tag
//! services, and the extraction logic for each service's answer format.

pub mod kugou;

use vstd::prelude::*;

verus! {

/// Which remote service a song tag came from.
#[derive(Debug, Clone, Copy, PartialEq, Eq, Structural)]
pub enum ServiceProvider {
    Kugou,
    Migu,
    Netease,
}

/// How a song's audio can be fetched.
#[derive(Debug, Clone, PartialEq, Eq, Structural)]
pub enum UrlTypes {
    /// A URL exists but must be fetched with a separate request.
    AvailableRequiresFetching,
    /// The song is protected and cannot be downloaded.
    Protected,
}

/// One song's tags, as a remote service reports them.
#[derive(Debug, Clone)]
pub struct SongTag {
    pub artist: Option<String>,
    pub title: Option<String>,
    pub album: Option<String>,
    pub lang_ext: Option<String>,
    pub service_provider: ServiceProvider,
    pub song_id: String,
    pub lyric_id: Option<String>,
    pub url: Option<UrlTypes>,
    pub pic_id: Option<String>,
    pub album_id: Option<String>,
}

/// Spec-level image of a [`SongTag`].
pub struct SongTagModel {
    pub artist: Option<Seq<char>>,
    pub title: Option<Seq<char>>,
    pub album: Option<Seq<char>>,
    pub lang_ext: Option<Seq<char>>,
    pub service_provider: ServiceProvider,
    pub song_id: Seq<char>,
    pub lyric_id: Option<Seq<char>>,
    pub url: Option<UrlTypes>,
    pub pic_id: Option<Seq<char>>,
    pub album_id: Option<Seq<char>>,
}

pub open spec fn opt_str_view(o: Option<String>) -> Option<Seq<char>> {
    match o {
        Some(s) => Some(s@),
        None => None,
    }
}

impl View for SongTag {
    type V = SongTagModel;

    open spec fn view(&self) -> SongTagModel {
        SongTagModel {
            artist: opt_str_view(self.artist),
            title: opt_str_view(self.title),
            album: opt_str_view(self.album),
            lang_ext: opt_str_view(self.lang_ext),
            service_provider: self.service_provider,
            song_id: self.song_id@,
            lyric_id: opt_str_view(self.lyric_id),
            url: self.url,
            pic_id: opt_str_view(self.pic_id),
            album_id: opt_str_view(self.album_id),
        }
    }
}

} // verus!
