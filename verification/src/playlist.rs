//! The playlist: an ordered list of tracks with a current position, a
//! play status, a loop mode and a history of previously played indices.
//!
//! All reading of the filesystem (whether a path exists, a track's tags,
//! the playlist log itself) happens outside; these functions take what was
//! read as plain values and make every decision over it.

use crate::utils::all_dec_digits;
use crate::utils::digits_value;
use crate::utils::eq_str;
use crate::utils::extension;
use crate::utils::extension_of;
use crate::utils::filetype_supported;
use crate::utils::filetype_supported_spec;
use crate::utils::parse_usize;
use crate::utils::parse_usize_spec;
use crate::utils::random_below;
use crate::utils::usize_to_string;
use rand::seq::SliceRandom;
use vstd::prelude::*;

verus! {

/// The running status of the playlist.
#[derive(Clone, Copy, Default, PartialEq, Eq, Structural, Debug)]
pub enum Status {
    #[default]
    Stopped,
    Running,
    Paused,
}

impl Status {
    pub open spec fn as_u32_spec(self) -> u32 {
        match self {
            Status::Stopped => 0,
            Status::Running => 1,
            Status::Paused => 2,
        }
    }

    /// Encode the status as a number, for transport to other processes.
    pub fn as_u32(&self) -> (r: u32)
        ensures
            r == self.as_u32_spec(),
    {
        match self {
            Status::Stopped => 0,
            Status::Running => 1,
            Status::Paused => 2,
        }
    }

    pub open spec fn from_u32_spec(status: u32) -> Status {
        if status == 1 {
            Status::Running
        } else if status == 2 {
            Status::Paused
        } else {
            Status::Stopped
        }
    }

    /// Decode a status from its number; unknown numbers fall back to
    /// `Stopped`.
    pub fn from_u32(status: u32) -> (r: Self)
        ensures
            r == Status::from_u32_spec(status),
    {
        match status {
            1 => Status::Running,
            2 => Status::Paused,
            _ => Status::Stopped,
        }
    }

    /// The numeric encoding round-trips: decoding what `as_u32` produced
    /// gives back the same status.
    pub proof fn lemma_u32_roundtrip(s: Status)
        ensures
            Status::from_u32_spec(s.as_u32_spec()) == s,
    {
    }

    /// The status as display text.
    pub fn as_text(&self) -> (r: String)
        ensures
            r@ == (match self {
                Status::Running => "Running"@,
                Status::Stopped => "Stopped"@,
                Status::Paused => "Paused"@,
            }),
    {
        match self {
            Status::Running => String::from_str("Running"),
            Status::Stopped => String::from_str("Stopped"),
            Status::Paused => String::from_str("Paused"),
        }
    }
}

/// What kind of media a track is.
#[derive(Clone, Copy, PartialEq, Eq, Structural, Debug)]
pub enum MediaType {
    Music,
    Podcast,
    LiveRadio,
}

/// The loop-/play-mode for the playlist.
#[derive(Clone, Copy, PartialEq, Eq, Structural, Debug)]
pub enum LoopMode {
    /// Repeat the current track.
    Single,
    /// Advance through the playlist, wrapping at its end.
    Playlist,
    /// Jump to a random other track.
    Random,
}

/// What the playlist reads of a podcast episode.
#[derive(Debug, Clone)]
pub struct Episode {
    /// The episode's remote URL.
    pub url: String,
    /// The path of a finished local download, if one exists.
    pub local_file: Option<String>,
}

/// Spec-level image of an [`Episode`].
pub struct EpisodeModel {
    pub url: Seq<char>,
    pub local_file: Option<Seq<char>>,
}

impl View for Episode {
    type V = EpisodeModel;

    open spec fn view(&self) -> EpisodeModel {
        EpisodeModel {
            url: self.url@,
            local_file: match self.local_file {
                Some(f) => Some(f@),
                None => None,
            },
        }
    }
}

/// What the playlist reads of a track.
#[derive(Debug, Clone)]
pub struct Track {
    pub media_type: MediaType,
    /// The track's file path or URL.
    pub file: Option<String>,
    /// For podcasts: the path of a finished local download, if any.
    pub podcast_localfile: Option<String>,
}

/// Spec-level image of a [`Track`].
pub struct TrackModel {
    pub media_type: MediaType,
    pub file: Option<Seq<char>>,
    pub podcast_localfile: Option<Seq<char>>,
}

impl View for Track {
    type V = TrackModel;

    open spec fn view(&self) -> TrackModel {
        TrackModel {
            media_type: self.media_type,
            file: match self.file {
                Some(f) => Some(f@),
                None => None,
            },
            podcast_localfile: match self.podcast_localfile {
                Some(f) => Some(f@),
                None => None,
            },
        }
    }
}

/// The track a live-radio URL becomes.
pub open spec fn radio_track_model(url: Seq<char>) -> TrackModel {
    TrackModel { media_type: MediaType::LiveRadio, file: Some(url), podcast_localfile: None }
}

/// The track a podcast episode becomes.
pub open spec fn episode_track_model(ep: EpisodeModel) -> TrackModel {
    TrackModel {
        media_type: MediaType::Podcast,
        file: Some(ep.url),
        podcast_localfile: ep.local_file,
    }
}

impl Track {
    /// A track for a live-radio stream at `url`.
    pub fn new_radio(url: &str) -> (r: Track)
        ensures
            r@ == radio_track_model(url@),
    {
        Track {
            media_type: MediaType::LiveRadio,
            file: Some(String::from_str(url)),
            podcast_localfile: None,
        }
    }

    /// A track for a podcast episode.
    pub fn from_episode(ep: &Episode) -> (r: Track)
        ensures
            r@ == episode_track_model(ep@),
    {
        Track {
            media_type: MediaType::Podcast,
            file: Some(ep.url.clone()),
            podcast_localfile: match &ep.local_file {
                Some(f) => Some(f.clone()),
                None => None,
            },
        }
    }

    /// An owned copy with the same contents.
    pub fn duplicate(&self) -> (r: Track)
        ensures
            r@ == self@,
    {
        Track {
            media_type: self.media_type,
            file: match &self.file {
                Some(f) => Some(f.clone()),
                None => None,
            },
            podcast_localfile: match &self.podcast_localfile {
                Some(f) => Some(f.clone()),
                None => None,
            },
        }
    }

    /// The track's file path or URL.
    pub fn file(&self) -> (r: Option<&String>)
        ensures
            (match r {
                Some(f) => self@.file == Some(f@),
                None => self@.file is None,
            }),
    {
        self.file.as_ref()
    }
}

/// Whether a string begins with `http`, the mark of a remote URL.
pub open spec fn starts_http(s: Seq<char>) -> bool {
    s.len() >= 4 && s.take(4) == "http"@
}

pub fn str_starts_http(s: &str) -> (r: bool)
    ensures
        r == starts_http(s@),
{
    let n: usize = s.unicode_len();
    if n < 4 {
        return false;
    }
    let prefix: &str = s.substring_char(0, 4);
    proof {
        assert(prefix@ =~= s@.take(4));
    }
    eq_str(prefix, "http")
}

/// Error for when [`Playlist::add_track`] fails.
#[derive(Debug)]
pub enum PlaylistAddError {
    /// The file's type is not one the backend can play.  Holds the
    /// extension, if the path has one, and the path.
    UnsupportedFileType(Option<String>, String),
    /// The path does not exist on disk.
    PathDoesNotExist(String),
    /// Reading the track's metadata failed.  Holds the reported error
    /// text and the path.
    ReadError(String, String),
}

/// Error for when [`Playlist::add_playlist`] fails: every single failure,
/// in order.
#[derive(Debug, Default)]
pub struct PlaylistAddErrorVec(pub Vec<PlaylistAddError>);

impl PlaylistAddErrorVec {
    pub fn push(&mut self, err: PlaylistAddError)
        ensures
            final(self).0@ == old(self).0@.push(err),
    {
        self.0.push(err);
    }

    pub fn is_empty(&self) -> (r: bool)
        ensures
            r == (self.0@.len() == 0),
    {
        self.0.len() == 0
    }
}

/// What was found on disk for a path that is to be added: whether it
/// exists, and the outcome of reading its track metadata (an error text
/// on failure).
#[derive(Debug)]
pub struct FileProbe {
    pub exists: bool,
    pub read: Result<Track, String>,
}

/// Whether adding `track` fails, given what the probe found.  A remote
/// URL always succeeds; a local path must have a supported file type,
/// exist, and read cleanly.
pub open spec fn add_fails(track: Seq<char>, probe: FileProbe) -> bool {
    if starts_http(track) {
        false
    } else if !filetype_supported_spec(track) {
        true
    } else if !probe.exists {
        true
    } else {
        probe.read is Err
    }
}

/// The track a successful add pushes.
pub open spec fn added_track_model(track: Seq<char>, probe: FileProbe) -> TrackModel {
    if starts_http(track) {
        radio_track_model(track)
    } else {
        (match probe.read {
            Ok(t) => t@,
            Err(_) => radio_track_model(track),  // unreachable when the add succeeds
        })
    }
}

/// Which error a failing add reports, and with which contents.
pub open spec fn add_error_rel(track: Seq<char>, probe: FileProbe, e: PlaylistAddError) -> bool {
    if starts_http(track) {
        false
    } else if !filetype_supported_spec(track) {
        match e {
            PlaylistAddError::UnsupportedFileType(ext, p) => {
                &&& p@ == track
                &&& (match extension_of(track) {
                    Some(x) => ext matches Some(xs) && xs@ == x,
                    None => ext is None,
                })
            },
            _ => false,
        }
    } else if !probe.exists {
        e matches PlaylistAddError::PathDoesNotExist(p) && p@ == track
    } else {
        match probe.read {
            Ok(_) => false,
            Err(msg) => e matches PlaylistAddError::ReadError(m, p) && m@ == msg@ && p@ == track,
        }
    }
}

/// The playlist.
#[derive(Debug)]
pub struct Playlist {
    /// All tracks in the playlist.
    pub tracks: Vec<Track>,
    /// Index into `tracks` of the current playing track.
    pub current_track_index: usize,
    /// Index into `tracks` for the next track to play after the current.
    pub next_track_index: Option<usize>,
    /// The currently playing track.  Does not need to be in `tracks`.
    pub current_track: Option<Track>,
    /// The current playing running status of the playlist.
    pub status: Status,
    /// The loop-/play-mode for the playlist.
    pub loop_mode: LoopMode,
    /// Indices into `tracks` that have previously been played (for
    /// `previous`).
    pub played_index: Vec<usize>,
    /// Whether the playlist should advance the current/next values on the
    /// next `proceed`.
    pub need_proceed_to_next: bool,
}

/// The index the playlist advances to under its loop mode, before any
/// randomness: under `Playlist` mode the following one, wrapping to the
/// start past the end.
pub open spec fn next_index_wrap_spec(p: Playlist) -> int {
    if p.current_track_index + 1 >= p.tracks@.len() {
        0
    } else {
        p.current_track_index + 1
    }
}

/// What a random pick must satisfy: in a playlist of at most one track it
/// is the start; otherwise it is a valid index other than the current
/// one.
pub open spec fn random_index_ok(p: Playlist, idx: int) -> bool {
    if p.tracks@.len() <= 1 {
        idx == 0
    } else {
        0 <= idx < p.tracks@.len() && idx != p.current_track_index
    }
}

/// What the loop mode allows as the next track index.
pub open spec fn next_index_ok(p: Playlist, idx: int) -> bool {
    match p.loop_mode {
        LoopMode::Single => idx == p.current_track_index,
        LoopMode::Playlist => idx == next_index_wrap_spec(p),
        LoopMode::Random => random_index_ok(p, idx),
    }
}

/// The relation `next` establishes: the old current index joins the
/// played history, and the current index moves to the remembered
/// next-track index when one was set, else to what the loop mode allows.
pub open spec fn next_rel(pre: Playlist, post: Playlist) -> bool {
    &&& post.played_index@ == pre.played_index@.push(pre.current_track_index)
    &&& post.tracks == pre.tracks
    &&& post.next_track_index == pre.next_track_index
    &&& post.current_track == pre.current_track
    &&& post.status == pre.status
    &&& post.loop_mode == pre.loop_mode
    &&& post.need_proceed_to_next == pre.need_proceed_to_next
    &&& (match pre.next_track_index {
        Some(i) => post.current_track_index == i,
        None => next_index_ok(pre, post.current_track_index as int),
    })
}

/// The current track: the remembered currently playing one if set, else
/// the track under the current index, if it is in range.
pub open spec fn current_track_model(p: Playlist) -> Option<TrackModel> {
    match p.current_track {
        Some(t) => Some(t@),
        None => if p.current_track_index < p.tracks@.len() {
            Some(p.tracks@[p.current_track_index as int]@)
        } else {
            None
        },
    }
}

/// The path or URL the current track plays from: for podcasts the local
/// download when it exists on disk, else the remote file.
pub open spec fn get_current_track_spec(p: Playlist, podcast_localfile_exists: bool) -> Option<
    Seq<char>,
> {
    match current_track_model(p) {
        None => None,
        Some(t) => match t.media_type {
            MediaType::Music | MediaType::LiveRadio => t.file,
            MediaType::Podcast => if t.podcast_localfile is Some && podcast_localfile_exists {
                t.podcast_localfile
            } else {
                t.file
            },
        },
    }
}

/// The first index whose track plays from `f`.
pub open spec fn find_file_index(tracks: Seq<Track>, f: Seq<char>, i: int) -> Option<int>
    decreases tracks.len() - i,
{
    if i < 0 || i >= tracks.len() {
        None
    } else if tracks[i]@.file == Some(f) {
        Some(i)
    } else {
        find_file_index(tracks, f, i + 1)
    }
}

/// The first episode whose URL is `url`.
pub open spec fn find_episode_spec(eps: Seq<Episode>, url: Seq<char>, i: int) -> Option<int>
    decreases eps.len() - i,
{
    if i < 0 || i >= eps.len() {
        None
    } else if eps[i]@.url == url {
        Some(i)
    } else {
        find_episode_spec(eps, url, i + 1)
    }
}

/// The tracks the playlist log's lines (from line 1 on) load into: a line
/// that names a known podcast episode's URL loads that episode; any other
/// remote URL loads a radio track; a local path loads the track read from
/// it, or nothing when reading failed.
pub open spec fn loaded_tracks_spec(
    lines: Seq<Seq<char>>,
    eps: Seq<Episode>,
    reads: Seq<Option<Track>>,
    i: int,
) -> Seq<TrackModel>
    decreases lines.len() - i,
{
    if i < 1 || i >= lines.len() {
        Seq::empty()
    } else {
        let rest = loaded_tracks_spec(lines, eps, reads, i + 1);
        let line = lines[i];
        if starts_http(line) {
            match find_episode_spec(eps, line, 0) {
                Some(k) => seq![episode_track_model(eps[k]@)] + rest,
                None => seq![radio_track_model(line)] + rest,
            }
        } else {
            match reads[i] {
                Some(t) => seq![t@] + rest,
                None => rest,
            }
        }
    }
}

/// The remembered position the log's first line carries: its decimal
/// value, or the start when it parses as none.
pub open spec fn loaded_index_spec(lines: Seq<Seq<char>>) -> int {
    if lines.len() == 0 {
        0
    } else {
        match parse_usize_spec(crate::utils::trim_spec(lines[0])) {
            Some(v) => v,
            None => 0,
        }
    }
}

/// The file lines the playlist log holds for the tracks: one line per
/// track that has a file.
pub open spec fn track_file_lines(tracks: Seq<Track>, i: int) -> Seq<Seq<char>>
    decreases tracks.len() - i,
{
    if i < 0 || i >= tracks.len() {
        Seq::empty()
    } else {
        let rest = track_file_lines(tracks, i + 1);
        match tracks[i]@.file {
            Some(f) => seq![f] + rest,
            None => rest,
        }
    }
}

impl Playlist {
    /// A playlist over the given tracks, stopped, with an empty history.
    /// The loop mode comes from configuration and the position from the
    /// playlist log, both read by the caller.
    pub fn new(loop_mode: LoopMode, current_track_index: usize, tracks: Vec<Track>) -> (r: Self)
        ensures
            r.tracks == tracks,
            r.current_track_index == current_track_index,
            r.next_track_index is None,
            r.current_track is None,
            r.status == Status::Stopped,
            r.loop_mode == loop_mode,
            r.played_index@.len() == 0,
            !r.need_proceed_to_next,
    {
        Playlist {
            tracks,
            status: Status::Stopped,
            loop_mode,
            current_track_index,
            current_track: None,
            played_index: Vec::new(),
            next_track_index: None,
            need_proceed_to_next: false,
        }
    }

    /// Interpret the playlist log, already split into lines: the first
    /// line remembers the playing position, every further line one track.
    /// `episodes` holds the known podcast episodes, and `reads[i]` the
    /// outcome of reading line `i` as a local track (unused for URL
    /// lines).
    pub fn load(lines: &Vec<String>, episodes: &Vec<Episode>, reads: &Vec<Option<Track>>) -> (r: (
        usize,
        Vec<Track>,
    ))
        requires
            reads@.len() == lines@.len(),
        ensures
            r.0 == loaded_index_spec(lines.deep_view()),
            r.1@.map_values(|t: Track| t@) == loaded_tracks_spec(
                lines.deep_view(),
                episodes@,
                reads@,
                1,
            ),
    {
        let ghost lv = lines.deep_view();
        if lines.len() == 0 {
            let out: Vec<Track> = Vec::new();
            proof {
                assert(out@.map_values(|t: Track| t@) =~= loaded_tracks_spec(lv, episodes@, reads@, 1));
            }
            return (0, out);
        }
        let first: &str = lines[0].as_str();
        let trimmed: String = crate::utils::trim(first);
        let current_track_index: usize = match parse_usize(trimmed.as_str()) {
            Some(v) => v,
            None => 0,
        };
        let mut items: Vec<Track> = Vec::new();
        let n: usize = lines.len();
        let mut i: usize = n;
        proof {
            assert(items@.map_values(|t: Track| t@) =~= loaded_tracks_spec(lv, episodes@, reads@, n as int));
        }
        // build back to front so each step prepends exactly one spec entry
        while i > 1
            invariant
                1 <= i <= n,
                n == lines@.len(),
                n == reads@.len(),
                lv == lines.deep_view(),
                lv.len() == n,
                items@.map_values(|t: Track| t@) == loaded_tracks_spec(lv, episodes@, reads@, i as int),
            decreases i,
        {
            i = i - 1;
            let line: &str = lines[i].as_str();
            proof {
                assert(lv[i as int] == lines@[i as int]@);
            }
            let ghost items0 = items@;
            if str_starts_http(line) {
                match find_episode(episodes, line) {
                    Some(k) => {
                        let t = Track::from_episode(&episodes[k]);
                        items.insert(0, t);
                    },
                    None => {
                        let t = Track::new_radio(line);
                        items.insert(0, t);
                    },
                }
            } else {
                match &reads[i] {
                    Some(t) => {
                        let t2 = t.duplicate();
                        items.insert(0, t2);
                    },
                    None => {},
                }
            }
            proof {
                assert(items@.map_values(|t: Track| t@) =~= loaded_tracks_spec(
                    lv,
                    episodes@,
                    reads@,
                    i as int,
                ));
            }
        }
        (current_track_index, items)
    }

    /// Replace the tracks and position with what the playlist log now
    /// holds.
    pub fn reload_tracks(
        &mut self,
        lines: &Vec<String>,
        episodes: &Vec<Episode>,
        reads: &Vec<Option<Track>>,
    )
        requires
            reads@.len() == lines@.len(),
        ensures
            final(self).current_track_index == loaded_index_spec(lines.deep_view()),
            final(self).tracks@.map_values(|t: Track| t@) == loaded_tracks_spec(
                lines.deep_view(),
                episodes@,
                reads@,
                1,
            ),
            final(self).next_track_index == old(self).next_track_index,
            final(self).current_track == old(self).current_track,
            final(self).status == old(self).status,
            final(self).loop_mode == old(self).loop_mode,
            final(self).played_index == old(self).played_index,
            final(self).need_proceed_to_next == old(self).need_proceed_to_next,
    {
        let (current_track_index, tracks) = Self::load(lines, episodes, reads);
        self.tracks = tracks;
        self.current_track_index = current_track_index;
    }

    /// The lines the playlist log must hold: nothing for an empty
    /// playlist; else the position in decimal, then one line per track
    /// that has a file.
    pub fn save_lines(&self) -> (r: Vec<String>)
        ensures
            self.tracks@.len() == 0 ==> r@.len() == 0,
            self.tracks@.len() > 0 ==> {
                &&& r@.len() >= 1
                &&& all_dec_digits(r@[0]@)
                &&& digits_value(r@[0]@) == self.current_track_index
                &&& r@.map_values(|s: String| s@).skip(1) == track_file_lines(self.tracks@, 0)
            },
    {
        let mut out: Vec<String> = Vec::new();
        if self.tracks.len() == 0 {
            return out;
        }
        out.push(usize_to_string(self.current_track_index));
        let n: usize = self.tracks.len();
        let mut i: usize = n;
        let mut tail: Vec<String> = Vec::new();
        proof {
            assert(tail@.map_values(|s: String| s@) =~= track_file_lines(self.tracks@, n as int));
        }
        while i > 0
            invariant
                i <= n,
                n == self.tracks@.len(),
                tail@.map_values(|s: String| s@) == track_file_lines(self.tracks@, i as int),
            decreases i,
        {
            i = i - 1;
            match self.tracks[i].file() {
                Some(f) => {
                    tail.insert(0, f.clone());
                },
                None => {},
            }
            proof {
                assert(tail@.map_values(|s: String| s@) =~= track_file_lines(
                    self.tracks@,
                    i as int,
                ));
            }
        }
        let mut j: usize = 0;
        let m: usize = tail.len();
        while j < m
            invariant
                j <= m,
                m == tail@.len(),
                out@.len() == 1 + j,
                all_dec_digits(out@[0]@),
                digits_value(out@[0]@) == self.current_track_index,
                forall|k: int| 0 <= k < j ==> out@[k + 1]@ == tail@[k]@,
            decreases m - j,
        {
            out.push(tail[j].clone());
            j = j + 1;
        }
        proof {
            assert(out@.map_values(|s: String| s@).skip(1) =~= tail@.map_values(|s: String| s@));
        }
        out
    }

    /// Advance the playlist to the next track — but the first call after
    /// a reset only arms the advance, so the track that just started is
    /// not skipped.
    pub fn proceed(&mut self)
        requires
            old(self).current_track_index < usize::MAX,
        ensures
            old(self).need_proceed_to_next ==> next_rel(*old(self), *final(self)),
            !old(self).need_proceed_to_next ==> *final(self) == (Playlist {
                need_proceed_to_next: true,
                ..*old(self)
            }),
    {
        if self.need_proceed_to_next {
            self.next();
        } else {
            self.need_proceed_to_next = true;
        }
    }

    /// Disarm the advance: the next `proceed` will only arm it again.
    pub fn proceed_false(&mut self)
        ensures
            *final(self) == (Playlist { need_proceed_to_next: false, ..*old(self) }),
    {
        self.need_proceed_to_next = false;
    }

    /// Change to the next track: remember the old index in the history
    /// and move to the remembered next index, or to what the loop mode
    /// dictates.  The remembered next index is deliberately kept, so the
    /// caller can still ask whether one had been set.
    pub fn next(&mut self)
        requires
            old(self).current_track_index < usize::MAX,
        ensures
            next_rel(*old(self), *final(self)),
    {
        self.played_index.push(self.current_track_index);
        match self.next_track_index {
            Some(index) => {
                self.current_track_index = index;
            },
            None => {
                self.current_track_index = self.get_next_track_index();
            },
        }
    }

    /// The next track index under the loop mode.
    fn get_next_track_index(&self) -> (r: usize)
        requires
            self.current_track_index < usize::MAX,
        ensures
            next_index_ok(*self, r as int),
    {
        match self.loop_mode {
            LoopMode::Single => self.current_track_index,
            LoopMode::Playlist => {
                let next: usize = self.current_track_index + 1;
                if next >= self.tracks.len() {
                    0
                } else {
                    next
                }
            },
            LoopMode::Random => self.get_random_index(),
        }
    }

    /// A random index other than the current one (for playlists of more
    /// than one track).
    fn get_random_index(&self) -> (r: usize)
        ensures
            random_index_ok(*self, r as int),
    {
        let n: usize = self.tracks.len();
        if n <= 1 {
            return 0;
        }
        let mut tries: usize = 0;
        while tries < 16
            invariant
                n == self.tracks@.len(),
                n > 1,
            decreases 16 - tries,
        {
            let drawn: usize = random_below(n);
            if drawn != self.current_track_index {
                return drawn;
            }
            tries = tries + 1;
        }
        // an extraordinarily unlucky draw: fall back to a neighbouring index
        if self.current_track_index >= n {
            0
        } else if self.current_track_index + 1 < n {
            self.current_track_index + 1
        } else {
            0
        }
    }

    /// Change to the previously played track, taken from the history if
    /// there is one, else following the loop mode backwards.
    pub fn previous(&mut self)
        requires
            (old(self).played_index@.len() == 0 && old(self).loop_mode is Playlist && old(
                self,
            ).current_track_index == 0) ==> old(self).tracks@.len() > 0,
        ensures
            final(self).tracks == old(self).tracks,
            final(self).next_track_index == old(self).next_track_index,
            final(self).current_track == old(self).current_track,
            final(self).status == old(self).status,
            final(self).loop_mode == old(self).loop_mode,
            final(self).need_proceed_to_next == old(self).need_proceed_to_next,
            (if old(self).played_index@.len() > 0 {
                &&& final(self).played_index@ == old(self).played_index@.drop_last()
                &&& final(self).current_track_index == old(self).played_index@.last()
            } else {
                &&& final(self).played_index == old(self).played_index
                &&& (match old(self).loop_mode {
                    LoopMode::Single => final(self).current_track_index == old(
                        self,
                    ).current_track_index,
                    LoopMode::Playlist => final(self).current_track_index as int == (if old(
                        self,
                    ).current_track_index == 0 {
                        old(self).tracks@.len() - 1
                    } else {
                        old(self).current_track_index - 1
                    }),
                    LoopMode::Random => random_index_ok(
                        *old(self),
                        final(self).current_track_index as int,
                    ),
                })
            }),
    {
        if self.played_index.len() > 0 {
            match self.played_index.pop() {
                Some(index) => {
                    self.current_track_index = index;
                    return ;
                },
                None => {},
            }
        }
        match self.loop_mode {
            LoopMode::Single => {},
            LoopMode::Playlist => {
                if self.current_track_index == 0 {
                    self.current_track_index = self.tracks.len() - 1;
                } else {
                    self.current_track_index = self.current_track_index - 1;
                }
            },
            LoopMode::Random => {
                self.current_track_index = self.get_random_index();
            },
        }
    }

    pub fn len(&self) -> (r: usize)
        ensures
            r == self.tracks@.len(),
    {
        self.tracks.len()
    }

    pub fn is_empty(&self) -> (r: bool)
        ensures
            r == (self.tracks@.len() == 0),
    {
        self.tracks.len() == 0
    }

    /// Swap the track at `index` with the one below (one further), if
    /// there is one, keeping the current index on the same track when it
    /// was one of the two.
    pub fn swap_down(&mut self, index: usize)
        requires
            old(self).current_track_index < usize::MAX,
        ensures
            final(self).next_track_index == old(self).next_track_index,
            final(self).current_track == old(self).current_track,
            final(self).status == old(self).status,
            final(self).loop_mode == old(self).loop_mode,
            final(self).played_index == old(self).played_index,
            final(self).need_proceed_to_next == old(self).need_proceed_to_next,
            (if index + 1 < old(self).tracks@.len() {
                &&& final(self).tracks@ == old(self).tracks@.update(
                    index as int,
                    old(self).tracks@[index + 1],
                ).update(index + 1, old(self).tracks@[index as int])
                &&& final(self).current_track_index == (if index == old(self).current_track_index {
                    old(self).current_track_index + 1
                } else if index + 1 == old(self).current_track_index {
                    old(self).current_track_index - 1
                } else {
                    old(self).current_track_index as int
                })
            } else {
                &&& final(self).tracks == old(self).tracks
                &&& final(self).current_track_index == old(self).current_track_index
            }),
    {
        if index < self.tracks.len() && self.tracks.len() - index > 1 {
            swap_adjacent(&mut self.tracks, index);
            if index == self.current_track_index {
                self.current_track_index = self.current_track_index + 1;
            } else if index + 1 == self.current_track_index {
                self.current_track_index = self.current_track_index - 1;
            }
        }
    }

    /// Swap the track at `index` with the one above (one nearer the
    /// start), if there is one, keeping the current index on the same
    /// track when it was one of the two.
    pub fn swap_up(&mut self, index: usize)
        requires
            index < old(self).tracks@.len(),
            old(self).current_track_index < usize::MAX,
        ensures
            final(self).next_track_index == old(self).next_track_index,
            final(self).current_track == old(self).current_track,
            final(self).status == old(self).status,
            final(self).loop_mode == old(self).loop_mode,
            final(self).played_index == old(self).played_index,
            final(self).need_proceed_to_next == old(self).need_proceed_to_next,
            (if index > 0 {
                &&& final(self).tracks@ == old(self).tracks@.update(
                    index as int,
                    old(self).tracks@[index - 1],
                ).update(index - 1, old(self).tracks@[index as int])
                &&& final(self).current_track_index == (if index == old(self).current_track_index {
                    old(self).current_track_index - 1
                } else if index == old(self).current_track_index + 1 {
                    old(self).current_track_index + 1
                } else {
                    old(self).current_track_index as int
                })
            } else {
                &&& final(self).tracks == old(self).tracks
                &&& final(self).current_track_index == old(self).current_track_index
            }),
    {
        if index > 0 {
            swap_adjacent(&mut self.tracks, index - 1);
            if index == self.current_track_index {
                self.current_track_index = self.current_track_index - 1;
            } else if index == self.current_track_index + 1 {
                self.current_track_index = self.current_track_index + 1;
            }
        }
    }

    /// The current track's path or URL: for podcasts the local download
    /// when the caller found it on disk, else the file.  The caller
    /// checks the local file's existence and reports it in
    /// `podcast_localfile_exists`.
    pub fn get_current_track(&mut self, podcast_localfile_exists: bool) -> (r: Option<String>)
        ensures
            *final(self) == *old(self),
            (match r {
                Some(s) => get_current_track_spec(*old(self), podcast_localfile_exists) == Some(
                    s@,
                ),
                None => get_current_track_spec(*old(self), podcast_localfile_exists) is None,
            }),
    {
        let track: &Track = match &self.current_track {
            Some(t) => t,
            None => {
                if self.current_track_index < self.tracks.len() {
                    &self.tracks[self.current_track_index]
                } else {
                    return None;
                }
            },
        };
        match track.media_type {
            MediaType::Music | MediaType::LiveRadio => match &track.file {
                Some(f) => Some(f.clone()),
                None => None,
            },
            MediaType::Podcast => {
                if podcast_localfile_exists {
                    match &track.podcast_localfile {
                        Some(local) => {
                            return Some(local.clone());
                        },
                        None => {},
                    }
                }
                match &track.file {
                    Some(f) => Some(f.clone()),
                    None => None,
                }
            },
        }
    }

    /// Pick the next track index, remember it, and hand the track back.
    pub fn fetch_next_track(&mut self) -> (r: Option<&Track>)
        requires
            old(self).current_track_index < usize::MAX,
        ensures
            final(self).tracks == old(self).tracks,
            final(self).current_track_index == old(self).current_track_index,
            final(self).current_track == old(self).current_track,
            final(self).status == old(self).status,
            final(self).loop_mode == old(self).loop_mode,
            final(self).played_index == old(self).played_index,
            final(self).need_proceed_to_next == old(self).need_proceed_to_next,
            (final(self).next_track_index matches Some(i) && next_index_ok(*old(self), i as int)),
            (match (final(self).next_track_index, r) {
                (Some(i), Some(t)) => i < old(self).tracks@.len() && *t == old(self).tracks@[i as int],
                (Some(i), None) => i >= old(self).tracks@.len(),
                _ => false,
            }),
    {
        let next_index: usize = self.get_next_track_index();
        self.next_track_index = Some(next_index);
        if next_index < self.tracks.len() {
            Some(&self.tracks[next_index])
        } else {
            None
        }
    }

    pub fn set_status(&mut self, status: Status)
        ensures
            *final(self) == (Playlist { status, ..*old(self) }),
    {
        self.status = status;
    }

    pub fn is_stopped(&self) -> (r: bool)
        ensures
            r == (self.status is Stopped),
    {
        matches!(self.status, Status::Stopped)
    }

    pub fn is_paused(&self) -> (r: bool)
        ensures
            r == (self.status is Paused),
    {
        matches!(self.status, Status::Paused)
    }

    pub fn status(&self) -> (r: Status)
        ensures
            r == self.status,
    {
        self.status
    }

    /// Cycle through the loop modes and return the new mode: random to
    /// playlist, playlist to single, single to random.
    pub fn cycle_loop_mode(&mut self) -> (r: LoopMode)
        ensures
            r == final(self).loop_mode,
            final(self).loop_mode == (match old(self).loop_mode {
                LoopMode::Random => LoopMode::Playlist,
                LoopMode::Playlist => LoopMode::Single,
                LoopMode::Single => LoopMode::Random,
            }),
            *final(self) == (Playlist { loop_mode: final(self).loop_mode, ..*old(self) }),
    {
        match self.loop_mode {
            LoopMode::Random => {
                self.loop_mode = LoopMode::Playlist;
            },
            LoopMode::Playlist => {
                self.loop_mode = LoopMode::Single;
            },
            LoopMode::Single => {
                self.loop_mode = LoopMode::Random;
            },
        }
        self.loop_mode
    }

    /// Add a podcast episode to the playlist.
    pub fn add_episode(&mut self, ep: &Episode)
        ensures
            final(self).tracks@.len() == old(self).tracks@.len() + 1,
            final(self).tracks@.last()@ == episode_track_model(ep@),
            final(self).tracks@.take(old(self).tracks@.len() as int) == old(self).tracks@,
            *final(self) == (Playlist { tracks: final(self).tracks, ..*old(self) }),
    {
        let track = Track::from_episode(ep);
        self.tracks.push(track);
        proof {
            assert(self.tracks@.take(old(self).tracks@.len() as int) =~= old(self).tracks@);
        }
    }

    /// Add a single path or URL to the playlist, with what the caller's
    /// filesystem probe found for it.
    pub fn add_track(&mut self, track: &str, probe: FileProbe) -> (r: Result<
        (),
        PlaylistAddError,
    >)
        ensures
            *final(self) == (Playlist { tracks: final(self).tracks, ..*old(self) }),
            (if add_fails(track@, probe) {
                &&& final(self).tracks == old(self).tracks
                &&& (r matches Err(e) && add_error_rel(track@, probe, e))
            } else {
                &&& r is Ok
                &&& final(self).tracks@.len() == old(self).tracks@.len() + 1
                &&& final(self).tracks@.last()@ == added_track_model(track@, probe)
                &&& final(self).tracks@.take(old(self).tracks@.len() as int) == old(self).tracks@
            }),
    {
        let ghost n0 = self.tracks@.len();
        if str_starts_http(track) {
            let t = Track::new_radio(track);
            self.tracks.push(t);
            proof {
                assert(self.tracks@.take(n0 as int) =~= old(self).tracks@);
            }
            return Ok(());
        }
        if !filetype_supported(track) {
            let ext = extension(track);
            return Err(PlaylistAddError::UnsupportedFileType(ext, String::from_str(track)));
        }
        if !probe.exists {
            return Err(PlaylistAddError::PathDoesNotExist(String::from_str(track)));
        }
        match probe.read {
            Ok(t) => {
                self.tracks.push(t);
                proof {
                    assert(self.tracks@.take(n0 as int) =~= old(self).tracks@);
                }
                Ok(())
            },
            Err(msg) => Err(PlaylistAddError::ReadError(msg, String::from_str(track))),
        }
    }

    pub fn tracks(&self) -> (r: &Vec<Track>)
        ensures
            r == &self.tracks,
    {
        &self.tracks
    }

    /// Remove the track at `index`, moving the current index back by one
    /// when the removal was at or before it.  Does not touch the
    /// remembered current track.
    pub fn remove(&mut self, index: usize)
        requires
            index < old(self).tracks@.len(),
        ensures
            final(self).tracks@ == old(self).tracks@.remove(index as int),
            final(self).current_track_index == (if index <= old(self).current_track_index && old(
                self,
            ).current_track_index != 0 {
                old(self).current_track_index - 1
            } else {
                old(self).current_track_index as int
            }),
            *final(self) == (Playlist {
                tracks: final(self).tracks,
                current_track_index: final(self).current_track_index,
                ..*old(self)
            }),
    {
        self.tracks.remove(index);
        if index <= self.current_track_index {
            if self.current_track_index != 0 {
                self.current_track_index = self.current_track_index - 1;
            }
        }
    }

    /// Clear the playlist and the played history.  This does not stop the
    /// playlist or clear the remembered current track.
    pub fn clear(&mut self)
        ensures
            final(self).tracks@.len() == 0,
            final(self).played_index@.len() == 0,
            final(self).next_track_index is None,
            final(self).current_track_index == 0,
            !final(self).need_proceed_to_next,
            final(self).current_track == old(self).current_track,
            final(self).status == old(self).status,
            final(self).loop_mode == old(self).loop_mode,
    {
        self.tracks.clear();
        self.played_index.clear();
        self.next_track_index = None;
        self.current_track_index = 0;
        self.need_proceed_to_next = false;
    }

    /// Shuffle the playlist, keeping the same tracks in a new order, and
    /// keep the current index on the track that was playing, when it can
    /// be found again.
    pub fn shuffle(&mut self, podcast_localfile_exists: bool)
        ensures
            final(self).tracks@.to_multiset() == old(self).tracks@.to_multiset(),
            final(self).tracks@.len() == old(self).tracks@.len(),
            *final(self) == (Playlist {
                tracks: final(self).tracks,
                current_track_index: final(self).current_track_index,
                ..*old(self)
            }),
            (match get_current_track_spec(*old(self), podcast_localfile_exists) {
                Some(current) => (match find_file_index(final(self).tracks@, current, 0) {
                    Some(i) => final(self).current_track_index == i,
                    None => final(self).current_track_index == old(self).current_track_index,
                }),
                None => final(self).tracks == old(self).tracks && final(self).current_track_index
                    == old(self).current_track_index,
            }),
    {
        let current: Option<String> = self.get_current_track(podcast_localfile_exists);
        match current {
            Some(current_track_file) => {
                shuffle_tracks(&mut self.tracks);
                match self.find_index_from_file(current_track_file.as_str()) {
                    Some(index) => {
                        self.current_track_index = index;
                    },
                    None => {},
                }
            },
            None => {},
        }
    }

    /// The index of the track playing from `item`, if one is in the
    /// playlist.
    fn find_index_from_file(&self, item: &str) -> (r: Option<usize>)
        ensures
            (match r {
                Some(i) => find_file_index(self.tracks@, item@, 0) == Some(i as int),
                None => find_file_index(self.tracks@, item@, 0) is None,
            }),
    {
        let n: usize = self.tracks.len();
        let mut i: usize = 0;
        while i < n
            invariant
                i <= n,
                n == self.tracks@.len(),
                find_file_index(self.tracks@, item@, 0) == find_file_index(
                    self.tracks@,
                    item@,
                    i as int,
                ),
            decreases n - i,
        {
            match self.tracks[i].file() {
                Some(file) => {
                    if eq_str(file.as_str(), item) {
                        return Some(i);
                    }
                },
                None => {},
            }
            i = i + 1;
        }
        None
    }

    /// Remove every track whose file the caller found missing on disk
    /// (`exists[i]` reports track `i`), then find the playing track's new
    /// index, falling back to the start.
    pub fn remove_deleted_items(&mut self, podcast_localfile_exists: bool, exists: &Vec<bool>)
        requires
            exists@.len() == old(self).tracks@.len(),
        ensures
            *final(self) == (Playlist {
                tracks: final(self).tracks,
                current_track_index: final(self).current_track_index,
                ..*old(self)
            }),
            (match get_current_track_spec(*old(self), podcast_localfile_exists) {
                Some(current) => {
                    &&& final(self).tracks@.map_values(|t: Track| t@) == retained_tracks(
                        old(self).tracks@,
                        exists@,
                        0,
                    )
                    &&& final(self).current_track_index as int == (match find_file_index(
                        final(self).tracks@,
                        current,
                        0,
                    ) {
                        Some(i) => i,
                        None => 0,
                    })
                },
                None => final(self).tracks == old(self).tracks && final(self).current_track_index
                    == old(self).current_track_index,
            }),
    {
        let current: Option<String> = self.get_current_track(podcast_localfile_exists);
        match current {
            Some(current_track_file) => {
                let n: usize = self.tracks.len();
                let mut kept: Vec<Track> = Vec::new();
                let mut i: usize = n;
                proof {
                    assert(kept@.map_values(|t: Track| t@) =~= retained_tracks(
                        self.tracks@,
                        exists@,
                        n as int,
                    ));
                }
                while i > 0
                    invariant
                        i <= n,
                        n == self.tracks@.len(),
                        n == exists@.len(),
                        kept@.map_values(|t: Track| t@) == retained_tracks(
                            self.tracks@,
                            exists@,
                            i as int,
                        ),
                    decreases i,
                {
                    i = i - 1;
                    let keep: bool = match self.tracks[i].file() {
                        Some(_) => exists[i],
                        None => false,
                    };
                    if keep {
                        let t = self.tracks[i].duplicate();
                        kept.insert(0, t);
                        proof {
                            assert(self.tracks@[i as int]@.file is Some);
                            assert(kept@.map_values(|t: Track| t@) =~= retained_tracks(
                                self.tracks@,
                                exists@,
                                i as int,
                            ));
                        }
                    } else {
                        proof {
                            assert(kept@.map_values(|t: Track| t@) =~= retained_tracks(
                                self.tracks@,
                                exists@,
                                i as int,
                            ));
                        }
                    }
                }
                self.tracks = kept;
                match self.find_index_from_file(current_track_file.as_str()) {
                    Some(new_index) => {
                        self.current_track_index = new_index;
                    },
                    None => {
                        self.current_track_index = 0;
                    },
                }
            },
            None => {},
        }
    }

    /// Stop the playlist: set the stopped status, forget the next track,
    /// and clear the playing track.
    pub fn stop(&mut self)
        ensures
            *final(self) == (Playlist {
                status: Status::Stopped,
                next_track_index: None,
                current_track: None,
                ..*old(self)
            }),
    {
        self.set_status(Status::Stopped);
        self.set_next_track(None);
        self.clear_current_track();
    }

    /// The current track: the remembered playing one if set, else the one
    /// under the current index.
    pub fn current_track(&self) -> (r: Option<&Track>)
        ensures
            (match r {
                Some(t) => current_track_model(*self) == Some(t@),
                None => current_track_model(*self) is None,
            }),
    {
        match &self.current_track {
            Some(t) => Some(t),
            None => {
                if self.current_track_index < self.tracks.len() {
                    Some(&self.tracks[self.current_track_index])
                } else {
                    None
                }
            },
        }
    }

    pub fn clear_current_track(&mut self)
        ensures
            *final(self) == (Playlist { current_track: None, ..*old(self) }),
    {
        self.current_track = None;
    }

    pub fn get_current_track_index(&self) -> (r: usize)
        ensures
            r == self.current_track_index,
    {
        self.current_track_index
    }

    pub fn set_current_track_index(&mut self, index: usize)
        ensures
            *final(self) == (Playlist { current_track_index: index, ..*old(self) }),
    {
        self.current_track_index = index;
    }

    /// The track under the remembered next index, if both exist.
    pub fn next_track(&self) -> (r: Option<&Track>)
        ensures
            (match (self.next_track_index, r) {
                (Some(i), Some(t)) => i < self.tracks@.len() && *t == self.tracks@[i as int],
                (Some(i), None) => i >= self.tracks@.len(),
                (None, None) => true,
                (None, Some(_)) => false,
            }),
    {
        match self.next_track_index {
            Some(index) => {
                if index < self.tracks.len() {
                    Some(&self.tracks[index])
                } else {
                    None
                }
            },
            None => None,
        }
    }

    pub fn set_next_track(&mut self, track_idx: Option<usize>)
        ensures
            *final(self) == (Playlist { next_track_index: track_idx, ..*old(self) }),
    {
        self.next_track_index = track_idx;
    }

    pub fn has_next_track(&self) -> (r: bool)
        ensures
            r == (self.next_track_index is Some),
    {
        matches!(self.next_track_index, Some(_))
    }
}

/// The tracks kept by a deleted-items sweep: those with a file that the
/// probe found existing.
pub open spec fn retained_tracks(tracks: Seq<Track>, exists: Seq<bool>, i: int) -> Seq<TrackModel>
    decreases tracks.len() - i,
{
    if i < 0 || i >= tracks.len() {
        Seq::empty()
    } else {
        let rest = retained_tracks(tracks, exists, i + 1);
        if tracks[i]@.file is Some && exists[i] {
            seq![tracks[i]@] + rest
        } else {
            rest
        }
    }
}

/// Swap the elements at `i` and `i + 1`.
fn swap_adjacent(v: &mut Vec<Track>, i: usize)
    requires
        i + 1 < old(v)@.len(),
    ensures
        final(v)@ == old(v)@.update(i as int, old(v)@[i + 1]).update(i + 1, old(v)@[i as int]),
{
    let n: usize = v.len();
    let a = v.remove(i);
    v.insert(i + 1, a);
    proof {
        assert(final(v)@ =~= old(v)@.update(i as int, old(v)@[i + 1]).update(
            i + 1,
            old(v)@[i as int],
        ));
    }
}

/// Relies on `rand::seq::SliceRandom::shuffle`: the slice is permuted in
/// place — the same elements, in an order drawn from the thread rng, of
/// which nothing is assumed.
#[verifier::external_body]
fn shuffle_tracks(tracks: &mut Vec<Track>)
    ensures
        final(tracks)@.to_multiset() == old(tracks)@.to_multiset(),
        final(tracks)@.len() == old(tracks)@.len(),
{
    tracks.shuffle(&mut rand::rng());
}

/// Find the first episode whose URL is `url`.
fn find_episode(episodes: &Vec<Episode>, url: &str) -> (r: Option<usize>)
    ensures
        (match r {
            Some(i) => find_episode_spec(episodes@, url@, 0) == Some(i as int) && i
                < episodes@.len(),
            None => find_episode_spec(episodes@, url@, 0) is None,
        }),
{
    let n: usize = episodes.len();
    let mut i: usize = 0;
    while i < n
        invariant
            i <= n,
            n == episodes@.len(),
            find_episode_spec(episodes@, url@, 0) == find_episode_spec(episodes@, url@, i as int),
        decreases n - i,
    {
        if eq_str(episodes[i].url.as_str(), url) {
            return Some(i);
        }
        i = i + 1;
    }
    None
}


/// The relative path an m3u entry uses for a file, against the playlist
/// file's directory.
pub uninterp spec fn rel_path_of(path: Seq<char>, base: Seq<char>) -> Option<Seq<char>>;

/// Relies on `pathdiff::diff_paths`: the relative route from `base` to
/// `path`, a pure function of the two paths; it exists unless one path is
/// relative where the other is absolute.
#[verifier::external_body]
fn diff_path(path: &str, base: &str) -> (r: Option<String>)
    ensures
        (match r {
            Some(p) => rel_path_of(path@, base@) == Some(p@),
            None => rel_path_of(path@, base@) is None,
        }),
{
    pathdiff::diff_paths(path, base).map(|p| p.to_string_lossy().into_owned())
}

/// The m3u line one track contributes: its file's path relative to the
/// playlist's directory, when both exist.
pub open spec fn m3u_entry(t: TrackModel, parent: Seq<char>) -> Seq<char> {
    match t.file {
        Some(f) => match rel_path_of(f, parent) {
            Some(rel) => rel + "\n"@,
            None => Seq::empty(),
        },
        None => Seq::empty(),
    }
}

/// The m3u lines of the first `i` tracks.
pub open spec fn m3u_take(tracks: Seq<Track>, parent: Seq<char>, i: int) -> Seq<char>
    decreases i,
{
    if i <= 0 {
        Seq::empty()
    } else {
        m3u_take(tracks, parent, i - 1) + m3u_entry(tracks[i - 1]@, parent)
    }
}

impl Playlist {
    /// Generate the content of an `.m3u` export of the playlist: the
    /// header line, then each track's file relative to `parent_folder`.
    pub fn get_m3u_file(&self, parent_folder: &str) -> (r: String)
        ensures
            r@ == "#EXTM3U\n"@ + m3u_take(self.tracks@, parent_folder@, self.tracks@.len() as int),
    {
        let mut m3u = String::from_str("#EXTM3U\n");
        let n: usize = self.tracks.len();
        let mut i: usize = 0;
        proof {
            assert(m3u@ =~= "#EXTM3U\n"@ + m3u_take(self.tracks@, parent_folder@, 0));
        }
        while i < n
            invariant
                i <= n,
                n == self.tracks@.len(),
                m3u@ == "#EXTM3U\n"@ + m3u_take(self.tracks@, parent_folder@, i as int),
            decreases n - i,
        {
            match self.tracks[i].file() {
                Some(file) => {
                    match diff_path(file.as_str(), parent_folder) {
                        Some(path_relative) => {
                            m3u.append(path_relative.as_str());
                            m3u.append("\n");
                        },
                        None => {},
                    }
                },
                None => {},
            }
            proof {
                assert(m3u@ =~= "#EXTM3U\n"@ + m3u_take(
                    self.tracks@,
                    parent_folder@,
                    i + 1,
                ));
            }
            i = i + 1;
        }
        m3u
    }
}

/// The message text of an add failure.
pub open spec fn add_error_message_spec(e: PlaylistAddError) -> Seq<char> {
    "Failed to add to playlist because of: "@ + (match e {
        PlaylistAddError::UnsupportedFileType(ext, path) => "Unsupported File type \""@ + (match ext {
            Some(x) => "Some("@ + x@ + ")"@,
            None => "None"@,
        }) + "\" at \""@ + path@ + "\""@,
        PlaylistAddError::PathDoesNotExist(path) => "Path does not exist: \""@ + path@ + "\""@,
        PlaylistAddError::ReadError(err, path) => err@ + " at \""@ + path@ + "\""@,
    })
}

impl PlaylistAddError {
    /// The failure as display text.
    pub fn message(&self) -> (r: String)
        ensures
            r@ == add_error_message_spec(*self),
    {
        let mut r = String::from_str("Failed to add to playlist because of: ");
        match self {
            PlaylistAddError::UnsupportedFileType(ext, path) => {
                r.append("Unsupported File type \"");
                match ext {
                    Some(x) => {
                        r.append("Some(");
                        r.append(x.as_str());
                        r.append(")");
                    },
                    None => {
                        r.append("None");
                    },
                }
                r.append("\" at \"");
                r.append(path.as_str());
                r.append("\"");
            },
            PlaylistAddError::PathDoesNotExist(path) => {
                r.append("Path does not exist: \"");
                r.append(path.as_str());
                r.append("\"");
            },
            PlaylistAddError::ReadError(err, path) => {
                r.append(err.as_str());
                r.append(" at \"");
                r.append(path.as_str());
                r.append("\"");
            },
        }
        proof {
            assert(r@ =~= add_error_message_spec(*self));
        }
        r
    }
}

/// The message lines of a collection of add failures.
pub open spec fn add_errors_message_take(errs: Seq<PlaylistAddError>, i: int) -> Seq<char>
    decreases i,
{
    if i <= 0 {
        Seq::empty()
    } else {
        add_errors_message_take(errs, i - 1) + "  - "@ + add_error_message_spec(errs[i - 1])
            + "\n"@
    }
}

impl PlaylistAddErrorVec {
    /// The failures as display text: a count line, then one line per
    /// failure.
    pub fn message(&self) -> (r: String)
        ensures
            r@ == crate::utils::decimal_of(self.0@.len() as int) + " Error(s) happened:\n"@
                + add_errors_message_take(self.0@, self.0@.len() as int),
    {
        let mut r = usize_to_string(self.0.len());
        proof {
            crate::utils::lemma_decimal_of_digits(self.0@.len() as int, r@);
        }
        r.append(" Error(s) happened:\n");
        let n: usize = self.0.len();
        let mut i: usize = 0;
        let ghost header = crate::utils::decimal_of(self.0@.len() as int)
            + " Error(s) happened:\n"@;
        proof {
            assert(r@ =~= header + add_errors_message_take(self.0@, 0));
        }
        while i < n
            invariant
                i <= n,
                n == self.0@.len(),
                r@ == header + add_errors_message_take(self.0@, i as int),
            decreases n - i,
        {
            r.append("  - ");
            let line = self.0[i].message();
            r.append(line.as_str());
            r.append("\n");
            proof {
                assert(r@ =~= header + add_errors_message_take(self.0@, i + 1));
            }
            i = i + 1;
        }
        r
    }
}


/// The tracks the first `i` items of a batched add push, in order.
pub open spec fn added_before(items: Seq<(String, FileProbe)>, i: int) -> Seq<TrackModel>
    decreases i,
{
    if i <= 0 {
        Seq::empty()
    } else {
        let prev = added_before(items, i - 1);
        if add_fails(items[i - 1].0@, items[i - 1].1) {
            prev
        } else {
            prev.push(added_track_model(items[i - 1].0@, items[i - 1].1))
        }
    }
}

/// Whether `errs` holds exactly the failures of the first `i` items, in
/// order, each with the error its item owes.
pub open spec fn errors_match(items: Seq<(String, FileProbe)>, errs: Seq<PlaylistAddError>, i: int) -> bool
    decreases i,
{
    if i <= 0 {
        errs.len() == 0
    } else {
        if add_fails(items[i - 1].0@, items[i - 1].1) {
            &&& errs.len() > 0
            &&& add_error_rel(items[i - 1].0@, items[i - 1].1, errs.last())
            &&& errors_match(items, errs.drop_last(), i - 1)
        } else {
            errors_match(items, errs, i - 1)
        }
    }
}

impl Playlist {
    /// Add many paths or URLs to the playlist, each with what the
    /// caller's filesystem probe found for it.  Every item is attempted;
    /// the failures are collected and reported together.
    pub fn add_playlist(&mut self, items: Vec<(String, FileProbe)>) -> (r: Result<
        (),
        PlaylistAddErrorVec,
    >)
        ensures
            *final(self) == (Playlist { tracks: final(self).tracks, ..*old(self) }),
            final(self).tracks@.map_values(|t: Track| t@) == old(self).tracks@.map_values(
                |t: Track| t@,
            ) + added_before(items@, items@.len() as int),
            (match r {
                Ok(_) => errors_match(items@, Seq::empty(), items@.len() as int),
                Err(ev) => ev.0@.len() > 0 && errors_match(items@, ev.0@, items@.len() as int),
            }),
    {
        let ghost orig = items@;
        let mut items = items;
        let mut errors = PlaylistAddErrorVec(Vec::new());
        let n: usize = items.len();
        let mut i: usize = 0;
        proof {
            assert(errors.0@ =~= Seq::<PlaylistAddError>::empty());
            assert(self.tracks@.map_values(|t: Track| t@) =~= old(self).tracks@.map_values(
                |t: Track| t@,
            ) + added_before(orig, 0));
        }
        while i < n
            invariant
                i <= n,
                n == orig.len(),
                items@ == orig.skip(i as int),
                *self == (Playlist { tracks: self.tracks, ..*old(self) }),
                self.tracks@.map_values(|t: Track| t@) == old(self).tracks@.map_values(
                    |t: Track| t@,
                ) + added_before(orig, i as int),
                errors_match(orig, errors.0@, i as int),
            decreases n - i,
        {
            proof {
                assert(items@[0] == orig[i as int]);
            }
            let item = items.remove(0);
            let (track_str, probe) = item;
            let ghost pre_tracks = self.tracks@;
            let ghost pre_errs = errors.0@;
            match self.add_track(track_str.as_str(), probe) {
                Ok(_) => {
                    proof {
                        assert(!add_fails(orig[i as int].0@, orig[i as int].1));
                        let ghost model = added_track_model(orig[i as int].0@, orig[i as int].1);
                        assert(self.tracks@ =~= pre_tracks.push(self.tracks@.last()));
                        assert(self.tracks@.last()@ == model);
                        assert(self.tracks@.map_values(|t: Track| t@) =~= pre_tracks.map_values(
                            |t: Track| t@,
                        ).push(model));
                        assert(added_before(orig, i + 1) == added_before(orig, i as int).push(
                            model,
                        ));
                        assert(self.tracks@.map_values(|t: Track| t@) =~= old(
                            self,
                        ).tracks@.map_values(|t: Track| t@) + added_before(orig, i + 1));
                    }
                },
                Err(err) => {
                    errors.push(err);
                    proof {
                        assert(add_fails(orig[i as int].0@, orig[i as int].1));
                        assert(errors.0@.drop_last() =~= pre_errs);
                        assert(self.tracks@.map_values(|t: Track| t@) =~= old(
                            self,
                        ).tracks@.map_values(|t: Track| t@) + added_before(orig, i + 1));
                    }
                },
            }
            i = i + 1;
            proof {
                assert(items@ =~= orig.skip(i as int));
            }
        }
        if !errors.is_empty() {
            return Err(errors);
        }
        proof {
            assert(errors.0@ =~= Seq::<PlaylistAddError>::empty());
        }
        Ok(())
    }
}

} // verus!
