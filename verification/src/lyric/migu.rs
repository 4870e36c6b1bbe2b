//! Extraction of singers, songs, URLs and login state from the migu
//! service's JSON answers.  A missing or malformed required field aborts
//! the whole extraction with [`Errors::NoneError`]; fields the service
//! leaves out get its documented fallback texts.

use crate::json::JsonValue;
use crate::lyric::Errors;
use crate::lyric::NCMResult;
use crate::lyric::SongTag;
use crate::lyric::SongTagModel;
use crate::songtag::kugou::str_or_empty_spec;
use vstd::prelude::*;

verus! {

/// The request method a lookup uses.
#[derive(Debug, Clone, Copy, PartialEq, Eq, Structural)]
pub enum Method {
    POST,
    GET,
}

/// Which answer shape to extract from.
#[derive(Debug, Clone, Copy, PartialEq, Eq, Structural)]
pub enum Parse {
    USL,
    UCD,
    RMD,
    RMDS,
    SEARCH,
    SD,
    ALBUM,
    TOP,
}

/// A singer, as the service reports one.
#[derive(Debug, Clone)]
pub struct SingerInfo {
    pub id: u64,
    pub name: String,
    pub pic_url: String,
}

/// A song's fetchable URL, as the service reports one.
#[derive(Debug, Clone)]
pub struct SongUrl {
    pub id: u64,
    pub url: String,
    pub rate: u32,
}

/// A song, as the service reports one.
#[derive(Debug, Clone)]
pub struct SongInfo {
    pub id: u64,
    pub name: String,
    pub singer: String,
    pub album: String,
    pub pic_url: String,
    pub duration: String,
    pub song_url: String,
}

/// A song list, as the service reports one.
#[derive(Debug, Clone)]
pub struct SongList {
    pub id: u64,
    pub name: String,
    pub cover_img_url: String,
}

/// A status answer.
#[derive(Debug, Clone)]
pub struct Msg {
    pub code: i32,
    pub msg: String,
}

/// A login answer.
#[derive(Debug, Clone)]
pub struct LoginInfo {
    pub code: i32,
    pub uid: u64,
    pub nickname: String,
    pub avatar_url: String,
    pub msg: String,
}

/// A required string field: present and a string, or the extraction
/// aborts.
pub open spec fn req_str_spec(v: JsonValue, key: Seq<char>) -> Option<Seq<char>> {
    match v.get_spec(key) {
        Some(f) => f.as_str_spec(),
        None => None,
    }
}

fn req_str(v: &JsonValue, key: &str) -> (r: Option<String>)
    ensures
        (match r {
            Some(s) => req_str_spec(*v, key@) == Some(s@),
            None => req_str_spec(*v, key@) is None,
        }),
{
    match v.get(key) {
        Some(f) => match f.as_str() {
            Some(s) => Some(String::from_str(s)),
            None => None,
        },
        None => None,
    }
}

/// A required unsigned number field.
pub open spec fn req_u64_spec(v: JsonValue, key: Seq<char>) -> Option<u64> {
    match v.get_spec(key) {
        Some(f) => f.as_u64_spec(),
        None => None,
    }
}

fn req_u64(v: &JsonValue, key: &str) -> (r: Option<u64>)
    ensures
        r == req_u64_spec(*v, key@),
{
    match v.get(key) {
        Some(f) => f.as_u64(),
        None => None,
    }
}

/// A required signed number field.
pub open spec fn req_i64_spec(v: JsonValue, key: Seq<char>) -> Option<i64> {
    match v.get_spec(key) {
        Some(f) => f.as_i64_spec(),
        None => None,
    }
}

fn req_i64(v: &JsonValue, key: &str) -> (r: Option<i64>)
    ensures
        r == req_i64_spec(*v, key@),
{
    match v.get(key) {
        Some(f) => f.as_i64(),
        None => None,
    }
}

/// A string field with the service's stock fallback for both a missing
/// and a malformed value.
pub open spec fn str_or_unknown_spec(v: JsonValue, key: Seq<char>, fallback: Seq<char>) -> Seq<
    char,
> {
    match v.get_spec(key) {
        Some(f) => match f.as_str_spec() {
            Some(s) => s,
            None => fallback,
        },
        None => fallback,
    }
}

fn str_or_fallback(v: &JsonValue, key: &str, fallback: &str) -> (r: String)
    ensures
        r@ == str_or_unknown_spec(*v, key@, fallback@),
{
    match v.get(key) {
        Some(f) => match f.as_str() {
            Some(s) => String::from_str(s),
            None => String::from_str(fallback),
        },
        None => String::from_str(fallback),
    }
}

fn str_or_empty(v: &JsonValue, key: &str) -> (r: String)
    ensures
        r@ == str_or_empty_spec(*v, key@),
{
    match v.get(key) {
        Some(f) => match f.as_str() {
            Some(s) => String::from_str(s),
            None => {
                let e = String::new();
                proof {
                    assert(e@ =~= Seq::<char>::empty());
                }
                e
            },
        },
        None => {
            let e = String::new();
            proof {
                assert(e@ =~= Seq::<char>::empty());
            }
            e
        },
    }
}

/// A string field whose absence reads as one fallback and whose
/// malformedness as the empty text.
pub open spec fn str_absent_default_spec(v: JsonValue, key: Seq<char>, absent: Seq<char>) -> Seq<
    char,
> {
    match v.get_spec(key) {
        Some(f) => match f.as_str_spec() {
            Some(s) => s,
            None => Seq::empty(),
        },
        None => absent,
    }
}

fn str_absent_default(v: &JsonValue, key: &str, absent: &str) -> (r: String)
    ensures
        r@ == str_absent_default_spec(*v, key@, absent@),
{
    match v.get(key) {
        Some(f) => match f.as_str() {
            Some(s) => String::from_str(s),
            None => {
                let e = String::new();
                proof {
                    assert(e@ =~= Seq::<char>::empty());
                }
                e
            },
        },
        None => String::from_str(absent),
    }
}

/// The lyric text an answer carries: when the answer's message says
/// success, the required `lyric` field.
pub open spec fn to_lyric_spec(v: JsonValue) -> Option<Seq<char>> {
    match v.get_spec("msg"@) {
        None => None,
        Some(m) => if !m.eq_str_spec("\u{6210}\u{529f}"@) {
            None
        } else {
            req_str_spec(v, "lyric"@)
        },
    }
}

/// Extract the lyric text from a lyric answer.
pub fn to_lyric(value: &JsonValue) -> (r: NCMResult<String>)
    ensures
        (match r {
            Ok(s) => to_lyric_spec(*value) == Some(s@),
            Err(e) => to_lyric_spec(*value) is None && e == Errors::NoneError,
        }),
{
    let m = match value.get("msg") {
        Some(v) => v,
        None => {
            return Err(Errors::NoneError);
        },
    };
    if !m.eq_str("\u{6210}\u{529f}") {
        return Err(Errors::NoneError);
    }
    match req_str(value, "lyric") {
        Some(lyric) => Ok(lyric),
        None => Err(Errors::NoneError),
    }
}

/// The access key and lyric id an answer carries: under errcode 200, the
/// first candidate's, with the service's fallback for a missing access
/// key.
pub open spec fn to_lyric_id_accesskey_spec(v: JsonValue) -> Option<(Seq<char>, Seq<char>)> {
    match v.get_spec("errcode"@) {
        None => None,
        Some(ec) => if !ec.eq_i64_spec(200) {
            None
        } else {
            match v.get_spec("candidates"@) {
                None => None,
                Some(cands) => match cands.get_idx_spec(0) {
                    None => None,
                    Some(cand) => match req_str_spec(cand, "id"@) {
                        None => None,
                        Some(id) => Some(
                            (
                                str_or_unknown_spec(cand, "accesskey"@, "\u{672a}\u{77e5}"@),
                                id,
                            ),
                        ),
                    },
                },
            }
        },
    }
}

/// Extract the first candidate's access key and lyric id from a
/// lyric-search answer.
pub fn to_lyric_id_accesskey(value: &JsonValue) -> (r: NCMResult<(String, String)>)
    ensures
        (match r {
            Ok(p) => to_lyric_id_accesskey_spec(*value) == Some((p.0@, p.1@)),
            Err(e) => to_lyric_id_accesskey_spec(*value) is None && e == Errors::NoneError,
        }),
{
    let ec = match value.get("errcode") {
        Some(v) => v,
        None => {
            return Err(Errors::NoneError);
        },
    };
    if !ec.eq_i64(200) {
        return Err(Errors::NoneError);
    }
    let cands = match value.get("candidates") {
        Some(v) => v,
        None => {
            return Err(Errors::NoneError);
        },
    };
    let cand = match cands.get_idx(0) {
        Some(v) => v,
        None => {
            return Err(Errors::NoneError);
        },
    };
    let accesskey = str_or_fallback(cand, "accesskey", "\u{672a}\u{77e5}");
    match req_str(cand, "id") {
        Some(id) => Ok((accesskey, id)),
        None => Err(Errors::NoneError),
    }
}

/// The singer one entry yields; a missing id or name aborts.
pub open spec fn singer_of(v: JsonValue) -> Option<(u64, Seq<char>, Seq<char>)> {
    match req_u64_spec(v, "id"@) {
        None => None,
        Some(id) => match req_str_spec(v, "name"@) {
            None => None,
            Some(name) => Some((id, name, str_or_empty_spec(v, "picUrl"@))),
        },
    }
}

/// The singers of an answer's entries; any aborting entry aborts all.
pub open spec fn singers_of(entries: Seq<JsonValue>, i: int) -> Option<
    Seq<(u64, Seq<char>, Seq<char>)>,
>
    decreases entries.len() - i,
{
    if i < 0 || i >= entries.len() {
        Some(Seq::empty())
    } else {
        match singer_of(entries[i]) {
            None => None,
            Some(s) => match singers_of(entries, i + 1) {
                None => None,
                Some(rest) => Some(seq![s] + rest),
            },
        }
    }
}

/// The singers an answer carries: under code 200, those of
/// `result.artists`.
pub open spec fn to_singer_info_spec(v: JsonValue) -> Option<Seq<(u64, Seq<char>, Seq<char>)>> {
    match v.get_spec("code"@) {
        None => None,
        Some(c) => if !c.eq_i64_spec(200) {
            None
        } else {
            match v.get_spec("result"@) {
                None => None,
                Some(result) => match result.get_spec("artists"@) {
                    None => None,
                    Some(artists) => match artists.as_array_spec() {
                        None => None,
                        Some(entries) => singers_of(entries, 0),
                    },
                },
            }
        },
    }
}

/// Extract the singers from a singer-search answer.
pub fn to_singer_info(value: &JsonValue) -> (r: NCMResult<Vec<SingerInfo>>)
    ensures
        (match r {
            Ok(v) => to_singer_info_spec(*value) == Some(
                v@.map_values(|s: SingerInfo| (s.id, s.name@, s.pic_url@)),
            ),
            Err(e) => to_singer_info_spec(*value) is None && e == Errors::NoneError,
        }),
{
    let c = match value.get("code") {
        Some(v) => v,
        None => {
            return Err(Errors::NoneError);
        },
    };
    if !c.eq_i64(200) {
        return Err(Errors::NoneError);
    }
    let result = match value.get("result") {
        Some(v) => v,
        None => {
            return Err(Errors::NoneError);
        },
    };
    let artists = match result.get("artists") {
        Some(v) => v,
        None => {
            return Err(Errors::NoneError);
        },
    };
    let entries = match artists.as_array() {
        Some(v) => v,
        None => {
            return Err(Errors::NoneError);
        },
    };
    let n: usize = entries.len();
    let mut out: Vec<SingerInfo> = Vec::new();
    let mut i: usize = n;
    proof {
        assert(out@.map_values(|s: SingerInfo| (s.id, s.name@, s.pic_url@)) =~= Seq::<
            (u64, Seq<char>, Seq<char>),
        >::empty());
    }
    while i > 0
        invariant
            i <= n,
            n == entries@.len(),
            to_singer_info_spec(*value) == singers_of(entries@, 0),
            (match singers_of(entries@, i as int) {
                Some(rest) => rest == out@.map_values(|s: SingerInfo| (s.id, s.name@, s.pic_url@)),
                None => false,
            }),
        decreases i,
    {
        i = i - 1;
        let entry = &entries[i];
        let id: u64 = match req_u64(entry, "id") {
            Some(x) => x,
            None => {
                proof {
                    assert(singer_of(entries@[i as int]) is None);
                    assert(singers_of(entries@, i as int) is None);
                    lemma_singers_abort(entries@, i as int);
                }
                return Err(Errors::NoneError);
            },
        };
        let name: String = match req_str(entry, "name") {
            Some(x) => x,
            None => {
                proof {
                    assert(singer_of(entries@[i as int]) is None);
                    assert(singers_of(entries@, i as int) is None);
                    lemma_singers_abort(entries@, i as int);
                }
                return Err(Errors::NoneError);
            },
        };
        let pic_url: String = str_or_empty(entry, "picUrl");
        out.insert(0, SingerInfo { id, name, pic_url });
        proof {
            assert((match singers_of(entries@, i as int) {
                Some(rest) => rest =~= out@.map_values(
                    |s: SingerInfo| (s.id, s.name@, s.pic_url@),
                ),
                None => false,
            }));
        }
    }
    Ok(out)
}

/// An abort at any position makes the whole singer extraction abort.
proof fn lemma_singers_abort(entries: Seq<JsonValue>, i: int)
    requires
        0 <= i <= entries.len(),
        singers_of(entries, i) is None,
    ensures
        singers_of(entries, 0) is None,
    decreases i,
{
    if i > 0 {
        assert(singers_of(entries, i - 1) is None);
        lemma_singers_abort(entries, i - 1);
    }
}


/// What one URL entry yields: nothing when its URL reads as empty, a
/// song URL when its id and bitrate are present, an abort otherwise.
/// The bitrate is taken in the narrow width the model uses, truncating.
pub open spec fn song_url_of(v: JsonValue) -> Option<Option<(u64, Seq<char>, u32)>> {
    let url = str_or_empty_spec(v, "url"@);
    if url.len() == 0 {
        Some(None)
    } else {
        match req_u64_spec(v, "id"@) {
            None => None,
            Some(id) => match req_u64_spec(v, "br"@) {
                None => None,
                Some(br) => Some(Some((id, url, br as u32))),
            },
        }
    }
}

/// The song URLs of an answer's entries; any aborting entry aborts all.
pub open spec fn song_urls_of(entries: Seq<JsonValue>, i: int) -> Option<
    Seq<(u64, Seq<char>, u32)>,
>
    decreases entries.len() - i,
{
    if i < 0 || i >= entries.len() {
        Some(Seq::empty())
    } else {
        match song_url_of(entries[i]) {
            None => None,
            Some(None) => song_urls_of(entries, i + 1),
            Some(Some(s)) => match song_urls_of(entries, i + 1) {
                None => None,
                Some(rest) => Some(seq![s] + rest),
            },
        }
    }
}

proof fn lemma_song_urls_abort(entries: Seq<JsonValue>, i: int)
    requires
        0 <= i <= entries.len(),
        song_urls_of(entries, i) is None,
    ensures
        song_urls_of(entries, 0) is None,
    decreases i,
{
    if i > 0 {
        assert(song_urls_of(entries, i - 1) is None);
        lemma_song_urls_abort(entries, i - 1);
    }
}

/// The song URLs an answer carries: under status 1, those of
/// `data.info`, skipping entries without a URL.
pub open spec fn to_song_url_spec(v: JsonValue) -> Option<Seq<(u64, Seq<char>, u32)>> {
    match v.get_spec("status"@) {
        None => None,
        Some(st) => if !st.eq_i64_spec(1) {
            None
        } else {
            match v.get_spec("data"@) {
                None => None,
                Some(data) => match data.get_spec("info"@) {
                    None => None,
                    Some(info) => match info.as_array_spec() {
                        None => None,
                        Some(entries) => song_urls_of(entries, 0),
                    },
                },
            }
        },
    }
}

/// Extract the fetchable song URLs from a song-URL answer.
pub fn to_song_url(value: &JsonValue) -> (r: NCMResult<Vec<SongUrl>>)
    ensures
        (match r {
            Ok(v) => to_song_url_spec(*value) == Some(
                v@.map_values(|s: SongUrl| (s.id, s.url@, s.rate)),
            ),
            Err(e) => to_song_url_spec(*value) is None && e == Errors::NoneError,
        }),
{
    let st = match value.get("status") {
        Some(v) => v,
        None => {
            return Err(Errors::NoneError);
        },
    };
    if !st.eq_i64(1) {
        return Err(Errors::NoneError);
    }
    let data = match value.get("data") {
        Some(v) => v,
        None => {
            return Err(Errors::NoneError);
        },
    };
    let info = match data.get("info") {
        Some(v) => v,
        None => {
            return Err(Errors::NoneError);
        },
    };
    let entries = match info.as_array() {
        Some(v) => v,
        None => {
            return Err(Errors::NoneError);
        },
    };
    let n: usize = entries.len();
    let mut out: Vec<SongUrl> = Vec::new();
    let mut i: usize = n;
    proof {
        assert(out@.map_values(|s: SongUrl| (s.id, s.url@, s.rate)) =~= Seq::<
            (u64, Seq<char>, u32),
        >::empty());
    }
    while i > 0
        invariant
            i <= n,
            n == entries@.len(),
            to_song_url_spec(*value) == song_urls_of(entries@, 0),
            (match song_urls_of(entries@, i as int) {
                Some(rest) => rest == out@.map_values(|s: SongUrl| (s.id, s.url@, s.rate)),
                None => false,
            }),
        decreases i,
    {
        i = i - 1;
        let entry = &entries[i];
        let url: String = str_or_empty(entry, "url");
        if url.as_str().unicode_len() > 0 {
            let id: u64 = match req_u64(entry, "id") {
                Some(x) => x,
                None => {
                    proof {
                        assert(song_url_of(entries@[i as int]) is None);
                        assert(song_urls_of(entries@, i as int) is None);
                        lemma_song_urls_abort(entries@, i as int);
                    }
                    return Err(Errors::NoneError);
                },
            };
            let br: u64 = match req_u64(entry, "br") {
                Some(x) => x,
                None => {
                    proof {
                        assert(song_url_of(entries@[i as int]) is None);
                        assert(song_urls_of(entries@, i as int) is None);
                        lemma_song_urls_abort(entries@, i as int);
                    }
                    return Err(Errors::NoneError);
                },
            };
            let rate: u32 = #[verifier::truncate] (br as u32);
            out.insert(0, SongUrl { id, url, rate });
            proof {
                assert((match song_urls_of(entries@, i as int) {
                    Some(rest) => rest =~= out@.map_values(|s: SongUrl| (s.id, s.url@, s.rate)),
                    None => false,
                }));
            }
        } else {
            proof {
                assert(song_url_of(entries@[i as int]) == Some(None::<(u64, Seq<char>, u32)>));
            }
        }
    }
    Ok(out)
}

/// The song tag one search entry yields; a missing required field
/// aborts.
pub open spec fn search_song_of(v: JsonValue) -> Option<SongTagModel> {
    match req_str_spec(v, "cover"@) {
        None => None,
        Some(pic_id) => match req_str_spec(v, "songName"@) {
            None => None,
            Some(title) => match req_str_spec(v, "albumId"@) {
                None => None,
                Some(album_id) => match req_str_spec(v, "id"@) {
                    None => None,
                    Some(song_id) => match req_str_spec(v, "copyrightId"@) {
                        None => None,
                        Some(lyric_id) => Some(
                            SongTagModel {
                                song_id: Some(song_id),
                                title: Some(title),
                                artist: Some(
                                    str_or_unknown_spec(
                                        v,
                                        "singerName"@,
                                        "\u{672a}\u{77e5}"@,
                                    ),
                                ),
                                album: Some(
                                    str_absent_default_spec(
                                        v,
                                        "albumName"@,
                                        "\u{672a}\u{77e5}"@,
                                    ),
                                ),
                                pic_id: Some(pic_id),
                                lang_ext: Some("chi"@),
                                service_provider: Some("migu"@),
                                lyric_id: Some(lyric_id),
                                url: Some(str_absent_default_spec(v, "mp3"@, "N/A"@)),
                                album_id: Some(album_id),
                            },
                        ),
                    },
                },
            },
        },
    }
}

/// The song tags of a search answer's entries; any aborting entry aborts
/// all.
pub open spec fn search_songs_of(entries: Seq<JsonValue>, i: int) -> Option<Seq<SongTagModel>>
    decreases entries.len() - i,
{
    if i < 0 || i >= entries.len() {
        Some(Seq::empty())
    } else {
        match search_song_of(entries[i]) {
            None => None,
            Some(t) => match search_songs_of(entries, i + 1) {
                None => None,
                Some(rest) => Some(seq![t] + rest),
            },
        }
    }
}

proof fn lemma_search_songs_abort(entries: Seq<JsonValue>, i: int)
    requires
        0 <= i <= entries.len(),
        search_songs_of(entries, i) is None,
    ensures
        search_songs_of(entries, 0) is None,
    decreases i,
{
    if i > 0 {
        assert(search_songs_of(entries, i - 1) is None);
        lemma_search_songs_abort(entries, i - 1);
    }
}

/// The song tags a search answer carries: under success, the entries of
/// `musics` (an absent list reads as empty); only the search answer
/// shape is understood.
pub open spec fn to_song_info_spec(v: JsonValue, parse: Parse) -> Option<Seq<SongTagModel>> {
    match v.get_spec("success"@) {
        None => None,
        Some(s) => if !s.eq_bool_spec(true) {
            None
        } else if !(parse is SEARCH) {
            None
        } else {
            match v.get_spec("musics"@) {
                None => Some(Seq::empty()),
                Some(m) => match m.as_array_spec() {
                    None => None,
                    Some(entries) => search_songs_of(entries, 0),
                },
            }
        },
    }
}

/// Extract the song tags from a search answer.
pub fn to_song_info(value: &JsonValue, parse: Parse) -> (r: NCMResult<Vec<SongTag>>)
    ensures
        (match r {
            Ok(v) => to_song_info_spec(*value, parse) == Some(
                v@.map_values(|t: SongTag| t@),
            ),
            Err(e) => to_song_info_spec(*value, parse) is None && e == Errors::NoneError,
        }),
{
    let s = match value.get("success") {
        Some(v) => v,
        None => {
            return Err(Errors::NoneError);
        },
    };
    if !s.eq_bool(true) {
        return Err(Errors::NoneError);
    }
    if !matches!(parse, Parse::SEARCH) {
        return Err(Errors::NoneError);
    }
    let musics = match value.get("musics") {
        Some(v) => v,
        None => {
            let out: Vec<SongTag> = Vec::new();
            proof {
                assert(out@.map_values(|t: SongTag| t@) =~= Seq::<SongTagModel>::empty());
            }
            return Ok(out);
        },
    };
    let entries = match musics.as_array() {
        Some(v) => v,
        None => {
            return Err(Errors::NoneError);
        },
    };
    let n: usize = entries.len();
    let mut out: Vec<SongTag> = Vec::new();
    let mut i: usize = n;
    proof {
        assert(out@.map_values(|t: SongTag| t@) =~= Seq::<SongTagModel>::empty());
    }
    while i > 0
        invariant
            i <= n,
            n == entries@.len(),
            to_song_info_spec(*value, parse) == search_songs_of(entries@, 0),
            (match search_songs_of(entries@, i as int) {
                Some(rest) => rest == out@.map_values(|t: SongTag| t@),
                None => false,
            }),
        decreases i,
    {
        i = i - 1;
        let entry = &entries[i];
        let pic_id: String = match req_str(entry, "cover") {
            Some(x) => x,
            None => {
                proof {
                    assert(search_song_of(entries@[i as int]) is None);
                    assert(search_songs_of(entries@, i as int) is None);
                    lemma_search_songs_abort(entries@, i as int);
                }
                return Err(Errors::NoneError);
            },
        };
        let title: String = match req_str(entry, "songName") {
            Some(x) => x,
            None => {
                proof {
                    assert(search_song_of(entries@[i as int]) is None);
                    assert(search_songs_of(entries@, i as int) is None);
                    lemma_search_songs_abort(entries@, i as int);
                }
                return Err(Errors::NoneError);
            },
        };
        let album_id: String = match req_str(entry, "albumId") {
            Some(x) => x,
            None => {
                proof {
                    assert(search_song_of(entries@[i as int]) is None);
                    assert(search_songs_of(entries@, i as int) is None);
                    lemma_search_songs_abort(entries@, i as int);
                }
                return Err(Errors::NoneError);
            },
        };
        let song_id: String = match req_str(entry, "id") {
            Some(x) => x,
            None => {
                proof {
                    assert(search_song_of(entries@[i as int]) is None);
                    assert(search_songs_of(entries@, i as int) is None);
                    lemma_search_songs_abort(entries@, i as int);
                }
                return Err(Errors::NoneError);
            },
        };
        let lyric_id: String = match req_str(entry, "copyrightId") {
            Some(x) => x,
            None => {
                proof {
                    assert(search_song_of(entries@[i as int]) is None);
                    assert(search_songs_of(entries@, i as int) is None);
                    lemma_search_songs_abort(entries@, i as int);
                }
                return Err(Errors::NoneError);
            },
        };
        let artist: String = str_or_fallback(entry, "singerName", "\u{672a}\u{77e5}");
        let album: String = str_absent_default(entry, "albumName", "\u{672a}\u{77e5}");
        let url: String = str_absent_default(entry, "mp3", "N/A");
        out.insert(
            0,
            SongTag {
                song_id: Some(song_id),
                title: Some(title),
                artist: Some(artist),
                album: Some(album),
                pic_id: Some(pic_id),
                lang_ext: Some(String::from_str("chi")),
                service_provider: Some(String::from_str("migu")),
                lyric_id: Some(lyric_id),
                url: Some(url),
                album_id: Some(album_id),
            },
        );
        proof {
            assert((match search_songs_of(entries@, i as int) {
                Some(rest) => rest =~= out@.map_values(|t: SongTag| t@),
                None => false,
            }));
        }
    }
    Ok(out)
}

/// The song list one entry yields: a required id and name, and a cover
/// that is either required or defaults to empty, depending on the answer
/// shape.
pub open spec fn song_list_of(v: JsonValue, cover_key: Seq<char>, cover_required: bool) -> Option<
    (u64, Seq<char>, Seq<char>),
> {
    match req_u64_spec(v, "id"@) {
        None => None,
        Some(id) => match req_str_spec(v, "name"@) {
            None => None,
            Some(name) => if cover_required {
                match req_str_spec(v, cover_key) {
                    None => None,
                    Some(cover) => Some((id, name, cover)),
                }
            } else {
                Some((id, name, str_or_empty_spec(v, cover_key)))
            },
        },
    }
}

/// The song lists of an answer's entries; any aborting entry aborts all.
pub open spec fn song_lists_of(
    entries: Seq<JsonValue>,
    i: int,
    cover_key: Seq<char>,
    cover_required: bool,
) -> Option<Seq<(u64, Seq<char>, Seq<char>)>>
    decreases entries.len() - i,
{
    if i < 0 || i >= entries.len() {
        Some(Seq::empty())
    } else {
        match song_list_of(entries[i], cover_key, cover_required) {
            None => None,
            Some(s) => match song_lists_of(entries, i + 1, cover_key, cover_required) {
                None => None,
                Some(rest) => Some(seq![s] + rest),
            },
        }
    }
}

proof fn lemma_song_lists_abort(
    entries: Seq<JsonValue>,
    i: int,
    cover_key: Seq<char>,
    cover_required: bool,
)
    requires
        0 <= i <= entries.len(),
        song_lists_of(entries, i, cover_key, cover_required) is None,
    ensures
        song_lists_of(entries, 0, cover_key, cover_required) is None,
    decreases i,
{
    if i > 0 {
        assert(song_lists_of(entries, i - 1, cover_key, cover_required) is None);
        lemma_song_lists_abort(entries, i - 1, cover_key, cover_required);
    }
}

/// The field name the lists sit under, and the cover field's name and
/// necessity, for each understood answer shape.
pub open spec fn song_list_shape(parse: Parse) -> Option<(Seq<char>, Seq<char>, bool)> {
    match parse {
        Parse::USL => Some(("playlist"@, "coverImgUrl"@, true)),
        Parse::RMD => Some(("recommend"@, "picUrl"@, false)),
        Parse::ALBUM => Some(("albums"@, "picUrl"@, false)),
        Parse::TOP => Some(("playlists"@, "coverImgUrl"@, true)),
        _ => None,
    }
}

/// The song lists an answer carries: under code 200, the entries under
/// the shape's field; an answer shape without lists reads as none of
/// them.
pub open spec fn to_song_list_spec(v: JsonValue, parse: Parse) -> Option<
    Seq<(u64, Seq<char>, Seq<char>)>,
> {
    match v.get_spec("code"@) {
        None => None,
        Some(c) => if !c.eq_i64_spec(200) {
            None
        } else {
            match song_list_shape(parse) {
                None => Some(Seq::empty()),
                Some(shape) => match v.get_spec(shape.0) {
                    None => None,
                    Some(lists) => match lists.as_array_spec() {
                        None => None,
                        Some(entries) => song_lists_of(entries, 0, shape.1, shape.2),
                    },
                },
            }
        },
    }
}

/// Extract the song lists from a list answer of the given shape.
pub fn to_song_list(value: &JsonValue, parse: Parse) -> (r: NCMResult<Vec<SongList>>)
    ensures
        (match r {
            Ok(v) => to_song_list_spec(*value, parse) == Some(
                v@.map_values(|s: SongList| (s.id, s.name@, s.cover_img_url@)),
            ),
            Err(e) => to_song_list_spec(*value, parse) is None && e == Errors::NoneError,
        }),
{
    let c = match value.get("code") {
        Some(v) => v,
        None => {
            return Err(Errors::NoneError);
        },
    };
    if !c.eq_i64(200) {
        return Err(Errors::NoneError);
    }
    let (list_key, cover_key, cover_required): (&str, &str, bool) = match parse {
        Parse::USL => ("playlist", "coverImgUrl", true),
        Parse::RMD => ("recommend", "picUrl", false),
        Parse::ALBUM => ("albums", "picUrl", false),
        Parse::TOP => ("playlists", "coverImgUrl", true),
        _ => {
            let out: Vec<SongList> = Vec::new();
            proof {
                assert(out@.map_values(|s: SongList| (s.id, s.name@, s.cover_img_url@)) =~= Seq::<
                    (u64, Seq<char>, Seq<char>),
                >::empty());
            }
            return Ok(out);
        },
    };
    let lists = match value.get(list_key) {
        Some(v) => v,
        None => {
            return Err(Errors::NoneError);
        },
    };
    let entries = match lists.as_array() {
        Some(v) => v,
        None => {
            return Err(Errors::NoneError);
        },
    };
    let n: usize = entries.len();
    let mut out: Vec<SongList> = Vec::new();
    let mut i: usize = n;
    proof {
        assert(out@.map_values(|s: SongList| (s.id, s.name@, s.cover_img_url@)) =~= Seq::<
            (u64, Seq<char>, Seq<char>),
        >::empty());
    }
    while i > 0
        invariant
            i <= n,
            n == entries@.len(),
            to_song_list_spec(*value, parse) == song_lists_of(
                entries@,
                0,
                cover_key@,
                cover_required,
            ),
            (match song_lists_of(entries@, i as int, cover_key@, cover_required) {
                Some(rest) => rest == out@.map_values(
                    |s: SongList| (s.id, s.name@, s.cover_img_url@),
                ),
                None => false,
            }),
        decreases i,
    {
        i = i - 1;
        let entry = &entries[i];
        let id: u64 = match req_u64(entry, "id") {
            Some(x) => x,
            None => {
                proof {
                    assert(song_list_of(entries@[i as int], cover_key@, cover_required) is None);
                    assert(song_lists_of(entries@, i as int, cover_key@, cover_required) is None);
                    lemma_song_lists_abort(entries@, i as int, cover_key@, cover_required);
                }
                return Err(Errors::NoneError);
            },
        };
        let name: String = match req_str(entry, "name") {
            Some(x) => x,
            None => {
                proof {
                    assert(song_list_of(entries@[i as int], cover_key@, cover_required) is None);
                    assert(song_lists_of(entries@, i as int, cover_key@, cover_required) is None);
                    lemma_song_lists_abort(entries@, i as int, cover_key@, cover_required);
                }
                return Err(Errors::NoneError);
            },
        };
        let cover_img_url: String = if cover_required {
            match req_str(entry, cover_key) {
                Some(x) => x,
                None => {
                    proof {
                        assert(song_list_of(entries@[i as int], cover_key@, cover_required) is None);
                        assert(song_lists_of(entries@, i as int, cover_key@, cover_required) is None);
                        lemma_song_lists_abort(entries@, i as int, cover_key@, cover_required);
                    }
                    return Err(Errors::NoneError);
                },
            }
        } else {
            str_or_empty(entry, cover_key)
        };
        out.insert(0, SongList { id, name, cover_img_url });
        proof {
            assert((match song_lists_of(entries@, i as int, cover_key@, cover_required) {
                Some(rest) => rest =~= out@.map_values(
                    |s: SongList| (s.id, s.name@, s.cover_img_url@),
                ),
                None => false,
            }));
        }
    }
    Ok(out)
}

/// The status a message answer carries: code 200 reads as success with
/// an empty message; any other code must bring its message text.  The
/// code is taken in the narrow width the model uses, truncating.
pub open spec fn to_msg_spec(v: JsonValue) -> Option<(i32, Seq<char>)> {
    match req_i64_spec(v, "code"@) {
        None => None,
        Some(c) => {
            let code = c as i32;
            if code == 200 {
                Some((200i32, Seq::empty()))
            } else {
                match req_str_spec(v, "msg"@) {
                    None => None,
                    Some(m) => Some((code, m)),
                }
            }
        },
    }
}

/// Extract the status from a message answer.
pub fn to_msg(value: &JsonValue) -> (r: NCMResult<Msg>)
    ensures
        (match r {
            Ok(m) => to_msg_spec(*value) == Some((m.code, m.msg@)),
            Err(e) => to_msg_spec(*value) is None && e == Errors::NoneError,
        }),
{
    let c: i64 = match req_i64(value, "code") {
        Some(x) => x,
        None => {
            return Err(Errors::NoneError);
        },
    };
    let code: i32 = #[verifier::truncate] (c as i32);
    if code == 200 {
        let empty = String::new();
        proof {
            assert(empty@ =~= Seq::<char>::empty());
        }
        return Ok(Msg { code: 200, msg: empty });
    }
    match req_str(value, "msg") {
        Some(m) => Ok(Msg { code, msg: m }),
        None => Err(Errors::NoneError),
    }
}

/// The login state an answer carries: under code 200 the profile's id,
/// nickname and avatar; under any other code the message text.  The code
/// is taken in the narrow width the model uses, truncating.
pub open spec fn to_login_info_spec(v: JsonValue) -> Option<
    (i32, u64, Seq<char>, Seq<char>, Seq<char>),
> {
    match req_i64_spec(v, "code"@) {
        None => None,
        Some(c) => {
            let code = c as i32;
            if code == 200 {
                match v.get_spec("profile"@) {
                    None => None,
                    Some(profile) => match profile.as_object_spec() {
                        None => None,
                        Some(_) => match req_u64_spec(profile, "userId"@) {
                            None => None,
                            Some(uid) => match req_str_spec(profile, "nickname"@) {
                                None => None,
                                Some(nickname) => match req_str_spec(profile, "avatarUrl"@) {
                                    None => None,
                                    Some(avatar) => Some(
                                        (code, uid, nickname, avatar, Seq::empty()),
                                    ),
                                },
                            },
                        },
                    },
                }
            } else {
                match req_str_spec(v, "msg"@) {
                    None => None,
                    Some(m) => Some((code, 0u64, Seq::empty(), Seq::empty(), m)),
                }
            }
        },
    }
}

/// Extract the login state from a login answer.
pub fn to_login_info(value: &JsonValue) -> (r: NCMResult<LoginInfo>)
    ensures
        (match r {
            Ok(l) => to_login_info_spec(*value) == Some(
                (l.code, l.uid, l.nickname@, l.avatar_url@, l.msg@),
            ),
            Err(e) => to_login_info_spec(*value) is None && e == Errors::NoneError,
        }),
{
    let c: i64 = match req_i64(value, "code") {
        Some(x) => x,
        None => {
            return Err(Errors::NoneError);
        },
    };
    let code: i32 = #[verifier::truncate] (c as i32);
    if code == 200 {
        let profile = match value.get("profile") {
            Some(v) => v,
            None => {
                return Err(Errors::NoneError);
            },
        };
        match profile.as_object() {
            Some(_) => {},
            None => {
                return Err(Errors::NoneError);
            },
        }
        let uid: u64 = match req_u64(profile, "userId") {
            Some(x) => x,
            None => {
                return Err(Errors::NoneError);
            },
        };
        let nickname: String = match req_str(profile, "nickname") {
            Some(x) => x,
            None => {
                return Err(Errors::NoneError);
            },
        };
        let avatar_url: String = match req_str(profile, "avatarUrl") {
            Some(x) => x,
            None => {
                return Err(Errors::NoneError);
            },
        };
        let empty = String::new();
        proof {
            assert(empty@ =~= Seq::<char>::empty());
        }
        return Ok(LoginInfo { code, uid, nickname, avatar_url, msg: empty });
    }
    match req_str(value, "msg") {
        Some(m) => {
            let empty_a = String::new();
            let empty_b = String::new();
            proof {
                assert(empty_a@ =~= Seq::<char>::empty());
                assert(empty_b@ =~= Seq::<char>::empty());
            }
            Ok(LoginInfo { code, uid: 0, nickname: empty_a, avatar_url: empty_b, msg: m })
        },
        None => Err(Errors::NoneError),
    }
}

} // verus!
