//! Extraction of song tags, lyrics and URLs from the kugou service's
//! JSON answers.

use crate::json::JsonValue;
use crate::songtag::ServiceProvider;
use crate::songtag::SongTag;
use crate::songtag::SongTagModel;
use crate::songtag::UrlTypes;
use base64::Engine as _;
use vstd::prelude::*;

verus! {

/// What decoding a standard-alphabet, padded base64 text yields: the
/// bytes, or nothing when the text is not valid base64.
pub uninterp spec fn base64_standard_decode(s: Seq<char>) -> Option<Seq<u8>>;

/// Relies on `base64::engine::general_purpose::STANDARD.decode`: the
/// decoded bytes depend on the text alone, and the empty text decodes to
/// no bytes.
#[verifier::external_body]
fn b64_decode(s: &str) -> (r: Option<Vec<u8>>)
    ensures
        (match r {
            Some(b) => base64_standard_decode(s@) == Some(b@),
            None => base64_standard_decode(s@) is None,
        }),
        (match r {
            Some(b) => s@.len() == 0 ==> b@.len() == 0,
            None => s@.len() > 0,
        }),
{
    base64::engine::general_purpose::STANDARD.decode(s).ok()
}

/// Relies on `String::from_utf8`: it succeeds exactly on valid UTF-8 and
/// yields the decoded characters, as the UTF-8 specification defines
/// them.
#[verifier::external_body]
fn utf8_to_string(b: Vec<u8>) -> (r: Option<String>)
    ensures
        r is Some <==> vstd::utf8::valid_utf8(b@),
        (r matches Some(s) ==> s@ == vstd::utf8::decode_utf8(b@)),
{
    String::from_utf8(b).ok()
}

/// The lyric text an answer carries: under status 200, the base64-decoded
/// `content` field, when it is valid base64 and valid UTF-8.
pub open spec fn to_lyric_spec(v: JsonValue) -> Option<Seq<char>> {
    match v.get_spec("status"@) {
        None => None,
        Some(st) => if !st.eq_i64_spec(200) {
            None
        } else {
            match v.get_spec("content"@) {
                None => None,
                Some(c) => match c.as_str_spec() {
                    None => None,
                    Some(lyric) => match base64_standard_decode(lyric) {
                        Some(bytes) => if vstd::utf8::valid_utf8(bytes) {
                            Some(vstd::utf8::decode_utf8(bytes))
                        } else {
                            None
                        },
                        None => None,
                    },
                },
            }
        },
    }
}

/// Extract the lyric text from a lyric-download answer.
pub fn to_lyric(value: &JsonValue) -> (r: Option<String>)
    ensures
        (match r {
            Some(s) => to_lyric_spec(*value) == Some(s@),
            None => to_lyric_spec(*value) is None,
        }),
{
    let st = match value.get("status") {
        Some(v) => v,
        None => {
            return None;
        },
    };
    if !st.eq_i64(200) {
        return None;
    }
    let content = match value.get("content") {
        Some(v) => v,
        None => {
            return None;
        },
    };
    let lyric = match content.as_str() {
        Some(s) => s,
        None => {
            return None;
        },
    };
    let decoded = match b64_decode(lyric) {
        Some(b) => b,
        None => {
            return None;
        },
    };
    utf8_to_string(decoded)
}

/// The access key a candidate carries, with the service's fallback text
/// for a missing or malformed one.
pub open spec fn accesskey_spec(cand: JsonValue) -> Seq<char> {
    match cand.get_spec("accesskey"@) {
        Some(a) => match a.as_str_spec() {
            Some(s) => s,
            None => "Unknown Access Key"@,
        },
        None => "Unknown Access Key"@,
    }
}

/// The lyric id and access key an answer carries: under errcode 200, from
/// the first candidate.
pub open spec fn to_lyric_id_accesskey_spec(v: JsonValue) -> Option<(Seq<char>, Seq<char>)> {
    match v.get_spec("errcode"@) {
        None => None,
        Some(ec) => if !ec.eq_i64_spec(200) {
            None
        } else {
            match v.get_spec("candidates"@) {
                None => None,
                Some(cands) => match cands.get_idx_spec(0) {
                    None => None,
                    Some(cand) => match cand.get_spec("id"@) {
                        None => None,
                        Some(idv) => match idv.as_str_spec() {
                            None => None,
                            Some(id) => Some((accesskey_spec(cand), id)),
                        },
                    },
                },
            }
        },
    }
}

/// Extract the first candidate's access key and lyric id from a
/// lyric-search answer.
pub fn to_lyric_id_accesskey(value: &JsonValue) -> (r: Option<(String, String)>)
    ensures
        (match r {
            Some(p) => to_lyric_id_accesskey_spec(*value) == Some((p.0@, p.1@)),
            None => to_lyric_id_accesskey_spec(*value) is None,
        }),
{
    let ec = match value.get("errcode") {
        Some(v) => v,
        None => {
            return None;
        },
    };
    if !ec.eq_i64(200) {
        return None;
    }
    let cands = match value.get("candidates") {
        Some(v) => v,
        None => {
            return None;
        },
    };
    let cand = match cands.get_idx(0) {
        Some(v) => v,
        None => {
            return None;
        },
    };
    let accesskey: String = match cand.get("accesskey") {
        Some(a) => match a.as_str() {
            Some(s) => String::from_str(s),
            None => String::from_str("Unknown Access Key"),
        },
        None => String::from_str("Unknown Access Key"),
    };
    let id: String = match cand.get("id") {
        Some(idv) => match idv.as_str() {
            Some(s) => String::from_str(s),
            None => {
                return None;
            },
        },
        None => {
            return None;
        },
    };
    Some((accesskey, id))
}

/// The text a field carries, with the empty fallback the service's URL
/// answers use: a missing or malformed field reads as empty.
pub open spec fn str_or_empty_spec(v: JsonValue, key: Seq<char>) -> Seq<char> {
    match v.get_spec(key) {
        Some(f) => match f.as_str_spec() {
            Some(s) => s,
            None => Seq::empty(),
        },
        None => Seq::empty(),
    }
}

fn str_or_empty(v: &JsonValue, key: &str) -> (r: String)
    ensures
        r@ == str_or_empty_spec(*v, key@),
{
    match v.get(key) {
        Some(f) => match f.as_str() {
            Some(s) => String::from_str(s),
            None => {
                let e = String::new();
                proof {
                    assert(e@ =~= Seq::<char>::empty());
                }
                e
            },
        },
        None => {
            let e = String::new();
            proof {
                assert(e@ =~= Seq::<char>::empty());
            }
            e
        },
    }
}

/// The play URL an answer carries: under status 1, the `play_url` field
/// of `data`, reading as empty when missing or malformed.
pub open spec fn to_song_url_spec(v: JsonValue) -> Option<Seq<char>> {
    match v.get_spec("status"@) {
        None => None,
        Some(st) => if !st.eq_i64_spec(1) {
            None
        } else {
            match v.get_spec("data"@) {
                None => None,
                Some(data) => Some(str_or_empty_spec(data, "play_url"@)),
            }
        },
    }
}

/// Extract the play URL from a song-URL answer.
pub fn to_song_url(value: &JsonValue) -> (r: Option<String>)
    ensures
        (match r {
            Some(s) => to_song_url_spec(*value) == Some(s@),
            None => to_song_url_spec(*value) is None,
        }),
{
    let st = match value.get("status") {
        Some(v) => v,
        None => {
            return None;
        },
    };
    if !st.eq_i64(1) {
        return None;
    }
    let data = match value.get("data") {
        Some(v) => v,
        None => {
            return None;
        },
    };
    Some(str_or_empty(data, "play_url"))
}

/// The picture URL an answer carries: under status 1, the `img` field of
/// `data`, reading as empty when missing or malformed.
pub open spec fn to_pic_url_spec(v: JsonValue) -> Option<Seq<char>> {
    match v.get_spec("status"@) {
        None => None,
        Some(st) => if !st.eq_i64_spec(1) {
            None
        } else {
            match v.get_spec("data"@) {
                None => None,
                Some(data) => Some(str_or_empty_spec(data, "img"@)),
            }
        },
    }
}

/// Extract the album-picture URL from a picture answer.
pub fn to_pic_url(value: &JsonValue) -> (r: Option<String>)
    ensures
        (match r {
            Some(s) => to_pic_url_spec(*value) == Some(s@),
            None => to_pic_url_spec(*value) is None,
        }),
{
    let st = match value.get("status") {
        Some(v) => v,
        None => {
            return None;
        },
    };
    if !st.eq_i64(1) {
        return None;
    }
    let data = match value.get("data") {
        Some(v) => v,
        None => {
            return None;
        },
    };
    Some(str_or_empty(data, "img"))
}

/// The text a field carries, with a named fallback for a missing field
/// and the empty fallback for a present but malformed one.
pub open spec fn str_or_default_spec(
    v: JsonValue,
    key: Seq<char>,
    absent: Seq<char>,
    malformed: Seq<char>,
) -> Seq<char> {
    match v.get_spec(key) {
        Some(f) => match f.as_str_spec() {
            Some(s) => s,
            None => malformed,
        },
        None => absent,
    }
}

/// The song tag one entry of a search answer yields, when its required
/// fields are present.
pub open spec fn parse_song_info_spec(v: JsonValue) -> Option<SongTagModel> {
    let price = match v.get_spec("price"@) {
        Some(p) => match p.as_u64_spec() {
            Some(n) => n,
            None => 0u64,
        },
        None => 0u64,
    };
    let url = if price == 0 {
        UrlTypes::AvailableRequiresFetching
    } else {
        UrlTypes::Protected
    };
    match v.get_spec("hash"@) {
        None => None,
        Some(hash_v) => match hash_v.as_str_spec() {
            None => None,
            Some(hash) => match v.get_spec("songname"@) {
                None => None,
                Some(title_v) => match title_v.as_str_spec() {
                    None => None,
                    Some(title) => match v.get_spec("album_id"@) {
                        None => None,
                        Some(aid_v) => match aid_v.as_str_spec() {
                            None => None,
                            Some(album_id) => Some(
                                SongTagModel {
                                    artist: Some(
                                        str_or_default_spec(
                                            v,
                                            "singername"@,
                                            "Unknown Artist"@,
                                            "Unknown Artist"@,
                                        ),
                                    ),
                                    title: Some(title),
                                    album: Some(
                                        str_or_default_spec(
                                            v,
                                            "album_name"@,
                                            "Unknown Album"@,
                                            Seq::empty(),
                                        ),
                                    ),
                                    lang_ext: Some("kugou"@),
                                    service_provider: ServiceProvider::Kugou,
                                    song_id: hash,
                                    lyric_id: Some(hash),
                                    url: Some(url),
                                    pic_id: Some(hash),
                                    album_id: Some(album_id),
                                },
                            ),
                        },
                    },
                },
            },
        },
    }
}

fn parse_song_info(v: &JsonValue) -> (r: Option<SongTag>)
    ensures
        (match r {
            Some(t) => parse_song_info_spec(*v) == Some(t@),
            None => parse_song_info_spec(*v) is None,
        }),
{
    let price: u64 = match v.get("price") {
        Some(p) => match p.as_u64() {
            Some(n) => n,
            None => 0,
        },
        None => 0,
    };
    let url = if price == 0 {
        UrlTypes::AvailableRequiresFetching
    } else {
        UrlTypes::Protected
    };
    let hash: String = match v.get("hash") {
        Some(h) => match h.as_str() {
            Some(s) => String::from_str(s),
            None => {
                return None;
            },
        },
        None => {
            return None;
        },
    };
    let title: String = match v.get("songname") {
        Some(t) => match t.as_str() {
            Some(s) => String::from_str(s),
            None => {
                return None;
            },
        },
        None => {
            return None;
        },
    };
    let album_id: String = match v.get("album_id") {
        Some(a) => match a.as_str() {
            Some(s) => String::from_str(s),
            None => {
                return None;
            },
        },
        None => {
            return None;
        },
    };
    let artist: String = match v.get("singername") {
        Some(a) => match a.as_str() {
            Some(s) => String::from_str(s),
            None => String::from_str("Unknown Artist"),
        },
        None => String::from_str("Unknown Artist"),
    };
    let album: String = match v.get("album_name") {
        Some(a) => match a.as_str() {
            Some(s) => String::from_str(s),
            None => {
                let e = String::new();
                proof {
                    assert(e@ =~= Seq::<char>::empty());
                }
                e
            },
        },
        None => String::from_str("Unknown Album"),
    };
    Some(
        SongTag {
            artist: Some(artist),
            title: Some(title),
            album: Some(album),
            lang_ext: Some(String::from_str("kugou")),
            service_provider: ServiceProvider::Kugou,
            song_id: hash.clone(),
            lyric_id: Some(hash.clone()),
            url: Some(url),
            pic_id: Some(hash),
            album_id: Some(album_id),
        },
    )
}

/// The song tags of a search answer's entries, in order, skipping
/// entries whose required fields are missing.
pub open spec fn songs_of_entries(entries: Seq<JsonValue>, i: int) -> Seq<SongTagModel>
    decreases entries.len() - i,
{
    if i < 0 || i >= entries.len() {
        Seq::empty()
    } else {
        let rest = songs_of_entries(entries, i + 1);
        match parse_song_info_spec(entries[i]) {
            Some(t) => seq![t] + rest,
            None => rest,
        }
    }
}

/// The song tags a search answer carries: under status 1, the parseable
/// entries of `data.info`.
pub open spec fn to_song_info_spec(v: JsonValue) -> Option<Seq<SongTagModel>> {
    match v.get_spec("status"@) {
        None => None,
        Some(st) => if !st.eq_i64_spec(1) {
            None
        } else {
            match v.get_spec("data"@) {
                None => None,
                Some(data) => match data.get_spec("info"@) {
                    None => None,
                    Some(info) => match info.as_array_spec() {
                        None => None,
                        Some(entries) => Some(songs_of_entries(entries, 0)),
                    },
                },
            }
        },
    }
}

/// Extract the song tags from a search answer.
pub fn to_song_info(value: &JsonValue) -> (r: Option<Vec<SongTag>>)
    ensures
        (match r {
            Some(v) => to_song_info_spec(*value) == Some(v@.map_values(|t: SongTag| t@)),
            None => to_song_info_spec(*value) is None,
        }),
{
    let st = match value.get("status") {
        Some(v) => v,
        None => {
            return None;
        },
    };
    if !st.eq_i64(1) {
        return None;
    }
    let data = match value.get("data") {
        Some(v) => v,
        None => {
            return None;
        },
    };
    let info = match data.get("info") {
        Some(v) => v,
        None => {
            return None;
        },
    };
    let entries = match info.as_array() {
        Some(v) => v,
        None => {
            return None;
        },
    };
    let n: usize = entries.len();
    let mut out: Vec<SongTag> = Vec::new();
    let mut i: usize = n;
    proof {
        assert(out@.map_values(|t: SongTag| t@) =~= songs_of_entries(entries@, n as int));
    }
    while i > 0
        invariant
            i <= n,
            n == entries@.len(),
            out@.map_values(|t: SongTag| t@) == songs_of_entries(entries@, i as int),
        decreases i,
    {
        i = i - 1;
        match parse_song_info(&entries[i]) {
            Some(item) => {
                out.insert(0, item);
            },
            None => {},
        }
        proof {
            assert(out@.map_values(|t: SongTag| t@) =~= songs_of_entries(entries@, i as int));
        }
    }
    Some(out)
}

} // verus!
