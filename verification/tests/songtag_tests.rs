use termusic::json::JsonField;
use termusic::json::JsonNumber;
use termusic::json::JsonValue;
use termusic::lyric::migu;
use termusic::lyric::Errors;
use termusic::songtag::kugou;
use termusic::songtag::UrlTypes;

/// Turn parsed JSON text into the library's JSON value.
fn convert(v: serde_json::Value) -> JsonValue {
    match v {
        serde_json::Value::Null => JsonValue::Null,
        serde_json::Value::Bool(b) => JsonValue::Bool(b),
        serde_json::Value::Number(n) => JsonValue::Number(JsonNumber {
            int64: n.as_i64(),
            uint64: n.as_u64(),
        }),
        serde_json::Value::String(s) => JsonValue::Str(s),
        serde_json::Value::Array(a) => JsonValue::Array(a.into_iter().map(convert).collect()),
        serde_json::Value::Object(o) => JsonValue::Object(
            o.into_iter()
                .map(|(key, value)| JsonField {
                    key,
                    value: convert(value),
                })
                .collect(),
        ),
    }
}

fn parse(text: &str) -> JsonValue {
    convert(serde_json::from_str::<serde_json::Value>(text).unwrap())
}

#[test]
fn should_parse_songinfo() {
    let sample_data = r#"{
            "status": 1,
            "errcode": 0,
            "data": {
              "timestamp": 1111111111,
              "tab": "",
              "forcecorrection": 0,
              "correctiontype": 0,
              "total": 0,
              "istag": 0,
              "allowerr": 0,
              "info": [],
              "aggregation": [],
              "correctiontip": "",
              "istagresult": 0
            },
            "error": ""
          }"#;

    let res = kugou::to_song_info(&parse(sample_data)).unwrap();

    assert_eq!(res.len(), 0);
}

#[test]
fn kugou_song_info_with_entry() {
    let text = r#"{
        "status": 1,
        "data": { "info": [
            { "hash": "h1", "songname": "Song One", "singername": "One Artist",
              "album_name": "One Album", "album_id": "a1", "price": 0 },
            { "songname": "broken entry without hash" },
            { "hash": "h2", "songname": "Song Two", "album_id": "a2", "price": 5 }
        ] }
    }"#;
    let res = kugou::to_song_info(&parse(text)).unwrap();
    assert_eq!(res.len(), 2);
    assert_eq!(res[0].song_id, "h1");
    assert_eq!(res[0].title.as_deref(), Some("Song One"));
    assert_eq!(res[0].artist.as_deref(), Some("One Artist"));
    assert_eq!(res[0].album.as_deref(), Some("One Album"));
    assert_eq!(res[0].url, Some(UrlTypes::AvailableRequiresFetching));
    assert_eq!(res[1].song_id, "h2");
    assert_eq!(res[1].artist.as_deref(), Some("Unknown Artist"));
    assert_eq!(res[1].album.as_deref(), Some("Unknown Album"));
    assert_eq!(res[1].url, Some(UrlTypes::Protected));
}

#[test]
fn kugou_song_info_bad_status() {
    assert!(kugou::to_song_info(&parse(r#"{"status": 0}"#)).is_none());
    assert!(kugou::to_song_info(&parse(r#"{}"#)).is_none());
}

#[test]
fn kugou_lyric_decodes_base64() {
    // "aGVsbG8gbHlyaWM=" is the base64 of "hello lyric"
    let text = r#"{ "status": 200, "content": "aGVsbG8gbHlyaWM=" }"#;
    assert_eq!(kugou::to_lyric(&parse(text)).as_deref(), Some("hello lyric"));
    // malformed base64 yields nothing
    let bad = r#"{ "status": 200, "content": "!!!" }"#;
    assert!(kugou::to_lyric(&parse(bad)).is_none());
    // wrong status yields nothing
    let off = r#"{ "status": 404, "content": "aGVsbG8=" }"#;
    assert!(kugou::to_lyric(&parse(off)).is_none());
}

#[test]
fn kugou_lyric_id_accesskey() {
    let text = r#"{ "errcode": 200, "candidates": [
        { "accesskey": "KEY", "id": "42" } ] }"#;
    let (key, id) = kugou::to_lyric_id_accesskey(&parse(text)).unwrap();
    assert_eq!(key, "KEY");
    assert_eq!(id, "42");
    let missing = r#"{ "errcode": 200, "candidates": [ { "id": "42" } ] }"#;
    let (key2, _) = kugou::to_lyric_id_accesskey(&parse(missing)).unwrap();
    assert_eq!(key2, "Unknown Access Key");
}

#[test]
fn kugou_urls() {
    let text = r#"{ "status": 1, "data": { "play_url": "http://u", "img": "http://i" } }"#;
    assert_eq!(kugou::to_song_url(&parse(text)).as_deref(), Some("http://u"));
    assert_eq!(kugou::to_pic_url(&parse(text)).as_deref(), Some("http://i"));
    assert!(kugou::to_song_url(&parse(r#"{ "status": 0 }"#)).is_none());
}

#[test]
fn migu_lyric() {
    let ok = r#"{ "msg": "成功", "lyric": "line one" }"#;
    assert_eq!(migu::to_lyric(&parse(ok)).unwrap(), "line one");
    let bad = r#"{ "msg": "failed", "lyric": "line one" }"#;
    assert_eq!(migu::to_lyric(&parse(bad)).unwrap_err(), Errors::NoneError);
    let missing = r#"{ "msg": "成功" }"#;
    assert_eq!(migu::to_lyric(&parse(missing)).unwrap_err(), Errors::NoneError);
}

#[test]
fn migu_singer_info() {
    let text = r#"{ "code": 200, "result": { "artists": [
        { "id": 5, "name": "One", "picUrl": "p" },
        { "id": 6, "name": "Two" } ] } }"#;
    let res = migu::to_singer_info(&parse(text)).unwrap();
    assert_eq!(res.len(), 2);
    assert_eq!(res[0].id, 5);
    assert_eq!(res[0].name, "One");
    assert_eq!(res[0].pic_url, "p");
    assert_eq!(res[1].pic_url, "");
    // a missing required field anywhere aborts the whole extraction
    let broken = r#"{ "code": 200, "result": { "artists": [ { "id": 5 } ] } }"#;
    assert_eq!(migu::to_singer_info(&parse(broken)).unwrap_err(), Errors::NoneError);
}

#[test]
fn migu_song_url_skips_empty() {
    let text = r#"{ "status": 1, "data": { "info": [
        { "url": "", "id": 1, "br": 128 },
        { "url": "http://u", "id": 2, "br": 320 } ] } }"#;
    let res = migu::to_song_url(&parse(text)).unwrap();
    assert_eq!(res.len(), 1);
    assert_eq!(res[0].id, 2);
    assert_eq!(res[0].url, "http://u");
    assert_eq!(res[0].rate, 320);
}

#[test]
fn migu_song_info_search() {
    let text = r#"{ "success": true, "musics": [
        { "cover": "c", "songName": "S", "albumId": "al", "id": "i",
          "copyrightId": "cp", "singerName": "A", "albumName": "B", "mp3": "m" } ] }"#;
    let res = migu::to_song_info(&parse(text), migu::Parse::SEARCH).unwrap();
    assert_eq!(res.len(), 1);
    assert_eq!(res[0].song_id.as_deref(), Some("i"));
    assert_eq!(res[0].title.as_deref(), Some("S"));
    assert_eq!(res[0].artist.as_deref(), Some("A"));
    assert_eq!(res[0].lang_ext.as_deref(), Some("chi"));
    assert_eq!(res[0].service_provider.as_deref(), Some("migu"));
    // an absent musics list reads as no songs
    let empty = r#"{ "success": true }"#;
    assert_eq!(migu::to_song_info(&parse(empty), migu::Parse::SEARCH).unwrap().len(), 0);
    // only the search shape is understood
    let wrong = migu::to_song_info(&parse(text), migu::Parse::TOP);
    assert_eq!(wrong.unwrap_err(), Errors::NoneError);
}

#[test]
fn migu_song_list_shapes() {
    let usl = r#"{ "code": 200, "playlist": [
        { "id": 1, "name": "L", "coverImgUrl": "c" } ] }"#;
    let res = migu::to_song_list(&parse(usl), migu::Parse::USL).unwrap();
    assert_eq!(res.len(), 1);
    assert_eq!(res[0].cover_img_url, "c");
    let rmd = r#"{ "code": 200, "recommend": [ { "id": 2, "name": "M" } ] }"#;
    let res2 = migu::to_song_list(&parse(rmd), migu::Parse::RMD).unwrap();
    assert_eq!(res2[0].cover_img_url, "");
    // a shape without lists reads as none of them
    let other = migu::to_song_list(&parse(usl), migu::Parse::SD).unwrap();
    assert_eq!(other.len(), 0);
}

#[test]
fn migu_msg_and_login() {
    let ok = r#"{ "code": 200 }"#;
    let m = migu::to_msg(&parse(ok)).unwrap();
    assert_eq!(m.code, 200);
    assert_eq!(m.msg, "");
    let no = r#"{ "code": 500, "msg": "oops" }"#;
    let m2 = migu::to_msg(&parse(no)).unwrap();
    assert_eq!(m2.code, 500);
    assert_eq!(m2.msg, "oops");

    let login = r#"{ "code": 200, "profile": {
        "userId": 9, "nickname": "nick", "avatarUrl": "av" } }"#;
    let l = migu::to_login_info(&parse(login)).unwrap();
    assert_eq!((l.code, l.uid), (200, 9));
    assert_eq!(l.nickname, "nick");
    assert_eq!(l.avatar_url, "av");
    let denied = r#"{ "code": 403, "msg": "denied" }"#;
    let l2 = migu::to_login_info(&parse(denied)).unwrap();
    assert_eq!(l2.code, 403);
    assert_eq!(l2.msg, "denied");
    assert_eq!(l2.uid, 0);
}
