use termusic::utils::absolute_path_base;
use termusic::utils::filetype_supported;
use termusic::utils::get_pin_yin;
use termusic::utils::grapheme_len;
use termusic::utils::is_playlist;
use termusic::utils::parse_usize;
use termusic::utils::random_ascii;
use termusic::utils::substr;
use termusic::utils::trim;
use termusic::utils::usize_to_string;
use termusic::utils::StringUtils;

#[test]
fn test_pin_yin() {
    assert_eq!(get_pin_yin("陈一发儿"), "chenyifaer".to_string());
    assert_eq!(get_pin_yin("Gala乐队"), "GALAledui".to_string());
    assert_eq!(get_pin_yin("乐队Gala乐队"), "leduiGALAledui".to_string());
    assert_eq!(get_pin_yin("Annett Louisan"), "ANNETT LOUISAN".to_string());
}

#[test]
fn test_substr() {
    // 0 length fallback
    assert_eq!(substr("abcde", 0, 0), "");

    assert_eq!(substr("abcde", 0, 1), "a");
    assert_eq!(substr("abcde", 4, 1), "e");

    // something starting beyond the current string
    assert_eq!(substr("abcde", 100, 1), "");
    // requesting more length that is available
    assert_eq!(substr("abcde", 3, 3), "de");

    assert_eq!(substr("陈一发儿", 0, 1), "陈");
    assert_eq!(substr("陈一发儿", 3, 1), "儿");
}

#[test]
fn substr_through_trait() {
    let s = String::from("abcde");
    assert_eq!(s.substr(1, 3), "bcd");
    assert_eq!(s.grapheme_len(), 5);
    let u = String::from("陈一发儿");
    assert_eq!(u.substr(1, 2), "一发");
}

#[test]
fn grapheme_len_counts_clusters() {
    assert_eq!(grapheme_len(""), 0);
    assert_eq!(grapheme_len("abc"), 3);
    assert_eq!(grapheme_len("陈一发儿"), 4);
}

#[test]
fn filetype_supported_by_extension() {
    assert!(filetype_supported("/tmp/music/song.mp3"));
    assert!(filetype_supported("relative/dir/a.flac"));
    assert!(filetype_supported("x.mkv"));
    assert!(filetype_supported("x.mka"));
    assert!(filetype_supported("x.aiff"));
    assert!(filetype_supported("x.m4a"));
    assert!(filetype_supported("x.aac"));
    assert!(filetype_supported("x.opus"));
    assert!(filetype_supported("x.ogg"));
    assert!(filetype_supported("x.wav"));
    assert!(filetype_supported("x.webm"));
    assert!(!filetype_supported("x.txt"));
    assert!(!filetype_supported("no_extension"));
    assert!(!filetype_supported(".mp3"));
    assert!(!filetype_supported("dir.mp3/file"));
    // a first path component of exactly `http`
    assert!(filetype_supported("http/anything"));
    // a real URL's first component carries its colon
    assert!(!filetype_supported("http://example.com/stream"));
}

#[test]
fn is_playlist_by_extension() {
    assert!(is_playlist("a.m3u"));
    assert!(is_playlist("b/c.m3u8"));
    assert!(is_playlist("d.pls"));
    assert!(is_playlist("e.asx"));
    assert!(is_playlist("f.xspf"));
    assert!(!is_playlist("f.mp3"));
    assert!(!is_playlist("f"));
}

#[test]
fn absolute_path_base_joins() {
    assert_eq!(absolute_path_base("/already/abs", "/base"), "/already/abs");
    assert_eq!(absolute_path_base("rel/p", "/base"), "/base/rel/p");
    assert_eq!(absolute_path_base("rel/p", "/base/"), "/base/rel/p");
    assert_eq!(absolute_path_base("rel", ""), "rel");
}

#[test]
fn random_ascii_charset_and_len() {
    let s = random_ascii(32);
    assert_eq!(s.chars().count(), 32);
    for c in s.chars() {
        assert!(c.is_ascii_lowercase() || c.is_ascii_digit());
    }
    assert_eq!(random_ascii(0), "");
}

#[test]
fn parse_usize_cases() {
    assert_eq!(parse_usize("0"), Some(0));
    assert_eq!(parse_usize("42"), Some(42));
    assert_eq!(parse_usize("+7"), Some(7));
    assert_eq!(parse_usize(""), None);
    assert_eq!(parse_usize("+"), None);
    assert_eq!(parse_usize("12a"), None);
    assert_eq!(parse_usize("-1"), None);
    assert_eq!(parse_usize("18446744073709551615"), Some(usize::MAX));
    assert_eq!(parse_usize("18446744073709551616"), None);
}

#[test]
fn trim_strips_ascii_whitespace() {
    assert_eq!(trim("  12\r\n"), "12");
    assert_eq!(trim("\t a b \t"), "a b");
    assert_eq!(trim(""), "");
    assert_eq!(trim(" \n "), "");
}

#[test]
fn usize_to_string_decimal() {
    assert_eq!(usize_to_string(0), "0");
    assert_eq!(usize_to_string(7), "7");
    assert_eq!(usize_to_string(105), "105");
    assert_eq!(usize_to_string(18446744073709551615), "18446744073709551615");
}
