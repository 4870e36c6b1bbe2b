use termusic::color_editor::color_list;
use termusic::color_editor::match_color_config;
use termusic::color_editor::parse_hex_color;
use termusic::color_editor::update_color_config;
use termusic::color_editor::ColorConfig;
use termusic::player::clamp_volume;
use termusic::player::progress_percent;
use termusic::player::seek_new_position;
use termusic::player::volume_down;
use termusic::player::volume_up;
use termusic::player::PlayerError;
use termusic::playlist::LoopMode;
use termusic::playlist::MediaType;
use termusic::playlist::Playlist;
use termusic::playlist::Track;
use termusic::ui::is_radio;
use termusic::ui::ConfigEditorLayout;
use termusic::ui::TermusicLayout;
use termusic::ui::ViuerSupported;

#[test]
fn volume_steps_clamp() {
    assert_eq!(volume_up(50), 55);
    assert_eq!(volume_up(98), 100);
    assert_eq!(volume_up(i32::MAX), 100);
    assert_eq!(volume_down(50), 45);
    assert_eq!(volume_down(3), 0);
    assert_eq!(volume_down(i32::MIN), 0);
    assert_eq!(clamp_volume(140), 100);
    assert_eq!(clamp_volume(-7), 0);
    assert_eq!(clamp_volume(66), 66);
}

#[test]
fn seek_position_arithmetic() {
    assert_eq!(seek_new_position(10, 5, 100), Ok(15));
    // a backwards seek past the start lands on the start
    assert_eq!(seek_new_position(3, -10, 100), Ok(0));
    // a target past the end is refused
    assert_eq!(seek_new_position(95, 10, 100), Err(PlayerError::ExceedsDuration));
    assert_eq!(seek_new_position(i64::MAX, i64::MAX, i64::MAX), Err(PlayerError::ExceedsDuration));
}

#[test]
fn progress_percent_capped() {
    assert_eq!(progress_percent(50, 200), Ok(25));
    assert_eq!(progress_percent(200, 100), Ok(100));
    assert_eq!(progress_percent(0, 100), Ok(0));
    assert_eq!(progress_percent(5, 0), Err(PlayerError::DivideError));
}

#[test]
fn color_palette_roundtrip() {
    let list = color_list();
    assert_eq!(list.len(), 19);
    assert_eq!(list[0], ColorConfig::Reset);
    for (idx, c) in list.iter().enumerate() {
        assert_eq!(match_color_config(c), idx);
        assert_eq!(update_color_config(idx), Some(*c));
    }
    assert_eq!(update_color_config(19), None);
}

#[test]
fn hex_color_parsing() {
    assert_eq!(parse_hex_color("#ff0a1B"), Some((255, 10, 27)));
    assert_eq!(parse_hex_color("text #010203 more"), Some((1, 2, 3)));
    assert_eq!(parse_hex_color("#01020"), None);
    assert_eq!(parse_hex_color("no color here"), None);
    assert_eq!(parse_hex_color("#gg0000"), None);
}

#[test]
fn radio_query_reads_current_track() {
    let radio = Playlist::new(LoopMode::Playlist, 0, vec![Track {
        media_type: MediaType::LiveRadio,
        file: Some("http://radio.example/live".to_string()),
        podcast_localfile: None,
    }]);
    assert!(is_radio(&radio));
    let music = Playlist::new(LoopMode::Playlist, 0, vec![Track {
        media_type: MediaType::Music,
        file: Some("/a.mp3".to_string()),
        podcast_localfile: None,
    }]);
    assert!(!is_radio(&music));
    assert!(!is_radio(&Playlist::new(LoopMode::Playlist, 0, vec![])));
}

#[test]
fn ui_enums_carry_their_states() {
    assert_ne!(TermusicLayout::TreeView, TermusicLayout::Podcast);
    assert_ne!(ConfigEditorLayout::General, ConfigEditorLayout::Color);
    assert_eq!(ViuerSupported::NotSupported, ViuerSupported::NotSupported);
    assert_ne!(ViuerSupported::Kitty, ViuerSupported::Sixel);
}
