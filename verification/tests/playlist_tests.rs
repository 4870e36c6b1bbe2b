use termusic::playlist::Episode;
use termusic::playlist::FileProbe;
use termusic::playlist::LoopMode;
use termusic::playlist::MediaType;
use termusic::playlist::Playlist;
use termusic::playlist::PlaylistAddError;
use termusic::playlist::PlaylistAddErrorVec;
use termusic::playlist::Status;
use termusic::playlist::Track;

fn local_track(file: &str) -> Track {
    Track {
        media_type: MediaType::Music,
        file: Some(file.to_string()),
        podcast_localfile: None,
    }
}

fn playlist_with(files: &[&str]) -> Playlist {
    let tracks: Vec<Track> = files.iter().map(|f| local_track(f)).collect();
    Playlist::new(LoopMode::Playlist, 0, tracks)
}

#[test]
fn status_roundtrip() {
    assert_eq!(Status::Stopped.as_u32(), 0);
    assert_eq!(Status::Running.as_u32(), 1);
    assert_eq!(Status::Paused.as_u32(), 2);
    for s in [Status::Stopped, Status::Running, Status::Paused] {
        assert_eq!(Status::from_u32(s.as_u32()), s);
    }
    assert_eq!(Status::from_u32(77), Status::Stopped);
    assert_eq!(Status::Running.as_text(), "Running");
}

#[test]
fn add_track_radio() {
    let mut p = playlist_with(&[]);
    let probe = FileProbe { exists: false, read: Err("unused".to_string()) };
    assert!(p.add_track("http://radio.example/stream", probe).is_ok());
    assert_eq!(p.len(), 1);
    let t = &p.tracks()[0];
    assert_eq!(t.media_type, MediaType::LiveRadio);
    assert_eq!(t.file.as_deref(), Some("http://radio.example/stream"));
}

#[test]
fn add_track_unsupported_filetype() {
    let mut p = playlist_with(&[]);
    let probe = FileProbe { exists: true, read: Err("unused".to_string()) };
    match p.add_track("/music/notes.txt", probe) {
        Err(PlaylistAddError::UnsupportedFileType(ext, path)) => {
            assert_eq!(ext.as_deref(), Some("txt"));
            assert_eq!(path, "/music/notes.txt");
        }
        other => panic!("expected UnsupportedFileType, got {other:?}"),
    }
    assert_eq!(p.len(), 0);
}

#[test]
fn add_track_path_does_not_exist() {
    let mut p = playlist_with(&[]);
    let probe = FileProbe { exists: false, read: Err("unused".to_string()) };
    match p.add_track("/music/gone.mp3", probe) {
        Err(PlaylistAddError::PathDoesNotExist(path)) => {
            assert_eq!(path, "/music/gone.mp3");
        }
        other => panic!("expected PathDoesNotExist, got {other:?}"),
    }
}

#[test]
fn add_track_read_error() {
    let mut p = playlist_with(&[]);
    let probe = FileProbe { exists: true, read: Err("tag soup".to_string()) };
    match p.add_track("/music/odd.mp3", probe) {
        Err(PlaylistAddError::ReadError(msg, path)) => {
            assert_eq!(msg, "tag soup");
            assert_eq!(path, "/music/odd.mp3");
        }
        other => panic!("expected ReadError, got {other:?}"),
    }
}

#[test]
fn add_track_local_success() {
    let mut p = playlist_with(&[]);
    let probe = FileProbe { exists: true, read: Ok(local_track("/music/a.mp3")) };
    assert!(p.add_track("/music/a.mp3", probe).is_ok());
    assert_eq!(p.len(), 1);
}

#[test]
fn add_playlist_collects_errors() {
    let mut p = playlist_with(&[]);
    let items = vec![
        ("/a.mp3".to_string(), FileProbe { exists: true, read: Ok(local_track("/a.mp3")) }),
        ("/b.doc".to_string(), FileProbe { exists: true, read: Err(String::new()) }),
        ("/c.mp3".to_string(), FileProbe { exists: false, read: Err(String::new()) }),
    ];
    let err = p.add_playlist(items).unwrap_err();
    assert!(!err.is_empty());
    assert_eq!(err.0.len(), 2);
    assert_eq!(p.len(), 1);
    let text = err.message();
    assert!(text.starts_with("2 Error(s) happened:\n"));
    assert!(text.contains("Unsupported File type \"Some(doc)\" at \"/b.doc\""));
    assert!(text.contains("Path does not exist: \"/c.mp3\""));
}

#[test]
fn error_vec_push_and_message() {
    let mut v = PlaylistAddErrorVec::default();
    assert!(v.is_empty());
    v.push(PlaylistAddError::PathDoesNotExist("/x.mp3".to_string()));
    assert!(!v.is_empty());
    assert_eq!(
        v.message(),
        "1 Error(s) happened:\n  - Failed to add to playlist because of: Path does not exist: \"/x.mp3\"\n"
    );
}

#[test]
fn next_and_previous_in_playlist_mode() {
    let mut p = playlist_with(&["/a.mp3", "/b.mp3", "/c.mp3"]);
    p.next();
    assert_eq!(p.get_current_track_index(), 1);
    p.next();
    assert_eq!(p.get_current_track_index(), 2);
    p.next();
    // wraps at the end
    assert_eq!(p.get_current_track_index(), 0);
    // previous pops the history in reverse order
    p.previous();
    assert_eq!(p.get_current_track_index(), 2);
    p.previous();
    assert_eq!(p.get_current_track_index(), 1);
    p.previous();
    assert_eq!(p.get_current_track_index(), 0);
    // with an empty history it walks backwards, wrapping at the start
    p.previous();
    assert_eq!(p.get_current_track_index(), 2);
}

#[test]
fn next_respects_single_mode_and_next_index() {
    let mut p = Playlist::new(LoopMode::Single, 1, vec![
        local_track("/a.mp3"),
        local_track("/b.mp3"),
    ]);
    p.next();
    assert_eq!(p.get_current_track_index(), 1);
    p.set_next_track(Some(0));
    assert!(p.has_next_track());
    p.next();
    assert_eq!(p.get_current_track_index(), 0);
}

#[test]
fn proceed_arms_then_advances() {
    let mut p = playlist_with(&["/a.mp3", "/b.mp3"]);
    p.proceed();
    assert_eq!(p.get_current_track_index(), 0);
    p.proceed();
    assert_eq!(p.get_current_track_index(), 1);
    p.proceed_false();
    p.proceed();
    assert_eq!(p.get_current_track_index(), 1);
}

#[test]
fn random_mode_picks_another_index() {
    let mut p = Playlist::new(LoopMode::Random, 0, vec![
        local_track("/a.mp3"),
        local_track("/b.mp3"),
        local_track("/c.mp3"),
    ]);
    for _ in 0..20 {
        let before = p.get_current_track_index();
        p.next();
        let after = p.get_current_track_index();
        assert!(after < 3);
        assert_ne!(after, before);
    }
    let mut single = Playlist::new(LoopMode::Random, 0, vec![local_track("/a.mp3")]);
    single.next();
    assert_eq!(single.get_current_track_index(), 0);
}

#[test]
fn swaps_keep_current_track() {
    let mut p = playlist_with(&["/a.mp3", "/b.mp3", "/c.mp3"]);
    p.set_current_track_index(1);
    p.swap_down(1);
    assert_eq!(p.tracks()[1].file.as_deref(), Some("/c.mp3"));
    assert_eq!(p.tracks()[2].file.as_deref(), Some("/b.mp3"));
    assert_eq!(p.get_current_track_index(), 2);
    p.swap_up(2);
    assert_eq!(p.tracks()[1].file.as_deref(), Some("/b.mp3"));
    assert_eq!(p.get_current_track_index(), 1);
    // no-ops at the edges
    p.swap_up(0);
    p.swap_down(2);
    assert_eq!(p.len(), 3);
}

#[test]
fn remove_adjusts_current_index() {
    let mut p = playlist_with(&["/a.mp3", "/b.mp3", "/c.mp3"]);
    p.set_current_track_index(2);
    p.remove(0);
    assert_eq!(p.len(), 2);
    assert_eq!(p.get_current_track_index(), 1);
    p.remove(1);
    assert_eq!(p.get_current_track_index(), 0);
}

#[test]
fn clear_and_stop() {
    let mut p = playlist_with(&["/a.mp3"]);
    p.set_status(Status::Running);
    assert!(!p.is_stopped());
    assert!(!p.is_paused());
    p.set_next_track(Some(0));
    p.clear();
    assert!(p.is_empty());
    assert!(!p.has_next_track());
    p.stop();
    assert!(p.is_stopped());
    assert_eq!(p.status(), Status::Stopped);
}

#[test]
fn cycle_loop_mode_order() {
    let mut p = Playlist::new(LoopMode::Random, 0, vec![]);
    assert_eq!(p.cycle_loop_mode(), LoopMode::Playlist);
    assert_eq!(p.cycle_loop_mode(), LoopMode::Single);
    assert_eq!(p.cycle_loop_mode(), LoopMode::Random);
}

#[test]
fn current_track_prefers_podcast_localfile() {
    let mut p = Playlist::new(LoopMode::Playlist, 0, vec![Track {
        media_type: MediaType::Podcast,
        file: Some("http://pod.example/ep1".to_string()),
        podcast_localfile: Some("/downloads/ep1.mp3".to_string()),
    }]);
    assert_eq!(
        p.get_current_track(true).as_deref(),
        Some("/downloads/ep1.mp3")
    );
    assert_eq!(
        p.get_current_track(false).as_deref(),
        Some("http://pod.example/ep1")
    );
    assert!(playlist_with(&[]).current_track().is_none());
}

#[test]
fn fetch_next_track_remembers_index() {
    let mut p = playlist_with(&["/a.mp3", "/b.mp3"]);
    let t = p.fetch_next_track().unwrap();
    assert_eq!(t.file.as_deref(), Some("/b.mp3"));
    assert!(p.has_next_track());
    assert_eq!(p.next_track().unwrap().file.as_deref(), Some("/b.mp3"));
}

#[test]
fn shuffle_keeps_tracks_and_current() {
    let files = ["/a.mp3", "/b.mp3", "/c.mp3", "/d.mp3", "/e.mp3"];
    let mut p = playlist_with(&files);
    p.set_current_track_index(2);
    let playing = p.get_current_track(false).unwrap();
    p.shuffle(false);
    assert_eq!(p.len(), 5);
    let mut seen: Vec<String> = p
        .tracks()
        .iter()
        .map(|t| t.file.clone().unwrap())
        .collect();
    seen.sort();
    let mut expected: Vec<String> = files.iter().map(|f| f.to_string()).collect();
    expected.sort();
    assert_eq!(seen, expected);
    // the playing track is found again at its new position
    assert_eq!(p.get_current_track(false).unwrap(), playing);
}

#[test]
fn remove_deleted_items_drops_missing() {
    let mut p = playlist_with(&["/a.mp3", "/b.mp3", "/c.mp3"]);
    p.set_current_track_index(2);
    let exists = vec![true, false, true];
    p.remove_deleted_items(false, &exists);
    assert_eq!(p.len(), 2);
    assert_eq!(p.tracks()[0].file.as_deref(), Some("/a.mp3"));
    assert_eq!(p.tracks()[1].file.as_deref(), Some("/c.mp3"));
    assert_eq!(p.get_current_track_index(), 1);
}

#[test]
fn load_interprets_lines() {
    let lines: Vec<String> = vec![
        " 2 ".to_string(),
        "http://pod.example/ep1".to_string(),
        "http://radio.example/live".to_string(),
        "/music/x.mp3".to_string(),
        "/music/unreadable.mp3".to_string(),
    ];
    let episodes = vec![Episode {
        url: "http://pod.example/ep1".to_string(),
        local_file: Some("/downloads/ep1.mp3".to_string()),
    }];
    let reads: Vec<Option<Track>> = vec![
        None,
        None,
        None,
        Some(local_track("/music/x.mp3")),
        None,
    ];
    let (index, tracks) = Playlist::load(&lines, &episodes, &reads);
    assert_eq!(index, 2);
    assert_eq!(tracks.len(), 3);
    assert_eq!(tracks[0].media_type, MediaType::Podcast);
    assert_eq!(tracks[0].podcast_localfile.as_deref(), Some("/downloads/ep1.mp3"));
    assert_eq!(tracks[1].media_type, MediaType::LiveRadio);
    assert_eq!(tracks[2].file.as_deref(), Some("/music/x.mp3"));

    // an unparsable first line falls back to the start
    let odd = vec!["not a number".to_string()];
    let (index2, tracks2) = Playlist::load(&odd, &vec![], &vec![None]);
    assert_eq!(index2, 0);
    assert!(tracks2.is_empty());
    let (index3, tracks3) = Playlist::load(&vec![], &vec![], &vec![]);
    assert_eq!((index3, tracks3.len()), (0, 0));
}

#[test]
fn save_lines_roundtrip() {
    let mut p = playlist_with(&["/a.mp3", "/b.mp3"]);
    p.set_current_track_index(1);
    let lines = p.save_lines();
    assert_eq!(lines, vec!["1", "/a.mp3", "/b.mp3"]);
    let reads = vec![None, Some(local_track("/a.mp3")), Some(local_track("/b.mp3"))];
    let (index, tracks) = Playlist::load(&lines, &vec![], &reads);
    assert_eq!(index, 1);
    assert_eq!(tracks.len(), 2);
    // an empty playlist saves nothing, not even an index line
    assert!(playlist_with(&[]).save_lines().is_empty());
}

#[test]
fn reload_tracks_replaces_contents() {
    let mut p = playlist_with(&["/old.mp3"]);
    let lines = vec!["0".to_string(), "/new.mp3".to_string()];
    let reads = vec![None, Some(local_track("/new.mp3"))];
    p.reload_tracks(&lines, &vec![], &reads);
    assert_eq!(p.len(), 1);
    assert_eq!(p.tracks()[0].file.as_deref(), Some("/new.mp3"));
}

#[test]
fn m3u_export_uses_relative_paths() {
    let p = playlist_with(&["/music/album/a.mp3", "/music/b.mp3"]);
    let m3u = p.get_m3u_file("/music");
    assert_eq!(m3u, "#EXTM3U\nalbum/a.mp3\nb.mp3\n");
    assert_eq!(playlist_with(&[]).get_m3u_file("/music"), "#EXTM3U\n");
}

#[test]
fn add_episode_appends_podcast_track() {
    let mut p = playlist_with(&[]);
    p.add_episode(&Episode {
        url: "http://pod.example/ep9".to_string(),
        local_file: None,
    });
    assert_eq!(p.len(), 1);
    assert_eq!(p.tracks()[0].media_type, MediaType::Podcast);
}
