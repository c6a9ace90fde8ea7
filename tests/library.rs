use streamplay::library::{Playlist as TrackList, Track, TrackStub};
use streamplay::metadata::TagInfo;
use streamplay::models::{Playlist, PlaylistManager, Song, WebDAVConfig};

fn tags(title: Option<&str>, artist: Option<&str>) -> TagInfo {
    TagInfo {
        title: title.map(str::to_string),
        artist: artist.map(str::to_string),
        album: None,
        cover: Some(vec![9]),
        lyrics: None,
    }
}

#[test]
fn track_takes_one_tag_format_whole() {
    let t = Track::from_tags(
        "/m/a.mp3".to_string(),
        Some(tags(None, Some("P"))),
        Some(tags(Some("S"), Some("Q"))),
        "a.mp3".to_string(),
        5,
    );
    assert_eq!(t.id.len(), 36);
    assert_eq!(t.title, "a.mp3");
    assert_eq!(t.artist, "P");
    assert_eq!(t.album, "Unknown Album");
    assert_eq!(t.cover, Some(vec![9]));
    let bare = Track::from_tags("/m/b.flac".to_string(), None, None, "b.flac".to_string(), 0);
    assert_eq!(bare.title, "b.flac");
    assert_eq!(bare.artist, "Unknown Artist");
    assert_eq!(bare.cover, None);
    let stub = TrackStub::from_track(t.duplicate());
    assert_eq!(stub.id, t.id);
    assert_eq!(stub.duration_ms, 5);
}

#[test]
fn track_list_edits() {
    let mut l = TrackList::new("mix".to_string());
    let a = Track::from_tags("/a".to_string(), None, None, "a".to_string(), 1);
    let b = Track::from_tags("/b".to_string(), None, None, "b".to_string(), 2);
    l.add_track(a.duplicate());
    l.add_track(b.duplicate());
    l.add_track(a.duplicate());
    assert_eq!(l.tracks.len(), 3);
    l.remove_track(&a.id);
    assert_eq!(l.tracks.len(), 1);
    assert_eq!(l.tracks[0].id, b.id);
    l.clear();
    assert!(l.tracks.is_empty());
}

#[test]
fn manager_playlists_and_sources() {
    let mut m = PlaylistManager::new(Vec::new(), Vec::new());
    let i = m.create_playlist("one".to_string());
    assert_eq!(i, 0);
    let id = m.get_playlists()[0].id.clone();
    assert!(m.get_playlist(&id).is_some());
    let s1 = Song::new("/m/x.mp3".to_string(), false, None);
    let s2 = Song::new("/m/y.mp3".to_string(), false, None);
    assert!(m.add_songs_to_playlist(&id, vec![s1.clone(), s2.clone(), s1.clone()]));
    assert_eq!(m.get_playlist(&id).unwrap().songs.len(), 2);
    assert!(m.remove_song_from_playlist(&id, &s1.id));
    assert_eq!(m.get_playlist(&id).unwrap().songs[0].id, s2.id);
    assert!(!m.add_songs_to_playlist("nope", vec![]));
    assert!(m.delete_playlist(&id));
    assert!(!m.delete_playlist(&id));
    assert!(m.get_playlists().is_empty());

    let c = WebDAVConfig::new("n".into(), "http://h".into(), "u".into(), "p".into());
    assert!(m.add_webdav_config(c.clone()));
    assert!(!m.add_webdav_config(c.clone()));
    assert_eq!(m.get_webdav_configs().len(), 1);
    assert!(m.remove_webdav_config(&c.id));
    assert!(!m.remove_webdav_config(&c.id));
    assert!(m.get_webdav_configs().is_empty());
    let _ = Playlist::new("unused".to_string());
}
