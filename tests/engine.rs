use streamplay::download::{
    check_content_length, check_local_file, check_status, watch_step, Download, DownloadAction,
    DownloadEvent, DownloadPhase, WatchStep, POLL_INTERVAL_MS, STREAM_START_BYTES,
};
use streamplay::metadata::{correct_remote_title, title_from_url, TagInfo, TrackMetadata, SCRATCH_PREFIX};
use streamplay::models::{Playlist, Song};
use streamplay::seek::{estimate_seek, format_from_extension, AudioFormat, SeekPlan};
use streamplay::session::{is_remote_source, LoadError, PlayPhase, PlaybackSession, MAX_FILE_SIZE};

fn meta(title: &str, duration_ms: u64) -> TrackMetadata {
    TrackMetadata {
        title: Some(title.to_string()),
        artist: None,
        album: None,
        cover: None,
        duration_ms,
        lyrics: None,
    }
}

#[test]
fn local_play_becomes_playing_with_duration() {
    let mut s = PlaybackSession::new();
    assert_eq!(s.phase(), PlayPhase::Idle);
    let (t, _) = s.play("/music/a.mp3", Some("id-a".to_string()));
    assert_eq!(s.phase(), PlayPhase::Loading);
    assert!(!s.is_playing());
    assert!(!s.is_remote_track());
    assert_eq!(check_local_file(true, true, 4_000_000), Ok(()));
    assert!(s.report_ready(t, 180_000, meta("A", 180_000), "/music/a.mp3".to_string(), 10_000));
    assert!(s.is_playing());
    assert!(s.get_duration() > 0);
    assert_eq!(s.get_last_track_id(), Some("id-a".to_string()));
    assert_eq!(s.get_current_path(), Some("/music/a.mp3".to_string()));
    assert_eq!(s.get_elapsed(12_500), 2_500);
}

#[test]
fn oversized_file_never_plays() {
    assert_eq!(check_local_file(true, true, MAX_FILE_SIZE), Err(LoadError::TooLarge));
    assert_eq!(check_local_file(true, true, MAX_FILE_SIZE - 1), Ok(()));
    assert_eq!(check_local_file(false, false, 0), Err(LoadError::Missing));
    assert_eq!(check_local_file(true, false, 10), Err(LoadError::NotAFile));
    assert_eq!(check_local_file(true, true, 0), Err(LoadError::Empty));
    let mut s = PlaybackSession::new();
    let (t, _) = s.play("/big.wav", None);
    assert!(s.report_failure(t, LoadError::TooLarge));
    assert!(!s.is_playing());
    assert_eq!(s.phase(), PlayPhase::Failed);
    assert_eq!(s.last_error(), Some(LoadError::TooLarge));
    assert!(!s.report_ready(t, 1000, meta("x", 1000), "/big.wav".to_string(), 0));
    assert!(!s.is_playing());
}

#[test]
fn seek_rebases_elapsed() {
    let mut s = PlaybackSession::new();
    let (t, _) = s.play("/a.mp3", None);
    s.report_ready(t, 60_000, meta("A", 60_000), "/a.mp3".to_string(), 1_000);
    assert_eq!(s.seek_path(), Some("/a.mp3".to_string()));
    s.apply_seek(30_000, 5_000);
    assert_eq!(s.get_elapsed(5_000), 30_000);
    assert_eq!(s.get_elapsed(5_050), 30_050);
    assert_eq!(s.get_elapsed(6_000), 31_000);
    s.apply_seek(90_000, 7_000);
    assert_eq!(s.get_elapsed(7_000), 60_000);
}

#[test]
fn elapsed_never_exceeds_duration() {
    let mut s = PlaybackSession::new();
    let (t, _) = s.play("/a.mp3", None);
    s.report_ready(t, 3_000, meta("A", 3_000), "/a.mp3".to_string(), 0);
    assert_eq!(s.get_elapsed(2_000), 2_000);
    assert_eq!(s.get_elapsed(10_000), 3_000);
    assert!(s.report_track_end(t));
    assert!(s.track_ended());
    assert_eq!(s.phase(), PlayPhase::Ended);
    assert_eq!(s.get_elapsed(u64::MAX), 3_000);
    s.reset_track_ended();
    assert!(!s.track_ended());
}

#[test]
fn stored_elapsed_stays_within_duration() {
    let mut s = PlaybackSession::new();
    let (t, _) = s.play("/a.mp3", None);
    s.report_ready(t, 10_000, meta("A", 10_000), "/a.mp3".to_string(), 0);
    s.pause(2_000);
    s.apply_seek(50_000, 3_000);
    assert_eq!(s.get_current_time(), 10_000);
    assert_eq!(s.get_elapsed(3_000), 10_000);
    s.apply_seek(8_000, 3_000);
    s.correct_duration(t, 5_000);
    assert_eq!(s.get_duration(), 5_000);
    assert_eq!(s.get_current_time(), 5_000);
    assert_eq!(s.get_elapsed(9_999), s.get_current_time());
    let mut idle = PlaybackSession::new();
    idle.apply_seek(7_000, 0);
    assert_eq!(idle.get_current_time(), 0);
}

#[test]
fn seek_reads_target_within_poll_interval() {
    let mut s = PlaybackSession::new();
    let (t, _) = s.play("/a.mp3", None);
    s.report_ready(t, 60_000, meta("A", 60_000), "/a.mp3".to_string(), 0);
    s.apply_seek(20_000, 1_000);
    let e = s.get_elapsed(1_000 + POLL_INTERVAL_MS);
    assert!(20_000 <= e && e <= 20_000 + POLL_INTERVAL_MS);
}

#[test]
fn play_after_remote_track_releases_its_scratch() {
    let mut s = PlaybackSession::new();
    let (t, none) = s.play("http://h/a.mp3", None);
    assert_eq!(none, None);
    s.adopt_scratch(t, "/tmp/a".to_string());
    s.report_ready(t, 1_000, meta("A", 1_000), "/tmp/a".to_string(), 0);
    s.report_track_end(t);
    let (_, old) = s.play("/local/b.mp3", None);
    assert_eq!(old, Some("/tmp/a".to_string()));
    assert_eq!(s.take_scratch(), None);
}

#[test]
fn pause_and_resume_keep_elapsed() {
    let mut s = PlaybackSession::new();
    let (t, _) = s.play("/a.mp3", None);
    s.report_ready(t, 100_000, meta("A", 100_000), "/a.mp3".to_string(), 1_000);
    s.pause(4_000);
    assert!(s.is_paused());
    assert_eq!(s.get_elapsed(50_000), 3_000);
    s.resume(60_000);
    assert!(s.is_playing());
    assert_eq!(s.get_elapsed(61_000), 4_000);
}

#[test]
fn stop_cancels_download() {
    let mut s = PlaybackSession::new();
    let (t, _) = s.play("https://host/a.mp3", None);
    assert!(s.is_remote_track());
    s.report_progress(t, 2048, 10_000);
    assert_eq!(s.download_progress(), (2048, 10_000));
    s.stop();
    assert!(s.download_cancelled());
    assert!(s.stopped_by_user());
    assert!(!s.is_current_token(t));
    assert_eq!(s.get_elapsed(99), 0);
    let mut d = Download::new();
    assert_eq!(d.step(DownloadEvent::Chunk(16384), !s.is_current_token(t)), DownloadAction::Cancel);
    assert!(!s.report_ready(t, 1, meta("late", 1), "/tmp/x".to_string(), 0));
    assert!(!s.is_playing());
    assert_eq!(s.adopt_scratch(t, "/tmp/x".to_string()), Some("/tmp/x".to_string()));
}

#[test]
fn later_play_wins_over_earlier_worker() {
    let mut s = PlaybackSession::new();
    let (ta, _) = s.play("/a.mp3", None);
    let (tb, _) = s.play("/b.mp3", None);
    assert_ne!(ta, tb);
    assert!(s.report_ready(tb, 2_000, meta("B", 2_000), "/b.mp3".to_string(), 0));
    assert!(!s.report_ready(ta, 9_000, meta("A", 9_000), "/a.mp3".to_string(), 5));
    s.correct_duration(ta, 9_000);
    s.report_progress(ta, 5, 5);
    assert_eq!(s.get_duration(), 2_000);
    assert_eq!(s.get_current_metadata().unwrap().title, Some("B".to_string()));
    assert_eq!(s.get_current_path(), Some("/b.mp3".to_string()));
    assert_eq!(s.download_progress(), (0, 0));
}

#[test]
fn scratch_slot_holds_one_file() {
    let mut s = PlaybackSession::new();
    let (t, _) = s.play("http://h/a.mp3", None);
    assert_eq!(s.adopt_scratch(t, "/tmp/one".to_string()), None);
    assert_eq!(s.seek_path(), Some("/tmp/one".to_string()));
    let (t2, superseded) = s.play("http://h/b.mp3", None);
    assert_eq!(superseded, Some("/tmp/one".to_string()));
    assert_eq!(s.seek_path(), None);
    assert_eq!(s.adopt_scratch(t2, "/tmp/two".to_string()), None);
    s.forget_scratch(&"/tmp/other".to_string());
    assert_eq!(s.seek_path(), Some("/tmp/two".to_string()));
    s.forget_scratch(&"/tmp/two".to_string());
    assert_eq!(s.take_scratch(), None);
}

#[test]
fn progress_never_decreases() {
    let mut s = PlaybackSession::new();
    let (t, _) = s.play("http://h/a.mp3", None);
    s.report_progress(t, 100, 1000);
    s.report_progress(t, 50, 0);
    assert_eq!(s.download_progress(), (100, 1000));
    s.set_remote(false);
    assert_eq!(s.download_progress(), (0, 0));
}

#[test]
fn remote_sources_are_recognised() {
    assert!(is_remote_source("http://a/b.mp3"));
    assert!(is_remote_source("https://a/b.mp3"));
    assert!(!is_remote_source("/home/http://x"));
    assert!(!is_remote_source("ftp://a"));
}

#[test]
fn download_starts_at_threshold_and_defers_on_failure() {
    let mut d = Download::new();
    assert_eq!(d.step(DownloadEvent::Chunk(16384), false), DownloadAction::ReadMore);
    assert_eq!(
        d.step(DownloadEvent::Chunk(STREAM_START_BYTES - 16384), false),
        DownloadAction::TryDecode
    );
    assert_eq!(d.step(DownloadEvent::DecodeFailed, false), DownloadAction::ReadMore);
    assert_eq!(d.phase, DownloadPhase::Deferred);
    assert_eq!(d.step(DownloadEvent::Chunk(10), false), DownloadAction::ReadMore);
    assert_eq!(d.step(DownloadEvent::End, false), DownloadAction::DecodeWhole);
    assert_eq!(d.step(DownloadEvent::DecodeFailed, false), DownloadAction::Fail(LoadError::Decode));
    assert_eq!(d.phase, DownloadPhase::Done);
}

#[test]
fn download_streams_then_finishes() {
    let mut d = Download::new();
    assert_eq!(d.step(DownloadEvent::Chunk(STREAM_START_BYTES), false), DownloadAction::TryDecode);
    assert_eq!(d.step(DownloadEvent::DecodeOk, false), DownloadAction::ReadMore);
    assert_eq!(d.step(DownloadEvent::Chunk(100), false), DownloadAction::ReadMore);
    assert_eq!(d.downloaded, STREAM_START_BYTES + 100);
    assert_eq!(d.step(DownloadEvent::End, false), DownloadAction::Finish);
    let mut e = Download::new();
    assert_eq!(e.step(DownloadEvent::End, false), DownloadAction::Fail(LoadError::Empty));
    let mut f = Download::new();
    assert_eq!(
        f.step(DownloadEvent::Chunk(MAX_FILE_SIZE), false),
        DownloadAction::Fail(LoadError::TooLarge)
    );
}

#[test]
fn http_checks() {
    assert_eq!(check_status(200), Ok(()));
    assert_eq!(check_status(299), Ok(()));
    assert_eq!(check_status(404), Err(LoadError::BadStatus(404)));
    assert_eq!(check_content_length(None), Ok(()));
    assert_eq!(check_content_length(Some(MAX_FILE_SIZE)), Err(LoadError::TooLarge));
    assert_eq!(check_content_length(Some(1)), Ok(()));
}

#[test]
fn watcher_steps() {
    assert_eq!(watch_step(false, true, true), WatchStep::Exit);
    assert_eq!(watch_step(true, false, true), WatchStep::Continue);
    assert_eq!(watch_step(true, true, true), WatchStep::FireEnd);
    assert_eq!(watch_step(true, true, false), WatchStep::Exit);
}

#[test]
fn seek_estimates() {
    assert_eq!(format_from_extension("MP3"), AudioFormat::Mp3);
    assert_eq!(format_from_extension("wav"), AudioFormat::Wav);
    assert_eq!(format_from_extension("Flac"), AudioFormat::Flac);
    assert_eq!(format_from_extension("ogg"), AudioFormat::Other);
    assert_eq!(estimate_seek(AudioFormat::Mp3, 5_000_000, 10_500), SeekPlan::FromByte(160_000));
    assert_eq!(estimate_seek(AudioFormat::Mp3, 1_000, 10_000), SeekPlan::FromByte(900));
    assert_eq!(estimate_seek(AudioFormat::Mp3, 50, 10_000), SeekPlan::FromStart);
    assert_eq!(estimate_seek(AudioFormat::Mp3, 5_000_000, 999), SeekPlan::FromStart);
    assert_eq!(estimate_seek(AudioFormat::Wav, 10_000_000, 2_000), SeekPlan::FromByte(352_844));
    assert_eq!(estimate_seek(AudioFormat::Wav, 100_000, 2_000), SeekPlan::FromStart);
    assert_eq!(estimate_seek(AudioFormat::Wav, 100_000, 0), SeekPlan::FromStart);
    assert_eq!(estimate_seek(AudioFormat::Flac, 100_000, 2_000), SeekPlan::FromStart);
    assert_eq!(estimate_seek(AudioFormat::Mp3, u64::MAX, u64::MAX), SeekPlan::FromByte(u64::MAX - 100));
}

#[test]
fn metadata_fallback_chain() {
    let primary = TagInfo {
        title: None,
        artist: Some("P".to_string()),
        album: None,
        cover: None,
        lyrics: Some("[00:01.00]x".to_string()),
    };
    let secondary = TagInfo {
        title: Some("S".to_string()),
        artist: Some("S-artist".to_string()),
        album: Some("S-album".to_string()),
        cover: Some(vec![1, 2, 3]),
        lyrics: None,
    };
    let m = TrackMetadata::from_tags(Some(primary), Some(secondary), "file.mp3".to_string(), 42);
    assert_eq!(m.title, Some("S".to_string()));
    assert_eq!(m.artist, Some("P".to_string()));
    assert_eq!(m.album, Some("S-album".to_string()));
    assert_eq!(m.cover, Some(vec![1, 2, 3]));
    assert_eq!(m.lyrics, Some("[00:01.00]x".to_string()));
    assert_eq!(m.duration_ms, 42);
    let bare = TrackMetadata::from_tags(None, None, "file.mp3".to_string(), 0);
    assert_eq!(bare.title, Some("file.mp3".to_string()));
    assert_eq!(bare.artist, None);
}

#[test]
fn remote_title_from_url() {
    assert_eq!(title_from_url("http://h/music/My%20Song.mp3"), "My Song");
    assert_eq!(title_from_url("http://h/music/"), "");
    let scratch = meta(&format!("{}1234", SCRATCH_PREFIX), 5);
    let fixed = correct_remote_title(scratch, "http://h/a/Track%201.flac");
    assert_eq!(fixed.title, Some("Track 1".to_string()));
    assert_eq!(fixed.duration_ms, 5);
    let kept = correct_remote_title(meta("Real", 5), "http://h/a/x.mp3");
    assert_eq!(kept.title, Some("Real".to_string()));
}

#[test]
fn playlist_songs() {
    let a = Song::new("/m/first.mp3".to_string(), false, None);
    assert_eq!(a.id.len(), 36);
    assert_eq!(a.title, "first");
    assert_eq!(a.artist, "Unknown Artist");
    let b = Song::new("/m/".to_string(), true, Some("http://h".to_string()));
    assert_eq!(b.title, "Unknown");
    let mut p = Playlist::new("mix".to_string());
    assert_eq!(p.id.len(), 36);
    p.add_song(a.clone());
    p.add_song(a.clone());
    p.add_song(b.clone());
    assert_eq!(p.songs.len(), 2);
    p.remove_song(&a.id);
    assert_eq!(p.songs.len(), 1);
    assert_eq!(p.songs[0].id, b.id);
    p.clear();
    assert!(p.songs.is_empty());
}
