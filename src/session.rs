//! The playback session: one lifecycle state, elapsed-time bookkeeping, a
//! generation token that tells the current session's workers from stale ones,
//! and the single-slot scratch file of remote playback.

use vstd::prelude::*;
use crate::metadata::{MetaView, TrackMetadata};
use crate::text::{chars_of, decimal, decimal_exec, starts_with, starts_with_exec, string_of};

verus! {

/// Files at or over this size are not played.
pub const MAX_FILE_SIZE: u64 = 200 * 1024 * 1024;

/// Lifecycle of a session.
#[derive(Clone, Copy, Debug, PartialEq, Eq, Structural)]
pub enum PlayPhase {
    Idle,
    Loading,
    Playing,
    Paused,
    Ended,
    Stopped,
    Failed,
}

/// Why a `play` attempt failed.
#[derive(Clone, Copy, Debug, PartialEq, Eq, Structural)]
pub enum LoadError {
    /// The local path cannot be read.
    Missing,
    /// The local path is not a regular file.
    NotAFile,
    /// The file or the download holds no byte.
    Empty,
    /// The file is at or over [`MAX_FILE_SIZE`].
    TooLarge,
    /// The audio data could not be decoded.
    Decode,
    /// The network did not answer in time.
    Timeout,
    /// No connection could be made.
    Connect,
    /// The server answered with a status other than success.
    BadStatus(u16),
    /// Reading or writing the scratch file failed.
    Io,
}

/// A scratch file and the session that owns it.
#[derive(Clone, Debug)]
pub struct ScratchFile {
    pub generation: u64,
    pub path: String,
}

/// One playback session. All state of the engine sits here, behind one lock
/// held by the caller.
pub struct PlaybackSession {
    generation: u64,
    phase: PlayPhase,
    remote: bool,
    source: Option<String>,
    current_path: Option<String>,
    duration_ms: u64,
    mark_ms: u64,
    offset_ms: u64,
    stored_ms: u64,
    stopped_by_user: bool,
    download_cancelled: bool,
    playback_started: bool,
    track_ended: bool,
    downloaded_bytes: u64,
    total_bytes: u64,
    scratch: Option<ScratchFile>,
    metadata: Option<TrackMetadata>,
    last_track_id: Option<String>,
    last_error: Option<LoadError>,
}

/// The mathematical state of a [`PlaybackSession`].
pub struct SessionView {
    pub generation: u64,
    pub phase: PlayPhase,
    pub remote: bool,
    pub source: Option<Seq<char>>,
    pub current_path: Option<Seq<char>>,
    pub duration_ms: u64,
    /// Clock reading at which elapsed time was last re-based.
    pub mark_ms: u64,
    /// Elapsed time at `mark_ms`.
    pub offset_ms: u64,
    /// Elapsed time last computed or set.
    pub stored_ms: u64,
    pub stopped_by_user: bool,
    pub download_cancelled: bool,
    pub playback_started: bool,
    pub track_ended: bool,
    pub downloaded_bytes: u64,
    pub total_bytes: u64,
    pub scratch: Option<(u64, Seq<char>)>,
    pub metadata: Option<MetaView>,
    pub last_track_id: Option<Seq<char>>,
    pub last_error: Option<LoadError>,
}

pub open spec fn opt_view(o: Option<String>) -> Option<Seq<char>> {
    match o {
        Some(s) => Some(s@),
        None => None,
    }
}

pub open spec fn meta_view(o: Option<TrackMetadata>) -> Option<MetaView> {
    match o {
        Some(m) => Some(m@),
        None => None,
    }
}

pub open spec fn scratch_view(o: Option<ScratchFile>) -> Option<(u64, Seq<char>)> {
    match o {
        Some(f) => Some((f.generation, f.path@)),
        None => None,
    }
}

/// Whether `p` names a remote resource.
pub open spec fn is_remote_path(p: Seq<char>) -> bool {
    starts_with(p, "http://"@) || starts_with(p, "https://"@)
}

pub open spec fn next_generation(g: u64) -> u64 {
    if g == u64::MAX {
        0
    } else {
        (g + 1) as u64
    }
}

pub open spec fn min_of(a: int, b: int) -> int {
    if a <= b {
        a
    } else {
        b
    }
}

pub open spec fn max_of(a: u64, b: u64) -> u64 {
    if a >= b {
        a
    } else {
        b
    }
}

impl SessionView {
    /// Stored and re-based elapsed times lie within the duration.
    pub open spec fn wf(self) -> bool {
        self.stored_ms <= self.duration_ms && self.offset_ms <= self.duration_ms
    }

    pub open spec fn is_playing(self) -> bool {
        self.phase == PlayPhase::Playing
    }

    /// Whether a worker holding `token` still acts for this session.
    pub open spec fn is_current(self, token: u64) -> bool {
        token == self.generation && !self.download_cancelled
    }

    /// Elapsed playback time at clock reading `now`, clamped to the duration.
    pub open spec fn elapsed_at(self, now: u64) -> int {
        let raw = if self.is_playing() {
            self.offset_ms + (if now >= self.mark_ms {
                now - self.mark_ms
            } else {
                0
            })
        } else {
            self.stored_ms as int
        };
        min_of(raw, self.duration_ms as int)
    }

    pub open spec fn after_play(self, path: Seq<char>, track_id: Option<Seq<char>>) -> SessionView {
        SessionView {
            generation: next_generation(self.generation),
            phase: PlayPhase::Loading,
            remote: is_remote_path(path),
            source: Some(path),
            current_path: None,
            duration_ms: 0,
            mark_ms: 0,
            offset_ms: 0,
            stored_ms: 0,
            stopped_by_user: false,
            download_cancelled: false,
            playback_started: false,
            track_ended: false,
            downloaded_bytes: 0,
            total_bytes: 0,
            scratch: None,
            metadata: None,
            last_track_id: if track_id is Some {
                track_id
            } else {
                self.last_track_id
            },
            last_error: None,
        }
    }

    /// Playback of the session's source began: decoded, `duration_ms` long, at clock `now`.
    pub open spec fn after_ready(
        self,
        token: u64,
        duration_ms: u64,
        metadata: MetaView,
        path: Seq<char>,
        now: u64,
    ) -> SessionView {
        if self.is_current(token) && self.phase == PlayPhase::Loading {
            SessionView {
                phase: PlayPhase::Playing,
                current_path: Some(path),
                duration_ms,
                mark_ms: now,
                offset_ms: 0,
                stored_ms: 0,
                playback_started: true,
                metadata: Some(metadata),
                ..self
            }
        } else {
            self
        }
    }

    pub open spec fn after_failure(self, token: u64, e: LoadError) -> SessionView {
        if self.is_current(token) && self.phase == PlayPhase::Loading {
            SessionView { phase: PlayPhase::Failed, last_error: Some(e), ..self }
        } else {
            self
        }
    }

    pub open spec fn after_pause(self, now: u64) -> SessionView {
        if self.is_playing() {
            SessionView { phase: PlayPhase::Paused, stored_ms: self.elapsed_at(now) as u64, ..self }
        } else {
            self
        }
    }

    pub open spec fn after_resume(self, now: u64) -> SessionView {
        if self.phase == PlayPhase::Paused {
            SessionView { phase: PlayPhase::Playing, mark_ms: now, offset_ms: self.stored_ms, ..self }
        } else {
            self
        }
    }

    pub open spec fn after_stop(self) -> SessionView {
        SessionView {
            phase: PlayPhase::Stopped,
            stopped_by_user: true,
            download_cancelled: true,
            current_path: None,
            stored_ms: 0,
            offset_ms: 0,
            ..self
        }
    }

    /// Elapsed time re-based so that it reads `target_ms` (at most the
    /// duration) at clock `now`.
    pub open spec fn after_seek(self, target_ms: u64, now: u64) -> SessionView {
        let t = min_of(target_ms as int, self.duration_ms as int) as u64;
        SessionView { mark_ms: now, offset_ms: t, stored_ms: t, ..self }
    }

    pub open spec fn after_track_end(self, token: u64) -> SessionView {
        if token == self.generation && self.playback_started && self.is_playing() {
            SessionView {
                phase: PlayPhase::Ended,
                track_ended: true,
                stored_ms: self.duration_ms,
                ..self
            }
        } else {
            self
        }
    }

    pub open spec fn after_progress(self, token: u64, downloaded: u64, total: u64) -> SessionView {
        if self.is_current(token) {
            SessionView {
                downloaded_bytes: max_of(self.downloaded_bytes, downloaded),
                total_bytes: max_of(self.total_bytes, total),
                ..self
            }
        } else {
            self
        }
    }

    pub open spec fn after_duration(self, token: u64, duration_ms: u64) -> SessionView {
        if self.is_current(token) {
            SessionView {
                duration_ms,
                stored_ms: min_of(self.stored_ms as int, duration_ms as int) as u64,
                offset_ms: min_of(self.offset_ms as int, duration_ms as int) as u64,
                ..self
            }
        } else {
            self
        }
    }

    /// The file a seek re-opens: the session's own scratch file, else the current path.
    pub open spec fn seek_path(self) -> Option<Seq<char>> {
        match self.scratch {
            Some((g, p)) => if g == self.generation {
                Some(p)
            } else {
                self.current_path
            },
            None => self.current_path,
        }
    }
}

impl View for PlaybackSession {
    type V = SessionView;

    closed spec fn view(&self) -> SessionView {
        SessionView {
            generation: self.generation,
            phase: self.phase,
            remote: self.remote,
            source: opt_view(self.source),
            current_path: opt_view(self.current_path),
            duration_ms: self.duration_ms,
            mark_ms: self.mark_ms,
            offset_ms: self.offset_ms,
            stored_ms: self.stored_ms,
            stopped_by_user: self.stopped_by_user,
            download_cancelled: self.download_cancelled,
            playback_started: self.playback_started,
            track_ended: self.track_ended,
            downloaded_bytes: self.downloaded_bytes,
            total_bytes: self.total_bytes,
            scratch: scratch_view(self.scratch),
            metadata: meta_view(self.metadata),
            last_track_id: opt_view(self.last_track_id),
            last_error: self.last_error,
        }
    }
}

/// A duration as `minutes:seconds`, seconds in two digits, for display.
pub open spec fn duration_text(ms: u64) -> Seq<char> {
    let secs = ms / 1000;
    let m = secs / 60;
    let s = secs % 60;
    decimal(m as nat) + seq![':'] + (if s < 10 {
        seq!['0'] + decimal(s as nat)
    } else {
        decimal(s as nat)
    })
}

/// Formats `ms` as `m:ss`; whole seconds count.
pub fn format_duration(ms: u64) -> (r: String)
    ensures
        r@ == duration_text(ms),
{
    let secs = ms / 1000;
    let m = secs / 60;
    let s = secs % 60;
    let mut out = decimal_exec(m);
    out.push(':');
    if s < 10 {
        out.push('0');
    }
    let tail = decimal_exec(s);
    let ghost head = out@;
    let mut i: usize = 0;
    while i < tail.len()
        invariant
            i <= tail.len(),
            out@ == head + tail@.take(i as int),
        decreases tail.len() - i,
    {
        out.push(tail[i]);
        i += 1;
        assert(out@ =~= head + tail@.take(i as int));
    }
    assert(tail@.take(i as int) =~= tail@);
    assert(out@ =~= duration_text(ms));
    string_of(&out)
}

/// Whether `path` names a remote resource (`http://` or `https://`).
pub fn is_remote_source(path: &str) -> (r: bool)
    ensures
        r == is_remote_path(path@),
{
    let p = chars_of(path);
    let http = chars_of("http://");
    let https = chars_of("https://");
    proof {
        reveal_strlit("http://");
        reveal_strlit("https://");
    }
    starts_with_exec(&p, &http) || starts_with_exec(&p, &https)
}

fn copy_opt(o: &Option<String>) -> (r: Option<String>)
    ensures
        opt_view(r) == opt_view(*o),
{
    match o {
        Some(s) => Some(s.clone()),
        None => None,
    }
}

fn to_owned_str(s: &str) -> (r: String)
    ensures
        r@ == s@,
{
    s.to_owned()
}

impl PlaybackSession {
    /// A session that has played nothing yet.
    pub fn new() -> (r: PlaybackSession)
        ensures
            r@ == (SessionView {
                generation: 0,
                phase: PlayPhase::Idle,
                remote: false,
                source: None,
                current_path: None,
                duration_ms: 0,
                mark_ms: 0,
                offset_ms: 0,
                stored_ms: 0,
                stopped_by_user: false,
                download_cancelled: false,
                playback_started: false,
                track_ended: false,
                downloaded_bytes: 0,
                total_bytes: 0,
                scratch: None,
                metadata: None,
                last_track_id: None,
                last_error: None,
            }),
    {
        PlaybackSession {
            generation: 0,
            phase: PlayPhase::Idle,
            remote: false,
            source: None,
            current_path: None,
            duration_ms: 0,
            mark_ms: 0,
            offset_ms: 0,
            stored_ms: 0,
            stopped_by_user: false,
            download_cancelled: false,
            playback_started: false,
            track_ended: false,
            downloaded_bytes: 0,
            total_bytes: 0,
            scratch: None,
            metadata: None,
            last_track_id: None,
            last_error: None,
        }
    }

    /// Starts a new session for `path`. Returns its token and the scratch
    /// file of the session it supersedes, which must now be deleted. Workers of
    /// earlier sessions hold other tokens, so nothing they report reaches this one.
    pub fn play(&mut self, path: &str, track_id: Option<String>) -> (r: (u64, Option<String>))
        ensures
            final(self)@ == old(self)@.after_play(path@, opt_view(track_id)),
            r.0 == final(self)@.generation,
            opt_view(r.1) == (match old(self)@.scratch {
                Some((_, q)) => Some(q),
                None => None,
            }),
    {
        let superseded = match &self.scratch {
            Some(f) => Some(f.path.clone()),
            None => None,
        };
        self.scratch = None;
        let g = if self.generation == u64::MAX {
            0
        } else {
            self.generation + 1
        };
        self.generation = g;
        self.phase = PlayPhase::Loading;
        self.remote = is_remote_source(path);
        self.source = Some(to_owned_str(path));
        self.current_path = None;
        self.duration_ms = 0;
        self.mark_ms = 0;
        self.offset_ms = 0;
        self.stored_ms = 0;
        self.stopped_by_user = false;
        self.download_cancelled = false;
        self.playback_started = false;
        self.track_ended = false;
        self.downloaded_bytes = 0;
        self.total_bytes = 0;
        self.metadata = None;
        if track_id.is_some() {
            self.last_track_id = track_id;
        }
        self.last_error = None;
        (g, superseded)
    }

    fn is_current(&self, token: u64) -> (r: bool)
        ensures
            r == self@.is_current(token),
    {
        token == self.generation && !self.download_cancelled
    }

    /// Whether a worker holding `token` should go on; false once a newer
    /// session started or the download was cancelled.
    pub fn is_current_token(&self, token: u64) -> (r: bool)
        ensures
            r == self@.is_current(token),
    {
        self.is_current(token)
    }

    /// A worker decoded the source: playback begins at clock `now`. Returns
    /// whether the report was taken; a stale or cancelled worker's is not.
    pub fn report_ready(
        &mut self,
        token: u64,
        duration_ms: u64,
        metadata: TrackMetadata,
        path: String,
        now: u64,
    ) -> (accepted: bool)
        ensures
            final(self)@ == old(self)@.after_ready(token, duration_ms, metadata@, path@, now),
            accepted == (old(self)@.is_current(token) && old(self)@.phase == PlayPhase::Loading),
    {
        if self.is_current(token) && self.phase == PlayPhase::Loading {
            self.phase = PlayPhase::Playing;
            self.current_path = Some(path);
            self.duration_ms = duration_ms;
            self.mark_ms = now;
            self.offset_ms = 0;
            self.stored_ms = 0;
            self.playback_started = true;
            self.metadata = Some(metadata);
            true
        } else {
            false
        }
    }

    /// A worker gave up on the session's source with `e`.
    pub fn report_failure(&mut self, token: u64, e: LoadError) -> (accepted: bool)
        ensures
            final(self)@ == old(self)@.after_failure(token, e),
            accepted == (old(self)@.is_current(token) && old(self)@.phase == PlayPhase::Loading),
    {
        if self.is_current(token) && self.phase == PlayPhase::Loading {
            self.phase = PlayPhase::Failed;
            self.last_error = Some(e);
            true
        } else {
            false
        }
    }

    /// Elapsed playback time at clock `now`, never more than the duration.
    /// While playing, the value is also stored.
    pub fn get_elapsed(&mut self, now: u64) -> (r: u64)
        ensures
            r == old(self)@.elapsed_at(now),
            r <= old(self)@.duration_ms,
            old(self)@.wf() && !old(self)@.is_playing() ==> r == old(self)@.stored_ms,
            final(self)@ == (if old(self)@.is_playing() {
                SessionView { stored_ms: r, ..old(self)@ }
            } else {
                old(self)@
            }),
    {
        let r = self.elapsed(now);
        if self.phase == PlayPhase::Playing {
            self.stored_ms = r;
        }
        r
    }

    fn elapsed(&self, now: u64) -> (r: u64)
        ensures
            r == self@.elapsed_at(now),
    {
        let raw = if self.phase == PlayPhase::Playing {
            let since = if now >= self.mark_ms {
                now - self.mark_ms
            } else {
                0
            };
            self.offset_ms.saturating_add(since)
        } else {
            self.stored_ms
        };
        if raw <= self.duration_ms {
            raw
        } else {
            self.duration_ms
        }
    }

    pub fn pause(&mut self, now: u64)
        ensures
            final(self)@ == old(self)@.after_pause(now),
    {
        if self.phase == PlayPhase::Playing {
            let e = self.elapsed(now);
            self.stored_ms = e;
            self.phase = PlayPhase::Paused;
        }
    }

    /// Resumes where the pause left off: elapsed time goes on from the stored value.
    pub fn resume(&mut self, now: u64)
        ensures
            final(self)@ == old(self)@.after_resume(now),
    {
        if self.phase == PlayPhase::Paused {
            self.phase = PlayPhase::Playing;
            self.mark_ms = now;
            self.offset_ms = self.stored_ms;
        }
    }

    /// Stops playback: cancels any download in progress and resets elapsed time.
    pub fn stop(&mut self)
        ensures
            final(self)@ == old(self)@.after_stop(),
    {
        self.phase = PlayPhase::Stopped;
        self.stopped_by_user = true;
        self.download_cancelled = true;
        self.current_path = None;
        self.stored_ms = 0;
        self.offset_ms = 0;
    }

    /// The file that a seek re-opens: this session's scratch file if it has
    /// one, else the current path; none when nothing is loaded.
    pub fn seek_path(&self) -> (r: Option<String>)
        ensures
            opt_view(r) == self@.seek_path(),
    {
        match &self.scratch {
            Some(f) => if f.generation == self.generation {
                Some(f.path.clone())
            } else {
                copy_opt(&self.current_path)
            },
            None => copy_opt(&self.current_path),
        }
    }

    /// Re-bases elapsed time after a seek so that it reads `target_ms`, or the
    /// duration if that is less, at clock `now`.
    pub fn apply_seek(&mut self, target_ms: u64, now: u64)
        ensures
            final(self)@ == old(self)@.after_seek(target_ms, now),
    {
        let t = if target_ms <= self.duration_ms {
            target_ms
        } else {
            self.duration_ms
        };
        self.mark_ms = now;
        self.offset_ms = t;
        self.stored_ms = t;
    }

    /// The output drained after playback had started: the track ended.
    pub fn report_track_end(&mut self, token: u64) -> (accepted: bool)
        ensures
            final(self)@ == old(self)@.after_track_end(token),
            accepted == (token == old(self)@.generation && old(self)@.playback_started
                && old(self)@.is_playing()),
    {
        if token == self.generation && self.playback_started && self.phase == PlayPhase::Playing {
            self.phase = PlayPhase::Ended;
            self.track_ended = true;
            self.stored_ms = self.duration_ms;
            true
        } else {
            false
        }
    }

    /// Download progress of the current session; neither count goes down.
    pub fn report_progress(&mut self, token: u64, downloaded: u64, total: u64)
        ensures
            final(self)@ == old(self)@.after_progress(token, downloaded, total),
    {
        if self.is_current(token) {
            if downloaded > self.downloaded_bytes {
                self.downloaded_bytes = downloaded;
            }
            if total > self.total_bytes {
                self.total_bytes = total;
            }
        }
    }

    /// Corrects the duration once the whole remote file is known.
    pub fn correct_duration(&mut self, token: u64, duration_ms: u64)
        ensures
            final(self)@ == old(self)@.after_duration(token, duration_ms),
    {
        if self.is_current(token) {
            self.duration_ms = duration_ms;
            if self.stored_ms > duration_ms {
                self.stored_ms = duration_ms;
            }
            if self.offset_ms > duration_ms {
                self.offset_ms = duration_ms;
            }
        }
    }

    /// Hands the scratch file `path` of session `token` to the engine. Returns
    /// the file that must now be deleted: the one it supersedes, or `path`
    /// itself when `token` is stale.
    pub fn adopt_scratch(&mut self, token: u64, path: String) -> (r: Option<String>)
        ensures
            old(self)@.is_current(token) ==> {
                &&& final(self)@ == (SessionView { scratch: Some((token, path@)), ..old(self)@ })
                &&& opt_view(r) == (match old(self)@.scratch {
                    Some((_, q)) => Some(q),
                    None => None,
                })
            },
            !old(self)@.is_current(token) ==> final(self)@ == old(self)@ && opt_view(r) == Some(
                path@,
            ),
    {
        if self.is_current(token) {
            let old_path = match &self.scratch {
                Some(f) => Some(f.path.clone()),
                None => None,
            };
            self.scratch = Some(ScratchFile { generation: token, path });
            old_path
        } else {
            Some(path)
        }
    }

    /// Empties the scratch slot and returns the file that was in it.
    pub fn take_scratch(&mut self) -> (r: Option<String>)
        ensures
            final(self)@ == (SessionView { scratch: None, ..old(self)@ }),
            opt_view(r) == (match old(self)@.scratch {
                Some((_, q)) => Some(q),
                None => None,
            }),
    {
        let taken = match &self.scratch {
            Some(f) => Some(f.path.clone()),
            None => None,
        };
        self.scratch = None;
        taken
    }

    /// Empties the scratch slot if it holds `path`, which is about to be deleted.
    pub fn forget_scratch(&mut self, path: &String)
        ensures
            (match old(self)@.scratch {
                Some((_, q)) => q == path@,
                None => false,
            }) ==> final(self)@ == (SessionView { scratch: None, ..old(self)@ }),
            !(match old(self)@.scratch {
                Some((_, q)) => q == path@,
                None => false,
            }) ==> final(self)@ == old(self)@,
    {
        let held = match &self.scratch {
            Some(f) => f.path == *path,
            None => false,
        };
        if held {
            self.scratch = None;
        }
    }

    pub fn is_playing(&self) -> (r: bool)
        ensures
            r == self@.is_playing(),
    {
        self.phase == PlayPhase::Playing
    }

    pub fn is_paused(&self) -> (r: bool)
        ensures
            r == (self@.phase == PlayPhase::Paused),
    {
        self.phase == PlayPhase::Paused
    }

    pub fn phase(&self) -> (r: PlayPhase)
        ensures
            r == self@.phase,
    {
        self.phase
    }

    pub fn generation(&self) -> (r: u64)
        ensures
            r == self@.generation,
    {
        self.generation
    }

    pub fn get_duration(&self) -> (r: u64)
        ensures
            r == self@.duration_ms,
    {
        self.duration_ms
    }

    /// The elapsed time last stored, without consulting the clock.
    pub fn get_current_time(&self) -> (r: u64)
        ensures
            r == self@.stored_ms,
    {
        self.stored_ms
    }

    pub fn is_remote_track(&self) -> (r: bool)
        ensures
            r == self@.remote,
    {
        self.remote
    }

    pub fn stopped_by_user(&self) -> (r: bool)
        ensures
            r == self@.stopped_by_user,
    {
        self.stopped_by_user
    }

    pub fn set_stopped_by_user(&mut self, stopped: bool)
        ensures
            final(self)@ == (SessionView { stopped_by_user: stopped, ..old(self)@ }),
    {
        self.stopped_by_user = stopped;
    }

    pub fn download_cancelled(&self) -> (r: bool)
        ensures
            r == self@.download_cancelled,
    {
        self.download_cancelled
    }

    pub fn playback_started(&self) -> (r: bool)
        ensures
            r == self@.playback_started,
    {
        self.playback_started
    }

    pub fn track_ended(&self) -> (r: bool)
        ensures
            r == self@.track_ended,
    {
        self.track_ended
    }

    pub fn reset_track_ended(&mut self)
        ensures
            final(self)@ == (SessionView { track_ended: false, ..old(self)@ }),
    {
        self.track_ended = false;
    }

    pub fn get_current_path(&self) -> (r: Option<String>)
        ensures
            opt_view(r) == self@.current_path,
    {
        copy_opt(&self.current_path)
    }

    pub fn get_last_track_id(&self) -> (r: Option<String>)
        ensures
            opt_view(r) == self@.last_track_id,
    {
        copy_opt(&self.last_track_id)
    }

    pub fn last_error(&self) -> (r: Option<LoadError>)
        ensures
            r == self@.last_error,
    {
        self.last_error
    }

    pub fn get_current_metadata(&self) -> (r: Option<TrackMetadata>)
        ensures
            meta_view(r) == self@.metadata,
    {
        match &self.metadata {
            Some(m) => Some(m.duplicate()),
            None => None,
        }
    }

    /// Replaces the displayed metadata.
    pub fn update_metadata(&mut self, metadata: TrackMetadata)
        ensures
            final(self)@ == (SessionView { metadata: Some(metadata@), ..old(self)@ }),
    {
        self.metadata = Some(metadata);
    }

    /// Downloaded and total byte counts; the total is 0 while unknown.
    pub fn download_progress(&self) -> (r: (u64, u64))
        ensures
            r == (self@.downloaded_bytes, self@.total_bytes),
    {
        (self.downloaded_bytes, self.total_bytes)
    }

    /// Marks the track as remote or local; a local track has no download progress.
    pub fn set_remote(&mut self, remote: bool)
        ensures
            remote ==> final(self)@ == (SessionView { remote: true, ..old(self)@ }),
            !remote ==> final(self)@ == (SessionView {
                remote: false,
                downloaded_bytes: 0,
                total_bytes: 0,
                ..old(self)@
            }),
    {
        self.remote = remote;
        if !remote {
            self.downloaded_bytes = 0;
            self.total_bytes = 0;
        }
    }
}

} // verus!
