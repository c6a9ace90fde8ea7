//! Properties of the playback session and the downloader that hold across calls.

use vstd::prelude::*;
use crate::download::{
    local_verdict, Download, DownloadAction, DownloadEvent, DownloadPhase, POLL_INTERVAL_MS,
};
use crate::metadata::MetaView;
use crate::session::{min_of, LoadError, PlayPhase, SessionView, MAX_FILE_SIZE};

verus! {

/// A local file below the size limit that decodes to a known, non-zero length
/// is playing once its worker reports, with that duration.
pub proof fn lemma_local_play_reaches_playing(
    v: SessionView,
    path: Seq<char>,
    track_id: Option<Seq<char>>,
    size: u64,
    duration_ms: u64,
    meta: MetaView,
    now: u64,
)
    requires
        0 < size < MAX_FILE_SIZE,
        duration_ms > 0,
    ensures
        local_verdict(true, true, size) is Ok,
        ({
            let w = v.after_play(path, track_id);
            let x = w.after_ready(w.generation, duration_ms, meta, path, now);
            x.is_playing() && x.duration_ms == duration_ms && x.duration_ms > 0
                && x.metadata == Some(meta)
        }),
{
}

/// A file at or over the size limit is refused, the failure stays visible, and
/// no later report can start it.
pub proof fn lemma_oversized_never_plays(
    v: SessionView,
    path: Seq<char>,
    track_id: Option<Seq<char>>,
    size: u64,
    token: u64,
    duration_ms: u64,
    meta: MetaView,
    p: Seq<char>,
    now: u64,
)
    requires
        size >= MAX_FILE_SIZE,
    ensures
        local_verdict(true, true, size) == Err::<(), LoadError>(LoadError::TooLarge),
        !v.after_play(path, track_id).is_playing(),
        ({
            let w = v.after_play(path, track_id);
            let f = w.after_failure(w.generation, LoadError::TooLarge);
            &&& !f.is_playing()
            &&& f.phase == PlayPhase::Failed
            &&& f.last_error == Some(LoadError::TooLarge)
            &&& f.after_ready(token, duration_ms, meta, p, now) == f
        }),
{
}

/// A download whose next chunk would bring it to the size limit fails and never plays.
pub proof fn lemma_oversized_download_fails(d: Download, n: u64)
    requires
        d.wf(),
        d.phase != DownloadPhase::Done,
        d.downloaded + n >= MAX_FILE_SIZE,
    ensures
        d.next(DownloadEvent::Chunk(n), false).1 == DownloadAction::Fail(LoadError::TooLarge),
        d.next(DownloadEvent::Chunk(n), false).0.phase == DownloadPhase::Done,
{
}

/// Elapsed time never exceeds the duration and never goes below zero.
pub proof fn lemma_elapsed_within_duration(v: SessionView, now: u64)
    ensures
        0 <= v.elapsed_at(now) <= v.duration_ms,
{
}

/// Elapsed time does not decrease as the clock advances, and grows no faster than it.
pub proof fn lemma_elapsed_monotone(v: SessionView, a: u64, b: u64)
    requires
        a <= b,
    ensures
        v.elapsed_at(a) <= v.elapsed_at(b),
        v.elapsed_at(b) - v.elapsed_at(a) <= b - a,
{
}

/// Right after a seek to `t`, elapsed time reads `t` (within the duration),
/// and while playing it then advances with the clock from there.
pub proof fn lemma_seek_rebases_elapsed(v: SessionView, t: u64, now: u64, later: u64)
    requires
        now <= later,
    ensures
        v.after_seek(t, now).elapsed_at(now) == min_of(t as int, v.duration_ms as int),
        v.is_playing() ==> v.after_seek(t, now).elapsed_at(later) == min_of(
            t + (later - now),
            v.duration_ms as int,
        ),
        v.after_seek(t, now).elapsed_at(now) <= v.after_seek(t, now).elapsed_at(later),
{
}

/// Stopping cancels the download: the downloader's next step deletes the
/// partial file, and no later report of any worker resurrects playback.
pub proof fn lemma_stop_cancels_download(
    v: SessionView,
    d: Download,
    ev: DownloadEvent,
    token: u64,
    duration_ms: u64,
    meta: MetaView,
    p: Seq<char>,
    now: u64,
    downloaded: u64,
    total: u64,
)
    requires
        d.phase != DownloadPhase::Done,
    ensures
        v.after_stop().download_cancelled,
        !v.after_stop().is_playing(),
        !v.after_stop().is_current(token),
        d.next(ev, !v.after_stop().is_current(token)).1 == DownloadAction::Cancel,
        v.after_stop().after_ready(token, duration_ms, meta, p, now) == v.after_stop(),
        v.after_stop().after_progress(token, downloaded, total) == v.after_stop(),
        v.after_stop().after_failure(token, LoadError::Decode) == v.after_stop(),
{
}

/// Nothing that a worker of a superseded session reports changes the state.
pub proof fn lemma_stale_reports_ignored(
    w: SessionView,
    stale: u64,
    duration_ms: u64,
    meta: MetaView,
    p: Seq<char>,
    now: u64,
    e: LoadError,
    downloaded: u64,
    total: u64,
)
    requires
        stale != w.generation,
    ensures
        w.after_ready(stale, duration_ms, meta, p, now) == w,
        w.after_failure(stale, e) == w,
        w.after_progress(stale, downloaded, total) == w,
        w.after_duration(stale, duration_ms) == w,
        w.after_track_end(stale) == w,
{
}

/// After `play(a)` then `play(b)`, the first session's token is stale; once
/// b's worker reports, only b's duration and metadata are visible, whatever
/// a's worker reports afterwards.
pub proof fn lemma_latest_play_wins(
    v: SessionView,
    a: Seq<char>,
    ida: Option<Seq<char>>,
    b: Seq<char>,
    idb: Option<Seq<char>>,
    db: u64,
    mb: MetaView,
    now: u64,
    da: u64,
    ma: MetaView,
    later: u64,
)
    ensures
        ({
            let va = v.after_play(a, ida);
            let ta = va.generation;
            let vb = va.after_play(b, idb);
            let ready_b = vb.after_ready(vb.generation, db, mb, b, now);
            let late_a = ready_b.after_ready(ta, da, ma, a, later).after_duration(ta, da);
            &&& ta != vb.generation
            &&& vb.after_ready(ta, da, ma, a, later) == vb
            &&& late_a.duration_ms == db
            &&& late_a.metadata == Some(mb)
            &&& late_a.current_path == Some(b)
        }),
{
}

/// Every state change keeps stored and re-based elapsed time within the
/// duration; so while not playing, elapsed time is the stored value.
pub proof fn lemma_transitions_keep_bounds(
    v: SessionView,
    path: Seq<char>,
    track_id: Option<Seq<char>>,
    token: u64,
    duration_ms: u64,
    meta: MetaView,
    p: Seq<char>,
    now: u64,
    e: LoadError,
    t: u64,
    downloaded: u64,
    total: u64,
)
    requires
        v.wf(),
    ensures
        v.after_play(path, track_id).wf(),
        v.after_ready(token, duration_ms, meta, p, now).wf(),
        v.after_failure(token, e).wf(),
        v.after_pause(now).wf(),
        v.after_resume(now).wf(),
        v.after_stop().wf(),
        v.after_seek(t, now).wf(),
        v.after_track_end(token).wf(),
        v.after_progress(token, downloaded, total).wf(),
        v.after_duration(token, duration_ms).wf(),
        !v.is_playing() ==> v.elapsed_at(now) == v.stored_ms,
{
}

/// A new play releases the superseded session's scratch file: the slot is
/// empty and no seek can reach that file.
pub proof fn lemma_play_releases_scratch(v: SessionView, path: Seq<char>, track_id: Option<Seq<char>>)
    ensures
        v.after_play(path, track_id).scratch is None,
        v.after_play(path, track_id).seek_path() is None,
{
}

/// A seek to `t` within the duration reads `t` at once; while playing, any
/// reading taken within one poll interval afterwards lies in `[t, t + interval]`,
/// and while paused it stays `t`.
pub proof fn lemma_seek_within_poll_interval(v: SessionView, t: u64, now: u64, later: u64)
    requires
        t <= v.duration_ms,
        now <= later,
        later - now <= POLL_INTERVAL_MS,
    ensures
        v.after_seek(t, now).elapsed_at(now) == t,
        v.is_playing() ==> t <= v.after_seek(t, now).elapsed_at(later) <= t + POLL_INTERVAL_MS,
        !v.is_playing() ==> v.after_seek(t, now).elapsed_at(later) == t,
{
}

} // verus!
