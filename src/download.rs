//! Decisions of the progressive downloader and of the end-of-track watcher.
//! The caller performs the I/O and hands each outcome back as an event.

use vstd::prelude::*;
use crate::session::{LoadError, MAX_FILE_SIZE};

verus! {

/// Size of one read from the network.
pub const CHUNK_SIZE: usize = 16 * 1024;

/// Bytes downloaded before the first decode attempt. Deliberately above the
/// bare minimum that a decoder needs, so that large leading cover art and
/// header data do not cause misleading early failures.
pub const STREAM_START_BYTES: u64 = 1024 * 1024;

/// Poll interval of the end-of-track watcher; it bounds how late an end is noticed.
pub const POLL_INTERVAL_MS: u64 = 100;

/// Whether a local file may be played.
pub open spec fn local_verdict(exists: bool, is_file: bool, size: u64) -> Result<(), LoadError> {
    if !exists {
        Err(LoadError::Missing)
    } else if !is_file {
        Err(LoadError::NotAFile)
    } else if size == 0 {
        Err(LoadError::Empty)
    } else if size >= MAX_FILE_SIZE {
        Err(LoadError::TooLarge)
    } else {
        Ok(())
    }
}

/// Checks a local file before it is decoded: it must exist, be a regular file,
/// be non-empty and lie below [`MAX_FILE_SIZE`].
pub fn check_local_file(exists: bool, is_file: bool, size: u64) -> (r: Result<(), LoadError>)
    ensures
        r == local_verdict(exists, is_file, size),
{
    if !exists {
        Err(LoadError::Missing)
    } else if !is_file {
        Err(LoadError::NotAFile)
    } else if size == 0 {
        Err(LoadError::Empty)
    } else if size >= MAX_FILE_SIZE {
        Err(LoadError::TooLarge)
    } else {
        Ok(())
    }
}

/// An HTTP status other than 2xx fails the attempt.
pub fn check_status(code: u16) -> (r: Result<(), LoadError>)
    ensures
        r == (if 200 <= code <= 299 {
            Ok(())
        } else {
            Err(LoadError::BadStatus(code))
        }),
{
    if 200 <= code && code <= 299 {
        Ok(())
    } else {
        Err(LoadError::BadStatus(code))
    }
}

/// A declared content length at or over [`MAX_FILE_SIZE`] aborts the download early.
pub fn check_content_length(len: Option<u64>) -> (r: Result<(), LoadError>)
    ensures
        r == (match len {
            Some(n) => if n >= MAX_FILE_SIZE {
                Err(LoadError::TooLarge)
            } else {
                Ok(())
            },
            None => Ok(()),
        }),
{
    match len {
        Some(n) => if n >= MAX_FILE_SIZE {
            Err(LoadError::TooLarge)
        } else {
            Ok(())
        },
        None => Ok(()),
    }
}

/// Where a download stands with respect to playback.
#[derive(Clone, Copy, Debug, PartialEq, Eq, Structural)]
pub enum DownloadPhase {
    /// Below the threshold, or not yet tried to decode.
    Buffering,
    /// A decode at the threshold failed; the rest is fetched before trying again.
    Deferred,
    /// Playback started; the remainder is still being fetched.
    Streaming,
    /// The transfer completed before playback started; the whole file is decoded.
    Finishing,
    /// Nothing more to do.
    Done,
}

/// What the I/O side observed.
#[derive(Clone, Copy, Debug, PartialEq, Eq, Structural)]
pub enum DownloadEvent {
    /// A chunk of this many bytes was written to the scratch file.
    Chunk(u64),
    /// The remote side reached end of file.
    End,
    /// Decoding the scratch file succeeded and playback began.
    DecodeOk,
    /// Decoding the scratch file failed.
    DecodeFailed,
}

/// What the I/O side does next.
#[derive(Clone, Copy, Debug, PartialEq, Eq, Structural)]
pub enum DownloadAction {
    ReadMore,
    /// Try to decode the partial scratch file and start playback.
    TryDecode,
    /// Try to decode the complete scratch file and start playback.
    DecodeWhole,
    /// Stop; the scratch file stays for later seeks.
    Finish,
    /// Stop quietly and delete the partial scratch file.
    Cancel,
    /// Stop with this failure and delete the scratch file.
    Fail(LoadError),
}

/// State of one progressive download.
#[derive(Clone, Copy, Debug, PartialEq, Eq, Structural)]
pub struct Download {
    pub downloaded: u64,
    pub phase: DownloadPhase,
}

impl Download {
    pub open spec fn wf(self) -> bool {
        self.downloaded < MAX_FILE_SIZE
    }

    /// The next state and action after `ev`; `cancelled` tells whether the
    /// session was stopped or superseded.
    pub open spec fn next(self, ev: DownloadEvent, cancelled: bool) -> (Download, DownloadAction) {
        let done = Download { phase: DownloadPhase::Done, ..self };
        if self.phase == DownloadPhase::Done {
            (self, DownloadAction::Finish)
        } else if cancelled {
            (done, DownloadAction::Cancel)
        } else {
            match ev {
                DownloadEvent::Chunk(n) => {
                    if n >= MAX_FILE_SIZE - self.downloaded {
                        (done, DownloadAction::Fail(LoadError::TooLarge))
                    } else {
                        let d = Download { downloaded: (self.downloaded + n) as u64, ..self };
                        if self.phase == DownloadPhase::Buffering && d.downloaded
                            >= STREAM_START_BYTES {
                            (d, DownloadAction::TryDecode)
                        } else {
                            (d, DownloadAction::ReadMore)
                        }
                    }
                },
                DownloadEvent::End => {
                    if self.downloaded == 0 {
                        (done, DownloadAction::Fail(LoadError::Empty))
                    } else if self.phase == DownloadPhase::Streaming {
                        (done, DownloadAction::Finish)
                    } else {
                        (Download { phase: DownloadPhase::Finishing, ..self }, DownloadAction::DecodeWhole)
                    }
                },
                DownloadEvent::DecodeOk => {
                    if self.phase == DownloadPhase::Finishing {
                        (done, DownloadAction::Finish)
                    } else {
                        (Download { phase: DownloadPhase::Streaming, ..self }, DownloadAction::ReadMore)
                    }
                },
                DownloadEvent::DecodeFailed => {
                    if self.phase == DownloadPhase::Finishing {
                        (done, DownloadAction::Fail(LoadError::Decode))
                    } else {
                        (Download { phase: DownloadPhase::Deferred, ..self }, DownloadAction::ReadMore)
                    }
                },
            }
        }
    }

    pub fn new() -> (r: Download)
        ensures
            r == (Download { downloaded: 0, phase: DownloadPhase::Buffering }),
            r.wf(),
    {
        Download { downloaded: 0, phase: DownloadPhase::Buffering }
    }

    /// Advances the download by one event and says what to do next.
    pub fn step(&mut self, ev: DownloadEvent, cancelled: bool) -> (r: DownloadAction)
        requires
            old(self).wf(),
        ensures
            (*final(self), r) == old(self).next(ev, cancelled),
            final(self).wf(),
    {
        if self.phase == DownloadPhase::Done {
            return DownloadAction::Finish;
        }
        if cancelled {
            self.phase = DownloadPhase::Done;
            return DownloadAction::Cancel;
        }
        match ev {
            DownloadEvent::Chunk(n) => {
                if n >= MAX_FILE_SIZE - self.downloaded {
                    self.phase = DownloadPhase::Done;
                    DownloadAction::Fail(LoadError::TooLarge)
                } else {
                    self.downloaded = self.downloaded + n;
                    if self.phase == DownloadPhase::Buffering && self.downloaded
                        >= STREAM_START_BYTES {
                        DownloadAction::TryDecode
                    } else {
                        DownloadAction::ReadMore
                    }
                }
            },
            DownloadEvent::End => {
                if self.downloaded == 0 {
                    self.phase = DownloadPhase::Done;
                    DownloadAction::Fail(LoadError::Empty)
                } else if self.phase == DownloadPhase::Streaming {
                    self.phase = DownloadPhase::Done;
                    DownloadAction::Finish
                } else {
                    self.phase = DownloadPhase::Finishing;
                    DownloadAction::DecodeWhole
                }
            },
            DownloadEvent::DecodeOk => {
                if self.phase == DownloadPhase::Finishing {
                    self.phase = DownloadPhase::Done;
                    DownloadAction::Finish
                } else {
                    self.phase = DownloadPhase::Streaming;
                    DownloadAction::ReadMore
                }
            },
            DownloadEvent::DecodeFailed => {
                if self.phase == DownloadPhase::Finishing {
                    self.phase = DownloadPhase::Done;
                    DownloadAction::Fail(LoadError::Decode)
                } else {
                    self.phase = DownloadPhase::Deferred;
                    DownloadAction::ReadMore
                }
            },
        }
    }
}

/// What the end-of-track watcher does after one poll.
#[derive(Clone, Copy, Debug, PartialEq, Eq, Structural)]
pub enum WatchStep {
    /// Poll again after [`POLL_INTERVAL_MS`].
    Continue,
    /// Report the end of the track once, then stop watching.
    FireEnd,
    /// Stop watching without reporting.
    Exit,
}

/// One poll of the end-of-track watcher: the output is gone, drained, or still busy.
pub fn watch_step(sink_available: bool, sink_empty: bool, playback_started: bool) -> (r: WatchStep)
    ensures
        r == (if !sink_available {
            WatchStep::Exit
        } else if !sink_empty {
            WatchStep::Continue
        } else if playback_started {
            WatchStep::FireEnd
        } else {
            WatchStep::Exit
        }),
{
    if !sink_available {
        WatchStep::Exit
    } else if !sink_empty {
        WatchStep::Continue
    } else if playback_started {
        WatchStep::FireEnd
    } else {
        WatchStep::Exit
    }
}

} // verus!
