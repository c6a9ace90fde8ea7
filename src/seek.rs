//! Byte offset estimation for seeking, by audio format.

use vstd::prelude::*;
use crate::text::{chars_of, lower_of, lowercase, same_chars};

verus! {

/// Assumed bytes per second of compressed audio (about 128 kbit/s).
pub const MP3_BYTES_PER_SECOND: u64 = 16000;

/// Bytes kept back from the end of a compressed file when seeking into it.
pub const MP3_TAIL_MARGIN: u64 = 100;

/// Size of a canonical PCM wave header.
pub const WAV_HEADER_BYTES: u64 = 44;

/// Bytes per second of 44.1 kHz, 16-bit stereo PCM.
pub const WAV_BYTES_PER_SECOND: u64 = 44100 * 4;

/// Audio formats, as far as seeking is concerned.
#[derive(Clone, Copy, Debug, PartialEq, Eq, Structural)]
pub enum AudioFormat {
    /// Compressed at a roughly constant bitrate.
    Mp3,
    /// PCM behind a fixed-size header.
    Wav,
    /// Framed in a container that gives no reliable offset.
    Flac,
    Other,
}

/// Where decoding resumes after a seek.
#[derive(Clone, Copy, Debug, PartialEq, Eq, Structural)]
pub enum SeekPlan {
    /// Decode from this byte offset.
    FromByte(u64),
    /// Restart from the beginning: a degraded but valid seek.
    FromStart,
}

pub open spec fn format_of(lower_ext: Seq<char>) -> AudioFormat {
    if lower_ext == "mp3"@ {
        AudioFormat::Mp3
    } else if lower_ext == "wav"@ {
        AudioFormat::Wav
    } else if lower_ext == "flac"@ {
        AudioFormat::Flac
    } else {
        AudioFormat::Other
    }
}

/// The seek plan for `format`, a file of `file_size` bytes and a target of `secs` seconds.
pub open spec fn plan_for(format: AudioFormat, file_size: u64, secs: u64) -> SeekPlan {
    match format {
        AudioFormat::Mp3 => {
            let room = if file_size >= MP3_TAIL_MARGIN {
                file_size - MP3_TAIL_MARGIN
            } else {
                0
            };
            let want = secs * MP3_BYTES_PER_SECOND;
            let off = if want <= room {
                want
            } else {
                room
            };
            if off > 0 {
                SeekPlan::FromByte(off as u64)
            } else {
                SeekPlan::FromStart
            }
        },
        AudioFormat::Wav => {
            let skip = WAV_HEADER_BYTES + secs * WAV_BYTES_PER_SECOND;
            if WAV_HEADER_BYTES < skip && skip < file_size {
                SeekPlan::FromByte(skip as u64)
            } else {
                SeekPlan::FromStart
            }
        },
        _ => SeekPlan::FromStart,
    }
}

/// The format named by a file extension, in any letter case.
pub fn format_from_extension(ext: &str) -> (r: AudioFormat)
    ensures
        r == format_of(lower_of(ext@)),
{
    let low = lowercase(ext);
    let l = chars_of(low.as_str());
    proof {
        reveal_strlit("mp3");
        reveal_strlit("wav");
        reveal_strlit("flac");
    }
    if same_chars(&l, &chars_of("mp3")) {
        AudioFormat::Mp3
    } else if same_chars(&l, &chars_of("wav")) {
        AudioFormat::Wav
    } else if same_chars(&l, &chars_of("flac")) {
        AudioFormat::Flac
    } else {
        AudioFormat::Other
    }
}

/// Estimates where to resume decoding for a seek to `target_ms`; whole
/// seconds count. Formats without a reliable estimate restart from the beginning.
pub fn estimate_seek(format: AudioFormat, file_size: u64, target_ms: u64) -> (r: SeekPlan)
    ensures
        r == plan_for(format, file_size, target_ms / 1000),
{
    let secs = target_ms / 1000;
    match format {
        AudioFormat::Mp3 => {
            let room: u64 = if file_size >= MP3_TAIL_MARGIN {
                file_size - MP3_TAIL_MARGIN
            } else {
                0
            };
            let s128 = secs as u128;
            let rate: u128 = MP3_BYTES_PER_SECOND as u128;
            assert(s128 * rate <= 0xffff_ffff_ffff_ffffu128 * 16000) by (nonlinear_arith)
                requires
                    s128 <= 0xffff_ffff_ffff_ffffu128,
                    rate == 16000,
            ;
            let want: u128 = s128 * rate;
            let off: u64 = if want <= room as u128 {
                want as u64
            } else {
                room
            };
            if off > 0 {
                SeekPlan::FromByte(off)
            } else {
                SeekPlan::FromStart
            }
        },
        AudioFormat::Wav => {
            let s128 = secs as u128;
            let rate: u128 = WAV_BYTES_PER_SECOND as u128;
            assert(s128 * rate <= 0xffff_ffff_ffff_ffffu128 * 176400) by (nonlinear_arith)
                requires
                    s128 <= 0xffff_ffff_ffff_ffffu128,
                    rate == 176400,
            ;
            let skip: u128 = (WAV_HEADER_BYTES as u128) + s128 * rate;
            if (WAV_HEADER_BYTES as u128) < skip && skip < file_size as u128 {
                SeekPlan::FromByte(skip as u64)
            } else {
                SeekPlan::FromStart
            }
        },
        _ => SeekPlan::FromStart,
    }
}

} // verus!
