//! Playback engine of a desktop audio player, with its contracts proved.
//!
//! - `session`: the playback session (lifecycle, elapsed time, session tokens,
//!   scratch file slot) as a state machine over plain values.
//! - `download`: decisions of the progressive downloader and of the
//!   end-of-track watcher, from observed events to next actions.
//! - `seek`: byte offset estimation for seeking, by format.
//! - `metadata`: the tag fallback chain and remote title correction.
//! - `lyrics`: timed lyric parsing, entity decoding, local lyric lookup.
//! - `webdav`: parsing of WebDAV listings.
//! - `models`, `library`: songs, tracks, playlists and remote sources.
//! - `crypto`: protection of stored passwords.
//! - `laws`: properties across calls of the session and the downloader.
//! - `text`: character-sequence helpers shared by the parsers.

pub mod text;
pub mod metadata;
pub mod session;
pub mod download;
pub mod seek;
pub mod laws;
pub mod lyrics;
pub mod webdav;
pub mod models;
pub mod crypto;
pub mod library;
