//! Track metadata and the fallback chain that fills it: primary tag format,
//! then secondary tag format, then the file name.

use vstd::prelude::*;
use crate::lyrics::{file_stem, stem_exec};
use crate::text::{chars_of, starts_with, starts_with_exec, string_of, url_decode, url_decoded};
use crate::webdav::{after_last_slash, after_last_slash_exec};

verus! {

/// What one tag format yielded for a file; every field may be absent.
#[derive(Clone, Debug)]
pub struct TagInfo {
    pub title: Option<String>,
    pub artist: Option<String>,
    pub album: Option<String>,
    pub cover: Option<Vec<u8>>,
    pub lyrics: Option<String>,
}

/// Best-effort metadata of a track; absence of a field is a valid outcome.
#[derive(Clone, Debug)]
pub struct TrackMetadata {
    pub title: Option<String>,
    pub artist: Option<String>,
    pub album: Option<String>,
    pub cover: Option<Vec<u8>>,
    pub duration_ms: u64,
    pub lyrics: Option<String>,
}

/// The mathematical content of a [`TagInfo`].
pub struct TagView {
    pub title: Option<Seq<char>>,
    pub artist: Option<Seq<char>>,
    pub album: Option<Seq<char>>,
    pub cover: Option<Seq<u8>>,
    pub lyrics: Option<Seq<char>>,
}

/// The mathematical content of a [`TrackMetadata`].
pub struct MetaView {
    pub title: Option<Seq<char>>,
    pub artist: Option<Seq<char>>,
    pub album: Option<Seq<char>>,
    pub cover: Option<Seq<u8>>,
    pub duration_ms: u64,
    pub lyrics: Option<Seq<char>>,
}

pub open spec fn str_view(o: Option<String>) -> Option<Seq<char>> {
    match o {
        Some(s) => Some(s@),
        None => None,
    }
}

pub open spec fn bytes_view(o: Option<Vec<u8>>) -> Option<Seq<u8>> {
    match o {
        Some(b) => Some(b@),
        None => None,
    }
}

/// The first of `a` and `b` that is present.
pub open spec fn first_present<T>(a: Option<T>, b: Option<T>) -> Option<T> {
    if a is Some {
        a
    } else {
        b
    }
}

impl View for TagInfo {
    type V = TagView;

    open spec fn view(&self) -> TagView {
        TagView {
            title: str_view(self.title),
            artist: str_view(self.artist),
            album: str_view(self.album),
            cover: bytes_view(self.cover),
            lyrics: str_view(self.lyrics),
        }
    }
}

impl View for TrackMetadata {
    type V = MetaView;

    open spec fn view(&self) -> MetaView {
        MetaView {
            title: str_view(self.title),
            artist: str_view(self.artist),
            album: str_view(self.album),
            cover: bytes_view(self.cover),
            duration_ms: self.duration_ms,
            lyrics: str_view(self.lyrics),
        }
    }
}

impl TagView {
    pub open spec fn empty() -> TagView {
        TagView { title: None, artist: None, album: None, cover: None, lyrics: None }
    }
}

/// The tags that a format yielded, or none at all when the format was absent.
pub open spec fn tags_or_empty(t: Option<TagInfo>) -> TagView {
    match t {
        Some(t) => t@,
        None => TagView::empty(),
    }
}

/// Metadata merged field by field: the primary tags win, then the secondary
/// tags; the title falls back to the file name.
pub open spec fn merged(p: TagView, s: TagView, file_name: Seq<char>, duration_ms: u64) -> MetaView {
    MetaView {
        title: Some(
            match first_present(p.title, s.title) {
                Some(t) => t,
                None => file_name,
            },
        ),
        artist: first_present(p.artist, s.artist),
        album: first_present(p.album, s.album),
        cover: first_present(p.cover, s.cover),
        duration_ms,
        lyrics: first_present(p.lyrics, s.lyrics),
    }
}

pub fn copy_text(o: &Option<String>) -> (r: Option<String>)
    ensures
        str_view(r) == str_view(*o),
{
    match o {
        Some(s) => Some(s.clone()),
        None => None,
    }
}

pub fn copy_bytes(v: &Vec<u8>) -> (r: Vec<u8>)
    ensures
        r@ == v@,
{
    let mut out: Vec<u8> = Vec::new();
    let mut i: usize = 0;
    while i < v.len()
        invariant
            i <= v.len(),
            out@ == v@.take(i as int),
        decreases v.len() - i,
    {
        out.push(v[i]);
        i += 1;
        assert(out@ =~= v@.take(i as int));
    }
    assert(v@.take(i as int) =~= v@);
    out
}

fn copy_cover(o: &Option<Vec<u8>>) -> (r: Option<Vec<u8>>)
    ensures
        bytes_view(r) == bytes_view(*o),
{
    match o {
        Some(b) => Some(copy_bytes(b)),
        None => None,
    }
}

fn pick_text(a: Option<String>, b: Option<String>) -> (r: Option<String>)
    ensures
        str_view(r) == first_present(str_view(a), str_view(b)),
{
    if a.is_some() {
        a
    } else {
        b
    }
}

impl TagInfo {
    pub fn empty() -> (r: TagInfo)
        ensures
            r@ == TagView::empty(),
    {
        TagInfo { title: None, artist: None, album: None, cover: None, lyrics: None }
    }
}

impl TrackMetadata {
    /// An exact copy of this metadata.
    pub fn duplicate(&self) -> (r: TrackMetadata)
        ensures
            r@ == self@,
    {
        TrackMetadata {
            title: copy_text(&self.title),
            artist: copy_text(&self.artist),
            album: copy_text(&self.album),
            cover: copy_cover(&self.cover),
            duration_ms: self.duration_ms,
            lyrics: copy_text(&self.lyrics),
        }
    }

    /// Merges what the two tag formats yielded: per field the first one present
    /// wins, and the title falls back to `file_name`.
    pub fn from_tags(
        primary: Option<TagInfo>,
        secondary: Option<TagInfo>,
        file_name: String,
        duration_ms: u64,
    ) -> (r: TrackMetadata)
        ensures
            r@ == merged(tags_or_empty(primary), tags_or_empty(secondary), file_name@, duration_ms),
    {
        let p = match primary {
            Some(t) => t,
            None => TagInfo::empty(),
        };
        let s = match secondary {
            Some(t) => t,
            None => TagInfo::empty(),
        };
        let title = match pick_text(p.title, s.title) {
            Some(t) => t,
            None => file_name,
        };
        let cover = if p.cover.is_some() {
            p.cover
        } else {
            s.cover
        };
        TrackMetadata {
            title: Some(title),
            artist: pick_text(p.artist, s.artist),
            album: pick_text(p.album, s.album),
            cover,
            duration_ms,
            lyrics: pick_text(p.lyrics, s.lyrics),
        }
    }
}

/// Name prefix of the scratch files that remote playback downloads into; a
/// title that starts with it was derived from the scratch file, not the track.
pub const SCRATCH_PREFIX: &'static str = "streamplay_";

/// The title that a remote track's URL gives: the stem of its last path
/// segment, percent-decoded when that yields text.
pub open spec fn url_file_title(url: Seq<char>) -> Seq<char> {
    let last = after_last_slash(url);
    let decoded = match url_decoded(last) {
        Some(d) => d,
        None => last,
    };
    let name = after_last_slash(decoded);
    if name.len() == 0 {
        decoded
    } else {
        file_stem(name)
    }
}

/// The title of the track that `url` names.
pub fn title_from_url(url: &str) -> (r: String)
    ensures
        r@ == url_file_title(url@),
{
    let u = chars_of(url);
    let last = string_of(&after_last_slash_exec(&u));
    let decoded = match url_decode(last.as_str()) {
        Some(d) => chars_of(d.as_str()),
        None => chars_of(last.as_str()),
    };
    let name = after_last_slash_exec(&decoded);
    if name.len() == 0 {
        string_of(&decoded)
    } else {
        string_of(&stem_exec(&name))
    }
}

/// Whether a title is missing or was taken from a scratch file's name.
pub open spec fn title_needs_url(title: Option<Seq<char>>) -> bool {
    match title {
        None => true,
        Some(t) => starts_with(t, SCRATCH_PREFIX@),
    }
}

/// Metadata read from a remote track's scratch file, with the title taken
/// from `url` where the tags gave none or only the scratch file's name.
pub fn correct_remote_title(meta: TrackMetadata, url: &str) -> (r: TrackMetadata)
    ensures
        title_needs_url(meta@.title) ==> r@ == (MetaView {
            title: Some(url_file_title(url@)),
            ..meta@
        }),
        !title_needs_url(meta@.title) ==> r@ == meta@,
{
    let needs = match &meta.title {
        None => true,
        Some(t) => starts_with_exec(&chars_of(t.as_str()), &chars_of(SCRATCH_PREFIX)),
    };
    if needs {
        TrackMetadata { title: Some(title_from_url(url)), ..meta }
    } else {
        meta
    }
}

} // verus!
