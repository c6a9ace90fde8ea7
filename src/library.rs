//! Tracks of the local library and playlists of them.

use vstd::prelude::*;
use crate::metadata::{copy_bytes, TagInfo, TagView};
use crate::models::fresh_id;
use crate::text::{chars_of, string_of};

verus! {

/// A track of the library; the duration in milliseconds.
#[derive(Clone, Debug)]
pub struct Track {
    pub id: String,
    pub path: String,
    pub title: String,
    pub artist: String,
    pub album: String,
    pub duration_ms: u64,
    pub cover: Option<Vec<u8>>,
}

/// A track without its cover art.
#[derive(Clone, Debug)]
pub struct TrackStub {
    pub id: String,
    pub path: String,
    pub title: String,
    pub artist: String,
    pub album: String,
    pub duration_ms: u64,
}

/// A named list of tracks.
#[derive(Clone, Debug)]
pub struct Playlist {
    pub id: String,
    pub name: String,
    pub tracks: Vec<Track>,
}

/// The tags a track takes whole: the primary format's when present, else the secondary's.
pub open spec fn chosen_tags(primary: Option<TagInfo>, secondary: Option<TagInfo>) -> Option<TagView> {
    match primary {
        Some(p) => Some(p@),
        None => match secondary {
            Some(s) => Some(s@),
            None => None,
        },
    }
}

pub open spec fn text_or(o: Option<Seq<char>>, d: Seq<char>) -> Seq<char> {
    match o {
        Some(t) => t,
        None => d,
    }
}

fn take_or(o: Option<String>, d: &str) -> (r: String)
    ensures
        r@ == text_or(crate::metadata::str_view(o), d@),
{
    match o {
        Some(t) => t,
        None => string_of(&chars_of(d)),
    }
}

impl Track {
    /// A track for the file at `path`: all fields from the tags of one format
    /// (primary first), missing ones defaulting to the file name, `Unknown
    /// Artist` and `Unknown Album`; with no tags at all, those defaults alone.
    pub fn from_tags(
        path: String,
        primary: Option<TagInfo>,
        secondary: Option<TagInfo>,
        file_name: String,
        duration_ms: u64,
    ) -> (r: Track)
        ensures
            r.id@.len() == 36,
            r.path == path,
            r.duration_ms == duration_ms,
            match chosen_tags(primary, secondary) {
                Some(t) => {
                    &&& r.title@ == text_or(t.title, file_name@)
                    &&& r.artist@ == text_or(t.artist, "Unknown Artist"@)
                    &&& r.album@ == text_or(t.album, "Unknown Album"@)
                    &&& crate::metadata::bytes_view(r.cover) == t.cover
                },
                None => {
                    &&& r.title@ == file_name@
                    &&& r.artist@ == "Unknown Artist"@
                    &&& r.album@ == "Unknown Album"@
                    &&& r.cover is None
                },
            },
    {
        let tags = match primary {
            Some(p) => Some(p),
            None => secondary,
        };
        let id = fresh_id();
        match tags {
            Some(t) => Track {
                id,
                path,
                title: match t.title {
                    Some(v) => v,
                    None => file_name,
                },
                artist: take_or(t.artist, "Unknown Artist"),
                album: take_or(t.album, "Unknown Album"),
                duration_ms,
                cover: t.cover,
            },
            None => Track {
                id,
                path,
                title: file_name,
                artist: take_or(None, "Unknown Artist"),
                album: take_or(None, "Unknown Album"),
                duration_ms,
                cover: None,
            },
        }
    }

    /// A copy with every field equal.
    pub fn duplicate(&self) -> (r: Track)
        ensures
            r.id == self.id && r.path == self.path && r.title == self.title && r.artist
                == self.artist && r.album == self.album && r.duration_ms == self.duration_ms,
            crate::metadata::bytes_view(r.cover) == crate::metadata::bytes_view(self.cover),
    {
        Track {
            id: self.id.clone(),
            path: self.path.clone(),
            title: self.title.clone(),
            artist: self.artist.clone(),
            album: self.album.clone(),
            duration_ms: self.duration_ms,
            cover: match &self.cover {
                Some(c) => Some(copy_bytes(c)),
                None => None,
            },
        }
    }
}

impl TrackStub {
    /// The track without its cover art.
    pub fn from_track(t: Track) -> (r: TrackStub)
        ensures
            r.id == t.id && r.path == t.path && r.title == t.title && r.artist == t.artist
                && r.album == t.album && r.duration_ms == t.duration_ms,
    {
        TrackStub {
            id: t.id,
            path: t.path,
            title: t.title,
            artist: t.artist,
            album: t.album,
            duration_ms: t.duration_ms,
        }
    }
}

/// `s` without the tracks whose id is `id`, the others in order.
pub open spec fn without_track(s: Seq<Track>, id: Seq<char>) -> Seq<Track>
    decreases s.len(),
{
    if s.len() == 0 {
        s
    } else if s.last().id@ == id {
        without_track(s.drop_last(), id)
    } else {
        without_track(s.drop_last(), id).push(s.last())
    }
}

impl Playlist {
    /// An empty playlist with a fresh id.
    pub fn new(name: String) -> (r: Playlist)
        ensures
            r.id@.len() == 36,
            r.name == name,
            r.tracks@.len() == 0,
    {
        Playlist { id: fresh_id(), name, tracks: Vec::new() }
    }

    pub fn add_track(&mut self, track: Track)
        ensures
            final(self).tracks@ == old(self).tracks@.push(track),
            final(self).id == old(self).id,
            final(self).name == old(self).name,
    {
        self.tracks.push(track);
    }

    /// Removes every track whose id is `track_id`, keeping the order of the others.
    pub fn remove_track(&mut self, track_id: &str)
        ensures
            final(self).tracks@ == without_track(old(self).tracks@, track_id@),
            final(self).id == old(self).id,
            final(self).name == old(self).name,
    {
        let ghost orig = self.tracks@;
        let n = self.tracks.len();
        assert(orig.len() == n);
        let mut i: usize = 0;
        let mut j: usize = 0;
        assert(orig.take(0) =~= Seq::<Track>::empty());
        assert(orig.skip(0) =~= orig);
        assert(self.tracks@ =~= without_track(orig.take(0), track_id@) + orig.skip(0));
        while i < self.tracks.len()
            invariant
                j <= orig.len(),
                orig.len() <= usize::MAX,
                i == without_track(orig.take(j as int), track_id@).len(),
                self.tracks@ == without_track(orig.take(j as int), track_id@) + orig.skip(j as int),
                self.id == old(self).id,
                self.name == old(self).name,
            decreases self.tracks.len() - i,
        {
            let ghost done = without_track(orig.take(j as int), track_id@);
            assert(orig.skip(j as int).len() == orig.len() - j);
            assert(j < orig.len());
            assert(self.tracks@[i as int] == orig[j as int]);
            assert(orig.take(j + 1).drop_last() =~= orig.take(j as int));
            assert(orig.take(j + 1).last() == orig[j as int]);
            let same = crate::text::same_chars(&chars_of(self.tracks[i].id.as_str()), &chars_of(track_id));
            if same {
                self.tracks.remove(i);
                assert(self.tracks@ =~= without_track(orig.take(j + 1), track_id@) + orig.skip(j + 1));
            } else {
                assert(without_track(orig.take(j + 1), track_id@) == done.push(orig[j as int]));
                assert(self.tracks@ =~= without_track(orig.take(j + 1), track_id@) + orig.skip(j + 1));
                i += 1;
            }
            j += 1;
        }
        assert(orig.skip(j as int).len() == 0);
        assert(orig.take(j as int) =~= orig);
        assert(self.tracks@ =~= without_track(orig, track_id@));
    }

    pub fn clear(&mut self)
        ensures
            final(self).tracks@.len() == 0,
            final(self).id == old(self).id,
            final(self).name == old(self).name,
    {
        self.tracks.clear();
    }
}

} // verus!
