//! Library entries: songs, playlists and remote files.

use vstd::prelude::*;
use crate::lyrics::{file_stem, stem_exec};
use crate::text::{chars_of, string_of};
use crate::webdav::{after_last_slash, after_last_slash_exec};

verus! {

/// Relies on `uuid::Uuid::new_v4` and its hyphenated `Display` form: 36
/// characters, random.
#[verifier::external_body]
pub(crate) fn fresh_id() -> (r: String)
    ensures
        r@.len() == 36,
{
    uuid::Uuid::new_v4().to_string()
}

/// Relies on `std::time::SystemTime::now`: whole seconds since the Unix epoch,
/// 0 for a clock set before it.
#[verifier::external_body]
fn unix_seconds() -> (r: u64) {
    match std::time::SystemTime::now().duration_since(std::time::UNIX_EPOCH) {
        Ok(d) => d.as_secs(),
        Err(_) => 0,
    }
}

#[derive(Clone, Debug)]
pub struct Song {
    pub id: String,
    pub title: String,
    pub artist: String,
    pub album: String,
    pub duration: u32,
    pub file_path: String,
    pub cover_art: Option<String>,
    pub is_webdav: bool,
    pub webdav_url: Option<String>,
}

#[derive(Clone, Debug)]
pub struct Playlist {
    pub id: String,
    pub name: String,
    pub songs: Vec<Song>,
    pub created_at: u64,
}

/// A file or folder offered by a remote source.
#[derive(Clone, Debug)]
pub struct WebDAVFile {
    pub path: String,
    pub name: String,
    pub is_directory: bool,
    pub size: Option<u64>,
}

#[derive(Clone, Copy, Debug, PartialEq, Eq, Structural)]
pub enum PlaybackState {
    Stopped,
    Playing,
    Paused,
}

/// The title a song gets from its path: the stem of the file name, or
/// `Unknown` when the path names no file.
pub open spec fn title_of_path(p: Seq<char>) -> Seq<char> {
    let name = after_last_slash(p);
    if name.len() == 0 {
        "Unknown"@
    } else {
        file_stem(name)
    }
}

/// `s` without the songs whose id is `id`, the others in order.
pub open spec fn without_id(s: Seq<Song>, id: Seq<char>) -> Seq<Song>
    decreases s.len(),
{
    if s.len() == 0 {
        s
    } else if s.last().id@ == id {
        without_id(s.drop_last(), id)
    } else {
        without_id(s.drop_last(), id).push(s.last())
    }
}

pub open spec fn song_ids(s: Seq<Song>) -> Seq<Seq<char>> {
    s.map_values(|x: Song| x.id@)
}

fn same_text(a: &String, b: &str) -> (r: bool)
    ensures
        r == (a@ == b@),
{
    crate::text::same_chars(&chars_of(a.as_str()), &chars_of(b))
}

impl Song {
    /// A song for the file at `file_path`, with a fresh id and its title taken from the file name.
    pub fn new(file_path: String, is_webdav: bool, webdav_url: Option<String>) -> (r: Song)
        ensures
            r.id@.len() == 36,
            r.title@ == title_of_path(file_path@),
            r.artist@ == "Unknown Artist"@,
            r.album@ == "Unknown Album"@,
            r.duration == 0,
            r.file_path == file_path,
            r.cover_art is None,
            r.is_webdav == is_webdav,
            r.webdav_url == webdav_url,
    {
        let name = after_last_slash_exec(&chars_of(file_path.as_str()));
        let title = if name.len() == 0 {
            proof {
                reveal_strlit("Unknown");
            }
            string_of(&chars_of("Unknown"))
        } else {
            string_of(&stem_exec(&name))
        };
        Song {
            id: fresh_id(),
            title,
            artist: string_of(&chars_of("Unknown Artist")),
            album: string_of(&chars_of("Unknown Album")),
            duration: 0,
            file_path,
            cover_art: None,
            is_webdav,
            webdav_url,
        }
    }
}

impl Playlist {
    /// An empty playlist with a fresh id, created now.
    pub fn new(name: String) -> (r: Playlist)
        ensures
            r.id@.len() == 36,
            r.name == name,
            r.songs@.len() == 0,
    {
        Playlist { id: fresh_id(), name, songs: Vec::new(), created_at: unix_seconds() }
    }

    /// Adds `song` unless a song with its id is already in the playlist.
    pub fn add_song(&mut self, song: Song)
        ensures
            song_ids(old(self).songs@).contains(song.id@) ==> final(self).songs@ == old(self).songs@,
            !song_ids(old(self).songs@).contains(song.id@) ==> final(self).songs@ == old(
                self,
            ).songs@.push(song),
            final(self).id == old(self).id,
            final(self).name == old(self).name,
            final(self).created_at == old(self).created_at,
    {
        let ghost ids = song_ids(self.songs@);
        let mut i: usize = 0;
        while i < self.songs.len()
            invariant
                i <= self.songs.len(),
                ids == song_ids(self.songs@),
                forall|k: int| 0 <= k < i ==> ids[k] != song.id@,
            decreases self.songs.len() - i,
        {
            if same_text(&self.songs[i].id, song.id.as_str()) {
                assert(ids[i as int] == song.id@);
                return;
            }
            i += 1;
        }
        self.songs.push(song);
    }

    /// Removes every song whose id is `song_id`, keeping the order of the others.
    pub fn remove_song(&mut self, song_id: &str)
        ensures
            final(self).songs@ == without_id(old(self).songs@, song_id@),
            final(self).id == old(self).id,
            final(self).name == old(self).name,
            final(self).created_at == old(self).created_at,
    {
        let ghost orig = self.songs@;
        let n = self.songs.len();
        assert(orig.len() == n);
        let mut i: usize = 0;
        let mut j: usize = 0;
        assert(orig.take(0) =~= Seq::<Song>::empty());
        assert(orig.skip(0) =~= orig);
        assert(self.songs@ =~= without_id(orig.take(0), song_id@) + orig.skip(0));
        while i < self.songs.len()
            invariant
                j <= orig.len(),
                orig.len() <= usize::MAX,
                i == without_id(orig.take(j as int), song_id@).len(),
                self.songs@ == without_id(orig.take(j as int), song_id@) + orig.skip(j as int),
                self.id == old(self).id,
                self.name == old(self).name,
                self.created_at == old(self).created_at,
            decreases self.songs.len() - i,
        {
            let ghost done = without_id(orig.take(j as int), song_id@);
            assert(orig.skip(j as int).len() == orig.len() - j);
            assert(j < orig.len());
            assert(self.songs@[i as int] == orig[j as int]);
            assert(orig.take(j + 1).drop_last() =~= orig.take(j as int));
            assert(orig.take(j + 1).last() == orig[j as int]);
            if same_text(&self.songs[i].id, song_id) {
                self.songs.remove(i);
                assert(self.songs@ =~= without_id(orig.take(j + 1), song_id@) + orig.skip(j + 1));
            } else {
                assert(without_id(orig.take(j + 1), song_id@) == done.push(orig[j as int]));
                assert(self.songs@ =~= without_id(orig.take(j + 1), song_id@) + orig.skip(j + 1));
                i += 1;
            }
            j += 1;
        }
        assert(orig.skip(j as int).len() == 0);
        assert(orig.take(j as int) =~= orig);
        assert(self.songs@ =~= without_id(orig, song_id@));
    }

    pub fn clear(&mut self)
        ensures
            final(self).songs@.len() == 0,
            final(self).id == old(self).id,
            final(self).name == old(self).name,
            final(self).created_at == old(self).created_at,
    {
        self.songs.clear();
    }
}

/// A configured remote source.
#[derive(Clone, Debug)]
pub struct WebDAVConfig {
    pub id: String,
    pub name: String,
    pub url: String,
    pub username: String,
    pub password: String,
}

impl WebDAVConfig {
    /// A source with a fresh id.
    pub fn new(name: String, url: String, username: String, password: String) -> (r: WebDAVConfig)
        ensures
            r.id@.len() == 36,
            r.name == name && r.url == url && r.username == username && r.password == password,
    {
        WebDAVConfig { id: fresh_id(), name, url, username, password }
    }
}

pub open spec fn playlist_ids(s: Seq<Playlist>) -> Seq<Seq<char>> {
    s.map_values(|p: Playlist| p.id@)
}

pub open spec fn config_ids(s: Seq<WebDAVConfig>) -> Seq<Seq<char>> {
    s.map_values(|c: WebDAVConfig| c.id@)
}

/// The first index at or after `i` of an id equal to `id`.
pub open spec fn index_of_id(ids: Seq<Seq<char>>, id: Seq<char>, i: int) -> Option<int>
    decreases ids.len() - i,
{
    if i < 0 || i >= ids.len() {
        None
    } else if ids[i] == id {
        Some(i)
    } else {
        index_of_id(ids, id, i + 1)
    }
}

/// `s` without the configurations whose id is `id`, the others in order.
pub open spec fn without_config(s: Seq<WebDAVConfig>, id: Seq<char>) -> Seq<WebDAVConfig>
    decreases s.len(),
{
    if s.len() == 0 {
        s
    } else if s.last().id@ == id {
        without_config(s.drop_last(), id)
    } else {
        without_config(s.drop_last(), id).push(s.last())
    }
}

proof fn lemma_push_contains(s: Seq<Seq<char>>, x: Seq<char>, y: Seq<char>)
    ensures
        s.push(x).contains(y) == (s.contains(y) || x == y),
{
    if s.push(x).contains(y) {
        let k = choose|k: int| 0 <= k < s.push(x).len() && s.push(x)[k] == y;
        if k < s.len() {
            assert(s[k] == y);
        }
    }
    if s.contains(y) {
        let k = choose|k: int| 0 <= k < s.len() && s[k] == y;
        assert(s.push(x)[k] == y);
    }
    if x == y {
        assert(s.push(x)[s.len() as int] == y);
    }
}

/// The songs `s` after adding each of `add` in turn, skipping ids already present.
pub open spec fn with_songs(s: Seq<Song>, add: Seq<Song>) -> Seq<Song>
    decreases add.len(),
{
    if add.len() == 0 {
        s
    } else {
        let t = with_songs(s, add.drop_last());
        if song_ids(t).contains(add.last().id@) {
            t
        } else {
            t.push(add.last())
        }
    }
}

/// The playlists and remote sources of the library, in memory; the caller
/// persists them.
pub struct PlaylistManager {
    pub playlists: Vec<Playlist>,
    pub webdav_configs: Vec<WebDAVConfig>,
}

impl PlaylistManager {
    pub fn new(playlists: Vec<Playlist>, webdav_configs: Vec<WebDAVConfig>) -> (r: PlaylistManager)
        ensures
            r.playlists == playlists,
            r.webdav_configs == webdav_configs,
    {
        PlaylistManager { playlists, webdav_configs }
    }

    /// Index of the playlist with id `id`.
    pub fn playlist_index(&self, id: &str) -> (r: Option<usize>)
        ensures
            match r {
                Some(i) => index_of_id(playlist_ids(self.playlists@), id@, 0) == Some(i as int)
                    && i < self.playlists.len(),
                None => index_of_id(playlist_ids(self.playlists@), id@, 0) is None,
            },
    {
        let ghost ids = playlist_ids(self.playlists@);
        let mut i: usize = 0;
        while i < self.playlists.len()
            invariant
                i <= self.playlists.len(),
                ids == playlist_ids(self.playlists@),
                index_of_id(ids, id@, 0) == index_of_id(ids, id@, i as int),
            decreases self.playlists.len() - i,
        {
            if same_text(&self.playlists[i].id, id) {
                return Some(i);
            }
            i += 1;
        }
        None
    }

    /// Creates an empty playlist named `name`, appends it and returns its index.
    pub fn create_playlist(&mut self, name: String) -> (r: usize)
        ensures
            final(self).playlists@.len() == old(self).playlists@.len() + 1,
            r == old(self).playlists@.len(),
            final(self).playlists@.take(r as int) == old(self).playlists@,
            final(self).playlists@[r as int].name == name,
            final(self).playlists@[r as int].songs@.len() == 0,
            final(self).webdav_configs == old(self).webdav_configs,
    {
        let r = self.playlists.len();
        self.playlists.push(Playlist::new(name));
        assert(self.playlists@.take(r as int) =~= old(self).playlists@);
        r
    }

    pub fn get_playlist(&self, id: &str) -> (r: Option<&Playlist>)
        ensures
            match index_of_id(playlist_ids(self.playlists@), id@, 0) {
                Some(i) => r == Some(&self.playlists@[i]),
                None => r is None,
            },
    {
        match self.playlist_index(id) {
            Some(i) => Some(&self.playlists[i]),
            None => None,
        }
    }

    /// Deletes the first playlist with id `id`; returns whether there was one.
    pub fn delete_playlist(&mut self, id: &str) -> (r: bool)
        ensures
            match index_of_id(playlist_ids(old(self).playlists@), id@, 0) {
                Some(i) => r && final(self).playlists@ == old(self).playlists@.remove(i),
                None => !r && final(self).playlists@ == old(self).playlists@,
            },
            final(self).webdav_configs == old(self).webdav_configs,
    {
        match self.playlist_index(id) {
            Some(i) => {
                self.playlists.remove(i);
                true
            },
            None => false,
        }
    }

    /// Adds `songs` in turn to the playlist with id `playlist_id`, skipping ids
    /// it already holds; returns whether the playlist exists.
    pub fn add_songs_to_playlist(&mut self, playlist_id: &str, songs: Vec<Song>) -> (r: bool)
        ensures
            r == (index_of_id(playlist_ids(old(self).playlists@), playlist_id@, 0) is Some),
            match index_of_id(playlist_ids(old(self).playlists@), playlist_id@, 0) {
                Some(i) => final(self).playlists@.len() == old(self).playlists@.len()
                    && final(self).playlists@[i].songs@ == with_songs(
                    old(self).playlists@[i].songs@,
                    songs@,
                ) && (forall|k: int|
                    0 <= k < old(self).playlists@.len() && k != i ==> final(self).playlists@[k]
                        == old(self).playlists@[k]),
                None => final(self).playlists@ == old(self).playlists@,
            },
            final(self).webdav_configs == old(self).webdav_configs,
    {
        let idx = match self.playlist_index(playlist_id) {
            Some(i) => i,
            None => return false,
        };
        let ghost before = self.playlists@;
        let ghost all = songs@;
        let mut p = self.playlists.remove(idx);
        let ghost start = p.songs@;
        let mut rest = songs;
        let ghost mut k: int = 0;
        assert(all.take(0) =~= Seq::<Song>::empty());
        assert(all.skip(0) =~= all);
        while rest.len() > 0
            invariant
                0 <= k <= all.len(),
                rest@ == all.skip(k),
                p.songs@ == with_songs(start, all.take(k)),
                self.playlists@ == before.remove(idx as int),
                idx < before.len(),
                self.webdav_configs == old(self).webdav_configs,
            decreases rest.len(),
        {
            let s = rest.remove(0);
            p.add_song(s);
            proof {
                assert(all.take(k + 1).drop_last() =~= all.take(k));
                assert(all.take(k + 1).last() == s);
                assert(all.skip(k).drop_first() =~= all.skip(k + 1));
                k = k + 1;
            }
        }
        assert(all.take(k) =~= all);
        self.playlists.insert(idx, p);
        assert forall|m: int| 0 <= m < before.len() && m != idx implies self.playlists@[m]
            == before[m] by {
            if m < idx {
            } else {
            }
        }
        true
    }

    /// Removes the songs with id `song_id` from the playlist with id
    /// `playlist_id`; returns whether the playlist exists.
    pub fn remove_song_from_playlist(&mut self, playlist_id: &str, song_id: &str) -> (r: bool)
        ensures
            r == (index_of_id(playlist_ids(old(self).playlists@), playlist_id@, 0) is Some),
            match index_of_id(playlist_ids(old(self).playlists@), playlist_id@, 0) {
                Some(i) => final(self).playlists@.len() == old(self).playlists@.len()
                    && final(self).playlists@[i].songs@ == without_id(
                    old(self).playlists@[i].songs@,
                    song_id@,
                ) && (forall|k: int|
                    0 <= k < old(self).playlists@.len() && k != i ==> final(self).playlists@[k]
                        == old(self).playlists@[k]),
                None => final(self).playlists@ == old(self).playlists@,
            },
            final(self).webdav_configs == old(self).webdav_configs,
    {
        let idx = match self.playlist_index(playlist_id) {
            Some(i) => i,
            None => return false,
        };
        let ghost before = self.playlists@;
        let mut p = self.playlists.remove(idx);
        p.remove_song(song_id);
        self.playlists.insert(idx, p);
        assert forall|k: int| 0 <= k < before.len() && k != idx implies self.playlists@[k]
            == before[k] by {
            if k < idx {
            } else {
            }
        }
        true
    }

    /// Adds `config` unless a source with its id is configured; returns whether it was added.
    pub fn add_webdav_config(&mut self, config: WebDAVConfig) -> (r: bool)
        ensures
            r == !config_ids(old(self).webdav_configs@).contains(config.id@),
            r ==> final(self).webdav_configs@ == old(self).webdav_configs@.push(config),
            !r ==> final(self).webdav_configs@ == old(self).webdav_configs@,
            final(self).playlists == old(self).playlists,
    {
        let ghost ids = config_ids(self.webdav_configs@);
        let mut i: usize = 0;
        while i < self.webdav_configs.len()
            invariant
                i <= self.webdav_configs.len(),
                ids == config_ids(self.webdav_configs@),
                forall|k: int| 0 <= k < i ==> ids[k] != config.id@,
            decreases self.webdav_configs.len() - i,
        {
            if same_text(&self.webdav_configs[i].id, config.id.as_str()) {
                assert(ids[i as int] == config.id@);
                return false;
            }
            i += 1;
        }
        self.webdav_configs.push(config);
        true
    }

    /// Removes every source with id `id`; returns whether there was one.
    pub fn remove_webdav_config(&mut self, id: &str) -> (r: bool)
        ensures
            r == config_ids(old(self).webdav_configs@).contains(id@),
            final(self).webdav_configs@ == without_config(old(self).webdav_configs@, id@),
            final(self).playlists == old(self).playlists,
    {
        let ghost orig = self.webdav_configs@;
        let n = self.webdav_configs.len();
        assert(orig.len() == n);
        let mut found = false;
        let mut i: usize = 0;
        let mut j: usize = 0;
        assert(orig.take(0) =~= Seq::<WebDAVConfig>::empty());
        assert(orig.skip(0) =~= orig);
        assert(self.webdav_configs@ =~= without_config(orig.take(0), id@) + orig.skip(0));
        while i < self.webdav_configs.len()
            invariant
                j <= orig.len(),
                orig.len() <= usize::MAX,
                i == without_config(orig.take(j as int), id@).len(),
                self.webdav_configs@ == without_config(orig.take(j as int), id@) + orig.skip(j as int),
                found == config_ids(orig.take(j as int)).contains(id@),
                self.playlists == old(self).playlists,
            decreases self.webdav_configs.len() - i,
        {
            let ghost done = without_config(orig.take(j as int), id@);
            assert(orig.skip(j as int).len() == orig.len() - j);
            assert(j < orig.len());
            assert(self.webdav_configs@[i as int] == orig[j as int]);
            assert(orig.take(j + 1).drop_last() =~= orig.take(j as int));
            assert(orig.take(j + 1).last() == orig[j as int]);
            assert(config_ids(orig.take(j + 1)) =~= config_ids(orig.take(j as int)).push(orig[j as int].id@));
            proof {
                lemma_push_contains(config_ids(orig.take(j as int)), orig[j as int].id@, id@);
            }
            if same_text(&self.webdav_configs[i].id, id) {
                self.webdav_configs.remove(i);
                found = true;
                assert(self.webdav_configs@ =~= without_config(orig.take(j + 1), id@) + orig.skip(j + 1));
            } else {
                assert(without_config(orig.take(j + 1), id@) == done.push(orig[j as int]));
                assert(self.webdav_configs@ =~= without_config(orig.take(j + 1), id@) + orig.skip(j + 1));
                i += 1;
            }
            j += 1;
        }
        assert(orig.skip(j as int).len() == 0);
        assert(orig.take(j as int) =~= orig);
        assert(self.webdav_configs@ =~= without_config(orig, id@));
        found
    }

    pub fn get_webdav_configs(&self) -> (r: &Vec<WebDAVConfig>)
        ensures
            r == &self.webdav_configs,
    {
        &self.webdav_configs
    }

    pub fn get_playlists(&self) -> (r: &Vec<Playlist>)
        ensures
            r == &self.playlists,
    {
        &self.playlists
    }
}

} // verus!
