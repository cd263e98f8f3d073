//! The song library beside the pipeline: the records shown to the user and
//! the few rules that are applied to them.

use crate::paths::{file_stem, stem_or_empty};
use crate::text::{lowercase_of, to_lowercase, trim, trimmed_of};
use vstd::prelude::*;
use vstd::string::*;

verus! {

/// A playlist with its counts.
#[derive(Clone, Debug, PartialEq, Eq)]
pub struct Playlist {
    pub id: i64,
    pub name: String,
    pub imported_at: String,
    /// The number of songs in the playlist.
    pub total: i64,
    /// The number of songs per format.
    pub format_counts: Vec<(String, i64)>,
}

/// A song as it appears in a playlist.
#[derive(Clone, Debug, PartialEq, Eq)]
pub struct PlaylistTrack {
    pub song_id: i64,
    pub title: String,
    pub artist: Option<String>,
    pub album: Option<String>,
    pub genre: Option<String>,
    pub bpm: Option<String>,
    pub rating: Option<String>,
    pub time: Option<String>,
    pub key_sig: Option<String>,
    pub date_added: Option<String>,
    pub format: String,
    pub has_aiff: i64,
    pub ps_id: i64,
}

/// A playlist and whether a given song is in it.
#[derive(Clone, Debug, PartialEq, Eq)]
pub struct SongPlaylist {
    pub id: i64,
    pub name: String,
    pub member: bool,
}

/// The mathematical content of a [`SongPlaylist`].
pub struct SongPlaylistView {
    pub id: i64,
    pub name: Seq<char>,
    pub member: bool,
}

impl View for SongPlaylist {
    type V = SongPlaylistView;

    open spec fn view(&self) -> SongPlaylistView {
        SongPlaylistView { id: self.id, name: self.name@, member: self.member }
    }
}

/// The separator between artist and title in a match key.
pub open spec fn key_separator() -> Seq<char> {
    "|||"@
}

/// The key under which a song is recognised again: artist and title,
/// trimmed and in lower case, joined by `|||`.
pub open spec fn match_key_of(artist: Seq<char>, title: Seq<char>) -> Seq<char> {
    lowercase_of(trimmed_of(artist)) + key_separator() + lowercase_of(trimmed_of(title))
}

/// Joins an artist and a title, both already trimmed and in lower case, to
/// a match key.
pub fn join_match_key(artist: &str, title: &str) -> (key: String)
    ensures
        key@ == artist@ + key_separator() + title@,
{
    let mut key = artist.to_owned();
    key.append("|||");
    key.append(title);
    key
}

/// Builds the key under which a song is recognised again.
pub fn make_match_key(artist: &str, title: &str) -> (key: String)
    ensures
        key@ == match_key_of(artist@, title@),
{
    let a = to_lowercase(trim(artist));
    let t = to_lowercase(trim(title));
    join_match_key(a.as_str(), t.as_str())
}

/// A format name as it is stored: trimmed and in lower case.
pub open spec fn stored_format(format: Seq<char>) -> Seq<char> {
    lowercase_of(trimmed_of(format))
}

/// Accepts a format name in its stored form unless it is empty.
pub fn accept_format(stored: String) -> (r: Option<String>)
    ensures
        r is Some <==> stored@.len() > 0,
        r matches Some(f) ==> f@ == stored@,
{
    if stored.as_str().is_empty() {
        None
    } else {
        Some(stored)
    }
}

/// Brings a format name into the form in which it is stored. A name that
/// comes out empty is refused.
pub fn normalize_format(format: &str) -> (r: Option<String>)
    ensures
        r is Some <==> stored_format(format@).len() > 0,
        r matches Some(f) ==> f@ == stored_format(format@),
{
    accept_format(to_lowercase(trim(format)))
}

/// The name a playlist gets on import: the name given, trimmed, if that is
/// not empty; otherwise the stem of the imported file's name.
pub open spec fn playlist_name_of(given: Option<Seq<char>>, file_path: Seq<char>) -> Seq<char> {
    match given {
        Some(n) => if trimmed_of(n).len() > 0 {
            trimmed_of(n)
        } else {
            stem_or_empty(file_path)
        },
        None => stem_or_empty(file_path),
    }
}

/// Chooses between the name given for a playlist, already trimmed, and
/// the stem of the imported file's name: the given name wins unless it is
/// missing or empty.
pub fn choose_playlist_name(given: Option<&str>, stem: &str) -> (name: String)
    ensures
        name@ == (match given {
            Some(n) => if n@.len() > 0 {
                n@
            } else {
                stem@
            },
            None => stem@,
        }),
{
    match given {
        Some(n) => {
            if n.is_empty() {
                stem.to_owned()
            } else {
                n.to_owned()
            }
        },
        None => stem.to_owned(),
    }
}

/// Chooses the name of an imported playlist.
pub fn playlist_name(given: Option<&str>, file_path: &str) -> (name: String)
    ensures
        name@ == playlist_name_of(
            match given {
                Some(n) => Some(n@),
                None => None,
            },
            file_path@,
        ),
{
    let stem = file_stem(file_path);
    match given {
        Some(n) => choose_playlist_name(Some(trim(n)), stem.as_str()),
        None => choose_playlist_name(None, stem.as_str()),
    }
}

/// The line under which a song is exported: `artist - title`, or the title
/// alone where no artist is known.
pub open spec fn export_line_of(title: Seq<char>, artist: Option<Seq<char>>) -> Seq<char> {
    match artist {
        Some(a) => if a.len() > 0 {
            a + " - "@ + title
        } else {
            title
        },
        None => title,
    }
}

/// Builds the line under which a song is exported.
pub fn export_line(title: &str, artist: Option<&str>) -> (line: String)
    ensures
        line@ == export_line_of(
            title@,
            match artist {
                Some(a) => Some(a@),
                None => None,
            },
        ),
{
    match artist {
        Some(a) => {
            if a.is_empty() {
                title.to_owned()
            } else {
                let mut line = a.to_owned();
                line.append(" - ");
                line.append(title);
                line
            }
        },
        None => title.to_owned(),
    }
}

/// The sum of the counts, held at the ends of the range of `i64` instead
/// of running over.
pub open spec fn total_of(counts: Seq<(String, i64)>) -> int
    decreases counts.len(),
{
    if counts.len() == 0 {
        0
    } else {
        let sum = total_of(counts.drop_last()) + counts.last().1;
        if sum > i64::MAX {
            i64::MAX as int
        } else if sum < i64::MIN {
            i64::MIN as int
        } else {
            sum
        }
    }
}

/// Adds up the number of songs per format to the playlist's total.
pub fn playlist_total(counts: &Vec<(String, i64)>) -> (total: i64)
    ensures
        total == total_of(counts@),
{
    let mut total: i64 = 0;
    let mut i: usize = 0;
    proof {
        assert(counts@.take(0) =~= Seq::empty());
    }
    while i < counts.len()
        invariant
            i <= counts.len(),
            total == total_of(counts@.take(i as int)),
        decreases counts.len() - i,
    {
        proof {
            assert(counts@.take(i + 1).drop_last() =~= counts@.take(i as int));
        }
        let wide: i128 = (total as i128) + (counts[i].1 as i128);
        total = if wide > i64::MAX as i128 {
            i64::MAX
        } else if wide < i64::MIN as i128 {
            i64::MIN
        } else {
            wide as i64
        };
        i = i + 1;
    }
    proof {
        assert(counts@.take(i as int) =~= counts@);
    }
    total
}

/// Whether `id` is among `ids`.
pub open spec fn listed(ids: Seq<i64>, id: i64) -> bool {
    ids.contains(id)
}

/// Marks, for every playlist, whether it is one of the song's playlists.
/// `all` holds the playlists as id and name; `member_ids` the ids of those
/// the song is in.
pub fn song_playlists(all: &Vec<(i64, String)>, member_ids: &Vec<i64>) -> (r: Vec<SongPlaylist>)
    ensures
        r@.len() == all@.len(),
        forall|i: int|
            0 <= i < all@.len() ==> (#[trigger] r@[i])@ == (SongPlaylistView {
                id: all@[i].0,
                name: all@[i].1@,
                member: listed(member_ids@, all@[i].0),
            }),
{
    let mut out: Vec<SongPlaylist> = Vec::new();
    let n = all.len();
    let mut i: usize = 0;
    while i < n
        invariant
            i <= n,
            n == all@.len(),
            out@.len() == i,
            forall|k: int|
                0 <= k < i ==> (#[trigger] out@[k])@ == (SongPlaylistView {
                    id: all@[k].0,
                    name: all@[k].1@,
                    member: listed(member_ids@, all@[k].0),
                }),
        decreases n - i,
    {
        let id = all[i].0;
        let member = contains_id(member_ids, id);
        out.push(SongPlaylist { id, name: all[i].1.clone(), member });
        i = i + 1;
    }
    out
}

fn contains_id(ids: &Vec<i64>, id: i64) -> (r: bool)
    ensures
        r == listed(ids@, id),
{
    let mut i: usize = 0;
    while i < ids.len()
        invariant
            i <= ids.len(),
            forall|k: int| 0 <= k < i ==> ids@[k] != id,
        decreases ids.len() - i,
    {
        if ids[i] == id {
            assert(ids@[i as int] == id);
            return true;
        }
        i = i + 1;
    }
    false
}

} // verus!
