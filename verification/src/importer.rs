//! Reading a Rekordbox playlist export.
//!
//! The export is a text file of tab-separated columns with one header line.
//! It comes in UTF-16 or UTF-8, told apart by the byte order mark at its
//! start. Columns, counted from 0: 2 title, 3 artist, 4 album, 5 genre,
//! 6 BPM, 7 rating (written as stars), 8 time, 9 key, 10 date added.

use crate::text::{
    chars_of, decimal, decimal_of, from_utf8_lossy, lossy_utf8_of, string_of, trim, trimmed_of,
};
use vstd::prelude::*;
use vstd::slice::slice_subrange;
use vstd::string::*;

verus! {

/// One track of a playlist export.
#[derive(Clone, Debug, PartialEq, Eq)]
pub struct TrackRow {
    pub title: String,
    pub artist: String,
    pub album: String,
    pub genre: String,
    pub bpm: String,
    /// The number of stars, or empty if there are none.
    pub rating: String,
    pub time: String,
    pub key: String,
    pub date_added: String,
}

/// The mathematical content of a [`TrackRow`].
pub struct TrackRowView {
    pub title: Seq<char>,
    pub artist: Seq<char>,
    pub album: Seq<char>,
    pub genre: Seq<char>,
    pub bpm: Seq<char>,
    pub rating: Seq<char>,
    pub time: Seq<char>,
    pub key: Seq<char>,
    pub date_added: Seq<char>,
}

impl View for TrackRow {
    type V = TrackRowView;

    open spec fn view(&self) -> TrackRowView {
        TrackRowView {
            title: self.title@,
            artist: self.artist@,
            album: self.album@,
            genre: self.genre@,
            bpm: self.bpm@,
            rating: self.rating@,
            time: self.time@,
            key: self.key@,
            date_added: self.date_added@,
        }
    }
}

/// The contents of a list of tracks.
pub open spec fn track_views(rows: Seq<TrackRow>) -> Seq<TrackRowView> {
    Seq::new(rows.len(), |i: int| rows[i]@)
}

/// The text that `encoding_rs` decodes from bytes taken as UTF-16, big
/// endian or little endian. Its decoder looks for a byte order mark first
/// and follows it if there is one; ill-formed parts become U+FFFD.
pub uninterp spec fn utf16_text(big_endian: bool, bytes: Seq<u8>) -> Seq<char>;

/// The longest input the decoder is given: its buffer size is computed
/// from the input's length and must not overflow.
pub open spec fn decodable(bytes: Seq<u8>) -> bool {
    bytes.len() <= usize::MAX / 8
}

/// Calls `encoding_rs::Encoding::decode` on `UTF_16LE`. Trusted: the
/// result is that decoder's output for the bytes. The outside function
/// panics when its buffer size overflows, which the bound rules out.
#[verifier::external_body]
fn decode_utf16le(bytes: &[u8]) -> (r: String)
    requires
        decodable(bytes@),
    ensures
        r@ == utf16_text(false, bytes@),
{
    encoding_rs::UTF_16LE.decode(bytes).0.into_owned()
}

/// Calls `encoding_rs::Encoding::decode` on `UTF_16BE`. Trusted: the
/// result is that decoder's output for the bytes. The outside function
/// panics when its buffer size overflows, which the bound rules out.
#[verifier::external_body]
fn decode_utf16be(bytes: &[u8]) -> (r: String)
    requires
        decodable(bytes@),
    ensures
        r@ == utf16_text(true, bytes@),
{
    encoding_rs::UTF_16BE.decode(bytes).0.into_owned()
}

/// The text of an export file. A file that starts with `FF FE` is UTF-16LE
/// and one that starts with `FE FF` is UTF-16BE; the mark is dropped and
/// the rest decoded. Any other file is UTF-8, decoded leniently, without
/// its mark `EF BB BF` if it has one.
pub open spec fn decoded_text(raw: Seq<u8>) -> Seq<char> {
    if raw.len() >= 2 && raw[0] == 0xFF && raw[1] == 0xFE {
        utf16_text(false, raw.skip(2))
    } else if raw.len() >= 2 && raw[0] == 0xFE && raw[1] == 0xFF {
        utf16_text(true, raw.skip(2))
    } else if raw.len() >= 3 && raw[0] == 0xEF && raw[1] == 0xBB && raw[2] == 0xBF {
        lossy_utf8_of(raw.skip(3))
    } else {
        lossy_utf8_of(raw)
    }
}

/// Decodes an export file by its byte order mark.
pub fn decode_with_bom(raw: &[u8]) -> (text: String)
    requires
        decodable(raw@),
    ensures
        text@ == decoded_text(raw@),
{
    let n = raw.len();
    if n >= 2 && raw[0] == 0xFF && raw[1] == 0xFE {
        let rest = slice_subrange(raw, 2, n);
        assert(rest@ =~= raw@.skip(2));
        return decode_utf16le(rest);
    }
    if n >= 2 && raw[0] == 0xFE && raw[1] == 0xFF {
        let rest = slice_subrange(raw, 2, n);
        assert(rest@ =~= raw@.skip(2));
        return decode_utf16be(rest);
    }
    if n >= 3 && raw[0] == 0xEF && raw[1] == 0xBB && raw[2] == 0xBF {
        let rest = slice_subrange(raw, 3, n);
        assert(rest@ =~= raw@.skip(3));
        return from_utf8_lossy(rest);
    }
    from_utf8_lossy(raw)
}

/// The index of the first `c` in `s`, or the length of `s` if there is
/// none.
pub open spec fn first_index(s: Seq<char>, c: char) -> int
    decreases s.len(),
{
    if s.len() == 0 {
        0
    } else if s[0] == c {
        0
    } else {
        1 + first_index(s.drop_first(), c)
    }
}

/// The pieces of `s` between the occurrences of `c`. There is always at
/// least one piece; pieces may be empty.
pub open spec fn split_on(s: Seq<char>, c: char) -> Seq<Seq<char>>
    decreases s.len(),
    via split_on_decreases
{
    let i = first_index(s, c);
    if i >= s.len() {
        seq![s]
    } else {
        seq![s.take(i)] + split_on(s.skip(i + 1), c)
    }
}

#[via_fn]
proof fn split_on_decreases(s: Seq<char>, c: char) {
    lemma_first_index(s, c);
}

/// The first occurrence lies inside the text, and nothing before it is
/// the character.
pub proof fn lemma_first_index(s: Seq<char>, c: char)
    ensures
        0 <= first_index(s, c) <= s.len(),
        first_index(s, c) < s.len() ==> s[first_index(s, c)] == c,
        forall|k: int| 0 <= k < first_index(s, c) ==> s[k] != c,
    decreases s.len(),
{
    if s.len() > 0 && s[0] != c {
        let rest = s.drop_first();
        lemma_first_index(rest, c);
        assert forall|k: int| 0 <= k < first_index(s, c) implies s[k] != c by {
            if k > 0 {
                assert(s[k] == rest[k - 1]);
            }
        }
    }
}

/// How often `c` occurs in `s`.
pub open spec fn count_char(s: Seq<char>, c: char) -> nat
    decreases s.len(),
{
    if s.len() == 0 {
        0
    } else {
        count_char(s.drop_last(), c) + if s.last() == c {
            1nat
        } else {
            0nat
        }
    }
}

/// The `k`-th piece, or the empty text where there are fewer pieces.
pub open spec fn piece(parts: Seq<Seq<char>>, k: int) -> Seq<char> {
    if 0 <= k < parts.len() {
        parts[k]
    } else {
        Seq::empty()
    }
}

/// The rating column as it is stored: the number of stars in it, or
/// nothing if there is none.
pub open spec fn rating_of(column: Seq<char>) -> Seq<char> {
    let stars = count_char(column, '*');
    if stars > 0 {
        decimal_of(stars)
    } else {
        Seq::empty()
    }
}

/// The track that a line of the export stands for. The line is split at
/// its tabs and every column is trimmed; columns that are missing count as
/// empty.
pub open spec fn track_of(line: Seq<char>) -> TrackRowView {
    let parts = split_on(line, '\t');
    TrackRowView {
        title: trimmed_of(piece(parts, 2)),
        artist: trimmed_of(piece(parts, 3)),
        album: trimmed_of(piece(parts, 4)),
        genre: trimmed_of(piece(parts, 5)),
        bpm: trimmed_of(piece(parts, 6)),
        rating: rating_of(trimmed_of(piece(parts, 7))),
        time: trimmed_of(piece(parts, 8)),
        key: trimmed_of(piece(parts, 9)),
        date_added: trimmed_of(piece(parts, 10)),
    }
}

/// The tracks that a list of lines stands for: one for every line that is
/// not blank, in order.
pub open spec fn tracks_of(lines: Seq<Seq<char>>) -> Seq<TrackRowView>
    decreases lines.len(),
{
    if lines.len() == 0 {
        Seq::empty()
    } else {
        let before = tracks_of(lines.drop_last());
        let line = trimmed_of(lines.last());
        if line.len() == 0 {
            before
        } else {
            before.push(track_of(line))
        }
    }
}

/// The tracks of an export: the text is split into lines at its line
/// feeds, the first line is the header and is passed over, and every other
/// line that is not blank is a track.
pub open spec fn parsed(text: Seq<char>) -> Seq<TrackRowView> {
    tracks_of(split_on(text, '\n').skip(1))
}

/// The contents of a list of texts.
pub open spec fn char_views(v: Seq<Vec<char>>) -> Seq<Seq<char>> {
    Seq::new(v.len(), |i: int| v[i]@)
}

fn find_from(chars: &Vec<char>, from: usize, c: char) -> (at: usize)
    requires
        from <= chars.len(),
    ensures
        from <= at <= chars.len(),
        at - from == first_index(chars@.skip(from as int), c),
{
    let mut at: usize = from;
    proof {
        lemma_first_index(chars@.skip(from as int), c);
    }
    while at < chars.len() && chars[at] != c
        invariant
            from <= at <= chars.len(),
            first_index(chars@.skip(from as int), c) == (at - from) + first_index(
                chars@.skip(at as int),
                c,
            ),
        decreases chars.len() - at,
    {
        proof {
            let here = chars@.skip(at as int);
            assert(here[0] == chars@[at as int]);
            assert(here.drop_first() =~= chars@.skip(at + 1));
        }
        at = at + 1;
    }
    proof {
        let here = chars@.skip(at as int);
        if at < chars.len() {
            assert(here[0] == chars@[at as int]);
        }
    }
    at
}

/// Splits a text at every occurrence of `c`.
pub fn split_chars(chars: &Vec<char>, c: char) -> (parts: Vec<Vec<char>>)
    ensures
        char_views(parts@) == split_on(chars@, c),
{
    let n = chars.len();
    let mut parts: Vec<Vec<char>> = Vec::new();
    let mut start: usize = 0;
    proof {
        assert(chars@.skip(0) =~= chars@);
        assert(char_views(parts@) + split_on(chars@.skip(0), c) =~= split_on(chars@, c));
    }
    loop
        invariant_except_break
            char_views(parts@) + split_on(chars@.skip(start as int), c) == split_on(chars@, c),
        invariant
            n == chars.len(),
            start <= n,
        ensures
            char_views(parts@) == split_on(chars@, c),
        decreases n - start,
    {
        let end = find_from(chars, start, c);
        let mut part: Vec<char> = Vec::new();
        let mut k: usize = start;
        while k < end
            invariant
                start <= k <= end <= n,
                n == chars.len(),
                part@ == chars@.subrange(start as int, k as int),
            decreases end - k,
        {
            part.push(chars[k]);
            proof {
                assert(chars@.subrange(start as int, k + 1) =~= chars@.subrange(
                    start as int,
                    k as int,
                ).push(chars@[k as int]));
            }
            k = k + 1;
        }
        let ghost before = char_views(parts@);
        let ghost rest = chars@.skip(start as int);
        proof {
            assert(part@ =~= rest.take(end - start));
        }
        parts.push(part);
        proof {
            assert(char_views(parts@) =~= before.push(rest.take(end - start)));
        }
        if end >= n {
            proof {
                assert(rest.take(end - start) =~= rest);
                assert(split_on(rest, c) =~= seq![rest]);
                assert(before.push(rest) =~= before + seq![rest]);
            }
            break ;
        }
        proof {
            assert(rest.skip(end - start + 1) =~= chars@.skip(end + 1));
            assert(split_on(rest, c) =~= seq![rest.take(end - start)] + split_on(
                chars@.skip(end + 1),
                c,
            ));
            assert(before.push(rest.take(end - start)) + split_on(chars@.skip(end + 1), c)
                =~= before + split_on(rest, c));
        }
        start = end + 1;
    }
    parts
}

fn count_stars(chars: &Vec<char>) -> (n: usize)
    ensures
        n == count_char(chars@, '*'),
{
    let mut n: usize = 0;
    let mut i: usize = 0;
    proof {
        assert(chars@.take(0) =~= Seq::empty());
    }
    while i < chars.len()
        invariant
            i <= chars.len(),
            n <= i,
            n == count_char(chars@.take(i as int), '*'),
        decreases chars.len() - i,
    {
        proof {
            assert(chars@.take(i + 1).drop_last() =~= chars@.take(i as int));
        }
        if chars[i] == '*' {
            n = n + 1;
        }
        i = i + 1;
    }
    proof {
        assert(chars@.take(i as int) =~= chars@);
    }
    n
}

fn column(parts: &Vec<Vec<char>>, k: usize) -> (r: String)
    ensures
        r@ == trimmed_of(piece(char_views(parts@), k as int)),
{
    if k < parts.len() {
        let raw = string_of(&parts[k], 0, parts[k].len());
        proof {
            assert(parts@[k as int]@.subrange(0, parts@[k as int]@.len() as int) =~= parts@[k as int]@);
        }
        trim(raw.as_str()).to_owned()
    } else {
        let raw = String::new();
        trim(raw.as_str()).to_owned()
    }
}

/// Turns the rating column, already trimmed, into the stored rating.
pub fn rating(column: &str) -> (r: String)
    ensures
        r@ == rating_of(column@),
{
    let stars = count_stars(&chars_of(column));
    if stars > 0 {
        decimal(stars as u64)
    } else {
        String::new()
    }
}

/// Reads one line of the export, already trimmed, as a track.
pub fn parse_line(line: &str) -> (row: TrackRow)
    ensures
        row@ == track_of(line@),
{
    let chars = chars_of(line);
    let parts = split_chars(&chars, '\t');
    let rating_column = column(&parts, 7);
    let rating = rating(rating_column.as_str());
    TrackRow {
        title: column(&parts, 2),
        artist: column(&parts, 3),
        album: column(&parts, 4),
        genre: column(&parts, 5),
        bpm: column(&parts, 6),
        rating,
        time: column(&parts, 8),
        key: column(&parts, 9),
        date_added: column(&parts, 10),
    }
}

/// Reads the text of an export.
pub fn parse_text(text: &str) -> (tracks: Vec<TrackRow>)
    ensures
        track_views(tracks@) == parsed(text@),
{
    let chars = chars_of(text);
    let lines = split_chars(&chars, '\n');
    let ghost all = char_views(lines@);
    let mut tracks: Vec<TrackRow> = Vec::new();
    let n = lines.len();
    let mut i: usize = 1;
    proof {
        lemma_first_index(chars@, '\n');
        assert(all.len() >= 1);
        assert(all.skip(1).take(0) =~= Seq::empty());
        assert(track_views(tracks@) =~= Seq::empty());
    }
    while i < n
        invariant
            1 <= i <= n || n == 0,
            n == lines.len(),
            n >= 1,
            all == char_views(lines@),
            track_views(tracks@) == tracks_of(all.skip(1).take(i - 1)),
        decreases n - i,
    {
        let ghost done = track_views(tracks@);
        proof {
            assert(all.skip(1).take(i as int).drop_last() =~= all.skip(1).take(i - 1));
            assert(all.skip(1).take(i as int).last() == lines@[i as int]@);
        }
        let raw = string_of(&lines[i], 0, lines[i].len());
        proof {
            assert(lines@[i as int]@.subrange(0, lines@[i as int]@.len() as int) =~= lines@[i as int]@);
        }
        let line = trim(raw.as_str());
        if !line.is_empty() {
            let row = parse_line(line);
            tracks.push(row);
            proof {
                assert(track_views(tracks@) =~= done.push(track_of(line@)));
            }
        }
        i = i + 1;
    }
    proof {
        assert(all.skip(1).take(n - 1) =~= all.skip(1));
    }
    tracks
}

/// Reads a Rekordbox playlist export from the bytes of the file, unless
/// the file is too long for the decoder, which gives `None`.
pub fn try_parse_rekordbox_txt(raw: &[u8]) -> (r: Option<Vec<TrackRow>>)
    ensures
        r is Some <==> decodable(raw@),
        r matches Some(tracks) ==> track_views(tracks@) == parsed(decoded_text(raw@)),
{
    if raw.len() <= usize::MAX / 8 {
        Some(parse_rekordbox_txt(raw))
    } else {
        None
    }
}

/// Reads a Rekordbox playlist export from the bytes of the file.
pub fn parse_rekordbox_txt(raw: &[u8]) -> (tracks: Vec<TrackRow>)
    requires
        decodable(raw@),
    ensures
        track_views(tracks@) == parsed(decoded_text(raw@)),
{
    let text = decode_with_bom(raw);
    parse_text(text.as_str())
}

} // verus!
