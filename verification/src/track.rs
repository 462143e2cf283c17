use vstd::prelude::*;

use crate::text::{
    chars_of, contains, contains_seq, int_decimal, is_year, is_year_at, last_index_of,
    lemma_last_index_of, opt_chars, push_signed_decimal, rfind_char,
};

verus! {

/// A track that the radio station is playing.
#[derive(Debug, Clone, PartialEq, Eq)]
pub struct Track {
    pub artist: String,
    pub title: String,
    pub album: Option<String>,
    pub start_time: i64,
}

/// What a `Track` holds, as mathematical values.
pub struct TrackView {
    pub artist: Seq<char>,
    pub title: Seq<char>,
    pub album: Option<Seq<char>>,
    pub start_time: int,
}

impl View for Track {
    type V = TrackView;

    open spec fn view(&self) -> TrackView {
        TrackView {
            artist: self.artist@,
            title: self.title@,
            album: opt_chars(self.album),
            start_time: self.start_time as int,
        }
    }
}

/// The station's own announcements, which are not music and are never scrobbled:
/// a title that mentions the good-night programme or the news, or the station's
/// placeholder entry (its slogan as artist, "Le direct" as title, and no album).
pub open spec fn is_announcement(
    artist: Seq<char>,
    title: Seq<char>,
    album: Option<Seq<char>>,
) -> bool {
    ||| contains_seq(title, "BONNE NUIT SUR FIP"@)
    ||| contains_seq(title, "FIP ACTUALITE"@)
    ||| (artist == "La radio la plus éclectique du monde"@ && title == "Le direct"@ && album is None)
}

/// The album name without a trailing year: when the text after the last space is
/// exactly four decimal digits, the album is cut just before that space; otherwise it
/// is left as it is.
pub open spec fn album_without_year(album: Seq<char>) -> Seq<char> {
    match last_index_of(album, ' ') {
        Some(p) => {
            let end = album.subrange(p + 1, album.len() as int);
            if is_year(end) {
                album.subrange(0, p)
            } else {
                album
            }
        },
        None => album,
    }
}

/// The album of a created track: the given one, with any trailing year removed.
pub open spec fn fixed_album(album: Option<Seq<char>>) -> Option<Seq<char>> {
    match album {
        Some(a) => Some(album_without_year(a)),
        None => None,
    }
}

/// The text of a track, as it is shown and cached.
pub open spec fn track_text(t: TrackView) -> Seq<char> {
    let album = match t.album {
        Some(a) => a,
        None => "null"@,
    };
    "TrackInfo{title='"@ + t.title + "', artist='"@ + t.artist + "', album='"@ + album
        + "', startTime="@ + int_decimal(t.start_time) + "}"@
}

impl Track {
    /// Builds the track that the station announced, or `None` for one of its own
    /// announcements (see `is_announcement`). The album loses its trailing year.
    pub fn create(artist: String, title: String, album: Option<String>, start_time: i64) -> (r:
        Option<Track>)
        ensures
            r is None <==> is_announcement(artist@, title@, opt_chars(album)),
            r matches Some(t) ==> t@ == (TrackView {
                artist: artist@,
                title: title@,
                album: fixed_album(opt_chars(album)),
                start_time: start_time as int,
            }),
    {
        let title_chars = chars_of(title.as_str());
        let good_night = contains(&title_chars, &chars_of("BONNE NUIT SUR FIP"));
        let news = contains(&title_chars, &chars_of("FIP ACTUALITE"));
        let placeholder = artist == String::from_str("La radio la plus éclectique du monde")
            && title == String::from_str("Le direct") && album.is_none();
        let ignored = good_night || news || placeholder;
        if ignored {
            None
        } else {
            let fixed = match album {
                Some(a) => Some(Self::fix_album(a)),
                None => None,
            };
            Some(Track { artist, title, album: fixed, start_time })
        }
    }

    /// Removes the trailing year from the album name (see `album_without_year`).
    pub fn fix_album(album: String) -> (r: String)
        ensures
            r@ == album_without_year(album@),
    {
        let chars = chars_of(album.as_str());
        match rfind_char(&chars, ' ') {
            None => album,
            Some(p) => {
                if is_year_at(&chars, p + 1) {
                    String::from_str(album.as_str().substring_char(0, p))
                } else {
                    album
                }
            },
        }
    }

    /// The text of the track (see `track_text`).
    pub fn to_string(&self) -> (r: String)
        ensures
            r@ == track_text(self@),
    {
        let mut out = String::new();
        out.append("TrackInfo{title='");
        out.append(self.title.as_str());
        out.append("', artist='");
        out.append(self.artist.as_str());
        out.append("', album='");
        match &self.album {
            Some(a) => out.append(a.as_str()),
            None => out.append("null"),
        }
        out.append("', startTime=");
        push_signed_decimal(&mut out, self.start_time);
        out.append("}");
        out
    }
}

/// Removing a year keeps the beginning of the album name: the result is the album
/// itself, or the part of it before a space.
pub proof fn lemma_album_keeps_its_beginning(album: Seq<char>)
    ensures
        album_without_year(album).len() <= album.len(),
        album_without_year(album) == album.subrange(0, album_without_year(album).len() as int),
        album_without_year(album) != album ==> album[album_without_year(album).len() as int] == ' ',
{
    lemma_last_index_of(album, ' ');
    assert(album.subrange(0, album.len() as int) =~= album);
    if let Some(p) = last_index_of(album, ' ') {
        assert(album.subrange(0, p).subrange(0, p) =~= album.subrange(0, p));
    }
}

/// Only the station's own announcements are dropped: a title that mentions the
/// good-night programme or the news always is, whatever the artist and album; a
/// title that mentions neither is dropped only when the artist is exactly the
/// station's slogan, the title exactly "Le direct" and there is no album, so any
/// other artist, any other title or any album keeps the track.
pub proof fn lemma_which_tracks_are_dropped(
    artist: Seq<char>,
    title: Seq<char>,
    album: Option<Seq<char>>,
)
    ensures
        contains_seq(title, "BONNE NUIT SUR FIP"@) ==> is_announcement(artist, title, album),
        contains_seq(title, "FIP ACTUALITE"@) ==> is_announcement(artist, title, album),
        !contains_seq(title, "BONNE NUIT SUR FIP"@) && !contains_seq(title, "FIP ACTUALITE"@)
            && artist != "La radio la plus éclectique du monde"@ ==> !is_announcement(
            artist,
            title,
            album,
        ),
        !contains_seq(title, "BONNE NUIT SUR FIP"@) && !contains_seq(title, "FIP ACTUALITE"@)
            && title != "Le direct"@ ==> !is_announcement(artist, title, album),
        !contains_seq(title, "BONNE NUIT SUR FIP"@) && !contains_seq(title, "FIP ACTUALITE"@)
            && album is Some ==> !is_announcement(artist, title, album),
        artist == "La radio la plus éclectique du monde"@ && title == "Le direct"@ && album is None
            ==> is_announcement(artist, title, album),
{
}

/// A trailing year is always removed: an album name followed by a space and four
/// decimal digits loses exactly the space and the digits, whatever the length and
/// the text of the name before them.
pub proof fn lemma_trailing_year_is_removed(name: Seq<char>, year: Seq<char>)
    requires
        year.len() == 4,
        forall|i: int| 0 <= i < 4 ==> '0' <= #[trigger] year[i] && year[i] <= '9',
    ensures
        album_without_year(name + seq![' '] + year) == name,
{
    let album = name + seq![' '] + year;
    let p: int = name.len() as int;
    lemma_last_index_of(album, ' ');
    assert(album[p] == ' ');
    assert forall|q: int| p < q < album.len() implies album[q] != ' ' by {
        assert(album[q] == year[q - p - 1]);
    }
    assert(last_index_of(album, ' ') == Some(p));
    assert(album.subrange(p + 1, album.len() as int) =~= year);
    assert(album.subrange(0, p) =~= name);
}

/// A trailing year is all that is ever removed: the album name is left as it is, or
/// it ended with a space and four decimal digits, and the result is what came before
/// them.
pub proof fn lemma_only_a_year_is_removed(album: Seq<char>)
    ensures
        album_without_year(album) == album || ({
            let n: int = album_without_year(album).len() as int;
            &&& album.len() == n + 5
            &&& album == album_without_year(album) + seq![' '] + album.subrange(n + 1, n + 5)
            &&& forall|i: int| n + 1 <= i < n + 5 ==> '0' <= #[trigger] album[i] && album[i] <= '9'
        }),
{
    lemma_last_index_of(album, ' ');
    if let Some(p) = last_index_of(album, ' ') {
        let end = album.subrange(p + 1, album.len() as int);
        if is_year(end) {
            let r = album.subrange(0, p);
            assert(album =~= r + seq![' '] + album.subrange(p + 1, p + 5));
            assert forall|i: int| p + 1 <= i < p + 5 implies '0' <= #[trigger] album[i] && album[i]
                <= '9' by {
                assert(album[i] == end[i - p - 1]);
            }
        }
    }
}

/// The text of a track holds each of its fields whole, in a fixed frame: the title
/// after "TrackInfo{title='", the artist after "', artist='", the album (or "null")
/// after "', album='", the start time in decimal after "', startTime=", and a closing
/// brace; so the text without its frame gives back the fields.
pub proof fn lemma_track_text_holds_the_fields(t: TrackView)
    ensures
        ({
            let text = track_text(t);
            let album = match t.album {
                Some(a) => a,
                None => "null"@,
            };
            let time = int_decimal(t.start_time);
            let a: int = 17 + t.title.len() as int;
            let b: int = a + 11 + t.artist.len();
            let c: int = b + 10 + album.len();
            let d: int = c + 13 + time.len();
            &&& text.len() == d + 1
            &&& text.subrange(0, 17) == "TrackInfo{title='"@
            &&& text.subrange(17, a) == t.title
            &&& text.subrange(a, a + 11) == "', artist='"@
            &&& text.subrange(a + 11, b) == t.artist
            &&& text.subrange(b, b + 10) == "', album='"@
            &&& text.subrange(b + 10, c) == album
            &&& text.subrange(c, c + 13) == "', startTime="@
            &&& text.subrange(c + 13, d) == time
            &&& text[d] == '}'
        }),
{
    reveal_strlit("TrackInfo{title='");
    reveal_strlit("', artist='");
    reveal_strlit("', album='");
    reveal_strlit("', startTime=");
    reveal_strlit("}");
    let text = track_text(t);
    let album = match t.album {
        Some(a) => a,
        None => "null"@,
    };
    let time = int_decimal(t.start_time);
    let s0 = "TrackInfo{title='"@;
    let s1 = s0 + t.title;
    let s2 = s1 + "', artist='"@;
    let s3 = s2 + t.artist;
    let s4 = s3 + "', album='"@;
    let s5 = s4 + album;
    let s6 = s5 + "', startTime="@;
    let s7 = s6 + time;
    assert(text == s7 + "}"@);
    let a: int = 17 + t.title.len() as int;
    let b: int = a + 11 + t.artist.len();
    let c: int = b + 10 + album.len();
    let d: int = c + 13 + time.len();
    assert(text.subrange(0, 17) =~= s0);
    assert(text.subrange(17, a) =~= t.title);
    assert(text.subrange(a, a + 11) =~= "', artist='"@);
    assert(text.subrange(a + 11, b) =~= t.artist);
    assert(text.subrange(b, b + 10) =~= "', album='"@);
    assert(text.subrange(b + 10, c) =~= album);
    assert(text.subrange(c, c + 13) =~= "', startTime="@);
    assert(text.subrange(c + 13, d) =~= time);
}

/// A created track keeps the album it was given, less a trailing year: no album stays
/// no album, and a given album stays given, either as it was or without the space and
/// four decimal digits that ended it.
pub proof fn lemma_album_is_kept(album: Option<Seq<char>>)
    ensures
        album is None ==> fixed_album(album) is None,
        album matches Some(a) ==> fixed_album(album) matches Some(b) && (b == a || (a.len() == b.len()
            + 5 && a == b + seq![' '] + a.subrange(b.len() + 1 as int, b.len() + 5 as int) && forall|i: int|
            b.len() + 1 <= i < b.len() + 5 ==> '0' <= #[trigger] a[i] && a[i] <= '9')),
{
    if let Some(a) = album {
        lemma_only_a_year_is_removed(a);
    }
}

} // verus!
