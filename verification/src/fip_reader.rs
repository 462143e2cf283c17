use vstd::prelude::*;

use crate::devalue::{resolvable, resolve_payload, resolved};
use crate::error::{ErrorView, TwifipError};
use crate::json::{
    json_array_parse, json_text_parse, member, parse_json, parse_json_array, record_field, views,
    Json, JsonView,
};
use crate::text::opt_chars;
use crate::track::{fixed_album, is_announcement, Track, TrackView};

verus! {

/// The release that a song belongs to.
pub struct Release {
    pub title: Option<String>,
}

/// The song that is on air.
pub struct Song {
    pub release: Option<Release>,
}

/// What the station is playing now: the first line is the title, the second the artist.
pub struct Now {
    pub first_line: String,
    pub second_line: String,
    pub song: Option<Song>,
    pub start_time: i64,
}

/// The live feed of the station.
pub struct Fip {
    pub now: Now,
}

/// A `Release` as mathematical values.
pub struct ReleaseView {
    pub title: Option<Seq<char>>,
}

/// A `Song` as mathematical values.
pub struct SongView {
    pub release: Option<ReleaseView>,
}

/// A `Now` as mathematical values.
pub struct NowView {
    pub first_line: Seq<char>,
    pub second_line: Seq<char>,
    pub song: Option<SongView>,
    pub start_time: int,
}

/// A `Fip` as mathematical values.
pub struct FipView {
    pub now: NowView,
}

impl View for Release {
    type V = ReleaseView;

    open spec fn view(&self) -> ReleaseView {
        ReleaseView { title: opt_chars(self.title) }
    }
}

impl View for Song {
    type V = SongView;

    open spec fn view(&self) -> SongView {
        SongView {
            release: match self.release {
                Some(r) => Some(r@),
                None => None,
            },
        }
    }
}

impl View for Now {
    type V = NowView;

    open spec fn view(&self) -> NowView {
        NowView {
            first_line: self.first_line@,
            second_line: self.second_line@,
            song: match self.song {
                Some(s) => Some(s@),
                None => None,
            },
            start_time: self.start_time as int,
        }
    }
}

impl View for Fip {
    type V = FipView;

    open spec fn view(&self) -> FipView {
        FipView { now: self.now@ }
    }
}

// Reading the feed's document into these records: a text field must hold a string;
// an optional field may be absent or null; the start time must be an integer that
// fits in an `i64`. The outer `None` of the functions below means that the document
// does not have the shape of the record.

/// A required text field.
pub open spec fn text_field(f: Option<JsonView>) -> Option<Seq<char>> {
    match f {
        Some(JsonView::Str(s)) => Some(s),
        _ => None,
    }
}

/// An optional text field.
pub open spec fn opt_text_field(f: Option<JsonView>) -> Option<Option<Seq<char>>> {
    match f {
        None => Some(None),
        Some(JsonView::Null) => Some(None),
        Some(JsonView::Str(s)) => Some(Some(s)),
        _ => None,
    }
}

/// A required `i64` field.
pub open spec fn i64_field(f: Option<JsonView>) -> Option<int> {
    match f {
        Some(JsonView::PosInt(u)) => if u <= i64::MAX {
            Some(u as int)
        } else {
            None
        },
        Some(JsonView::NegInt(i)) => Some(i as int),
        _ => None,
    }
}

/// A release read from a document.
pub open spec fn release_of(v: JsonView) -> Option<ReleaseView> {
    match record_field(v, "title"@, 0, 1) {
        Ok(f) => match opt_text_field(f) {
            Some(title) => Some(ReleaseView { title }),
            None => None,
        },
        Err(_) => None,
    }
}

/// An optional release field.
pub open spec fn opt_release_field(f: Option<JsonView>) -> Option<Option<ReleaseView>> {
    match f {
        None => Some(None),
        Some(JsonView::Null) => Some(None),
        Some(v) => match release_of(v) {
            Some(r) => Some(Some(r)),
            None => None,
        },
    }
}

/// A song read from a document.
pub open spec fn song_of(v: JsonView) -> Option<SongView> {
    match record_field(v, "release"@, 0, 1) {
        Ok(f) => match opt_release_field(f) {
            Some(release) => Some(SongView { release }),
            None => None,
        },
        Err(_) => None,
    }
}

/// An optional song field.
pub open spec fn opt_song_field(f: Option<JsonView>) -> Option<Option<SongView>> {
    match f {
        None => Some(None),
        Some(JsonView::Null) => Some(None),
        Some(v) => match song_of(v) {
            Some(s) => Some(Some(s)),
            None => None,
        },
    }
}

/// What is on air, read from a document; its fields in order are "firstLine",
/// "secondLine", "song" and "startTime".
pub open spec fn now_of(v: JsonView) -> Option<NowView> {
    let first = record_field(v, "firstLine"@, 0, 4);
    let second = record_field(v, "secondLine"@, 1, 4);
    let song = record_field(v, "song"@, 2, 4);
    let start = record_field(v, "startTime"@, 3, 4);
    if first is Ok && second is Ok && song is Ok && start is Ok {
        match (
            text_field(first->Ok_0),
            text_field(second->Ok_0),
            opt_song_field(song->Ok_0),
            i64_field(start->Ok_0),
        ) {
            (Some(first_line), Some(second_line), Some(song), Some(start_time)) => Some(
                NowView { first_line, second_line, song, start_time },
            ),
            _ => None,
        }
    } else {
        None
    }
}

/// The live feed read from a document; its one field is "now", which is required.
pub open spec fn fip_of(v: JsonView) -> Option<FipView> {
    match record_field(v, "now"@, 0, 1) {
        Ok(Some(n)) => match now_of(n) {
            Some(now) => Some(FipView { now }),
            None => None,
        },
        _ => None,
    }
}

/// The message of a feed whose document does not have the expected shape.
pub open spec fn shape_message() -> Seq<char> {
    "unexpected shape of the FIP live feed"@
}

/// Reads an optional text field.
fn read_opt_text(f: Option<&Json>) -> (r: Option<Option<String>>)
    ensures
        ({
            let fv = match f {
                Some(j) => Some(j@),
                None => None,
            };
            &&& r is None <==> opt_text_field(fv) is None
            &&& r matches Some(t) ==> opt_text_field(fv) == Some(opt_chars(t))
        }),
{
    match f {
        None => Some(None),
        Some(Json::Null) => Some(None),
        Some(Json::Str(s)) => Some(Some(s.clone())),
        _ => None,
    }
}

/// Reads a required text field.
fn read_text(f: Option<&Json>) -> (r: Option<String>)
    ensures
        ({
            let fv = match f {
                Some(j) => Some(j@),
                None => None,
            };
            &&& r is None <==> text_field(fv) is None
            &&& r matches Some(t) ==> text_field(fv) == Some(t@)
        }),
{
    match f {
        Some(Json::Str(s)) => Some(s.clone()),
        _ => None,
    }
}

/// Reads a required `i64` field.
fn read_i64(f: Option<&Json>) -> (r: Option<i64>)
    ensures
        ({
            let fv = match f {
                Some(j) => Some(j@),
                None => None,
            };
            &&& r is None <==> i64_field(fv) is None
            &&& r matches Some(t) ==> i64_field(fv) == Some(t as int)
        }),
{
    match f {
        Some(Json::PosInt(u)) => if *u <= i64::MAX as u64 {
            Some(*u as i64)
        } else {
            None
        },
        Some(Json::NegInt(i)) => Some(*i),
        _ => None,
    }
}

impl Release {
    /// A release read from a document (see `release_of`).
    pub fn from_json(v: &Json) -> (r: Option<Release>)
        ensures
            r is None <==> release_of(v@) is None,
            r matches Some(x) ==> release_of(v@) == Some(x@),
    {
        match v.record_field("title", 0, 1) {
            Ok(f) => match read_opt_text(f) {
                Some(title) => Some(Release { title }),
                None => None,
            },
            Err(()) => None,
        }
    }
}

impl Song {
    /// A song read from a document (see `song_of`).
    pub fn from_json(v: &Json) -> (r: Option<Song>)
        ensures
            r is None <==> song_of(v@) is None,
            r matches Some(x) ==> song_of(v@) == Some(x@),
    {
        let field = match v.record_field("release", 0, 1) {
            Ok(f) => f,
            Err(()) => return None,
        };
        let release = match field {
            None => None,
            Some(Json::Null) => None,
            Some(x) => match Release::from_json(x) {
                Some(r) => Some(r),
                None => return None,
            },
        };
        Some(Song { release })
    }
}

impl Now {
    /// What is on air, read from a document (see `now_of`).
    pub fn from_json(v: &Json) -> (r: Option<Now>)
        ensures
            r is None <==> now_of(v@) is None,
            r matches Some(x) ==> now_of(v@) == Some(x@),
    {
        let first = v.record_field("firstLine", 0, 4);
        let second = v.record_field("secondLine", 1, 4);
        let song = v.record_field("song", 2, 4);
        let start = v.record_field("startTime", 3, 4);
        let (first, second, song, start) = match (first, second, song, start) {
            (Ok(a), Ok(b), Ok(c), Ok(d)) => (a, b, c, d),
            _ => return None,
        };
        let first_line = match read_text(first) {
            Some(t) => t,
            None => return None,
        };
        let second_line = match read_text(second) {
            Some(t) => t,
            None => return None,
        };
        let song = match song {
            None => None,
            Some(Json::Null) => None,
            Some(x) => match Song::from_json(x) {
                Some(s) => Some(s),
                None => return None,
            },
        };
        let start_time = match read_i64(start) {
            Some(t) => t,
            None => return None,
        };
        Some(Now { first_line, second_line, song, start_time })
    }
}

impl Fip {
    /// The live feed, read from its resolved document (see `fip_of`). A document of
    /// another shape is a `JsonError`.
    pub fn from_json(v: &Json) -> (r: Result<Fip, TwifipError>)
        ensures
            r is Err <==> fip_of(v@) is None,
            r matches Ok(x) ==> fip_of(v@) == Some(x@),
            r matches Err(e) ==> e matches TwifipError::JsonError(m) && m@ == shape_message(),
    {
        let now = match v.record_field("now", 0, 1) {
            Ok(Some(n)) => Now::from_json(n),
            _ => None,
        };
        match now {
            Some(now) => Ok(Fip { now }),
            None => Err(TwifipError::JsonError(String::from_str("unexpected shape of the FIP live feed"))),
        }
    }
}

/// The title of the release of the song on air, if the feed names one.
pub open spec fn release_title(now: NowView) -> Option<Seq<char>> {
    match now.song {
        Some(song) => match song.release {
            Some(release) => release.title,
            None => None,
        },
        None => None,
    }
}

/// The payload of the live feed's response: the text of the member "result" of the
/// outer document, when that member is a string.
pub open spec fn result_text(outer: JsonView) -> Option<Seq<char>> {
    match member(outer, "result"@) {
        Some(JsonView::Str(s)) => Some(s),
        _ => None,
    }
}

/// Takes the payload out of the outer document of the live feed's response. Without
/// a string member "result" the feed is unusable, a `FipApiError`.
pub fn result_payload(outer: &Json) -> (r: Result<String, TwifipError>)
    ensures
        r is Ok <==> result_text(outer@) is Some,
        r matches Ok(s) ==> result_text(outer@) == Some(s@),
        r matches Err(e) ==> e matches TwifipError::FipApiError(m) && m@
            == "Missing 'result' field in FIP response"@,
{
    let text = match outer.get("result") {
        Some(v) => v.as_str(),
        None => None,
    };
    match text {
        Some(s) => Ok(s.clone()),
        None => Err(TwifipError::FipApiError(String::from_str("Missing 'result' field in FIP response"))),
    }
}

/// The track that the live feed announces: the second line is the artist, the first
/// the title, and the album is the title of the song's release. When that is one of
/// the station's own announcements the feed holds no music track, a `TrackFilterError`.
pub fn track_from_fip(fip: Fip) -> (r: Result<Track, TwifipError>)
    ensures
        r is Err <==> is_announcement(fip@.now.second_line, fip@.now.first_line, release_title(fip@.now)),
        r matches Ok(t) ==> t@ == (TrackView {
            artist: fip@.now.second_line,
            title: fip@.now.first_line,
            album: fixed_album(release_title(fip@.now)),
            start_time: fip@.now.start_time,
        }),
        r matches Err(e) ==> e matches TwifipError::TrackFilterError(m) && m@
            == "FIP response was not a music track"@,
{
    let Fip { now } = fip;
    let Now { first_line, second_line, song, start_time } = now;
    let album = match song {
        Some(song) => match song.release {
            Some(release) => release.title,
            None => None,
        },
        None => None,
    };
    match Track::create(second_line, first_line, album, start_time) {
        Some(t) => Ok(t),
        None => Err(TwifipError::TrackFilterError(String::from_str("FIP response was not a music track"))),
    }
}

/// The message of a payload whose references cannot be followed.
pub open spec fn unresolvable_message() -> Seq<char> {
    "FIP payload references cannot be resolved"@
}

/// An outcome as mathematical values.
pub open spec fn outcome_view(r: Result<Track, TwifipError>) -> Result<TrackView, ErrorView> {
    match r {
        Ok(t) => Ok(t@),
        Err(e) => Err(e@),
    }
}

/// The track that the live feed announces, or why there is none (see `track_from_fip`).
pub open spec fn feed_outcome(fip: FipView) -> Result<TrackView, ErrorView> {
    if is_announcement(fip.now.second_line, fip.now.first_line, release_title(fip.now)) {
        Err(ErrorView::TrackFilterError("FIP response was not a music track"@))
    } else {
        Ok(
            TrackView {
                artist: fip.now.second_line,
                title: fip.now.first_line,
                album: fixed_album(release_title(fip.now)),
                start_time: fip.now.start_time,
            },
        )
    }
}

/// The track that a devalue payload of the live feed announces: its root slot is
/// resolved, read as the feed, and turned into a track.
pub open spec fn payload_outcome(payload: Seq<JsonView>) -> Result<TrackView, ErrorView> {
    if !resolvable(payload, 0) {
        Err(ErrorView::JsonError(unresolvable_message()))
    } else {
        match fip_of(resolved(payload, 0)) {
            None => Err(ErrorView::JsonError(shape_message())),
            Some(fip) => feed_outcome(fip),
        }
    }
}

/// The track that a response of the live feed announces: the body is a JSON document
/// whose string member "result" holds the devalue payload, itself a JSON array.
pub open spec fn response_outcome(body: Seq<char>) -> Result<TrackView, ErrorView> {
    match json_text_parse(body) {
        Err(m) => Err(ErrorView::JsonError(m)),
        Ok(outer) => match result_text(outer) {
            None => Err(ErrorView::FipApiError("Missing 'result' field in FIP response"@)),
            Some(payload) => match json_array_parse(payload) {
                Err(m) => Err(ErrorView::JsonError(m)),
                Ok(items) => payload_outcome(items),
            },
        },
    }
}

/// The track that a devalue payload of the live feed announces (see
/// `payload_outcome`). A payload whose references cannot be followed is a
/// `JsonError`.
pub fn track_from_payload(payload: &Vec<Json>) -> (r: Result<Track, TwifipError>)
    ensures
        outcome_view(r) == payload_outcome(views(payload@)),
{
    let resolved_doc = match resolve_payload(payload) {
        Some(doc) => doc,
        None => return Err(TwifipError::JsonError(String::from_str("FIP payload references cannot be resolved"))),
    };
    match Fip::from_json(&resolved_doc) {
        Ok(fip) => track_from_fip(fip),
        Err(e) => Err(e),
    }
}

/// The track that a response body of the live feed announces (see
/// `response_outcome`): a body that is not JSON, or whose payload is not a JSON array,
/// is a `JsonError` with the reader's message.
pub fn track_from_response(body: &str) -> (r: Result<Track, TwifipError>)
    ensures
        outcome_view(r) == response_outcome(body@),
{
    let outer = match parse_json(body) {
        Ok(doc) => doc,
        Err(m) => return Err(TwifipError::JsonError(m)),
    };
    let payload_text = match result_payload(&outer) {
        Ok(t) => t,
        Err(e) => return Err(e),
    };
    match parse_json_array(payload_text.as_str()) {
        Ok(items) => track_from_payload(&items),
        Err(m) => Err(TwifipError::JsonError(m)),
    }
}

/// A payload that resolves into a document of the feed's shape gives the track that
/// the feed announces: it is refused as not music exactly when the feed's lines and
/// release title are one of the station's own announcements; otherwise the track
/// has the second line as artist, the first as title, the feed's start time, and as
/// album the title of the song's release without its trailing year, so no album at
/// all when the feed names no song, no release or no title for it.
pub proof fn lemma_payload_gives_the_feed_track(payload: Seq<JsonView>, fip: FipView)
    requires
        resolvable(payload, 0),
        fip_of(resolved(payload, 0)) == Some(fip),
    ensures
        payload_outcome(payload) is Err <==> is_announcement(
            fip.now.second_line,
            fip.now.first_line,
            release_title(fip.now),
        ),
        fip.now.song is Some && fip.now.song->Some_0.release is Some ==> release_title(fip.now)
            == fip.now.song->Some_0.release->Some_0.title,
        fip.now.song is None || fip.now.song->Some_0.release is None ==> release_title(fip.now) is None,
        payload_outcome(payload) matches Err(e) ==> e == ErrorView::TrackFilterError(
            "FIP response was not a music track"@,
        ),
        payload_outcome(payload) matches Ok(t) ==> t.artist == fip.now.second_line && t.title
            == fip.now.first_line && t.start_time == fip.now.start_time && t.album == fixed_album(
            release_title(fip.now),
        ),
        release_title(fip.now) is None && !is_announcement(
            fip.now.second_line,
            fip.now.first_line,
            None,
        ) ==> payload_outcome(payload) == Ok::<TrackView, ErrorView>(
            TrackView {
                artist: fip.now.second_line,
                title: fip.now.first_line,
                album: None,
                start_time: fip.now.start_time,
            },
        ),
{
}

/// What is on air is read from the document's fields by name: from an object, the
/// title is the text of its member "firstLine", the artist that of "secondLine", and
/// the start time the `i64` of "startTime"; from an array of four values, the first,
/// the second and the fourth.
pub proof fn lemma_now_fields_by_name(v: JsonView)
    ensures
        now_of(v) matches Some(now) ==> {
            &&& v is Object ==> {
                &&& member(v, "firstLine"@) == Some(JsonView::Str(now.first_line))
                &&& member(v, "secondLine"@) == Some(JsonView::Str(now.second_line))
                &&& member(v, "startTime"@) is Some
                &&& i64_field(member(v, "startTime"@)) == Some(now.start_time)
            }
            &&& v is Array ==> {
                &&& v->Array_0.len() == 4
                &&& v->Array_0[0] == JsonView::Str(now.first_line)
                &&& v->Array_0[1] == JsonView::Str(now.second_line)
                &&& i64_field(Some(v->Array_0[3])) == Some(now.start_time)
            }
        },
{
}

} // verus!
