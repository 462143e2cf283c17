use vstd::prelude::*;

use crate::text::opt_chars;
use crate::track::{track_text, Track, TrackView};

verus! {

/// Remembers the last track seen, as its text in a cache file, so that a track is
/// scrobbled once however often the station is polled while it plays.
pub struct TrackStore {
    file: String,
}

/// What checking a track against the cache decided: whether the track is new, and
/// the text to write to the cache file, if any.
pub struct StoreUpdate {
    pub is_new: bool,
    pub write: Option<String>,
}

/// A track is new unless the cache holds exactly its text (an absent cache file
/// holds nothing).
pub open spec fn is_new_against(cached: Option<Seq<char>>, t: TrackView) -> bool {
    cached != Some(track_text(t))
}

/// What the cache holds after a track has been checked: a new track's text replaces
/// what it held; otherwise it is left as it is.
pub open spec fn cache_after(cached: Option<Seq<char>>, t: TrackView) -> Option<Seq<char>> {
    if is_new_against(cached, t) {
        Some(track_text(t))
    } else {
        cached
    }
}

/// What the cache holds once an update has been carried out.
pub open spec fn apply_update(cached: Option<Seq<char>>, write: Option<String>) -> Option<Seq<char>> {
    match write {
        Some(w) => Some(w@),
        None => cached,
    }
}

impl TrackStore {
    /// A store whose cache is the file at `file`.
    pub fn new(file: String) -> (r: TrackStore)
        ensures
            r.file_path() == file@,
    {
        TrackStore { file }
    }

    /// The path of the cache file.
    pub closed spec fn file_path(&self) -> Seq<char> {
        self.file@
    }

    /// The path of the cache file.
    pub fn file(&self) -> (r: &str)
        ensures
            r@ == self.file_path(),
    {
        self.file.as_str()
    }

    /// Checks `track` against what the cache file holds (`None` when there is no
    /// such file). A new track is to be written to the cache; a track already cached
    /// leaves the file as it is.
    pub fn is_new_track(&self, cached: Option<String>, track: &Track) -> (r: StoreUpdate)
        ensures
            r.is_new == is_new_against(opt_chars(cached), track@),
            r.write is Some <==> r.is_new,
            apply_update(opt_chars(cached), r.write) == cache_after(opt_chars(cached), track@),
    {
        let text = track.to_string();
        match cached {
            Some(c) => {
                if c == text {
                    StoreUpdate { is_new: false, write: None }
                } else {
                    StoreUpdate { is_new: true, write: Some(text) }
                }
            },
            None => StoreUpdate { is_new: true, write: Some(text) },
        }
    }
}

/// Once a track has been checked against the cache, checking it again finds it
/// already there: a track is scrobbled at most once while it stays on air.
pub proof fn lemma_checked_track_is_known(cached: Option<Seq<char>>, t: TrackView)
    ensures
        !is_new_against(cache_after(cached, t), t),
{
}

/// After a track has been checked, any track whose text differs from it is new.
pub proof fn lemma_next_track_is_new(cached: Option<Seq<char>>, t: TrackView, u: TrackView)
    requires
        track_text(t) != track_text(u),
    ensures
        is_new_against(cache_after(cached, t), u),
{
}

/// Checking the same track twice leaves the cache as checking it once did.
pub proof fn lemma_check_is_idempotent(cached: Option<Seq<char>>, t: TrackView)
    ensures
        cache_after(cache_after(cached, t), t) == cache_after(cached, t),
{
}

} // verus!
