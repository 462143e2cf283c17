use vstd::prelude::*;

verus! {

/// What can go wrong while following the radio and scrobbling its tracks. Each kind
/// carries a message.
#[derive(Debug)]
pub enum TwifipError {
    FipApiError(String),
    LastFmAuthError(String),
    LastFmScrobbleError(String),
    TrackCacheError(String),
    ConfigError(String),
    TrackFilterError(String),
    HttpError(String),
    JsonError(String),
    SchedulerError(String),
}

/// A `TwifipError` as mathematical values: its kind and its message.
pub enum ErrorView {
    FipApiError(Seq<char>),
    LastFmAuthError(Seq<char>),
    LastFmScrobbleError(Seq<char>),
    TrackCacheError(Seq<char>),
    ConfigError(Seq<char>),
    TrackFilterError(Seq<char>),
    HttpError(Seq<char>),
    JsonError(Seq<char>),
    SchedulerError(Seq<char>),
}

impl View for TwifipError {
    type V = ErrorView;

    open spec fn view(&self) -> ErrorView {
        match self {
            TwifipError::FipApiError(m) => ErrorView::FipApiError(m@),
            TwifipError::LastFmAuthError(m) => ErrorView::LastFmAuthError(m@),
            TwifipError::LastFmScrobbleError(m) => ErrorView::LastFmScrobbleError(m@),
            TwifipError::TrackCacheError(m) => ErrorView::TrackCacheError(m@),
            TwifipError::ConfigError(m) => ErrorView::ConfigError(m@),
            TwifipError::TrackFilterError(m) => ErrorView::TrackFilterError(m@),
            TwifipError::HttpError(m) => ErrorView::HttpError(m@),
            TwifipError::JsonError(m) => ErrorView::JsonError(m@),
            TwifipError::SchedulerError(m) => ErrorView::SchedulerError(m@),
        }
    }
}

/// The words that introduce the message of each kind of error.
pub open spec fn error_prefix(e: TwifipError) -> Seq<char> {
    match e {
        TwifipError::FipApiError(_) => "FIP API error: "@,
        TwifipError::LastFmAuthError(_) => "Last.fm authentication error: "@,
        TwifipError::LastFmScrobbleError(_) => "Last.fm scrobble error: "@,
        TwifipError::TrackCacheError(_) => "Track cache error: "@,
        TwifipError::ConfigError(_) => "Configuration error: "@,
        TwifipError::TrackFilterError(_) => "Track filtering error: "@,
        TwifipError::HttpError(_) => "HTTP request failed: "@,
        TwifipError::JsonError(_) => "JSON parsing error: "@,
        TwifipError::SchedulerError(_) => "Scheduler error: "@,
    }
}

/// The message that an error carries.
pub open spec fn error_message(e: TwifipError) -> Seq<char> {
    match e {
        TwifipError::FipApiError(m) => m@,
        TwifipError::LastFmAuthError(m) => m@,
        TwifipError::LastFmScrobbleError(m) => m@,
        TwifipError::TrackCacheError(m) => m@,
        TwifipError::ConfigError(m) => m@,
        TwifipError::TrackFilterError(m) => m@,
        TwifipError::HttpError(m) => m@,
        TwifipError::JsonError(m) => m@,
        TwifipError::SchedulerError(m) => m@,
    }
}

impl TwifipError {
    /// The text of the error: the words of its kind, then its message.
    pub fn to_string(&self) -> (r: String)
        ensures
            r@ == error_prefix(*self) + error_message(*self),
    {
        let (prefix, message) = match self {
            TwifipError::FipApiError(m) => ("FIP API error: ", m),
            TwifipError::LastFmAuthError(m) => ("Last.fm authentication error: ", m),
            TwifipError::LastFmScrobbleError(m) => ("Last.fm scrobble error: ", m),
            TwifipError::TrackCacheError(m) => ("Track cache error: ", m),
            TwifipError::ConfigError(m) => ("Configuration error: ", m),
            TwifipError::TrackFilterError(m) => ("Track filtering error: ", m),
            TwifipError::HttpError(m) => ("HTTP request failed: ", m),
            TwifipError::JsonError(m) => ("JSON parsing error: ", m),
            TwifipError::SchedulerError(m) => ("Scheduler error: ", m),
        };
        let mut out = String::from_str(prefix);
        out.append(message.as_str());
        out
    }
}

/// The text of an error ends with the whole message that the error carries, after
/// the words of its kind.
pub proof fn lemma_error_text_ends_with_its_message(e: TwifipError)
    ensures
        e matches TwifipError::FipApiError(m) ==> error_message(e) == m@,
        e matches TwifipError::LastFmAuthError(m) ==> error_message(e) == m@,
        e matches TwifipError::LastFmScrobbleError(m) ==> error_message(e) == m@,
        e matches TwifipError::TrackCacheError(m) ==> error_message(e) == m@,
        e matches TwifipError::ConfigError(m) ==> error_message(e) == m@,
        e matches TwifipError::TrackFilterError(m) ==> error_message(e) == m@,
        e matches TwifipError::HttpError(m) ==> error_message(e) == m@,
        e matches TwifipError::JsonError(m) ==> error_message(e) == m@,
        e matches TwifipError::SchedulerError(m) ==> error_message(e) == m@,
        (error_prefix(e) + error_message(e)).subrange(
            error_prefix(e).len() as int,
            (error_prefix(e) + error_message(e)).len() as int,
        ) == error_message(e),
{
    let t = error_prefix(e) + error_message(e);
    assert(t.subrange(error_prefix(e).len() as int, t.len() as int) =~= error_message(e));
}

} // verus!
