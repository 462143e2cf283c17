use vstd::prelude::*;

use crate::error::{error_message, error_prefix, TwifipError};
use crate::track::Track;

verus! {

/// Where a check of the station stands: waiting for the track on air, for the
/// verdict of the track cache, for the scrobble, or done.
#[derive(PartialEq, Eq, Structural)]
pub enum Stage {
    AwaitingTrack,
    AwaitingStore,
    AwaitingScrobble,
    Finished,
}

/// What the outside world reports back to a check.
pub enum CycleEvent {
    /// The track on air, or why it could not be read.
    TrackRead(Result<Track, TwifipError>),
    /// Whether the track cache found the track new, or why it could not be used.
    StoreChecked(Result<bool, String>),
    /// Whether Last.fm accepted the scrobble, or why not.
    Scrobbled(Result<(), String>),
}

/// What a check asks the outside world to do next.
pub enum CycleAction {
    /// Check the track against the cache and report back.
    CheckStore,
    /// Scrobble the track and report back.
    Scrobble,
    /// Only report the track that would have been scrobbled; the check succeeded.
    ReportDryRun,
    /// The check is over, with this outcome.
    Finish(Result<(), TwifipError>),
}

/// One check of the station: read the track on air, scrobble it if the cache has not
/// seen it (unless this is a dry run), and report how it went.
pub struct ScrobbleCycle {
    dry_run: bool,
    stage: Stage,
    track: Option<Track>,
}

/// The stage that expects an event.
pub open spec fn stage_for(event: CycleEvent) -> Stage {
    match event {
        CycleEvent::TrackRead(_) => Stage::AwaitingTrack,
        CycleEvent::StoreChecked(_) => Stage::AwaitingStore,
        CycleEvent::Scrobbled(_) => Stage::AwaitingScrobble,
    }
}

/// How far along a stage is.
pub open spec fn stage_rank(s: Stage) -> int {
    match s {
        Stage::AwaitingTrack => 0,
        Stage::AwaitingStore => 1,
        Stage::AwaitingScrobble => 2,
        Stage::Finished => 3,
    }
}

impl ScrobbleCycle {
    /// While the cache or the scrobble is awaited, the track on air is known.
    #[verifier::type_invariant]
    spec fn well_formed(&self) -> bool {
        (self.stage == Stage::AwaitingStore || self.stage == Stage::AwaitingScrobble)
            ==> self.track is Some
    }

    /// Whether the check is a dry run.
    pub closed spec fn is_dry_run(&self) -> bool {
        self.dry_run
    }

    /// The stage of the check.
    pub closed spec fn current_stage(&self) -> Stage {
        self.stage
    }

    /// The track on air, once it has been read.
    pub closed spec fn current_track(&self) -> Option<Track> {
        self.track
    }

    /// A check that has not started: it waits for the track on air.
    pub fn new(dry_run: bool) -> (r: ScrobbleCycle)
        ensures
            r.is_dry_run() == dry_run,
            r.current_stage() == Stage::AwaitingTrack,
            r.current_track() is None,
    {
        ScrobbleCycle { dry_run, stage: Stage::AwaitingTrack, track: None }
    }

    /// The track on air, once it has been read.
    pub fn track(&self) -> (r: Option<&Track>)
        ensures
            r matches Some(t) ==> self.current_track() == Some(*t),
            r is None ==> self.current_track() is None,
            self.current_stage() == Stage::AwaitingStore || self.current_stage()
                == Stage::AwaitingScrobble ==> r is Some,
    {
        proof {
            use_type_invariant(self);
        }
        match &self.track {
            Some(t) => Some(t),
            None => None,
        }
    }

    /// Whether the check waits for this kind of event.
    pub fn awaits(&self, event: &CycleEvent) -> (r: bool)
        ensures
            r == (self.current_stage() == stage_for(*event)),
    {
        match event {
            CycleEvent::TrackRead(_) => self.stage == Stage::AwaitingTrack,
            CycleEvent::StoreChecked(_) => self.stage == Stage::AwaitingStore,
            CycleEvent::Scrobbled(_) => self.stage == Stage::AwaitingScrobble,
        }
    }

    /// Takes in the event that the check waits for and says what to do next. A track
    /// that cannot be read ends the check with a `FipApiError` carrying the reason's
    /// text; a read track goes to the cache. A new track is scrobbled, or only
    /// reported in a dry run; a known one ends the check. A cache that cannot be used
    /// gives a `TrackCacheError`, a refused scrobble a `LastFmScrobbleError`, each
    /// with the reason. Every step moves the check forward.
    pub fn step(&mut self, event: CycleEvent) -> (action: CycleAction)
        requires
            old(self).current_stage() == stage_for(event),
        ensures
            final(self).is_dry_run() == old(self).is_dry_run(),
            action is CheckStore || action is Scrobble ==> final(self).current_track() is Some,
            action is Scrobble ==> (event matches CycleEvent::StoreChecked(Ok(true))
                && !old(self).is_dry_run()),
            stage_rank(final(self).current_stage()) > stage_rank(old(self).current_stage()),
            event matches CycleEvent::TrackRead(read) ==> match read {
                Ok(t) => {
                    &&& final(self).current_stage() == Stage::AwaitingStore
                    &&& final(self).current_track() == Some(t)
                    &&& action is CheckStore
                },
                Err(e) => {
                    &&& final(self).current_stage() == Stage::Finished
                    &&& final(self).current_track() == old(self).current_track()
                    &&& action matches CycleAction::Finish(Err(TwifipError::FipApiError(m)))
                    &&& m@ == error_prefix(e) + error_message(e)
                },
            },
            !(event is TrackRead) ==> final(self).current_track() == old(self).current_track(),
            event matches CycleEvent::StoreChecked(checked) ==> match checked {
                Ok(true) => if old(self).is_dry_run() {
                    final(self).current_stage() == Stage::Finished && action is ReportDryRun
                } else {
                    final(self).current_stage() == Stage::AwaitingScrobble && action is Scrobble
                },
                Ok(false) => final(self).current_stage() == Stage::Finished
                    && action matches CycleAction::Finish(Ok(())),
                Err(reason) => {
                    &&& final(self).current_stage() == Stage::Finished
                    &&& action matches CycleAction::Finish(Err(TwifipError::TrackCacheError(m)))
                    &&& m@ == reason@
                },
            },
            event matches CycleEvent::Scrobbled(sent) ==> {
                &&& final(self).current_stage() == Stage::Finished
                &&& match sent {
                    Ok(()) => action matches CycleAction::Finish(Ok(())),
                    Err(reason) => action matches CycleAction::Finish(
                        Err(TwifipError::LastFmScrobbleError(m)),
                    ) && m@ == reason@,
                }
            },
    {
        proof {
            use_type_invariant(&*self);
        }
        match event {
            CycleEvent::TrackRead(Ok(t)) => {
                self.track = Some(t);
                self.stage = Stage::AwaitingStore;
                CycleAction::CheckStore
            },
            CycleEvent::TrackRead(Err(e)) => {
                self.stage = Stage::Finished;
                CycleAction::Finish(Err(TwifipError::FipApiError(e.to_string())))
            },
            CycleEvent::StoreChecked(Ok(true)) => {
                if self.dry_run {
                    self.stage = Stage::Finished;
                    CycleAction::ReportDryRun
                } else {
                    self.stage = Stage::AwaitingScrobble;
                    CycleAction::Scrobble
                }
            },
            CycleEvent::StoreChecked(Ok(false)) => {
                self.stage = Stage::Finished;
                CycleAction::Finish(Ok(()))
            },
            CycleEvent::StoreChecked(Err(reason)) => {
                self.stage = Stage::Finished;
                CycleAction::Finish(Err(TwifipError::TrackCacheError(reason)))
            },
            CycleEvent::Scrobbled(Ok(())) => {
                self.stage = Stage::Finished;
                CycleAction::Finish(Ok(()))
            },
            CycleEvent::Scrobbled(Err(reason)) => {
                self.stage = Stage::Finished;
                CycleAction::Finish(Err(TwifipError::LastFmScrobbleError(reason)))
            },
        }
    }
}

} // verus!
