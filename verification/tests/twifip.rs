use twifip::config::Config;
use twifip::error::TwifipError;
use twifip::track::Track;
use twifip::track_store::TrackStore;
use twifip::twifip::{CycleAction, CycleEvent, ScrobbleCycle};

fn track(artist: &str, title: &str, album: &str, start: i64) -> Track {
    Track::create(artist.to_string(), title.to_string(), Some(album.to_string()), start).unwrap()
}

/// Carries out a store update on an in-memory cache, as the cache file would be.
fn store_if_new(store: &TrackStore, cache: &mut Option<String>, t: &Track) -> bool {
    let update = store.is_new_track(cache.clone(), t);
    if let Some(text) = update.write {
        *cache = Some(text);
    }
    update.is_new
}

#[test]
fn store_keeps_its_file() {
    let store = TrackStore::new("/tmp/twifip_test.txt".to_string());
    assert_eq!(store.file(), "/tmp/twifip_test.txt");
}

/// Runs one check of the station against an in-memory cache, recording what would
/// be scrobbled.
fn run_check(
    store: &TrackStore,
    cache: &mut Option<String>,
    read: Result<Track, TwifipError>,
    scrobbles: &mut Vec<Track>,
) -> Result<(), TwifipError> {
    let mut cycle = ScrobbleCycle::new(false);
    let mut action = cycle.step(CycleEvent::TrackRead(read));
    loop {
        action = match action {
            CycleAction::CheckStore => {
                let is_new = store_if_new(store, cache, cycle.track().unwrap());
                cycle.step(CycleEvent::StoreChecked(Ok(is_new)))
            }
            CycleAction::Scrobble => {
                scrobbles.push(cycle.track().unwrap().clone());
                cycle.step(CycleEvent::Scrobbled(Ok(())))
            }
            CycleAction::ReportDryRun => return Ok(()),
            CycleAction::Finish(outcome) => return outcome,
        }
    }
}

#[test]
fn test_full_flow_integration() {
    let track1 = track("Artist1", "Title1", "Album1", 1234567890);
    let track2 = track("Artist2", "Title2", "Album2", 1234567891);
    let track2_duplicate = track("Artist2", "Title2", "Album2", 1234567891);

    let store = TrackStore::new("/tmp/twifip_integration_test.txt".to_string());
    let mut cache = None;

    // First track - should be scrobbled
    assert!(store_if_new(&store, &mut cache, &track1));
    // Second track - should be scrobbled
    assert!(store_if_new(&store, &mut cache, &track2));
    // Third track (same as second) - should NOT be scrobbled
    assert!(!store_if_new(&store, &mut cache, &track2_duplicate));

    let mut cache = None;
    let mut scrobbles = Vec::new();
    for t in [track1, track2, track2_duplicate] {
        run_check(&store, &mut cache, Ok(t), &mut scrobbles).unwrap();
    }
    assert_eq!(scrobbles.len(), 2);
    assert_eq!(scrobbles[0].title, "Title1");
    assert_eq!(scrobbles[1].title, "Title2");
}

#[test]
fn test_error_handling_integration() {
    let store = TrackStore::new("/tmp/twifip_error_test.txt".to_string());
    let mut cache = None;
    let mut scrobbles = Vec::new();

    let result1 = run_check(
        &store,
        &mut cache,
        Err(TwifipError::FipApiError("FIP API error".to_string())),
        &mut scrobbles,
    );
    assert!(result1.is_err());

    let result2 = run_check(
        &store,
        &mut cache,
        Ok(track("Artist1", "Title1", "Album1", 1234567890)),
        &mut scrobbles,
    );
    assert!(result2.is_ok());

    let result3 = run_check(
        &store,
        &mut cache,
        Err(TwifipError::FipApiError("FIP API error 2".to_string())),
        &mut scrobbles,
    );
    assert!(result3.is_err());

    // Verify only one successful scrobble
    assert_eq!(scrobbles.len(), 1);
}

#[test]
fn checked_track_is_known_until_another_plays() {
    let store = TrackStore::new("/tmp/unused.txt".to_string());
    let mut cache = None;
    let track1 = track("Artist1", "Title1", "Album1", 1);
    let track2 = track("Artist2", "Title2", "Album2", 2);
    assert!(store_if_new(&store, &mut cache, &track1));
    assert!(!store_if_new(&store, &mut cache, &track1));
    assert_eq!(cache, Some(track1.to_string()));
    assert!(store_if_new(&store, &mut cache, &track2));
    assert!(store_if_new(&store, &mut cache, &track1));
}

#[test]
fn known_track_writes_nothing() {
    let store = TrackStore::new("f".to_string());
    let t = track("A", "T", "B", 1);
    let update = store.is_new_track(Some(t.to_string()), &t);
    assert!(!update.is_new);
    assert_eq!(update.write, None);
}

#[test]
fn new_track_writes_its_text() {
    let store = TrackStore::new("f".to_string());
    let t = track("A", "T", "B", 1);
    let update = store.is_new_track(Some("something else".to_string()), &t);
    assert!(update.is_new);
    assert_eq!(update.write, Some(t.to_string()));
    let first = store.is_new_track(None, &t);
    assert!(first.is_new);
    assert_eq!(first.write, Some(t.to_string()));
}

fn vars(missing: usize) -> [Option<String>; 5] {
    let mut v = [
        Some("user".to_string()),
        Some("pass".to_string()),
        Some("key".to_string()),
        Some("secret".to_string()),
        Some("/tmp/file".to_string()),
    ];
    if missing < 5 {
        v[missing] = None;
    }
    v
}

fn from(v: [Option<String>; 5], cron: Option<String>) -> Result<Config, String> {
    let [u, p, k, s, f] = v;
    Config::from_vars(u, p, k, s, f, cron, None)
}

#[test]
fn config_reports_the_first_missing_variable() {
    let all_missing = Config::from_vars(None, None, None, None, None, None, None);
    assert!(all_missing.is_err());
    assert!(all_missing.err().unwrap().contains("LASTFM_USERNAME"));
    let names = ["LASTFM_USERNAME", "LASTFM_PASSWORD", "LASTFM_API_KEY", "LASTFM_API_SECRET", "TWIFIP_FILE"];
    for (i, name) in names.iter().enumerate() {
        let message = from(vars(i), None).err().unwrap();
        assert_eq!(message, format!("Missing ENV variable {}", name));
    }
}

#[test]
fn config_defaults_the_schedule() {
    let c = from(vars(5), None).unwrap();
    assert_eq!(c.username, "user");
    assert_eq!(c.password, "pass");
    assert_eq!(c.api_key, "key");
    assert_eq!(c.api_secret, "secret");
    assert_eq!(c.twifip_file, "/tmp/file");
    assert_eq!(c.schedule_cron, "0/20 * * ? * *");
    assert!(!c.dry_run);
    let d = from(vars(5), Some("0 * * * * *".to_string())).unwrap();
    assert_eq!(d.schedule_cron, "0 * * * * *");
}

#[test]
fn config_dry_run_only_for_true() {
    let [u, p, k, s, f] = vars(5);
    let dry = Config::from_vars(u, p, k, s, f, None, Some("true".to_string())).unwrap();
    assert!(dry.dry_run);
    let [u, p, k, s, f] = vars(5);
    let wet = Config::from_vars(u, p, k, s, f, None, Some("yes".to_string())).unwrap();
    assert!(!wet.dry_run);
}

#[test]
fn error_text_names_its_kind() {
    assert_eq!(TwifipError::FipApiError("x".to_string()).to_string(), "FIP API error: x");
    assert_eq!(
        TwifipError::LastFmAuthError("x".to_string()).to_string(),
        "Last.fm authentication error: x"
    );
    assert_eq!(TwifipError::LastFmScrobbleError("x".to_string()).to_string(), "Last.fm scrobble error: x");
    assert_eq!(TwifipError::TrackCacheError("x".to_string()).to_string(), "Track cache error: x");
    assert_eq!(TwifipError::ConfigError("x".to_string()).to_string(), "Configuration error: x");
    assert_eq!(TwifipError::TrackFilterError("x".to_string()).to_string(), "Track filtering error: x");
    assert_eq!(TwifipError::HttpError("x".to_string()).to_string(), "HTTP request failed: x");
    assert_eq!(TwifipError::JsonError("x".to_string()).to_string(), "JSON parsing error: x");
    assert_eq!(TwifipError::SchedulerError("x".to_string()).to_string(), "Scheduler error: x");
}

#[test]
fn cycle_scrobbles_a_new_track() {
    let mut cycle = ScrobbleCycle::new(false);
    let action = cycle.step(CycleEvent::TrackRead(Ok(track("A", "T", "B", 1))));
    assert!(matches!(action, CycleAction::CheckStore));
    assert_eq!(cycle.track().unwrap().title, "T");
    assert!(matches!(cycle.step(CycleEvent::StoreChecked(Ok(true))), CycleAction::Scrobble));
    assert!(matches!(cycle.step(CycleEvent::Scrobbled(Ok(()))), CycleAction::Finish(Ok(()))));
}

#[test]
fn cycle_skips_a_known_track() {
    let mut cycle = ScrobbleCycle::new(false);
    cycle.step(CycleEvent::TrackRead(Ok(track("A", "T", "B", 1))));
    assert!(matches!(cycle.step(CycleEvent::StoreChecked(Ok(false))), CycleAction::Finish(Ok(()))));
}

#[test]
fn dry_run_only_reports() {
    let mut cycle = ScrobbleCycle::new(true);
    cycle.step(CycleEvent::TrackRead(Ok(track("A", "T", "B", 1))));
    assert!(matches!(cycle.step(CycleEvent::StoreChecked(Ok(true))), CycleAction::ReportDryRun));
    assert!(!cycle.awaits(&CycleEvent::Scrobbled(Ok(()))));
}

#[test]
fn read_failure_becomes_an_api_error() {
    let mut cycle = ScrobbleCycle::new(false);
    let action = cycle.step(CycleEvent::TrackRead(Err(TwifipError::TrackFilterError(
        "FIP response was not a music track".to_string(),
    ))));
    match action {
        CycleAction::Finish(Err(TwifipError::FipApiError(m))) => {
            assert_eq!(m, "Track filtering error: FIP response was not a music track")
        }
        _ => panic!("unexpected action"),
    }
}

#[test]
fn cache_and_scrobble_failures_are_reported() {
    let mut cycle = ScrobbleCycle::new(false);
    cycle.step(CycleEvent::TrackRead(Ok(track("A", "T", "B", 1))));
    match cycle.step(CycleEvent::StoreChecked(Err("disk full".to_string()))) {
        CycleAction::Finish(Err(TwifipError::TrackCacheError(m))) => assert_eq!(m, "disk full"),
        _ => panic!("unexpected action"),
    }
    let mut cycle = ScrobbleCycle::new(false);
    assert!(cycle.awaits(&CycleEvent::TrackRead(Err(TwifipError::HttpError(String::new())))));
    cycle.step(CycleEvent::TrackRead(Ok(track("A", "T", "B", 1))));
    cycle.step(CycleEvent::StoreChecked(Ok(true)));
    match cycle.step(CycleEvent::Scrobbled(Err("rejected".to_string()))) {
        CycleAction::Finish(Err(TwifipError::LastFmScrobbleError(m))) => assert_eq!(m, "rejected"),
        _ => panic!("unexpected action"),
    }
}
