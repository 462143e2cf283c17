use twifip::track::Track;

#[test]
fn test_ignored_track() {
    let track = Track::create(
        String::from("Artist"),
        String::from("FIP ACTUALITE"),
        Some(String::from("Album")),
        1740168451,
    );

    assert_eq!(track, None);
}

#[test]
fn test_ignored_track_2() {
    let track = Track::create(
        String::from("La radio la plus éclectique du monde"),
        String::from("Le direct"),
        None,
        1740168451,
    );

    assert_eq!(track, None);
}

#[test]
fn test_not_ignored_track() {
    let track = Track::create(
        String::from("La radio la plus éclectique du monde"),
        String::from("Le direct"),
        Some(String::from("Some album")),
        1740168451,
    );

    assert_ne!(track, None);
}

#[test]
fn test_not_ignored_track_2() {
    let track = Track::create(
        String::from("La radio la plus éclectique du monde"),
        String::from("Title"),
        None,
        1740168451,
    );

    assert_ne!(track, None);
}

#[test]
fn test_create_track() {
    let track = Track::create(
        String::from("Artist"),
        String::from("Title"),
        Some(String::from("Album")),
        1740168451,
    )
    .unwrap();
    assert_eq!(track.album.clone().unwrap().to_string(), "Album");
    assert_eq!(
        track.to_string(),
        "TrackInfo{title='Title', artist='Artist', album='Album', startTime=1740168451}"
    );
}

#[test]
fn test_create_track_with_year() {
    let track = Track::create(
        String::from("Artist"),
        String::from("Title"),
        Some(String::from("Album 2020")),
        1740168451,
    )
    .unwrap();
    assert_eq!(track.album.clone().unwrap().to_string(), "Album");
}

#[test]
fn test_create_track_with_numbers() {
    let track = Track::create(
        String::from("Artist"),
        String::from("Title"),
        Some(String::from("Album 202")),
        1740168451,
    )
    .unwrap();
    assert_eq!(track.album.clone().unwrap().to_string(), "Album 202");
}

#[test]
fn test_create_track_with_five_digit_number_not_stripped() {
    let track = Track::create(
        String::from("Artist"),
        String::from("Title"),
        Some(String::from("Album 20201")),
        1740168451,
    )
    .unwrap();
    assert_eq!(track.album.clone().unwrap().to_string(), "Album 20201");
}

#[test]
fn good_night_programme_is_ignored() {
    let track = Track::create(
        String::from("Someone"),
        String::from("BONNE NUIT SUR FIP avec nous"),
        None,
        1,
    );
    assert_eq!(track, None);
}

#[test]
fn news_in_the_middle_of_a_title_is_ignored() {
    let track = Track::create(String::from("A"), String::from("xx FIP ACTUALITE yy"), None, 1);
    assert_eq!(track, None);
}

#[test]
fn slogan_with_other_title_is_kept() {
    let track = Track::create(
        String::from("La radio la plus éclectique du monde"),
        String::from("Le direct "),
        None,
        1,
    );
    assert!(track.is_some());
}

#[test]
fn created_track_keeps_its_fields() {
    let track = Track::create(String::from("A"), String::from("T"), None, 42).unwrap();
    assert_eq!(track.artist, "A");
    assert_eq!(track.title, "T");
    assert_eq!(track.album, None);
    assert_eq!(track.start_time, 42);
}

#[test]
fn only_the_last_year_is_removed() {
    assert_eq!(Track::fix_album(String::from("Best of 1999 2001")), "Best of 1999");
}

#[test]
fn plus_signed_number_is_not_a_year() {
    assert_eq!(Track::fix_album(String::from("Album +202")), "Album +202");
    assert_eq!(Track::fix_album(String::from("Album 0000")), "Album");
}

#[test]
fn trailing_space_keeps_album() {
    assert_eq!(Track::fix_album(String::from("Album 2020 ")), "Album 2020 ");
}

#[test]
fn year_without_space_is_kept() {
    assert_eq!(Track::fix_album(String::from("2020")), "2020");
}

#[test]
fn non_digit_suffix_is_kept() {
    assert_eq!(Track::fix_album(String::from("Album 20a0")), "Album 20a0");
    assert_eq!(Track::fix_album(String::from("Album -202")), "Album -202");
    assert_eq!(Track::fix_album(String::from("Album é20")), "Album é20");
}

#[test]
fn leading_space_year_leaves_empty_album() {
    assert_eq!(Track::fix_album(String::from(" 1984")), "");
}

#[test]
fn text_without_album_says_null() {
    let track = Track::create(String::from("A"), String::from("T"), None, -5).unwrap();
    assert_eq!(
        track.to_string(),
        "TrackInfo{title='T', artist='A', album='null', startTime=-5}"
    );
}

#[test]
fn text_of_extreme_start_times() {
    let low = Track::create(String::from("A"), String::from("T"), None, i64::MIN).unwrap();
    assert_eq!(
        low.to_string(),
        format!("TrackInfo{{title='T', artist='A', album='null', startTime={}}}", i64::MIN)
    );
    let zero = Track::create(String::from("A"), String::from("T"), None, 0).unwrap();
    assert!(zero.to_string().ends_with("startTime=0}"));
    let high = Track::create(String::from("A"), String::from("T"), None, i64::MAX).unwrap();
    assert!(high.to_string().ends_with(&format!("startTime={}}}", i64::MAX)));
}
