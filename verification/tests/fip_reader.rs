use twifip::devalue::{devalue_resolve, resolve_payload};
use twifip::error::TwifipError;
use twifip::fip_reader::{
    result_payload, track_from_fip, track_from_payload, track_from_response, Fip, Now, Release, Song,
};
use twifip::json::Json;

fn to_json(v: &serde_json::Value) -> Json {
    match v {
        serde_json::Value::Null => Json::Null,
        serde_json::Value::Bool(b) => Json::Bool(*b),
        serde_json::Value::Number(n) => {
            if let Some(u) = n.as_u64() {
                Json::PosInt(u)
            } else if let Some(i) = n.as_i64() {
                Json::NegInt(i)
            } else {
                Json::Float(n.to_string())
            }
        }
        serde_json::Value::String(s) => Json::Str(s.clone()),
        serde_json::Value::Array(items) => Json::Array(items.iter().map(to_json).collect()),
        serde_json::Value::Object(map) => {
            Json::Object(map.iter().map(|(k, v)| (k.clone(), to_json(v))).collect())
        }
    }
}

fn payload(text: &str) -> Vec<Json> {
    let arr: Vec<serde_json::Value> = serde_json::from_str(text).unwrap();
    arr.iter().map(to_json).collect()
}

fn text_of<'a>(doc: &'a Json, key: &str) -> &'a str {
    doc.get(key).unwrap().as_str().unwrap().as_str()
}

#[test]
fn test_fip_json_deserialization() {
    // Index 0: root {now->1, next->6, delayToRefresh->7}
    // Index 1: now {startTime->2, firstLine->3, secondLine->4, song->5}
    let result_array = r#"[
        {"now": 1, "next": 6, "delayToRefresh": 7},
        {"startTime": 2, "firstLine": 3, "secondLine": 4, "song": 5},
        1740168451,
        "Some Title",
        "Some Artist",
        null,
        [],
        20000
    ]"#;

    let arr = payload(result_array);
    let resolved = devalue_resolve(&arr, 0);
    let fip = Fip::from_json(&resolved).unwrap();

    assert_eq!(fip.now.first_line, "Some Title");
    assert_eq!(fip.now.second_line, "Some Artist");
    assert!(fip.now.song.is_none());
    assert_eq!(fip.now.start_time, 1740168451);
}

#[test]
fn test_fip_json_deserialization_with_song() {
    let result_array = r#"[
        {"now": 1, "next": 8, "delayToRefresh": 9},
        {"startTime": 2, "firstLine": 3, "secondLine": 4, "song": 5},
        1740168451,
        "Some Title",
        "Some Artist",
        {"release": 6},
        {"title": 7},
        "Some Album",
        [],
        20000
    ]"#;

    let arr = payload(result_array);
    let resolved = devalue_resolve(&arr, 0);
    let fip = Fip::from_json(&resolved).unwrap();

    assert_eq!(fip.now.first_line, "Some Title");
    assert_eq!(fip.now.second_line, "Some Artist");
    assert_eq!(
        fip.now.song.unwrap().release.unwrap().title.unwrap(),
        "Some Album"
    );
    assert_eq!(fip.now.start_time, 1740168451);
}

#[test]
fn resolved_document_keeps_the_members() {
    let arr = payload(r#"[{"now": 1}, {"firstLine": 2, "song": 3}, "T", {"release": 4}, {"title": 2}]"#);
    let resolved = devalue_resolve(&arr, 0);
    let now = resolved.get("now").unwrap();
    assert_eq!(text_of(now, "firstLine"), "T");
    let release = now.get("song").unwrap().get("release").unwrap();
    assert_eq!(text_of(release, "title"), "T");
    assert_eq!(now.get("secondLine"), None);
}

fn doc(text: &str) -> Json {
    to_json(&serde_json::from_str(text).unwrap())
}

fn shape_error(text: &str) -> bool {
    match Fip::from_json(&doc(text)) {
        Err(TwifipError::JsonError(m)) => m == "unexpected shape of the FIP live feed",
        _ => false,
    }
}

#[test]
fn feed_with_optional_members_left_out() {
    let fip = Fip::from_json(&doc(
        r#"{"now": {"firstLine": "T", "secondLine": "A", "startTime": -3, "extra": [1]}, "next": 0}"#,
    ))
    .unwrap();
    assert_eq!(fip.now.first_line, "T");
    assert_eq!(fip.now.second_line, "A");
    assert!(fip.now.song.is_none());
    assert_eq!(fip.now.start_time, -3);
    let with_song = Fip::from_json(&doc(
        r#"{"now": {"firstLine": "T", "secondLine": "A", "startTime": 1, "song": {"release": null}}}"#,
    ))
    .unwrap();
    assert!(with_song.now.song.unwrap().release.is_none());
}

#[test]
fn feed_records_may_be_arrays() {
    let fip = Fip::from_json(&doc(r#"[["T", "A", [[null]], 9]]"#)).unwrap();
    assert_eq!(fip.now.first_line, "T");
    assert_eq!(fip.now.second_line, "A");
    assert!(fip.now.song.unwrap().release.unwrap().title.is_none());
    assert_eq!(fip.now.start_time, 9);
    assert!(shape_error(r#"[["T", "A", null]]"#));
    assert!(shape_error(r#"[["T", "A", null, 1, 2]]"#));
}

#[test]
fn feed_of_the_wrong_shape_is_a_json_error() {
    assert!(shape_error(r#"{}"#));
    assert!(shape_error(r#"{"now": null}"#));
    assert!(shape_error(r#"{"now": {"firstLine": "T", "startTime": 1}}"#));
    assert!(shape_error(r#"{"now": {"firstLine": 1, "secondLine": "A", "startTime": 1}}"#));
    assert!(shape_error(r#"{"now": {"firstLine": "T", "secondLine": "A", "startTime": 1.5}}"#));
    assert!(shape_error(
        r#"{"now": {"firstLine": "T", "secondLine": "A", "startTime": 9223372036854775808}}"#
    ));
    assert!(shape_error(r#"{"now": {"firstLine": "T", "secondLine": "A", "startTime": 1, "song": 3}}"#));
    assert!(shape_error(r#""now""#));
}

#[test]
fn feed_start_time_at_the_limit() {
    let fip = Fip::from_json(&doc(
        r#"{"now": {"firstLine": "T", "secondLine": "A", "startTime": 9223372036854775807}}"#,
    ))
    .unwrap();
    assert_eq!(fip.now.start_time, i64::MAX);
}

#[test]
fn feed_field_given_twice_is_an_error() {
    let now = Json::Object(vec![
        (String::from("firstLine"), Json::Str(String::from("T"))),
        (String::from("secondLine"), Json::Str(String::from("A"))),
        (String::from("startTime"), Json::PosInt(1)),
        (String::from("firstLine"), Json::Str(String::from("U"))),
    ]);
    let feed = Json::Object(vec![(String::from("now"), now)]);
    assert!(matches!(Fip::from_json(&feed), Err(TwifipError::JsonError(_))));
}

#[test]
fn resolution_follows_references_in_arrays() {
    let arr = payload(r#"[[1, 2, -3, 1.5, "x"], "a", {"k": 1}]"#);
    let resolved = resolve_payload(&arr).unwrap();
    assert_eq!(
        resolved,
        Json::Array(vec![
            Json::Str(String::from("a")),
            Json::Object(vec![(String::from("k"), Json::Str(String::from("a")))]),
            Json::NegInt(-3),
            Json::Float(String::from("1.5")),
            Json::Str(String::from("x")),
        ])
    );
}

#[test]
fn primitive_root_is_itself() {
    let arr = payload(r#"[5, 0]"#);
    assert_eq!(resolve_payload(&arr), Some(Json::PosInt(5)));
}

#[test]
fn cyclic_payload_has_no_resolution() {
    assert_eq!(resolve_payload(&payload(r#"[{"a": 0}]"#)), None);
    assert_eq!(resolve_payload(&payload(r#"[[1], [0]]"#)), None);
}

#[test]
fn dangling_reference_has_no_resolution() {
    assert_eq!(resolve_payload(&payload(r#"[{"a": 3}, 1]"#)), None);
}

#[test]
fn empty_payload_has_no_resolution() {
    assert_eq!(resolve_payload(&Vec::new()), None);
}

#[test]
fn shared_slots_are_resolved_each_time() {
    let arr = payload(r#"[[1, 1], {"v": 2}, "s"]"#);
    let inner = Json::Object(vec![(String::from("v"), Json::Str(String::from("s")))]);
    assert_eq!(resolve_payload(&arr), Some(Json::Array(vec![inner.copy(), inner])));
}

#[test]
fn result_member_is_the_payload() {
    let outer = to_json(&serde_json::from_str(r#"{"type": "result", "result": "[1]"}"#).unwrap());
    assert_eq!(result_payload(&outer).unwrap(), "[1]");
}

#[test]
fn missing_result_member_is_an_api_error() {
    let outer = to_json(&serde_json::from_str(r#"{"type": "error"}"#).unwrap());
    match result_payload(&outer) {
        Err(TwifipError::FipApiError(m)) => assert_eq!(m, "Missing 'result' field in FIP response"),
        other => panic!("unexpected {:?}", other),
    }
    let not_text = to_json(&serde_json::from_str(r#"{"result": 3}"#).unwrap());
    assert!(matches!(result_payload(&not_text), Err(TwifipError::FipApiError(_))));
    let not_object = to_json(&serde_json::from_str(r#"["result"]"#).unwrap());
    assert!(matches!(result_payload(&not_object), Err(TwifipError::FipApiError(_))));
}

fn fip(first: &str, second: &str, album: Option<&str>, start: i64) -> Fip {
    Fip {
        now: Now {
            first_line: String::from(first),
            second_line: String::from(second),
            song: Some(Song { release: Some(Release { title: album.map(String::from) }) }),
            start_time: start,
        },
    }
}

#[test]
fn feed_gives_its_track() {
    let track = track_from_fip(fip("Title", "Artist", Some("Album 1999"), 7)).unwrap();
    assert_eq!(track.title, "Title");
    assert_eq!(track.artist, "Artist");
    assert_eq!(track.album, Some(String::from("Album")));
    assert_eq!(track.start_time, 7);
}

#[test]
fn feed_without_song_gives_no_album() {
    let f = Fip {
        now: Now {
            first_line: String::from("T"),
            second_line: String::from("A"),
            song: Some(Song { release: None }),
            start_time: 1,
        },
    };
    assert_eq!(track_from_fip(f).unwrap().album, None);
}

#[test]
fn feed_announcement_is_a_filter_error() {
    match track_from_fip(fip("FIP ACTUALITE", "FIP", None, 1)) {
        Err(TwifipError::TrackFilterError(m)) => assert_eq!(m, "FIP response was not a music track"),
        other => panic!("unexpected {:?}", other),
    }
}

#[test]
fn reference_chain_as_long_as_the_payload_resolves() {
    let arr = payload(r#"[[1], [2], [3], "end"]"#);
    let end = Json::Str(String::from("end"));
    let expected = Json::Array(vec![Json::Array(vec![Json::Array(vec![end])])]);
    assert_eq!(resolve_payload(&arr), Some(expected));
}

fn response(payload: &str) -> String {
    let outer = serde_json::Value::Object(
        [(String::from("type"), serde_json::Value::from("result")), (String::from("result"), serde_json::Value::from(payload))]
            .into_iter()
            .collect(),
    );
    outer.to_string()
}

const WITH_SONG: &str = r#"[{"now": 1, "next": 8, "delayToRefresh": 9},
    {"startTime": 2, "firstLine": 3, "secondLine": 4, "song": 5},
    1740168451, "Some Title", "Some Artist", {"release": 6}, {"title": 7}, "Some Album 2024", [], 20000]"#;

#[test]
fn response_gives_the_track_on_air() {
    let track = track_from_response(&response(WITH_SONG)).unwrap();
    assert_eq!(track.title, "Some Title");
    assert_eq!(track.artist, "Some Artist");
    assert_eq!(track.album, Some(String::from("Some Album")));
    assert_eq!(track.start_time, 1740168451);
}

#[test]
fn response_that_is_not_json_is_a_json_error() {
    let expected = serde_json::from_str::<serde_json::Value>("not json").unwrap_err().to_string();
    match track_from_response("not json") {
        Err(TwifipError::JsonError(m)) => assert_eq!(m, expected),
        other => panic!("unexpected {:?}", other),
    }
}

#[test]
fn response_without_result_is_an_api_error() {
    match track_from_response(r#"{"type": "error"}"#) {
        Err(TwifipError::FipApiError(m)) => assert_eq!(m, "Missing 'result' field in FIP response"),
        other => panic!("unexpected {:?}", other),
    }
}

#[test]
fn payload_that_is_not_an_array_is_a_json_error() {
    let expected = serde_json::from_str::<Vec<serde_json::Value>>(r#"{"now": 1}"#)
        .unwrap_err()
        .to_string();
    match track_from_response(&response(r#"{"now": 1}"#)) {
        Err(TwifipError::JsonError(m)) => assert_eq!(m, expected),
        other => panic!("unexpected {:?}", other),
    }
}

#[test]
fn unresolvable_payload_is_a_json_error() {
    match track_from_response(&response(r#"[{"now": 0}]"#)) {
        Err(TwifipError::JsonError(m)) => assert_eq!(m, "FIP payload references cannot be resolved"),
        other => panic!("unexpected {:?}", other),
    }
    assert!(matches!(track_from_payload(&Vec::new()), Err(TwifipError::JsonError(_))));
}

#[test]
fn payload_of_the_wrong_shape_is_a_json_error() {
    match track_from_response(&response(r#"[{"later": 1}, 2]"#)) {
        Err(TwifipError::JsonError(m)) => assert_eq!(m, "unexpected shape of the FIP live feed"),
        other => panic!("unexpected {:?}", other),
    }
}

#[test]
fn announcement_on_air_is_a_filter_error() {
    let payload = r#"[{"now": 1}, {"startTime": 2, "firstLine": 3, "secondLine": 4}, 5, "FIP ACTUALITE", "FIP"]"#;
    assert!(matches!(track_from_response(&response(payload)), Err(TwifipError::TrackFilterError(_))));
}

#[test]
fn feed_forms_can_be_mixed() {
    let fip = Fip::from_json(&doc(
        r#"{"now": ["T", "A", {"release": ["Live 1999"], "other": 1}, 0], "unknown": {"x": 1}}"#,
    ))
    .unwrap();
    assert_eq!(fip.now.first_line, "T");
    assert_eq!(fip.now.song.unwrap().release.unwrap().title.unwrap(), "Live 1999");
    assert!(shape_error(r#"{"now": ["T", "A", {"release": []}, 0]}"#));
    assert!(shape_error(r#"{"now": ["T", "A", null, -1.0]}"#));
    assert!(shape_error(r#"[]"#));
}
