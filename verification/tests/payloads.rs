//! Payloads of the direct path and of the adapter, read through the parser.

use serde_json::Value;
use ultra_media_remote::parser::{parse_json_bytes, parse_json_text};
use ultra_media_remote::{
    compose_media_snapshot, parse_adapter_now_playing, parse_adapter_output, parse_json_c_string,
    parse_now_playing, read_adapter_now_playing, Capabilities, Double, Json, JsonNumber, NowPlaying,
    MAX_ADAPTER_OUTPUT_BYTES,
};

fn json(text: &str) -> Json {
    parse_json_text(text).expect("the text is JSON")
}

fn double(value: f64) -> Double {
    Double { bits: value.to_bits() }
}

/// The value as the JSON crate has it.
fn to_value(json: &Json) -> Value {
    match json {
        Json::Null => Value::Null,
        Json::Bool(b) => Value::from(*b),
        Json::Number(number) => match (number.integer, number.double) {
            (Some(integer), _) => Value::from(integer),
            (None, Some(double)) => Value::from(f64::from_bits(double.bits)),
            (None, None) => panic!("a number that reads as nothing"),
        },
        Json::Text(text) => Value::from(text.as_str()),
        Json::Array(items) => Value::from(items.iter().map(to_value).collect::<Vec<Value>>()),
        Json::Object(members) => Value::Object(
            members.iter().map(|(key, value)| (key.clone(), to_value(value))).collect(),
        ),
    }
}

fn serialized(now_playing: &NowPlaying) -> Value {
    to_value(&Json::Object(now_playing.members()))
}

#[test]
fn media_snapshot_composes_independent_sources() {
    let now_playing = parse_now_playing(&json(r#"{ "title": "Track" }"#));
    let capabilities = Capabilities {
        play_pause: true,
        previous: false,
        next: true,
        like: false,
        dislike: false,
    };
    let snapshot =
        compose_media_snapshot(now_playing.clone(), capabilities, Some(double(0.75)));
    assert_eq!(snapshot.now_playing, now_playing);
    assert_eq!(snapshot.capabilities, capabilities);
    assert_eq!(snapshot.output_volume, Some(double(0.75)));

    let written = to_value(&Json::Object(snapshot.members()));
    assert_eq!(written["now_playing"]["title"], "Track");
    assert_eq!(written["capabilities"]["next"], true);
    assert_eq!(written["output_volume"], 0.75);

    let silent = compose_media_snapshot(None, capabilities, None);
    let written = to_value(&Json::Object(silent.members()));
    assert_eq!(written["now_playing"], Value::Null);
    assert_eq!(written["output_volume"], Value::Null);
}

#[test]
fn now_playing_parses_full_payload() {
    let np = parse_now_playing(&json(
        r#"{
            "title": "Song",
            "artist": "Artist",
            "album": "Album",
            "app_name": "Music",
            "bundle_id": "com.apple.Music",
            "unique_identifier": "dQw4w9WgXcQ",
            "content_item_identifier": "https://www.youtube.com/watch?v=dQw4w9WgXcQ",
            "media_type": 2,
            "pid": 1234,
            "elapsed_seconds": 42.5,
            "duration_seconds": 200.0,
            "is_playing": true
        }"#,
    ))
    .expect("full payload parses");
    assert_eq!(np.title.as_deref(), Some("Song"));
    assert_eq!(np.artist.as_deref(), Some("Artist"));
    assert_eq!(np.album.as_deref(), Some("Album"));
    assert_eq!(np.app_name.as_deref(), Some("Music"));
    assert_eq!(np.bundle_id.as_deref(), Some("com.apple.Music"));
    assert_eq!(np.unique_identifier.as_deref(), Some("dQw4w9WgXcQ"));
    assert_eq!(
        np.content_item_identifier.as_deref(),
        Some("https://www.youtube.com/watch?v=dQw4w9WgXcQ")
    );
    assert_eq!(np.media_type, Some(2));
    assert_eq!(np.pid, Some(1234));
    assert_eq!(np.elapsed_seconds, Some(double(42.5)));
    assert_eq!(np.duration_seconds, Some(double(200.0)));
    assert_eq!(np.is_playing, Some(true));

    // Serialization keeps snake_case field names.
    let serialized = serialized(&np);
    assert_eq!(serialized["app_name"], "Music");
    assert_eq!(serialized["is_playing"], true);
}

#[test]
fn now_playing_field_mapping_drops_invalid_values() {
    let np = parse_now_playing(&json(
        r#"{
            "title": "Only Title",
            "pid": 0,
            "elapsed_seconds": -1.0,
            "duration_seconds": "not-a-number",
            "is_playing": null
        }"#,
    ))
    .expect("payload with partial data parses");
    assert_eq!(np.title.as_deref(), Some("Only Title"));
    assert_eq!(np.pid, None, "non-positive PIDs are dropped");
    assert_eq!(np.elapsed_seconds, None, "negative times are dropped");
    assert_eq!(np.duration_seconds, None);
    assert_eq!(np.is_playing, None);
}

#[test]
fn now_playing_rejects_non_objects() {
    assert!(parse_now_playing(&json(r#""nope""#)).is_none());
    assert!(parse_now_playing(&json("42")).is_none());
    assert!(parse_now_playing(&json("null")).is_none());
    assert!(parse_now_playing(&json("[{}]")).is_none());
    assert!(parse_now_playing(&json("true")).is_none());
}

#[test]
fn now_playing_serialization_omits_missing_optional_times() {
    let np = parse_now_playing(&json(r#"{ "title": "X", "is_playing": false }"#)).unwrap();
    let serialized = serde_json::to_string(&serialized(&np)).unwrap();
    assert!(serialized.contains("\"title\":\"X\""));
    assert!(!serialized.contains("elapsed_seconds"));
    assert!(!serialized.contains("duration_seconds"));
    assert!(serialized.contains("\"is_playing\":false"));
}

#[test]
fn members_are_written_in_the_order_of_the_fields() {
    let np = parse_now_playing(&json(r#"{ "duration_seconds": 3, "pid": 7 }"#)).unwrap();
    let members = np.members();
    let keys: Vec<&str> = members.iter().map(|(key, _)| key.as_str()).collect();
    assert_eq!(
        keys,
        vec![
            "title",
            "artist",
            "album",
            "app_name",
            "bundle_id",
            "unique_identifier",
            "content_item_identifier",
            "media_type",
            "pid",
            "duration_seconds",
            "is_playing",
            "artwork_data_url",
            "is_liked",
            "is_disliked",
            "supports_like",
            "supports_dislike",
        ]
    );
    assert_eq!(members[0].1, Json::Null);
    assert_eq!(
        members[8].1,
        Json::Number(JsonNumber { integer: Some(7), double: None })
    );
    assert_eq!(
        members[9].1,
        Json::Number(JsonNumber { integer: None, double: Some(double(3.0)) })
    );
}

#[test]
fn snapshots_are_read_as_written() {
    let np = parse_adapter_now_playing(&json(
        r#"{
            "title": "T", "artist": "A", "album": "B", "applicationName": "C",
            "bundleIdentifier": "D", "uniqueIdentifier": "E", "contentItemIdentifier": "F",
            "mediaType": -3, "processIdentifier": 99, "elapsedTime": 0.1, "duration": 1e300,
            "playing": false, "isLiked": true, "isBanned": false, "supportsIsLiked": true,
            "artworkData": "QUJD", "artworkMimeType": "image/png"
        }"#,
    ))
    .unwrap();
    assert!(np.artwork_data_url.is_some());
    let read = parse_now_playing(&Json::Object(np.members())).unwrap();
    assert_eq!(read.artwork_data_url, None);
    assert_eq!(NowPlaying { artwork_data_url: None, ..np }, read);
}

#[test]
fn pids_are_positive_and_fit_32_bits() {
    let pid = |text: &str| {
        parse_now_playing(&json(&format!("{{\"pid\": {text}}}"))).unwrap().pid
    };
    assert_eq!(pid("1"), Some(1));
    assert_eq!(pid("2147483647"), Some(i32::MAX));
    assert_eq!(pid("2147483648"), None);
    assert_eq!(pid("-1"), None);
    assert_eq!(pid("1.0"), None);
    assert_eq!(pid("\"1\""), None);
}

#[test]
fn the_last_of_several_members_counts() {
    let text = r#"{ "title": "first", "title": "second" }"#;
    let np = parse_now_playing(&json(text)).unwrap();
    assert_eq!(np.title.as_deref(), Some("second"));

    let by_hand = Json::Object(vec![
        ("title".to_string(), Json::Text("first".to_string())),
        ("title".to_string(), Json::Text("second".to_string())),
    ]);
    assert_eq!(
        parse_now_playing(&by_hand).unwrap().title.as_deref(),
        Some("second")
    );
}

#[test]
fn documents_are_converted_as_they_are() {
    let text = r#"{ "b": [1, -2, 0.5, 18446744073709551615, true, null, "x\n\u00e9"], "a": {} }"#;
    let integer = |n: i64| {
        Json::Number(JsonNumber { integer: Some(n), double: Some(double(n as f64)) })
    };
    let expected = Json::Object(vec![
        ("a".to_string(), Json::Object(vec![])),
        (
            "b".to_string(),
            Json::Array(vec![
                integer(1),
                integer(-2),
                Json::Number(JsonNumber { integer: None, double: Some(double(0.5)) }),
                Json::Number(JsonNumber {
                    integer: None,
                    double: Some(double(18446744073709551615.0)),
                }),
                Json::Bool(true),
                Json::Null,
                Json::Text("x\n\u{e9}".to_string()),
            ]),
        ),
    ]);
    let parsed = json(text);
    assert_eq!(to_value(&parsed)["b"][6], "x\n\u{e9}");
    match (parsed, parse_json_bytes(text.as_bytes()), expected) {
        (Json::Object(mut from_text), Some(Json::Object(mut from_bytes)), Json::Object(members)) => {
            from_text.sort_by(|a, b| a.0.cmp(&b.0));
            from_bytes.sort_by(|a, b| a.0.cmp(&b.0));
            assert_eq!(from_text, members);
            assert_eq!(from_bytes, members);
        }
        _ => panic!("not an object"),
    }
    assert_eq!(parse_json_text("{"), None);
    assert_eq!(parse_json_text("1 2"), None);
    assert_eq!(parse_json_text("NaN"), None);
    assert_eq!(parse_json_bytes(b"\"\xff\""), None);
}

#[test]
fn native_strings_are_parsed() {
    let title = |bytes: &[u8]| {
        parse_json_c_string(Some(bytes)).and_then(|now_playing| now_playing.title)
    };
    assert_eq!(title("{\"title\":\"\u{e9}\"}".as_bytes()).as_deref(), Some("\u{e9}"));
    assert!(parse_json_c_string(None).is_none());
    assert!(parse_json_c_string(Some(b"{\"title\":\"\xff\"}")).is_none());
    assert!(parse_json_c_string(Some(b"not json")).is_none());
    assert!(parse_json_c_string(Some(b"[]")).is_none());
    assert_eq!(parse_json_c_string(Some(b"{}")).unwrap().title, None);
}

#[test]
fn adapter_payload_parses_realistic_sample() {
    let np = parse_adapter_now_playing(&json(
        r#"{
            "title": "Bohemian Rhapsody",
            "artworkData": "QUJD",
            "artworkMimeType": "image/jpeg",
            "artist": "Queen",
            "album": "A Night At The Opera",
            "applicationName": "Music",
            "bundleIdentifier": "com.apple.Music",
            "uniqueIdentifier": "dQw4w9WgXcQ",
            "contentItemIdentifier": "https://youtu.be/dQw4w9WgXcQ",
            "mediaType": 2,
            "processIdentifier": 412,
            "elapsedTimeNow": 83.2,
            "duration": 354.32,
            "playing": true,
            "playbackRate": 1.0
        }"#,
    ))
    .expect("realistic adapter payload parses");
    assert_eq!(np.title.as_deref(), Some("Bohemian Rhapsody"));
    assert_eq!(np.artist.as_deref(), Some("Queen"));
    assert_eq!(np.album.as_deref(), Some("A Night At The Opera"));
    assert_eq!(np.app_name.as_deref(), Some("Music"));
    assert_eq!(np.bundle_id.as_deref(), Some("com.apple.Music"));
    assert_eq!(np.unique_identifier.as_deref(), Some("dQw4w9WgXcQ"));
    assert_eq!(
        np.content_item_identifier.as_deref(),
        Some("https://youtu.be/dQw4w9WgXcQ")
    );
    assert_eq!(np.media_type, Some(2));
    assert_eq!(np.pid, Some(412));
    assert_eq!(np.elapsed_seconds, Some(double(83.2)));
    assert_eq!(np.duration_seconds, Some(double(354.32)));
    assert_eq!(np.is_playing, Some(true));

    assert_eq!(
        np.artwork_data_url.as_deref(),
        Some("data:image/jpeg;base64,QUJD"),
    );
}

#[test]
fn adapter_playing_state_falls_back_to_playback_rate() {
    let np = parse_adapter_now_playing(&json(
        r#"{ "title": "Paused Track", "playbackRate": 0.0 }"#,
    ))
    .expect("rate-only payload parses");
    assert_eq!(np.is_playing, Some(false));
    assert_eq!(np.elapsed_seconds, None, "no elapsedTime keys present");
}

#[test]
fn adapter_payload_rejects_empty_metadata_and_bad_values() {
    // No metadata keys at all: an empty session must not shadow the
    // direct MediaRemote fallback.
    assert!(parse_adapter_now_playing(&json(r#"{ "playing": false }"#)).is_none());
    assert!(parse_adapter_now_playing(&json("{}")).is_none());

    // Whitespace-only strings are dropped; invalid PID/time values too.
    let np = parse_adapter_now_playing(&json(
        r#"{
            "title": "  ",
            "artist": "Artist",
            "album": "",
            "processIdentifier": -5,
            "elapsedTime": -1.0
        }"#,
    ))
    .expect("artist-only payload parses");
    assert_eq!(np.title, None);
    assert_eq!(np.album, None);
    assert_eq!(np.artist.as_deref(), Some("Artist"));
    assert_eq!(np.pid, None);
    assert_eq!(np.elapsed_seconds, None);
}

#[test]
fn adapter_artwork_is_bounded_and_mime_checked() {
    let base = json(r#"{ "title": "T" }"#);

    // Non-image MIME types are rejected.
    let np = parse_adapter_now_playing(&json(
        r#"{ "title": "T", "artworkData": "QUJD", "artworkMimeType": "text/plain" }"#,
    ))
    .unwrap();
    assert_eq!(np.artwork_data_url, None);

    // Artwork over the 1 MiB base64 cap is dropped, payload still parses.
    let oversized = "A".repeat(1024 * 1024 + 1);
    let np = parse_adapter_now_playing(&json(&format!(
        r#"{{ "title": "T", "artworkData": "{oversized}", "artworkMimeType": "image/png" }}"#
    )))
    .unwrap();
    assert_eq!(np.artwork_data_url, None);

    // Artwork of exactly that size is kept.
    let largest = "A".repeat(1024 * 1024);
    let np = parse_adapter_now_playing(&json(&format!(
        r#"{{ "title": "T", "artworkData": "{largest}", "artworkMimeType": "image/png" }}"#
    )))
    .unwrap();
    assert_eq!(
        np.artwork_data_url,
        Some(format!("data:image/png;base64,{largest}"))
    );

    // Missing artwork keys leave the field empty without error.
    let np = parse_adapter_now_playing(&base).unwrap();
    assert_eq!(np.artwork_data_url, None);
}

#[test]
fn adapter_texts_are_trimmed_and_identifiers_are_not() {
    let np = parse_adapter_now_playing(&json(
        "{ \"title\": \"\\u3000 T \\n\", \"uniqueIdentifier\": \" id \",
           \"contentItemIdentifier\": \" \\t\" }",
    ))
    .unwrap();
    assert_eq!(np.title.as_deref(), Some("T"));
    assert_eq!(np.unique_identifier.as_deref(), Some(" id "));
    assert_eq!(np.content_item_identifier, None);

    let np = parse_adapter_now_playing(&json(r#"{ "mediaType": 1, "title": "" }"#)).unwrap();
    assert_eq!(np.media_type, Some(1));
    assert_eq!(np.title, None);
}

#[test]
fn adapter_prefers_current_time_and_playing_flag() {
    let np = parse_adapter_now_playing(&json(
        r#"{ "title": "T", "elapsedTimeNow": -1, "elapsedTime": 2, "playing": false,
             "playbackRate": 1.5, "isBanned": true, "supportsIsBanned": true }"#,
    ))
    .unwrap();
    assert_eq!(np.elapsed_seconds, Some(double(2.0)));
    assert_eq!(np.is_playing, Some(false));
    assert_eq!(np.is_liked, None);
    assert_eq!(np.is_disliked, Some(true));
    assert!(!np.supports_like);
    assert!(np.supports_dislike);

    let np = parse_adapter_now_playing(&json(
        r#"{ "title": "T", "elapsedTimeNow": 3, "elapsedTime": 2, "playbackRate": 1e-300 }"#,
    ))
    .unwrap();
    assert_eq!(np.elapsed_seconds, Some(double(3.0)));
    assert_eq!(np.is_playing, Some(true));
}

#[test]
fn adapter_output_is_bounded() {
    let output = br#"{ "title": "T" }"#;
    let title = |output: &[u8], succeeded: bool| {
        parse_adapter_output(output, succeeded).and_then(|now_playing| now_playing.title)
    };
    assert_eq!(title(output, true).as_deref(), Some("T"));
    assert_eq!(title(output, false), None);
    assert_eq!(title(b"{", true), None);
    assert_eq!(title(b"", true), None);

    let mut padded = output.to_vec();
    padded.resize(MAX_ADAPTER_OUTPUT_BYTES, b' ');
    assert_eq!(title(&padded, true).as_deref(), Some("T"));
    padded.push(b' ');
    assert_eq!(title(&padded, true), None);
    assert_eq!(MAX_ADAPTER_OUTPUT_BYTES, 1_572_864);
}

#[test]
fn the_adapter_is_stopped_or_waited_for() {
    let output = br#"{ "title": "T" }"#.to_vec();

    let mut asked = (vec![], 0);
    let read = read_adapter_now_playing(
        |arguments, limit| {
            asked = (arguments, limit);
            Some(Some(output.clone()))
        },
        || panic!("waited for"),
        || Some(true),
    );
    assert_eq!(read.unwrap().title.as_deref(), Some("T"));
    assert_eq!(asked, (vec!["get".to_string(), "--now".to_string()], 1_572_865));

    for ended in [None, Some(false)] {
        let read = read_adapter_now_playing(
            |_, _| Some(Some(output.clone())),
            || panic!("waited for"),
            || ended,
        );
        assert_eq!(read, None);
    }

    let mut oversized = output.clone();
    oversized.resize(MAX_ADAPTER_OUTPUT_BYTES + 1, b' ');
    for unusable in [None, Some(oversized)] {
        let mut stopped = false;
        let read = read_adapter_now_playing(
            |_, _| Some(unusable),
            || stopped = true,
            || panic!("stopped"),
        );
        assert_eq!(read, None);
        assert!(stopped);
    }

    let read =
        read_adapter_now_playing(|_, _| None, || panic!("not started"), || panic!("not started"));
    assert_eq!(read, None);
}
