use yandex_music_likes_to_evernote::json::{
    number_or_string_to_string, optional_u128_from_number_or_string, FieldError, JsonNumber,
    JsonValue,
};
use yandex_music_likes_to_evernote::timestamp::Timestamp;
use yandex_music_likes_to_evernote::yandex::library::{
    account_user_id, api_result, liked_tracks, track_details_form, track_id_chunks,
    track_ids_field, LibraryTrack, YandexApiError, YandexApiResponse, YandexError,
};
use yandex_music_likes_to_evernote::yandex::order::sort_by_liked_at;
use yandex_music_likes_to_evernote::yandex::{
    album_title, artist_name, normalize_cover_url, to_liked_track, LikedTrack, RawAlbum,
    RawArtist, RawTrack,
};

fn scalar(value: &serde_json::Value) -> JsonValue {
    match value {
        serde_json::Value::Null => JsonValue::Null,
        serde_json::Value::Number(number) => JsonValue::Number(JsonNumber {
            as_i64: number.as_i64(),
            as_u64: number.as_u64(),
            notation: number.to_string(),
        }),
        serde_json::Value::String(text) => JsonValue::Text(text.clone()),
        other => JsonValue::Other(other.to_string()),
    }
}

fn text(value: &serde_json::Value) -> Option<String> {
    value.as_str().map(|text| text.to_string())
}

fn items(value: &serde_json::Value) -> Vec<serde_json::Value> {
    value.as_array().cloned().unwrap_or_default()
}

fn raw_track(json: &str) -> Result<RawTrack, FieldError> {
    let value: serde_json::Value = serde_json::from_str(json).expect("valid JSON");
    Ok(RawTrack {
        id: number_or_string_to_string(scalar(&value["id"]))?,
        title: text(&value["title"]),
        artists: items(&value["artists"])
            .iter()
            .map(|artist| RawArtist { name: text(&artist["name"]) })
            .collect(),
        albums: items(&value["albums"])
            .iter()
            .map(|album| RawAlbum { title: text(&album["title"]) })
            .collect(),
        cover_uri: text(&value["coverUri"]),
        og_image: text(&value["ogImage"]),
        duration_ms: optional_u128_from_number_or_string(value.get("durationMs").map(scalar))?,
    })
}

fn june_20() -> Timestamp {
    let date = chrono::DateTime::parse_from_rfc3339("2026-06-20T00:00:00Z").expect("valid date");
    Timestamp::new(date.timestamp(), 0).expect("valid time")
}

#[test]
fn normalizes_cover_uri() {
    assert_eq!(
        normalize_cover_url("avatars.yandex.net/get-music-content/1/abc%%".to_string()),
        "https://avatars.yandex.net/get-music-content/1/abc400x400"
    );
}

#[test]
fn decodes_track_details_with_unexpected_metadata_values() {
    let track = raw_track(
        r#"{
            "id": 123,
            "title": "Track Title",
            "artists": [{"name": "Artist"}],
            "albums": [{"title": "Album"}],
            "coverUri": "avatars.yandex.net/get-music-content/1/abc%%",
            "durationMs": 123000,
            "metaData": {
                "volume": 2019
            }
        }"#,
    )
    .expect("track should decode despite irrelevant bad metadata");

    let track = to_liked_track(track, june_20());

    assert_eq!(track.id, "123");
    assert_eq!(track.title, "Track Title");
    assert_eq!(track.artists, vec!["Artist"]);
    assert_eq!(track.albums, vec!["Album"]);
    assert_eq!(track.duration_ms, Some(123000));
}

#[test]
fn decodes_string_ids_and_duration_values() {
    let track = raw_track(
        r#"{
            "id": "track-id",
            "title": null,
            "artists": [{"name": "  "}, {"name": "Artist"}],
            "albums": [{"title": ""}, {"title": "Album"}],
            "ogImage": "https://example.test/cover.jpg",
            "durationMs": "45000"
        }"#,
    )
    .expect("track should decode");

    let track = to_liked_track(track, june_20());

    assert_eq!(track.id, "track-id");
    assert_eq!(track.title, "Track track-id");
    assert_eq!(track.artists, vec!["Artist"]);
    assert_eq!(track.albums, vec!["Album"]);
    assert_eq!(track.cover_url.as_deref(), Some("https://example.test/cover.jpg"));
    assert_eq!(track.duration_ms, Some(45_000));
}

#[test]
fn rejects_invalid_track_id_type() {
    let error = raw_track(
        r#"{
            "id": {"unexpected": true}
        }"#,
    )
    .expect_err("invalid id should fail");

    assert!(error.message().contains("expected string or number"));
}

#[test]
fn cover_addresses_have_a_scheme_and_a_size() {
    let normalized = |uri: &str| normalize_cover_url(uri.to_string());
    assert_eq!(normalized("http://a/%%"), "http://a/400x400");
    assert_eq!(normalized("https://a/%%%b%%%%"), "https://a/400x400%b400x400400x400");
    assert_eq!(normalized("%%"), "https://400x400");
    assert_eq!(normalized(""), "https://");
    assert_eq!(normalized("HTTP://a"), "https://HTTP://a");
    for uri in ["", "%", "a%%b%", "%%%%%", "ж%%"] {
        let replaced = uri.replace("%%", "400x400");
        assert_eq!(normalized(uri), format!("https://{replaced}"));
        assert!(!normalized(uri).contains("%%"));
    }
}

#[test]
fn names_are_trimmed() {
    assert_eq!(artist_name(&RawArtist { name: Some(" A ".to_string()) }), Some("A".to_string()));
    assert_eq!(artist_name(&RawArtist { name: None }), None);
    assert_eq!(album_title(&RawAlbum { title: Some("\t".to_string()) }), None);
}

fn raw(id: &str) -> RawTrack {
    RawTrack {
        id: id.to_string(),
        title: Some(format!(" {id} ")),
        artists: Vec::new(),
        albums: Vec::new(),
        cover_uri: Some("cover/%%".to_string()),
        og_image: Some("image".to_string()),
        duration_ms: None,
    }
}

fn at(seconds: i64) -> Timestamp {
    Timestamp::new(seconds, 0).expect("valid time")
}

fn like(id: &str, seconds: i64) -> LibraryTrack {
    LibraryTrack { id: id.to_string(), liked_at: at(seconds) }
}

#[test]
fn details_become_tracks() {
    let track = to_liked_track(raw("7"), at(5));
    assert_eq!(
        track,
        LikedTrack {
            id: "7".to_string(),
            liked_at: at(5),
            title: " 7 ".to_string(),
            artists: Vec::new(),
            artist_links: Vec::new(),
            albums: Vec::new(),
            album_links: Vec::new(),
            duration_ms: None,
            cover_url: Some("https://cover/400x400".to_string()),
            yandex_url: "https://music.yandex.com/track/7".to_string(),
        }
    );
}

#[test]
fn details_are_asked_for_in_runs() {
    let library: Vec<LibraryTrack> = (0..250).map(|i| like(&i.to_string(), i)).collect();
    let chunks = track_id_chunks(&library);
    let lengths: Vec<usize> = chunks.iter().map(|chunk| chunk.len()).collect();
    assert_eq!(lengths, vec![100, 100, 50]);
    let ids: Vec<String> = (0..250).map(|i| i.to_string()).collect();
    assert_eq!(chunks.concat(), ids);
    assert!(track_id_chunks(&Vec::new()).is_empty());
    assert_eq!(track_id_chunks(&library[..100].to_vec()).len(), 1);
    let ids = vec!["1".to_string(), "2".to_string()];
    assert_eq!(track_ids_field(&ids), "1,2,");
    assert_eq!(
        track_details_form(&ids),
        vec![
            ("track-ids".to_string(), "1,2,".to_string()),
            ("with-positions".to_string(), "false".to_string()),
        ]
    );
}

#[test]
fn likes_are_in_order_of_time() {
    let library =
        vec![like("a", 3), like("b", 1), like("c", 2), like("d", 1), like("a", 4), like("e", 0)];
    let answers = vec![
        vec![Some(raw("a")), None, Some(raw("unknown")), Some(raw("d"))],
        vec![Some(raw("b")), Some(raw("c"))],
    ];
    let tracks = liked_tracks(&library, answers);
    let found: Vec<(&str, i64)> =
        tracks.iter().map(|track| (track.id.as_str(), track.liked_at.seconds())).collect();
    assert_eq!(found, vec![("d", 1), ("b", 1), ("c", 2), ("a", 4)]);
    assert!(liked_tracks(&Vec::new(), vec![vec![Some(raw("a"))]]).is_empty());
}

#[test]
fn sorting_is_stable() {
    let mut seed: u64 = 7;
    let mut tracks = Vec::new();
    for i in 0..500 {
        seed = seed.wrapping_mul(6364136223846793005).wrapping_add(1442695040888963407);
        let time = Timestamp::new((seed >> 60) as i64 - 8, ((seed >> 40) % 3) as u32)
            .expect("valid time");
        tracks.push(to_liked_track(raw(&i.to_string()), time));
    }
    let mut expected = tracks.clone();
    expected.sort_by_key(|track| (track.liked_at.seconds(), track.liked_at.nanos()));
    assert_eq!(sort_by_liked_at(tracks), expected);
}

#[test]
fn errors_of_the_service_are_reported() {
    let error = |message: Option<&str>| YandexApiResponse {
        result: Some(1u8),
        error: Some(YandexApiError {
            name: "validate".to_string(),
            message: message.map(|message| message.to_string()),
        }),
    };
    assert_eq!(
        api_result(error(Some("bad ids"))).expect_err("error").message(),
        "Yandex Music API error while fetching track details: validate: bad ids"
    );
    assert_eq!(
        api_result(error(None)).expect_err("error").message(),
        "Yandex Music API error while fetching track details: validate"
    );
    assert_eq!(
        api_result(YandexApiResponse::<u8> { result: None, error: None })
            .expect_err("nothing")
            .message(),
        "Yandex Music track details response did not include result"
    );
    assert_eq!(api_result(YandexApiResponse { result: Some(1u8), error: None }), Ok(1));
    assert_eq!(account_user_id(Some(5)), Ok(5));
    assert_eq!(account_user_id(None), Err(YandexError::NoUserId));
    assert_eq!(
        YandexError::NoUserId.message(),
        "Yandex Music account status did not include a user id"
    );
}
