use yandex_music_likes_to_evernote::enrichment::client::{
    EnrichmentClient, Reply, SonglinkReply, Step,
};
use yandex_music_likes_to_evernote::enrichment::links::{
    lastfm_links, musicbrainz_entity_search_links, related_music_service_links, wikimedia_links,
    youtube_links, ExternalLink,
};
use yandex_music_likes_to_evernote::enrichment::lookups::{
    acoustid_fingerprint, add_missing_musicbrainz_search_links, best_acoustid_recording,
    fingerprint_file_suffix, musicbrainz_links_from_acoustid_recording,
    musicbrainz_recording_matches, songlink_retry_delay, AcoustIdArtist, AcoustIdFingerprint,
    AcoustIdRecording, AcoustIdReleaseGroup, AcoustIdResponse, AcoustIdResult, FingerprintError,
    FpcalcOutput, FpcalcRun, GeniusHit, GeniusHitResult, GeniusResponse, GeniusSearchResponse,
    MusicBrainzRecording, MusicBrainzResponse, SonglinkResponse, SONGLINK_MAX_RETRY_AFTER_SECONDS,
};
use yandex_music_likes_to_evernote::enrichment::services::{
    external_link_service_enabled, external_link_service_names, parse_external_link_services,
    ExternalLinkService, ServiceSet,
};
use yandex_music_likes_to_evernote::enrichment::urls::{
    genius_search_url, human_query, lrclib_get_url, musicbrainz_query, path_search_url, query_url,
};
use yandex_music_likes_to_evernote::audio::TrackAudio;
use yandex_music_likes_to_evernote::json::{deserialize_i64_or_string, JsonNumber, JsonValue};
use yandex_music_likes_to_evernote::timestamp::Timestamp;
use yandex_music_likes_to_evernote::yandex::LikedTrack;

fn link(label: &str, url: &str) -> ExternalLink {
    ExternalLink::new(label, url.to_string())
}

fn sample_track() -> LikedTrack {
    LikedTrack {
        id: "123".to_string(),
        liked_at: Timestamp::new(1_704_164_645, 0).expect("2024-01-02T03:04:05Z"),
        title: "Song & Name".to_string(),
        artists: vec!["Artist Name".to_string()],
        artist_links: Vec::new(),
        albums: vec!["Album Name".to_string()],
        album_links: Vec::new(),
        duration_ms: Some(123_000),
        cover_url: None,
        yandex_url: "https://music.yandex.com/track/123".to_string(),
    }
}

fn no_enabled_services() -> ServiceSet {
    ServiceSet::new()
}

fn no_disabled_services() -> ServiceSet {
    ServiceSet::new()
}

/// The links, where no service needs to be asked.
fn done(step: Step) -> Vec<ExternalLink> {
    match step {
        Step::Done { links } => links,
        other => panic!("unexpected step: {other:?}"),
    }
}

fn scalar(value: &serde_json::Value) -> JsonValue {
    match value {
        serde_json::Value::Null => JsonValue::Null,
        serde_json::Value::Number(number) => JsonValue::Number(JsonNumber {
            as_i64: number.as_i64(),
            as_u64: number.as_u64(),
            notation: number.to_string(),
        }),
        serde_json::Value::String(text) => JsonValue::Text(text.clone()),
        other => JsonValue::Other(other.to_string()),
    }
}

fn musicbrainz_recording(json: &str) -> MusicBrainzRecording {
    let value: serde_json::Value = serde_json::from_str(json).expect("deserialize recording");
    MusicBrainzRecording {
        id: value["id"].as_str().expect("id").to_string(),
        score: deserialize_i64_or_string(&scalar(&value["score"])),
        length: value["length"].as_u64(),
    }
}

fn ids(value: &serde_json::Value) -> Vec<String> {
    match value.as_array() {
        Some(items) => items
            .iter()
            .map(|item| item["id"].as_str().expect("id").to_string())
            .collect(),
        None => Vec::new(),
    }
}

fn acoustid_response(json: &str) -> AcoustIdResponse {
    let value: serde_json::Value =
        serde_json::from_str(json).expect("deserialize AcoustID response");
    AcoustIdResponse {
        status: value["status"].as_str().expect("status").to_string(),
        results: value["results"]
            .as_array()
            .expect("results")
            .iter()
            .map(|result| AcoustIdResult {
                score_bits: result["score"].as_f64().expect("score").to_bits(),
                recordings: result["recordings"]
                    .as_array()
                    .expect("recordings")
                    .iter()
                    .map(|recording| AcoustIdRecording {
                        id: recording["id"].as_str().expect("id").to_string(),
                        artists: ids(&recording["artists"])
                            .into_iter()
                            .map(|id| AcoustIdArtist { id })
                            .collect(),
                        releasegroups: ids(&recording["releasegroups"])
                            .into_iter()
                            .map(|id| AcoustIdReleaseGroup { id })
                            .collect(),
                    })
                    .collect(),
            })
            .collect(),
        error: None,
    }
}

#[test]
fn builds_encoded_external_search_urls() {
    let track = sample_track();

    assert_eq!(
        genius_search_url(&track),
        "https://genius.com/search?q=Artist+Name+Song+%26+Name+Album+Name"
    );
    assert_eq!(
        lrclib_get_url(&track),
        "https://lrclib.net/api/get?track_name=Song+%26+Name&artist_name=Artist+Name&album_name=Album+Name&duration=123"
    );
    assert_eq!(
        musicbrainz_entity_search_links(&track),
        vec![
            link(
                "MusicBrainz artist search",
                "https://musicbrainz.org/search?query=Artist+Name&type=artist&method=indexed"
            ),
            link(
                "MusicBrainz album search",
                "https://musicbrainz.org/search?query=Artist+Name+Album+Name&type=release_group&method=indexed"
            ),
        ]
    );
}

#[test]
fn builds_related_music_service_search_links() {
    let track = sample_track();
    let enabled_services = no_enabled_services();
    let disabled_services = no_disabled_services();

    assert_eq!(
        youtube_links(&track, &enabled_services, &disabled_services),
        vec![
            link(
                "YouTube Music search",
                "https://music.youtube.com/search?q=Artist+Name+Song+%26+Name+Album+Name"
            ),
            link(
                "YouTube search",
                "https://www.youtube.com/results?search_query=Artist+Name+Song+%26+Name+Album+Name"
            ),
        ]
    );
    assert_eq!(
        related_music_service_links(&track, &enabled_services, &disabled_services),
        vec![
            link(
                "Spotify search",
                "https://open.spotify.com/search?q=Artist+Name+Song+%26+Name+Album+Name"
            ),
            link(
                "Apple Music search",
                "https://music.apple.com/search?term=Artist+Name+Song+%26+Name+Album+Name"
            ),
            link(
                "Deezer search",
                "https://www.deezer.com/search?q=Artist+Name+Song+%26+Name+Album+Name"
            ),
            link(
                "Bandcamp search",
                "https://bandcamp.com/search?q=Artist+Name+Song+%26+Name+Album+Name"
            ),
            link(
                "SoundCloud search",
                "https://soundcloud.com/search?q=Artist+Name+Song+%26+Name+Album+Name"
            ),
            link(
                "Discogs search",
                "https://www.discogs.com/search/?q=Artist+Name+Song+%26+Name+Album+Name"
            ),
            link(
                "TIDAL search",
                "https://tidal.com/search/Artist%20Name%20Song%20%26%20Name%20Album%20Name"
            ),
            link(
                "Qobuz search",
                "https://play.qobuz.com/search/Artist%20Name%20Song%20%26%20Name%20Album%20Name"
            ),
            link(
                "Amazon Music search",
                "https://music.amazon.com/search/Artist%20Name%20Song%20%26%20Name%20Album%20Name"
            ),
            link(
                "Beatport search",
                "https://www.beatport.com/search?q=Artist+Name+Song+%26+Name+Album+Name"
            ),
            link(
                "WhoSampled search",
                "https://www.whosampled.com/search/?q=Artist+Name+Song+%26+Name+Album+Name"
            ),
            link(
                "SecondHandSongs search",
                "https://secondhandsongs.com/search?search_text=Artist+Name+Song+%26+Name+Album+Name"
            ),
            link(
                "AllMusic search",
                "https://www.allmusic.com/search/all/Artist%20Name%20Song%20%26%20Name%20Album%20Name"
            ),
            link(
                "ListenBrainz search",
                "https://listenbrainz.org/search/?q=Artist+Name+Song+%26+Name+Album+Name"
            ),
            link(
                "VK Music search",
                "https://vk.com/search?c%5Bq%5D=Artist+Name+Song+%26+Name+Album+Name&c%5Bsection%5D=audio"
            ),
            link(
                "Rutube search",
                "https://rutube.ru/search/?query=Artist+Name+Song+%26+Name+Album+Name"
            ),
            link(
                "Vimeo search",
                "https://vimeo.com/search?q=Artist+Name+Song+%26+Name+Album+Name"
            ),
            link(
                "Google search",
                "https://www.google.com/search?q=Artist+Name+Song+%26+Name+Album+Name"
            ),
            link(
                "DuckDuckGo search",
                "https://duckduckgo.com/?q=Artist+Name+Song+%26+Name+Album+Name"
            ),
            link(
                "Bing search",
                "https://www.bing.com/search?q=Artist+Name+Song+%26+Name+Album+Name"
            ),
            link(
                "Yandex search",
                "https://yandex.ru/search/?text=Artist+Name+Song+%26+Name+Album+Name"
            ),
            link(
                "TheAudioDB artist search",
                "https://www.theaudiodb.com/api/v1/json/2/search.php?s=Artist+Name"
            ),
            link(
                "TheAudioDB track search",
                "https://www.theaudiodb.com/api/v1/json/2/searchtrack.php?s=Artist+Name&t=Song+%26+Name"
            ),
            link(
                "TheAudioDB album search",
                "https://www.theaudiodb.com/api/v1/json/2/searchalbum.php?s=Artist+Name&a=Album+Name"
            ),
            link(
                "Yandex Video track search",
                "https://yandex.ru/video/search?text=Artist+Name+Song+%26+Name"
            ),
            link(
                "Yandex Video album search",
                "https://yandex.ru/video/search?text=Artist+Name+Album+Name"
            ),
            link(
                "Yandex Video artist search",
                "https://yandex.ru/video/search?text=Artist+Name"
            ),
        ]
    );
}

#[test]
fn filters_weak_musicbrainz_matches() {
    let track = sample_track();
    assert!(musicbrainz_recording_matches(
        &MusicBrainzRecording {
            id: "id".to_string(),
            score: 100,
            length: Some(124_000),
        },
        &track
    ));
    assert!(!musicbrainz_recording_matches(
        &MusicBrainzRecording {
            id: "id".to_string(),
            score: 89,
            length: Some(124_000),
        },
        &track
    ));
    assert!(!musicbrainz_recording_matches(
        &MusicBrainzRecording {
            id: "id".to_string(),
            score: 100,
            length: Some(150_000),
        },
        &track
    ));
}

#[test]
fn adds_musicbrainz_search_links_missing_after_acoustid_match() {
    let track = sample_track();
    let mut links = vec![link(
        "MusicBrainz recording",
        "https://musicbrainz.org/recording/recording-id",
    )];

    add_missing_musicbrainz_search_links(&mut links, &track);

    assert_eq!(
        links,
        vec![
            link(
                "MusicBrainz recording",
                "https://musicbrainz.org/recording/recording-id"
            ),
            link(
                "MusicBrainz artist search",
                "https://musicbrainz.org/search?query=Artist+Name&type=artist&method=indexed"
            ),
            link(
                "MusicBrainz album search",
                "https://musicbrainz.org/search?query=Artist+Name+Album+Name&type=release_group&method=indexed"
            ),
        ]
    );
}

#[test]
fn preserves_exact_acoustid_musicbrainz_entities() {
    let track = sample_track();
    let mut links = vec![
        link(
            "MusicBrainz artist",
            "https://musicbrainz.org/artist/artist-id",
        ),
        link(
            "MusicBrainz album",
            "https://musicbrainz.org/release-group/album-id",
        ),
    ];

    add_missing_musicbrainz_search_links(&mut links, &track);

    assert_eq!(links.len(), 2);
}

#[test]
fn builds_wikidata_track_search_with_artist_context() {
    let track = sample_track();
    let enabled_services = no_enabled_services();
    let disabled_services = no_disabled_services();

    assert_eq!(
        wikimedia_links(&track, &enabled_services, &disabled_services),
        vec![
            link(
                "Wikidata track search",
                "https://www.wikidata.org/w/index.php?search=Artist+Name+Song+%26+Name"
            ),
            link(
                "Wikipedia track search",
                "https://en.wikipedia.org/w/index.php?search=Artist+Name+Song+%26+Name"
            ),
            link(
                "Wikidata artist search",
                "https://www.wikidata.org/w/index.php?search=Artist+Name"
            ),
            link(
                "Wikipedia artist search",
                "https://en.wikipedia.org/w/index.php?search=Artist+Name"
            ),
            link(
                "Wikidata album search",
                "https://www.wikidata.org/w/index.php?search=Artist+Name+Album+Name"
            ),
            link(
                "Wikipedia album search",
                "https://en.wikipedia.org/w/index.php?search=Artist+Name+Album+Name"
            ),
        ]
    );
}

#[test]
fn escapes_musicbrainz_lucene_query_parts() {
    let mut track = sample_track();
    track.title = "Quote \" and slash \\".to_string();
    track.artists = vec!["Artist \"Name\"".to_string()];

    assert_eq!(
        musicbrainz_query(&track),
        "recording:\"Quote \\\" and slash \\\\\" AND artist:\"Artist \\\"Name\\\"\""
    );
}

#[test]
fn filters_related_links_with_whitelist_and_blocklist() {
    let track = sample_track();
    let enabled_services =
        parse_external_link_services(&vec!["spotify".to_string(), "google".to_string()])
            .expect("enabled services");
    let disabled_services =
        parse_external_link_services(&vec!["google".to_string()]).expect("disabled services");

    assert_eq!(
        related_music_service_links(&track, &enabled_services, &disabled_services),
        vec![link(
            "Spotify search",
            "https://open.spotify.com/search?q=Artist+Name+Song+%26+Name+Album+Name"
        )]
    );

    let enabled_services =
        parse_external_link_services(&vec!["youtube".to_string(), "youtube-music".to_string()])
            .expect("enabled YouTube services");
    let disabled_services =
        parse_external_link_services(&vec!["youtube".to_string()]).expect("disabled YouTube");

    assert_eq!(
        youtube_links(&track, &enabled_services, &disabled_services),
        vec![link(
            "YouTube Music search",
            "https://music.youtube.com/search?q=Artist+Name+Song+%26+Name+Album+Name"
        )]
    );
}

#[test]
fn builds_fallback_links_without_artist_or_album() {
    let mut track = sample_track();
    track.artists.clear();
    track.albums.clear();
    track.duration_ms = None;
    let enabled_services = no_enabled_services();
    let disabled_services = no_disabled_services();

    assert_eq!(musicbrainz_query(&track), "recording:\"Song & Name\"");
    assert_eq!(human_query(&track), "Song & Name");
    assert_eq!(
        lrclib_get_url(&track),
        "https://lrclib.net/api/get?track_name=Song+%26+Name&artist_name=&album_name="
    );
    assert_eq!(
        wikimedia_links(&track, &enabled_services, &disabled_services),
        vec![
            link(
                "Wikidata track search",
                "https://www.wikidata.org/w/index.php?search=Song+%26+Name"
            ),
            link(
                "Wikipedia track search",
                "https://en.wikipedia.org/w/index.php?search=Song+%26+Name"
            ),
        ]
    );
    assert_eq!(musicbrainz_entity_search_links(&track), Vec::new());
    assert_eq!(
        related_music_service_links(&track, &enabled_services, &disabled_services)
            .first()
            .expect("spotify link"),
        &link(
            "Spotify search",
            "https://open.spotify.com/search?q=Song+%26+Name"
        )
    );
    assert!(lastfm_links(&track).contains(&link(
        "Last.fm track search",
        "https://www.last.fm/search/tracks?q=Song+%26+Name"
    )));
    assert!(
        related_music_service_links(&track, &enabled_services, &disabled_services).contains(
            &link(
                "Yandex Video track search",
                "https://yandex.ru/video/search?text=Song+%26+Name"
            )
        )
    );
}

#[test]
fn parses_external_link_service_aliases() {
    let services = parse_external_link_services(&vec![
        "Last.FM".to_string(),
        "youtube-music".to_string(),
        "ddg".to_string(),
        "odesli".to_string(),
        "rutracker".to_string(),
        "yandex-video".to_string(),
    ])
    .expect("parse services");

    assert!(services.contains(&ExternalLinkService::LastFm));
    assert!(services.contains(&ExternalLinkService::YouTubeMusic));
    assert!(services.contains(&ExternalLinkService::DuckDuckGo));
    assert!(services.contains(&ExternalLinkService::Songlink));
    assert!(services.contains(&ExternalLinkService::RuTracker));
    assert!(services.contains(&ExternalLinkService::YandexVideo));
}

#[test]
fn rejects_unknown_external_link_service() {
    let error =
        parse_external_link_services(&vec!["unknown".to_string()]).expect_err("invalid service");

    assert!(error.message().contains("unknown external link service"));
    assert!(error.message().contains("spotify"));
}

#[test]
fn orders_youtube_lastfm_and_rutracker_first() {
    let track = sample_track();
    let client = EnrichmentClient::new(
        None,
        "US".to_string(),
        None,
        vec![
            "youtube-music".to_string(),
            "youtube".to_string(),
            "lastfm".to_string(),
            "rutracker".to_string(),
        ],
        Vec::<String>::new(),
    )
    .expect("client");

    assert_eq!(
        done(client.links_for(&track, None)),
        vec![
            link(
                "YouTube Music search",
                "https://music.youtube.com/search?q=Artist+Name+Song+%26+Name+Album+Name"
            ),
            link(
                "YouTube search",
                "https://www.youtube.com/results?search_query=Artist+Name+Song+%26+Name+Album+Name"
            ),
            link(
                "Last.fm artist search",
                "https://www.last.fm/search/artists?q=Artist+Name"
            ),
            link(
                "Last.fm track search",
                "https://www.last.fm/search/tracks?q=Artist+Name+Song+%26+Name"
            ),
            link(
                "Last.fm album search",
                "https://www.last.fm/search/albums?q=Artist+Name+Album+Name"
            ),
            link(
                "RuTracker artist search",
                "https://rutracker.org/forum/tracker.php?nm=Artist+Name"
            ),
            link(
                "RuTracker track search",
                "https://rutracker.org/forum/tracker.php?nm=Artist+Name+Song+%26+Name"
            ),
            link(
                "RuTracker album search",
                "https://rutracker.org/forum/tracker.php?nm=Artist+Name+Album+Name"
            ),
        ]
    );
}

#[test]
fn applies_whitelist_and_blocklist_to_newer_external_services() {
    let track = sample_track();
    let client = EnrichmentClient::new(
        None,
        "US".to_string(),
        None,
        vec![
            "last.fm".to_string(),
            "rutracker".to_string(),
            "yandex-video".to_string(),
        ],
        vec!["rutracker".to_string()],
    )
    .expect("client");

    assert_eq!(
        done(client.links_for(&track, None)),
        vec![
            link(
                "Last.fm artist search",
                "https://www.last.fm/search/artists?q=Artist+Name"
            ),
            link(
                "Last.fm track search",
                "https://www.last.fm/search/tracks?q=Artist+Name+Song+%26+Name"
            ),
            link(
                "Last.fm album search",
                "https://www.last.fm/search/albums?q=Artist+Name+Album+Name"
            ),
            link(
                "Yandex Video track search",
                "https://yandex.ru/video/search?text=Artist+Name+Song+%26+Name"
            ),
            link(
                "Yandex Video album search",
                "https://yandex.ru/video/search?text=Artist+Name+Album+Name"
            ),
            link(
                "Yandex Video artist search",
                "https://yandex.ru/video/search?text=Artist+Name"
            ),
        ]
    );
}

#[test]
fn deserializes_musicbrainz_string_score() {
    let recording = musicbrainz_recording(r#"{"id":"id","score":"100","length":123000}"#);

    assert_eq!(recording.score, 100);
}

#[test]
fn decodes_non_numeric_musicbrainz_score_as_zero() {
    let recording =
        musicbrainz_recording(r#"{"id":"id","score":"not-a-number"}"#);

    assert_eq!(recording.score, 0);
    assert_eq!(recording.length, None);
}

#[test]
fn extracts_musicbrainz_links_from_acoustid_response() {
    let response = acoustid_response(r#"{
            "status": "ok",
            "results": [
                {
                    "score": 0.7,
                    "recordings": [{"id": "weak-recording"}]
                },
                {
                    "score": 0.98,
                    "recordings": [{
                        "id": "recording-id",
                        "artists": [{"id": "artist-id", "name": "Artist Name"}],
                        "releasegroups": [{"id": "album-id", "title": "Album Name"}]
                    }]
                }
            ]
        }"#);

    let recording = best_acoustid_recording(response).expect("recording match");
    let enabled_services = no_enabled_services();
    let disabled_services = no_disabled_services();

    assert_eq!(
        musicbrainz_links_from_acoustid_recording(
            &recording,
            &enabled_services,
            &disabled_services,
        ),
        vec![
            link(
                "MusicBrainz recording",
                "https://musicbrainz.org/recording/recording-id"
            ),
            link(
                "ListenBrainz recording metadata",
                "https://api.listenbrainz.org/1/metadata/recording/?recording_mbids=recording-id&inc=artist+release"
            ),
            link(
                "TheAudioDB track MBID lookup",
                "https://www.theaudiodb.com/api/v1/json/2/track-mb.php?i=recording-id"
            ),
            link(
                "MusicBrainz artist",
                "https://musicbrainz.org/artist/artist-id"
            ),
            link(
                "TheAudioDB artist MBID lookup",
                "https://www.theaudiodb.com/api/v1/json/2/artist-mb.php?i=artist-id"
            ),
            link(
                "MusicBrainz album",
                "https://musicbrainz.org/release-group/album-id"
            ),
            link(
                "TheAudioDB album MBID lookup",
                "https://www.theaudiodb.com/api/v1/json/2/album-mb.php?i=album-id"
            ),
        ]
    );
}

#[test]
fn ignores_weak_acoustid_matches() {
    let response = acoustid_response(r#"{
            "status": "ok",
            "results": [{
                "score": 0.79,
                "recordings": [{"id": "recording-id"}]
            }]
        }"#);

    assert!(best_acoustid_recording(response).is_none());
}

#[test]
fn uses_songlink_retry_after_seconds() {
    let retry_after = reqwest::header::HeaderValue::from_static("42");

    assert_eq!(
        songlink_retry_delay(retry_after.to_str().ok(), 0),
        42
    );
}

#[test]
fn caps_songlink_retry_after_seconds() {
    let retry_after = reqwest::header::HeaderValue::from_static("3600");

    assert_eq!(
        songlink_retry_delay(retry_after.to_str().ok(), 0),
        SONGLINK_MAX_RETRY_AFTER_SECONDS
    );
}

#[test]
fn falls_back_to_songlink_backoff_without_valid_retry_after() {
    let retry_after = reqwest::header::HeaderValue::from_static("not-a-number");

    assert_eq!(
        songlink_retry_delay(retry_after.to_str().ok(), 1),
        30
    );
    assert_eq!(songlink_retry_delay(None, 99), 30);
}

#[test]
fn caps_retry_after_at_a_minute() {
    assert_eq!(SONGLINK_MAX_RETRY_AFTER_SECONDS, 60);
    assert_eq!(songlink_retry_delay(Some(" 7 "), 5), 7);
    assert_eq!(songlink_retry_delay(Some("18446744073709551615"), 0), 60);
    assert_eq!(songlink_retry_delay(Some("18446744073709551616"), 0), 10);
    assert_eq!(songlink_retry_delay(Some("-1"), 1), 30);
    assert_eq!(songlink_retry_delay(None, 0), 10);
}

#[test]
fn every_listed_service_name_is_known() {
    let names = external_link_service_names();
    assert_eq!(names.len(), 33);
    let mut seen = Vec::new();
    for name in &names {
        let service = ExternalLinkService::parse(name).expect("listed name");
        assert!(!seen.contains(&service));
        assert_ne!(service, ExternalLinkService::WhoSampled);
        seen.push(service);
        let spelled = format!("-{}.", name.to_uppercase());
        assert_eq!(ExternalLinkService::parse(&spelled), Some(service));
    }
    assert_eq!(ExternalLinkService::parse("yandexvideo"), Some(ExternalLinkService::YandexVideo));
    assert_eq!(ExternalLinkService::parse("audiodb"), Some(ExternalLinkService::TheAudioDb));
    assert_eq!(ExternalLinkService::parse("vkontakte"), Some(ExternalLinkService::Vk));
    assert_eq!(ExternalLinkService::parse("ytmusic"), Some(ExternalLinkService::YouTubeMusic));
    assert_eq!(ExternalLinkService::parse("apple"), Some(ExternalLinkService::AppleMusic));
    assert_eq!(ExternalLinkService::parse("amazon"), Some(ExternalLinkService::AmazonMusic));
    assert_eq!(ExternalLinkService::parse("whosampled"), None);
    assert_eq!(ExternalLinkService::parse(""), None);
}

#[test]
fn unknown_service_is_reported_with_the_known_ones() {
    let error = parse_external_link_services(&vec![
        " ".to_string(),
        "vk".to_string(),
        " napster ".to_string(),
        "other".to_string(),
    ])
    .expect_err("unknown");
    assert_eq!(error.name, "napster");
    let expected = format!(
        "unknown external link service `napster`; known values: {}",
        external_link_service_names().join(", ")
    );
    assert_eq!(error.message(), expected);
    assert!(parse_external_link_services(&vec![" ".to_string()]).expect("blank").is_empty());
}

#[test]
fn blocklist_beats_whitelist() {
    let mut on = ServiceSet::new();
    let mut off = ServiceSet::new();
    let vk = ExternalLinkService::Vk;
    let bing = ExternalLinkService::Bing;
    assert!(external_link_service_enabled(vk, &on, &off));
    on.insert(vk);
    on.insert(vk);
    assert!(external_link_service_enabled(vk, &on, &off));
    assert!(!external_link_service_enabled(bing, &on, &off));
    off.insert(vk);
    assert!(!external_link_service_enabled(vk, &on, &off));
    assert!(on.contains(&vk) && !on.contains(&bing) && !on.is_empty());
}

#[test]
fn addresses_encode_what_they_hold() {
    assert_eq!(
        query_url("https://example.test/", &[("a b", "ж&="), ("", "*-._~")]),
        "https://example.test/?a+b=%D0%B6%26%3D&=*-._%7E"
    );
    assert_eq!(query_url("https://example.test/", &[]), "https://example.test/?");
    assert_eq!(path_search_url("https://example.test", "a b/c+d"), "https://example.test/a%20b%2Fc%2Bd");
    for text in ["", "a b", "ж", "a+b&c=d%20", "\u{10ffff}\n"] {
        let expected: String = url::form_urlencoded::byte_serialize(text.as_bytes()).collect();
        assert_eq!(query_url("u", &[("q", text)]), format!("u?q={expected}"));
    }
}

#[test]
fn phrases_leave_blank_parts_out() {
    let mut track = sample_track();
    assert_eq!(human_query(&track), "Artist Name Song & Name Album Name");
    track.artists = vec!["  ".to_string(), "Other".to_string()];
    assert_eq!(human_query(&track), "Song & Name Album Name");
    assert_eq!(
        musicbrainz_query(&track),
        "recording:\"Song & Name\" AND artist:\"  \""
    );
    assert!(musicbrainz_entity_search_links(&track).is_empty());
    track.title = " ".to_string();
    track.albums.clear();
    assert_eq!(human_query(&track), "");
    assert!(youtube_links(&track, &ServiceSet::new(), &ServiceSet::new()).is_empty());
    assert!(related_music_service_links(&track, &ServiceSet::new(), &ServiceSet::new()).is_empty());
    assert!(wikimedia_links(&track, &ServiceSet::new(), &ServiceSet::new()).is_empty());
}

#[test]
fn recordings_match_up_to_the_limits() {
    let track = sample_track();
    let recording = |score, length| MusicBrainzRecording { id: "id".to_string(), score, length };
    assert!(musicbrainz_recording_matches(&recording(90, Some(130_000)), &track));
    assert!(!musicbrainz_recording_matches(&recording(90, Some(130_001)), &track));
    assert!(musicbrainz_recording_matches(&recording(90, Some(116_000)), &track));
    assert!(!musicbrainz_recording_matches(&recording(90, Some(115_999)), &track));
    assert!(musicbrainz_recording_matches(&recording(90, None), &track));
}

fn scored(score: f64, ids: &[&str]) -> AcoustIdResult {
    AcoustIdResult {
        score_bits: score.to_bits(),
        recordings: ids
            .iter()
            .map(|id| AcoustIdRecording {
                id: id.to_string(),
                artists: Vec::new(),
                releasegroups: Vec::new(),
            })
            .collect(),
    }
}

#[test]
fn best_recording_has_the_highest_score() {
    let best = |results| {
        best_acoustid_recording(AcoustIdResponse {
            status: "ok".to_string(),
            results,
            error: None,
        })
        .map(|recording| recording.id)
    };
    assert_eq!(best(vec![scored(0.9, &["a"]), scored(0.95, &["b"])]), Some("b".to_string()));
    assert_eq!(best(vec![scored(0.9, &["a"]), scored(0.9, &["b"])]), Some("a".to_string()));
    assert_eq!(best(vec![scored(0.99, &[" "]), scored(0.8, &["", "b"])]), Some("b".to_string()));
    assert_eq!(best(vec![scored(0.7999999999999999, &["a"])]), None);
    assert_eq!(best(vec![scored(f64::NAN, &["a"]), scored(-f64::NAN, &["b"])]), None);
    assert_eq!(best(vec![scored(f64::INFINITY, &["a"]), scored(1.0, &["b"])]), Some("a".to_string()));
    assert_eq!(best(Vec::new()), None);
}

fn audio(bytes: &[u8]) -> TrackAudio {
    TrackAudio {
        bytes: bytes.to_vec(),
        codec: "flac-mp4".to_string(),
        bitrate_kbps: 0,
        quality: "lossless".to_string(),
    }
}

fn printed(duration: f64, fingerprint: &str) -> FpcalcRun {
    FpcalcRun::Printed(FpcalcOutput {
        duration_bits: duration.to_bits(),
        fingerprint: fingerprint.to_string(),
    })
}

#[test]
fn fingerprints_need_text_and_a_duration() {
    assert_eq!(
        acoustid_fingerprint(printed(122.5, "AQAD")),
        Ok(Some(AcoustIdFingerprint {
            duration_seconds: 123,
            fingerprint: "AQAD".to_string(),
        }))
    );
    assert_eq!(acoustid_fingerprint(FpcalcRun::Missing), Ok(None));
    assert_eq!(
        acoustid_fingerprint(printed(1.0, " ")).expect_err("empty").message(),
        "fpcalc returned an empty fingerprint"
    );
    for duration in [0.0, -0.0, -1.0, f64::INFINITY, f64::NAN] {
        assert_eq!(
            acoustid_fingerprint(printed(duration, "x")).expect_err("duration").message(),
            "fpcalc returned an invalid duration"
        );
    }
    assert_eq!(
        acoustid_fingerprint(FpcalcRun::GaveUp {
            status: "exit status: 2".to_string(),
            stderr: " bad file\n".to_string(),
        })
        .expect_err("status")
        .message(),
        "fpcalc exited with exit status: 2: bad file"
    );
    assert_eq!(
        acoustid_fingerprint(FpcalcRun::Failed { message: "no space".to_string() })
            .expect_err("failed")
            .message(),
        "no space"
    );
    assert_eq!(fingerprint_file_suffix(&audio(b"x")), Ok(".mp4".to_string()));
    let error = fingerprint_file_suffix(&audio(b"")).expect_err("empty audio");
    assert_eq!(error, FingerprintError::EmptyAudio);
    assert_eq!(error.message(), "downloaded audio is empty");
}

fn client(genius: Option<&str>, acoustid: Option<&str>, on: &[&str]) -> EnrichmentClient {
    EnrichmentClient::new(
        genius.map(|token| token.to_string()),
        "US".to_string(),
        acoustid.map(|key| key.to_string()),
        on.iter().map(|name| name.to_string()).collect(),
        Vec::new(),
    )
    .expect("client")
}

#[test]
fn client_rejects_unknown_services() {
    let new = |on: &str, off: &str| {
        EnrichmentClient::new(
            None,
            "US".to_string(),
            None,
            vec![on.to_string()],
            vec![off.to_string()],
        )
    };
    assert_eq!(new("nope", "nada").expect_err("whitelist").name, "nope");
    assert_eq!(new("vk", "nada").expect_err("blocklist").name, "nada");
    assert!(new("vk", "").is_ok());
}

fn ok<T>(body: T) -> Reply<T> {
    Reply::Answer { status: 200, body: Some(body) }
}

#[test]
fn audio_leads_to_exact_musicbrainz_links() {
    let track = sample_track();
    let mut client = client(None, Some("key"), &["acoustid", "musicbrainz"]);
    let sound = audio(b"sound");
    let step = client.links_for(&track, Some(&sound));
    let Step::Fingerprint { links, suffix } = step else { panic!("{step:?}") };
    assert_eq!(suffix, ".mp4");
    let step = client.after_fingerprint(&track, links, printed(122.6, "AQAD"));
    let Step::AcoustId { links, form } = step else { panic!("{step:?}") };
    let fields: Vec<(&str, &str)> =
        form.iter().map(|field| (field.0.as_str(), field.1.as_str())).collect();
    assert_eq!(
        fields,
        vec![
            ("client", "key"),
            ("meta", "recordings releasegroups compress"),
            ("duration", "123"),
            ("fingerprint", "AQAD"),
        ]
    );
    let response = AcoustIdResponse {
        status: "ok".to_string(),
        results: vec![scored(0.9, &["recording-id"])],
        error: None,
    };
    assert_eq!(
        done(client.after_acoustid(&track, links, ok(response))),
        vec![
            link("MusicBrainz recording", "https://musicbrainz.org/recording/recording-id"),
            link(
                "MusicBrainz artist search",
                "https://musicbrainz.org/search?query=Artist+Name&type=artist&method=indexed"
            ),
            link(
                "MusicBrainz album search",
                "https://musicbrainz.org/search?query=Artist+Name+Album+Name&type=release_group&method=indexed"
            ),
        ]
    );
}

#[test]
fn missing_fpcalc_is_tried_once() {
    let track = sample_track();
    let mut client = client(None, Some("key"), &["acoustid", "listenbrainz"]);
    let sound = audio(b"sound");
    let step = client.links_for(&track, Some(&sound));
    let Step::Fingerprint { links, .. } = step else { panic!("{step:?}") };
    let links = done(client.after_fingerprint(&track, links, FpcalcRun::Missing));
    assert_eq!(links.len(), 1);
    assert!(client.acoustid_fpcalc_missing);
    assert_eq!(done(client.links_for(&track, Some(&sound))), links);
}

#[test]
fn audio_is_not_fingerprinted_without_need() {
    let track = sample_track();
    let sound = audio(b"sound");
    let on = ["acoustid", "listenbrainz"];
    done(client(None, None, &on).links_for(&track, Some(&sound)));
    done(client(None, Some("key"), &on).links_for(&track, None));
    done(client(None, Some("key"), &on).links_for(&track, Some(&audio(b""))));
    done(client(None, Some("key"), &["acoustid"]).links_for(&track, Some(&sound)));
    done(client(None, Some("key"), &["listenbrainz"]).links_for(&track, Some(&sound)));
}

#[test]
fn failed_lookups_fall_back_to_searches() {
    let track = sample_track();
    let mut client = client(
        Some("token"),
        Some("key"),
        &["acoustid", "musicbrainz", "lrclib", "songlink", "genius"],
    );
    let sound = audio(b"sound");
    let step = client.links_for(&track, Some(&sound));
    let Step::Fingerprint { links, .. } = step else { panic!("{step:?}") };
    let step = client.after_fingerprint(&track, links, printed(1.0, "AQAD"));
    let Step::AcoustId { links, .. } = step else { panic!("{step:?}") };
    let step = client.after_acoustid(&track, links, Reply::Answer { status: 500, body: None });
    let Step::MusicBrainz { links, url } = step else { panic!("{step:?}") };
    assert_eq!(
        url,
        "https://musicbrainz.org/ws/2/recording/?query=recording%3A%22Song+%26+Name%22+AND+artist%3A%22Artist+Name%22&fmt=json&limit=3"
    );
    let step = client.after_musicbrainz(&track, links, Reply::Failed);
    let Step::Lrclib { links, url } = step else { panic!("{step:?}") };
    assert_eq!(url, lrclib_get_url(&track));
    let step = client.after_lrclib(&track, links, Reply::Answer { status: 404, body: None });
    let Step::Songlink { links, url, retries } = step else { panic!("{step:?}") };
    assert_eq!(
        url,
        "https://api.song.link/v1-alpha.1/links?url=https%3A%2F%2Fmusic.yandex.com%2Ftrack%2F123&userCountry=US"
    );
    let step = client.after_songlink(&track, links, retries, SonglinkReply::Failed);
    assert!(!client.songlink_rate_limited);
    let Step::Genius { links, url, token } = step else { panic!("{step:?}") };
    assert_eq!(token, "token");
    assert_eq!(
        url,
        "https://api.genius.com/search?q=Artist+Name+Song+%26+Name+Album+Name"
    );
    assert_eq!(
        done(EnrichmentClient::after_genius(&track, links, Reply::Failed)),
        vec![
            link(
                "MusicBrainz recording search",
                "https://musicbrainz.org/search?query=Artist+Name+Song+%26+Name+Album+Name&type=recording&method=indexed"
            ),
            link(
                "MusicBrainz artist search",
                "https://musicbrainz.org/search?query=Artist+Name&type=artist&method=indexed"
            ),
            link(
                "MusicBrainz album search",
                "https://musicbrainz.org/search?query=Artist+Name+Album+Name&type=release_group&method=indexed"
            ),
            link(
                "LRCLIB lyrics search",
                "https://lrclib.net/api/search?track_name=Song+%26+Name&artist_name=Artist+Name"
            ),
            link(
                "Songlink/Odesli lookup",
                "https://api.song.link/v1-alpha.1/links?url=https%3A%2F%2Fmusic.yandex.com%2Ftrack%2F123"
            ),
            link(
                "Genius search",
                "https://genius.com/search?q=Artist+Name+Song+%26+Name+Album+Name"
            ),
        ]
    );
}

#[test]
fn successful_lookups_give_their_links() {
    let track = sample_track();
    let mut client = client(Some("token"), None, &["musicbrainz", "lrclib", "songlink", "genius"]);
    let step = client.links_for(&track, None);
    let Step::MusicBrainz { links, .. } = step else { panic!("{step:?}") };
    let weak = MusicBrainzRecording { id: "weak".to_string(), score: 10, length: None };
    let good = MusicBrainzRecording { id: "good".to_string(), score: 95, length: Some(123_500) };
    let response = MusicBrainzResponse { recordings: vec![weak, good] };
    let step = client.after_musicbrainz(&track, links, ok(response));
    let Step::Lrclib { links, .. } = step else { panic!("{step:?}") };
    let step = client.after_lrclib(&track, links, ok(()));
    let Step::Songlink { links, retries, .. } = step else { panic!("{step:?}") };
    let reply = SonglinkReply::Answer {
        status: 200,
        retry_after: None,
        body: Some(SonglinkResponse { page_url: Some("https://song.link/x".to_string()) }),
    };
    let step = client.after_songlink(&track, links, retries, reply);
    let Step::Genius { links, .. } = step else { panic!("{step:?}") };
    let hit = |url: Option<&str>| GeniusHit {
        result: GeniusHitResult { url: url.map(|url| url.to_string()) },
    };
    let response = GeniusResponse {
        response: GeniusSearchResponse {
            hits: vec![hit(None), hit(Some(" ")), hit(Some("https://genius.com/x"))],
        },
    };
    let links = done(EnrichmentClient::after_genius(&track, links, ok(response)));
    assert_eq!(links[0], link("MusicBrainz recording", "https://musicbrainz.org/recording/good"));
    assert_eq!(links[3], link("LRCLIB lyrics", &lrclib_get_url(&track)));
    assert_eq!(links[4], link("Songlink/Odesli", "https://song.link/x"));
    assert_eq!(links[5], link("Genius", "https://genius.com/x"));
    assert_eq!(links.len(), 6);
}

fn refusal(retry_after: Option<&str>) -> SonglinkReply {
    SonglinkReply::Answer {
        status: 429,
        retry_after: retry_after.map(|value| value.to_string()),
        body: None,
    }
}

#[test]
fn songlink_is_given_up_after_three_refusals() {
    let track = sample_track();
    let mut client = client(None, None, &["songlink"]);
    let fallback = link(
        "Songlink/Odesli lookup",
        "https://api.song.link/v1-alpha.1/links?url=https%3A%2F%2Fmusic.yandex.com%2Ftrack%2F123",
    );
    let mut step = client.links_for(&track, None);
    let mut waits = Vec::new();
    for header in [None, Some("5"), Some("5")] {
        let Step::Songlink { links, retries, .. } = step else { panic!("{step:?}") };
        step = client.after_songlink(&track, links, retries, refusal(header));
        if let Step::Wait { links, url, retries, seconds } = step {
            waits.push(seconds);
            step = EnrichmentClient::after_wait(links, url, retries);
        }
    }
    assert_eq!(waits, vec![10, 5]);
    assert_eq!(done(step), vec![fallback]);
    assert!(client.songlink_rate_limited);
    assert_eq!(done(client.links_for(&track, None)).len(), 1);
}

#[test]
fn songlink_page_must_not_be_blank() {
    let track = sample_track();
    for (status, page) in [(200, Some(" ")), (200, None), (404, Some("https://song.link/x"))] {
        let mut client = client(None, None, &["songlink"]);
        let step = client.links_for(&track, None);
        let Step::Songlink { links, retries, .. } = step else { panic!("{step:?}") };
        let reply = SonglinkReply::Answer {
            status,
            retry_after: None,
            body: Some(SonglinkResponse { page_url: page.map(|page| page.to_string()) }),
        };
        let links = done(client.after_songlink(&track, links, retries, reply));
        assert_eq!(links[0].label, "Songlink/Odesli lookup");
        assert!(!client.songlink_rate_limited);
    }
}

#[test]
fn genius_is_searched_without_a_token() {
    let links = done(client(None, None, &["genius"]).links_for(&sample_track(), None));
    assert_eq!(links[0].label, "Genius search");
    assert_eq!(links.len(), 1);
}

#[test]
fn acoustid_errors_are_no_match() {
    let track = sample_track();
    let client = client(None, Some("key"), &["acoustid", "listenbrainz"]);
    let response = |status: &str, results| AcoustIdResponse {
        status: status.to_string(),
        results,
        error: None,
    };
    let count = |reply| done(client.after_acoustid(&track, Vec::new(), reply)).len();
    assert_eq!(count(ok(response("ok", vec![scored(0.9, &["id"])]))), 2);
    assert_eq!(count(ok(response("error", vec![scored(0.9, &["id"])]))), 1);
    assert_eq!(count(ok(response("ok", Vec::new()))), 1);
    assert_eq!(count(Reply::Failed), 1);
    assert_eq!(count(Reply::Answer { status: 200, body: None }), 1);
}

#[test]
fn encoded_addresses_can_be_read_back() {
    for text in ["", "a b+c", "100% & more = ж", "\u{10ffff}\"'<>/?#"] {
        let address = query_url("https://example.test/", &[("q", text), ("r", "x")]);
        let query = address.strip_prefix("https://example.test/?").expect("base");
        let read: Vec<(String, String)> =
            url::form_urlencoded::parse(query.as_bytes()).into_owned().collect();
        assert_eq!(
            read,
            vec![("q".to_string(), text.to_string()), ("r".to_string(), "x".to_string())]
        );
        let path = path_search_url("", text);
        assert!(!path[1..].contains(['/', '?', '#', '+', '&', '=']));
    }
}

#[test]
fn the_audio_itself_makes_no_difference() {
    let track = sample_track();
    let client = client(None, Some("key"), &["acoustid", "musicbrainz"]);
    let first = client.links_for(&track, Some(&audio(b"one")));
    let second = client.links_for(&track, Some(&audio(b"another")));
    assert_eq!(format!("{first:?}"), format!("{second:?}"));
}

#[test]
fn switched_off_services_are_not_asked() {
    let track = sample_track();
    let client = EnrichmentClient::new(
        Some("token".to_string()),
        "US".to_string(),
        Some("key".to_string()),
        Vec::new(),
        ["acoustid", "musicbrainz", "lrclib", "songlink", "genius"]
            .iter()
            .map(|name| name.to_string())
            .collect(),
    )
    .expect("client");
    let links = done(client.links_for(&track, Some(&audio(b"sound"))));
    assert!(!links.iter().any(|link| link.label.starts_with("MusicBrainz")));
    assert!(links.iter().any(|link| link.label == "Wikidata track search"));
}
