use yandex_music_likes_to_evernote::audio::{
    AudioAttachment, CoverAttachment, CoverImage, TrackAudio,
};
use yandex_music_likes_to_evernote::enrichment::links::ExternalLink;
use yandex_music_likes_to_evernote::note::{
    display_list, enml, enml_liked_at, format_duration, render_albums, render_artists,
    render_external_links, title,
};
use yandex_music_likes_to_evernote::timestamp::Timestamp;
use yandex_music_likes_to_evernote::yandex::{AlbumLink, ArtistLink, LikedTrack};

fn liked_at() -> Timestamp {
    Timestamp::new(1_704_164_645, 0).expect("2024-01-02T03:04:05Z")
}

#[test]
fn renders_enml_with_escaped_values() {
    let track = LikedTrack {
        id: "1".to_string(),
        liked_at: liked_at(),
        title: "A < B".to_string(),
        artists: vec!["Artist & Co".to_string()],
        artist_links: vec![ArtistLink {
            name: "Artist & Co".to_string(),
            yandex_url: "https://music.yandex.com/artist/42".to_string(),
        }],
        albums: vec!["Album".to_string()],
        album_links: vec![AlbumLink {
            name: "Album".to_string(),
            yandex_url: "https://music.yandex.com/album/43".to_string(),
        }],
        duration_ms: Some(123_000),
        cover_url: Some("https://example.com/a?b=1&c=2".to_string()),
        yandex_url: "https://music.yandex.com/track/1".to_string(),
    };

    let links = vec![ExternalLink {
        label: "MusicBrainz recording search".to_string(),
        url: "https://musicbrainz.org/search?query=a&b=c".to_string(),
    }];
    let cover = CoverAttachment::new(
        CoverImage::new(b"cover".to_vec(), Some("image/jpeg")).expect("cover image"),
    );
    let enml = enml(&track, &links, Some(&cover), None);

    assert!(enml.contains("A &lt; B"));
    assert!(!enml.contains("<b>Track ID:</b>"));
    assert!(enml.contains(
        r#"<div><b>Artist:</b> <a href="https:&#x2F;&#x2F;music.yandex.com&#x2F;artist&#x2F;42">Artist &amp; Co</a></div>"#
    ));
    assert!(enml.contains(
        r#"<div><b>Album:</b> <a href="https:&#x2F;&#x2F;music.yandex.com&#x2F;album&#x2F;43">Album</a></div>"#
    ));
    let track_index = enml.find("<b>Track:</b>").expect("track line");
    let album_index = enml.find("<b>Album:</b>").expect("album line");
    let artist_index = enml.find("<b>Artist:</b>").expect("artist line");
    assert!(track_index < album_index);
    assert!(album_index < artist_index);
    assert!(!enml.contains("<b>Cover:</b>"));
    assert!(enml.contains(r#"<en-media type="image&#x2F;jpeg""#));
    assert!(!enml.contains(r#"<a href="https:&#x2F;&#x2F;example.com&#x2F;a?b=1&amp;c=2""#));
    assert!(enml.contains("2:03"));
    assert!(!enml.contains("External links"));
    assert!(enml.contains("MusicBrainz recording search"));
    assert!(enml.contains("musicbrainz.org"));
    assert!(!enml.contains("<b>Yandex Music:</b>"));
    assert!(!enml.contains("Audio is not copied by this tool"));
}

#[test]
fn renders_minimal_note_without_optional_sections() {
    let track = LikedTrack {
        id: "2".to_string(),
        liked_at: liked_at(),
        title: "Solo Track".to_string(),
        artists: Vec::new(),
        artist_links: Vec::new(),
        albums: Vec::new(),
        album_links: Vec::new(),
        duration_ms: None,
        cover_url: None,
        yandex_url: "https://music.yandex.com/track/2".to_string(),
    };

    let enml = enml(&track, &[], None, None);

    assert_eq!(title(&track), "Solo Track");
    assert!(enml.contains("<div><b>Track:</b> Solo Track</div>"));
    assert!(!enml.contains("<b>Duration:</b>"));
    assert!(!enml.contains("<b>Cover:</b>"));
    assert!(!enml.contains("<b>External links:</b>"));
    assert!(!enml.contains("<b>Audio:</b>"));
    assert!(!enml.contains("<en-media"));
}

#[test]
fn renders_audio_attachment_media_tag() {
    let track = LikedTrack {
        id: "3".to_string(),
        liked_at: liked_at(),
        title: "Song".to_string(),
        artists: vec!["Artist".to_string()],
        artist_links: Vec::new(),
        albums: Vec::new(),
        album_links: Vec::new(),
        duration_ms: None,
        cover_url: None,
        yandex_url: "https://music.yandex.com/track/3".to_string(),
    };
    let audio = AudioAttachment::new(
        TrackAudio {
            bytes: b"hello".to_vec(),
            codec: "flac".to_string(),
            bitrate_kbps: 1411,
            quality: "lossless".to_string(),
        },
        &title(&track),
    );

    let enml = enml(&track, &[], None, Some(&audio));

    assert!(enml.contains("<b>Audio:</b> lossless, 1411 kbps</div>"));
    assert!(!enml.contains("Artist - Song.flac"));
    assert!(!enml.contains("5 B"));
    assert!(enml.contains(
        r#"<en-media type="audio&#x2F;flac" hash="5d41402abc4b2a76b9719d911017c592"/>"#
    ));
}

#[test]
fn omits_bitrate_when_unknown_and_duration_missing() {
    let track = LikedTrack {
        id: "4".to_string(),
        liked_at: liked_at(),
        title: "Ethnicolor".to_string(),
        artists: vec!["Jean-Michel Jarre".to_string()],
        artist_links: Vec::new(),
        albums: Vec::new(),
        album_links: Vec::new(),
        duration_ms: None,
        cover_url: None,
        yandex_url: "https://music.yandex.com/track/4".to_string(),
    };
    let audio = AudioAttachment::new(
        TrackAudio {
            bytes: b"abc".to_vec(),
            codec: "flac-mp4".to_string(),
            bitrate_kbps: 0,
            quality: "lossless".to_string(),
        },
        &title(&track),
    );

    let enml = enml(&track, &[], None, Some(&audio));

    assert!(enml.contains("<b>Audio:</b> lossless</div>"));
    assert!(!enml.contains("Jean-Michel Jarre - Ethnicolor.mp4"));
    assert!(!enml.contains("3 B"));
    assert!(!enml.contains("kbps"));
    assert!(enml.contains(r#"<en-media type="audio&#x2F;mp4""#));
}

#[test]
fn estimates_lossless_bitrate_from_duration() {
    let track = LikedTrack {
        id: "5".to_string(),
        liked_at: liked_at(),
        title: "Ethnicolor".to_string(),
        artists: vec!["Jean-Michel Jarre".to_string()],
        artist_links: Vec::new(),
        albums: Vec::new(),
        album_links: Vec::new(),
        duration_ms: Some(1_000),
        cover_url: None,
        yandex_url: "https://music.yandex.com/track/5".to_string(),
    };
    let audio = AudioAttachment::new(
        TrackAudio {
            // 100000 bytes * 8 bits / 1000 ms = 800 kbps.
            bytes: vec![0u8; 100_000],
            codec: "flac-mp4".to_string(),
            bitrate_kbps: 0,
            quality: "lossless".to_string(),
        },
        &title(&track),
    );

    let enml = enml(&track, &[], None, Some(&audio));

    assert!(
        enml.contains("<b>Audio:</b> lossless, ~800 kbps</div>"),
        "got: {enml}"
    );
}

fn plain_track() -> LikedTrack {
    LikedTrack {
        id: "9".to_string(),
        liked_at: liked_at(),
        title: "<T>".to_string(),
        artists: vec!["A".to_string(), "B & C".to_string()],
        artist_links: Vec::new(),
        albums: vec!["X/Y".to_string()],
        album_links: Vec::new(),
        duration_ms: Some(61_999),
        cover_url: None,
        yandex_url: "https://music.yandex.com/track/9".to_string(),
    }
}

#[test]
fn renders_the_whole_note() {
    let track = plain_track();
    let cover = CoverAttachment::new(
        CoverImage::new(b"hello".to_vec(), Some("image/png")).expect("cover image"),
    );
    let links = vec![
        ExternalLink { label: "L1".to_string(), url: "https://a/?b&c".to_string() },
        ExternalLink { label: "\"L2\"".to_string(), url: "u".to_string() },
    ];
    let expected = r#"<?xml version="1.0" encoding="UTF-8"?>
<!DOCTYPE en-note SYSTEM "http://xml.evernote.com/pub/enml2.dtd">
<en-note>
<div><b>Track:</b> &lt;T&gt;</div>
<div><b>Album:</b> X&#x2F;Y</div>
<div><b>Artist:</b> A, B &amp; C</div>
<div><b>Duration:</b> 1:01</div>
<div><b>Liked at:</b> WHEN</div>
<en-media type="image&#x2F;png" hash="5d41402abc4b2a76b9719d911017c592"/>

<div><br/></div>
<div><a href="https:&#x2F;&#x2F;a&#x2F;?b&amp;c">L1</a></div>
<div><a href="u">&quot;L2&quot;</a></div>
</en-note>"#;
    assert_eq!(
        enml_liked_at(&track, "'now'", &links, Some(&cover), None),
        expected.replace("WHEN", "&#x27;now&#x27;")
    );
    assert_eq!(
        enml(&track, &links, Some(&cover), None),
        expected.replace("WHEN", "2024-01-02T03:04:05+00:00")
    );
}

#[test]
fn escapes_as_the_markup_library_does() {
    for text in ["", "<&>\"'/", "plain", "ж < 1 && 2", "&amp;"] {
        let mut track = plain_track();
        track.title = text.to_string();
        let note = enml(&track, &[], None, None);
        let line = format!("<div><b>Track:</b> {}</div>", html_escape::encode_safe(text));
        assert!(note.contains(&line), "{note}");
    }
}

#[test]
fn links_only_the_names_that_have_a_page() {
    let mut track = plain_track();
    track.artist_links = vec![
        ArtistLink { name: "B & C".to_string(), yandex_url: "first".to_string() },
        ArtistLink { name: "B & C".to_string(), yandex_url: "second".to_string() },
    ];
    assert_eq!(render_artists(&track), "A, <a href=\"first\">B &amp; C</a>");
    assert_eq!(render_albums(&track), "X&#x2F;Y");
    track.album_links = vec![AlbumLink { name: "Z".to_string(), yandex_url: "z".to_string() }];
    assert_eq!(render_albums(&track), "X&#x2F;Y");
}

#[test]
fn titles_need_artists_with_names() {
    let mut track = plain_track();
    assert_eq!(title(&track), "A, B & C - <T>");
    track.artists = vec![String::new()];
    assert_eq!(title(&track), "<T>");
    track.artists = vec![String::new(), String::new()];
    assert_eq!(title(&track), ",  - <T>");
    assert_eq!(display_list(&vec!["a".to_string(), "b".to_string()]), "a, b");
}

#[test]
fn durations_are_in_minutes_and_seconds() {
    assert_eq!(format_duration(0), "0:00");
    assert_eq!(format_duration(999), "0:00");
    assert_eq!(format_duration(9_000), "0:09");
    assert_eq!(format_duration(59_999), "0:59");
    assert_eq!(format_duration(600_000), "10:00");
    assert_eq!(format_duration(6_039_000), "100:39");
    assert_eq!(format_duration(u128::MAX), format!("{}:{:02}", u128::MAX / 60_000, u128::MAX / 1000 % 60));
}

#[test]
fn no_links_leave_no_rows() {
    assert_eq!(render_external_links(&[]), "");
}

#[test]
fn different_texts_look_different() {
    let texts = ["<", "&lt;", "&amp;lt;", "'", "&#x27;", "/", "&#x2F;", "\"", "&quot;", "&"];
    let mut seen = Vec::new();
    for text in texts {
        let mut track = plain_track();
        track.title = text.to_string();
        let note = enml(&track, &[], None, None);
        assert!(!seen.contains(&note));
        assert_eq!(note.matches('<').count(), 24, "{note}");
        seen.push(note);
    }
}
