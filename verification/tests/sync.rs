use std::collections::VecDeque;

use yandex_music_likes_to_evernote::audio::{CoverImage, TrackAudio};
use yandex_music_likes_to_evernote::config::Settings;
use yandex_music_likes_to_evernote::enrichment::links::ExternalLink;
use yandex_music_likes_to_evernote::state::State;
use yandex_music_likes_to_evernote::sync::{select_tracks, track_note, SyncRun, SyncStep};
use yandex_music_likes_to_evernote::timestamp::Timestamp;
use yandex_music_likes_to_evernote::yandex::LikedTrack;

#[derive(Debug, PartialEq, Eq)]
struct CreatedNote {
    title: String,
    source_url: String,
}

fn created_note(title: &str, source_url: &str) -> CreatedNote {
    CreatedNote { title: title.to_string(), source_url: source_url.to_string() }
}

/// Does what a run asks for, with the results it was given.
#[derive(Default)]
struct MockWorld {
    notes: VecDeque<Result<String, String>>,
    audio: VecDeque<Result<Option<TrackAudio>, String>>,
    cover: VecDeque<Result<Option<CoverImage>, String>>,
    links: Vec<ExternalLink>,
    failing_save: Option<usize>,
    created: Vec<CreatedNote>,
    contents: Vec<String>,
    previews: Vec<String>,
    saved: Vec<State>,
    enriched: usize,
}

fn now() -> Timestamp {
    Timestamp::new(1_782_216_000, 0).expect("valid time")
}

impl MockWorld {
    fn save(&mut self, state: &State) -> Result<(), String> {
        if self.failing_save == Some(self.saved.len()) {
            return Err("disk full".to_string());
        }
        self.saved.push(state.clone());
        Ok(())
    }

    fn run(&mut self, run: &mut SyncRun) -> Result<(), String> {
        let mut step = run.next_step();
        loop {
            step = match step {
                SyncStep::DownloadAudio { track } => {
                    let audio = self.audio.pop_front().expect("queued audio");
                    run.after_audio(track, audio)
                }
                SyncStep::Enrich { track, audio } => {
                    self.enriched += 1;
                    run.after_links(track, audio, self.links.clone())
                }
                SyncStep::Preview { track_id, title, url } => {
                    self.previews.push(format!("{track_id}|{title}|{url}"));
                    run.next_step()
                }
                SyncStep::DownloadCover { track, links, audio, cover_url } => {
                    assert_eq!(track.cover_url, Some(cover_url));
                    let cover = self.cover.pop_front().expect("queued cover");
                    SyncRun::after_cover(track, links, audio, cover)
                }
                SyncStep::CreateNote { note } => {
                    self.created.push(CreatedNote {
                        title: note.title,
                        source_url: note.source_url,
                    });
                    self.contents.push(note.content);
                    let result = self.notes.pop_front().expect("queued note result");
                    run.after_note(note.track_id, result)
                }
                SyncStep::Save => {
                    let saved = self.save(&run.state);
                    run.after_save(saved)
                }
                SyncStep::Stamp => run.after_stamp(now()),
                SyncStep::SaveLast => {
                    let saved = self.save(&run.state);
                    SyncRun::after_last_save(saved)
                }
                SyncStep::Done => return Ok(()),
                SyncStep::Failed { message } => return Err(message),
            };
        }
    }

    fn last_saved(&self) -> State {
        self.saved.last().cloned().unwrap_or_default()
    }
}

fn test_settings() -> Settings {
    Settings {
        yandex_music_token: "yandex-token".to_string(),
        evernote_auth_token: "evernote-token".to_string(),
        evernote_note_store_url: Some("https://example.test/notestore".to_string()),
        evernote_user_store_url: "https://example.test/user".to_string(),
        evernote_notebook_guid: None,
        evernote_tags: "yandex-music".to_string(),
        state_path: "state.json".to_string(),
        dry_run: false,
        max_tracks_per_run: 0,
        backup_audio: false,
        enrich_external_links: false,
        genius_access_token: None,
        acoustid_api_key: None,
        enabled_external_link_services: String::new(),
        disabled_external_link_services: String::new(),
        songlink_user_country: "US".to_string(),
    }
}

fn liked_track(id: &str, title: &str) -> LikedTrack {
    LikedTrack {
        id: id.to_string(),
        title: title.to_string(),
        artists: vec!["Artist".to_string()],
        artist_links: Vec::new(),
        albums: Vec::new(),
        album_links: Vec::new(),
        duration_ms: None,
        cover_url: None,
        yandex_url: format!("https://music.yandex.com/track/{id}"),
        liked_at: Timestamp::new(1_782_216_000, 0).expect("valid liked_at"),
    }
}

#[test]
fn failed_note_creation_does_not_mark_track_processed() {
    let mut world = MockWorld::default();
    world.notes.push_back(Err("Evernote transport failed".to_string()));
    let tracks = vec![liked_track("track-1", "Track One")];
    let mut run = SyncRun::new(&test_settings(), State::default(), tracks);

    let error = world.run(&mut run).expect_err("note creation should fail");
    let state = world.last_saved();

    assert_eq!(error, "Evernote transport failed");
    assert!(!state.contains("track-1"));
    assert!(!run.state.contains("track-1"));
    assert_eq!(
        world.created,
        vec![created_note("Artist - Track One", "https://music.yandex.com/track/track-1")]
    );
}

#[test]
fn successful_note_creation_saves_state_before_later_failure() {
    let mut world = MockWorld::default();
    world.notes.push_back(Ok("guid-1".to_string()));
    world.notes.push_back(Err("Evernote transport failed".to_string()));
    let tracks = vec![
        liked_track("track-1", "Track One"),
        liked_track("track-2", "Track Two"),
    ];
    let mut run = SyncRun::new(&test_settings(), State::default(), tracks);

    world.run(&mut run).expect_err("second note should fail");
    let state = world.last_saved();

    assert!(state.contains("track-1"));
    assert!(!state.contains("track-2"));
    assert!(state.last_successful_sync_at().is_none());
}

#[test]
fn next_run_skips_processed_ids_and_exports_remaining_likes() {
    let mut state = State::default();
    state.mark_processed("track-1".to_string());
    let mut world = MockWorld::default();
    world.notes.push_back(Ok("guid-2".to_string()));
    world.notes.push_back(Ok("guid-3".to_string()));
    let tracks = vec![
        liked_track("track-1", "Track One"),
        liked_track("track-2", "Track Two"),
        liked_track("track-3", "Track Three"),
    ];
    let mut run = SyncRun::new(&test_settings(), state, tracks);

    world.run(&mut run).expect("sync");
    let state = world.last_saved();

    assert!(state.contains("track-1"));
    assert!(state.contains("track-2"));
    assert!(state.contains("track-3"));
    assert!(state.last_successful_sync_at().is_some());
    assert_eq!(state.last_successful_sync_at(), Some(now()));
    assert_eq!(world.saved.len(), 3);
    assert_eq!(
        world.created,
        vec![
            created_note("Artist - Track Two", "https://music.yandex.com/track/track-2"),
            created_note("Artist - Track Three", "https://music.yandex.com/track/track-3"),
        ]
    );
}

fn tracks(n: usize) -> Vec<LikedTrack> {
    (0..n).map(|i| liked_track(&format!("t{i}"), &format!("Title {i}"))).collect()
}

fn ids(tracks: &[LikedTrack]) -> Vec<&str> {
    tracks.iter().map(|track| track.id.as_str()).collect()
}

#[test]
fn runs_are_limited() {
    let mut state = State::default();
    state.mark_processed("t1".to_string());
    assert_eq!(ids(&select_tracks(tracks(5), &state, 2)), vec!["t0", "t2"]);
    assert_eq!(ids(&select_tracks(tracks(5), &state, 4)), vec!["t0", "t2", "t3", "t4"]);
    assert_eq!(ids(&select_tracks(tracks(5), &state, 9)), vec!["t0", "t2", "t3", "t4"]);
    assert_eq!(ids(&select_tracks(tracks(5), &state, 0)), vec!["t0", "t2", "t3", "t4"]);

    let mut settings = test_settings();
    settings.max_tracks_per_run = 1;
    assert_eq!(ids(&SyncRun::new(&settings, State::default(), tracks(3)).tracks), vec!["t0"]);
}

#[test]
fn dry_run_changes_nothing() {
    let mut settings = test_settings();
    settings.dry_run = true;
    settings.backup_audio = true;
    settings.enrich_external_links = true;
    let mut liked = tracks(2);
    liked[0].cover_url = Some("https://example.test/cover".to_string());
    let mut world = MockWorld::default();
    let mut run = SyncRun::new(&settings, State::default(), liked);

    assert_eq!(world.run(&mut run), Ok(()));

    assert_eq!(
        world.previews,
        vec![
            "t0|Artist - Title 0|https://music.yandex.com/track/t0",
            "t1|Artist - Title 1|https://music.yandex.com/track/t1",
        ]
    );
    assert_eq!(world.enriched, 2);
    assert!(world.created.is_empty() && world.saved.is_empty());
    assert!(run.state.processed_track_ids().is_empty());
    assert!(run.state.last_successful_sync_at().is_none());
}

fn sound() -> TrackAudio {
    TrackAudio {
        bytes: b"hello".to_vec(),
        codec: "flac".to_string(),
        bitrate_kbps: 0,
        quality: "lossless".to_string(),
    }
}

#[test]
fn failed_audio_leaves_the_track_for_the_next_run() {
    let mut settings = test_settings();
    settings.backup_audio = true;
    let mut world = MockWorld::default();
    world.audio.push_back(Err("host down".to_string()));
    world.audio.push_back(Ok(Some(sound())));
    world.audio.push_back(Ok(None));
    world.notes.push_back(Ok("guid-1".to_string()));
    world.notes.push_back(Ok("guid-2".to_string()));
    let mut run = SyncRun::new(&settings, State::default(), tracks(3));

    assert_eq!(world.run(&mut run), Ok(()));

    let state = world.last_saved();
    assert_eq!(state.processed_track_ids(), vec!["t1", "t2"]);
    assert!(state.last_successful_sync_at().is_some());
    assert!(world.contents[0].contains("hash=\"5d41402abc4b2a76b9719d911017c592\""));
    assert!(!world.contents[1].contains("<en-media"));
    let next = SyncRun::new(&settings, state, tracks(3));
    assert_eq!(ids(&next.tracks), vec!["t0"]);
}

#[test]
fn failed_cover_does_not_keep_the_note() {
    let mut liked = tracks(3);
    for track in &mut liked {
        track.cover_url = Some("https://example.test/cover".to_string());
    }
    let mut world = MockWorld::default();
    let image = CoverImage { bytes: b"hello".to_vec(), mime: "image/png".to_string() };
    world.cover.push_back(Err("host down".to_string()));
    world.cover.push_back(Ok(None));
    world.cover.push_back(Ok(Some(image)));
    for _ in 0..3 {
        world.notes.push_back(Ok("guid".to_string()));
    }
    let mut run = SyncRun::new(&test_settings(), State::default(), liked);

    assert_eq!(world.run(&mut run), Ok(()));

    assert_eq!(world.created.len(), 3);
    let shown: Vec<bool> =
        world.contents.iter().map(|content| content.contains("<en-media")).collect();
    assert_eq!(shown, vec![false, false, true]);
}

#[test]
fn links_come_into_the_note() {
    let mut settings = test_settings();
    settings.enrich_external_links = true;
    let mut world = MockWorld::default();
    world.links = vec![ExternalLink::new("Label", "https://example.test/".to_string())];
    world.notes.push_back(Ok("guid".to_string()));
    let mut run = SyncRun::new(&settings, State::default(), tracks(1));

    assert_eq!(world.run(&mut run), Ok(()));

    assert!(world.contents[0].contains("<a href=\"https:&#x2F;&#x2F;example.test&#x2F;\">Label</a>"));
}

#[test]
fn state_that_cannot_be_saved_ends_the_run() {
    for failing in 0..3 {
        let mut world = MockWorld { failing_save: Some(failing), ..MockWorld::default() };
        world.notes.push_back(Ok("guid-0".to_string()));
        world.notes.push_back(Ok("guid-1".to_string()));
        let mut run = SyncRun::new(&test_settings(), State::default(), tracks(2));

        assert_eq!(world.run(&mut run), Err("disk full".to_string()));

        assert_eq!(world.saved.len(), failing);
        assert_eq!(world.created.len(), 2.min(failing + 1));
    }
}

#[test]
fn note_carries_what_was_downloaded() {
    let image = CoverImage { bytes: b"cover".to_vec(), mime: "image/jpeg".to_string() };
    let note = track_note(liked_track("1", "A/B"), Vec::new(), Some(image), Some(sound()));
    assert_eq!(note.track_id, "1");
    assert_eq!(note.title, "Artist - A/B");
    let audio = note.audio.expect("audio");
    assert_eq!(audio.file_name, "Artist - A_B.flac");
    assert_eq!(audio.body, b"hello".to_vec());
    let cover = note.cover.expect("cover");
    assert_eq!(cover.file_name, "cover.jpg");
    for digest in [audio.md5_hex(), cover.md5_hex()] {
        assert!(note.content.contains(&format!("hash=\"{digest}\"")));
    }
}

#[test]
fn state_remembers_ids_once() {
    let mut state = State::default();
    assert!(!state.contains("a"));
    state.mark_processed("a".to_string());
    state.mark_processed("b".to_string());
    state.mark_processed("a".to_string());
    assert!(state.contains("a") && state.contains("b") && !state.contains("c"));
    assert_eq!(state.processed_track_ids(), vec!["a", "b"]);
    let restored = State::restore(state.processed_track_ids(), Some(now()));
    assert!(restored.contains("b"));
    assert_eq!(restored.last_successful_sync_at(), Some(now()));
}

#[test]
fn track_liked_twice_is_left_if_both_downloads_fail() {
    let mut settings = test_settings();
    settings.backup_audio = true;
    let liked = vec![liked_track("a", "A"), liked_track("b", "B"), liked_track("a", "A")];
    let mut world = MockWorld::default();
    world.audio.push_back(Err("host down".to_string()));
    world.audio.push_back(Ok(None));
    world.audio.push_back(Err("host down".to_string()));
    world.notes.push_back(Ok("guid".to_string()));
    let mut run = SyncRun::new(&settings, State::default(), liked);

    assert_eq!(world.run(&mut run), Ok(()));

    assert_eq!(world.last_saved().processed_track_ids(), vec!["b"]);
}
