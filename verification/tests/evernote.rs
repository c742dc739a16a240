use std::collections::VecDeque;
use std::sync::{Arc, Mutex};

use yandex_music_likes_to_evernote::audio::{
    AudioAttachment, CoverAttachment, CoverImage, TrackAudio,
};
use yandex_music_likes_to_evernote::evernote_client::transport::{
    ThriftHttpChannel, ThriftHttpClient, ThriftHttpState,
};
use yandex_music_likes_to_evernote::evernote_client::{
    audio_resource, create_note_retry_delay, evernote_search_phrase, is_evernote_guid,
    note_resources, note_search, should_retry_evernote_error, source_url_search_query, CallError,
    CallErrorKind, EvernoteClient, EvernoteError, FoundNote, Note, NoteSearch, NoteStep, Notebook,
};

const NOTE_STORE_URL: &str = "https://www.evernote.com/shard/s1/notestore";
const USER_STORE_URL: &str = "https://www.evernote.com/edam/user";
const NOTEBOOK_GUID: &str = "00000000-0000-0000-0000-000000000001";
const SOURCE_URL: &str = "https://music.yandex.com/track/123";

fn tag_names() -> Vec<String> {
    vec!["music".to_string(), "liked tracks".to_string()]
}

/// What Evernote answers to one call.
enum Response {
    Urls(Result<Option<String>, String>),
    Notebooks(Result<Vec<Notebook>, String>),
    Created(Result<Option<String>, CallError>),
    Found(Result<Vec<FoundNote>, String>),
}

#[derive(Debug, PartialEq, Eq)]
struct Call {
    url: String,
    method: String,
}

fn call(url: &str, method: &str) -> Call {
    Call { url: url.to_string(), method: method.to_string() }
}

/// Answers calls as it was told to, and keeps what it was asked.
#[derive(Default)]
struct MockEvernote {
    responses: VecDeque<Response>,
    calls: Vec<Call>,
    created: Vec<Note>,
    searches: Vec<NoteSearch>,
    waits: Vec<u64>,
}

impl MockEvernote {
    fn push(&mut self, response: Response) {
        self.responses.push_back(response);
    }

    fn next(&mut self, url: &str, method: &str) -> Response {
        self.calls.push(call(url, method));
        self.responses.pop_front().expect("queued response")
    }

    fn run(
        &mut self,
        client: &mut EvernoteClient,
        first: NoteStep,
    ) -> Result<String, EvernoteError> {
        let mut step = first;
        loop {
            step = match step {
                NoteStep::GetUserUrls { url, note } => match self.next(&url, "getUserUrls") {
                    Response::Urls(reply) => client.after_user_urls(note, reply),
                    _ => panic!("unexpected call"),
                },
                NoteStep::ListNotebooks { url, note } => match self.next(&url, "listNotebooks") {
                    Response::Notebooks(reply) => client.after_notebooks(url, note, reply),
                    _ => panic!("unexpected call"),
                },
                NoteStep::CreateNote { url, note, retries } => {
                    self.created.push(note.clone());
                    match self.next(&url, "createNote") {
                        Response::Created(reply) => {
                            EvernoteClient::after_create(url, note, retries, reply)
                        }
                        _ => panic!("unexpected call"),
                    }
                }
                NoteStep::Wait { url, note, retries, seconds } => {
                    self.waits.push(seconds);
                    EvernoteClient::after_wait(url, note, retries)
                }
                NoteStep::FindNotes { url, search, note, retries } => {
                    self.searches.push(search);
                    match self.next(&url, "findNotesMetadata") {
                        Response::Found(reply) => {
                            EvernoteClient::after_find(url, note, retries, reply)
                        }
                        _ => panic!("unexpected call"),
                    }
                }
                NoteStep::Done { result } => return result,
            };
        }
    }

    fn create(
        &mut self,
        client: &mut EvernoteClient,
        title: &str,
        cover: Option<&CoverAttachment>,
        audio: Option<&AudioAttachment>,
    ) -> Result<String, EvernoteError> {
        let first = client.create_track_note(
            title.to_string(),
            "<en-note>Body</en-note>".to_string(),
            SOURCE_URL.to_string(),
            cover,
            audio,
        );
        self.run(client, first)
    }
}

fn created(guid: &str) -> Response {
    Response::Created(Ok(Some(guid.to_string())))
}

fn failed(kind: CallErrorKind, message: &str) -> Response {
    Response::Created(Err(CallError { kind, message: message.to_string() }))
}

fn client_for(note_store_url: Option<&str>, notebook: Option<&str>) -> EvernoteClient {
    EvernoteClient::new(
        "token".to_string(),
        note_store_url.map(|url| url.to_string()),
        USER_STORE_URL.to_string(),
        notebook.map(|notebook| notebook.to_string()),
        tag_names(),
    )
}

fn notebook(guid: &str, name: &str) -> Notebook {
    Notebook { guid: Some(guid.to_string()), name: Some(name.to_string()) }
}

fn found(guid: &str, source_url: &str) -> FoundNote {
    FoundNote { guid: guid.to_string(), source_url: Some(source_url.to_string()) }
}

#[test]
fn create_track_note_sends_create_note_request() {
    let mut http = MockEvernote::default();
    http.push(created("note-guid"));
    let mut client = client_for(Some(NOTE_STORE_URL), Some(NOTEBOOK_GUID));

    let guid = http.create(&mut client, "Title", None, None).expect("create note");

    assert_eq!(guid, "note-guid");
    assert_eq!(http.calls, vec![call(NOTE_STORE_URL, "createNote")]);
    assert_eq!(http.created.len(), 1);
    assert_eq!(client.token, "token");
    assert_eq!(http.created[0].title, "Title");
    assert_eq!(http.created[0].content, "<en-note>Body</en-note>");
    assert_eq!(http.created[0].notebook_guid.as_deref(), Some(NOTEBOOK_GUID));
    assert_eq!(
        http.created[0].tag_names,
        vec!["music".to_string(), "liked tracks".to_string()]
    );
    assert_eq!(http.created[0].source_url, SOURCE_URL);
    assert_eq!(http.created[0].source, "yandex-music-likes-to-evernote");
    assert_eq!(http.created[0].source_application, "yandex-music-likes-to-evernote/0.1.0");
    assert_eq!(http.created[0].resources, None);
}

#[test]
fn create_track_note_retries_transient_transport_error() {
    let mut http = MockEvernote::default();
    http.push(failed(CallErrorKind::Transport, "temporary transport error"));
    http.push(Response::Found(Ok(Vec::new())));
    http.push(created("note-guid"));
    let mut client = client_for(Some(NOTE_STORE_URL), Some(NOTEBOOK_GUID));

    let guid = http.create(&mut client, "Title", None, None).expect("retry create note");

    assert_eq!(guid, "note-guid");
    assert_eq!(
        http.calls,
        vec![
            call(NOTE_STORE_URL, "createNote"),
            call(NOTE_STORE_URL, "findNotesMetadata"),
            call(NOTE_STORE_URL, "createNote"),
        ]
    );
    assert_eq!(http.created.len(), 2);
    assert_eq!(http.created[0], http.created[1]);
    assert_eq!(http.searches.len(), 1);
    assert_eq!(http.searches[0].words, r#"sourceURL:"https://music.yandex.com/track/123""#);
}

#[test]
fn create_track_note_uses_existing_note_found_after_transport_error() {
    let mut http = MockEvernote::default();
    http.push(failed(CallErrorKind::Transport, "temporary transport error after create"));
    http.push(Response::Found(Ok(vec![found("existing-note-guid", SOURCE_URL)])));
    let mut client = client_for(Some(NOTE_STORE_URL), Some(NOTEBOOK_GUID));

    let guid = http.create(&mut client, "Title", None, None).expect("existing note");

    assert_eq!(guid, "existing-note-guid");
    assert_eq!(
        http.calls,
        vec![
            call(NOTE_STORE_URL, "createNote"),
            call(NOTE_STORE_URL, "findNotesMetadata"),
        ]
    );
    assert_eq!(http.created.len(), 1);
}

fn sample_audio() -> AudioAttachment {
    AudioAttachment::new(
        TrackAudio {
            bytes: b"hello".to_vec(),
            codec: "flac".to_string(),
            bitrate_kbps: 1411,
            quality: "lossless".to_string(),
        },
        "Artist - Title",
    )
}

fn sample_cover() -> CoverAttachment {
    CoverAttachment::new(
        CoverImage::new(b"cover".to_vec(), Some("image/png")).expect("cover image"),
    )
}

#[test]
fn create_track_note_attaches_audio_resource() {
    let mut http = MockEvernote::default();
    http.push(created("note-guid"));
    let mut client = client_for(Some(NOTE_STORE_URL), Some(NOTEBOOK_GUID));
    let audio = sample_audio();

    http.create(&mut client, "Title", None, Some(&audio)).expect("create note");

    assert_eq!(http.created.len(), 1);
    let resources = http.created[0].resources.as_ref().expect("note should carry resources");
    assert_eq!(resources.len(), 1);
    let resource = &resources[0];
    assert_eq!(resource.mime, "audio/flac");
    assert_eq!(resource.file_name, "Artist - Title.flac");
    assert!(resource.attachment);
    assert_eq!(resource.body, b"hello".to_vec());
    assert_eq!(resource.size, 5);
    assert_eq!(resource.body_hash.len(), 16, "body hash should be a raw MD5 digest");
}

#[test]
fn create_track_note_attaches_cover_resource() {
    let mut http = MockEvernote::default();
    http.push(created("note-guid"));
    let mut client = client_for(Some(NOTE_STORE_URL), Some(NOTEBOOK_GUID));
    let cover = sample_cover();

    http.create(&mut client, "Title", Some(&cover), None).expect("create note");

    assert_eq!(http.created.len(), 1);
    let resources = http.created[0].resources.as_ref().expect("note should carry resources");
    assert_eq!(resources.len(), 1);
    let resource = &resources[0];
    assert_eq!(resource.mime, "image/png");
    assert_eq!(resource.file_name, "cover.png");
    assert!(!resource.attachment);
    assert_eq!(resource.body, b"cover".to_vec());
    assert_eq!(resource.size, 5);
    assert_eq!(resource.body_hash.len(), 16, "body hash should be a raw MD5 digest");
}

#[test]
fn create_track_note_discovers_note_store_url_when_missing() {
    let mut http = MockEvernote::default();
    http.push(Response::Urls(Ok(Some(NOTE_STORE_URL.to_string()))));
    http.push(created("first-note-guid"));
    http.push(created("second-note-guid"));
    let mut client = client_for(None, Some(NOTEBOOK_GUID));

    let first_guid = http.create(&mut client, "First", None, None).expect("create first note");
    let second_guid = http.create(&mut client, "Second", None, None).expect("create second note");

    assert_eq!(first_guid, "first-note-guid");
    assert_eq!(second_guid, "second-note-guid");
    assert_eq!(
        http.calls,
        vec![
            call(USER_STORE_URL, "getUserUrls"),
            call(NOTE_STORE_URL, "createNote"),
            call(NOTE_STORE_URL, "createNote"),
        ]
    );
}

#[test]
fn create_track_note_resolves_notebook_name_once() {
    let mut http = MockEvernote::default();
    http.push(Response::Notebooks(Ok(vec![
        notebook("00000000-0000-0000-0000-000000000999", "Other"),
        notebook(NOTEBOOK_GUID, "Music Inbox"),
    ])));
    http.push(created("first-note-guid"));
    http.push(created("second-note-guid"));
    let mut client = client_for(Some(NOTE_STORE_URL), Some("Music Inbox"));

    let first_guid = http.create(&mut client, "First", None, None).expect("create first note");
    let second_guid = http.create(&mut client, "Second", None, None).expect("create second note");

    assert_eq!(first_guid, "first-note-guid");
    assert_eq!(second_guid, "second-note-guid");
    assert_eq!(
        http.calls,
        vec![
            call(NOTE_STORE_URL, "listNotebooks"),
            call(NOTE_STORE_URL, "createNote"),
            call(NOTE_STORE_URL, "createNote"),
        ]
    );
    assert_eq!(http.created.len(), 2);
    assert_eq!(http.created[0].notebook_guid.as_deref(), Some(NOTEBOOK_GUID));
    assert_eq!(http.created[1].notebook_guid.as_deref(), Some(NOTEBOOK_GUID));
}

#[test]
fn create_track_note_reports_missing_created_note_guid() {
    let mut http = MockEvernote::default();
    http.push(Response::Created(Ok(None)));
    let mut client = client_for(Some(NOTE_STORE_URL), Some(NOTEBOOK_GUID));

    let error = http
        .create(&mut client, "Title", None, None)
        .expect_err("missing note GUID should fail");

    assert_eq!(error.message(), "Evernote did not return a GUID for the created note");
}

#[test]
fn create_track_note_reports_missing_notebook_name() {
    let mut http = MockEvernote::default();
    http.push(Response::Notebooks(Ok(vec![notebook(NOTEBOOK_GUID, "Other")])));
    let mut client = client_for(Some(NOTE_STORE_URL), Some("Music Inbox"));

    let error = http
        .create(&mut client, "Title", None, None)
        .expect_err("missing notebook should fail");

    assert_eq!(error.message(), "Evernote notebook named 'Music Inbox' was not found");
}

#[test]
fn create_track_note_reports_duplicate_notebook_names() {
    let mut http = MockEvernote::default();
    http.push(Response::Notebooks(Ok(vec![
        notebook("00000000-0000-0000-0000-000000000111", "Music Inbox"),
        notebook("00000000-0000-0000-0000-000000000222", "Music Inbox"),
    ])));
    let mut client = client_for(Some(NOTE_STORE_URL), Some("Music Inbox"));

    let error = http
        .create(&mut client, "Title", None, None)
        .expect_err("duplicate notebook should fail");

    assert_eq!(
        error.message(),
        "Evernote returned more than one notebook named 'Music Inbox'"
    );
}

#[test]
fn detects_evernote_guid_shape() {
    assert!(is_evernote_guid(NOTEBOOK_GUID));
    assert!(!is_evernote_guid("Music Inbox"));
    assert!(!is_evernote_guid("notebook-guid"));
}

#[test]
fn guid_shape_is_exact() {
    assert!(is_evernote_guid("abcdefAB-CDEF-0123-4567-89abcdef0123"));
    assert!(!is_evernote_guid("gbcdefAB-CDEF-0123-4567-89abcdef0123"));
    assert!(!is_evernote_guid("abcdefAB0CDEF-0123-4567-89abcdef0123"));
    assert!(!is_evernote_guid("abcdefAB-CDEF-0123-4567-89abcdef012"));
    assert!(!is_evernote_guid("abcdefAB-CDEF-0123-4567-89abcdef01234"));
    assert!(!is_evernote_guid("жbcdefA-CDEF-0123-4567-89abcdef0123"));
    assert!(!is_evernote_guid(""));
}

#[test]
fn creation_is_tried_three_times() {
    let mut http = MockEvernote::default();
    http.push(failed(CallErrorKind::Protocol, "first"));
    http.push(Response::Found(Ok(vec![found("other", "https://example.test/")])));
    http.push(failed(CallErrorKind::Application, "second"));
    http.push(Response::Found(Err("search failed".to_string())));
    http.push(failed(CallErrorKind::Transport, "third"));
    let mut client = client_for(Some(NOTE_STORE_URL), None);

    let error = http.create(&mut client, "Title", None, None).expect_err("gives up");

    assert_eq!(error.message(), "Evernote API error: third");
    assert_eq!(http.created.len(), 3);
    assert_eq!(http.created[2].notebook_guid, None);
    assert_eq!(http.waits, vec![10, 30]);
    assert_eq!(http.searches.len(), 2);
}

#[test]
fn refused_notes_are_not_tried_again() {
    let mut http = MockEvernote::default();
    http.push(failed(CallErrorKind::User, "quota reached"));
    let mut client = client_for(Some(NOTE_STORE_URL), None);

    let error = http.create(&mut client, "Title", None, None).expect_err("refused");

    assert_eq!(error, EvernoteError::Api { message: "quota reached".to_string() });
    assert_eq!(http.calls.len(), 1);
}

#[test]
fn lookup_errors_end_the_creation() {
    let mut http = MockEvernote::default();
    http.push(Response::Urls(Ok(None)));
    http.push(Response::Urls(Err("denied".to_string())));
    http.push(Response::Urls(Ok(Some(NOTE_STORE_URL.to_string()))));
    http.push(Response::Notebooks(Err("down".to_string())));
    http.push(Response::Notebooks(Ok(vec![Notebook {
        guid: None,
        name: Some("Music Inbox".to_string()),
    }])));
    let mut client = client_for(None, Some("Music Inbox"));

    let mut message = || {
        http.create(&mut client, "Title", None, None).expect_err("lookup fails").message()
    };
    assert_eq!(message(), "Evernote UserStore did not return a NoteStore URL");
    assert_eq!(message(), "Evernote UserStore API error: denied");
    assert_eq!(message(), "Evernote API error: down");
    assert_eq!(message(), "Evernote notebook named 'Music Inbox' did not include a GUID");
    assert_eq!(client.resolved_note_store_url.as_deref(), Some(NOTE_STORE_URL));
    assert_eq!(client.resolved_notebook_guid, None);
}

#[test]
fn resources_come_cover_first() {
    assert_eq!(note_resources(None, None), None);
    let (cover, audio) = (sample_cover(), sample_audio());
    let resources = note_resources(Some(&cover), Some(&audio)).expect("resources");
    let names: Vec<&str> = resources.iter().map(|r| r.file_name.as_str()).collect();
    assert_eq!(names, vec!["cover.png", "Artist - Title.flac"]);
    assert_eq!(audio_resource(&audio).body_hash, md5::compute(b"hello").0.to_vec());
}

#[test]
fn searches_quote_what_they_look_for() {
    assert_eq!(evernote_search_phrase("a\"b\\"), "\"a\\\"b\\\\\"");
    assert_eq!(source_url_search_query("u"), "sourceURL:\"u\"");
}

#[test]
fn retries_follow_the_kind_of_error() {
    let retried = |kind| {
        should_retry_evernote_error(&CallError { kind, message: String::new() })
    };
    assert!(retried(CallErrorKind::Transport));
    assert!(retried(CallErrorKind::Protocol));
    assert!(retried(CallErrorKind::Application));
    assert!(!retried(CallErrorKind::User));
    assert_eq!(create_note_retry_delay(0), 10);
    assert_eq!(create_note_retry_delay(1), 30);
    assert_eq!(create_note_retry_delay(99), 30);
}

#[derive(Clone, Default)]
struct MockHttp {
    sent: Arc<Mutex<Vec<(String, Vec<u8>)>>>,
    replies: Arc<Mutex<VecDeque<Result<Vec<u8>, String>>>>,
}

impl ThriftHttpClient for MockHttp {
    fn post_thrift(&self, url: &str, body: Vec<u8>) -> Result<Vec<u8>, String> {
        self.sent.lock().expect("lock").push((url.to_string(), body));
        self.replies.lock().expect("lock").pop_front().expect("queued reply")
    }
}

#[test]
fn flush_sends_what_was_written_and_reads_the_answer() {
    let http = MockHttp::default();
    http.replies.lock().expect("lock").push_back(Ok(vec![1, 2, 3, 4, 5]));
    http.replies.lock().expect("lock").push_back(Err("no route".to_string()));
    let mut channel = ThriftHttpChannel::new("https://example.test/".to_string(), http.clone());

    assert_eq!(channel.write(&[9, 8]), 2);
    assert_eq!(channel.write(&[7]), 1);
    assert_eq!(channel.flush(), Ok(()));
    let mut buf = [0u8; 3];
    assert_eq!(channel.read(&mut buf), 3);
    assert_eq!(buf, [1, 2, 3]);

    assert_eq!(channel.write(&[6]), 1);
    assert_eq!(channel.flush(), Err("no route".to_string()));
    assert_eq!(channel.read(&mut buf), 2);
    assert_eq!(buf, [4, 5, 3]);
    assert_eq!(channel.read(&mut buf), 0);
    assert_eq!(
        *http.sent.lock().expect("lock"),
        vec![
            ("https://example.test/".to_string(), vec![9, 8, 7]),
            ("https://example.test/".to_string(), vec![6]),
        ]
    );
}

#[test]
fn new_buffers_are_empty() {
    let mut state = ThriftHttpState::new();
    assert_eq!(state.read(&mut [0u8; 4]), 0);
    assert!(state.take_request().is_empty());
    assert_eq!(state.accept_response(Ok(vec![1])), Ok(()));
    assert_eq!(state.read(&mut [0u8; 4]), 1);
}

#[test]
fn writes_go_out_joined_and_answers_come_back_in_order() {
    let http = MockHttp::default();
    for reply in [Err("no route".to_string()), Ok(vec![1, 2, 3, 4, 5]), Ok(Vec::new())] {
        http.replies.lock().expect("lock").push_back(reply);
    }
    let mut channel = ThriftHttpChannel::new("https://example.test/".to_string(), http.clone());
    for bytes in [&[1u8, 2][..], &[], &[3]] {
        channel.write(bytes);
    }
    assert!(channel.flush().is_err());
    channel.write(&[4]);
    assert!(channel.flush().is_ok());
    let mut read = Vec::new();
    for size in [2, 0, 1, 9, 9] {
        let mut buf = vec![0u8; size];
        let count = channel.read(&mut buf);
        read.extend_from_slice(&buf[..count]);
        channel.write(&[7]);
    }
    assert_eq!(read, vec![1, 2, 3, 4, 5]);
    assert!(channel.flush().is_ok());
    let bodies: Vec<Vec<u8>> =
        http.sent.lock().expect("lock").iter().map(|sent| sent.1.clone()).collect();
    assert_eq!(bodies, vec![vec![1, 2, 3], vec![4], vec![7; 5]]);
}

#[test]
fn search_for_a_lost_note_is_complete() {
    let note = Note {
        title: "Title".to_string(),
        content: "Body".to_string(),
        notebook_guid: Some(NOTEBOOK_GUID.to_string()),
        source: "source".to_string(),
        source_url: "a\"b".to_string(),
        source_application: "application".to_string(),
        tag_names: Vec::new(),
        resources: None,
    };
    assert_eq!(
        note_search(&note),
        NoteSearch {
            words: "sourceURL:\"a\\\"b\"".to_string(),
            notebook_guid: Some(NOTEBOOK_GUID.to_string()),
            inactive: false,
            offset: 0,
            max_notes: 5,
            include_attributes: true,
            include_notebook_guid: true,
        }
    );
}
