//! Creating notes in Evernote: which call comes next, and what becomes of its
//! answer. The calls themselves are made elsewhere: each [`NoteStep`] says which
//! one to make, and the client is told what came of it.
use vstd::prelude::*;

use crate::audio::{AudioAttachment, CoverAttachment};
use crate::escape::{escape_quotes, quote_escaped};
use crate::note::referred;
use crate::text::{copy_strings, opt_text, texts};

pub mod endpoint;
pub mod laws;
pub mod note_laws;
pub mod transport;

verus! {

/// The name under which the program talks to servers.
pub const CLIENT_NAME: &'static str = "yandex-music-likes-to-evernote/0.1.0";

/// The name under which notes are filed as their source.
pub const NOTE_SOURCE: &'static str = "yandex-music-likes-to-evernote";

/// How often the creation of a note is tried at most.
pub const CREATE_NOTE_MAX_ATTEMPTS: usize = 3;

/// How many notes a search for an existing note returns at most.
pub const MAX_FOUND_NOTES: i32 = 5;

// ---------------------------------------------------------------------------
// Notes
// ---------------------------------------------------------------------------
/// An attachment of a note.
#[derive(Debug, Clone, PartialEq, Eq)]
pub struct Resource {
    pub body_hash: Vec<u8>,
    pub size: i32,
    pub body: Vec<u8>,
    pub mime: String,
    pub file_name: String,
    pub attachment: bool,
}

/// What a [`Resource`] says.
pub struct ResourceView {
    pub body_hash: Seq<u8>,
    pub size: i32,
    pub body: Seq<u8>,
    pub mime: Seq<char>,
    pub file_name: Seq<char>,
    pub attachment: bool,
}

impl View for Resource {
    type V = ResourceView;

    open spec fn view(&self) -> ResourceView {
        ResourceView {
            body_hash: self.body_hash@,
            size: self.size,
            body: self.body@,
            mime: self.mime@,
            file_name: self.file_name@,
            attachment: self.attachment,
        }
    }
}

/// A note.
#[derive(Debug, Clone, PartialEq, Eq)]
pub struct Note {
    pub title: String,
    pub content: String,
    pub notebook_guid: Option<String>,
    pub source: String,
    pub source_url: String,
    pub source_application: String,
    pub tag_names: Vec<String>,
    pub resources: Option<Vec<Resource>>,
}

/// What a [`Note`] says.
pub struct NoteView {
    pub title: Seq<char>,
    pub content: Seq<char>,
    pub notebook_guid: Option<Seq<char>>,
    pub source: Seq<char>,
    pub source_url: Seq<char>,
    pub source_application: Seq<char>,
    pub tag_names: Seq<Seq<char>>,
    pub resources: Option<Seq<ResourceView>>,
}

/// What a list of resources says.
pub open spec fn resource_views(resources: Option<Vec<Resource>>) -> Option<Seq<ResourceView>> {
    match resources {
        Some(resources) => Some(resources@.map_values(|resource: Resource| resource@)),
        None => None,
    }
}

impl View for Note {
    type V = NoteView;

    open spec fn view(&self) -> NoteView {
        NoteView {
            title: self.title@,
            content: self.content@,
            notebook_guid: opt_text(self.notebook_guid),
            source: self.source@,
            source_url: self.source_url@,
            source_application: self.source_application@,
            tag_names: texts(self.tag_names@),
            resources: resource_views(self.resources),
        }
    }
}

/// A number of bytes as Evernote takes it.
pub open spec fn evernote_size(size: nat) -> int {
    if size <= i32::MAX {
        size as int
    } else {
        i32::MAX as int
    }
}

/// The resource for a cover: shown in the note.
pub open spec fn cover_resource_view(cover: CoverAttachment) -> ResourceView {
    ResourceView {
        body_hash: cover.md5@,
        size: evernote_size(cover.body@.len()) as i32,
        body: cover.body@,
        mime: cover.mime@,
        file_name: cover.file_name@,
        attachment: false,
    }
}

/// The resource for audio: attached to the note.
pub open spec fn audio_resource_view(audio: AudioAttachment) -> ResourceView {
    ResourceView {
        body_hash: audio.md5@,
        size: evernote_size(audio.body@.len()) as i32,
        body: audio.body@,
        mime: audio.mime@,
        file_name: audio.file_name@,
        attachment: true,
    }
}

/// A number of bytes as Evernote takes it.
fn clamped_size(size: usize) -> (res: i32)
    ensures
        res == evernote_size(size as nat),
{
    if size <= 0x7fff_ffff {
        size as i32
    } else {
        i32::MAX
    }
}

/// A copy of a byte string.
fn copy_bytes(bytes: &Vec<u8>) -> (res: Vec<u8>)
    ensures
        res@ == bytes@,
{
    let mut res: Vec<u8> = Vec::new();
    res.extend_from_slice(bytes.as_slice());
    assert(res@ =~= bytes@);
    res
}

/// The resource for `cover`.
pub fn cover_resource(cover: &CoverAttachment) -> (res: Resource)
    ensures
        res@ == cover_resource_view(*cover),
{
    Resource {
        body_hash: cover.md5_raw(),
        size: clamped_size(cover.size()),
        body: copy_bytes(&cover.body),
        mime: cover.mime.clone(),
        file_name: cover.file_name.clone(),
        attachment: false,
    }
}

/// The resource for `audio`.
pub fn audio_resource(audio: &AudioAttachment) -> (res: Resource)
    ensures
        res@ == audio_resource_view(*audio),
{
    Resource {
        body_hash: audio.md5_raw(),
        size: clamped_size(audio.size()),
        body: copy_bytes(&audio.body),
        mime: audio.mime.clone(),
        file_name: audio.file_name.clone(),
        attachment: true,
    }
}

/// The resources of a note: the cover and then the audio, as far as there are
/// any.
pub open spec fn resources_for(
    cover: Option<CoverAttachment>,
    audio: Option<AudioAttachment>,
) -> Option<Seq<ResourceView>> {
    match (cover, audio) {
        (Some(cover), Some(audio)) => Some(
            seq![cover_resource_view(cover), audio_resource_view(audio)],
        ),
        (Some(cover), None) => Some(seq![cover_resource_view(cover)]),
        (None, Some(audio)) => Some(seq![audio_resource_view(audio)]),
        (None, None) => None,
    }
}

/// The resources of a note.
pub fn note_resources(cover: Option<&CoverAttachment>, audio: Option<&AudioAttachment>) -> (res:
    Option<Vec<Resource>>)
    ensures
        resource_views(res) == resources_for(referred(cover), referred(audio)),
{
    let mut resources: Vec<Resource> = Vec::new();
    if let Some(cover) = cover {
        resources.push(cover_resource(cover));
    }
    if let Some(audio) = audio {
        resources.push(audio_resource(audio));
    }
    if resources.len() == 0 {
        None
    } else {
        proof {
            let views = resources@.map_values(|resource: Resource| resource@);
            assert(views =~= resources_for(referred(cover), referred(audio))->0);
        }
        Some(resources)
    }
}

// ---------------------------------------------------------------------------
// Names and searches
// ---------------------------------------------------------------------------
/// A hexadecimal digit.
pub open spec fn hex_digit_byte(b: u8) -> bool {
    (0x30 <= b <= 0x39) || (0x41 <= b <= 0x46) || (0x61 <= b <= 0x66)
}

/// Where the hyphens of a GUID stand.
pub open spec fn guid_hyphen(i: int) -> bool {
    i == 8 || i == 13 || i == 18 || i == 23
}

/// The text has the shape of a GUID: 36 characters, with hyphens in their four
/// places and hexadecimal digits everywhere else.
pub open spec fn guid_shape(s: Seq<char>) -> bool {
    let bytes = vstd::utf8::encode_utf8(s);
    &&& bytes.len() == 36
    &&& forall|i: int|
        0 <= i < 36 ==> if guid_hyphen(i) {
            #[trigger] bytes[i] == 0x2d
        } else {
            hex_digit_byte(bytes[i])
        }
}

/// Whether `value` has the shape of a GUID.
pub fn is_evernote_guid(value: &str) -> (res: bool)
    ensures
        res == guid_shape(value@),
{
    let bytes = value.as_bytes();
    if bytes.len() != 36 {
        return false;
    }
    for i in 0..36usize
        invariant
            bytes@ == vstd::utf8::encode_utf8(value@),
            bytes@.len() == 36,
            forall|j: int|
                0 <= j < i ==> if guid_hyphen(j) {
                    #[trigger] bytes@[j] == 0x2d
                } else {
                    hex_digit_byte(bytes@[j])
                },
    {
        let b = bytes[i];
        let fits = if i == 8 || i == 13 || i == 18 || i == 23 {
            b == 0x2d
        } else {
            (0x30 <= b && b <= 0x39) || (0x41 <= b && b <= 0x46) || (0x61 <= b && b <= 0x66)
        };
        if !fits {
            assert(bytes@[i as int] == b);
            return false;
        }
    }
    true
}

/// A phrase in a search: in double quotes, with those inside it escaped.
pub open spec fn search_phrase(value: Seq<char>) -> Seq<char> {
    "\""@ + quote_escaped(value) + "\""@
}

/// A phrase in a search.
pub fn evernote_search_phrase(value: &str) -> (res: String)
    ensures
        res@ == search_phrase(value@),
{
    let mut res = "\"".to_owned();
    res.append(escape_quotes(value).as_str());
    res.append("\"");
    res
}

/// The search for notes with a source address.
pub open spec fn source_url_search(source_url: Seq<char>) -> Seq<char> {
    "sourceURL:"@ + search_phrase(source_url)
}

/// The search for notes with a source address.
pub fn source_url_search_query(source_url: &str) -> (res: String)
    ensures
        res@ == source_url_search(source_url@),
{
    let mut res = "sourceURL:".to_owned();
    res.append(evernote_search_phrase(source_url).as_str());
    res
}

/// A search for notes.
#[derive(Debug, Clone, PartialEq, Eq)]
pub struct NoteSearch {
    pub words: String,
    pub notebook_guid: Option<String>,
    /// Whether to search the notes in the trash, in place of the others.
    pub inactive: bool,
    pub offset: i32,
    pub max_notes: i32,
    /// Whether the attributes of the notes, their source address among them, are to
    /// come with what is found.
    pub include_attributes: bool,
    pub include_notebook_guid: bool,
}

/// What a [`NoteSearch`] says.
pub struct NoteSearchView {
    pub words: Seq<char>,
    pub notebook_guid: Option<Seq<char>>,
    pub inactive: bool,
    pub offset: i32,
    pub max_notes: i32,
    pub include_attributes: bool,
    pub include_notebook_guid: bool,
}

impl View for NoteSearch {
    type V = NoteSearchView;

    open spec fn view(&self) -> NoteSearchView {
        NoteSearchView {
            words: self.words@,
            notebook_guid: opt_text(self.notebook_guid),
            inactive: self.inactive,
            offset: self.offset,
            max_notes: self.max_notes,
            include_attributes: self.include_attributes,
            include_notebook_guid: self.include_notebook_guid,
        }
    }
}

/// The search for a note that was created in spite of an error: by its source
/// address, in its notebook, among the notes that are not in the trash. The
/// attributes come with what is found, since the source address is compared.
pub open spec fn search_for(note: NoteView) -> NoteSearchView {
    NoteSearchView {
        words: source_url_search(note.source_url),
        notebook_guid: note.notebook_guid,
        inactive: false,
        offset: 0,
        max_notes: MAX_FOUND_NOTES,
        include_attributes: true,
        include_notebook_guid: true,
    }
}

/// The search for a note that was created in spite of an error.
pub fn note_search(note: &Note) -> (res: NoteSearch)
    ensures
        res@ == search_for(note@),
{
    NoteSearch {
        words: source_url_search_query(note.source_url.as_str()),
        notebook_guid: copy_option(&note.notebook_guid),
        inactive: false,
        offset: 0,
        max_notes: MAX_FOUND_NOTES,
        include_attributes: true,
        include_notebook_guid: true,
    }
}

/// How many seconds to wait after the given attempt, counted from 0: 10 after the
/// first and 30 after any other.
pub open spec fn create_note_delay(index: nat) -> nat {
    if index == 0 {
        10
    } else {
        30
    }
}

/// How many seconds to wait after the given attempt.
pub fn create_note_retry_delay(backoff_index: usize) -> (res: u64)
    ensures
        res == create_note_delay(backoff_index as nat),
{
    if backoff_index == 0 {
        10
    } else {
        30
    }
}

// ---------------------------------------------------------------------------
// Answers
// ---------------------------------------------------------------------------
/// Where a call failed.
#[derive(Debug, Clone, Copy, PartialEq, Eq, Structural)]
pub enum CallErrorKind {
    Transport,
    Protocol,
    Application,
    /// The service itself refused the call.
    User,
}

/// A call that failed.
#[derive(Debug, Clone, PartialEq, Eq)]
pub struct CallError {
    pub kind: CallErrorKind,
    pub message: String,
}

/// The call may succeed if it is made again: the service has not refused it.
pub open spec fn retryable(error: CallError) -> bool {
    error.kind != CallErrorKind::User
}

/// Whether a call that failed may succeed if it is made again.
pub fn should_retry_evernote_error(error: &CallError) -> (res: bool)
    ensures
        res == retryable(*error),
{
    match error.kind {
        CallErrorKind::Transport | CallErrorKind::Protocol | CallErrorKind::Application => true,
        CallErrorKind::User => false,
    }
}

/// A notebook, as Evernote lists it.
#[derive(Debug, Clone, PartialEq, Eq)]
pub struct Notebook {
    pub name: Option<String>,
    pub guid: Option<String>,
}

/// A note, as a search finds it.
#[derive(Debug, Clone, PartialEq, Eq)]
pub struct FoundNote {
    pub guid: String,
    pub source_url: Option<String>,
}

/// Why a note was not created.
#[derive(Debug, Clone, PartialEq, Eq)]
pub enum EvernoteError {
    UserStore { message: String },
    NoNoteStoreUrl,
    Api { message: String },
    NotebookNotFound { name: String },
    NotebookAmbiguous { name: String },
    NotebookWithoutGuid { name: String },
    NoteWithoutGuid,
}

/// What an [`EvernoteError`] says.
pub enum EvernoteProblem {
    UserStore { message: Seq<char> },
    NoNoteStoreUrl,
    Api { message: Seq<char> },
    NotebookNotFound { name: Seq<char> },
    NotebookAmbiguous { name: Seq<char> },
    NotebookWithoutGuid { name: Seq<char> },
    NoteWithoutGuid,
}

impl View for EvernoteError {
    type V = EvernoteProblem;

    open spec fn view(&self) -> EvernoteProblem {
        match self {
            EvernoteError::UserStore { message } => EvernoteProblem::UserStore {
                message: message@,
            },
            EvernoteError::NoNoteStoreUrl => EvernoteProblem::NoNoteStoreUrl,
            EvernoteError::Api { message } => EvernoteProblem::Api { message: message@ },
            EvernoteError::NotebookNotFound { name } => EvernoteProblem::NotebookNotFound {
                name: name@,
            },
            EvernoteError::NotebookAmbiguous { name } => EvernoteProblem::NotebookAmbiguous {
                name: name@,
            },
            EvernoteError::NotebookWithoutGuid { name } => EvernoteProblem::NotebookWithoutGuid {
                name: name@,
            },
            EvernoteError::NoteWithoutGuid => EvernoteProblem::NoteWithoutGuid,
        }
    }
}

/// The problem in words.
pub open spec fn problem_text(problem: EvernoteProblem) -> Seq<char> {
    match problem {
        EvernoteProblem::UserStore { message } => "Evernote UserStore API error: "@ + message,
        EvernoteProblem::NoNoteStoreUrl => "Evernote UserStore did not return a NoteStore URL"@,
        EvernoteProblem::Api { message } => "Evernote API error: "@ + message,
        EvernoteProblem::NotebookNotFound { name } => "Evernote notebook named '"@ + name
            + "' was not found"@,
        EvernoteProblem::NotebookAmbiguous { name } =>
            "Evernote returned more than one notebook named '"@ + name + "'"@,
        EvernoteProblem::NotebookWithoutGuid { name } => "Evernote notebook named '"@ + name
            + "' did not include a GUID"@,
        EvernoteProblem::NoteWithoutGuid =>
            "Evernote did not return a GUID for the created note"@,
    }
}

impl EvernoteError {
    /// The error in words.
    pub fn message(&self) -> (res: String)
        ensures
            res@ == problem_text(self@),
            match *self {
                EvernoteError::UserStore { message } => res@ == "Evernote UserStore API error: "@
                    + message@,
                EvernoteError::NoNoteStoreUrl => res@
                    == "Evernote UserStore did not return a NoteStore URL"@,
                EvernoteError::Api { message } => res@ == "Evernote API error: "@ + message@,
                EvernoteError::NotebookNotFound { name } => res@ == "Evernote notebook named '"@
                    + name@ + "' was not found"@,
                EvernoteError::NotebookAmbiguous { name } => res@
                    == "Evernote returned more than one notebook named '"@ + name@ + "'"@,
                EvernoteError::NotebookWithoutGuid { name } => res@ == "Evernote notebook named '"@
                    + name@ + "' did not include a GUID"@,
                EvernoteError::NoteWithoutGuid => res@
                    == "Evernote did not return a GUID for the created note"@,
            },
    {
        match self {
            EvernoteError::UserStore { message } => {
                let mut res = "Evernote UserStore API error: ".to_owned();
                res.append(message.as_str());
                res
            },
            EvernoteError::NoNoteStoreUrl =>
                "Evernote UserStore did not return a NoteStore URL".to_owned(),
            EvernoteError::Api { message } => {
                let mut res = "Evernote API error: ".to_owned();
                res.append(message.as_str());
                res
            },
            EvernoteError::NotebookNotFound { name } => {
                let mut res = "Evernote notebook named '".to_owned();
                res.append(name.as_str());
                res.append("' was not found");
                res
            },
            EvernoteError::NotebookAmbiguous { name } => {
                let mut res = "Evernote returned more than one notebook named '".to_owned();
                res.append(name.as_str());
                res.append("'");
                res
            },
            EvernoteError::NotebookWithoutGuid { name } => {
                let mut res = "Evernote notebook named '".to_owned();
                res.append(name.as_str());
                res.append("' did not include a GUID");
                res
            },
            EvernoteError::NoteWithoutGuid =>
                "Evernote did not return a GUID for the created note".to_owned(),
        }
    }
}

/// What became of a note: its GUID, or why there is none.
pub open spec fn result_view(result: Result<String, EvernoteError>) -> Result<
    Seq<char>,
    EvernoteProblem,
> {
    match result {
        Ok(guid) => Ok(guid@),
        Err(error) => Err(error@),
    }
}

/// The notebooks with the given name.
pub open spec fn notebooks_named(notebooks: Seq<Notebook>, name: Seq<char>) -> Seq<Notebook> {
    notebooks.filter(|notebook: Notebook| opt_text(notebook.name) == Some(name))
}

/// The GUID of the notebook with the given name, if there is exactly one and it
/// has a GUID.
pub open spec fn notebook_guid_for(notebooks: Seq<Notebook>, name: Seq<char>) -> Result<
    Seq<char>,
    EvernoteProblem,
> {
    let named = notebooks_named(notebooks, name);
    if named.len() == 0 {
        Err(EvernoteProblem::NotebookNotFound { name })
    } else if named.len() > 1 {
        Err(EvernoteProblem::NotebookAmbiguous { name })
    } else {
        match named[0].guid {
            Some(guid) => Ok(guid@),
            None => Err(EvernoteProblem::NotebookWithoutGuid { name }),
        }
    }
}

/// Whether the optional text is the given one.
fn is_text(value: &Option<String>, text: &str) -> (res: bool)
    ensures
        res == (opt_text(*value) == Some(text@)),
{
    match value {
        Some(value) => *value.as_str() == *text,
        None => false,
    }
}

/// The GUID of the notebook with the given name, if there is exactly one and it
/// has a GUID.
pub fn find_notebook_guid(notebooks: &Vec<Notebook>, name: &str) -> (res: Result<
    String,
    EvernoteError,
>)
    ensures
        result_view(res) == notebook_guid_for(notebooks@, name@),
{
    let ghost keep = |notebook: Notebook| opt_text(notebook.name) == Some(name@);
    let mut count: usize = 0;
    let mut first: usize = 0;
    proof {
        reveal(Seq::filter);
        assert(notebooks@.take(0).filter(keep).len() == 0);
    }
    for i in 0..notebooks.len()
        invariant
            keep == (|notebook: Notebook| opt_text(notebook.name) == Some(name@)),
            count == notebooks@.take(i as int).filter(keep).len(),
            count <= i,
            count > 0 ==> first < notebooks@.len() && notebooks@.take(i as int).filter(keep)[0]
                == notebooks@[first as int],
    {
        broadcast use Seq::lemma_filter_push;

        assert(notebooks@.take(i + 1) =~= notebooks@.take(i as int).push(notebooks@[i as int]));
        if is_text(&notebooks[i].name, name) {
            if count == 0 {
                first = i;
            }
            count += 1;
        }
    }
    assert(notebooks@.take(notebooks@.len() as int) =~= notebooks@);
    if count == 0 {
        return Err(EvernoteError::NotebookNotFound { name: name.to_owned() });
    }
    if count > 1 {
        return Err(EvernoteError::NotebookAmbiguous { name: name.to_owned() });
    }
    match &notebooks[first].guid {
        Some(guid) => Ok(guid.clone()),
        None => Err(EvernoteError::NotebookWithoutGuid { name: name.to_owned() }),
    }
}

/// The GUID of the first note with the given source address.
pub open spec fn existing_note(notes: Seq<FoundNote>, source_url: Seq<char>) -> Option<Seq<char>>
    decreases notes.len(),
{
    if notes.len() == 0 {
        None
    } else if opt_text(notes[0].source_url) == Some(source_url) {
        Some(notes[0].guid@)
    } else {
        existing_note(notes.drop_first(), source_url)
    }
}

/// The GUID of the first note with the given source address.
pub fn find_note_guid_by_source_url(notes: &Vec<FoundNote>, source_url: &str) -> (res: Option<
    String,
>)
    ensures
        opt_text(res) == existing_note(notes@, source_url@),
{
    assert(notes@.skip(0) =~= notes@);
    for i in 0..notes.len()
        invariant
            existing_note(notes@, source_url@) == existing_note(
                notes@.skip(i as int),
                source_url@,
            ),
    {
        assert(notes@.skip(i as int).drop_first() =~= notes@.skip(i + 1));
        if is_text(&notes[i].source_url, source_url) {
            return Some(notes[i].guid.clone());
        }
    }
    None
}

// ---------------------------------------------------------------------------
// The client
// ---------------------------------------------------------------------------
/// Creates notes in one account and, if one is chosen, one notebook of it. What it
/// has looked up serves all later notes, so there is one client for a run and no
/// way to clone it.
#[derive(Debug)]
pub struct EvernoteClient {
    pub token: String,
    pub note_store_url: Option<String>,
    pub user_store_url: String,
    /// The address of the note store that the user store gave.
    pub resolved_note_store_url: Option<String>,
    /// The GUID or the name of the notebook.
    pub notebook_selector: Option<String>,
    /// The GUID of the notebook with that name.
    pub resolved_notebook_guid: Option<String>,
    pub tag_names: Vec<String>,
}

/// What an [`EvernoteClient`] says.
pub struct Account {
    pub token: Seq<char>,
    pub note_store_url: Option<Seq<char>>,
    pub user_store_url: Seq<char>,
    pub resolved_note_store_url: Option<Seq<char>>,
    pub notebook_selector: Option<Seq<char>>,
    pub resolved_notebook_guid: Option<Seq<char>>,
    pub tag_names: Seq<Seq<char>>,
}

impl View for EvernoteClient {
    type V = Account;

    open spec fn view(&self) -> Account {
        Account {
            token: self.token@,
            note_store_url: opt_text(self.note_store_url),
            user_store_url: self.user_store_url@,
            resolved_note_store_url: opt_text(self.resolved_note_store_url),
            notebook_selector: opt_text(self.notebook_selector),
            resolved_notebook_guid: opt_text(self.resolved_notebook_guid),
            tag_names: texts(self.tag_names@),
        }
    }
}

impl Account {
    /// The address of the note store, if it is known.
    pub open spec fn known_note_store(self) -> Option<Seq<char>> {
        match self.note_store_url {
            Some(url) => Some(url),
            None => self.resolved_note_store_url,
        }
    }

    /// The notebook is chosen by a name whose GUID is not known yet.
    pub open spec fn must_look_up_notebook(self) -> bool {
        &&& self.notebook_selector is Some
        &&& !guid_shape(self.notebook_selector->0)
        &&& self.resolved_notebook_guid is None
    }

    /// The GUID of the notebook for the notes, where it need not be looked up;
    /// without one, Evernote takes the default notebook.
    pub open spec fn notebook(self) -> Option<Seq<char>> {
        match self.notebook_selector {
            Some(selector) => if guid_shape(selector) {
                Some(selector)
            } else {
                self.resolved_notebook_guid
            },
            None => None,
        }
    }
}

/// The call to make next for a note, or what became of the note.
#[derive(Debug)]
pub enum NoteStep {
    /// Ask the user store at this address for the address of the note store.
    GetUserUrls { url: String, note: Note },
    /// Ask the note store at this address for the notebooks.
    ListNotebooks { url: String, note: Note },
    /// Have the note store create the note, after this many attempts that failed.
    CreateNote { url: String, note: Note, retries: usize },
    /// Wait for this many seconds, after this many attempts that failed.
    Wait { url: String, note: Note, retries: usize, seconds: u64 },
    /// Make this search, after this many attempts that failed.
    FindNotes { url: String, search: NoteSearch, note: Note, retries: usize },
    /// This became of the note.
    Done { result: Result<String, EvernoteError> },
}

/// What a [`NoteStep`] says.
pub enum NoteTodo {
    GetUserUrls { url: Seq<char>, note: NoteView },
    ListNotebooks { url: Seq<char>, note: NoteView },
    CreateNote { url: Seq<char>, note: NoteView, retries: nat },
    Wait { url: Seq<char>, note: NoteView, retries: nat, seconds: nat },
    FindNotes { url: Seq<char>, search: NoteSearchView, note: NoteView, retries: nat },
    Done { result: Result<Seq<char>, EvernoteProblem> },
}

impl View for NoteStep {
    type V = NoteTodo;

    open spec fn view(&self) -> NoteTodo {
        match self {
            NoteStep::GetUserUrls { url, note } => NoteTodo::GetUserUrls { url: url@, note: note@ },
            NoteStep::ListNotebooks { url, note } => NoteTodo::ListNotebooks {
                url: url@,
                note: note@,
            },
            NoteStep::CreateNote { url, note, retries } => NoteTodo::CreateNote {
                url: url@,
                note: note@,
                retries: *retries as nat,
            },
            NoteStep::Wait { url, note, retries, seconds } => NoteTodo::Wait {
                url: url@,
                note: note@,
                retries: *retries as nat,
                seconds: *seconds as nat,
            },
            NoteStep::FindNotes { url, search, note, retries } => NoteTodo::FindNotes {
                url: url@,
                search: search@,
                note: note@,
                retries: *retries as nat,
            },
            NoteStep::Done { result } => NoteTodo::Done { result: result_view(*result) },
        }
    }
}

/// The note before its notebook is known.
pub open spec fn draft_note(
    account: Account,
    title: Seq<char>,
    content: Seq<char>,
    source_url: Seq<char>,
    resources: Option<Seq<ResourceView>>,
) -> NoteView {
    NoteView {
        title,
        content,
        notebook_guid: None,
        source: NOTE_SOURCE@,
        source_url,
        source_application: CLIENT_NAME@,
        tag_names: account.tag_names,
        resources,
    }
}

/// What is done first for a note: the address of the note store is needed before
/// anything else.
pub open spec fn first_note_todo(account: Account, note: NoteView) -> NoteTodo {
    match account.known_note_store() {
        Some(url) => placed_todo(account, url, note),
        None => NoteTodo::GetUserUrls { url: account.user_store_url, note },
    }
}

/// What is done once the note store is known: the notebook is looked up if need
/// be, and then the note is created.
pub open spec fn placed_todo(account: Account, url: Seq<char>, note: NoteView) -> NoteTodo {
    if account.must_look_up_notebook() {
        NoteTodo::ListNotebooks { url, note }
    } else {
        NoteTodo::CreateNote {
            url,
            note: NoteView { notebook_guid: account.notebook(), ..note },
            retries: 0,
        }
    }
}

/// What the user store answers: an address, nothing, or an error.
pub open spec fn todo_after_user_urls(
    account: Account,
    note: NoteView,
    reply: Result<Option<String>, String>,
) -> NoteTodo {
    match reply {
        Ok(Some(url)) => placed_todo(account, url@, note),
        Ok(None) => NoteTodo::Done { result: Err(EvernoteProblem::NoNoteStoreUrl) },
        Err(message) => NoteTodo::Done {
            result: Err(EvernoteProblem::UserStore { message: message@ }),
        },
    }
}

/// The GUID of the chosen notebook, or why it is not known.
pub open spec fn looked_up_notebook(
    account: Account,
    reply: Result<Vec<Notebook>, String>,
) -> Result<Option<Seq<char>>, EvernoteProblem> {
    match reply {
        Ok(notebooks) => match account.notebook_selector {
            Some(name) => match notebook_guid_for(notebooks@, name) {
                Ok(guid) => Ok(Some(guid)),
                Err(problem) => Err(problem),
            },
            None => Ok(None),
        },
        Err(message) => Err(EvernoteProblem::Api { message: message@ }),
    }
}

/// What is done after the note store has listed the notebooks.
pub open spec fn todo_after_notebooks(
    account: Account,
    url: Seq<char>,
    note: NoteView,
    reply: Result<Vec<Notebook>, String>,
) -> NoteTodo {
    match looked_up_notebook(account, reply) {
        Ok(guid) => NoteTodo::CreateNote {
            url,
            note: NoteView { notebook_guid: guid, ..note },
            retries: 0,
        },
        Err(problem) => NoteTodo::Done { result: Err(problem) },
    }
}

/// What is done after an attempt to create the note: after an error that may be
/// transient there is a wait, as long as attempts are left.
pub open spec fn todo_after_create(
    url: Seq<char>,
    note: NoteView,
    retries: nat,
    reply: Result<Option<String>, CallError>,
) -> NoteTodo {
    match reply {
        Ok(Some(guid)) => NoteTodo::Done { result: Ok(guid@) },
        Ok(None) => NoteTodo::Done { result: Err(EvernoteProblem::NoteWithoutGuid) },
        Err(error) => if retryable(error) && retries + 1 < CREATE_NOTE_MAX_ATTEMPTS {
            NoteTodo::Wait {
                url,
                note,
                retries: retries + 1,
                seconds: create_note_delay(retries),
            }
        } else {
            NoteTodo::Done { result: Err(EvernoteProblem::Api { message: error.message@ }) }
        },
    }
}

/// What is done after the search: the note is taken as created if it was found,
/// and created again if it was not, or the search failed.
pub open spec fn todo_after_find(
    url: Seq<char>,
    note: NoteView,
    retries: nat,
    reply: Result<Vec<FoundNote>, String>,
) -> NoteTodo {
    let found = match reply {
        Ok(notes) => existing_note(notes@, note.source_url),
        Err(_) => None,
    };
    match found {
        Some(guid) => NoteTodo::Done { result: Ok(guid) },
        None => NoteTodo::CreateNote { url, note, retries },
    }
}

/// A copy of an optional string.
fn copy_option(value: &Option<String>) -> (res: Option<String>)
    ensures
        opt_text(res) == opt_text(*value),
{
    match value {
        Some(text) => Some(text.clone()),
        None => None,
    }
}

impl EvernoteClient {
    /// A client that has not asked Evernote anything yet.
    pub fn new(
        token: String,
        note_store_url: Option<String>,
        user_store_url: String,
        notebook_selector: Option<String>,
        tag_names: Vec<String>,
    ) -> (res: Self)
        ensures
            res@ == (Account {
                token: token@,
                note_store_url: opt_text(note_store_url),
                user_store_url: user_store_url@,
                resolved_note_store_url: None,
                notebook_selector: opt_text(notebook_selector),
                resolved_notebook_guid: None,
                tag_names: texts(tag_names@),
            }),
    {
        EvernoteClient {
            token,
            note_store_url,
            user_store_url,
            resolved_note_store_url: None,
            notebook_selector,
            resolved_notebook_guid: None,
            tag_names,
        }
    }

    /// The call to make first for a note.
    pub fn create_track_note(
        &self,
        title: String,
        content: String,
        source_url: String,
        cover: Option<&CoverAttachment>,
        audio: Option<&AudioAttachment>,
    ) -> (res: NoteStep)
        ensures
            res@ == first_note_todo(
                self@,
                draft_note(
                    self@,
                    title@,
                    content@,
                    source_url@,
                    resources_for(referred(cover), referred(audio)),
                ),
            ),
    {
        let note = Note {
            title,
            content,
            notebook_guid: None,
            source: NOTE_SOURCE.to_owned(),
            source_url,
            source_application: CLIENT_NAME.to_owned(),
            tag_names: copy_strings(&self.tag_names),
            resources: note_resources(cover, audio),
        };
        match self.note_store() {
            Some(url) => self.placed_step(url, note),
            None => NoteStep::GetUserUrls { url: self.user_store_url.clone(), note },
        }
    }

    /// The address of the note store, if it is known.
    fn note_store(&self) -> (res: Option<String>)
        ensures
            opt_text(res) == self@.known_note_store(),
    {
        match &self.note_store_url {
            Some(url) => Some(url.clone()),
            None => copy_option(&self.resolved_note_store_url),
        }
    }

    /// The call to make once the note store is known.
    fn placed_step(&self, url: String, note: Note) -> (res: NoteStep)
        ensures
            res@ == placed_todo(self@, url@, note@),
    {
        let guid = match &self.notebook_selector {
            Some(selector) => {
                if is_evernote_guid(selector.as_str()) {
                    Some(selector.clone())
                } else if self.resolved_notebook_guid.is_none() {
                    return NoteStep::ListNotebooks { url, note };
                } else {
                    copy_option(&self.resolved_notebook_guid)
                }
            },
            None => None,
        };
        let mut note = note;
        note.notebook_guid = guid;
        NoteStep::CreateNote { url, note, retries: 0 }
    }

    /// The call to make after the user store has answered. The address of the note
    /// store is kept.
    pub fn after_user_urls(&mut self, note: Note, reply: Result<Option<String>, String>) -> (res:
        NoteStep)
        ensures
            final(self)@ == (Account {
                resolved_note_store_url: match reply {
                    Ok(Some(url)) => Some(url@),
                    _ => old(self)@.resolved_note_store_url,
                },
                ..old(self)@
            }),
            res@ == todo_after_user_urls(final(self)@, note@, reply),
    {
        match reply {
            Ok(Some(url)) => {
                self.resolved_note_store_url = Some(url.clone());
                self.placed_step(url, note)
            },
            Ok(None) => NoteStep::Done { result: Err(EvernoteError::NoNoteStoreUrl) },
            Err(message) => NoteStep::Done { result: Err(EvernoteError::UserStore { message }) },
        }
    }

    /// The call to make after the note store has listed the notebooks. The GUID of
    /// the chosen one is kept.
    pub fn after_notebooks(
        &mut self,
        url: String,
        note: Note,
        reply: Result<Vec<Notebook>, String>,
    ) -> (res: NoteStep)
        ensures
            final(self)@ == (Account {
                resolved_notebook_guid: match looked_up_notebook(old(self)@, reply) {
                    Ok(Some(guid)) => Some(guid),
                    _ => old(self)@.resolved_notebook_guid,
                },
                ..old(self)@
            }),
            res@ == todo_after_notebooks(old(self)@, url@, note@, reply),
    {
        let mut note = note;
        match reply {
            Ok(notebooks) => {
                match &self.notebook_selector {
                    Some(name) => match find_notebook_guid(&notebooks, name.as_str()) {
                        Ok(guid) => {
                            self.resolved_notebook_guid = Some(guid.clone());
                            note.notebook_guid = Some(guid);
                        },
                        Err(error) => {
                            return NoteStep::Done { result: Err(error) };
                        },
                    },
                    None => {
                        note.notebook_guid = None;
                    },
                }
                NoteStep::CreateNote { url, note, retries: 0 }
            },
            Err(message) => NoteStep::Done { result: Err(EvernoteError::Api { message }) },
        }
    }

    /// The call to make after an attempt to create the note, which came after
    /// `retries` others.
    pub fn after_create(
        url: String,
        note: Note,
        retries: usize,
        reply: Result<Option<String>, CallError>,
    ) -> (res: NoteStep)
        ensures
            res@ == todo_after_create(url@, note@, retries as nat, reply),
    {
        match reply {
            Ok(Some(guid)) => NoteStep::Done { result: Ok(guid) },
            Ok(None) => NoteStep::Done { result: Err(EvernoteError::NoteWithoutGuid) },
            Err(error) => {
                if should_retry_evernote_error(&error) && retries < CREATE_NOTE_MAX_ATTEMPTS - 1 {
                    let seconds: u64 = create_note_retry_delay(retries);
                    NoteStep::Wait { url, note, retries: retries + 1, seconds }
                } else {
                    NoteStep::Done {
                        result: Err(EvernoteError::Api { message: error.message }),
                    }
                }
            },
        }
    }

    /// The call to make after the wait: whether the note was created in spite of
    /// the error is found out by its source address.
    pub fn after_wait(url: String, note: Note, retries: usize) -> (res: NoteStep)
        ensures
            res@ == (NoteTodo::FindNotes {
                url: url@,
                search: search_for(note@),
                note: note@,
                retries: retries as nat,
            }),
    {
        let search = note_search(&note);
        NoteStep::FindNotes { url, search, note, retries }
    }

    /// The call to make after the search.
    pub fn after_find(
        url: String,
        note: Note,
        retries: usize,
        reply: Result<Vec<FoundNote>, String>,
    ) -> (res: NoteStep)
        ensures
            res@ == todo_after_find(url@, note@, retries as nat, reply),
    {
        let found = match reply {
            Ok(notes) => find_note_guid_by_source_url(&notes, note.source_url.as_str()),
            Err(_) => None,
        };
        match found {
            Some(guid) => NoteStep::Done { result: Ok(guid) },
            None => NoteStep::CreateNote { url, note, retries },
        }
    }
}

} // verus!
