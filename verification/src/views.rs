//! The views of the types leave nothing out and add nothing: what a value says is what
//! stands in its fields, and what a list says is what its elements say, one for one.
use vstd::prelude::*;

use crate::config::Settings;
use crate::enrichment::client::{EnrichmentClient, Step, Todo};
use crate::enrichment::links::{link_views, ExternalLink};
use crate::enrichment::lookups::{result_views, AcoustIdRecording, AcoustIdResult};
use crate::evernote_client::{EvernoteClient, Note, NoteSearch, NoteStep, NoteTodo, Resource};
use crate::sync::SyncRun;
use crate::text::{form_view, opt_text, texts};
use crate::yandex::library::{all_answer_views, answer_views, likes, track_views, LibraryTrack};
use crate::yandex::{LikedTrack, RawTrack};

verus! {

// ---------------------------------------------------------------------------
// Texts
// ---------------------------------------------------------------------------
/// What a list of strings says.
pub proof fn lemma_texts(strings: Seq<String>)
    ensures
        texts(strings).len() == strings.len(),
        forall|i: int| 0 <= i < strings.len() ==> #[trigger] texts(strings)[i] == strings[i]@,
{
}

/// What an optional string says.
pub proof fn lemma_opt_text(s: Option<String>)
    ensures
        s is None ==> opt_text(s) is None,
        s is Some ==> opt_text(s) == Some(s->0@),
{
}

/// What a form says.
pub proof fn lemma_form(form: Seq<(String, String)>)
    ensures
        form_view(form).len() == form.len(),
        forall|i: int|
            0 <= i < form.len() ==> #[trigger] form_view(form)[i] == (form[i].0@, form[i].1@),
{
}

// ---------------------------------------------------------------------------
// Tracks
// ---------------------------------------------------------------------------
/// What a track says.
pub proof fn lemma_track(track: LikedTrack)
    ensures
        track@.id == track.id@,
        track@.liked_at == track.liked_at@,
        track@.title == track.title@,
        track@.artists == texts(track.artists@),
        track@.artist_links.len() == track.artist_links@.len(),
        forall|i: int|
            0 <= i < track.artist_links@.len() ==> {
                &&& (#[trigger] track@.artist_links[i]).name == track.artist_links@[i].name@
                &&& track@.artist_links[i].yandex_url == track.artist_links@[i].yandex_url@
            },
        track@.albums == texts(track.albums@),
        track@.album_links.len() == track.album_links@.len(),
        forall|i: int|
            0 <= i < track.album_links@.len() ==> {
                &&& (#[trigger] track@.album_links[i]).name == track.album_links@[i].name@
                &&& track@.album_links[i].yandex_url == track.album_links@[i].yandex_url@
            },
        track@.duration_ms == track.duration_ms,
        track@.cover_url == opt_text(track.cover_url),
        track@.yandex_url == track.yandex_url@,
{
}

/// What a list of tracks says.
pub proof fn lemma_tracks(tracks: Seq<LikedTrack>)
    ensures
        track_views(tracks).len() == tracks.len(),
        forall|i: int| 0 <= i < tracks.len() ==> #[trigger] track_views(tracks)[i] == tracks[i]@,
{
}

/// What the details of a track say.
pub proof fn lemma_details(track: RawTrack)
    ensures
        track@.id == track.id@,
        track@.title == opt_text(track.title),
        track@.artists.len() == track.artists@.len(),
        forall|i: int|
            0 <= i < track.artists@.len() ==> #[trigger] track@.artists[i] == opt_text(
                track.artists@[i].name,
            ),
        track@.albums.len() == track.albums@.len(),
        forall|i: int|
            0 <= i < track.albums@.len() ==> #[trigger] track@.albums[i] == opt_text(
                track.albums@[i].title,
            ),
        track@.cover_uri == opt_text(track.cover_uri),
        track@.og_image == opt_text(track.og_image),
        track@.duration_ms == track.duration_ms,
{
}

/// What answers with the details of tracks say.
pub proof fn lemma_answers(answers: Seq<Vec<Option<RawTrack>>>, answer: Seq<Option<RawTrack>>)
    ensures
        all_answer_views(answers).len() == answers.len(),
        forall|i: int|
            0 <= i < answers.len() ==> #[trigger] all_answer_views(answers)[i] == answer_views(
                answers[i]@,
            ),
        answer_views(answer).len() == answer.len(),
        forall|i: int|
            0 <= i < answer.len() ==> match answer[i] {
                Some(track) => #[trigger] answer_views(answer)[i] == Some(track@),
                None => answer_views(answer)[i] is None,
            },
{
}

/// What the library of a user says.
pub proof fn lemma_library(library: Seq<LibraryTrack>)
    ensures
        likes(library).len() == library.len(),
        forall|i: int|
            0 <= i < library.len() ==> {
                &&& (#[trigger] likes(library)[i]).id == library[i].id@
                &&& likes(library)[i].liked_at == library[i].liked_at@
            },
{
}

// ---------------------------------------------------------------------------
// Links
// ---------------------------------------------------------------------------
/// What a list of links says.
pub proof fn lemma_links(links: Seq<ExternalLink>)
    ensures
        link_views(links).len() == links.len(),
        forall|i: int|
            0 <= i < links.len() ==> {
                &&& (#[trigger] link_views(links)[i]).label == links[i].label@
                &&& link_views(links)[i].url == links[i].url@
            },
{
}

/// What the results of AcoustID say.
pub proof fn lemma_results(results: Seq<AcoustIdResult>)
    ensures
        result_views(results).len() == results.len(),
        forall|i: int|
            0 <= i < results.len() ==> {
                &&& (#[trigger] result_views(results)[i]).score_bits == results[i].score_bits
                &&& result_views(results)[i].recordings.len() == results[i].recordings@.len()
                &&& forall|j: int|
                    0 <= j < results[i].recordings@.len()
                        ==> #[trigger] result_views(results)[i].recordings[j]
                        == results[i].recordings@[j]@
            },
{
}

/// What a recording says.
pub proof fn lemma_recording(recording: AcoustIdRecording)
    ensures
        recording@.id == recording.id@,
        recording@.artists.len() == recording.artists@.len(),
        forall|i: int|
            0 <= i < recording.artists@.len() ==> #[trigger] recording@.artists[i]
                == recording.artists@[i].id@,
        recording@.releasegroups.len() == recording.releasegroups@.len(),
        forall|i: int|
            0 <= i < recording.releasegroups@.len() ==> #[trigger] recording@.releasegroups[i]
                == recording.releasegroups@[i].id@,
{
}

/// What the client that gathers links says.
pub proof fn lemma_enrichment_client(client: EnrichmentClient)
    ensures
        client@.genius_access_token == opt_text(client.genius_access_token),
        client@.acoustid_api_key == opt_text(client.acoustid_api_key),
        client@.songlink_user_country == client.songlink_user_country@,
        client@.songlink_rate_limited == client.songlink_rate_limited,
        client@.acoustid_fpcalc_missing == client.acoustid_fpcalc_missing,
        client@.on == client.enabled_services@,
        client@.off == client.disabled_services@,
{
}

/// What a step of gathering links says.
pub proof fn lemma_step(step: Step)
    ensures
        match step {
            Step::Fingerprint { links, suffix } => step@ == (Todo::Fingerprint {
                links: link_views(links@),
                suffix: suffix@,
            }),
            Step::AcoustId { links, form } => step@ == (Todo::AcoustId {
                links: link_views(links@),
                form: form_view(form@),
            }),
            Step::MusicBrainz { links, url } => step@ == (Todo::MusicBrainz {
                links: link_views(links@),
                url: url@,
            }),
            Step::Lrclib { links, url } => step@ == (Todo::Lrclib {
                links: link_views(links@),
                url: url@,
            }),
            Step::Songlink { links, url, retries } => step@ == (Todo::Songlink {
                links: link_views(links@),
                url: url@,
                retries: retries as nat,
            }),
            Step::Wait { links, url, retries, seconds } => step@ == (Todo::Wait {
                links: link_views(links@),
                url: url@,
                retries: retries as nat,
                seconds: seconds as nat,
            }),
            Step::Genius { links, url, token } => step@ == (Todo::Genius {
                links: link_views(links@),
                url: url@,
                token: token@,
            }),
            Step::Done { links } => step@ == (Todo::Done { links: link_views(links@) }),
        },
{
}

// ---------------------------------------------------------------------------
// Notes
// ---------------------------------------------------------------------------
/// What an attachment of a note says.
pub proof fn lemma_resource(resource: Resource)
    ensures
        resource@.body_hash == resource.body_hash@,
        resource@.size == resource.size,
        resource@.body == resource.body@,
        resource@.mime == resource.mime@,
        resource@.file_name == resource.file_name@,
        resource@.attachment == resource.attachment,
{
}

/// What a note says.
pub proof fn lemma_note(note: Note)
    ensures
        note@.title == note.title@,
        note@.content == note.content@,
        note@.notebook_guid == opt_text(note.notebook_guid),
        note@.source == note.source@,
        note@.source_url == note.source_url@,
        note@.source_application == note.source_application@,
        note@.tag_names == texts(note.tag_names@),
        note@.resources is Some <==> note.resources is Some,
        note.resources is Some ==> {
            &&& note@.resources->0.len() == note.resources->0@.len()
            &&& forall|i: int|
                0 <= i < note.resources->0@.len() ==> #[trigger] note@.resources->0[i]
                    == note.resources->0@[i]@
        },
{
}

/// What a search for notes says.
pub proof fn lemma_note_search(search: NoteSearch)
    ensures
        search@.words == search.words@,
        search@.notebook_guid == opt_text(search.notebook_guid),
        search@.inactive == search.inactive,
        search@.offset == search.offset,
        search@.max_notes == search.max_notes,
        search@.include_attributes == search.include_attributes,
        search@.include_notebook_guid == search.include_notebook_guid,
{
}

/// What the client that creates notes says.
pub proof fn lemma_evernote_client(client: EvernoteClient)
    ensures
        client@.token == client.token@,
        client@.note_store_url == opt_text(client.note_store_url),
        client@.user_store_url == client.user_store_url@,
        client@.resolved_note_store_url == opt_text(client.resolved_note_store_url),
        client@.notebook_selector == opt_text(client.notebook_selector),
        client@.resolved_notebook_guid == opt_text(client.resolved_notebook_guid),
        client@.tag_names == texts(client.tag_names@),
{
}

/// What a step of creating a note says.
pub proof fn lemma_note_step(step: NoteStep)
    ensures
        match step {
            NoteStep::GetUserUrls { url, note } => step@ == (NoteTodo::GetUserUrls {
                url: url@,
                note: note@,
            }),
            NoteStep::ListNotebooks { url, note } => step@ == (NoteTodo::ListNotebooks {
                url: url@,
                note: note@,
            }),
            NoteStep::CreateNote { url, note, retries } => step@ == (NoteTodo::CreateNote {
                url: url@,
                note: note@,
                retries: retries as nat,
            }),
            NoteStep::Wait { url, note, retries, seconds } => step@ == (NoteTodo::Wait {
                url: url@,
                note: note@,
                retries: retries as nat,
                seconds: seconds as nat,
            }),
            NoteStep::FindNotes { url, search, note, retries } => step@ == (NoteTodo::FindNotes {
                url: url@,
                search: search@,
                note: note@,
                retries: retries as nat,
            }),
            NoteStep::Done { result } => match result {
                Ok(guid) => step@ == (NoteTodo::Done { result: Ok(guid@) }),
                Err(error) => step@ == (NoteTodo::Done { result: Err(error@) }),
            },
        },
{
}

// ---------------------------------------------------------------------------
// Runs
// ---------------------------------------------------------------------------
/// What settings say.
pub proof fn lemma_settings(settings: Settings)
    ensures
        settings@.yandex_music_token == settings.yandex_music_token@,
        settings@.evernote_auth_token == settings.evernote_auth_token@,
        settings@.evernote_note_store_url == opt_text(settings.evernote_note_store_url),
        settings@.evernote_user_store_url == settings.evernote_user_store_url@,
        settings@.evernote_notebook_guid == opt_text(settings.evernote_notebook_guid),
        settings@.evernote_tags == settings.evernote_tags@,
        settings@.state_path == settings.state_path@,
        settings@.dry_run == settings.dry_run,
        settings@.max_tracks_per_run == settings.max_tracks_per_run,
        settings@.backup_audio == settings.backup_audio,
        settings@.enrich_external_links == settings.enrich_external_links,
        settings@.genius_access_token == opt_text(settings.genius_access_token),
        settings@.acoustid_api_key == opt_text(settings.acoustid_api_key),
        settings@.enabled_external_link_services == settings.enabled_external_link_services@,
        settings@.disabled_external_link_services == settings.disabled_external_link_services@,
        settings@.songlink_user_country == settings.songlink_user_country@,
{
}

/// What a run says.
pub proof fn lemma_sync_run(run: SyncRun)
    ensures
        run@.dry_run == run.dry_run,
        run@.backup_audio == run.backup_audio,
        run@.enrich == run.enrich,
        run@.state == run.state@,
        run@.tracks == track_views(run.tracks@),
{
}

} // verus!
