//! A run: which tracks get a note, and what is done for each of them in which
//! order. Downloads, requests and files are dealt with elsewhere: each
//! [`SyncStep`] says what is to be done, and the run is told what came of it.
use vstd::prelude::*;

use crate::audio::{
    cover_file_name, extension_of, file_stem, md5_digest, mime_of, AudioAttachment,
    CoverAttachment, CoverImage, TrackAudio,
};
use crate::config::Settings;
use crate::enrichment::links::{link_views, ExternalLink, Link};
use crate::note::{content_text, enml, title, title_text};
use crate::state::{Memory, State};
use crate::timestamp::{rfc3339_text, Timestamp};
use crate::yandex::library::track_views;
use crate::yandex::{LikedTrack, Track};

pub mod laws;

verus! {

// ---------------------------------------------------------------------------
// Choice of tracks
// ---------------------------------------------------------------------------
/// The liked tracks that have no note yet.
pub open spec fn new_tracks(liked: Seq<Track>, processed: Set<Seq<char>>) -> Seq<Track> {
    liked.filter(|track: Track| !processed.contains(track.id))
}

/// The tracks of a run: the first of the new tracks, up to the limit; a limit of 0
/// is none.
pub open spec fn selected_tracks(
    liked: Seq<Track>,
    processed: Set<Seq<char>>,
    limit: nat,
) -> Seq<Track> {
    let all = new_tracks(liked, processed);
    if limit != 0 && all.len() > limit {
        all.take(limit as int)
    } else {
        all
    }
}

/// The tracks of a run.
pub fn select_tracks(liked: Vec<LikedTrack>, state: &State, limit: usize) -> (res: Vec<LikedTrack>)
    ensures
        track_views(res@) == selected_tracks(
            track_views(liked@),
            state@.processed,
            limit as nat,
        ),
{
    let ghost views = track_views(liked@);
    let ghost keep = |track: Track| !state@.processed.contains(track.id);
    let mut chosen: Vec<LikedTrack> = Vec::new();
    proof {
        reveal(Seq::filter);
        assert(track_views(chosen@) =~= views.take(0).filter(keep));
    }
    for track in it: liked
        invariant
            views == track_views(it.seq()),
            keep == (|track: Track| !state@.processed.contains(track.id)),
            track_views(chosen@) == views.take(it.index()).filter(keep),
    {
        broadcast use Seq::lemma_filter_push;

        let ghost so_far = track_views(chosen@);
        let ghost view = track@;
        assert(views.take(it.index() + 1) =~= views.take(it.index()).push(view));
        if !state.contains(track.id.as_str()) {
            chosen.push(track);
            assert(track_views(chosen@) =~= so_far.push(view));
        }
    }
    assert(views.take(views.len() as int) =~= views);
    assert(chosen@.len() == track_views(chosen@).len());
    if limit != 0 && chosen.len() > limit {
        let ghost all = track_views(chosen@);
        chosen.truncate(limit);
        assert(track_views(chosen@) =~= all.take(limit as int));
    }
    chosen
}

// ---------------------------------------------------------------------------
// Notes
// ---------------------------------------------------------------------------
/// The note for a track, ready to be created.
pub struct TrackNote {
    pub track_id: String,
    pub title: String,
    pub content: String,
    pub source_url: String,
    pub cover: Option<CoverAttachment>,
    pub audio: Option<AudioAttachment>,
}

/// The attachment is made of the downloaded cover.
pub open spec fn attaches_cover(
    attached: Option<CoverAttachment>,
    cover: Option<CoverImage>,
) -> bool {
    match (attached, cover) {
        (Some(attached), Some(cover)) => {
            &&& attached.body@ == cover.bytes@
            &&& attached.mime@ == cover.mime@
            &&& attached.file_name@ == match cover_file_name(cover.mime@) {
                Some(name) => name,
                None => "cover"@,
            }
            &&& attached.md5@ == md5_digest(cover.bytes@)
        },
        (None, None) => true,
        _ => false,
    }
}

/// The attachment is made of the downloaded audio, with a file named after the
/// note.
pub open spec fn attaches_audio(
    attached: Option<AudioAttachment>,
    audio: Option<TrackAudio>,
    title: Seq<char>,
) -> bool {
    match (attached, audio) {
        (Some(attached), Some(audio)) => {
            &&& attached.body@ == audio.bytes@
            &&& attached.mime@ == mime_of(audio.codec@)
            &&& attached.file_name@ == file_stem(title) + seq!['.'] + extension_of(audio.codec@)
            &&& attached.bitrate_kbps == audio.bitrate_kbps
            &&& attached.quality@ == audio.quality@
            &&& attached.md5@ == md5_digest(audio.bytes@)
        },
        (None, None) => true,
        _ => false,
    }
}

/// The note is the one for the track, with these links, this cover and this
/// audio.
pub open spec fn is_note_for(
    note: TrackNote,
    track: Track,
    links: Seq<Link>,
    cover: Option<CoverImage>,
    audio: Option<TrackAudio>,
) -> bool {
    &&& note.track_id@ == track.id
    &&& note.title@ == title_text(track)
    &&& note.source_url@ == track.yandex_url
    &&& note.content@ == content_text(
        track,
        rfc3339_text(track.liked_at.seconds, track.liked_at.nanos),
        links,
        note.cover,
        note.audio,
    )
    &&& attaches_cover(note.cover, cover)
    &&& attaches_audio(note.audio, audio, title_text(track))
}

/// The note for `track`.
pub fn track_note(
    track: LikedTrack,
    links: Vec<ExternalLink>,
    cover: Option<CoverImage>,
    audio: Option<TrackAudio>,
) -> (res: TrackNote)
    ensures
        is_note_for(res, track@, link_views(links@), cover, audio),
{
    let title = title(&track);
    let audio = match audio {
        Some(audio) => Some(AudioAttachment::new(audio, title.as_str())),
        None => None,
    };
    let cover = match cover {
        Some(cover) => Some(CoverAttachment::new(cover)),
        None => None,
    };
    let content = enml(&track, links.as_slice(), cover.as_ref(), audio.as_ref());
    TrackNote {
        track_id: track.id,
        title,
        content,
        source_url: track.yandex_url,
        cover,
        audio,
    }
}

// ---------------------------------------------------------------------------
// Steps
// ---------------------------------------------------------------------------
/// What is to be done next.
pub enum SyncStep {
    /// Download the audio of the track.
    DownloadAudio { track: LikedTrack },
    /// Gather the links for the track.
    Enrich { track: LikedTrack, audio: Option<TrackAudio> },
    /// Tell the user which note would be created.
    Preview { track_id: String, title: String, url: String },
    /// Download the cover from this address.
    DownloadCover {
        track: LikedTrack,
        links: Vec<ExternalLink>,
        audio: Option<TrackAudio>,
        cover_url: String,
    },
    /// Create the note.
    CreateNote { note: TrackNote },
    /// Save the state of the run, and go on.
    Save,
    /// Tell the run the time.
    Stamp,
    /// Save the state of the run for the last time.
    SaveLast,
    /// The run went through.
    Done,
    /// The run ends with this error.
    Failed { message: String },
}

/// What a [`SyncStep`] says. In place of a note stands what it is made of.
pub enum SyncTodo {
    DownloadAudio { track: Track },
    Enrich { track: Track, audio: Option<TrackAudio> },
    Preview { track_id: Seq<char>, title: Seq<char>, url: Seq<char> },
    DownloadCover {
        track: Track,
        links: Seq<Link>,
        audio: Option<TrackAudio>,
        cover_url: Seq<char>,
    },
    CreateNote {
        track: Track,
        links: Seq<Link>,
        cover: Option<CoverImage>,
        audio: Option<TrackAudio>,
    },
    Save,
    Stamp,
    SaveLast,
    Done,
    Failed { message: Seq<char> },
}

impl SyncStep {
    /// The step is the given one.
    pub open spec fn is(self, todo: SyncTodo) -> bool {
        match (self, todo) {
            (
                SyncStep::DownloadAudio { track },
                SyncTodo::DownloadAudio { track: wanted },
            ) => track@ == wanted,
            (
                SyncStep::Enrich { track, audio },
                SyncTodo::Enrich { track: wanted, audio: wanted_audio },
            ) => track@ == wanted && audio == wanted_audio,
            (
                SyncStep::Preview { track_id, title, url },
                SyncTodo::Preview { track_id: wanted, title: wanted_title, url: wanted_url },
            ) => track_id@ == wanted && title@ == wanted_title && url@ == wanted_url,
            (
                SyncStep::DownloadCover { track, links, audio, cover_url },
                SyncTodo::DownloadCover {
                    track: wanted,
                    links: wanted_links,
                    audio: wanted_audio,
                    cover_url: wanted_url,
                },
            ) => {
                &&& track@ == wanted
                &&& link_views(links@) == wanted_links
                &&& audio == wanted_audio
                &&& cover_url@ == wanted_url
            },
            (
                SyncStep::CreateNote { note },
                SyncTodo::CreateNote { track, links, cover, audio },
            ) => is_note_for(note, track, links, cover, audio),
            (SyncStep::Save, SyncTodo::Save) => true,
            (SyncStep::Stamp, SyncTodo::Stamp) => true,
            (SyncStep::SaveLast, SyncTodo::SaveLast) => true,
            (SyncStep::Done, SyncTodo::Done) => true,
            (SyncStep::Failed { message }, SyncTodo::Failed { message: wanted }) => message@
                == wanted,
            _ => false,
        }
    }
}

// ---------------------------------------------------------------------------
// The run
// ---------------------------------------------------------------------------
/// A run, with the tracks that are left.
pub struct SyncRun {
    pub dry_run: bool,
    pub backup_audio: bool,
    pub enrich: bool,
    pub state: State,
    pub tracks: Vec<LikedTrack>,
}

/// What a [`SyncRun`] says.
pub struct Progress {
    pub dry_run: bool,
    pub backup_audio: bool,
    pub enrich: bool,
    pub state: Memory,
    pub tracks: Seq<Track>,
}

impl View for SyncRun {
    type V = Progress;

    open spec fn view(&self) -> Progress {
        Progress {
            dry_run: self.dry_run,
            backup_audio: self.backup_audio,
            enrich: self.enrich,
            state: self.state@,
            tracks: track_views(self.tracks@),
        }
    }
}

impl Progress {
    /// The run without the track that comes next.
    pub open spec fn without_next(self) -> Progress {
        Progress { tracks: self.tracks.drop_first(), ..self }
    }

    /// The run after a step that takes up the next track, if there is one.
    pub open spec fn advanced(self) -> Progress {
        if self.tracks.len() > 0 {
            self.without_next()
        } else {
            self
        }
    }

    /// What is done when a track is finished: the next track is taken up or, after
    /// the last one, the time of the run is put down, unless it is a dry run.
    pub open spec fn next_todo(self) -> SyncTodo {
        if self.tracks.len() > 0 {
            self.track_todo(self.tracks[0])
        } else if self.dry_run {
            SyncTodo::Done
        } else {
            SyncTodo::Stamp
        }
    }

    /// What is done first for a track.
    pub open spec fn track_todo(self, track: Track) -> SyncTodo {
        if self.backup_audio && !self.dry_run {
            SyncTodo::DownloadAudio { track }
        } else {
            self.links_todo(track, None)
        }
    }

    /// What is done for a track once its audio is there.
    pub open spec fn links_todo(self, track: Track, audio: Option<TrackAudio>) -> SyncTodo {
        if self.enrich {
            SyncTodo::Enrich { track, audio }
        } else {
            self.cover_todo(track, audio, Seq::empty())
        }
    }

    /// What is done for a track once its links are there.
    pub open spec fn cover_todo(
        self,
        track: Track,
        audio: Option<TrackAudio>,
        links: Seq<Link>,
    ) -> SyncTodo {
        if self.dry_run {
            SyncTodo::Preview {
                track_id: track.id,
                title: title_text(track),
                url: track.yandex_url,
            }
        } else {
            match track.cover_url {
                Some(cover_url) => SyncTodo::DownloadCover { track, links, audio, cover_url },
                None => SyncTodo::CreateNote { track, links, cover: None, audio },
            }
        }
    }
}

/// The state in which one more track has a note.
pub open spec fn with_note(state: Memory, track_id: Seq<char>) -> Memory {
    Memory { processed: state.processed.insert(track_id), ..state }
}

impl SyncRun {
    /// A run over those of the liked tracks that it is limited to.
    pub fn new(settings: &Settings, state: State, liked: Vec<LikedTrack>) -> (res: Self)
        ensures
            res@ == (Progress {
                dry_run: settings.dry_run,
                backup_audio: settings.backup_audio,
                enrich: settings.enrich_external_links,
                state: state@,
                tracks: selected_tracks(
                    track_views(liked@),
                    state@.processed,
                    settings.max_tracks_per_run as nat,
                ),
            }),
    {
        let tracks = select_tracks(liked, &state, settings.max_tracks_per_run);
        SyncRun {
            dry_run: settings.dry_run,
            backup_audio: settings.backup_audio,
            enrich: settings.enrich_external_links,
            state,
            tracks,
        }
    }

    /// Takes up the next track, or ends the run after the last one.
    pub fn next_step(&mut self) -> (res: SyncStep)
        ensures
            final(self)@ == old(self)@.advanced(),
            res.is(old(self)@.next_todo()),
    {
        if self.tracks.len() == 0 {
            return if self.dry_run {
                SyncStep::Done
            } else {
                SyncStep::Stamp
            };
        }
        let track = self.tracks.remove(0);
        assert(track_views(self.tracks@) =~= track_views(old(self).tracks@).drop_first());
        assert(old(self)@.tracks[0] == track@);
        if self.backup_audio && !self.dry_run {
            SyncStep::DownloadAudio { track }
        } else {
            self.links_step(track, None)
        }
    }

    /// What is to be done for a track once its audio is there.
    fn links_step(&self, track: LikedTrack, audio: Option<TrackAudio>) -> (res: SyncStep)
        ensures
            res.is(self@.links_todo(track@, audio)),
    {
        if self.enrich {
            SyncStep::Enrich { track, audio }
        } else {
            let links: Vec<ExternalLink> = Vec::new();
            assert(link_views(links@) =~= Seq::empty());
            self.after_links(track, audio, links)
        }
    }

    /// What is to be done after the audio was downloaded: if that failed, the
    /// track is left for the next run.
    pub fn after_audio(&mut self, track: LikedTrack, audio: Result<Option<TrackAudio>, String>) -> (
    res: SyncStep)
        ensures
            match audio {
                Ok(audio) => *final(self) == *old(self) && res.is(
                    old(self)@.links_todo(track@, audio),
                ),
                Err(_) => final(self)@ == old(self)@.advanced() && res.is(old(self)@.next_todo()),
            },
    {
        match audio {
            Ok(audio) => self.links_step(track, audio),
            Err(_) => self.next_step(),
        }
    }

    /// What is to be done after the links were gathered.
    pub fn after_links(
        &self,
        track: LikedTrack,
        audio: Option<TrackAudio>,
        links: Vec<ExternalLink>,
    ) -> (res: SyncStep)
        ensures
            res.is(self@.cover_todo(track@, audio, link_views(links@))),
    {
        if self.dry_run {
            let title = title(&track);
            return SyncStep::Preview { track_id: track.id, title, url: track.yandex_url };
        }
        match &track.cover_url {
            Some(cover_url) => {
                let cover_url = cover_url.clone();
                SyncStep::DownloadCover { track, links, audio, cover_url }
            },
            None => SyncStep::CreateNote { note: track_note(track, links, None, audio) },
        }
    }

    /// What is to be done after the cover was downloaded: if that failed, the note
    /// gets none.
    pub fn after_cover(
        track: LikedTrack,
        links: Vec<ExternalLink>,
        audio: Option<TrackAudio>,
        cover: Result<Option<CoverImage>, String>,
    ) -> (res: SyncStep)
        ensures
            res.is(
                SyncTodo::CreateNote {
                    track: track@,
                    links: link_views(links@),
                    cover: match cover {
                        Ok(cover) => cover,
                        Err(_) => None,
                    },
                    audio,
                },
            ),
    {
        let cover = match cover {
            Ok(cover) => cover,
            Err(_) => None,
        };
        SyncStep::CreateNote { note: track_note(track, links, cover, audio) }
    }

    /// What is to be done after Evernote was asked to create the note: if it was
    /// created, that is remembered and saved; if not, the run ends.
    pub fn after_note(&mut self, track_id: String, created: Result<String, String>) -> (res:
        SyncStep)
        ensures
            match created {
                Ok(_) => res.is(SyncTodo::Save) && final(self)@ == (Progress {
                    state: with_note(old(self)@.state, track_id@),
                    ..old(self)@
                }),
                Err(message) => res.is(SyncTodo::Failed { message: message@ }) && *final(self)
                    == *old(self),
            },
    {
        match created {
            Ok(_) => {
                self.state.mark_processed(track_id);
                SyncStep::Save
            },
            Err(message) => SyncStep::Failed { message },
        }
    }

    /// What is to be done after the state was saved: if that failed, the run ends.
    pub fn after_save(&mut self, saved: Result<(), String>) -> (res: SyncStep)
        ensures
            match saved {
                Ok(_) => final(self)@ == old(self)@.advanced() && res.is(old(self)@.next_todo()),
                Err(message) => res.is(SyncTodo::Failed { message: message@ }) && *final(self)
                    == *old(self),
            },
    {
        match saved {
            Ok(_) => self.next_step(),
            Err(message) => SyncStep::Failed { message },
        }
    }

    /// What is to be done at the end of a run, at the given time: the time is put
    /// down and saved.
    pub fn after_stamp(&mut self, now: Timestamp) -> (res: SyncStep)
        ensures
            res.is(SyncTodo::SaveLast),
            final(self)@ == (Progress {
                state: Memory { last_successful_sync_at: Some(now@), ..old(self)@.state },
                ..old(self)@
            }),
    {
        self.state.set_last_successful_sync_at(now);
        SyncStep::SaveLast
    }

    /// What is to be done after the state was saved for the last time: nothing.
    pub fn after_last_save(saved: Result<(), String>) -> (res: SyncStep)
        ensures
            res.is(
                match saved {
                    Ok(_) => SyncTodo::Done,
                    Err(message) => SyncTodo::Failed { message: message@ },
                },
            ),
    {
        match saved {
            Ok(_) => SyncStep::Done,
            Err(message) => SyncStep::Failed { message },
        }
    }
}

} // verus!
