//! What holds of a run as a whole, whatever comes of the downloads and requests.
use vstd::prelude::*;

use crate::audio::{extension_of, file_stem, md5_digest, mime_of, CoverImage, TrackAudio};
use crate::enrichment::links::{link_views, Link};
use crate::escape::markup_escaped;
use crate::evernote_client::{resources_for, ResourceView};
use crate::note::laws::lemma_links_shown;
use crate::note::{lemma_attachments_shown, media_tag, stands_in, title_text};
use crate::sequences::{lemma_filter_picks, picks, rising};
use crate::state::Memory;
use crate::sync::{
    is_note_for, new_tracks, selected_tracks, with_note, Progress, SyncStep, SyncTodo, TrackNote,
};
use crate::timestamp::{rfc3339_text, Moment};
use crate::yandex::Track;

verus! {

/// What would come of each thing that is to be done for a track. The tracks are
/// told apart by how many come after them.
pub struct SyncReplies {
    pub audio: spec_fn(nat) -> Result<Option<TrackAudio>, String>,
    pub links: spec_fn(nat) -> Seq<Link>,
    pub cover: spec_fn(nat) -> Result<Option<CoverImage>, String>,
    pub note: spec_fn(nat) -> Result<String, String>,
    pub save: spec_fn(nat) -> Result<(), String>,
    pub now: Moment,
    pub last_save: Result<(), String>,
}

/// What a note is made of.
pub struct NoteParts {
    pub track: Track,
    pub links: Seq<Link>,
    pub cover: Option<CoverImage>,
    pub audio: Option<TrackAudio>,
}

/// What there is in the end.
pub struct SyncOutcome {
    pub state: Memory,
    /// What the notes are made of that Evernote was asked to create, in order.
    pub sent: Seq<NoteParts>,
    /// The ids of the tracks whose notes were created, in order.
    pub created: Seq<Seq<char>>,
    /// The states that were given out to be saved, in order.
    pub saves: Seq<Memory>,
    /// The error that ended the run, if one did.
    pub failure: Option<Seq<char>>,
}

/// What there is in the end, if from the given step on everything that is to be
/// done is done, with what `replies` say coming of it.
pub open spec fn sync_outcome(run: Progress, todo: SyncTodo, replies: SyncReplies) -> SyncOutcome
    decreases run.tracks.len(), sync_rank(todo),
{
    let n = run.tracks.len();
    match todo {
        SyncTodo::DownloadAudio { track } => match (replies.audio)(n) {
            Ok(audio) => sync_outcome(run, run.links_todo(track, audio), replies),
            Err(_) => sync_outcome(run.advanced(), run.next_todo(), replies),
        },
        SyncTodo::Enrich { track, audio } => sync_outcome(
            run,
            run.cover_todo(track, audio, (replies.links)(n)),
            replies,
        ),
        SyncTodo::Preview { .. } => sync_outcome(run.advanced(), run.next_todo(), replies),
        SyncTodo::DownloadCover { track, links, audio, .. } => sync_outcome(
            run,
            SyncTodo::CreateNote {
                track,
                links,
                cover: match (replies.cover)(n) {
                    Ok(cover) => cover,
                    Err(_) => None,
                },
                audio,
            },
            replies,
        ),
        SyncTodo::CreateNote { track, links, cover, audio } => {
            let parts = NoteParts { track, links, cover, audio };
            match (replies.note)(n) {
                Ok(_) => {
                    let next = Progress { state: with_note(run.state, track.id), ..run };
                    let rest = sync_outcome(next, SyncTodo::Save, replies);
                    SyncOutcome {
                        sent: seq![parts] + rest.sent,
                        created: seq![track.id] + rest.created,
                        ..rest
                    }
                },
                Err(message) => SyncOutcome {
                    sent: seq![parts],
                    ..ended(run.state, Some(message@))
                },
            }
        },
        SyncTodo::Save => {
            let rest = match (replies.save)(n) {
                Ok(_) => sync_outcome(run.advanced(), run.next_todo(), replies),
                Err(message) => ended(run.state, Some(message@)),
            };
            SyncOutcome { saves: seq![run.state] + rest.saves, ..rest }
        },
        SyncTodo::Stamp => {
            let state = Memory { last_successful_sync_at: Some(replies.now), ..run.state };
            sync_outcome(Progress { state, ..run }, SyncTodo::SaveLast, replies)
        },
        SyncTodo::SaveLast => {
            let rest = match replies.last_save {
                Ok(_) => ended(run.state, None),
                Err(message) => ended(run.state, Some(message@)),
            };
            SyncOutcome { saves: seq![run.state] + rest.saves, ..rest }
        },
        SyncTodo::Done => ended(run.state, None),
        SyncTodo::Failed { message } => ended(run.state, Some(message)),
    }
}

/// A run that ends without doing anything more.
pub open spec fn ended(state: Memory, failure: Option<Seq<char>>) -> SyncOutcome {
    SyncOutcome {
        state,
        sent: Seq::empty(),
        created: Seq::empty(),
        saves: Seq::empty(),
        failure,
    }
}

/// How far a step is from the end of its track.
pub open spec fn sync_rank(todo: SyncTodo) -> nat {
    match todo {
        SyncTodo::DownloadAudio { .. } => 7,
        SyncTodo::Enrich { .. } => 6,
        SyncTodo::Preview { .. } | SyncTodo::DownloadCover { .. } => 5,
        SyncTodo::CreateNote { .. } => 4,
        SyncTodo::Save => 3,
        SyncTodo::Stamp => 2,
        SyncTodo::SaveLast => 1,
        SyncTodo::Done | SyncTodo::Failed { .. } => 0,
    }
}

/// The audio of the track at the given place was downloaded, as far as audio is
/// wanted.
pub open spec fn downloaded(run: Progress, k: int, replies: SyncReplies) -> bool {
    run.backup_audio ==> (replies.audio)((run.tracks.len() - 1 - k) as nat) is Ok
}

/// What the note for the track at the given place is made of: the track; the links
/// that were gathered for it, if links are wanted; the cover that was downloaded, if
/// it has one; the audio that was downloaded, if audio is wanted.
pub open spec fn parts_of(run: Progress, k: int, replies: SyncReplies) -> NoteParts {
    let n = (run.tracks.len() - 1 - k) as nat;
    NoteParts {
        track: run.tracks[k],
        links: if run.enrich {
            (replies.links)(n)
        } else {
            Seq::empty()
        },
        cover: if run.tracks[k].cover_url is Some && (replies.cover)(n) is Ok {
            (replies.cover)(n)->Ok_0
        } else {
            None
        },
        audio: if run.backup_audio && (replies.audio)(n) is Ok {
            (replies.audio)(n)->Ok_0
        } else {
            None
        },
    }
}

/// What a run comes to: track by track, until an error ends it, and then the time
/// is put down. A dry run does nothing.
pub open spec fn synced(run: Progress, replies: SyncReplies) -> SyncOutcome
    decreases run.tracks.len(),
{
    if run.dry_run {
        ended(run.state, None)
    } else if run.tracks.len() == 0 {
        let state = Memory { last_successful_sync_at: Some(replies.now), ..run.state };
        SyncOutcome {
            state,
            sent: Seq::empty(),
            created: Seq::empty(),
            saves: seq![state],
            failure: match replies.last_save {
                Ok(_) => None,
                Err(message) => Some(message@),
            },
        }
    } else {
        let track = run.tracks[0];
        let rest = run.without_next();
        let n = rest.tracks.len();
        if run.backup_audio && (replies.audio)(n) is Err {
            synced(rest, replies)
        } else {
            match (replies.note)(n) {
                Ok(_) => {
                    let state = with_note(run.state, track.id);
                    let after = match (replies.save)(n) {
                        Ok(_) => synced(Progress { state, ..rest }, replies),
                        Err(message) => ended(state, Some(message@)),
                    };
                    SyncOutcome {
                        sent: seq![parts_of(run, 0, replies)] + after.sent,
                        created: seq![track.id] + after.created,
                        saves: seq![state] + after.saves,
                        ..after
                    }
                },
                Err(message) => SyncOutcome {
                    sent: seq![parts_of(run, 0, replies)],
                    ..ended(run.state, Some(message@))
                },
            }
        }
    }
}

/// Whatever comes of the downloads and requests, the steps of a run come to this:
/// - a dry run does nothing;
/// - a track whose audio cannot be downloaded is left out, and the run goes on;
/// - whatever becomes of the links and the cover, the note is created;
/// - once a note is created, that is remembered and saved before the next track;
/// - the first note that cannot be created, or state that cannot be saved, ends
///   the run;
/// - a run that gets through all its tracks puts down the time.
pub proof fn lemma_run(run: Progress, replies: SyncReplies)
    ensures
        sync_outcome(run.advanced(), run.next_todo(), replies) == synced(run, replies),
    decreases run.tracks.len(),
{
    if run.tracks.len() == 0 {
        reveal_with_fuel(sync_outcome, 3);
        if !run.dry_run {
            let out = sync_outcome(run.advanced(), run.next_todo(), replies);
            assert(out.saves =~= synced(run, replies).saves);
        }
    } else {
        let rest = run.without_next();
        let track = run.tracks[0];
        lemma_run(rest, replies);
        if run.dry_run {
            reveal_with_fuel(sync_outcome, 3);
            lemma_dry_run(rest, replies);
        } else {
            lemma_run(Progress { state: with_note(run.state, track.id), ..rest }, replies);
            lemma_track(rest, track, replies);
            assert(seq![track] + rest.tracks =~= run.tracks);
        }
    }
}

proof fn lemma_dry_run(run: Progress, replies: SyncReplies)
    requires
        run.dry_run,
    ensures
        synced(run, replies) == ended(run.state, None),
{
}

proof fn lemma_track(rest: Progress, track: Track, replies: SyncReplies)
    requires
        !rest.dry_run,
        sync_outcome(rest.advanced(), rest.next_todo(), replies) == synced(rest, replies),
        ({
            let next = Progress { state: with_note(rest.state, track.id), ..rest };
            sync_outcome(next.advanced(), next.next_todo(), replies) == synced(next, replies)
        }),
    ensures
        ({
            let run = Progress { tracks: seq![track] + rest.tracks, ..rest };
            sync_outcome(rest, rest.track_todo(track), replies) == synced(run, replies)
        }),
{
    let run = Progress { tracks: seq![track] + rest.tracks, ..rest };
    assert(run.tracks.drop_first() =~= rest.tracks);
    assert(run.without_next() == rest);
    let n = rest.tracks.len();
    let audio = if rest.backup_audio && (replies.audio)(n) is Ok {
        (replies.audio)(n)->Ok_0
    } else {
        None
    };
    if !(rest.backup_audio && (replies.audio)(n) is Err) {
        assert(sync_outcome(rest, rest.track_todo(track), replies) == sync_outcome(
            rest,
            rest.links_todo(track, audio),
            replies,
        ));
        let links = if rest.enrich {
            (replies.links)(n)
        } else {
            Seq::empty()
        };
        assert(sync_outcome(rest, rest.links_todo(track, audio), replies) == sync_outcome(
            rest,
            rest.cover_todo(track, audio, links),
            replies,
        ));
        let cover = if track.cover_url is Some && (replies.cover)(n) is Ok {
            (replies.cover)(n)->Ok_0
        } else {
            None
        };
        let create = SyncTodo::CreateNote { track, links, cover, audio };
        assert(sync_outcome(rest, rest.cover_todo(track, audio, links), replies) == sync_outcome(
            rest,
            create,
            replies,
        ));
        let next = Progress { state: with_note(rest.state, track.id), ..rest };
        let out = sync_outcome(rest, create, replies);
        let saved = sync_outcome(next, SyncTodo::Save, replies);
        let parts = NoteParts { track, links, cover, audio };
        assert(parts == parts_of(run, 0, replies));
        if (replies.note)(n) is Ok {
            assert(out == (SyncOutcome {
                sent: seq![parts] + saved.sent,
                created: seq![track.id] + saved.created,
                ..saved
            }));
        }
    }
}

// ---------------------------------------------------------------------------
// The notes that are sent
// ---------------------------------------------------------------------------
/// In a run that is no dry run, the notes that Evernote is asked to create are, in
/// order, those for tracks of the run whose audio was downloaded as far as audio is
/// wanted. Each has exactly the audio that its download returned, the links that were
/// gathered for it and the cover that was downloaded, independently of each other. No
/// such track is passed over, before the last note if an error ends the run, and at
/// all if none does. Those created are those sent, but for one that the run ends with.
pub proof fn lemma_notes_sent(run: Progress, replies: SyncReplies) -> (at: Seq<int>)
    requires
        !run.dry_run,
    ensures
        ({
            let out = sync_outcome(run.advanced(), run.next_todo(), replies);
            &&& at.len() == out.sent.len()
            &&& rising(at, run.tracks.len())
            &&& forall|i: int|
                0 <= i < at.len() ==> ({
                    let n = (run.tracks.len() - 1 - #[trigger] at[i]) as nat;
                    let track = run.tracks[at[i]];
                    let sent = out.sent[i];
                    &&& sent.track == track
                    &&& run.enrich ==> sent.links == (replies.links)(n)
                    &&& !run.enrich ==> sent.links == Seq::<Link>::empty()
                    &&& run.backup_audio ==> (replies.audio)(n) == Ok::<
                        Option<TrackAudio>,
                        String,
                    >(sent.audio)
                    &&& !run.backup_audio ==> sent.audio is None
                    &&& track.cover_url is None ==> sent.cover is None
                    &&& track.cover_url is Some ==> match (replies.cover)(n) {
                        Ok(cover) => sent.cover == cover,
                        Err(_) => sent.cover is None,
                    }
                })
            &&& forall|k: int|
                0 <= k < run.tracks.len() && #[trigger] downloaded(run, k, replies) && (
                out.failure is None || at.len() > 0 && k <= at.last()) ==> at.contains(k)
            &&& out.created.len() <= out.sent.len() <= out.created.len() + 1
            &&& out.failure is None ==> out.created.len() == out.sent.len()
            &&& forall|i: int|
                0 <= i < out.created.len() ==> #[trigger] out.created[i] == out.sent[i].track.id
        }),
{
    lemma_run(run, replies);
    let at = lemma_synced_sent(run, replies);
    assert forall|i: int| 0 <= i < at.len() implies synced(run, replies).sent[i] == parts_of(
        run,
        #[trigger] at[i],
        replies,
    ) && downloaded(run, at[i], replies) by {}
    at
}

proof fn lemma_synced_sent(run: Progress, replies: SyncReplies) -> (at: Seq<int>)
    requires
        !run.dry_run,
    ensures
        ({
            let out = synced(run, replies);
            &&& at.len() == out.sent.len()
            &&& rising(at, run.tracks.len())
            &&& forall|i: int|
                0 <= i < at.len() ==> out.sent[i] == parts_of(run, #[trigger] at[i], replies)
                    && downloaded(run, at[i], replies)
            &&& forall|k: int|
                0 <= k < run.tracks.len() && #[trigger] downloaded(run, k, replies) && (
                out.failure is None || at.len() > 0 && k <= at.last()) ==> at.contains(k)
            &&& out.created.len() <= out.sent.len() <= out.created.len() + 1
            &&& out.failure is None ==> out.created.len() == out.sent.len()
            &&& forall|i: int|
                0 <= i < out.created.len() ==> #[trigger] out.created[i] == out.sent[i].track.id
        }),
    decreases run.tracks.len(),
{
    let out = synced(run, replies);
    if run.tracks.len() == 0 {
        Seq::empty()
    } else {
        let track = run.tracks[0];
        let rest = run.without_next();
        let n = rest.tracks.len();
        let skipped = run.backup_audio && (replies.audio)(n) is Err;
        let next = if skipped {
            rest
        } else {
            Progress { state: with_note(run.state, track.id), ..rest }
        };
        let later = lemma_synced_sent(next, replies);
        let goes_on = skipped || (replies.note)(n) is Ok && (replies.save)(n) is Ok;
        let shifted = if goes_on {
            Seq::new(later.len(), |i: int| later[i] + 1)
        } else {
            Seq::empty()
        };
        let at = if skipped {
            shifted
        } else {
            seq![0int] + shifted
        };
        let first: int = if skipped {
            0
        } else {
            1
        };
        let after = synced(next, replies);
        assert(downloaded(run, 0, replies) == !skipped);
        assert forall|k: int| 0 <= k < rest.tracks.len() implies downloaded(run, k + 1, replies)
            == #[trigger] downloaded(next, k, replies) && parts_of(run, k + 1, replies) == parts_of(
            next,
            k,
            replies,
        ) by {
            assert(run.tracks[k + 1] == next.tracks[k]);
        }
        if goes_on {
            assert forall|i: int| 0 <= i < later.len() implies #[trigger] at[i + first] == later[i]
                + 1 by {}
            assert forall|i: int| first <= i < at.len() implies out.sent[i] == parts_of(
                run,
                #[trigger] at[i],
                replies,
            ) && downloaded(run, at[i], replies) by {
                let j = i - first;
                assert(at[j + first] == later[j] + 1);
                assert(downloaded(next, later[j], replies));
                assert(out.sent[i] == after.sent[j]);
            }
            assert forall|k: int|
                0 <= k < run.tracks.len() && #[trigger] downloaded(run, k, replies) && (
                out.failure is None || at.len() > 0 && k <= at.last()) implies at.contains(k) by {
                if k == 0 {
                    assert(at[0] == 0);
                } else {
                    assert(downloaded(next, k - 1, replies));
                    if later.len() > 0 {
                        assert(at[later.len() - 1 + first] == later[later.len() - 1] + 1);
                    }
                    assert(later.contains(k - 1));
                    let j = choose|j: int| 0 <= j < later.len() && later[j] == k - 1;
                    assert(at[j + first] == k);
                }
            }
            assert(rising(at, run.tracks.len())) by {
                assert forall|k: int| 0 <= k < at.len() implies 0 <= #[trigger] at[k]
                    < run.tracks.len() by {
                    if k >= first {
                        assert(at[k - first + first] == later[k - first] + 1);
                    }
                }
                assert forall|j: int, k: int| 0 <= j < k < at.len() implies #[trigger] at[j]
                    < #[trigger] at[k] by {
                    assert(at[k - first + first] == later[k - first] + 1);
                    if j >= first {
                        assert(at[j - first + first] == later[j - first] + 1);
                    }
                }
            }
            assert forall|i: int| 0 <= i < out.created.len() implies #[trigger] out.created[i]
                == out.sent[i].track.id by {
                if i >= first {
                    assert(out.created[i] == after.created[i - first]);
                    assert(out.sent[i] == after.sent[i - first]);
                }
            }
        } else {
            assert(at =~= seq![0int]);
            assert(out.sent =~= seq![parts_of(run, 0, replies)]);
            assert(at.contains(0int)) by {
                assert(at[0] == 0);
            }
        }
        at
    }
}

// ---------------------------------------------------------------------------
// The steps
// ---------------------------------------------------------------------------
/// The run and the step after a step, with what `replies` say coming of it; nothing
/// comes after the last.
pub open spec fn sync_next(run: Progress, todo: SyncTodo, replies: SyncReplies) -> (
    Progress,
    SyncTodo,
) {
    let n = run.tracks.len();
    match todo {
        SyncTodo::DownloadAudio { track } => match (replies.audio)(n) {
            Ok(audio) => (run, run.links_todo(track, audio)),
            Err(_) => (run.advanced(), run.next_todo()),
        },
        SyncTodo::Enrich { track, audio } => (
            run,
            run.cover_todo(track, audio, (replies.links)(n)),
        ),
        SyncTodo::Preview { .. } => (run.advanced(), run.next_todo()),
        SyncTodo::DownloadCover { track, links, audio, .. } => (
            run,
            SyncTodo::CreateNote {
                track,
                links,
                cover: match (replies.cover)(n) {
                    Ok(cover) => cover,
                    Err(_) => None,
                },
                audio,
            },
        ),
        SyncTodo::CreateNote { track, .. } => match (replies.note)(n) {
            Ok(_) => (
                Progress { state: with_note(run.state, track.id), ..run },
                SyncTodo::Save,
            ),
            Err(message) => (run, SyncTodo::Failed { message: message@ }),
        },
        SyncTodo::Save => match (replies.save)(n) {
            Ok(_) => (run.advanced(), run.next_todo()),
            Err(message) => (run, SyncTodo::Failed { message: message@ }),
        },
        SyncTodo::Stamp => (
            Progress {
                state: Memory { last_successful_sync_at: Some(replies.now), ..run.state },
                ..run
            },
            SyncTodo::SaveLast,
        ),
        SyncTodo::SaveLast => match replies.last_save {
            Ok(_) => (run, SyncTodo::Done),
            Err(message) => (run, SyncTodo::Failed { message: message@ }),
        },
        SyncTodo::Done | SyncTodo::Failed { .. } => (run, todo),
    }
}

/// All steps from the given one on.
pub open spec fn sync_steps(run: Progress, todo: SyncTodo, replies: SyncReplies) -> Seq<SyncTodo>
    decreases run.tracks.len(), sync_rank(todo),
{
    if todo is Done || todo is Failed {
        seq![todo]
    } else {
        let (after, then) = sync_next(run, todo, replies);
        seq![todo] + sync_steps(after, then, replies)
    }
}

/// The step is right for the track at the given place: it has that track, and what
/// came of the steps before it.
pub open spec fn right_step(run: Progress, k: int, todo: SyncTodo, replies: SyncReplies) -> bool {
    let n = (run.tracks.len() - 1 - k) as nat;
    let track = run.tracks[k];
    let found_audio = if run.backup_audio && !run.dry_run {
        (replies.audio)(n)
    } else {
        Ok(None)
    };
    let found_links = if run.enrich {
        (replies.links)(n)
    } else {
        Seq::empty()
    };
    match todo {
        SyncTodo::DownloadAudio { track: of } => of == track && run.backup_audio && !run.dry_run,
        SyncTodo::Enrich { track: of, audio } => of == track && run.enrich && found_audio == Ok::<
            Option<TrackAudio>,
            String,
        >(audio),
        SyncTodo::Preview { track_id, url, title } => {
            &&& run.dry_run
            &&& track_id == track.id
            &&& url == track.yandex_url
            &&& title == title_text(track)
        },
        SyncTodo::DownloadCover { track: of, links, audio, cover_url } => {
            &&& !run.dry_run
            &&& of == track
            &&& track.cover_url == Some(cover_url)
            &&& links == found_links
            &&& found_audio == Ok::<Option<TrackAudio>, String>(audio)
        },
        SyncTodo::CreateNote { track: of, links, cover, audio } => {
            &&& !run.dry_run
            &&& of == track
            &&& links == found_links
            &&& found_audio == Ok::<Option<TrackAudio>, String>(audio)
            &&& cover == if track.cover_url is Some && (replies.cover)(n) is Ok {
                (replies.cover)(n)->Ok_0
            } else {
                None
            }
        },
        SyncTodo::Save => !run.dry_run,
        _ => false,
    }
}

/// Every step of a run is right for one of its tracks, or puts down the time after
/// them; a dry run takes no step but to gather links and to tell what would be
/// created.
pub proof fn lemma_steps_right(run: Progress, replies: SyncReplies, i: int)
    requires
        0 <= i < sync_steps(run.advanced(), run.next_todo(), replies).len(),
    ensures
        ({
            let step = sync_steps(run.advanced(), run.next_todo(), replies)[i];
            ||| exists|k: int|
                0 <= k < run.tracks.len() && #[trigger] right_step(run, k, step, replies)
            ||| (step is Stamp || step is SaveLast) && !run.dry_run
            ||| step is Done
            ||| step is Failed && !run.dry_run
        }),
{
    assert(run.tracks.skip(0) =~= run.tracks);
    lemma_next_right(run, run, 0, replies);
    lemma_right_from(run, run.advanced(), run.next_todo(), 0, replies);
}

/// A run that has come to the track at the given place.
spec fn came_to(all: Progress, run: Progress, k: int) -> bool {
    &&& run.dry_run == all.dry_run
    &&& run.backup_audio == all.backup_audio
    &&& run.enrich == all.enrich
    &&& 0 <= k <= all.tracks.len()
    &&& run.tracks == all.tracks.skip(k)
}

/// A step that such a run can be at: for the track at the given place, which it has
/// taken up, or after the last.
spec fn is_at(all: Progress, run: Progress, todo: SyncTodo, k: int, replies: SyncReplies) -> bool {
    ||| 0 <= k < all.tracks.len() && came_to(all, run, k + 1) && right_step(all, k, todo, replies)
    ||| came_to(all, run, all.tracks.len() as int) && ((todo is Stamp || todo is SaveLast || todo
        is Failed) && !all.dry_run || todo is Done)
    ||| todo is Failed && !all.dry_run
}

proof fn lemma_next_right(all: Progress, run: Progress, k: int, replies: SyncReplies)
    requires
        came_to(all, run, k),
    ensures
        is_at(all, run.advanced(), run.next_todo(), k, replies),
{
    if k < all.tracks.len() {
        assert(run.tracks[0] == all.tracks[k]);
        assert(run.tracks.drop_first() =~= all.tracks.skip(k + 1));
    }
}

proof fn lemma_right_from(
    all: Progress,
    run: Progress,
    todo: SyncTodo,
    k: int,
    replies: SyncReplies,
)
    requires
        is_at(all, run, todo, k, replies),
    ensures
        forall|i: int|
            0 <= i < sync_steps(run, todo, replies).len() ==> ({
                let step = #[trigger] sync_steps(run, todo, replies)[i];
                ||| exists|j: int|
                    0 <= j < all.tracks.len() && #[trigger] right_step(all, j, step, replies)
                ||| (step is Stamp || step is SaveLast) && !all.dry_run
                ||| step is Done
                ||| step is Failed && !all.dry_run
            }),
    decreases run.tracks.len(), sync_rank(todo),
{
    if !(todo is Done || todo is Failed) {
        let (after, then) = sync_next(run, todo, replies);
        if 0 <= k < all.tracks.len() && came_to(all, run, k + 1) && right_step(
            all,
            k,
            todo,
            replies,
        ) {
            lemma_next_right(all, run, k + 1, replies);
            if is_at(all, after, then, k, replies) {
                lemma_right_from(all, after, then, k, replies);
            } else {
                lemma_right_from(all, after, then, k + 1, replies);
            }
        } else {
            lemma_right_from(all, after, then, k, replies);
        }
        let rest = sync_steps(after, then, replies);
        let steps = sync_steps(run, todo, replies);
        assert(steps == seq![todo] + rest);
        assert forall|i: int| 0 <= i < steps.len() implies ({
            let step = #[trigger] steps[i];
            ||| exists|j: int|
                0 <= j < all.tracks.len() && #[trigger] right_step(all, j, step, replies)
            ||| (step is Stamp || step is SaveLast) && !all.dry_run
            ||| step is Done
            ||| step is Failed && !all.dry_run
        }) by {
            if i > 0 {
                assert(steps[i] == rest[i - 1]);
            }
        }
    }
}

// ---------------------------------------------------------------------------
// What follows
// ---------------------------------------------------------------------------
/// A set of processed tracks, with those that have these ids.
pub open spec fn with_ids(processed: Set<Seq<char>>, ids: Seq<Seq<char>>) -> Set<Seq<char>> {
    processed.union(ids.to_set())
}

/// Adding ids one after the other is adding them all.
proof fn lemma_with_ids(processed: Set<Seq<char>>, first: Seq<char>, rest: Seq<Seq<char>>)
    ensures
        with_ids(processed, seq![first] + rest) == with_ids(processed.insert(first), rest),
        with_ids(processed, Seq::empty()) == processed,
{
    let all = seq![first] + rest;
    assert forall|id: Seq<char>| all.contains(id) <==> id == first || rest.contains(id) by {
        if rest.contains(id) {
            let i = choose|i: int| 0 <= i < rest.len() && rest[i] == id;
            assert(all[i + 1] == id);
        }
        if id == first {
            assert(all[0] == id);
        }
        if all.contains(id) {
            let i = choose|i: int| 0 <= i < all.len() && all[i] == id;
            if i > 0 {
                assert(rest[i - 1] == id);
            }
        }
    }
    assert(with_ids(processed, all) =~= with_ids(processed.insert(first), rest));
    assert(with_ids(processed, Seq::empty()) =~= processed);
}

/// In a dry run no note is created, nothing is saved, and the state stays as it
/// was.
pub proof fn lemma_dry_run_changes_nothing(run: Progress, replies: SyncReplies)
    requires
        run.dry_run,
    ensures
        synced(run, replies).created == Seq::<Seq<char>>::empty(),
        synced(run, replies).saves == Seq::<Memory>::empty(),
        synced(run, replies).state == run.state,
        synced(run, replies).failure is None,
{
}

/// A track counts as processed after a run exactly if it did before or its note
/// was created in the run, and each time a note has been created the state that is
/// saved next says so.
pub proof fn lemma_processed_means_created(run: Progress, replies: SyncReplies)
    ensures
        ({
            let out = synced(run, replies);
            &&& out.state.processed == with_ids(run.state.processed, out.created)
            &&& out.created.len() <= out.saves.len()
            &&& forall|i: int|
                0 <= i < out.created.len() ==> (#[trigger] out.saves[i]).processed == with_ids(
                    run.state.processed,
                    out.created.take(i + 1),
                )
        }),
    decreases run.tracks.len(),
{
    let out = synced(run, replies);
    lemma_with_ids(run.state.processed, Seq::empty(), Seq::empty());
    if !run.dry_run && run.tracks.len() > 0 {
        let track = run.tracks[0];
        let rest = run.without_next();
        let n = rest.tracks.len();
        lemma_processed_means_created(rest, replies);
        if !(run.backup_audio && (replies.audio)(n) is Err) && (replies.note)(n) is Ok {
            let state = with_note(run.state, track.id);
            let next = Progress { state, ..rest };
            lemma_processed_means_created(next, replies);
            let after = match (replies.save)(n) {
                Ok(_) => synced(next, replies),
                Err(message) => ended(state, Some(message@)),
            };
            assert(out.created == seq![track.id] + after.created);
            lemma_with_ids(run.state.processed, track.id, after.created);
            lemma_with_ids(state.processed, track.id, after.created);
            assert forall|i: int| 0 <= i < out.created.len() implies (
            #[trigger] out.saves[i]).processed == with_ids(
                run.state.processed,
                out.created.take(i + 1),
            ) by {
                assert(out.created.take(i + 1) =~= seq![track.id] + after.created.take(i));
                lemma_with_ids(run.state.processed, track.id, after.created.take(i));
                if i == 0 {
                    assert(out.saves[0] == state);
                    assert(after.created.take(0) =~= Seq::empty());
                } else {
                    assert(out.saves[i] == after.saves[i - 1]);
                }
            }
        }
    }
}

/// A run that goes through to the end, and is no dry run, saves the state that it
/// leaves, with the time; one that an error ends before that leaves the time of
/// the last successful run as it was.
pub proof fn lemma_time_of_run(run: Progress, replies: SyncReplies)
    ensures
        ({
            let out = synced(run, replies);
            &&& !run.dry_run && out.failure is None ==> {
                &&& out.saves.len() > 0
                &&& out.saves.last() == out.state
                &&& out.state.last_successful_sync_at == Some(replies.now)
            }
            &&& out.failure is Some && replies.last_save is Ok
                ==> out.state.last_successful_sync_at == run.state.last_successful_sync_at
        }),
    decreases run.tracks.len(),
{
    if !run.dry_run && run.tracks.len() > 0 {
        let track = run.tracks[0];
        let rest = run.without_next();
        lemma_time_of_run(rest, replies);
        lemma_time_of_run(
            Progress { state: with_note(run.state, track.id), ..rest },
            replies,
        );
    }
}

/// A run creates notes for its own tracks only, in their order and one for each
/// at most.
pub proof fn lemma_created_in_order(run: Progress, replies: SyncReplies)
    ensures
        picked_in_order(
            synced(run, replies).created,
            run.tracks.map_values(|track: Track| track.id),
        ),
    decreases run.tracks.len(),
{
    let f = |track: Track| track.id;
    let ids = run.tracks.map_values(f);
    let out = synced(run, replies);
    if run.tracks.len() > 0 {
        let track = run.tracks[0];
        let rest = run.without_next();
        assert(ids.drop_first() =~= rest.tracks.map_values(f));
        lemma_created_in_order(rest, replies);
        lemma_created_in_order(
            Progress { state: with_note(run.state, track.id), ..rest },
            replies,
        );
        if out.created.len() > 0 && out.created != synced(rest, replies).created {
            assert(out.created[0] == ids[0]);
            assert(picked_in_order(Seq::empty(), ids.drop_first()));
            let n = rest.tracks.len();
            let next = Progress { state: with_note(run.state, track.id), ..rest };
            if (replies.save)(n) is Ok {
                assert(out.created.drop_first() =~= synced(next, replies).created);
            } else {
                assert(out.created.drop_first() =~= Seq::empty());
            }
        }
    }
}

/// A run creates no more notes than it has tracks, so no more than the limit if
/// there is one.
pub proof fn lemma_created_count(
    run: Progress,
    replies: SyncReplies,
    liked: Seq<Track>,
    limit: nat,
)
    requires
        run.tracks == selected_tracks(liked, run.state.processed, limit),
    ensures
        synced(run, replies).created.len() <= run.tracks.len(),
        limit != 0 ==> synced(run, replies).created.len() <= limit,
{
    let ids = run.tracks.map_values(|track: Track| track.id);
    lemma_created_in_order(run, replies);
    lemma_picked_count(synced(run, replies).created, ids);
    lemma_selection(liked, run.state.processed, limit);
}

proof fn lemma_picked_count(picked: Seq<Seq<char>>, from: Seq<Seq<char>>)
    requires
        picked_in_order(picked, from),
    ensures
        picked.len() <= from.len(),
    decreases from.len(),
{
    if picked.len() > 0 {
        if picked_in_order(picked, from.drop_first()) {
            lemma_picked_count(picked, from.drop_first());
        } else {
            lemma_picked_count(picked.drop_first(), from.drop_first());
        }
    }
}

/// A track whose audio cannot be downloaded is left as if it had not been liked
/// yet: the run comes to the same as without it.
pub proof fn lemma_failed_audio_leaves_track(run: Progress, replies: SyncReplies)
    requires
        run.tracks.len() > 0,
        !run.dry_run,
        run.backup_audio,
        (replies.audio)((run.tracks.len() - 1) as nat) is Err,
    ensures
        synced(run, replies) == synced(run.without_next(), replies),
{
}

/// A track whose audio cannot be downloaded gets no note and is not remembered, so
/// that it is new to the next run if it was new to this one. Where a track is liked
/// more than once, this is so if the download fails each time.
pub proof fn lemma_failed_audio_unmarked(run: Progress, replies: SyncReplies, id: Seq<char>)
    requires
        run.backup_audio,
        forall|k: int|
            0 <= k < run.tracks.len() && (#[trigger] run.tracks[k]).id == id ==> (replies.audio)(
                (run.tracks.len() - 1 - k) as nat,
            ) is Err,
    ensures
        !synced(run, replies).created.contains(id),
        synced(run, replies).state.processed.contains(id) == run.state.processed.contains(id),
    decreases run.tracks.len(),
{
    lemma_processed_means_created(run, replies);
    let out = synced(run, replies);
    if !run.dry_run && run.tracks.len() > 0 {
        let track = run.tracks[0];
        let rest = run.without_next();
        let next = Progress { state: with_note(run.state, track.id), ..rest };
        assert forall|k: int|
            0 <= k < rest.tracks.len() && (#[trigger] rest.tracks[k]).id == id implies (
        replies.audio)((rest.tracks.len() - 1 - k) as nat) is Err by {
            assert(run.tracks[k + 1] == rest.tracks[k]);
        }
        lemma_failed_audio_unmarked(rest, replies, id);
        lemma_failed_audio_unmarked(next, replies, id);
        let n = rest.tracks.len();
        if !((replies.audio)(n) is Err) && (replies.note)(n) is Ok {
            let after = match (replies.save)(n) {
                Ok(_) => synced(next, replies).created,
                Err(_) => Seq::empty(),
            };
            assert(out.created == seq![track.id] + after);
            assert(track.id != id);
            assert forall|i: int| 0 <= i < out.created.len() implies out.created[i] != id by {
                if i > 0 {
                    assert(out.created[i] == after[i - 1]);
                    assert(after.contains(after[i - 1]));
                }
            }
        }
    }
}

/// The first list comes from the second by leaving some of it out.
pub open spec fn picked_in_order(picked: Seq<Seq<char>>, from: Seq<Seq<char>>) -> bool
    decreases from.len(),
{
    if picked.len() == 0 {
        true
    } else if from.len() == 0 {
        false
    } else {
        ||| picked[0] == from[0] && picked_in_order(picked.drop_first(), from.drop_first())
        ||| picked_in_order(picked, from.drop_first())
    }
}

/// The tracks of a run have no note yet and are liked; they are no more than the
/// limit, if there is one, and all that have no note if there is none or it is not
/// reached.
pub proof fn lemma_selection(liked: Seq<Track>, processed: Set<Seq<char>>, limit: nat)
    ensures
        ({
            let tracks = selected_tracks(liked, processed, limit);
            &&& forall|i: int|
                0 <= i < tracks.len() ==> !processed.contains((#[trigger] tracks[i]).id)
                    && liked.contains(tracks[i])
            &&& limit != 0 ==> tracks.len() <= limit
            &&& tracks.is_prefix_of(new_tracks(liked, processed))
            &&& limit == 0 || tracks.len() < limit ==> forall|i: int|
                0 <= i < liked.len() && !processed.contains((#[trigger] liked[i]).id)
                    ==> tracks.contains(liked[i])
        }),
{
    let keep = |track: Track| !processed.contains(track.id);
    let all = new_tracks(liked, processed);
    let tracks = selected_tracks(liked, processed, limit);
    assert forall|i: int| 0 <= i < tracks.len() implies !processed.contains(
        (#[trigger] tracks[i]).id,
    ) && liked.contains(tracks[i]) by {
        assert(tracks[i] == all[i]);
        liked.lemma_filter_pred(keep, i);
        assert(all.contains(all[i]));
        liked.lemma_filter_contains_rev(keep, all[i]);
    }
    if limit == 0 || tracks.len() < limit {
        assert forall|i: int|
            0 <= i < liked.len() && !processed.contains(
                (#[trigger] liked[i]).id,
            ) implies tracks.contains(liked[i]) by {
            liked.lemma_filter_contains(keep, i);
        }
    }
}

/// Every resource of a note carries the digest of its own bytes, and the content
/// of the note has a place that refers to it by its type and that digest.
pub proof fn lemma_resources_shown(
    note: TrackNote,
    track: Track,
    links: Seq<Link>,
    cover: Option<CoverImage>,
    audio: Option<TrackAudio>,
    resources: Seq<ResourceView>,
    i: int,
)
    requires
        is_note_for(note, track, links, cover, audio),
        resources_for(note.cover, note.audio) == Some(resources),
        0 <= i < resources.len(),
    ensures
        resources[i].body_hash == md5_digest(resources[i].body),
        stands_in(media_tag(resources[i].mime, resources[i].body_hash), note.content@),
{
    lemma_attachments_shown(
        track,
        rfc3339_text(track.liked_at.seconds, track.liked_at.nanos),
        links,
        note.cover,
        note.audio,
    );
}

/// The tracks of a run are liked tracks without a note, in the order in which they
/// were liked. One without a note is left out only if the limit is reached before
/// it.
pub proof fn lemma_selection_in_order(
    liked: Seq<Track>,
    processed: Set<Seq<char>>,
    limit: nat,
) -> (at: Seq<int>)
    ensures
        ({
            let tracks = selected_tracks(liked, processed, limit);
            &&& at.len() == tracks.len()
            &&& rising(at, liked.len())
            &&& forall|i: int|
                0 <= i < at.len() ==> tracks[i] == liked[#[trigger] at[i]] && !processed.contains(
                    tracks[i].id,
                )
            &&& forall|k: int|
                0 <= k < liked.len() && !processed.contains((#[trigger] liked[k]).id)
                    && !at.contains(k) ==> limit != 0 && tracks.len() == limit && at.last() < k
        }),
{
    let keep = |track: Track| !processed.contains(track.id);
    let all = lemma_filter_picks(liked, keep);
    let f = |track: Track|
        if keep(track) {
            Some(track)
        } else {
            None
        };
    let tracks = selected_tracks(liked, processed, limit);
    let at = all.take(tracks.len() as int);
    assert(picks(new_tracks(liked, processed), liked, f, all));
    assert forall|i: int| 0 <= i < at.len() implies tracks[i] == liked[#[trigger] at[i]]
        && !processed.contains(tracks[i].id) by {
        assert(at[i] == all[i]);
        assert(f(liked[all[i]]) == Some(new_tracks(liked, processed)[i]));
    }
    assert forall|k: int|
        0 <= k < liked.len() && !processed.contains((#[trigger] liked[k]).id) && !at.contains(
            k,
        ) implies limit != 0 && tracks.len() == limit && at.last() < k by {
        assert(f(liked[k]) is Some);
        let j = choose|j: int| 0 <= j < all.len() && all[j] == k;
        if j < at.len() {
            assert(at[j] == k);
        } else {
            assert(all[at.len() - 1] < all[j]);
        }
    }
    assert forall|i: int| 0 <= i < at.len() implies #[trigger] at[i] == all[i] by {}
    at
}

/// The steps of a dry run that tell what would be created.
pub open spec fn previews(steps: Seq<SyncTodo>) -> Seq<SyncTodo> {
    steps.filter(|step: SyncTodo| step is Preview)
}

/// A dry run tells of every one of its tracks, in order, by its id, the title of its
/// note and its address.
pub proof fn lemma_previews(run: Progress, replies: SyncReplies)
    requires
        run.dry_run,
    ensures
        ({
            let told = previews(sync_steps(run.advanced(), run.next_todo(), replies));
            &&& told.len() == run.tracks.len()
            &&& forall|k: int|
                0 <= k < run.tracks.len() ==> #[trigger] told[k] == (SyncTodo::Preview {
                    track_id: run.tracks[k].id,
                    title: title_text(run.tracks[k]),
                    url: run.tracks[k].yandex_url,
                })
        }),
    decreases run.tracks.len(),
{
    reveal(Seq::filter);
    let p = |step: SyncTodo| step is Preview;
    let after = run.advanced();
    let first = run.next_todo();
    let steps = sync_steps(after, first, replies);
    if run.tracks.len() == 0 {
        assert(first is Done);
        assert(steps =~= seq![first]);
        assert(seq![first].drop_last().filter(p) =~= Seq::empty());
        assert(previews(steps) =~= Seq::empty());
    } else {
        let track = run.tracks[0];
        let shown = SyncTodo::Preview {
            track_id: track.id,
            title: title_text(track),
            url: track.yandex_url,
        };
        let rest = sync_steps(after.advanced(), after.next_todo(), replies);
        lemma_previews(after, replies);
        assert(sync_next(after, shown, replies) == (after.advanced(), after.next_todo()));
        assert(sync_steps(after, shown, replies) == seq![shown] + rest);
        Seq::filter_distributes_over_add(seq![shown], rest, p);
        assert(seq![shown].drop_last().filter(p) =~= Seq::empty());
        assert(seq![shown].filter(p) =~= seq![shown]);
        if run.enrich {
            assert(first is Enrich);
            assert(sync_next(after, first, replies) == (after, shown));
            assert(steps == seq![first] + sync_steps(after, shown, replies));
            Seq::filter_distributes_over_add(
                seq![first],
                sync_steps(after, shown, replies),
                p,
            );
            assert(seq![first].drop_last().filter(p) =~= Seq::empty());
            assert(seq![first].filter(p) =~= Seq::empty());
        }
        assert(previews(steps) =~= seq![shown] + previews(rest));
        assert forall|k: int| 0 <= k < run.tracks.len() implies #[trigger] previews(steps)[k] == (
        SyncTodo::Preview {
            track_id: run.tracks[k].id,
            title: title_text(run.tracks[k]),
            url: run.tracks[k].yandex_url,
        }) by {
            if k > 0 {
                assert(previews(steps)[k] == previews(rest)[k - 1]);
                assert(after.tracks[k - 1] == run.tracks[k]);
            }
        }
    }
}

// ---------------------------------------------------------------------------
// What a step hands out
// ---------------------------------------------------------------------------
/// A step that is the given one is of the same kind and hands out what that says.
pub proof fn lemma_step_hands_out(step: SyncStep, todo: SyncTodo)
    requires
        step.is(todo),
    ensures
        match todo {
            SyncTodo::DownloadAudio { track } => step is DownloadAudio
                && step->DownloadAudio_track@ == track,
            SyncTodo::Enrich { track, audio } => step is Enrich && step->Enrich_track@ == track
                && step->Enrich_audio == audio,
            SyncTodo::Preview { track_id, title, url } => {
                &&& step is Preview
                &&& step->track_id@ == track_id
                &&& step->title@ == title
                &&& step->url@ == url
            },
            SyncTodo::DownloadCover { track, links, audio, cover_url } => {
                &&& step is DownloadCover
                &&& step->DownloadCover_track@ == track
                &&& link_views(step->links@) == links
                &&& step->DownloadCover_audio == audio
                &&& step->cover_url@ == cover_url
            },
            SyncTodo::CreateNote { track, links, cover, audio } => {
                &&& step is CreateNote
                &&& is_note_for(step->note, track, links, cover, audio)
            },
            SyncTodo::Save => step is Save,
            SyncTodo::Stamp => step is Stamp,
            SyncTodo::SaveLast => step is SaveLast,
            SyncTodo::Done => step is Done,
            SyncTodo::Failed { message } => step is Failed && step->message@ == message,
        },
{
}

/// A note has an attachment for the audio exactly if there is audio, and it holds
/// the bytes of the audio; likewise for the cover; whatever else the note has. It
/// goes by the id, the address and the title of its track, and each of its links
/// stands in its content.
pub proof fn lemma_note_of_track(
    note: TrackNote,
    track: Track,
    links: Seq<Link>,
    cover: Option<CoverImage>,
    audio: Option<TrackAudio>,
)
    requires
        is_note_for(note, track, links, cover, audio),
    ensures
        note.track_id@ == track.id,
        note.source_url@ == track.yandex_url,
        note.title@ == title_text(track),
        note.audio is Some <==> audio is Some,
        audio is Some ==> {
            &&& note.audio->0.body@ == audio->0.bytes@
            &&& note.audio->0.mime@ == mime_of(audio->0.codec@)
            &&& note.audio->0.quality@ == audio->0.quality@
            &&& note.audio->0.bitrate_kbps == audio->0.bitrate_kbps
            &&& note.audio->0.md5@ == md5_digest(audio->0.bytes@)
            &&& note.audio->0.file_name@ == file_stem(note.title@) + "."@ + extension_of(
                audio->0.codec@,
            )
            &&& stands_in(
                media_tag(mime_of(audio->0.codec@), md5_digest(audio->0.bytes@)),
                note.content@,
            )
        },
        note.cover is Some <==> cover is Some,
        cover is Some ==> {
            &&& note.cover->0.body@ == cover->0.bytes@
            &&& note.cover->0.mime@ == cover->0.mime@
            &&& note.cover->0.md5@ == md5_digest(cover->0.bytes@)
            &&& note.cover->0.file_name@ == if cover->0.mime@ == "image/jpeg"@ {
                "cover.jpg"@
            } else if cover->0.mime@ == "image/png"@ {
                "cover.png"@
            } else {
                "cover"@
            }
            &&& stands_in(media_tag(cover->0.mime@, md5_digest(cover->0.bytes@)), note.content@)
        },
        forall|i: int|
            0 <= i < links.len() ==> stands_in(
                "<div><a href=\""@ + markup_escaped((#[trigger] links[i]).url) + "\">"@
                    + markup_escaped(links[i].label) + "</a></div>"@,
                note.content@,
            ),
{
    reveal_strlit(".");
    assert("."@ =~= seq!['.']);
    lemma_attachments_shown(
        track,
        rfc3339_text(track.liked_at.seconds, track.liked_at.nanos),
        links,
        note.cover,
        note.audio,
    );
    assert forall|i: int| 0 <= i < links.len() implies stands_in(
        "<div><a href=\""@ + markup_escaped((#[trigger] links[i]).url) + "\">"@ + markup_escaped(
            links[i].label,
        ) + "</a></div>"@,
        note.content@,
    ) by {
        lemma_links_shown(
            track,
            rfc3339_text(track.liked_at.seconds, track.liked_at.nanos),
            links,
            note.cover,
            note.audio,
            i,
        );
    }
}

} // verus!
