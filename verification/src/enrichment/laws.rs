//! What holds of the links for a track as a whole, whatever the services
//! answer.
use vstd::prelude::*;

use crate::audio::TrackAudio;
use crate::enrichment::client::{
    acoustid_form, can_fingerprint, catalog_todo, client_after_songlink, completed_links,
    exact_links, fingerprint_of, first_links, first_todo, genius_fallback, genius_link, lyrics_link,
    lyrics_todo, metadata_links, metadata_todo, refused, songlink_fallback, songlink_link,
    songlink_todo, succeeded, todo_after_acoustid, todo_after_fingerprint, todo_after_songlink,
    Client, Reply, SonglinkReply, Todo,
};
use crate::enrichment::links::{related_searches, wikimedia_searches, Link};
use crate::enrichment::lookups::{
    AcoustIdResponse, FpcalcRun, GeniusResponse, MusicBrainzResponse, SONGLINK_MAX_ATTEMPTS,
    SONGLINK_MAX_RETRY_AFTER_SECONDS,
};
use crate::enrichment::services::ExternalLinkService;
use crate::yandex::Track;

verus! {

/// What each service would answer.
pub struct Replies {
    pub fpcalc: FpcalcRun,
    pub acoustid: Reply<AcoustIdResponse>,
    pub musicbrainz: Reply<MusicBrainzResponse>,
    pub lrclib: Reply<()>,
    /// The answers of Songlink to its attempts.
    pub songlink: spec_fn(nat) -> SonglinkReply,
    pub genius: Reply<GeniusResponse>,
}

/// The client and the step that come after a step, if what it says is done and
/// answered as `replies` say. After the last step nothing comes.
pub open spec fn next(client: Client, track: Track, todo: Todo, replies: Replies) -> (
    Client,
    Todo,
) {
    match todo {
        Todo::Fingerprint { links, .. } => {
            let after = Client {
                acoustid_fpcalc_missing: client.acoustid_fpcalc_missing || replies.fpcalc
                    is Missing,
                ..client
            };
            (after, todo_after_fingerprint(after, track, links, replies.fpcalc))
        },
        Todo::AcoustId { links, .. } => (
            client,
            todo_after_acoustid(client, track, links, replies.acoustid),
        ),
        Todo::MusicBrainz { links, .. } => (
            client,
            lyrics_todo(client, track, links + metadata_links(track, replies.musicbrainz)),
        ),
        Todo::Lrclib { links, .. } => (
            client,
            songlink_todo(
                client,
                track,
                links.push(lyrics_link(track, succeeded(replies.lrclib))),
            ),
        ),
        Todo::Songlink { links, retries, .. } => (
            client_after_songlink(client, retries, (replies.songlink)(retries)),
            todo_after_songlink(client, track, links, retries, (replies.songlink)(retries)),
        ),
        Todo::Wait { links, url, retries, .. } => (client, Todo::Songlink { links, url, retries }),
        Todo::Genius { links, .. } => (
            client,
            Todo::Done { links: links.push(genius_link(track, replies.genius)) },
        ),
        Todo::Done { links } => (client, todo),
    }
}

/// The client and the links in the end, if from the given step on everything
/// that is to be done is done, and answered as `replies` say.
pub open spec fn outcome(client: Client, track: Track, todo: Todo, replies: Replies) -> (
    Client,
    Seq<Link>,
)
    decreases rank(todo), tries_left(todo),
{
    match todo {
        Todo::Done { links } => (client, links),
        _ => {
            let (after, then) = next(client, track, todo, replies);
            outcome(after, track, then, replies)
        },
    }
}

/// All steps from the given one on, if everything that is to be done is done, and
/// answered as `replies` say.
pub open spec fn steps(client: Client, track: Track, todo: Todo, replies: Replies) -> Seq<Todo>
    decreases rank(todo), tries_left(todo),
{
    match todo {
        Todo::Done { .. } => seq![todo],
        _ => {
            let (after, then) = next(client, track, todo, replies);
            seq![todo] + steps(after, track, then, replies)
        },
    }
}

/// How many services come after a step at most.
pub open spec fn rank(todo: Todo) -> nat {
    match todo {
        Todo::Fingerprint { .. } => 6,
        Todo::AcoustId { .. } => 5,
        Todo::MusicBrainz { .. } => 4,
        Todo::Lrclib { .. } => 3,
        Todo::Songlink { .. } | Todo::Wait { .. } => 2,
        Todo::Genius { .. } => 1,
        Todo::Done { .. } => 0,
    }
}

/// How many more times Songlink can be asked and waited for.
pub open spec fn tries_left(todo: Todo) -> nat {
    match todo {
        Todo::Songlink { retries, .. } => if retries < SONGLINK_MAX_ATTEMPTS {
            (2 * (SONGLINK_MAX_ATTEMPTS - retries)) as nat
        } else {
            0
        },
        Todo::Wait { retries, .. } => if retries < SONGLINK_MAX_ATTEMPTS {
            (2 * (SONGLINK_MAX_ATTEMPTS - retries) + 1) as nat
        } else {
            1
        },
        _ => 0,
    }
}

/// The exact links that the audio leads to, if it does.
pub open spec fn exact_match(
    client: Client,
    audio: Option<&TrackAudio>,
    replies: Replies,
) -> Option<Seq<Link>> {
    if can_fingerprint(client, audio) && fingerprint_of(replies.fpcalc) is Some {
        exact_links(client, replies.acoustid)
    } else {
        None
    }
}

/// The links to MusicBrainz and to what builds on it.
pub open spec fn musicbrainz_section(
    client: Client,
    track: Track,
    audio: Option<&TrackAudio>,
    replies: Replies,
) -> Seq<Link> {
    match exact_match(client, audio, replies) {
        Some(exact) => completed_links(client, track, exact),
        None => if client.uses(ExternalLinkService::MusicBrainz) {
            metadata_links(track, replies.musicbrainz)
        } else {
            Seq::empty()
        },
    }
}

/// The link to LRCLIB.
pub open spec fn lyrics_section(client: Client, track: Track, replies: Replies) -> Seq<Link> {
    if client.uses(ExternalLinkService::Lrclib) {
        seq![lyrics_link(track, succeeded(replies.lrclib))]
    } else {
        Seq::empty()
    }
}

/// The link to Songlink: as it answers the first attempt, or the second if it
/// refuses the first, or the third if it refuses both.
pub open spec fn songlink_section(client: Client, track: Track, replies: Replies) -> Seq<Link> {
    if !client.uses(ExternalLinkService::Songlink) {
        Seq::empty()
    } else if client.songlink_rate_limited {
        seq![songlink_fallback(track)]
    } else if !refused((replies.songlink)(0)) {
        seq![songlink_link(track, (replies.songlink)(0))]
    } else if !refused((replies.songlink)(1)) {
        seq![songlink_link(track, (replies.songlink)(1))]
    } else {
        seq![songlink_link(track, (replies.songlink)(2))]
    }
}

/// The link to Genius.
pub open spec fn genius_section(client: Client, track: Track, replies: Replies) -> Seq<Link> {
    if !client.uses(ExternalLinkService::Genius) {
        Seq::empty()
    } else if client.genius_access_token is Some {
        seq![genius_link(track, replies.genius)]
    } else {
        seq![genius_fallback(track)]
    }
}

/// Whatever the services answer, the links for a track are, in this order: to
/// YouTube, Last.fm and RuTracker; to MusicBrainz and what builds on it; to
/// LRCLIB; to Songlink; to the other catalogs and search engines; to Wikidata
/// and Wikipedia; to Genius.
pub proof fn lemma_links_for(
    client: Client,
    track: Track,
    audio: Option<&TrackAudio>,
    replies: Replies,
)
    ensures
        outcome(client, track, first_todo(client, track, audio), replies).1 == first_links(
            client,
            track,
        ) + musicbrainz_section(client, track, audio, replies) + lyrics_section(
            client,
            track,
            replies,
        ) + songlink_section(client, track, replies) + related_searches(
            track,
            client.on,
            client.off,
        ) + wikimedia_searches(track, client.on, client.off) + genius_section(
            client,
            track,
            replies,
        ),
{
    let first = first_links(client, track);
    let next = Client {
        acoustid_fpcalc_missing: client.acoustid_fpcalc_missing || (can_fingerprint(client, audio)
            && replies.fpcalc is Missing),
        ..client
    };
    let section = musicbrainz_section(client, track, audio, replies);
    lemma_to_lyrics(client, next, track, audio, replies);
    lemma_from_lyrics(next, track, first + section, replies);
    assert(lyrics_section(next, track, replies) == lyrics_section(client, track, replies));
    assert(songlink_section(next, track, replies) == songlink_section(client, track, replies));
    assert(genius_section(next, track, replies) == genius_section(client, track, replies));
}

proof fn lemma_to_lyrics(
    client: Client,
    next: Client,
    track: Track,
    audio: Option<&TrackAudio>,
    replies: Replies,
)
    requires
        next == (Client {
            acoustid_fpcalc_missing: client.acoustid_fpcalc_missing || (can_fingerprint(
                client,
                audio,
            ) && replies.fpcalc is Missing),
            ..client
        }),
    ensures
        outcome(client, track, first_todo(client, track, audio), replies) == outcome(
            next,
            track,
            lyrics_todo(
                next,
                track,
                first_links(client, track) + musicbrainz_section(client, track, audio, replies),
            ),
            replies,
        ),
{
    let first = first_links(client, track);
    lemma_from_metadata(next, track, first, replies);
    if can_fingerprint(client, audio) {
        let after = todo_after_fingerprint(next, track, first, replies.fpcalc);
        assert(outcome(client, track, first_todo(client, track, audio), replies) == outcome(
            next,
            track,
            after,
            replies,
        ));
        if fingerprint_of(replies.fpcalc) is Some {
            assert(exact_links(next, replies.acoustid) == exact_links(client, replies.acoustid));
            assert(outcome(next, track, after, replies) == outcome(
                next,
                track,
                todo_after_acoustid(next, track, first, replies.acoustid),
                replies,
            ));
            if let Some(exact) = exact_links(client, replies.acoustid) {
                assert(completed_links(next, track, exact) == completed_links(
                    client,
                    track,
                    exact,
                ));
            }
        }
    } else {
        assert(next == client);
    }
}

proof fn lemma_from_metadata(client: Client, track: Track, links: Seq<Link>, replies: Replies)
    ensures
        outcome(client, track, metadata_todo(client, track, links), replies) == outcome(
            client,
            track,
            lyrics_todo(
                client,
                track,
                links + (if client.uses(ExternalLinkService::MusicBrainz) {
                    metadata_links(track, replies.musicbrainz)
                } else {
                    Seq::empty()
                }),
            ),
            replies,
        ),
{
    assert(links + Seq::<Link>::empty() =~= links);
}

proof fn lemma_from_lyrics(client: Client, track: Track, links: Seq<Link>, replies: Replies)
    ensures
        outcome(client, track, lyrics_todo(client, track, links), replies).1 == links
            + lyrics_section(client, track, replies) + songlink_section(client, track, replies)
            + related_searches(track, client.on, client.off) + wikimedia_searches(
            track,
            client.on,
            client.off,
        ) + genius_section(client, track, replies),
{
    let section = lyrics_section(client, track, replies);
    if client.uses(ExternalLinkService::Lrclib) {
        assert(links + section =~= links.push(lyrics_link(track, succeeded(replies.lrclib))));
    } else {
        assert(links + section =~= links);
    }
    lemma_from_songlink(client, track, links + section, replies);
}

proof fn lemma_from_songlink(client: Client, track: Track, links: Seq<Link>, replies: Replies)
    ensures
        outcome(client, track, songlink_todo(client, track, links), replies).1 == links
            + songlink_section(client, track, replies) + related_searches(
            track,
            client.on,
            client.off,
        ) + wikimedia_searches(track, client.on, client.off) + genius_section(
            client,
            track,
            replies,
        ),
{
    reveal_with_fuel(outcome, 6);
    let section = songlink_section(client, track, replies);
    let limited = Client { songlink_rate_limited: true, ..client };
    if !client.uses(ExternalLinkService::Songlink) {
        assert(links + section =~= links);
    } else {
        assert(links + section =~= links.push(section[0]));
    }
    lemma_from_catalog(client, client, track, links + section, replies);
    lemma_from_catalog(limited, client, track, links + section, replies);
}

proof fn lemma_from_catalog(
    now: Client,
    client: Client,
    track: Track,
    links: Seq<Link>,
    replies: Replies,
)
    ensures
        outcome(now, track, catalog_todo(client, track, links), replies).1 == links
            + related_searches(track, client.on, client.off) + wikimedia_searches(
            track,
            client.on,
            client.off,
        ) + genius_section(client, track, replies),
{
    let all = links + related_searches(track, client.on, client.off) + wikimedia_searches(
        track,
        client.on,
        client.off,
    );
    let section = genius_section(client, track, replies);
    let todo = catalog_todo(client, track, links);
    if client.uses(ExternalLinkService::Genius) {
        assert(all + section =~= all.push(section[0]));
        if client.genius_access_token is Some {
            let then = Todo::Done { links: all.push(genius_link(track, replies.genius)) };
            assert(todo is Genius);
            assert(next(now, track, todo, replies) == (now, then));
            assert(outcome(now, track, todo, replies) == outcome(now, track, then, replies));
        }
    } else {
        assert(all + section =~= all);
    }
}

// ---------------------------------------------------------------------------
// Which services are asked
// ---------------------------------------------------------------------------
/// A step asks only services that may be used, asks AcoustID and Genius only with
/// the credentials for them, and nothing that the client has given up.
pub open spec fn allowed(client: Client, todo: Todo) -> bool {
    match todo {
        Todo::Fingerprint { .. } | Todo::AcoustId { .. } => client.tries_acoustid()
            && client.acoustid_api_key is Some && !client.acoustid_fpcalc_missing,
        Todo::MusicBrainz { .. } => client.uses(ExternalLinkService::MusicBrainz),
        Todo::Lrclib { .. } => client.uses(ExternalLinkService::Lrclib),
        Todo::Songlink { .. } | Todo::Wait { .. } => client.uses(ExternalLinkService::Songlink)
            && !client.songlink_rate_limited,
        Todo::Genius { token, .. } => client.uses(ExternalLinkService::Genius)
            && client.genius_access_token == Some(token),
        Todo::Done { .. } => true,
    }
}

/// Two clients differ in nothing but what they have given up.
pub open spec fn same_settings(client: Client, other: Client) -> bool {
    &&& client.genius_access_token == other.genius_access_token
    &&& client.acoustid_api_key == other.acoustid_api_key
    &&& client.songlink_user_country == other.songlink_user_country
    &&& client.on == other.on
    &&& client.off == other.off
}

/// A step that a client can come to which started as `start`.
spec fn reached(start: Client, now: Client, todo: Todo) -> bool {
    &&& same_settings(start, now)
    &&& allowed(start, todo)
    &&& rank(todo) >= 2 ==> now.songlink_rate_limited == start.songlink_rate_limited
}

proof fn lemma_reached(start: Client, now: Client, track: Track, todo: Todo, replies: Replies)
    requires
        reached(start, now, todo),
    ensures
        ({
            let (after, then) = next(now, track, todo, replies);
            reached(start, after, then)
        }),
{
}

proof fn lemma_allowed_from(start: Client, now: Client, track: Track, todo: Todo, replies: Replies)
    requires
        reached(start, now, todo),
    ensures
        forall|i: int|
            0 <= i < steps(now, track, todo, replies).len() ==> allowed(
                start,
                #[trigger] steps(now, track, todo, replies)[i],
            ),
    decreases rank(todo), tries_left(todo),
{
    if !(todo is Done) {
        let (after, then) = next(now, track, todo, replies);
        lemma_reached(start, now, track, todo, replies);
        lemma_allowed_from(start, after, track, then, replies);
        let rest = steps(after, track, then, replies);
        let all = steps(now, track, todo, replies);
        assert(all == seq![todo] + rest);
        assert forall|i: int| 0 <= i < all.len() implies allowed(start, #[trigger] all[i]) by {
            if i > 0 {
                assert(all[i] == rest[i - 1]);
            }
        }
    }
}

/// Whatever is answered, no step for a track asks what may not be asked.
pub proof fn lemma_steps_allowed(
    client: Client,
    track: Track,
    audio: Option<&TrackAudio>,
    replies: Replies,
    i: int,
)
    requires
        0 <= i < steps(client, track, first_todo(client, track, audio), replies).len(),
    ensures
        allowed(client, steps(client, track, first_todo(client, track, audio), replies)[i]),
{
    lemma_allowed_from(client, client, track, first_todo(client, track, audio), replies);
}

/// Without a key for AcoustID, without audio, or once `fpcalc` is known to be
/// missing, `fpcalc` is not run and AcoustID is not asked, whatever else is done
/// for the track; and no exact links come of it.
pub proof fn lemma_no_fingerprint(
    client: Client,
    track: Track,
    audio: Option<&TrackAudio>,
    replies: Replies,
)
    requires
        client.acoustid_api_key is None || audio is None || client.acoustid_fpcalc_missing,
    ensures
        ({
            let all = steps(client, track, first_todo(client, track, audio), replies);
            &&& forall|i: int|
                0 <= i < all.len() ==> !(#[trigger] all[i] is Fingerprint) && !(all[i] is AcoustId)
            &&& exact_match(client, audio, replies) is None
        }),
{
    lemma_ranks(client, track, first_todo(client, track, audio), replies);
}

/// No step comes back to a service that came before.
proof fn lemma_ranks(client: Client, track: Track, todo: Todo, replies: Replies)
    ensures
        forall|i: int|
            0 <= i < steps(client, track, todo, replies).len() ==> rank(
                #[trigger] steps(client, track, todo, replies)[i],
            ) <= rank(todo),
    decreases rank(todo), tries_left(todo),
{
    if !(todo is Done) {
        let (after, then) = next(client, track, todo, replies);
        lemma_ranks(after, track, then, replies);
        let rest = steps(after, track, then, replies);
        let all = steps(client, track, todo, replies);
        assert(all == seq![todo] + rest);
        assert(rank(then) <= rank(todo));
        assert forall|i: int| 0 <= i < all.len() implies rank(#[trigger] all[i]) <= rank(todo) by {
            if i > 0 {
                assert(all[i] == rest[i - 1]);
            }
        }
    }
}

// ---------------------------------------------------------------------------
// Songlink
// ---------------------------------------------------------------------------
/// How many of the steps ask Songlink.
pub open spec fn songlink_requests(all: Seq<Todo>) -> nat {
    all.filter(|todo: Todo| todo is Songlink).len()
}

/// How many attempts are made, from the given one on.
spec fn attempts_from(replies: Replies, retries: nat) -> nat
    decreases SONGLINK_MAX_ATTEMPTS - retries,
{
    if retries + 1 < SONGLINK_MAX_ATTEMPTS && refused((replies.songlink)(retries)) {
        1 + attempts_from(replies, retries + 1)
    } else {
        1
    }
}

/// All attempts from the given one on are refused.
spec fn refused_from(replies: Replies, retries: nat) -> bool
    decreases SONGLINK_MAX_ATTEMPTS - retries,
{
    &&& refused((replies.songlink)(retries))
    &&& retries + 1 < SONGLINK_MAX_ATTEMPTS ==> refused_from(replies, retries + 1)
}

/// How many attempts are made from a step on.
spec fn attempts_of(client: Client, todo: Todo, replies: Replies) -> nat {
    match todo {
        Todo::Songlink { retries, .. } | Todo::Wait { retries, .. } => attempts_from(
            replies,
            retries,
        ),
        Todo::Genius { .. } | Todo::Done { .. } => 0,
        _ => if client.uses(ExternalLinkService::Songlink) && !client.songlink_rate_limited {
            attempts_from(replies, 0)
        } else {
            0
        },
    }
}

/// From a step on, Songlink refuses all attempts, so that it is given up.
spec fn gives_up_from(client: Client, todo: Todo, replies: Replies) -> bool {
    match todo {
        Todo::Songlink { retries, .. } | Todo::Wait { retries, .. } => refused_from(
            replies,
            retries,
        ),
        Todo::Genius { .. } | Todo::Done { .. } => false,
        _ => client.uses(ExternalLinkService::Songlink) && !client.songlink_rate_limited
            && refused_from(replies, 0),
    }
}

proof fn lemma_one_step(client: Client, track: Track, todo: Todo, replies: Replies)
    requires
        !(todo is Done),
    ensures
        ({
            let (after, then) = next(client, track, todo, replies);
            &&& same_settings(client, after)
            &&& attempts_of(client, todo, replies) == (if todo is Songlink {
                1nat
            } else {
                0
            }) + attempts_of(after, then, replies)
            &&& (client.songlink_rate_limited || gives_up_from(client, todo, replies)) == (
            after.songlink_rate_limited || gives_up_from(after, then, replies))
            &&& after.acoustid_fpcalc_missing == (client.acoustid_fpcalc_missing || todo
                is Fingerprint && replies.fpcalc is Missing)
            &&& !(then is Fingerprint)
        }),
{
}

proof fn lemma_from_step(client: Client, track: Track, todo: Todo, replies: Replies)
    ensures
        ({
            let end = outcome(client, track, todo, replies).0;
            &&& same_settings(client, end)
            &&& songlink_requests(steps(client, track, todo, replies)) == attempts_of(
                client,
                todo,
                replies,
            )
            &&& end.songlink_rate_limited == (client.songlink_rate_limited || gives_up_from(
                client,
                todo,
                replies,
            ))
            &&& end.acoustid_fpcalc_missing == (client.acoustid_fpcalc_missing || todo
                is Fingerprint && replies.fpcalc is Missing)
        }),
    decreases rank(todo), tries_left(todo),
{
    let asks = |todo: Todo| todo is Songlink;
    reveal(Seq::filter);
    assert(seq![todo].drop_last().filter(asks) =~= Seq::empty());
    if !(todo is Done) {
        let (after, then) = next(client, track, todo, replies);
        lemma_one_step(client, track, todo, replies);
        lemma_from_step(after, track, then, replies);
        Seq::filter_distributes_over_add(
            seq![todo],
            steps(after, track, then, replies),
            asks,
        );
    }
}

/// For each track Songlink is asked at most three times: until the first answer
/// that does not ask for patience, which decides, or until the third. If all three
/// ask for patience it is given up, and nothing else makes it be given up. `fpcalc`
/// is given up exactly if it was run and is missing. Nothing else about the client
/// changes.
pub proof fn lemma_songlink(
    client: Client,
    track: Track,
    audio: Option<&TrackAudio>,
    replies: Replies,
)
    ensures
        ({
            let first = first_todo(client, track, audio);
            let end = outcome(client, track, first, replies).0;
            let (a, b, c) = (
                (replies.songlink)(0),
                (replies.songlink)(1),
                (replies.songlink)(2),
            );
            let asked = client.uses(ExternalLinkService::Songlink)
                && !client.songlink_rate_limited;
            &&& songlink_requests(steps(client, track, first, replies)) == if !asked {
                0nat
            } else if !refused(a) {
                1
            } else if !refused(b) {
                2
            } else {
                3
            }
            &&& songlink_section(client, track, replies) == if !client.uses(
                ExternalLinkService::Songlink,
            ) {
                Seq::<Link>::empty()
            } else if !asked {
                seq![songlink_fallback(track)]
            } else if !refused(a) {
                seq![songlink_link(track, a)]
            } else if !refused(b) {
                seq![songlink_link(track, b)]
            } else if !refused(c) {
                seq![songlink_link(track, c)]
            } else {
                seq![songlink_fallback(track)]
            }
            &&& end.songlink_rate_limited == (client.songlink_rate_limited || asked && refused(a)
                && refused(b) && refused(c))
            &&& end.acoustid_fpcalc_missing == (client.acoustid_fpcalc_missing || can_fingerprint(
                client,
                audio,
            ) && replies.fpcalc is Missing)
            &&& same_settings(client, end)
        }),
{
    let first = first_todo(client, track, audio);
    lemma_from_step(client, track, first, replies);
    reveal_with_fuel(attempts_from, 3);
    reveal_with_fuel(refused_from, 3);
    assert(first is Fingerprint <==> can_fingerprint(client, audio));
}

/// Between two attempts at Songlink there is a wait of a minute at most.
pub proof fn lemma_wait(
    client: Client,
    track: Track,
    links: Seq<Link>,
    retries: nat,
    reply: SonglinkReply,
)
    ensures
        match todo_after_songlink(client, track, links, retries, reply) {
            Todo::Wait { retries: made, seconds, .. } => {
                &&& made == retries + 1
                &&& made < SONGLINK_MAX_ATTEMPTS
                &&& seconds <= SONGLINK_MAX_RETRY_AFTER_SECONDS
            },
            Todo::Songlink { .. } => false,
            _ => true,
        },
{
}

// ---------------------------------------------------------------------------
// Many tracks
// ---------------------------------------------------------------------------
/// A track whose links are gathered, and what would be answered.
pub struct Job<'a> {
    pub track: Track,
    pub audio: Option<&'a TrackAudio>,
    pub replies: Replies,
}

/// The client after the links for these tracks were gathered, one after the other.
pub open spec fn client_after(client: Client, jobs: Seq<Job>) -> Client
    decreases jobs.len(),
{
    if jobs.len() == 0 {
        client
    } else {
        let before = client_after(client, jobs.drop_last());
        let job = jobs.last();
        outcome(before, job.track, first_todo(before, job.track, job.audio), job.replies).0
    }
}

/// What a client has given up it never takes up again: however many tracks come
/// after, for none of them is `fpcalc` run or AcoustID asked once it is known to be
/// missing, nor Songlink asked once it has been given up; the link to Songlink is
/// then the one that needs no answer.
pub proof fn lemma_given_up_for_good(client: Client, jobs: Seq<Job>, job: Job)
    ensures
        ({
            let later = client_after(client, jobs);
            let all = steps(
                later,
                job.track,
                first_todo(later, job.track, job.audio),
                job.replies,
            );
            &&& same_settings(client, later)
            &&& client.acoustid_fpcalc_missing ==> {
                &&& later.acoustid_fpcalc_missing
                &&& forall|i: int|
                    0 <= i < all.len() ==> !(#[trigger] all[i] is Fingerprint) && !(all[i]
                        is AcoustId)
            }
            &&& client.songlink_rate_limited ==> {
                &&& later.songlink_rate_limited
                &&& songlink_requests(all) == 0
                &&& client.uses(ExternalLinkService::Songlink) ==> songlink_section(
                    later,
                    job.track,
                    job.replies,
                ) == seq![songlink_fallback(job.track)]
            }
        }),
    decreases jobs.len(),
{
    if jobs.len() > 0 {
        let last = jobs.last();
        let before = client_after(client, jobs.drop_last());
        lemma_given_up_for_good(client, jobs.drop_last(), last);
        lemma_songlink(before, last.track, last.audio, last.replies);
    }
    let later = client_after(client, jobs);
    lemma_songlink(later, job.track, job.audio, job.replies);
    if later.acoustid_fpcalc_missing {
        lemma_no_fingerprint(later, job.track, job.audio, job.replies);
    }
}

/// The audio itself is never sent: what is done for a track depends only on
/// whether there is audio and in which codec, and AcoustID gets nothing of it but
/// the duration and the fingerprint that `fpcalc` printed.
pub proof fn lemma_audio_stays(
    client: Client,
    track: Track,
    audio: &TrackAudio,
    other: &TrackAudio,
    links: Seq<Link>,
    run: FpcalcRun,
)
    requires
        audio.codec@ == other.codec@,
        audio.bytes@.len() > 0 <==> other.bytes@.len() > 0,
    ensures
        first_todo(client, track, Some(audio)) == first_todo(client, track, Some(other)),
        match todo_after_fingerprint(client, track, links, run) {
            Todo::AcoustId { form, .. } => match (client.acoustid_api_key, fingerprint_of(run)) {
                (Some(api_key), Some((seconds, fingerprint))) => form == acoustid_form(
                    api_key,
                    seconds,
                    fingerprint,
                ),
                _ => false,
            },
            _ => true,
        },
{
}

} // verus!
