//! What the services are asked, and what becomes of their answers.
use vstd::prelude::*;

use crate::audio::{extension_of, TrackAudio};
use crate::enrichment::client::{
    completed_links, exact_links, fingerprint_of, first_todo, genius_fallback, genius_link,
    lyrics_link, metadata_links, songlink_fallback, songlink_link, Client, Reply, SonglinkReply,
    Todo,
};
use crate::enrichment::laws::{
    lemma_links_for, lemma_songlink, next, outcome, rank, same_settings, steps, tries_left, Replies,
};
use crate::enrichment::links::{
    lastfm_searches, musicbrainz_entity_searches, related_searches, rutracker_searches,
    wikimedia_searches, youtube_searches, Link,
};
use crate::enrichment::lookups::{
    best_recording, first_hit, missing_searches, recording_found, recording_links, result_views,
    retry_delay_seconds, songlink_found, AcoustIdResponse, FpcalcRun, GeniusResponse,
    MusicBrainzResponse,
};
use crate::enrichment::services::{enabled, ExternalLinkService};
use crate::enrichment::urls::{
    form_pair, form_query, human_phrase, musicbrainz_phrase, path_address, query_address,
    query_address_1,
};
use crate::escape::{
    form_decoded_bytes, form_encoded, lemma_form_inert, lemma_path_read_back,
    lemma_quoted_read_back, plus_as_space, quote_escaped, read_quoted,
};
use crate::text::{decimal, lemma_pieces_joined, opt_text, pieces, white_space};
use crate::yandex::Track;

verus! {

// ---------------------------------------------------------------------------
// Addresses
// ---------------------------------------------------------------------------
/// An address starts with its base and a question mark; what follows, taken apart at
/// the ampersands, is the parameters, one for one and in order, each as its name, an
/// equals sign and its value, both in the form encoding.
pub proof fn lemma_address(base: Seq<char>, params: Seq<(Seq<char>, Seq<char>)>)
    requires
        params.len() > 0,
    ensures
        ({
            let address = query_address(base, params);
            let rest = address.skip(base.len() as int + 1);
            let parts = pieces(rest, |c: char| c == '&');
            &&& address.take(base.len() as int) == base
            &&& address[base.len() as int] == '?'
            &&& parts.len() == params.len()
            &&& forall|i: int|
                0 <= i < params.len() ==> #[trigger] parts[i] == form_encoded(params[i].0) + seq![
                    '=',
                ] + form_encoded(params[i].1)
        }),
{
    let pairs = params.map_values(|p: (Seq<char>, Seq<char>)| form_pair(p.0, p.1));
    let address = query_address(base, params);
    assert(address.take(base.len() as int) =~= base);
    assert(address.skip(base.len() as int + 1) =~= form_query(params));
    assert forall|i: int| 0 <= i < pairs.len() implies !(#[trigger] pairs[i]).contains('&') by {
        let name = form_encoded(params[i].0);
        let value = form_encoded(params[i].1);
        let pair = pairs[i];
        assert(pair == name + seq!['='] + value);
        if pair.contains('&') {
            let k = choose|k: int| 0 <= k < pair.len() && pair[k] == '&';
            if k < name.len() {
                lemma_form_inert(params[i].0, k);
            } else if k > name.len() {
                lemma_form_inert(params[i].1, k - name.len() - 1);
            }
        }
    }
    lemma_pieces_joined(pairs, '&');
    assert forall|i: int| 0 <= i < params.len() implies #[trigger] pairs[i] == form_encoded(
        params[i].0,
    ) + seq!['='] + form_encoded(params[i].1) by {}
}

/// An address with one parameter is one with that parameter.
pub proof fn lemma_address_1(base: Seq<char>, name: Seq<char>, value: Seq<char>)
    ensures
        query_address_1(base, name, value) == base + "?"@ + form_encoded(name) + "="@
            + form_encoded(value),
{
    reveal_strlit("?");
    reveal_strlit("=");
    let params = seq![(name, value)];
    let pairs = params.map_values(|p: (Seq<char>, Seq<char>)| form_pair(p.0, p.1));
    assert(pairs =~= seq![form_pair(name, value)]);
    assert(form_query(params) == form_pair(name, value));
    assert(query_address_1(base, name, value) =~= base + "?"@ + form_encoded(name) + "="@
        + form_encoded(value));
}

/// An address with a search phrase in its path starts with its base and a slash, and the
/// phrase can be read back from what follows.
pub proof fn lemma_path_address(base: Seq<char>, query: Seq<char>)
    ensures
        ({
            let address = path_address(base, query);
            &&& address.take(base.len() as int) == base
            &&& address[base.len() as int] == '/'
            &&& vstd::utf8::decode_utf8(form_decoded_bytes(address.skip(base.len() as int
                + 1))) == query
        }),
{
    let address = path_address(base, query);
    assert(address.take(base.len() as int) =~= base);
    assert(address.skip(base.len() as int + 1) =~= plus_as_space(form_encoded(query)));
    lemma_path_read_back(query);
}

/// The query for MusicBrainz names the title, in quotes from which it can be read back,
/// and the first artist, in quotes from which it can be read back, if there is one; it
/// holds nothing else.
pub proof fn lemma_musicbrainz_phrase(track: Track)
    ensures
        ({
            let phrase = musicbrainz_phrase(track);
            &&& phrase.take(11) == "recording:\""@
            &&& match read_quoted(phrase.skip(11)) {
                Some((title, rest)) => {
                    &&& title == track.title
                    &&& track.artists.len() == 0 ==> rest.len() == 0
                    &&& track.artists.len() > 0 ==> {
                        &&& rest.take(13) == " AND artist:\""@
                        &&& read_quoted(rest.skip(13)) == Some(
                            (track.artists[0], Seq::<char>::empty()),
                        )
                    }
                },
                None => false,
            }
        }),
{
    reveal_strlit("recording:\"");
    reveal_strlit("\"");
    reveal_strlit(" AND artist:\"");
    let phrase = musicbrainz_phrase(track);
    let rest = if track.artists.len() > 0 {
        " AND artist:\""@ + quote_escaped(track.artists[0]) + "\""@
    } else {
        Seq::empty()
    };
    assert(phrase.take(11) =~= "recording:\""@);
    assert("\""@ =~= seq!['"']);
    assert(phrase.skip(11) =~= quote_escaped(track.title) + seq!['"'] + rest);
    lemma_quoted_read_back(track.title, rest);
    if track.artists.len() > 0 {
        let none = Seq::<char>::empty();
        assert(rest.take(13) =~= " AND artist:\""@);
        assert(rest.skip(13) =~= quote_escaped(track.artists[0]) + seq!['"'] + none);
        lemma_quoted_read_back(track.artists[0], none);
    }
}

// ---------------------------------------------------------------------------
// Requests
// ---------------------------------------------------------------------------
/// The step asks the right service for the right thing.
pub open spec fn right_request(
    client: Client,
    track: Track,
    audio: Option<&TrackAudio>,
    todo: Todo,
    replies: Replies,
) -> bool {
    match todo {
        Todo::Fingerprint { suffix, .. } => audio is Some && suffix == "."@ + extension_of(
            audio->0.codec@,
        ),
        Todo::AcoustId { form, .. } => {
            &&& client.acoustid_api_key is Some
            &&& fingerprint_of(replies.fpcalc) is Some
            &&& match fingerprint_of(replies.fpcalc)->0 {
                (seconds, fingerprint) => form == seq![
                    ("client"@, client.acoustid_api_key->0),
                    ("meta"@, "recordings releasegroups compress"@),
                    ("duration"@, decimal(seconds)),
                    ("fingerprint"@, fingerprint),
                ],
            }
        },
        Todo::MusicBrainz { url, .. } => url == query_address(
            "https://musicbrainz.org/ws/2/recording/"@,
            seq![("query"@, musicbrainz_phrase(track)), ("fmt"@, "json"@), ("limit"@, "3"@)],
        ),
        Todo::Lrclib { url, .. } => url == lyrics_address(track),
        Todo::Songlink { url, retries, .. } => retries < 3 && url == query_address(
            "https://api.song.link/v1-alpha.1/links"@,
            seq![("url"@, track.yandex_url), ("userCountry"@, client.songlink_user_country)],
        ),
        Todo::Wait { url, retries, seconds, .. } => {
            &&& 0 < retries < 3
            &&& match (replies.songlink)((retries - 1) as nat) {
                SonglinkReply::Answer { status, retry_after, .. } => status == 429 && seconds
                    == retry_delay_seconds(opt_text(retry_after), (retries - 1) as nat),
                SonglinkReply::Failed => false,
            }
            &&& url == query_address(
                "https://api.song.link/v1-alpha.1/links"@,
                seq![("url"@, track.yandex_url), ("userCountry"@, client.songlink_user_country)],
            )
        },
        Todo::Genius { url, token, .. } => client.genius_access_token == Some(token) && url
            == query_address_1("https://api.genius.com/search"@, "q"@, human_phrase(track)),
        Todo::Done { .. } => true,
    }
}

/// The address of the lyrics: for the title, the first artist and the first album, and
/// the duration in whole seconds if it is known.
pub open spec fn lyrics_address(track: Track) -> Seq<char> {
    let artist = if track.artists.len() > 0 {
        track.artists[0]
    } else {
        Seq::empty()
    };
    let album = if track.albums.len() > 0 {
        track.albums[0]
    } else {
        Seq::empty()
    };
    query_address(
        "https://lrclib.net/api/get"@,
        if track.duration_ms is Some {
            seq![
                ("track_name"@, track.title),
                ("artist_name"@, artist),
                ("album_name"@, album),
                ("duration"@, decimal((track.duration_ms->0 / 1000) as nat)),
            ]
        } else {
            seq![
                ("track_name"@, track.title),
                ("artist_name"@, artist),
                ("album_name"@, album),
            ]
        },
    )
}

proof fn lemma_lyrics_address(track: Track)
    ensures
        query_address(
            "https://lrclib.net/api/get"@,
            crate::enrichment::urls::lrclib_params(track),
        ) == lyrics_address(track),
{
    let params = crate::enrichment::urls::lrclib_params(track);
    if track.duration_ms is Some {
        assert(params =~= seq![
            ("track_name"@, track.title),
            ("artist_name"@, crate::enrichment::urls::first_or_empty(track.artists)),
            ("album_name"@, crate::enrichment::urls::first_or_empty(track.albums)),
            ("duration"@, decimal((track.duration_ms->0 / 1000) as nat)),
        ]);
    }
}

/// Whatever is answered, every step for a track asks the right service for the right
/// thing.
pub proof fn lemma_requests_right(
    client: Client,
    track: Track,
    audio: Option<&TrackAudio>,
    replies: Replies,
    i: int,
)
    requires
        0 <= i < steps(client, track, first_todo(client, track, audio), replies).len(),
    ensures
        right_request(
            client,
            track,
            audio,
            steps(client, track, first_todo(client, track, audio), replies)[i],
            replies,
        ),
{
    lemma_lyrics_address(track);
    lemma_requests_from(
        client,
        client,
        track,
        audio,
        first_todo(client, track, audio),
        replies,
    );
}

#[verifier::rlimit(40)]
proof fn lemma_next_request(
    client: Client,
    now: Client,
    track: Track,
    audio: Option<&TrackAudio>,
    todo: Todo,
    replies: Replies,
)
    requires
        same_settings(client, now),
        right_request(client, track, audio, todo, replies),
    ensures
        ({
            let (after, then) = next(now, track, todo, replies);
            &&& same_settings(client, after)
            &&& right_request(client, track, audio, then, replies)
        }),
{
    lemma_lyrics_address(track);
}

proof fn lemma_requests_from(
    client: Client,
    now: Client,
    track: Track,
    audio: Option<&TrackAudio>,
    todo: Todo,
    replies: Replies,
)
    requires
        same_settings(client, now),
        right_request(client, track, audio, todo, replies),
    ensures
        forall|i: int|
            0 <= i < steps(now, track, todo, replies).len() ==> right_request(
                client,
                track,
                audio,
                #[trigger] steps(now, track, todo, replies)[i],
                replies,
            ),
    decreases rank(todo), tries_left(todo),
{
    if !(todo is Done) {
        let (after, then) = next(now, track, todo, replies);
        lemma_next_request(client, now, track, audio, todo, replies);
        lemma_requests_from(client, after, track, audio, then, replies);
        let rest = steps(after, track, then, replies);
        let all = steps(now, track, todo, replies);
        assert(all == seq![todo] + rest);
        assert forall|i: int| 0 <= i < all.len() implies right_request(
            client,
            track,
            audio,
            #[trigger] all[i],
            replies,
        ) by {
            if i > 0 {
                assert(all[i] == rest[i - 1]);
            }
        }
    }
}

// ---------------------------------------------------------------------------
// Answers
// ---------------------------------------------------------------------------
/// An answer counts: its status means success and its body could be read.
pub open spec fn good<T>(reply: Reply<T>) -> Option<T> {
    match reply {
        Reply::Answer { status, body } => if 200 <= status <= 299 {
            body
        } else {
            None
        },
        Reply::Failed => None,
    }
}

/// The links to MusicBrainz without an exact match: first to the recording that it has
/// found, or else to a search for it, and after that the searches for the artist and the
/// album, whichever it is.
pub proof fn lemma_metadata_links(track: Track, reply: Reply<MusicBrainzResponse>)
    ensures
        ({
            let all = metadata_links(track, reply);
            let found = match good(reply) {
                Some(response) => recording_found(response, track.duration_ms),
                None => None,
            };
            &&& all.len() == 1 + musicbrainz_entity_searches(track).len()
            &&& all.skip(1) == musicbrainz_entity_searches(track)
            &&& found is Some ==> all[0] == found->0
            &&& found is None ==> all[0] == (Link {
                label: "MusicBrainz recording search"@,
                url: query_address(
                    "https://musicbrainz.org/search"@,
                    seq![
                        ("query"@, human_phrase(track)),
                        ("type"@, "recording"@),
                        ("method"@, "indexed"@),
                    ],
                ),
            })
        }),
{
    assert(metadata_links(track, reply).skip(1) =~= musicbrainz_entity_searches(track));
}

/// An exact match: AcoustID answers `ok`, has a result that counts, and the recording in
/// it leads to a link. It stands as it is, and where MusicBrainz may be used the searches
/// follow that it leaves open.
pub proof fn lemma_exact_links(client: Client, track: Track, reply: Reply<AcoustIdResponse>)
    ensures
        ({
            let best = match good(reply) {
                Some(response) => if response.status@ == "ok"@ {
                    best_recording(result_views(response.results@))
                } else {
                    None
                },
                None => None,
            };
            match exact_links(client, reply) {
                Some(exact) => {
                    &&& best is Some
                    &&& exact == recording_links(best->0, client.on, client.off)
                    &&& exact.len() > 0
                    &&& client.uses(ExternalLinkService::MusicBrainz) ==> completed_links(
                        client,
                        track,
                        exact,
                    ) == exact + missing_searches(exact, track)
                    &&& !client.uses(ExternalLinkService::MusicBrainz) ==> completed_links(
                        client,
                        track,
                        exact,
                    ) == exact
                },
                None => best is None || recording_links(best->0, client.on, client.off).len() == 0,
            }
        }),
{
    if let Some(exact) = exact_links(client, reply) {
        assert(exact + Seq::<Link>::empty() =~= exact);
    }
}

/// The link to LRCLIB leads to the lyrics if they were found, and else to a search by the
/// title and the first artist.
pub proof fn lemma_lyrics_link(track: Track, found: bool)
    ensures
        found ==> lyrics_link(track, found) == (Link {
            label: "LRCLIB lyrics"@,
            url: lyrics_address(track),
        }),
        !found ==> lyrics_link(track, found) == (Link {
            label: "LRCLIB lyrics search"@,
            url: query_address(
                "https://lrclib.net/api/search"@,
                seq![
                    ("track_name"@, track.title),
                    (
                        "artist_name"@,
                        if track.artists.len() > 0 {
                            track.artists[0]
                        } else {
                            Seq::empty()
                        },
                    ),
                ],
            ),
        }),
{
    lemma_lyrics_address(track);
}

/// The link to Songlink leads to the page that a successful answer gives, and else to the
/// lookup that anyone can make.
pub proof fn lemma_songlink_link(track: Track, reply: SonglinkReply)
    ensures
        ({
            let found = match reply {
                SonglinkReply::Answer { status, body, .. } => if 200 <= status <= 299 && body
                    is Some {
                    songlink_found(body->0)
                } else {
                    None
                },
                SonglinkReply::Failed => None,
            };
            &&& found is Some ==> songlink_link(track, reply) == found->0
            &&& found is None ==> songlink_link(track, reply) == songlink_fallback(track)
            &&& songlink_fallback(track) == (Link {
                label: "Songlink/Odesli lookup"@,
                url: query_address_1(
                    "https://api.song.link/v1-alpha.1/links"@,
                    "url"@,
                    track.yandex_url,
                ),
            })
        }),
{
}

/// The link to Genius leads to the first song in a successful answer, and else to a
/// search.
pub proof fn lemma_genius_link(track: Track, reply: Reply<GeniusResponse>)
    ensures
        ({
            let found = match good(reply) {
                Some(response) => first_hit(response.response.hits@),
                None => None,
            };
            &&& found is Some ==> genius_link(track, reply) == found->0
            &&& found is None ==> genius_link(track, reply) == genius_fallback(track)
            &&& genius_fallback(track) == (Link {
                label: "Genius search"@,
                url: query_address_1("https://genius.com/search"@, "q"@, human_phrase(track)),
            })
        }),
{
}

/// The service asks for patience.
pub open spec fn busy(reply: SonglinkReply) -> bool {
    match reply {
        SonglinkReply::Answer { status, .. } => status == 429,
        SonglinkReply::Failed => false,
    }
}

/// What `fpcalc` has printed can be used: there is a fingerprint, and the duration is a
/// positive finite number.
pub open spec fn usable_print(run: FpcalcRun) -> bool {
    match run {
        FpcalcRun::Printed(output) => {
            &&& exists|i: int|
                0 <= i < output.fingerprint@.len() && !white_space(
                    #[trigger] output.fingerprint@[i],
                )
            &&& 0 < output.duration_bits < 0x7ff0_0000_0000_0000
        },
        _ => false,
    }
}

/// The audio of a track is identified: AcoustID and at least one of the services that build
/// on what it knows may be used, there is a key for it, there is audio, `fpcalc` is not
/// known to be missing and has printed what can be used, and AcoustID answers with a match.
pub open spec fn identified(
    client: Client,
    audio: Option<&TrackAudio>,
    replies: Replies,
) -> bool {
    &&& enabled(ExternalLinkService::AcoustId, client.on, client.off)
    &&& {
        ||| enabled(ExternalLinkService::MusicBrainz, client.on, client.off)
        ||| enabled(ExternalLinkService::ListenBrainz, client.on, client.off)
        ||| enabled(ExternalLinkService::TheAudioDb, client.on, client.off)
    }
    &&& client.acoustid_api_key is Some
    &&& !client.acoustid_fpcalc_missing
    &&& audio is Some
    &&& audio->0.bytes@.len() > 0
    &&& usable_print(replies.fpcalc)
    &&& exact_links(client, replies.acoustid) is Some
}

/// Whatever the services answer, the links for a track are these, in this order, each only
/// if its service may be used: to YouTube, Last.fm and RuTracker; to what the audio was
/// identified as or, if it was not, to what MusicBrainz has found or searches; to the
/// lyrics; to Songlink, by its first answer that does not ask for patience; to the other
/// catalogs, to search engines, to Wikidata and Wikipedia; to Genius, by its answer if there
/// is a token for it.
pub proof fn lemma_links_gathered(
    client: Client,
    track: Track,
    audio: Option<&TrackAudio>,
    replies: Replies,
)
    ensures
        ({
            let on = client.on;
            let off = client.off;
            let none = Seq::<Link>::empty();
            let lastfm = if enabled(ExternalLinkService::LastFm, on, off) {
                lastfm_searches(track)
            } else {
                none
            };
            let rutracker = if enabled(ExternalLinkService::RuTracker, on, off) {
                rutracker_searches(track)
            } else {
                none
            };
            let metadata = if identified(client, audio, replies) {
                completed_links(client, track, exact_links(client, replies.acoustid)->0)
            } else if enabled(ExternalLinkService::MusicBrainz, on, off) {
                metadata_links(track, replies.musicbrainz)
            } else {
                none
            };
            let lyrics = if enabled(ExternalLinkService::Lrclib, on, off) {
                seq![
                    lyrics_link(
                        track,
                        match replies.lrclib {
                            Reply::Answer { status, .. } => 200 <= status <= 299,
                            Reply::Failed => false,
                        },
                    ),
                ]
            } else {
                none
            };
            let (a, b, c) = (
                (replies.songlink)(0),
                (replies.songlink)(1),
                (replies.songlink)(2),
            );
            let songlink = if !enabled(ExternalLinkService::Songlink, on, off) {
                none
            } else if client.songlink_rate_limited || busy(a) && busy(b) && busy(c) {
                seq![songlink_fallback(track)]
            } else if !busy(a) {
                seq![songlink_link(track, a)]
            } else if !busy(b) {
                seq![songlink_link(track, b)]
            } else {
                seq![songlink_link(track, c)]
            };
            let genius = if !enabled(ExternalLinkService::Genius, on, off) {
                none
            } else if client.genius_access_token is Some {
                seq![genius_link(track, replies.genius)]
            } else {
                seq![genius_fallback(track)]
            };
            outcome(client, track, first_todo(client, track, audio), replies).1
                == youtube_searches(track, on, off) + lastfm + rutracker + metadata + lyrics
                + songlink + related_searches(track, on, off) + wikimedia_searches(track, on, off)
                + genius
        }),
{
    lemma_links_for(client, track, audio, replies);
    lemma_songlink(client, track, audio, replies);
    assert(usable_print(replies.fpcalc) == (fingerprint_of(replies.fpcalc) is Some));
}

} // verus!
