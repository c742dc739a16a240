//! Which of the things that a lookup service has found a link leads to.
use vstd::prelude::*;

use crate::double::rounded;
use crate::enrichment::client::fingerprint_of;
use crate::enrichment::links::{link, musicbrainz_entity_searches, Link};
use crate::enrichment::lookups::{
    best_recording, best_result, first_hit, first_id, first_identified, lemma_best_result,
    matching_recording, missing_searches, recording_found, retry_delay_seconds, songlink_found,
    usable, FpcalcRun, GeniusHit, MusicBrainzRecording, MusicBrainzResponse, Recording,
    ScoredRecordings, SonglinkResponse,
};
use crate::sequences::{lemma_filter_picks, picks};
use crate::text::{blank, parsed_unsigned, trimmed};
use crate::yandex::Track;

verus! {

// ---------------------------------------------------------------------------
// Genius and Songlink
// ---------------------------------------------------------------------------
/// A hit has an address that is not blank.
pub open spec fn has_address(hit: GeniusHit) -> bool {
    hit.result.url is Some && !blank(hit.result.url->0@)
}

/// The link to Genius leads to the first hit with an address: there is one at some
/// place and none before it. There is no link only if no hit has an address.
pub proof fn lemma_first_hit(hits: Seq<GeniusHit>)
    ensures
        match first_hit(hits) {
            Some(found) => exists|i: int|
                {
                    &&& 0 <= i < hits.len()
                    &&& has_address(#[trigger] hits[i])
                    &&& found == (Link { label: "Genius"@, url: hits[i].result.url->0@ })
                    &&& forall|j: int| 0 <= j < i ==> !has_address(#[trigger] hits[j])
                },
            None => forall|j: int| 0 <= j < hits.len() ==> !has_address(#[trigger] hits[j]),
        },
    decreases hits.len(),
{
    if hits.len() > 0 {
        if has_address(hits[0]) {
            assert(first_hit(hits) == Some(link("Genius"@, hits[0].result.url->0@)));
        } else {
            let rest = hits.drop_first();
            lemma_first_hit(rest);
            assert(first_hit(hits) == first_hit(rest));
            assert forall|j: int| 0 <= j < rest.len() implies #[trigger] rest[j] == hits[j
                + 1] by {}
            if let Some(found) = first_hit(rest) {
                let i = choose|i: int|
                    {
                        &&& 0 <= i < rest.len()
                        &&& has_address(#[trigger] rest[i])
                        &&& found == (Link { label: "Genius"@, url: rest[i].result.url->0@ })
                        &&& forall|j: int| 0 <= j < i ==> !has_address(#[trigger] rest[j])
                    };
                assert(has_address(hits[i + 1]));
                assert forall|j: int| 0 <= j < i + 1 implies !has_address(#[trigger] hits[j]) by {
                    if j > 0 {
                        assert(rest[j - 1] == hits[j]);
                    }
                }
            } else {
                assert forall|j: int| 0 <= j < hits.len() implies !has_address(
                    #[trigger] hits[j],
                ) by {
                    if j > 0 {
                        assert(rest[j - 1] == hits[j]);
                    }
                }
            }
        }
    }
}

/// The link to Songlink leads to the page that it gives, as it gives it, unless that
/// is missing or blank.
pub proof fn lemma_songlink_page(response: SonglinkResponse)
    ensures
        songlink_found(response) is Some <==> response.page_url is Some && !blank(
            response.page_url->0@,
        ),
        songlink_found(response) is Some ==> songlink_found(response)->0 == (Link {
            label: "Songlink/Odesli"@,
            url: response.page_url->0@,
        }),
{
}

/// The wait before Songlink is asked again is the number of seconds in its header, if
/// the header holds one, but 60 at most; without one it is 10 after the first attempt
/// and 30 after any other.
pub proof fn lemma_retry_delay(header: Option<Seq<char>>, index: nat)
    ensures
        ({
            let delay = retry_delay_seconds(header, index);
            match header {
                Some(text) => match parsed_unsigned(trimmed(text), u64::MAX as nat) {
                    Some(seconds) => delay <= 60 && delay <= seconds && (delay == 60 || delay
                        == seconds),
                    None => delay == if index == 0 {
                        10nat
                    } else {
                        30
                    },
                },
                None => delay == if index == 0 {
                    10nat
                } else {
                    30
                },
            }
        }),
{
}

// ---------------------------------------------------------------------------
// MusicBrainz
// ---------------------------------------------------------------------------
/// The recording is good enough: a score of 90 at least, and a duration within seven
/// seconds of the track's where both are known.
pub open spec fn close_enough(recording: MusicBrainzRecording, duration_ms: Option<u128>) -> bool {
    &&& recording.score >= 90
    &&& duration_ms is Some && recording.length is Some ==> {
        &&& duration_ms->0 <= recording.length->0 + 7_000
        &&& recording.length->0 <= duration_ms->0 + 7_000
    }
}

/// The link to MusicBrainz leads to the first recording that is good enough: there is
/// one at some place and none before it. There is no link only if none is.
pub proof fn lemma_recording_found(response: MusicBrainzResponse, duration_ms: Option<u128>)
    ensures
        ({
            let all = response.recordings@;
            match recording_found(response, duration_ms) {
                Some(found) => exists|i: int|
                    {
                        &&& 0 <= i < all.len()
                        &&& close_enough(#[trigger] all[i], duration_ms)
                        &&& found == (Link {
                            label: "MusicBrainz recording"@,
                            url: "https://musicbrainz.org/recording/"@ + all[i].id@,
                        })
                        &&& forall|j: int|
                            0 <= j < i ==> !close_enough(#[trigger] all[j], duration_ms)
                    },
                None => forall|j: int|
                    0 <= j < all.len() ==> !close_enough(#[trigger] all[j], duration_ms),
            }
        }),
{
    lemma_matching_recording(response.recordings@, duration_ms);
}

proof fn lemma_matching_recording(all: Seq<MusicBrainzRecording>, duration_ms: Option<u128>)
    ensures
        match matching_recording(all, duration_ms) {
            Some(id) => exists|i: int|
                {
                    &&& 0 <= i < all.len()
                    &&& close_enough(#[trigger] all[i], duration_ms)
                    &&& id == all[i].id@
                    &&& forall|j: int| 0 <= j < i ==> !close_enough(#[trigger] all[j], duration_ms)
                },
            None => forall|j: int|
                0 <= j < all.len() ==> !close_enough(#[trigger] all[j], duration_ms),
        },
    decreases all.len(),
{
    if all.len() > 0 {
        if close_enough(all[0], duration_ms) {
            assert(matching_recording(all, duration_ms) == Some(all[0].id@));
        } else {
            let rest = all.drop_first();
            lemma_matching_recording(rest, duration_ms);
            if let Some(id) = matching_recording(rest, duration_ms) {
                let i = choose|i: int|
                    {
                        &&& 0 <= i < rest.len()
                        &&& close_enough(#[trigger] rest[i], duration_ms)
                        &&& id == rest[i].id@
                        &&& forall|j: int|
                            0 <= j < i ==> !close_enough(#[trigger] rest[j], duration_ms)
                    };
                assert(close_enough(all[i + 1], duration_ms));
                assert forall|j: int| 0 <= j < i + 1 implies !close_enough(
                    #[trigger] all[j],
                    duration_ms,
                ) by {
                    if j > 0 {
                        assert(rest[j - 1] == all[j]);
                    }
                }
            } else {
                assert forall|j: int| 0 <= j < all.len() implies !close_enough(
                    #[trigger] all[j],
                    duration_ms,
                ) by {
                    if j > 0 {
                        assert(rest[j - 1] == all[j]);
                    }
                }
            }
        }
    }
}

/// The searches that are added to exact links: of those for the artist and the album,
/// in order, each that there is unless the links already lead to that entity.
pub proof fn lemma_missing_searches(links: Seq<Link>, track: Track) -> (at: Seq<int>)
    ensures
        picks(
            missing_searches(links, track),
            musicbrainz_entity_searches(track),
            |search: Link|
                {
                    let known = if search.label == "MusicBrainz artist search"@ {
                        exists|i: int|
                            0 <= i < links.len() && (#[trigger] links[i]).label
                                == "MusicBrainz artist"@
                    } else {
                        exists|i: int|
                            0 <= i < links.len() && (#[trigger] links[i]).label
                                == "MusicBrainz album"@
                    };
                    if known {
                        None
                    } else {
                        Some(search)
                    }
                },
            at,
        ),
{
    let f = |search: Link|
        {
            let known = if search.label == "MusicBrainz artist search"@ {
                exists|i: int|
                    0 <= i < links.len() && (#[trigger] links[i]).label == "MusicBrainz artist"@
            } else {
                exists|i: int|
                    0 <= i < links.len() && (#[trigger] links[i]).label == "MusicBrainz album"@
            };
            if known {
                None
            } else {
                Some(search)
            }
        };
    let has_artist = crate::enrichment::lookups::has_label(links, "MusicBrainz artist"@);
    let has_album = crate::enrichment::lookups::has_label(links, "MusicBrainz album"@);
    let keep = |search: Link|
        search.label == "MusicBrainz artist search"@ && !has_artist || search.label
            == "MusicBrainz album search"@ && !has_album;
    let searches = musicbrainz_entity_searches(track);
    reveal_strlit("MusicBrainz artist search");
    reveal_strlit("MusicBrainz album search");
    assert("MusicBrainz artist search"@.len() != "MusicBrainz album search"@.len());
    let at = lemma_filter_picks(searches, keep);
    let g = |search: Link|
        if keep(search) {
            Some(search)
        } else {
            None
        };
    assert(picks(missing_searches(links, track), searches, g, at));
    assert forall|i: int| 0 <= i < searches.len() implies f(#[trigger] searches[i]) == g(
        searches[i],
    ) by {
        assert(searches[i].label == "MusicBrainz artist search"@ || searches[i].label
            == "MusicBrainz album search"@);
    }
    at
}

// ---------------------------------------------------------------------------
// AcoustID
// ---------------------------------------------------------------------------
/// The first recording with an id is at some place with none before it that has one.
pub proof fn lemma_first_identified(recordings: Seq<Recording>)
    ensures
        match first_identified(recordings) {
            Some(found) => exists|i: int|
                {
                    &&& 0 <= i < recordings.len()
                    &&& #[trigger] recordings[i] == found
                    &&& !blank(found.id)
                    &&& forall|j: int| 0 <= j < i ==> blank((#[trigger] recordings[j]).id)
                },
            None => forall|j: int| 0 <= j < recordings.len()
                ==> blank((#[trigger] recordings[j]).id),
        },
    decreases recordings.len(),
{
    if recordings.len() > 0 {
        if !blank(recordings[0].id) {
            assert(recordings[0] == first_identified(recordings)->0);
        } else {
            let rest = recordings.drop_first();
            lemma_first_identified(rest);
            if let Some(found) = first_identified(rest) {
                let i = choose|i: int|
                    {
                        &&& 0 <= i < rest.len()
                        &&& #[trigger] rest[i] == found
                        &&& !blank(found.id)
                        &&& forall|j: int| 0 <= j < i ==> blank((#[trigger] rest[j]).id)
                    };
                assert(recordings[i + 1] == found);
                assert forall|j: int| 0 <= j < i + 1
                    implies blank((#[trigger] recordings[j]).id) by {
                    if j > 0 {
                        assert(rest[j - 1] == recordings[j]);
                    }
                }
            } else {
                assert forall|j: int| 0 <= j < recordings.len() implies blank(
                    (#[trigger] recordings[j]).id,
                ) by {
                    if j > 0 {
                        assert(rest[j - 1] == recordings[j]);
                    }
                }
            }
        }
    }
}

/// The first id that is not blank is at some place with only blank ones before it.
pub proof fn lemma_first_id(ids: Seq<Seq<char>>)
    ensures
        match first_id(ids) {
            Some(id) => exists|i: int|
                {
                    &&& 0 <= i < ids.len()
                    &&& #[trigger] ids[i] == id
                    &&& !blank(id)
                    &&& forall|j: int| 0 <= j < i ==> blank(#[trigger] ids[j])
                },
            None => forall|j: int| 0 <= j < ids.len() ==> blank(#[trigger] ids[j]),
        },
    decreases ids.len(),
{
    if ids.len() > 0 {
        if !blank(ids[0]) {
            assert(ids[0] == first_id(ids)->0);
        } else {
            let rest = ids.drop_first();
            lemma_first_id(rest);
            if let Some(id) = first_id(rest) {
                let i = choose|i: int|
                    {
                        &&& 0 <= i < rest.len()
                        &&& #[trigger] rest[i] == id
                        &&& !blank(id)
                        &&& forall|j: int| 0 <= j < i ==> blank(#[trigger] rest[j])
                    };
                assert(ids[i + 1] == id);
                assert forall|j: int| 0 <= j < i + 1 implies blank(#[trigger] ids[j]) by {
                    if j > 0 {
                        assert(rest[j - 1] == ids[j]);
                    }
                }
            } else {
                assert forall|j: int| 0 <= j < ids.len() implies blank(#[trigger] ids[j]) by {
                    if j > 0 {
                        assert(rest[j - 1] == ids[j]);
                    }
                }
            }
        }
    }
}

/// A result counts: its score is a number of 0.8 at least, and one of its recordings
/// has an id.
pub open spec fn counts(result: ScoredRecordings) -> bool {
    &&& 0x3fe9_9999_9999_999a <= result.score_bits <= 0x7ff0_0000_0000_0000
    &&& exists|k: int| 0 <= k < result.recordings.len()
        && !blank((#[trigger] result.recordings[k]).id)
}

/// The recording that is taken is the first with an id in a result that counts; no
/// result that counts has a higher score, and none before it has the same. None is
/// taken only if no result counts. (The bits of positive doubles grow with them.)
pub proof fn lemma_best_recording(results: Seq<ScoredRecordings>)
    ensures
        match best_recording(results) {
            Some(found) => exists|i: int, k: int|
                {
                    &&& 0 <= i < results.len()
                    &&& counts(results[i])
                    &&& 0 <= k < results[i].recordings.len()
                    &&& #[trigger] results[i].recordings[k] == found
                    &&& !blank(found.id)
                    &&& forall|j: int|
                        0 <= j < k ==> blank((#[trigger] results[i].recordings[j]).id)
                    &&& forall|j: int|
                        0 <= j < results.len() && counts(#[trigger] results[j]) ==> {
                            &&& results[j].score_bits <= results[i].score_bits
                            &&& j < i ==> results[j].score_bits < results[i].score_bits
                        }
                },
            None => forall|j: int| 0 <= j < results.len() ==> !counts(#[trigger] results[j]),
        },
{
    lemma_best_result(results);
    assert forall|j: int| 0 <= j < results.len() implies counts(#[trigger] results[j]) == usable(
        results[j],
    ) by {
        lemma_first_identified(results[j].recordings);
    }
    if let Some(i) = best_result(results) {
        lemma_first_identified(results[i].recordings);
        let found = best_recording(results)->0;
        let k = choose|k: int|
            {
                &&& 0 <= k < results[i].recordings.len()
                &&& #[trigger] results[i].recordings[k] == found
                &&& !blank(found.id)
                &&& forall|j: int| 0 <= j < k ==> blank((#[trigger] results[i].recordings[j]).id)
            };
        assert(results[i].recordings[k] == found);
        assert forall|j: int| 0 <= j < results.len() && counts(#[trigger] results[j]) implies {
            &&& results[j].score_bits <= results[i].score_bits
            &&& j < i ==> results[j].score_bits < results[i].score_bits
        } by {
            assert(usable(results[j]));
        }
    }
}

/// A fingerprint can be used exactly if `fpcalc` printed one that is not blank and a
/// duration that is a positive finite number. It is handed on as it was printed, and
/// the duration is rounded to a whole number, as far as that fits.
pub proof fn lemma_fingerprint(run: FpcalcRun)
    ensures
        match run {
            FpcalcRun::Printed(output) => {
                let good = !blank(output.fingerprint@) && 0 < output.duration_bits
                    < 0x7ff0_0000_0000_0000;
                &&& fingerprint_of(run) is Some <==> good
                &&& good ==> match fingerprint_of(run)->0 {
                    (seconds, text) => {
                        &&& text == output.fingerprint@
                        &&& seconds <= u64::MAX
                        &&& seconds == rounded(output.duration_bits) || seconds == u64::MAX
                            && rounded(output.duration_bits) > u64::MAX
                    },
                }
            },
            _ => fingerprint_of(run) is None,
        },
{
}

} // verus!
