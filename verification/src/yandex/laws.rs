//! What becomes of the details of a track, and of the library as a whole.
use vstd::prelude::*;

use crate::sequences::{lemma_filter_map_picks, lemma_picks_all, picks};
use crate::text::{blank, joined, trimmed, trimmed_option};
use crate::timestamp::Moment;
use crate::yandex::library::{
    all_gathered, gathered, liked_when, track_ids_value, Like,
};
use crate::yandex::order::{in_order, is_sorted_form, lemma_sorted_same_tracks, liked_at};
use crate::yandex::{cover_address, has_placeholder, liked_track, sized_uri, Track, TrackDetails};

verus! {

// ---------------------------------------------------------------------------
// Details
// ---------------------------------------------------------------------------
/// The name that counts: the one that was given, trimmed, unless it is missing or
/// blank.
pub open spec fn given_name(name: Option<Seq<char>>) -> Option<Seq<char>> {
    if name is Some && !blank(name->0) {
        Some(trimmed(name->0))
    } else {
        None
    }
}

/// The artists of a track are all those in its details that have a name, under that
/// name, in the same order; likewise the albums. Where all have names there are as
/// many, one for one.
pub proof fn lemma_names_kept(details: TrackDetails, time: Moment) -> (at: (Seq<int>, Seq<int>))
    ensures
        ({
            let track = liked_track(details, time);
            let f = |name: Option<Seq<char>>| given_name(name);
            &&& picks(track.artists, details.artists, f, at.0)
            &&& picks(track.albums, details.albums, f, at.1)
            &&& (forall|i: int|
                0 <= i < details.artists.len() ==> given_name(#[trigger] details.artists[i])
                    is Some) ==> {
                &&& track.artists.len() == details.artists.len()
                &&& forall|i: int|
                    0 <= i < details.artists.len() ==> #[trigger] track.artists[i] == trimmed(
                        details.artists[i]->0,
                    )
            }
            &&& (forall|i: int|
                0 <= i < details.albums.len() ==> given_name(#[trigger] details.albums[i])
                    is Some) ==> {
                &&& track.albums.len() == details.albums.len()
                &&& forall|i: int|
                    0 <= i < details.albums.len() ==> #[trigger] track.albums[i] == trimmed(
                        details.albums[i]->0,
                    )
            }
        }),
{
    let track = liked_track(details, time);
    let f = |name: Option<Seq<char>>| given_name(name);
    let g = |name: Option<Seq<char>>| trimmed_option(name);
    let artists_at = lemma_filter_map_picks(details.artists, g);
    let albums_at = lemma_filter_map_picks(details.albums, g);
    assert(f =~= g);
    assert(picks(track.artists, details.artists, f, artists_at));
    assert(picks(track.albums, details.albums, f, albums_at));
    if forall|i: int|
        0 <= i < details.artists.len() ==> given_name(#[trigger] details.artists[i]) is Some {
        lemma_picks_all(track.artists, details.artists, f, artists_at);
        assert forall|i: int| 0 <= i < details.artists.len() implies #[trigger] track.artists[i]
            == trimmed(details.artists[i]->0) by {
            assert(f(details.artists[i]) == Some(track.artists[i]));
        }
    }
    if forall|i: int|
        0 <= i < details.albums.len() ==> given_name(#[trigger] details.albums[i]) is Some {
        lemma_picks_all(track.albums, details.albums, f, albums_at);
        assert forall|i: int| 0 <= i < details.albums.len() implies #[trigger] track.albums[i]
            == trimmed(details.albums[i]->0) by {
            assert(f(details.albums[i]) == Some(track.albums[i]));
        }
    }
    (artists_at, albums_at)
}

/// The rest of a track is what its details say: its id, its title or else one made
/// from the id, its duration, its page, and the address of its cover or else of its
/// preview image. It was liked when the library says.
pub proof fn lemma_details_kept(details: TrackDetails, time: Moment)
    ensures
        ({
            let track = liked_track(details, time);
            &&& track.id == details.id
            &&& track.liked_at == time
            &&& details.title is Some ==> track.title == details.title->0
            &&& details.title is None ==> track.title == "Track "@ + details.id
            &&& track.duration_ms == details.duration_ms
            &&& track.yandex_url == "https://music.yandex.com/track/"@ + details.id
            &&& track.cover_url is None <==> details.cover_uri is None && details.og_image is None
            &&& details.cover_uri is Some ==> track.cover_url == Some(
                cover_address(details.cover_uri->0),
            )
            &&& details.cover_uri is None && details.og_image is Some ==> track.cover_url == Some(
                cover_address(details.og_image->0),
            )
            &&& track.artist_links.len() == 0
            &&& track.album_links.len() == 0
        }),
{
}

/// An address without a place for a size stays as it is, but for the scheme that it
/// may lack.
pub proof fn lemma_cover_kept(uri: Seq<char>)
    requires
        !has_placeholder(uri),
    ensures
        "http://"@.is_prefix_of(uri) || "https://"@.is_prefix_of(uri) ==> cover_address(uri) == uri,
        !("http://"@.is_prefix_of(uri) || "https://"@.is_prefix_of(uri)) ==> cover_address(uri)
            == "https://"@ + uri,
{
    lemma_sized_kept(uri);
}

proof fn lemma_sized_kept(uri: Seq<char>)
    requires
        !has_placeholder(uri),
    ensures
        sized_uri(uri) == uri,
    decreases uri.len(),
{
    if uri.len() > 0 {
        let rest = uri.skip(1);
        assert(!(uri.len() >= 2 && uri[0] == '%' && uri[1] == '%'));
        assert forall|i: int| 0 <= i < rest.len() - 1 && #[trigger] rest[i] == '%' implies rest[i
            + 1] != '%' by {
            assert(uri[i + 1] == rest[i]);
            assert(uri[i + 2] == rest[i + 1]);
        }
        lemma_sized_kept(rest);
        assert(seq![uri[0]] + rest =~= uri);
    } else {
        assert(sized_uri(uri) =~= uri);
    }
}

/// The first place for a size is filled in, what stands before it stays, and what
/// follows it is treated the same way.
pub proof fn lemma_sized_first(before: Seq<char>, after: Seq<char>)
    requires
        !has_placeholder(before),
        before.len() > 0 ==> before.last() != '%',
    ensures
        sized_uri(before + "%%"@ + after) == before + "400x400"@ + sized_uri(after),
    decreases before.len(),
{
    reveal_strlit("%%");
    let all = before + "%%"@ + after;
    if before.len() == 0 {
        assert(all[0] == '%' && all[1] == '%');
        assert(all.skip(2) =~= after);
        assert(before + "400x400"@ + sized_uri(after) =~= "400x400"@ + sized_uri(after));
    } else {
        let rest = before.skip(1);
        assert(all.skip(1) =~= rest + "%%"@ + after);
        assert(!(all[0] == '%' && all[1] == '%')) by {
            if before.len() == 1 {
                assert(before.last() == before[0]);
            } else {
                assert(all[1] == before[1]);
            }
        }
        assert forall|i: int| 0 <= i < rest.len() - 1 && #[trigger] rest[i] == '%' implies rest[i
            + 1] != '%' by {
            assert(before[i + 1] == rest[i]);
            assert(before[i + 2] == rest[i + 1]);
        }
        lemma_sized_first(rest, after);
        assert(seq![all[0]] + (rest + "400x400"@ + sized_uri(after)) =~= before + "400x400"@
            + sized_uri(after));
    }
}

// ---------------------------------------------------------------------------
// The library
// ---------------------------------------------------------------------------
/// A track was liked at the time in the last entry of the library with its id; it is
/// not liked if there is none.
pub proof fn lemma_liked_last(library: Seq<Like>, id: Seq<char>)
    ensures
        match liked_when(library, id) {
            Some(time) => exists|i: int|
                {
                    &&& 0 <= i < library.len()
                    &&& #[trigger] library[i] == (Like { id, liked_at: time })
                    &&& forall|j: int| i < j < library.len() ==> (#[trigger] library[j]).id != id
                },
            None => forall|j: int| 0 <= j < library.len() ==> (#[trigger] library[j]).id != id,
        },
    decreases library.len(),
{
    if library.len() > 0 {
        let last = library.len() - 1;
        if library.last().id == id {
            assert(library[last] == (Like { id, liked_at: library.last().liked_at }));
        } else {
            let front = library.drop_last();
            lemma_liked_last(front, id);
            if let Some(time) = liked_when(front, id) {
                let i = choose|i: int|
                    {
                        &&& 0 <= i < front.len()
                        &&& #[trigger] front[i] == (Like { id, liked_at: time })
                        &&& forall|j: int| i < j < front.len() ==> (#[trigger] front[j]).id != id
                    };
                assert(library[i] == (Like { id, liked_at: time }));
                assert forall|j: int| i < j < library.len() implies (#[trigger] library[j]).id
                    != id by {
                    if j < last {
                        assert(front[j] == library[j]);
                    }
                }
            } else {
                assert forall|j: int| 0 <= j < library.len() implies (#[trigger] library[j]).id
                    != id by {
                    if j < last {
                        assert(front[j] == library[j]);
                    }
                }
            }
        }
    }
}

/// What comes out of an answer: of each place with details whose track is in the
/// library, the track, in order, and nothing else.
pub proof fn lemma_answer_gathered(
    library: Seq<Like>,
    answer: Seq<Option<TrackDetails>>,
) -> (at: Seq<int>)
    ensures
        picks(
            gathered(library, answer),
            answer,
            |place: Option<TrackDetails>|
                if place is Some && liked_when(library, place->0.id) is Some {
                    Some(liked_track(place->0, liked_when(library, place->0.id)->0))
                } else {
                    None
                },
            at,
        ),
{
    let f = |place: Option<TrackDetails>|
        if place is Some && liked_when(library, place->0.id) is Some {
            Some(liked_track(place->0, liked_when(library, place->0.id)->0))
        } else {
            None
        };
    let g = |details: Option<TrackDetails>|
        match details {
            Some(details) => match liked_when(library, details.id) {
                Some(liked_at) => Some(liked_track(details, liked_at)),
                None => None,
            },
            None => None,
        };
    let at = lemma_filter_map_picks(answer, g);
    assert(gathered(library, answer) == answer.filter_map(g));
    assert(f =~= g);
    at
}

/// What comes out of the answers is what comes out of each, one after the other.
pub proof fn lemma_answers_gathered(
    library: Seq<Like>,
    answers: Seq<Seq<Option<TrackDetails>>>,
    more: Seq<Option<TrackDetails>>,
)
    ensures
        all_gathered(library, Seq::empty()) == Seq::<Track>::empty(),
        all_gathered(library, answers.push(more)) == all_gathered(library, answers) + gathered(
            library,
            more,
        ),
{
    let f = |answer: Seq<Option<TrackDetails>>| gathered(library, answer);
    answers.lemma_flat_map_push(f, more);
    assert(all_gathered(library, Seq::empty()) =~= Seq::<Track>::empty());
}

/// Every track of the library that an answer gives details of comes out.
pub proof fn lemma_all_tracks_come_out(
    library: Seq<Like>,
    answers: Seq<Seq<Option<TrackDetails>>>,
    sorted: Seq<Track>,
    a: int,
    i: int,
)
    requires
        is_sorted_form(sorted, all_gathered(library, answers)),
        0 <= a < answers.len(),
        0 <= i < answers[a].len(),
        answers[a][i] is Some,
        liked_when(library, answers[a][i]->0.id) is Some,
    ensures
        sorted.contains(
            liked_track(answers[a][i]->0, liked_when(library, answers[a][i]->0.id)->0),
        ),
{
    let track = liked_track(answers[a][i]->0, liked_when(library, answers[a][i]->0.id)->0);
    let at = lemma_answer_gathered(library, answers[a]);
    let one = gathered(library, answers[a]);
    assert(at.contains(i));
    let k = choose|k: int| 0 <= k < at.len() && at[k] == i;
    assert(one[k] == track);
    lemma_gathered_contains(library, answers, a, track);
    lemma_sorted_same_tracks(sorted, all_gathered(library, answers), track);
}

proof fn lemma_gathered_contains(
    library: Seq<Like>,
    answers: Seq<Seq<Option<TrackDetails>>>,
    a: int,
    track: Track,
)
    requires
        0 <= a < answers.len(),
        gathered(library, answers[a]).contains(track),
    ensures
        all_gathered(library, answers).contains(track),
    decreases answers.len(),
{
    let front = answers.drop_last();
    let last = answers.last();
    lemma_answers_gathered(library, front, last);
    assert(front.push(last) =~= answers);
    let before = all_gathered(library, front);
    let all = all_gathered(library, answers);
    if a < front.len() {
        assert(front[a] == answers[a]);
        lemma_gathered_contains(library, front, a, track);
        let k = choose|k: int| 0 <= k < before.len() && before[k] == track;
        assert(all[k] == track);
    } else {
        let one = gathered(library, last);
        let k = choose|k: int| 0 <= k < one.len() && one[k] == track;
        assert(all[before.len() + k] == track);
    }
}

// ---------------------------------------------------------------------------
// The order
// ---------------------------------------------------------------------------
/// The tracks that were liked at a moment, in their order.
pub open spec fn of_moment(tracks: Seq<Track>, moment: Moment) -> Seq<Track> {
    tracks.filter(|track: Track| track.liked_at == moment)
}

/// In the sorted list no track was liked before one that stands before it, and each
/// track is there as often as it was: as many tracks in all, and those that were liked
/// at the same moment in the order in which they were.
pub proof fn lemma_sorted(sorted: Seq<Track>, tracks: Seq<Track>)
    requires
        is_sorted_form(sorted, tracks),
    ensures
        forall|i: int, j: int|
            0 <= i < j < sorted.len() ==> {
                let a = (#[trigger] sorted[i]).liked_at;
                let b = (#[trigger] sorted[j]).liked_at;
                a.seconds < b.seconds || a.seconds == b.seconds && a.nanos <= b.nanos
            },
        sorted.to_multiset() == tracks.to_multiset(),
        sorted.len() == tracks.len(),
        forall|moment: Moment| #[trigger] of_moment(sorted, moment) == of_moment(tracks, moment),
{
    assert(in_order(sorted));
    assert forall|moment: Moment| #[trigger] of_moment(sorted, moment) == of_moment(
        tracks,
        moment,
    ) by {
        assert(liked_at(sorted, moment) == liked_at(tracks, moment));
    }
    assert forall|track: Track| #[trigger] sorted.to_multiset().count(track)
        == tracks.to_multiset().count(track) by {
        lemma_count(sorted, track);
        lemma_count(tracks, track);
        assert(liked_at(sorted, track.liked_at) == liked_at(tracks, track.liked_at));
    }
    assert(sorted.to_multiset() =~= tracks.to_multiset());
    sorted.to_multiset_ensures();
    tracks.to_multiset_ensures();
}

proof fn lemma_count(tracks: Seq<Track>, track: Track)
    ensures
        tracks.to_multiset().count(track) == liked_at(
            tracks,
            track.liked_at,
        ).to_multiset().count(track),
    decreases tracks.len(),
{
    reveal(Seq::filter);
    if tracks.len() > 0 {
        let front = tracks.drop_last();
        let last = tracks.last();
        lemma_count(front, track);
        assert(front.push(last) =~= tracks);
        front.to_multiset_ensures();
        assert(tracks.to_multiset() == front.to_multiset().insert(last));
        let at = liked_at(front, track.liked_at);
        at.to_multiset_ensures();
        if last.liked_at == track.liked_at {
            assert(liked_at(tracks, track.liked_at) == at.push(last));
            assert(at.push(last).to_multiset() == at.to_multiset().insert(last));
        }
    }
}

// ---------------------------------------------------------------------------
// Requests
// ---------------------------------------------------------------------------
/// In the field with the ids a comma follows each of them.
pub proof fn lemma_ids_field(ids: Seq<Seq<char>>)
    requires
        ids.len() > 0,
    ensures
        track_ids_value(ids) == ids.flat_map(|id: Seq<char>| id + ","@),
    decreases ids.len(),
{
    let f = |id: Seq<char>| id + ","@;
    let front = ids.drop_last();
    let last = ids.last();
    front.lemma_flat_map_push(f, last);
    assert(front.push(last) =~= ids);
    if ids.len() == 1 {
        assert(front =~= Seq::empty());
        assert(front.flat_map(f) =~= Seq::empty());
        assert(track_ids_value(ids) =~= Seq::<char>::empty() + (last + ","@));
    } else {
        lemma_ids_field(front);
        assert(joined(ids, ","@) == joined(front, ","@) + ","@ + last);
        assert(track_ids_value(ids) =~= track_ids_value(front) + (last + ","@));
    }
}

} // verus!
