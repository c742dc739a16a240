//! The order of the liked tracks.
use vstd::prelude::*;

use crate::timestamp::Moment;
use crate::yandex::library::track_views;
use crate::yandex::{LikedTrack, Track};

verus! {

/// No track was liked before the one that precedes it.
pub open spec fn in_order(tracks: Seq<Track>) -> bool {
    forall|i: int, j: int|
        0 <= i < j < tracks.len() ==> (#[trigger] tracks[i]).liked_at.not_after(
            (#[trigger] tracks[j]).liked_at,
        )
}

/// The tracks that were liked at the given moment.
pub open spec fn liked_at(tracks: Seq<Track>, moment: Moment) -> Seq<Track> {
    tracks.filter(|track: Track| track.liked_at == moment)
}

/// The first list is the second one in the order of the likes. Tracks that were
/// liked at the same moment keep their order.
pub open spec fn is_sorted_form(sorted: Seq<Track>, tracks: Seq<Track>) -> bool {
    &&& in_order(sorted)
    &&& forall|moment: Moment| #[trigger] liked_at(sorted, moment) == liked_at(tracks, moment)
}

/// Tracks of one list come before those of another.
spec fn all_before(left: Seq<Track>, right: Seq<Track>) -> bool {
    forall|i: int, j: int|
        0 <= i < left.len() && 0 <= j < right.len() ==> (#[trigger] left[i]).liked_at.not_after(
            (#[trigger] right[j]).liked_at,
        )
}

/// What is liked at a moment, part by part.
proof fn lemma_liked_at_add(left: Seq<Track>, right: Seq<Track>, moment: Moment)
    ensures
        liked_at(left + right, moment) == liked_at(left, moment) + liked_at(right, moment),
{
    Seq::filter_distributes_over_add(left, right, |track: Track| track.liked_at == moment);
}

/// Nothing is liked at a moment that no track has.
proof fn lemma_liked_at_none(tracks: Seq<Track>, moment: Moment)
    requires
        forall|i: int| 0 <= i < tracks.len() ==> (#[trigger] tracks[i]).liked_at != moment,
    ensures
        liked_at(tracks, moment) == Seq::<Track>::empty(),
    decreases tracks.len(),
{
    reveal(Seq::filter);
    if tracks.len() > 0 {
        let front = tracks.drop_last();
        assert forall|i: int| 0 <= i < front.len() implies (#[trigger] front[i]).liked_at
            != moment by {
            assert(front[i] == tracks[i]);
        }
        lemma_liked_at_none(front, moment);
    }
    assert(liked_at(tracks, moment) =~= Seq::<Track>::empty());
}

/// Moving the last of the second list to the front of what is merged keeps
/// everything that is liked at any moment.
proof fn lemma_take_right(a: Seq<Track>, b: Seq<Track>, out: Seq<Track>, moment: Moment)
    requires
        b.len() > 0,
    ensures
        liked_at(a, moment) + liked_at(b.drop_last(), moment) + liked_at(
            seq![b.last()] + out,
            moment,
        ) == liked_at(a, moment) + liked_at(b, moment) + liked_at(out, moment),
{
    let x = seq![b.last()];
    assert(b.drop_last() + x =~= b);
    lemma_liked_at_add(b.drop_last(), x, moment);
    lemma_liked_at_add(x, out, moment);
    assert(liked_at(a, moment) + liked_at(b.drop_last(), moment) + (liked_at(x, moment) + liked_at(
        out,
        moment,
    )) =~= liked_at(a, moment) + (liked_at(b.drop_last(), moment) + liked_at(x, moment))
        + liked_at(out, moment));
}

/// So does moving the last of the first list, if it was liked after everything in
/// the second.
proof fn lemma_take_left(a: Seq<Track>, b: Seq<Track>, out: Seq<Track>, moment: Moment)
    requires
        a.len() > 0,
        forall|i: int| 0 <= i < b.len() ==> (#[trigger] b[i]).liked_at != a.last().liked_at,
    ensures
        liked_at(a.drop_last(), moment) + liked_at(b, moment) + liked_at(
            seq![a.last()] + out,
            moment,
        ) == liked_at(a, moment) + liked_at(b, moment) + liked_at(out, moment),
{
    let x = seq![a.last()];
    let front = liked_at(a.drop_last(), moment);
    assert(a.drop_last() + x =~= a);
    lemma_liked_at_add(a.drop_last(), x, moment);
    lemma_liked_at_add(x, out, moment);
    if a.last().liked_at == moment {
        lemma_liked_at_none(b, moment);
    } else {
        lemma_liked_at_none(x, moment);
    }
    assert(front + liked_at(b, moment) + (liked_at(x, moment) + liked_at(out, moment)) =~= front
        + liked_at(x, moment) + liked_at(b, moment) + liked_at(out, moment));
}

/// Removes and returns the last track.
fn pop_track(tracks: &mut Vec<LikedTrack>) -> (res: LikedTrack)
    requires
        old(tracks)@.len() > 0,
    ensures
        final(tracks)@.len() == old(tracks)@.len() - 1,
        track_views(final(tracks)@) == track_views(old(tracks)@).drop_last(),
        res@ == track_views(old(tracks)@).last(),
{
    let track = tracks.remove(tracks.len() - 1);
    assert(track_views(tracks@) =~= track_views(old(tracks)@).drop_last());
    track
}

/// Two lists in order as one list in order, with those of the left first among
/// tracks that were liked at the same moment.
fn merge(left: Vec<LikedTrack>, right: Vec<LikedTrack>) -> (res: Vec<LikedTrack>)
    requires
        in_order(track_views(left@)),
        in_order(track_views(right@)),
    ensures
        is_sorted_form(track_views(res@), track_views(left@) + track_views(right@)),
{
    let ghost all_left = track_views(left@);
    let ghost all_right = track_views(right@);
    let mut left = left;
    let mut right = right;
    let mut backwards: Vec<LikedTrack> = Vec::new();
    let ghost mut out: Seq<Track> = Seq::empty();
    proof {
        assert(track_views(backwards@) =~= out.reverse());
        assert forall|moment: Moment|
            #![trigger liked_at(all_left, moment)]
            liked_at(all_left, moment) + liked_at(all_right, moment) + liked_at(out, moment)
                == liked_at(all_left, moment) + liked_at(all_right, moment) by {
            lemma_liked_at_none(out, moment);
            assert(liked_at(all_left, moment) + liked_at(all_right, moment)
                + Seq::<Track>::empty() =~= liked_at(all_left, moment) + liked_at(
                all_right,
                moment,
            ));
        }
    }
    while left.len() > 0 || right.len() > 0
        invariant
            track_views(backwards@) == out.reverse(),
            in_order(track_views(left@)),
            in_order(track_views(right@)),
            in_order(out),
            all_before(track_views(left@), out),
            all_before(track_views(right@), out),
            forall|moment: Moment|
                #![trigger liked_at(all_left, moment)]
                liked_at(track_views(left@), moment) + liked_at(track_views(right@), moment)
                    + liked_at(out, moment) == liked_at(all_left, moment) + liked_at(
                    all_right,
                    moment,
                ),
        decreases left.len() + right.len(),
    {
        let ghost a = track_views(left@);
        let ghost b = track_views(right@);
        let from_right = right.len() > 0 && (left.len() == 0 || left[left.len()
            - 1].liked_at.not_after(&right[right.len() - 1].liked_at));
        assert(left@.len() > 0 ==> a.last() == left@.last()@);
        assert(right@.len() > 0 ==> b.last() == right@.last()@);
        let track = if from_right {
            pop_track(&mut right)
        } else {
            pop_track(&mut left)
        };
        let ghost next = seq![track@] + out;
        backwards.push(track);
        proof {
            assert(track_views(backwards@) =~= out.reverse().push(track@));
            assert(next.reverse() =~= out.reverse().push(track@));
            let a2 = track_views(left@);
            let b2 = track_views(right@);
            assert forall|moment: Moment|
                #![trigger liked_at(all_left, moment)]
                liked_at(a2, moment) + liked_at(b2, moment) + liked_at(next, moment) == liked_at(
                    all_left,
                    moment,
                ) + liked_at(all_right, moment) by {
                assert(liked_at(a, moment) + liked_at(b, moment) + liked_at(out, moment)
                    == liked_at(all_left, moment) + liked_at(all_right, moment));
                if from_right {
                    lemma_take_right(a, b, out, moment);
                } else {
                    assert forall|i: int| 0 <= i < b.len() implies (#[trigger] b[i]).liked_at
                        != a.last().liked_at by {
                        if i < b.len() - 1 {
                            assert(b[i].liked_at.not_after(b[b.len() - 1].liked_at));
                        }
                    }
                    lemma_take_left(a, b, out, moment);
                }
            }
            assert forall|i: int| 0 <= i < a2.len() implies (#[trigger] a2[i]).liked_at.not_after(
                track@.liked_at,
            ) by {
                assert(a2[i] == a[i]);
                assert(i < a.len() - 1 ==> a[i].liked_at.not_after(a[a.len() - 1].liked_at));
            }
            assert forall|i: int| 0 <= i < b2.len() implies (#[trigger] b2[i]).liked_at.not_after(
                track@.liked_at,
            ) by {
                assert(b2[i] == b[i]);
                assert(i < b.len() - 1 ==> b[i].liked_at.not_after(b[b.len() - 1].liked_at));
            }
            assert(all_before(a2, next));
            assert(all_before(b2, next));
            assert(in_order(next));
            out = next;
        }
    }
    proof {
        assert forall|moment: Moment| #[trigger] liked_at(out, moment) == liked_at(
            all_left + all_right,
            moment,
        ) by {
            lemma_liked_at_add(all_left, all_right, moment);
            lemma_liked_at_none(track_views(left@), moment);
            lemma_liked_at_none(track_views(right@), moment);
            assert(Seq::<Track>::empty() + Seq::<Track>::empty() + liked_at(out, moment)
                =~= liked_at(out, moment));
        }
    }
    let mut res: Vec<LikedTrack> = Vec::new();
    assert(track_views(res@) =~= out.take(0));
    while backwards.len() > 0
        invariant
            res@.len() + backwards@.len() == out.len(),
            track_views(backwards@) == out.skip(res@.len() as int).reverse(),
            track_views(res@) == out.take(res@.len() as int),
        decreases backwards.len(),
    {
        let ghost n = res@.len() as int;
        let track = pop_track(&mut backwards);
        assert(track@ == out[n]);
        res.push(track);
        assert(track_views(res@) =~= out.take(n + 1));
        assert(track_views(backwards@) =~= out.skip(n + 1).reverse());
    }
    assert(out.take(res@.len() as int) =~= out);
    res
}

/// The tracks in the order in which they were liked. Tracks that were liked at
/// the same moment keep their order.
pub fn sort_by_liked_at(tracks: Vec<LikedTrack>) -> (res: Vec<LikedTrack>)
    ensures
        is_sorted_form(track_views(res@), track_views(tracks@)),
    decreases tracks.len(),
{
    if tracks.len() < 2 {
        return tracks;
    }
    let ghost all = track_views(tracks@);
    let mut left = tracks;
    let middle: usize = left.len() / 2;
    let right = left.split_off(middle);
    assert(track_views(left@) + track_views(right@) =~= all);
    let ghost first = track_views(left@);
    let ghost second = track_views(right@);
    let left = sort_by_liked_at(left);
    let right = sort_by_liked_at(right);
    let res = merge(left, right);
    proof {
        assert forall|moment: Moment| #[trigger] liked_at(track_views(res@), moment) == liked_at(
            all,
            moment,
        ) by {
            lemma_liked_at_add(first, second, moment);
            lemma_liked_at_add(track_views(left@), track_views(right@), moment);
            assert(liked_at(track_views(left@), moment) == liked_at(first, moment));
            assert(liked_at(track_views(right@), moment) == liked_at(second, moment));
        }
    }
    res
}

/// Sorting neither loses nor adds a track.
pub proof fn lemma_sorted_same_tracks(sorted: Seq<Track>, tracks: Seq<Track>, track: Track)
    requires
        is_sorted_form(sorted, tracks),
    ensures
        sorted.contains(track) <==> tracks.contains(track),
        liked_at(sorted, track.liked_at) == liked_at(tracks, track.liked_at),
{
    let at = |other: Track| other.liked_at == track.liked_at;
    assert(liked_at(sorted, track.liked_at) == liked_at(tracks, track.liked_at));
    if sorted.contains(track) {
        let i = choose|i: int| 0 <= i < sorted.len() && sorted[i] == track;
        sorted.lemma_filter_contains(at, i);
        tracks.lemma_filter_contains_rev(at, track);
    }
    if tracks.contains(track) {
        let i = choose|i: int| 0 <= i < tracks.len() && tracks[i] == track;
        tracks.lemma_filter_contains(at, i);
        sorted.lemma_filter_contains_rev(at, track);
    }
}

} // verus!
