//! The liked tracks as a whole: whose details are asked for, and in which order
//! the tracks come.
use vstd::prelude::*;

use crate::text::{form_view, join, joined, texts};
use crate::timestamp::{Moment, Timestamp};
use crate::yandex::order::{is_sorted_form, lemma_sorted_same_tracks, sort_by_liked_at};
use crate::yandex::{liked_track, to_liked_track, LikedTrack, RawTrack, Track, TrackDetails};

verus! {

/// How many tracks' details are asked for at once.
pub const TRACKS_PER_REQUEST: usize = 100;

/// A liked track, as the library lists it.
#[derive(Debug, Clone, PartialEq, Eq)]
pub struct LibraryTrack {
    pub id: String,
    pub liked_at: Timestamp,
}

/// What a [`LibraryTrack`] says.
pub struct Like {
    pub id: Seq<char>,
    pub liked_at: Moment,
}

impl View for LibraryTrack {
    type V = Like;

    open spec fn view(&self) -> Like {
        Like { id: self.id@, liked_at: self.liked_at@ }
    }
}

/// What a library says.
pub open spec fn likes(library: Seq<LibraryTrack>) -> Seq<Like> {
    library.map_values(|track: LibraryTrack| track@)
}

/// What a list of tracks says.
pub open spec fn track_views(tracks: Seq<LikedTrack>) -> Seq<Track> {
    tracks.map_values(|track: LikedTrack| track@)
}

// ---------------------------------------------------------------------------
// Requests
// ---------------------------------------------------------------------------
/// The ids of the library in runs of at most the given length, all but the last
/// of that length.
pub open spec fn id_chunks(ids: Seq<Seq<char>>) -> Seq<Seq<Seq<char>>>
    decreases ids.len(),
{
    if ids.len() == 0 {
        Seq::empty()
    } else if ids.len() <= TRACKS_PER_REQUEST {
        seq![ids]
    } else {
        seq![ids.take(TRACKS_PER_REQUEST as int)] + id_chunks(ids.skip(TRACKS_PER_REQUEST as int))
    }
}

/// The ids of the library.
pub open spec fn library_ids(library: Seq<Like>) -> Seq<Seq<char>> {
    library.map_values(|like: Like| like.id)
}

/// What lists of ids say.
pub open spec fn chunk_views(chunks: Seq<Vec<String>>) -> Seq<Seq<Seq<char>>> {
    chunks.map_values(|chunk: Vec<String>| texts(chunk@))
}

/// The ids of the library, in the runs in which their details are asked for.
pub fn track_id_chunks(library: &Vec<LibraryTrack>) -> (res: Vec<Vec<String>>)
    ensures
        chunk_views(res@) == id_chunks(library_ids(likes(library@))),
{
    let ghost ids = library_ids(likes(library@));
    let mut chunks: Vec<Vec<String>> = Vec::new();
    let mut start: usize = 0;
    assert(ids.skip(0) =~= ids);
    assert(chunk_views(chunks@) + id_chunks(ids) =~= id_chunks(ids));
    while start < library.len()
        invariant
            ids == library_ids(likes(library@)),
            start <= library@.len(),
            chunk_views(chunks@) + id_chunks(ids.skip(start as int)) == id_chunks(ids),
        decreases library.len() - start,
    {
        let ghost rest = ids.skip(start as int);
        let end: usize = if library.len() - start <= TRACKS_PER_REQUEST {
            library.len()
        } else {
            start + TRACKS_PER_REQUEST
        };
        let mut chunk: Vec<String> = Vec::new();
        for i in start..end
            invariant
                ids == library_ids(likes(library@)),
                start <= end <= library@.len(),
                texts(chunk@) == ids.subrange(start as int, i as int),
        {
            let ghost before = texts(chunk@);
            chunk.push(library[i].id.clone());
            assert(texts(chunk@) =~= before.push(ids[i as int]));
            assert(ids.subrange(start as int, i + 1) =~= before.push(ids[i as int]));
        }
        let ghost before = chunk_views(chunks@);
        proof {
            if library@.len() - start <= TRACKS_PER_REQUEST {
                assert(ids.subrange(start as int, end as int) =~= rest);
                assert(id_chunks(ids.skip(end as int)) =~= Seq::empty());
            } else {
                assert(ids.subrange(start as int, end as int) =~= rest.take(
                    TRACKS_PER_REQUEST as int,
                ));
                assert(rest.skip(TRACKS_PER_REQUEST as int) =~= ids.skip(end as int));
            }
            assert(id_chunks(rest) =~= seq![texts(chunk@)] + id_chunks(ids.skip(end as int)));
        }
        chunks.push(chunk);
        assert(chunk_views(chunks@) =~= before.push(texts(chunk@)));
        assert(chunk_views(chunks@) + id_chunks(ids.skip(end as int)) =~= before + id_chunks(rest));
        start = end;
    }
    assert(chunk_views(chunks@) + id_chunks(ids.skip(start as int)) =~= chunk_views(chunks@));
    chunks
}

/// The value of the field with the ids in a request for details: each followed by
/// a comma.
pub open spec fn track_ids_value(ids: Seq<Seq<char>>) -> Seq<char> {
    joined(ids, ","@) + ","@
}

/// The value of the field with the ids in a request for details.
pub fn track_ids_field(ids: &Vec<String>) -> (res: String)
    ensures
        res@ == track_ids_value(texts(ids@)),
{
    let mut res = join(ids, ",");
    res.append(",");
    res
}

/// The form that asks for the details of the tracks with these ids.
pub fn track_details_form(ids: &Vec<String>) -> (res: Vec<(String, String)>)
    ensures
        form_view(res@) == seq![
            ("track-ids"@, track_ids_value(texts(ids@))),
            ("with-positions"@, "false"@),
        ],
{
    let mut form: Vec<(String, String)> = Vec::new();
    form.push(("track-ids".to_owned(), track_ids_field(ids)));
    form.push(("with-positions".to_owned(), "false".to_owned()));
    assert(form_view(form@) =~= seq![
        ("track-ids"@, track_ids_value(texts(ids@))),
        ("with-positions"@, "false"@),
    ]);
    form
}

// ---------------------------------------------------------------------------
// Answers
// ---------------------------------------------------------------------------
/// An error that Yandex Music reports.
#[derive(Debug, Clone, PartialEq, Eq)]
pub struct YandexApiError {
    pub name: String,
    pub message: Option<String>,
}

/// What Yandex Music answers: a result, or an error.
#[derive(Debug)]
pub struct YandexApiResponse<T> {
    pub result: Option<T>,
    pub error: Option<YandexApiError>,
}

/// Why there are no liked tracks.
#[derive(Debug, Clone, PartialEq, Eq)]
pub enum YandexError {
    NoUserId,
    Api(YandexApiError),
    NoResult,
}

/// The error in words.
pub open spec fn yandex_error_text(error: YandexError) -> Seq<char> {
    match error {
        YandexError::NoUserId => "Yandex Music account status did not include a user id"@,
        YandexError::Api(error) => "Yandex Music API error while fetching track details: "@
            + error.name@ + (match error.message {
            Some(message) => ": "@ + message@,
            None => Seq::empty(),
        }),
        YandexError::NoResult => "Yandex Music track details response did not include result"@,
    }
}

impl YandexError {
    /// The error in words.
    pub fn message(&self) -> (res: String)
        ensures
            res@ == yandex_error_text(*self),
            match *self {
                YandexError::NoUserId => res@
                    == "Yandex Music account status did not include a user id"@,
                YandexError::Api(YandexApiError { name, message: Some(message) }) => res@
                    == "Yandex Music API error while fetching track details: "@ + name@ + ": "@
                    + message@,
                YandexError::Api(YandexApiError { name, message: None }) => res@
                    == "Yandex Music API error while fetching track details: "@ + name@,
                YandexError::NoResult => res@
                    == "Yandex Music track details response did not include result"@,
            },
    {
        match self {
            YandexError::NoUserId =>
                "Yandex Music account status did not include a user id".to_owned(),
            YandexError::Api(error) => {
                let mut res =
                    "Yandex Music API error while fetching track details: ".to_owned();
                res.append(error.name.as_str());
                if let Some(message) = &error.message {
                    let mut more = ": ".to_owned();
                    more.append(message.as_str());
                    res.append(more.as_str());
                }
                assert(res@ =~= yandex_error_text(*self));
                res
            },
            YandexError::NoResult =>
                "Yandex Music track details response did not include result".to_owned(),
        }
    }
}

/// The user whose likes are asked for.
pub fn account_user_id(uid: Option<u64>) -> (res: Result<u64, YandexError>)
    ensures
        match uid {
            Some(id) => res == Ok::<u64, YandexError>(id),
            None => res == Err::<u64, YandexError>(YandexError::NoUserId),
        },
{
    match uid {
        Some(id) => Ok(id),
        None => Err(YandexError::NoUserId),
    }
}

/// The result in an answer. An error counts even where there is a result.
pub fn api_result<T>(response: YandexApiResponse<T>) -> (res: Result<T, YandexError>)
    ensures
        res == match (response.error, response.result) {
            (Some(error), _) => Err::<T, YandexError>(YandexError::Api(error)),
            (None, Some(result)) => Ok::<T, YandexError>(result),
            (None, None) => Err::<T, YandexError>(YandexError::NoResult),
        },
{
    if let Some(error) = response.error {
        return Err(YandexError::Api(error));
    }
    match response.result {
        Some(result) => Ok(result),
        None => Err(YandexError::NoResult),
    }
}

/// When a track was liked: by the last entry of the library with its id.
pub open spec fn liked_when(library: Seq<Like>, id: Seq<char>) -> Option<Moment>
    decreases library.len(),
{
    if library.len() == 0 {
        None
    } else if library.last().id == id {
        Some(library.last().liked_at)
    } else {
        liked_when(library.drop_last(), id)
    }
}

/// When the track with the given id was liked, if the library has it.
fn find_liked_at(library: &Vec<LibraryTrack>, id: &str) -> (res: Option<Timestamp>)
    ensures
        match res {
            Some(time) => liked_when(likes(library@), id@) == Some(time@),
            None => liked_when(likes(library@), id@) is None,
        },
{
    let ghost all = likes(library@);
    let mut n: usize = library.len();
    assert(all.take(n as int) =~= all);
    while n > 0
        invariant
            all == likes(library@),
            n <= library@.len(),
            liked_when(all, id@) == liked_when(all.take(n as int), id@),
        decreases n,
    {
        assert(all.take(n as int).drop_last() =~= all.take(n - 1));
        assert(all.take(n as int).last() == library@[n - 1]@);
        if *library[n - 1].id.as_str() == *id {
            return Some(library[n - 1].liked_at);
        }
        n -= 1;
    }
    None
}

/// The tracks that the answers give details of and that are in the library, in
/// the order of the answers. A place in an answer can be empty.
pub open spec fn gathered(
    library: Seq<Like>,
    answers: Seq<Option<TrackDetails>>,
) -> Seq<Track> {
    answers.filter_map(
        |details: Option<TrackDetails>|
            match details {
                Some(details) => match liked_when(library, details.id) {
                    Some(liked_at) => Some(liked_track(details, liked_at)),
                    None => None,
                },
                None => None,
            },
    )
}

/// What an answer says.
pub open spec fn answer_views(answer: Seq<Option<RawTrack>>) -> Seq<Option<TrackDetails>> {
    answer.map_values(
        |track: Option<RawTrack>|
            match track {
                Some(track) => Some(track@),
                None => None,
            },
    )
}

/// The tracks of an answer that are in the library are added to `tracks`.
pub fn add_liked_tracks(
    tracks: &mut Vec<LikedTrack>,
    answer: Vec<Option<RawTrack>>,
    library: &Vec<LibraryTrack>,
)
    ensures
        track_views(final(tracks)@) == track_views(old(tracks)@) + gathered(
            likes(library@),
            answer_views(answer@),
        ),
{
    let ghost views = answer_views(answer@);
    let ghost all = likes(library@);
    let ghost f = |details: Option<TrackDetails>|
        match details {
            Some(details) => match liked_when(all, details.id) {
                Some(liked_at) => Some(liked_track(details, liked_at)),
                None => None,
            },
            None => None,
        };
    let ghost before = track_views(tracks@);
    assert(gathered(all, views) == views.filter_map(f));
    assert(before + views.take(0).filter_map(f) =~= before);
    for track in it: answer
        invariant
            views == answer_views(it.seq()),
            all == likes(library@),
            f == (|details: Option<TrackDetails>|
                match details {
                    Some(details) => match liked_when(all, details.id) {
                        Some(liked_at) => Some(liked_track(details, liked_at)),
                        None => None,
                    },
                    None => None,
                }),
            track_views(tracks@) == before + views.take(it.index()).filter_map(f),
    {
        proof {
            views.lemma_filter_map_take_succ(f, it.index());
        }
        let ghost so_far = track_views(tracks@);
        assert(so_far + Seq::<Track>::empty() =~= so_far);
        if let Some(track) = track {
            if let Some(liked_at) = find_liked_at(library, track.id.as_str()) {
                let liked = to_liked_track(track, liked_at);
                tracks.push(liked);
                assert(track_views(tracks@) =~= so_far + seq![liked@]);
            }
        }
        assert(track_views(tracks@) =~= before + views.take(it.index() + 1).filter_map(f));
    }
    assert(views.take(views.len() as int) =~= views);
}

/// What a list of answers says.
pub open spec fn all_answer_views(answers: Seq<Vec<Option<RawTrack>>>) -> Seq<
    Seq<Option<TrackDetails>>,
> {
    answers.map_values(|answer: Vec<Option<RawTrack>>| answer_views(answer@))
}

/// The tracks that any of the answers gives details of and that are in the
/// library, in the order of the answers.
pub open spec fn all_gathered(
    library: Seq<Like>,
    answers: Seq<Seq<Option<TrackDetails>>>,
) -> Seq<Track> {
    answers.flat_map(|answer: Seq<Option<TrackDetails>>| gathered(library, answer))
}

/// The tracks of the library that the answers give details of, in the order in
/// which they were liked.
pub fn liked_tracks(library: &Vec<LibraryTrack>, answers: Vec<Vec<Option<RawTrack>>>) -> (res: Vec<
    LikedTrack,
>)
    ensures
        is_sorted_form(
            track_views(res@),
            all_gathered(likes(library@), all_answer_views(answers@)),
        ),
{
    let ghost all = likes(library@);
    let ghost views = all_answer_views(answers@);
    let ghost f = |answer: Seq<Option<TrackDetails>>| gathered(all, answer);
    let mut tracks: Vec<LikedTrack> = Vec::new();
    assert(track_views(tracks@) =~= views.take(0).flat_map(f));
    for answer in it: answers
        invariant
            all == likes(library@),
            views == all_answer_views(it.seq()),
            f == (|answer: Seq<Option<TrackDetails>>| gathered(all, answer)),
            track_views(tracks@) == views.take(it.index()).flat_map(f),
    {
        proof {
            views.lemma_flat_map_take_append(f, it.index());
        }
        add_liked_tracks(&mut tracks, answer, library);
    }
    assert(views.take(views.len() as int) =~= views);
    sort_by_liked_at(tracks)
}

// ---------------------------------------------------------------------------
// Laws
// ---------------------------------------------------------------------------
/// The requests ask for every track of the library once, in the order of the
/// library, and each for at least one track and at most 100: for 100, but for the
/// last.
pub proof fn lemma_chunks(ids: Seq<Seq<char>>)
    ensures
        id_chunks(ids).flatten() == ids,
        forall|i: int|
            0 <= i < id_chunks(ids).len() ==> 1 <= (#[trigger] id_chunks(ids)[i]).len() <= 100,
        forall|i: int|
            0 <= i < id_chunks(ids).len() - 1 ==> (#[trigger] id_chunks(ids)[i]).len() == 100,
    decreases ids.len(),
{
    let chunks = id_chunks(ids);
    if ids.len() == 0 {
        assert(chunks.flatten() =~= ids);
    } else if ids.len() <= TRACKS_PER_REQUEST {
        chunks.lemma_flatten_singleton();
    } else {
        let first = ids.take(TRACKS_PER_REQUEST as int);
        let rest = ids.skip(TRACKS_PER_REQUEST as int);
        lemma_chunks(rest);
        assert(chunks.drop_first() =~= id_chunks(rest));
        assert(chunks.flatten() == first + rest);
        assert(first + rest =~= ids);
        assert forall|i: int| 0 <= i < chunks.len() implies 1 <= (#[trigger] chunks[i]).len()
            <= TRACKS_PER_REQUEST by {
            if i > 0 {
                assert(chunks[i] == id_chunks(rest)[i - 1]);
            }
        }
        assert forall|i: int| 0 <= i < chunks.len() - 1 implies (#[trigger] chunks[i]).len()
            == 100 by {
            if i > 0 {
                assert(chunks[i] == id_chunks(rest)[i - 1]);
            }
        }
    }
}

/// Every track that comes out is in the library, and was liked when the library
/// says.
pub proof fn lemma_liked_tracks(
    library: Seq<Like>,
    answers: Seq<Seq<Option<TrackDetails>>>,
    sorted: Seq<Track>,
    track: Track,
)
    requires
        is_sorted_form(sorted, all_gathered(library, answers)),
        sorted.contains(track),
    ensures
        liked_when(library, track.id) == Some(track.liked_at),
        library.contains(Like { id: track.id, liked_at: track.liked_at }),
{
    lemma_sorted_same_tracks(sorted, all_gathered(library, answers), track);
    lemma_all_gathered(library, answers, track);
}

proof fn lemma_all_gathered(
    library: Seq<Like>,
    answers: Seq<Seq<Option<TrackDetails>>>,
    track: Track,
)
    requires
        all_gathered(library, answers).contains(track),
    ensures
        liked_when(library, track.id) == Some(track.liked_at),
        library.contains(Like { id: track.id, liked_at: track.liked_at }),
    decreases answers.len(),
{
    let f = |answer: Seq<Option<TrackDetails>>| gathered(library, answer);
    let all = all_gathered(library, answers);
    if answers.len() == 0 {
        assert(all =~= Seq::empty());
    } else {
        let front = answers.drop_last();
        front.lemma_flat_map_push(f, answers.last());
        assert(front.push(answers.last()) =~= answers);
        let before = all_gathered(library, front);
        let last = gathered(library, answers.last());
        let i = choose|i: int| 0 <= i < all.len() && all[i] == track;
        if i < before.len() {
            assert(before[i] == track);
            lemma_all_gathered(library, front, track);
        } else {
            assert(last[i - before.len()] == track);
            lemma_gathered(library, answers.last(), track);
        }
    }
}

proof fn lemma_gathered(library: Seq<Like>, answer: Seq<Option<TrackDetails>>, track: Track)
    requires
        gathered(library, answer).contains(track),
    ensures
        liked_when(library, track.id) == Some(track.liked_at),
        library.contains(Like { id: track.id, liked_at: track.liked_at }),
{
    let f = |details: Option<TrackDetails>|
        match details {
            Some(details) => match liked_when(library, details.id) {
                Some(liked_at) => Some(liked_track(details, liked_at)),
                None => None,
            },
            None => None,
        };
    assert(gathered(library, answer) == answer.filter_map(f));
    answer.lemma_filter_map_contains(f, track);
    let details = choose|details: Option<TrackDetails>|
        #[trigger] answer.contains(details) && f(details) == Some(track);
    lemma_liked_when(library, track.id);
}

proof fn lemma_liked_when(library: Seq<Like>, id: Seq<char>)
    ensures
        liked_when(library, id) is Some ==> library.contains(
            Like { id, liked_at: liked_when(library, id)->0 },
        ),
    decreases library.len(),
{
    if library.len() > 0 {
        let front = library.drop_last();
        if library.last().id == id {
            assert(library[library.len() - 1] == (Like { id, liked_at: library.last().liked_at }));
        } else {
            lemma_liked_when(front, id);
            if liked_when(front, id) is Some {
                let like = Like { id, liked_at: liked_when(front, id)->0 };
                let i = choose|i: int| 0 <= i < front.len() && front[i] == like;
                assert(library[i] == like);
            }
        }
    }
}

} // verus!
