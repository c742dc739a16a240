//! Which links a track gets, service by service: tables of all that it can get, with
//! the condition under which it gets each.
use vstd::prelude::*;

use crate::enrichment::links::{
    enabled_links, lastfm_searches, link_if, musicbrainz_entity_searches, phrase_searches,
    related_searches, rutracker_searches, theaudiodb_searches, wikimedia_searches,
    yandex_video_searches, youtube_searches, Link,
};
use crate::enrichment::lookups::{first_id, recording_links, Recording};
use crate::enrichment::services::{enabled, ExternalLinkService};
use crate::enrichment::urls::{human_phrase, path_address, query_address, query_address_1};
use crate::sequences::{lemma_filter_map_picks, picks};
use crate::text::{blank, joined};
use crate::yandex::Track;

verus! {

// ---------------------------------------------------------------------------
// Tables
// ---------------------------------------------------------------------------
/// Of a table of links, those whose condition holds, in order.
pub open spec fn wanted(table: Seq<(bool, Link)>) -> Seq<Link> {
    table.filter_map(
        |row: (bool, Link)|
            if row.0 {
                Some(row.1)
            } else {
                None
            },
    )
}

/// What is wanted of a table are exactly the links whose condition holds, in the order
/// of the table.
pub proof fn lemma_wanted(table: Seq<(bool, Link)>) -> (at: Seq<int>)
    ensures
        picks(
            wanted(table),
            table,
            |row: (bool, Link)|
                if row.0 {
                    Some(row.1)
                } else {
                    None
                },
            at,
        ),
{
    lemma_filter_map_picks(
        table,
        |row: (bool, Link)|
            if row.0 {
                Some(row.1)
            } else {
                None
            },
    )
}

proof fn lemma_wanted_push(table: Seq<(bool, Link)>, condition: bool, link: Link)
    ensures
        wanted(table.push((condition, link))) == wanted(table) + link_if(condition, link),
        wanted(Seq::empty()) == Seq::<Link>::empty(),
{
    let row = (condition, link);
    assert(table.push(row).drop_last() =~= table);
    assert(wanted(table.push(row)) =~= wanted(table) + link_if(condition, link));
}

/// The track has an artist with a name, which comes first.
pub open spec fn has_artist(track: Track) -> bool {
    track.artists.len() > 0 && !blank(track.artists[0])
}

/// The track has an album with a name, which comes first.
pub open spec fn has_album(track: Track) -> bool {
    track.albums.len() > 0 && !blank(track.albums[0])
}

/// The links to YouTube: for those of its services that may be used, if there is anything
/// to search for. Exactly those, in this order.
pub proof fn lemma_youtube(
    track: Track,
    on: Set<ExternalLinkService>,
    off: Set<ExternalLinkService>,
)
    ensures
        youtube_searches(track, on, off) == wanted(
            seq![
                (
                    human_phrase(track).len() > 0 && enabled(ExternalLinkService::YouTubeMusic, on,
                        off),
                    Link {
                        label: "YouTube Music search"@,
                        url: query_address_1(
                            "https://music.youtube.com/search"@,
                            "q"@,
                            human_phrase(track),
                        ),
                    },
                ),
                (
                    human_phrase(track).len() > 0 && enabled(ExternalLinkService::YouTube, on, off),
                    Link {
                        label: "YouTube search"@,
                        url: query_address_1(
                            "https://www.youtube.com/results"@,
                            "search_query"@,
                            human_phrase(track),
                        ),
                    },
                ),
            ],
        ),
{
    let table = seq![
        (
            human_phrase(track).len() > 0 && enabled(ExternalLinkService::YouTubeMusic, on, off),
            Link {
                label: "YouTube Music search"@,
                url: query_address_1(
                    "https://music.youtube.com/search"@,
                    "q"@,
                    human_phrase(track),
                ),
            },
        ),
        (
            human_phrase(track).len() > 0 && enabled(ExternalLinkService::YouTube, on, off),
            Link {
                label: "YouTube search"@,
                url: query_address_1(
                    "https://www.youtube.com/results"@,
                    "search_query"@,
                    human_phrase(track),
                ),
            },
        ),
    ];
    let none = Seq::<(bool, Link)>::empty();
    lemma_wanted_push(none, table[0].0, table[0].1);
    let t1 = none.push((table[0].0, table[0].1));
    lemma_wanted_push(t1, table[1].0, table[1].1);
    let t2 = t1.push((table[1].0, table[1].1));
    assert(table =~= t2);
    assert(youtube_searches(track, on, off) =~= wanted(t2));
}

/// The links to Last.fm: for the artist, the track and the album, as far as they are
/// known; for the title alone if there is no artist. Exactly those, in this order.
pub proof fn lemma_lastfm(
    track: Track,
)
    ensures
        lastfm_searches(track) == wanted(
            seq![
                (
                    has_artist(track),
                    Link {
                        label: "Last.fm artist search"@,
                        url: query_address_1(
                            "https://www.last.fm/search/artists"@,
                            "q"@,
                            track.artists[0],
                        ),
                    },
                ),
                (
                    has_artist(track),
                    Link {
                        label: "Last.fm track search"@,
                        url: query_address_1(
                            "https://www.last.fm/search/tracks"@,
                            "q"@,
                            track.artists[0] + seq![' '] + track.title,
                        ),
                    },
                ),
                (
                    !has_artist(track),
                    Link {
                        label: "Last.fm track search"@,
                        url: query_address_1(
                            "https://www.last.fm/search/tracks"@,
                            "q"@,
                            track.title,
                        ),
                    },
                ),
                (
                    has_artist(track) && has_album(track),
                    Link {
                        label: "Last.fm album search"@,
                        url: query_address_1(
                            "https://www.last.fm/search/albums"@,
                            "q"@,
                            track.artists[0] + seq![' '] + track.albums[0],
                        ),
                    },
                ),
            ],
        ),
{
    let table = seq![
        (
            has_artist(track),
            Link {
                label: "Last.fm artist search"@,
                url: query_address_1(
                    "https://www.last.fm/search/artists"@,
                    "q"@,
                    track.artists[0],
                ),
            },
        ),
        (
            has_artist(track),
            Link {
                label: "Last.fm track search"@,
                url: query_address_1(
                    "https://www.last.fm/search/tracks"@,
                    "q"@,
                    track.artists[0] + seq![' '] + track.title,
                ),
            },
        ),
        (
            !has_artist(track),
            Link {
                label: "Last.fm track search"@,
                url: query_address_1(
                    "https://www.last.fm/search/tracks"@,
                    "q"@,
                    track.title,
                ),
            },
        ),
        (
            has_artist(track) && has_album(track),
            Link {
                label: "Last.fm album search"@,
                url: query_address_1(
                    "https://www.last.fm/search/albums"@,
                    "q"@,
                    track.artists[0] + seq![' '] + track.albums[0],
                ),
            },
        ),
    ];
    let none = Seq::<(bool, Link)>::empty();
    lemma_wanted_push(none, table[0].0, table[0].1);
    let t1 = none.push((table[0].0, table[0].1));
    lemma_wanted_push(t1, table[1].0, table[1].1);
    let t2 = t1.push((table[1].0, table[1].1));
    lemma_wanted_push(t2, table[2].0, table[2].1);
    let t3 = t2.push((table[2].0, table[2].1));
    lemma_wanted_push(t3, table[3].0, table[3].1);
    let t4 = t3.push((table[3].0, table[3].1));
    assert(table =~= t4);
    assert(lastfm_searches(track) =~= wanted(t4));
}

/// The links to RuTracker: for the artist, the track and the album, as far as they are
/// known; for the title alone if there is no artist. Exactly those, in this order.
pub proof fn lemma_rutracker(
    track: Track,
)
    ensures
        rutracker_searches(track) == wanted(
            seq![
                (
                    has_artist(track),
                    Link {
                        label: "RuTracker artist search"@,
                        url: query_address_1(
                            "https://rutracker.org/forum/tracker.php"@,
                            "nm"@,
                            track.artists[0],
                        ),
                    },
                ),
                (
                    has_artist(track),
                    Link {
                        label: "RuTracker track search"@,
                        url: query_address_1(
                            "https://rutracker.org/forum/tracker.php"@,
                            "nm"@,
                            track.artists[0] + seq![' '] + track.title,
                        ),
                    },
                ),
                (
                    !has_artist(track),
                    Link {
                        label: "RuTracker track search"@,
                        url: query_address_1(
                            "https://rutracker.org/forum/tracker.php"@,
                            "nm"@,
                            track.title,
                        ),
                    },
                ),
                (
                    has_artist(track) && has_album(track),
                    Link {
                        label: "RuTracker album search"@,
                        url: query_address_1(
                            "https://rutracker.org/forum/tracker.php"@,
                            "nm"@,
                            track.artists[0] + seq![' '] + track.albums[0],
                        ),
                    },
                ),
            ],
        ),
{
    let table = seq![
        (
            has_artist(track),
            Link {
                label: "RuTracker artist search"@,
                url: query_address_1(
                    "https://rutracker.org/forum/tracker.php"@,
                    "nm"@,
                    track.artists[0],
                ),
            },
        ),
        (
            has_artist(track),
            Link {
                label: "RuTracker track search"@,
                url: query_address_1(
                    "https://rutracker.org/forum/tracker.php"@,
                    "nm"@,
                    track.artists[0] + seq![' '] + track.title,
                ),
            },
        ),
        (
            !has_artist(track),
            Link {
                label: "RuTracker track search"@,
                url: query_address_1(
                    "https://rutracker.org/forum/tracker.php"@,
                    "nm"@,
                    track.title,
                ),
            },
        ),
        (
            has_artist(track) && has_album(track),
            Link {
                label: "RuTracker album search"@,
                url: query_address_1(
                    "https://rutracker.org/forum/tracker.php"@,
                    "nm"@,
                    track.artists[0] + seq![' '] + track.albums[0],
                ),
            },
        ),
    ];
    let none = Seq::<(bool, Link)>::empty();
    lemma_wanted_push(none, table[0].0, table[0].1);
    let t1 = none.push((table[0].0, table[0].1));
    lemma_wanted_push(t1, table[1].0, table[1].1);
    let t2 = t1.push((table[1].0, table[1].1));
    lemma_wanted_push(t2, table[2].0, table[2].1);
    let t3 = t2.push((table[2].0, table[2].1));
    lemma_wanted_push(t3, table[3].0, table[3].1);
    let t4 = t3.push((table[3].0, table[3].1));
    assert(table =~= t4);
    assert(rutracker_searches(track) =~= wanted(t4));
}

/// The links to Yandex Video: for the artist, the track and the album, as far as they are
/// known; for the title alone if there is no artist. Exactly those, in this order.
pub proof fn lemma_yandex_video(
    track: Track,
)
    ensures
        yandex_video_searches(track) == wanted(
            seq![
                (
                    has_artist(track),
                    Link {
                        label: "Yandex Video track search"@,
                        url: query_address_1(
                            "https://yandex.ru/video/search"@,
                            "text"@,
                            track.artists[0] + seq![' '] + track.title,
                        ),
                    },
                ),
                (
                    !has_artist(track),
                    Link {
                        label: "Yandex Video track search"@,
                        url: query_address_1(
                            "https://yandex.ru/video/search"@,
                            "text"@,
                            track.title,
                        ),
                    },
                ),
                (
                    has_artist(track) && has_album(track),
                    Link {
                        label: "Yandex Video album search"@,
                        url: query_address_1(
                            "https://yandex.ru/video/search"@,
                            "text"@,
                            track.artists[0] + seq![' '] + track.albums[0],
                        ),
                    },
                ),
                (
                    has_artist(track),
                    Link {
                        label: "Yandex Video artist search"@,
                        url: query_address_1(
                            "https://yandex.ru/video/search"@,
                            "text"@,
                            track.artists[0],
                        ),
                    },
                ),
            ],
        ),
{
    let table = seq![
        (
            has_artist(track),
            Link {
                label: "Yandex Video track search"@,
                url: query_address_1(
                    "https://yandex.ru/video/search"@,
                    "text"@,
                    track.artists[0] + seq![' '] + track.title,
                ),
            },
        ),
        (
            !has_artist(track),
            Link {
                label: "Yandex Video track search"@,
                url: query_address_1(
                    "https://yandex.ru/video/search"@,
                    "text"@,
                    track.title,
                ),
            },
        ),
        (
            has_artist(track) && has_album(track),
            Link {
                label: "Yandex Video album search"@,
                url: query_address_1(
                    "https://yandex.ru/video/search"@,
                    "text"@,
                    track.artists[0] + seq![' '] + track.albums[0],
                ),
            },
        ),
        (
            has_artist(track),
            Link {
                label: "Yandex Video artist search"@,
                url: query_address_1(
                    "https://yandex.ru/video/search"@,
                    "text"@,
                    track.artists[0],
                ),
            },
        ),
    ];
    let none = Seq::<(bool, Link)>::empty();
    lemma_wanted_push(none, table[0].0, table[0].1);
    let t1 = none.push((table[0].0, table[0].1));
    lemma_wanted_push(t1, table[1].0, table[1].1);
    let t2 = t1.push((table[1].0, table[1].1));
    lemma_wanted_push(t2, table[2].0, table[2].1);
    let t3 = t2.push((table[2].0, table[2].1));
    lemma_wanted_push(t3, table[3].0, table[3].1);
    let t4 = t3.push((table[3].0, table[3].1));
    assert(table =~= t4);
    assert(yandex_video_searches(track) =~= wanted(t4));
}

/// The links to TheAudioDB: for the artist, the track and the album, as far as they
/// are known. Exactly those, in this order.
pub proof fn lemma_theaudiodb(
    track: Track,
)
    ensures
        theaudiodb_searches(track) == wanted(
            seq![
                (
                    has_artist(track),
                    Link {
                        label: "TheAudioDB artist search"@,
                        url: query_address_1(
                            "https://www.theaudiodb.com/api/v1/json/2/search.php"@,
                            "s"@,
                            track.artists[0],
                        ),
                    },
                ),
                (
                    has_artist(track) && !blank(track.title),
                    Link {
                        label: "TheAudioDB track search"@,
                        url: query_address(
                            "https://www.theaudiodb.com/api/v1/json/2/searchtrack.php"@,
                            seq![("s"@, track.artists[0]), ("t"@, track.title)],
                        ),
                    },
                ),
                (
                    has_artist(track) && has_album(track),
                    Link {
                        label: "TheAudioDB album search"@,
                        url: query_address(
                            "https://www.theaudiodb.com/api/v1/json/2/searchalbum.php"@,
                            seq![("s"@, track.artists[0]), ("a"@, track.albums[0])],
                        ),
                    },
                ),
            ],
        ),
{
    let table = seq![
        (
            has_artist(track),
            Link {
                label: "TheAudioDB artist search"@,
                url: query_address_1(
                    "https://www.theaudiodb.com/api/v1/json/2/search.php"@,
                    "s"@,
                    track.artists[0],
                ),
            },
        ),
        (
            has_artist(track) && !blank(track.title),
            Link {
                label: "TheAudioDB track search"@,
                url: query_address(
                    "https://www.theaudiodb.com/api/v1/json/2/searchtrack.php"@,
                    seq![("s"@, track.artists[0]), ("t"@, track.title)],
                ),
            },
        ),
        (
            has_artist(track) && has_album(track),
            Link {
                label: "TheAudioDB album search"@,
                url: query_address(
                    "https://www.theaudiodb.com/api/v1/json/2/searchalbum.php"@,
                    seq![("s"@, track.artists[0]), ("a"@, track.albums[0])],
                ),
            },
        ),
    ];
    let none = Seq::<(bool, Link)>::empty();
    lemma_wanted_push(none, table[0].0, table[0].1);
    let t1 = none.push((table[0].0, table[0].1));
    lemma_wanted_push(t1, table[1].0, table[1].1);
    let t2 = t1.push((table[1].0, table[1].1));
    lemma_wanted_push(t2, table[2].0, table[2].1);
    let t3 = t2.push((table[2].0, table[2].1));
    assert(table =~= t3);
    assert(theaudiodb_searches(track) =~= wanted(t3));
}

/// The searches at MusicBrainz for the artist and the album, as far as they are known. Exactly
/// those, in this order.
pub proof fn lemma_entity_searches(
    track: Track,
)
    ensures
        musicbrainz_entity_searches(track) == wanted(
            seq![
                (
                    has_artist(track),
                    Link {
                        label: "MusicBrainz artist search"@,
                        url: query_address(
                            "https://musicbrainz.org/search"@,
                            seq![("query"@, track.artists[0]), ("type"@, "artist"@), ("method"@,
                                "indexed"@)],
                        ),
                    },
                ),
                (
                    has_artist(track) && has_album(track),
                    Link {
                        label: "MusicBrainz album search"@,
                        url: query_address(
                            "https://musicbrainz.org/search"@,
                            seq![("query"@, track.artists[0] + seq![' '] + track.albums[0]),
                                ("type"@, "release_group"@), ("method"@, "indexed"@)],
                        ),
                    },
                ),
            ],
        ),
{
    let table = seq![
        (
            has_artist(track),
            Link {
                label: "MusicBrainz artist search"@,
                url: query_address(
                    "https://musicbrainz.org/search"@,
                    seq![("query"@, track.artists[0]), ("type"@, "artist"@), ("method"@,
                        "indexed"@)],
                ),
            },
        ),
        (
            has_artist(track) && has_album(track),
            Link {
                label: "MusicBrainz album search"@,
                url: query_address(
                    "https://musicbrainz.org/search"@,
                    seq![("query"@, track.artists[0] + seq![' '] + track.albums[0]), ("type"@,
                        "release_group"@), ("method"@, "indexed"@)],
                ),
            },
        ),
    ];
    let none = Seq::<(bool, Link)>::empty();
    lemma_wanted_push(none, table[0].0, table[0].1);
    let t1 = none.push((table[0].0, table[0].1));
    lemma_wanted_push(t1, table[1].0, table[1].1);
    let t2 = t1.push((table[1].0, table[1].1));
    assert(table =~= t2);
    assert(musicbrainz_entity_searches(track) =~= wanted(t2));
}

/// What Wikidata and Wikipedia are searched for to find the track.
pub open spec fn wiki_phrase(track: Track) -> Seq<char> {
    if has_artist(track) {
        track.artists[0] + seq![' '] + track.title
    } else {
        track.title
    }
}

/// What they are searched for to find the album.
pub open spec fn wiki_album(track: Track) -> Seq<char> {
    if track.artists.len() > 0 {
        track.artists[0] + seq![' '] + track.albums[0]
    } else {
        track.albums[0]
    }
}

/// The links to Wikidata and Wikipedia: for the track, the artist and the album, as far
/// as they are known. Exactly those, in this order.
pub proof fn lemma_wikimedia(
    track: Track,
    on: Set<ExternalLinkService>,
    off: Set<ExternalLinkService>,
)
    ensures
        wikimedia_searches(track, on, off) == wanted(
            seq![
                (
                    enabled(ExternalLinkService::Wikidata, on, off) && !blank(wiki_phrase(track)),
                    Link {
                        label: "Wikidata track search"@,
                        url: query_address_1(
                            "https://www.wikidata.org/w/index.php"@,
                            "search"@,
                            wiki_phrase(track),
                        ),
                    },
                ),
                (
                    enabled(ExternalLinkService::Wikipedia, on, off) && !blank(wiki_phrase(track)),
                    Link {
                        label: "Wikipedia track search"@,
                        url: query_address_1(
                            "https://en.wikipedia.org/w/index.php"@,
                            "search"@,
                            wiki_phrase(track),
                        ),
                    },
                ),
                (
                    enabled(ExternalLinkService::Wikidata, on, off) && has_artist(track),
                    Link {
                        label: "Wikidata artist search"@,
                        url: query_address_1(
                            "https://www.wikidata.org/w/index.php"@,
                            "search"@,
                            track.artists[0],
                        ),
                    },
                ),
                (
                    enabled(ExternalLinkService::Wikipedia, on, off) && has_artist(track),
                    Link {
                        label: "Wikipedia artist search"@,
                        url: query_address_1(
                            "https://en.wikipedia.org/w/index.php"@,
                            "search"@,
                            track.artists[0],
                        ),
                    },
                ),
                (
                    enabled(ExternalLinkService::Wikidata, on, off) && has_album(track),
                    Link {
                        label: "Wikidata album search"@,
                        url: query_address_1(
                            "https://www.wikidata.org/w/index.php"@,
                            "search"@,
                            wiki_album(track),
                        ),
                    },
                ),
                (
                    enabled(ExternalLinkService::Wikipedia, on, off) && has_album(track),
                    Link {
                        label: "Wikipedia album search"@,
                        url: query_address_1(
                            "https://en.wikipedia.org/w/index.php"@,
                            "search"@,
                            wiki_album(track),
                        ),
                    },
                ),
            ],
        ),
{
    let table = seq![
        (
            enabled(ExternalLinkService::Wikidata, on, off) && !blank(wiki_phrase(track)),
            Link {
                label: "Wikidata track search"@,
                url: query_address_1(
                    "https://www.wikidata.org/w/index.php"@,
                    "search"@,
                    wiki_phrase(track),
                ),
            },
        ),
        (
            enabled(ExternalLinkService::Wikipedia, on, off) && !blank(wiki_phrase(track)),
            Link {
                label: "Wikipedia track search"@,
                url: query_address_1(
                    "https://en.wikipedia.org/w/index.php"@,
                    "search"@,
                    wiki_phrase(track),
                ),
            },
        ),
        (
            enabled(ExternalLinkService::Wikidata, on, off) && has_artist(track),
            Link {
                label: "Wikidata artist search"@,
                url: query_address_1(
                    "https://www.wikidata.org/w/index.php"@,
                    "search"@,
                    track.artists[0],
                ),
            },
        ),
        (
            enabled(ExternalLinkService::Wikipedia, on, off) && has_artist(track),
            Link {
                label: "Wikipedia artist search"@,
                url: query_address_1(
                    "https://en.wikipedia.org/w/index.php"@,
                    "search"@,
                    track.artists[0],
                ),
            },
        ),
        (
            enabled(ExternalLinkService::Wikidata, on, off) && has_album(track),
            Link {
                label: "Wikidata album search"@,
                url: query_address_1(
                    "https://www.wikidata.org/w/index.php"@,
                    "search"@,
                    wiki_album(track),
                ),
            },
        ),
        (
            enabled(ExternalLinkService::Wikipedia, on, off) && has_album(track),
            Link {
                label: "Wikipedia album search"@,
                url: query_address_1(
                    "https://en.wikipedia.org/w/index.php"@,
                    "search"@,
                    wiki_album(track),
                ),
            },
        ),
    ];
    let none = Seq::<(bool, Link)>::empty();
    lemma_wanted_push(none, table[0].0, table[0].1);
    let t1 = none.push((table[0].0, table[0].1));
    lemma_wanted_push(t1, table[1].0, table[1].1);
    let t2 = t1.push((table[1].0, table[1].1));
    lemma_wanted_push(t2, table[2].0, table[2].1);
    let t3 = t2.push((table[2].0, table[2].1));
    lemma_wanted_push(t3, table[3].0, table[3].1);
    let t4 = t3.push((table[3].0, table[3].1));
    lemma_wanted_push(t4, table[4].0, table[4].1);
    let t5 = t4.push((table[4].0, table[4].1));
    lemma_wanted_push(t5, table[5].0, table[5].1);
    let t6 = t5.push((table[5].0, table[5].1));
    assert(table =~= t6);
    assert(wikimedia_searches(track, on, off) =~= wanted(t6));
}

/// The links that follow from a recording that was recognised: for each of the recording,
/// its first artist with an id and its first release group with one, at each service
/// that knows such and may be used. Exactly those, in this order.
pub proof fn lemma_recording_links(
    recording: Recording,
    on: Set<ExternalLinkService>,
    off: Set<ExternalLinkService>,
)
    ensures
        recording_links(recording, on, off) == wanted(
            seq![
                (
                    !blank(recording.id) && enabled(ExternalLinkService::MusicBrainz, on, off),
                    Link {
                        label: "MusicBrainz recording"@,
                        url: "https://musicbrainz.org/recording/"@ + recording.id,
                    },
                ),
                (
                    !blank(recording.id) && enabled(ExternalLinkService::ListenBrainz, on, off),
                    Link {
                        label: "ListenBrainz recording metadata"@,
                        url: query_address(
                            "https://api.listenbrainz.org/1/metadata/recording/"@,
                            seq![("recording_mbids"@, recording.id), ("inc"@, "artist release"@)],
                        ),
                    },
                ),
                (
                    !blank(recording.id) && enabled(ExternalLinkService::TheAudioDb, on, off),
                    Link {
                        label: "TheAudioDB track MBID lookup"@,
                        url: query_address_1(
                            "https://www.theaudiodb.com/api/v1/json/2/track-mb.php"@,
                            "i"@,
                            recording.id,
                        ),
                    },
                ),
                (
                    first_id(recording.artists) is Some && enabled(ExternalLinkService::MusicBrainz,
                        on, off),
                    Link {
                        label: "MusicBrainz artist"@,
                        url: "https://musicbrainz.org/artist/"@ + first_id(recording.artists)->0,
                    },
                ),
                (
                    first_id(recording.artists) is Some && enabled(ExternalLinkService::TheAudioDb,
                        on, off),
                    Link {
                        label: "TheAudioDB artist MBID lookup"@,
                        url: query_address_1(
                            "https://www.theaudiodb.com/api/v1/json/2/artist-mb.php"@,
                            "i"@,
                            first_id(recording.artists)->0,
                        ),
                    },
                ),
                (
                    first_id(recording.releasegroups) is Some
                        && enabled(ExternalLinkService::MusicBrainz, on, off),
                    Link {
                        label: "MusicBrainz album"@,
                        url: "https://musicbrainz.org/release-group/"@
                            + first_id(recording.releasegroups)->0,
                    },
                ),
                (
                    first_id(recording.releasegroups) is Some
                        && enabled(ExternalLinkService::TheAudioDb, on, off),
                    Link {
                        label: "TheAudioDB album MBID lookup"@,
                        url: query_address_1(
                            "https://www.theaudiodb.com/api/v1/json/2/album-mb.php"@,
                            "i"@,
                            first_id(recording.releasegroups)->0,
                        ),
                    },
                ),
            ],
        ),
{
    let table = seq![
        (
            !blank(recording.id) && enabled(ExternalLinkService::MusicBrainz, on, off),
            Link {
                label: "MusicBrainz recording"@,
                url: "https://musicbrainz.org/recording/"@ + recording.id,
            },
        ),
        (
            !blank(recording.id) && enabled(ExternalLinkService::ListenBrainz, on, off),
            Link {
                label: "ListenBrainz recording metadata"@,
                url: query_address(
                    "https://api.listenbrainz.org/1/metadata/recording/"@,
                    seq![("recording_mbids"@, recording.id), ("inc"@, "artist release"@)],
                ),
            },
        ),
        (
            !blank(recording.id) && enabled(ExternalLinkService::TheAudioDb, on, off),
            Link {
                label: "TheAudioDB track MBID lookup"@,
                url: query_address_1(
                    "https://www.theaudiodb.com/api/v1/json/2/track-mb.php"@,
                    "i"@,
                    recording.id,
                ),
            },
        ),
        (
            first_id(recording.artists) is Some && enabled(ExternalLinkService::MusicBrainz, on,
                off),
            Link {
                label: "MusicBrainz artist"@,
                url: "https://musicbrainz.org/artist/"@ + first_id(recording.artists)->0,
            },
        ),
        (
            first_id(recording.artists) is Some && enabled(ExternalLinkService::TheAudioDb, on,
                off),
            Link {
                label: "TheAudioDB artist MBID lookup"@,
                url: query_address_1(
                    "https://www.theaudiodb.com/api/v1/json/2/artist-mb.php"@,
                    "i"@,
                    first_id(recording.artists)->0,
                ),
            },
        ),
        (
            first_id(recording.releasegroups) is Some && enabled(ExternalLinkService::MusicBrainz,
                on, off),
            Link {
                label: "MusicBrainz album"@,
                url: "https://musicbrainz.org/release-group/"@
                    + first_id(recording.releasegroups)->0,
            },
        ),
        (
            first_id(recording.releasegroups) is Some && enabled(ExternalLinkService::TheAudioDb,
                on, off),
            Link {
                label: "TheAudioDB album MBID lookup"@,
                url: query_address_1(
                    "https://www.theaudiodb.com/api/v1/json/2/album-mb.php"@,
                    "i"@,
                    first_id(recording.releasegroups)->0,
                ),
            },
        ),
    ];
    let none = Seq::<(bool, Link)>::empty();
    lemma_wanted_push(none, table[0].0, table[0].1);
    let t1 = none.push((table[0].0, table[0].1));
    lemma_wanted_push(t1, table[1].0, table[1].1);
    let t2 = t1.push((table[1].0, table[1].1));
    lemma_wanted_push(t2, table[2].0, table[2].1);
    let t3 = t2.push((table[2].0, table[2].1));
    lemma_wanted_push(t3, table[3].0, table[3].1);
    let t4 = t3.push((table[3].0, table[3].1));
    lemma_wanted_push(t4, table[4].0, table[4].1);
    let t5 = t4.push((table[4].0, table[4].1));
    lemma_wanted_push(t5, table[5].0, table[5].1);
    let t6 = t5.push((table[5].0, table[5].1));
    lemma_wanted_push(t6, table[6].0, table[6].1);
    let t7 = t6.push((table[6].0, table[6].1));
    assert(table =~= t7);
    assert(recording_links(recording, on, off) =~= wanted(t7));
}

/// The links of enabled services are those wanted of a table.
proof fn lemma_enabled_links(
    searches: Seq<(ExternalLinkService, Link)>,
    on: Set<ExternalLinkService>,
    off: Set<ExternalLinkService>,
)
    ensures
        enabled_links(searches, on, off) == wanted(
            searches.map_values(|s: (ExternalLinkService, Link)| (enabled(s.0, on, off), s.1)),
        ),
    decreases searches.len(),
{
    let f = |s: (ExternalLinkService, Link)| (enabled(s.0, on, off), s.1);
    if searches.len() == 0 {
        assert(searches.map_values(f) =~= Seq::empty());
    } else {
        let front = searches.drop_last();
        let last = searches.last();
        lemma_enabled_links(front, on, off);
        lemma_wanted_push(front.map_values(f), enabled(last.0, on, off), last.1);
        assert(searches.map_values(f) =~= front.map_values(f).push(f(last)));
    }
}

/// If there is anything to search for, a track gets a link to each of these catalogs and
/// search engines that may be used, in this order, and after them those to TheAudioDB
/// and to Yandex Video if these may be used. If there is nothing to search for it gets
/// none.
pub proof fn lemma_related(
    track: Track,
    on: Set<ExternalLinkService>,
    off: Set<ExternalLinkService>,
)
    ensures
        human_phrase(track).len() == 0 ==> related_searches(track, on, off)
            == Seq::<Link>::empty(),
        human_phrase(track).len() > 0 ==> ({
            let query = human_phrase(track);
            related_searches(track, on, off) == wanted(
                seq![
                    (
                        enabled(ExternalLinkService::Spotify, on, off),
                        Link {
                            label: "Spotify search"@,
                            url: query_address_1("https://open.spotify.com/search"@, "q"@, query),
                        },
                    ),
                    (
                        enabled(ExternalLinkService::AppleMusic, on, off),
                        Link {
                            label: "Apple Music search"@,
                            url: query_address_1("https://music.apple.com/search"@, "term"@, query),
                        },
                    ),
                    (
                        enabled(ExternalLinkService::Deezer, on, off),
                        Link {
                            label: "Deezer search"@,
                            url: query_address_1("https://www.deezer.com/search"@, "q"@, query),
                        },
                    ),
                    (
                        enabled(ExternalLinkService::Bandcamp, on, off),
                        Link {
                            label: "Bandcamp search"@,
                            url: query_address_1("https://bandcamp.com/search"@, "q"@, query),
                        },
                    ),
                    (
                        enabled(ExternalLinkService::SoundCloud, on, off),
                        Link {
                            label: "SoundCloud search"@,
                            url: query_address_1("https://soundcloud.com/search"@, "q"@, query),
                        },
                    ),
                    (
                        enabled(ExternalLinkService::Discogs, on, off),
                        Link {
                            label: "Discogs search"@,
                            url: query_address_1("https://www.discogs.com/search/"@, "q"@, query),
                        },
                    ),
                    (
                        enabled(ExternalLinkService::Tidal, on, off),
                        Link {
                            label: "TIDAL search"@,
                            url: path_address("https://tidal.com/search"@, query),
                        },
                    ),
                    (
                        enabled(ExternalLinkService::Qobuz, on, off),
                        Link {
                            label: "Qobuz search"@,
                            url: path_address("https://play.qobuz.com/search"@, query),
                        },
                    ),
                    (
                        enabled(ExternalLinkService::AmazonMusic, on, off),
                        Link {
                            label: "Amazon Music search"@,
                            url: path_address("https://music.amazon.com/search"@, query),
                        },
                    ),
                    (
                        enabled(ExternalLinkService::Beatport, on, off),
                        Link {
                            label: "Beatport search"@,
                            url: query_address_1("https://www.beatport.com/search"@, "q"@, query),
                        },
                    ),
                    (
                        enabled(ExternalLinkService::WhoSampled, on, off),
                        Link {
                            label: "WhoSampled search"@,
                            url: query_address_1("https://www.whosampled.com/search/"@, "q"@,
                                query),
                        },
                    ),
                    (
                        enabled(ExternalLinkService::SecondHandSongs, on, off),
                        Link {
                            label: "SecondHandSongs search"@,
                            url: query_address_1("https://secondhandsongs.com/search"@,
                                "search_text"@, query),
                        },
                    ),
                    (
                        enabled(ExternalLinkService::AllMusic, on, off),
                        Link {
                            label: "AllMusic search"@,
                            url: path_address("https://www.allmusic.com/search/all"@, query),
                        },
                    ),
                    (
                        enabled(ExternalLinkService::ListenBrainz, on, off),
                        Link {
                            label: "ListenBrainz search"@,
                            url: query_address_1("https://listenbrainz.org/search/"@, "q"@, query),
                        },
                    ),
                    (
                        enabled(ExternalLinkService::Vk, on, off),
                        Link {
                            label: "VK Music search"@,
                            url: query_address(
                                "https://vk.com/search"@,
                                seq![("c[q]"@, query), ("c[section]"@, "audio"@)],
                            ),
                        },
                    ),
                    (
                        enabled(ExternalLinkService::Rutube, on, off),
                        Link {
                            label: "Rutube search"@,
                            url: query_address_1("https://rutube.ru/search/"@, "query"@, query),
                        },
                    ),
                    (
                        enabled(ExternalLinkService::Vimeo, on, off),
                        Link {
                            label: "Vimeo search"@,
                            url: query_address_1("https://vimeo.com/search"@, "q"@, query),
                        },
                    ),
                    (
                        enabled(ExternalLinkService::Google, on, off),
                        Link {
                            label: "Google search"@,
                            url: query_address_1("https://www.google.com/search"@, "q"@, query),
                        },
                    ),
                    (
                        enabled(ExternalLinkService::DuckDuckGo, on, off),
                        Link {
                            label: "DuckDuckGo search"@,
                            url: query_address_1("https://duckduckgo.com/"@, "q"@, query),
                        },
                    ),
                    (
                        enabled(ExternalLinkService::Bing, on, off),
                        Link {
                            label: "Bing search"@,
                            url: query_address_1("https://www.bing.com/search"@, "q"@, query),
                        },
                    ),
                    (
                        enabled(ExternalLinkService::Yandex, on, off),
                        Link {
                            label: "Yandex search"@,
                            url: query_address_1("https://yandex.ru/search/"@, "text"@, query),
                        },
                    ),
                ],
            ) + (if enabled(ExternalLinkService::TheAudioDb, on, off) {
                theaudiodb_searches(track)
            } else {
                Seq::empty()
            }) + (if enabled(ExternalLinkService::YandexVideo, on, off) {
                yandex_video_searches(track)
            } else {
                Seq::empty()
            })
        }),
{
    let query = human_phrase(track);
    let searches = phrase_searches(query);
    lemma_enabled_links(searches, on, off);
    let table = seq![
        (
            enabled(ExternalLinkService::Spotify, on, off),
            Link {
                label: "Spotify search"@,
                url: query_address_1("https://open.spotify.com/search"@, "q"@, query),
            },
        ),
        (
            enabled(ExternalLinkService::AppleMusic, on, off),
            Link {
                label: "Apple Music search"@,
                url: query_address_1("https://music.apple.com/search"@, "term"@, query),
            },
        ),
        (
            enabled(ExternalLinkService::Deezer, on, off),
            Link {
                label: "Deezer search"@,
                url: query_address_1("https://www.deezer.com/search"@, "q"@, query),
            },
        ),
        (
            enabled(ExternalLinkService::Bandcamp, on, off),
            Link {
                label: "Bandcamp search"@,
                url: query_address_1("https://bandcamp.com/search"@, "q"@, query),
            },
        ),
        (
            enabled(ExternalLinkService::SoundCloud, on, off),
            Link {
                label: "SoundCloud search"@,
                url: query_address_1("https://soundcloud.com/search"@, "q"@, query),
            },
        ),
        (
            enabled(ExternalLinkService::Discogs, on, off),
            Link {
                label: "Discogs search"@,
                url: query_address_1("https://www.discogs.com/search/"@, "q"@, query),
            },
        ),
        (
            enabled(ExternalLinkService::Tidal, on, off),
            Link {
                label: "TIDAL search"@,
                url: path_address("https://tidal.com/search"@, query),
            },
        ),
        (
            enabled(ExternalLinkService::Qobuz, on, off),
            Link {
                label: "Qobuz search"@,
                url: path_address("https://play.qobuz.com/search"@, query),
            },
        ),
        (
            enabled(ExternalLinkService::AmazonMusic, on, off),
            Link {
                label: "Amazon Music search"@,
                url: path_address("https://music.amazon.com/search"@, query),
            },
        ),
        (
            enabled(ExternalLinkService::Beatport, on, off),
            Link {
                label: "Beatport search"@,
                url: query_address_1("https://www.beatport.com/search"@, "q"@, query),
            },
        ),
        (
            enabled(ExternalLinkService::WhoSampled, on, off),
            Link {
                label: "WhoSampled search"@,
                url: query_address_1("https://www.whosampled.com/search/"@, "q"@, query),
            },
        ),
        (
            enabled(ExternalLinkService::SecondHandSongs, on, off),
            Link {
                label: "SecondHandSongs search"@,
                url: query_address_1("https://secondhandsongs.com/search"@, "search_text"@, query),
            },
        ),
        (
            enabled(ExternalLinkService::AllMusic, on, off),
            Link {
                label: "AllMusic search"@,
                url: path_address("https://www.allmusic.com/search/all"@, query),
            },
        ),
        (
            enabled(ExternalLinkService::ListenBrainz, on, off),
            Link {
                label: "ListenBrainz search"@,
                url: query_address_1("https://listenbrainz.org/search/"@, "q"@, query),
            },
        ),
        (
            enabled(ExternalLinkService::Vk, on, off),
            Link {
                label: "VK Music search"@,
                url: query_address(
                    "https://vk.com/search"@,
                    seq![("c[q]"@, query), ("c[section]"@, "audio"@)],
                ),
            },
        ),
        (
            enabled(ExternalLinkService::Rutube, on, off),
            Link {
                label: "Rutube search"@,
                url: query_address_1("https://rutube.ru/search/"@, "query"@, query),
            },
        ),
        (
            enabled(ExternalLinkService::Vimeo, on, off),
            Link {
                label: "Vimeo search"@,
                url: query_address_1("https://vimeo.com/search"@, "q"@, query),
            },
        ),
        (
            enabled(ExternalLinkService::Google, on, off),
            Link {
                label: "Google search"@,
                url: query_address_1("https://www.google.com/search"@, "q"@, query),
            },
        ),
        (
            enabled(ExternalLinkService::DuckDuckGo, on, off),
            Link {
                label: "DuckDuckGo search"@,
                url: query_address_1("https://duckduckgo.com/"@, "q"@, query),
            },
        ),
        (
            enabled(ExternalLinkService::Bing, on, off),
            Link {
                label: "Bing search"@,
                url: query_address_1("https://www.bing.com/search"@, "q"@, query),
            },
        ),
        (
            enabled(ExternalLinkService::Yandex, on, off),
            Link {
                label: "Yandex search"@,
                url: query_address_1("https://yandex.ru/search/"@, "text"@, query),
            },
        ),
    ];
    assert(searches.map_values(
        |s: (ExternalLinkService, Link)| (enabled(s.0, on, off), s.1),
    ) =~= table);
}

// ---------------------------------------------------------------------------
// Search phrases
// ---------------------------------------------------------------------------
/// The phrase that a track is searched by: its first artist, its title and its first
/// album, in this order and with spaces between them, each unless it is missing or
/// blank.
pub proof fn lemma_phrase(track: Track)
    ensures
        ({
            let (a, t, b) = (has_artist(track), !blank(track.title), has_album(track));
            let artist = track.artists[0];
            let title = track.title;
            let album = track.albums[0];
            let phrase = human_phrase(track);
            &&& a && t && b ==> phrase == artist + seq![' '] + title + seq![' '] + album
            &&& a && t && !b ==> phrase == artist + seq![' '] + title
            &&& a && !t && b ==> phrase == artist + seq![' '] + album
            &&& a && !t && !b ==> phrase == artist
            &&& !a && t && b ==> phrase == title + seq![' '] + album
            &&& !a && t && !b ==> phrase == title
            &&& !a && !t && b ==> phrase == album
            &&& !a && !t && !b ==> phrase.len() == 0
        }),
{
    let keep = |part: Seq<char>| !blank(part);
    let first = crate::enrichment::urls::first_or_empty(track.artists);
    let last = crate::enrichment::urls::first_or_empty(track.albums);
    let none = Seq::<Seq<char>>::empty();
    let sep = seq![' '];
    broadcast use Seq::lemma_filter_push;
    let all = none.push(first).push(track.title).push(last);
    assert(all =~= seq![first, track.title, last]);
    assert(blank(Seq::<char>::empty()));
    assert(none.filter(keep) =~= none) by {
        reveal(Seq::filter);
    }
    let kept = all.filter(keep);
    lemma_joined_two(first, track.title, sep);
    lemma_joined_two(first, last, sep);
    lemma_joined_two(track.title, last, sep);
    lemma_joined_three(first, track.title, last, sep);
    assert(kept == all.filter(keep));
    assert(human_phrase(track) == joined(kept, sep));
}

proof fn lemma_joined_two(a: Seq<char>, b: Seq<char>, sep: Seq<char>)
    ensures
        joined(Seq::empty().push(a).push(b), sep) == a + sep + b,
        joined(Seq::empty().push(a), sep) == a,
        joined(Seq::empty().push(b), sep) == b,
        joined(Seq::<Seq<char>>::empty(), sep).len() == 0,
{
    let both = Seq::empty().push(a).push(b);
    assert(both.drop_last() =~= Seq::empty().push(a));
    assert(joined(Seq::empty().push(a), sep) == a);
    assert(both.len() == 2 && both.last() == b);
    assert(joined(both, sep) == joined(both.drop_last(), sep) + sep + b);
}

proof fn lemma_joined_three(a: Seq<char>, b: Seq<char>, c: Seq<char>, sep: Seq<char>)
    ensures
        joined(Seq::empty().push(a).push(b).push(c), sep) == a + sep + b + sep + c,
{
    let all = Seq::empty().push(a).push(b).push(c);
    lemma_joined_two(a, b, sep);
    assert(all.drop_last() =~= Seq::empty().push(a).push(b));
}

} // verus!
