//! The links that need nothing but what is known of the track.
use vstd::prelude::*;

use crate::enrichment::services::{
    enabled, external_link_service_enabled, ExternalLinkService, ServiceSet,
};
use crate::enrichment::urls::{
    allmusic_search_url, amazon_music_search_url, apple_music_search_url, bandcamp_search_url,
    beatport_search_url, bing_search_url, deezer_search_url, discogs_search_url,
    duckduckgo_search_url, first_named, first_named_str, google_search_url, human_phrase,
    human_query, lastfm_album_search_url, lastfm_artist_search_url, lastfm_track_search_url,
    listenbrainz_search_url, musicbrainz_album_search_url, musicbrainz_artist_search_url,
    path_address, qobuz_search_url, query_address, query_address_1, rutracker_search_url,
    rutube_search_url, secondhandsongs_search_url, soundcloud_search_url, spaced,
    spotify_search_url, theaudiodb_album_search_url, theaudiodb_artist_search_url,
    theaudiodb_track_search_url, tidal_search_url, vimeo_search_url, vk_music_search_url,
    whosampled_search_url, wikidata_search_url, wikipedia_search_url, with_space,
    yandex_search_url, yandex_video_search_url, youtube_music_search_url, youtube_search_url,
};
use crate::text::{blank, is_blank};
use crate::yandex::{LikedTrack, Track};

verus! {

/// A link from a note to a page about its track.
#[derive(Debug, Clone, PartialEq, Eq)]
pub struct ExternalLink {
    pub label: String,
    pub url: String,
}

/// What an [`ExternalLink`] says.
pub struct Link {
    pub label: Seq<char>,
    pub url: Seq<char>,
}

impl View for ExternalLink {
    type V = Link;

    open spec fn view(&self) -> Link {
        Link { label: self.label@, url: self.url@ }
    }
}

/// The link with this label and address.
pub open spec fn link(label: Seq<char>, url: Seq<char>) -> Link {
    Link { label, url }
}

/// What a list of links says.
pub open spec fn link_views(links: Seq<ExternalLink>) -> Seq<Link> {
    links.map_values(|l: ExternalLink| l@)
}

/// The link, if it is wanted.
pub open spec fn link_if(wanted: bool, link: Link) -> Seq<Link> {
    if wanted {
        seq![link]
    } else {
        Seq::empty()
    }
}

impl ExternalLink {
    /// The link with this label and address.
    pub fn new(label: &str, url: String) -> (res: Self)
        ensures
            res@ == link(label@, url@),
    {
        ExternalLink { label: label.to_owned(), url }
    }
}

/// Adds a link to `links`, if it is wanted.
pub(crate) fn push_if(links: &mut Vec<ExternalLink>, wanted: bool, label: &str, url: String)
    ensures
        link_views(final(links)@) == link_views(old(links)@) + link_if(wanted, link(label@, url@)),
{
    if wanted {
        links.push(ExternalLink::new(label, url));
    }
    assert(link_views(links@) =~= link_views(old(links)@) + link_if(wanted, link(label@, url@)));
}

/// Moves the links of `more` to the end of `links`.
pub(crate) fn extend_links(links: &mut Vec<ExternalLink>, more: Vec<ExternalLink>)
    ensures
        link_views(final(links)@) == link_views(old(links)@) + link_views(more@),
{
    let mut more = more;
    let ghost all = more@;
    links.append(&mut more);
    assert(link_views(links@) =~= link_views(old(links)@) + link_views(all));
}

// ---------------------------------------------------------------------------
// Searches by the whole phrase
// ---------------------------------------------------------------------------
/// The searches at YouTube.
pub open spec fn youtube_searches(
    track: Track,
    on: Set<ExternalLinkService>,
    off: Set<ExternalLinkService>,
) -> Seq<Link> {
    let query = human_phrase(track);
    if query.len() == 0 {
        Seq::empty()
    } else {
        link_if(
            enabled(ExternalLinkService::YouTubeMusic, on, off),
            link(
                "YouTube Music search"@,
                query_address_1("https://music.youtube.com/search"@, "q"@, query),
            ),
        ) + link_if(
            enabled(ExternalLinkService::YouTube, on, off),
            link(
                "YouTube search"@,
                query_address_1("https://www.youtube.com/results"@, "search_query"@, query),
            ),
        )
    }
}

/// The searches at YouTube; none if nothing is known to search for.
pub fn youtube_links(
    track: &LikedTrack,
    enabled_services: &ServiceSet,
    disabled_services: &ServiceSet,
) -> (res: Vec<ExternalLink>)
    ensures
        link_views(res@) == youtube_searches(track@, enabled_services@, disabled_services@),
{
    let query = human_query(track);
    let mut links: Vec<ExternalLink> = Vec::new();
    if !query.as_str().is_empty() {
        let music = external_link_service_enabled(
            ExternalLinkService::YouTubeMusic,
            enabled_services,
            disabled_services,
        );
        let video = external_link_service_enabled(
            ExternalLinkService::YouTube,
            enabled_services,
            disabled_services,
        );
        push_if(
            &mut links,
            music,
            "YouTube Music search",
            youtube_music_search_url(query.as_str()),
        );
        push_if(&mut links, video, "YouTube search", youtube_search_url(track));
    }
    assert(link_views(links@) =~= youtube_searches(
        track@,
        enabled_services@,
        disabled_services@,
    ));
    links
}

/// The services that are searched for the whole phrase, in the order of the
/// links, each with its link.
pub open spec fn phrase_searches(query: Seq<char>) -> Seq<(ExternalLinkService, Link)> {
    seq![
        (
            ExternalLinkService::Spotify,
            link(
                "Spotify search"@,
                query_address_1("https://open.spotify.com/search"@, "q"@, query),
            ),
        ),
        (
            ExternalLinkService::AppleMusic,
            link(
                "Apple Music search"@,
                query_address_1("https://music.apple.com/search"@, "term"@, query),
            ),
        ),
        (
            ExternalLinkService::Deezer,
            link("Deezer search"@, query_address_1("https://www.deezer.com/search"@, "q"@, query)),
        ),
        (
            ExternalLinkService::Bandcamp,
            link("Bandcamp search"@, query_address_1("https://bandcamp.com/search"@, "q"@, query)),
        ),
        (
            ExternalLinkService::SoundCloud,
            link(
                "SoundCloud search"@,
                query_address_1("https://soundcloud.com/search"@, "q"@, query),
            ),
        ),
        (
            ExternalLinkService::Discogs,
            link(
                "Discogs search"@,
                query_address_1("https://www.discogs.com/search/"@, "q"@, query),
            ),
        ),
        (
            ExternalLinkService::Tidal,
            link("TIDAL search"@, path_address("https://tidal.com/search"@, query)),
        ),
        (
            ExternalLinkService::Qobuz,
            link("Qobuz search"@, path_address("https://play.qobuz.com/search"@, query)),
        ),
        (
            ExternalLinkService::AmazonMusic,
            link("Amazon Music search"@, path_address("https://music.amazon.com/search"@, query)),
        ),
        (
            ExternalLinkService::Beatport,
            link(
                "Beatport search"@,
                query_address_1("https://www.beatport.com/search"@, "q"@, query),
            ),
        ),
        (
            ExternalLinkService::WhoSampled,
            link(
                "WhoSampled search"@,
                query_address_1("https://www.whosampled.com/search/"@, "q"@, query),
            ),
        ),
        (
            ExternalLinkService::SecondHandSongs,
            link(
                "SecondHandSongs search"@,
                query_address_1("https://secondhandsongs.com/search"@, "search_text"@, query),
            ),
        ),
        (
            ExternalLinkService::AllMusic,
            link("AllMusic search"@, path_address("https://www.allmusic.com/search/all"@, query)),
        ),
        (
            ExternalLinkService::ListenBrainz,
            link(
                "ListenBrainz search"@,
                query_address_1("https://listenbrainz.org/search/"@, "q"@, query),
            ),
        ),
        (
            ExternalLinkService::Vk,
            link(
                "VK Music search"@,
                query_address(
                    "https://vk.com/search"@,
                    seq![("c[q]"@, query), ("c[section]"@, "audio"@)],
                ),
            ),
        ),
        (
            ExternalLinkService::Rutube,
            link("Rutube search"@, query_address_1("https://rutube.ru/search/"@, "query"@, query)),
        ),
        (
            ExternalLinkService::Vimeo,
            link("Vimeo search"@, query_address_1("https://vimeo.com/search"@, "q"@, query)),
        ),
        (
            ExternalLinkService::Google,
            link("Google search"@, query_address_1("https://www.google.com/search"@, "q"@, query)),
        ),
        (
            ExternalLinkService::DuckDuckGo,
            link("DuckDuckGo search"@, query_address_1("https://duckduckgo.com/"@, "q"@, query)),
        ),
        (
            ExternalLinkService::Bing,
            link("Bing search"@, query_address_1("https://www.bing.com/search"@, "q"@, query)),
        ),
        (
            ExternalLinkService::Yandex,
            link("Yandex search"@, query_address_1("https://yandex.ru/search/"@, "text"@, query)),
        ),
    ]
}

/// The links of those services that are enabled, in their order.
pub open spec fn enabled_links(
    searches: Seq<(ExternalLinkService, Link)>,
    on: Set<ExternalLinkService>,
    off: Set<ExternalLinkService>,
) -> Seq<Link>
    decreases searches.len(),
{
    if searches.len() == 0 {
        Seq::empty()
    } else {
        enabled_links(searches.drop_last(), on, off) + link_if(
            enabled(searches.last().0, on, off),
            searches.last().1,
        )
    }
}

/// The links of the services that are searched for the whole phrase, and the
/// typed searches at TheAudioDB and Yandex Video.
pub open spec fn related_searches(
    track: Track,
    on: Set<ExternalLinkService>,
    off: Set<ExternalLinkService>,
) -> Seq<Link> {
    if human_phrase(track).len() == 0 {
        Seq::empty()
    } else {
        enabled_links(phrase_searches(human_phrase(track)), on, off) + (if enabled(
            ExternalLinkService::TheAudioDb,
            on,
            off,
        ) {
            theaudiodb_searches(track)
        } else {
            Seq::empty()
        }) + (if enabled(ExternalLinkService::YandexVideo, on, off) {
            yandex_video_searches(track)
        } else {
            Seq::empty()
        })
    }
}

/// Adds the link of the next service in `searches`, if it is enabled.
fn push_search(
    links: &mut Vec<ExternalLink>,
    Ghost(searches): Ghost<Seq<(ExternalLinkService, Link)>>,
    Ghost(n): Ghost<int>,
    service: ExternalLinkService,
    label: &str,
    url: String,
    enabled_services: &ServiceSet,
    disabled_services: &ServiceSet,
)
    requires
        0 <= n < searches.len(),
        searches[n] == (service, link(label@, url@)),
        link_views(old(links)@) == enabled_links(
            searches.take(n),
            enabled_services@,
            disabled_services@,
        ),
    ensures
        link_views(final(links)@) == enabled_links(
            searches.take(n + 1),
            enabled_services@,
            disabled_services@,
        ),
{
    assert(searches.take(n + 1).drop_last() =~= searches.take(n));
    let wanted = external_link_service_enabled(service, enabled_services, disabled_services);
    push_if(links, wanted, label, url);
}

/// The searches at other catalogs and search engines that need no access token;
/// none if nothing is known to search for.
pub fn related_music_service_links(
    track: &LikedTrack,
    enabled_services: &ServiceSet,
    disabled_services: &ServiceSet,
) -> (res: Vec<ExternalLink>)
    ensures
        link_views(res@) == related_searches(track@, enabled_services@, disabled_services@),
{
    let query = human_query(track);
    let mut links: Vec<ExternalLink> = Vec::new();
    if query.as_str().is_empty() {
        assert(link_views(links@) =~= Seq::empty());
        return links;
    }
    let ghost all = phrase_searches(query@);
    assert(link_views(links@) =~= enabled_links(
        all.take(0),
        enabled_services@,
        disabled_services@,
    ));
    push_search(
        &mut links,
        Ghost(all),
        Ghost(0),
        ExternalLinkService::Spotify,
        "Spotify search",
        spotify_search_url(query.as_str()),
        enabled_services,
        disabled_services,
    );
    push_search(
        &mut links,
        Ghost(all),
        Ghost(1),
        ExternalLinkService::AppleMusic,
        "Apple Music search",
        apple_music_search_url(query.as_str()),
        enabled_services,
        disabled_services,
    );
    push_search(
        &mut links,
        Ghost(all),
        Ghost(2),
        ExternalLinkService::Deezer,
        "Deezer search",
        deezer_search_url(query.as_str()),
        enabled_services,
        disabled_services,
    );
    push_search(
        &mut links,
        Ghost(all),
        Ghost(3),
        ExternalLinkService::Bandcamp,
        "Bandcamp search",
        bandcamp_search_url(query.as_str()),
        enabled_services,
        disabled_services,
    );
    push_search(
        &mut links,
        Ghost(all),
        Ghost(4),
        ExternalLinkService::SoundCloud,
        "SoundCloud search",
        soundcloud_search_url(query.as_str()),
        enabled_services,
        disabled_services,
    );
    push_search(
        &mut links,
        Ghost(all),
        Ghost(5),
        ExternalLinkService::Discogs,
        "Discogs search",
        discogs_search_url(query.as_str()),
        enabled_services,
        disabled_services,
    );
    push_search(
        &mut links,
        Ghost(all),
        Ghost(6),
        ExternalLinkService::Tidal,
        "TIDAL search",
        tidal_search_url(query.as_str()),
        enabled_services,
        disabled_services,
    );
    push_search(
        &mut links,
        Ghost(all),
        Ghost(7),
        ExternalLinkService::Qobuz,
        "Qobuz search",
        qobuz_search_url(query.as_str()),
        enabled_services,
        disabled_services,
    );
    push_search(
        &mut links,
        Ghost(all),
        Ghost(8),
        ExternalLinkService::AmazonMusic,
        "Amazon Music search",
        amazon_music_search_url(query.as_str()),
        enabled_services,
        disabled_services,
    );
    push_search(
        &mut links,
        Ghost(all),
        Ghost(9),
        ExternalLinkService::Beatport,
        "Beatport search",
        beatport_search_url(query.as_str()),
        enabled_services,
        disabled_services,
    );
    push_search(
        &mut links,
        Ghost(all),
        Ghost(10),
        ExternalLinkService::WhoSampled,
        "WhoSampled search",
        whosampled_search_url(query.as_str()),
        enabled_services,
        disabled_services,
    );
    push_search(
        &mut links,
        Ghost(all),
        Ghost(11),
        ExternalLinkService::SecondHandSongs,
        "SecondHandSongs search",
        secondhandsongs_search_url(query.as_str()),
        enabled_services,
        disabled_services,
    );
    push_search(
        &mut links,
        Ghost(all),
        Ghost(12),
        ExternalLinkService::AllMusic,
        "AllMusic search",
        allmusic_search_url(query.as_str()),
        enabled_services,
        disabled_services,
    );
    push_search(
        &mut links,
        Ghost(all),
        Ghost(13),
        ExternalLinkService::ListenBrainz,
        "ListenBrainz search",
        listenbrainz_search_url(query.as_str()),
        enabled_services,
        disabled_services,
    );
    push_search(
        &mut links,
        Ghost(all),
        Ghost(14),
        ExternalLinkService::Vk,
        "VK Music search",
        vk_music_search_url(query.as_str()),
        enabled_services,
        disabled_services,
    );
    push_search(
        &mut links,
        Ghost(all),
        Ghost(15),
        ExternalLinkService::Rutube,
        "Rutube search",
        rutube_search_url(query.as_str()),
        enabled_services,
        disabled_services,
    );
    push_search(
        &mut links,
        Ghost(all),
        Ghost(16),
        ExternalLinkService::Vimeo,
        "Vimeo search",
        vimeo_search_url(query.as_str()),
        enabled_services,
        disabled_services,
    );
    push_search(
        &mut links,
        Ghost(all),
        Ghost(17),
        ExternalLinkService::Google,
        "Google search",
        google_search_url(query.as_str()),
        enabled_services,
        disabled_services,
    );
    push_search(
        &mut links,
        Ghost(all),
        Ghost(18),
        ExternalLinkService::DuckDuckGo,
        "DuckDuckGo search",
        duckduckgo_search_url(query.as_str()),
        enabled_services,
        disabled_services,
    );
    push_search(
        &mut links,
        Ghost(all),
        Ghost(19),
        ExternalLinkService::Bing,
        "Bing search",
        bing_search_url(query.as_str()),
        enabled_services,
        disabled_services,
    );
    push_search(
        &mut links,
        Ghost(all),
        Ghost(20),
        ExternalLinkService::Yandex,
        "Yandex search",
        yandex_search_url(query.as_str()),
        enabled_services,
        disabled_services,
    );
    assert(all.take(21) =~= all);
    if external_link_service_enabled(
        ExternalLinkService::TheAudioDb,
        enabled_services,
        disabled_services,
    ) {
        extend_links(&mut links, theaudiodb_search_links(track));
    }
    if external_link_service_enabled(
        ExternalLinkService::YandexVideo,
        enabled_services,
        disabled_services,
    ) {
        extend_links(&mut links, yandex_video_links(track));
    }
    assert(link_views(links@) =~= related_searches(
        track@,
        enabled_services@,
        disabled_services@,
    ));
    links
}

// ---------------------------------------------------------------------------
// Typed searches
// ---------------------------------------------------------------------------
/// The searches at TheAudioDB: for the artist, and for the title and the album
/// if they are not blank; none if there is no artist.
pub open spec fn theaudiodb_searches(track: Track) -> Seq<Link> {
    match first_named(track.artists) {
        None => Seq::empty(),
        Some(artist) => seq![
            link(
                "TheAudioDB artist search"@,
                query_address_1(
                    "https://www.theaudiodb.com/api/v1/json/2/search.php"@,
                    "s"@,
                    artist,
                ),
            ),
        ] + link_if(
            !blank(track.title),
            link(
                "TheAudioDB track search"@,
                query_address(
                    "https://www.theaudiodb.com/api/v1/json/2/searchtrack.php"@,
                    seq![("s"@, artist), ("t"@, track.title)],
                ),
            ),
        ) + (match first_named(track.albums) {
            None => Seq::empty(),
            Some(album) => seq![
                link(
                    "TheAudioDB album search"@,
                    query_address(
                        "https://www.theaudiodb.com/api/v1/json/2/searchalbum.php"@,
                        seq![("s"@, artist), ("a"@, album)],
                    ),
                ),
            ],
        }),
    }
}

/// The searches at TheAudioDB. They go to its documented endpoints, since its
/// search pages are not stable.
pub fn theaudiodb_search_links(track: &LikedTrack) -> (res: Vec<ExternalLink>)
    ensures
        link_views(res@) == theaudiodb_searches(track@),
{
    let mut links: Vec<ExternalLink> = Vec::new();
    if let Some(artist) = first_named_str(&track.artists) {
        push_if(
            &mut links,
            true,
            "TheAudioDB artist search",
            theaudiodb_artist_search_url(artist),
        );
        push_if(
            &mut links,
            !is_blank(track.title.as_str()),
            "TheAudioDB track search",
            theaudiodb_track_search_url(artist, track.title.as_str()),
        );
        if let Some(album) = first_named_str(&track.albums) {
            push_if(
                &mut links,
                true,
                "TheAudioDB album search",
                theaudiodb_album_search_url(artist, album),
            );
        }
    }
    assert(link_views(links@) =~= theaudiodb_searches(track@));
    links
}

/// The searches at Last.fm, which has separate pages for artists, tracks and
/// albums.
pub open spec fn lastfm_searches(track: Track) -> Seq<Link> {
    match first_named(track.artists) {
        None => seq![
            link(
                "Last.fm track search"@,
                query_address_1("https://www.last.fm/search/tracks"@, "q"@, track.title),
            ),
        ],
        Some(artist) => seq![
            link(
                "Last.fm artist search"@,
                query_address_1("https://www.last.fm/search/artists"@, "q"@, artist),
            ),
            link(
                "Last.fm track search"@,
                query_address_1(
                    "https://www.last.fm/search/tracks"@,
                    "q"@,
                    spaced(artist, track.title),
                ),
            ),
        ] + (match first_named(track.albums) {
            None => Seq::empty(),
            Some(album) => seq![
                link(
                    "Last.fm album search"@,
                    query_address_1(
                        "https://www.last.fm/search/albums"@,
                        "q"@,
                        spaced(artist, album),
                    ),
                ),
            ],
        }),
    }
}

/// The searches at Last.fm, which has separate pages for artists, tracks and
/// albums.
pub fn lastfm_links(track: &LikedTrack) -> (res: Vec<ExternalLink>)
    ensures
        link_views(res@) == lastfm_searches(track@),
{
    let mut links: Vec<ExternalLink> = Vec::new();
    match first_named_str(&track.artists) {
        Some(artist) => {
            push_if(&mut links, true, "Last.fm artist search", lastfm_artist_search_url(artist));
            let phrase = with_space(artist, track.title.as_str());
            push_if(
                &mut links,
                true,
                "Last.fm track search",
                lastfm_track_search_url(phrase.as_str()),
            );
            if let Some(album) = first_named_str(&track.albums) {
                let phrase = with_space(artist, album);
                push_if(
                    &mut links,
                    true,
                    "Last.fm album search",
                    lastfm_album_search_url(phrase.as_str()),
                );
            }
        },
        None => {
            push_if(
                &mut links,
                true,
                "Last.fm track search",
                lastfm_track_search_url(track.title.as_str()),
            );
        },
    }
    assert(link_views(links@) =~= lastfm_searches(track@));
    links
}

/// The searches at RuTracker for the artist, the track and the album.
pub open spec fn rutracker_searches(track: Track) -> Seq<Link> {
    match first_named(track.artists) {
        None => seq![
            link(
                "RuTracker track search"@,
                query_address_1("https://rutracker.org/forum/tracker.php"@, "nm"@, track.title),
            ),
        ],
        Some(artist) => seq![
            link(
                "RuTracker artist search"@,
                query_address_1("https://rutracker.org/forum/tracker.php"@, "nm"@, artist),
            ),
            link(
                "RuTracker track search"@,
                query_address_1(
                    "https://rutracker.org/forum/tracker.php"@,
                    "nm"@,
                    spaced(artist, track.title),
                ),
            ),
        ] + (match first_named(track.albums) {
            None => Seq::empty(),
            Some(album) => seq![
                link(
                    "RuTracker album search"@,
                    query_address_1(
                        "https://rutracker.org/forum/tracker.php"@,
                        "nm"@,
                        spaced(artist, album),
                    ),
                ),
            ],
        }),
    }
}

/// The searches at RuTracker for the artist, the track and the album.
pub fn rutracker_links(track: &LikedTrack) -> (res: Vec<ExternalLink>)
    ensures
        link_views(res@) == rutracker_searches(track@),
{
    let mut links: Vec<ExternalLink> = Vec::new();
    match first_named_str(&track.artists) {
        Some(artist) => {
            push_if(&mut links, true, "RuTracker artist search", rutracker_search_url(artist));
            let phrase = with_space(artist, track.title.as_str());
            push_if(
                &mut links,
                true,
                "RuTracker track search",
                rutracker_search_url(phrase.as_str()),
            );
            if let Some(album) = first_named_str(&track.albums) {
                let phrase = with_space(artist, album);
                push_if(
                    &mut links,
                    true,
                    "RuTracker album search",
                    rutracker_search_url(phrase.as_str()),
                );
            }
        },
        None => {
            push_if(
                &mut links,
                true,
                "RuTracker track search",
                rutracker_search_url(track.title.as_str()),
            );
        },
    }
    assert(link_views(links@) =~= rutracker_searches(track@));
    links
}

/// The searches at Yandex Video for the track, the album and the artist.
pub open spec fn yandex_video_searches(track: Track) -> Seq<Link> {
    match first_named(track.artists) {
        None => seq![
            link(
                "Yandex Video track search"@,
                query_address_1("https://yandex.ru/video/search"@, "text"@, track.title),
            ),
        ],
        Some(artist) => seq![
            link(
                "Yandex Video track search"@,
                query_address_1(
                    "https://yandex.ru/video/search"@,
                    "text"@,
                    spaced(artist, track.title),
                ),
            ),
        ] + (match first_named(track.albums) {
            None => Seq::empty(),
            Some(album) => seq![
                link(
                    "Yandex Video album search"@,
                    query_address_1(
                        "https://yandex.ru/video/search"@,
                        "text"@,
                        spaced(artist, album),
                    ),
                ),
            ],
        }) + seq![
            link(
                "Yandex Video artist search"@,
                query_address_1("https://yandex.ru/video/search"@, "text"@, artist),
            ),
        ],
    }
}

/// The searches at Yandex Video for the track, the album and the artist.
pub fn yandex_video_links(track: &LikedTrack) -> (res: Vec<ExternalLink>)
    ensures
        link_views(res@) == yandex_video_searches(track@),
{
    let mut links: Vec<ExternalLink> = Vec::new();
    match first_named_str(&track.artists) {
        Some(artist) => {
            let phrase = with_space(artist, track.title.as_str());
            push_if(
                &mut links,
                true,
                "Yandex Video track search",
                yandex_video_search_url(phrase.as_str()),
            );
            if let Some(album) = first_named_str(&track.albums) {
                let phrase = with_space(artist, album);
                push_if(
                    &mut links,
                    true,
                    "Yandex Video album search",
                    yandex_video_search_url(phrase.as_str()),
                );
            }
            push_if(
                &mut links,
                true,
                "Yandex Video artist search",
                yandex_video_search_url(artist),
            );
        },
        None => {
            push_if(
                &mut links,
                true,
                "Yandex Video track search",
                yandex_video_search_url(track.title.as_str()),
            );
        },
    }
    assert(link_views(links@) =~= yandex_video_searches(track@));
    links
}

/// A search at MusicBrainz among the entities of one type.
pub open spec fn musicbrainz_search(query: Seq<char>, entity: Seq<char>) -> Seq<char> {
    query_address(
        "https://musicbrainz.org/search"@,
        seq![("query"@, query), ("type"@, entity), ("method"@, "indexed"@)],
    )
}

/// The searches at MusicBrainz for the artist and the album; none if there is
/// no artist.
pub open spec fn musicbrainz_entity_searches(track: Track) -> Seq<Link> {
    match first_named(track.artists) {
        None => Seq::empty(),
        Some(artist) => seq![
            link("MusicBrainz artist search"@, musicbrainz_search(artist, "artist"@)),
        ] + (match first_named(track.albums) {
            None => Seq::empty(),
            Some(album) => seq![
                link(
                    "MusicBrainz album search"@,
                    musicbrainz_search(spaced(artist, album), "release_group"@),
                ),
            ],
        }),
    }
}

/// The searches at MusicBrainz for the artist and the album; none if there is
/// no artist.
pub fn musicbrainz_entity_search_links(track: &LikedTrack) -> (res: Vec<ExternalLink>)
    ensures
        link_views(res@) == musicbrainz_entity_searches(track@),
{
    let mut links: Vec<ExternalLink> = Vec::new();
    if let Some(artist) = first_named_str(&track.artists) {
        push_if(
            &mut links,
            true,
            "MusicBrainz artist search",
            musicbrainz_artist_search_url(artist),
        );
        if let Some(album) = first_named_str(&track.albums) {
            let phrase = with_space(artist, album);
            push_if(
                &mut links,
                true,
                "MusicBrainz album search",
                musicbrainz_album_search_url(phrase.as_str()),
            );
        }
    }
    assert(link_views(links@) =~= musicbrainz_entity_searches(track@));
    links
}

/// A search at Wikidata.
pub open spec fn wikidata_search(query: Seq<char>) -> Seq<char> {
    query_address_1("https://www.wikidata.org/w/index.php"@, "search"@, query)
}

/// A search at Wikipedia.
pub open spec fn wikipedia_search(query: Seq<char>) -> Seq<char> {
    query_address_1("https://en.wikipedia.org/w/index.php"@, "search"@, query)
}

/// The search phrase for the track at Wikidata and Wikipedia.
pub open spec fn wikimedia_track_phrase(track: Track) -> Seq<char> {
    match first_named(track.artists) {
        Some(artist) => spaced(artist, track.title),
        None => track.title,
    }
}

/// The search phrase for the album at Wikidata and Wikipedia.
pub open spec fn wikimedia_album_phrase(track: Track, album: Seq<char>) -> Seq<char> {
    if track.artists.len() > 0 {
        spaced(track.artists[0], album)
    } else {
        album
    }
}

/// The searches at Wikidata and Wikipedia for the track, the artist and the
/// album.
pub open spec fn wikimedia_searches(
    track: Track,
    on: Set<ExternalLinkService>,
    off: Set<ExternalLinkService>,
) -> Seq<Link> {
    let data = enabled(ExternalLinkService::Wikidata, on, off);
    let pedia = enabled(ExternalLinkService::Wikipedia, on, off);
    let phrase = wikimedia_track_phrase(track);
    link_if(
        data && !blank(phrase),
        link("Wikidata track search"@, wikidata_search(phrase)),
    ) + link_if(
        pedia && !blank(phrase),
        link("Wikipedia track search"@, wikipedia_search(phrase)),
    ) + (match first_named(track.artists) {
        Some(artist) => link_if(data, link("Wikidata artist search"@, wikidata_search(artist)))
            + link_if(pedia, link("Wikipedia artist search"@, wikipedia_search(artist))),
        None => Seq::empty(),
    }) + (match first_named(track.albums) {
        Some(album) => {
            let query = wikimedia_album_phrase(track, album);
            link_if(data, link("Wikidata album search"@, wikidata_search(query))) + link_if(
                pedia,
                link("Wikipedia album search"@, wikipedia_search(query)),
            )
        },
        None => Seq::empty(),
    })
}

/// The searches at Wikidata and Wikipedia for the track, the artist and the
/// album.
pub fn wikimedia_links(
    track: &LikedTrack,
    enabled_services: &ServiceSet,
    disabled_services: &ServiceSet,
) -> (res: Vec<ExternalLink>)
    ensures
        link_views(res@) == wikimedia_searches(track@, enabled_services@, disabled_services@),
{
    let mut links: Vec<ExternalLink> = Vec::new();
    let data = external_link_service_enabled(
        ExternalLinkService::Wikidata,
        enabled_services,
        disabled_services,
    );
    let pedia = external_link_service_enabled(
        ExternalLinkService::Wikipedia,
        enabled_services,
        disabled_services,
    );
    let artist = first_named_str(&track.artists);
    let phrase = match artist {
        Some(artist) => with_space(artist, track.title.as_str()),
        None => track.title.clone(),
    };
    let named = !is_blank(phrase.as_str());
    push_if(
        &mut links,
        data && named,
        "Wikidata track search",
        wikidata_search_url(phrase.as_str()),
    );
    push_if(
        &mut links,
        pedia && named,
        "Wikipedia track search",
        wikipedia_search_url(phrase.as_str()),
    );
    if let Some(artist) = artist {
        push_if(&mut links, data, "Wikidata artist search", wikidata_search_url(artist));
        push_if(&mut links, pedia, "Wikipedia artist search", wikipedia_search_url(artist));
    }
    if let Some(album) = first_named_str(&track.albums) {
        let query = if track.artists.len() > 0 {
            with_space(track.artists[0].as_str(), album)
        } else {
            album.to_owned()
        };
        push_if(
            &mut links,
            data,
            "Wikidata album search",
            wikidata_search_url(query.as_str()),
        );
        push_if(
            &mut links,
            pedia,
            "Wikipedia album search",
            wikipedia_search_url(query.as_str()),
        );
    }
    assert(link_views(links@) =~= wikimedia_searches(
        track@,
        enabled_services@,
        disabled_services@,
    ));
    links
}

} // verus!
