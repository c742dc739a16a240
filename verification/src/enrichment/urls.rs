//! Addresses of search pages and lookup endpoints.
use vstd::prelude::*;

use crate::escape::{
    append_pair, byte_serialize, escape_quotes, form_encoded, plus_as_space, quote_escaped,
    replace_plus,
};
use crate::text::{blank, decimal, decimal_string, is_blank, join, joined, lemma_texts_push, texts};
use crate::yandex::{LikedTrack, Track};

verus! {

// ---------------------------------------------------------------------------
// Addresses
// ---------------------------------------------------------------------------
/// A name and a value in a query string.
pub open spec fn form_pair(name: Seq<char>, value: Seq<char>) -> Seq<char> {
    form_encoded(name) + seq!['='] + form_encoded(value)
}

/// A query string: the parameters in order, with an ampersand between each two.
pub open spec fn form_query(params: Seq<(Seq<char>, Seq<char>)>) -> Seq<char> {
    joined(params.map_values(|p: (Seq<char>, Seq<char>)| form_pair(p.0, p.1)), seq!['&'])
}

/// An address with a query string.
pub open spec fn query_address(base: Seq<char>, params: Seq<(Seq<char>, Seq<char>)>) -> Seq<char> {
    base + seq!['?'] + form_query(params)
}

/// An address with a query string of one parameter.
pub open spec fn query_address_1(base: Seq<char>, name: Seq<char>, value: Seq<char>) -> Seq<char> {
    query_address(base, seq![(name, value)])
}

/// An address whose last path segment is a search phrase.
pub open spec fn path_address(base: Seq<char>, query: Seq<char>) -> Seq<char> {
    base + seq!['/'] + plus_as_space(form_encoded(query))
}

/// The texts of query parameters.
pub open spec fn param_texts(params: Seq<(&str, &str)>) -> Seq<(Seq<char>, Seq<char>)> {
    params.map_values(|p: (&str, &str)| (p.0@, p.1@))
}

/// Parameters joined by ampersands are never the empty text.
proof fn lemma_form_query_step(params: Seq<(Seq<char>, Seq<char>)>, n: int)
    requires
        0 <= n < params.len(),
    ensures
        n > 0 ==> form_query(params.take(n)).len() > 0,
        form_query(params.take(n + 1)) == form_query(params.take(n)) + (if n > 0 {
            seq!['&']
        } else {
            Seq::<char>::empty()
        }) + form_encoded(params[n].0) + seq!['='] + form_encoded(params[n].1),
    decreases n,
{
    let f = |p: (Seq<char>, Seq<char>)| form_pair(p.0, p.1);
    let next = params.take(n + 1).map_values(f);
    assert(next.drop_last() =~= params.take(n).map_values(f));
    assert(next.last() == f(params[n]));
    let pair = form_pair(params[n].0, params[n].1);
    if n > 0 {
        lemma_form_query_step(params, n - 1);
        assert(form_query(params.take(n)) + seq!['&'] + pair =~= form_query(params.take(n))
            + seq!['&'] + form_encoded(params[n].0) + seq!['='] + form_encoded(params[n].1));
    } else {
        assert(params.take(0).map_values(f) =~= Seq::empty());
        assert(pair =~= Seq::<char>::empty() + Seq::<char>::empty() + form_encoded(params[n].0)
            + seq!['='] + form_encoded(params[n].1));
    }
}

/// `base` with a query string of the given parameters.
pub fn query_url(base: &str, params: &[(&str, &str)]) -> (res: String)
    ensures
        res@ == query_address(base@, param_texts(params@)),
{
    let mut query = String::new();
    proof {
        let none = param_texts(params@).take(0).map_values(
            |p: (Seq<char>, Seq<char>)| form_pair(p.0, p.1),
        );
        assert(none =~= Seq::empty());
    }
    for i in 0..params.len()
        invariant
            query@ == form_query(param_texts(params@).take(i as int)),
            i == 0 ==> query@.len() == 0,
    {
        proof {
            lemma_form_query_step(param_texts(params@), i as int);
        }
        query = append_pair(query, params[i].0, params[i].1);
    }
    assert(param_texts(params@).take(params@.len() as int) =~= param_texts(params@));
    let mut url = base.to_owned();
    url.push('?');
    url.append(query.as_str());
    assert(url@ =~= query_address(base@, param_texts(params@)));
    url
}

/// `base` with a query string of one parameter.
fn query_url_1(base: &str, name: &str, value: &str) -> (res: String)
    ensures
        res@ == query_address_1(base@, name@, value@),
{
    let params = [(name, value)];
    assert(param_texts(params@) =~= seq![(name@, value@)]);
    query_url(base, &params)
}

/// `base` with the search phrase `query` as one more path segment.
pub fn path_search_url(base: &str, query: &str) -> (res: String)
    ensures
        res@ == path_address(base@, query@),
{
    let encoded = byte_serialize(query.as_bytes());
    let segment = replace_plus(encoded.as_str());
    let mut url = base.to_owned();
    url.push('/');
    url.append(segment.as_str());
    assert(url@ =~= path_address(base@, query@));
    url
}

// ---------------------------------------------------------------------------
// Search phrases
// ---------------------------------------------------------------------------
/// The first text of a list, or the empty text if there is none.
pub open spec fn first_or_empty(list: Seq<Seq<char>>) -> Seq<char> {
    if list.len() > 0 {
        list[0]
    } else {
        Seq::empty()
    }
}

/// The first text of a list, if there is one and it is not blank.
pub open spec fn first_named(list: Seq<Seq<char>>) -> Option<Seq<char>> {
    if list.len() > 0 && !blank(list[0]) {
        Some(list[0])
    } else {
        None
    }
}

/// Two texts with a space between them.
pub open spec fn spaced(left: Seq<char>, right: Seq<char>) -> Seq<char> {
    left + seq![' '] + right
}

/// The first string of `list`, or the empty string if there is none.
pub(crate) fn first_str(list: &Vec<String>) -> (res: &str)
    ensures
        res@ == first_or_empty(texts(list@)),
{
    if list.len() > 0 {
        list[0].as_str()
    } else {
        proof {
            reveal_strlit("");
        }
        assert(""@ =~= Seq::empty());
        ""
    }
}

/// The first string of `list`, if there is one and it is not blank.
pub(crate) fn first_named_str(list: &Vec<String>) -> (res: Option<&str>)
    ensures
        match res {
            Some(text) => first_named(texts(list@)) == Some(text@),
            None => first_named(texts(list@)) is None,
        },
{
    if list.len() > 0 && !is_blank(list[0].as_str()) {
        Some(list[0].as_str())
    } else {
        None
    }
}

/// `left` and `right` with a space between them.
pub(crate) fn with_space(left: &str, right: &str) -> (res: String)
    ensures
        res@ == spaced(left@, right@),
{
    let mut res = left.to_owned();
    res.push(' ');
    res.append(right);
    assert(res@ =~= spaced(left@, right@));
    res
}

/// `left` and `right` one after the other.
pub(crate) fn concat(left: &str, right: &str) -> (res: String)
    ensures
        res@ == left@ + right@,
{
    let mut res = left.to_owned();
    res.append(right);
    res
}

/// What a person would type to find the track: the first artist, the title and
/// the first album, without those that are blank.
pub open spec fn human_phrase(track: Track) -> Seq<char> {
    joined(
        seq![first_or_empty(track.artists), track.title, first_or_empty(track.albums)].filter(
            |part: Seq<char>| !blank(part),
        ),
        seq![' '],
    )
}

/// What a person would type to find the track.
pub fn human_query(track: &LikedTrack) -> (res: String)
    ensures
        res@ == human_phrase(track@),
{
    let ghost keep = |part: Seq<char>| !blank(part);
    let artist = first_str(&track.artists);
    let album = first_str(&track.albums);
    let mut parts: Vec<String> = Vec::new();
    proof {
        reveal(Seq::filter);
        assert(texts(parts@) =~= Seq::<Seq<char>>::empty().filter(keep));
    }
    if !is_blank(artist) {
        parts.push(artist.to_owned());
    }
    if !is_blank(track.title.as_str()) {
        parts.push(track.title.clone());
    }
    if !is_blank(album) {
        parts.push(album.to_owned());
    }
    proof {
        broadcast use lemma_texts_push;
        broadcast use Seq::lemma_filter_push;

        let all = Seq::<Seq<char>>::empty().push(artist@).push(track.title@).push(album@);
        assert(all =~= seq![artist@, track.title@, album@]);
        assert(texts(parts@) == all.filter(keep));
        reveal_strlit(" ");
        assert(" "@ =~= seq![' ']);
    }
    join(&parts, " ")
}

/// `value` as it stands inside a quoted phrase of a Lucene query.
pub fn lucene_escape(value: &str) -> (res: String)
    ensures
        res@ == quote_escaped(value@),
{
    escape_quotes(value)
}

/// The query by which MusicBrainz finds the recording: its title and, if it has
/// one, its first artist.
pub open spec fn musicbrainz_phrase(track: Track) -> Seq<char> {
    "recording:\""@ + quote_escaped(track.title) + "\""@ + (if track.artists.len() > 0 {
        " AND artist:\""@ + quote_escaped(track.artists[0]) + "\""@
    } else {
        Seq::empty()
    })
}

/// The query by which MusicBrainz finds the recording.
pub fn musicbrainz_query(track: &LikedTrack) -> (res: String)
    ensures
        res@ == musicbrainz_phrase(track@),
{
    let mut query = "recording:\"".to_owned();
    query.append(lucene_escape(track.title.as_str()).as_str());
    query.append("\"");
    if track.artists.len() > 0 {
        query.append(" AND artist:\"");
        query.append(lucene_escape(track.artists[0].as_str()).as_str());
        query.append("\"");
    }
    assert(query@ =~= musicbrainz_phrase(track@));
    query
}

// ---------------------------------------------------------------------------
// Metadata services
// ---------------------------------------------------------------------------

/// The lookup of the recording at MusicBrainz.
pub fn musicbrainz_api_url(track: &LikedTrack) -> (res: String)
    ensures
        res@ == query_address(
            "https://musicbrainz.org/ws/2/recording/"@,
            seq![
                ("query"@, musicbrainz_phrase(track@)),
                ("fmt"@, "json"@),
                ("limit"@, "3"@),
            ],
        ),
{
    let query = musicbrainz_query(track);
    let params = [
        ("query", query.as_str()),
        ("fmt", "json"),
        ("limit", "3"),
    ];
    assert(param_texts(params@) =~= seq![
        ("query"@, musicbrainz_phrase(track@)),
        ("fmt"@, "json"@),
        ("limit"@, "3"@),
    ]);
    query_url("https://musicbrainz.org/ws/2/recording/", &params)
}

/// The search for the recording at MusicBrainz.
pub fn musicbrainz_search_url(track: &LikedTrack) -> (res: String)
    ensures
        res@ == query_address(
            "https://musicbrainz.org/search"@,
            seq![
                ("query"@, human_phrase(track@)),
                ("type"@, "recording"@),
                ("method"@, "indexed"@),
            ],
        ),
{
    let query = human_query(track);
    let params = [
        ("query", query.as_str()),
        ("type", "recording"),
        ("method", "indexed"),
    ];
    assert(param_texts(params@) =~= seq![
        ("query"@, human_phrase(track@)),
        ("type"@, "recording"@),
        ("method"@, "indexed"@),
    ]);
    query_url("https://musicbrainz.org/search", &params)
}

/// The search for an artist at MusicBrainz.
pub fn musicbrainz_artist_search_url(query: &str) -> (res: String)
    ensures
        res@ == query_address(
            "https://musicbrainz.org/search"@,
            seq![
                ("query"@, query@),
                ("type"@, "artist"@),
                ("method"@, "indexed"@),
            ],
        ),
{
    let params = [
        ("query", query),
        ("type", "artist"),
        ("method", "indexed"),
    ];
    assert(param_texts(params@) =~= seq![
        ("query"@, query@),
        ("type"@, "artist"@),
        ("method"@, "indexed"@),
    ]);
    query_url("https://musicbrainz.org/search", &params)
}

/// The search for an album at MusicBrainz.
pub fn musicbrainz_album_search_url(query: &str) -> (res: String)
    ensures
        res@ == query_address(
            "https://musicbrainz.org/search"@,
            seq![
                ("query"@, query@),
                ("type"@, "release_group"@),
                ("method"@, "indexed"@),
            ],
        ),
{
    let params = [
        ("query", query),
        ("type", "release_group"),
        ("method", "indexed"),
    ];
    assert(param_texts(params@) =~= seq![
        ("query"@, query@),
        ("type"@, "release_group"@),
        ("method"@, "indexed"@),
    ]);
    query_url("https://musicbrainz.org/search", &params)
}

/// The parameters of a lookup at LRCLIB: the duration, in whole seconds, only if
/// it is known.
pub open spec fn lrclib_params(track: Track) -> Seq<(Seq<char>, Seq<char>)> {
    let params = seq![
        ("track_name"@, track.title),
        ("artist_name"@, first_or_empty(track.artists)),
        ("album_name"@, first_or_empty(track.albums)),
    ];
    match track.duration_ms {
        Some(ms) => params.push(("duration"@, decimal((ms / 1000) as nat))),
        None => params,
    }
}

/// The lookup of the lyrics at LRCLIB.
pub fn lrclib_get_url(track: &LikedTrack) -> (res: String)
    ensures
        res@ == query_address("https://lrclib.net/api/get"@, lrclib_params(track@)),
{
    let artist = first_str(&track.artists);
    let album = first_str(&track.albums);
    match track.duration_ms {
        Some(ms) => {
            let duration = decimal_string(ms / 1000);
            let params = [
                ("track_name", track.title.as_str()),
                ("artist_name", artist),
                ("album_name", album),
                ("duration", duration.as_str()),
            ];
            assert(param_texts(params@) =~= lrclib_params(track@));
            query_url("https://lrclib.net/api/get", &params)
        },
        None => {
            let params = [
                ("track_name", track.title.as_str()),
                ("artist_name", artist),
                ("album_name", album),
            ];
            assert(param_texts(params@) =~= lrclib_params(track@));
            query_url("https://lrclib.net/api/get", &params)
        },
    }
}

/// The search for the lyrics at LRCLIB.
pub fn lrclib_search_url(track: &LikedTrack) -> (res: String)
    ensures
        res@ == query_address(
            "https://lrclib.net/api/search"@,
            seq![
                ("track_name"@, track@.title),
                ("artist_name"@, first_or_empty(track@.artists)),
            ],
        ),
{
    let artist = first_str(&track.artists);
    let params = [
        ("track_name", track.title.as_str()),
        ("artist_name", artist),
    ];
    assert(param_texts(params@) =~= seq![
        ("track_name"@, track@.title),
        ("artist_name"@, first_or_empty(track@.artists)),
    ]);
    query_url("https://lrclib.net/api/search", &params)
}

/// The lookup of the track at Songlink, for users in the given country.
pub fn songlink_api_url(track: &LikedTrack, user_country: &str) -> (res: String)
    ensures
        res@ == query_address(
            "https://api.song.link/v1-alpha.1/links"@,
            seq![
                ("url"@, track@.yandex_url),
                ("userCountry"@, user_country@),
            ],
        ),
{
    let params = [
        ("url", track.yandex_url.as_str()),
        ("userCountry", user_country),
    ];
    assert(param_texts(params@) =~= seq![
        ("url"@, track@.yandex_url),
        ("userCountry"@, user_country@),
    ]);
    query_url("https://api.song.link/v1-alpha.1/links", &params)
}

/// The lookup of the track at Songlink, for users in any country.
pub fn songlink_lookup_url(track: &LikedTrack) -> (res: String)
    ensures
        res@ == query_address_1(
            "https://api.song.link/v1-alpha.1/links"@,
            "url"@,
            track@.yandex_url,
        ),
{
    query_url_1("https://api.song.link/v1-alpha.1/links", "url", track.yandex_url.as_str())
}

/// The search request to the API of Genius.
pub fn genius_api_url(track: &LikedTrack) -> (res: String)
    ensures
        res@ == query_address_1("https://api.genius.com/search"@, "q"@, human_phrase(track@)),
{
    let query = human_query(track);
    query_url_1("https://api.genius.com/search", "q", query.as_str())
}

/// The search for the track at Genius.
pub fn genius_search_url(track: &LikedTrack) -> (res: String)
    ensures
        res@ == query_address_1("https://genius.com/search"@, "q"@, human_phrase(track@)),
{
    let query = human_query(track);
    query_url_1("https://genius.com/search", "q", query.as_str())
}

/// The search for the track at YouTube.
pub fn youtube_search_url(track: &LikedTrack) -> (res: String)
    ensures
        res@ == query_address_1(
            "https://www.youtube.com/results"@,
            "search_query"@,
            human_phrase(track@),
        ),
{
    let query = human_query(track);
    query_url_1("https://www.youtube.com/results", "search_query", query.as_str())
}

/// The search for an artist at TheAudioDB.
pub fn theaudiodb_artist_search_url(artist: &str) -> (res: String)
    ensures
        res@ == query_address_1(
            "https://www.theaudiodb.com/api/v1/json/2/search.php"@,
            "s"@,
            artist@,
        ),
{
    query_url_1("https://www.theaudiodb.com/api/v1/json/2/search.php", "s", artist)
}

/// The search for a track of an artist at TheAudioDB.
pub fn theaudiodb_track_search_url(artist: &str, title: &str) -> (res: String)
    ensures
        res@ == query_address(
            "https://www.theaudiodb.com/api/v1/json/2/searchtrack.php"@,
            seq![
                ("s"@, artist@),
                ("t"@, title@),
            ],
        ),
{
    let params = [
        ("s", artist),
        ("t", title),
    ];
    assert(param_texts(params@) =~= seq![
        ("s"@, artist@),
        ("t"@, title@),
    ]);
    query_url("https://www.theaudiodb.com/api/v1/json/2/searchtrack.php", &params)
}

/// The search for an album of an artist at TheAudioDB.
pub fn theaudiodb_album_search_url(artist: &str, album: &str) -> (res: String)
    ensures
        res@ == query_address(
            "https://www.theaudiodb.com/api/v1/json/2/searchalbum.php"@,
            seq![
                ("s"@, artist@),
                ("a"@, album@),
            ],
        ),
{
    let params = [
        ("s", artist),
        ("a", album),
    ];
    assert(param_texts(params@) =~= seq![
        ("s"@, artist@),
        ("a"@, album@),
    ]);
    query_url("https://www.theaudiodb.com/api/v1/json/2/searchalbum.php", &params)
}

/// The lookup of a recording of MusicBrainz at TheAudioDB.
pub fn theaudiodb_track_mbid_url(recording_mbid: &str) -> (res: String)
    ensures
        res@ == query_address_1(
            "https://www.theaudiodb.com/api/v1/json/2/track-mb.php"@,
            "i"@,
            recording_mbid@,
        ),
{
    query_url_1("https://www.theaudiodb.com/api/v1/json/2/track-mb.php", "i", recording_mbid)
}

/// The lookup of an artist of MusicBrainz at TheAudioDB.
pub fn theaudiodb_artist_mbid_url(artist_mbid: &str) -> (res: String)
    ensures
        res@ == query_address_1(
            "https://www.theaudiodb.com/api/v1/json/2/artist-mb.php"@,
            "i"@,
            artist_mbid@,
        ),
{
    query_url_1("https://www.theaudiodb.com/api/v1/json/2/artist-mb.php", "i", artist_mbid)
}

/// The lookup of a release group of MusicBrainz at TheAudioDB.
pub fn theaudiodb_album_mbid_url(release_group_mbid: &str) -> (res: String)
    ensures
        res@ == query_address_1(
            "https://www.theaudiodb.com/api/v1/json/2/album-mb.php"@,
            "i"@,
            release_group_mbid@,
        ),
{
    query_url_1("https://www.theaudiodb.com/api/v1/json/2/album-mb.php", "i", release_group_mbid)
}

/// What ListenBrainz knows about a recording of MusicBrainz.
pub fn listenbrainz_recording_metadata_url(recording_mbid: &str) -> (res: String)
    ensures
        res@ == query_address(
            "https://api.listenbrainz.org/1/metadata/recording/"@,
            seq![
                ("recording_mbids"@, recording_mbid@),
                ("inc"@, "artist release"@),
            ],
        ),
{
    let params = [
        ("recording_mbids", recording_mbid),
        ("inc", "artist release"),
    ];
    assert(param_texts(params@) =~= seq![
        ("recording_mbids"@, recording_mbid@),
        ("inc"@, "artist release"@),
    ]);
    query_url("https://api.listenbrainz.org/1/metadata/recording/", &params)
}

// ---------------------------------------------------------------------------
// Search pages
// ---------------------------------------------------------------------------

/// A search at Wikidata.
pub fn wikidata_search_url(query: &str) -> (res: String)
    ensures
        res@ == query_address_1("https://www.wikidata.org/w/index.php"@, "search"@, query@),
{
    query_url_1("https://www.wikidata.org/w/index.php", "search", query)
}

/// A search at Wikipedia.
pub fn wikipedia_search_url(query: &str) -> (res: String)
    ensures
        res@ == query_address_1("https://en.wikipedia.org/w/index.php"@, "search"@, query@),
{
    query_url_1("https://en.wikipedia.org/w/index.php", "search", query)
}

/// A search at Spotify.
pub fn spotify_search_url(query: &str) -> (res: String)
    ensures
        res@ == query_address_1("https://open.spotify.com/search"@, "q"@, query@),
{
    query_url_1("https://open.spotify.com/search", "q", query)
}

/// A search at Apple Music.
pub fn apple_music_search_url(query: &str) -> (res: String)
    ensures
        res@ == query_address_1("https://music.apple.com/search"@, "term"@, query@),
{
    query_url_1("https://music.apple.com/search", "term", query)
}

/// A search at Deezer.
pub fn deezer_search_url(query: &str) -> (res: String)
    ensures
        res@ == query_address_1("https://www.deezer.com/search"@, "q"@, query@),
{
    query_url_1("https://www.deezer.com/search", "q", query)
}

/// A search at Bandcamp.
pub fn bandcamp_search_url(query: &str) -> (res: String)
    ensures
        res@ == query_address_1("https://bandcamp.com/search"@, "q"@, query@),
{
    query_url_1("https://bandcamp.com/search", "q", query)
}

/// A search at SoundCloud.
pub fn soundcloud_search_url(query: &str) -> (res: String)
    ensures
        res@ == query_address_1("https://soundcloud.com/search"@, "q"@, query@),
{
    query_url_1("https://soundcloud.com/search", "q", query)
}

/// A search at Discogs.
pub fn discogs_search_url(query: &str) -> (res: String)
    ensures
        res@ == query_address_1("https://www.discogs.com/search/"@, "q"@, query@),
{
    query_url_1("https://www.discogs.com/search/", "q", query)
}

/// A search at YouTube Music.
pub fn youtube_music_search_url(query: &str) -> (res: String)
    ensures
        res@ == query_address_1("https://music.youtube.com/search"@, "q"@, query@),
{
    query_url_1("https://music.youtube.com/search", "q", query)
}

/// A search at Beatport.
pub fn beatport_search_url(query: &str) -> (res: String)
    ensures
        res@ == query_address_1("https://www.beatport.com/search"@, "q"@, query@),
{
    query_url_1("https://www.beatport.com/search", "q", query)
}

/// A search at WhoSampled.
pub fn whosampled_search_url(query: &str) -> (res: String)
    ensures
        res@ == query_address_1("https://www.whosampled.com/search/"@, "q"@, query@),
{
    query_url_1("https://www.whosampled.com/search/", "q", query)
}

/// A search at SecondHandSongs.
pub fn secondhandsongs_search_url(query: &str) -> (res: String)
    ensures
        res@ == query_address_1("https://secondhandsongs.com/search"@, "search_text"@, query@),
{
    query_url_1("https://secondhandsongs.com/search", "search_text", query)
}

/// A search at ListenBrainz.
pub fn listenbrainz_search_url(query: &str) -> (res: String)
    ensures
        res@ == query_address_1("https://listenbrainz.org/search/"@, "q"@, query@),
{
    query_url_1("https://listenbrainz.org/search/", "q", query)
}

/// A search at Rutube.
pub fn rutube_search_url(query: &str) -> (res: String)
    ensures
        res@ == query_address_1("https://rutube.ru/search/"@, "query"@, query@),
{
    query_url_1("https://rutube.ru/search/", "query", query)
}

/// A search at RuTracker.
pub fn rutracker_search_url(query: &str) -> (res: String)
    ensures
        res@ == query_address_1("https://rutracker.org/forum/tracker.php"@, "nm"@, query@),
{
    query_url_1("https://rutracker.org/forum/tracker.php", "nm", query)
}

/// A search at Vimeo.
pub fn vimeo_search_url(query: &str) -> (res: String)
    ensures
        res@ == query_address_1("https://vimeo.com/search"@, "q"@, query@),
{
    query_url_1("https://vimeo.com/search", "q", query)
}

/// A search at Google.
pub fn google_search_url(query: &str) -> (res: String)
    ensures
        res@ == query_address_1("https://www.google.com/search"@, "q"@, query@),
{
    query_url_1("https://www.google.com/search", "q", query)
}

/// A search at DuckDuckGo.
pub fn duckduckgo_search_url(query: &str) -> (res: String)
    ensures
        res@ == query_address_1("https://duckduckgo.com/"@, "q"@, query@),
{
    query_url_1("https://duckduckgo.com/", "q", query)
}

/// A search at Bing.
pub fn bing_search_url(query: &str) -> (res: String)
    ensures
        res@ == query_address_1("https://www.bing.com/search"@, "q"@, query@),
{
    query_url_1("https://www.bing.com/search", "q", query)
}

/// A search at Yandex.
pub fn yandex_search_url(query: &str) -> (res: String)
    ensures
        res@ == query_address_1("https://yandex.ru/search/"@, "text"@, query@),
{
    query_url_1("https://yandex.ru/search/", "text", query)
}

/// A search at Yandex Video.
pub fn yandex_video_search_url(query: &str) -> (res: String)
    ensures
        res@ == query_address_1("https://yandex.ru/video/search"@, "text"@, query@),
{
    query_url_1("https://yandex.ru/video/search", "text", query)
}

/// A search among the artists of Last.fm.
pub fn lastfm_artist_search_url(query: &str) -> (res: String)
    ensures
        res@ == query_address_1("https://www.last.fm/search/artists"@, "q"@, query@),
{
    query_url_1("https://www.last.fm/search/artists", "q", query)
}

/// A search among the tracks of Last.fm.
pub fn lastfm_track_search_url(query: &str) -> (res: String)
    ensures
        res@ == query_address_1("https://www.last.fm/search/tracks"@, "q"@, query@),
{
    query_url_1("https://www.last.fm/search/tracks", "q", query)
}

/// A search among the albums of Last.fm.
pub fn lastfm_album_search_url(query: &str) -> (res: String)
    ensures
        res@ == query_address_1("https://www.last.fm/search/albums"@, "q"@, query@),
{
    query_url_1("https://www.last.fm/search/albums", "q", query)
}

/// A search at TIDAL.
pub fn tidal_search_url(query: &str) -> (res: String)
    ensures
        res@ == path_address("https://tidal.com/search"@, query@),
{
    path_search_url("https://tidal.com/search", query)
}

/// A search at Qobuz.
pub fn qobuz_search_url(query: &str) -> (res: String)
    ensures
        res@ == path_address("https://play.qobuz.com/search"@, query@),
{
    path_search_url("https://play.qobuz.com/search", query)
}

/// A search at Amazon Music.
pub fn amazon_music_search_url(query: &str) -> (res: String)
    ensures
        res@ == path_address("https://music.amazon.com/search"@, query@),
{
    path_search_url("https://music.amazon.com/search", query)
}

/// A search at AllMusic.
pub fn allmusic_search_url(query: &str) -> (res: String)
    ensures
        res@ == path_address("https://www.allmusic.com/search/all"@, query@),
{
    path_search_url("https://www.allmusic.com/search/all", query)
}

/// A search for audio at VK.
pub fn vk_music_search_url(query: &str) -> (res: String)
    ensures
        res@ == query_address(
            "https://vk.com/search"@,
            seq![
                ("c[q]"@, query@),
                ("c[section]"@, "audio"@),
            ],
        ),
{
    let params = [
        ("c[q]", query),
        ("c[section]", "audio"),
    ];
    assert(param_texts(params@) =~= seq![
        ("c[q]"@, query@),
        ("c[section]"@, "audio"@),
    ]);
    query_url("https://vk.com/search", &params)
}

} // verus!
