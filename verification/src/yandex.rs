//! Liked tracks, and how they come out of what Yandex Music answers.
use vstd::prelude::*;

use crate::text::{
    chars_of, has_prefix, lemma_texts_push, opt_text, texts, trim_option, trimmed_option,
};
use crate::timestamp::{Moment, Timestamp};

pub mod laws;
pub mod library;
pub mod order;

verus! {

/// An artist with a page of their own.
#[derive(Debug, Clone, PartialEq, Eq)]
pub struct ArtistLink {
    pub name: String,
    pub yandex_url: String,
}

/// An album with a page of its own.
#[derive(Debug, Clone, PartialEq, Eq)]
pub struct AlbumLink {
    pub name: String,
    pub yandex_url: String,
}

/// A name and the address of its page.
pub struct NamedPage {
    pub name: Seq<char>,
    pub yandex_url: Seq<char>,
}

impl View for ArtistLink {
    type V = NamedPage;

    open spec fn view(&self) -> NamedPage {
        NamedPage { name: self.name@, yandex_url: self.yandex_url@ }
    }
}

impl View for AlbumLink {
    type V = NamedPage;

    open spec fn view(&self) -> NamedPage {
        NamedPage { name: self.name@, yandex_url: self.yandex_url@ }
    }
}

/// A track that the user likes.
#[derive(Debug, Clone, PartialEq, Eq)]
pub struct LikedTrack {
    pub id: String,
    pub liked_at: Timestamp,
    pub title: String,
    pub artists: Vec<String>,
    pub artist_links: Vec<ArtistLink>,
    pub albums: Vec<String>,
    pub album_links: Vec<AlbumLink>,
    pub duration_ms: Option<u128>,
    pub cover_url: Option<String>,
    pub yandex_url: String,
}

/// What a [`LikedTrack`] says.
pub struct Track {
    pub id: Seq<char>,
    pub liked_at: Moment,
    pub title: Seq<char>,
    pub artists: Seq<Seq<char>>,
    pub artist_links: Seq<NamedPage>,
    pub albums: Seq<Seq<char>>,
    pub album_links: Seq<NamedPage>,
    pub duration_ms: Option<u128>,
    pub cover_url: Option<Seq<char>>,
    pub yandex_url: Seq<char>,
}

impl View for LikedTrack {
    type V = Track;

    open spec fn view(&self) -> Track {
        Track {
            id: self.id@,
            liked_at: self.liked_at@,
            title: self.title@,
            artists: texts(self.artists@),
            artist_links: self.artist_links@.map_values(|link: ArtistLink| link@),
            albums: texts(self.albums@),
            album_links: self.album_links@.map_values(|link: AlbumLink| link@),
            duration_ms: self.duration_ms,
            cover_url: opt_text(self.cover_url),
            yandex_url: self.yandex_url@,
        }
    }
}

// ---------------------------------------------------------------------------
// Details of tracks
// ---------------------------------------------------------------------------
/// An artist in the details of a track.
#[derive(Debug, Clone, PartialEq, Eq)]
pub struct RawArtist {
    pub name: Option<String>,
}

/// An album in the details of a track.
#[derive(Debug, Clone, PartialEq, Eq)]
pub struct RawAlbum {
    pub title: Option<String>,
}

/// The details of a track, as Yandex Music tells them.
#[derive(Debug, Clone, PartialEq, Eq)]
pub struct RawTrack {
    pub id: String,
    pub title: Option<String>,
    pub artists: Vec<RawArtist>,
    pub albums: Vec<RawAlbum>,
    pub cover_uri: Option<String>,
    pub og_image: Option<String>,
    pub duration_ms: Option<u128>,
}

/// What a [`RawTrack`] says.
pub struct TrackDetails {
    pub id: Seq<char>,
    pub title: Option<Seq<char>>,
    pub artists: Seq<Option<Seq<char>>>,
    pub albums: Seq<Option<Seq<char>>>,
    pub cover_uri: Option<Seq<char>>,
    pub og_image: Option<Seq<char>>,
    pub duration_ms: Option<u128>,
}

impl View for RawTrack {
    type V = TrackDetails;

    open spec fn view(&self) -> TrackDetails {
        TrackDetails {
            id: self.id@,
            title: opt_text(self.title),
            artists: self.artists@.map_values(|artist: RawArtist| opt_text(artist.name)),
            albums: self.albums@.map_values(|album: RawAlbum| opt_text(album.title)),
            cover_uri: opt_text(self.cover_uri),
            og_image: opt_text(self.og_image),
            duration_ms: self.duration_ms,
        }
    }
}

/// The name of an artist, if they have one.
pub fn artist_name(artist: &RawArtist) -> (res: Option<String>)
    ensures
        opt_text(res) == trimmed_option(opt_text(artist.name)),
{
    trim_option(&artist.name)
}

/// The title of an album, if it has one.
pub fn album_title(album: &RawAlbum) -> (res: Option<String>)
    ensures
        opt_text(res) == trimmed_option(opt_text(album.title)),
{
    trim_option(&album.title)
}

/// An address with each `%%` replaced by the size of the image.
pub open spec fn sized_uri(uri: Seq<char>) -> Seq<char>
    decreases uri.len(),
{
    if uri.len() == 0 {
        Seq::empty()
    } else if uri.len() >= 2 && uri[0] == '%' && uri[1] == '%' {
        "400x400"@ + sized_uri(uri.skip(2))
    } else {
        seq![uri[0]] + sized_uri(uri.skip(1))
    }
}

/// The address of a cover: of the size that notes take, and with a scheme.
pub open spec fn cover_address(uri: Seq<char>) -> Seq<char> {
    let sized = sized_uri(uri);
    if "http://"@.is_prefix_of(sized) || "https://"@.is_prefix_of(sized) {
        sized
    } else {
        "https://"@ + sized
    }
}

/// The address of a cover.
pub fn normalize_cover_url(uri: String) -> (res: String)
    ensures
        res@ == cover_address(uri@),
{
    let chars = chars_of(uri.as_str());
    let mut sized = String::new();
    let mut i: usize = 0;
    assert(sized@ + sized_uri(uri@.skip(0)) =~= sized_uri(uri@)) by {
        assert(uri@.skip(0) =~= uri@);
    }
    while i < chars.len()
        invariant
            chars@ == uri@,
            i <= chars@.len(),
            sized@ + sized_uri(uri@.skip(i as int)) == sized_uri(uri@),
        decreases chars.len() - i,
    {
        let ghost before = sized@;
        let ghost rest = uri@.skip(i as int);
        if chars[i] == '%' && i + 1 < chars.len() && chars[i + 1] == '%' {
            sized.append("400x400");
            assert(rest.skip(2) =~= uri@.skip(i + 2));
            assert(before + ("400x400"@ + sized_uri(rest.skip(2))) =~= sized@ + sized_uri(
                rest.skip(2),
            ));
            i += 2;
        } else {
            sized.push(chars[i]);
            assert(rest.skip(1) =~= uri@.skip(i + 1));
            assert(before + (seq![rest[0]] + sized_uri(rest.skip(1))) =~= sized@ + sized_uri(
                rest.skip(1),
            ));
            i += 1;
        }
    }
    assert(sized@ + sized_uri(uri@.skip(i as int)) =~= sized@);
    if has_prefix(sized.as_str(), "http://") || has_prefix(sized.as_str(), "https://") {
        sized
    } else {
        let mut res = "https://".to_owned();
        res.append(sized.as_str());
        res
    }
}

/// A track with the given details, liked at the given time: without the names
/// that are blank, with a title made from the id where there is none, and with
/// the cover or, where there is none, the preview image.
pub open spec fn liked_track(details: TrackDetails, liked_at: Moment) -> Track {
    Track {
        id: details.id,
        liked_at,
        title: match details.title {
            Some(title) => title,
            None => "Track "@ + details.id,
        },
        artists: details.artists.filter_map(|name: Option<Seq<char>>| trimmed_option(name)),
        artist_links: Seq::empty(),
        albums: details.albums.filter_map(|name: Option<Seq<char>>| trimmed_option(name)),
        album_links: Seq::empty(),
        duration_ms: details.duration_ms,
        cover_url: match (details.cover_uri, details.og_image) {
            (Some(uri), _) => Some(cover_address(uri)),
            (None, Some(uri)) => Some(cover_address(uri)),
            (None, None) => None,
        },
        yandex_url: "https://music.yandex.com/track/"@ + details.id,
    }
}

/// The names of those artists that have one.
fn artist_names(artists: &Vec<RawArtist>) -> (res: Vec<String>)
    ensures
        texts(res@) == artists@.map_values(|artist: RawArtist| opt_text(artist.name)).filter_map(
            |name: Option<Seq<char>>| trimmed_option(name),
        ),
{
    let ghost names = artists@.map_values(|artist: RawArtist| opt_text(artist.name));
    let ghost f = |name: Option<Seq<char>>| trimmed_option(name);
    let mut res: Vec<String> = Vec::new();
    assert(texts(res@) =~= names.take(0).filter_map(f));
    for i in 0..artists.len()
        invariant
            names == artists@.map_values(|artist: RawArtist| opt_text(artist.name)),
            f == (|name: Option<Seq<char>>| trimmed_option(name)),
            texts(res@) == names.take(i as int).filter_map(f),
    {
        broadcast use lemma_texts_push;

        proof {
            names.lemma_filter_map_take_succ(f, i as int);
        }
        let ghost before = texts(res@);
        if let Some(name) = artist_name(&artists[i]) {
            res.push(name);
            assert(before.push(name@) =~= before + seq![name@]);
        } else {
            assert(before + Seq::<Seq<char>>::empty() =~= before);
        }
    }
    assert(names.take(names.len() as int) =~= names);
    res
}

/// The titles of those albums that have one.
fn album_titles(albums: &Vec<RawAlbum>) -> (res: Vec<String>)
    ensures
        texts(res@) == albums@.map_values(|album: RawAlbum| opt_text(album.title)).filter_map(
            |name: Option<Seq<char>>| trimmed_option(name),
        ),
{
    let ghost names = albums@.map_values(|album: RawAlbum| opt_text(album.title));
    let ghost f = |name: Option<Seq<char>>| trimmed_option(name);
    let mut res: Vec<String> = Vec::new();
    assert(texts(res@) =~= names.take(0).filter_map(f));
    for i in 0..albums.len()
        invariant
            names == albums@.map_values(|album: RawAlbum| opt_text(album.title)),
            f == (|name: Option<Seq<char>>| trimmed_option(name)),
            texts(res@) == names.take(i as int).filter_map(f),
    {
        broadcast use lemma_texts_push;

        proof {
            names.lemma_filter_map_take_succ(f, i as int);
        }
        let ghost before = texts(res@);
        if let Some(name) = album_title(&albums[i]) {
            res.push(name);
            assert(before.push(name@) =~= before + seq![name@]);
        } else {
            assert(before + Seq::<Seq<char>>::empty() =~= before);
        }
    }
    assert(names.take(names.len() as int) =~= names);
    res
}

/// The track with these details, liked at the given time.
pub fn to_liked_track(track: RawTrack, liked_at: Timestamp) -> (res: LikedTrack)
    ensures
        res@ == liked_track(track@, liked_at@),
{
    let artists = artist_names(&track.artists);
    let albums = album_titles(&track.albums);
    let cover_url = match track.cover_uri {
        Some(uri) => Some(normalize_cover_url(uri)),
        None => match track.og_image {
            Some(uri) => Some(normalize_cover_url(uri)),
            None => None,
        },
    };
    let mut yandex_url = "https://music.yandex.com/track/".to_owned();
    yandex_url.append(track.id.as_str());
    let title = match track.title {
        Some(title) => title,
        None => {
            let mut title = "Track ".to_owned();
            title.append(track.id.as_str());
            title
        },
    };
    let res = LikedTrack {
        id: track.id,
        liked_at,
        title,
        artists,
        artist_links: Vec::new(),
        albums,
        album_links: Vec::new(),
        duration_ms: track.duration_ms,
        cover_url,
        yandex_url,
    };
    assert(res@.artist_links =~= Seq::empty());
    assert(res@.album_links =~= Seq::empty());
    res
}

// ---------------------------------------------------------------------------
// Laws
// ---------------------------------------------------------------------------
/// Two percent signs stand side by side.
pub open spec fn has_placeholder(s: Seq<char>) -> bool {
    exists|i: int| 0 <= i < s.len() - 1 && #[trigger] s[i] == '%' && s[i + 1] == '%'
}

/// The address of a cover has a scheme, and no place is left in it for a size.
pub proof fn lemma_cover_address(uri: Seq<char>)
    ensures
        "http://"@.is_prefix_of(cover_address(uri)) || "https://"@.is_prefix_of(
            cover_address(uri),
        ),
        !has_placeholder(cover_address(uri)),
{
    let sized = sized_uri(uri);
    lemma_sized_uri(uri);
    let full = "https://"@ + sized;
    assert("https://"@ =~= full.subrange(0, "https://"@.len() as int));
    assert(!has_placeholder(full)) by {
        reveal_strlit("https://");
        assert forall|i: int| 0 <= i < full.len() - 1 && #[trigger] full[i] == '%' implies full[i
            + 1] != '%' by {
            assert(i >= 8);
            assert(full[i] == sized[i - 8]);
            assert(full[i + 1] == sized[i - 7]);
        }
    }
}

proof fn lemma_sized_uri(uri: Seq<char>)
    ensures
        !has_placeholder(sized_uri(uri)),
        sized_uri(uri).len() > 0 && sized_uri(uri)[0] == '%' ==> {
            &&& uri.len() > 0
            &&& uri[0] == '%'
            &&& !(uri.len() > 1 && uri[1] == '%')
        },
    decreases uri.len(),
{
    reveal_strlit("400x400");
    let sized = sized_uri(uri);
    if uri.len() > 0 {
        let placed = uri.len() >= 2 && uri[0] == '%' && uri[1] == '%';
        let head = if placed {
            "400x400"@
        } else {
            seq![uri[0]]
        };
        let tail = if placed {
            uri.skip(2)
        } else {
            uri.skip(1)
        };
        lemma_sized_uri(tail);
        let rest = sized_uri(tail);
        assert(sized == head + rest);
        assert forall|i: int| 0 <= i < sized.len() - 1 && #[trigger] sized[i] == '%' implies sized[i
            + 1] != '%' by {
            if i >= head.len() {
                assert(sized[i] == rest[i - head.len()]);
                assert(sized[i + 1] == rest[i + 1 - head.len()]);
            } else if !placed {
                assert(sized[1] == rest[0]);
            }
        }
    }
}

} // verus!
