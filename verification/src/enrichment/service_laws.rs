//! Which names mean which services.
use vstd::prelude::*;

use crate::enrichment::services::{
    enabled, first_unknown, lemma_plain_id, service_id, service_named, service_names,
    services_meant, ExternalLinkService,
};
use crate::text::trimmed;

verus! {

/// Names that differ in length or in one of their first two letters differ.
proof fn lemma_names_apart()
    ensures
        "acoustid"@.len() == 8 && "acoustid"@[0] == 'a' && "acoustid"@[1] == 'c',
        "allmusic"@.len() == 8 && "allmusic"@[0] == 'a' && "allmusic"@[1] == 'l',
        "amazon"@.len() == 6 && "amazon"@[0] == 'a' && "amazon"@[1] == 'm',
        "amazonmusic"@.len() == 11 && "amazonmusic"@[0] == 'a' && "amazonmusic"@[1] == 'm',
        "apple"@.len() == 5 && "apple"@[0] == 'a' && "apple"@[1] == 'p',
        "applemusic"@.len() == 10 && "applemusic"@[0] == 'a' && "applemusic"@[1] == 'p',
        "bandcamp"@.len() == 8 && "bandcamp"@[0] == 'b' && "bandcamp"@[1] == 'a',
        "beatport"@.len() == 8 && "beatport"@[0] == 'b' && "beatport"@[1] == 'e',
        "bing"@.len() == 4 && "bing"@[0] == 'b' && "bing"@[1] == 'i',
        "deezer"@.len() == 6 && "deezer"@[0] == 'd' && "deezer"@[1] == 'e',
        "discogs"@.len() == 7 && "discogs"@[0] == 'd' && "discogs"@[1] == 'i',
        "duckduckgo"@.len() == 10 && "duckduckgo"@[0] == 'd' && "duckduckgo"@[1] == 'u',
        "ddg"@.len() == 3 && "ddg"@[0] == 'd' && "ddg"@[1] == 'd',
        "genius"@.len() == 6 && "genius"@[0] == 'g' && "genius"@[1] == 'e',
        "google"@.len() == 6 && "google"@[0] == 'g' && "google"@[1] == 'o',
        "lastfm"@.len() == 6 && "lastfm"@[0] == 'l' && "lastfm"@[1] == 'a',
        "listenbrainz"@.len() == 12 && "listenbrainz"@[0] == 'l' && "listenbrainz"@[1] == 'i',
        "lrclib"@.len() == 6 && "lrclib"@[0] == 'l' && "lrclib"@[1] == 'r',
        "musicbrainz"@.len() == 11 && "musicbrainz"@[0] == 'm' && "musicbrainz"@[1] == 'u',
        "qobuz"@.len() == 5 && "qobuz"@[0] == 'q' && "qobuz"@[1] == 'o',
        "rutracker"@.len() == 9 && "rutracker"@[0] == 'r' && "rutracker"@[1] == 'u',
        "rutube"@.len() == 6 && "rutube"@[0] == 'r' && "rutube"@[1] == 'u',
        "secondhandsongs"@.len() == 15 && "secondhandsongs"@[0] == 's'
            && "secondhandsongs"@[1] == 'e',
        "songlink"@.len() == 8 && "songlink"@[0] == 's' && "songlink"@[1] == 'o',
        "odesli"@.len() == 6 && "odesli"@[0] == 'o' && "odesli"@[1] == 'd',
        "soundcloud"@.len() == 10 && "soundcloud"@[0] == 's' && "soundcloud"@[1] == 'o',
        "spotify"@.len() == 7 && "spotify"@[0] == 's' && "spotify"@[1] == 'p',
        "theaudiodb"@.len() == 10 && "theaudiodb"@[0] == 't' && "theaudiodb"@[1] == 'h',
        "audiodb"@.len() == 7 && "audiodb"@[0] == 'a' && "audiodb"@[1] == 'u',
        "tidal"@.len() == 5 && "tidal"@[0] == 't' && "tidal"@[1] == 'i',
        "vimeo"@.len() == 5 && "vimeo"@[0] == 'v' && "vimeo"@[1] == 'i',
        "vk"@.len() == 2 && "vk"@[0] == 'v' && "vk"@[1] == 'k',
        "vkontakte"@.len() == 9 && "vkontakte"@[0] == 'v' && "vkontakte"@[1] == 'k',
        "wikidata"@.len() == 8 && "wikidata"@[0] == 'w' && "wikidata"@[1] == 'i',
        "wikipedia"@.len() == 9 && "wikipedia"@[0] == 'w' && "wikipedia"@[1] == 'i',
        "yandex"@.len() == 6 && "yandex"@[0] == 'y' && "yandex"@[1] == 'a',
        "yandexvideo"@.len() == 11 && "yandexvideo"@[0] == 'y' && "yandexvideo"@[1] == 'a',
        "youtube"@.len() == 7 && "youtube"@[0] == 'y' && "youtube"@[1] == 'o',
        "youtubemusic"@.len() == 12 && "youtubemusic"@[0] == 'y' && "youtubemusic"@[1] == 'o',
        "ytmusic"@.len() == 7 && "ytmusic"@[0] == 'y' && "ytmusic"@[1] == 't',
{
    reveal_strlit("acoustid");
    reveal_strlit("allmusic");
    reveal_strlit("amazon");
    reveal_strlit("amazonmusic");
    reveal_strlit("apple");
    reveal_strlit("applemusic");
    reveal_strlit("bandcamp");
    reveal_strlit("beatport");
    reveal_strlit("bing");
    reveal_strlit("deezer");
    reveal_strlit("discogs");
    reveal_strlit("duckduckgo");
    reveal_strlit("ddg");
    reveal_strlit("genius");
    reveal_strlit("google");
    reveal_strlit("lastfm");
    reveal_strlit("listenbrainz");
    reveal_strlit("lrclib");
    reveal_strlit("musicbrainz");
    reveal_strlit("qobuz");
    reveal_strlit("rutracker");
    reveal_strlit("rutube");
    reveal_strlit("secondhandsongs");
    reveal_strlit("songlink");
    reveal_strlit("odesli");
    reveal_strlit("soundcloud");
    reveal_strlit("spotify");
    reveal_strlit("theaudiodb");
    reveal_strlit("audiodb");
    reveal_strlit("tidal");
    reveal_strlit("vimeo");
    reveal_strlit("vk");
    reveal_strlit("vkontakte");
    reveal_strlit("wikidata");
    reveal_strlit("wikipedia");
    reveal_strlit("yandex");
    reveal_strlit("yandexvideo");
    reveal_strlit("youtube");
    reveal_strlit("youtubemusic");
    reveal_strlit("ytmusic");
}

/// Each of these names means the service that is set beside it.
pub proof fn lemma_known_names()
    ensures
        service_named("acoustid"@) == Some(ExternalLinkService::AcoustId),
        service_named("allmusic"@) == Some(ExternalLinkService::AllMusic),
        service_named("amazon"@) == Some(ExternalLinkService::AmazonMusic),
        service_named("amazonmusic"@) == Some(ExternalLinkService::AmazonMusic),
        service_named("apple"@) == Some(ExternalLinkService::AppleMusic),
        service_named("applemusic"@) == Some(ExternalLinkService::AppleMusic),
        service_named("bandcamp"@) == Some(ExternalLinkService::Bandcamp),
        service_named("beatport"@) == Some(ExternalLinkService::Beatport),
        service_named("bing"@) == Some(ExternalLinkService::Bing),
        service_named("deezer"@) == Some(ExternalLinkService::Deezer),
        service_named("discogs"@) == Some(ExternalLinkService::Discogs),
        service_named("duckduckgo"@) == Some(ExternalLinkService::DuckDuckGo),
        service_named("ddg"@) == Some(ExternalLinkService::DuckDuckGo),
        service_named("genius"@) == Some(ExternalLinkService::Genius),
        service_named("google"@) == Some(ExternalLinkService::Google),
        service_named("lastfm"@) == Some(ExternalLinkService::LastFm),
        service_named("listenbrainz"@) == Some(ExternalLinkService::ListenBrainz),
        service_named("lrclib"@) == Some(ExternalLinkService::Lrclib),
        service_named("musicbrainz"@) == Some(ExternalLinkService::MusicBrainz),
        service_named("qobuz"@) == Some(ExternalLinkService::Qobuz),
        service_named("rutracker"@) == Some(ExternalLinkService::RuTracker),
        service_named("rutube"@) == Some(ExternalLinkService::Rutube),
        service_named("secondhandsongs"@) == Some(ExternalLinkService::SecondHandSongs),
        service_named("songlink"@) == Some(ExternalLinkService::Songlink),
        service_named("odesli"@) == Some(ExternalLinkService::Songlink),
        service_named("soundcloud"@) == Some(ExternalLinkService::SoundCloud),
        service_named("spotify"@) == Some(ExternalLinkService::Spotify),
        service_named("theaudiodb"@) == Some(ExternalLinkService::TheAudioDb),
        service_named("audiodb"@) == Some(ExternalLinkService::TheAudioDb),
        service_named("tidal"@) == Some(ExternalLinkService::Tidal),
        service_named("vimeo"@) == Some(ExternalLinkService::Vimeo),
        service_named("vk"@) == Some(ExternalLinkService::Vk),
        service_named("vkontakte"@) == Some(ExternalLinkService::Vk),
        service_named("wikidata"@) == Some(ExternalLinkService::Wikidata),
        service_named("wikipedia"@) == Some(ExternalLinkService::Wikipedia),
        service_named("yandex"@) == Some(ExternalLinkService::Yandex),
        service_named("yandexvideo"@) == Some(ExternalLinkService::YandexVideo),
        service_named("youtube"@) == Some(ExternalLinkService::YouTube),
        service_named("youtubemusic"@) == Some(ExternalLinkService::YouTubeMusic),
        service_named("ytmusic"@) == Some(ExternalLinkService::YouTubeMusic),
{
    lemma_names_apart();
    assert(service_id("acoustid"@) == "acoustid"@) by {
        reveal_strlit("acoustid");
        lemma_plain_id("acoustid"@);
    }
    assert(service_id("allmusic"@) == "allmusic"@) by {
        reveal_strlit("allmusic");
        lemma_plain_id("allmusic"@);
    }
    assert(service_id("amazon"@) == "amazon"@) by {
        reveal_strlit("amazon");
        lemma_plain_id("amazon"@);
    }
    assert(service_id("amazonmusic"@) == "amazonmusic"@) by {
        reveal_strlit("amazonmusic");
        lemma_plain_id("amazonmusic"@);
    }
    assert(service_id("apple"@) == "apple"@) by {
        reveal_strlit("apple");
        lemma_plain_id("apple"@);
    }
    assert(service_id("applemusic"@) == "applemusic"@) by {
        reveal_strlit("applemusic");
        lemma_plain_id("applemusic"@);
    }
    assert(service_id("bandcamp"@) == "bandcamp"@) by {
        reveal_strlit("bandcamp");
        lemma_plain_id("bandcamp"@);
    }
    assert(service_id("beatport"@) == "beatport"@) by {
        reveal_strlit("beatport");
        lemma_plain_id("beatport"@);
    }
    assert(service_id("bing"@) == "bing"@) by {
        reveal_strlit("bing");
        lemma_plain_id("bing"@);
    }
    assert(service_id("deezer"@) == "deezer"@) by {
        reveal_strlit("deezer");
        lemma_plain_id("deezer"@);
    }
    assert(service_id("discogs"@) == "discogs"@) by {
        reveal_strlit("discogs");
        lemma_plain_id("discogs"@);
    }
    assert(service_id("duckduckgo"@) == "duckduckgo"@) by {
        reveal_strlit("duckduckgo");
        lemma_plain_id("duckduckgo"@);
    }
    assert(service_id("ddg"@) == "ddg"@) by {
        reveal_strlit("ddg");
        lemma_plain_id("ddg"@);
    }
    assert(service_id("genius"@) == "genius"@) by {
        reveal_strlit("genius");
        lemma_plain_id("genius"@);
    }
    assert(service_id("google"@) == "google"@) by {
        reveal_strlit("google");
        lemma_plain_id("google"@);
    }
    assert(service_id("lastfm"@) == "lastfm"@) by {
        reveal_strlit("lastfm");
        lemma_plain_id("lastfm"@);
    }
    assert(service_id("listenbrainz"@) == "listenbrainz"@) by {
        reveal_strlit("listenbrainz");
        lemma_plain_id("listenbrainz"@);
    }
    assert(service_id("lrclib"@) == "lrclib"@) by {
        reveal_strlit("lrclib");
        lemma_plain_id("lrclib"@);
    }
    assert(service_id("musicbrainz"@) == "musicbrainz"@) by {
        reveal_strlit("musicbrainz");
        lemma_plain_id("musicbrainz"@);
    }
    assert(service_id("qobuz"@) == "qobuz"@) by {
        reveal_strlit("qobuz");
        lemma_plain_id("qobuz"@);
    }
    assert(service_id("rutracker"@) == "rutracker"@) by {
        reveal_strlit("rutracker");
        lemma_plain_id("rutracker"@);
    }
    assert(service_id("rutube"@) == "rutube"@) by {
        reveal_strlit("rutube");
        lemma_plain_id("rutube"@);
    }
    assert(service_id("secondhandsongs"@) == "secondhandsongs"@) by {
        reveal_strlit("secondhandsongs");
        lemma_plain_id("secondhandsongs"@);
    }
    assert(service_id("songlink"@) == "songlink"@) by {
        reveal_strlit("songlink");
        lemma_plain_id("songlink"@);
    }
    assert(service_id("odesli"@) == "odesli"@) by {
        reveal_strlit("odesli");
        lemma_plain_id("odesli"@);
    }
    assert(service_id("soundcloud"@) == "soundcloud"@) by {
        reveal_strlit("soundcloud");
        lemma_plain_id("soundcloud"@);
    }
    assert(service_id("spotify"@) == "spotify"@) by {
        reveal_strlit("spotify");
        lemma_plain_id("spotify"@);
    }
    assert(service_id("theaudiodb"@) == "theaudiodb"@) by {
        reveal_strlit("theaudiodb");
        lemma_plain_id("theaudiodb"@);
    }
    assert(service_id("audiodb"@) == "audiodb"@) by {
        reveal_strlit("audiodb");
        lemma_plain_id("audiodb"@);
    }
    assert(service_id("tidal"@) == "tidal"@) by {
        reveal_strlit("tidal");
        lemma_plain_id("tidal"@);
    }
    assert(service_id("vimeo"@) == "vimeo"@) by {
        reveal_strlit("vimeo");
        lemma_plain_id("vimeo"@);
    }
    assert(service_id("vk"@) == "vk"@) by {
        reveal_strlit("vk");
        lemma_plain_id("vk"@);
    }
    assert(service_id("vkontakte"@) == "vkontakte"@) by {
        reveal_strlit("vkontakte");
        lemma_plain_id("vkontakte"@);
    }
    assert(service_id("wikidata"@) == "wikidata"@) by {
        reveal_strlit("wikidata");
        lemma_plain_id("wikidata"@);
    }
    assert(service_id("wikipedia"@) == "wikipedia"@) by {
        reveal_strlit("wikipedia");
        lemma_plain_id("wikipedia"@);
    }
    assert(service_id("yandex"@) == "yandex"@) by {
        reveal_strlit("yandex");
        lemma_plain_id("yandex"@);
    }
    assert(service_id("yandexvideo"@) == "yandexvideo"@) by {
        reveal_strlit("yandexvideo");
        lemma_plain_id("yandexvideo"@);
    }
    assert(service_id("youtube"@) == "youtube"@) by {
        reveal_strlit("youtube");
        lemma_plain_id("youtube"@);
    }
    assert(service_id("youtubemusic"@) == "youtubemusic"@) by {
        reveal_strlit("youtubemusic");
        lemma_plain_id("youtubemusic"@);
    }
    assert(service_id("ytmusic"@) == "ytmusic"@) by {
        reveal_strlit("ytmusic");
        lemma_plain_id("ytmusic"@);
    }
}

/// A name of small letters means a service only if it is one of the names that the
/// service has. So every name means at most one service, and no service has further
/// names but for their punctuation and case.
pub proof fn lemma_no_other_names(name: Seq<char>)
    requires
        forall|i: int| 0 <= i < name.len() ==> 'a' <= #[trigger] name[i] <= 'z',
    ensures
        match service_named(name) {
            None => true,
            Some(ExternalLinkService::AcoustId) => name == "acoustid"@,
            Some(ExternalLinkService::AllMusic) => name == "allmusic"@,
            Some(ExternalLinkService::AmazonMusic) => name == "amazon"@ || name == "amazonmusic"@,
            Some(ExternalLinkService::AppleMusic) => name == "apple"@ || name == "applemusic"@,
            Some(ExternalLinkService::Bandcamp) => name == "bandcamp"@,
            Some(ExternalLinkService::Beatport) => name == "beatport"@,
            Some(ExternalLinkService::Bing) => name == "bing"@,
            Some(ExternalLinkService::Deezer) => name == "deezer"@,
            Some(ExternalLinkService::Discogs) => name == "discogs"@,
            Some(ExternalLinkService::DuckDuckGo) => name == "duckduckgo"@ || name == "ddg"@,
            Some(ExternalLinkService::Genius) => name == "genius"@,
            Some(ExternalLinkService::Google) => name == "google"@,
            Some(ExternalLinkService::LastFm) => name == "lastfm"@,
            Some(ExternalLinkService::ListenBrainz) => name == "listenbrainz"@,
            Some(ExternalLinkService::Lrclib) => name == "lrclib"@,
            Some(ExternalLinkService::MusicBrainz) => name == "musicbrainz"@,
            Some(ExternalLinkService::Qobuz) => name == "qobuz"@,
            Some(ExternalLinkService::RuTracker) => name == "rutracker"@,
            Some(ExternalLinkService::Rutube) => name == "rutube"@,
            Some(ExternalLinkService::SecondHandSongs) => name == "secondhandsongs"@,
            Some(ExternalLinkService::Songlink) => name == "songlink"@ || name == "odesli"@,
            Some(ExternalLinkService::SoundCloud) => name == "soundcloud"@,
            Some(ExternalLinkService::Spotify) => name == "spotify"@,
            Some(ExternalLinkService::TheAudioDb) => name == "theaudiodb"@ || name == "audiodb"@,
            Some(ExternalLinkService::Tidal) => name == "tidal"@,
            Some(ExternalLinkService::Vimeo) => name == "vimeo"@,
            Some(ExternalLinkService::Vk) => name == "vk"@ || name == "vkontakte"@,
            Some(ExternalLinkService::Wikidata) => name == "wikidata"@,
            Some(ExternalLinkService::Wikipedia) => name == "wikipedia"@,
            Some(ExternalLinkService::Yandex) => name == "yandex"@,
            Some(ExternalLinkService::YandexVideo) => name == "yandexvideo"@,
            Some(ExternalLinkService::YouTube) => name == "youtube"@,
            Some(ExternalLinkService::YouTubeMusic) => name == "youtubemusic"@ || name
                == "ytmusic"@,
            Some(_) => false,
        },
{
    lemma_plain_id(name);
}

/// The names that a message offers: every service that can be named has one of them, and
/// there are just as many names as there are such services, thirty-three.
pub proof fn lemma_names_offered(service: ExternalLinkService) -> (i: int)
    requires
        service != ExternalLinkService::WhoSampled,
    ensures
        service_names().len() == 33,
        0 <= i < 33,
        service_named(service_names()[i]) == Some(service),
{
    lemma_known_names();
    match service {
        ExternalLinkService::AcoustId => {
            assert(service_names()[0] == "acoustid"@);
            0
        },
        ExternalLinkService::AllMusic => {
            assert(service_names()[1] == "allmusic"@);
            1
        },
        ExternalLinkService::AmazonMusic => {
            assert(service_names()[2] == "amazonmusic"@);
            2
        },
        ExternalLinkService::AppleMusic => {
            assert(service_names()[3] == "applemusic"@);
            3
        },
        ExternalLinkService::Bandcamp => {
            assert(service_names()[4] == "bandcamp"@);
            4
        },
        ExternalLinkService::Beatport => {
            assert(service_names()[5] == "beatport"@);
            5
        },
        ExternalLinkService::Bing => {
            assert(service_names()[6] == "bing"@);
            6
        },
        ExternalLinkService::Deezer => {
            assert(service_names()[7] == "deezer"@);
            7
        },
        ExternalLinkService::Discogs => {
            assert(service_names()[8] == "discogs"@);
            8
        },
        ExternalLinkService::DuckDuckGo => {
            assert(service_names()[9] == "duckduckgo"@);
            9
        },
        ExternalLinkService::Genius => {
            assert(service_names()[10] == "genius"@);
            10
        },
        ExternalLinkService::Google => {
            assert(service_names()[11] == "google"@);
            11
        },
        ExternalLinkService::LastFm => {
            assert(service_names()[12] == "lastfm"@);
            12
        },
        ExternalLinkService::ListenBrainz => {
            assert(service_names()[13] == "listenbrainz"@);
            13
        },
        ExternalLinkService::Lrclib => {
            assert(service_names()[14] == "lrclib"@);
            14
        },
        ExternalLinkService::MusicBrainz => {
            assert(service_names()[15] == "musicbrainz"@);
            15
        },
        ExternalLinkService::Qobuz => {
            assert(service_names()[16] == "qobuz"@);
            16
        },
        ExternalLinkService::RuTracker => {
            assert(service_names()[17] == "rutracker"@);
            17
        },
        ExternalLinkService::Rutube => {
            assert(service_names()[18] == "rutube"@);
            18
        },
        ExternalLinkService::SecondHandSongs => {
            assert(service_names()[19] == "secondhandsongs"@);
            19
        },
        ExternalLinkService::Songlink => {
            assert(service_names()[20] == "songlink"@);
            20
        },
        ExternalLinkService::SoundCloud => {
            assert(service_names()[21] == "soundcloud"@);
            21
        },
        ExternalLinkService::Spotify => {
            assert(service_names()[22] == "spotify"@);
            22
        },
        ExternalLinkService::TheAudioDb => {
            assert(service_names()[23] == "theaudiodb"@);
            23
        },
        ExternalLinkService::Tidal => {
            assert(service_names()[24] == "tidal"@);
            24
        },
        ExternalLinkService::Vimeo => {
            assert(service_names()[25] == "vimeo"@);
            25
        },
        ExternalLinkService::Vk => {
            assert(service_names()[26] == "vk"@);
            26
        },
        ExternalLinkService::Wikidata => {
            assert(service_names()[27] == "wikidata"@);
            27
        },
        ExternalLinkService::Wikipedia => {
            assert(service_names()[28] == "wikipedia"@);
            28
        },
        ExternalLinkService::Yandex => {
            assert(service_names()[29] == "yandex"@);
            29
        },
        ExternalLinkService::YandexVideo => {
            assert(service_names()[30] == "yandexvideo"@);
            30
        },
        ExternalLinkService::YouTube => {
            assert(service_names()[31] == "youtube"@);
            31
        },
        ExternalLinkService::YouTubeMusic => {
            assert(service_names()[32] == "youtubemusic"@);
            32
        },
        ExternalLinkService::WhoSampled => 0,
    }
}

/// The service that can get links but cannot be named has no name.
pub proof fn lemma_unnamed_service(name: Seq<char>)
    ensures
        service_named(name) != Some(ExternalLinkService::WhoSampled),
{
}

/// The id of a name is made of its ASCII letters and digits, in their order, with capital
/// letters made small.
pub proof fn lemma_service_id(name: Seq<char>, c: char)
    ensures
        service_id(Seq::<char>::empty()) == Seq::<char>::empty(),
        'a' <= c <= 'z' || '0' <= c <= '9' ==> service_id(name.push(c)) == service_id(name).push(c),
        'A' <= c <= 'Z' ==> service_id(name.push(c)) == service_id(name).push(
            (c as u32 + 32) as char,
        ),
        !('a' <= c <= 'z' || '0' <= c <= '9' || 'A' <= c <= 'Z') ==> service_id(name.push(c))
            == service_id(name),
{
    broadcast use Seq::lemma_filter_push;

    reveal(Seq::filter);
    assert(service_id(Seq::<char>::empty()) =~= Seq::<char>::empty());
    if 'a' <= c <= 'z' || '0' <= c <= '9' {
        assert(service_id(name.push(c)) =~= service_id(name).push(c));
    } else if 'A' <= c <= 'Z' {
        assert(service_id(name.push(c)) =~= service_id(name).push((c as u32 + 32) as char));
    }
}

/// A list of names is refused for the first of them, with something in it but white
/// space, that means no service; and it is refused for nothing else.
pub proof fn lemma_first_unknown(names: Seq<Seq<char>>)
    ensures
        match first_unknown(names) {
            Some(name) => exists|i: int|
                {
                    &&& 0 <= i < names.len()
                    &&& name == trimmed(#[trigger] names[i])
                    &&& name.len() > 0
                    &&& service_named(name) is None
                    &&& forall|j: int|
                        0 <= j < i ==> trimmed(#[trigger] names[j]).len() == 0 || service_named(
                            trimmed(names[j]),
                        ) is Some
                },
            None => forall|j: int|
                0 <= j < names.len() ==> trimmed(#[trigger] names[j]).len() == 0 || service_named(
                    trimmed(names[j]),
                ) is Some,
        },
    decreases names.len(),
{
    if names.len() > 0 {
        let first = trimmed(names[0]);
        let rest = names.drop_first();
        if first.len() > 0 && service_named(first) is None {
            assert(first_unknown(names) == Some(first));
            assert(first == trimmed(names[0]));
        } else {
            lemma_first_unknown(rest);
            match first_unknown(rest) {
                Some(name) => {
                    let i = choose|i: int|
                        {
                            &&& 0 <= i < rest.len()
                            &&& name == trimmed(#[trigger] rest[i])
                            &&& name.len() > 0
                            &&& service_named(name) is None
                            &&& forall|j: int|
                                0 <= j < i ==> trimmed(#[trigger] rest[j]).len() == 0
                                    || service_named(trimmed(rest[j])) is Some
                        };
                    assert(rest[i] == names[i + 1]);
                    assert forall|j: int| 0 <= j < i + 1 implies trimmed(#[trigger] names[j]).len()
                        == 0 || service_named(trimmed(names[j])) is Some by {
                        if j > 0 {
                            assert(rest[j - 1] == names[j]);
                        }
                    }
                },
                None => {
                    assert forall|j: int| 0 <= j < names.len() implies trimmed(
                        #[trigger] names[j],
                    ).len() == 0 || service_named(trimmed(names[j])) is Some by {
                        if j > 0 {
                            assert(rest[j - 1] == names[j]);
                        }
                    }
                },
            }
        }
    }
}

/// The services that a list means are those that at least one of its names means.
pub proof fn lemma_services_meant(names: Seq<Seq<char>>, service: ExternalLinkService)
    ensures
        services_meant(names).contains(service) <==> exists|i: int|
            0 <= i < names.len() && trimmed(#[trigger] names[i]).len() > 0 && service_named(
                trimmed(names[i]),
            ) == Some(service),
{
}

/// A service is used exactly if it is not disabled and either no service is enabled by
/// name or it is.
pub proof fn lemma_enabled(
    service: ExternalLinkService,
    on: Set<ExternalLinkService>,
    off: Set<ExternalLinkService>,
)
    ensures
        enabled(service, on, off) <==> !off.contains(service) && (on.contains(service) || forall|
            other: ExternalLinkService,
        |
            !on.contains(other)),
{
    if forall|other: ExternalLinkService| !on.contains(other) {
        assert(on =~= Set::empty());
    }
}

} // verus!
