//! The external link services, their names, and the lists that enable and
//! disable them.
use vstd::prelude::*;

use crate::text::{
    ascii_alphanumeric, ascii_lower, ascii_lowered, is_ascii_alphanumeric, join, joined, texts,
    to_ascii_lower, trim, trimmed,
};

verus! {

/// A service that a note can link to.
#[derive(Debug, Clone, Copy, PartialEq, Eq, Hash, Structural)]
pub enum ExternalLinkService {
    AcoustId,
    AllMusic,
    AmazonMusic,
    AppleMusic,
    Bandcamp,
    Beatport,
    Bing,
    Deezer,
    Discogs,
    DuckDuckGo,
    Genius,
    Google,
    LastFm,
    ListenBrainz,
    Lrclib,
    MusicBrainz,
    Qobuz,
    RuTracker,
    Rutube,
    SecondHandSongs,
    Songlink,
    SoundCloud,
    Spotify,
    TheAudioDb,
    Tidal,
    Vimeo,
    Vk,
    WhoSampled,
    Wikidata,
    Wikipedia,
    Yandex,
    YandexVideo,
    YouTube,
    YouTubeMusic,
}

/// A service name without its punctuation and case: only the ASCII letters and
/// digits, with the capital letters made small.
pub open spec fn service_id(name: Seq<char>) -> Seq<char> {
    name.filter(|c: char| ascii_alphanumeric(c)).map_values(|c: char| ascii_lower(c))
}

/// The service that goes by an id.
pub open spec fn service_with_id(id: Seq<char>) -> Option<ExternalLinkService> {
    if id == "acoustid"@ {
        Some(ExternalLinkService::AcoustId)
    } else if id == "allmusic"@ {
        Some(ExternalLinkService::AllMusic)
    } else if id == "amazon"@ || id == "amazonmusic"@ {
        Some(ExternalLinkService::AmazonMusic)
    } else if id == "apple"@ || id == "applemusic"@ {
        Some(ExternalLinkService::AppleMusic)
    } else if id == "bandcamp"@ {
        Some(ExternalLinkService::Bandcamp)
    } else if id == "beatport"@ {
        Some(ExternalLinkService::Beatport)
    } else if id == "bing"@ {
        Some(ExternalLinkService::Bing)
    } else if id == "deezer"@ {
        Some(ExternalLinkService::Deezer)
    } else if id == "discogs"@ {
        Some(ExternalLinkService::Discogs)
    } else if id == "duckduckgo"@ || id == "ddg"@ {
        Some(ExternalLinkService::DuckDuckGo)
    } else if id == "genius"@ {
        Some(ExternalLinkService::Genius)
    } else if id == "google"@ {
        Some(ExternalLinkService::Google)
    } else if id == "lastfm"@ {
        Some(ExternalLinkService::LastFm)
    } else if id == "listenbrainz"@ {
        Some(ExternalLinkService::ListenBrainz)
    } else if id == "lrclib"@ {
        Some(ExternalLinkService::Lrclib)
    } else if id == "musicbrainz"@ {
        Some(ExternalLinkService::MusicBrainz)
    } else if id == "qobuz"@ {
        Some(ExternalLinkService::Qobuz)
    } else if id == "rutracker"@ {
        Some(ExternalLinkService::RuTracker)
    } else if id == "rutube"@ {
        Some(ExternalLinkService::Rutube)
    } else if id == "secondhandsongs"@ {
        Some(ExternalLinkService::SecondHandSongs)
    } else if id == "songlink"@ || id == "odesli"@ {
        Some(ExternalLinkService::Songlink)
    } else if id == "soundcloud"@ {
        Some(ExternalLinkService::SoundCloud)
    } else if id == "spotify"@ {
        Some(ExternalLinkService::Spotify)
    } else if id == "theaudiodb"@ || id == "audiodb"@ {
        Some(ExternalLinkService::TheAudioDb)
    } else if id == "tidal"@ {
        Some(ExternalLinkService::Tidal)
    } else if id == "vimeo"@ {
        Some(ExternalLinkService::Vimeo)
    } else if id == "vk"@ || id == "vkontakte"@ {
        Some(ExternalLinkService::Vk)
    } else if id == "wikidata"@ {
        Some(ExternalLinkService::Wikidata)
    } else if id == "wikipedia"@ {
        Some(ExternalLinkService::Wikipedia)
    } else if id == "yandex"@ {
        Some(ExternalLinkService::Yandex)
    } else if id == "yandexvideo"@ {
        Some(ExternalLinkService::YandexVideo)
    } else if id == "youtube"@ {
        Some(ExternalLinkService::YouTube)
    } else if id == "youtubemusic"@ || id == "ytmusic"@ {
        Some(ExternalLinkService::YouTubeMusic)
    } else {
        None
    }
}

/// The service that a name means. Punctuation and case are ignored.
pub open spec fn service_named(name: Seq<char>) -> Option<ExternalLinkService> {
    service_with_id(service_id(name))
}

impl ExternalLinkService {
    /// The service that `name` means. Punctuation and case are ignored.
    pub fn parse(name: &str) -> (res: Option<Self>)
        ensures
            res == service_named(name@),
    {
        let ghost keep = |c: char| ascii_alphanumeric(c);
        let ghost lower = |c: char| ascii_lower(c);
        let mut normalized = String::new();
        proof {
            reveal(Seq::filter);
            assert(normalized@ =~= service_id(name@.take(0)));
        }
        for c in it: name.chars()
            invariant
                it.seq() == name@,
                keep == (|c: char| ascii_alphanumeric(c)),
                lower == (|c: char| ascii_lower(c)),
                normalized@ == service_id(it.seq().take(it.index())),
        {
            broadcast use Seq::lemma_filter_push;

            let ghost before = name@.take(it.index());
            assert(name@.take(it.index() + 1) =~= before.push(c));
            assert(before.filter(keep).push(c).map_values(lower) =~= before.filter(
                keep,
            ).map_values(lower).push(ascii_lower(c)));
            if is_ascii_alphanumeric(c) {
                normalized.push(to_ascii_lower(c));
            }
        }
        assert(name@.take(name@.len() as int) =~= name@);
        Self::with_id(normalized.as_str())
    }

    /// The service that goes by `id`.
    fn with_id(id: &str) -> (res: Option<Self>)
        ensures
            res == service_with_id(id@),
    {
        if *id == *"acoustid" {
            Some(ExternalLinkService::AcoustId)
        } else if *id == *"allmusic" {
            Some(ExternalLinkService::AllMusic)
        } else if *id == *"amazon" || *id == *"amazonmusic" {
            Some(ExternalLinkService::AmazonMusic)
        } else if *id == *"apple" || *id == *"applemusic" {
            Some(ExternalLinkService::AppleMusic)
        } else if *id == *"bandcamp" {
            Some(ExternalLinkService::Bandcamp)
        } else if *id == *"beatport" {
            Some(ExternalLinkService::Beatport)
        } else if *id == *"bing" {
            Some(ExternalLinkService::Bing)
        } else if *id == *"deezer" {
            Some(ExternalLinkService::Deezer)
        } else if *id == *"discogs" {
            Some(ExternalLinkService::Discogs)
        } else if *id == *"duckduckgo" || *id == *"ddg" {
            Some(ExternalLinkService::DuckDuckGo)
        } else if *id == *"genius" {
            Some(ExternalLinkService::Genius)
        } else if *id == *"google" {
            Some(ExternalLinkService::Google)
        } else if *id == *"lastfm" {
            Some(ExternalLinkService::LastFm)
        } else if *id == *"listenbrainz" {
            Some(ExternalLinkService::ListenBrainz)
        } else if *id == *"lrclib" {
            Some(ExternalLinkService::Lrclib)
        } else if *id == *"musicbrainz" {
            Some(ExternalLinkService::MusicBrainz)
        } else if *id == *"qobuz" {
            Some(ExternalLinkService::Qobuz)
        } else if *id == *"rutracker" {
            Some(ExternalLinkService::RuTracker)
        } else if *id == *"rutube" {
            Some(ExternalLinkService::Rutube)
        } else if *id == *"secondhandsongs" {
            Some(ExternalLinkService::SecondHandSongs)
        } else if *id == *"songlink" || *id == *"odesli" {
            Some(ExternalLinkService::Songlink)
        } else if *id == *"soundcloud" {
            Some(ExternalLinkService::SoundCloud)
        } else if *id == *"spotify" {
            Some(ExternalLinkService::Spotify)
        } else if *id == *"theaudiodb" || *id == *"audiodb" {
            Some(ExternalLinkService::TheAudioDb)
        } else if *id == *"tidal" {
            Some(ExternalLinkService::Tidal)
        } else if *id == *"vimeo" {
            Some(ExternalLinkService::Vimeo)
        } else if *id == *"vk" || *id == *"vkontakte" {
            Some(ExternalLinkService::Vk)
        } else if *id == *"wikidata" {
            Some(ExternalLinkService::Wikidata)
        } else if *id == *"wikipedia" {
            Some(ExternalLinkService::Wikipedia)
        } else if *id == *"yandex" {
            Some(ExternalLinkService::Yandex)
        } else if *id == *"yandexvideo" {
            Some(ExternalLinkService::YandexVideo)
        } else if *id == *"youtube" {
            Some(ExternalLinkService::YouTube)
        } else if *id == *"youtubemusic" || *id == *"ytmusic" {
            Some(ExternalLinkService::YouTubeMusic)
        } else {
            None
        }
    }
}

/// The ids that an error message offers.
pub fn external_link_service_names() -> (res: Vec<String>)
    ensures
        texts(res@) == service_names(),
{
    let mut res: Vec<String> = Vec::new();
    res.push("acoustid".to_owned());
    res.push("allmusic".to_owned());
    res.push("amazonmusic".to_owned());
    res.push("applemusic".to_owned());
    res.push("bandcamp".to_owned());
    res.push("beatport".to_owned());
    res.push("bing".to_owned());
    res.push("deezer".to_owned());
    res.push("discogs".to_owned());
    res.push("duckduckgo".to_owned());
    res.push("genius".to_owned());
    res.push("google".to_owned());
    res.push("lastfm".to_owned());
    res.push("listenbrainz".to_owned());
    res.push("lrclib".to_owned());
    res.push("musicbrainz".to_owned());
    res.push("qobuz".to_owned());
    res.push("rutracker".to_owned());
    res.push("rutube".to_owned());
    res.push("secondhandsongs".to_owned());
    res.push("songlink".to_owned());
    res.push("soundcloud".to_owned());
    res.push("spotify".to_owned());
    res.push("theaudiodb".to_owned());
    res.push("tidal".to_owned());
    res.push("vimeo".to_owned());
    res.push("vk".to_owned());
    res.push("wikidata".to_owned());
    res.push("wikipedia".to_owned());
    res.push("yandex".to_owned());
    res.push("yandexvideo".to_owned());
    res.push("youtube".to_owned());
    res.push("youtubemusic".to_owned());
    assert(texts(res@) =~= service_names());
    res
}

/// The ids that an error message offers.
pub open spec fn service_names() -> Seq<Seq<char>> {
    seq![
        "acoustid"@,
        "allmusic"@,
        "amazonmusic"@,
        "applemusic"@,
        "bandcamp"@,
        "beatport"@,
        "bing"@,
        "deezer"@,
        "discogs"@,
        "duckduckgo"@,
        "genius"@,
        "google"@,
        "lastfm"@,
        "listenbrainz"@,
        "lrclib"@,
        "musicbrainz"@,
        "qobuz"@,
        "rutracker"@,
        "rutube"@,
        "secondhandsongs"@,
        "songlink"@,
        "soundcloud"@,
        "spotify"@,
        "theaudiodb"@,
        "tidal"@,
        "vimeo"@,
        "vk"@,
        "wikidata"@,
        "wikipedia"@,
        "yandex"@,
        "yandexvideo"@,
        "youtube"@,
        "youtubemusic"@,
    ]
}

/// A set of services.
#[derive(Debug, Clone)]
pub struct ServiceSet {
    services: Vec<ExternalLinkService>,
}

impl View for ServiceSet {
    type V = Set<ExternalLinkService>;

    closed spec fn view(&self) -> Set<ExternalLinkService> {
        self.services@.to_set()
    }
}

impl ServiceSet {
    /// The set without services.
    pub fn new() -> (res: Self)
        ensures
            res@ == Set::<ExternalLinkService>::empty(),
    {
        let res = ServiceSet { services: Vec::new() };
        assert(res@ =~= Set::<ExternalLinkService>::empty());
        res
    }

    /// Whether the set has no service.
    pub fn is_empty(&self) -> (res: bool)
        ensures
            res == (self@ == Set::<ExternalLinkService>::empty()),
    {
        proof {
            if self.services@.len() > 0 {
                assert(self@.contains(self.services@[0]));
            } else {
                assert(self@ =~= Set::<ExternalLinkService>::empty());
            }
        }
        self.services.len() == 0
    }

    /// Whether `service` is in the set.
    pub fn contains(&self, service: &ExternalLinkService) -> (res: bool)
        ensures
            res == self@.contains(*service),
    {
        for i in 0..self.services.len()
            invariant
                forall|j: int| 0 <= j < i ==> self.services@[j] != *service,
        {
            if self.services[i] == *service {
                assert(self.services@[i as int] == *service);
                return true;
            }
        }
        false
    }

    /// Puts `service` into the set.
    pub fn insert(&mut self, service: ExternalLinkService)
        ensures
            final(self)@ == old(self)@.insert(service),
    {
        let ghost before = self.services@;
        if !self.contains(&service) {
            self.services.push(service);
        }
        proof {
            assert forall|s: ExternalLinkService| before.to_set().insert(service).contains(
                s,
            ) implies self.services@.contains(s) by {
                if s == service {
                    if self.services@ != before {
                        assert(self.services@[before.len() as int] == service);
                    }
                } else {
                    let i = choose|i: int| 0 <= i < before.len() && before[i] == s;
                    assert(self.services@[i] == s);
                }
            }
            assert forall|s: ExternalLinkService| self.services@.contains(
                s,
            ) implies before.to_set().insert(service).contains(s) by {
                let i = choose|i: int| 0 <= i < self.services@.len() && self.services@[i] == s;
                if i < before.len() {
                    assert(before[i] == s);
                }
            }
            assert(self@ =~= before.to_set().insert(service));
        }
    }
}

/// Whether a service may be used: an empty list of enabled services enables
/// all, and a disabled service is never used.
pub open spec fn enabled(
    service: ExternalLinkService,
    enabled_services: Set<ExternalLinkService>,
    disabled_services: Set<ExternalLinkService>,
) -> bool {
    &&& enabled_services == Set::<ExternalLinkService>::empty() || enabled_services.contains(
        service,
    )
    &&& !disabled_services.contains(service)
}

/// Whether `service` may be used.
pub fn external_link_service_enabled(
    service: ExternalLinkService,
    enabled_services: &ServiceSet,
    disabled_services: &ServiceSet,
) -> (res: bool)
    ensures
        res == enabled(service, enabled_services@, disabled_services@),
{
    (enabled_services.is_empty() || enabled_services.contains(&service))
        && !disabled_services.contains(&service)
}

/// A name in a list of services that means none of them.
#[derive(Debug, Clone, PartialEq, Eq)]
pub struct UnknownService {
    pub name: String,
}

/// The message for an unknown service name.
pub open spec fn unknown_service_message(name: Seq<char>) -> Seq<char> {
    "unknown external link service `"@ + name + "`; known values: "@ + joined(
        service_names(),
        ", "@,
    )
}

impl UnknownService {
    /// The error in words.
    pub fn message(&self) -> (res: String)
        ensures
            res@ == unknown_service_message(self.name@),
            res@ == "unknown external link service `"@ + self.name@ + "`; known values: "@ + joined(
                service_names(),
                ", "@,
            ),
    {
        let mut res = "unknown external link service `".to_owned();
        res.append(self.name.as_str());
        res.append("`; known values: ");
        let names = external_link_service_names();
        res.append(join(&names, ", ").as_str());
        res
    }
}

/// A name in a list of services that means none of them. Blank names are
/// passed over.
pub open spec fn unknown(name: Seq<char>) -> bool {
    trimmed(name).len() > 0 && service_named(trimmed(name)) is None
}

/// A name in a list of services means the given one.
pub open spec fn means(name: Seq<char>, service: ExternalLinkService) -> bool {
    trimmed(name).len() > 0 && service_named(trimmed(name)) == Some(service)
}

/// The services that a list of names means.
pub open spec fn services_meant(names: Seq<Seq<char>>) -> Set<ExternalLinkService> {
    Set::new(|service: ExternalLinkService| exists|i: int| 0 <= i < names.len() && means(
        #[trigger] names[i], service))
}

/// The first name in a list of services that means none of them.
pub open spec fn first_unknown(names: Seq<Seq<char>>) -> Option<Seq<char>>
    decreases names.len(),
{
    if names.len() == 0 {
        None
    } else if unknown(names[0]) {
        Some(trimmed(names[0]))
    } else {
        first_unknown(names.drop_first())
    }
}

/// The services that `names` mean, or the first name that means none.
pub fn parse_external_link_services(names: &Vec<String>) -> (res: Result<
    ServiceSet,
    UnknownService,
>)
    ensures
        match res {
            Ok(services) => first_unknown(texts(names@)) is None && services@ == services_meant(
                texts(names@),
            ),
            Err(error) => first_unknown(texts(names@)) == Some(error.name@),
        },
{
    let ghost all = texts(names@);
    let mut services = ServiceSet::new();
    assert(services@ =~= services_meant(all.take(0)));
    assert(all.skip(0) =~= all);
    for n in 0..names.len()
        invariant
            all == texts(names@),
            first_unknown(all) == first_unknown(all.skip(n as int)),
            services@ == services_meant(all.take(n as int)),
    {
        let ghost before = all.take(n as int);
        let ghost after = all.take(n + 1);
        let ghost old_services = services@;
        let name = trim(names[n].as_str());
        proof {
            assert(all.skip(n as int).drop_first() =~= all.skip(n + 1));
            assert(all.skip(n as int)[0] == names@[n as int]@);
            assert(forall|i: int| 0 <= i < n ==> after[i] == before[i]);
            assert(after[n as int] == names@[n as int]@);
        }
        if !name.is_empty() {
            match ExternalLinkService::parse(name) {
                Some(service) => {
                    services.insert(service);
                    proof {
                        assert(means(after[n as int], service));
                        lemma_services_meant_push(before, after, old_services.insert(service));
                    }
                },
                None => {
                    return Err(UnknownService { name: name.to_owned() });
                },
            }
        } else {
            proof {
                lemma_services_meant_push(before, after, old_services);
            }
        }
    }
    assert(all.take(all.len() as int) =~= all);
    Ok(services)
}

/// One more name adds the service that it means.
proof fn lemma_services_meant_push(
    before: Seq<Seq<char>>,
    after: Seq<Seq<char>>,
    services: Set<ExternalLinkService>,
)
    requires
        after.len() == before.len() + 1,
        forall|i: int| 0 <= i < before.len() ==> after[i] == before[i],
        forall|s: ExternalLinkService|
            services.contains(s) <==> services_meant(before).contains(s) || means(after.last(), s),
    ensures
        services == services_meant(after),
{
    assert forall|s: ExternalLinkService| services.contains(s) implies services_meant(
        after,
    ).contains(s) by {
        if services_meant(before).contains(s) {
            let i = choose|i: int| 0 <= i < before.len() && means(#[trigger] before[i], s);
            assert(means(after[i], s));
        } else {
            assert(means(after[before.len() as int], s));
        }
    }
    assert forall|s: ExternalLinkService| services_meant(after).contains(
        s,
    ) implies services.contains(s) by {
        let i = choose|i: int| 0 <= i < after.len() && means(#[trigger] after[i], s);
        if i < before.len() {
            assert(means(before[i], s));
        }
    }
    assert(services =~= services_meant(after));
}

// ---------------------------------------------------------------------------
// Laws
// ---------------------------------------------------------------------------
/// Case does not matter in the name of a service.
pub proof fn lemma_name_case(name: Seq<char>)
    ensures
        service_named(ascii_lowered(name)) == service_named(name),
{
    lemma_id_case(name);
}

proof fn lemma_id_case(name: Seq<char>)
    ensures
        service_id(ascii_lowered(name)) == service_id(name),
    decreases name.len(),
{
    reveal(Seq::filter);
    let keep = |c: char| ascii_alphanumeric(c);
    let lower = |c: char| ascii_lower(c);
    let low = ascii_lowered(name);
    if name.len() > 0 {
        let front = name.drop_last();
        lemma_id_case(front);
        assert(low.drop_last() =~= ascii_lowered(front));
        assert(low.last() == ascii_lower(name.last()));
        if ascii_alphanumeric(name.last()) {
            assert(service_id(name) =~= service_id(front).push(ascii_lower(name.last())));
            assert(service_id(low) =~= service_id(low.drop_last()).push(ascii_lower(low.last())));
        }
    } else {
        assert(low =~= name);
    }
}

/// Punctuation does not matter in the name of a service, nor does anything else
/// that is not an ASCII letter or digit.
pub proof fn lemma_name_punctuation(before: Seq<char>, mark: char, after: Seq<char>)
    requires
        !ascii_alphanumeric(mark),
    ensures
        service_named(before + seq![mark] + after) == service_named(before + after),
{
    let keep = |c: char| ascii_alphanumeric(c);
    reveal(Seq::filter);
    assert(seq![mark].drop_last().filter(keep) =~= Seq::empty());
    assert(seq![mark].filter(keep) =~= Seq::empty());
    Seq::filter_distributes_over_add(before + seq![mark], after, keep);
    Seq::filter_distributes_over_add(before, seq![mark], keep);
    Seq::filter_distributes_over_add(before, after, keep);
    assert(before.filter(keep) + Seq::<char>::empty() =~= before.filter(keep));
}

/// An id of small letters is its own id.
pub proof fn lemma_plain_id(id: Seq<char>)
    requires
        forall|i: int| 0 <= i < id.len() ==> 'a' <= #[trigger] id[i] <= 'z',
    ensures
        service_id(id) == id,
    decreases id.len(),
{
    reveal(Seq::filter);
    if id.len() > 0 {
        let front = id.drop_last();
        assert forall|i: int| 0 <= i < front.len() implies 'a' <= #[trigger] front[i] <= 'z' by {
            assert(front[i] == id[i]);
        }
        lemma_plain_id(front);
        assert(service_id(id) =~= service_id(front).push(id.last()));
        assert(front.push(id.last()) =~= id);
    } else {
        assert(service_id(id) =~= id);
    }
}

/// Every id that an error message offers is the name of a service.
pub proof fn lemma_listed_ids_known(i: int)
    requires
        0 <= i < service_names().len(),
    ensures
        service_named(service_names()[i]) is Some,
{
    reveal_strlit("acoustid");
    reveal_strlit("allmusic");
    reveal_strlit("amazonmusic");
    reveal_strlit("applemusic");
    reveal_strlit("bandcamp");
    reveal_strlit("beatport");
    reveal_strlit("bing");
    reveal_strlit("deezer");
    reveal_strlit("discogs");
    reveal_strlit("duckduckgo");
    reveal_strlit("genius");
    reveal_strlit("google");
    reveal_strlit("lastfm");
    reveal_strlit("listenbrainz");
    reveal_strlit("lrclib");
    reveal_strlit("musicbrainz");
    reveal_strlit("qobuz");
    reveal_strlit("rutracker");
    reveal_strlit("rutube");
    reveal_strlit("secondhandsongs");
    reveal_strlit("songlink");
    reveal_strlit("soundcloud");
    reveal_strlit("spotify");
    reveal_strlit("theaudiodb");
    reveal_strlit("tidal");
    reveal_strlit("vimeo");
    reveal_strlit("vk");
    reveal_strlit("wikidata");
    reveal_strlit("wikipedia");
    reveal_strlit("yandex");
    reveal_strlit("yandexvideo");
    reveal_strlit("youtube");
    reveal_strlit("youtubemusic");
    lemma_plain_id(service_names()[i]);
}

/// A disabled service is never used, and where services are enabled by name no
/// other is used.
pub proof fn lemma_lists(
    service: ExternalLinkService,
    on: Set<ExternalLinkService>,
    off: Set<ExternalLinkService>,
)
    ensures
        off.contains(service) ==> !enabled(service, on, off),
        on != Set::<ExternalLinkService>::empty() && !on.contains(service) ==> !enabled(
            service,
            on,
            off,
        ),
        on == Set::<ExternalLinkService>::empty() && !off.contains(service) ==> enabled(
            service,
            on,
            off,
        ),
{
}

} // verus!
