//! Gathering the links for a track: which service is asked next, and what
//! becomes of its answer. The requests themselves are made elsewhere: each
//! [`Step`] says what is to be done, and the client is told what came of it.
use vstd::prelude::*;

use crate::audio::{extension_of, TrackAudio};
use crate::double::positive_finite;
use crate::enrichment::links::{
    extend_links, lastfm_links, lastfm_searches, link, link_views, musicbrainz_entity_search_links,
    musicbrainz_entity_searches, musicbrainz_search, related_music_service_links,
    related_searches, rutracker_links, rutracker_searches, wikimedia_links, wikimedia_searches,
    youtube_links, youtube_searches, ExternalLink, Link,
};
use crate::enrichment::lookups::{
    acoustid_fingerprint, add_missing_musicbrainz_search_links, best_acoustid_recording,
    best_recording, fingerprint_file_suffix, first_hit, genius_hit_link, missing_searches,
    musicbrainz_links_from_acoustid_recording, musicbrainz_recording_link, recording_found,
    recording_links, result_views, retry_delay_seconds, songlink_found, songlink_page_link,
    songlink_retry_delay, whole_seconds, AcoustIdResponse, FpcalcRun, GeniusResponse,
    MusicBrainzResponse, SonglinkResponse, ACOUSTID_META, SONGLINK_MAX_ATTEMPTS,
};
use crate::enrichment::services::{
    enabled, external_link_service_enabled, first_unknown, parse_external_link_services,
    services_meant, ExternalLinkService, ServiceSet, UnknownService,
};
use crate::enrichment::urls::{
    first_or_empty, genius_api_url, genius_search_url, human_phrase, lrclib_get_url, lrclib_params,
    lrclib_search_url, musicbrainz_api_url, musicbrainz_phrase, musicbrainz_search_url,
    query_address, query_address_1, songlink_api_url, songlink_lookup_url,
};
use crate::text::{blank, decimal, decimal_string, form_view, opt_text, texts};
use crate::yandex::{LikedTrack, Track};

verus! {

// ---------------------------------------------------------------------------
// The client
// ---------------------------------------------------------------------------
/// Gathers the links for tracks. What it has learned about `fpcalc` and Songlink
/// holds for all of them, so there is one client for a run and no way to clone it.
#[derive(Debug)]
pub struct EnrichmentClient {
    pub genius_access_token: Option<String>,
    pub acoustid_api_key: Option<String>,
    pub songlink_user_country: String,
    /// Songlink kept refusing requests: it is not asked again, since that would
    /// slow down every later track.
    pub songlink_rate_limited: bool,
    /// `fpcalc` is not installed: it is not tried again.
    pub acoustid_fpcalc_missing: bool,
    pub enabled_services: ServiceSet,
    pub disabled_services: ServiceSet,
}

/// What an [`EnrichmentClient`] says.
pub struct Client {
    pub genius_access_token: Option<Seq<char>>,
    pub acoustid_api_key: Option<Seq<char>>,
    pub songlink_user_country: Seq<char>,
    pub songlink_rate_limited: bool,
    pub acoustid_fpcalc_missing: bool,
    pub on: Set<ExternalLinkService>,
    pub off: Set<ExternalLinkService>,
}

impl View for EnrichmentClient {
    type V = Client;

    open spec fn view(&self) -> Client {
        Client {
            genius_access_token: opt_text(self.genius_access_token),
            acoustid_api_key: opt_text(self.acoustid_api_key),
            songlink_user_country: self.songlink_user_country@,
            songlink_rate_limited: self.songlink_rate_limited,
            acoustid_fpcalc_missing: self.acoustid_fpcalc_missing,
            on: self.enabled_services@,
            off: self.disabled_services@,
        }
    }
}

impl Client {
    /// The service may be used.
    pub open spec fn uses(self, service: ExternalLinkService) -> bool {
        enabled(service, self.on, self.off)
    }

    /// A fingerprint would lead to links: AcoustID may be used, and so may one of
    /// the services that know the recordings it finds.
    pub open spec fn tries_acoustid(self) -> bool {
        self.uses(ExternalLinkService::AcoustId) && (self.uses(ExternalLinkService::MusicBrainz)
            || self.uses(ExternalLinkService::ListenBrainz) || self.uses(
            ExternalLinkService::TheAudioDb,
        ))
    }
}

// ---------------------------------------------------------------------------
// Answers
// ---------------------------------------------------------------------------
/// The answer to a request.
#[derive(Debug, Clone)]
pub enum Reply<T> {
    /// There was none.
    Failed,
    /// The status, and the body if it could be read.
    Answer { status: u16, body: Option<T> },
}

/// The answer of Songlink, which can ask for patience.
#[derive(Debug, Clone)]
pub enum SonglinkReply {
    /// There was none.
    Failed,
    /// The status, the header `Retry-After` if it is there, and the body if it
    /// could be read.
    Answer { status: u16, retry_after: Option<String>, body: Option<SonglinkResponse> },
}

/// The status means success.
pub open spec fn success_status(status: u16) -> bool {
    200 <= status < 300
}

/// The status by which a service asks for patience.
pub const TOO_MANY_REQUESTS: u16 = 429;

/// The body of a successful answer.
pub open spec fn success_body<T>(reply: Reply<T>) -> Option<T> {
    match reply {
        Reply::Answer { status, body } => if success_status(status) {
            body
        } else {
            None
        },
        Reply::Failed => None,
    }
}

/// The request was answered with success.
pub open spec fn succeeded<T>(reply: Reply<T>) -> bool {
    reply is Answer && success_status(reply->status)
}

impl<T> Reply<T> {
    /// The body, if the answer was successful.
    pub fn into_body(self) -> (res: Option<T>)
        ensures
            res == success_body(self),
    {
        match self {
            Reply::Answer { status, body } => if 200 <= status && status < 300 {
                body
            } else {
                None
            },
            Reply::Failed => None,
        }
    }

    /// Whether the answer was successful.
    pub fn is_success(&self) -> (res: bool)
        ensures
            res == succeeded(*self),
    {
        match self {
            Reply::Answer { status, .. } => 200 <= *status && *status < 300,
            Reply::Failed => false,
        }
    }
}

// ---------------------------------------------------------------------------
// Steps
// ---------------------------------------------------------------------------
/// What is to be done next, with the links so far.
#[derive(Debug)]
pub enum Step {
    /// Run `fpcalc` over the audio, in a file with this suffix.
    Fingerprint { links: Vec<ExternalLink>, suffix: String },
    /// Send AcoustID this form.
    AcoustId { links: Vec<ExternalLink>, form: Vec<(String, String)> },
    /// Ask MusicBrainz at this address.
    MusicBrainz { links: Vec<ExternalLink>, url: String },
    /// Ask LRCLIB at this address.
    Lrclib { links: Vec<ExternalLink>, url: String },
    /// Ask Songlink at this address, after this many attempts that it refused.
    Songlink { links: Vec<ExternalLink>, url: String, retries: usize },
    /// Wait, and then ask Songlink again.
    Wait { links: Vec<ExternalLink>, url: String, retries: usize, seconds: u64 },
    /// Ask Genius at this address, with this token.
    Genius { links: Vec<ExternalLink>, url: String, token: String },
    /// These are the links.
    Done { links: Vec<ExternalLink> },
}

/// What a [`Step`] says.
pub enum Todo {
    Fingerprint { links: Seq<Link>, suffix: Seq<char> },
    AcoustId { links: Seq<Link>, form: Seq<(Seq<char>, Seq<char>)> },
    MusicBrainz { links: Seq<Link>, url: Seq<char> },
    Lrclib { links: Seq<Link>, url: Seq<char> },
    Songlink { links: Seq<Link>, url: Seq<char>, retries: nat },
    Wait { links: Seq<Link>, url: Seq<char>, retries: nat, seconds: nat },
    Genius { links: Seq<Link>, url: Seq<char>, token: Seq<char> },
    Done { links: Seq<Link> },
}

impl View for Step {
    type V = Todo;

    open spec fn view(&self) -> Todo {
        match self {
            Step::Fingerprint { links, suffix } => Todo::Fingerprint {
                links: link_views(links@),
                suffix: suffix@,
            },
            Step::AcoustId { links, form } => Todo::AcoustId {
                links: link_views(links@),
                form: form_view(form@),
            },
            Step::MusicBrainz { links, url } => Todo::MusicBrainz {
                links: link_views(links@),
                url: url@,
            },
            Step::Lrclib { links, url } => Todo::Lrclib { links: link_views(links@), url: url@ },
            Step::Songlink { links, url, retries } => Todo::Songlink {
                links: link_views(links@),
                url: url@,
                retries: *retries as nat,
            },
            Step::Wait { links, url, retries, seconds } => Todo::Wait {
                links: link_views(links@),
                url: url@,
                retries: *retries as nat,
                seconds: *seconds as nat,
            },
            Step::Genius { links, url, token } => Todo::Genius {
                links: link_views(links@),
                url: url@,
                token: token@,
            },
            Step::Done { links } => Todo::Done { links: link_views(links@) },
        }
    }
}

/// The links that come first: those to YouTube, Last.fm and RuTracker.
pub open spec fn first_links(client: Client, track: Track) -> Seq<Link> {
    youtube_searches(track, client.on, client.off) + (if client.uses(ExternalLinkService::LastFm) {
        lastfm_searches(track)
    } else {
        Seq::empty()
    }) + (if client.uses(ExternalLinkService::RuTracker) {
        rutracker_searches(track)
    } else {
        Seq::empty()
    })
}

/// What is done first: the audio is fingerprinted if that can lead to links.
pub open spec fn first_todo(client: Client, track: Track, audio: Option<&TrackAudio>) -> Todo {
    let links = first_links(client, track);
    if can_fingerprint(client, audio) {
        Todo::Fingerprint { links, suffix: "."@ + extension_of(audio->0.codec@) }
    } else {
        metadata_todo(client, track, links)
    }
}

/// The audio can be fingerprinted, and AcoustID be asked about it.
pub open spec fn can_fingerprint(client: Client, audio: Option<&TrackAudio>) -> bool {
    &&& client.tries_acoustid()
    &&& client.acoustid_api_key is Some
    &&& !client.acoustid_fpcalc_missing
    &&& audio is Some
    &&& audio->0.bytes@.len() > 0
}

/// What is done where the audio has not led to an exact match.
pub open spec fn metadata_todo(client: Client, track: Track, links: Seq<Link>) -> Todo {
    if client.uses(ExternalLinkService::MusicBrainz) {
        Todo::MusicBrainz { links, url: musicbrainz_lookup(track) }
    } else {
        lyrics_todo(client, track, links)
    }
}

/// The address of the lookup at MusicBrainz.
pub open spec fn musicbrainz_lookup(track: Track) -> Seq<char> {
    query_address(
        "https://musicbrainz.org/ws/2/recording/"@,
        seq![("query"@, musicbrainz_phrase(track)), ("fmt"@, "json"@), ("limit"@, "3"@)],
    )
}

/// What is done after MusicBrainz.
pub open spec fn lyrics_todo(client: Client, track: Track, links: Seq<Link>) -> Todo {
    if client.uses(ExternalLinkService::Lrclib) {
        Todo::Lrclib {
            links,
            url: query_address("https://lrclib.net/api/get"@, lrclib_params(track)),
        }
    } else {
        songlink_todo(client, track, links)
    }
}

/// The link to Songlink where it has not found a page.
pub open spec fn songlink_fallback(track: Track) -> Link {
    link(
        "Songlink/Odesli lookup"@,
        query_address_1("https://api.song.link/v1-alpha.1/links"@, "url"@, track.yandex_url),
    )
}

/// The address of the lookup at Songlink.
pub open spec fn songlink_lookup(client: Client, track: Track) -> Seq<char> {
    query_address(
        "https://api.song.link/v1-alpha.1/links"@,
        seq![("url"@, track.yandex_url), ("userCountry"@, client.songlink_user_country)],
    )
}

/// What is done after LRCLIB.
pub open spec fn songlink_todo(client: Client, track: Track, links: Seq<Link>) -> Todo {
    if !client.uses(ExternalLinkService::Songlink) {
        catalog_todo(client, track, links)
    } else if client.songlink_rate_limited {
        catalog_todo(client, track, links.push(songlink_fallback(track)))
    } else {
        Todo::Songlink { links, url: songlink_lookup(client, track), retries: 0 }
    }
}

/// The link to Genius where it has not found a song.
pub open spec fn genius_fallback(track: Track) -> Link {
    link(
        "Genius search"@,
        query_address_1("https://genius.com/search"@, "q"@, human_phrase(track)),
    )
}

/// What is done after Songlink: the links that need no lookup are added, and
/// Genius is asked if there is a token for it.
pub open spec fn catalog_todo(client: Client, track: Track, links: Seq<Link>) -> Todo {
    let all = links + related_searches(track, client.on, client.off) + wikimedia_searches(
        track,
        client.on,
        client.off,
    );
    if !client.uses(ExternalLinkService::Genius) {
        Todo::Done { links: all }
    } else {
        match client.genius_access_token {
            Some(token) => Todo::Genius {
                links: all,
                url: query_address_1(
                    "https://api.genius.com/search"@,
                    "q"@,
                    human_phrase(track),
                ),
                token,
            },
            None => Todo::Done { links: all.push(genius_fallback(track)) },
        }
    }
}

/// The duration and the fingerprint that `fpcalc` printed, if they can be used.
pub open spec fn fingerprint_of(run: FpcalcRun) -> Option<(nat, Seq<char>)> {
    match run {
        FpcalcRun::Printed(output) => if !blank(output.fingerprint@) && positive_finite(
            output.duration_bits,
        ) {
            Some((whole_seconds(output.duration_bits), output.fingerprint@))
        } else {
            None
        },
        _ => None,
    }
}

/// The form for AcoustID.
pub open spec fn acoustid_form(
    api_key: Seq<char>,
    seconds: nat,
    fingerprint: Seq<char>,
) -> Seq<(Seq<char>, Seq<char>)> {
    seq![
        ("client"@, api_key),
        ("meta"@, ACOUSTID_META@),
        ("duration"@, decimal(seconds)),
        ("fingerprint"@, fingerprint),
    ]
}

/// What is done after `fpcalc` has run.
pub open spec fn todo_after_fingerprint(
    client: Client,
    track: Track,
    links: Seq<Link>,
    run: FpcalcRun,
) -> Todo {
    match (fingerprint_of(run), client.acoustid_api_key) {
        (Some((seconds, fingerprint)), Some(api_key)) => Todo::AcoustId {
            links,
            form: acoustid_form(api_key, seconds, fingerprint),
        },
        _ => metadata_todo(client, track, links),
    }
}

/// The links that follow from the answer of AcoustID, if it knows the recording.
pub open spec fn exact_links(client: Client, reply: Reply<AcoustIdResponse>) -> Option<Seq<Link>> {
    match success_body(reply) {
        Some(response) => if response.status@ == "ok"@ {
            match best_recording(result_views(response.results@)) {
                Some(recording) => {
                    let links = recording_links(recording, client.on, client.off);
                    if links.len() > 0 {
                        Some(links)
                    } else {
                        None
                    }
                },
                None => None,
            }
        } else {
            None
        },
        None => None,
    }
}

/// The links that follow from an exact match: with searches for what it leaves
/// open.
pub open spec fn completed_links(client: Client, track: Track, exact: Seq<Link>) -> Seq<Link> {
    exact + (if client.uses(ExternalLinkService::MusicBrainz) {
        missing_searches(exact, track)
    } else {
        Seq::empty()
    })
}

/// What is done after AcoustID has answered.
pub open spec fn todo_after_acoustid(
    client: Client,
    track: Track,
    links: Seq<Link>,
    reply: Reply<AcoustIdResponse>,
) -> Todo {
    match exact_links(client, reply) {
        Some(exact) => lyrics_todo(client, track, links + completed_links(client, track, exact)),
        None => metadata_todo(client, track, links),
    }
}

/// The links to MusicBrainz: to the recording if it was found or else to a search
/// for it, and to searches for the artist and the album.
pub open spec fn metadata_links(track: Track, reply: Reply<MusicBrainzResponse>) -> Seq<Link> {
    let found = match success_body(reply) {
        Some(response) => recording_found(response, track.duration_ms),
        None => None,
    };
    seq![
        match found {
            Some(found) => found,
            None => link(
                "MusicBrainz recording search"@,
                musicbrainz_search(human_phrase(track), "recording"@),
            ),
        },
    ] + musicbrainz_entity_searches(track)
}

/// The link to LRCLIB: to the lyrics if it has them, or else to a search.
pub open spec fn lyrics_link(track: Track, found: bool) -> Link {
    if found {
        link(
            "LRCLIB lyrics"@,
            query_address("https://lrclib.net/api/get"@, lrclib_params(track)),
        )
    } else {
        link(
            "LRCLIB lyrics search"@,
            query_address(
                "https://lrclib.net/api/search"@,
                seq![
                    ("track_name"@, track.title),
                    ("artist_name"@, first_or_empty(track.artists)),
                ],
            ),
        )
    }
}

/// Songlink asks for patience.
pub open spec fn refused(reply: SonglinkReply) -> bool {
    reply is Answer && reply->status == TOO_MANY_REQUESTS
}

/// The link that follows from an answer of Songlink.
pub open spec fn songlink_link(track: Track, reply: SonglinkReply) -> Link {
    let found = match reply {
        SonglinkReply::Answer { status, body: Some(response), .. } => if success_status(status) {
            songlink_found(response)
        } else {
            None
        },
        _ => None,
    };
    match found {
        Some(found) => found,
        None => songlink_fallback(track),
    }
}

/// The client after an answer of Songlink: where it has asked for patience too
/// often, it is not asked again.
pub open spec fn client_after_songlink(
    client: Client,
    retries: nat,
    reply: SonglinkReply,
) -> Client {
    if refused(reply) && retries + 1 >= SONGLINK_MAX_ATTEMPTS {
        Client { songlink_rate_limited: true, ..client }
    } else {
        client
    }
}

/// What is done after Songlink has answered.
pub open spec fn todo_after_songlink(
    client: Client,
    track: Track,
    links: Seq<Link>,
    retries: nat,
    reply: SonglinkReply,
) -> Todo {
    if refused(reply) && retries + 1 < SONGLINK_MAX_ATTEMPTS {
        Todo::Wait {
            links,
            url: songlink_lookup(client, track),
            retries: retries + 1,
            seconds: retry_delay_seconds(opt_text(reply->retry_after), retries),
        }
    } else {
        catalog_todo(client, track, links.push(songlink_link(track, reply)))
    }
}

/// The link that follows from the answer of Genius.
pub open spec fn genius_link(track: Track, reply: Reply<GeniusResponse>) -> Link {
    let found = match success_body(reply) {
        Some(response) => first_hit(response.response.hits@),
        None => None,
    };
    match found {
        Some(found) => found,
        None => genius_fallback(track),
    }
}

impl EnrichmentClient {
    /// A client with these credentials, limited to the enabled services, if any
    /// are named, and without the disabled ones.
    pub fn new(
        genius_access_token: Option<String>,
        songlink_user_country: String,
        acoustid_api_key: Option<String>,
        enabled_external_link_services: Vec<String>,
        disabled_external_link_services: Vec<String>,
    ) -> (res: Result<Self, UnknownService>)
        ensures
            ({
                let on = texts(enabled_external_link_services@);
                let off = texts(disabled_external_link_services@);
                match res {
                    Ok(client) => {
                        &&& first_unknown(on) is None
                        &&& first_unknown(off) is None
                        &&& client@ == (Client {
                            genius_access_token: opt_text(genius_access_token),
                            acoustid_api_key: opt_text(acoustid_api_key),
                            songlink_user_country: songlink_user_country@,
                            songlink_rate_limited: false,
                            acoustid_fpcalc_missing: false,
                            on: services_meant(on),
                            off: services_meant(off),
                        })
                    },
                    Err(error) => if first_unknown(on) is Some {
                        first_unknown(on) == Some(error.name@)
                    } else {
                        first_unknown(off) == Some(error.name@)
                    },
                }
            }),
    {
        let enabled_services = match parse_external_link_services(&enabled_external_link_services) {
            Ok(services) => services,
            Err(error) => return Err(error),
        };
        let disabled_services = match parse_external_link_services(
            &disabled_external_link_services,
        ) {
            Ok(services) => services,
            Err(error) => return Err(error),
        };
        Ok(
            EnrichmentClient {
                genius_access_token,
                acoustid_api_key,
                songlink_user_country,
                songlink_rate_limited: false,
                acoustid_fpcalc_missing: false,
                enabled_services,
                disabled_services,
            },
        )
    }

    /// Whether `service` may be used.
    pub fn service_enabled(&self, service: ExternalLinkService) -> (res: bool)
        ensures
            res == self@.uses(service),
    {
        external_link_service_enabled(service, &self.enabled_services, &self.disabled_services)
    }

    /// Whether a fingerprint would lead to links.
    pub fn should_try_acoustid(&self) -> (res: bool)
        ensures
            res == self@.tries_acoustid(),
    {
        self.service_enabled(ExternalLinkService::AcoustId) && (self.service_enabled(
            ExternalLinkService::MusicBrainz,
        ) || self.service_enabled(ExternalLinkService::ListenBrainz) || self.service_enabled(
            ExternalLinkService::TheAudioDb,
        ))
    }

    /// What is to be done first for `track`.
    pub fn links_for(&self, track: &LikedTrack, audio: Option<&TrackAudio>) -> (res: Step)
        ensures
            res@ == first_todo(self@, track@, audio),
    {
        let mut links = youtube_links(track, &self.enabled_services, &self.disabled_services);
        if self.service_enabled(ExternalLinkService::LastFm) {
            extend_links(&mut links, lastfm_links(track));
        }
        if self.service_enabled(ExternalLinkService::RuTracker) {
            extend_links(&mut links, rutracker_links(track));
        }
        assert(link_views(links@) =~= first_links(self@, track@));
        if self.should_try_acoustid() && self.acoustid_api_key.is_some()
            && !self.acoustid_fpcalc_missing {
            if let Some(audio) = audio {
                if let Ok(suffix) = fingerprint_file_suffix(audio) {
                    return Step::Fingerprint { links, suffix };
                }
            }
        }
        self.metadata_step(track, links)
    }

    /// What is to be done where the audio has not led to an exact match.
    fn metadata_step(&self, track: &LikedTrack, links: Vec<ExternalLink>) -> (res: Step)
        ensures
            res@ == metadata_todo(self@, track@, link_views(links@)),
    {
        if self.service_enabled(ExternalLinkService::MusicBrainz) {
            Step::MusicBrainz { links, url: musicbrainz_api_url(track) }
        } else {
            self.lyrics_step(track, links)
        }
    }

    /// What is to be done after MusicBrainz.
    fn lyrics_step(&self, track: &LikedTrack, links: Vec<ExternalLink>) -> (res: Step)
        ensures
            res@ == lyrics_todo(self@, track@, link_views(links@)),
    {
        if self.service_enabled(ExternalLinkService::Lrclib) {
            Step::Lrclib { links, url: lrclib_get_url(track) }
        } else {
            self.songlink_step(track, links)
        }
    }

    /// What is to be done after LRCLIB.
    fn songlink_step(&self, track: &LikedTrack, links: Vec<ExternalLink>) -> (res: Step)
        ensures
            res@ == songlink_todo(self@, track@, link_views(links@)),
    {
        if !self.service_enabled(ExternalLinkService::Songlink) {
            self.catalog_step(track, links)
        } else if self.songlink_rate_limited {
            let mut links = links;
            push_link(&mut links, None, "Songlink/Odesli lookup", songlink_lookup_url(track));
            self.catalog_step(track, links)
        } else {
            let url = songlink_api_url(track, self.songlink_user_country.as_str());
            Step::Songlink { links, url, retries: 0 }
        }
    }

    /// What is to be done after Songlink.
    fn catalog_step(&self, track: &LikedTrack, links: Vec<ExternalLink>) -> (res: Step)
        ensures
            res@ == catalog_todo(self@, track@, link_views(links@)),
    {
        let mut links = links;
        extend_links(
            &mut links,
            related_music_service_links(track, &self.enabled_services, &self.disabled_services),
        );
        extend_links(
            &mut links,
            wikimedia_links(track, &self.enabled_services, &self.disabled_services),
        );
        if !self.service_enabled(ExternalLinkService::Genius) {
            return Step::Done { links };
        }
        match &self.genius_access_token {
            Some(token) => Step::Genius { links, url: genius_api_url(track), token: token.clone() },
            None => {
                push_link(&mut links, None, "Genius search", genius_search_url(track));
                Step::Done { links }
            },
        }
    }

    /// What is to be done after `fpcalc` has run.
    pub fn after_fingerprint(
        &mut self,
        track: &LikedTrack,
        links: Vec<ExternalLink>,
        run: FpcalcRun,
    ) -> (res: Step)
        ensures
            final(self)@ == (Client {
                acoustid_fpcalc_missing: old(self)@.acoustid_fpcalc_missing || run is Missing,
                ..old(self)@
            }),
            res@ == todo_after_fingerprint(final(self)@, track@, link_views(links@), run),
    {
        match acoustid_fingerprint(run) {
            Ok(Some(found)) => {
                if let Some(api_key) = &self.acoustid_api_key {
                    let mut form: Vec<(String, String)> = Vec::new();
                    form.push(("client".to_owned(), api_key.clone()));
                    form.push(("meta".to_owned(), ACOUSTID_META.to_owned()));
                    form.push(
                        ("duration".to_owned(), decimal_string(found.duration_seconds as u128)),
                    );
                    form.push(("fingerprint".to_owned(), found.fingerprint.clone()));
                    assert(form_view(form@) =~= acoustid_form(
                        api_key@,
                        found.duration_seconds as nat,
                        found.fingerprint@,
                    ));
                    return Step::AcoustId { links, form };
                }
            },
            Ok(None) => {
                self.acoustid_fpcalc_missing = true;
            },
            Err(_) => {},
        }
        self.metadata_step(track, links)
    }

    /// What is to be done after AcoustID has answered.
    pub fn after_acoustid(
        &self,
        track: &LikedTrack,
        links: Vec<ExternalLink>,
        reply: Reply<AcoustIdResponse>,
    ) -> (res: Step)
        ensures
            res@ == todo_after_acoustid(self@, track@, link_views(links@), reply),
    {
        if let Some(response) = reply.into_body() {
            if *response.status.as_str() == *"ok" {
                if let Some(recording) = best_acoustid_recording(response) {
                    let mut exact = musicbrainz_links_from_acoustid_recording(
                        &recording,
                        &self.enabled_services,
                        &self.disabled_services,
                    );
                    assert(exact@.len() == link_views(exact@).len());
                    if exact.len() > 0 {
                        if self.service_enabled(ExternalLinkService::MusicBrainz) {
                            add_missing_musicbrainz_search_links(&mut exact, track);
                        }
                        let mut links = links;
                        proof {
                            let found = recording_links(recording@, self@.on, self@.off);
                            assert(link_views(exact@) =~= completed_links(self@, track@, found));
                        }
                        extend_links(&mut links, exact);
                        return self.lyrics_step(track, links);
                    }
                }
            }
        }
        self.metadata_step(track, links)
    }

    /// What is to be done after MusicBrainz has answered.
    pub fn after_musicbrainz(
        &self,
        track: &LikedTrack,
        links: Vec<ExternalLink>,
        reply: Reply<MusicBrainzResponse>,
    ) -> (res: Step)
        ensures
            res@ == lyrics_todo(
                self@,
                track@,
                link_views(links@) + metadata_links(track@, reply),
            ),
    {
        let found = match reply.into_body() {
            Some(response) => musicbrainz_recording_link(&response, track),
            None => None,
        };
        let ghost before = link_views(links@);
        let mut links = links;
        push_link(
            &mut links,
            found,
            "MusicBrainz recording search",
            musicbrainz_search_url(track),
        );
        extend_links(&mut links, musicbrainz_entity_search_links(track));
        assert(link_views(links@) =~= before + metadata_links(track@, reply));
        self.lyrics_step(track, links)
    }

    /// What is to be done after LRCLIB has answered.
    pub fn after_lrclib(
        &self,
        track: &LikedTrack,
        links: Vec<ExternalLink>,
        reply: Reply<()>,
    ) -> (res: Step)
        ensures
            res@ == songlink_todo(
                self@,
                track@,
                link_views(links@).push(lyrics_link(track@, succeeded(reply))),
            ),
    {
        let mut links = links;
        if reply.is_success() {
            push_link(&mut links, None, "LRCLIB lyrics", lrclib_get_url(track));
        } else {
            push_link(&mut links, None, "LRCLIB lyrics search", lrclib_search_url(track));
        }
        self.songlink_step(track, links)
    }

    /// What is to be done after Songlink has answered an attempt that came after
    /// `retries` others.
    pub fn after_songlink(
        &mut self,
        track: &LikedTrack,
        links: Vec<ExternalLink>,
        retries: usize,
        reply: SonglinkReply,
    ) -> (res: Step)
        ensures
            final(self)@ == client_after_songlink(old(self)@, retries as nat, reply),
            res@ == todo_after_songlink(
                old(self)@,
                track@,
                link_views(links@),
                retries as nat,
                reply,
            ),
    {
        let mut found: Option<ExternalLink> = None;
        if let SonglinkReply::Answer { status, retry_after, body } = reply {
            if status == TOO_MANY_REQUESTS {
                if retries < SONGLINK_MAX_ATTEMPTS - 1 {
                    let header = match &retry_after {
                        Some(text) => Some(text.as_str()),
                        None => None,
                    };
                    let seconds: u64 = songlink_retry_delay(header, retries);
                    let url = songlink_api_url(track, self.songlink_user_country.as_str());
                    return Step::Wait { links, url, retries: retries + 1, seconds };
                }
                self.songlink_rate_limited = true;
            } else if 200 <= status && status < 300 {
                if let Some(response) = body {
                    found = songlink_page_link(&response);
                }
            }
        }
        let mut links = links;
        push_link(&mut links, found, "Songlink/Odesli lookup", songlink_lookup_url(track));
        self.catalog_step(track, links)
    }

    /// What is to be done after the wait: Songlink is asked again.
    pub fn after_wait(links: Vec<ExternalLink>, url: String, retries: usize) -> (res: Step)
        ensures
            res@ == (Todo::Songlink {
                links: link_views(links@),
                url: url@,
                retries: retries as nat,
            }),
    {
        Step::Songlink { links, url, retries }
    }

    /// What is to be done after Genius has answered: nothing more.
    pub fn after_genius(
        track: &LikedTrack,
        links: Vec<ExternalLink>,
        reply: Reply<GeniusResponse>,
    ) -> (res: Step)
        ensures
            res@ == (Todo::Done { links: link_views(links@).push(genius_link(track@, reply)) }),
    {
        let found = match reply.into_body() {
            Some(response) => genius_hit_link(&response),
            None => None,
        };
        let mut links = links;
        push_link(&mut links, found, "Genius search", genius_search_url(track));
        Step::Done { links }
    }
}

/// Adds the link that was found or else the one with the given label and address.
fn push_link(links: &mut Vec<ExternalLink>, found: Option<ExternalLink>, label: &str, url: String)
    ensures
        link_views(final(links)@) == link_views(old(links)@).push(
            match found {
                Some(found) => found@,
                None => link(label@, url@),
            },
        ),
{
    let chosen = match found {
        Some(found) => found,
        None => ExternalLink::new(label, url),
    };
    let ghost before = link_views(links@);
    let ghost view = chosen@;
    links.push(chosen);
    assert(link_views(links@) =~= before.push(view));
}

} // verus!
