//! What the lookup services answer, and what is made of it.
use vstd::prelude::*;

use crate::audio::{extension_of, TrackAudio};
use crate::double::{
    order_key, positive_finite, round_to_u64, rounded, total_order_key, INFINITY_BITS,
};
use crate::enrichment::links::{
    extend_links, link, link_views, musicbrainz_entity_search_links, musicbrainz_entity_searches,
    push_if, link_if, ExternalLink, Link,
};
use crate::enrichment::services::{
    enabled, external_link_service_enabled, ExternalLinkService, ServiceSet,
};
use crate::enrichment::urls::{
    concat, listenbrainz_recording_metadata_url, query_address, query_address_1,
    theaudiodb_album_mbid_url, theaudiodb_artist_mbid_url, theaudiodb_track_mbid_url,
};
use crate::text::{blank, is_blank, parse_unsigned, parsed_unsigned, trim, trimmed};
use crate::yandex::{LikedTrack, Track};

verus! {

// ---------------------------------------------------------------------------
// MusicBrainz
// ---------------------------------------------------------------------------
/// The lowest score of a recording that counts as found.
pub const MUSICBRAINZ_MIN_SCORE: i64 = 90;

/// By how many milliseconds the duration of a recording may differ.
pub const MUSICBRAINZ_DURATION_TOLERANCE_MS: u128 = 7_000;

/// A recording that MusicBrainz found.
#[derive(Debug, Clone, PartialEq, Eq)]
pub struct MusicBrainzRecording {
    pub id: String,
    pub score: i64,
    pub length: Option<u64>,
}

/// What MusicBrainz answers.
#[derive(Debug, Clone, PartialEq, Eq)]
pub struct MusicBrainzResponse {
    pub recordings: Vec<MusicBrainzRecording>,
}

/// A recording is the track: its score is high enough and, where both durations
/// are known, they are close.
pub open spec fn recording_matches(
    recording: MusicBrainzRecording,
    duration_ms: Option<u128>,
) -> bool {
    &&& recording.score >= MUSICBRAINZ_MIN_SCORE
    &&& match (duration_ms, recording.length) {
        (Some(expected), Some(actual)) => -MUSICBRAINZ_DURATION_TOLERANCE_MS <= expected - actual
            <= MUSICBRAINZ_DURATION_TOLERANCE_MS,
        _ => true,
    }
}

/// Whether `recording` is `track`.
pub fn musicbrainz_recording_matches(
    recording: &MusicBrainzRecording,
    track: &LikedTrack,
) -> (res: bool)
    ensures
        res == recording_matches(*recording, track@.duration_ms),
{
    if recording.score < MUSICBRAINZ_MIN_SCORE {
        return false;
    }
    if let (Some(expected), Some(length)) = (track.duration_ms, recording.length) {
        let actual: u128 = length as u128;
        let diff: u128 = if expected > actual {
            expected - actual
        } else {
            actual - expected
        };
        if diff > MUSICBRAINZ_DURATION_TOLERANCE_MS {
            return false;
        }
    }
    true
}

/// The id of the first recording that is the track.
pub open spec fn matching_recording(
    recordings: Seq<MusicBrainzRecording>,
    duration_ms: Option<u128>,
) -> Option<Seq<char>>
    decreases recordings.len(),
{
    if recordings.len() == 0 {
        None
    } else if recording_matches(recordings[0], duration_ms) {
        Some(recordings[0].id@)
    } else {
        matching_recording(recordings.drop_first(), duration_ms)
    }
}

/// The address of a recording at MusicBrainz.
pub open spec fn recording_page(id: Seq<char>) -> Seq<char> {
    "https://musicbrainz.org/recording/"@ + id
}

/// The link to the recording that MusicBrainz found.
pub open spec fn recording_found(
    response: MusicBrainzResponse,
    duration_ms: Option<u128>,
) -> Option<Link> {
    match matching_recording(response.recordings@, duration_ms) {
        Some(id) => Some(link("MusicBrainz recording"@, recording_page(id))),
        None => None,
    }
}

/// What an optional link says.
pub open spec fn opt_link(link: Option<ExternalLink>) -> Option<Link> {
    match link {
        Some(link) => Some(link@),
        None => None,
    }
}

/// The link to the recording that MusicBrainz found, if one of them is `track`.
pub fn musicbrainz_recording_link(
    response: &MusicBrainzResponse,
    track: &LikedTrack,
) -> (res: Option<ExternalLink>)
    ensures
        opt_link(res) == recording_found(*response, track@.duration_ms),
{
    let recordings = &response.recordings;
    assert(recordings@.skip(0) =~= recordings@);
    for i in 0..recordings.len()
        invariant
            recordings == &response.recordings,
            matching_recording(recordings@, track@.duration_ms) == matching_recording(
                recordings@.skip(i as int),
                track@.duration_ms,
            ),
    {
        assert(recordings@.skip(i as int).drop_first() =~= recordings@.skip(i + 1));
        if musicbrainz_recording_matches(&recordings[i], track) {
            return Some(
                ExternalLink::new(
                    "MusicBrainz recording",
                    concat("https://musicbrainz.org/recording/", recordings[i].id.as_str()),
                ),
            );
        }
    }
    None
}

/// A list of links holds one with the given label.
pub open spec fn has_label(links: Seq<Link>, label: Seq<char>) -> bool {
    exists|i: int| 0 <= i < links.len() && (#[trigger] links[i]).label == label
}

/// The searches at MusicBrainz for those of the artist and the album that are not
/// linked already.
pub open spec fn missing_searches(links: Seq<Link>, track: Track) -> Seq<Link> {
    let has_artist = has_label(links, "MusicBrainz artist"@);
    let has_album = has_label(links, "MusicBrainz album"@);
    musicbrainz_entity_searches(track).filter(
        |search: Link|
            search.label == "MusicBrainz artist search"@ && !has_artist || search.label
                == "MusicBrainz album search"@ && !has_album,
    )
}

/// Whether one of `links` has the given label.
fn any_label(links: &Vec<ExternalLink>, label: &str) -> (res: bool)
    ensures
        res == has_label(link_views(links@), label@),
{
    for i in 0..links.len()
        invariant
            forall|j: int| 0 <= j < i ==> (#[trigger] links@[j]).label@ != label@,
    {
        if *links[i].label.as_str() == *label {
            assert(link_views(links@)[i as int].label == label@);
            return true;
        }
    }
    assert forall|j: int| 0 <= j < links@.len() implies (#[trigger] link_views(links@)[j]).label
        != label@ by {
        assert(links@[j].label@ != label@);
    }
    false
}

/// Adds searches at MusicBrainz for those of the artist and the album that are
/// not linked already.
pub fn add_missing_musicbrainz_search_links(links: &mut Vec<ExternalLink>, track: &LikedTrack)
    ensures
        link_views(final(links)@) == link_views(old(links)@) + missing_searches(
            link_views(old(links)@),
            track@,
        ),
{
    let has_artist = any_label(links, "MusicBrainz artist");
    let has_album = any_label(links, "MusicBrainz album");
    let ghost before = link_views(links@);
    let ghost keep = |search: Link|
        search.label == "MusicBrainz artist search"@ && !has_artist || search.label
            == "MusicBrainz album search"@ && !has_album;
    let searches = musicbrainz_entity_search_links(track);
    let ghost found = link_views(searches@);
    let mut wanted: Vec<ExternalLink> = Vec::new();
    proof {
        reveal(Seq::filter);
        assert(link_views(wanted@) =~= found.take(0).filter(keep));
    }
    for i in 0..searches.len()
        invariant
            keep == (|search: Link|
                search.label == "MusicBrainz artist search"@ && !has_artist || search.label
                    == "MusicBrainz album search"@ && !has_album),
            found == link_views(searches@),
            link_views(wanted@) == found.take(i as int).filter(keep),
    {
        broadcast use Seq::lemma_filter_push;

        let search = &searches[i];
        let label = search.label.as_str();
        assert(found.take(i + 1) =~= found.take(i as int).push(search@));
        if *label == *"MusicBrainz artist search" && !has_artist || *label
            == *"MusicBrainz album search" && !has_album {
            let copy = ExternalLink::new(label, search.url.clone());
            let ghost old_wanted = link_views(wanted@);
            wanted.push(copy);
            assert(link_views(wanted@) =~= old_wanted.push(search@));
        }
    }
    assert(found.take(found.len() as int) =~= found);
    extend_links(links, wanted);
    proof {
        assert(missing_searches(before, track@) == found.filter(keep));
    }
}

// ---------------------------------------------------------------------------
// AcoustID
// ---------------------------------------------------------------------------
/// The address of the AcoustID lookup.
pub const ACOUSTID_LOOKUP_URL: &'static str = "https://api.acoustid.org/v2/lookup";

/// What AcoustID is asked to tell of each recording.
pub const ACOUSTID_META: &'static str = "recordings releasegroups compress";

/// The bits of the double nearest to 0.80, the lowest score that is trusted.
pub const ACOUSTID_MIN_SCORE_BITS: u64 = 0x3fe9_9999_9999_999a;

/// An artist of a recording.
#[derive(Debug, Clone, PartialEq, Eq)]
pub struct AcoustIdArtist {
    pub id: String,
}

/// A release group, which people call an album.
#[derive(Debug, Clone, PartialEq, Eq)]
pub struct AcoustIdReleaseGroup {
    pub id: String,
}

/// A recording of MusicBrainz that AcoustID found.
#[derive(Debug, Clone, PartialEq, Eq)]
pub struct AcoustIdRecording {
    pub id: String,
    pub artists: Vec<AcoustIdArtist>,
    pub releasegroups: Vec<AcoustIdReleaseGroup>,
}

/// A result of AcoustID. The score is a double, kept as its bits.
#[derive(Debug, Clone, PartialEq, Eq)]
pub struct AcoustIdResult {
    pub score_bits: u64,
    pub recordings: Vec<AcoustIdRecording>,
}

/// An error that AcoustID reports.
#[derive(Debug, Clone, PartialEq, Eq)]
pub struct AcoustIdError {
    pub message: String,
}

/// What AcoustID answers.
#[derive(Debug, Clone, PartialEq, Eq)]
pub struct AcoustIdResponse {
    pub status: String,
    pub results: Vec<AcoustIdResult>,
    pub error: Option<AcoustIdError>,
}

/// What an [`AcoustIdRecording`] says.
pub struct Recording {
    pub id: Seq<char>,
    pub artists: Seq<Seq<char>>,
    pub releasegroups: Seq<Seq<char>>,
}

impl View for AcoustIdRecording {
    type V = Recording;

    open spec fn view(&self) -> Recording {
        Recording {
            id: self.id@,
            artists: self.artists@.map_values(|artist: AcoustIdArtist| artist.id@),
            releasegroups: self.releasegroups@.map_values(
                |group: AcoustIdReleaseGroup| group.id@,
            ),
        }
    }
}

/// What an [`AcoustIdResult`] says.
pub struct ScoredRecordings {
    pub score_bits: u64,
    pub recordings: Seq<Recording>,
}

impl View for AcoustIdResult {
    type V = ScoredRecordings;

    open spec fn view(&self) -> ScoredRecordings {
        ScoredRecordings {
            score_bits: self.score_bits,
            recordings: self.recordings@.map_values(|recording: AcoustIdRecording| recording@),
        }
    }
}

/// What a list of results says.
pub open spec fn result_views(results: Seq<AcoustIdResult>) -> Seq<ScoredRecordings> {
    results.map_values(|result: AcoustIdResult| result@)
}

/// The score is a number of at least 0.80.
pub open spec fn trusted_score(bits: u64) -> bool {
    ACOUSTID_MIN_SCORE_BITS <= bits <= INFINITY_BITS
}

/// The first recording with an id.
pub open spec fn first_identified(recordings: Seq<Recording>) -> Option<Recording>
    decreases recordings.len(),
{
    if recordings.len() == 0 {
        None
    } else if !blank(recordings[0].id) {
        Some(recordings[0])
    } else {
        first_identified(recordings.drop_first())
    }
}

/// A result that can be used: its score is trusted and it has a recording with
/// an id.
pub open spec fn usable(result: ScoredRecordings) -> bool {
    trusted_score(result.score_bits) && first_identified(result.recordings) is Some
}

/// Where the best result that can be used stands: the one with the highest score
/// and, among equals, the first.
pub open spec fn best_result(results: Seq<ScoredRecordings>) -> Option<int>
    decreases results.len(),
{
    if results.len() == 0 {
        None
    } else {
        let last = results.len() - 1;
        match best_result(results.drop_last()) {
            Some(best) => if usable(results[last]) && total_order_key(results[last].score_bits)
                > total_order_key(results[best].score_bits) {
                Some(last)
            } else {
                Some(best)
            },
            None => if usable(results[last]) {
                Some(last)
            } else {
                None
            },
        }
    }
}

/// The first recording with an id in the best result.
pub open spec fn best_recording(results: Seq<ScoredRecordings>) -> Option<Recording> {
    match best_result(results) {
        Some(i) => first_identified(results[i].recordings),
        None => None,
    }
}

/// The best result is a usable one, no usable one has a higher score, and none
/// before it has the same score; there is none only if no result is usable.
pub proof fn lemma_best_result(results: Seq<ScoredRecordings>)
    ensures
        match best_result(results) {
            Some(best) => {
                &&& 0 <= best < results.len()
                &&& usable(results[best])
                &&& forall|i: int|
                    0 <= i < results.len() && usable(#[trigger] results[i]) ==> {
                        &&& total_order_key(results[i].score_bits) <= total_order_key(
                            results[best].score_bits,
                        )
                        &&& i < best ==> total_order_key(results[i].score_bits)
                            < total_order_key(results[best].score_bits)
                    }
            },
            None => forall|i: int| 0 <= i < results.len() ==> !usable(#[trigger] results[i]),
        },
    decreases results.len(),
{
    if results.len() > 0 {
        let front = results.drop_last();
        lemma_best_result(front);
        assert forall|i: int| 0 <= i < front.len() implies front[i] == results[i] by {}
    }
}

/// Where the first recording with an id stands.
fn position_identified(recordings: &Vec<AcoustIdRecording>) -> (res: Option<usize>)
    ensures
        ({
            let views = recordings@.map_values(|recording: AcoustIdRecording| recording@);
            match res {
                Some(i) => i < recordings@.len() && first_identified(views) == Some(
                    recordings@[i as int]@,
                ),
                None => first_identified(views) is None,
            }
        }),
{
    let ghost views = recordings@.map_values(|recording: AcoustIdRecording| recording@);
    assert(views.skip(0) =~= views);
    for i in 0..recordings.len()
        invariant
            views == recordings@.map_values(|recording: AcoustIdRecording| recording@),
            first_identified(views) == first_identified(views.skip(i as int)),
    {
        assert(views.skip(i as int).drop_first() =~= views.skip(i + 1));
        assert(views.skip(i as int)[0] == recordings@[i as int]@);
        if !is_blank(recordings[i].id.as_str()) {
            return Some(i);
        }
    }
    None
}

/// The first recording with an id in the best result: the one with the highest
/// score of at least 0.80.
pub fn best_acoustid_recording(response: AcoustIdResponse) -> (res: Option<AcoustIdRecording>)
    ensures
        match res {
            Some(recording) => best_recording(result_views(response.results@)) == Some(recording@),
            None => best_recording(result_views(response.results@)) is None,
        },
{
    let mut results = response.results;
    let ghost views = result_views(results@);
    let mut best: Option<(usize, usize)> = None;
    assert(views.take(0) =~= Seq::empty());
    for i in 0..results.len()
        invariant
            views == result_views(results@),
            match best {
                Some((b, k)) => {
                    &&& best_result(views.take(i as int)) == Some(b as int)
                    &&& b < i
                    &&& k < results@[b as int].recordings@.len()
                    &&& first_identified(views[b as int].recordings) == Some(
                        results@[b as int].recordings@[k as int]@,
                    )
                },
                None => best_result(views.take(i as int)) is None,
            },
    {
        assert(views.take(i + 1).drop_last() =~= views.take(i as int));
        assert(views[i as int] == results@[i as int]@);
        let bits: u64 = results[i].score_bits;
        if ACOUSTID_MIN_SCORE_BITS <= bits && bits <= INFINITY_BITS {
            if let Some(k) = position_identified(&results[i].recordings) {
                let higher = match best {
                    Some((b, _)) => order_key(bits) > order_key(results[b].score_bits),
                    None => true,
                };
                if higher {
                    best = Some((i, k));
                }
            }
        }
    }
    assert(views.take(views.len() as int) =~= views);
    match best {
        Some((b, k)) => {
            let mut result = results.remove(b);
            Some(result.recordings.remove(k))
        },
        None => None,
    }
}

/// The first id that is not blank.
pub open spec fn first_id(ids: Seq<Seq<char>>) -> Option<Seq<char>>
    decreases ids.len(),
{
    if ids.len() == 0 {
        None
    } else if !blank(ids[0]) {
        Some(ids[0])
    } else {
        first_id(ids.drop_first())
    }
}

/// The links that follow from an exact match: of each of the recording, its
/// artist and its album that has an id, the pages and lookups of the enabled
/// services.
pub open spec fn recording_links(
    recording: Recording,
    on: Set<ExternalLinkService>,
    off: Set<ExternalLinkService>,
) -> Seq<Link> {
    let musicbrainz = enabled(ExternalLinkService::MusicBrainz, on, off);
    let listenbrainz = enabled(ExternalLinkService::ListenBrainz, on, off);
    let theaudiodb = enabled(ExternalLinkService::TheAudioDb, on, off);
    (if blank(recording.id) {
        Seq::empty()
    } else {
        link_if(
            musicbrainz,
            link("MusicBrainz recording"@, recording_page(recording.id)),
        ) + link_if(
            listenbrainz,
            link(
                "ListenBrainz recording metadata"@,
                query_address(
                    "https://api.listenbrainz.org/1/metadata/recording/"@,
                    seq![("recording_mbids"@, recording.id), ("inc"@, "artist release"@)],
                ),
            ),
        ) + link_if(
            theaudiodb,
            link(
                "TheAudioDB track MBID lookup"@,
                query_address_1(
                    "https://www.theaudiodb.com/api/v1/json/2/track-mb.php"@,
                    "i"@,
                    recording.id,
                ),
            ),
        )
    }) + (match first_id(recording.artists) {
        None => Seq::empty(),
        Some(id) => link_if(
            musicbrainz,
            link("MusicBrainz artist"@, "https://musicbrainz.org/artist/"@ + id),
        ) + link_if(
            theaudiodb,
            link(
                "TheAudioDB artist MBID lookup"@,
                query_address_1(
                    "https://www.theaudiodb.com/api/v1/json/2/artist-mb.php"@,
                    "i"@,
                    id,
                ),
            ),
        ),
    }) + (match first_id(recording.releasegroups) {
        None => Seq::empty(),
        Some(id) => link_if(
            musicbrainz,
            link("MusicBrainz album"@, "https://musicbrainz.org/release-group/"@ + id),
        ) + link_if(
            theaudiodb,
            link(
                "TheAudioDB album MBID lookup"@,
                query_address_1(
                    "https://www.theaudiodb.com/api/v1/json/2/album-mb.php"@,
                    "i"@,
                    id,
                ),
            ),
        ),
    })
}

/// The first artist with an id.
fn first_artist(artists: &Vec<AcoustIdArtist>) -> (res: Option<&str>)
    ensures
        ({
            let ids = artists@.map_values(|artist: AcoustIdArtist| artist.id@);
            match res {
                Some(id) => first_id(ids) == Some(id@),
                None => first_id(ids) is None,
            }
        }),
{
    let ghost ids = artists@.map_values(|artist: AcoustIdArtist| artist.id@);
    assert(ids.skip(0) =~= ids);
    for i in 0..artists.len()
        invariant
            ids == artists@.map_values(|artist: AcoustIdArtist| artist.id@),
            first_id(ids) == first_id(ids.skip(i as int)),
    {
        assert(ids.skip(i as int).drop_first() =~= ids.skip(i + 1));
        assert(ids.skip(i as int)[0] == artists@[i as int].id@);
        if !is_blank(artists[i].id.as_str()) {
            return Some(artists[i].id.as_str());
        }
    }
    None
}

/// The first release group with an id.
fn first_release_group(groups: &Vec<AcoustIdReleaseGroup>) -> (res: Option<&str>)
    ensures
        ({
            let ids = groups@.map_values(|group: AcoustIdReleaseGroup| group.id@);
            match res {
                Some(id) => first_id(ids) == Some(id@),
                None => first_id(ids) is None,
            }
        }),
{
    let ghost ids = groups@.map_values(|group: AcoustIdReleaseGroup| group.id@);
    assert(ids.skip(0) =~= ids);
    for i in 0..groups.len()
        invariant
            ids == groups@.map_values(|group: AcoustIdReleaseGroup| group.id@),
            first_id(ids) == first_id(ids.skip(i as int)),
    {
        assert(ids.skip(i as int).drop_first() =~= ids.skip(i + 1));
        assert(ids.skip(i as int)[0] == groups@[i as int].id@);
        if !is_blank(groups[i].id.as_str()) {
            return Some(groups[i].id.as_str());
        }
    }
    None
}

/// The links that follow from an exact match.
pub fn musicbrainz_links_from_acoustid_recording(
    recording: &AcoustIdRecording,
    enabled_services: &ServiceSet,
    disabled_services: &ServiceSet,
) -> (res: Vec<ExternalLink>)
    ensures
        link_views(res@) == recording_links(recording@, enabled_services@, disabled_services@),
{
    let musicbrainz = external_link_service_enabled(
        ExternalLinkService::MusicBrainz,
        enabled_services,
        disabled_services,
    );
    let listenbrainz = external_link_service_enabled(
        ExternalLinkService::ListenBrainz,
        enabled_services,
        disabled_services,
    );
    let theaudiodb = external_link_service_enabled(
        ExternalLinkService::TheAudioDb,
        enabled_services,
        disabled_services,
    );
    let mut links: Vec<ExternalLink> = Vec::new();
    let id = recording.id.as_str();
    if !is_blank(id) {
        push_if(
            &mut links,
            musicbrainz,
            "MusicBrainz recording",
            concat("https://musicbrainz.org/recording/", id),
        );
        push_if(
            &mut links,
            listenbrainz,
            "ListenBrainz recording metadata",
            listenbrainz_recording_metadata_url(id),
        );
        push_if(
            &mut links,
            theaudiodb,
            "TheAudioDB track MBID lookup",
            theaudiodb_track_mbid_url(id),
        );
    }
    if let Some(id) = first_artist(&recording.artists) {
        push_if(
            &mut links,
            musicbrainz,
            "MusicBrainz artist",
            concat("https://musicbrainz.org/artist/", id),
        );
        push_if(
            &mut links,
            theaudiodb,
            "TheAudioDB artist MBID lookup",
            theaudiodb_artist_mbid_url(id),
        );
    }
    if let Some(id) = first_release_group(&recording.releasegroups) {
        push_if(
            &mut links,
            musicbrainz,
            "MusicBrainz album",
            concat("https://musicbrainz.org/release-group/", id),
        );
        push_if(
            &mut links,
            theaudiodb,
            "TheAudioDB album MBID lookup",
            theaudiodb_album_mbid_url(id),
        );
    }
    assert(link_views(links@) =~= recording_links(
        recording@,
        enabled_services@,
        disabled_services@,
    ));
    links
}

// ---------------------------------------------------------------------------
// Fingerprints
// ---------------------------------------------------------------------------
/// What AcoustID needs to recognise audio.
#[derive(Debug, Clone, PartialEq, Eq)]
pub struct AcoustIdFingerprint {
    pub duration_seconds: u64,
    pub fingerprint: String,
}

/// What `fpcalc` prints. The duration in seconds is a double, kept as its bits.
#[derive(Debug, Clone, PartialEq, Eq)]
pub struct FpcalcOutput {
    pub duration_bits: u64,
    pub fingerprint: String,
}

/// What came of running `fpcalc` over a file with the audio.
#[derive(Debug, Clone, PartialEq, Eq)]
pub enum FpcalcRun {
    /// It is not installed.
    Missing,
    /// The file could not be written, `fpcalc` could not be run, or what it
    /// printed could not be read.
    Failed { message: String },
    /// It gave up, with this status and these messages.
    GaveUp { status: String, stderr: String },
    /// It printed this.
    Printed(FpcalcOutput),
}

/// Why there is no fingerprint.
#[derive(Debug, Clone, PartialEq, Eq)]
pub enum FingerprintError {
    EmptyAudio,
    Failed { message: String },
    GaveUp { status: String, stderr: String },
    EmptyFingerprint,
    InvalidDuration,
}

impl FingerprintError {
    /// The error in words.
    pub fn message(&self) -> (res: String)
        ensures
            res@ == match self {
                FingerprintError::EmptyAudio => "downloaded audio is empty"@,
                FingerprintError::Failed { message } => message@,
                FingerprintError::GaveUp { status, stderr } => "fpcalc exited with "@ + status@
                    + ": "@ + trimmed(stderr@),
                FingerprintError::EmptyFingerprint => "fpcalc returned an empty fingerprint"@,
                FingerprintError::InvalidDuration => "fpcalc returned an invalid duration"@,
            },
    {
        match self {
            FingerprintError::EmptyAudio => "downloaded audio is empty".to_owned(),
            FingerprintError::Failed { message } => message.clone(),
            FingerprintError::GaveUp { status, stderr } => {
                let mut res = "fpcalc exited with ".to_owned();
                res.append(status.as_str());
                res.append(": ");
                res.append(trim(stderr.as_str()));
                res
            },
            FingerprintError::EmptyFingerprint => "fpcalc returned an empty fingerprint".to_owned(),
            FingerprintError::InvalidDuration => "fpcalc returned an invalid duration".to_owned(),
        }
    }
}

/// The suffix of the file that `fpcalc` is to read; none for empty audio.
pub fn fingerprint_file_suffix(audio: &TrackAudio) -> (res: Result<String, FingerprintError>)
    ensures
        match res {
            Ok(suffix) => audio.bytes@.len() > 0 && suffix@ == "."@ + extension_of(audio.codec@),
            Err(error) => audio.bytes@.len() == 0 && error is EmptyAudio,
        },
{
    if audio.bytes.len() == 0 {
        return Err(FingerprintError::EmptyAudio);
    }
    Ok(concat(".", audio.extension()))
}

/// What follows from a run of `fpcalc`: nothing if it is missing; an error if it
/// did not work, or printed a blank fingerprint, or a duration that is not a
/// positive finite number; else the fingerprint, and the duration rounded to
/// whole seconds.
pub open spec fn fingerprint_result(
    run: FpcalcRun,
    res: Result<Option<AcoustIdFingerprint>, FingerprintError>,
) -> bool {
    match run {
        FpcalcRun::Missing => res is Ok && res->Ok_0 is None,
        FpcalcRun::Failed { message } => res is Err && res->Err_0 == (FingerprintError::Failed {
            message,
        }),
        FpcalcRun::GaveUp { status, stderr } => res is Err && res->Err_0 == (
        FingerprintError::GaveUp { status, stderr }),
        FpcalcRun::Printed(output) => if blank(output.fingerprint@) {
            res is Err && res->Err_0 is EmptyFingerprint
        } else if !positive_finite(output.duration_bits) {
            res is Err && res->Err_0 is InvalidDuration
        } else {
            &&& res is Ok
            &&& res->Ok_0 is Some
            &&& res->Ok_0->0.fingerprint@ == output.fingerprint@
            &&& res->Ok_0->0.duration_seconds == whole_seconds(output.duration_bits)
        },
    }
}

/// A duration in whole seconds, or the largest `u64` if that is less.
pub open spec fn whole_seconds(duration_bits: u64) -> nat {
    if rounded(duration_bits) <= u64::MAX {
        rounded(duration_bits)
    } else {
        u64::MAX as nat
    }
}

/// What follows from a run of `fpcalc`.
pub fn acoustid_fingerprint(run: FpcalcRun) -> (res: Result<
    Option<AcoustIdFingerprint>,
    FingerprintError,
>)
    ensures
        fingerprint_result(run, res),
{
    match run {
        FpcalcRun::Missing => Ok(None),
        FpcalcRun::Failed { message } => Err(FingerprintError::Failed { message }),
        FpcalcRun::GaveUp { status, stderr } => Err(FingerprintError::GaveUp { status, stderr }),
        FpcalcRun::Printed(output) => {
            if is_blank(output.fingerprint.as_str()) {
                return Err(FingerprintError::EmptyFingerprint);
            }
            let bits: u64 = output.duration_bits;
            if bits == 0 || bits >= INFINITY_BITS {
                return Err(FingerprintError::InvalidDuration);
            }
            Ok(
                Some(
                    AcoustIdFingerprint {
                        duration_seconds: round_to_u64(bits),
                        fingerprint: output.fingerprint,
                    },
                ),
            )
        },
    }
}

// ---------------------------------------------------------------------------
// Songlink
// ---------------------------------------------------------------------------
/// How often Songlink is asked for one track at most.
pub const SONGLINK_MAX_ATTEMPTS: usize = 3;

/// How many seconds Songlink can make us wait at most.
pub const SONGLINK_MAX_RETRY_AFTER_SECONDS: u64 = 60;

/// What Songlink answers.
#[derive(Debug, Clone, PartialEq, Eq)]
pub struct SonglinkResponse {
    pub page_url: Option<String>,
}

/// How many seconds a `Retry-After` header asks to wait, at most 60, if it holds
/// a number.
pub open spec fn retry_after_seconds(header: Seq<char>) -> Option<nat> {
    match parsed_unsigned(trimmed(header), u64::MAX as nat) {
        Some(seconds) => Some(
            if seconds <= SONGLINK_MAX_RETRY_AFTER_SECONDS {
                seconds
            } else {
                SONGLINK_MAX_RETRY_AFTER_SECONDS as nat
            },
        ),
        None => None,
    }
}

/// How many seconds to wait after the given attempt, counted from 0, if the
/// service does not say: 10 after the first and 30 after any other.
pub open spec fn backoff_seconds(index: nat) -> nat {
    if index == 0 {
        10
    } else {
        30
    }
}

/// How many seconds to wait before Songlink is asked again.
pub open spec fn retry_delay_seconds(retry_after: Option<Seq<char>>, index: nat) -> nat {
    match retry_after {
        Some(header) => match retry_after_seconds(header) {
            Some(seconds) => seconds,
            None => backoff_seconds(index),
        },
        None => backoff_seconds(index),
    }
}

/// What an optional string slice says.
pub open spec fn opt_str(s: Option<&str>) -> Option<Seq<char>> {
    match s {
        Some(text) => Some(text@),
        None => None,
    }
}

/// How many seconds a `Retry-After` header asks to wait.
pub fn parse_retry_after_seconds(header: &str) -> (res: Option<u64>)
    ensures
        match res {
            Some(seconds) => retry_after_seconds(header@) == Some(seconds as nat),
            None => retry_after_seconds(header@) is None,
        },
{
    match parse_unsigned(trim(header), 0xffff_ffff_ffff_ffff) {
        Some(seconds) => {
            if seconds <= 60 {
                Some(seconds as u64)
            } else {
                Some(SONGLINK_MAX_RETRY_AFTER_SECONDS)
            }
        },
        None => None,
    }
}

/// How many seconds to wait after the given attempt.
pub fn songlink_backoff(index: usize) -> (res: u64)
    ensures
        res == backoff_seconds(index as nat),
{
    if index == 0 {
        10
    } else {
        30
    }
}

/// How many seconds to wait before Songlink is asked again: what it asks for or,
/// if that is not a number, what the attempt calls for.
pub fn songlink_retry_delay(retry_after: Option<&str>, backoff_index: usize) -> (res: u64)
    ensures
        res == retry_delay_seconds(opt_str(retry_after), backoff_index as nat),
        res <= SONGLINK_MAX_RETRY_AFTER_SECONDS,
{
    match retry_after {
        Some(header) => match parse_retry_after_seconds(header) {
            Some(seconds) => seconds,
            None => songlink_backoff(backoff_index),
        },
        None => songlink_backoff(backoff_index),
    }
}

/// The link to the page that Songlink found.
pub open spec fn songlink_found(response: SonglinkResponse) -> Option<Link> {
    match response.page_url {
        Some(url) => if blank(url@) {
            None
        } else {
            Some(link("Songlink/Odesli"@, url@))
        },
        None => None,
    }
}

/// The link to the page that Songlink found, if it found one.
pub fn songlink_page_link(response: &SonglinkResponse) -> (res: Option<ExternalLink>)
    ensures
        opt_link(res) == songlink_found(*response),
{
    match &response.page_url {
        Some(url) => {
            if is_blank(url.as_str()) {
                None
            } else {
                Some(ExternalLink::new("Songlink/Odesli", url.clone()))
            }
        },
        None => None,
    }
}

// ---------------------------------------------------------------------------
// Genius
// ---------------------------------------------------------------------------
/// A song that Genius found.
#[derive(Debug, Clone, PartialEq, Eq)]
pub struct GeniusHitResult {
    pub url: Option<String>,
}

/// A hit that Genius found.
#[derive(Debug, Clone, PartialEq, Eq)]
pub struct GeniusHit {
    pub result: GeniusHitResult,
}

/// The hits that Genius found.
#[derive(Debug, Clone, PartialEq, Eq)]
pub struct GeniusSearchResponse {
    pub hits: Vec<GeniusHit>,
}

/// What Genius answers.
#[derive(Debug, Clone, PartialEq, Eq)]
pub struct GeniusResponse {
    pub response: GeniusSearchResponse,
}

/// The first address that is not blank.
pub open spec fn first_hit(hits: Seq<GeniusHit>) -> Option<Link>
    decreases hits.len(),
{
    if hits.len() == 0 {
        None
    } else {
        match hits[0].result.url {
            Some(url) if !blank(url@) => Some(link("Genius"@, url@)),
            _ => first_hit(hits.drop_first()),
        }
    }
}

/// The link to the first song that Genius found with an address.
pub fn genius_hit_link(response: &GeniusResponse) -> (res: Option<ExternalLink>)
    ensures
        opt_link(res) == first_hit(response.response.hits@),
{
    let hits = &response.response.hits;
    assert(hits@.skip(0) =~= hits@);
    for i in 0..hits.len()
        invariant
            hits == &response.response.hits,
            first_hit(hits@) == first_hit(hits@.skip(i as int)),
    {
        assert(hits@.skip(i as int).drop_first() =~= hits@.skip(i + 1));
        if let Some(url) = &hits[i].result.url {
            if !is_blank(url.as_str()) {
                return Some(ExternalLink::new("Genius", url.clone()));
            }
        }
    }
    None
}

} // verus!
