//! The settings of a run: how they are checked and brought into shape.
use vstd::prelude::*;

use crate::text::{
    ascii_lower, ascii_lowercase, ascii_lowered, ascii_uppered, blank, chars_of, comma_pieces,
    is_blank, join, joined, lemma_blank_trimmed, lemma_comma_pieces_joined, lemma_pieces_free,
    lemma_texts_push, lemma_trimmed_contains, lemma_trimmed_ends, lemma_trimmed_fixed,
    lemma_trimmed_idempotent, opt_text, split_commas, texts, trim, trim_option, trimmed,
    trimmed_option,
};

pub mod laws;

verus! {

pub const DEFAULT_EVERNOTE_USER_STORE_URL: &'static str = "https://www.evernote.com/edam/user";

pub const DEFAULT_EVERNOTE_TAG: &'static str = "yandex-music";

pub const DEFAULT_MAX_TRACKS_PER_RUN: usize = 30;

/// The settings of a run.
#[derive(Debug, Clone)]
pub struct Settings {
    pub yandex_music_token: String,
    pub evernote_auth_token: String,
    pub evernote_note_store_url: Option<String>,
    pub evernote_user_store_url: String,
    pub evernote_notebook_guid: Option<String>,
    pub evernote_tags: String,
    pub state_path: String,
    pub dry_run: bool,
    pub max_tracks_per_run: usize,
    pub backup_audio: bool,
    pub enrich_external_links: bool,
    pub genius_access_token: Option<String>,
    pub acoustid_api_key: Option<String>,
    pub enabled_external_link_services: String,
    pub disabled_external_link_services: String,
    pub songlink_user_country: String,
}

/// What [`Settings`] say.
pub struct SettingsView {
    pub yandex_music_token: Seq<char>,
    pub evernote_auth_token: Seq<char>,
    pub evernote_note_store_url: Option<Seq<char>>,
    pub evernote_user_store_url: Seq<char>,
    pub evernote_notebook_guid: Option<Seq<char>>,
    pub evernote_tags: Seq<char>,
    pub state_path: Seq<char>,
    pub dry_run: bool,
    pub max_tracks_per_run: usize,
    pub backup_audio: bool,
    pub enrich_external_links: bool,
    pub genius_access_token: Option<Seq<char>>,
    pub acoustid_api_key: Option<Seq<char>>,
    pub enabled_external_link_services: Seq<char>,
    pub disabled_external_link_services: Seq<char>,
    pub songlink_user_country: Seq<char>,
}

impl View for Settings {
    type V = SettingsView;

    open spec fn view(&self) -> SettingsView {
        SettingsView {
            yandex_music_token: self.yandex_music_token@,
            evernote_auth_token: self.evernote_auth_token@,
            evernote_note_store_url: opt_text(self.evernote_note_store_url),
            evernote_user_store_url: self.evernote_user_store_url@,
            evernote_notebook_guid: opt_text(self.evernote_notebook_guid),
            evernote_tags: self.evernote_tags@,
            state_path: self.state_path@,
            dry_run: self.dry_run,
            max_tracks_per_run: self.max_tracks_per_run,
            backup_audio: self.backup_audio,
            enrich_external_links: self.enrich_external_links,
            genius_access_token: opt_text(self.genius_access_token),
            acoustid_api_key: opt_text(self.acoustid_api_key),
            enabled_external_link_services: self.enabled_external_link_services@,
            disabled_external_link_services: self.disabled_external_link_services@,
            songlink_user_country: self.songlink_user_country@,
        }
    }
}

/// What is wrong with settings.
#[derive(Debug, Clone, PartialEq, Eq)]
pub enum SettingsError {
    /// A setting that must be given is blank.
    Empty { name: String },
    /// A list that must have a value has none.
    NoValue { name: String },
    /// The country is not a two-letter code.
    CountryCode,
}

/// What a [`SettingsError`] says.
pub enum SettingsProblem {
    Empty { name: Seq<char> },
    NoValue { name: Seq<char> },
    CountryCode,
}

impl View for SettingsError {
    type V = SettingsProblem;

    open spec fn view(&self) -> SettingsProblem {
        match self {
            SettingsError::Empty { name } => SettingsProblem::Empty { name: name@ },
            SettingsError::NoValue { name } => SettingsProblem::NoValue { name: name@ },
            SettingsError::CountryCode => SettingsProblem::CountryCode,
        }
    }
}

impl SettingsError {
    /// The error in words.
    pub fn message(&self) -> (res: String)
        ensures
            res@ == match self@ {
                SettingsProblem::Empty { name } => name + " must not be empty"@,
                SettingsProblem::NoValue { name } => name
                    + " must contain at least one non-empty value"@,
                SettingsProblem::CountryCode =>
                    "SONGLINK_USER_COUNTRY must be a two-letter country code"@,
            },
    {
        match self {
            SettingsError::Empty { name } => {
                let mut res = name.clone();
                res.append(" must not be empty");
                res
            },
            SettingsError::NoValue { name } => {
                let mut res = name.clone();
                res.append(" must contain at least one non-empty value");
                res
            },
            SettingsError::CountryCode =>
                "SONGLINK_USER_COUNTRY must be a two-letter country code".to_owned(),
        }
    }
}

// ---------------------------------------------------------------------------
// Values
// ---------------------------------------------------------------------------
/// The values in a comma-separated list: what stands between the commas,
/// trimmed, without those that are blank.
pub open spec fn list_items(value: Seq<char>) -> Seq<Seq<char>> {
    comma_pieces(value).map_values(|piece: Seq<char>| trimmed(piece)).filter(
        |item: Seq<char>| item.len() > 0,
    )
}

/// The values in a comma-separated list, with ASCII capital letters made small.
pub open spec fn lowered_items(value: Seq<char>) -> Seq<Seq<char>> {
    list_items(value).map_values(|item: Seq<char>| ascii_lowered(item))
}

/// Refuses a blank value.
pub fn require_non_empty(name: &str, value: &str) -> (res: Result<(), SettingsError>)
    ensures
        match res {
            Ok(_) => !blank(value@),
            Err(error) => blank(value@) && error@ == (SettingsProblem::Empty { name: name@ }),
        },
{
    if is_blank(value) {
        return Err(SettingsError::Empty { name: name.to_owned() });
    }
    Ok(())
}

/// The values in a comma-separated list.
fn parse_items(value: &str) -> (res: Vec<String>)
    ensures
        texts(res@) == list_items(value@),
{
    let ghost f = |piece: Seq<char>| trimmed(piece);
    let ghost keep = |item: Seq<char>| item.len() > 0;
    let pieces = split_commas(value);
    let mut items: Vec<String> = Vec::new();
    proof {
        reveal(Seq::filter);
        assert(texts(items@) =~= texts(pieces@).take(0).map_values(f).filter(keep));
    }
    for i in 0..pieces.len()
        invariant
            f == (|piece: Seq<char>| trimmed(piece)),
            keep == (|item: Seq<char>| item.len() > 0),
            texts(items@) == texts(pieces@).take(i as int).map_values(f).filter(keep),
    {
        broadcast use lemma_texts_push;
        broadcast use Seq::lemma_filter_push;

        let item = trim(pieces[i].as_str());
        if !item.is_empty() {
            items.push(item.to_owned());
        }
        assert(texts(pieces@).take(i + 1).map_values(f) =~= texts(pieces@).take(
            i as int,
        ).map_values(f).push(item@));
    }
    assert(texts(pieces@).take(pieces@.len() as int) =~= texts(pieces@));
    items
}

/// The values in a comma-separated list that must have one.
pub fn parse_comma_separated(name: &str, value: &str) -> (res: Result<Vec<String>, SettingsError>)
    ensures
        match res {
            Ok(items) => list_items(value@).len() > 0 && texts(items@) == list_items(value@),
            Err(error) => list_items(value@).len() == 0 && error@ == (SettingsProblem::NoValue {
                name: name@,
            }),
        },
{
    let items = parse_items(value);
    assert(items@.len() == texts(items@).len());
    if items.len() == 0 {
        return Err(SettingsError::NoValue { name: name.to_owned() });
    }
    Ok(items)
}

/// The values in a comma-separated list that may be empty, with ASCII capital
/// letters made small.
pub fn parse_optional_comma_separated(value: &str) -> (res: Vec<String>)
    ensures
        texts(res@) == lowered_items(value@),
{
    let ghost f = |item: Seq<char>| ascii_lowered(item);
    let items = parse_items(value);
    let mut res: Vec<String> = Vec::new();
    assert(texts(res@) =~= texts(items@).take(0).map_values(f));
    for i in 0..items.len()
        invariant
            f == (|item: Seq<char>| ascii_lowered(item)),
            texts(res@) == texts(items@).take(i as int).map_values(f),
    {
        broadcast use lemma_texts_push;

        res.push(ascii_lowercase(items[i].as_str()));
        assert(texts(items@).take(i + 1).map_values(f) =~= texts(items@).take(i as int).map_values(
            f,
        ).push(ascii_lowered(items@[i as int]@)));
    }
    assert(texts(items@).take(items@.len() as int) =~= texts(items@));
    res
}

/// A text in capital letters, as Unicode has them.
pub uninterp spec fn uppercased(s: Seq<char>) -> Seq<char>;

/// Every character is an ASCII character.
pub open spec fn all_ascii(s: Seq<char>) -> bool {
    forall|i: int| 0 <= i < s.len() ==> #[trigger] s[i] <= '\u{7f}'
}

/// `str::to_uppercase`: the text in capital letters. What Unicode makes of
/// characters outside ASCII is not stated; of ASCII text, each small letter
/// becomes a capital letter and everything else stays.
#[verifier::external_body]
fn to_uppercase(s: &str) -> (res: String)
    ensures
        res@ == uppercased(s@),
        all_ascii(s@) ==> res@ == ascii_uppered(s@),
{
    s.to_uppercase()
}

// ---------------------------------------------------------------------------
// Validation
// ---------------------------------------------------------------------------
/// A country code: two letters, as capitals.
pub open spec fn country_code(country: Seq<char>) -> bool {
    &&& country.len() == 2
    &&& forall|i: int| 0 <= i < 2 ==> 'A' <= #[trigger] country[i] <= 'Z'
}

/// Whether `country` is two letters, as capitals.
fn is_country_code(country: &str) -> (res: bool)
    ensures
        res == country_code(country@),
{
    let letters = chars_of(country);
    letters.len() == 2 && 'A' <= letters[0] && letters[0] <= 'Z' && 'A' <= letters[1] && letters[1]
        <= 'Z'
}

/// The settings brought into shape, with the given country in capital letters,
/// or the first thing that is wrong with them.
pub open spec fn validated(settings: SettingsView, country: Seq<char>) -> Result<
    SettingsView,
    SettingsProblem,
> {
    if blank(settings.yandex_music_token) {
        Err(SettingsProblem::Empty { name: "YANDEX_MUSIC_TOKEN"@ })
    } else if blank(settings.evernote_auth_token) {
        Err(SettingsProblem::Empty { name: "EVERNOTE_AUTH_TOKEN"@ })
    } else if blank(settings.evernote_user_store_url) {
        Err(SettingsProblem::Empty { name: "EVERNOTE_USER_STORE_URL"@ })
    } else if list_items(settings.evernote_tags).len() == 0 {
        Err(SettingsProblem::NoValue { name: "EVERNOTE_TAGS"@ })
    } else if !country_code(country) {
        Err(SettingsProblem::CountryCode)
    } else {
        Ok(
            SettingsView {
                evernote_note_store_url: trimmed_option(settings.evernote_note_store_url),
                evernote_user_store_url: trimmed(settings.evernote_user_store_url),
                evernote_notebook_guid: trimmed_option(settings.evernote_notebook_guid),
                evernote_tags: joined(list_items(settings.evernote_tags), seq![',']),
                genius_access_token: trimmed_option(settings.genius_access_token),
                acoustid_api_key: trimmed_option(settings.acoustid_api_key),
                enabled_external_link_services: joined(
                    lowered_items(settings.enabled_external_link_services),
                    seq![','],
                ),
                disabled_external_link_services: joined(
                    lowered_items(settings.disabled_external_link_services),
                    seq![','],
                ),
                songlink_user_country: country,
                ..settings
            },
        )
    }
}

/// The settings have come out of a validation.
pub open spec fn is_validated(settings: SettingsView) -> bool {
    exists|given: SettingsView, country: Seq<char>| #[trigger]
        validated(given, country) == Ok::<SettingsView, SettingsProblem>(settings)
}

impl Settings {
    /// The settings brought into shape, or the first thing that is wrong with
    /// them. Settings that have come out of a validation stay as they are.
    pub fn validate(self) -> (res: Result<Self, SettingsError>)
        ensures
            match res {
                Ok(settings) => validated(
                    self@,
                    uppercased(trimmed(self@.songlink_user_country)),
                ) == Ok::<SettingsView, SettingsProblem>(settings@),
                Err(error) => validated(
                    self@,
                    uppercased(trimmed(self@.songlink_user_country)),
                ) == Err::<SettingsView, SettingsProblem>(error@),
            },
            all_ascii(trimmed(self@.songlink_user_country)) ==> uppercased(
                trimmed(self@.songlink_user_country),
            ) == ascii_uppered(trimmed(self@.songlink_user_country)),
            is_validated(self@) ==> res is Ok && res->Ok_0@ == self@,
    {
        proof {
            if is_validated(self@) {
                let (given, country) = choose|given: SettingsView, country: Seq<char>| #[trigger]
                    validated(given, country) == Ok::<SettingsView, SettingsProblem>(self@);
                lemma_validate_idempotent(given, country, self@);
            }
        }
        let country = to_uppercase(trim(self.songlink_user_country.as_str()));
        self.validate_with_country(country)
    }

    /// The settings brought into shape, with the given country in capital
    /// letters, or the first thing that is wrong with them.
    pub fn validate_with_country(self, country: String) -> (res: Result<Self, SettingsError>)
        ensures
            match res {
                Ok(settings) => validated(self@, country@) == Ok::<SettingsView, SettingsProblem>(
                    settings@,
                ),
                Err(error) => validated(self@, country@) == Err::<SettingsView, SettingsProblem>(
                    error@,
                ),
            },
    {
        if let Err(error) = require_non_empty(
            "YANDEX_MUSIC_TOKEN",
            self.yandex_music_token.as_str(),
        ) {
            return Err(error);
        }
        if let Err(error) = require_non_empty(
            "EVERNOTE_AUTH_TOKEN",
            self.evernote_auth_token.as_str(),
        ) {
            return Err(error);
        }
        if let Err(error) = require_non_empty(
            "EVERNOTE_USER_STORE_URL",
            self.evernote_user_store_url.as_str(),
        ) {
            return Err(error);
        }
        let tags = match parse_comma_separated("EVERNOTE_TAGS", self.evernote_tags.as_str()) {
            Ok(tags) => tags,
            Err(error) => return Err(error),
        };
        if !is_country_code(country.as_str()) {
            return Err(SettingsError::CountryCode);
        }
        proof {
            reveal_strlit(",");
            assert(","@ =~= seq![',']);
        }
        let on = parse_optional_comma_separated(self.enabled_external_link_services.as_str());
        let off = parse_optional_comma_separated(self.disabled_external_link_services.as_str());
        Ok(
            Settings {
                yandex_music_token: self.yandex_music_token,
                evernote_auth_token: self.evernote_auth_token,
                evernote_note_store_url: trim_option(&self.evernote_note_store_url),
                evernote_user_store_url: trim(self.evernote_user_store_url.as_str()).to_owned(),
                evernote_notebook_guid: trim_option(&self.evernote_notebook_guid),
                evernote_tags: join(&tags, ","),
                state_path: self.state_path,
                dry_run: self.dry_run,
                max_tracks_per_run: self.max_tracks_per_run,
                backup_audio: self.backup_audio,
                enrich_external_links: self.enrich_external_links,
                genius_access_token: trim_option(&self.genius_access_token),
                acoustid_api_key: trim_option(&self.acoustid_api_key),
                enabled_external_link_services: join(&on, ","),
                disabled_external_link_services: join(&off, ","),
                songlink_user_country: country,
            },
        )
    }

    /// The names of the tags for the notes.
    pub fn evernote_tag_names(&self) -> (res: Result<Vec<String>, SettingsError>)
        ensures
            match res {
                Ok(names) => list_items(self@.evernote_tags).len() > 0 && texts(names@)
                    == list_items(self@.evernote_tags),
                Err(error) => list_items(self@.evernote_tags).len() == 0 && error@ == (
                SettingsProblem::NoValue { name: "EVERNOTE_TAGS"@ }),
            },
    {
        parse_comma_separated("EVERNOTE_TAGS", self.evernote_tags.as_str())
    }

    /// The names of the services to which the links are limited.
    pub fn enabled_external_link_service_names(&self) -> (res: Vec<String>)
        ensures
            texts(res@) == lowered_items(self@.enabled_external_link_services),
    {
        parse_optional_comma_separated(self.enabled_external_link_services.as_str())
    }

    /// The names of the services that get no links.
    pub fn disabled_external_link_service_names(&self) -> (res: Vec<String>)
        ensures
            texts(res@) == lowered_items(self@.disabled_external_link_services),
    {
        parse_optional_comma_separated(self.disabled_external_link_services.as_str())
    }
}

// ---------------------------------------------------------------------------
// Laws
// ---------------------------------------------------------------------------
/// A value as it stands in a list: not empty, trimmed, without a comma.
spec fn list_item(item: Seq<char>) -> bool {
    item.len() > 0 && trimmed(item) == item && !item.contains(',')
}

/// Everything in a list is a value of a list.
proof fn lemma_list_items(value: Seq<char>)
    ensures
        forall|i: int|
            0 <= i < list_items(value).len() ==> list_item(#[trigger] list_items(value)[i]),
{
    let f = |piece: Seq<char>| trimmed(piece);
    let keep = |item: Seq<char>| item.len() > 0;
    let is_sep = |c: char| c == ',';
    let pieces = comma_pieces(value);
    let all = pieces.map_values(f);
    assert forall|i: int| 0 <= i < list_items(value).len() implies list_item(
        #[trigger] list_items(value)[i],
    ) by {
        let item = list_items(value)[i];
        all.lemma_filter_pred(keep, i);
        assert(all.filter(keep).contains(item));
        all.lemma_filter_contains_rev(keep, item);
        let k = choose|k: int| 0 <= k < all.len() && all[k] == item;
        assert(item == trimmed(pieces[k]));
        lemma_trimmed_idempotent(pieces[k]);
        if item.contains(',') {
            lemma_trimmed_contains(pieces[k], ',');
            lemma_pieces_free(value, is_sep, k, ',');
        }
    }
}

/// Nothing is left out where nothing is blank.
proof fn lemma_filter_all(items: Seq<Seq<char>>, keep: spec_fn(Seq<char>) -> bool)
    requires
        forall|i: int| 0 <= i < items.len() ==> keep(#[trigger] items[i]),
    ensures
        items.filter(keep) == items,
    decreases items.len(),
{
    reveal(Seq::filter);
    if items.len() > 0 {
        let front = items.drop_last();
        assert forall|i: int| 0 <= i < front.len() implies keep(#[trigger] front[i]) by {
            assert(front[i] == items[i]);
        }
        lemma_filter_all(front, keep);
        assert(front.push(items.last()) =~= items);
    }
}

/// Joined values are the values of the joined list.
proof fn lemma_items_of_joined(items: Seq<Seq<char>>)
    requires
        forall|i: int| 0 <= i < items.len() ==> list_item(#[trigger] items[i]),
    ensures
        list_items(joined(items, seq![','])) == items,
{
    let f = |piece: Seq<char>| trimmed(piece);
    let keep = |item: Seq<char>| item.len() > 0;
    let line = joined(items, seq![',']);
    if items.len() == 0 {
        let none = comma_pieces(line).map_values(f);
        assert(none =~= seq![Seq::<char>::empty()]);
        reveal(Seq::filter);
        assert(none.drop_last().filter(keep) =~= Seq::<Seq<char>>::empty());
        assert(none.filter(keep) =~= items);
    } else {
        lemma_comma_pieces_joined(items);
        assert(comma_pieces(line).map_values(f) =~= items);
        lemma_filter_all(items, keep);
    }
}

/// Validation keeps the list of tags: the names that come from validated
/// settings are those that come from the settings as they were given.
pub proof fn lemma_tags_round_trip(tags: Seq<char>)
    ensures
        list_items(joined(list_items(tags), seq![','])) == list_items(tags),
{
    lemma_list_items(tags);
    lemma_items_of_joined(list_items(tags));
}

/// Making letters small neither makes nor takes away white space or commas.
proof fn lemma_lowered_item(item: Seq<char>)
    requires
        list_item(item),
    ensures
        list_item(ascii_lowered(item)),
        ascii_lowered(ascii_lowered(item)) == ascii_lowered(item),
{
    let low = ascii_lowered(item);
    lemma_trimmed_ends(item);
    assert(low[0] == ascii_lower(item[0]));
    assert(low.last() == ascii_lower(item.last()));
    lemma_trimmed_fixed(low);
    if low.contains(',') {
        let i = choose|i: int| 0 <= i < low.len() && low[i] == ',';
        assert(item[i] == ',');
    }
    assert(ascii_lowered(low) =~= low);
}

/// Validation keeps a list of services: the names that come from validated
/// settings are those that come from the settings as they were given.
pub proof fn lemma_services_round_trip(services: Seq<char>)
    ensures
        lowered_items(joined(lowered_items(services), seq![','])) == lowered_items(services),
{
    let items = list_items(services);
    let low = lowered_items(services);
    lemma_list_items(services);
    assert forall|i: int| 0 <= i < low.len() implies list_item(#[trigger] low[i]) by {
        lemma_lowered_item(items[i]);
        assert(low[i] == ascii_lowered(items[i]));
    }
    lemma_items_of_joined(low);
    assert forall|i: int| 0 <= i < low.len() implies ascii_lowered(#[trigger] low[i]) == low[i] by {
        lemma_lowered_item(items[i]);
        assert(low[i] == ascii_lowered(items[i]));
    }
    assert(low.map_values(|item: Seq<char>| ascii_lowered(item)) =~= low);
}

/// An optional setting that is there after validation is trimmed and not blank.
proof fn lemma_trimmed_option(value: Option<Seq<char>>)
    ensures
        trimmed_option(trimmed_option(value)) == trimmed_option(value),
{
    if let Some(text) = value {
        lemma_trimmed_idempotent(text);
        lemma_blank_trimmed(text);
        lemma_blank_trimmed(trimmed(text));
    }
}

/// Validated settings are valid, and validating them again changes nothing: their
/// country is ASCII, stays as it is when it is trimmed, and when it is put in
/// capitals.
pub proof fn lemma_validate_idempotent(
    settings: SettingsView,
    country: Seq<char>,
    valid: SettingsView,
)
    requires
        validated(settings, country) == Ok::<SettingsView, SettingsProblem>(valid),
    ensures
        all_ascii(trimmed(valid.songlink_user_country)),
        validated(valid, ascii_uppered(trimmed(valid.songlink_user_country))) == Ok::<
            SettingsView,
            SettingsProblem,
        >(valid),
{
    lemma_trimmed_option(settings.evernote_note_store_url);
    lemma_trimmed_option(settings.evernote_notebook_guid);
    lemma_trimmed_option(settings.genius_access_token);
    lemma_trimmed_option(settings.acoustid_api_key);
    lemma_tags_round_trip(settings.evernote_tags);
    lemma_services_round_trip(settings.enabled_external_link_services);
    lemma_services_round_trip(settings.disabled_external_link_services);
    lemma_trimmed_idempotent(settings.evernote_user_store_url);
    lemma_blank_trimmed(settings.evernote_user_store_url);
    lemma_blank_trimmed(trimmed(settings.evernote_user_store_url));
    assert('A' <= country[0] <= 'Z' && 'A' <= country[1] <= 'Z');
    lemma_trimmed_fixed(country);
    assert(ascii_uppered(country) =~= country);
}

} // verus!
