//! What validation asks of settings, and what it leaves of them.
use vstd::prelude::*;

use crate::config::{
    list_items, lowered_items, validated, SettingsProblem, SettingsView,
};
use crate::sequences::{lemma_filter_picks, picks};
use crate::text::{
    ascii_lowered, comma_pieces, joined, lemma_blank_trimmed, trimmed, trimmed_option,
    white_space,
};

verus! {

/// The values of a list are the pieces between its commas that are not all white space:
/// each of those, in their order, trimmed.
pub proof fn lemma_list_values(value: Seq<char>) -> (at: Seq<int>)
    ensures
        picks(
            list_items(value),
            comma_pieces(value),
            |piece: Seq<char>|
                if forall|i: int| 0 <= i < piece.len() ==> white_space(#[trigger] piece[i]) {
                    None
                } else {
                    Some(trimmed(piece))
                },
            at,
        ),
{
    let f = |piece: Seq<char>|
        if forall|i: int| 0 <= i < piece.len() ==> white_space(#[trigger] piece[i]) {
            None
        } else {
            Some(trimmed(piece))
        };
    let keep = |item: Seq<char>| item.len() > 0;
    let source = comma_pieces(value);
    let all = source.map_values(|piece: Seq<char>| trimmed(piece));
    let at = lemma_filter_picks(all, keep);
    let result = list_items(value);
    assert forall|k: int| 0 <= k < at.len() implies f(source[#[trigger] at[k]]) == Some(
        result[k],
    ) by {
        lemma_blank_trimmed(source[at[k]]);
        assert(all[at[k]] == trimmed(source[at[k]]));
        all.lemma_filter_pred(keep, k);
    }
    assert forall|i: int| 0 <= i < source.len() && f(#[trigger] source[i]) is Some implies
        at.contains(i) by {
        lemma_blank_trimmed(source[i]);
        assert(all[i] == trimmed(source[i]));
        assert(keep(all[i]));
    }
    at
}

/// The names in a list of services are the values of the list, in small letters, one for
/// one.
pub proof fn lemma_list_names(value: Seq<char>)
    ensures
        lowered_items(value).len() == list_items(value).len(),
        forall|i: int|
            0 <= i < lowered_items(value).len() ==> #[trigger] lowered_items(value)[i]
                == ascii_lowered(list_items(value)[i]),
{
}

/// The token, the address of the user store, a tag and the country are asked for in this
/// order, and the first that is missing or wrong is what is reported; if none is, the
/// settings are valid.
pub proof fn lemma_settings_asked(settings: SettingsView, country: Seq<char>)
    ensures
        ({
            let yandex = exists|i: int|
                0 <= i < settings.yandex_music_token.len() && !white_space(
                    #[trigger] settings.yandex_music_token[i],
                );
            let evernote = exists|i: int|
                0 <= i < settings.evernote_auth_token.len() && !white_space(
                    #[trigger] settings.evernote_auth_token[i],
                );
            let store = exists|i: int|
                0 <= i < settings.evernote_user_store_url.len() && !white_space(
                    #[trigger] settings.evernote_user_store_url[i],
                );
            let tags = list_items(settings.evernote_tags).len() > 0;
            let letters = country.len() == 2 && 'A' <= country[0] <= 'Z' && 'A' <= country[1]
                <= 'Z';
            match validated(settings, country) {
                Ok(_) => yandex && evernote && store && tags && letters,
                Err(SettingsProblem::Empty { name }) => {
                    ||| !yandex && name == "YANDEX_MUSIC_TOKEN"@
                    ||| yandex && !evernote && name == "EVERNOTE_AUTH_TOKEN"@
                    ||| yandex && evernote && !store && name == "EVERNOTE_USER_STORE_URL"@
                },
                Err(SettingsProblem::NoValue { name }) => yandex && evernote && store && !tags
                    && name == "EVERNOTE_TAGS"@,
                Err(SettingsProblem::CountryCode) => yandex && evernote && store && tags
                    && !letters,
            }
        }),
{
}

/// Validation changes nothing about valid settings but this: the addresses, the notebook
/// and the keys are trimmed, and count as not given if nothing is left of them; the lists
/// are reduced to their values, with commas between them; and the country takes the place
/// of the one that was given.
pub proof fn lemma_settings_kept(settings: SettingsView, country: Seq<char>)
    requires
        validated(settings, country) is Ok,
    ensures
        ({
            let valid = validated(settings, country)->Ok_0;
            &&& valid.yandex_music_token == settings.yandex_music_token
            &&& valid.evernote_auth_token == settings.evernote_auth_token
            &&& valid.evernote_note_store_url == trimmed_option(settings.evernote_note_store_url)
            &&& valid.evernote_user_store_url == trimmed(settings.evernote_user_store_url)
            &&& valid.evernote_notebook_guid == trimmed_option(settings.evernote_notebook_guid)
            &&& valid.evernote_tags == joined(list_items(settings.evernote_tags), seq![','])
            &&& valid.state_path == settings.state_path
            &&& valid.dry_run == settings.dry_run
            &&& valid.max_tracks_per_run == settings.max_tracks_per_run
            &&& valid.backup_audio == settings.backup_audio
            &&& valid.enrich_external_links == settings.enrich_external_links
            &&& valid.genius_access_token == trimmed_option(settings.genius_access_token)
            &&& valid.acoustid_api_key == trimmed_option(settings.acoustid_api_key)
            &&& valid.enabled_external_link_services == joined(
                lowered_items(settings.enabled_external_link_services),
                seq![','],
            )
            &&& valid.disabled_external_link_services == joined(
                lowered_items(settings.disabled_external_link_services),
                seq![','],
            )
            &&& valid.songlink_user_country == country
        }),
{
}

} // verus!
