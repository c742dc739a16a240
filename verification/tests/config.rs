use yandex_music_likes_to_evernote::config::{
    parse_comma_separated, parse_optional_comma_separated, require_non_empty, Settings,
    SettingsError, DEFAULT_EVERNOTE_TAG, DEFAULT_EVERNOTE_USER_STORE_URL,
    DEFAULT_MAX_TRACKS_PER_RUN,
};

fn base_settings() -> Settings {
    Settings {
        yandex_music_token: "yandex-token".to_string(),
        evernote_auth_token: "evernote-token".to_string(),
        evernote_note_store_url: None,
        evernote_user_store_url: DEFAULT_EVERNOTE_USER_STORE_URL.to_string(),
        evernote_notebook_guid: None,
        evernote_tags: DEFAULT_EVERNOTE_TAG.to_string(),
        state_path: "state.json".into(),
        dry_run: false,
        max_tracks_per_run: DEFAULT_MAX_TRACKS_PER_RUN,
        backup_audio: true,
        enrich_external_links: true,
        genius_access_token: None,
        acoustid_api_key: None,
        enabled_external_link_services: String::new(),
        disabled_external_link_services: String::new(),
        songlink_user_country: "US".to_string(),
    }
}

#[test]
fn note_store_url_is_optional() {
    let settings = base_settings().validate().expect("valid settings");

    assert_eq!(settings.evernote_note_store_url, None);
    assert_eq!(settings.evernote_user_store_url, DEFAULT_EVERNOTE_USER_STORE_URL);
    assert_eq!(
        settings.evernote_tag_names().expect("tags"),
        vec![DEFAULT_EVERNOTE_TAG]
    );
}

#[test]
fn empty_note_store_url_is_treated_as_missing() {
    let mut settings = base_settings();
    settings.evernote_note_store_url = Some("  ".to_string());

    let settings = settings.validate().expect("valid settings");

    assert_eq!(settings.evernote_note_store_url, None);
}

#[test]
fn parses_comma_separated_evernote_tags() {
    let mut settings = base_settings();
    settings.evernote_tags = "music, liked tracks, evernote ".to_string();

    let settings = settings.validate().expect("valid settings");

    assert_eq!(
        settings.evernote_tag_names().expect("tags"),
        vec!["music", "liked tracks", "evernote"]
    );
    assert_eq!(settings.evernote_tags, "music,liked tracks,evernote");
}

#[test]
fn rejects_empty_evernote_tags() {
    let mut settings = base_settings();
    settings.evernote_tags = " , ".to_string();

    let error = settings.validate().expect_err("invalid tags");

    assert_eq!(
        error.message(),
        "EVERNOTE_TAGS must contain at least one non-empty value"
    );
}

#[test]
fn allows_zero_max_tracks_per_run_as_unlimited() {
    let mut settings = base_settings();
    settings.max_tracks_per_run = 0;

    let settings = settings.validate().expect("valid settings");

    assert_eq!(settings.max_tracks_per_run, 0);
}

#[test]
fn rejects_required_blank_tokens() {
    let mut settings = base_settings();
    settings.yandex_music_token = "  ".to_string();

    let error = settings.validate().expect_err("invalid settings");

    assert_eq!(error.message(), "YANDEX_MUSIC_TOKEN must not be empty");
}

#[test]
fn trims_optional_values_and_normalizes_country() {
    let mut settings = base_settings();
    settings.evernote_note_store_url = Some(" https://example.test/notestore ".to_string());
    settings.evernote_user_store_url = " https://example.test/user ".to_string();
    settings.evernote_notebook_guid = Some(" Music Inbox ".to_string());
    settings.genius_access_token = Some(" genius-token ".to_string());
    settings.acoustid_api_key = Some(" acoustid-token ".to_string());
    settings.enabled_external_link_services = " Spotify, Songlink ".to_string();
    settings.disabled_external_link_services = " Genius, VK ".to_string();
    settings.songlink_user_country = "ge".to_string();

    let settings = settings.validate().expect("valid settings");

    assert_eq!(
        settings.evernote_note_store_url.as_deref(),
        Some("https://example.test/notestore")
    );
    assert_eq!(settings.evernote_user_store_url, "https://example.test/user");
    assert_eq!(settings.evernote_notebook_guid.as_deref(), Some("Music Inbox"));
    assert_eq!(settings.genius_access_token.as_deref(), Some("genius-token"));
    assert_eq!(settings.acoustid_api_key.as_deref(), Some("acoustid-token"));
    assert_eq!(settings.enabled_external_link_services, "spotify,songlink");
    assert_eq!(settings.disabled_external_link_services, "genius,vk");
    assert_eq!(
        settings.enabled_external_link_service_names(),
        vec!["spotify", "songlink"]
    );
    assert_eq!(
        settings.disabled_external_link_service_names(),
        vec!["genius", "vk"]
    );
    assert_eq!(settings.songlink_user_country, "GE");
}

#[test]
fn rejects_invalid_songlink_country() {
    let mut settings = base_settings();
    settings.songlink_user_country = "usa".to_string();

    let error = settings.validate().expect_err("invalid settings");

    assert_eq!(
        error.message(),
        "SONGLINK_USER_COUNTRY must be a two-letter country code"
    );
}

#[test]
fn reports_the_first_problem() {
    let mut settings = base_settings();
    settings.evernote_auth_token = "\t".to_string();
    settings.evernote_user_store_url = String::new();
    settings.evernote_tags = String::new();
    settings.songlink_user_country = String::new();
    assert_eq!(
        settings.clone().validate().expect_err("token").message(),
        "EVERNOTE_AUTH_TOKEN must not be empty"
    );
    settings.evernote_auth_token = "token".to_string();
    assert_eq!(
        settings.clone().validate().expect_err("url").message(),
        "EVERNOTE_USER_STORE_URL must not be empty"
    );
    settings.evernote_user_store_url = "url".to_string();
    assert_eq!(
        settings.clone().validate().expect_err("tags"),
        SettingsError::NoValue { name: "EVERNOTE_TAGS".to_string() }
    );
    settings.evernote_tags = "tag".to_string();
    assert_eq!(
        settings.clone().validate().expect_err("country"),
        SettingsError::CountryCode
    );
    assert_eq!(settings.evernote_tag_names().expect("tags"), vec!["tag"]);
    settings.evernote_tags = ",".to_string();
    assert_eq!(
        settings.evernote_tag_names().expect_err("no tags").message(),
        "EVERNOTE_TAGS must contain at least one non-empty value"
    );
}

#[test]
fn country_is_two_letters_in_capitals() {
    let validated = |country: &str| {
        let mut settings = base_settings();
        settings.songlink_user_country = country.to_string();
        settings.validate().map(|settings| settings.songlink_user_country)
    };
    assert_eq!(validated(" de "), Ok("DE".to_string()));
    assert_eq!(validated("gB"), Ok("GB".to_string()));
    for country in ["12", "1a", "--", "é", "éa", "жж", "u", "", "usa", "u s", "u\u{301}"] {
        assert_eq!(validated(country), Err(SettingsError::CountryCode), "{country}");
    }

    let with_country = |country: &str| {
        base_settings()
            .validate_with_country(country.to_string())
            .map(|settings| settings.songlink_user_country)
    };
    assert_eq!(with_country("FR"), Ok("FR".to_string()));
    assert_eq!(with_country("fr"), Err(SettingsError::CountryCode));
    assert_eq!(with_country(" F"), Err(SettingsError::CountryCode));
}

#[test]
fn lists_leave_blank_values_out() {
    assert_eq!(
        parse_comma_separated("NAME", ",a,, b c ,").expect("values"),
        vec!["a", "b c"]
    );
    assert_eq!(parse_optional_comma_separated(" ,A B,É"), vec!["a b", "É"]);
    assert!(parse_optional_comma_separated("").is_empty());
    assert!(require_non_empty("NAME", " x ").is_ok());
    assert_eq!(
        require_non_empty("NAME", "\u{3000}"),
        Err(SettingsError::Empty { name: "NAME".to_string() })
    );
}

#[test]
fn validating_twice_changes_nothing() {
    let mut settings = base_settings();
    settings.evernote_tags = " a ,,b ".to_string();
    settings.enabled_external_link_services = "Last.FM , VK".to_string();
    settings.genius_access_token = Some("  ".to_string());
    settings.songlink_user_country = " by".to_string();
    let names = settings.evernote_tag_names().expect("tags");
    let once = settings.validate().expect("valid");
    let twice = once.clone().validate().expect("still valid");
    assert_eq!(format!("{once:?}"), format!("{twice:?}"));
    assert_eq!(once.evernote_tag_names().expect("tags"), names);
    assert_eq!(once.enabled_external_link_service_names(), vec!["last.fm", "vk"]);
}
