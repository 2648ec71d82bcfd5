use chrono::{TimeZone, Utc};
use serde_json::Value;
use tunebeacon::{
    config::{
        validate_lastfm, validate_listenbrainz, validate_parsed_webhook_url, validate_webhook_url,
        Config, ConfigError, CONFIG_VERSION,
    },
    domain::{
        cover_art_url, NowPlayingMessage, PlaybackStatus, Player, RawTrack, Timestamp, Verification,
        VerificationStatus,
    },
    json::{message_json, Json},
    selection::{derive_player_key, select_player, PublicationGate},
    verification::{match_candidates, normalize, Candidate},
    web::WebUrl,
};

fn moment(year: i32, month: u32, day: u32, hour: u32, minute: u32, second: u32) -> Timestamp {
    Timestamp {
        seconds: Utc
            .with_ymd_and_hms(year, month, day, hour, minute, second)
            .unwrap()
            .timestamp(),
        nanos: 0,
    }
}

fn to_value(json: &Json) -> Value {
    match json {
        Json::Text(text) => Value::from(text.as_str()),
        Json::Number(number) => Value::from(*number),
        Json::Signed(number) => Value::from(*number),
        Json::Moment(moment) => serde_json::to_value(
            Utc.timestamp_opt(moment.seconds, moment.nanos).unwrap(),
        )
        .unwrap(),
        Json::Array(items) => Value::from(items.iter().map(to_value).collect::<Vec<_>>()),
        Json::Object(fields) => Value::Object(
            fields
                .iter()
                .map(|(name, value)| (name.clone(), to_value(value)))
                .collect(),
        ),
    }
}

fn track() -> RawTrack {
    RawTrack {
        title: "Hoppípolla".to_owned(),
        artists: vec!["Sigur Rós".to_owned()],
        album: "Takk...".to_owned(),
        duration_ms: Some(268_000),
        art_url: Some("file:///tmp/private-cover.jpg".to_owned()),
        track_id: Some("/org/mpris/MediaPlayer2/Track/1".to_owned()),
        observed_at: moment(2026, 7, 27, 10, 15, 30),
    }
}

fn player(key: &str, status: PlaybackStatus) -> Player {
    Player {
        key: key.to_owned(),
        identity: key.to_uppercase(),
        bus_name: format!("org.mpris.MediaPlayer2.{key}.instance42"),
        desktop_entry: Some(key.to_owned()),
        status,
        track: Some(track()),
    }
}

fn candidate(score: u8) -> Candidate {
    Candidate {
        title: "Hoppipolla".to_owned(),
        artists: vec!["Sigur Ros".to_owned()],
        albums: vec!["Takk...".to_owned()],
        duration_ms: Some(268_200),
        score,
        recording_id: format!("recording-{score}"),
        release_id: Some("release-id".to_owned()),
        release_group_id: Some("release-group-id".to_owned()),
    }
}

#[test]
fn defaults_are_private_and_conservative() {
    let config = Config::default();
    assert_eq!(config.version, CONFIG_VERSION);
    assert!(config.players.allowlist.is_empty());
    assert!(!config.verification.publish_unverified);
    assert!(!config.mqtt.enabled);
    assert!(!config.webhook.enabled);
    assert!(!config.lastfm.enabled);
    assert!(config.lastfm.api_key.is_empty());
    assert!(config.lastfm.shared_secret.is_empty());
    assert!(config.lastfm.session_key.is_empty());
    assert!(config.lastfm.username.is_empty());
    assert!(!config.listenbrainz.enabled);
    assert!(config.listenbrainz.token.is_empty());
    assert!(config.listenbrainz.username.is_empty());
    assert!(config.webhook.url.is_empty());
    assert!(config.webhook.bearer_token.is_none());
    assert!(!config.mqtt.retain);
    assert_eq!(config.mqtt.qos, 1);
    assert!(config.mqtt.topic.starts_with("tunebeacon/"));
    assert!(config.mqtt.topic.ends_with("/now-playing"));
}

#[test]
fn daemon_accepts_lastfm_as_an_independent_output_when_authorized() {
    let mut config = Config::default();
    config.lastfm.enabled = true;
    assert!(config.validate_daemon().is_err());
    config.lastfm.api_key = "api-key".to_owned();
    config.lastfm.shared_secret = "shared-secret".to_owned();
    assert!(config.validate_daemon().is_err());
    config.lastfm.session_key = "session-key".to_owned();
    config.lastfm.username = "listener".to_owned();
    assert!(config.validate_daemon().is_ok());
}

#[test]
fn daemon_accepts_listenbrainz_as_an_independent_output_with_a_token() {
    let mut config = Config::default();
    config.listenbrainz.enabled = true;
    assert!(config.validate_daemon().is_err());
    config.listenbrainz.token = "user-token".to_owned();
    assert!(config.validate_daemon().is_ok());
}

#[test]
fn daemon_requires_complete_mqtt_configuration() {
    let mut config = Config::default();
    assert!(config.validate_daemon().is_err());
    config.mqtt.enabled = true;
    assert!(config.validate_daemon().is_err());
    config.mqtt.host = "broker.example".to_owned();
    assert!(config.validate_daemon().is_ok());
    config.mqtt.qos = 3;
    assert!(config.validate().is_err());
}

#[test]
fn daemon_accepts_webhook_as_an_independent_output() {
    let mut config = Config::default();
    config.webhook.enabled = true;
    assert!(config.validate_daemon().is_err());
    config.webhook.url = "https://example.test/now-playing".to_owned();
    assert!(config.validate_daemon().is_ok());
    config.webhook.url = "file:///tmp/private.json".to_owned();
    assert!(config.validate_daemon().is_err());

    config.webhook.enabled = false;
    config.mqtt.enabled = true;
    config.mqtt.host = "broker.example".to_owned();
    assert!(config.validate_daemon().is_ok());

    config.webhook.enabled = true;
    config.webhook.url = "not a URL".to_owned();
    assert!(
        config.validate_daemon().is_err(),
        "every enabled output must be complete"
    );
}

#[test]
fn stable_player_key_prefers_desktop_entry() {
    assert_eq!(
        derive_player_key(
            Some("org.spotify.Client.desktop"),
            "org.mpris.MediaPlayer2.spotify.instance42"
        ),
        "org.spotify.client"
    );
    assert_eq!(
        derive_player_key(None, "org.mpris.MediaPlayer2.vlc.instance901"),
        "vlc"
    );
}

#[test]
fn selection_obeys_allowlist_priority_and_playback() {
    let players = vec![
        player("spotify", PlaybackStatus::Playing),
        player("amberol", PlaybackStatus::Playing),
        player("vlc", PlaybackStatus::Playing),
    ];
    let selected = select_player(&players, &["amberol".to_owned(), "spotify".to_owned()]).unwrap();
    assert_eq!(selected.key, "amberol");
    assert!(select_player(&players, &[]).is_none());
    assert!(select_player(&players, &["mpv".to_owned()]).is_none());
}

#[test]
fn pause_clears_deduplication_so_resume_republishes() {
    let playing = player("spotify", PlaybackStatus::Playing);
    let mut gate = PublicationGate::default();
    assert!(gate.should_publish(&playing));
    gate.mark_published(&playing);
    assert!(!gate.should_publish(&playing));
    gate.observe_idle();
    assert!(gate.should_publish(&playing));
}

#[test]
fn matching_requires_confident_title_and_artist_but_not_release_details() {
    let verification = match_candidates(&track(), &[candidate(100)]);
    assert_eq!(verification.status, VerificationStatus::Verified);
    assert_eq!(verification.score, Some(100));

    let mut wrong_duration_and_album = candidate(100);
    wrong_duration_and_album.albums = vec!["Ágætis byrjun".to_owned()];
    wrong_duration_and_album.duration_ms = Some(300_000);
    assert_eq!(
        match_candidates(&track(), &[wrong_duration_and_album.clone()]).status,
        VerificationStatus::Verified
    );

    wrong_duration_and_album.artists = vec!["A different artist".to_owned()];
    assert_eq!(
        match_candidates(&track(), &[wrong_duration_and_album]).status,
        VerificationStatus::NotFound
    );

    let low_confidence = candidate(89);
    assert_eq!(
        match_candidates(&track(), &[low_confidence]).status,
        VerificationStatus::NotFound
    );
}

#[test]
fn matching_handles_multiple_artists_and_duplicate_recordings() {
    let mut raw = track();
    raw.artists = vec!["Beyoncé".to_owned(), "Jay-Z".to_owned()];
    let mut first = candidate(96);
    first.title.clone_from(&raw.title);
    first.artists = vec!["Beyonce".to_owned(), "JAY Z".to_owned()];
    let mut second = first.clone();
    second.score = 92;
    second.recording_id = "runner-up".to_owned();
    first.duration_ms = Some(266_000);
    second.duration_ms = Some(270_000);
    let duplicate_result = match_candidates(&raw, &[first.clone(), second]);
    assert_eq!(duplicate_result.status, VerificationStatus::Verified);
    assert_eq!(
        duplicate_result.recording_id.as_deref(),
        Some(first.recording_id.as_str())
    );
    first.score = 100;
    assert_eq!(
        match_candidates(&raw, &[first]).status,
        VerificationStatus::Verified
    );
}

#[test]
fn matching_prefers_album_and_duration_for_live_spotify_fixture() {
    let raw = RawTrack {
        title: "Wrong".to_owned(),
        artists: vec!["Everything But The Girl".to_owned()],
        album: "Walking Wounded (Deluxe Edition)".to_owned(),
        duration_ms: Some(276_693),
        ..RawTrack::default()
    };
    let candidates = [
        Candidate {
            title: "Wrong".to_owned(),
            artists: vec!["Everything but the Girl".to_owned()],
            albums: vec!["100 Hits: 90s Anthems".to_owned()],
            duration_ms: Some(277_146),
            score: 100,
            recording_id: "compilation-near-duration".to_owned(),
            release_id: Some("compilation-release".to_owned()),
            release_group_id: Some("compilation-group".to_owned()),
        },
        Candidate {
            title: "Wrong".to_owned(),
            artists: vec!["Everything but the Girl".to_owned()],
            albums: vec!["90s: 120 Original Hits".to_owned()],
            duration_ms: Some(276_693),
            score: 100,
            recording_id: "compilation-exact-duration".to_owned(),
            release_id: Some("other-release".to_owned()),
            release_group_id: Some("other-group".to_owned()),
        },
        Candidate {
            title: "Wrong".to_owned(),
            artists: vec!["Everything but the Girl".to_owned()],
            albums: vec!["Walking Wounded".to_owned(), "Wrong".to_owned()],
            duration_ms: Some(276_693),
            score: 100,
            recording_id: "original-album-recording".to_owned(),
            release_id: Some("walking-wounded-release".to_owned()),
            release_group_id: Some("walking-wounded-group".to_owned()),
        },
    ];
    let verification = match_candidates(&raw, &candidates);
    assert_eq!(verification.status, VerificationStatus::Verified);
    assert_eq!(
        verification.recording_id.as_deref(),
        Some("original-album-recording")
    );
}

#[test]
fn normalization_ignores_case_diacritics_and_punctuation() {
    assert_eq!(normalize("HOPPÍPOLLA!"), normalize("hoppipolla"));
    assert_eq!(normalize("Jay-Z"), normalize("jay z"));
}

#[test]
fn json_contract_is_flat_versioned_and_excludes_local_artwork() {
    let player = player("spotify", PlaybackStatus::Playing);
    let verification = Verification {
        status: VerificationStatus::Verified,
        score: Some(100),
        recording_id: Some("recording-id".to_owned()),
        release_id: Some("release-id".to_owned()),
        release_group_id: Some("release-group-id".to_owned()),
    };
    let value = to_value(&message_json(&NowPlayingMessage::new(
        &player,
        &track(),
        verification,
    )));
    assert_eq!(value["schema_version"], 1);
    assert_eq!(value["track"], "Hoppípolla");
    assert_eq!(value["artists"], Value::from(vec!["Sigur Rós"]));
    assert_eq!(value["verification"]["status"], "verified");
    assert_eq!(
        value["art_url"],
        "https://coverartarchive.org/release-group/release-group-id/front"
    );
    assert!(value.get("utc timestamp").is_none());
}

#[test]
fn optional_json_fields_are_omitted() {
    let mut raw = track();
    raw.duration_ms = None;
    raw.art_url = None;
    let verification = Verification::failed(VerificationStatus::Unavailable);
    let mut player = player("spotify", PlaybackStatus::Playing);
    player.track = Some(raw.clone());
    let value = to_value(&message_json(&NowPlayingMessage::new(
        &player,
        &raw,
        verification,
    )));
    assert!(value.get("duration_ms").is_none());
    assert!(value.get("art_url").is_none());
    assert!(value["verification"].get("score").is_none());
}

#[test]
fn identifiers_that_are_not_known_are_omitted() {
    let player = player("spotify", PlaybackStatus::Playing);
    let mut verification = Verification::failed(VerificationStatus::Verified);
    verification.release_id = Some("release-id".to_owned());
    let value = to_value(&message_json(&NowPlayingMessage::new(
        &player,
        &track(),
        verification,
    )));
    let known = value["verification"].as_object().unwrap();
    assert_eq!(known.len(), 2);
    assert_eq!(known["release_id"], "release-id");
}

#[test]
fn moments_are_sent_in_their_usual_form() {
    let player = player("spotify", PlaybackStatus::Playing);
    let verification = Verification::failed(VerificationStatus::NotFound);
    let value = to_value(&message_json(&NowPlayingMessage::new(
        &player,
        &track(),
        verification,
    )));
    assert_eq!(value["observed_at"], "2026-07-27T10:15:30Z");
    assert_eq!(value["player"]["key"], "spotify");
    assert_eq!(value["player"]["identity"], "SPOTIFY");
    assert_eq!(value["duration_ms"], 268_000);
    assert_eq!(value["verification"]["status"], "not_found");
}

#[test]
fn cover_of_a_release_group() {
    assert_eq!(
        cover_art_url("abc"),
        "https://coverartarchive.org/release-group/abc/front"
    );
}

#[test]
fn remote_artwork_of_the_player_is_published() {
    let player = player("spotify", PlaybackStatus::Playing);
    let mut raw = track();
    raw.art_url = Some("https://example.test/cover.jpg".to_owned());
    let mut verification = Verification::failed(VerificationStatus::Verified);
    verification.release_group_id = Some("group".to_owned());
    let message = NowPlayingMessage::new(&player, &raw, verification.clone());
    assert_eq!(
        message.art_url.as_deref(),
        Some("https://example.test/cover.jpg")
    );
    raw.art_url = None;
    let message = NowPlayingMessage::new(&player, &raw, verification);
    assert_eq!(
        message.art_url.as_deref(),
        Some("https://coverartarchive.org/release-group/group/front")
    );
}

#[test]
fn statuses_have_their_words() {
    let words: Vec<String> = vec![
        VerificationStatus::Pending,
        VerificationStatus::Verified,
        VerificationStatus::NotFound,
        VerificationStatus::Ambiguous,
        VerificationStatus::Unavailable,
    ]
    .iter()
    .map(VerificationStatus::to_text)
    .collect();
    assert_eq!(
        words,
        vec!["pending", "verified", "not_found", "ambiguous", "unavailable"]
    );
}

#[test]
fn identity_ignores_artwork_and_time() {
    let mut other = track();
    other.art_url = None;
    other.observed_at = moment(2027, 1, 1, 0, 0, 0);
    assert!(track().identity() == other.identity());
    other.track_id = None;
    assert!(track().identity() != other.identity());
    other = track();
    other.title = "Gobbledigook".to_owned();
    assert!(track().identity() != other.identity());
}

#[test]
fn players_that_pause_or_say_nothing_are_not_selected() {
    let mut silent = player("vlc", PlaybackStatus::Playing);
    silent.track = None;
    let players = vec![player("spotify", PlaybackStatus::Paused), silent];
    let allowlist = ["spotify".to_owned(), "vlc".to_owned()];
    assert!(select_player(&players, &allowlist).is_none());
    let mut untitled = player("mpv", PlaybackStatus::Playing);
    untitled.track.as_mut().unwrap().title = "   ".to_owned();
    assert!(select_player(&[untitled], &["mpv".to_owned()]).is_none());
}

#[test]
fn another_track_is_published_again() {
    let mut playing = player("spotify", PlaybackStatus::Playing);
    let mut gate = PublicationGate::default();
    gate.mark_published(&playing);
    playing.track.as_mut().unwrap().title = "Another".to_owned();
    assert!(gate.should_publish(&playing));
    playing.track = None;
    assert!(!gate.should_publish(&playing));
}

#[test]
fn keys_of_players_are_short_and_lower_case() {
    assert_eq!(
        derive_player_key(Some("  "), "org.mpris.MediaPlayer2.VLC"),
        "vlc"
    );
    assert_eq!(
        derive_player_key(Some(" Amberol "), "org.mpris.MediaPlayer2.x"),
        "amberol"
    );
    assert_eq!(derive_player_key(None, "Other.Name"), "other");
}

#[test]
fn each_error_of_the_settings_is_named() {
    let mut config = Config::default();
    config.version = 2;
    assert_eq!(
        config.validate().unwrap_err().to_text(),
        "unsupported config version 2 (expected 1)"
    );
    config.version = CONFIG_VERSION;
    config.mqtt.qos = 3;
    assert_eq!(
        config.validate().unwrap_err().to_text(),
        "mqtt.qos must be 0, 1, or 2"
    );
    config.mqtt.qos = 2;
    assert!(config.validate().is_ok());
    assert!(matches!(
        config.validate_daemon(),
        Err(ConfigError::NoOutput)
    ));
    config.mqtt.enabled = true;
    assert_eq!(
        config.validate_daemon().unwrap_err().to_text(),
        "daemon mode requires mqtt.host to be configured"
    );
    config.mqtt.host = "broker".to_owned();
    config.mqtt.topic = " ".to_owned();
    assert_eq!(
        config.validate_daemon().unwrap_err().to_text(),
        "daemon mode requires mqtt.topic to be configured"
    );
    config.mqtt.topic = "topic".to_owned();
    config.mqtt.port = 0;
    assert_eq!(
        config.validate_daemon().unwrap_err().to_text(),
        "daemon mode requires a nonzero mqtt.port"
    );
    config.mqtt.enabled = false;
    config.lastfm.enabled = true;
    assert_eq!(
        validate_lastfm(&config.lastfm).unwrap_err().to_text(),
        "lastfm.api_key must be configured"
    );
    config.lastfm.api_key = "key".to_owned();
    assert_eq!(
        validate_lastfm(&config.lastfm).unwrap_err().to_text(),
        "lastfm.shared_secret must be configured"
    );
    config.lastfm.shared_secret = "secret".to_owned();
    assert_eq!(
        validate_lastfm(&config.lastfm).unwrap_err().to_text(),
        "lastfm.session_key must be authorized"
    );
    config.lastfm.session_key = "session".to_owned();
    assert!(validate_lastfm(&config.lastfm).is_ok());
    assert!(validate_listenbrainz(&config.listenbrainz).is_err());
}

#[test]
fn addresses_of_webhooks_are_parsed() {
    let url = validate_webhook_url(" HTTPS://Example.test ").unwrap();
    assert_eq!(url.scheme, "https");
    assert_eq!(url.address, "https://example.test/");
    assert!(matches!(
        validate_webhook_url("   "),
        Err(ConfigError::MissingWebhookUrl)
    ));
    assert!(matches!(
        validate_webhook_url("ftp://example.test"),
        Err(ConfigError::WebhookScheme)
    ));
    assert_eq!(
        validate_webhook_url("not a URL").unwrap_err().to_text(),
        "webhook.url is invalid: relative URL without a base"
    );
    let parsed = WebUrl {
        scheme: "http".to_owned(),
        address: "http://a/".to_owned(),
    };
    assert!(validate_parsed_webhook_url("http://a", Ok(parsed)).is_ok());
    assert!(validate_parsed_webhook_url("", Err("reason".to_owned())).is_err());
}
