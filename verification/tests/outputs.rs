use tunebeacon::{
    config::{Config, MqttConfig, WebhookConfig},
    delivery::next_backoff,
    domain::{
        NowPlayingMessage, PlaybackStatus, Player, RawTrack, Timestamp, Verification,
        VerificationStatus,
    },
    json::Json,
    lastfm::LastFmStatus,
    mqtt::{
        client_id, client_id_on, credentials, publication, quality_of_service, test_client_id,
        MqttEvent, MqttSession, MqttStatus, MqttStep, Service,
    },
    playback::ScrobbleAction,
    runtime::{
        is_eligible_status, Lookup, OutputStatuses, RuntimeCore, RuntimeState, VerifiedResult,
    },
    web::HttpStatus,
    webhook::{
        request, require_success, test_event, WebhookDelivery, WebhookError, WebhookStep,
    },
};

const SECOND: u64 = 1_000_000_000;

fn track(title: &str) -> RawTrack {
    RawTrack {
        title: title.to_owned(),
        artists: vec!["Integration Artist".to_owned()],
        album: "Integration Album".to_owned(),
        duration_ms: Some(180_000),
        art_url: None,
        track_id: None,
        observed_at: Timestamp {
            seconds: 1_785_147_330,
            nanos: 0,
        },
    }
}

fn player(key: &str, title: &str) -> Player {
    Player {
        key: key.to_owned(),
        identity: "Fake Player".to_owned(),
        bus_name: format!("org.mpris.MediaPlayer2.{key}"),
        desktop_entry: None,
        status: PlaybackStatus::Playing,
        track: Some(track(title)),
    }
}

fn verified() -> Verification {
    Verification {
        status: VerificationStatus::Verified,
        score: Some(100),
        recording_id: Some("recording-id".to_owned()),
        release_id: None,
        release_group_id: None,
    }
}

fn message(title: &str, seconds: i64) -> NowPlayingMessage {
    let mut track = track(title);
    track.observed_at.seconds = seconds;
    NowPlayingMessage::new(&player("fake", title), &track, verified())
}

fn no_statuses() -> OutputStatuses {
    OutputStatuses {
        mqtt: None,
        webhook: None,
        lastfm: None,
        listenbrainz: None,
    }
}

#[test]
fn idle_is_silent_on_the_broker() {
    let mut session = MqttSession::new();
    assert_eq!(session.status.detail, "connecting");
    assert!(!session.change(None));
    assert!(!session.acknowledge(None));
    assert!(session.status.connected);
    assert_eq!(session.status.detail, "connected");
    assert!(!session.change(None));
}

#[test]
fn the_broker_is_sent_each_message_once() {
    let mut session = MqttSession::new();
    let first = message("Integration Song", 1);
    let second = message("Another Song", 2);
    assert!(!session.change(Some(&first)));
    assert!(session.acknowledge(Some(&first)));
    assert!(!session.change(Some(&first)));
    assert!(session.change(Some(&second)));
    assert!(!session.change(Some(&second)));
    assert!(!session.change(None));
    assert!(session.change(Some(&second)));
    assert_eq!(session.fail("broken".to_owned()), 1);
    assert!(!session.status.connected);
    assert_eq!(session.status.detail, "broken");
    assert!(!session.change(Some(&second)));
    assert!(session.acknowledge(Some(&second)));
}

#[test]
fn the_course_of_a_connection() {
    let mut session = MqttSession::new();
    let song = message("Integration Song", 1);
    let other = message("Another Song", 2);
    let steps = [
        session.handle(MqttEvent::Changed, Some(&song)),
        session.handle(MqttEvent::Accepted, Some(&song)),
        session.handle(MqttEvent::Changed, Some(&song)),
        session.handle(MqttEvent::Changed, Some(&other)),
        session.handle(MqttEvent::Changed, None),
        session.handle(MqttEvent::Changed, Some(&other)),
        session.handle(MqttEvent::Failed("broken".to_owned()), None),
        session.handle(MqttEvent::Failed("broken".to_owned()), None),
        session.handle(MqttEvent::Accepted, Some(&other)),
        session.handle(MqttEvent::Closed, Some(&other)),
    ];
    assert_eq!(
        steps.to_vec(),
        vec![
            MqttStep::Listen,
            MqttStep::Send,
            MqttStep::Listen,
            MqttStep::Send,
            MqttStep::Listen,
            MqttStep::Send,
            MqttStep::Reconnect(1),
            MqttStep::Reconnect(2),
            MqttStep::Send,
            MqttStep::End,
        ]
    );
}

#[test]
fn publications_follow_the_settings() {
    let mut config = MqttConfig::default();
    config.topic = "a/b".to_owned();
    config.retain = true;
    let published = publication(&config, &message("Song", 1)).unwrap();
    assert_eq!(published.topic, "a/b");
    assert_eq!(published.service, Service::AtLeastOnce);
    assert!(published.retain);
    match published.payload {
        Json::Object(fields) => {
            assert_eq!(fields[2].0, "track");
            assert!(matches!(&fields[2].1, Json::Text(text) if text == "Song"));
        }
        _ => panic!("no object"),
    }
    config.qos = 3;
    assert_eq!(
        publication(&config, &message("Song", 1)).unwrap_err(),
        "invalid MQTT QoS"
    );
}

#[test]
fn pauses_between_connections_grow_and_begin_anew() {
    let mut session = MqttSession::new();
    let pauses: Vec<u64> = (0..8).map(|_| session.fail("down".to_owned())).collect();
    assert_eq!(pauses, vec![1, 2, 4, 8, 16, 32, 60, 60]);
    session.acknowledge(None);
    assert_eq!(session.fail("down".to_owned()), 1);
    assert_eq!(session.fail("down".to_owned()), 2);
    assert_eq!(next_backoff(30), 60);
}

#[test]
fn settings_of_the_broker_are_read() {
    assert_eq!(quality_of_service(0), Ok(Service::AtMostOnce));
    assert_eq!(quality_of_service(1), Ok(Service::AtLeastOnce));
    assert_eq!(quality_of_service(2), Ok(Service::ExactlyOnce));
    assert_eq!(
        quality_of_service(3),
        Err("invalid MQTT QoS".to_owned())
    );
    let mut config = MqttConfig::default();
    config.password = Some("secret".to_owned());
    assert_eq!(credentials(&config), None);
    config.username = Some(String::new());
    assert_eq!(credentials(&config), None);
    config.username = Some("me".to_owned());
    assert_eq!(
        credentials(&config),
        Some(("me".to_owned(), "secret".to_owned()))
    );
    config.password = None;
    assert_eq!(
        credentials(&config),
        Some(("me".to_owned(), String::new()))
    );
    assert_eq!(
        client_id_on(&Some("desk".to_owned()), 42),
        "tunebeacon-desk-42"
    );
    assert_eq!(client_id_on(&None, 42), "tunebeacon-linux-42");
    assert!(client_id(7).starts_with("tunebeacon-"));
    assert!(client_id(7).ends_with("-7"));
    assert_eq!(test_client_id(7), "tunebeacon-test-7");
}

#[test]
fn failed_deliveries_give_way_to_the_newest_message() {
    let mut delivery = WebhookDelivery::new();
    assert_eq!(delivery.take_up(None), WebhookStep::Wait);
    assert_eq!(delivery.status.detail, "waiting for a track");
    assert_eq!(
        delivery.take_up(Some(message("Old Track", 1))),
        WebhookStep::Post
    );
    let refused = Err(WebhookError::Refused("503 Service Unavailable".to_owned()));
    assert_eq!(delivery.note_posted(&refused), WebhookStep::PostAfter(1));
    assert_eq!(
        delivery.status.detail,
        "webhook returned HTTP 503 Service Unavailable"
    );
    assert_eq!(delivery.note_pause(), WebhookStep::Post);
    assert_eq!(delivery.note_posted(&refused), WebhookStep::PostAfter(2));
    assert_eq!(
        delivery.take_up(Some(message("New Track", 2))),
        WebhookStep::Post
    );
    assert_eq!(delivery.message.as_ref().unwrap().track, "New Track");
    assert_eq!(delivery.note_posted(&refused), WebhookStep::PostAfter(1));
    assert_eq!(delivery.note_posted(&Ok(())), WebhookStep::Wait);
    assert!(delivery.status.delivered);
    assert_eq!(delivery.status.detail, "delivered");
    assert_eq!(delivery.take_up(None), WebhookStep::Wait);
    assert!(!delivery.status.delivered);
}

#[test]
fn the_course_of_a_delivery() {
    let mut delivery = WebhookDelivery::new();
    let track = |delivery: &WebhookDelivery| match delivery.body() {
        Some(Json::Object(fields)) => match &fields[2].1 {
            Json::Text(text) => text.clone(),
            _ => panic!("no text"),
        },
        Some(_) => panic!("no object"),
        None => String::new(),
    };
    let refused = Err(WebhookError::RequestFailed("down".to_owned()));
    assert_eq!(track(&delivery), "");
    delivery.take_up(Some(message("Old Track", 1)));
    let mut pauses = Vec::new();
    for _ in 0..4 {
        assert_eq!(track(&delivery), "Old Track");
        match delivery.note_posted(&refused) {
            WebhookStep::PostAfter(pause) => pauses.push(pause),
            _ => panic!("given up"),
        }
        assert!(!delivery.status.delivered);
        delivery.note_pause();
    }
    assert_eq!(pauses, vec![1, 2, 4, 8]);
    assert_eq!(delivery.note_posted(&Ok(())), WebhookStep::Wait);
    assert!(delivery.status.delivered);
    delivery.take_up(Some(message("New Track", 2)));
    assert_eq!(track(&delivery), "New Track");
    assert_eq!(delivery.note_posted(&refused), WebhookStep::PostAfter(1));
    assert!(!delivery.status.delivered);
    delivery.take_up(None);
    assert_eq!(track(&delivery), "");
}

#[test]
fn requests_to_the_webhook_bear_the_token() {
    let mut config = WebhookConfig {
        enabled: true,
        url: " http://127.0.0.1:8080/now-playing ".to_owned(),
        bearer_token: Some(" integration-secret ".to_owned()),
    };
    let prepared = request(&config).unwrap();
    assert_eq!(prepared.address, "http://127.0.0.1:8080/now-playing");
    assert_eq!(
        prepared.authorization.as_deref(),
        Some("Bearer integration-secret")
    );
    config.bearer_token = Some("  ".to_owned());
    assert_eq!(request(&config).unwrap().authorization, None);
    config.bearer_token = Some("a\u{0}b".to_owned());
    assert_eq!(
        request(&config).unwrap_err().to_text(),
        "webhook bearer token contains invalid characters: failed to parse header value"
    );
    config.url = "mailto:me@example.test".to_owned();
    assert_eq!(
        request(&config).unwrap_err().to_text(),
        "webhook.url must use http or https"
    );
    let mut delivery = WebhookDelivery::new();
    if let Err(WebhookError::Settings(error)) = request(&config) {
        delivery.reject(&error);
    }
    assert_eq!(
        delivery.status.detail,
        "webhook.url must use http or https"
    );
    assert_eq!(
        WebhookError::RequestFailed("down".to_owned()).to_text(),
        "webhook request failed: down"
    );
    let status = |code: u16, text: &str| HttpStatus {
        code,
        text: text.to_owned(),
    };
    assert!(require_success(&status(204, "204 No Content")).is_ok());
    assert!(require_success(&status(302, "302 Found")).is_err());
    match test_event() {
        Json::Object(fields) => {
            assert_eq!(fields.len(), 3);
            assert_eq!(fields[1].0, "event");
        }
        _ => panic!("no object"),
    }
}

fn config() -> Config {
    let mut config = Config::default();
    config.players.allowlist = vec!["fake".to_owned()];
    config.mqtt.enabled = true;
    config.webhook.enabled = true;
    config.lastfm.enabled = true;
    config
}

#[test]
fn a_track_is_looked_up_and_told_once() {
    let config = config();
    let mut core = RuntimeCore::new(&config);
    let mut state = RuntimeState::default();
    assert!(!core.configure(&config).any);
    let players = vec![player("fake", "Song"), player("other", "Private")];
    let seen = core.observe(
        &mut state,
        players.clone(),
        &config.players.allowlist,
        no_statuses(),
        0,
    );
    let generation = match seen.lookup {
        Lookup::Begin { player, generation } => {
            assert_eq!(player.key, "fake");
            generation
        }
        _ => panic!("not looked up"),
    };
    assert_eq!(state.players.len(), 2);
    assert_eq!(state.selected.as_ref().unwrap().key, "fake");
    let seen = core.observe(
        &mut state,
        players.clone(),
        &config.players.allowlist,
        no_statuses(),
        SECOND,
    );
    assert!(matches!(seen.lookup, Lookup::Keep));
    let told = core.handle_verified(
        &mut state,
        VerifiedResult {
            generation,
            player: player("fake", "Song"),
            verification: verified(),
        },
        false,
        2 * SECOND,
    );
    let (message, recipients) = told.message.unwrap();
    assert_eq!(message.track, "Song");
    assert!(recipients.mqtt && recipients.webhook);
    assert!(matches!(
        told.lastfm.as_slice(),
        [ScrobbleAction::NowPlaying(_)]
    ));
    assert!(told.listenbrainz.is_empty());
    assert!(state.verification.is_some());
    let again = core.handle_verified(
        &mut state,
        VerifiedResult {
            generation,
            player: player("fake", "Song"),
            verification: verified(),
        },
        false,
        3 * SECOND,
    );
    let (_, recipients) = again.message.unwrap();
    assert!(!recipients.mqtt && !recipients.webhook);
    assert!(again.lastfm.is_empty());
    let seen = core.observe(
        &mut state,
        players,
        &config.players.allowlist,
        no_statuses(),
        90 * SECOND,
    );
    assert!(matches!(
        seen.lastfm.as_slice(),
        [ScrobbleAction::Scrobble { .. }]
    ));
}

#[test]
fn late_outcomes_are_void() {
    let config = config();
    let mut core = RuntimeCore::new(&config);
    let mut state = RuntimeState::default();
    core.observe(
        &mut state,
        vec![player("fake", "One")],
        &config.players.allowlist,
        no_statuses(),
        0,
    );
    let late = core.generation;
    core.observe(
        &mut state,
        vec![player("fake", "Two")],
        &config.players.allowlist,
        no_statuses(),
        1,
    );
    let told = core.handle_verified(
        &mut state,
        VerifiedResult {
            generation: late,
            player: player("fake", "One"),
            verification: verified(),
        },
        true,
        2,
    );
    assert!(told.message.is_none());
    assert!(told.lastfm.is_empty());
    assert!(state.verification.is_none());
    let seen = core.observe(
        &mut state,
        Vec::new(),
        &config.players.allowlist,
        no_statuses(),
        3,
    );
    assert!(matches!(seen.lookup, Lookup::Drop));
}

#[test]
fn unverified_tracks_stay_private() {
    let config = config();
    for (status, wanted, told_of) in [
        (VerificationStatus::NotFound, false, false),
        (VerificationStatus::NotFound, true, true),
        (VerificationStatus::Ambiguous, true, true),
        (VerificationStatus::Unavailable, true, true),
        (VerificationStatus::Pending, true, false),
        (VerificationStatus::Verified, false, true),
    ] {
        let mut core = RuntimeCore::new(&config);
        let mut state = RuntimeState::default();
        let told = core.handle_verified(
            &mut state,
            VerifiedResult {
                generation: 0,
                player: player("fake", "Song"),
                verification: Verification::failed(status),
            },
            wanted,
            0,
        );
        assert_eq!(told.message.is_some(), told_of);
        assert_eq!(is_eligible_status(status, wanted), told_of);
        assert_eq!(state.verification.as_ref().unwrap().status, status);
    }
}

#[test]
fn changed_outputs_hear_of_the_current_track() {
    let mut config = config();
    config.webhook.enabled = false;
    let mut core = RuntimeCore::new(&config);
    let mut state = RuntimeState::default();
    let players = vec![player("fake", "Song")];
    core.observe(
        &mut state,
        players.clone(),
        &config.players.allowlist,
        no_statuses(),
        0,
    );
    assert!(core.outputs.publish(&players[0]).mqtt);
    config.webhook.enabled = true;
    config.lastfm.session_key = "new".to_owned();
    let changes = core.configure(&config);
    assert!(changes.any && changes.webhook && changes.lastfm);
    assert!(!changes.mqtt && !changes.listenbrainz);
    let seen = core.observe(
        &mut state,
        players.clone(),
        &config.players.allowlist,
        no_statuses(),
        1,
    );
    assert!(matches!(seen.lookup, Lookup::Begin { .. }));
    let recipients = core.outputs.publish(&players[0]);
    assert!(recipients.webhook && !recipients.mqtt);
    core.outputs.clear_if_idle();
    assert!(core.outputs.publish(&players[0]).mqtt);
}

#[test]
fn nobody_is_heard_unasked() {
    let config = Config::default();
    let mut core = RuntimeCore::new(&config);
    let mut state = RuntimeState::default();
    let seen = core.observe(
        &mut state,
        vec![player("fake", "Song")],
        &config.players.allowlist,
        no_statuses(),
        0,
    );
    assert!(matches!(seen.lookup, Lookup::Keep));
    assert!(state.selected.is_none());
}

#[test]
fn the_state_shows_how_the_outputs_stand() {
    let mut state = RuntimeState::default();
    state.fail("no bus".to_owned());
    assert_eq!(state.error.as_deref(), Some("no bus"));
    let mut session = MqttSession::new();
    session.acknowledge(None);
    let statuses = OutputStatuses {
        mqtt: Some(MqttStatus {
            connected: true,
            detail: "connected".to_owned(),
        }),
        lastfm: Some(LastFmStatus::waiting()),
        ..no_statuses()
    };
    state.update(vec![player("a", "Song")], None, statuses);
    assert!(state.error.is_none());
    assert!(state.mqtt.connected);
    assert_eq!(state.lastfm.detail, "waiting for a track");
    assert_eq!(state.webhook.detail, "");
    let copy = state.clone();
    assert_eq!(copy.players[0].key, "a");
    state.update(Vec::new(), Some(&player("b", "Song")), no_statuses());
    assert!(!state.mqtt.connected);
    assert_eq!(state.selected.unwrap().key, "b");
}
