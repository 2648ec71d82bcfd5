use chrono::{TimeZone, Utc};
use serde_json::Value;
use tunebeacon::{
    config::{LastFmConfig, ListenBrainzConfig},
    delivery::{next_backoff, ApiFailure, Exchange, FailureKind, NextAttempt},
    domain::{
        NowPlayingMessage, PlaybackStatus, Player, PublishedPlayer, RawTrack, Timestamp,
        Verification, VerificationStatus,
    },
    json::{Json, JsonAt},
    lastfm::{
        self, api_signature, begin_authorization, call_outcome, complete_authorization,
        now_playing_call, scrobble_call, scrobble_outcome, session_call, signature_input,
        token_call, track_fields, AuthorizationError, LastFmStatus,
    },
    listenbrainz::{
        self, authorization_header, prepare_lookup, submission, submission_for, submission_header,
        submit_address, submit_outcome, validate_address, validate_token, ListenBrainzStatus,
        TokenError,
    },
    playback::{PlaybackTracker, ScrobbleAction},
    submissions::Submissions,
    web::HttpStatus,
};

const SECOND: u64 = 1_000_000_000;
const MINUTE: u64 = 60 * SECOND;

fn to_value(json: &Json) -> Value {
    match json {
        Json::Text(text) => Value::from(text.as_str()),
        Json::Number(number) => Value::from(*number),
        Json::Signed(number) => Value::from(*number),
        Json::Moment(moment) => serde_json::to_value(
            Utc.timestamp_opt(moment.seconds, moment.nanos).unwrap(),
        )
        .unwrap(),
        Json::Array(items) => Value::from(items.iter().map(to_value).collect::<Vec<_>>()),
        Json::Object(fields) => Value::Object(
            fields
                .iter()
                .map(|(name, value)| (name.clone(), to_value(value)))
                .collect(),
        ),
    }
}

fn player(duration_ms: u64) -> Player {
    Player {
        key: "player".to_owned(),
        identity: "Player".to_owned(),
        bus_name: "org.mpris.MediaPlayer2.player".to_owned(),
        desktop_entry: None,
        status: PlaybackStatus::Playing,
        track: Some(RawTrack {
            title: "Track".to_owned(),
            artists: vec!["Artist".to_owned()],
            album: "Album".to_owned(),
            duration_ms: Some(duration_ms),
            art_url: None,
            track_id: Some("one".to_owned()),
            observed_at: Timestamp {
                seconds: Utc
                    .with_ymd_and_hms(2026, 7, 31, 1, 2, 3)
                    .unwrap()
                    .timestamp(),
                nanos: 0,
            },
        }),
    }
}

fn verification() -> Verification {
    Verification {
        status: VerificationStatus::Verified,
        score: Some(100),
        recording_id: Some("recording-id".to_owned()),
        release_id: None,
        release_group_id: None,
    }
}

fn message() -> NowPlayingMessage {
    NowPlayingMessage {
        schema_version: 1,
        observed_at: Timestamp {
            seconds: Utc
                .with_ymd_and_hms(2026, 8, 12, 1, 2, 3)
                .unwrap()
                .timestamp(),
            nanos: 0,
        },
        track: "A Track".to_owned(),
        artists: vec!["First Artist".to_owned(), "Second Artist".to_owned()],
        album: "An Album".to_owned(),
        duration_ms: Some(180_000),
        art_url: None,
        player: PublishedPlayer {
            key: "player".to_owned(),
            identity: "Music Player".to_owned(),
        },
        verification: Verification {
            status: VerificationStatus::Verified,
            score: Some(100),
            recording_id: Some("recording-id".to_owned()),
            release_id: Some("release-id".to_owned()),
            release_group_id: Some("release-group-id".to_owned()),
        },
    }
}

fn answered(code: u16, text: &str, body: &str) -> Exchange {
    Exchange::Answered {
        status: HttpStatus {
            code,
            text: text.to_owned(),
        },
        body: body.to_owned(),
    }
}

fn account() -> LastFmConfig {
    LastFmConfig {
        enabled: true,
        api_key: "xxxxxxxx".to_owned(),
        shared_secret: "mysecret".to_owned(),
        session_key: "session".to_owned(),
        username: "listener".to_owned(),
    }
}

fn pairs(fields: &[(String, String)]) -> Vec<(&str, &str)> {
    fields
        .iter()
        .map(|(name, value)| (name.as_str(), value.as_str()))
        .collect()
}

#[test]
fn signature_sorts_parameters_and_omits_format() {
    let fields = vec![
        ("token".to_owned(), "xxxxxxx".to_owned()),
        ("format".to_owned(), "json".to_owned()),
        ("method".to_owned(), "auth.getSession".to_owned()),
        ("api_key".to_owned(), "xxxxxxxx".to_owned()),
    ];
    assert_eq!(
        api_signature(&fields, "mysecret"),
        format!(
            "{:x}",
            md5::compute("api_keyxxxxxxxxmethodauth.getSessiontokenxxxxxxxmysecret")
        )
    );
}

#[test]
fn tracker_scrobbles_after_half_the_track_and_counts_only_playing_time() {
    let player = player(180_000);
    let start = 7 * SECOND;
    let mut tracker = PlaybackTracker::default();
    assert!(tracker.observe(Some(&player), start).is_empty());
    let actions = tracker.authorize(&player, verification(), start + 10 * SECOND);
    assert!(matches!(
        actions.as_slice(),
        [ScrobbleAction::NowPlaying(_)]
    ));
    assert!(tracker.pause(start + 45 * SECOND).is_empty());
    assert!(tracker
        .observe(Some(&player), start + 2 * MINUTE)
        .is_empty());
    let actions = tracker.observe(Some(&player), start + 165 * SECOND);
    assert!(matches!(
        actions.as_slice(),
        [ScrobbleAction::Scrobble { .. }]
    ));
    assert!(tracker
        .observe(Some(&player), start + 5 * MINUTE)
        .is_empty());
}

#[test]
fn tracker_never_scrobbles_tracks_that_are_not_longer_than_thirty_seconds() {
    let player = player(30_000);
    let start = 0;
    let mut tracker = PlaybackTracker::default();
    tracker.observe(Some(&player), start);
    tracker.authorize(&player, verification(), start);
    assert!(tracker.observe(Some(&player), start + MINUTE).is_empty());
}

#[test]
fn four_minutes_caps_the_scrobble_threshold() {
    let player = player(900_000);
    let start = 3;
    let mut tracker = PlaybackTracker::default();
    tracker.observe(Some(&player), start);
    tracker.authorize(&player, verification(), start);
    let actions = tracker.observe(Some(&player), start + 4 * MINUTE);
    assert!(matches!(
        actions.as_slice(),
        [ScrobbleAction::Scrobble { .. }]
    ));
}

#[test]
fn a_listen_is_due_to_the_nanosecond() {
    let player = player(31_001);
    let mut tracker = PlaybackTracker::default();
    tracker.observe(Some(&player), 0);
    tracker.authorize(&player, verification(), 0);
    assert!(tracker.observe(Some(&player), 15_500_499_999).is_empty());
    let actions = tracker.observe(Some(&player), 15_500_500_000);
    match actions.as_slice() {
        [ScrobbleAction::Scrobble {
            message,
            started_at,
        }] => {
            assert_eq!(message.track, "Track");
            assert_eq!(
                *started_at,
                player.track.as_ref().unwrap().observed_at.timestamp()
            );
        }
        _ => panic!("no listen"),
    }
}

#[test]
fn another_track_ends_the_playback_and_an_owed_listen_is_told() {
    let first = player(180_000);
    let mut second = player(180_000);
    second.track.as_mut().unwrap().track_id = Some("two".to_owned());
    let mut tracker = PlaybackTracker::default();
    tracker.observe(Some(&first), 0);
    tracker.authorize(&first, verification(), 0);
    let actions = tracker.observe(Some(&second), 90 * SECOND);
    assert!(matches!(
        actions.as_slice(),
        [ScrobbleAction::Scrobble { .. }]
    ));
    // The outcome for the first track is not taken for the second.
    assert!(tracker
        .authorize(&first, verification(), 91 * SECOND)
        .is_empty());
    assert_eq!(
        tracker
            .authorize(&second, verification(), 92 * SECOND)
            .len(),
        1
    );
    assert!(tracker
        .authorize(&second, verification(), 93 * SECOND)
        .is_empty());
    tracker.reset();
    assert!(tracker.pause(600 * SECOND).is_empty());
    assert!(tracker.observe(None, 601 * SECOND).is_empty());
}

#[test]
fn playing_now_omits_timestamp_and_includes_enrichment() {
    let value = to_value(&submission("playing_now", &message(), None));
    assert_eq!(value["listen_type"], "playing_now");
    assert!(value["payload"][0].get("listened_at").is_none());
    assert_eq!(
        value["payload"][0]["track_metadata"]["artist_name"],
        "First Artist, Second Artist"
    );
    assert_eq!(
        value["payload"][0]["track_metadata"]["additional_info"]["recording_mbid"],
        "recording-id"
    );
}

#[test]
fn single_listen_uses_playback_start_timestamp() {
    let value = to_value(&submission("single", &message(), Some(1_700_000_000)));
    assert_eq!(value["listen_type"], "single");
    assert_eq!(value["payload"][0]["listened_at"], 1_700_000_000);
}

#[test]
fn submissions_leave_out_what_is_not_known() {
    let mut bare = message();
    bare.album = String::new();
    bare.duration_ms = None;
    bare.verification = Verification::failed(VerificationStatus::NotFound);
    let value = to_value(&submission_for(&ScrobbleAction::NowPlaying(bare)));
    let metadata = &value["payload"][0]["track_metadata"];
    assert!(metadata.get("release_name").is_none());
    assert_eq!(metadata["track_name"], "A Track");
    let info = metadata["additional_info"].as_object().unwrap();
    assert_eq!(info.len(), 3);
    assert_eq!(info["submission_client"], "TuneBeacon");
    assert_eq!(info["submission_client_version"], "0.2.0");
    assert_eq!(info["media_player"], "Music Player");
    let value = to_value(&submission_for(&ScrobbleAction::Scrobble {
        message: message(),
        started_at: 5,
    }));
    assert_eq!(value["payload"][0]["listened_at"], 5);
    assert_eq!(
        value["payload"][0]["track_metadata"]["release_name"],
        "An Album"
    );
}

#[test]
fn signed_text_holds_each_name_once_with_its_last_value() {
    let fields = vec![
        ("b".to_owned(), "1".to_owned()),
        ("a".to_owned(), "2".to_owned()),
        ("callback".to_owned(), "x".to_owned()),
        ("b".to_owned(), "3".to_owned()),
        ("api_sig".to_owned(), "y".to_owned()),
        ("artist[0]".to_owned(), "4".to_owned()),
    ];
    assert_eq!(signature_input(&fields, "S"), "a2artist[0]4b3S");
    assert_eq!(
        api_signature(&[], ""),
        "d41d8cd98f00b204e9800998ecf8427e"
    );
}

#[test]
fn calls_say_what_is_known_of_the_track() {
    assert_eq!(
        pairs(&track_fields(&message())),
        vec![
            ("artist", "First Artist"),
            ("track", "A Track"),
            ("album", "An Album"),
            ("duration", "180"),
            ("mbid", "recording-id"),
        ]
    );
    let mut bare = message();
    bare.artists = Vec::new();
    bare.album = "  ".to_owned();
    bare.duration_ms = None;
    bare.verification.recording_id = None;
    assert_eq!(
        pairs(&track_fields(&bare)),
        vec![("artist", ""), ("track", "A Track")]
    );
}

#[test]
fn calls_in_the_name_of_the_account_are_signed() {
    let call = now_playing_call(&message(), &account());
    let shown = pairs(&call);
    assert_eq!(shown[5], ("method", "track.updateNowPlaying"));
    assert_eq!(shown[6], ("api_key", "xxxxxxxx"));
    assert_eq!(shown[7], ("sk", "session"));
    assert_eq!(shown[8].0, "api_sig");
    assert_eq!(shown[9], ("format", "json"));
    assert_eq!(shown[8].1, api_signature(&call[..8], "mysecret"));
    let call = scrobble_call(&message(), -12, &account());
    let shown = pairs(&call);
    assert_eq!(shown[5], ("method", "track.scrobble"));
    assert_eq!(shown[6], ("timestamp", "-12"));
    assert_eq!(shown.len(), 11);
}

#[test]
fn answers_of_lastfm_are_told_apart() {
    assert!(call_outcome(&answered(200, "200 OK", "{}")).is_ok());
    let failure = call_outcome(&Exchange::RequestFailed("down".to_owned())).unwrap_err();
    assert_eq!(failure.kind, FailureKind::Retryable);
    assert_eq!(failure.message, "Last.fm request failed: down");
    let failure = call_outcome(&Exchange::ReadFailed("cut".to_owned())).unwrap_err();
    assert_eq!(failure.kind, FailureKind::Retryable);
    assert_eq!(failure.message, "failed to read Last.fm response: cut");
    let failure =
        call_outcome(&answered(502, "502 Bad Gateway", "<html>")).unwrap_err();
    assert_eq!(failure.kind, FailureKind::Retryable);
    assert!(failure
        .message
        .starts_with("invalid Last.fm response (HTTP 502 Bad Gateway): "));
    let failure = call_outcome(&answered(404, "404 Not Found", "<html>")).unwrap_err();
    assert_eq!(failure.kind, FailureKind::Permanent);
    for (code, kind) in [
        (9, FailureKind::Authentication),
        (11, FailureKind::Retryable),
        (16, FailureKind::Retryable),
        (6, FailureKind::Permanent),
    ] {
        let body = format!("{{\"error\": {code}, \"message\": \"why\"}}");
        let failure = call_outcome(&answered(200, "200 OK", &body)).unwrap_err();
        assert_eq!(failure.kind, kind);
        assert_eq!(failure.message, format!("Last.fm error {code}: why"));
    }
    let failure = call_outcome(&answered(200, "200 OK", "{\"error\": 6}")).unwrap_err();
    assert_eq!(failure.message, "Last.fm error 6: Last.fm API error");
    // Only whole numbers are error codes.
    assert!(call_outcome(&answered(200, "200 OK", "{\"error\": 1.5}")).is_ok());
    assert!(call_outcome(&answered(200, "200 OK", "{\"error\": \"9\"}")).is_ok());
    let failure = call_outcome(&answered(204, "204 No Content", "[]")).unwrap_err();
    assert_eq!(failure.kind, FailureKind::Permanent);
    assert_eq!(failure.message, "Last.fm returned HTTP 204 No Content");
    let failure = call_outcome(&answered(500, "500 Internal Server Error", "1")).unwrap_err();
    assert_eq!(failure.kind, FailureKind::Retryable);
    let reply = lastfm::classify_reply(
        &HttpStatus {
            code: 200,
            text: "200 OK".to_owned(),
        },
        &JsonAt::Missing,
        &JsonAt::Missing,
    );
    assert!(reply.is_ok());
}

#[test]
fn scrobbles_must_be_accepted() {
    let number = "{\"scrobbles\": {\"@attr\": {\"accepted\": 1}}}";
    assert!(scrobble_outcome(&answered(200, "200 OK", number)).is_ok());
    let text = "{\"scrobbles\": {\"@attr\": {\"accepted\": \"1\"}}}";
    assert!(scrobble_outcome(&answered(200, "200 OK", text)).is_ok());
    let ignored = "{\"scrobbles\": {\"@attr\": {\"accepted\": 0}, \
                   \"scrobble\": {\"ignoredMessage\": {\"#text\": \"too old\"}}}}";
    let failure = scrobble_outcome(&answered(200, "200 OK", ignored)).unwrap_err();
    assert_eq!(failure.kind, FailureKind::Permanent);
    assert_eq!(failure.message, "too old");
    let lower = "{\"scrobbles\": {\"scrobble\": {\"ignoredmessage\": {\"#text\": \"spam\"}}}}";
    let failure = scrobble_outcome(&answered(200, "200 OK", lower)).unwrap_err();
    assert_eq!(failure.message, "spam");
    let failure = scrobble_outcome(&answered(200, "200 OK", "{}")).unwrap_err();
    assert_eq!(failure.message, "Last.fm ignored the scrobble");
    let failure = scrobble_outcome(&answered(200, "200 OK", "{\"error\": 9}")).unwrap_err();
    assert_eq!(failure.kind, FailureKind::Authentication);
    assert!(lastfm::classify_acceptance(
        &JsonAt::Text("x".to_owned()),
        &JsonAt::Null,
        &JsonAt::Text("not read".to_owned())
    )
    .is_err_and(|failure| failure.message == "Last.fm ignored the scrobble"));
}

#[test]
fn accounts_are_connected_in_two_steps() {
    let mut config = account();
    let call = token_call(&config).unwrap();
    assert_eq!(pairs(&call)[1], ("method", "auth.getToken"));
    config.api_key = " key&1 ".to_owned();
    let authorization =
        begin_authorization(&config, &answered(200, "200 OK", "{\"token\": \"t/1\"}")).unwrap();
    assert_eq!(authorization.token, "t/1");
    assert_eq!(
        authorization.url,
        "https://www.last.fm/api/auth/?api_key=key%261&token=t%2F1"
    );
    for body in ["{}", "{\"token\": \"\"}", "{\"token\": 1}"] {
        assert!(matches!(
            begin_authorization(&config, &answered(200, "200 OK", body)),
            Err(AuthorizationError::IncompleteToken)
        ));
    }
    assert!(matches!(
        begin_authorization(&config, &Exchange::RequestFailed("down".to_owned())),
        Err(AuthorizationError::Call(_))
    ));
    config.api_key = "  ".to_owned();
    let error = token_call(&config).unwrap_err();
    assert_eq!(
        error.to_text(),
        "enter the Last.fm API key and shared secret first"
    );

    let call = session_call(&account(), "xxxxxxx");
    assert_eq!(
        pairs(&call)[3],
        (
            "api_sig",
            format!(
                "{:x}",
                md5::compute("api_keyxxxxxxxxmethodauth.getSessiontokenxxxxxxxmysecret")
            )
            .as_str()
        )
    );
    let session = complete_authorization(&answered(
        200,
        "200 OK",
        "{\"session\": {\"name\": \"me\", \"key\": \"k\"}}",
    ))
    .unwrap();
    assert_eq!(session.username, "me");
    assert_eq!(session.session_key, "k");
    assert!(session == session.clone());
    for (body, text) in [
        ("{}", "Last.fm session response was incomplete"),
        (
            "{\"session\": null}",
            "Last.fm session response did not include an account name",
        ),
        (
            "{\"session\": {\"name\": \"me\"}}",
            "Last.fm session response did not include a session key",
        ),
    ] {
        let error = complete_authorization(&answered(200, "200 OK", body)).unwrap_err();
        assert_eq!(error.to_text(), text);
    }
}

fn announcement() -> ScrobbleAction {
    ScrobbleAction::NowPlaying(message())
}

fn listen(started_at: i64) -> ScrobbleAction {
    ScrobbleAction::Scrobble {
        message: message(),
        started_at,
    }
}

fn failed(kind: FailureKind, message: &str) -> Result<(), ApiFailure> {
    Err(ApiFailure {
        kind,
        message: message.to_owned(),
    })
}

#[test]
fn listens_are_sent_again_and_announcements_are_not() {
    let mut status = LastFmStatus::waiting();
    assert_eq!(status.detail, "waiting for a track");
    let mut submissions = Submissions::new();
    submissions.receive(announcement());
    submissions.receive(announcement());
    submissions.receive(listen(0));
    assert_eq!(
        status.note(&mut submissions, &Ok(())),
        NextAttempt::Settled
    );
    assert!(status.authenticated);
    assert_eq!(status.detail, "now playing sent");
    assert_eq!(
        status.note(&mut submissions, &failed(FailureKind::Retryable, "busy")),
        NextAttempt::Settled
    );
    assert_eq!(status.detail, "busy");
    let mut pauses = Vec::new();
    for _ in 0..8 {
        match status.note(&mut submissions, &failed(FailureKind::Retryable, "busy")) {
            NextAttempt::After(pause) => pauses.push(pause),
            NextAttempt::Settled => panic!("given up"),
        }
        assert_eq!(status.detail, "retrying scrobble: busy");
        assert!(status.authenticated);
    }
    assert_eq!(pauses, vec![1, 2, 4, 8, 16, 32, 60, 60]);
    assert_eq!(
        status.note(&mut submissions, &Ok(())),
        NextAttempt::Settled
    );
    assert_eq!(status.detail, "scrobbled");
    submissions.receive(listen(1));
    assert_eq!(
        status.note(
            &mut submissions,
            &failed(FailureKind::Authentication, "refused")
        ),
        NextAttempt::Settled
    );
    assert!(!status.authenticated);
    assert!(submissions.current().is_none());
    assert_eq!(next_backoff(31), 60);
    assert_eq!(next_backoff(u64::MAX), 60);

    let mut other = ListenBrainzStatus::waiting();
    submissions.receive(listen(2));
    assert_eq!(
        other.note(&mut submissions, &failed(FailureKind::Retryable, "busy")),
        NextAttempt::After(1)
    );
    assert_eq!(other.detail, "retrying listen: busy");
    assert_eq!(other.note(&mut submissions, &Ok(())), NextAttempt::Settled);
    assert_eq!(other.detail, "listen submitted");
}

#[test]
fn actions_are_submitted_one_by_one_in_their_order() {
    let mut status = LastFmStatus::waiting();
    let mut submissions = status.open(&account()).unwrap();
    let first = |submissions: &Submissions| match submissions.current() {
        Some(ScrobbleAction::Scrobble { started_at, .. }) => *started_at,
        Some(ScrobbleAction::NowPlaying(_)) => -1,
        None => -2,
    };
    submissions.receive(listen(1));
    submissions.receive(announcement());
    submissions.receive(listen(2));
    let mut seen = Vec::new();
    let results = [
        failed(FailureKind::Retryable, "busy"),
        failed(FailureKind::Retryable, "busy"),
        Ok(()),
        failed(FailureKind::Retryable, "busy"),
        failed(FailureKind::Retryable, "busy"),
        failed(FailureKind::Permanent, "no"),
    ];
    for result in &results {
        let action = first(&submissions);
        seen.push((action, status.note(&mut submissions, result)));
    }
    assert_eq!(
        seen,
        vec![
            (1, NextAttempt::After(1)),
            (1, NextAttempt::After(2)),
            (1, NextAttempt::Settled),
            (-1, NextAttempt::Settled),
            (2, NextAttempt::After(1)),
            (2, NextAttempt::Settled),
        ]
    );
    assert_eq!(first(&submissions), -2);
}

#[test]
fn each_action_has_its_call_and_its_outcome() {
    let config = account();
    assert_eq!(
        lastfm::call_for(&announcement(), &config),
        now_playing_call(&message(), &config)
    );
    assert_eq!(
        lastfm::call_for(&listen(7), &config),
        scrobble_call(&message(), 7, &config)
    );
    // A granted answer that accepts nothing is enough for an announcement alone.
    let granted = answered(200, "200 OK", "{}");
    assert!(lastfm::outcome_for(&announcement(), &granted).is_ok());
    assert!(lastfm::outcome_for(&listen(7), &granted).is_err());
}

#[test]
fn signatures_do_not_depend_on_the_order_of_fields() {
    let mut fields = track_fields(&message());
    let signature = api_signature(&fields, "mysecret");
    fields.reverse();
    assert_eq!(api_signature(&fields, "mysecret"), signature);
}

#[test]
fn settings_that_allow_for_no_call_are_said() {
    let mut config = account();
    assert!(lastfm::check_settings(&config).is_ok());
    config.session_key = String::new();
    let failure = lastfm::check_settings(&config).unwrap_err();
    assert_eq!(failure.kind, FailureKind::Permanent);
    let mut status = LastFmStatus::default();
    status.reject(&failure);
    assert_eq!(status.detail, "lastfm.session_key must be authorized");
    let mut status = LastFmStatus::waiting();
    assert!(status.open(&config).is_none());
    assert_eq!(status.detail, "lastfm.session_key must be authorized");
    let config = ListenBrainzConfig {
        enabled: true,
        token: " ".to_owned(),
        username: String::new(),
    };
    let failure = listenbrainz::check_settings(&config).unwrap_err();
    let mut status = ListenBrainzStatus::default();
    status.reject(&failure);
    assert!(!status.detail.is_empty());
    assert!(ListenBrainzStatus::waiting().open(&config).is_none());
}

#[test]
fn answers_of_listenbrainz_are_told_apart() {
    assert!(submit_outcome(&answered(200, "200 OK", "anything")).is_ok());
    for (code, text, kind) in [
        (401, "401 Unauthorized", FailureKind::Authentication),
        (403, "403 Forbidden", FailureKind::Authentication),
        (429, "429 Too Many Requests", FailureKind::Retryable),
        (503, "503 Service Unavailable", FailureKind::Retryable),
        (400, "400 Bad Request", FailureKind::Permanent),
    ] {
        let failure =
            submit_outcome(&answered(code, text, "{\"error\": \"why\"}")).unwrap_err();
        assert_eq!(failure.kind, kind);
        assert_eq!(
            failure.message,
            format!("ListenBrainz returned HTTP {text}: why")
        );
    }
    for (body, message) in [
        ("<html>", "ListenBrainz returned HTTP 400 Bad Request"),
        ("{\"message\": \"m\"}", "ListenBrainz returned HTTP 400 Bad Request: m"),
        (
            "{\"error\": 4, \"message\": \"m\"}",
            "ListenBrainz returned HTTP 400 Bad Request",
        ),
        ("{\"error\": \"\"}", "ListenBrainz returned HTTP 400 Bad Request"),
    ] {
        let failure = submit_outcome(&answered(400, "400 Bad Request", body)).unwrap_err();
        assert_eq!(failure.message, message);
    }
    let failure = submit_outcome(&Exchange::RequestFailed("down".to_owned())).unwrap_err();
    assert_eq!(failure.message, "ListenBrainz request failed: down");
    let failure = submit_outcome(&Exchange::ReadFailed("cut".to_owned())).unwrap_err();
    assert_eq!(failure.message, "failed to read ListenBrainz response: cut");
    assert_eq!(
        submit_address(),
        "https://api.listenbrainz.org/1/submit-listens"
    );
    assert_eq!(
        validate_address(),
        "https://api.listenbrainz.org/1/validate-token"
    );
}

#[test]
fn tokens_are_looked_up() {
    let mut config = ListenBrainzConfig {
        enabled: true,
        token: " abc ".to_owned(),
        username: String::new(),
    };
    assert_eq!(prepare_lookup(&config).unwrap(), "Token abc");
    assert_eq!(authorization_header("ü").as_deref(), Some("Token ü"));
    assert_eq!(
        submission_header("a\nb").unwrap_err().message,
        "ListenBrainz token contains invalid characters: failed to parse header value"
    );
    config.token = "a\u{7f}b".to_owned();
    assert!(matches!(
        prepare_lookup(&config),
        Err(TokenError::InvalidCharacters)
    ));
    config.token = String::new();
    assert!(matches!(
        prepare_lookup(&config),
        Err(TokenError::Settings(_))
    ));
    assert_eq!(
        validate_token(&answered(
            200,
            "200 OK",
            "{\"valid\": true, \"user_name\": \"me\"}"
        ))
        .unwrap(),
        "me"
    );
    for (code, text, body, words) in [
        (
            200,
            "200 OK",
            "no",
            "invalid ListenBrainz validation response (HTTP 200 OK)",
        ),
        (
            500,
            "500 Internal Server Error",
            "{}",
            "ListenBrainz token validation returned HTTP 500 Internal Server Error",
        ),
        (
            200,
            "200 OK",
            "{\"valid\": \"true\"}",
            "ListenBrainz token is invalid",
        ),
        (
            200,
            "200 OK",
            "{\"valid\": true, \"user_name\": \"\"}",
            "ListenBrainz validation response omitted the username",
        ),
    ] {
        let error = validate_token(&answered(code, text, body)).unwrap_err();
        assert_eq!(error.to_text(), words);
    }
    assert_eq!(
        validate_token(&Exchange::RequestFailed("down".to_owned()))
            .unwrap_err()
            .to_text(),
        "ListenBrainz token validation failed"
    );
    assert_eq!(
        validate_token(&Exchange::ReadFailed("cut".to_owned()))
            .unwrap_err()
            .to_text(),
        "failed to read ListenBrainz validation response"
    );
}
