//! What is said to ListenBrainz, and what its answers mean.

use vstd::prelude::*;

use crate::config::{validate_listenbrainz, ConfigError, ListenBrainzConfig};
use crate::delivery::{
    note_attempt, ApiFailure, Exchange, FailureKind, NextAttempt,
};
use crate::domain::NowPlayingMessage;
use crate::json::{
    array, json_at, object, push_field, push_optional_number, push_optional_text, Json, JsonAt,
};
use crate::playback::ScrobbleAction;
use crate::submissions::Submissions;
use crate::text::join;
use crate::web::{header_accepts, HttpStatus};

verus! {

/// Where the service is reached.
pub const API_ROOT: &'static str = "https://api.listenbrainz.org";

/// Where listens are posted to.
pub const SUBMIT_ENDPOINT: &'static str = "/1/submit-listens";

/// Where a token is looked up.
pub const VALIDATE_ENDPOINT: &'static str = "/1/validate-token";

/// How the account stands: whether it is authenticated, and what happened last.
#[derive(Debug)]
pub struct ListenBrainzStatus {
    pub authenticated: bool,
    pub detail: String,
}

impl View for ListenBrainzStatus {
    type V = crate::delivery::AccountView;

    open spec fn view(&self) -> crate::delivery::AccountView {
        crate::delivery::AccountView { authenticated: self.authenticated, detail: self.detail@ }
    }
}

impl Clone for ListenBrainzStatus {
    fn clone(&self) -> (copy: Self)
        ensures
            copy@ == self@,
    {
        ListenBrainzStatus { authenticated: self.authenticated, detail: self.detail.clone() }
    }
}

impl Default for ListenBrainzStatus {
    fn default() -> (status: Self)
        ensures
            status.authenticated == false,
            status.detail@ == Seq::<char>::empty(),
    {
        ListenBrainzStatus { authenticated: false, detail: String::new() }
    }
}

/// The address that listens are posted to.
pub fn submit_address() -> (address: String)
    ensures
        address@ == API_ROOT@ + SUBMIT_ENDPOINT@,
{
    let mut address = API_ROOT.to_owned();
    address.append(SUBMIT_ENDPOINT);
    address
}

/// The address that a token is looked up at.
pub fn validate_address() -> (address: String)
    ensures
        address@ == API_ROOT@ + VALIDATE_ENDPOINT@,
{
    let mut address = API_ROOT.to_owned();
    address.append(VALIDATE_ENDPOINT);
    address
}

/// What a submission says beside the names: what sent it, who played, and what else is known.
pub open spec fn additional_info(message: crate::domain::NowPlayingMessageView) -> crate::json::JsonView {
    crate::json::JsonView::Object(
        seq![
            ("submission_client"@, crate::json::JsonView::Text(crate::APP_NAME@)),
            ("submission_client_version"@, crate::json::JsonView::Text(crate::APP_VERSION@)),
            ("media_player"@, crate::json::JsonView::Text(message.player.identity)),
        ] + crate::json::optional_number("duration_ms"@, message.duration_ms)
            + crate::json::optional_text("recording_mbid"@, message.verification.recording_id)
            + crate::json::optional_text("release_mbid"@, message.verification.release_id)
            + crate::json::optional_text(
            "release_group_mbid"@,
            message.verification.release_group_id,
        ),
    )
}

/// What a submission says of a track. The album is left out when it has no name.
pub open spec fn track_metadata(message: crate::domain::NowPlayingMessageView) -> crate::json::JsonView {
    crate::json::JsonView::Object(
        seq![
            (
                "artist_name"@,
                crate::json::JsonView::Text(crate::text::joined(message.artists, ", "@)),
            ),
            ("track_name"@, crate::json::JsonView::Text(message.track)),
        ] + crate::json::optional_text(
            "release_name"@,
            if message.album.len() == 0 {
                None
            } else {
                Some(message.album)
            },
        ) + seq![("additional_info"@, additional_info(message))],
    )
}

/// One listen: when it began, if it is one that is over, and the track.
pub open spec fn listen_view(
    message: crate::domain::NowPlayingMessageView,
    listened_at: Option<i64>,
) -> crate::json::JsonView {
    crate::json::JsonView::Object(
        match listened_at {
            Some(moment) => seq![("listened_at"@, crate::json::JsonView::Signed(moment))],
            None => Seq::empty(),
        } + seq![("track_metadata"@, track_metadata(message))],
    )
}

/// What is posted: the type of the listen, and the listen.
pub open spec fn submission_view(
    listen_type: Seq<char>,
    message: crate::domain::NowPlayingMessageView,
    listened_at: Option<i64>,
) -> crate::json::JsonView {
    crate::json::JsonView::Object(
        seq![
            ("listen_type"@, crate::json::JsonView::Text(listen_type)),
            (
                "payload"@,
                crate::json::JsonView::Array(seq![listen_view(message, listened_at)]),
            ),
        ],
    )
}

/// What a submission says beside the names.
fn additional_info_json(message: &NowPlayingMessage) -> (json: Json)
    ensures
        json@ == additional_info(message@),
{
    let mut fields: Vec<(String, Json)> = Vec::new();
    push_field(&mut fields, "submission_client", Json::Text(crate::APP_NAME.to_owned()));
    push_field(&mut fields, "submission_client_version", Json::Text(crate::APP_VERSION.to_owned()));
    push_field(&mut fields, "media_player", Json::Text(message.player.identity.clone()));
    assert(crate::json::field_views(fields@) =~= seq![
        ("submission_client"@, crate::json::JsonView::Text(crate::APP_NAME@)),
        ("submission_client_version"@, crate::json::JsonView::Text(crate::APP_VERSION@)),
        ("media_player"@, crate::json::JsonView::Text(message.player.identity@)),
    ]);
    push_optional_number(&mut fields, "duration_ms", message.duration_ms);
    push_optional_text(&mut fields, "recording_mbid", &message.verification.recording_id);
    push_optional_text(&mut fields, "release_mbid", &message.verification.release_id);
    push_optional_text(&mut fields, "release_group_mbid", &message.verification.release_group_id);
    object(fields)
}

/// What a submission says of a track.
fn track_metadata_json(message: &NowPlayingMessage) -> (json: Json)
    ensures
        json@ == track_metadata(message@),
{
    let mut fields: Vec<(String, Json)> = Vec::new();
    push_field(&mut fields, "artist_name", Json::Text(join(&message.artists, ", ")));
    push_field(&mut fields, "track_name", Json::Text(message.track.clone()));
    assert(crate::json::field_views(fields@) =~= seq![
        (
            "artist_name"@,
            crate::json::JsonView::Text(
                crate::text::joined(crate::text::texts(message.artists@), ", "@),
            ),
        ),
        ("track_name"@, crate::json::JsonView::Text(message.track@)),
    ]);
    let album: Option<String> = if message.album.as_str().is_empty() {
        None
    } else {
        Some(message.album.clone())
    };
    push_optional_text(&mut fields, "release_name", &album);
    let ghost named = crate::json::field_views(fields@);
    push_field(&mut fields, "additional_info", additional_info_json(message));
    assert(crate::json::field_views(fields@) =~= named + seq![
        ("additional_info"@, additional_info(message@)),
    ]);
    object(fields)
}

/// What is posted: the type of the listen, and the listen.
pub fn submission(
    listen_type: &str,
    message: &NowPlayingMessage,
    listened_at: Option<i64>,
) -> (json: Json)
    ensures
        json@ == submission_view(listen_type@, message@, listened_at),
{
    let mut listen: Vec<(String, Json)> = Vec::new();
    if let Some(moment) = listened_at {
        push_field(&mut listen, "listened_at", Json::Signed(moment));
    }
    let ghost timed = crate::json::field_views(listen@);
    push_field(&mut listen, "track_metadata", track_metadata_json(message));
    assert(crate::json::field_views(listen@) =~= listen_view(message@, listened_at)->Object_0);
    let mut items: Vec<Json> = Vec::new();
    items.push(object(listen));
    assert(crate::json::item_views(items@) =~= seq![listen_view(message@, listened_at)]);
    let mut fields: Vec<(String, Json)> = Vec::new();
    push_field(&mut fields, "listen_type", Json::Text(listen_type.to_owned()));
    push_field(&mut fields, "payload", array(items));
    assert(crate::json::field_views(fields@) =~= submission_view(
        listen_type@,
        message@,
        listened_at,
    )->Object_0);
    object(fields)
}

/// What is posted for an action: a listen says when it began, and what is playing does not.
pub open spec fn posted(action: crate::playback::ScrobbleActionView) -> crate::json::JsonView {
    match action {
        crate::playback::ScrobbleActionView::NowPlaying(message) => submission_view(
            "playing_now"@,
            message,
            None,
        ),
        crate::playback::ScrobbleActionView::Scrobble { message, started_at } => submission_view(
            "single"@,
            message,
            Some(started_at),
        ),
    }
}

/// What is posted for an action.
pub fn submission_for(action: &ScrobbleAction) -> (json: Json)
    ensures
        json@ == posted(action@),
{
    match action {
        ScrobbleAction::NowPlaying(message) => submission("playing_now", message, None),
        ScrobbleAction::Scrobble { message, started_at } => submission(
            "single",
            message,
            Some(*started_at),
        ),
    }
}

/// What the header says with which the account is authorized.
pub open spec fn authorization_text(token: Seq<char>) -> Seq<char> {
    "Token "@ + crate::text::trimmed(token)
}

/// The header with which the account is authorized; the token must be fit for a header.
pub fn authorization_header(token: &str) -> (header: Option<String>)
    ensures
        crate::text::opt_text(header) == (if crate::web::is_header_text(authorization_text(token@)) {
            Some(authorization_text(token@))
        } else {
            None
        }),
{
    let mut header = "Token ".to_owned();
    header.append(token.trim());
    if header_accepts(header.as_str()) {
        Some(header)
    } else {
        None
    }
}

/// Before anything is posted: the token must be there.
pub open spec fn settings_check(config: crate::config::ListenBrainzConfigView) -> Result<
    (),
    crate::delivery::ApiFailureView,
> {
    match crate::config::listenbrainz_check(config) {
        Ok(_) => Ok(()),
        Err(error) => Err(
            crate::delivery::ApiFailureView {
                kind: FailureKind::Permanent,
                message: error.message(),
            },
        ),
    }
}

/// Whether the settings allow for anything to be posted.
pub fn check_settings(config: &ListenBrainzConfig) -> (result: Result<(), ApiFailure>)
    ensures
        crate::delivery::fared(result) == settings_check(config@),
{
    match validate_listenbrainz(config) {
        Ok(_) => Ok(()),
        Err(error) => Err(ApiFailure { kind: FailureKind::Permanent, message: error.to_text() }),
    }
}

/// The header for what is posted; a token that is unfit for one fails for good.
pub fn submission_header(token: &str) -> (header: Result<String, ApiFailure>)
    ensures
        match header {
            Ok(header) => crate::web::is_header_text(authorization_text(token@)) && header@
                == authorization_text(token@),
            Err(failure) => !crate::web::is_header_text(authorization_text(token@))
                && failure.kind == FailureKind::Permanent && failure.message@
                == invalid_token_text(),
        },
{
    match authorization_header(token) {
        Some(header) => Ok(header),
        None => Err(
            ApiFailure {
                kind: FailureKind::Permanent,
                message: "ListenBrainz token contains invalid characters: failed to parse header value".to_owned(),
            },
        ),
    }
}

/// What is said of a token that is unfit for a header, with the reason.
pub open spec fn invalid_token_text() -> Seq<char> {
    "ListenBrainz token contains invalid characters: failed to parse header value"@
}

/// What a refused request calls for.
pub open spec fn kind_of_status(status: HttpStatus) -> FailureKind {
    if status.code == 401 || status.code == 403 {
        FailureKind::Authentication
    } else if status.code == 429 || status.server_error() {
        FailureKind::Retryable
    } else {
        FailureKind::Permanent
    }
}

/// What a refusal says of itself: the error, or else the message, if it is a text and not empty.
pub open spec fn refusal_detail(
    error: crate::json::JsonAtView,
    message: crate::json::JsonAtView,
) -> Option<Seq<char>> {
    match (if error.present() {
        error
    } else {
        message
    }).text() {
        Some(text) => if text.len() > 0 {
            Some(text)
        } else {
            None
        },
        None => None,
    }
}

/// What an answer means.
pub open spec fn reply_check(
    status: HttpStatus,
    error: crate::json::JsonAtView,
    message: crate::json::JsonAtView,
) -> Result<(), crate::delivery::ApiFailureView> {
    if status.success() {
        Ok(())
    } else {
        Err(
            crate::delivery::ApiFailureView {
                kind: kind_of_status(status),
                message: match refusal_detail(error, message) {
                    Some(detail) => "ListenBrainz returned HTTP "@ + status.text@ + ": "@ + detail,
                    None => "ListenBrainz returned HTTP "@ + status.text@,
                },
            },
        )
    }
}

/// Says what an answer means, from what stands in it at `/error` and at `/message`.
pub fn classify_reply(status: &HttpStatus, error: &JsonAt, message: &JsonAt) -> (result: Result<
    (),
    ApiFailure,
>)
    ensures
        crate::delivery::fared(result) == reply_check(*status, error@, message@),
{
    if status.is_success() {
        return Ok(());
    }
    let kind = if status.code == 401 || status.code == 403 {
        FailureKind::Authentication
    } else if status.code == 429 || status.is_server_error() {
        FailureKind::Retryable
    } else {
        FailureKind::Permanent
    };
    let mut text = "ListenBrainz returned HTTP ".to_owned();
    text.append(status.text.as_str());
    let stated = if error.is_present() {
        error.as_text()
    } else {
        message.as_text()
    };
    if let Some(detail) = stated {
        if !detail.is_empty() {
            text.append(": ");
            text.append(detail);
        }
    }
    Err(ApiFailure { kind, message: text })
}

/// What came of posting. What could not be sent or read may be tried again.
pub open spec fn submit_check(exchange: Exchange) -> Result<(), crate::delivery::ApiFailureView> {
    match exchange {
        Exchange::RequestFailed(reason) => Err(
            crate::delivery::ApiFailureView {
                kind: FailureKind::Retryable,
                message: "ListenBrainz request failed: "@ + reason@,
            },
        ),
        Exchange::ReadFailed(reason) => Err(
            crate::delivery::ApiFailureView {
                kind: FailureKind::Retryable,
                message: "failed to read ListenBrainz response: "@ + reason@,
            },
        ),
        Exchange::Answered { status, body } => reply_check(
            status,
            crate::json::json_found(body@, "/error"@),
            crate::json::json_found(body@, "/message"@),
        ),
    }
}

/// Says what came of posting.
pub fn submit_outcome(exchange: &Exchange) -> (result: Result<(), ApiFailure>)
    ensures
        crate::delivery::fared(result) == submit_check(*exchange),
{
    match exchange {
        Exchange::RequestFailed(reason) => {
            let mut text = "ListenBrainz request failed: ".to_owned();
            text.append(reason.as_str());
            Err(ApiFailure { kind: FailureKind::Retryable, message: text })
        },
        Exchange::ReadFailed(reason) => {
            let mut text = "failed to read ListenBrainz response: ".to_owned();
            text.append(reason.as_str());
            Err(ApiFailure { kind: FailureKind::Retryable, message: text })
        },
        Exchange::Answered { status, body } => {
            let error = json_at(body.as_str(), "/error");
            let message = json_at(body.as_str(), "/message");
            classify_reply(status, &error, &message)
        },
    }
}

/// What is said of the account once the action succeeded.
pub open spec fn success_text(action: crate::playback::ScrobbleActionView) -> Seq<char> {
    if action is Scrobble {
        "listen submitted"@
    } else {
        "now playing sent"@
    }
}

impl ListenBrainzStatus {
    /// How the account stands before anything was sent.
    pub fn waiting() -> (status: Self)
        ensures
            status@ == crate::delivery::AccountView::waiting(),
    {
        ListenBrainzStatus { authenticated: false, detail: "waiting for a track".to_owned() }
    }

    /// Takes note that the settings do not allow for anything to be posted.
    pub fn reject(&mut self, failure: &ApiFailure)
        ensures
            final(self).authenticated == old(self).authenticated,
            final(self).detail@ == failure.message@,
    {
        self.detail = failure.message.clone();
    }

    /// Begins to submit, where the settings allow for it; where they do not, there is nothing to
    /// submit with, and the account says why.
    pub fn open(&mut self, config: &ListenBrainzConfig) -> (submissions: Option<Submissions>)
        ensures
            match submissions {
                Some(submissions) => settings_check(config@) is Ok && submissions@
                    == crate::submissions::SubmissionsView::empty() && final(self)@ == old(self)@,
                None => settings_check(config@) is Err && final(self)@ == (
                crate::delivery::AccountView {
                    detail: settings_check(config@)->Err_0.message,
                    ..old(self)@
                }),
            },
    {
        match check_settings(config) {
            Ok(_) => Some(Submissions::new()),
            Err(failure) => {
                self.reject(&failure);
                None
            },
        }
    }

    /// Takes note of how a request for the first action that waits fared, and says what follows.
    pub fn note(
        &mut self,
        submissions: &mut Submissions,
        result: &Result<(), ApiFailure>,
    ) -> (next: NextAttempt)
        requires
            old(submissions)@.queue.len() > 0,
        ensures
            next == old(submissions)@.next(crate::delivery::fared(*result)),
            final(submissions)@ == old(submissions)@.tried(crate::delivery::fared(*result)),
            final(self)@ == old(self)@.after_attempt(
                old(submissions)@.queue[0] is Scrobble,
                crate::delivery::fared(*result),
                success_text(old(submissions)@.queue[0]),
                "retrying listen: "@,
            ),
    {
        let (repeated, success) = match submissions.current() {
            Some(ScrobbleAction::Scrobble { .. }) => (true, "listen submitted"),
            _ => (false, "now playing sent"),
        };
        let next = note_attempt(
            &mut self.authenticated,
            &mut self.detail,
            &mut submissions.attempts,
            repeated,
            result,
            success,
            "retrying listen: ",
        );
        submissions.conclude(next);
        next
    }
}

/// Why a token could not be validated.
#[derive(Debug)]
pub enum TokenError {
    Settings(ConfigError),
    InvalidCharacters,
    RequestFailed(String),
    ReadFailed(String),
    /// The answer is no JSON: the status of the answer, and the reason.
    InvalidResponse(String, String),
    Refused(String),
    Invalid,
    MissingUsername,
}

/// The contents of a [`TokenError`].
pub ghost enum TokenErrorView {
    Settings(crate::config::ConfigErrorView),
    InvalidCharacters,
    RequestFailed(Seq<char>),
    ReadFailed(Seq<char>),
    InvalidResponse(Seq<char>, Seq<char>),
    Refused(Seq<char>),
    Invalid,
    MissingUsername,
}

impl View for TokenError {
    type V = TokenErrorView;

    open spec fn view(&self) -> TokenErrorView {
        match self {
            TokenError::Settings(error) => TokenErrorView::Settings(error@),
            TokenError::InvalidCharacters => TokenErrorView::InvalidCharacters,
            TokenError::RequestFailed(reason) => TokenErrorView::RequestFailed(reason@),
            TokenError::ReadFailed(reason) => TokenErrorView::ReadFailed(reason@),
            TokenError::InvalidResponse(status, reason) => TokenErrorView::InvalidResponse(
                status@,
                reason@,
            ),
            TokenError::Refused(status) => TokenErrorView::Refused(status@),
            TokenError::Invalid => TokenErrorView::Invalid,
            TokenError::MissingUsername => TokenErrorView::MissingUsername,
        }
    }
}

impl TokenErrorView {
    /// The error in words.
    pub open spec fn message(self) -> Seq<char> {
        match self {
            TokenErrorView::Settings(error) => error.message(),
            TokenErrorView::InvalidCharacters => "ListenBrainz token contains invalid characters"@,
            TokenErrorView::RequestFailed(_) => "ListenBrainz token validation failed"@,
            TokenErrorView::ReadFailed(_) => "failed to read ListenBrainz validation response"@,
            TokenErrorView::InvalidResponse(status, _) =>
                "invalid ListenBrainz validation response (HTTP "@ + status + ")"@,
            TokenErrorView::Refused(status) => "ListenBrainz token validation returned HTTP "@
                + status,
            TokenErrorView::Invalid => "ListenBrainz token is invalid"@,
            TokenErrorView::MissingUsername =>
                "ListenBrainz validation response omitted the username"@,
        }
    }
}

impl TokenError {
    /// The error in words.
    pub fn to_text(&self) -> (text: String)
        ensures
            text@ == self@.message(),
    {
        match self {
            TokenError::Settings(error) => error.to_text(),
            TokenError::InvalidCharacters =>
                "ListenBrainz token contains invalid characters".to_owned(),
            TokenError::RequestFailed(_) => "ListenBrainz token validation failed".to_owned(),
            TokenError::ReadFailed(_) =>
                "failed to read ListenBrainz validation response".to_owned(),
            TokenError::InvalidResponse(status, _) => {
                let mut text = "invalid ListenBrainz validation response (HTTP ".to_owned();
                text.append(status.as_str());
                text.append(")");
                text
            },
            TokenError::Refused(status) => {
                let mut text = "ListenBrainz token validation returned HTTP ".to_owned();
                text.append(status.as_str());
                text
            },
            TokenError::Invalid => "ListenBrainz token is invalid".to_owned(),
            TokenError::MissingUsername =>
                "ListenBrainz validation response omitted the username".to_owned(),
        }
    }
}

/// The header with which a token is looked up, or why it cannot be.
pub open spec fn lookup_header(config: crate::config::ListenBrainzConfigView) -> Result<
    Seq<char>,
    TokenErrorView,
> {
    match crate::config::listenbrainz_check(config) {
        Err(error) => Err(TokenErrorView::Settings(error)),
        Ok(_) => if crate::web::is_header_text(authorization_text(config.token)) {
            Ok(authorization_text(config.token))
        } else {
            Err(TokenErrorView::InvalidCharacters)
        },
    }
}

/// The outcome of something that gives a text.
pub open spec fn token_outcome(outcome: Result<String, TokenError>) -> Result<
    Seq<char>,
    TokenErrorView,
> {
    match outcome {
        Ok(text) => Ok(text@),
        Err(error) => Err(error@),
    }
}

/// The header with which a token is looked up.
pub fn prepare_lookup(config: &ListenBrainzConfig) -> (header: Result<String, TokenError>)
    ensures
        token_outcome(header) == lookup_header(config@),
{
    if let Err(error) = validate_listenbrainz(config) {
        return Err(TokenError::Settings(error));
    }
    match authorization_header(config.token.as_str()) {
        Some(header) => Ok(header),
        None => Err(TokenError::InvalidCharacters),
    }
}

/// Whose token it is: the answer must be JSON, be granted, call the token valid and name the user.
pub open spec fn user_named(
    status: HttpStatus,
    valid: crate::json::JsonAtView,
    user: crate::json::JsonAtView,
) -> Result<Seq<char>, TokenErrorView> {
    if valid is Invalid {
        Err(TokenErrorView::InvalidResponse(status.text@, valid->Invalid_0))
    } else if !status.success() {
        Err(TokenErrorView::Refused(status.text@))
    } else if valid != crate::json::JsonAtView::Bool(true) {
        Err(TokenErrorView::Invalid)
    } else {
        match user.text() {
            Some(name) => if name.len() > 0 {
                Ok(name)
            } else {
                Err(TokenErrorView::MissingUsername)
            },
            None => Err(TokenErrorView::MissingUsername),
        }
    }
}

/// Whose token it is, from what stands in the answer at `/valid` and at `/user_name`.
pub fn user_in(status: &HttpStatus, valid: &JsonAt, user: &JsonAt) -> (outcome: Result<
    String,
    TokenError,
>)
    ensures
        token_outcome(outcome) == user_named(*status, valid@, user@),
{
    if let JsonAt::Invalid(reason) = valid {
        return Err(TokenError::InvalidResponse(status.text.clone(), reason.clone()));
    }
    if !status.is_success() {
        return Err(TokenError::Refused(status.text.clone()));
    }
    let accepted = match valid {
        JsonAt::Bool(value) => *value,
        _ => false,
    };
    if !accepted {
        return Err(TokenError::Invalid);
    }
    match user.as_text() {
        Some(name) => if name.is_empty() {
            Err(TokenError::MissingUsername)
        } else {
            Ok(name.to_owned())
        },
        None => Err(TokenError::MissingUsername),
    }
}

/// Whose token it is, after it was looked up.
pub open spec fn lookup_check(exchange: Exchange) -> Result<Seq<char>, TokenErrorView> {
    match exchange {
        Exchange::RequestFailed(reason) => Err(TokenErrorView::RequestFailed(reason@)),
        Exchange::ReadFailed(reason) => Err(TokenErrorView::ReadFailed(reason@)),
        Exchange::Answered { status, body } => user_named(
            status,
            crate::json::json_found(body@, "/valid"@),
            crate::json::json_found(body@, "/user_name"@),
        ),
    }
}

/// Whose token it is, after it was looked up.
pub fn validate_token(exchange: &Exchange) -> (outcome: Result<String, TokenError>)
    ensures
        token_outcome(outcome) == lookup_check(*exchange),
{
    match exchange {
        Exchange::RequestFailed(reason) => Err(TokenError::RequestFailed(reason.clone())),
        Exchange::ReadFailed(reason) => Err(TokenError::ReadFailed(reason.clone())),
        Exchange::Answered { status, body } => {
            let valid = json_at(body.as_str(), "/valid");
            let user = json_at(body.as_str(), "/user_name");
            user_in(status, &valid, &user)
        },
    }
}

/// Only a listen says when it began: what is playing is posted without a moment.
pub proof fn law_only_listens_are_timed(
    message: crate::domain::NowPlayingMessageView,
    started_at: i64,
)
    ensures
        ({
            let playing = posted(crate::playback::ScrobbleActionView::NowPlaying(message));
            let listen = posted(
                crate::playback::ScrobbleActionView::Scrobble { message, started_at },
            );
            &&& !crate::json::has_field(playing->Object_0[1].1->Array_0[0], "listened_at"@)
            &&& listen->Object_0[1].1->Array_0[0]->Object_0[0] == (
                "listened_at"@,
                crate::json::JsonView::Signed(started_at),
            )
        }),
{
    reveal_strlit("listened_at");
    reveal_strlit("track_metadata");
    let fields = listen_view(message, None)->Object_0;
    assert(fields =~= seq![("track_metadata"@, track_metadata(message))]);
    assert(fields[0].0.len() != "listened_at"@.len());
    let timed = listen_view(message, Some(started_at))->Object_0;
    assert(timed[0] == ("listened_at"@, crate::json::JsonView::Signed(started_at)));
}

/// A number that may be known, as a value.
pub open spec fn known_number(number: Option<u64>) -> Option<crate::json::JsonView> {
    match number {
        Some(number) => Some(crate::json::JsonView::Number(number)),
        None => None,
    }
}

/// What is said beside the names, read by name: what sent it, who played, and the duration and the
/// identifiers of the recording, the release and the release group, each under its own name and
/// exactly where it is known.
pub proof fn law_enrichment_reads_back(message: crate::domain::NowPlayingMessageView)
    ensures
        ({
            let info = additional_info(message);
            &&& crate::json::reads(
                info,
                "submission_client"@,
                Some(crate::json::JsonView::Text("TuneBeacon"@)),
            )
            &&& crate::json::reads(
                info,
                "submission_client_version"@,
                Some(crate::json::JsonView::Text("0.2.0"@)),
            )
            &&& crate::json::reads(
                info,
                "media_player"@,
                Some(crate::json::JsonView::Text(message.player.identity)),
            )
            &&& crate::json::reads(info, "duration_ms"@, known_number(message.duration_ms))
            &&& crate::json::reads(
                info,
                "recording_mbid"@,
                crate::json::known_text(message.verification.recording_id),
            )
            &&& crate::json::reads(
                info,
                "release_mbid"@,
                crate::json::known_text(message.verification.release_id),
            )
            &&& crate::json::reads(
                info,
                "release_group_mbid"@,
                crate::json::known_text(message.verification.release_group_id),
            )
        }),
{
    reveal_strlit("submission_client");
    reveal_strlit("submission_client_version");
    reveal_strlit("media_player");
    reveal_strlit("duration_ms");
    reveal_strlit("recording_mbid");
    reveal_strlit("release_mbid");
    reveal_strlit("release_group_mbid");
    assert("submission_client"@.len() == 17 && "submission_client_version"@.len() == 25);
    assert("media_player"@.len() == 12 && "duration_ms"@.len() == 11);
    assert("recording_mbid"@.len() == 14 && "release_mbid"@.len() == 12);
    assert("release_group_mbid"@.len() == 18);
    assert("media_player"@[0] != "release_mbid"@[0]);
    let info = additional_info(message);
    let fields = info->Object_0;
    let before_recording: int = 3 + if message.duration_ms is Some {
        1int
    } else {
        0
    };
    let before_release: int = before_recording + if message.verification.recording_id is Some {
        1int
    } else {
        0
    };
    let before_group: int = before_release + if message.verification.release_id is Some {
        1int
    } else {
        0
    };
    assert forall|i: int| 0 <= i < fields.len() implies (#[trigger] fields[i]).0 == (if i == 0 {
        "submission_client"@
    } else if i == 1 {
        "submission_client_version"@
    } else if i == 2 {
        "media_player"@
    } else if i < before_recording {
        "duration_ms"@
    } else if i < before_release {
        "recording_mbid"@
    } else if i < before_group {
        "release_mbid"@
    } else {
        "release_group_mbid"@
    }) by {}
    assert(fields[0] == (
        "submission_client"@,
        crate::json::JsonView::Text("TuneBeacon"@),
    ));
    assert(fields[1] == (
        "submission_client_version"@,
        crate::json::JsonView::Text("0.2.0"@),
    ));
    assert(fields[2] == (
        "media_player"@,
        crate::json::JsonView::Text(message.player.identity),
    ));
    if let Some(duration) = message.duration_ms {
        assert(fields[3] == ("duration_ms"@, crate::json::JsonView::Number(duration)));
    }
    if let Some(id) = message.verification.recording_id {
        assert(fields[before_recording] == ("recording_mbid"@, crate::json::JsonView::Text(id)));
    }
    if let Some(id) = message.verification.release_id {
        assert(fields[before_release] == ("release_mbid"@, crate::json::JsonView::Text(id)));
    }
    if let Some(id) = message.verification.release_group_id {
        assert(fields[before_group] == ("release_group_mbid"@, crate::json::JsonView::Text(id)));
    }
}

/// What is said of a track, read by name: all artists with a comma between, the title, the album
/// where it has a name, and the rest.
pub proof fn law_track_reads_back(message: crate::domain::NowPlayingMessageView)
    ensures
        ({
            let track = track_metadata(message);
            &&& crate::json::reads(
                track,
                "artist_name"@,
                Some(crate::json::JsonView::Text(crate::text::joined(message.artists, ", "@))),
            )
            &&& crate::json::reads(
                track,
                "track_name"@,
                Some(crate::json::JsonView::Text(message.track)),
            )
            &&& crate::json::reads(
                track,
                "release_name"@,
                if message.album.len() == 0 {
                    None
                } else {
                    Some(crate::json::JsonView::Text(message.album))
                },
            )
            &&& crate::json::reads(track, "additional_info"@, Some(additional_info(message)))
        }),
{
    reveal_strlit("artist_name");
    reveal_strlit("track_name");
    reveal_strlit("release_name");
    reveal_strlit("additional_info");
    assert("artist_name"@.len() == 11 && "track_name"@.len() == 10);
    assert("release_name"@.len() == 12 && "additional_info"@.len() == 15);
    let track = track_metadata(message);
    let fields = track->Object_0;
    let last: int = if message.album.len() == 0 {
        2
    } else {
        3
    };
    assert forall|i: int| 0 <= i < fields.len() implies (#[trigger] fields[i]).0 == (if i == 0 {
        "artist_name"@
    } else if i == 1 {
        "track_name"@
    } else if i < last {
        "release_name"@
    } else {
        "additional_info"@
    }) by {}
    assert(fields[0].1 == crate::json::JsonView::Text(
        crate::text::joined(message.artists, ", "@),
    ));
    assert(fields[1].1 == crate::json::JsonView::Text(message.track));
    if message.album.len() > 0 {
        assert(fields[2] == ("release_name"@, crate::json::JsonView::Text(message.album)));
    }
    assert(fields[last] == ("additional_info"@, additional_info(message)));
    assert(crate::json::reads(track, "artist_name"@, Some(fields[0].1)));
    assert(crate::json::reads(track, "track_name"@, Some(fields[1].1)));
    assert(crate::json::reads(track, "additional_info"@, Some(fields[last].1)));
}

/// A submission, read by name, is one listen of its type: it says when it began exactly where that
/// is given, and holds the track. An announcement is posted as what is playing now, without a
/// moment; a listen as a single one, with the moment at which its playback began.
pub proof fn law_submission_reads_back(
    listen_type: Seq<char>,
    message: crate::domain::NowPlayingMessageView,
    listened_at: Option<i64>,
    started_at: i64,
)
    ensures
        ({
            let json = submission_view(listen_type, message, listened_at);
            &&& crate::json::reads(
                json,
                "listen_type"@,
                Some(crate::json::JsonView::Text(listen_type)),
            )
            &&& exists|listen: crate::json::JsonView|
                {
                    &&& #[trigger] crate::json::reads(
                        json,
                        "payload"@,
                        Some(crate::json::JsonView::Array(seq![listen])),
                    )
                    &&& crate::json::reads(
                        listen,
                        "listened_at"@,
                        match listened_at {
                            Some(moment) => Some(crate::json::JsonView::Signed(moment)),
                            None => None,
                        },
                    )
                    &&& crate::json::reads(
                        listen,
                        "track_metadata"@,
                        Some(track_metadata(message)),
                    )
                }
        }),
        posted(crate::playback::ScrobbleActionView::NowPlaying(message)) == submission_view(
            "playing_now"@,
            message,
            None,
        ),
        posted(crate::playback::ScrobbleActionView::Scrobble { message, started_at })
            == submission_view("single"@, message, Some(started_at)),
{
    reveal_strlit("listen_type");
    reveal_strlit("payload");
    reveal_strlit("listened_at");
    reveal_strlit("track_metadata");
    assert("listen_type"@.len() == 11 && "payload"@.len() == 7);
    assert("listened_at"@.len() == 11 && "track_metadata"@.len() == 14);
    let json = submission_view(listen_type, message, listened_at);
    let fields = json->Object_0;
    let listen = fields[1].1->Array_0[0];
    assert(fields[1].1->Array_0 =~= seq![listen]);
    assert(fields[0] == ("listen_type"@, crate::json::JsonView::Text(listen_type)));
    assert(fields[1] == ("payload"@, crate::json::JsonView::Array(seq![listen])));
    let inner = listen->Object_0;
    let last: int = if listened_at is Some {
        1
    } else {
        0
    };
    assert forall|i: int| 0 <= i < inner.len() implies (#[trigger] inner[i]).0 == (if i < last {
        "listened_at"@
    } else {
        "track_metadata"@
    }) by {}
    if let Some(moment) = listened_at {
        assert(inner[0] == ("listened_at"@, crate::json::JsonView::Signed(moment)));
    }
    assert(inner[last] == ("track_metadata"@, track_metadata(message)));
    assert(crate::json::reads(
        json,
        "payload"@,
        Some(crate::json::JsonView::Array(seq![listen])),
    ));
}

/// What a status code calls for: 401 and 403 another authorization, 429 and the five hundreds
/// another attempt, and every other refusal nothing; only the two hundreds are no refusal.
pub proof fn law_status_codes_are_told_apart(
    status: HttpStatus,
    error: crate::json::JsonAtView,
    message: crate::json::JsonAtView,
)
    ensures
        reply_check(status, error, message) is Ok <==> status.code as int / 100 == 2,
        match reply_check(status, error, message) {
            Ok(_) => true,
            Err(failure) => {
                &&& failure.kind == FailureKind::Authentication <==> status.code == 401
                    || status.code == 403
                &&& failure.kind == FailureKind::Retryable <==> status.code == 429
                    || status.code as int / 100 == 5
                &&& ("ListenBrainz returned HTTP "@ + status.text@).is_prefix_of(failure.message)
            },
        },
{
    if let Err(failure) = reply_check(status, error, message) {
        let head = "ListenBrainz returned HTTP "@ + status.text@;
        assert(failure.message.subrange(0, head.len() as int) =~= head);
    }
}

/// A refusal is told with the service's own words, where it has some: the error, and the message
/// only where there is no error.
pub proof fn law_refusals_are_told_in_the_services_words(
    status: HttpStatus,
    error: crate::json::JsonAtView,
    message: crate::json::JsonAtView,
)
    requires
        status.code as int / 100 != 2,
    ensures
        ({
            let said = reply_check(status, error, message)->Err_0.message;
            let head = "ListenBrainz returned HTTP "@ + status.text@;
            &&& error is Text && error->Text_0.len() > 0 ==> said == head + ": "@ + error->Text_0
            &&& (error is Missing || error is Invalid) && message is Text && message->Text_0.len()
                > 0 ==> said == head + ": "@ + message->Text_0
            &&& !(error is Text) && !(error is Missing) && !(error is Invalid) ==> said == head
            &&& (error is Missing || error is Invalid) && !(message is Text) ==> said == head
            &&& error is Text && error->Text_0.len() == 0 ==> said == head
        }),
{
}

/// A token is taken for a user's only where the answer was granted, is JSON, says that the token is
/// valid, and names the user; and the user is the one that it names.
pub proof fn law_tokens_name_their_user(
    status: HttpStatus,
    valid: crate::json::JsonAtView,
    user: crate::json::JsonAtView,
)
    ensures
        user_named(status, valid, user) is Ok <==> status.code as int / 100 == 2 && valid
            == crate::json::JsonAtView::Bool(true) && user is Text && user->Text_0.len() > 0,
        user_named(status, valid, user) is Ok ==> user_named(status, valid, user)->Ok_0
            == user->Text_0,
{
}

/// The header bears the token and nothing else, without the white space around it, and only where
/// the settings have a token that is fit for a header.
pub proof fn law_header_bears_the_token(config: crate::config::ListenBrainzConfigView)
    ensures
        authorization_text(config.token) == "Token "@ + crate::text::trimmed(config.token),
        lookup_header(config) is Ok ==> lookup_header(config)->Ok_0 == authorization_text(
            config.token,
        ) && !crate::text::is_blank(config.token),
        crate::text::is_blank(config.token) ==> settings_check(config) is Err
            && lookup_header(config) is Err,
        !crate::text::is_blank(config.token) ==> settings_check(config) is Ok,
        !crate::text::is_blank(config.token) && (forall|i: int|
            0 <= i < authorization_text(config.token).len() ==> (
            #[trigger] authorization_text(config.token)[i] as u32) >= 32 && authorization_text(
                config.token,
            )[i] as u32 != 127) ==> lookup_header(config) is Ok,
{
}

/// Nothing that failed on its way is taken for an answer: what could not be sent or read may be
/// tried again, with its reason.
pub proof fn law_lost_requests_may_be_repeated(reason: String)
    ensures
        ({
            let sent = submit_check(Exchange::RequestFailed(reason));
            let read = submit_check(Exchange::ReadFailed(reason));
            &&& sent is Err && sent->Err_0.kind == FailureKind::Retryable
            &&& read is Err && read->Err_0.kind == FailureKind::Retryable
            &&& sent->Err_0.message == "ListenBrainz request failed: "@ + reason@
            &&& read->Err_0.message == "failed to read ListenBrainz response: "@ + reason@
            &&& lookup_check(Exchange::RequestFailed(reason)) is Err
            &&& lookup_check(Exchange::ReadFailed(reason)) is Err
        }),
{
}

/// Views show every field as it is, and outcomes are shown as they are.
pub proof fn law_views_show_every_field(status: ListenBrainzStatus, text: String, error: TokenError)
    ensures
        status@.authenticated == status.authenticated && status@.detail == status.detail@,
        token_outcome(Ok(text)) == Ok::<Seq<char>, TokenErrorView>(text@),
        token_outcome(Err(error)) == Err::<Seq<char>, TokenErrorView>(error@),
{
}

/// Answers are read at their own places: the error and the message of a refusal, and whether a
/// token is valid and whose it is.
pub proof fn law_answers_are_read_at_their_places(status: HttpStatus, body: String)
    ensures
        ({
            let answer = Exchange::Answered { status, body };
            let at = |place: Seq<char>| crate::json::json_found(body@, place);
            &&& submit_check(answer) == reply_check(status, at("/error"@), at("/message"@))
            &&& lookup_check(answer) == user_named(status, at("/valid"@), at("/user_name"@))
        }),
{
}

/// A success is told in the words for what succeeded, and settings that lack the token are refused
/// for good.
pub proof fn law_successes_are_told_apart(
    message: crate::domain::NowPlayingMessageView,
    started_at: i64,
    config: crate::config::ListenBrainzConfigView,
)
    ensures
        success_text(crate::playback::ScrobbleActionView::NowPlaying(message))
            == "now playing sent"@,
        success_text(crate::playback::ScrobbleActionView::Scrobble { message, started_at })
            == "listen submitted"@,
        settings_check(config) is Ok <==> crate::config::listenbrainz_check(config) is Ok,
        settings_check(config) is Err ==> settings_check(config)->Err_0.kind
            == FailureKind::Permanent,
{
}

/// Each error of a look-up has its words, and so has a token that no header can bear.
pub proof fn law_errors_have_their_words(
    status: Seq<char>,
    reason: Seq<char>,
    error: crate::config::ConfigErrorView,
)
    ensures
        TokenErrorView::Settings(error).message() == error.message(),
        TokenErrorView::InvalidCharacters.message()
            == "ListenBrainz token contains invalid characters"@,
        TokenErrorView::RequestFailed(reason).message() == "ListenBrainz token validation failed"@,
        TokenErrorView::ReadFailed(reason).message()
            == "failed to read ListenBrainz validation response"@,
        TokenErrorView::InvalidResponse(status, reason).message()
            == "invalid ListenBrainz validation response (HTTP "@ + status + ")"@,
        TokenErrorView::Refused(status).message()
            == "ListenBrainz token validation returned HTTP "@ + status,
        TokenErrorView::Invalid.message() == "ListenBrainz token is invalid"@,
        TokenErrorView::MissingUsername.message()
            == "ListenBrainz validation response omitted the username"@,
        invalid_token_text()
            == "ListenBrainz token contains invalid characters: failed to parse header value"@,
{
}

} // verus!
