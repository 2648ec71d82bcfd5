//! When a message goes to the webhook, and how.

use vstd::prelude::*;

use crate::config::{validate_webhook_url, ConfigError, WebhookConfig};
use crate::delivery::next_backoff;
use crate::domain::NowPlayingMessage;
use crate::json::{message_json, object, push_field, Json};
use crate::web::{header_accepts, HttpStatus};

verus! {

/// Whether the latest message was delivered, and what happened last.
#[derive(Debug)]
pub struct WebhookStatus {
    pub delivered: bool,
    pub detail: String,
}

/// The contents of a [`WebhookStatus`].
#[verifier::ext_equal]
pub ghost struct WebhookStatusView {
    pub delivered: bool,
    pub detail: Seq<char>,
}

impl View for WebhookStatus {
    type V = WebhookStatusView;

    open spec fn view(&self) -> WebhookStatusView {
        WebhookStatusView { delivered: self.delivered, detail: self.detail@ }
    }
}

impl Clone for WebhookStatus {
    fn clone(&self) -> (copy: Self)
        ensures
            copy@ == self@,
    {
        WebhookStatus { delivered: self.delivered, detail: self.detail.clone() }
    }
}

impl Default for WebhookStatus {
    fn default() -> (status: Self)
        ensures
            status.delivered == false,
            status.detail@ == Seq::<char>::empty(),
    {
        WebhookStatus { delivered: false, detail: String::new() }
    }
}

/// Why nothing could be delivered.
#[derive(Debug)]
pub enum WebhookError {
    Settings(ConfigError),
    /// The token is unfit for a header.
    InvalidToken,
    /// The request could not be sent; the reason.
    RequestFailed(String),
    /// The answer was no success; its status.
    Refused(String),
}

/// The contents of a [`WebhookError`].
pub ghost enum WebhookErrorView {
    Settings(crate::config::ConfigErrorView),
    InvalidToken,
    RequestFailed(Seq<char>),
    Refused(Seq<char>),
}

impl View for WebhookError {
    type V = WebhookErrorView;

    open spec fn view(&self) -> WebhookErrorView {
        match self {
            WebhookError::Settings(error) => WebhookErrorView::Settings(error@),
            WebhookError::InvalidToken => WebhookErrorView::InvalidToken,
            WebhookError::RequestFailed(reason) => WebhookErrorView::RequestFailed(reason@),
            WebhookError::Refused(status) => WebhookErrorView::Refused(status@),
        }
    }
}

impl WebhookErrorView {
    /// The error in words, with its cause.
    pub open spec fn message(self) -> Seq<char> {
        match self {
            WebhookErrorView::Settings(error) => error.message(),
            WebhookErrorView::InvalidToken =>
                "webhook bearer token contains invalid characters: failed to parse header value"@,
            WebhookErrorView::RequestFailed(reason) => "webhook request failed: "@ + reason,
            WebhookErrorView::Refused(status) => "webhook returned HTTP "@ + status,
        }
    }
}

impl WebhookError {
    /// The error in words, with its cause.
    pub fn to_text(&self) -> (text: String)
        ensures
            text@ == self@.message(),
    {
        match self {
            WebhookError::Settings(error) => error.to_text(),
            WebhookError::InvalidToken =>
                "webhook bearer token contains invalid characters: failed to parse header value".to_owned(),
            WebhookError::RequestFailed(reason) => {
                let mut text = "webhook request failed: ".to_owned();
                text.append(reason.as_str());
                text
            },
            WebhookError::Refused(status) => {
                let mut text = "webhook returned HTTP ".to_owned();
                text.append(status.as_str());
                text
            },
        }
    }
}

/// Where a message is posted to, and with which authorization.
#[derive(Debug)]
pub struct WebhookRequest {
    pub address: String,
    pub authorization: Option<String>,
}

/// What the header says that bears the token, if there is a token that is not blank.
pub open spec fn bearer_text(token: Option<Seq<char>>) -> Option<Seq<char>> {
    match token {
        Some(token) => if crate::text::is_blank(token) {
            None
        } else {
            Some("Bearer "@ + crate::text::trimmed(token))
        },
        None => None,
    }
}

/// Where a message is posted to, and with which authorization, given what parsing the trimmed
/// address yields; or why it cannot be.
pub open spec fn request_check(
    config: crate::config::WebhookConfigView,
    parsed: crate::web::ParsedUrl,
) -> Result<(Seq<char>, Option<Seq<char>>), WebhookErrorView> {
    match crate::config::webhook_url_check(config.url, parsed) {
        Err(error) => Err(WebhookErrorView::Settings(error)),
        Ok(_) => match bearer_text(config.bearer_token) {
            Some(header) => if crate::web::is_header_text(header) {
                Ok((crate::text::trimmed(config.url), Some(header)))
            } else {
                Err(WebhookErrorView::InvalidToken)
            },
            None => Ok((crate::text::trimmed(config.url), None)),
        },
    }
}

/// The contents of a prepared request.
pub open spec fn request_outcome(outcome: Result<WebhookRequest, WebhookError>) -> Result<
    (Seq<char>, Option<Seq<char>>),
    WebhookErrorView,
> {
    match outcome {
        Ok(request) => Ok((request.address@, crate::text::opt_text(request.authorization))),
        Err(error) => Err(error@),
    }
}

/// Where a message is posted to, and with which authorization.
pub fn request(config: &WebhookConfig) -> (outcome: Result<WebhookRequest, WebhookError>)
    ensures
        request_outcome(outcome) == request_check(
            config@,
            crate::web::url_parsed(crate::text::trimmed(config.url@)),
        ),
{
    match validate_webhook_url(config.url.as_str()) {
        Err(error) => Err(WebhookError::Settings(error)),
        Ok(_) => request_to_valid_address(config),
    }
}

/// Where a message is posted to, and with which authorization, once the address was found valid.
pub fn request_to_valid_address(config: &WebhookConfig) -> (outcome: Result<
    WebhookRequest,
    WebhookError,
>)
    ensures
        request_outcome(outcome) == match bearer_text(crate::text::opt_text(config.bearer_token)) {
            Some(header) => if crate::web::is_header_text(header) {
                Ok((crate::text::trimmed(config.url@), Some(header)))
            } else {
                Err(WebhookErrorView::InvalidToken)
            },
            None => Ok((crate::text::trimmed(config.url@), None)),
        },
{
    let address = config.url.as_str().trim().to_owned();
    let mut authorization: Option<String> = None;
    if let Some(token) = &config.bearer_token {
        let token = token.as_str().trim();
        if !token.is_empty() {
            let mut header = "Bearer ".to_owned();
            header.append(token);
            if !header_accepts(header.as_str()) {
                return Err(WebhookError::InvalidToken);
            }
            authorization = Some(header);
        }
    }
    Ok(WebhookRequest { address, authorization })
}

/// Only an answer of success is a delivery.
pub fn require_success(status: &HttpStatus) -> (result: Result<(), WebhookError>)
    ensures
        match result {
            Ok(_) => status.success(),
            Err(error) => !status.success() && error@ == WebhookErrorView::Refused(status.text@),
        },
{
    if status.is_success() {
        Ok(())
    } else {
        Err(WebhookError::Refused(status.text.clone()))
    }
}

/// The event that is posted to try out an address.
pub open spec fn test_event_view() -> crate::json::JsonView {
    crate::json::JsonView::Object(
        seq![
            ("schema_version"@, crate::json::JsonView::Number(1)),
            ("event"@, crate::json::JsonView::Text("test"@)),
            ("source"@, crate::json::JsonView::Text("tunebeacon"@)),
        ],
    )
}

/// The event that is posted to try out an address.
pub fn test_event() -> (json: Json)
    ensures
        json@ == test_event_view(),
{
    let mut fields: Vec<(String, Json)> = Vec::new();
    push_field(&mut fields, "schema_version", Json::Number(1));
    push_field(&mut fields, "event", Json::Text("test".to_owned()));
    push_field(&mut fields, "source", Json::Text("tunebeacon".to_owned()));
    assert(crate::json::field_views(fields@) =~= test_event_view()->Object_0);
    object(fields)
}

/// What the delivery does next.
#[derive(Clone, Copy, Debug, PartialEq, Eq, Structural)]
pub enum WebhookStep {
    /// It posts the message.
    Post,
    /// It waits until the latest message changes.
    Wait,
    /// It waits so many seconds and posts the message again, unless the latest message changes
    /// before.
    PostAfter(u64),
}

/// The course of the delivery.
#[derive(Debug)]
pub struct WebhookDelivery {
    pub status: WebhookStatus,
    /// What is being delivered.
    pub message: Option<NowPlayingMessage>,
    /// How many seconds pass before the message is posted again, when it could not be delivered.
    pub backoff: u64,
}

/// The contents of a [`WebhookDelivery`].
#[verifier::ext_equal]
pub ghost struct WebhookDeliveryView {
    pub status: WebhookStatusView,
    pub message: Option<crate::domain::NowPlayingMessageView>,
    pub backoff: u64,
}

impl View for WebhookDelivery {
    type V = WebhookDeliveryView;

    open spec fn view(&self) -> WebhookDeliveryView {
        WebhookDeliveryView {
            status: self.status@,
            message: crate::domain::opt_message(self.message),
            backoff: self.backoff,
        }
    }
}

impl WebhookStatusView {
    /// Nothing is there to be delivered.
    pub open spec fn waiting() -> WebhookStatusView {
        WebhookStatusView { delivered: false, detail: "waiting for a track"@ }
    }
}

impl WebhookDeliveryView {
    /// The course before anything is to be delivered.
    pub open spec fn initial() -> WebhookDeliveryView {
        WebhookDeliveryView { status: WebhookStatusView::waiting(), message: None, backoff: 1 }
    }

    /// The latest message takes the place of the one before.
    pub open spec fn taken_up(
        self,
        latest: Option<crate::domain::NowPlayingMessageView>,
    ) -> WebhookDeliveryView {
        WebhookDeliveryView {
            status: match latest {
                Some(_) => self.status,
                None => WebhookStatusView::waiting(),
            },
            message: latest,
            backoff: 1,
        }
    }

    /// The message was posted.
    pub open spec fn posted(self, result: Result<(), WebhookErrorView>) -> WebhookDeliveryView {
        WebhookDeliveryView {
            status: match result {
                Ok(_) => WebhookStatusView { delivered: true, detail: "delivered"@ },
                Err(error) => WebhookStatusView { delivered: false, detail: error.message() },
            },
            ..self
        }
    }

    /// The pause is over.
    pub open spec fn paused(self) -> WebhookDeliveryView {
        WebhookDeliveryView { backoff: crate::delivery::backoff_after(self.backoff), ..self }
    }

    /// The course after an event.
    pub open spec fn after(self, event: DeliveryEvent) -> WebhookDeliveryView {
        match event {
            DeliveryEvent::TakenUp(latest) => self.taken_up(latest),
            DeliveryEvent::Posted(result) => self.posted(result),
            DeliveryEvent::Paused => self.paused(),
        }
    }

    /// What the delivery does after an event.
    pub open spec fn step(self, event: DeliveryEvent) -> WebhookStep {
        match event {
            DeliveryEvent::TakenUp(latest) => if latest is Some {
                WebhookStep::Post
            } else {
                WebhookStep::Wait
            },
            DeliveryEvent::Posted(result) => if result is Ok {
                WebhookStep::Wait
            } else {
                WebhookStep::PostAfter(self.backoff)
            },
            DeliveryEvent::Paused => WebhookStep::Post,
        }
    }

    /// What is posted, if there is a message.
    pub open spec fn body(self) -> Option<crate::json::JsonView> {
        match self.message {
            Some(message) => Some(crate::json::message_view(message)),
            None => None,
        }
    }
}

/// What happens to a delivery.
pub ghost enum DeliveryEvent {
    /// The latest message is taken up.
    TakenUp(Option<crate::domain::NowPlayingMessageView>),
    /// The message was posted, and that fared like this.
    Posted(Result<(), WebhookErrorView>),
    /// The pause after a failure is over.
    Paused,
}

/// How posting fared.
pub open spec fn post_outcome(result: Result<(), WebhookError>) -> Result<(), WebhookErrorView> {
    match result {
        Ok(_) => Ok(()),
        Err(error) => Err(error@),
    }
}

impl WebhookDelivery {
    /// The course before anything is to be delivered.
    pub fn new() -> (delivery: Self)
        ensures
            delivery@ == WebhookDeliveryView::initial(),
    {
        WebhookDelivery {
            status: WebhookStatus { delivered: false, detail: "waiting for a track".to_owned() },
            message: None,
            backoff: 1,
        }
    }

    /// Takes note that the settings do not allow for any delivery.
    pub fn reject(&mut self, error: &ConfigError)
        ensures
            final(self)@ == (WebhookDeliveryView {
                status: WebhookStatusView {
                    delivered: old(self)@.status.delivered,
                    detail: error@.message(),
                },
                ..old(self)@
            }),
    {
        self.status.detail = error.to_text();
    }

    /// What is posted, if there is a message.
    pub fn body(&self) -> (body: Option<Json>)
        ensures
            match body {
                Some(body) => self@.body() == Some(body@),
                None => self@.body() is None,
            },
    {
        match &self.message {
            Some(message) => Some(message_json(message)),
            None => None,
        }
    }

    /// Takes up the latest message: it is posted, and idle is waited out.
    pub fn take_up(&mut self, latest: Option<NowPlayingMessage>) -> (step: WebhookStep)
        ensures
            final(self)@ == old(self)@.taken_up(crate::domain::opt_message(latest)),
            step == old(self)@.step(DeliveryEvent::TakenUp(crate::domain::opt_message(latest))),
    {
        let found = latest.is_some();
        if !found {
            self.status =
            WebhookStatus { delivered: false, detail: "waiting for a track".to_owned() };
        }
        self.message = latest;
        self.backoff = 1;
        if found {
            WebhookStep::Post
        } else {
            WebhookStep::Wait
        }
    }

    /// Takes note of how posting fared: after a failure the message is posted again.
    pub fn note_posted(&mut self, result: &Result<(), WebhookError>) -> (step: WebhookStep)
        ensures
            final(self)@ == old(self)@.posted(post_outcome(*result)),
            step == old(self)@.step(DeliveryEvent::Posted(post_outcome(*result))),
    {
        match result {
            Ok(_) => {
                self.status = WebhookStatus { delivered: true, detail: "delivered".to_owned() };
                WebhookStep::Wait
            },
            Err(error) => {
                self.status = WebhookStatus { delivered: false, detail: error.to_text() };
                WebhookStep::PostAfter(self.backoff)
            },
        }
    }

    /// Takes note that the pause is over; the message is posted again.
    pub fn note_pause(&mut self) -> (step: WebhookStep)
        ensures
            final(self)@ == old(self)@.paused(),
            step == old(self)@.step(DeliveryEvent::Paused),
    {
        self.backoff = next_backoff(self.backoff);
        WebhookStep::Post
    }
}

/// The course after the first `count` of the events, from the beginning on.
pub open spec fn course(events: Seq<DeliveryEvent>, count: int) -> WebhookDeliveryView
    decreases count,
{
    if count <= 0 {
        WebhookDeliveryView::initial()
    } else {
        course(events, count - 1).after(events[count - 1])
    }
}

/// What the delivery does after the first `count` of the events; at first it waits.
pub open spec fn step_after(events: Seq<DeliveryEvent>, count: int) -> WebhookStep {
    if count <= 0 {
        WebhookStep::Wait
    } else {
        course(events, count - 1).step(events[count - 1])
    }
}

/// Only what the delivery does happens: it posts when it is to post, and a pause is over only when
/// there was one. The latest message may be taken up at any time.
pub open spec fn is_course(events: Seq<DeliveryEvent>) -> bool {
    forall|k: int|
        0 <= k < events.len() ==> match #[trigger] events[k] {
            DeliveryEvent::TakenUp(_) => true,
            DeliveryEvent::Posted(_) => step_after(events, k) == WebhookStep::Post,
            DeliveryEvent::Paused => step_after(events, k) is PostAfter,
        }
}

/// The message that was taken up last among the first `count` of the events.
pub open spec fn last_taken_up(events: Seq<DeliveryEvent>, count: int) -> Option<
    crate::domain::NowPlayingMessageView,
>
    decreases count,
{
    if count <= 0 {
        None
    } else {
        match events[count - 1] {
            DeliveryEvent::TakenUp(latest) => latest,
            _ => last_taken_up(events, count - 1),
        }
    }
}

/// How many pauses are over since a message was taken up last.
pub open spec fn pauses_since(events: Seq<DeliveryEvent>, count: int) -> nat
    decreases count,
{
    if count <= 0 {
        0
    } else {
        match events[count - 1] {
            DeliveryEvent::TakenUp(_) => 0,
            DeliveryEvent::Posted(_) => pauses_since(events, count - 1),
            DeliveryEvent::Paused => pauses_since(events, count - 1) + 1,
        }
    }
}

/// How the last post fared, if something was posted.
pub open spec fn last_post(events: Seq<DeliveryEvent>, count: int) -> Option<
    Result<(), WebhookErrorView>,
>
    decreases count,
{
    if count <= 0 {
        None
    } else {
        match events[count - 1] {
            DeliveryEvent::Posted(result) => Some(result),
            _ => last_post(events, count - 1),
        }
    }
}

/// Something was posted, and that was granted.
pub open spec fn was_granted(post: Option<Result<(), WebhookErrorView>>) -> bool {
    match post {
        Some(result) => result is Ok,
        None => false,
    }
}

/// What is posted with the event at this place of a course, if something is.
pub open spec fn posted_at(events: Seq<DeliveryEvent>, at: int) -> Option<crate::json::JsonView> {
    if events[at] is Posted {
        course(events, at).body()
    } else {
        None
    }
}

/// At every place of a course of events: the message is the one that was taken up last, the pause
/// follows the number of pauses since, and it is called delivered only after a post that was
/// granted.
proof fn lemma_course(events: Seq<DeliveryEvent>, count: int)
    requires
        is_course(events),
        0 <= count <= events.len(),
    ensures
        ({
            let state = course(events, count);
            &&& state.message == last_taken_up(events, count)
            &&& state.backoff == crate::delivery::backoff_of(pauses_since(events, count))
            &&& state.status.delivered ==> was_granted(last_post(events, count))
            &&& !(step_after(events, count) is Wait) ==> state.message is Some
        }),
    decreases count,
{
    if count > 0 {
        lemma_course(events, count - 1);
        assert(match events[count - 1] {
            DeliveryEvent::TakenUp(_) => true,
            DeliveryEvent::Posted(_) => step_after(events, count - 1) == WebhookStep::Post,
            DeliveryEvent::Paused => step_after(events, count - 1) is PostAfter,
        });
    }
}

/// Over every course of events, from the beginning on:
///
/// - Whatever is posted is the message that was taken up last, and something is posted with every
///   post.
/// - Nothing is posted while there is no message.
/// - The pause after a failed post is the one that follows from the number of pauses since that
///   message was taken up: a second, then two, then four and so on up to a minute.
/// - A message is called delivered only when the last post was granted.
pub proof fn law_the_newest_message_is_delivered(events: Seq<DeliveryEvent>, at: int)
    requires
        is_course(events),
        0 <= at < events.len(),
    ensures
        events[at] is Posted ==> last_taken_up(events, at) is Some && posted_at(events, at) == Some(
            crate::json::message_view(last_taken_up(events, at)->0),
        ),
        last_taken_up(events, at) is None ==> posted_at(events, at) is None,
        last_taken_up(events, at + 1) is None ==> step_after(events, at + 1) == WebhookStep::Wait,
        last_taken_up(events, at + 1) is Some && events[at] is TakenUp ==> step_after(
            events,
            at + 1,
        ) == WebhookStep::Post,
        events[at] is Posted && events[at]->Posted_0 is Err ==> step_after(events, at + 1)
            == WebhookStep::PostAfter(crate::delivery::backoff_of(pauses_since(events, at))),
        events[at] is Posted && events[at]->Posted_0 is Ok ==> step_after(events, at + 1)
            == WebhookStep::Wait && course(events, at + 1).status.delivered,
        course(events, at + 1).status.delivered ==> was_granted(last_post(events, at + 1)),
{
    lemma_course(events, at);
    lemma_course(events, at + 1);
    assert(match events[at] {
        DeliveryEvent::TakenUp(_) => true,
        DeliveryEvent::Posted(_) => step_after(events, at) == WebhookStep::Post,
        DeliveryEvent::Paused => step_after(events, at) is PostAfter,
    });
}

/// A message that cannot be delivered gives way to the newest one, which starts afresh: nothing of
/// the old one is left, neither what it says nor how long it had waited, whether the pause was
/// over or not.
pub proof fn law_newest_message_replaces_a_failed_one(
    delivery: WebhookDeliveryView,
    error: WebhookErrorView,
    message: crate::domain::NowPlayingMessageView,
)
    ensures
        ({
            let next = delivery.posted(Err(error)).taken_up(Some(message));
            &&& next.message == Some(message)
            &&& next.backoff == crate::delivery::backoff_of(0)
            &&& !next.status.delivered
            &&& delivery.posted(Err(error)).paused().taken_up(Some(message)) == next
        }),
{
}

/// The pauses between the posts of one message follow the backoff, from a second on, and posting
/// itself does not change what is delivered.
pub proof fn law_one_message_is_posted_with_growing_pauses(
    delivery: WebhookDeliveryView,
    tries: nat,
    error: WebhookErrorView,
)
    requires
        delivery.backoff == crate::delivery::backoff_of(tries),
    ensures
        delivery.posted(Err(error)).paused().backoff == crate::delivery::backoff_of(tries + 1),
        delivery.posted(Err(error)).paused().message == delivery.message,
        delivery.posted(Ok(())).message == delivery.message,
{
}

/// Nobody is told of idle: there is then nothing to post, and nothing is called delivered.
pub proof fn law_idle_posts_nothing(delivery: WebhookDeliveryView)
    ensures
        delivery.taken_up(None).message is None,
        delivery.taken_up(None).status == WebhookStatusView::waiting(),
{
}

/// A token reaches the header of a request only as the settings have it, and none does where the
/// settings have none or a blank one.
pub proof fn law_blank_tokens_are_not_sent(
    config: crate::config::WebhookConfigView,
    parsed: crate::web::ParsedUrl,
)
    requires
        config.bearer_token is None || crate::text::is_blank(config.bearer_token->0),
    ensures
        request_check(config, parsed) is Ok ==> match request_check(config, parsed) {
            Ok(request) => request.1 is None,
            Err(_) => true,
        },
        request_check(config, parsed) is Ok <==> crate::config::webhook_url_check(
            config.url,
            parsed,
        ) is Ok,
{
}

/// A message is posted to the address in the settings, without the white space around it, where
/// that is an address over HTTP; and it bears the token in the settings, without the white space
/// around it, exactly where there is one that is not blank. A token that is unfit for a header
/// stops the request.
pub proof fn law_requests_follow_the_settings(
    config: crate::config::WebhookConfigView,
    parsed: crate::web::ParsedUrl,
)
    ensures
        ({
            let token = config.bearer_token is Some && crate::config::is_filled_in(
                config.bearer_token->0,
            );
            let header = "Bearer "@ + crate::text::trimmed(config.bearer_token->0);
            let reachable = crate::config::is_filled_in(config.url) && parsed is Ok && (
            parsed->Ok_0.0 == "http"@ || parsed->Ok_0.0 == "https"@);
            match request_check(config, parsed) {
                Ok(request) => {
                    &&& reachable
                    &&& request.0 == crate::text::trimmed(config.url)
                    &&& token ==> request.1 == Some(header)
                    &&& !token ==> request.1 is None
                },
                Err(error) => {
                    &&& !reachable || token
                    &&& error == WebhookErrorView::InvalidToken ==> reachable && token && exists|
                        i: int,
                    |
                        0 <= i < header.len() && #[trigger] header[i] != '\t' && ((header[i] as u32)
                            < 32 || header[i] as u32 == 127)
                    &&& error is Settings ==> !reachable
                },
            }
        }),
{
    crate::text::law_blank_means_white_space(config.url);
    if config.bearer_token is Some {
        crate::text::law_blank_means_white_space(config.bearer_token->0);
        let header = "Bearer "@ + crate::text::trimmed(config.bearer_token->0);
        if !crate::web::is_header_text(header) {
            let i = choose|i: int|
                0 <= i < header.len() && !crate::web::is_header_char(#[trigger] header[i]);
            assert(header[i] != '\t');
        }
    }
}

/// The event for trying out an address, read by name, says that it is one and where it comes from.
pub proof fn law_test_event_reads_back()
    ensures
        crate::json::reads(
            test_event_view(),
            "schema_version"@,
            Some(crate::json::JsonView::Number(1)),
        ),
        crate::json::reads(
            test_event_view(),
            "event"@,
            Some(crate::json::JsonView::Text("test"@)),
        ),
        crate::json::reads(
            test_event_view(),
            "source"@,
            Some(crate::json::JsonView::Text("tunebeacon"@)),
        ),
{
    reveal_strlit("schema_version");
    reveal_strlit("event");
    reveal_strlit("source");
    assert("schema_version"@.len() == 14 && "event"@.len() == 5 && "source"@.len() == 6);
    let fields = test_event_view()->Object_0;
    assert(fields.len() == 3);
    assert(fields[0] == ("schema_version"@, crate::json::JsonView::Number(1)));
    assert(fields[1] == ("event"@, crate::json::JsonView::Text("test"@)));
    assert(fields[2] == ("source"@, crate::json::JsonView::Text("tunebeacon"@)));
}

/// What is said of a delivery is what happened last: that it was delivered, or why not.
pub proof fn law_deliveries_say_how_they_stand(
    delivery: WebhookDeliveryView,
    latest: Option<crate::domain::NowPlayingMessageView>,
    error: WebhookErrorView,
)
    ensures
        delivery.posted(Ok(())).status.detail == "delivered"@,
        delivery.posted(Ok(())).status.delivered,
        delivery.posted(Err(error)).status.detail == error.message(),
        !delivery.posted(Err(error)).status.delivered,
        delivery.posted(Err(error)).backoff == delivery.backoff,
        latest is Some ==> delivery.taken_up(latest).status == delivery.status,
        delivery.taken_up(latest).message == latest,
{
}

/// Views show every field as it is, and outcomes are shown as they are.
pub proof fn law_views_show_every_field(
    delivery: WebhookDelivery,
    request: WebhookRequest,
    error: WebhookError,
)
    ensures
        delivery@.status.delivered == delivery.status.delivered,
        delivery@.status.detail == delivery.status.detail@,
        delivery.message is Some ==> delivery@.message == Some(delivery.message->0@),
        delivery.message is None ==> delivery@.message is None,
        delivery@.backoff == delivery.backoff,
        request_outcome(Ok(request)) is Ok,
        match request_outcome(Ok(request)) {
            Ok(shown) => shown.0 == request.address@ && crate::domain::shows(
                shown.1,
                request.authorization,
            ),
            Err(_) => false,
        },
        request_outcome(Err(error)) == Err::<(Seq<char>, Option<Seq<char>>), WebhookErrorView>(
            error@,
        ),
        post_outcome(Ok(())) is Ok,
        post_outcome(Err(error)) == Err::<(), WebhookErrorView>(error@),
{
}

/// What is posted is the message, and nothing where there is none.
pub proof fn law_the_message_is_what_is_posted(delivery: WebhookDeliveryView)
    ensures
        delivery.message is Some ==> delivery.body() == Some(
            crate::json::message_view(delivery.message->0),
        ),
        delivery.message is None ==> delivery.body() is None,
{
}

/// Each error has its words.
pub proof fn law_errors_have_their_words(text: Seq<char>, error: crate::config::ConfigErrorView)
    ensures
        WebhookErrorView::Settings(error).message() == error.message(),
        WebhookErrorView::InvalidToken.message()
            == "webhook bearer token contains invalid characters: failed to parse header value"@,
        WebhookErrorView::RequestFailed(text).message() == "webhook request failed: "@ + text,
        WebhookErrorView::Refused(text).message() == "webhook returned HTTP "@ + text,
{
}

} // verus!
