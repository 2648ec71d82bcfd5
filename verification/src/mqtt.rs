//! When a message goes to the MQTT broker, and how.

use vstd::prelude::*;

use crate::config::{host_name, MqttConfig};
use crate::delivery::next_backoff;
use crate::domain::{NowPlayingMessage, Timestamp};
use crate::json::{message_json, Json};
use crate::text::to_decimal;

verus! {

/// How the connection stands, and what happened last.
#[derive(Debug)]
pub struct MqttStatus {
    pub connected: bool,
    pub detail: String,
}

/// The contents of an [`MqttStatus`].
#[verifier::ext_equal]
pub ghost struct MqttStatusView {
    pub connected: bool,
    pub detail: Seq<char>,
}

impl View for MqttStatus {
    type V = MqttStatusView;

    open spec fn view(&self) -> MqttStatusView {
        MqttStatusView { connected: self.connected, detail: self.detail@ }
    }
}

impl Clone for MqttStatus {
    fn clone(&self) -> (copy: Self)
        ensures
            copy@ == self@,
    {
        MqttStatus { connected: self.connected, detail: self.detail.clone() }
    }
}

impl Default for MqttStatus {
    fn default() -> (status: Self)
        ensures
            status.connected == false,
            status.detail@ == Seq::<char>::empty(),
    {
        MqttStatus { connected: false, detail: String::new() }
    }
}

/// The course of the connection to a broker.
#[derive(Debug)]
pub struct MqttSession {
    pub status: MqttStatus,
    /// How many seconds pass before the next connection, when this one fails.
    pub backoff: u64,
    /// When the message was observed that was sent last over this connection.
    pub last_sent: Option<Timestamp>,
}

/// The contents of an [`MqttSession`].
#[verifier::ext_equal]
pub ghost struct MqttSessionView {
    pub status: MqttStatusView,
    pub backoff: u64,
    pub last_sent: Option<Timestamp>,
}

impl View for MqttSession {
    type V = MqttSessionView;

    open spec fn view(&self) -> MqttSessionView {
        MqttSessionView {
            status: self.status@,
            backoff: self.backoff,
            last_sent: self.last_sent,
        }
    }
}

/// When the latest message was observed, if there is one.
pub open spec fn observed(latest: Option<crate::domain::NowPlayingMessageView>) -> Option<Timestamp> {
    match latest {
        Some(message) => Some(message.observed_at),
        None => None,
    }
}

/// The contents of an optional message that is looked at.
pub open spec fn latest_view(latest: Option<&NowPlayingMessage>) -> Option<
    crate::domain::NowPlayingMessageView,
> {
    match latest {
        Some(message) => Some(message@),
        None => None,
    }
}

impl MqttSessionView {
    /// The course before the first connection.
    pub open spec fn initial() -> MqttSessionView {
        MqttSessionView {
            status: MqttStatusView { connected: false, detail: "connecting"@ },
            backoff: 1,
            last_sent: None,
        }
    }

    /// The broker accepted the connection: a message that is live is sent, whatever was sent
    /// before.
    pub open spec fn acknowledged(
        self,
        latest: Option<crate::domain::NowPlayingMessageView>,
    ) -> MqttSessionView {
        MqttSessionView {
            status: MqttStatusView { connected: true, detail: "connected"@ },
            last_sent: match latest {
                Some(message) => Some(message.observed_at),
                None => self.last_sent,
            },
            ..self
        }
    }

    /// A changed message is sent: there is one, the connection stands, and it is not the one that
    /// was sent last.
    pub open spec fn sends(self, latest: Option<crate::domain::NowPlayingMessageView>) -> bool {
        self.status.connected && latest is Some && self.last_sent != observed(latest)
    }

    /// The latest message changed.
    pub open spec fn changed(
        self,
        latest: Option<crate::domain::NowPlayingMessageView>,
    ) -> MqttSessionView {
        if self.status.connected {
            MqttSessionView { last_sent: observed(latest), ..self }
        } else {
            self
        }
    }

    /// How many seconds pass after a failure: the count begins anew once a connection stood.
    pub open spec fn pause(self) -> u64 {
        if self.status.connected {
            1
        } else {
            self.backoff
        }
    }

    /// The connection failed.
    pub open spec fn failed(self, reason: Seq<char>) -> MqttSessionView {
        MqttSessionView {
            status: MqttStatusView { connected: false, detail: reason },
            backoff: crate::delivery::backoff_after(self.pause()),
            last_sent: None,
        }
    }
}

impl MqttSession {
    /// The course before the first connection.
    pub fn new() -> (session: Self)
        ensures
            session@ == MqttSessionView::initial(),
    {
        MqttSession {
            status: MqttStatus { connected: false, detail: "connecting".to_owned() },
            backoff: 1,
            last_sent: None,
        }
    }

    /// Takes note that the broker accepted the connection, and says whether the latest message is
    /// sent.
    pub fn acknowledge(&mut self, latest: Option<&NowPlayingMessage>) -> (send: bool)
        ensures
            send == latest is Some,
            final(self)@ == old(self)@.acknowledged(latest_view(latest)),
    {
        self.status = MqttStatus { connected: true, detail: "connected".to_owned() };
        match latest {
            Some(message) => {
                self.last_sent = Some(message.observed_at);
                true
            },
            None => false,
        }
    }

    /// Takes note that the latest message changed, and says whether it is sent.
    pub fn change(&mut self, latest: Option<&NowPlayingMessage>) -> (send: bool)
        ensures
            send == old(self)@.sends(latest_view(latest)),
            final(self)@ == old(self)@.changed(latest_view(latest)),
    {
        if !self.status.connected {
            return false;
        }
        match latest {
            Some(message) => {
                let known = match self.last_sent {
                    Some(moment) => moment == message.observed_at,
                    None => false,
                };
                self.last_sent = Some(message.observed_at);
                !known
            },
            None => {
                self.last_sent = None;
                false
            },
        }
    }

    /// Takes note that the connection failed, and says after how many seconds the next one is
    /// tried.
    pub fn fail(&mut self, reason: String) -> (pause: u64)
        ensures
            pause == old(self)@.pause(),
            final(self)@ == old(self)@.failed(reason@),
    {
        let pause: u64 = if self.status.connected {
            1
        } else {
            self.backoff
        };
        self.backoff = next_backoff(pause);
        self.status = MqttStatus { connected: false, detail: reason };
        self.last_sent = None;
        pause
    }
}

/// Idle is silent: without a message nothing is sent, whatever state the connection is in.
pub proof fn law_idle_sends_nothing(session: MqttSessionView)
    ensures
        !session.sends(None),
{
}

/// One message is sent once over a connection: once it is sent, it is not sent again until
/// another one came or the player was idle.
pub proof fn law_message_is_sent_once(
    session: MqttSessionView,
    message: crate::domain::NowPlayingMessageView,
)
    ensures
        !session.changed(Some(message)).sends(Some(message)),
        !session.acknowledged(Some(message)).sends(Some(message)),
{
}

/// A live message reaches a broker that was away: nothing is sent while the connection is down,
/// and the next connection sends the message.
pub proof fn law_reconnection_sends_the_live_message(
    session: MqttSessionView,
    reason: Seq<char>,
    message: crate::domain::NowPlayingMessageView,
)
    ensures
        !session.failed(reason).sends(Some(message)),
        session.failed(reason).changed(Some(message)) == session.failed(reason),
        session.failed(reason).acknowledged(Some(message)).last_sent == Some(message.observed_at),
        session.failed(reason).acknowledged(Some(message)).status.connected,
{
}

/// The pauses between connections that never stood grow from a second to a minute, and the first
/// pause after one that stood is a second again.
pub proof fn law_pauses_begin_anew(session: MqttSessionView, tries: nat, reason: Seq<char>)
    requires
        session.backoff == crate::delivery::backoff_of(tries),
    ensures
        !session.status.connected ==> session.pause() == crate::delivery::backoff_of(tries)
            && session.failed(reason).backoff == crate::delivery::backoff_of(tries + 1),
        session.status.connected ==> session.pause() == crate::delivery::backoff_of(0)
            && session.failed(reason).backoff == crate::delivery::backoff_of(1),
        MqttSessionView::initial().backoff == crate::delivery::backoff_of(0),
{
    reveal_with_fuel(crate::delivery::backoff_of, 2);
}

/// How surely a message is delivered.
#[derive(Clone, Copy, Debug, PartialEq, Eq, Structural)]
pub enum Service {
    AtMostOnce,
    AtLeastOnce,
    ExactlyOnce,
}

/// The service that a number stands for.
pub open spec fn service_for(qos: u8) -> Option<Service> {
    if qos == 0 {
        Some(Service::AtMostOnce)
    } else if qos == 1 {
        Some(Service::AtLeastOnce)
    } else if qos == 2 {
        Some(Service::ExactlyOnce)
    } else {
        None
    }
}

/// The service that a number stands for; a number that stands for none is no quality of service.
pub fn quality_of_service(qos: u8) -> (service: Result<Service, String>)
    ensures
        match service {
            Ok(service) => service_for(qos) == Some(service),
            Err(reason) => service_for(qos) is None && reason@ == "invalid MQTT QoS"@,
        },
{
    match qos {
        0 => Ok(Service::AtMostOnce),
        1 => Ok(Service::AtLeastOnce),
        2 => Ok(Service::ExactlyOnce),
        _ => Err("invalid MQTT QoS".to_owned()),
    }
}

/// What is published: where, how surely, whether the broker keeps it, and what.
#[derive(Debug)]
pub struct Publication {
    pub topic: String,
    pub service: Service,
    pub retain: bool,
    pub payload: Json,
}

/// The contents of a [`Publication`].
#[verifier::ext_equal]
pub ghost struct PublicationView {
    pub topic: Seq<char>,
    pub service: Service,
    pub retain: bool,
    pub payload: crate::json::JsonView,
}

impl View for Publication {
    type V = PublicationView;

    open spec fn view(&self) -> PublicationView {
        PublicationView {
            topic: self.topic@,
            service: self.service,
            retain: self.retain,
            payload: self.payload@,
        }
    }
}

/// How a message is published with these settings; not at all where they name no quality of
/// service that there is.
pub open spec fn publication_of(
    config: crate::config::MqttConfigView,
    message: crate::domain::NowPlayingMessageView,
) -> Option<PublicationView> {
    match service_for(config.qos) {
        Some(service) => Some(
            PublicationView {
                topic: config.topic,
                service,
                retain: config.retain,
                payload: crate::json::message_view(message),
            },
        ),
        None => None,
    }
}

/// How a message is published with these settings.
pub fn publication(config: &MqttConfig, message: &NowPlayingMessage) -> (publication: Result<
    Publication,
    String,
>)
    ensures
        match publication {
            Ok(publication) => publication_of(config@, message@) == Some(publication@),
            Err(reason) => service_for(config.qos) is None && reason@ == "invalid MQTT QoS"@,
        },
{
    match quality_of_service(config.qos) {
        Ok(service) => Ok(
            Publication {
                topic: config.topic.clone(),
                service,
                retain: config.retain,
                payload: message_json(message),
            },
        ),
        Err(reason) => Err(reason),
    }
}

/// What happens to the connection.
#[derive(Debug)]
pub enum MqttEvent {
    /// The broker accepted the connection.
    Accepted,
    /// The latest message changed.
    Changed,
    /// Nobody will change the latest message any more.
    Closed,
    /// The connection failed; the reason.
    Failed(String),
}

/// What is done then.
#[derive(Clone, Copy, Debug, PartialEq, Eq, Structural)]
pub enum MqttStep {
    /// The connection is listened to.
    Listen,
    /// The latest message is sent.
    Send,
    /// After so many seconds another connection is made.
    Reconnect(u64),
    /// All is over.
    End,
}

/// Something that happened, with the message that was the latest then.
pub ghost enum SessionEvent {
    Accepted(Option<crate::domain::NowPlayingMessageView>),
    Changed(Option<crate::domain::NowPlayingMessageView>),
    Closed,
    Failed(Seq<char>),
}

/// An event with the message that is the latest.
pub open spec fn happened(
    event: MqttEvent,
    latest: Option<crate::domain::NowPlayingMessageView>,
) -> SessionEvent {
    match event {
        MqttEvent::Accepted => SessionEvent::Accepted(latest),
        MqttEvent::Changed => SessionEvent::Changed(latest),
        MqttEvent::Closed => SessionEvent::Closed,
        MqttEvent::Failed(reason) => SessionEvent::Failed(reason@),
    }
}

impl MqttSessionView {
    /// The course after an event.
    pub open spec fn after(self, event: SessionEvent) -> MqttSessionView {
        match event {
            SessionEvent::Accepted(latest) => self.acknowledged(latest),
            SessionEvent::Changed(latest) => self.changed(latest),
            SessionEvent::Closed => self,
            SessionEvent::Failed(reason) => self.failed(reason),
        }
    }

    /// The message that is sent on an event, if one is.
    pub open spec fn sent(self, event: SessionEvent) -> Option<
        crate::domain::NowPlayingMessageView,
    > {
        match event {
            SessionEvent::Accepted(latest) => latest,
            SessionEvent::Changed(latest) => if self.sends(latest) {
                latest
            } else {
                None
            },
            _ => None,
        }
    }

    /// What is done on an event.
    pub open spec fn step(self, event: SessionEvent) -> MqttStep {
        match event {
            SessionEvent::Closed => MqttStep::End,
            SessionEvent::Failed(_) => MqttStep::Reconnect(self.pause()),
            _ => if self.sent(event) is Some {
                MqttStep::Send
            } else {
                MqttStep::Listen
            },
        }
    }
}

impl MqttSession {
    /// Takes note of an event, with the message that is the latest, and says what is done.
    pub fn handle(&mut self, event: MqttEvent, latest: Option<&NowPlayingMessage>) -> (step:
        MqttStep)
        ensures
            step == old(self)@.step(happened(event, latest_view(latest))),
            final(self)@ == old(self)@.after(happened(event, latest_view(latest))),
    {
        match event {
            MqttEvent::Accepted => if self.acknowledge(latest) {
                MqttStep::Send
            } else {
                MqttStep::Listen
            },
            MqttEvent::Changed => if self.change(latest) {
                MqttStep::Send
            } else {
                MqttStep::Listen
            },
            MqttEvent::Closed => MqttStep::End,
            MqttEvent::Failed(reason) => MqttStep::Reconnect(self.fail(reason)),
        }
    }
}

/// The course after the first `count` of the events.
pub open spec fn course(session: MqttSessionView, events: Seq<SessionEvent>, count: int) -> MqttSessionView
    decreases count,
{
    if count <= 0 {
        session
    } else {
        course(session, events, count - 1).after(events[count - 1])
    }
}

/// The message that is sent on the event at this place of a course, if one is.
pub open spec fn sent_at(
    session: MqttSessionView,
    events: Seq<SessionEvent>,
    at: int,
) -> Option<crate::domain::NowPlayingMessageView> {
    course(session, events, at).sent(events[at])
}

/// The message that is the latest at this place of a course, as far as the event tells.
pub open spec fn latest_at(event: SessionEvent) -> Option<crate::domain::NowPlayingMessageView> {
    match event {
        SessionEvent::Accepted(latest) => latest,
        SessionEvent::Changed(latest) => latest,
        _ => None,
    }
}

/// The player is idle, or the broker accepted another connection.
pub open spec fn breaks_off(event: SessionEvent) -> bool {
    event is Accepted || event == SessionEvent::Changed(None)
}

/// Between a message that was sent and the next one, without idle and without another connection,
/// the message is remembered, or the connection is down.
proof fn lemma_sent_message_is_remembered(
    session: MqttSessionView,
    events: Seq<SessionEvent>,
    first: int,
    at: int,
)
    requires
        0 <= first < at <= events.len(),
        sent_at(session, events, first) is Some,
        forall|k: int| first < k < at ==> #[trigger] sent_at(session, events, k) is None,
        forall|k: int| first < k < at ==> !breaks_off(#[trigger] events[k]),
    ensures
        ({
            let state = course(session, events, at);
            !state.status.connected || state.last_sent == observed(
                sent_at(session, events, first),
            )
        }),
    decreases at,
{
    if at > first + 1 {
        lemma_sent_message_is_remembered(session, events, first, at - 1);
        assert(sent_at(session, events, at - 1) is None);
        assert(!breaks_off(events[at - 1]));
    }
}

/// What is published on the event at this place of a course, if something is.
pub open spec fn published_at(
    config: crate::config::MqttConfigView,
    session: MqttSessionView,
    events: Seq<SessionEvent>,
    at: int,
) -> Option<PublicationView> {
    match sent_at(session, events, at) {
        Some(message) => publication_of(config, message),
        None => None,
    }
}

/// At every place of a course of events: while there is no message nothing is published; what is
/// published is the message that is the latest then, as JSON, on the topic, with the quality of
/// service and with the retain flag of the settings; and all is over only once nobody will change
/// the latest message any more.
pub proof fn law_the_latest_message_is_published(
    config: crate::config::MqttConfigView,
    session: MqttSessionView,
    events: Seq<SessionEvent>,
    at: int,
)
    requires
        0 <= at < events.len(),
        config.qos <= 2,
    ensures
        latest_at(events[at]) is None ==> published_at(config, session, events, at) is None,
        match published_at(config, session, events, at) {
            Some(publication) => {
                &&& latest_at(events[at]) is Some
                &&& publication.topic == config.topic
                &&& Some(publication.service) == service_for(config.qos)
                &&& publication.retain == config.retain
                &&& publication.payload == crate::json::message_view(latest_at(events[at])->0)
            },
            None => true,
        },
        course(session, events, at).step(events[at]) == MqttStep::Send <==> published_at(
            config,
            session,
            events,
            at,
        ) is Some,
        course(session, events, at).step(events[at]) == MqttStep::End <==> events[at] is Closed,
{
}

/// Over a whole course of events, from whatever state on, no observation is sent twice in a row:
/// a message is not sent right after one that was observed at the same moment, unless in between
/// the player was idle or the broker accepted a connection.
pub proof fn law_no_observation_is_sent_twice(
    session: MqttSessionView,
    events: Seq<SessionEvent>,
    first: int,
    second: int,
)
    requires
        0 <= first < second < events.len(),
        sent_at(session, events, first) is Some,
        sent_at(session, events, second) is Some,
        forall|k: int| first < k < second ==> #[trigger] sent_at(session, events, k) is None,
        observed(sent_at(session, events, first)) == observed(sent_at(session, events, second)),
    ensures
        exists|k: int| first < k <= second && breaks_off(#[trigger] events[k]),
{
    if !(exists|k: int| first < k <= second && breaks_off(#[trigger] events[k])) {
        assert forall|k: int| first < k < second implies !breaks_off(#[trigger] events[k]) by {}
        lemma_sent_message_is_remembered(session, events, first, second);
        assert(!breaks_off(events[second]));
    }
}

/// The user and the password that the broker is shown: nothing without a user.
pub open spec fn credentials_in(config: crate::config::MqttConfigView) -> Option<
    (Seq<char>, Seq<char>),
> {
    match config.username {
        Some(username) => if username.len() > 0 {
            Some((username, crate::text::or_empty(config.password)))
        } else {
            None
        },
        None => None,
    }
}

/// The user and the password that the broker is shown.
pub fn credentials(config: &MqttConfig) -> (shown: Option<(String, String)>)
    ensures
        match shown {
            Some(shown) => credentials_in(config@) == Some((shown.0@, shown.1@)),
            None => credentials_in(config@) is None,
        },
{
    match &config.username {
        Some(username) => if username.as_str().is_empty() {
            None
        } else {
            Some((username.clone(), crate::text::text_or_empty(&config.password)))
        },
        None => None,
    }
}

/// The name by which the broker knows this process.
pub open spec fn client_name(host: Option<Seq<char>>, process_id: u32) -> Seq<char> {
    let host = match host {
        Some(host) => host,
        None => "linux"@,
    };
    "tunebeacon-"@ + host + "-"@ + crate::text::decimal(process_id as nat)
}

/// The name by which the broker knows a process on a machine.
pub fn client_id_on(host: &Option<String>, process_id: u32) -> (id: String)
    ensures
        id@ == client_name(crate::text::opt_text(*host), process_id),
{
    let mut id = "tunebeacon-".to_owned();
    match host {
        Some(host) => id.append(host.as_str()),
        None => id.append("linux"),
    }
    id.append("-");
    id.append(to_decimal(process_id as u64).as_str());
    id
}

/// The name by which the broker knows a process on this machine.
pub fn client_id(process_id: u32) -> (id: String)
    ensures
        exists|host: Option<Seq<char>>| id@ == #[trigger] client_name(host, process_id),
{
    let host = host_name();
    let id = client_id_on(&host, process_id);
    assert(id@ == client_name(crate::text::opt_text(host), process_id));
    id
}

/// The name by which the broker knows a process that tries out a connection.
pub fn test_client_id(process_id: u32) -> (id: String)
    ensures
        id@ == "tunebeacon-test-"@ + crate::text::decimal(process_id as nat),
{
    let mut id = "tunebeacon-test-".to_owned();
    id.append(to_decimal(process_id as u64).as_str());
    id
}

/// The broker is shown a user only where one is named, with the password that there is, or an empty
/// one.
pub proof fn law_users_are_shown_with_their_password(config: crate::config::MqttConfigView)
    ensures
        credentials_in(config) is Some <==> config.username is Some && config.username->0.len() > 0,
        match credentials_in(config) {
            Some(shown) => shown.0 == config.username->0 && (config.password is Some ==> shown.1
                == config.password->0) && (config.password is None ==> shown.1.len() == 0),
            None => true,
        },
{
}

/// Zero, one and two stand for the three qualities of service, each for its own, and no other
/// number for any.
pub proof fn law_three_numbers_are_services(qos: u8)
    ensures
        service_for(qos) == Some(Service::AtMostOnce) <==> qos == 0,
        service_for(qos) == Some(Service::AtLeastOnce) <==> qos == 1,
        service_for(qos) == Some(Service::ExactlyOnce) <==> qos == 2,
        service_for(qos) is None <==> qos > 2,
{
}

/// Every process of a machine has a name of its own, which tells the machine and the process.
pub proof fn law_clients_are_named_by_machine_and_process(host: Seq<char>, process_id: u32)
    ensures
        client_name(Some(host), process_id) == "tunebeacon-"@ + host + "-"@ + crate::text::decimal(
            process_id as nat,
        ),
        client_name(None, process_id) == client_name(Some("linux"@), process_id),
{
}

/// Once a connection stands it is said to stand, and once it failed it is said why; while it is
/// down nothing is sent, and a change with a message that was not sent last is.
pub proof fn law_connections_say_how_they_stand(
    session: MqttSessionView,
    latest: Option<crate::domain::NowPlayingMessageView>,
    reason: Seq<char>,
)
    ensures
        session.acknowledged(latest).status.connected,
        session.acknowledged(latest).status.detail == "connected"@,
        session.acknowledged(latest).backoff == session.backoff,
        !session.failed(reason).status.connected,
        session.failed(reason).status.detail == reason,
        session.failed(reason).last_sent is None,
        session.changed(latest).status == session.status,
        session.changed(latest).backoff == session.backoff,
        session.sends(latest) <==> session.status.connected && latest is Some && (session.last_sent
            is None || session.last_sent->0 != latest->0.observed_at),
        session.sends(latest) ==> session.changed(latest).last_sent == Some(
            latest->0.observed_at,
        ),
        session.status.connected && latest is None ==> session.changed(latest).last_sent is None,
        !session.status.connected ==> session.changed(latest) == session,
        session.step(SessionEvent::Failed(reason)) == MqttStep::Reconnect(
            if session.status.connected {
                1
            } else {
                session.backoff
            },
        ),
{
}

/// Events are taken for what they are, with the message that is the latest; views show every field
/// as it is.
pub proof fn law_events_are_what_they_are(
    latest: Option<crate::domain::NowPlayingMessageView>,
    reason: String,
    session: MqttSession,
    publication: Publication,
    message: NowPlayingMessage,
)
    ensures
        happened(MqttEvent::Accepted, latest) == SessionEvent::Accepted(latest),
        happened(MqttEvent::Changed, latest) == SessionEvent::Changed(latest),
        happened(MqttEvent::Closed, latest) is Closed,
        happened(MqttEvent::Failed(reason), latest) == SessionEvent::Failed(reason@),
        latest_view(Some(&message)) == Some(message@),
        latest_view(None) is None,
        session@.status.connected == session.status.connected,
        session@.status.detail == session.status.detail@,
        session@.backoff == session.backoff && session@.last_sent == session.last_sent,
        publication@.topic == publication.topic@ && publication@.service == publication.service
            && publication@.retain == publication.retain && publication@.payload
            == publication.payload@,
        !MqttSessionView::initial().status.connected && MqttSessionView::initial().last_sent is None
            && MqttSessionView::initial().backoff == 1
            && MqttSessionView::initial().status.detail == "connecting"@,
{
}

} // verus!
