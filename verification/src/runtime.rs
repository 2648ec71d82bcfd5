//! What follows from what the players do: who is heard, what is looked up, and what is told to
//! whom.

use vstd::prelude::*;

use crate::config::{Config, LastFmConfig, ListenBrainzConfig, MqttConfig, WebhookConfig};
use crate::domain::{NowPlayingMessage, Player, TrackIdentity, Verification, VerificationStatus};
use crate::lastfm::LastFmStatus;
use crate::listenbrainz::ListenBrainzStatus;
use crate::mqtt::MqttStatus;
use crate::playback::{PlaybackTracker, ScrobbleAction};
use crate::selection::{select_player, PublicationGate};
use crate::webhook::WebhookStatus;

verus! {

/// What is shown of a running program.
#[derive(Debug)]
pub struct RuntimeState {
    pub players: Vec<Player>,
    pub selected: Option<Player>,
    pub verification: Option<Verification>,
    pub mqtt: MqttStatus,
    pub webhook: WebhookStatus,
    pub lastfm: LastFmStatus,
    pub listenbrainz: ListenBrainzStatus,
    pub error: Option<String>,
}

/// The contents of a [`RuntimeState`].
#[verifier::ext_equal]
pub ghost struct RuntimeStateView {
    pub players: Seq<crate::domain::PlayerView>,
    pub selected: Option<crate::domain::PlayerView>,
    pub verification: Option<crate::domain::VerificationView>,
    pub mqtt: crate::mqtt::MqttStatusView,
    pub webhook: crate::webhook::WebhookStatusView,
    pub lastfm: crate::delivery::AccountView,
    pub listenbrainz: crate::delivery::AccountView,
    pub error: Option<Seq<char>>,
}

impl View for RuntimeState {
    type V = RuntimeStateView;

    open spec fn view(&self) -> RuntimeStateView {
        RuntimeStateView {
            players: crate::domain::player_views(self.players@),
            selected: crate::domain::opt_player(self.selected),
            verification: crate::domain::opt_verification(self.verification),
            mqtt: self.mqtt@,
            webhook: self.webhook@,
            lastfm: self.lastfm@,
            listenbrainz: self.listenbrainz@,
            error: crate::text::opt_text(self.error),
        }
    }
}

/// A copy of several players.
pub fn clone_players(players: &Vec<Player>) -> (copy: Vec<Player>)
    ensures
        crate::domain::player_views(copy@) == crate::domain::player_views(players@),
{
    let mut copy: Vec<Player> = Vec::new();
    for i in 0..players.len()
        invariant
            copy@.len() == i,
            forall|j: int| 0 <= j < i ==> (#[trigger] copy@[j])@ == players@[j]@,
    {
        copy.push(players[i].clone());
    }
    assert(crate::domain::player_views(copy@) =~= crate::domain::player_views(players@));
    copy
}

/// A copy of a player, if there is one.
fn clone_player(player: &Option<Player>) -> (copy: Option<Player>)
    ensures
        crate::domain::opt_player(copy) == crate::domain::opt_player(*player),
{
    match player {
        Some(player) => Some(player.clone()),
        None => None,
    }
}

/// A copy of a verification, if there is one.
fn clone_verification(verification: &Option<Verification>) -> (copy: Option<Verification>)
    ensures
        crate::domain::opt_verification(copy) == crate::domain::opt_verification(*verification),
{
    match verification {
        Some(verification) => Some(verification.clone()),
        None => None,
    }
}

impl Clone for RuntimeState {
    fn clone(&self) -> (copy: Self)
        ensures
            copy@ == self@,
    {
        RuntimeState {
            players: clone_players(&self.players),
            selected: clone_player(&self.selected),
            verification: clone_verification(&self.verification),
            mqtt: self.mqtt.clone(),
            webhook: self.webhook.clone(),
            lastfm: self.lastfm.clone(),
            listenbrainz: self.listenbrainz.clone(),
            error: self.error.clone(),
        }
    }
}

/// What is said of an output that is off.
pub open spec fn mqtt_off() -> crate::mqtt::MqttStatusView {
    crate::mqtt::MqttStatusView { connected: false, detail: Seq::empty() }
}

/// What is said of an output that is off.
pub open spec fn webhook_off() -> crate::webhook::WebhookStatusView {
    crate::webhook::WebhookStatusView { delivered: false, detail: Seq::empty() }
}

/// What is said of an account that is off.
pub open spec fn account_off() -> crate::delivery::AccountView {
    crate::delivery::AccountView { authenticated: false, detail: Seq::empty() }
}

impl RuntimeStateView {
    /// Before anything is known.
    pub open spec fn initial() -> RuntimeStateView {
        RuntimeStateView {
            players: Seq::empty(),
            selected: None,
            verification: None,
            mqtt: mqtt_off(),
            webhook: webhook_off(),
            lastfm: account_off(),
            listenbrainz: account_off(),
            error: None,
        }
    }
}

impl Default for RuntimeState {
    fn default() -> (state: Self)
        ensures
            state@ == RuntimeStateView::initial(),
    {
        let state = RuntimeState {
            players: Vec::new(),
            selected: None,
            verification: None,
            mqtt: MqttStatus::default(),
            webhook: WebhookStatus::default(),
            lastfm: LastFmStatus::default(),
            listenbrainz: ListenBrainzStatus::default(),
            error: None,
        };
        assert(state@ =~= RuntimeStateView::initial());
        state
    }
}

/// Which outputs there are, as they were last set up, and what they were last given. An output is
/// there when it is switched on.
#[derive(Debug)]
pub struct Outputs {
    pub mqtt_config: MqttConfig,
    pub mqtt_gate: PublicationGate,
    pub webhook_config: WebhookConfig,
    pub webhook_gate: PublicationGate,
    pub lastfm_config: LastFmConfig,
    pub listenbrainz_config: ListenBrainzConfig,
}

/// The contents of [`Outputs`].
#[verifier::ext_equal]
pub ghost struct OutputsView {
    pub mqtt_config: crate::config::MqttConfigView,
    pub mqtt_gate: Option<(Seq<char>, crate::domain::TrackIdentityView)>,
    pub webhook_config: crate::config::WebhookConfigView,
    pub webhook_gate: Option<(Seq<char>, crate::domain::TrackIdentityView)>,
    pub lastfm_config: crate::config::LastFmConfigView,
    pub listenbrainz_config: crate::config::ListenBrainzConfigView,
}

impl View for Outputs {
    type V = OutputsView;

    open spec fn view(&self) -> OutputsView {
        OutputsView {
            mqtt_config: self.mqtt_config@,
            mqtt_gate: self.mqtt_gate@,
            webhook_config: self.webhook_config@,
            webhook_gate: self.webhook_gate@,
            lastfm_config: self.lastfm_config@,
            listenbrainz_config: self.listenbrainz_config@,
        }
    }
}

/// Which outputs are to be set up anew, or taken down when they are now off.
#[derive(Clone, Copy, Debug, PartialEq, Eq, Structural)]
pub struct OutputChanges {
    pub any: bool,
    pub mqtt: bool,
    pub webhook: bool,
    pub lastfm: bool,
    pub listenbrainz: bool,
}

/// Which outputs are given a message.
#[derive(Clone, Copy, Debug, PartialEq, Eq, Structural)]
pub struct Recipients {
    pub mqtt: bool,
    pub webhook: bool,
}

impl OutputsView {
    /// The outputs that the settings ask for.
    pub open spec fn set_up(config: crate::config::ConfigView) -> OutputsView {
        OutputsView {
            mqtt_config: config.mqtt,
            mqtt_gate: None,
            webhook_config: config.webhook,
            webhook_gate: None,
            lastfm_config: config.lastfm,
            listenbrainz_config: config.listenbrainz,
        }
    }

    /// The outputs whose settings changed.
    pub open spec fn changes(self, config: crate::config::ConfigView) -> OutputChanges {
        let mqtt = config.mqtt != self.mqtt_config;
        let webhook = config.webhook != self.webhook_config;
        let lastfm = config.lastfm != self.lastfm_config;
        let listenbrainz = config.listenbrainz != self.listenbrainz_config;
        OutputChanges {
            any: mqtt || webhook || lastfm || listenbrainz,
            mqtt,
            webhook,
            lastfm,
            listenbrainz,
        }
    }

    /// The outputs with the settings that they have now. One that changed forgets what it was
    /// given.
    pub open spec fn refreshed(self, config: crate::config::ConfigView) -> OutputsView {
        OutputsView {
            mqtt_gate: if config.mqtt != self.mqtt_config {
                None
            } else {
                self.mqtt_gate
            },
            webhook_gate: if config.webhook != self.webhook_config {
                None
            } else {
                self.webhook_gate
            },
            ..OutputsView::set_up(config)
        }
    }

    /// The outputs when nobody plays.
    pub open spec fn idle(self) -> OutputsView {
        OutputsView { mqtt_gate: None, webhook_gate: None, ..self }
    }

    /// The outputs that are given the track of a player: those that are on and were not given it
    /// last.
    pub open spec fn recipients(self, player: crate::domain::PlayerView) -> Recipients {
        Recipients {
            mqtt: self.mqtt_config.enabled && crate::selection::gate_open(self.mqtt_gate, player),
            webhook: self.webhook_config.enabled && crate::selection::gate_open(
                self.webhook_gate,
                player,
            ),
        }
    }

    /// The outputs once they were given the track of a player.
    pub open spec fn published(self, player: crate::domain::PlayerView) -> OutputsView {
        OutputsView {
            mqtt_gate: if self.recipients(player).mqtt {
                crate::selection::gate_after(self.mqtt_gate, player)
            } else {
                self.mqtt_gate
            },
            webhook_gate: if self.recipients(player).webhook {
                crate::selection::gate_after(self.webhook_gate, player)
            } else {
                self.webhook_gate
            },
            ..self
        }
    }
}

impl Outputs {
    /// The outputs that the settings ask for.
    pub fn new(config: &Config) -> (outputs: Self)
        ensures
            outputs@ == OutputsView::set_up(config@),
    {
        Outputs {
            mqtt_config: config.mqtt.clone(),
            mqtt_gate: PublicationGate::default(),
            webhook_config: config.webhook.clone(),
            webhook_gate: PublicationGate::default(),
            lastfm_config: config.lastfm.clone(),
            listenbrainz_config: config.listenbrainz.clone(),
        }
    }

    /// Brings the outputs up to date with the settings, and says which of them changed.
    pub fn refresh(&mut self, latest: &Config) -> (changes: OutputChanges)
        ensures
            changes == old(self)@.changes(latest@),
            final(self)@ == old(self)@.refreshed(latest@),
    {
        let mut changes = OutputChanges {
            any: false,
            mqtt: false,
            webhook: false,
            lastfm: false,
            listenbrainz: false,
        };
        if latest.mqtt != self.mqtt_config {
            self.mqtt_config = latest.mqtt.clone();
            self.mqtt_gate.observe_idle();
            changes.any = true;
            changes.mqtt = true;
        }
        if latest.webhook != self.webhook_config {
            self.webhook_config = latest.webhook.clone();
            self.webhook_gate.observe_idle();
            changes.any = true;
            changes.webhook = true;
        }
        if latest.lastfm != self.lastfm_config {
            self.lastfm_config = latest.lastfm.clone();
            changes.any = true;
            changes.lastfm = true;
        }
        if latest.listenbrainz != self.listenbrainz_config {
            self.listenbrainz_config = latest.listenbrainz.clone();
            changes.any = true;
            changes.listenbrainz = true;
        }
        changes
    }

    /// Takes note that nobody plays.
    pub fn clear_if_idle(&mut self)
        ensures
            final(self)@ == old(self)@.idle(),
    {
        self.mqtt_gate.observe_idle();
        self.webhook_gate.observe_idle();
    }

    /// Says which outputs are given the track of a player, and takes note that they were.
    pub fn publish(&mut self, player: &Player) -> (recipients: Recipients)
        ensures
            recipients == old(self)@.recipients(player@),
            final(self)@ == old(self)@.published(player@),
    {
        let mut recipients = Recipients { mqtt: false, webhook: false };
        if self.mqtt_config.enabled && self.mqtt_gate.should_publish(player) {
            recipients.mqtt = true;
            self.mqtt_gate.mark_published(player);
        }
        if self.webhook_config.enabled && self.webhook_gate.should_publish(player) {
            recipients.webhook = true;
            self.webhook_gate.mark_published(player);
        }
        recipients
    }
}

/// Forgets the playbacks of the accounts whose settings changed.
pub fn reset_changed_trackers(
    changes: &OutputChanges,
    lastfm: &mut PlaybackTracker,
    listenbrainz: &mut PlaybackTracker,
)
    ensures
        final(lastfm)@ == (if changes.lastfm {
            None
        } else {
            old(lastfm)@
        }),
        final(listenbrainz)@ == (if changes.listenbrainz {
            None
        } else {
            old(listenbrainz)@
        }),
{
    if changes.lastfm {
        lastfm.reset();
    }
    if changes.listenbrainz {
        listenbrainz.reset();
    }
}

/// What a refresh is to the tracker of an account: a pause when nobody is selected, and nothing
/// but forgetting while the account is off.
pub open spec fn refresh_event(
    enabled: bool,
    selected: Option<crate::domain::PlayerView>,
    now: u64,
) -> crate::playback::TrackerEvent {
    if !enabled {
        crate::playback::TrackerEvent::Reset
    } else if selected is None {
        crate::playback::TrackerEvent::Pause(now)
    } else {
        crate::playback::TrackerEvent::Observe(selected, now)
    }
}

/// Tells the tracker of an account what is playing, and says what the account is told.
pub fn playback_actions(
    tracker: &mut PlaybackTracker,
    enabled: bool,
    selected: Option<&Player>,
    now: u64,
) -> (actions: Vec<ScrobbleAction>)
    ensures
        ({
            let event = refresh_event(enabled, seen_player(selected), now);
            &&& final(tracker)@ == crate::playback::tracker_after(old(tracker)@, event)
            &&& crate::playback::action_views(actions@) == crate::playback::actions_after(
                old(tracker)@,
                event,
            )
        }),
{
    if !enabled {
        tracker.reset();
        let actions: Vec<ScrobbleAction> = Vec::new();
        assert(crate::playback::action_views(actions@) =~= Seq::empty());
        return actions;
    }
    match selected {
        Some(player) => tracker.observe(Some(player), now),
        None => tracker.pause(now),
    }
}

/// The contents of a player that is looked at.
pub open spec fn seen_player(player: Option<&Player>) -> Option<crate::domain::PlayerView> {
    match player {
        Some(player) => Some(player@),
        None => None,
    }
}

/// How the outputs stand that are there.
#[derive(Debug)]
pub struct OutputStatuses {
    pub mqtt: Option<MqttStatus>,
    pub webhook: Option<WebhookStatus>,
    pub lastfm: Option<LastFmStatus>,
    pub listenbrainz: Option<ListenBrainzStatus>,
}

impl RuntimeState {
    /// Takes note of why no players could be looked for.
    pub fn fail(&mut self, reason: String)
        ensures
            final(self)@ == (RuntimeStateView { error: Some(reason@), ..old(self)@ }),
    {
        self.error = Some(reason);
    }

    /// Takes note of what was found, and clears the error.
    pub fn update(
        &mut self,
        players: Vec<Player>,
        selected: Option<&Player>,
        statuses: OutputStatuses,
    )
        ensures
            final(self)@ == old(self)@.updated(
                crate::domain::player_views(players@),
                seen_player(selected),
                statuses,
            ),
    {
        self.players = players;
        self.selected =
        match selected {
            Some(player) => Some(player.clone()),
            None => None,
        };
        self.error = None;
        self.mqtt =
        match statuses.mqtt {
            Some(status) => status,
            None => MqttStatus::default(),
        };
        self.webhook =
        match statuses.webhook {
            Some(status) => status,
            None => WebhookStatus::default(),
        };
        self.lastfm =
        match statuses.lastfm {
            Some(status) => status,
            None => LastFmStatus::default(),
        };
        self.listenbrainz =
        match statuses.listenbrainz {
            Some(status) => status,
            None => ListenBrainzStatus::default(),
        };
    }
}

impl RuntimeStateView {
    /// What is shown once players were found; of an output that is not there nothing is said.
    pub open spec fn updated(
        self,
        players: Seq<crate::domain::PlayerView>,
        selected: Option<crate::domain::PlayerView>,
        statuses: OutputStatuses,
    ) -> RuntimeStateView {
        RuntimeStateView {
            players,
            selected,
            verification: self.verification,
            mqtt: match statuses.mqtt {
                Some(status) => status@,
                None => mqtt_off(),
            },
            webhook: match statuses.webhook {
                Some(status) => status@,
                None => webhook_off(),
            },
            lastfm: match statuses.lastfm {
                Some(status) => status@,
                None => account_off(),
            },
            listenbrainz: match statuses.listenbrainz {
                Some(status) => status@,
                None => account_off(),
            },
            error: None,
        }
    }
}

/// The outcome of a look-up, with the number of the look-up.
#[derive(Debug)]
pub struct VerifiedResult {
    pub generation: u64,
    pub player: Player,
    pub verification: Verification,
}

/// What becomes of the look-up.
#[derive(Debug)]
pub enum Lookup {
    /// The one that is under way, or over, stands.
    Keep,
    /// It is dropped, and the track of this player is looked up under this number.
    Begin { player: Player, generation: u64 },
    /// It is dropped, and the outputs are told that nobody plays.
    Drop,
}

/// The contents of a [`Lookup`].
pub ghost enum LookupView {
    Keep,
    Begin { player: crate::domain::PlayerView, generation: u64 },
    Drop,
}

impl View for Lookup {
    type V = LookupView;

    open spec fn view(&self) -> LookupView {
        match self {
            Lookup::Keep => LookupView::Keep,
            Lookup::Begin { player, generation } => LookupView::Begin {
                player: player@,
                generation: *generation,
            },
            Lookup::Drop => LookupView::Drop,
        }
    }
}

/// What is done after players were found.
#[derive(Debug)]
pub struct Observation {
    pub lastfm: Vec<ScrobbleAction>,
    pub listenbrainz: Vec<ScrobbleAction>,
    pub lookup: Lookup,
}

/// What is done after a track was looked up.
#[derive(Debug)]
pub struct Announcement {
    /// The message, and who is given it.
    pub message: Option<(NowPlayingMessage, Recipients)>,
    pub lastfm: Vec<ScrobbleAction>,
    pub listenbrainz: Vec<ScrobbleAction>,
}

/// A running program: the outputs, the playbacks that the accounts follow, and what is being
/// played and looked up.
#[derive(Debug)]
pub struct RuntimeCore {
    pub outputs: Outputs,
    pub lastfm_tracker: PlaybackTracker,
    pub listenbrainz_tracker: PlaybackTracker,
    /// What is being looked up, or was.
    pub active: Option<(String, TrackIdentity)>,
    /// The number of the look-up.
    pub generation: u64,
}

/// A player's key and the track that it plays.
pub type ActiveView = Option<(Seq<char>, crate::domain::TrackIdentityView)>;

/// The contents of what is being looked up.
pub open spec fn active_view(active: Option<(String, TrackIdentity)>) -> ActiveView {
    match active {
        Some(active) => Some((active.0@, active.1@)),
        None => None,
    }
}

/// The contents of a [`RuntimeCore`].
#[verifier::ext_equal]
pub ghost struct RuntimeCoreView {
    pub outputs: OutputsView,
    pub lastfm_tracker: Option<crate::playback::PlaybackView>,
    pub listenbrainz_tracker: Option<crate::playback::PlaybackView>,
    pub active: ActiveView,
    pub generation: u64,
}

impl View for RuntimeCore {
    type V = RuntimeCoreView;

    open spec fn view(&self) -> RuntimeCoreView {
        RuntimeCoreView {
            outputs: self.outputs@,
            lastfm_tracker: self.lastfm_tracker@,
            listenbrainz_tracker: self.listenbrainz_tracker@,
            active: active_view(self.active),
            generation: self.generation,
        }
    }
}

/// What a selected player plays.
pub open spec fn activity(selected: Option<crate::domain::PlayerView>) -> ActiveView {
    match selected {
        Some(player) => match player.track {
            Some(track) => Some(crate::selection::publication(player, track)),
            None => None,
        },
        None => None,
    }
}

/// The number after a number; it begins anew at the end.
pub open spec fn generation_after(generation: u64) -> u64 {
    if generation == u64::MAX {
        0
    } else {
        (generation + 1) as u64
    }
}

/// What was found out of a track may be told: it was verified, or telling what was not is wanted
/// and the look-up is over.
pub open spec fn may_be_told(status: VerificationStatus, publish_unverified: bool) -> bool {
    status == VerificationStatus::Verified || (publish_unverified && (status
        == VerificationStatus::NotFound || status == VerificationStatus::Ambiguous || status
        == VerificationStatus::Unavailable))
}

/// Whether what was found out of a track may be told.
pub fn is_eligible_status(status: VerificationStatus, publish_unverified: bool) -> (eligible: bool)
    ensures
        eligible == may_be_told(status, publish_unverified),
{
    status == VerificationStatus::Verified || (publish_unverified && (status
        == VerificationStatus::NotFound || status == VerificationStatus::Ambiguous || status
        == VerificationStatus::Unavailable))
}

impl RuntimeCoreView {
    /// A program that was just started.
    pub open spec fn started(config: crate::config::ConfigView) -> RuntimeCoreView {
        RuntimeCoreView {
            outputs: OutputsView::set_up(config),
            lastfm_tracker: None,
            listenbrainz_tracker: None,
            active: None,
            generation: 0,
        }
    }

    /// The program with the settings that it has now. When an output changed, what is playing is
    /// looked up and told again.
    pub open spec fn configured(self, config: crate::config::ConfigView) -> RuntimeCoreView {
        let changes = self.outputs.changes(config);
        RuntimeCoreView {
            outputs: self.outputs.refreshed(config),
            lastfm_tracker: if changes.lastfm {
                None
            } else {
                self.lastfm_tracker
            },
            listenbrainz_tracker: if changes.listenbrainz {
                None
            } else {
                self.listenbrainz_tracker
            },
            active: if changes.any {
                None
            } else {
                self.active
            },
            generation: self.generation,
        }
    }

    /// The program after players were found.
    pub open spec fn observed(
        self,
        selected: Option<crate::domain::PlayerView>,
        now: u64,
    ) -> RuntimeCoreView {
        let news = activity(selected) != self.active;
        RuntimeCoreView {
            outputs: if news && selected is None {
                self.outputs.idle()
            } else {
                self.outputs
            },
            lastfm_tracker: crate::playback::tracker_after(
                self.lastfm_tracker,
                refresh_event(self.outputs.lastfm_config.enabled, selected, now),
            ),
            listenbrainz_tracker: crate::playback::tracker_after(
                self.listenbrainz_tracker,
                refresh_event(self.outputs.listenbrainz_config.enabled, selected, now),
            ),
            active: activity(selected),
            generation: if news {
                generation_after(self.generation)
            } else {
                self.generation
            },
        }
    }

    /// What is shown after players were found: what was found out stands as long as its track does.
    pub open spec fn shown_after_observing(
        self,
        state: RuntimeStateView,
        players: Seq<crate::domain::PlayerView>,
        selected: Option<crate::domain::PlayerView>,
        statuses: OutputStatuses,
    ) -> RuntimeStateView {
        let shown = state.updated(players, selected, statuses);
        if activity(selected) != self.active {
            RuntimeStateView { verification: None, ..shown }
        } else {
            shown
        }
    }

    /// What is shown after a track was looked up, unless the look-up was dropped.
    pub open spec fn shown_after_looking_up(
        self,
        state: RuntimeStateView,
        generation: u64,
        verification: crate::domain::VerificationView,
    ) -> RuntimeStateView {
        if generation == self.generation {
            RuntimeStateView { verification: Some(verification), ..state }
        } else {
            state
        }
    }

    /// What becomes of the look-up after players were found.
    pub open spec fn lookup(self, selected: Option<crate::domain::PlayerView>) -> LookupView {
        if activity(selected) == self.active {
            LookupView::Keep
        } else {
            match selected {
                Some(player) => LookupView::Begin {
                    player,
                    generation: generation_after(self.generation),
                },
                None => LookupView::Drop,
            }
        }
    }

    /// The message that follows from a look-up: none from one that was dropped, and none of what
    /// may not be told.
    pub open spec fn message_after(
        self,
        generation: u64,
        player: crate::domain::PlayerView,
        verification: crate::domain::VerificationView,
        publish_unverified: bool,
    ) -> Option<crate::domain::NowPlayingMessageView> {
        if generation == self.generation && may_be_told(verification.status, publish_unverified)
            && player.track is Some {
            Some(crate::domain::message_for(player, player.track->0, verification))
        } else {
            None
        }
    }

    /// The program after a track was looked up.
    pub open spec fn verified(
        self,
        generation: u64,
        player: crate::domain::PlayerView,
        verification: crate::domain::VerificationView,
        publish_unverified: bool,
        now: u64,
    ) -> RuntimeCoreView {
        if self.message_after(generation, player, verification, publish_unverified) is None {
            self
        } else {
            let event = crate::playback::TrackerEvent::Authorize(player, verification, now);
            RuntimeCoreView {
                outputs: self.outputs.published(player),
                lastfm_tracker: crate::playback::tracker_after(self.lastfm_tracker, event),
                listenbrainz_tracker: crate::playback::tracker_after(
                    self.listenbrainz_tracker,
                    event,
                ),
                ..self
            }
        }
    }

    /// What an account is told after a track was looked up.
    pub open spec fn told_after(
        self,
        enabled: bool,
        tracker: Option<crate::playback::PlaybackView>,
        message: Option<crate::domain::NowPlayingMessageView>,
        player: crate::domain::PlayerView,
        verification: crate::domain::VerificationView,
        now: u64,
    ) -> Seq<crate::playback::ScrobbleActionView> {
        if message is Some && enabled {
            crate::playback::actions_after(
                tracker,
                crate::playback::TrackerEvent::Authorize(player, verification, now),
            )
        } else {
            Seq::empty()
        }
    }
}

/// Whether two records of what is being looked up are one.
fn same_activity(
    left: &Option<(String, TrackIdentity)>,
    right: &Option<(String, TrackIdentity)>,
) -> (same: bool)
    ensures
        same == (active_view(*left) == active_view(*right)),
{
    match (left, right) {
        (Some(left), Some(right)) => left.0 == right.0 && left.1 == right.1,
        (None, None) => true,
        _ => false,
    }
}

/// What a selected player plays.
fn activity_of(selected: Option<&Player>) -> (active: Option<(String, TrackIdentity)>)
    ensures
        active_view(active) == activity(seen_player(selected)),
{
    match selected {
        Some(player) => match &player.track {
            Some(track) => Some((player.key.clone(), track.identity())),
            None => None,
        },
        None => None,
    }
}

impl RuntimeCore {
    /// A program that was just started.
    pub fn new(config: &Config) -> (core: Self)
        ensures
            core@ == RuntimeCoreView::started(config@),
    {
        RuntimeCore {
            outputs: Outputs::new(config),
            lastfm_tracker: PlaybackTracker::default(),
            listenbrainz_tracker: PlaybackTracker::default(),
            active: None,
            generation: 0,
        }
    }

    /// Takes up the settings, and says which outputs changed.
    pub fn configure(&mut self, config: &Config) -> (changes: OutputChanges)
        ensures
            changes == old(self)@.outputs.changes(config@),
            final(self)@ == old(self)@.configured(config@),
    {
        let changes = self.outputs.refresh(config);
        reset_changed_trackers(
            &changes,
            &mut self.lastfm_tracker,
            &mut self.listenbrainz_tracker,
        );
        if changes.any {
            self.active = None;
        }
        changes
    }

    /// Takes note of the players that were found at `now`, and says what is done. The state shows
    /// them, and forgets what was found out of the track before.
    pub fn observe(
        &mut self,
        state: &mut RuntimeState,
        players: Vec<Player>,
        allowlist: &[String],
        statuses: OutputStatuses,
        now: u64,
    ) -> (observation: Observation)
        ensures
            ({
                let selected = crate::selection::selection(
                    crate::domain::player_views(players@),
                    crate::text::texts(allowlist@),
                );
                &&& final(self)@ == old(self)@.observed(selected, now)
                &&& observation.lookup@ == old(self)@.lookup(selected)
                &&& crate::playback::action_views(observation.lastfm@)
                    == crate::playback::actions_after(
                    old(self)@.lastfm_tracker,
                    refresh_event(old(self)@.outputs.lastfm_config.enabled, selected, now),
                )
                &&& crate::playback::action_views(observation.listenbrainz@)
                    == crate::playback::actions_after(
                    old(self)@.listenbrainz_tracker,
                    refresh_event(old(self)@.outputs.listenbrainz_config.enabled, selected, now),
                )
                &&& final(state)@ == old(self)@.shown_after_observing(
                    old(state)@,
                    crate::domain::player_views(players@),
                    selected,
                    statuses,
                )
                &&& ({
                    let shown = old(state)@.updated(
                        crate::domain::player_views(players@),
                        selected,
                        statuses,
                    );
                    final(state)@ == (if activity(selected) != old(self)@.active {
                        RuntimeStateView { verification: None, ..shown }
                    } else {
                        shown
                    })
                })
            }),
            final(state)@.players == crate::domain::player_views(players@),
            match final(state)@.selected {
                Some(player) => {
                    &&& player.status == crate::domain::PlaybackStatus::Playing
                    &&& exists|k: int|
                        0 <= k < allowlist@.len() && crate::selection::goes_by(
                            player.key,
                            #[trigger] allowlist@[k]@,
                        )
                    &&& player.track is Some && player.track->0.artists.len() > 0
                },
                None => true,
            },
            observation.lookup is Begin ==> final(state)@.selected == Some(
                observation.lookup->player@,
            ) && observation.lookup->generation == final(self)@.generation,
    {
        let chosen: Option<Player> = match select_player(&players, allowlist) {
            Some(player) => Some(player.clone()),
            None => None,
        };
        assert(chosen is Some ==> chosen->0@.track is Some && chosen->0@.track->0.artists.len() > 0) by {
            crate::selection::law_selected_players_are_playing(
                crate::domain::player_views(players@),
                crate::text::texts(allowlist@),
            );
        }
        let selected: Option<&Player> = match &chosen {
            Some(player) => Some(player),
            None => None,
        };
        let lastfm = playback_actions(
            &mut self.lastfm_tracker,
            self.outputs.lastfm_config.enabled,
            selected,
            now,
        );
        let listenbrainz = playback_actions(
            &mut self.listenbrainz_tracker,
            self.outputs.listenbrainz_config.enabled,
            selected,
            now,
        );
        let next = activity_of(selected);
        state.update(players, selected, statuses);
        if same_activity(&next, &self.active) {
            return Observation { lastfm, listenbrainz, lookup: Lookup::Keep };
        }
        self.generation =
        if self.generation == u64::MAX {
            0
        } else {
            self.generation + 1
        };
        self.active = next;
        state.verification = None;
        match chosen {
            Some(player) => Observation {
                lastfm,
                listenbrainz,
                lookup: Lookup::Begin { player, generation: self.generation },
            },
            None => {
                self.outputs.clear_if_idle();
                Observation { lastfm, listenbrainz, lookup: Lookup::Drop }
            },
        }
    }

    /// Takes note of what was found out of a track at `now`, and says what is told to whom. A
    /// look-up that was dropped changes nothing.
    pub fn handle_verified(
        &mut self,
        state: &mut RuntimeState,
        result: VerifiedResult,
        publish_unverified: bool,
        now: u64,
    ) -> (announcement: Announcement)
        ensures
            ({
                let player = result.player@;
                let verification = result.verification@;
                let message = old(self)@.message_after(
                    result.generation,
                    player,
                    verification,
                    publish_unverified,
                );
                &&& final(self)@ == old(self)@.verified(
                    result.generation,
                    player,
                    verification,
                    publish_unverified,
                    now,
                )
                &&& final(state)@ == old(self)@.shown_after_looking_up(
                    old(state)@,
                    result.generation,
                    verification,
                )
                &&& final(state)@ == (if result.generation == old(self)@.generation {
                    RuntimeStateView { verification: Some(verification), ..old(state)@ }
                } else {
                    old(state)@
                })
                &&& match announcement.message {
                    Some(given) => message == Some(given.0@) && given.1
                        == old(self)@.outputs.recipients(player) && result.generation
                        == old(self)@.generation && (result.verification.status
                        == VerificationStatus::Verified || publish_unverified)
                        && result.verification.status != VerificationStatus::Pending
                        && result.player.track is Some && given.0.track@
                        == result.player.track->0.title@ && given.0.album@
                        == result.player.track->0.album@ && given.0.player.key@
                        == result.player.key@ && given.0.verification@ == result.verification@,
                    None => message is None,
                }
                &&& crate::playback::action_views(announcement.lastfm@) == old(self)@.told_after(
                    old(self)@.outputs.lastfm_config.enabled,
                    old(self)@.lastfm_tracker,
                    message,
                    player,
                    verification,
                    now,
                )
                &&& crate::playback::action_views(announcement.listenbrainz@) == old(
                    self,
                )@.told_after(
                    old(self)@.outputs.listenbrainz_config.enabled,
                    old(self)@.listenbrainz_tracker,
                    message,
                    player,
                    verification,
                    now,
                )
            }),
    {
        let mut announcement = Announcement {
            message: None,
            lastfm: Vec::new(),
            listenbrainz: Vec::new(),
        };
        assert(crate::playback::action_views(announcement.lastfm@) =~= Seq::empty());
        assert(crate::playback::action_views(announcement.listenbrainz@) =~= Seq::empty());
        if result.generation != self.generation {
            return announcement;
        }
        state.verification = Some(result.verification.clone());
        if is_eligible_status(result.verification.status, publish_unverified) {
            if let Some(track) = &result.player.track {
                let message = NowPlayingMessage::new(
                    &result.player,
                    track,
                    result.verification.clone(),
                );
                let recipients = self.outputs.publish(&result.player);
                announcement.message = Some((message, recipients));
                let actions = self.lastfm_tracker.authorize(
                    &result.player,
                    result.verification.clone(),
                    now,
                );
                if self.outputs.lastfm_config.enabled {
                    announcement.lastfm = actions;
                }
                let actions = self.listenbrainz_tracker.authorize(
                    &result.player,
                    result.verification.clone(),
                    now,
                );
                if self.outputs.listenbrainz_config.enabled {
                    announcement.listenbrainz = actions;
                }
            }
        }
        announcement
    }
}

/// What was not verified is told only where that is wanted, and what is still being looked up is
/// never told.
pub proof fn law_unverified_tracks_stay_private(
    core: RuntimeCoreView,
    generation: u64,
    player: crate::domain::PlayerView,
    verification: crate::domain::VerificationView,
    publish_unverified: bool,
    now: u64,
)
    requires
        verification.status != VerificationStatus::Verified,
        !publish_unverified || verification.status == VerificationStatus::Pending,
    ensures
        core.message_after(generation, player, verification, publish_unverified) is None,
        core.verified(generation, player, verification, publish_unverified, now) == core,
{
}

/// The outcome of a look-up that was dropped changes nothing and is told to nobody: once another
/// track plays, or nobody does, what was found out of the one before is void.
pub proof fn law_late_outcomes_are_void(
    core: RuntimeCoreView,
    selected: Option<crate::domain::PlayerView>,
    seen_at: u64,
    player: crate::domain::PlayerView,
    verification: crate::domain::VerificationView,
    publish_unverified: bool,
    now: u64,
)
    requires
        activity(selected) != core.active,
    ensures
        ({
            let next = core.observed(selected, seen_at);
            &&& next.generation != core.generation
            &&& next.message_after(core.generation, player, verification, publish_unverified)
                is None
            &&& next.verified(core.generation, player, verification, publish_unverified, now)
                == next
        }),
{
}

/// While one track plays on, it is not looked up again, and its number stays.
pub proof fn law_one_track_is_looked_up_once(
    core: RuntimeCoreView,
    selected: Option<crate::domain::PlayerView>,
    seen_at: u64,
    seen_again_at: u64,
)
    ensures
        ({
            let next = core.observed(selected, seen_at);
            &&& next.lookup(selected) is Keep
            &&& next.observed(selected, seen_again_at).generation == next.generation
        }),
{
}

/// An output is given one track of a player once: given it, it is not given it again, until the
/// output changes or nobody plays.
pub proof fn law_outputs_are_given_a_track_once(
    outputs: OutputsView,
    player: crate::domain::PlayerView,
)
    ensures
        !outputs.published(player).recipients(player).mqtt,
        !outputs.published(player).recipients(player).webhook,
        player.track is Some && outputs.mqtt_config.enabled ==> outputs.idle().recipients(
            player,
        ).mqtt,
        player.track is Some && outputs.webhook_config.enabled ==> outputs.idle().recipients(
            player,
        ).webhook,
{
}

/// An output that is off is given nothing.
pub proof fn law_outputs_that_are_off_get_nothing(
    core: RuntimeCoreView,
    player: crate::domain::PlayerView,
    message: Option<crate::domain::NowPlayingMessageView>,
    verification: crate::domain::VerificationView,
    selected: Option<crate::domain::PlayerView>,
    now: u64,
)
    ensures
        !core.outputs.mqtt_config.enabled ==> !core.outputs.recipients(player).mqtt,
        !core.outputs.webhook_config.enabled ==> !core.outputs.recipients(player).webhook,
        core.told_after(false, core.lastfm_tracker, message, player, verification, now)
            == Seq::<crate::playback::ScrobbleActionView>::empty(),
        crate::playback::actions_after(core.lastfm_tracker, refresh_event(false, selected, now))
            == Seq::<crate::playback::ScrobbleActionView>::empty(),
{
}

/// When an output changes, what is playing is looked up again, so that a new output is told of it
/// without waiting for another track; settings that are what they were change nothing.
pub proof fn law_changed_outputs_hear_of_the_current_track(
    core: RuntimeCoreView,
    config: crate::config::ConfigView,
    player: crate::domain::PlayerView,
)
    requires
        player.track is Some,
    ensures
        core.outputs.changes(config).any ==> core.configured(config).lookup(Some(player)) is Begin,
        core.outputs.changes(config).mqtt && config.mqtt.enabled ==> core.configured(
            config,
        ).outputs.recipients(player).mqtt,
        core.outputs.changes(config).webhook && config.webhook.enabled ==> core.configured(
            config,
        ).outputs.recipients(player).webhook,
        !core.outputs.changes(config).any ==> core.configured(config) == core,
{
}

/// Nobody is heard, and nothing is looked up, with an empty list of allowed players.
pub proof fn law_nobody_is_heard_unasked(
    core: RuntimeCoreView,
    players: Seq<crate::domain::PlayerView>,
)
    ensures
        crate::selection::selection(players, Seq::empty()) is None,
        !(core.lookup(crate::selection::selection(players, Seq::empty())) is Begin),
{
}

/// Only a player that the user allowed is ever looked up, and only while it plays something that
/// can be told.
pub proof fn law_only_allowed_players_are_looked_up(
    core: RuntimeCoreView,
    players: Seq<crate::domain::PlayerView>,
    allowlist: Seq<Seq<char>>,
)
    ensures
        match core.lookup(crate::selection::selection(players, allowlist)) {
            LookupView::Begin { player, generation } => players.contains(player) && exists|k: int|
                0 <= k < allowlist.len() && crate::selection::is_eligible(
                    player,
                    #[trigger] allowlist[k],
                ),
            _ => true,
        },
{
    crate::selection::law_selection_follows_the_allowlist(players, allowlist);
}

impl RuntimeCoreView {
    /// Nothing may be told to the accounts yet of what they follow.
    pub open spec fn is_quiet(self) -> bool {
        &&& self.lastfm_tracker is Some ==> self.lastfm_tracker->0.message is None
        &&& self.listenbrainz_tracker is Some ==> self.listenbrainz_tracker->0.message is None
    }
}

/// The accounts hear of nothing that may not be told: from the start on, as long as no look-up has
/// an outcome that may be told, nothing is ever submitted to them, whatever plays for however
/// long.
pub proof fn law_accounts_hear_only_what_may_be_told(
    core: RuntimeCoreView,
    config: crate::config::ConfigView,
    enabled: bool,
    selected: Option<crate::domain::PlayerView>,
    generation: u64,
    player: crate::domain::PlayerView,
    verification: crate::domain::VerificationView,
    publish_unverified: bool,
    now: u64,
)
    requires
        core.is_quiet(),
        !may_be_told(verification.status, publish_unverified),
    ensures
        RuntimeCoreView::started(config).is_quiet(),
        core.configured(config).is_quiet(),
        core.observed(selected, now).is_quiet(),
        core.verified(generation, player, verification, publish_unverified, now).is_quiet(),
        crate::playback::actions_after(
            core.lastfm_tracker,
            refresh_event(enabled, selected, now),
        ) == Seq::<crate::playback::ScrobbleActionView>::empty(),
        crate::playback::actions_after(
            core.listenbrainz_tracker,
            refresh_event(enabled, selected, now),
        ) == Seq::<crate::playback::ScrobbleActionView>::empty(),
        core.message_after(generation, player, verification, publish_unverified) is None,
{
    crate::playback::law_nothing_is_told_before_it_is_allowed(
        core.lastfm_tracker,
        refresh_event(core.outputs.lastfm_config.enabled, selected, now),
    );
    crate::playback::law_nothing_is_told_before_it_is_allowed(
        core.listenbrainz_tracker,
        refresh_event(core.outputs.listenbrainz_config.enabled, selected, now),
    );
    crate::playback::law_nothing_is_told_before_it_is_allowed(
        core.lastfm_tracker,
        refresh_event(enabled, selected, now),
    );
    crate::playback::law_nothing_is_told_before_it_is_allowed(
        core.listenbrainz_tracker,
        refresh_event(enabled, selected, now),
    );
}

/// Only what was verified is told, and where it is wanted what was looked up without success; what
/// is still being looked up never is.
pub proof fn law_what_may_be_told(status: VerificationStatus, publish_unverified: bool)
    ensures
        may_be_told(VerificationStatus::Verified, publish_unverified),
        !may_be_told(VerificationStatus::Pending, publish_unverified),
        status != VerificationStatus::Verified && status != VerificationStatus::Pending ==> (
        may_be_told(status, publish_unverified) <==> publish_unverified),
{
}

/// What is remembered is the track of a player: its key, and the title, artists, album, duration
/// and track identifier of what it plays.
pub open spec fn is_the_track_of(
    remembered: Option<(Seq<char>, crate::domain::TrackIdentityView)>,
    player: crate::domain::PlayerView,
) -> bool {
    match (remembered, player.track) {
        (Some((key, identity)), Some(track)) => {
            &&& key == player.key
            &&& identity.title == track.title
            &&& identity.artists == track.artists
            &&& identity.album == track.album
            &&& identity.duration_ms == track.duration_ms
            &&& identity.track_id == track.track_id
        },
        _ => false,
    }
}

/// An outcome is told exactly when it is that of the look-up that stands, may be told, and its
/// player had a track; the message is then of that very player, track and outcome, and goes to each
/// output that is on and was not given that track last.
pub proof fn law_outcomes_are_told_as_they_are(
    core: RuntimeCoreView,
    generation: u64,
    player: crate::domain::PlayerView,
    verification: crate::domain::VerificationView,
    publish_unverified: bool,
)
    ensures
        ({
            let message = core.message_after(generation, player, verification, publish_unverified);
            &&& message is Some <==> generation == core.generation && may_be_told(
                verification.status,
                publish_unverified,
            ) && player.track is Some
            &&& message is Some ==> {
                &&& message->0.track == player.track->0.title
                &&& message->0.artists == player.track->0.artists
                &&& message->0.album == player.track->0.album
                &&& message->0.player.key == player.key
                &&& message->0.verification == verification
            }
            &&& core.outputs.recipients(player).mqtt <==> core.outputs.mqtt_config.enabled
                && player.track is Some && !is_the_track_of(core.outputs.mqtt_gate, player)
            &&& core.outputs.recipients(player).webhook <==> core.outputs.webhook_config.enabled
                && player.track is Some && !is_the_track_of(core.outputs.webhook_gate, player)
        }),
{
    crate::domain::law_message_says_what_is_playing(player, player.track->0, verification);
    if is_the_track_of(core.outputs.mqtt_gate, player) {
        lemma_remembered_track(core.outputs.mqtt_gate, player);
    }
    if is_the_track_of(core.outputs.webhook_gate, player) {
        lemma_remembered_track(core.outputs.webhook_gate, player);
    }
}

/// An output that is given a track remembers it, and one that is not keeps what it remembers;
/// giving changes nothing else.
pub proof fn law_outputs_remember_what_they_were_given(
    outputs: OutputsView,
    player: crate::domain::PlayerView,
)
    requires
        player.track is Some,
    ensures
        ({
            let next = outputs.published(player);
            let given = outputs.recipients(player);
            &&& given.mqtt ==> is_the_track_of(next.mqtt_gate, player)
            &&& !given.mqtt ==> next.mqtt_gate == outputs.mqtt_gate
            &&& given.webhook ==> is_the_track_of(next.webhook_gate, player)
            &&& !given.webhook ==> next.webhook_gate == outputs.webhook_gate
            &&& next.mqtt_config == outputs.mqtt_config && next.webhook_config
                == outputs.webhook_config && next.lastfm_config == outputs.lastfm_config
                && next.listenbrainz_config == outputs.listenbrainz_config
            &&& outputs.idle().mqtt_gate is None && outputs.idle().webhook_gate is None
            &&& outputs.idle().mqtt_config == outputs.mqtt_config
            &&& outputs.idle().webhook_config == outputs.webhook_config
            &&& outputs.idle().lastfm_config == outputs.lastfm_config
            &&& outputs.idle().listenbrainz_config == outputs.listenbrainz_config
        }),
{
}

/// Settings are taken up as they are, output by output: one changes exactly when its settings
/// differ, forgets then what it was given, and its account what it followed.
pub proof fn law_settings_are_taken_up_output_by_output(
    core: RuntimeCoreView,
    config: crate::config::ConfigView,
)
    ensures
        ({
            let changes = core.outputs.changes(config);
            let next = core.configured(config);
            &&& changes.mqtt <==> core.outputs.mqtt_config != config.mqtt
            &&& changes.webhook <==> core.outputs.webhook_config != config.webhook
            &&& changes.lastfm <==> core.outputs.lastfm_config != config.lastfm
            &&& changes.listenbrainz <==> core.outputs.listenbrainz_config != config.listenbrainz
            &&& changes.any <==> changes.mqtt || changes.webhook || changes.lastfm
                || changes.listenbrainz
            &&& next.outputs.mqtt_config == config.mqtt
            &&& next.outputs.webhook_config == config.webhook
            &&& next.outputs.lastfm_config == config.lastfm
            &&& next.outputs.listenbrainz_config == config.listenbrainz
            &&& changes.mqtt ==> next.outputs.mqtt_gate is None
            &&& !changes.mqtt ==> next.outputs.mqtt_gate == core.outputs.mqtt_gate
            &&& changes.webhook ==> next.outputs.webhook_gate is None
            &&& !changes.webhook ==> next.outputs.webhook_gate == core.outputs.webhook_gate
            &&& changes.lastfm ==> next.lastfm_tracker is None
            &&& !changes.lastfm ==> next.lastfm_tracker == core.lastfm_tracker
            &&& changes.listenbrainz ==> next.listenbrainz_tracker is None
            &&& !changes.listenbrainz ==> next.listenbrainz_tracker == core.listenbrainz_tracker
            &&& changes.any ==> next.active is None
            &&& !changes.any ==> next.active == core.active
            &&& next.generation == core.generation
        }),
        ({
            let first = RuntimeCoreView::started(config);
            &&& first.outputs.mqtt_config == config.mqtt && first.outputs.mqtt_gate is None
            &&& first.outputs.webhook_config == config.webhook && first.outputs.webhook_gate is None
            &&& first.outputs.lastfm_config == config.lastfm
            &&& first.outputs.listenbrainz_config == config.listenbrainz
            &&& first.lastfm_tracker is None && first.listenbrainz_tracker is None
            &&& first.active is None && first.generation == 0
        }),
{
}

/// Each account hears of the playing of the selected player, of a pause when nobody is selected,
/// and of nothing while it is off; and of what may be told, each on its own.
pub proof fn law_accounts_follow_the_selected_player(
    core: RuntimeCoreView,
    selected: Option<crate::domain::PlayerView>,
    generation: u64,
    player: crate::domain::PlayerView,
    verification: crate::domain::VerificationView,
    publish_unverified: bool,
    now: u64,
)
    ensures
        ({
            let next = core.observed(selected, now);
            let seen = if selected is Some {
                crate::playback::TrackerEvent::Observe(selected, now)
            } else {
                crate::playback::TrackerEvent::Pause(now)
            };
            &&& core.outputs.lastfm_config.enabled ==> next.lastfm_tracker
                == crate::playback::tracker_after(core.lastfm_tracker, seen)
            &&& !core.outputs.lastfm_config.enabled ==> next.lastfm_tracker is None
            &&& core.outputs.listenbrainz_config.enabled ==> next.listenbrainz_tracker
                == crate::playback::tracker_after(core.listenbrainz_tracker, seen)
            &&& !core.outputs.listenbrainz_config.enabled ==> next.listenbrainz_tracker is None
            &&& crate::playback::actions_after(
                core.lastfm_tracker,
                refresh_event(true, selected, now),
            ) == crate::playback::actions_after(core.lastfm_tracker, seen)
        }),
        core.message_after(generation, player, verification, publish_unverified) is Some ==> {
            let next = core.verified(generation, player, verification, publish_unverified, now);
            let allowed = crate::playback::TrackerEvent::Authorize(player, verification, now);
            &&& next.lastfm_tracker == crate::playback::tracker_after(core.lastfm_tracker, allowed)
            &&& next.listenbrainz_tracker == crate::playback::tracker_after(
                core.listenbrainz_tracker,
                allowed,
            )
            &&& next.outputs == core.outputs.published(player)
            &&& next.generation == core.generation
            &&& next.active == core.active
            &&& core.told_after(
                true,
                core.lastfm_tracker,
                core.message_after(generation, player, verification, publish_unverified),
                player,
                verification,
                now,
            ) == crate::playback::actions_after(core.lastfm_tracker, allowed)
        },
{
}

/// A track is looked up when it is another one than before, by its player's key, title, artists,
/// album, duration and track identifier; under the next number, for the selected player itself.
/// When nobody is selected any more, the look-up is dropped and the outputs forget.
pub proof fn law_another_track_is_looked_up(
    core: RuntimeCoreView,
    selected: Option<crate::domain::PlayerView>,
    now: u64,
)
    ensures
        ({
            let next = core.observed(selected, now);
            let playing = selected is Some && selected->0.track is Some;
            let same = if playing {
                is_the_track_of(core.active, selected->0)
            } else {
                core.active is None
            };
            &&& same ==> core.lookup(selected) is Keep && next.generation == core.generation
                && next.outputs == core.outputs
            &&& !same ==> next.generation == (if core.generation == u64::MAX {
                0
            } else {
                core.generation + 1
            })
            &&& !same && selected is Some ==> core.lookup(selected) == (LookupView::Begin {
                player: selected->0,
                generation: next.generation,
            }) && next.outputs == core.outputs
            &&& !same && selected is None ==> core.lookup(selected) is Drop
                && next.outputs.mqtt_gate is None && next.outputs.webhook_gate is None
            &&& playing ==> is_the_track_of(next.active, selected->0)
            &&& !playing ==> next.active is None
        }),
{
    if selected is Some && is_the_track_of(core.active, selected->0) {
        lemma_remembered_track(core.active, selected->0);
    }
}

proof fn lemma_remembered_track(
    remembered: Option<(Seq<char>, crate::domain::TrackIdentityView)>,
    player: crate::domain::PlayerView,
)
    requires
        is_the_track_of(remembered, player),
    ensures
        remembered == activity(Some(player)),
{
    match (remembered, player.track) {
        (Some((key, identity)), Some(track)) => {
            assert(identity =~= track.identity());
        },
        _ => {},
    }
}

/// What is shown is what was found: the players, who is selected, how each output stands that is
/// there, and no error; and what was found out of a track only as long as that track plays and only
/// from the look-up that stands.
pub proof fn law_what_is_shown_is_what_was_found(
    core: RuntimeCoreView,
    state: RuntimeStateView,
    players: Seq<crate::domain::PlayerView>,
    selected: Option<crate::domain::PlayerView>,
    statuses: OutputStatuses,
    generation: u64,
    verification: crate::domain::VerificationView,
)
    ensures
        ({
            let shown = core.shown_after_observing(state, players, selected, statuses);
            &&& shown.players == players
            &&& shown.selected == selected
            &&& shown.error is None
            &&& core.lookup(selected) is Keep ==> shown.verification == state.verification
            &&& !(core.lookup(selected) is Keep) ==> shown.verification is None
            &&& statuses.mqtt is Some ==> shown.mqtt == statuses.mqtt->0@
            &&& statuses.mqtt is None ==> !shown.mqtt.connected && shown.mqtt.detail.len() == 0
            &&& statuses.webhook is Some ==> shown.webhook == statuses.webhook->0@
            &&& statuses.webhook is None ==> !shown.webhook.delivered
                && shown.webhook.detail.len() == 0
            &&& statuses.lastfm is Some ==> shown.lastfm == statuses.lastfm->0@
            &&& statuses.lastfm is None ==> !shown.lastfm.authenticated
                && shown.lastfm.detail.len() == 0
            &&& statuses.listenbrainz is Some ==> shown.listenbrainz == statuses.listenbrainz->0@
            &&& statuses.listenbrainz is None ==> !shown.listenbrainz.authenticated
                && shown.listenbrainz.detail.len() == 0
        }),
        ({
            let shown = core.shown_after_looking_up(state, generation, verification);
            &&& generation == core.generation ==> shown.verification == Some(verification)
            &&& generation != core.generation ==> shown.verification == state.verification
            &&& shown.players == state.players && shown.selected == state.selected && shown.error
                == state.error && shown.mqtt == state.mqtt && shown.webhook == state.webhook
                && shown.lastfm == state.lastfm && shown.listenbrainz == state.listenbrainz
        }),
{
}

/// Views show every field as it is.
pub proof fn law_views_show_every_field(
    state: RuntimeState,
    outputs: Outputs,
    core: RuntimeCore,
    lookup: Lookup,
    player: Player,
)
    ensures
        state@.players == crate::domain::player_views(state.players@),
        state@.selected == crate::domain::opt_player(state.selected),
        state@.verification == crate::domain::opt_verification(state.verification),
        state@.mqtt == state.mqtt@ && state@.webhook == state.webhook@ && state@.lastfm
            == state.lastfm@ && state@.listenbrainz == state.listenbrainz@,
        crate::domain::shows(state@.error, state.error),
        outputs@.mqtt_config == outputs.mqtt_config@ && outputs@.mqtt_gate == outputs.mqtt_gate@
            && outputs@.webhook_config == outputs.webhook_config@ && outputs@.webhook_gate
            == outputs.webhook_gate@ && outputs@.lastfm_config == outputs.lastfm_config@
            && outputs@.listenbrainz_config == outputs.listenbrainz_config@,
        core@.outputs == core.outputs@ && core@.lastfm_tracker == core.lastfm_tracker@
            && core@.listenbrainz_tracker == core.listenbrainz_tracker@ && core@.generation
            == core.generation,
        match lookup {
            Lookup::Keep => lookup@ is Keep,
            Lookup::Begin { player, generation } => lookup@ == (LookupView::Begin {
                player: player@,
                generation,
            }),
            Lookup::Drop => lookup@ is Drop,
        },
        seen_player(Some(&player)) == Some(player@),
        seen_player(None) is None,
        RuntimeStateView::initial().players.len() == 0 && RuntimeStateView::initial().selected
            is None && RuntimeStateView::initial().verification is None
            && RuntimeStateView::initial().error is None,
{
}

} // verus!
