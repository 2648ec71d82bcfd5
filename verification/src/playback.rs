//! How long a track has been playing, and when that makes a listen.

use vstd::prelude::*;

use crate::domain::{NowPlayingMessage, Player, TrackIdentity, Verification};

verus! {

/// Four minutes in nanoseconds: whoever has heard so much has heard the track.
pub const MAX_SCROBBLE_DELAY: u128 = 240000000000;

/// Tracks of thirty seconds, in milliseconds, are too short to be listens.
pub const LONGEST_SHORT_TRACK: u64 = 30000;

/// What is told to a listening history.
#[derive(Debug)]
pub enum ScrobbleAction {
    NowPlaying(NowPlayingMessage),
    Scrobble { message: NowPlayingMessage, started_at: i64 },
}

/// The contents of a [`ScrobbleAction`].
pub ghost enum ScrobbleActionView {
    NowPlaying(crate::domain::NowPlayingMessageView),
    Scrobble { message: crate::domain::NowPlayingMessageView, started_at: i64 },
}

impl View for ScrobbleAction {
    type V = ScrobbleActionView;

    open spec fn view(&self) -> ScrobbleActionView {
        match self {
            ScrobbleAction::NowPlaying(message) => ScrobbleActionView::NowPlaying(message@),
            ScrobbleAction::Scrobble { message, started_at } => ScrobbleActionView::Scrobble {
                message: message@,
                started_at: *started_at,
            },
        }
    }
}

impl Clone for ScrobbleAction {
    fn clone(&self) -> (copy: Self)
        ensures
            copy@ == self@,
    {
        match self {
            ScrobbleAction::NowPlaying(message) => ScrobbleAction::NowPlaying(message.clone()),
            ScrobbleAction::Scrobble { message, started_at } => ScrobbleAction::Scrobble {
                message: message.clone(),
                started_at: *started_at,
            },
        }
    }
}

/// The contents of a sequence of actions.
pub open spec fn action_views(actions: Seq<ScrobbleAction>) -> Seq<ScrobbleActionView> {
    actions.map_values(|action: ScrobbleAction| action@)
}

/// One playback of one track by one player. Moments are nanoseconds of a clock that never goes
/// back.
#[derive(Debug)]
pub struct TrackedPlayback {
    pub player_key: String,
    pub identity: TrackIdentity,
    /// When the playback began, in seconds from the epoch.
    pub started_at: i64,
    /// For how many nanoseconds the track has been heard.
    pub accumulated: u128,
    /// Up to when it has been counted; absent while paused.
    pub playing_since: Option<u64>,
    /// What may be told of the playback, once that is allowed.
    pub message: Option<NowPlayingMessage>,
    pub now_playing_sent: bool,
    pub scrobbled: bool,
}

/// The contents of a [`TrackedPlayback`].
#[verifier::ext_equal]
pub ghost struct PlaybackView {
    pub player_key: Seq<char>,
    pub identity: crate::domain::TrackIdentityView,
    pub started_at: i64,
    pub accumulated: u128,
    pub playing_since: Option<u64>,
    pub message: Option<crate::domain::NowPlayingMessageView>,
    pub now_playing_sent: bool,
    pub scrobbled: bool,
}

impl View for TrackedPlayback {
    type V = PlaybackView;

    open spec fn view(&self) -> PlaybackView {
        PlaybackView {
            player_key: self.player_key@,
            identity: self.identity@,
            started_at: self.started_at,
            accumulated: self.accumulated,
            playing_since: self.playing_since,
            message: crate::domain::opt_message(self.message),
            now_playing_sent: self.now_playing_sent,
            scrobbled: self.scrobbled,
        }
    }
}

/// How long a track has to be heard, in nanoseconds: half of it, four minutes at most.
pub open spec fn threshold(duration_ms: u64) -> nat {
    if duration_ms * 500000 <= MAX_SCROBBLE_DELAY {
        (duration_ms * 500000) as nat
    } else {
        MAX_SCROBBLE_DELAY as nat
    }
}

/// A count that goes on to the largest number there is.
pub open spec fn counted(accumulated: u128, more: u64) -> u128 {
    if accumulated + more <= u128::MAX {
        (accumulated + more) as u128
    } else {
        u128::MAX
    }
}

impl PlaybackView {
    /// The playback of the track that a player plays.
    pub open spec fn begun(
        player: crate::domain::PlayerView,
        track: crate::domain::RawTrackView,
        now: u64,
    ) -> PlaybackView {
        PlaybackView {
            player_key: player.key,
            identity: track.identity(),
            started_at: track.observed_at.seconds,
            accumulated: 0,
            playing_since: Some(now),
            message: None,
            now_playing_sent: false,
            scrobbled: false,
        }
    }

    /// This is the playback of the track that a player plays.
    pub open spec fn is_of(
        self,
        player: crate::domain::PlayerView,
        track: crate::domain::RawTrackView,
    ) -> bool {
        self.player_key == player.key && self.identity == track.identity()
    }

    /// The playback with the time up to `now` counted, unless it is paused.
    pub open spec fn counted_to(self, now: u64) -> PlaybackView {
        match self.playing_since {
            Some(since) => PlaybackView {
                accumulated: counted(
                    self.accumulated,
                    if now >= since {
                        (now - since) as u64
                    } else {
                        0
                    },
                ),
                playing_since: Some(now),
                ..self
            },
            None => self,
        }
    }

    /// The playback, going on.
    pub open spec fn resumed(self, now: u64) -> PlaybackView {
        PlaybackView {
            playing_since: match self.playing_since {
                Some(since) => Some(since),
                None => Some(now),
            },
            ..self
        }
    }

    /// The playback, paused.
    pub open spec fn paused(self) -> PlaybackView {
        PlaybackView { playing_since: None, ..self }
    }

    /// A listen is owed: it has not been told, it may be told, the track is longer than thirty
    /// seconds, and enough of it has been heard.
    pub open spec fn is_due(self) -> bool {
        &&& !self.scrobbled
        &&& self.message is Some
        &&& self.message->0.duration_ms is Some
        &&& self.message->0.duration_ms->0 > LONGEST_SHORT_TRACK
        &&& self.accumulated >= threshold(self.message->0.duration_ms->0)
    }

    /// The playback once a listen that is owed was told.
    pub open spec fn after_due(self) -> PlaybackView {
        PlaybackView { scrobbled: self.scrobbled || self.is_due(), ..self }
    }

    /// The listen that is owed, if one is.
    pub open spec fn due_actions(self) -> Seq<ScrobbleActionView> {
        if self.is_due() {
            seq![
                ScrobbleActionView::Scrobble {
                    message: self.message->0,
                    started_at: self.started_at,
                },
            ]
        } else {
            Seq::empty()
        }
    }

    /// The playback once it is allowed to tell of it; what is told was settled the first time.
    pub open spec fn allowed(self, message: crate::domain::NowPlayingMessageView) -> PlaybackView {
        PlaybackView {
            message: match self.message {
                Some(message) => Some(message),
                None => Some(message),
            },
            now_playing_sent: true,
            ..self
        }
    }

    /// The announcement that is owed when it becomes allowed to tell of the playback.
    pub open spec fn announcement(
        self,
        message: crate::domain::NowPlayingMessageView,
    ) -> Seq<ScrobbleActionView> {
        if self.now_playing_sent {
            Seq::empty()
        } else {
            seq![ScrobbleActionView::NowPlaying(self.allowed(message).message->0)]
        }
    }
}

impl TrackedPlayback {
    /// Counts the time up to `now`, unless the playback is paused.
    pub fn update_elapsed(&mut self, now: u64)
        ensures
            final(self)@ == old(self)@.counted_to(now),
    {
        if let Some(since) = self.playing_since {
            let more: u64 = if now >= since {
                now - since
            } else {
                0
            };
            if self.accumulated <= u128::MAX - more as u128 {
                self.accumulated = self.accumulated + more as u128;
            } else {
                self.accumulated = u128::MAX;
            }
            self.playing_since = Some(now);
        }
    }

    /// The listen that is owed, if one is; it is owed once.
    pub fn take_due_scrobble(&mut self) -> (action: Option<ScrobbleAction>)
        ensures
            final(self)@ == old(self)@.after_due(),
            match action {
                Some(action) => old(self)@.due_actions() == seq![action@],
                None => old(self)@.due_actions() == Seq::<ScrobbleActionView>::empty(),
            },
    {
        if self.scrobbled {
            return None;
        }
        let message = match &self.message {
            Some(message) => message.clone(),
            None => {
                return None;
            },
        };
        let duration: u64 = match message.duration_ms {
            Some(duration) => duration,
            None => {
                return None;
            },
        };
        if duration <= LONGEST_SHORT_TRACK {
            return None;
        }
        let half: u128 = duration as u128 * 500000;
        let enough: u128 = if half <= MAX_SCROBBLE_DELAY {
            half
        } else {
            MAX_SCROBBLE_DELAY
        };
        if self.accumulated < enough {
            return None;
        }
        self.scrobbled = true;
        Some(ScrobbleAction::Scrobble { message, started_at: self.started_at })
    }
}

/// Follows what is playing.
#[derive(Debug)]
pub struct PlaybackTracker {
    pub active: Option<TrackedPlayback>,
}

/// The playback that is followed, if one is.
pub open spec fn opt_playback(playback: Option<TrackedPlayback>) -> Option<PlaybackView> {
    match playback {
        Some(playback) => Some(playback@),
        None => None,
    }
}

impl View for PlaybackTracker {
    type V = Option<PlaybackView>;

    open spec fn view(&self) -> Option<PlaybackView> {
        opt_playback(self.active)
    }
}

/// What happens to a tracker.
pub ghost enum TrackerEvent {
    Reset,
    /// The selected player plays something, or nobody plays.
    Observe(Option<crate::domain::PlayerView>, u64),
    Pause(u64),
    /// It may be told of what the player plays.
    Authorize(crate::domain::PlayerView, crate::domain::VerificationView, u64),
}

/// The track that a player plays, with the player.
pub open spec fn playing_track(player: Option<crate::domain::PlayerView>) -> Option<
    (crate::domain::PlayerView, crate::domain::RawTrackView),
> {
    match player {
        Some(player) => match player.track {
            Some(track) => Some((player, track)),
            None => None,
        },
        None => None,
    }
}

/// The observed track is the one whose playback is followed.
pub open spec fn goes_on(
    active: Option<PlaybackView>,
    player: Option<crate::domain::PlayerView>,
) -> bool {
    match (active, playing_track(player)) {
        (Some(playback), Some(next)) => playback.is_of(next.0, next.1),
        _ => false,
    }
}

/// The playback that is followed after something happened. Another track, or none, ends it.
pub open spec fn tracker_after(active: Option<PlaybackView>, event: TrackerEvent) -> Option<
    PlaybackView,
> {
    match event {
        TrackerEvent::Reset => None,
        TrackerEvent::Observe(player, now) => if goes_on(active, player) {
            Some(active->0.resumed(now).counted_to(now).after_due())
        } else {
            match playing_track(player) {
                Some(next) => Some(PlaybackView::begun(next.0, next.1, now)),
                None => None,
            }
        },
        TrackerEvent::Pause(now) => match active {
            Some(playback) => Some(playback.counted_to(now).paused().after_due()),
            None => None,
        },
        TrackerEvent::Authorize(player, verification, now) => if goes_on(active, Some(player)) {
            Some(
                active->0.counted_to(now).allowed(
                    crate::domain::message_for(player, player.track->0, verification),
                ).after_due(),
            )
        } else {
            active
        },
    }
}

/// What is told when something happened.
pub open spec fn actions_after(active: Option<PlaybackView>, event: TrackerEvent) -> Seq<
    ScrobbleActionView,
> {
    match event {
        TrackerEvent::Reset => Seq::empty(),
        TrackerEvent::Observe(player, now) => match active {
            Some(playback) => if goes_on(active, player) {
                playback.resumed(now).counted_to(now).due_actions()
            } else {
                playback.counted_to(now).due_actions()
            },
            None => Seq::empty(),
        },
        TrackerEvent::Pause(now) => match active {
            Some(playback) => playback.counted_to(now).paused().due_actions(),
            None => Seq::empty(),
        },
        TrackerEvent::Authorize(player, verification, now) => if goes_on(active, Some(player)) {
            let message = crate::domain::message_for(player, player.track->0, verification);
            let playback = active->0.counted_to(now);
            playback.announcement(message) + playback.allowed(message).due_actions()
        } else {
            Seq::empty()
        },
    }
}

impl Default for PlaybackTracker {
    fn default() -> (tracker: Self)
        ensures
            tracker@ is None,
    {
        PlaybackTracker { active: None }
    }
}

impl PlaybackTracker {
    /// Forgets the playback.
    pub fn reset(&mut self)
        ensures
            final(self)@ == tracker_after(old(self)@, TrackerEvent::Reset),
    {
        self.active = None;
    }

    /// Takes note of what the selected player plays at `now`, and says what is to be told.
    pub fn observe(&mut self, player: Option<&Player>, now: u64) -> (actions: Vec<ScrobbleAction>)
        ensures
            ({
                let event = TrackerEvent::Observe(
                    match player {
                        Some(player) => Some(player@),
                        None => None,
                    },
                    now,
                );
                &&& final(self)@ == tracker_after(old(self)@, event)
                &&& action_views(actions@) == actions_after(old(self)@, event)
            }),
            old(self)@ is None ==> actions@.len() == 0,
            old(self)@ is Some ==> tells_the_listen(old(self)@->0, now, actions@),
    {
        proof {
            if old(self)@ is Some {
                law_no_listen_is_lost(
                    old(self)@->0,
                    match player {
                        Some(player) => Some(player@),
                        None => None,
                    },
                    now,
                );
            }
        }
        let mut actions: Vec<ScrobbleAction> = Vec::new();
        let mut next: Option<TrackedPlayback> = None;
        let mut same = false;
        if let Some(player) = player {
            if let Some(track) = &player.track {
                let identity = track.identity();
                if let Some(active) = &self.active {
                    same = active.player_key == player.key && active.identity == identity;
                }
                next =
                Some(
                    TrackedPlayback {
                        player_key: player.key.clone(),
                        identity,
                        started_at: track.observed_at.timestamp(),
                        accumulated: 0,
                        playing_since: Some(now),
                        message: None,
                        now_playing_sent: false,
                        scrobbled: false,
                    },
                );
            }
        }
        if let Some(mut active) = self.active.take() {
            if same && active.playing_since.is_none() {
                active.playing_since = Some(now);
            }
            active.update_elapsed(now);
            if let Some(action) = active.take_due_scrobble() {
                actions.push(action);
            }
            if same {
                next = Some(active);
            }
        }
        self.active = next;
        assert(action_views(actions@) =~= actions_after(
            old(self)@,
            TrackerEvent::Observe(
                match player {
                    Some(player) => Some(player@),
                    None => None,
                },
                now,
            ),
        ));
        assert(actions@.len() == action_views(actions@).len());
        assert(actions@.len() > 0 ==> actions@[0]@ == action_views(actions@)[0]);
        actions
    }

    /// Takes note that nothing plays from `now` on, and says what is to be told.
    pub fn pause(&mut self, now: u64) -> (actions: Vec<ScrobbleAction>)
        ensures
            final(self)@ == tracker_after(old(self)@, TrackerEvent::Pause(now)),
            action_views(actions@) == actions_after(old(self)@, TrackerEvent::Pause(now)),
            old(self)@ is None ==> actions@.len() == 0,
            old(self)@ is Some ==> tells_the_listen(old(self)@->0, now, actions@),
    {
        proof {
            if old(self)@ is Some {
                law_no_listen_is_lost(old(self)@->0, None, now);
            }
        }
        let mut actions: Vec<ScrobbleAction> = Vec::new();
        if let Some(mut active) = self.active.take() {
            active.update_elapsed(now);
            active.playing_since = None;
            if let Some(action) = active.take_due_scrobble() {
                actions.push(action);
            }
            self.active = Some(active);
        }
        assert(action_views(actions@) =~= actions_after(old(self)@, TrackerEvent::Pause(now)));
        assert(actions@.len() == action_views(actions@).len());
        assert(actions@.len() > 0 ==> actions@[0]@ == action_views(actions@)[0]);
        actions
    }

    /// Takes note that it may be told of what the player plays, and says what is to be told.
    pub fn authorize(
        &mut self,
        player: &Player,
        verification: Verification,
        now: u64,
    ) -> (actions: Vec<ScrobbleAction>)
        ensures
            ({
                let event = TrackerEvent::Authorize(player@, verification@, now);
                &&& final(self)@ == tracker_after(old(self)@, event)
                &&& action_views(actions@) == actions_after(old(self)@, event)
            }),
    {
        let ghost event = TrackerEvent::Authorize(player@, verification@, now);
        let mut actions: Vec<ScrobbleAction> = Vec::new();
        if let Some(track) = &player.track {
            if let Some(mut active) = self.active.take() {
                if active.player_key == player.key && active.identity == track.identity() {
                    active.update_elapsed(now);
                    if active.message.is_none() {
                        active.message = Some(NowPlayingMessage::new(player, track, verification));
                    }
                    if !active.now_playing_sent {
                        active.now_playing_sent = true;
                        if let Some(message) = &active.message {
                            actions.push(ScrobbleAction::NowPlaying(message.clone()));
                        }
                    }
                    if let Some(action) = active.take_due_scrobble() {
                        actions.push(action);
                    }
                }
                self.active = Some(active);
            }
        }
        assert(action_views(actions@) =~= actions_after(old(self)@, event));
        actions
    }
}

/// How many of the actions tell of a listen.
pub open spec fn listens(actions: Seq<ScrobbleActionView>) -> nat
    decreases actions.len(),
{
    if actions.len() == 0 {
        0
    } else {
        listens(actions.drop_last()) + if actions.last() is Scrobble {
            1nat
        } else {
            0nat
        }
    }
}

/// How many of the actions announce what is playing.
pub open spec fn announcements(actions: Seq<ScrobbleActionView>) -> nat
    decreases actions.len(),
{
    if actions.len() == 0 {
        0
    } else {
        announcements(actions.drop_last()) + if actions.last() is NowPlaying {
            1nat
        } else {
            0nat
        }
    }
}

/// What is told from a state on, while the events happen in turn.
pub open spec fn told(active: Option<PlaybackView>, events: Seq<TrackerEvent>) -> Seq<
    ScrobbleActionView,
>
    decreases events.len(),
{
    if events.len() == 0 {
        Seq::empty()
    } else {
        told(active, events.drop_last()) + actions_after(
            followed(active, events.drop_last()),
            events.last(),
        )
    }
}

/// The playback that is followed after the events happened in turn.
pub open spec fn followed(active: Option<PlaybackView>, events: Seq<TrackerEvent>) -> Option<
    PlaybackView,
>
    decreases events.len(),
{
    if events.len() == 0 {
        active
    } else {
        tracker_after(followed(active, events.drop_last()), events.last())
    }
}

/// How many playbacks begin while the events happen in turn.
pub open spec fn beginnings(active: Option<PlaybackView>, events: Seq<TrackerEvent>) -> nat
    decreases events.len(),
{
    if events.len() == 0 {
        0
    } else {
        beginnings(active, events.drop_last()) + if begins(
            followed(active, events.drop_last()),
            events.last(),
        ) {
            1nat
        } else {
            0nat
        }
    }
}

/// A playback begins with this event.
pub open spec fn begins(active: Option<PlaybackView>, event: TrackerEvent) -> bool {
    match event {
        TrackerEvent::Observe(player, now) => playing_track(player) is Some && !goes_on(
            active,
            player,
        ),
        _ => false,
    }
}

/// One when a listen can still be told of the playback, and else zero.
pub open spec fn listens_left(active: Option<PlaybackView>) -> nat {
    match active {
        Some(playback) => if playback.scrobbled {
            0
        } else {
            1
        },
        None => 0,
    }
}

/// One when the playback can still be announced, and else zero.
pub open spec fn announcements_left(active: Option<PlaybackView>) -> nat {
    match active {
        Some(playback) => if playback.now_playing_sent {
            0
        } else {
            1
        },
        None => 0,
    }
}

proof fn lemma_counts_add(a: Seq<ScrobbleActionView>, b: Seq<ScrobbleActionView>)
    ensures
        listens(a + b) == listens(a) + listens(b),
        announcements(a + b) == announcements(a) + announcements(b),
    decreases b.len(),
{
    if b.len() == 0 {
        assert(a + b =~= a);
    } else {
        lemma_counts_add(a, b.drop_last());
        assert((a + b).drop_last() =~= a + b.drop_last());
        assert((a + b).last() == b.last());
    }
}

proof fn lemma_counts_of_one(action: ScrobbleActionView)
    ensures
        listens(seq![action]) == (if action is Scrobble {
            1nat
        } else {
            0nat
        }),
        announcements(seq![action]) == (if action is NowPlaying {
            1nat
        } else {
            0nat
        }),
{
    assert(seq![action].drop_last() =~= Seq::<ScrobbleActionView>::empty());
    reveal_with_fuel(listens, 2);
    reveal_with_fuel(announcements, 2);
}

proof fn lemma_counts_of_step(active: Option<PlaybackView>, event: TrackerEvent)
    ensures
        listens(actions_after(active, event)) + listens_left(tracker_after(active, event))
            <= listens_left(active) + (if begins(active, event) {
            1nat
        } else {
            0nat
        }),
        announcements(actions_after(active, event)) + announcements_left(
            tracker_after(active, event),
        ) <= announcements_left(active) + (if begins(active, event) {
            1nat
        } else {
            0nat
        }),
{
    let actions = actions_after(active, event);
    assert forall|action: ScrobbleActionView| true implies listens(#[trigger] seq![action]) == (
    if action is Scrobble {
        1nat
    } else {
        0nat
    }) && announcements(seq![action]) == (if action is NowPlaying {
        1nat
    } else {
        0nat
    }) by {
        lemma_counts_of_one(action);
    }
    match event {
        TrackerEvent::Authorize(player, verification, now) => {
            if goes_on(active, Some(player)) {
                let message = crate::domain::message_for(player, player.track->0, verification);
                let playback = active->0.counted_to(now);
                lemma_counts_add(
                    playback.announcement(message),
                    playback.allowed(message).due_actions(),
                );
            }
        },
        _ => {},
    }
}

/// Whatever happens, no playback makes more than one listen and none is announced more than once:
/// there are no more of either than playbacks that began, counting the one that was already
/// followed if its own was still to come.
pub proof fn law_each_playback_is_told_once(
    active: Option<PlaybackView>,
    events: Seq<TrackerEvent>,
)
    ensures
        listens(told(active, events)) + listens_left(followed(active, events)) <= listens_left(
            active,
        ) + beginnings(active, events),
        announcements(told(active, events)) + announcements_left(followed(active, events))
            <= announcements_left(active) + beginnings(active, events),
    decreases events.len(),
{
    if events.len() > 0 {
        let front = events.drop_last();
        law_each_playback_is_told_once(active, front);
        lemma_counts_of_step(followed(active, front), events.last());
        lemma_counts_add(
            told(active, front),
            actions_after(followed(active, front), events.last()),
        );
    }
}

/// Time that passes while a playback is paused is not counted, however long the pause is.
pub proof fn law_pauses_are_not_counted(
    playback: PlaybackView,
    player: crate::domain::PlayerView,
    paused_at: u64,
    resumed_at: u64,
)
    requires
        goes_on(Some(playback), Some(player)),
    ensures
        ({
            let paused = tracker_after(Some(playback), TrackerEvent::Pause(paused_at));
            let resumed = tracker_after(paused, TrackerEvent::Observe(Some(player), resumed_at));
            &&& paused is Some
            &&& resumed is Some
            &&& resumed->0.accumulated == paused->0.accumulated
            &&& resumed->0.playing_since == Some(resumed_at)
        }),
{
}

/// A track that is not longer than thirty seconds, or of unknown duration, is never a listen.
pub proof fn law_short_tracks_are_no_listens(playback: PlaybackView)
    requires
        playback.message is Some,
        playback.message->0.duration_ms is None || playback.message->0.duration_ms->0
            <= LONGEST_SHORT_TRACK,
    ensures
        !playback.is_due(),
{
}

/// A playback that is not paused is a listen, once it may be told, as soon as half of the track
/// was heard or four minutes of it, and not sooner.
pub proof fn law_listen_is_due_at_the_threshold(playback: PlaybackView, now: u64)
    requires
        !playback.scrobbled,
        playback.message is Some,
        playback.message->0.duration_ms is Some,
        playback.message->0.duration_ms->0 > LONGEST_SHORT_TRACK,
        playback.playing_since is Some,
        playback.playing_since->0 <= now,
        playback.accumulated + (now - playback.playing_since->0) <= u128::MAX,
    ensures
        playback.counted_to(now).is_due() <==> (playback.accumulated + (now
            - playback.playing_since->0)) * 2 >= playback.message->0.duration_ms->0 * 1000000
            || playback.accumulated + (now - playback.playing_since->0) >= 240000000000,
{
}

/// Nothing is told of a playback before that was allowed.
pub proof fn law_nothing_is_told_before_it_is_allowed(
    active: Option<PlaybackView>,
    event: TrackerEvent,
)
    requires
        active is Some ==> active->0.message is None,
        !(event is Authorize),
    ensures
        actions_after(active, event) == Seq::<ScrobbleActionView>::empty(),
        tracker_after(active, event) is Some ==> tracker_after(active, event)->0.message is None,
{
}

/// For how many nanoseconds a playback has been heard at a moment: what was counted before, and
/// the time since then unless it is paused.
pub open spec fn heard_by(playback: PlaybackView, now: u64) -> int {
    let total = playback.accumulated + if playback.playing_since is Some
        && playback.playing_since->0 <= now {
        now - playback.playing_since->0
    } else {
        0
    };
    if total <= u128::MAX {
        total
    } else {
        u128::MAX as int
    }
}

/// A listen of so many nanoseconds is owed for a message: the track is longer than thirty seconds,
/// and half of it was heard or four minutes.
pub open spec fn makes_a_listen(message: crate::domain::NowPlayingMessageView, heard: int) -> bool {
    &&& message.duration_ms is Some
    &&& message.duration_ms->0 > 30000
    &&& heard * 2 >= message.duration_ms->0 * 1000000 || heard >= 240000000000
}

/// A player plays the track whose playback this is: the key, title, artists, album, duration and
/// track identifier agree.
pub open spec fn plays_on(playback: PlaybackView, player: crate::domain::PlayerView) -> bool {
    &&& player.track is Some
    &&& playback.player_key == player.key
    &&& playback.identity.title == player.track->0.title
    &&& playback.identity.artists == player.track->0.artists
    &&& playback.identity.album == player.track->0.album
    &&& playback.identity.duration_ms == player.track->0.duration_ms
    &&& playback.identity.track_id == player.track->0.track_id
}

/// No listen is lost and none is made up. When a playback is paused, goes on or ends, its listen is
/// told exactly when it is owed by then and was not told before: with the message that was allowed
/// and the moment at which the playback began. It counts as told exactly when it was.
pub proof fn law_no_listen_is_lost(
    playback: PlaybackView,
    player: Option<crate::domain::PlayerView>,
    now: u64,
)
    ensures
        ({
            let owed = !playback.scrobbled && playback.message is Some && makes_a_listen(
                playback.message->0,
                heard_by(playback, now),
            );
            let told = if owed {
                seq![
                    ScrobbleActionView::Scrobble {
                        message: playback.message->0,
                        started_at: playback.started_at,
                    },
                ]
            } else {
                Seq::empty()
            };
            let paused = tracker_after(Some(playback), TrackerEvent::Pause(now));
            let observed = tracker_after(Some(playback), TrackerEvent::Observe(player, now));
            let same = player is Some && plays_on(playback, player->0);
            &&& actions_after(Some(playback), TrackerEvent::Pause(now)) == told
            &&& actions_after(Some(playback), TrackerEvent::Observe(player, now)) == told
            &&& paused is Some
            &&& paused->0.scrobbled == (playback.scrobbled || told.len() > 0)
            &&& paused->0.accumulated == heard_by(playback, now)
            &&& paused->0.playing_since is None
            &&& paused->0.message == playback.message
            &&& paused->0.started_at == playback.started_at
            &&& paused->0.player_key == playback.player_key
            &&& paused->0.identity == playback.identity
            &&& paused->0.now_playing_sent == playback.now_playing_sent
            &&& same ==> {
                &&& observed is Some
                &&& observed->0.scrobbled == (playback.scrobbled || told.len() > 0)
                &&& observed->0.accumulated == heard_by(playback, now)
                &&& observed->0.playing_since == Some(now)
                &&& observed->0.message == playback.message
                &&& observed->0.started_at == playback.started_at
                &&& observed->0.player_key == playback.player_key
                &&& observed->0.identity == playback.identity
                &&& observed->0.now_playing_sent == playback.now_playing_sent
            }
            &&& !same && (player is None || player->0.track is None) ==> observed is None
        }),
{
    lemma_owed_means_due(playback, now);
}

proof fn lemma_owed_means_due(playback: PlaybackView, now: u64)
    ensures
        ({
            let counted = playback.counted_to(now);
            &&& counted.accumulated == heard_by(playback, now)
            &&& playback.resumed(now).counted_to(now).accumulated == heard_by(playback, now)
            &&& playback.message is Some ==> (counted.is_due() <==> !playback.scrobbled
                && makes_a_listen(playback.message->0, heard_by(playback, now)))
        }),
{
}

/// A playback begins with the first observation of its track: by that player, at the moment at
/// which the track was reported, with nothing heard and nothing told.
pub proof fn law_another_track_begins_afresh(
    active: Option<PlaybackView>,
    player: crate::domain::PlayerView,
    now: u64,
)
    requires
        player.track is Some,
        active is Some ==> !plays_on(active->0, player),
    ensures
        ({
            let next = tracker_after(active, TrackerEvent::Observe(Some(player), now));
            &&& next is Some
            &&& plays_on(next->0, player)
            &&& next->0.started_at == player.track->0.observed_at.seconds
            &&& next->0.accumulated == 0
            &&& next->0.playing_since == Some(now)
            &&& next->0.message is None
            &&& !next->0.now_playing_sent
            &&& !next->0.scrobbled
        }),
{
}

/// Without a playback there is nothing to tell, and a reset leaves none.
pub proof fn law_without_a_playback_nothing_is_told(
    active: Option<PlaybackView>,
    event: TrackerEvent,
)
    ensures
        actions_after(None, event) == Seq::<ScrobbleActionView>::empty(),
        tracker_after(None, event) is Some ==> event is Observe,
        tracker_after(active, TrackerEvent::Reset) is None,
        actions_after(active, TrackerEvent::Reset) == Seq::<ScrobbleActionView>::empty(),
{
}

/// Once it may be told of a playback, it is announced if it was not, and its listen is told if it
/// is owed by then and was not told. What is told is settled the first time: the message of the
/// player's track with what was found out then. Of another track nothing is told, and nothing
/// changes.
pub proof fn law_allowed_playbacks_are_told(
    playback: PlaybackView,
    player: crate::domain::PlayerView,
    verification: crate::domain::VerificationView,
    now: u64,
)
    ensures
        ({
            let event = TrackerEvent::Authorize(player, verification, now);
            let next = tracker_after(Some(playback), event);
            let actions = actions_after(Some(playback), event);
            let message = if playback.message is Some {
                playback.message->0
            } else {
                crate::domain::message_for(player, player.track->0, verification)
            };
            let owed = !playback.scrobbled && makes_a_listen(message, heard_by(playback, now));
            if plays_on(playback, player) {
                &&& next is Some
                &&& next->0.message == Some(message)
                &&& next->0.now_playing_sent
                &&& next->0.scrobbled == (playback.scrobbled || owed)
                &&& next->0.accumulated == heard_by(playback, now)
                &&& next->0.playing_since == (if playback.playing_since is Some {
                    Some(now)
                } else {
                    None
                })
                &&& next->0.started_at == playback.started_at
                &&& next->0.player_key == playback.player_key
                &&& next->0.identity == playback.identity
                &&& actions.len() == (if playback.now_playing_sent {
                    0int
                } else {
                    1
                }) + (if owed {
                    1int
                } else {
                    0
                })
                &&& !playback.now_playing_sent ==> actions[0] == ScrobbleActionView::NowPlaying(
                    message,
                )
                &&& owed ==> actions.last() == (ScrobbleActionView::Scrobble {
                    message,
                    started_at: playback.started_at,
                })
            } else {
                &&& next == Some(playback)
                &&& actions == Seq::<ScrobbleActionView>::empty()
            }
        }),
{
    lemma_owed_means_due(
        playback.allowed(crate::domain::message_for(player, player.track->0, verification)),
        now,
    );
    lemma_owed_means_due(playback, now);
}

/// How often a playing track is observed makes no difference to how long it was heard: a look in
/// between adds nothing and takes nothing away.
pub proof fn law_looking_in_between_changes_nothing(
    playback: PlaybackView,
    between: u64,
    now: u64,
)
    requires
        playback.playing_since is Some ==> playback.playing_since->0 <= between,
        between <= now,
    ensures
        heard_by(playback.counted_to(between), now) == heard_by(playback, now),
        playback.counted_to(between).counted_to(now) == playback.counted_to(now),
{
}

/// Views show every field as it is.
pub proof fn law_views_show_every_field(playback: TrackedPlayback, action: ScrobbleAction)
    ensures
        playback@.player_key == playback.player_key@,
        playback@.identity == playback.identity@,
        playback@.started_at == playback.started_at,
        playback@.accumulated == playback.accumulated,
        playback@.playing_since == playback.playing_since,
        playback.message is Some ==> playback@.message == Some(playback.message->0@),
        playback.message is None ==> playback@.message is None,
        playback@.now_playing_sent == playback.now_playing_sent,
        playback@.scrobbled == playback.scrobbled,
        match action {
            ScrobbleAction::NowPlaying(message) => action@ == ScrobbleActionView::NowPlaying(
                message@,
            ),
            ScrobbleAction::Scrobble { message, started_at } => action@ == (
            ScrobbleActionView::Scrobble { message: message@, started_at }),
        },
{
}

/// Actions are shown one by one, in their order.
pub proof fn law_actions_are_shown_one_by_one(
    actions: Seq<ScrobbleAction>,
    playback: Option<TrackedPlayback>,
)
    ensures
        action_views(actions).len() == actions.len(),
        forall|i: int| 0 <= i < actions.len() ==> #[trigger] action_views(actions)[i] == actions[i]@,
        playback is Some ==> opt_playback(playback) == Some(playback->0@),
        playback is None ==> opt_playback(playback) is None,
{
}

/// The actions tell the listen of a playback exactly when it is owed at a moment and was not told:
/// once, with the message that was allowed and the moment at which the playback began.
pub open spec fn tells_the_listen(
    playback: PlaybackView,
    now: u64,
    actions: Seq<ScrobbleAction>,
) -> bool {
    if !playback.scrobbled && playback.message is Some && makes_a_listen(
        playback.message->0,
        heard_by(playback, now),
    ) {
        &&& actions.len() == 1
        &&& actions[0] is Scrobble
        &&& actions[0]->message@ == playback.message->0
        &&& actions[0]->started_at == playback.started_at
    } else {
        actions.len() == 0
    }
}

} // verus!
