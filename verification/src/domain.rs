//! What a player reports, what is known of it, and what is published.

use vstd::prelude::*;

use crate::text::{
    begins_with, clone_texts, same_opt_text, same_texts,
};
#[allow(unused_imports)]
use crate::text::{is_blank, opt_text, texts};

verus! {

/// A moment of the civil clock in UTC: whole seconds since the Unix epoch, and the nanoseconds
/// behind them.
#[derive(Clone, Copy, Debug, PartialEq, Eq, Structural)]
pub struct Timestamp {
    pub seconds: i64,
    pub nanos: u32,
}

impl Timestamp {
    /// The Unix epoch.
    pub open spec fn epoch() -> Timestamp {
        Timestamp { seconds: 0, nanos: 0 }
    }

    /// Whole seconds since the Unix epoch.
    pub fn timestamp(&self) -> (seconds: i64)
        ensures
            seconds == self.seconds,
    {
        self.seconds
    }
}

impl Default for Timestamp {
    fn default() -> (moment: Self)
        ensures
            moment == Timestamp::epoch(),
    {
        Timestamp { seconds: 0, nanos: 0 }
    }
}

/// What a player says it is doing.
#[derive(Clone, Copy, Debug, PartialEq, Eq, Structural)]
pub enum PlaybackStatus {
    Playing,
    Paused,
    Stopped,
    Unknown,
}

impl Default for PlaybackStatus {
    fn default() -> (status: Self)
        ensures
            status == PlaybackStatus::Unknown,
    {
        PlaybackStatus::Unknown
    }
}

/// A track as the player reports it.
#[derive(Debug)]
pub struct RawTrack {
    pub title: String,
    pub artists: Vec<String>,
    pub album: String,
    pub duration_ms: Option<u64>,
    pub art_url: Option<String>,
    pub track_id: Option<String>,
    pub observed_at: Timestamp,
}

/// The contents of a [`RawTrack`].
#[verifier::ext_equal]
pub ghost struct RawTrackView {
    pub title: Seq<char>,
    pub artists: Seq<Seq<char>>,
    pub album: Seq<char>,
    pub duration_ms: Option<u64>,
    pub art_url: Option<Seq<char>>,
    pub track_id: Option<Seq<char>>,
    pub observed_at: Timestamp,
}

impl View for RawTrack {
    type V = RawTrackView;

    open spec fn view(&self) -> RawTrackView {
        RawTrackView {
            title: self.title@,
            artists: texts(self.artists@),
            album: self.album@,
            duration_ms: self.duration_ms,
            art_url: opt_text(self.art_url),
            track_id: opt_text(self.track_id),
            observed_at: self.observed_at,
        }
    }
}

impl RawTrackView {
    /// What tells this track from another one.
    pub open spec fn identity(self) -> TrackIdentityView {
        TrackIdentityView {
            title: self.title,
            artists: self.artists,
            album: self.album,
            duration_ms: self.duration_ms,
            track_id: self.track_id,
        }
    }

    /// There is a title and at least one artist.
    pub open spec fn is_publishable(self) -> bool {
        !is_blank(self.title) && self.artists.len() > 0
    }
}

impl RawTrack {
    /// What tells this track from another one: everything but its artwork and when it was seen.
    pub fn identity(&self) -> (identity: TrackIdentity)
        ensures
            identity@ == self@.identity(),
    {
        TrackIdentity {
            title: self.title.clone(),
            artists: clone_texts(&self.artists),
            album: self.album.clone(),
            duration_ms: self.duration_ms,
            track_id: self.track_id.clone(),
        }
    }

    /// Whether there is a title and at least one artist.
    pub fn is_publishable(&self) -> (publishable: bool)
        ensures
            publishable == self@.is_publishable(),
    {
        !self.title.as_str().trim().is_empty() && !self.artists.is_empty()
    }
}

impl Clone for RawTrack {
    fn clone(&self) -> (copy: Self)
        ensures
            copy@ == self@,
    {
        RawTrack {
            title: self.title.clone(),
            artists: clone_texts(&self.artists),
            album: self.album.clone(),
            duration_ms: self.duration_ms,
            art_url: self.art_url.clone(),
            track_id: self.track_id.clone(),
            observed_at: self.observed_at,
        }
    }
}

impl Default for RawTrack {
    fn default() -> (track: Self)
        ensures
            track@ == (RawTrackView {
                title: Seq::empty(),
                artists: Seq::empty(),
                album: Seq::empty(),
                duration_ms: None,
                art_url: None,
                track_id: None,
                observed_at: Timestamp::epoch(),
            }),
    {
        RawTrack {
            title: String::new(),
            artists: Vec::new(),
            album: String::new(),
            duration_ms: None,
            art_url: None,
            track_id: None,
            observed_at: Timestamp::default(),
        }
    }
}

impl PartialEq for RawTrack {
    fn eq(&self, other: &Self) -> (same: bool) {
        self.title == other.title && same_texts(&self.artists, &other.artists) && self.album
            == other.album && self.duration_ms == other.duration_ms && same_opt_text(
            &self.art_url,
            &other.art_url,
        ) && same_opt_text(&self.track_id, &other.track_id) && self.observed_at
            == other.observed_at
    }
}

impl vstd::std_specs::cmp::PartialEqSpecImpl for RawTrack {
    open spec fn obeys_eq_spec() -> bool {
        true
    }

    open spec fn eq_spec(&self, other: &Self) -> bool {
        self@ == other@
    }
}

impl Eq for RawTrack {

}

/// What tells one track from another.
#[derive(Debug, Hash)]
pub struct TrackIdentity {
    pub title: String,
    pub artists: Vec<String>,
    pub album: String,
    pub duration_ms: Option<u64>,
    pub track_id: Option<String>,
}

/// The contents of a [`TrackIdentity`].
#[verifier::ext_equal]
pub ghost struct TrackIdentityView {
    pub title: Seq<char>,
    pub artists: Seq<Seq<char>>,
    pub album: Seq<char>,
    pub duration_ms: Option<u64>,
    pub track_id: Option<Seq<char>>,
}

impl View for TrackIdentity {
    type V = TrackIdentityView;

    open spec fn view(&self) -> TrackIdentityView {
        TrackIdentityView {
            title: self.title@,
            artists: texts(self.artists@),
            album: self.album@,
            duration_ms: self.duration_ms,
            track_id: opt_text(self.track_id),
        }
    }
}

impl Clone for TrackIdentity {
    fn clone(&self) -> (copy: Self)
        ensures
            copy@ == self@,
    {
        TrackIdentity {
            title: self.title.clone(),
            artists: clone_texts(&self.artists),
            album: self.album.clone(),
            duration_ms: self.duration_ms,
            track_id: self.track_id.clone(),
        }
    }
}

impl PartialEq for TrackIdentity {
    fn eq(&self, other: &Self) -> (same: bool) {
        self.title == other.title && same_texts(&self.artists, &other.artists) && self.album
            == other.album && self.duration_ms == other.duration_ms && same_opt_text(
            &self.track_id,
            &other.track_id,
        )
    }
}

impl vstd::std_specs::cmp::PartialEqSpecImpl for TrackIdentity {
    open spec fn obeys_eq_spec() -> bool {
        true
    }

    open spec fn eq_spec(&self, other: &Self) -> bool {
        self@ == other@
    }
}

impl Eq for TrackIdentity {

}

/// A media player on the session bus.
#[derive(Debug)]
pub struct Player {
    pub key: String,
    pub identity: String,
    pub bus_name: String,
    pub desktop_entry: Option<String>,
    pub status: PlaybackStatus,
    pub track: Option<RawTrack>,
}

/// The contents of a [`Player`].
#[verifier::ext_equal]
pub ghost struct PlayerView {
    pub key: Seq<char>,
    pub identity: Seq<char>,
    pub bus_name: Seq<char>,
    pub desktop_entry: Option<Seq<char>>,
    pub status: PlaybackStatus,
    pub track: Option<RawTrackView>,
}

/// The contents of an optional track.
pub open spec fn opt_track(track: Option<RawTrack>) -> Option<RawTrackView> {
    match track {
        Some(track) => Some(track@),
        None => None,
    }
}

impl View for Player {
    type V = PlayerView;

    open spec fn view(&self) -> PlayerView {
        PlayerView {
            key: self.key@,
            identity: self.identity@,
            bus_name: self.bus_name@,
            desktop_entry: opt_text(self.desktop_entry),
            status: self.status,
            track: opt_track(self.track),
        }
    }
}

/// The contents of an optional player.
pub open spec fn opt_player(player: Option<Player>) -> Option<PlayerView> {
    match player {
        Some(player) => Some(player@),
        None => None,
    }
}

/// The contents of a sequence of players.
pub open spec fn player_views(players: Seq<Player>) -> Seq<PlayerView> {
    players.map_values(|player: Player| player@)
}

impl Clone for Player {
    fn clone(&self) -> (copy: Self)
        ensures
            copy@ == self@,
    {
        Player {
            key: self.key.clone(),
            identity: self.identity.clone(),
            bus_name: self.bus_name.clone(),
            desktop_entry: self.desktop_entry.clone(),
            status: self.status,
            track: match &self.track {
                Some(track) => Some(track.clone()),
                None => None,
            },
        }
    }
}

impl Default for Player {
    fn default() -> (player: Self)
        ensures
            player@ == (PlayerView {
                key: Seq::empty(),
                identity: Seq::empty(),
                bus_name: Seq::empty(),
                desktop_entry: None,
                status: PlaybackStatus::Unknown,
                track: None,
            }),
    {
        Player {
            key: String::new(),
            identity: String::new(),
            bus_name: String::new(),
            desktop_entry: None,
            status: PlaybackStatus::default(),
            track: None,
        }
    }
}

/// Whether two optional tracks are equal.
fn same_track(a: &Option<RawTrack>, b: &Option<RawTrack>) -> (same: bool)
    ensures
        same == (opt_track(*a) == opt_track(*b)),
{
    match (a, b) {
        (Some(x), Some(y)) => *x == *y,
        (None, None) => true,
        _ => false,
    }
}

impl PartialEq for Player {
    fn eq(&self, other: &Self) -> (same: bool) {
        self.key == other.key && self.identity == other.identity && self.bus_name == other.bus_name
            && same_opt_text(&self.desktop_entry, &other.desktop_entry) && self.status
            == other.status && same_track(&self.track, &other.track)
    }
}

impl vstd::std_specs::cmp::PartialEqSpecImpl for Player {
    open spec fn obeys_eq_spec() -> bool {
        true
    }

    open spec fn eq_spec(&self, other: &Self) -> bool {
        self@ == other@
    }
}

impl Eq for Player {

}

/// How a lookup of a track ended.
#[derive(Clone, Copy, Debug, PartialEq, Eq, Structural)]
pub enum VerificationStatus {
    Pending,
    Verified,
    NotFound,
    Ambiguous,
    Unavailable,
}

impl VerificationStatus {
    /// The name of the status in messages and on screen.
    pub open spec fn label(self) -> Seq<char> {
        match self {
            VerificationStatus::Pending => "pending"@,
            VerificationStatus::Verified => "verified"@,
            VerificationStatus::NotFound => "not_found"@,
            VerificationStatus::Ambiguous => "ambiguous"@,
            VerificationStatus::Unavailable => "unavailable"@,
        }
    }

    /// The name of the status in messages and on screen.
    pub fn to_text(&self) -> (text: String)
        ensures
            text@ == self.label(),
    {
        match self {
            VerificationStatus::Pending => "pending".to_owned(),
            VerificationStatus::Verified => "verified".to_owned(),
            VerificationStatus::NotFound => "not_found".to_owned(),
            VerificationStatus::Ambiguous => "ambiguous".to_owned(),
            VerificationStatus::Unavailable => "unavailable".to_owned(),
        }
    }
}

/// The outcome of a lookup, with what identifies the recording.
#[derive(Debug)]
pub struct Verification {
    pub status: VerificationStatus,
    pub score: Option<u8>,
    pub recording_id: Option<String>,
    pub release_id: Option<String>,
    pub release_group_id: Option<String>,
}

/// The contents of a [`Verification`].
#[verifier::ext_equal]
pub ghost struct VerificationView {
    pub status: VerificationStatus,
    pub score: Option<u8>,
    pub recording_id: Option<Seq<char>>,
    pub release_id: Option<Seq<char>>,
    pub release_group_id: Option<Seq<char>>,
}

impl View for Verification {
    type V = VerificationView;

    open spec fn view(&self) -> VerificationView {
        VerificationView {
            status: self.status,
            score: self.score,
            recording_id: opt_text(self.recording_id),
            release_id: opt_text(self.release_id),
            release_group_id: opt_text(self.release_group_id),
        }
    }
}

/// The contents of an optional verification.
pub open spec fn opt_verification(verification: Option<Verification>) -> Option<VerificationView> {
    match verification {
        Some(verification) => Some(verification@),
        None => None,
    }
}

impl VerificationView {
    /// A status with nothing known of the recording.
    pub open spec fn failed(status: VerificationStatus) -> VerificationView {
        VerificationView {
            status,
            score: None,
            recording_id: None,
            release_id: None,
            release_group_id: None,
        }
    }
}

impl Verification {
    /// A status with nothing known of the recording.
    pub fn failed(status: VerificationStatus) -> (verification: Self)
        ensures
            verification@ == VerificationView::failed(status),
    {
        Verification {
            status,
            score: None,
            recording_id: None,
            release_id: None,
            release_group_id: None,
        }
    }
}

impl Clone for Verification {
    fn clone(&self) -> (copy: Self)
        ensures
            copy@ == self@,
    {
        Verification {
            status: self.status,
            score: self.score,
            recording_id: self.recording_id.clone(),
            release_id: self.release_id.clone(),
            release_group_id: self.release_group_id.clone(),
        }
    }
}

impl PartialEq for Verification {
    fn eq(&self, other: &Self) -> (same: bool) {
        self.status == other.status && self.score == other.score && same_opt_text(
            &self.recording_id,
            &other.recording_id,
        ) && same_opt_text(&self.release_id, &other.release_id) && same_opt_text(
            &self.release_group_id,
            &other.release_group_id,
        )
    }
}

impl vstd::std_specs::cmp::PartialEqSpecImpl for Verification {
    open spec fn obeys_eq_spec() -> bool {
        true
    }

    open spec fn eq_spec(&self, other: &Self) -> bool {
        self@ == other@
    }
}

impl Eq for Verification {

}

/// The player as it is named in a message.
#[derive(Debug)]
pub struct PublishedPlayer {
    pub key: String,
    pub identity: String,
}

/// The contents of a [`PublishedPlayer`].
#[verifier::ext_equal]
pub ghost struct PublishedPlayerView {
    pub key: Seq<char>,
    pub identity: Seq<char>,
}

impl View for PublishedPlayer {
    type V = PublishedPlayerView;

    open spec fn view(&self) -> PublishedPlayerView {
        PublishedPlayerView { key: self.key@, identity: self.identity@ }
    }
}

impl Clone for PublishedPlayer {
    fn clone(&self) -> (copy: Self)
        ensures
            copy@ == self@,
    {
        PublishedPlayer { key: self.key.clone(), identity: self.identity.clone() }
    }
}

impl PartialEq for PublishedPlayer {
    fn eq(&self, other: &Self) -> (same: bool) {
        self.key == other.key && self.identity == other.identity
    }
}

impl vstd::std_specs::cmp::PartialEqSpecImpl for PublishedPlayer {
    open spec fn obeys_eq_spec() -> bool {
        true
    }

    open spec fn eq_spec(&self, other: &Self) -> bool {
        self@ == other@
    }
}

impl Eq for PublishedPlayer {

}

/// The message that is published for a track.
#[derive(Debug)]
pub struct NowPlayingMessage {
    pub schema_version: u8,
    pub observed_at: Timestamp,
    pub track: String,
    pub artists: Vec<String>,
    pub album: String,
    pub duration_ms: Option<u64>,
    pub art_url: Option<String>,
    pub player: PublishedPlayer,
    pub verification: Verification,
}

/// The contents of a [`NowPlayingMessage`].
#[verifier::ext_equal]
pub ghost struct NowPlayingMessageView {
    pub schema_version: u8,
    pub observed_at: Timestamp,
    pub track: Seq<char>,
    pub artists: Seq<Seq<char>>,
    pub album: Seq<char>,
    pub duration_ms: Option<u64>,
    pub art_url: Option<Seq<char>>,
    pub player: PublishedPlayerView,
    pub verification: VerificationView,
}

impl View for NowPlayingMessage {
    type V = NowPlayingMessageView;

    open spec fn view(&self) -> NowPlayingMessageView {
        NowPlayingMessageView {
            schema_version: self.schema_version,
            observed_at: self.observed_at,
            track: self.track@,
            artists: texts(self.artists@),
            album: self.album@,
            duration_ms: self.duration_ms,
            art_url: opt_text(self.art_url),
            player: self.player@,
            verification: self.verification@,
        }
    }
}

/// The contents of an optional message.
pub open spec fn opt_message(message: Option<NowPlayingMessage>) -> Option<NowPlayingMessageView> {
    match message {
        Some(message) => Some(message@),
        None => None,
    }
}

/// Where the front cover of a release group is found.
pub open spec fn cover_art(release_group_id: Seq<char>) -> Seq<char> {
    "https://coverartarchive.org/release-group/"@ + release_group_id + "/front"@
}

/// Where the front cover of a release group is found.
pub fn cover_art_url(release_group_id: &str) -> (url: String)
    ensures
        url@ == cover_art(release_group_id@),
{
    let mut url = "https://coverartarchive.org/release-group/".to_owned();
    url.append(release_group_id);
    url.append("/front");
    url
}

/// The artwork address that may leave this machine: the player's own unless it is a local file,
/// and else the cover of the release group.
pub open spec fn public_art(
    art_url: Option<Seq<char>>,
    release_group_id: Option<Seq<char>>,
) -> Option<Seq<char>> {
    match art_url {
        Some(url) if !"file://"@.is_prefix_of(url) => Some(url),
        _ => match release_group_id {
            Some(id) => Some(cover_art(id)),
            None => None,
        },
    }
}

/// The message for a track of a player.
pub open spec fn message_for(
    player: PlayerView,
    track: RawTrackView,
    verification: VerificationView,
) -> NowPlayingMessageView {
    NowPlayingMessageView {
        schema_version: 1,
        observed_at: track.observed_at,
        track: track.title,
        artists: track.artists,
        album: track.album,
        duration_ms: track.duration_ms,
        art_url: public_art(track.art_url, verification.release_group_id),
        player: PublishedPlayerView { key: player.key, identity: player.identity },
        verification,
    }
}

impl NowPlayingMessage {
    /// The message for a track of a player.
    pub fn new(player: &Player, track: &RawTrack, verification: Verification) -> (message: Self)
        ensures
            message@ == message_for(player@, track@, verification@),
            message.schema_version == 1,
            message.track@ == track.title@,
            texts(message.artists@) == texts(track.artists@),
            message.album@ == track.album@,
            message.duration_ms == track.duration_ms,
            message.observed_at == track.observed_at,
            message.player.key@ == player.key@,
            message.player.identity@ == player.identity@,
            message.verification@ == verification@,
    {
        let own = match &track.art_url {
            Some(url) => if begins_with(url.as_str(), "file://") {
                None
            } else {
                Some(url.clone())
            },
            None => None,
        };
        let art_url = match own {
            Some(url) => Some(url),
            None => match &verification.release_group_id {
                Some(id) => Some(cover_art_url(id.as_str())),
                None => None,
            },
        };
        NowPlayingMessage {
            schema_version: 1,
            observed_at: track.observed_at,
            track: track.title.clone(),
            artists: clone_texts(&track.artists),
            album: track.album.clone(),
            duration_ms: track.duration_ms,
            art_url,
            player: PublishedPlayer { key: player.key.clone(), identity: player.identity.clone() },
            verification,
        }
    }
}

impl Clone for NowPlayingMessage {
    fn clone(&self) -> (copy: Self)
        ensures
            copy@ == self@,
    {
        NowPlayingMessage {
            schema_version: self.schema_version,
            observed_at: self.observed_at,
            track: self.track.clone(),
            artists: clone_texts(&self.artists),
            album: self.album.clone(),
            duration_ms: self.duration_ms,
            art_url: self.art_url.clone(),
            player: self.player.clone(),
            verification: self.verification.clone(),
        }
    }
}

impl PartialEq for NowPlayingMessage {
    fn eq(&self, other: &Self) -> (same: bool) {
        self.schema_version == other.schema_version && self.observed_at == other.observed_at
            && self.track == other.track && same_texts(&self.artists, &other.artists) && self.album
            == other.album && self.duration_ms == other.duration_ms && same_opt_text(
            &self.art_url,
            &other.art_url,
        ) && self.player == other.player && self.verification == other.verification
    }
}

impl vstd::std_specs::cmp::PartialEqSpecImpl for NowPlayingMessage {
    open spec fn obeys_eq_spec() -> bool {
        true
    }

    open spec fn eq_spec(&self, other: &Self) -> bool {
        self@ == other@
    }
}

impl Eq for NowPlayingMessage {

}

/// No message ever points at a file of this machine, whatever the player reported.
pub proof fn law_local_artwork_stays_local(
    player: PlayerView,
    track: RawTrackView,
    verification: VerificationView,
)
    ensures
        match message_for(player, track, verification).art_url {
            Some(url) => !"file://"@.is_prefix_of(url),
            None => true,
        },
{
    reveal_strlit("file://");
    reveal_strlit("https://coverartarchive.org/release-group/");
    match verification.release_group_id {
        Some(id) => {
            let cover = cover_art(id);
            assert(cover[0] == 'h' && "file://"@[0] == 'f');
            if "file://"@.is_prefix_of(cover) {
                assert(cover.take("file://"@.len() as int)[0] == cover[0]);
            }
        },
        None => {},
    }
}

/// Artwork and the time of observation do not tell tracks apart: the same track reported again is
/// the same track.
pub proof fn law_identity_ignores_artwork_and_time(
    track: RawTrackView,
    art_url: Option<Seq<char>>,
    observed_at: Timestamp,
)
    ensures
        (RawTrackView { art_url, observed_at, ..track }).identity() == track.identity(),
{
}

/// Views show every field as it is.
pub proof fn law_views_show_every_field(
    track: RawTrack,
    identity: TrackIdentity,
    player: Player,
    verification: Verification,
    message: NowPlayingMessage,
)
    ensures
        track@.title == track.title@ && track@.album == track.album@ && track@.duration_ms
            == track.duration_ms && track@.observed_at == track.observed_at,
        track@.artists.len() == track.artists@.len(),
        forall|i: int|
            0 <= i < track.artists@.len() ==> #[trigger] track@.artists[i] == track.artists@[i]@,
        shows(track@.art_url, track.art_url),
        shows(track@.track_id, track.track_id),
        identity@.title == identity.title@ && identity@.album == identity.album@
            && identity@.duration_ms == identity.duration_ms,
        identity@.artists.len() == identity.artists@.len(),
        forall|i: int|
            0 <= i < identity.artists@.len() ==> #[trigger] identity@.artists[i]
                == identity.artists@[i]@,
        shows(identity@.track_id, identity.track_id),
        player@.key == player.key@ && player@.identity == player.identity@ && player@.bus_name
            == player.bus_name@ && player@.status == player.status,
        shows(player@.desktop_entry, player.desktop_entry),
        player.track is Some ==> player@.track == Some(player.track->0@),
        player.track is None ==> player@.track is None,
        verification@.status == verification.status && verification@.score == verification.score,
        shows(verification@.recording_id, verification.recording_id),
        shows(verification@.release_id, verification.release_id),
        shows(verification@.release_group_id, verification.release_group_id),
        message@.schema_version == message.schema_version && message@.observed_at
            == message.observed_at && message@.track == message.track@ && message@.album
            == message.album@ && message@.duration_ms == message.duration_ms,
        message@.artists.len() == message.artists@.len(),
        forall|i: int|
            0 <= i < message.artists@.len() ==> #[trigger] message@.artists[i]
                == message.artists@[i]@,
        shows(message@.art_url, message.art_url),
        message@.player.key == message.player.key@,
        message@.player.identity == message.player.identity@,
        message@.verification == message.verification@,
{
}

/// The contents of an optional text are those of the text.
pub open spec fn shows(view: Option<Seq<char>>, text: Option<String>) -> bool {
    match text {
        Some(text) => view == Some(text@),
        None => view is None,
    }
}

/// A message says what the player and the track are, and what was found out, each in its own place:
/// nothing is mixed up and nothing is left out. Its artwork is the player's own where that can be
/// reached from elsewhere, else the cover of the release group that was found, and else none.
pub proof fn law_message_says_what_is_playing(
    player: PlayerView,
    track: RawTrackView,
    verification: VerificationView,
)
    ensures
        ({
            let message = message_for(player, track, verification);
            let local = track.art_url is Some && track.art_url->0.len() >= 7
                && track.art_url->0.take(7) == "file://"@;
            &&& message.schema_version == 1
            &&& message.observed_at == track.observed_at
            &&& message.track == track.title
            &&& message.artists == track.artists
            &&& message.album == track.album
            &&& message.duration_ms == track.duration_ms
            &&& message.player.key == player.key
            &&& message.player.identity == player.identity
            &&& message.verification == verification
            &&& track.art_url is Some && !local ==> message.art_url == track.art_url
            &&& track.art_url is None || local ==> (message.art_url is Some <==>
                verification.release_group_id is Some)
            &&& (track.art_url is None || local) && verification.release_group_id is Some ==>
                message.art_url == Some(
                "https://coverartarchive.org/release-group/"@ + verification.release_group_id->0
                    + "/front"@,
            )
        }),
{
    reveal_strlit("file://");
    if let Some(url) = track.art_url {
        if "file://"@.is_prefix_of(url) {
            assert(url.take(7) =~= url.subrange(0, 7));
        } else if url.len() >= 7 {
            assert(url.take(7) =~= url.subrange(0, 7));
        }
    }
}

/// Two reports are of one track exactly when title, artists, album, duration and track identifier
/// agree.
pub proof fn law_identity_is_what_tells_tracks_apart(one: RawTrackView, other: RawTrackView)
    ensures
        one.identity() == other.identity() <==> one.title == other.title && one.artists
            == other.artists && one.album == other.album && one.duration_ms == other.duration_ms
            && one.track_id == other.track_id,
        one.is_publishable() <==> (exists|i: int|
            0 <= i < one.title.len() && !crate::text::is_white_space(#[trigger] one.title[i]))
            && one.artists.len() > 0,
{
    crate::text::law_blank_means_white_space(one.title);
}

/// A failed look-up has its status and nothing else, and each status has a word of its own.
pub proof fn law_failures_identify_nothing(one: VerificationStatus, other: VerificationStatus)
    ensures
        ({
            let failed = VerificationView::failed(one);
            &&& failed.status == one
            &&& failed.score is None
            &&& failed.recording_id is None
            &&& failed.release_id is None
            &&& failed.release_group_id is None
        }),
        one.label() == other.label() <==> one == other,
{
    reveal_strlit("pending");
    reveal_strlit("verified");
    reveal_strlit("not_found");
    reveal_strlit("ambiguous");
    reveal_strlit("unavailable");
    assert("not_found"@[0] != "ambiguous"@[0]);
    assert("pending"@.len() == 7 && "verified"@.len() == 8 && "not_found"@.len() == 9);
    assert("ambiguous"@.len() == 9 && "unavailable"@.len() == 11);
}

/// Contents are shown one by one: those of several players in their order, and those of what may be
/// there where it is.
pub proof fn law_contents_are_shown_one_by_one(
    players: Seq<Player>,
    player: Option<Player>,
    track: Option<RawTrack>,
    message: Option<NowPlayingMessage>,
    verification: Option<Verification>,
)
    ensures
        player_views(players).len() == players.len(),
        forall|i: int| 0 <= i < players.len() ==> #[trigger] player_views(players)[i] == players[i]@,
        player is Some ==> opt_player(player) == Some(player->0@),
        player is None ==> opt_player(player) is None,
        track is Some ==> opt_track(track) == Some(track->0@),
        track is None ==> opt_track(track) is None,
        message is Some ==> opt_message(message) == Some(message->0@),
        message is None ==> opt_message(message) is None,
        verification is Some ==> opt_verification(verification) == Some(verification->0@),
        verification is None ==> opt_verification(verification) is None,
{
}

} // verus!
