//! Which player is heard, and whether its track was already published.

use vstd::prelude::*;

use crate::domain::{PlaybackStatus, Player, TrackIdentity};
#[allow(unused_imports)]
use crate::domain::{player_views, PlayerView, RawTrackView, TrackIdentityView};
use crate::text::{
    alike_ignoring_case, strip_prefix, text_before, to_ascii_lower, trim_suffixes,
};
#[allow(unused_imports)]
use crate::text::{
    ascii_lowered, before, is_blank, opt_str, same_ignoring_case, texts, trimmed, without_suffixes,
};

verus! {

/// The key of a player: its desktop entry without the `.desktop` endings where it has one, and
/// else the first part of its bus name behind the common prefix; always in ASCII lower case.
pub open spec fn player_key(desktop_entry: Option<Seq<char>>, bus_name: Seq<char>) -> Seq<char> {
    match desktop_entry {
        Some(entry) if !is_blank(entry) => ascii_lowered(
            without_suffixes(trimmed(entry), ".desktop"@),
        ),
        _ => {
            let prefix = "org.mpris.MediaPlayer2."@;
            let name = if prefix.is_prefix_of(bus_name) {
                bus_name.skip(prefix.len() as int)
            } else {
                bus_name
            };
            ascii_lowered(before(name, '.'))
        },
    }
}

/// The key under which a player is configured, which survives restarts of the player.
pub fn derive_player_key(desktop_entry: Option<&str>, bus_name: &str) -> (key: String)
    ensures
        key@ == player_key(opt_str(desktop_entry), bus_name@),
{
    if let Some(entry) = desktop_entry {
        let entry = entry.trim();
        if !entry.is_empty() {
            return to_ascii_lower(trim_suffixes(entry, ".desktop").as_str());
        }
    }
    let head = match strip_prefix(bus_name, "org.mpris.MediaPlayer2.") {
        Some(rest) => text_before(rest.as_str(), '.'),
        None => text_before(bus_name, '.'),
    };
    to_ascii_lower(head.as_str())
}

/// The player goes by this key, is playing, and reports a track that can be published.
pub open spec fn is_eligible(player: PlayerView, key: Seq<char>) -> bool {
    &&& same_ignoring_case(player.key, key)
    &&& player.status == PlaybackStatus::Playing
    &&& player.track is Some
    &&& player.track->0.is_publishable()
}

/// The first eligible player for a key.
pub open spec fn first_eligible(players: Seq<PlayerView>, key: Seq<char>) -> Option<PlayerView>
    decreases players.len(),
{
    if players.len() == 0 {
        None
    } else if is_eligible(players[0], key) {
        Some(players[0])
    } else {
        first_eligible(players.drop_first(), key)
    }
}

/// The player that is heard: the first eligible one of the highest key in the allowlist that has
/// any.
pub open spec fn selection(
    players: Seq<PlayerView>,
    allowlist: Seq<Seq<char>>,
) -> Option<PlayerView>
    decreases allowlist.len(),
{
    if allowlist.len() == 0 {
        None
    } else {
        match first_eligible(players, allowlist[0]) {
            Some(player) => Some(player),
            None => selection(players, allowlist.drop_first()),
        }
    }
}

/// Whether a player is eligible for a key.
fn check_eligible(player: &Player, key: &str) -> (eligible: bool)
    ensures
        eligible == is_eligible(player@, key@),
{
    alike_ignoring_case(player.key.as_str(), key) && player.status == PlaybackStatus::Playing
        && match &player.track {
        Some(track) => track.is_publishable(),
        None => false,
    }
}

/// The first eligible player for a key.
fn find_eligible<'a>(players: &'a [Player], key: &str) -> (found: Option<&'a Player>)
    ensures
        found is Some == first_eligible(player_views(players@), key@) is Some,
        found is Some ==> found->0@ == first_eligible(player_views(players@), key@)->0,
{
    let ghost views = player_views(players@);
    assert(views.skip(0) == views);
    for i in 0..players.len()
        invariant
            views == player_views(players@),
            first_eligible(views.skip(i as int), key@) == first_eligible(views, key@),
    {
        let ghost rest = views.skip(i as int);
        assert(rest[0] == players@[i as int]@);
        assert(rest.drop_first() =~= views.skip(i as int + 1));
        if check_eligible(&players[i], key) {
            return Some(&players[i]);
        }
    }
    None
}

/// The player that is heard, by the order of the allowlist.
fn find_selected<'a>(players: &'a [Player], allowlist: &[String]) -> (selected: Option<
    &'a Player,
>)
    ensures
        selected is Some == selection(player_views(players@), texts(allowlist@)) is Some,
        selected is Some ==> selected->0@ == selection(
            player_views(players@),
            texts(allowlist@),
        )->0,
{
    let ghost views = player_views(players@);
    let ghost keys = texts(allowlist@);
    assert(keys.skip(0) == keys);
    for i in 0..allowlist.len()
        invariant
            views == player_views(players@),
            keys == texts(allowlist@),
            selection(views, keys.skip(i as int)) == selection(views, keys),
    {
        let ghost rest = keys.skip(i as int);
        assert(rest[0] == allowlist@[i as int]@);
        assert(rest.drop_first() =~= keys.skip(i as int + 1));
        if let Some(player) = find_eligible(players, allowlist[i].as_str()) {
            return Some(player);
        }
    }
    None
}

/// The player that is heard, by the order of the allowlist: one that is playing, goes by an entry
/// of the allowlist but for the case of its ASCII letters, and reports a track that has a title and
/// an artist. Nobody is heard only where no player is like this.
pub fn select_player<'a>(players: &'a [Player], allowlist: &[String]) -> (selected: Option<
    &'a Player,
>)
    ensures
        selected is Some == selection(player_views(players@), texts(allowlist@)) is Some,
        selected is Some ==> selected->0@ == selection(
            player_views(players@),
            texts(allowlist@),
        )->0,
        match selected {
            Some(player) => {
                &&& exists|i: int| 0 <= i < players@.len() && #[trigger] players@[i]@ == player@
                &&& player.status == PlaybackStatus::Playing
                &&& exists|k: int|
                    0 <= k < allowlist@.len() && goes_by(player.key@, #[trigger] allowlist@[k]@)
                &&& player.track is Some
                &&& has_substance(player.track->0.title@)
                &&& player.track->0.artists@.len() > 0
            },
            None => forall|i: int, k: int|
                0 <= i < players@.len() && 0 <= k < allowlist@.len() ==> !((
                #[trigger] players@[i]).status == PlaybackStatus::Playing && goes_by(
                    players@[i].key@,
                    (#[trigger] allowlist@[k])@,
                ) && players@[i].track is Some && has_substance(players@[i].track->0.title@)
                    && players@[i].track->0.artists@.len() > 0),
        },
{
    let selected = find_selected(players, allowlist);
    proof {
        let views = player_views(players@);
        let keys = texts(allowlist@);
        law_selected_players_are_playing(views, keys);
        match selected {
            Some(player) => {
                let i = choose|i: int| 0 <= i < views.len() && views[i] == player@;
                assert(players@[i]@ == player@);
                let k = choose|k: int| 0 <= k < keys.len() && goes_by(
                    player@.key,
                    #[trigger] keys[k],
                );
                assert(goes_by(player.key@, allowlist@[k]@));
                assert(texts(player.track->0.artists@).len() == player.track->0.artists@.len());
            },
            None => {
                assert forall|i: int, k: int|
                    0 <= i < players@.len() && 0 <= k < allowlist@.len() implies !((
                #[trigger] players@[i]).status == PlaybackStatus::Playing && goes_by(
                    players@[i].key@,
                    (#[trigger] allowlist@[k])@,
                ) && players@[i].track is Some && has_substance(players@[i].track->0.title@)
                    && players@[i].track->0.artists@.len() > 0) by {
                    assert(views[i] == players@[i]@);
                    assert(keys[k] == allowlist@[k]@);
                }
            },
        }
    }
    selected
}

/// Remembers what was last handed to an output.
#[derive(Debug)]
pub struct PublicationGate {
    last_published: Option<(String, TrackIdentity)>,
}

impl View for PublicationGate {
    type V = Option<(Seq<char>, TrackIdentityView)>;

    closed spec fn view(&self) -> Option<(Seq<char>, TrackIdentityView)> {
        match self.last_published {
            Some(last) => Some((last.0@, last.1@)),
            None => None,
        }
    }
}

/// A player and its track, as a gate remembers them.
pub open spec fn publication(player: PlayerView, track: RawTrackView) -> (
    Seq<char>,
    TrackIdentityView,
) {
    (player.key, track.identity())
}

/// A gate is open to a player that has a track, unless this very track of it went last.
pub open spec fn gate_open(
    gate: Option<(Seq<char>, TrackIdentityView)>,
    player: PlayerView,
) -> bool {
    player.track is Some && gate != Some(publication(player, player.track->0))
}

/// What a gate remembers once the track of a player went through.
pub open spec fn gate_after(
    gate: Option<(Seq<char>, TrackIdentityView)>,
    player: PlayerView,
) -> Option<(Seq<char>, TrackIdentityView)> {
    match player.track {
        Some(track) => Some(publication(player, track)),
        None => gate,
    }
}

impl Default for PublicationGate {
    fn default() -> (gate: Self)
        ensures
            gate@ == None::<(Seq<char>, TrackIdentityView)>,
    {
        PublicationGate { last_published: None }
    }
}

impl PublicationGate {
    /// Whether the track of a player is still to be published.
    pub fn should_publish(&self, player: &Player) -> (open: bool)
        ensures
            open == gate_open(self@, player@),
    {
        match &player.track {
            None => false,
            Some(track) => match &self.last_published {
                None => true,
                Some(last) => !(last.0 == player.key && last.1 == track.identity()),
            },
        }
    }

    /// Remembers the track of a player as published.
    pub fn mark_published(&mut self, player: &Player)
        ensures
            final(self)@ == gate_after(old(self)@, player@),
    {
        if let Some(track) = &player.track {
            self.last_published = Some((player.key.clone(), track.identity()));
        }
    }

    /// Idle is not published, but it clears what was remembered, so that a resume is published
    /// again.
    pub fn observe_idle(&mut self)
        ensures
            final(self)@ == None::<(Seq<char>, TrackIdentityView)>,
    {
        self.last_published = None;
    }
}

/// Whoever is found for a key is eligible for it and one of the players.
proof fn lemma_first_eligible(players: Seq<PlayerView>, key: Seq<char>)
    ensures
        match first_eligible(players, key) {
            Some(player) => players.contains(player) && is_eligible(player, key),
            None => forall|i: int| 0 <= i < players.len() ==> !is_eligible(#[trigger] players[i], key),
        },
    decreases players.len(),
{
    if players.len() > 0 {
        let rest = players.drop_first();
        lemma_first_eligible(rest, key);
        if is_eligible(players[0], key) {
            assert(players.contains(players[0]));
        } else {
            match first_eligible(rest, key) {
                Some(player) => {
                    let i = choose|i: int| 0 <= i < rest.len() && rest[i] == player;
                    assert(players[i + 1] == player);
                },
                None => {
                    assert forall|i: int| 0 <= i < players.len() implies !is_eligible(
                        #[trigger] players[i],
                        key,
                    ) by {
                        if i > 0 {
                            assert(rest[i - 1] == players[i]);
                        }
                    }
                },
            }
        }
    }
}

/// A selected player is one of the players, is eligible for a key of the allowlist, and no key
/// above that one has an eligible player. When nobody is selected, nobody is eligible for any key.
pub proof fn law_selection_follows_the_allowlist(
    players: Seq<PlayerView>,
    allowlist: Seq<Seq<char>>,
)
    ensures
        match selection(players, allowlist) {
            Some(player) => players.contains(player) && exists|k: int|
                0 <= k < allowlist.len() && is_eligible(player, #[trigger] allowlist[k]) && forall|
                    j: int,
                    i: int,
                |
                    0 <= j < k && 0 <= i < players.len() ==> !is_eligible(
                        #[trigger] players[i],
                        #[trigger] allowlist[j],
                    ),
            None => forall|j: int, i: int|
                0 <= j < allowlist.len() && 0 <= i < players.len() ==> !is_eligible(
                    #[trigger] players[i],
                    #[trigger] allowlist[j],
                ),
        },
    decreases allowlist.len(),
{
    if allowlist.len() > 0 {
        let rest = allowlist.drop_first();
        lemma_first_eligible(players, allowlist[0]);
        law_selection_follows_the_allowlist(players, rest);
        match first_eligible(players, allowlist[0]) {
            Some(player) => {
                assert(is_eligible(player, allowlist[0]));
            },
            None => {
                assert forall|j: int, i: int|
                    0 <= j < allowlist.len() && 0 <= i < players.len() && (selection(players, rest)
                        is None || j == 0) implies !is_eligible(
                    #[trigger] players[i],
                    #[trigger] allowlist[j],
                ) by {
                    if j > 0 {
                        assert(rest[j - 1] == allowlist[j]);
                    }
                }
                if let Some(player) = selection(players, rest) {
                    let k = choose|k: int|
                        0 <= k < rest.len() && is_eligible(player, #[trigger] rest[k]) && forall|
                            j: int,
                            i: int,
                        |
                            0 <= j < k && 0 <= i < players.len() ==> !is_eligible(
                                #[trigger] players[i],
                                #[trigger] rest[j],
                            );
                    assert(allowlist[k + 1] == rest[k]);
                    assert forall|j: int, i: int|
                        0 <= j < k + 1 && 0 <= i < players.len() implies !is_eligible(
                        #[trigger] players[i],
                        #[trigger] allowlist[j],
                    ) by {
                        if j > 0 {
                            assert(rest[j - 1] == allowlist[j]);
                        }
                    }
                }
            },
        }
    }
}

/// Nobody is heard without being allowed.
pub proof fn law_empty_allowlist_selects_nobody(players: Seq<PlayerView>)
    ensures
        selection(players, Seq::empty()) is None,
{
}

/// A track goes through a gate once: after it was marked it is held back, and after an idle phase
/// it goes through again.
pub proof fn law_gate_deduplicates_until_idle(
    gate: Option<(Seq<char>, TrackIdentityView)>,
    player: PlayerView,
)
    requires
        player.track is Some,
    ensures
        !gate_open(gate_after(gate, player), player),
        gate_open(None, player),
{
}

/// Whoever is selected is playing, goes by an entry of the allowlist but for the case of its ASCII
/// letters, and reports a track whose title is not blank and that has an artist; a player that is
/// paused, stopped or in an unknown state is never selected. And whenever some player is like this,
/// somebody is selected.
pub proof fn law_selected_players_are_playing(players: Seq<PlayerView>, allowlist: Seq<Seq<char>>)
    ensures
        match selection(players, allowlist) {
            Some(player) => {
                &&& players.contains(player)
                &&& player.status == PlaybackStatus::Playing
                &&& player.status != PlaybackStatus::Paused && player.status
                    != PlaybackStatus::Stopped && player.status != PlaybackStatus::Unknown
                &&& exists|k: int|
                    0 <= k < allowlist.len() && goes_by(player.key, #[trigger] allowlist[k])
                &&& player.track is Some
                &&& has_substance(player.track->0.title)
                &&& player.track->0.artists.len() > 0
            },
            None => forall|i: int, k: int|
                0 <= i < players.len() && 0 <= k < allowlist.len() ==> !((
                #[trigger] players[i]).status == PlaybackStatus::Playing && goes_by(
                    players[i].key,
                    #[trigger] allowlist[k],
                ) && players[i].track is Some && has_substance(players[i].track->0.title)
                    && players[i].track->0.artists.len() > 0),
        },
{
    law_selection_follows_the_allowlist(players, allowlist);
    match selection(players, allowlist) {
        Some(player) => {
            let k = choose|k: int|
                0 <= k < allowlist.len() && is_eligible(player, #[trigger] allowlist[k]);
            crate::text::law_likeness_is_letter_by_letter(player.key, allowlist[k]);
            crate::text::law_blank_means_white_space(player.track->0.title);
            assert(goes_by(player.key, allowlist[k]));
        },
        None => {
            assert forall|i: int, k: int|
                0 <= i < players.len() && 0 <= k < allowlist.len() implies !((
            #[trigger] players[i]).status == PlaybackStatus::Playing && goes_by(
                players[i].key,
                #[trigger] allowlist[k],
            ) && players[i].track is Some && has_substance(players[i].track->0.title)
                && players[i].track->0.artists.len() > 0) by {
                crate::text::law_likeness_is_letter_by_letter(players[i].key, allowlist[k]);
                if players[i].track is Some {
                    crate::text::law_blank_means_white_space(players[i].track->0.title);
                }
                assert(!is_eligible(players[i], allowlist[k]));
            }
        },
    }
}

/// A key agrees with an entry letter by letter, but for the case of the letters from A to Z.
pub open spec fn goes_by(key: Seq<char>, entry: Seq<char>) -> bool {
    key.len() == entry.len() && forall|i: int|
        0 <= i < key.len() ==> crate::text::same_letter(#[trigger] key[i], entry[i])
}

/// A text has a character that is no white space.
pub open spec fn has_substance(text: Seq<char>) -> bool {
    exists|i: int| 0 <= i < text.len() && !crate::text::is_white_space(#[trigger] text[i])
}

/// The entry that comes first in the allowlist decides, whatever the order of the players: of two
/// players that could both be heard, each by one entry alone, the one with the earlier entry is
/// never passed over for the other.
pub proof fn law_the_earlier_entry_wins(
    players: Seq<PlayerView>,
    allowlist: Seq<Seq<char>>,
    better: int,
    entry: int,
)
    requires
        0 <= better < players.len(),
        0 <= entry < allowlist.len(),
        players[better].status == PlaybackStatus::Playing,
        goes_by(players[better].key, allowlist[entry]),
        players[better].track is Some,
        has_substance(players[better].track->0.title),
        players[better].track->0.artists.len() > 0,
    ensures
        selection(players, allowlist) is Some,
        exists|k: int|
            0 <= k <= entry && goes_by(
                selection(players, allowlist)->0.key,
                #[trigger] allowlist[k],
            ),
{
    law_selection_follows_the_allowlist(players, allowlist);
    crate::text::law_likeness_is_letter_by_letter(players[better].key, allowlist[entry]);
    crate::text::law_blank_means_white_space(players[better].track->0.title);
    assert(is_eligible(players[better], allowlist[entry]));
    let player = selection(players, allowlist)->0;
    let k = choose|k: int|
        0 <= k < allowlist.len() && is_eligible(player, #[trigger] allowlist[k]) && forall|
            j: int,
            i: int,
        |
            0 <= j < k && 0 <= i < players.len() ==> !is_eligible(
                #[trigger] players[i],
                #[trigger] allowlist[j],
            );
    if entry < k {
        assert(!is_eligible(players[better], allowlist[entry]));
    }
    crate::text::law_likeness_is_letter_by_letter(player.key, allowlist[k]);
}

/// A gate holds back exactly what went last: the same key with the same title, artists, album,
/// duration and track identifier. Whatever differs in one of these goes through, and a player
/// without a track never does.
pub proof fn law_gate_holds_back_exactly_the_last_track(
    gate: Option<(Seq<char>, TrackIdentityView)>,
    last: PlayerView,
    next: PlayerView,
)
    requires
        last.track is Some,
    ensures
        gate_open(gate_after(gate, last), next) <==> next.track is Some && !(next.key == last.key
            && next.track->0.title == last.track->0.title && next.track->0.artists
            == last.track->0.artists && next.track->0.album == last.track->0.album
            && next.track->0.duration_ms == last.track->0.duration_ms && next.track->0.track_id
            == last.track->0.track_id),
        gate_open(None, next) <==> next.track is Some,
        next.track is None ==> gate_after(gate, next) == gate,
{
}

/// A player's own name for itself makes its key: without the white space around it, without the
/// ending of its kind of file, and in lower case; a blank one counts as none.
pub proof fn law_desktop_entries_make_keys(
    entry: Seq<char>,
    front: Seq<char>,
    back: Seq<char>,
    bus_name: Seq<char>,
)
    requires
        entry.len() > 0,
        !crate::text::is_white_space(entry[0]),
        !crate::text::is_white_space(entry.last()),
        forall|i: int| 0 <= i < front.len() ==> crate::text::is_white_space(#[trigger] front[i]),
        forall|i: int| 0 <= i < back.len() ==> crate::text::is_white_space(#[trigger] back[i]),
    ensures
        player_key(Some(front + entry + back), bus_name) == player_key(Some(entry), bus_name),
        player_key(Some(entry + ".desktop"@), bus_name) == player_key(Some(entry), bus_name),
        !(entry.len() >= 8 && entry.skip(entry.len() - 8) == ".desktop"@) ==> goes_by(
            player_key(Some(entry), bus_name),
            entry,
        ),
        forall|i: int|
            0 <= i < player_key(Some(entry), bus_name).len() ==> !('A' <= #[trigger] player_key(
                Some(entry),
                bus_name,
            )[i] <= 'Z'),
        player_key(Some(front), bus_name) == player_key(None, bus_name),
{
    reveal_strlit(".desktop");
    let suffix = ".desktop"@;
    lemma_trimmed_of(front, entry, back);
    lemma_trimmed_of(Seq::empty(), entry, Seq::empty());
    assert(Seq::<char>::empty() + entry + Seq::<char>::empty() =~= entry);
    let named = entry + suffix;
    assert(named.last() == 'p' && named[0] == entry[0]);
    lemma_trimmed_of(Seq::empty(), named, Seq::empty());
    assert(Seq::<char>::empty() + named + Seq::<char>::empty() =~= named);
    crate::text::law_suffixes_are_taken_away(entry, suffix);
    crate::text::law_lower_case_has_no_capitals(entry);
    crate::text::law_lower_case_has_no_capitals(without_suffixes(entry, suffix));
    crate::text::law_blank_means_white_space(front);
}

proof fn lemma_trimmed_of(front: Seq<char>, s: Seq<char>, back: Seq<char>)
    requires
        s.len() > 0,
        !crate::text::is_white_space(s[0]),
        !crate::text::is_white_space(s.last()),
        forall|i: int| 0 <= i < front.len() ==> crate::text::is_white_space(#[trigger] front[i]),
        forall|i: int| 0 <= i < back.len() ==> crate::text::is_white_space(#[trigger] back[i]),
    ensures
        trimmed(front + s + back) == s,
    decreases front.len() + back.len(),
{
    let whole = front + s + back;
    if front.len() > 0 {
        let less = front.drop_first();
        assert forall|i: int| 0 <= i < less.len() implies crate::text::is_white_space(
            #[trigger] less[i],
        ) by {
            assert(less[i] == front[i + 1]);
        }
        lemma_trimmed_of(less, s, back);
        assert(whole[0] == front[0]);
        assert(whole.drop_first() =~= less + s + back);
    } else if back.len() > 0 {
        let less = back.drop_last();
        assert forall|i: int| 0 <= i < less.len() implies crate::text::is_white_space(
            #[trigger] less[i],
        ) by {
            assert(less[i] == back[i]);
        }
        lemma_trimmed_of(front, s, less);
        assert(whole[0] == s[0]);
        assert((front + s + less)[0] == s[0]);
        assert(whole.last() == back.last());
        assert(whole.drop_last() =~= front + s + less);
    } else {
        assert(whole =~= s);
    }
}

/// Without a name of its own a player goes by its bus name: without the prefix that all players
/// share, and without what tells its instances apart.
pub proof fn law_bus_names_make_keys(name: Seq<char>, instance: Seq<char>)
    requires
        !name.contains('.'),
    ensures
        ({
            let prefix = "org.mpris.MediaPlayer2."@;
            &&& player_key(None, prefix + name) == ascii_lowered(name)
            &&& player_key(None, prefix + name + seq!['.'] + instance) == ascii_lowered(name)
            &&& goes_by(player_key(None, prefix + name), name)
        }),
{
    let prefix = "org.mpris.MediaPlayer2."@;
    let short = prefix + name;
    let long = prefix + name + seq!['.'] + instance;
    assert(short.subrange(0, prefix.len() as int) =~= prefix);
    assert(long.subrange(0, prefix.len() as int) =~= prefix);
    let rest = seq!['.'] + instance;
    assert(short.skip(prefix.len() as int) =~= name);
    assert(long.skip(prefix.len() as int) =~= name + rest);
    lemma_before(name, rest);
    lemma_before(name, Seq::empty());
    assert(name + Seq::<char>::empty() =~= name);
    crate::text::law_lower_case_has_no_capitals(name);
}

proof fn lemma_before(name: Seq<char>, rest: Seq<char>)
    requires
        !name.contains('.'),
        rest.len() == 0 || rest[0] == '.',
    ensures
        before(name + rest, '.') == name,
    decreases name.len(),
{
    if name.len() > 0 {
        let less = name.drop_first();
        if less.contains('.') {
            let i = choose|i: int| 0 <= i < less.len() && less[i] == '.';
            assert(name[i + 1] == '.');
        }
        assert(name.contains(name[0]));
        lemma_before(less, rest);
        assert((name + rest).drop_first() =~= less + rest);
        assert(seq![name[0]] + less =~= name);
    } else {
        assert(name + rest =~= rest);
        assert(before(rest, '.') =~= name);
    }
}

} // verus!
