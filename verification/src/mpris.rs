//! What a media player of the desktop reports, and what is made of it.

use vstd::prelude::*;

use crate::domain::{PlaybackStatus, Player, RawTrack, Timestamp};
use crate::selection::derive_player_key;
use crate::text::{begins_with, comes_before, same_text, trim_prefixes};

verus! {

/// What the bus names of media players begin with.
pub const PREFIX: &'static str = "org.mpris.MediaPlayer2.";

/// Where a media player is found on its bus name.
pub const PATH: &'static str = "/org/mpris/MediaPlayer2";

/// A value in the metadata of a track, as far as the form of it matters here.
#[derive(Debug)]
pub enum MetadataValue {
    Text(String),
    Texts(Vec<String>),
    Unsigned(u64),
    Signed(i64),
    Path(String),
    Other,
}

/// The contents of a [`MetadataValue`].
pub ghost enum MetadataValueView {
    Text(Seq<char>),
    Texts(Seq<Seq<char>>),
    Unsigned(u64),
    Signed(i64),
    Path(Seq<char>),
    Other,
}

impl View for MetadataValue {
    type V = MetadataValueView;

    open spec fn view(&self) -> MetadataValueView {
        match self {
            MetadataValue::Text(text) => MetadataValueView::Text(text@),
            MetadataValue::Texts(parts) => MetadataValueView::Texts(crate::text::texts(parts@)),
            MetadataValue::Unsigned(number) => MetadataValueView::Unsigned(*number),
            MetadataValue::Signed(number) => MetadataValueView::Signed(*number),
            MetadataValue::Path(path) => MetadataValueView::Path(path@),
            MetadataValue::Other => MetadataValueView::Other,
        }
    }
}

/// Metadata: names and values.
pub type MetadataView = Seq<(Seq<char>, MetadataValueView)>;

/// The contents of metadata.
pub open spec fn metadata_view(metadata: Seq<(String, MetadataValue)>) -> Seq<
    (Seq<char>, MetadataValueView),
> {
    metadata.map_values(|entry: (String, MetadataValue)| (entry.0@, entry.1@))
}

/// The value of the first entry with this name.
pub open spec fn value_of(metadata: MetadataView, name: Seq<char>) -> Option<MetadataValueView>
    decreases metadata.len(),
{
    if metadata.len() == 0 {
        None
    } else if metadata[0].0 == name {
        Some(metadata[0].1)
    } else {
        value_of(metadata.skip(1), name)
    }
}

/// The text under a name, if there is a text.
pub open spec fn text_under(metadata: MetadataView, name: Seq<char>) -> Option<Seq<char>> {
    match value_of(metadata, name) {
        Some(MetadataValueView::Text(text)) => Some(text),
        _ => None,
    }
}

/// The parts that are not blank.
pub open spec fn not_blank(parts: Seq<Seq<char>>) -> Seq<Seq<char>>
    decreases parts.len(),
{
    if parts.len() == 0 {
        parts
    } else if crate::text::is_blank(parts.last()) {
        not_blank(parts.drop_last())
    } else {
        not_blank(parts.drop_last()).push(parts.last())
    }
}

/// The texts under a name that are not blank.
pub open spec fn texts_under(metadata: MetadataView, name: Seq<char>) -> Seq<Seq<char>> {
    match value_of(metadata, name) {
        Some(MetadataValueView::Texts(parts)) => not_blank(parts),
        _ => Seq::empty(),
    }
}

/// The path under a name, if there is a path.
pub open spec fn path_under(metadata: MetadataView, name: Seq<char>) -> Option<Seq<char>> {
    match value_of(metadata, name) {
        Some(MetadataValueView::Path(path)) => Some(path),
        _ => None,
    }
}

/// The duration in milliseconds. It is given in microseconds, as an unsigned number or as a signed
/// one that is not negative.
pub open spec fn duration_under(metadata: MetadataView) -> Option<u64> {
    match value_of(metadata, "mpris:length"@) {
        Some(MetadataValueView::Unsigned(microseconds)) => Some((microseconds / 1000) as u64),
        Some(MetadataValueView::Signed(microseconds)) => if microseconds >= 0 {
            Some((microseconds / 1000) as u64)
        } else {
            None
        },
        _ => None,
    }
}

/// The track that metadata describe: none without a title and without artists.
pub open spec fn track_in(metadata: MetadataView, observed_at: Timestamp) -> Option<
    crate::domain::RawTrackView,
> {
    let title = crate::text::or_empty(text_under(metadata, "xesam:title"@));
    let artists = texts_under(metadata, "xesam:artist"@);
    if title.len() == 0 && artists.len() == 0 {
        None
    } else {
        Some(
            crate::domain::RawTrackView {
                title,
                artists,
                album: crate::text::or_empty(text_under(metadata, "xesam:album"@)),
                duration_ms: duration_under(metadata),
                art_url: text_under(metadata, "mpris:artUrl"@),
                track_id: path_under(metadata, "mpris:trackid"@),
                observed_at,
            },
        )
    }
}

/// The value of the first entry with this name.
pub fn get_value<'a>(metadata: &'a Vec<(String, MetadataValue)>, key: &str) -> (value: Option<
    &'a MetadataValue,
>)
    ensures
        match value {
            Some(value) => value_of(metadata_view(metadata@), key@) == Some(value@),
            None => value_of(metadata_view(metadata@), key@) is None,
        },
{
    let ghost all = metadata_view(metadata@);
    assert(all.skip(0) =~= all);
    for i in 0..metadata.len()
        invariant
            all == metadata_view(metadata@),
            value_of(all, key@) == value_of(all.skip(i as int), key@),
    {
        assert(all.skip(i as int)[0] == (metadata@[i as int].0@, metadata@[i as int].1@));
        assert(all.skip(i as int).skip(1) =~= all.skip(i as int + 1));
        if same_text(metadata[i].0.as_str(), key) {
            return Some(&metadata[i].1);
        }
    }
    None
}

/// The text under a name, if there is a text.
pub fn get_str(metadata: &Vec<(String, MetadataValue)>, key: &str) -> (text: Option<String>)
    ensures
        crate::text::opt_text(text) == text_under(metadata_view(metadata@), key@),
{
    match get_value(metadata, key) {
        Some(MetadataValue::Text(text)) => Some(text.clone()),
        _ => None,
    }
}

/// The texts under a name that are not blank.
pub fn get_strings(metadata: &Vec<(String, MetadataValue)>, key: &str) -> (parts: Vec<String>)
    ensures
        crate::text::texts(parts@) == texts_under(metadata_view(metadata@), key@),
{
    let mut parts: Vec<String> = Vec::new();
    if let Some(MetadataValue::Texts(found)) = get_value(metadata, key) {
        let ghost all = crate::text::texts(found@);
        assert(crate::text::texts(parts@) =~= not_blank(all.take(0)));
        for i in 0..found.len()
            invariant
                all == crate::text::texts(found@),
                crate::text::texts(parts@) == not_blank(all.take(i as int)),
        {
            let ghost so_far = parts@;
            assert(all.take(i as int + 1).drop_last() =~= all.take(i as int));
            assert(all.take(i as int + 1).last() == found@[i as int]@);
            if !found[i].as_str().trim().is_empty() {
                parts.push(found[i].clone());
                assert(crate::text::texts(parts@) =~= crate::text::texts(so_far).push(
                    found@[i as int]@,
                ));
            }
        }
        assert(all.take(all.len() as int) =~= all);
    }
    assert(value_of(metadata_view(metadata@), key@) is None ==> crate::text::texts(parts@)
        =~= Seq::empty());
    assert(!(value_of(metadata_view(metadata@), key@)->0 is Texts) ==> crate::text::texts(parts@)
        =~= Seq::empty());
    parts
}

/// The duration in milliseconds.
pub fn get_duration_ms(metadata: &Vec<(String, MetadataValue)>) -> (duration: Option<u64>)
    ensures
        duration == duration_under(metadata_view(metadata@)),
{
    match get_value(metadata, "mpris:length") {
        Some(MetadataValue::Unsigned(microseconds)) => Some(*microseconds / 1000),
        Some(MetadataValue::Signed(microseconds)) => if *microseconds >= 0 {
            Some(*microseconds as u64 / 1000)
        } else {
            None
        },
        _ => None,
    }
}

/// The path under a name, if there is a path.
pub fn get_object_path(metadata: &Vec<(String, MetadataValue)>, key: &str) -> (path: Option<String>)
    ensures
        crate::text::opt_text(path) == path_under(metadata_view(metadata@), key@),
{
    match get_value(metadata, key) {
        Some(MetadataValue::Path(path)) => Some(path.clone()),
        _ => None,
    }
}

/// The track that metadata describe.
pub fn parse_metadata(metadata: &Vec<(String, MetadataValue)>, observed_at: Timestamp) -> (track:
    Option<RawTrack>)
    ensures
        crate::domain::opt_track(track) == track_in(metadata_view(metadata@), observed_at),
{
    let title = match get_str(metadata, "xesam:title") {
        Some(title) => title,
        None => String::new(),
    };
    let artists = get_strings(metadata, "xesam:artist");
    assert(crate::text::texts(artists@).len() == artists@.len());
    assert(title@ =~= crate::text::or_empty(text_under(metadata_view(metadata@), "xesam:title"@)));
    if title.as_str().is_empty() && artists.len() == 0 {
        return None;
    }
    let album = match get_str(metadata, "xesam:album") {
        Some(album) => album,
        None => String::new(),
    };
    assert(album@ =~= crate::text::or_empty(text_under(metadata_view(metadata@), "xesam:album"@)));
    Some(
        RawTrack {
            title,
            artists,
            album,
            duration_ms: get_duration_ms(metadata),
            art_url: get_str(metadata, "mpris:artUrl"),
            track_id: get_object_path(metadata, "mpris:trackid"),
            observed_at,
        },
    )
}

/// What was read of a player. What could not be read is absent.
#[derive(Debug)]
pub struct PlayerReading {
    pub bus_name: String,
    pub identity: Option<String>,
    pub desktop_entry: Option<String>,
    pub status: Option<String>,
    pub metadata: Vec<(String, MetadataValue)>,
}

/// The status that a player calls itself.
pub open spec fn status_called(status: Option<Seq<char>>) -> PlaybackStatus {
    if status == Some("Playing"@) {
        PlaybackStatus::Playing
    } else if status == Some("Paused"@) {
        PlaybackStatus::Paused
    } else if status == Some("Stopped"@) {
        PlaybackStatus::Stopped
    } else {
        PlaybackStatus::Unknown
    }
}

/// The status that a player calls itself.
pub fn parse_status(status: &Option<String>) -> (parsed: PlaybackStatus)
    ensures
        parsed == status_called(crate::text::opt_text(*status)),
{
    match status {
        Some(name) => if same_text(name.as_str(), "Playing") {
            PlaybackStatus::Playing
        } else if same_text(name.as_str(), "Paused") {
            PlaybackStatus::Paused
        } else if same_text(name.as_str(), "Stopped") {
            PlaybackStatus::Stopped
        } else {
            PlaybackStatus::Unknown
        },
        None => PlaybackStatus::Unknown,
    }
}

/// The player that a reading describes. Without a name of its own it goes by its bus name.
pub open spec fn player_in(reading: PlayerReading, observed_at: Timestamp) -> crate::domain::PlayerView {
    crate::domain::PlayerView {
        key: crate::selection::player_key(
            crate::text::opt_text(reading.desktop_entry),
            reading.bus_name@,
        ),
        identity: match reading.identity {
            Some(identity) => identity@,
            None => crate::text::without_prefixes(reading.bus_name@, PREFIX@),
        },
        bus_name: reading.bus_name@,
        desktop_entry: crate::text::opt_text(reading.desktop_entry),
        status: status_called(crate::text::opt_text(reading.status)),
        track: track_in(metadata_view(reading.metadata@), observed_at),
    }
}

/// The player that a reading describes.
pub fn read_player(reading: &PlayerReading, observed_at: Timestamp) -> (player: Player)
    ensures
        player@ == player_in(*reading, observed_at),
{
    let identity = match &reading.identity {
        Some(identity) => identity.clone(),
        None => trim_prefixes(reading.bus_name.as_str(), PREFIX),
    };
    let desktop_entry = match &reading.desktop_entry {
        Some(entry) => Some(entry.as_str()),
        None => None,
    };
    Player {
        key: derive_player_key(desktop_entry, reading.bus_name.as_str()),
        identity,
        bus_name: reading.bus_name.clone(),
        desktop_entry: reading.desktop_entry.clone(),
        status: parse_status(&reading.status),
        track: parse_metadata(&reading.metadata, observed_at),
    }
}

/// The bus name of a media player.
pub open spec fn names_player(name: Seq<char>) -> bool {
    PREFIX@.is_prefix_of(name)
}

/// Whether this is the bus name of a media player.
pub fn is_player_name(name: &str) -> (found: bool)
    ensures
        found == names_player(name@),
{
    begins_with(name, PREFIX)
}

/// Players in the order of their keys, with one more, behind those with its key.
pub open spec fn inserted(
    sorted: Seq<crate::domain::PlayerView>,
    player: crate::domain::PlayerView,
) -> Seq<crate::domain::PlayerView>
    decreases sorted.len(),
{
    if sorted.len() == 0 || !crate::text::text_less(player.key, sorted.last().key) {
        sorted.push(player)
    } else {
        inserted(sorted.drop_last(), player).push(sorted.last())
    }
}

/// Players in the order of their keys; those with one key stay in the order in which they came.
pub open spec fn by_key(players: Seq<crate::domain::PlayerView>) -> Seq<crate::domain::PlayerView>
    decreases players.len(),
{
    if players.len() == 0 {
        players
    } else {
        inserted(by_key(players.drop_last()), players.last())
    }
}

/// Keys never fall.
pub open spec fn keys_never_fall(players: Seq<crate::domain::PlayerView>) -> bool {
    forall|i: int, j: int|
        0 <= i < j < players.len() ==> !crate::text::text_less(
            (#[trigger] players[j]).key,
            (#[trigger] players[i]).key,
        )
}

proof fn lemma_inserted(
    sorted: Seq<crate::domain::PlayerView>,
    player: crate::domain::PlayerView,
)
    requires
        keys_never_fall(sorted),
    ensures
        keys_never_fall(inserted(sorted, player)),
        inserted(sorted, player).to_multiset() == sorted.to_multiset().insert(player),
    decreases sorted.len(),
{
    broadcast use vstd::seq_lib::group_to_multiset_ensures;

    let result = inserted(sorted, player);
    if sorted.len() == 0 {
        assert(result =~= seq![player]);
    } else {
        let last = sorted.last();
        crate::text::lemma_text_order_total(player.key, last.key);
        if !crate::text::text_less(player.key, last.key) {
            assert forall|i: int, j: int|
                0 <= i < j < result.len() implies !crate::text::text_less(
                (#[trigger] result[j]).key,
                (#[trigger] result[i]).key,
            ) by {
                if j == sorted.len() {
                    if i < sorted.len() - 1 {
                        assert(!crate::text::text_less(
                            sorted[sorted.len() - 1].key,
                            sorted[i].key,
                        ));
                    }
                    crate::text::lemma_text_order_total(sorted[i].key, last.key);
                    crate::text::lemma_text_order_total(sorted[i].key, player.key);
                    if crate::text::text_less(player.key, sorted[i].key) {
                        if sorted[i].key != last.key {
                            crate::text::lemma_text_order_transitive(
                                player.key,
                                sorted[i].key,
                                last.key,
                            );
                        }
                    }
                } else {
                    assert(result[i] == sorted[i] && result[j] == sorted[j]);
                }
            }
        } else {
            let front = sorted.drop_last();
            assert forall|i: int, j: int|
                0 <= i < j < front.len() implies !crate::text::text_less(
                (#[trigger] front[j]).key,
                (#[trigger] front[i]).key,
            ) by {
                assert(front[i] == sorted[i] && front[j] == sorted[j]);
            }
            lemma_inserted(front, player);
            let inner = inserted(front, player);
            assert(sorted =~= front.push(last));
            assert forall|i: int, j: int|
                0 <= i < j < result.len() implies !crate::text::text_less(
                (#[trigger] result[j]).key,
                (#[trigger] result[i]).key,
            ) by {
                assert(result[i] == inner[i]);
                if j == inner.len() {
                    assert(inner.to_multiset().count(inner[i]) > 0) by {
                        assert(inner.contains(inner[i]));
                    }
                    if inner[i] != player {
                        assert(front.to_multiset().count(inner[i]) > 0);
                        assert(front.contains(inner[i]));
                        let k = choose|k: int| 0 <= k < front.len() && front[k] == inner[i];
                        assert(!crate::text::text_less(sorted[sorted.len() - 1].key, sorted[k].key));
                    }
                } else {
                    assert(result[j] == inner[j]);
                }
            }
            assert(result.to_multiset() =~= sorted.to_multiset().insert(player));
        }
    }
}

/// Sorting keeps every player, none more and none fewer, and puts them in the order of their keys.
pub proof fn law_players_are_sorted_by_key(players: Seq<crate::domain::PlayerView>)
    ensures
        keys_never_fall(by_key(players)),
        by_key(players).to_multiset() == players.to_multiset(),
    decreases players.len(),
{
    broadcast use vstd::seq_lib::group_to_multiset_ensures;

    if players.len() > 0 {
        law_players_are_sorted_by_key(players.drop_last());
        lemma_inserted(by_key(players.drop_last()), players.last());
        assert(players =~= players.drop_last().push(players.last()));
    }
}

/// Puts a player in its place among players in the order of their keys.
fn insert_player(sorted: &mut Vec<Player>, player: Player)
    ensures
        crate::domain::player_views(final(sorted)@) == inserted(
            crate::domain::player_views(old(sorted)@),
            player@,
        ),
{
    let ghost all = crate::domain::player_views(sorted@);
    let ghost new = player@;
    let mut at: usize = sorted.len();
    proof {
        assert(all.take(at as int) =~= all);
        assert(inserted(all, new) =~= inserted(all.take(at as int), new) + all.skip(at as int));
    }
    while at > 0 && comes_before(player.key.as_str(), sorted[at - 1].key.as_str())
        invariant
            at <= sorted@.len(),
            all == crate::domain::player_views(sorted@),
            new == player@,
            inserted(all, new) == inserted(all.take(at as int), new) + all.skip(at as int),
        decreases at,
    {
        proof {
            let front = all.take(at as int);
            assert(front.last() == sorted@[at - 1]@);
            assert(front.drop_last() =~= all.take(at as int - 1));
            assert(inserted(front, new) + all.skip(at as int) =~= inserted(
                all.take(at as int - 1),
                new,
            ) + all.skip(at as int - 1));
        }
        at = at - 1;
    }
    let ghost front = all.take(at as int);
    assert(at > 0 ==> front.last() == sorted@[at - 1]@);
    sorted.insert(at, player);
    assert(crate::domain::player_views(sorted@) =~= front.push(new) + all.skip(at as int));
}

/// Players in the order of their keys.
pub fn sort_players(players: Vec<Player>) -> (sorted: Vec<Player>)
    ensures
        crate::domain::player_views(sorted@) == by_key(crate::domain::player_views(players@)),
{
    let mut sorted: Vec<Player> = Vec::new();
    let ghost all = crate::domain::player_views(players@);
    assert(crate::domain::player_views(sorted@) =~= by_key(all.take(0)));
    for i in 0..players.len()
        invariant
            all == crate::domain::player_views(players@),
            crate::domain::player_views(sorted@) == by_key(all.take(i as int)),
    {
        assert(all.take(i as int + 1).drop_last() =~= all.take(i as int));
        assert(all.take(i as int + 1).last() == players@[i as int]@);
        insert_player(&mut sorted, players[i].clone());
    }
    assert(all.take(all.len() as int) =~= all);
    sorted
}

/// The first entry with a name gives its value, and others do not get in its way.
pub proof fn law_first_entries_count(
    metadata: MetadataView,
    name: Seq<char>,
    value: MetadataValueView,
    other: Seq<char>,
)
    ensures
        value_of(seq![(name, value)] + metadata, name) == Some(value),
        other != name ==> value_of(seq![(name, value)] + metadata, other) == value_of(
            metadata,
            other,
        ),
        value_of(Seq::empty(), name) is None,
{
    let all = seq![(name, value)] + metadata;
    assert(all[0] == (name, value));
    assert(all.skip(1) =~= metadata);
}

/// The artists are all those that are not blank, in their order, and no others.
pub proof fn law_blank_parts_are_left_out(parts: Seq<Seq<char>>, part: Seq<char>)
    ensures
        (exists|i: int| 0 <= i < part.len() && !crate::text::is_white_space(#[trigger] part[i]))
            ==> not_blank(parts.push(part)) == not_blank(parts).push(part),
        !(exists|i: int| 0 <= i < part.len() && !crate::text::is_white_space(#[trigger] part[i]))
            ==> not_blank(parts.push(part)) == not_blank(parts),
        not_blank(Seq::empty()) == Seq::<Seq<char>>::empty(),
{
    assert(parts.push(part).drop_last() =~= parts);
    crate::text::law_blank_means_white_space(part);
}

/// Metadata make a track field by field, each under its own name: the title, the artists that are
/// not blank, the album, the duration in milliseconds of microseconds that are not negative, the
/// artwork and the path that identifies the track. Without a title and without artists there is no
/// track.
pub proof fn law_metadata_make_a_track(metadata: MetadataView, observed_at: Timestamp)
    ensures
        ({
            let title = value_of(metadata, "xesam:title"@);
            let artists = value_of(metadata, "xesam:artist"@);
            let album = value_of(metadata, "xesam:album"@);
            let length = value_of(metadata, "mpris:length"@);
            let art = value_of(metadata, "mpris:artUrl"@);
            let id = value_of(metadata, "mpris:trackid"@);
            let track = track_in(metadata, observed_at);
            let titled = title is Some && title->0 is Text && title->0->Text_0.len() > 0;
            let credited = artists is Some && artists->0 is Texts && not_blank(
                artists->0->Texts_0,
            ).len() > 0;
            &&& track is Some <==> titled || credited
            &&& track is Some ==> {
                let track = track->0;
                &&& track.observed_at == observed_at
                &&& titled ==> track.title == title->0->Text_0
                &&& !titled ==> track.title.len() == 0
                &&& artists is Some && artists->0 is Texts ==> track.artists == not_blank(
                    artists->0->Texts_0,
                )
                &&& !(artists is Some && artists->0 is Texts) ==> track.artists.len() == 0
                &&& album is Some && album->0 is Text ==> track.album == album->0->Text_0
                &&& !(album is Some && album->0 is Text) ==> track.album.len() == 0
                &&& length is Some && length->0 is Unsigned ==> track.duration_ms is Some
                    && track.duration_ms->0 == length->0->Unsigned_0 as int / 1000
                &&& length is Some && length->0 is Signed && length->0->Signed_0 >= 0 ==>
                    track.duration_ms is Some && track.duration_ms->0 == length->0->Signed_0 as int
                    / 1000
                &&& length is Some && length->0 is Signed && length->0->Signed_0 < 0 ==>
                    track.duration_ms is None
                &&& !(length is Some && (length->0 is Unsigned || length->0 is Signed)) ==>
                    track.duration_ms is None
                &&& art is Some && art->0 is Text ==> track.art_url == Some(art->0->Text_0)
                &&& !(art is Some && art->0 is Text) ==> track.art_url is None
                &&& id is Some && id->0 is Path ==> track.track_id == Some(id->0->Path_0)
                &&& !(id is Some && id->0 is Path) ==> track.track_id is None
            }
        }),
{
}

/// A player is what it says it is: its own name, or else its bus name without the prefix of all
/// players; the status that it calls itself; and the track of its metadata.
pub proof fn law_readings_make_players(reading: PlayerReading, observed_at: Timestamp)
    ensures
        ({
            let player = player_in(reading, observed_at);
            &&& player.bus_name == reading.bus_name@
            &&& reading.identity is Some ==> player.identity == reading.identity->0@
            &&& reading.identity is None ==> player.identity == crate::text::without_prefixes(
                reading.bus_name@,
                "org.mpris.MediaPlayer2."@,
            )
            &&& crate::domain::shows(player.desktop_entry, reading.desktop_entry)
            &&& player.key == crate::selection::player_key(player.desktop_entry, player.bus_name)
            &&& player.status == PlaybackStatus::Playing <==> reading.status is Some
                && reading.status->0@ == "Playing"@
            &&& player.status == PlaybackStatus::Paused <==> reading.status is Some
                && reading.status->0@ == "Paused"@
            &&& player.status == PlaybackStatus::Stopped <==> reading.status is Some
                && reading.status->0@ == "Stopped"@
            &&& player.track == track_in(metadata_view(reading.metadata@), observed_at)
        }),
{
    reveal_strlit("Playing");
    reveal_strlit("Paused");
    reveal_strlit("Stopped");
    assert("Playing"@[1] != "Stopped"@[1]);
    assert("Playing"@.len() == 7 && "Paused"@.len() == 6 && "Stopped"@.len() == 7);
}

/// Players are told from everybody else on the bus by their prefix.
pub proof fn law_players_have_their_prefix(name: Seq<char>)
    ensures
        names_player(name) <==> exists|rest: Seq<char>| name == #[trigger] (
        "org.mpris.MediaPlayer2."@ + rest),
{
    let prefix = "org.mpris.MediaPlayer2."@;
    if names_player(name) {
        assert(name =~= prefix + name.skip(prefix.len() as int)) by {
            assert(name.subrange(0, prefix.len() as int) =~= prefix);
        }
    }
    if exists|rest: Seq<char>| name == #[trigger] (prefix + rest) {
        let rest = choose|rest: Seq<char>| name == #[trigger] (prefix + rest);
        assert((prefix + rest).subrange(0, prefix.len() as int) =~= prefix);
    }
}

/// Metadata are shown entry by entry, in their order, each value as what it is.
pub proof fn law_metadata_are_shown_entry_by_entry(metadata: Seq<(String, MetadataValue)>, at: int)
    requires
        0 <= at < metadata.len(),
    ensures
        metadata_view(metadata).len() == metadata.len(),
        metadata_view(metadata)[at].0 == metadata[at].0@,
        match metadata[at].1 {
            MetadataValue::Text(text) => metadata_view(metadata)[at].1 == MetadataValueView::Text(
                text@,
            ),
            MetadataValue::Texts(parts) => metadata_view(metadata)[at].1
                == MetadataValueView::Texts(crate::text::texts(parts@)),
            MetadataValue::Unsigned(number) => metadata_view(metadata)[at].1
                == MetadataValueView::Unsigned(number),
            MetadataValue::Signed(number) => metadata_view(metadata)[at].1
                == MetadataValueView::Signed(number),
            MetadataValue::Path(path) => metadata_view(metadata)[at].1 == MetadataValueView::Path(
                path@,
            ),
            MetadataValue::Other => metadata_view(metadata)[at].1 is Other,
        },
{
}

/// The values under a name are found by their form: a text, texts that are not blank, a path, and a
/// duration.
pub proof fn law_values_are_found_by_their_form(metadata: MetadataView, name: Seq<char>)
    ensures
        ({
            let value = value_of(metadata, name);
            &&& text_under(metadata, name) is Some <==> value is Some && value->0 is Text
            &&& text_under(metadata, name) is Some ==> text_under(metadata, name)->0
                == value->0->Text_0
            &&& path_under(metadata, name) is Some <==> value is Some && value->0 is Path
            &&& path_under(metadata, name) is Some ==> path_under(metadata, name)->0
                == value->0->Path_0
            &&& value is Some && value->0 is Texts ==> texts_under(metadata, name) == not_blank(
                value->0->Texts_0,
            )
            &&& !(value is Some && value->0 is Texts) ==> texts_under(metadata, name).len() == 0
        }),
{
}

} // verus!
