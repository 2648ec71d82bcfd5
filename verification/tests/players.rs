use tunebeacon::{
    domain::{PlaybackStatus, Timestamp},
    mpris::{
        get_duration_ms, is_player_name, parse_metadata, read_player, sort_players, MetadataValue,
        PlayerReading,
    },
};

const EPOCH: Timestamp = Timestamp {
    seconds: 0,
    nanos: 0,
};

fn entry(name: &str, value: MetadataValue) -> (String, MetadataValue) {
    (name.to_owned(), value)
}

fn text(value: &str) -> MetadataValue {
    MetadataValue::Text(value.to_owned())
}

fn texts(values: &[&str]) -> MetadataValue {
    MetadataValue::Texts(values.iter().map(|value| (*value).to_owned()).collect())
}

fn reading(bus_name: &str) -> PlayerReading {
    PlayerReading {
        bus_name: bus_name.to_owned(),
        identity: None,
        desktop_entry: None,
        status: None,
        metadata: Vec::new(),
    }
}

#[test]
fn spotify_unsigned_duration_is_accepted() {
    let metadata = vec![(
        "mpris:length".to_owned(),
        MetadataValue::Unsigned(276_693_000_u64),
    )];
    assert_eq!(get_duration_ms(&metadata), Some(276_693));
}

#[test]
fn specification_signed_duration_is_accepted() {
    let metadata = vec![(
        "mpris:length".to_owned(),
        MetadataValue::Signed(245_000_000_i64),
    )];
    assert_eq!(get_duration_ms(&metadata), Some(245_000));
}

#[test]
fn durations_that_make_no_sense_are_unknown() {
    assert_eq!(get_duration_ms(&Vec::new()), None);
    assert_eq!(
        get_duration_ms(&vec![entry("mpris:length", MetadataValue::Signed(-1))]),
        None
    );
    assert_eq!(
        get_duration_ms(&vec![entry("mpris:length", text("245000000"))]),
        None
    );
    assert_eq!(
        get_duration_ms(&vec![entry("mpris:length", MetadataValue::Signed(999))]),
        Some(0)
    );
}

#[test]
fn metadata_become_a_track() {
    let metadata = vec![
        entry("xesam:title", text("Song")),
        entry("xesam:artist", texts(&["One", "  ", "Two"])),
        entry("xesam:album", text("Album")),
        entry("mpris:artUrl", text("https://example.test/a.jpg")),
        entry("mpris:trackid", MetadataValue::Path("/track/1".to_owned())),
        entry("mpris:length", MetadataValue::Unsigned(1_999)),
        entry("other", MetadataValue::Other),
    ];
    let moment = Timestamp {
        seconds: 12,
        nanos: 34,
    };
    let track = parse_metadata(&metadata, moment).unwrap();
    assert_eq!(track.title, "Song");
    assert_eq!(track.artists, vec!["One", "Two"]);
    assert_eq!(track.album, "Album");
    assert_eq!(track.duration_ms, Some(1));
    assert_eq!(track.art_url.as_deref(), Some("https://example.test/a.jpg"));
    assert_eq!(track.track_id.as_deref(), Some("/track/1"));
    assert!(track.observed_at == moment);
}

#[test]
fn metadata_without_title_and_artists_are_no_track() {
    assert!(parse_metadata(&Vec::new(), EPOCH).is_none());
    let blank = vec![
        entry("xesam:artist", texts(&["  "])),
        entry("xesam:album", text("Album")),
    ];
    assert!(parse_metadata(&blank, EPOCH).is_none());
    let nameless = vec![entry("xesam:artist", texts(&["One"]))];
    assert_eq!(parse_metadata(&nameless, EPOCH).unwrap().title, "");
    let wrong = vec![
        entry("xesam:title", texts(&["Song"])),
        entry("xesam:artist", text("One")),
        entry("mpris:trackid", text("/track/1")),
    ];
    assert!(parse_metadata(&wrong, EPOCH).is_none());
}

#[test]
fn readings_become_players() {
    let mut full = reading("org.mpris.MediaPlayer2.vlc.instance1");
    full.identity = Some("VLC media player".to_owned());
    full.desktop_entry = Some("org.videolan.VLC.desktop".to_owned());
    full.status = Some("Paused".to_owned());
    full.metadata = vec![entry("xesam:title", text("Song"))];
    let player = read_player(&full, EPOCH);
    assert_eq!(player.key, "org.videolan.vlc");
    assert_eq!(player.identity, "VLC media player");
    assert_eq!(player.bus_name, "org.mpris.MediaPlayer2.vlc.instance1");
    assert!(player.status == PlaybackStatus::Paused);
    assert_eq!(player.track.unwrap().title, "Song");

    let player = read_player(&reading("org.mpris.MediaPlayer2.vlc.instance1"), EPOCH);
    assert_eq!(player.identity, "vlc.instance1");
    assert_eq!(player.key, "vlc");
    assert!(player.status == PlaybackStatus::Unknown);
    assert!(player.track.is_none());

    for (word, status) in [
        ("Playing", PlaybackStatus::Playing),
        ("Stopped", PlaybackStatus::Stopped),
        ("playing", PlaybackStatus::Unknown),
    ] {
        let mut reading = reading("org.mpris.MediaPlayer2.x");
        reading.status = Some(word.to_owned());
        assert!(read_player(&reading, EPOCH).status == status);
    }
}

#[test]
fn players_are_sorted_by_key() {
    assert!(is_player_name("org.mpris.MediaPlayer2.vlc"));
    assert!(!is_player_name("org.mpris.MediaPlayer2"));
    let players = ["c", "a.one", "b", "a.two"]
        .iter()
        .map(|name| read_player(&reading(&format!("org.mpris.MediaPlayer2.{name}")), EPOCH))
        .collect();
    let names: Vec<String> = sort_players(players)
        .into_iter()
        .map(|player| player.identity)
        .collect();
    assert_eq!(names, vec!["a.one", "a.two", "b", "c"]);
}
