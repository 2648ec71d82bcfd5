use tunebeacon::{
    artwork::{
        artwork_source, check_announced_size, check_download, hex_nibble, judge_download,
        percent_decode, percent_decode_bytes, preferred_art_url, ArtworkError, ArtworkSource,
        MAX_ART_BYTES,
    },
    cache::{
        cache_file_name, cache_key_bytes, leaving_order, CacheEntry, CachedFile, Pruning,
    },
    config::{temporary_file_name, topic_for},
    digest::to_hex,
    domain::{RawTrack, Timestamp, Verification, VerificationStatus},
    verification::{
        albums_match, artist_names, candidate_from_recording, fold_decomposed,
        is_edition_qualifier, lucene_escape, match_candidates, normalize, normalize_album,
        pause_before_request, search_query, trailing_qualifier, verification_after_search,
        Candidate, FoundCredit, FoundRecording, FoundRelease,
    },
    APP_NAME, USER_AGENT,
};

fn candidate(id: &str) -> Candidate {
    Candidate {
        title: "Song".to_owned(),
        artists: vec!["One".to_owned(), "Two".to_owned()],
        albums: vec!["Album".to_owned()],
        duration_ms: Some(200_000),
        score: 95,
        recording_id: id.to_owned(),
        release_id: None,
        release_group_id: None,
    }
}

fn track() -> RawTrack {
    RawTrack {
        title: "Song".to_owned(),
        artists: vec!["one".to_owned()],
        album: "Album (Remastered) [Deluxe]".to_owned(),
        duration_ms: Some(200_000),
        ..RawTrack::default()
    }
}

fn best(candidates: &[Candidate]) -> String {
    match_candidates(&track(), candidates).recording_id.unwrap()
}

#[test]
fn texts_are_normalized() {
    assert_eq!(normalize("Jay-Z & Béyoncé №9"), "jayzbeyonceno9");
    assert_eq!(normalize("ﬁÉ²"), "fie2");
    assert_eq!(normalize("ＡＢＣ"), "abc");
    assert_eq!(normalize("  !? "), "");
    assert_eq!(normalize("Füße"), "fuße");
    assert_eq!(fold_decomposed("A\u{301}b"), "ab");
}

#[test]
fn normal_texts_stay_and_case_makes_no_difference() {
    for text in ["Jay-Z & Béyoncé №9", "ﬁÉ²", "Füße", "İstanbul", "ΣΑΣ", "한글 1½", "ǅ"] {
        let normal = normalize(text);
        assert_eq!(normalize(&normal), normal);
        assert_eq!(normalize(&text.to_ascii_uppercase()), normal);
        assert_eq!(normalize(&text.to_ascii_lowercase()), normal);
        assert!(normal.chars().all(char::is_alphanumeric));
    }
}

#[test]
fn order_of_candidates_does_not_matter() {
    let mut scored = candidate("y");
    scored.score = 96;
    let mut near = candidate("a");
    near.duration_ms = Some(200_001);
    let mut all = vec![candidate("z"), scored, near, candidate("b")];
    let found = best(&all);
    all.reverse();
    assert_eq!(best(&all), found);
    all.rotate_left(1);
    assert_eq!(best(&all), found);
}

#[test]
fn qualifiers_at_the_end_are_found() {
    assert_eq!(
        trailing_qualifier("A (b) (c)"),
        Some(("A (b) ".to_owned(), "c".to_owned()))
    );
    assert_eq!(
        trailing_qualifier("A [b)]"),
        Some(("A ".to_owned(), "b)".to_owned()))
    );
    assert_eq!(
        trailing_qualifier("()"),
        Some((String::new(), String::new()))
    );
    assert_eq!(trailing_qualifier("A b)"), None);
    assert_eq!(trailing_qualifier("A (b"), None);
    assert_eq!(trailing_qualifier(""), None);
    assert!(is_edition_qualifier("2011remastered"));
    assert!(!is_edition_qualifier("live"));
}

#[test]
fn editions_of_an_album_are_one() {
    assert_eq!(
        normalize_album(" Takk... (20th Anniversary) [Deluxe Edition] "),
        "takk"
    );
    assert_eq!(normalize_album("Takk (Live)"), "takklive");
    assert_eq!(normalize_album("Takk (Live) (Special)"), "takklive");
    assert!(albums_match("Takk (Expanded)", "TAKK!"));
    assert!(!albums_match("Takk (Live)", "Takk"));
}

#[test]
fn albums_come_before_durations_scores_and_identifiers() {
    let mut other_album = candidate("a");
    other_album.albums = vec!["Other".to_owned()];
    other_album.score = 100;
    let mut other_duration = candidate("b");
    other_duration.duration_ms = Some(205_001);
    other_duration.score = 100;
    assert_eq!(
        best(&[other_album.clone(), other_duration.clone(), candidate("z")]),
        "z"
    );
    assert_eq!(best(&[other_album.clone(), other_duration.clone()]), "b");
    let mut scored = candidate("y");
    scored.score = 96;
    assert_eq!(best(&[candidate("a"), scored]), "y");
    let mut near = candidate("a");
    near.duration_ms = Some(200_001);
    assert_eq!(best(&[near, candidate("z")]), "z");
    assert_eq!(best(&[candidate("b"), candidate("a"), candidate("c")]), "a");
    let mut unknown = candidate("a");
    unknown.duration_ms = None;
    assert_eq!(best(&[unknown, candidate("z")]), "z");
    let mut edge = candidate("a");
    edge.duration_ms = Some(205_000);
    edge.score = 99;
    assert_eq!(best(&[candidate("z"), edge]), "a");
}

#[test]
fn equal_candidates_are_told_apart_by_their_place() {
    let mut first = candidate("same");
    first.release_id = Some("first".to_owned());
    let mut second = candidate("same");
    second.release_id = Some("second".to_owned());
    let found = match_candidates(&track(), &[first.clone(), second]);
    assert_eq!(found.release_id.as_deref(), Some("first"));
    assert_eq!(found.score, Some(95));
    assert!(first == first.clone());
    assert!(first != candidate("same"));
}

#[test]
fn tracks_without_an_album_match_none() {
    let mut bare = track();
    bare.album = "  ".to_owned();
    let mut nameless = candidate("b");
    nameless.albums = vec![String::new()];
    let found = match_candidates(&bare, &[nameless, candidate("a")]);
    assert_eq!(found.recording_id.as_deref(), Some("a"));
    assert_eq!(
        match_candidates(&bare, &[]).status,
        VerificationStatus::NotFound
    );
}

#[test]
fn queries_are_escaped() {
    assert_eq!(lucene_escape("a\\b\"c:d"), "a\\\\b\\\"c\\:d");
    assert_eq!(
        lucene_escape("a\\:\"b"),
        format!("{}{}", lucene_escape("a\\"), lucene_escape(":\"b"))
    );
    let mut track = track();
    track.title = "Say \"Hi\"".to_owned();
    track.artists = vec!["A".to_owned(), "B".to_owned()];
    assert_eq!(
        search_query(&track),
        "recording:\"Say \\\"Hi\\\"\" AND artistname:\"A B\""
    );
}

#[test]
fn recordings_become_candidates() {
    let release = |title: &str, id: &str, group: Option<&str>| FoundRelease {
        title: title.to_owned(),
        id: id.to_owned(),
        release_group_id: group.map(str::to_owned),
    };
    let recording = FoundRecording {
        id: "id".to_owned(),
        title: "Song".to_owned(),
        length: Some(200_000),
        score: Some(100),
        artist_credit: Some(vec![FoundCredit {
            name: "Credited".to_owned(),
            artist_name: "One".to_owned(),
        }]),
        releases: Some(vec![
            release("Album", "r1", None),
            release("Other", "r2", Some("g2")),
        ]),
    };
    let candidate = candidate_from_recording(&recording);
    assert_eq!(candidate.artists, vec!["Credited", "One"]);
    assert_eq!(candidate.albums, vec!["Album", "Other"]);
    assert_eq!(candidate.release_id.as_deref(), Some("r1"));
    assert_eq!(candidate.release_group_id.as_deref(), Some("g2"));
    assert_eq!(candidate.duration_ms, Some(200_000));
    let bare = FoundRecording {
        id: "id".to_owned(),
        title: "Song".to_owned(),
        length: None,
        score: None,
        artist_credit: None,
        releases: None,
    };
    let candidate = candidate_from_recording(&bare);
    assert_eq!(candidate.score, 0);
    assert!(candidate.artists.is_empty() && candidate.albums.is_empty());
    assert_eq!(candidate.release_id, None);
    assert!(artist_names(&None).is_empty());

    let found = verification_after_search(&track(), &Some(vec![bare, recording]));
    assert_eq!(found.status, VerificationStatus::Verified);
    assert_eq!(found.release_group_id.as_deref(), Some("g2"));
    assert_eq!(
        verification_after_search(&track(), &None).status,
        VerificationStatus::Unavailable
    );
}

#[test]
fn requests_keep_their_distance() {
    assert_eq!(pause_before_request(None), None);
    assert_eq!(pause_before_request(Some(0)), Some(1_000_000_000));
    assert_eq!(pause_before_request(Some(999_999_999)), Some(1));
    assert_eq!(pause_before_request(Some(1_000_000_000)), Some(0));
    assert_eq!(pause_before_request(Some(1_000_000_001)), None);
}

#[test]
fn outcomes_are_filed_under_the_normalized_track() {
    let artists = vec!["one".to_owned(), "two".to_owned()];
    assert_eq!(
        cache_key_bytes("t", &artists, "é", Some(258)),
        b"\x03t\x00one\x00two\x00\xc3\xa9\x02\x01\x00\x00\x00\x00\x00\x00".to_vec()
    );
    assert_eq!(
        cache_key_bytes("", &Vec::new(), "", None),
        b"\x03\x00".to_vec()
    );
    let mut other = track();
    other.title = "SONG!".to_owned();
    other.art_url = Some("x".to_owned());
    other.observed_at = Timestamp {
        seconds: 9,
        nanos: 9,
    };
    assert_eq!(cache_file_name(&track()), cache_file_name(&other));
    other.duration_ms = None;
    assert_ne!(cache_file_name(&track()), cache_file_name(&other));
    let empty = RawTrack::default();
    // The digest of the bytes 3 and 0.
    assert_eq!(
        cache_file_name(&empty),
        format!("{}.json", to_hex(&sha256(b"\x03\x00")))
    );
    assert_eq!(cache_file_name(&empty).len(), 69);
}

fn sha256(bytes: &[u8]) -> Vec<u8> {
    <sha2::Sha256 as sha2::Digest>::digest(bytes).to_vec()
}

#[test]
fn cached_outcomes_hold_for_a_while() {
    let mut entry = CacheEntry {
        saved_at_unix: 1_000,
        verification: Verification::failed(VerificationStatus::NotFound),
    };
    assert!(entry.usable(1_000 + 3_599).is_some());
    assert!(entry.usable(1_000 + 3_600).is_none());
    assert!(entry.usable(0).is_some());
    entry.verification = Verification::failed(VerificationStatus::Verified);
    assert!(entry.usable(1_000 + 2_591_999).is_some());
    assert!(entry.usable(1_000 + 2_592_000).is_none());
}

fn file(modified: i128, size: u64) -> CachedFile {
    CachedFile { modified, size }
}

#[test]
fn the_oldest_files_leave_first() {
    let files = vec![file(30, 10), file(10, 20), file(-5, 40), file(10, 5)];
    assert_eq!(leaving_order(&files), vec![2, 1, 3, 0]);
    let mut pruning = Pruning::new(&files, 20);
    assert_eq!(pruning.total, 75);
    assert_eq!(pruning.next(), Some(2));
    pruning.tried(true);
    assert_eq!(pruning.next(), Some(1));
    // A file that cannot be removed stays, and the next one is tried.
    pruning.tried(false);
    assert_eq!(pruning.next(), Some(3));
    pruning.tried(true);
    assert_eq!(pruning.next(), Some(0));
    pruning.tried(true);
    assert_eq!(pruning.total, 20);
    assert_eq!(pruning.next(), None);
    assert_eq!(Pruning::new(&files, 75).next(), None);
    let mut pruning = Pruning::new(&files, 35);
    pruning.tried(true);
    assert_eq!(pruning.next(), None);
}

#[test]
fn covers_are_looked_for_where_their_address_says() {
    match artwork_source("file:///tmp/a%20b%2").unwrap() {
        ArtworkSource::Local { path } => assert_eq!(path, "/tmp/a b%2"),
        ArtworkSource::Remote { .. } => panic!("not local"),
    }
    let url = "https://Example.test/a b.jpg";
    match artwork_source(url).unwrap() {
        ArtworkSource::Remote { address, file } => {
            assert_eq!(address, "https://example.test/a%20b.jpg");
            assert_eq!(file, format!("{}.img", to_hex(&sha256(url.as_bytes()))));
        }
        ArtworkSource::Local { .. } => panic!("not remote"),
    }
    assert_eq!(
        artwork_source("data:,x").unwrap_err().to_text(),
        "unsupported artwork URL scheme"
    );
    assert_eq!(
        artwork_source("/tmp/a").unwrap_err().to_text(),
        "relative URL without a base"
    );
    assert_eq!(
        preferred_art_url(None, Some("g")).unwrap(),
        "https://coverartarchive.org/release-group/g/front"
    );
    assert_eq!(preferred_art_url(Some("u"), Some("g")).unwrap(), "u");
    assert_eq!(preferred_art_url(None, None), None);
}

#[test]
fn percent_escapes_are_read() {
    assert_eq!(percent_decode("a%2Fb%c3%A9%zz%4"), "a/bé%zz%4");
    assert_eq!(percent_decode("%ff"), "\u{fffd}");
    assert_eq!(percent_decode_bytes(b"%00%%41"), b"\x00%A".to_vec());
    assert_eq!(hex_nibble(70), Some(15));
    assert_eq!(hex_nibble(71), None);
}

#[test]
fn downloads_are_checked() {
    assert!(check_announced_size(None).is_ok());
    assert!(check_announced_size(Some("12582912")).is_ok());
    assert!(check_announced_size(Some("many")).is_ok());
    assert_eq!(
        check_announced_size(Some("12582913")).unwrap_err().to_text(),
        "artwork exceeds 12 MiB"
    );
    let error = check_download(&b"no picture".to_vec()).unwrap_err();
    assert!(error
        .to_text()
        .starts_with("artwork is not a supported image: "));
    let mut picture: Vec<u8> = Vec::new();
    image::DynamicImage::new_rgb8(1, 1)
        .write_to(
            &mut std::io::Cursor::new(&mut picture),
            image::ImageFormat::Png,
        )
        .unwrap();
    assert!(check_download(&picture).is_ok());
    assert_eq!(
        judge_download(MAX_ART_BYTES + 1, None)
            .unwrap_err()
            .to_text(),
        "artwork exceeds download limit"
    );
    assert!(judge_download(MAX_ART_BYTES, None).is_ok());
    assert_eq!(
        ArtworkError::MissingFile.to_text(),
        "local artwork does not exist"
    );
}

#[test]
fn names_of_files_and_topics() {
    assert_eq!(
        temporary_file_name(Some("config.toml"), 12),
        ".config.toml.tmp-12"
    );
    assert_eq!(temporary_file_name(None, 0), ".config.tmp-0");
    assert_eq!(
        topic_for(Some("desk".to_owned())),
        "tunebeacon/desk/now-playing"
    );
    assert_eq!(
        topic_for(Some(String::new())),
        "tunebeacon/unknown/now-playing"
    );
    assert_eq!(USER_AGENT, format!("{APP_NAME}/0.2.0"));
}
