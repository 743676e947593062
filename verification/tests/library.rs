use echo_cli::app::{
    fallback_title_from_path, is_supported_audio_path, is_supported_extension, title_from_name,
    APP_NAME, APP_VERSION, SUPPORTED_EXTENSIONS,
};
use echo_cli::config::AppPaths;
use echo_cli::db::{
    candidate_query, like_pattern, missing_under, read_number, read_size, row_limit, stored_number,
    stored_size, CandidateQuery,
};
use echo_cli::error::EchoError;
use echo_cli::library::{FileFingerprint, Track};
use echo_cli::metadata::{clean_optional, fallback_track, read_track, FileFacts, TagInfo};
use echo_cli::scanner::{
    fingerprint_from_metadata, plan_scan, read_scan_item, scan_summary, split_scan_items,
    FileEntry, ScanItem, ScanSummary,
};
use echo_cli::search::{
    best_results, candidate_limit, rank_candidates, rank_lowered, rank_track, search, tracks_of,
    SearchResult,
};
use echo_cli::targets::{
    target_from_file, target_from_library, target_from_search, FoundFile, TargetStep,
};

fn named(title: &str, artist: Option<&str>, album: Option<&str>, path: &str) -> Track {
    Track {
        id: Some(7),
        title: title.to_string(),
        artist: artist.map(str::to_string),
        album: album.map(str::to_string),
        album_artist: None,
        track_number: None,
        disc_number: None,
        duration_ms: None,
        sample_rate: None,
        channel_count: None,
        bit_depth: None,
        path: path.to_string(),
        modified_unix: 0,
        size_bytes: 0,
    }
}

fn tags() -> TagInfo {
    TagInfo {
        title: Some("  Moon Halo ".to_string()),
        artist: Some("Mili".to_string()),
        album: Some("   ".to_string()),
        album_artist: None,
        track_number: Some(3),
        disc_number: Some(1),
        duration_ms: 65_000,
        sample_rate: Some(44_100),
        channels: Some(2),
        bit_depth: Some(16),
    }
}

fn facts(modified: u64, size: u64) -> FileFacts {
    FileFacts {
        modified_secs: Ok(modified),
        size_bytes: size,
    }
}

fn strings(values: &[&str]) -> Vec<String> {
    values.iter().map(|value| value.to_string()).collect()
}

// ------------------------------------------------------------------ the application

#[test]
fn the_application_names_itself() {
    assert_eq!(APP_NAME, "ECHO CLI");
    assert_eq!(APP_VERSION, "0.1.0");
    assert_eq!(SUPPORTED_EXTENSIONS, ["mp3", "flac", "wav", "mp4", "m4a"]);
}

#[test]
fn extensions_come_from_the_file_name_alone() {
    for extension in SUPPORTED_EXTENSIONS {
        assert!(is_supported_extension(Some(extension)));
        assert!(is_supported_audio_path(&format!("some.dir/a b.{}", extension)));
    }
    assert!(!is_supported_extension(None));
    assert!(!is_supported_extension(Some("")));
    assert!(!is_supported_audio_path("music.flac/readme"));
    assert!(!is_supported_audio_path(".flac"));
    assert!(!is_supported_audio_path("flac"));
    assert!(!is_supported_audio_path("a.flac."));
    assert!(!is_supported_audio_path(""));
    assert!(is_supported_audio_path("a.tar.FlAc"));
    assert!(is_supported_audio_path("D:\\Music\\Moon Halo.flac"));
    assert!(is_supported_audio_path("\\\\?\\D:\\Music\\Moon Halo.FLAC"));
    assert!(!is_supported_audio_path("\\\\?\\D:\\Music\\cover.jpg"));
}

#[test]
fn files_on_network_folders_are_told_by_their_name() {
    let resolved = "\\\\?\\UNC\\server.local\\music\\Mili\\Moon Halo.flac";
    let typed = "\\\\server.local\\music\\Moon Halo.mp3";
    assert!(is_supported_audio_path(resolved));
    assert!(is_supported_audio_path(typed));
    assert!(is_supported_audio_path("//server/music/Moon Halo.mp3"));
    assert!(!is_supported_audio_path("\\\\?\\UNC\\server.flac\\music\\cover"));
    assert!(fallback_title_from_path(resolved).ends_with("Moon Halo"));
    assert!(fallback_title_from_path(typed).ends_with("Moon Halo"));
    assert_eq!(fallback_title_from_path("//server/music/Moon Halo.mp3"), "Moon Halo");
    let track = named("Untagged", None, None, resolved);
    assert_eq!(rank_track(&track, "moon halo"), 40);
}

#[test]
fn a_colon_in_a_file_name_is_a_character() {
    assert!(is_supported_audio_path("/music/Re: Stacks.flac"));
    assert!(is_supported_audio_path("/music/a:.flac"));
    assert!(is_supported_audio_path("Re: Stacks.flac"));
    assert!(!is_supported_audio_path("/music/Re: Stacks.txt"));
    assert_eq!(fallback_title_from_path("/music/Re: Stacks.flac"), "Re: Stacks");
    assert_eq!(fallback_title_from_path("/music/a:.flac"), "a:");
    let track = named("Untagged", None, None, "/music/Re: Stacks.flac");
    assert_eq!(rank_track(&track, "re: stacks"), 40);
}

#[test]
fn titles_come_from_the_file_name() {
    assert_eq!(fallback_title_from_path("/music/  Blue Moon  .flac"), "Blue Moon");
    assert_eq!(fallback_title_from_path("a.b.flac"), "a.b");
    assert_eq!(fallback_title_from_path(".flac"), ".flac");
    assert_eq!(fallback_title_from_path("/"), "Untitled");
    assert_eq!(fallback_title_from_path("/music/   .flac"), "Untitled");
    assert_eq!(title_from_name(None), "Untitled");
    assert_eq!(title_from_name(Some(" x ")), "x");
}

#[test]
fn errors_say_what_failed() {
    let cases = [
        (
            EchoError::ConfigPathUnavailable,
            "configuration path is unavailable on this system",
        ),
        (
            EchoError::Metadata {
                path: "a.flac".to_string(),
                message: "no tag".to_string(),
            },
            "metadata read failed for a.flac: no tag",
        ),
        (EchoError::Audio("gone".to_string()), "audio output failed: gone"),
        (
            EchoError::Decode {
                path: "a.flac".to_string(),
                message: "bad frame".to_string(),
            },
            "decode failed for a.flac: bad frame",
        ),
        (EchoError::Playback("stuck".to_string()), "playback failed: stuck"),
        (EchoError::Io("denied".to_string()), "denied"),
        (EchoError::Db("locked".to_string()), "locked"),
        (EchoError::WalkDir("loop".to_string()), "loop"),
    ];
    for (error, message) in cases {
        assert_eq!(error.message(), message);
    }
}

// ------------------------------------------------------------------ configuration

#[test]
fn files_stand_in_their_folders() {
    let paths = AppPaths::from_folders("/home/me/config".to_string(), "/home/me/cache/".to_string());
    assert_eq!(paths.database_path(), "/home/me/cache/library.sqlite3");
    assert_eq!(paths.history_path(), "/home/me/config/history.txt");
    assert_eq!(paths.language_path(), "/home/me/config/language.txt");
    assert_eq!(
        paths.output_device_preference_path(),
        "/home/me/config/output_device.txt"
    );
    assert_eq!(paths.clone(), paths);
}

#[test]
fn a_blank_preference_is_none() {
    assert_eq!(AppPaths::save_output_device_preference(Some("  ")), None);
    assert_eq!(AppPaths::load_output_device_preference(Some("\n")), None);
    assert_eq!(
        AppPaths::save_output_device_preference(Some(" USB DAC\n")),
        Some("USB DAC".to_string())
    );
}

#[test]
fn a_saved_preference_is_read_back() {
    for preference in [None, Some(""), Some("  Speakers "), Some("默认")] {
        let saved = AppPaths::save_output_device_preference(preference);
        let read = AppPaths::load_output_device_preference(saved.as_deref());
        assert_eq!(read, saved);
    }
}

// ------------------------------------------------------------------ metadata

#[test]
fn tags_are_cleaned() {
    let track = read_track("/music/a.flac", &Ok(tags()), &facts(1_700_000_000, 21)).unwrap();
    assert_eq!(
        track,
        Track {
            id: None,
            title: "Moon Halo".to_string(),
            artist: Some("Mili".to_string()),
            album: None,
            album_artist: None,
            track_number: Some(3),
            disc_number: Some(1),
            duration_ms: Some(65_000),
            sample_rate: Some(44_100),
            channel_count: Some(2),
            bit_depth: Some(16),
            path: "/music/a.flac".to_string(),
            modified_unix: 1_700_000_000,
            size_bytes: 21,
        }
    );
    assert_eq!(clean_optional(&Some(" a ".to_string())), Some("a".to_string()));
    assert_eq!(clean_optional(&Some(" ".to_string())), None);
    assert_eq!(clean_optional(&None), None);
}

#[test]
fn a_blank_title_falls_back_to_the_file_name() {
    let mut info = tags();
    info.title = Some(" ".to_string());
    info.duration_ms = 0;
    let track = read_track("/music/Blue.flac", &Ok(info), &facts(1, 2)).unwrap();
    assert_eq!(track.title, "Blue");
    assert_eq!(track.duration_ms, None);
}

#[test]
fn unreadable_tags_and_times_are_errors() {
    assert_eq!(
        read_track("a.flac", &Err("no tag".to_string()), &facts(1, 2)),
        Err(EchoError::Metadata {
            path: "a.flac".to_string(),
            message: "no tag".to_string(),
        })
    );
    let timeless = FileFacts {
        modified_secs: Err("no clock".to_string()),
        size_bytes: 2,
    };
    assert_eq!(
        read_track("a.flac", &Ok(tags()), &timeless),
        Err(EchoError::Io("no clock".to_string()))
    );
    assert_eq!(
        fallback_track("a.flac", &timeless),
        Err(EchoError::Io("no clock".to_string()))
    );
}

// ------------------------------------------------------------------ scanning

#[test]
fn unchanged_files_are_not_read_again() {
    let print = |modified_unix, size_bytes| FileFingerprint {
        modified_unix,
        size_bytes,
    };
    let known = vec![
        ("a.flac".to_string(), print(1, 10)),
        ("b.flac".to_string(), print(1, 10)),
    ];
    let entry = |path: &str, fingerprint| FileEntry {
        path: path.to_string(),
        fingerprint,
    };
    let plan = plan_scan(
        &known,
        &[
            entry("a.flac", print(1, 10)),
            entry("b.flac", print(2, 10)),
            entry("c.flac", print(1, 10)),
        ],
    );
    assert_eq!(plan.candidates, strings(&["b.flac", "c.flac"]));
    assert_eq!(plan.skipped_unchanged, 1);
    assert_eq!(plan.seen, strings(&["a.flac", "b.flac", "c.flac"]));

    let summary = scan_summary(&plan, 2, 0, 1, 65);
    assert_eq!(
        summary,
        ScanSummary {
            scanned_files: 3,
            indexed_tracks: 2,
            skipped_unchanged: 1,
            failed_files: 0,
            removed_missing: 1,
            elapsed_ms: 65,
        }
    );
    assert_eq!(ScanSummary::default().scanned_files, 0);
}

#[test]
fn a_second_scan_changes_nothing() {
    let print = |size_bytes| FileFingerprint {
        modified_unix: 1,
        size_bytes,
    };
    let names = ["/m/a.flac", "/m/sub/b.mp3", "/m/c.wav"];
    let files: Vec<FileEntry> = names
        .iter()
        .enumerate()
        .map(|(index, name)| FileEntry {
            path: name.to_string(),
            fingerprint: print(index as u64),
        })
        .collect();
    let first = plan_scan(&[], &files);
    assert_eq!(first.candidates, strings(&names));
    let items = first
        .candidates
        .iter()
        .enumerate()
        .map(|(index, path)| {
            let tagged = if index == 0 { Ok(tags()) } else { Err("no tag".to_string()) };
            read_scan_item(path, &Ok(facts(1, index as u64)), &tagged)
        })
        .collect();
    let (tracks, errors) = split_scan_items(items);
    assert!(errors.is_empty());
    let known: Vec<(String, FileFingerprint)> = tracks
        .iter()
        .map(|track| {
            let fingerprint = FileFingerprint {
                modified_unix: track.modified_unix,
                size_bytes: track.size_bytes,
            };
            (track.path.clone(), fingerprint)
        })
        .collect();
    let second = plan_scan(&known, &files);
    assert!(second.candidates.is_empty());
    assert_eq!(second.skipped_unchanged, 3);
    let removed = missing_under(&strings(&names), "/m", &second.seen);
    assert!(removed.is_empty());
    assert_eq!(
        scan_summary(&second, 0, 0, removed.len(), 5),
        ScanSummary {
            scanned_files: 3,
            indexed_tracks: 0,
            skipped_unchanged: 3,
            failed_files: 0,
            removed_missing: 0,
            elapsed_ms: 5,
        }
    );
}

#[test]
fn folders_with_a_longer_name_are_other_folders() {
    let stored = strings(&["C:/Music/a.flac", "C:/Music2/b.flac", "C:/Music", "C:\\Music\\c.mp3"]);
    assert_eq!(
        missing_under(&stored, "C:/Music", &[]),
        strings(&["C:/Music/a.flac", "C:/Music"])
    );
    assert_eq!(
        missing_under(&stored, "C:/Music/", &[]),
        strings(&["C:/Music/a.flac"])
    );
    assert_eq!(
        missing_under(&stored, "C:\\Music", &[]),
        strings(&["C:\\Music\\c.mp3"])
    );
}

#[test]
fn fingerprints_without_a_time_hold_zero() {
    assert_eq!(
        fingerprint_from_metadata(None, 5),
        FileFingerprint {
            modified_unix: 0,
            size_bytes: 5,
        }
    );
    assert_eq!(fingerprint_from_metadata(Some(9), 5).modified_unix, 9);
}

#[test]
fn files_without_tags_are_still_tracks() {
    let item = read_scan_item("/m/Song.mp3", &Ok(facts(3, 4)), &Err("no tag".to_string()));
    match item {
        ScanItem::Track(track) => {
            assert_eq!(track.title, "Song");
            assert_eq!(track.modified_unix, 3);
        }
        ScanItem::Error { .. } => unreachable!(),
    }
}

#[test]
fn files_that_cannot_be_read_are_told() {
    let gone = read_scan_item("a.mp3", &Err("gone".to_string()), &Ok(tags()));
    let timeless = read_scan_item(
        "b.mp3",
        &Ok(FileFacts {
            modified_secs: Err("no clock".to_string()),
            size_bytes: 0,
        }),
        &Err("no tag".to_string()),
    );
    let fine = read_scan_item("c.mp3", &Ok(facts(1, 1)), &Ok(tags()));
    let (tracks, errors) = split_scan_items(vec![gone, fine, timeless]);
    assert_eq!(tracks.len(), 1);
    assert_eq!(tracks[0].path, "c.mp3");
    assert_eq!(
        errors,
        vec![
            ("a.mp3".to_string(), "gone".to_string()),
            (
                "b.mp3".to_string(),
                "metadata read failed for b.mp3: no tag".to_string()
            ),
        ]
    );
}

// ------------------------------------------------------------------ the database

#[test]
fn stored_numbers_are_read_back() {
    for value in [None, Some(0), Some(1), Some(u32::MAX)] {
        assert_eq!(read_number(stored_number(value)), value);
    }
    for size in [0, 1, 5 * 1024 * 1024, i64::MAX as u64, u64::MAX] {
        assert_eq!(read_size(stored_size(size)), size);
    }
    assert_eq!(row_limit(20), 20);
}

#[test]
fn blank_queries_ask_for_everything() {
    assert_eq!(candidate_query("  "), CandidateQuery::All);
    assert_eq!(candidate_query("Moon"), CandidateQuery::Like("%moon%".to_string()));
    assert_eq!(candidate_query(" É "), CandidateQuery::Like("% é %".to_string()));
    assert_eq!(like_pattern("moon"), "%moon%");
}

#[test]
fn only_files_under_the_root_are_removed() {
    let stored = strings(&["/m/a.mp3", "/m/b.mp3", "/other/c.mp3"]);
    let seen = strings(&["/m/a.mp3"]);
    assert_eq!(missing_under(&stored, "/m", &seen), strings(&["/m/b.mp3"]));
    assert_eq!(missing_under(&stored, "/m", &stored), Vec::<String>::new());
    assert_eq!(missing_under(&[], "/m", &seen), Vec::<String>::new());
}

// ------------------------------------------------------------------ search

#[test]
fn ranks_follow_the_kind_of_match() {
    let track = named("Moon Halo", Some("Mili"), Some("Blue Album"), "/m/disc one/track.flac");
    assert_eq!(rank_track(&track, "  MOON HALO "), 100);
    assert_eq!(rank_track(&track, "mili"), 100);
    assert_eq!(rank_track(&track, "moon"), 80);
    assert_eq!(rank_track(&track, "mi"), 80);
    assert_eq!(rank_track(&track, "halo"), 60);
    assert_eq!(rank_track(&track, "blue"), 60);
    assert_eq!(rank_track(&track, "track"), 40);
    assert_eq!(rank_track(&track, "disc one"), 20);
    assert_eq!(rank_track(&track, "absent"), 0);
    assert_eq!(rank_track(&track, "   "), 1);
    assert_eq!(rank_lowered("a", "b", "c", "d", "e", "b"), 100);
    assert_eq!(rank_lowered("a", "b", "c", "d", "e", "e"), 20);
}

#[test]
fn letters_are_lowered_beyond_ascii() {
    let track = named("ÉTUDE", None, None, "/m/x.flac");
    assert_eq!(rank_track(&track, "étude"), 100);
    assert_eq!(rank_track(&named("ΟΔΟΣ", None, None, "/m/x.flac"), "οδος"), 100);
}

#[test]
fn the_best_results_come_first() {
    let tracks = vec![
        named("beta moon", None, None, "/m/1.flac"),
        named("Moonrise", None, None, "/m/2.flac"),
        named("Alpha Moon", None, None, "/m/3.flac"),
        named("Moon", None, None, "/m/4.flac"),
        named("alpha moon", None, None, "/m/5.flac"),
    ];
    let results = search(tracks.clone(), "moon", 4);
    let order: Vec<&str> = results.iter().map(|result| result.track.path.as_str()).collect();
    assert_eq!(order, vec!["/m/4.flac", "/m/2.flac", "/m/3.flac", "/m/5.flac"]);
    assert_eq!(results[0].score, 100);
    assert_eq!(search(tracks.clone(), "moon", 0).len(), 0);
    assert_eq!(tracks_of(results)[1].title, "Moonrise");

    let all = search(tracks.clone(), "moon", 9);
    assert_eq!(all.len(), 5);
    assert_eq!(all[4].track.path, "/m/1.flac");
    assert!(all[4].score <= all[3].score);

    let ranked = rank_candidates(tracks, "moon");
    assert_eq!(ranked[0].score, 60);
    assert_eq!(best_results(ranked, 1)[0].track.title, "Moon");
}

#[test]
fn more_candidates_are_fetched_than_shown() {
    assert_eq!(candidate_limit(20), 160);
    assert_eq!(candidate_limit(0), 0);
    assert_eq!(candidate_limit(usize::MAX), usize::MAX);
}

// ------------------------------------------------------------------ targets

#[test]
fn a_file_that_exists_is_the_target() {
    let file = FoundFile {
        facts: Ok(facts(5, 6)),
        tags: Err("no tag".to_string()),
    };
    match target_from_file("/m/Song.mp3", &Some(file)) {
        TargetStep::Found(track) => {
            assert_eq!(track.title, "Song");
            assert_eq!(track.path, "/m/Song.mp3");
        }
        _ => unreachable!(),
    }
    let tagged = FoundFile {
        facts: Ok(facts(5, 6)),
        tags: Ok(tags()),
    };
    match target_from_file("/m/Song.mp3", &Some(tagged)) {
        TargetStep::Found(track) => assert_eq!(track.title, "Moon Halo"),
        _ => unreachable!(),
    }
}

#[test]
fn a_file_that_cannot_be_read_is_an_error() {
    for file in [
        FoundFile {
            facts: Err("gone".to_string()),
            tags: Ok(tags()),
        },
        FoundFile {
            facts: Ok(FileFacts {
                modified_secs: Err("gone".to_string()),
                size_bytes: 1,
            }),
            tags: Ok(tags()),
        },
    ] {
        match target_from_file("a.mp3", &Some(file)) {
            TargetStep::Failed(error) => assert_eq!(error, EchoError::Io("gone".to_string())),
            _ => unreachable!(),
        }
    }
}

#[test]
fn without_a_file_the_library_is_asked_and_then_searched() {
    assert!(matches!(target_from_file("moon", &None), TargetStep::AskLibrary));
    assert!(matches!(target_from_library(None), TargetStep::Search));
    let track = named("Moon", None, None, "/m/4.flac");
    assert!(matches!(
        target_from_library(Some(track.clone())),
        TargetStep::Found(found) if found == track
    ));
    let result = SearchResult {
        track: track.clone(),
        score: 100,
    };
    assert_eq!(target_from_search("moon", vec![result]), Ok(track));
    assert_eq!(
        target_from_search("moon", Vec::new()),
        Err(EchoError::Playback("no playable match for: moon".to_string()))
    );
}
