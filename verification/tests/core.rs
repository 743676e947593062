use echo_cli::app::{fallback_title_from_path, is_supported_audio_path};
use echo_cli::audio_backend::{map_frame, ChannelSource};
use echo_cli::config::AppPaths;
use echo_cli::db::missing_under;
use echo_cli::device::is_default_output_selector;
use echo_cli::library::Track;
use echo_cli::metadata::{fallback_track, FileFacts};
use echo_cli::search::rank_track;
use echo_cli::tui::{compact, TuiApp};

fn sample_track(path: &str, title: &str, modified_unix: i64, size_bytes: u64) -> Track {
    Track {
        id: None,
        title: title.to_string(),
        artist: Some("ECHO".to_string()),
        album: Some("Night".to_string()),
        album_artist: None,
        track_number: Some(1),
        disc_number: None,
        duration_ms: Some(1000),
        sample_rate: Some(44100),
        channel_count: Some(2),
        bit_depth: Some(16),
        path: path.to_string(),
        modified_unix,
        size_bytes,
    }
}

fn track(title: &str, artist: Option<&str>, path: &str) -> Track {
    Track {
        id: None,
        title: title.to_string(),
        artist: artist.map(str::to_string),
        album: None,
        album_artist: None,
        track_number: None,
        disc_number: None,
        duration_ms: None,
        sample_rate: None,
        channel_count: None,
        bit_depth: None,
        path: path.to_string(),
        modified_unix: 1,
        size_bytes: 1,
    }
}

/// Fills an output frame as the channel plan says.
fn mapped(source: &[f32], output_channels: u16) -> Vec<f32> {
    map_frame(source.len(), output_channels)
        .into_iter()
        .map(|channel| match channel {
            ChannelSource::Silence => 0.0,
            ChannelSource::Source(index) => source[index],
            ChannelSource::AverageOfFirstTwo => (source[0] + source[1]) * 0.5,
        })
        .collect()
}

#[test]
fn supported_extension_match_is_case_insensitive() {
    assert!(is_supported_audio_path("Track.FLAC"));
    assert!(is_supported_audio_path("mix.m4a"));
    assert!(!is_supported_audio_path("cover.jpg"));
}

#[test]
fn fallback_title_uses_filename() {
    assert_eq!(fallback_title_from_path("C:/Music/Blue.flac"), "Blue");
}

#[test]
fn scanner_filter_includes_only_supported_audio_extensions() {
    assert!(is_supported_audio_path("a.mp3"));
    assert!(is_supported_audio_path("a.FLAC"));
    assert!(!is_supported_audio_path("a.aiff"));
    assert!(!is_supported_audio_path("folder"));
}

#[test]
fn mono_maps_to_stereo_by_duplication() {
    assert_eq!(mapped(&[0.25], 2), vec![0.25, 0.25]);
}

#[test]
fn stereo_maps_to_mono_by_average() {
    assert_eq!(mapped(&[0.25, 0.75], 1), vec![0.5]);
}

#[test]
fn extra_output_channels_are_silent() {
    assert_eq!(mapped(&[0.1, 0.2], 4), vec![0.1, 0.2, 0.0, 0.0]);
}

#[test]
fn output_device_preference_round_trips_and_clears() {
    assert_eq!(AppPaths::load_output_device_preference(None), None);

    let saved = AppPaths::save_output_device_preference(Some("  Speakers  "));
    assert_eq!(
        AppPaths::load_output_device_preference(saved.as_deref()),
        Some("Speakers".to_string())
    );

    let cleared = AppPaths::save_output_device_preference(None);
    assert_eq!(cleared, None);
    assert_eq!(
        AppPaths::load_output_device_preference(cleared.as_deref()),
        None
    );
}

#[test]
fn remove_missing_only_touches_scanned_root() {
    let stored = [
        sample_track("C:/Music/a.flac", "A", 1, 10),
        sample_track("D:/Other/b.flac", "B", 1, 10),
    ];
    let paths: Vec<String> = stored.iter().map(|track| track.path.clone()).collect();

    let removed = missing_under(&paths, "C:/Music", &[]);

    assert_eq!(removed.len(), 1);
    assert_eq!(
        stored
            .iter()
            .filter(|track| !removed.contains(&track.path))
            .count(),
        1
    );
    assert_eq!(removed, vec!["C:/Music/a.flac".to_string()]);
}

#[test]
fn default_output_selector_accepts_clear_words() {
    assert!(is_default_output_selector("default"));
    assert!(is_default_output_selector(" system "));
    assert!(is_default_output_selector("clear"));
    assert!(is_default_output_selector("默认"));
    assert!(!is_default_output_selector("Speakers"));
}

#[test]
fn fallback_track_uses_file_name() {
    let contents = b"not-a-real-audio-file";
    let facts = FileFacts {
        modified_secs: Ok(1_700_000_000),
        size_bytes: contents.len() as u64,
    };
    let track = fallback_track("/tmp/echo-cli-fallback-4711.flac", &facts).unwrap();

    assert!(track.title.starts_with("echo-cli-fallback-"));
    assert_eq!(track.size_bytes, 21);
}

#[test]
fn ranking_prioritizes_exact_then_prefix_then_contains_then_path() {
    let exact = track("Moon", None, "C:/x/a.flac");
    let prefix = track("Moonrise", None, "C:/x/b.flac");
    let contains = track("Blue Moon", None, "C:/x/c.flac");
    let path_only = track("Other", None, "C:/Moon/d.flac");

    assert!(rank_track(&exact, "moon") > rank_track(&prefix, "moon"));
    assert!(rank_track(&prefix, "moon") > rank_track(&contains, "moon"));
    assert!(rank_track(&contains, "moon") > rank_track(&path_only, "moon"));
}

#[test]
fn compact_shortens_long_text_to_width() {
    assert_eq!(compact("abcdef", 4), "a...");
    assert_eq!(compact("abc", 4), "abc");
}

#[test]
fn progress_ratio_is_clamped() {
    let mut app = TuiApp::load(Vec::new(), Vec::new(), 0);
    app.now_playing.duration_ms = Some(1000);
    app.now_playing.progress_ms = Some(1500);

    let parts = app.progress_ratio(0);
    assert_eq!(parts.done as f64 / parts.total as f64, 1.0);
}
