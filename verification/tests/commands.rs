use echo_cli::audio_backend::OutputStreamInfo;
use echo_cli::commands::{
    bit_depth_text, device_report_lines, doctor_lines, format_duration, playback_report_lines,
    scan_header_lines, scan_report_lines, search_report_lines, shell_doctor_lines, truncate,
    use_device_lines, version_line, Cli, Command, DoctorFacts,
};
use echo_cli::decoder::DecodeStreamInfo;
use echo_cli::device::AudioDevice;
use echo_cli::error::EchoError;
use echo_cli::library::Track;
use echo_cli::playback::{closing_event, PlaybackCommand, PlaybackEvent};
use echo_cli::scanner::ScanSummary;
use echo_cli::search::SearchResult;

fn track(title: &str, artist: Option<&str>, path: &str) -> Track {
    Track {
        id: None,
        title: title.to_string(),
        artist: artist.map(str::to_string),
        album: None,
        album_artist: None,
        track_number: None,
        disc_number: None,
        duration_ms: None,
        sample_rate: None,
        channel_count: None,
        bit_depth: None,
        path: path.to_string(),
        modified_unix: 0,
        size_bytes: 0,
    }
}

fn device(id: &str, name: &str, is_default: bool) -> AudioDevice {
    AudioDevice {
        id: id.to_string(),
        name: name.to_string(),
        is_default,
    }
}

fn facts(recent_errors: Vec<(String, String)>) -> DoctorFacts {
    DoctorFacts {
        os: "linux".to_string(),
        arch: "x86_64".to_string(),
        backend: "CPAL",
        exclusive: "planned",
        default_device: "Speakers".to_string(),
        devices: vec![device("a", "Speakers", true), device("b", "USB", false)],
        database_path: "/c/library.sqlite3".to_string(),
        config_dir: "/config".to_string(),
        cache_dir: "/c".to_string(),
        track_count: 12,
        recent_errors,
    }
}

#[test]
fn the_shell_opens_without_a_command() {
    for command in [None, Some(Command::Shell), Some(Command::Tui)] {
        assert!(Cli { command }.opens_shell());
    }
    for command in [
        Command::Scan {
            folder: "C:/Music".to_string(),
        },
        Command::Search {
            query: "moon".to_string(),
        },
        Command::Play {
            query_or_path: "moon".to_string(),
        },
        Command::Devices,
        Command::UseDevice {
            device_id_or_name: "usb".to_string(),
        },
        Command::Doctor,
        Command::Version,
    ] {
        assert!(!Cli {
            command: Some(command)
        }
        .opens_shell());
    }
}

#[test]
fn long_texts_are_truncated() {
    assert_eq!(truncate("abcdef", 6), "abcdef");
    assert_eq!(truncate("abcdef", 5), "ab...");
    assert_eq!(truncate("abcdef", 3), "...");
    assert_eq!(truncate("abcdef", 0), "");
    assert_eq!(truncate("月光月光月光", 4), "月...");
}

#[test]
fn durations_are_minutes_and_seconds() {
    assert_eq!(format_duration(0), "0:00");
    assert_eq!(format_duration(65_999), "1:05");
    assert_eq!(format_duration(3_600_000), "60:00");
    assert_eq!(bit_depth_text(Some(24)), " / 24-bit");
    assert_eq!(bit_depth_text(None), "");
}

#[test]
fn the_version_names_the_application() {
    assert_eq!(version_line(), "ECHO CLI 0.1.0");
}

#[test]
fn a_scan_is_reported() {
    assert_eq!(
        scan_header_lines("/music", "/db"),
        vec!["ECHO CLI  scan", "  folder  /music", "  db      /db"]
    );
    let summary = ScanSummary {
        scanned_files: 140,
        indexed_tracks: 138,
        skipped_unchanged: 2,
        failed_files: 1,
        removed_missing: 0,
        elapsed_ms: 65,
    };
    assert_eq!(
        scan_report_lines(&summary),
        vec![
            "",
            "indexed   138",
            "scanned   140",
            "skipped   2",
            "failed    1",
            "removed   0",
            "elapsed   65 ms",
        ]
    );
}

#[test]
fn search_results_are_laid_out_in_columns() {
    assert_eq!(
        search_report_lines("moon", &[]),
        vec!["ECHO CLI  search  /moon", "no matches"]
    );
    let results = [
        SearchResult {
            track: track("Moon Halo", Some("Mili"), "/m/a.flac"),
            score: 80,
        },
        SearchResult {
            track: track(&"x".repeat(60), None, "/m/b.flac"),
            score: 60,
        },
    ];
    let lines = search_report_lines("moon", &results);
    assert_eq!(
        lines[1],
        format!("{:>2}. {:<42}  {:<28}  {}", 1, "Moon Halo", "Mili", "/m/a.flac")
    );
    assert_eq!(
        lines[2],
        format!(
            "{:>2}. {}...  {:<28}  {}",
            2,
            "x".repeat(39),
            "unknown artist",
            "/m/b.flac"
        )
    );
}

#[test]
fn devices_are_reported() {
    assert_eq!(
        device_report_lines(&[device("a", "Speakers", true), device("b", "USB", false)]),
        vec!["ECHO CLI  devices", "- Speakers [a] default", "- USB [b] "]
    );
    assert_eq!(
        use_device_lines("usb")[0],
        "device preference is a Phase 4 feature: usb"
    );
}

#[test]
fn the_doctor_reports_everything() {
    assert_eq!(
        doctor_lines(&facts(Vec::new())),
        vec![
            "ECHO CLI  doctor",
            "  os                     linux x86_64",
            "  audio backend          CPAL",
            "  wasapi exclusive       planned",
            "  default output device  Speakers",
            "  available devices",
            "    - Speakers (default)",
            "    - USB",
            "  database path          /c/library.sqlite3",
            "  config path            /config",
            "  cache path             /c",
            "  library tracks         12",
            "  supported formats      mp3, flac, wav, mp4, m4a",
            "  recent scan errors     none",
        ]
    );
    let errors = vec![("/m/a.flac".to_string(), "e".repeat(80))];
    let lines = doctor_lines(&facts(errors));
    assert_eq!(lines[13], "  recent scan errors");
    assert_eq!(lines[14], format!("    - /m/a.flac :: {}...", "e".repeat(69)));
    assert_eq!(
        shell_doctor_lines(&facts(Vec::new()))[6],
        "formats             mp3, flac, wav, mp4, m4a"
    );
}

#[test]
fn playback_is_reported() {
    let event = PlaybackEvent::Playing {
        title: "Moon".to_string(),
        stream: DecodeStreamInfo {
            sample_rate: 44_100,
            channel_count: 2,
            bit_depth: Some(16),
            duration_ms: Some(65_000),
        },
        output: OutputStreamInfo {
            device_name: "Speakers".to_string(),
            mode: "shared",
            sample_rate: 48_000,
            channel_count: 2,
            sample_format: "F32".to_string(),
            buffer_size: "Default".to_string(),
            warnings: Vec::new(),
        },
    };
    assert_eq!(
        playback_report_lines(&event),
        vec![
            "  output   Speakers / shared",
            "  format   48000 Hz / 2ch / F32",
            "  buffer   Default",
            "  source   44100 Hz / 2ch / 16-bit",
            "  length   1:05",
            "  status   playing",
        ]
    );
    assert_eq!(
        playback_report_lines(&PlaybackEvent::Loading {
            title: "Moon".to_string(),
            path: "/m/a.flac".to_string(),
        }),
        vec![
            "ECHO  playing",
            "  track    Moon",
            "  source   /m/a.flac",
            "  status   decoding...",
        ]
    );
    assert_eq!(
        playback_report_lines(&PlaybackEvent::Warning("slow".to_string())),
        vec!["  warning  slow"]
    );
    assert_eq!(
        playback_report_lines(&PlaybackEvent::Finished {
            title: "Moon".to_string(),
            elapsed_ms: 9,
        }),
        vec!["  status   finished in 9 ms"]
    );
    assert_eq!(
        playback_report_lines(&PlaybackEvent::Error {
            path: "/m/a.flac".to_string(),
            message: "bad".to_string(),
        }),
        vec!["  status   failed", "  error    bad"]
    );
}

#[test]
fn an_error_is_told_once() {
    let failed = Err(EchoError::Audio("gone".to_string()));
    assert_eq!(closing_event(true, "/m/a.flac", &failed), None);
    assert_eq!(
        closing_event(false, "/m/a.flac", &failed),
        Some(PlaybackEvent::Error {
            path: "/m/a.flac".to_string(),
            message: "audio output failed: gone".to_string(),
        })
    );
    assert_eq!(closing_event(false, "/m/a.flac", &Ok(())), None);
}

#[test]
fn playback_commands_are_told_apart() {
    assert_ne!(PlaybackCommand::Next, PlaybackCommand::Previous);
    assert_eq!(PlaybackCommand::SeekMillis(5), PlaybackCommand::SeekMillis(5));
}
