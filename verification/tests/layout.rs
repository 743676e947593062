use echo_cli::library::Track;
use echo_cli::playback::PlaybackEvent;
use echo_cli::scanner::ScanSummary;
use echo_cli::shell::info::{
    explorer_select_path, format_duration, format_size, format_track_number,
    format_track_technical_summary, track_info_lines, two_digit_text,
};
use echo_cli::shell::language::ShellLanguage;
use echo_cli::shell::layout::{
    compact, compact_path, display_char_width, display_columns, display_width, fit_line_to_width,
    padded, padded_to,
};
use echo_cli::shell::messages::{
    language_status_lines, language_usage_lines, next_steps_lines, no_results_yet_lines,
    playback_event_lines, result_header, scan_summary_line,
};
use echo_cli::shell::results::{
    current_result_index, is_current_track, relative_result_index, result_line_for_width,
    result_table_header_for_width, shuffle_result_index,
};
use echo_cli::shell::welcome::{
    card_blank_row, card_divider, card_line_style, card_row, card_split_row,
    terminal_width_for_cards, welcome_card_lines, welcome_hint, CardStyle,
};

const SAMPLES: [&str; 8] = [
    "",
    "a",
    "Moon Halo",
    "月光",
    "インターネット最高: NSO",
    "mixed 月光 halo",
    "D:\\MusicRin\\油兔凡云视听曲目\\KIDS.flac",
    "🎵 tune",
];

fn track(title: &str) -> Track {
    Track {
        id: None,
        title: title.to_string(),
        artist: Some("Mili".to_string()),
        album: None,
        album_artist: None,
        track_number: None,
        disc_number: None,
        duration_ms: None,
        sample_rate: None,
        channel_count: None,
        bit_depth: None,
        path: format!("/music/{}.flac", title),
        modified_unix: 0,
        size_bytes: 0,
    }
}

// ------------------------------------------------------------------ columns

#[test]
fn wide_characters_take_two_columns() {
    assert_eq!(display_char_width('a'), 1);
    assert_eq!(display_char_width('月'), 2);
    assert_eq!(display_width("a月b"), 4);
    assert_eq!(display_columns("a月b"), 4);
}

#[test]
fn compacted_texts_fit() {
    for width in 3..30 {
        for sample in SAMPLES {
            let text = compact(sample, width);
            assert!(display_columns(&text) <= width, "{:?} in {}", sample, width);
            if display_columns(sample) <= width {
                assert_eq!(text, sample);
            }
            let path = compact_path(sample, width);
            assert!(display_columns(&path) <= width, "{:?} in {}", sample, width);
        }
    }
    assert_eq!(compact("Moon Halo", 7), "Moon...");
}

#[test]
fn padded_texts_reach_their_width() {
    for sample in SAMPLES {
        for width in 0..24u16 {
            let wanted = display_columns(sample).max(usize::from(width));
            assert_eq!(display_columns(&padded(sample, width)), wanted);
            assert_eq!(display_columns(&padded_to(sample, usize::from(width))), wanted);
        }
    }
    assert_eq!(padded("月", 4), "月  ");
    assert_eq!(fit_line_to_width("Moon Halo", 20), "Moon Halo");
    assert!(display_columns(&fit_line_to_width("mixed 月光 halo", 9)) <= 9);
}

// ------------------------------------------------------------------ results

#[test]
fn result_lines_fit_the_terminal() {
    for width in [20, 48, 80, 120, 300] {
        for index in [1, 12, 345] {
            for sample in SAMPLES {
                let song = track(sample);
                let line = result_line_for_width(index, &song, Some(&song), width);
                assert!(
                    display_columns(&line) <= usize::from(width).max(48),
                    "{:?} in {}",
                    line,
                    width
                );
                assert!(line.starts_with('>'));
            }
        }
        assert!(display_columns(&result_table_header_for_width(width)) <= usize::from(width).max(48));
    }
}

#[test]
fn going_on_and_back_returns() {
    let tracks = [track("a"), track("b"), track("c")];
    for (index, song) in tracks.iter().enumerate() {
        let next = relative_result_index(&tracks, Some(song), 1).unwrap();
        assert_eq!(
            relative_result_index(&tracks, Some(&tracks[next]), -1),
            Some(index)
        );
        assert_eq!(current_result_index(&tracks, Some(song)), Some(index));
        assert!(is_current_track(song, Some(song)));
        for seed in 0..12 {
            assert_ne!(shuffle_result_index(&tracks, Some(song), seed), Some(index));
        }
    }
    assert_eq!(relative_result_index(&tracks, Some(&tracks[1]), 5), Some(0));
    assert_eq!(relative_result_index(&tracks, Some(&tracks[1]), -4), Some(0));
    assert!(!is_current_track(&tracks[0], None));
}

#[test]
fn headers_count_tracks() {
    assert_eq!(result_header("moon", 0), "moon: 0 tracks");
}

// ------------------------------------------------------------------ details

#[test]
fn sizes_are_rounded_as_floats_round_them() {
    let kib: f64 = 1024.0;
    let expected = |size_bytes: u64| {
        let size = size_bytes as f64;
        if size >= kib * kib * kib {
            format!("{:.1} GiB", size / (kib * kib * kib))
        } else if size >= kib * kib {
            format!("{:.1} MiB", size / (kib * kib))
        } else if size >= kib {
            format!("{:.1} KiB", size / kib)
        } else {
            format!("{} B", size_bytes)
        }
    };
    let mut sizes: Vec<u64> = (0..70_000).collect();
    for shift in 10..64u32 {
        let power = 1u64 << shift;
        for offset in 0..40 {
            sizes.push(power + offset);
            sizes.push(power - 1 - offset);
            sizes.push(power + (power >> 2) + offset);
            sizes.push(power.wrapping_mul(3) / 2 + offset);
            sizes.push(power / 20 * 21 + offset);
            sizes.push(power / 20 * 23 - offset);
        }
    }
    for n in 0..40_000u64 {
        sizes.push(n.wrapping_mul(0x9e37_79b9_7f4a_7c15));
        sizes.push(n * 52_428 + n / 2);
        sizes.push(n * 53_687_091);
    }
    sizes.push(u64::MAX);
    for size in sizes {
        assert_eq!(format_size(size), expected(size), "{}", size);
    }
}

#[test]
fn durations_show_hours_where_needed() {
    assert_eq!(format_duration(0), "0:00");
    assert_eq!(format_duration(3_599_999), "59:59");
    assert_eq!(format_duration(3_661_000), "1:01:01");
    assert_eq!(two_digit_text(7), "07");
    assert_eq!(two_digit_text(12), "12");
}

#[test]
fn details_of_a_track_are_told() {
    assert_eq!(format_track_number(None, Some(7)), "7");
    let unknown = format_track_number(None, None);
    assert_ne!(unknown, "");
    let mut song = track("Moon Halo");
    song.sample_rate = Some(44_100);
    assert!(format_track_technical_summary(&song).contains("44100 Hz"));
    let lines = track_info_lines("now", &song);
    assert!(lines[0].contains("now"));
    assert!(lines.iter().any(|line| line.contains("Moon Halo")));
    assert!(lines.iter().any(|line| line.contains("/music/Moon Halo.flac")));
    assert_eq!(explorer_select_path("/music/a.flac"), "/music/a.flac");
}

// ------------------------------------------------------------------ the card

#[test]
fn every_line_of_the_card_has_its_width() {
    for width in [0, 50, 72, 100, 131] {
        for language in [ShellLanguage::English, ShellLanguage::Chinese] {
            let long_device = "Speakers 油兔凡云视听曲目 ".repeat(9);
            let device = long_device.as_str();
            let lines = welcome_card_lines(3, device, language, width);
            let columns = display_columns(&lines[0]);
            assert!(columns >= width);
            for line in &lines {
                assert_eq!(display_columns(line), columns);
            }
            assert_eq!(lines.len(), 14);
        }
    }
}

#[test]
fn rows_of_the_card_are_framed() {
    assert_eq!(card_row("a", 3), "| a   |");
    assert_eq!(card_blank_row(3), "|     |");
    assert_eq!(card_split_row("a", "b", 2, 3), "| a  | b   |");
    assert_eq!(card_divider(1, 2), "|---+----|");
    assert_eq!(card_line_style(0, 14, "+--+"), CardStyle::Frame);
    assert_eq!(card_line_style(13, 14, "+--+"), CardStyle::Frame);
    assert_ne!(
        welcome_hint(true, ShellLanguage::English),
        welcome_hint(false, ShellLanguage::English)
    );
    for (terminal, card) in [(Some(20), 64), (Some(64), 64), (Some(80), 80), (Some(300), 96), (None, 82)] {
        assert_eq!(terminal_width_for_cards(terminal), card);
    }
}

// ------------------------------------------------------------------ messages

#[test]
fn every_state_has_next_steps() {
    for language in [ShellLanguage::English, ShellLanguage::Chinese] {
        for playing in [None, Some("Moon")] {
            for count in [0, 5] {
                for results in [0, 3] {
                    let lines = next_steps_lines(playing, count, results, language);
                    assert!(lines.len() > 1);
                    if let Some(title) = playing {
                        assert!(lines[1].contains(title));
                    }
                }
            }
        }
        assert!(!language_status_lines(language).is_empty());
        assert!(!language_usage_lines(language).is_empty());
        assert!(!no_results_yet_lines(language).is_empty());
    }
}

#[test]
fn a_scan_is_summed_up() {
    let summary = ScanSummary {
        scanned_files: 140,
        indexed_tracks: 138,
        skipped_unchanged: 2,
        failed_files: 1,
        removed_missing: 0,
        elapsed_ms: 65,
    };
    assert_eq!(
        scan_summary_line(&summary, ShellLanguage::Chinese),
        "已入库 138 | 已扫描 140 | 已跳过 2 | 失败 1 | 已移除 0 | 65 ms"
    );
    assert!(scan_summary_line(&summary, ShellLanguage::English).contains("138"));
}

#[test]
fn every_event_is_told() {
    for language in [ShellLanguage::English, ShellLanguage::Chinese] {
        for event in [
            PlaybackEvent::Warning("slow".to_string()),
            PlaybackEvent::Resumed {
                title: "Moon".to_string(),
            },
            PlaybackEvent::Stopped {
                title: "Moon".to_string(),
                elapsed_ms: 5,
            },
            PlaybackEvent::Finished {
                title: "Moon".to_string(),
                elapsed_ms: 5,
            },
            PlaybackEvent::Error {
                path: "/m/a.flac".to_string(),
                message: "bad".to_string(),
            },
        ] {
            assert!(!playback_event_lines(&event, language).is_empty());
        }
    }
}
