use echo_cli::areas::{
    body_areas, body_parts, centered_parts, centered_rect, now_areas, now_parts, root_areas,
    root_parts, Area, Part,
};
use echo_cli::audio_backend::OutputStreamInfo;
use echo_cli::decoder::DecodeStreamInfo;
use echo_cli::device::AudioDevice;
use echo_cli::library::Track;
use echo_cli::playback::PlaybackEvent;
use echo_cli::scanner::ScanSummary;
use echo_cli::shell::reader::{Key, KeyPress};
use ratatui::layout::{Constraint, Direction, Layout, Rect};
use echo_cli::tui::{scan_status, InputMode, NowPlaying, TuiAction, TuiApp, LIBRARY_LIMIT, SEARCH_LIMIT};

fn track(title: &str) -> Track {
    Track {
        id: None,
        title: title.to_string(),
        artist: None,
        album: None,
        album_artist: None,
        track_number: None,
        disc_number: None,
        duration_ms: None,
        sample_rate: None,
        channel_count: None,
        bit_depth: None,
        path: format!("/music/{}.flac", title),
        modified_unix: 0,
        size_bytes: 0,
    }
}

fn device(name: &str, is_default: bool) -> AudioDevice {
    AudioDevice {
        id: name.to_string(),
        name: name.to_string(),
        is_default,
    }
}

fn app(count: usize) -> TuiApp {
    let tracks = (1..=count).map(|n| track(&format!("Song {}", n))).collect();
    TuiApp::load(tracks, vec![device("Speakers", true), device("USB", false)], count as u64)
}

fn key(app: &mut TuiApp, key: Key) -> TuiAction {
    app.handle_key(KeyPress {
        key,
        control: false,
        modifiers: 0,
    })
}

fn type_in(app: &mut TuiApp, text: &str) {
    for character in text.chars() {
        key(app, Key::Char(character));
    }
}

fn playing(bit_depth: Option<u32>, duration_ms: Option<u64>) -> PlaybackEvent {
    PlaybackEvent::Playing {
        title: "Moon".to_string(),
        stream: DecodeStreamInfo {
            sample_rate: 44_100,
            channel_count: 2,
            bit_depth,
            duration_ms,
        },
        output: OutputStreamInfo {
            device_name: "Speakers".to_string(),
            mode: "shared",
            sample_rate: 48_000,
            channel_count: 2,
            sample_format: "F32".to_string(),
            buffer_size: "Default".to_string(),
            warnings: Vec::new(),
        },
    }
}

// ------------------------------------------------------------------ browsing

#[test]
fn the_screen_starts_browsing() {
    let app = app(3);
    assert_eq!(app.input_mode, InputMode::Browse);
    assert_eq!(app.list_selection(), Some(0));
    assert_eq!(app.prompt(), "ready");
    assert_eq!(app.title_line(), "ECHO CLI  browse  3 tracks");
    assert_eq!(app.library_title(), " Library ");
    assert_eq!(app.busy_text(), None);
    assert_eq!((LIBRARY_LIMIT, SEARCH_LIMIT), (500, 200));
    assert_eq!(self::app(0).list_selection(), None);
}

#[test]
fn the_selection_stays_in_the_list() {
    let mut app = app(3);
    for (step, selected) in [(1, 1), (1, 2), (1, 2), (-1, 1), (-5, 0), (7, 2)] {
        app.move_selection(step);
        assert_eq!(app.selected, selected);
    }
    key(&mut app, Key::Up);
    assert_eq!(app.selected, 1);
    key(&mut app, Key::Char('j'));
    assert_eq!(app.selected, 2);
    let mut empty = self::app(0);
    empty.move_selection(1);
    assert_eq!(empty.selected, 0);
}

#[test]
fn one_track_plays_on_the_screen() {
    let mut app = app(3);
    assert!(matches!(
        key(&mut app, Key::Char('n')),
        TuiAction::Play(track) if track.title == "Song 2"
    ));
    assert!(app.playback_busy);
    assert_eq!(app.status, "loading Song 2");
    assert_eq!(app.busy_text(), Some("playing"));
    assert!(matches!(key(&mut app, Key::Enter), TuiAction::Nothing));
    assert_eq!(app.status, "playback is already active");
    app.playback_failed("no threads");
    assert!(!app.playback_busy);
    assert_eq!(app.status, "playback thread failed: no threads");
    assert!(matches!(
        key(&mut app, Key::Char('p')),
        TuiAction::Play(track) if track.title == "Song 1"
    ));

    let mut empty = self::app(0);
    assert!(matches!(key(&mut empty, Key::Enter), TuiAction::Nothing));
    assert_eq!(empty.status, "library is empty");
}

#[test]
fn other_keys_change_the_screen() {
    let mut app = app(1);
    assert!(app.device_panel_visible);
    key(&mut app, Key::Char('d'));
    assert!(!app.device_panel_visible);
    key(&mut app, Key::Char('x'));
    assert_eq!(app.status, "exclusive mode lands in Phase 4");
    key(&mut app, Key::Char(' '));
    assert_eq!(app.status, "pause/resume lands after nonblocking controls");
    key(&mut app, Key::Char('q'));
    assert!(app.should_quit);
    let mut other = self::app(1);
    other.handle_key(KeyPress {
        key: Key::Char('c'),
        control: true,
        modifiers: 2,
    });
    assert!(other.should_quit);
}

// ------------------------------------------------------------------ searching

#[test]
fn a_search_is_typed_and_left() {
    let mut app = app(3);
    key(&mut app, Key::Char('/'));
    assert_eq!(app.input_mode, InputMode::Search);
    assert!(matches!(key(&mut app, Key::Char('月')), TuiAction::Search));
    assert_eq!(app.prompt(), "/月");
    assert_eq!(app.library_title(), " Library / 月");
    app.selected = 2;
    app.apply_search(vec![track("Moon")]);
    assert_eq!(app.selected, 0);
    assert_eq!(app.status, "1 matches");
    assert!(matches!(key(&mut app, Key::Backspace), TuiAction::Search));
    assert_eq!(app.input, "");
    assert!(matches!(key(&mut app, Key::Esc), TuiAction::Refresh));
    app.selected = 0;
    app.refresh_library(2, vec![track("A"), track("B")]);
    assert_eq!(app.status, "2 tracks indexed");
    assert_eq!(app.library_count, 2);
}

#[test]
fn refreshing_keeps_the_selection_in_the_list() {
    let mut app = app(5);
    app.move_selection(4);
    app.refresh_library(2, vec![track("A"), track("B")]);
    assert_eq!(app.selected, 1);
    app.refresh_library(0, Vec::new());
    assert_eq!(app.selected, 0);
    assert_eq!(app.list_selection(), None);
}

// ------------------------------------------------------------------ commands

#[test]
fn commands_are_typed_and_run() {
    let mut app = app(1);
    key(&mut app, Key::Char(':'));
    type_in(&mut app, "devices");
    assert_eq!(app.prompt(), ":devices");
    assert!(matches!(key(&mut app, Key::Enter), TuiAction::ListDevices));
    app.show_devices(vec![device("A", true)]);
    assert_eq!(app.status, "1 output devices");

    key(&mut app, Key::Char(':'));
    type_in(&mut app, "doctor");
    assert!(matches!(key(&mut app, Key::Enter), TuiAction::Doctor));
    app.show_doctor(7, "Speakers");
    assert_eq!(app.status, "7 tracks / 1 devices / Speakers");

    key(&mut app, Key::Char(':'));
    type_in(&mut app, "dance now");
    key(&mut app, Key::Enter);
    assert_eq!(app.status, "unknown command: dance");
    assert_eq!(app.console_rows(), vec![":dance now", ":doctor", ":devices"]);

    key(&mut app, Key::Char(':'));
    key(&mut app, Key::Enter);
    assert_eq!(app.status, "ready");
    key(&mut app, Key::Char(':'));
    type_in(&mut app, "clear");
    key(&mut app, Key::Enter);
    assert_eq!(app.status, "cleared");
    assert!(app.command_history.is_empty());
    key(&mut app, Key::Char(':'));
    type_in(&mut app, "quit");
    key(&mut app, Key::Enter);
    assert!(app.should_quit);
}

#[test]
fn one_scan_runs_at_a_time() {
    let mut app = app(1);
    key(&mut app, Key::Char(':'));
    type_in(&mut app, "scan");
    key(&mut app, Key::Enter);
    assert_eq!(app.status, "scan needs a folder");
    key(&mut app, Key::Char(':'));
    type_in(&mut app, "scan /music");
    assert!(matches!(
        key(&mut app, Key::Enter),
        TuiAction::Scan(folder) if folder == "/music"
    ));
    app.folder_missing("/music");
    assert_eq!(app.status, "folder not found: /music");
    app.scan_started("/music");
    assert_eq!(app.status, "scanning /music");
    assert_eq!(app.busy_text(), Some("scanning"));
    key(&mut app, Key::Char(':'));
    type_in(&mut app, "scan /music");
    assert!(matches!(key(&mut app, Key::Enter), TuiAction::Nothing));
    assert_eq!(app.status, "scan is already active");

    let summary = ScanSummary {
        scanned_files: 5,
        indexed_tracks: 3,
        skipped_unchanged: 2,
        failed_files: 1,
        removed_missing: 0,
        elapsed_ms: 9,
    };
    assert_eq!(scan_status(&summary), "scan indexed 3 / skipped 2 / failed 1");
    assert!(matches!(
        app.scan_ended(Ok(scan_status(&summary))),
        TuiAction::Refresh
    ));
    assert!(!app.scan_busy);
    app.scan_started("/music");
    assert!(matches!(app.scan_ended(Err("denied".to_string())), TuiAction::Nothing));
    assert_eq!(app.status, "scan failed: denied");
}

// ------------------------------------------------------------------ playback

#[test]
fn playback_events_change_what_is_shown() {
    let mut app = app(1);
    app.apply_playback_event(
        PlaybackEvent::Loading {
            title: "Moon".to_string(),
            path: "/m/a.flac".to_string(),
        },
        0,
    );
    assert_eq!(app.now_playing.status, "decoding");
    app.apply_playback_event(playing(Some(16), Some(4_000)), 1_000);
    assert_eq!(app.now_playing.output, "Speakers / shared / 48000 Hz");
    assert_eq!(app.now_playing.source_format, "44100 Hz / 2ch / 16-bit");
    assert_eq!(app.now_playing.estimated_progress(2_500), Some(1_500));
    let parts = app.progress_ratio(2_000);
    assert_eq!(parts.done as f64 / parts.total as f64, 0.25);
    assert_eq!(app.progress_label(2_000), "0:01 / 0:04");
    app.apply_playback_event(PlaybackEvent::Warning("slow".to_string()), 0);
    assert_eq!(app.status, "warning: slow");
    app.apply_playback_event(
        PlaybackEvent::Finished {
            title: "Moon".to_string(),
            elapsed_ms: 4_000,
        },
        9_000,
    );
    assert_eq!(app.status, "finished in 4000 ms");
    assert_eq!(app.progress_label(99_000), "0:04 / 0:04");
    app.playback_busy = true;
    app.apply_playback_event(
        PlaybackEvent::Error {
            path: "/m/a.flac".to_string(),
            message: "bad frame".to_string(),
        },
        0,
    );
    assert_eq!(app.status, "bad frame");
    assert_eq!(app.now_playing.status, "error");
    assert!(!app.playback_busy);
}

#[test]
fn the_progress_never_passes_the_end() {
    let mut app = app(1);
    let parts = app.progress_ratio(5);
    assert_eq!(parts.done, 0);
    assert!(parts.total > 0);
    app.now_playing.duration_ms = Some(0);
    assert_eq!(app.progress_ratio(5).done, 0);
    app.apply_playback_event(playing(None, Some(1_000)), 0);
    for now in [0, 500, 1_000, 5_000, u64::MAX] {
        let parts = app.progress_ratio(now);
        assert!(parts.done <= parts.total);
        assert!(parts.total > 0);
    }
    assert_eq!(NowPlaying::empty().estimated_progress(5), None);
}

#[test]
fn rows_are_shortened_to_their_columns() {
    let mut app = app(1);
    app.tracks[0].title = "t".repeat(50);
    let rows = app.library_rows();
    assert_eq!(rows[0].0, format!("{}...", "t".repeat(31)));
    assert_eq!(rows[0].1, "unknown artist");
    assert_eq!(
        app.device_rows(),
        vec![("* ", "Speakers".to_string()), ("  ", "USB".to_string())]
    );
    let now = app.now_rows();
    assert_eq!(now.len(), 5);
    assert_eq!(now[0], ("track   ", "No track".to_string()));
    assert_eq!(now[2], ("output  ", "system default".to_string()));
}

// ------------------------------------------------------------------ areas

fn inside(part: Area, whole: Area) -> bool {
    part.x >= whole.x
        && part.y >= whole.y
        && part.x as u32 + part.width as u32 <= whole.x as u32 + whole.width as u32
        && part.y as u32 + part.height as u32 <= whole.y as u32 + whole.height as u32
}

const SCREEN: Area = Area {
    x: 0,
    y: 0,
    width: 100,
    height: 40,
};

#[test]
fn the_screen_is_split_into_rows() {
    assert_eq!(root_parts(), vec![Part::Length(1), Part::Min(8), Part::Length(3)]);
    let areas = root_areas(SCREEN);
    assert_eq!(areas.len(), 3);
    assert_eq!(areas[0], Area { height: 1, ..SCREEN });
    assert_eq!(
        areas[1],
        Area {
            y: 1,
            height: 36,
            ..SCREEN
        }
    );
    assert_eq!(
        areas[2],
        Area {
            y: 37,
            height: 3,
            ..SCREEN
        }
    );
}

#[test]
fn the_body_is_split_into_columns() {
    assert_eq!(body_parts(false), vec![Part::Percentage(38), Part::Percentage(62)]);
    let areas = body_areas(SCREEN, true);
    assert_eq!(areas.len(), 3);
    assert_eq!(areas[0].width, 34);
    assert_eq!(areas[1].x, 34);
    assert_eq!(areas[2].width, 24);
    assert_eq!(body_areas(SCREEN, false).len(), 2);
    assert_eq!(now_parts().len(), 3);
    let now = now_areas(areas[1]);
    assert_eq!(now[0].height, 8);
    for area in now {
        assert!(inside(area, areas[1]));
        assert_eq!((area.x, area.width), (areas[1].x, areas[1].width));
    }
}

#[test]
fn small_screens_hold_their_parts() {
    for width in [0, 1, 7, 40] {
        for height in [0, 1, 5, 12] {
            let whole = Area {
                x: 3,
                y: 2,
                width,
                height,
            };
            for area in root_areas(whole) {
                assert!(inside(area, whole));
            }
            assert!(inside(centered_rect(38, 3, whole), whole));
        }
    }
}

#[test]
fn the_overlay_stands_in_the_middle() {
    let (rows, columns) = centered_parts(38, 3);
    assert_eq!(rows, vec![Part::Min(0), Part::Length(3), Part::Min(0)]);
    assert_eq!(
        columns,
        vec![Part::Percentage(31), Part::Percentage(38), Part::Percentage(31)]
    );
    let overlay = centered_rect(38, 3, SCREEN);
    assert_eq!(overlay.width, 38);
    assert_eq!(overlay.height, 3);
}

#[test]
fn the_cursor_follows_what_is_typed() {
    let mut app = app(1);
    let area = Area {
        x: 0,
        y: 37,
        width: 10,
        height: 3,
    };
    assert_eq!(app.prompt_cursor(area), None);
    key(&mut app, Key::Char('/'));
    type_in(&mut app, "月光");
    assert_eq!(app.prompt_cursor(area), Some((4, 38)));
    type_in(&mut app, "abcdef");
    assert_eq!(app.prompt_cursor(area), None);
}

/// The size of an area along the rows, which end at the last row there is.
fn rows_in(area: Area) -> u32 {
    (u32::from(area.y) + u32::from(area.height)).min(65_535) - u32::from(area.y)
}

fn columns_in(area: Area) -> u32 {
    (u32::from(area.x) + u32::from(area.width)).min(65_535) - u32::from(area.x)
}

fn percent_cut(area: Area, percent: u32) -> u32 {
    u32::from(area.x) + (percent * columns_in(area) + 50) / 100
}

#[test]
fn roomy_screens_are_cut_exactly() {
    for height in (12..400).chain([1_000, 9_999, 65_535]) {
        for y in [0, 3, 65_000] {
            let whole = Area {
                x: 1,
                y,
                width: 9,
                height,
            };
            let rows = rows_in(whole) as u16;
            let areas = root_areas(whole);
            assert_eq!(areas[0], Area { height: 1, ..whole });
            assert_eq!(
                areas[1],
                Area {
                    y: y + 1,
                    height: rows - 4,
                    ..whole
                }
            );
            assert_eq!(
                areas[2],
                Area {
                    y: y + rows - 3,
                    height: 3,
                    ..whole
                }
            );
            if rows >= 15 {
                let areas = now_areas(whole);
                assert_eq!(areas[0], Area { height: 8, ..whole });
                assert_eq!(
                    areas[1],
                    Area {
                        y: y + 8,
                        height: 3,
                        ..whole
                    }
                );
                assert_eq!(
                    areas[2],
                    Area {
                        y: y + 11,
                        height: rows - 11,
                        ..whole
                    }
                );
            }
        }
    }
}

#[test]
fn columns_are_cut_at_their_percentages() {
    for width in (0..700).chain([1_000, 9_999, 30_001, 65_535]) {
        for x in [0, 7, 64_900] {
            let whole = Area {
                x,
                y: 2,
                width,
                height: 5,
            };
            for (visible, percents) in [(true, vec![0, 34, 76, 100]), (false, vec![0, 38, 100])] {
                let areas = body_areas(whole, visible);
                assert_eq!(areas.len(), percents.len() - 1);
                for (index, area) in areas.iter().enumerate() {
                    let from = percent_cut(whole, percents[index]);
                    let to = percent_cut(whole, percents[index + 1]);
                    assert_eq!(u32::from(area.x), from, "{:?}", whole);
                    assert_eq!(u32::from(area.width), to - from, "{:?}", whole);
                    assert_eq!((area.y, area.height), (2, 5));
                }
            }
        }
    }
}

#[test]
fn overlays_are_centered_exactly() {
    for percent in [0, 2, 38, 50, 64, 98, 100] {
        for height in [0, 1, 3, 10] {
            for (width, rows) in [(80, 24), (81, 25), (100, 10), (7, 11), (333, 100), (1, 77)] {
                let whole = Area {
                    x: 4,
                    y: 6,
                    width,
                    height: rows,
                };
                let overlay = centered_rect(percent, height, whole);
                assert_eq!(overlay.height, height);
                assert_eq!(overlay.y, 6 + (rows - height + 1) / 2, "{:?}", whole);
                let side = (100 - u32::from(percent)) / 2;
                let from = percent_cut(whole, side);
                let to = percent_cut(whole, side + u32::from(percent));
                assert_eq!(u32::from(overlay.x), from, "{} of {:?}", percent, whole);
                assert_eq!(u32::from(overlay.width), to - from);
            }
        }
    }
}

#[test]
fn parts_have_what_they_ask_for_where_all_can() {
    let mut seed: u32 = 7;
    let mut next = |below: u32| {
        seed = seed.wrapping_mul(1_664_525).wrapping_add(1_013_904_223);
        (seed >> 8) % below
    };
    for _ in 0..3_000 {
        let count = 1 + next(5) as usize;
        let flexible = 1 + next(2).min(count as u32 - 1) as usize;
        let mut lengths: Vec<Option<u16>> = (0..count)
            .map(|index| {
                if index < flexible {
                    None
                } else {
                    Some(next(30) as u16)
                }
            })
            .collect();
        let turn = next(count as u32) as usize;
        lengths.rotate_left(turn);
        let fixed: u32 = lengths.iter().flatten().map(|size| u32::from(*size)).sum();
        let rest = next(60);
        let extent = fixed + rest;
        let least = next(1 + rest / flexible as u32) as u16;
        let constraints: Vec<Constraint> = lengths
            .iter()
            .map(|length| match length {
                Some(size) => Constraint::Length(*size),
                None => Constraint::Min(least),
            })
            .collect();
        let x = next(50) as u16;
        let rects = Layout::default()
            .direction(Direction::Horizontal)
            .constraints(constraints.clone())
            .split(Rect {
                x,
                y: 1,
                width: extent as u16,
                height: 2,
            });
        let mut taken = 0;
        for (rect, length) in rects.iter().zip(&lengths) {
            let from = u32::from(x) + (taken + 50) / 100;
            taken += match length {
                Some(size) => 100 * u32::from(*size),
                None => 100 * rest / flexible as u32,
            };
            let to = u32::from(x) + (taken + 50) / 100;
            assert_eq!(u32::from(rect.x), from, "{:?} {:?}", constraints, extent);
            assert_eq!(u32::from(rect.width), to - from, "{:?} {:?}", constraints, extent);
        }
    }
}

#[test]
fn percentages_of_the_whole_have_what_they_ask_for() {
    let mut seed: u32 = 11;
    let mut next = |below: u32| {
        seed = seed.wrapping_mul(1_664_525).wrapping_add(1_013_904_223);
        (seed >> 8) % below
    };
    for _ in 0..3_000 {
        let count = 1 + next(5) as usize;
        let mut cuts: Vec<u32> = (0..count - 1).map(|_| next(101)).collect();
        cuts.push(0);
        cuts.push(100);
        cuts.sort();
        let constraints: Vec<Constraint> = cuts
            .windows(2)
            .map(|pair| Constraint::Percentage((pair[1] - pair[0]) as u16))
            .collect();
        let x = next(50);
        let extent = next(400);
        let rects = Layout::default()
            .direction(Direction::Horizontal)
            .constraints(constraints.clone())
            .split(Rect {
                x: x as u16,
                y: 1,
                width: extent as u16,
                height: 2,
            });
        for (rect, pair) in rects.iter().zip(cuts.windows(2)) {
            let from = x + (pair[0] * extent + 50) / 100;
            let to = x + (pair[1] * extent + 50) / 100;
            assert_eq!(u32::from(rect.x), from, "{:?} {}", constraints, extent);
            assert_eq!(u32::from(rect.width), to - from, "{:?} {}", constraints, extent);
        }
    }
}
