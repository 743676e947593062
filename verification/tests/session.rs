use echo_cli::audio_backend::OutputStreamInfo;
use echo_cli::decoder::DecodeStreamInfo;
use echo_cli::library::Track;
use echo_cli::playback::{PlaybackControl, PlaybackEvent};
use echo_cli::shell::command::{command_kind, parse_command, CommandKind, COMMAND_NAMES};
use echo_cli::shell::language::ShellLanguage;
use echo_cli::shell::listing::{listing, LineStyle};
use echo_cli::shell::reader::ShellReader;
use echo_cli::shell::session::{
    copied_line, error_lines, fetch_limit, load_result_window, no_playable_match, opened_line,
    EchoShell, LinePlan, Purpose, ShellAction, ShellStep, Showing, RESULT_LIMIT,
};

fn track(title: &str, artist: &str) -> Track {
    Track {
        id: None,
        title: title.to_string(),
        artist: Some(artist.to_string()),
        album: None,
        album_artist: None,
        track_number: None,
        disc_number: None,
        duration_ms: None,
        sample_rate: None,
        channel_count: None,
        bit_depth: None,
        path: format!("/music/{}.flac", title),
        modified_unix: 0,
        size_bytes: 0,
    }
}

fn tracks(count: usize) -> Vec<Track> {
    (1..=count)
        .map(|number| track(&format!("Song {}", number), "Artist"))
        .collect()
}

fn shell(count: usize) -> EchoShell {
    EchoShell::new(tracks(count), ShellLanguage::English)
}

fn texts(lines: &[&str]) -> Vec<String> {
    lines.iter().map(|line| line.to_string()).collect()
}

/// Runs a command that does nothing but speak.
fn said(shell: &mut EchoShell, line: &str) -> Vec<String> {
    let step = shell.run_command(line, 0);
    assert!(matches!(step.action, ShellAction::Nothing), "{:?}", step);
    step.lines
}

/// The title of the track that a step plays.
fn replaced(step: ShellStep) -> String {
    match step.action {
        ShellAction::Replace(track) => track.title,
        ShellAction::PlayQueued { track, .. } => track.title,
        other => panic!("{:?}", other),
    }
}

fn played(shell: &mut EchoShell, line: &str) -> String {
    let step = shell.run_command(line, 0);
    replaced(step)
}

// ------------------------------------------------------------------ commands

#[test]
fn every_name_has_its_command() {
    for (name, kind) in COMMAND_NAMES {
        assert_eq!(command_kind(name), kind);
    }
    assert_eq!(command_kind("nonsense"), CommandKind::Unknown);
}

#[test]
fn commands_are_parted_from_their_arguments() {
    let command = parse_command("/SEARCH   moon halo ");
    assert_eq!(command.kind, CommandKind::Search);
    assert_eq!(command.argument, "moon halo");

    let number = parse_command("#3");
    assert_eq!(number.kind, CommandKind::Play);
    assert_eq!(number.argument, "3");

    let unknown = parse_command(":moon halo");
    assert_eq!(unknown.kind, CommandKind::Unknown);
    assert_eq!(unknown.argument, "moon halo");

    assert_eq!(parse_command("Random").argument, "random");
    assert_eq!(parse_command("").kind, CommandKind::Unknown);
    assert_eq!(parse_command(" /search moon").kind, CommandKind::Unknown);
}

#[test]
fn a_slash_before_a_command_makes_no_difference() {
    for line in ["play 1", "stop", "语言 zh", "7", "moon halo", ""] {
        let plain = parse_command(line);
        let slashed = parse_command(&format!("/{}", line));
        assert_eq!(plain.kind, slashed.kind);
        assert_eq!(plain.argument, slashed.argument);
    }
}

// ------------------------------------------------------------------ playing

#[test]
fn a_number_plays_its_result() {
    let mut shell = shell(3);
    assert_eq!(played(&mut shell, "2"), "Song 2");
    assert_eq!(played(&mut shell, "#3"), "Song 3");
    assert_eq!(played(&mut shell, "play 1"), "Song 1");
    let missing = said(&mut shell, "9");
    assert!(missing.iter().any(|line| line.contains("1..3")));
}

#[test]
fn words_choose_a_result() {
    let mut shell = shell(3);
    assert_eq!(played(&mut shell, "play"), "Song 1");
    assert_eq!(played(&mut shell, "play first"), "Song 1");
    assert_eq!(played(&mut shell, "play BEST"), "Song 1");
    assert_eq!(played(&mut shell, "播放 最后"), "Song 3");
    assert_eq!(played(&mut shell, "next"), "Song 1");
    assert_eq!(played(&mut shell, "prev"), "Song 3");

    shell.playback_started(track("Song 3", "Artist"));
    let step = shell.run_command("next", 0);
    assert_eq!(step.lines, texts(&["next 1. Song 1"]));
    assert_eq!(replaced(step), "Song 1");
    let step = shell.run_command("play prev", 0);
    assert_eq!(step.lines, texts(&["play prev 2. Song 2"]));
}

#[test]
fn shuffling_avoids_the_current_track() {
    let mut shell = shell(3);
    let step = shell.run_command("surprise", 4);
    assert_eq!(step.lines, texts(&["surprise 2. Song 2"]));
    shell.playback_started(track("Song 2", "Artist"));
    let step = shell.run_command("play random", 4);
    assert_eq!(step.lines, texts(&["random 3. Song 3"]));
    for seed in 0..20 {
        let step = shell.run_command("shuffle", seed);
        assert_ne!(replaced(step), "Song 2");
    }
}

#[test]
fn without_results_there_is_nothing_to_play() {
    let mut shell = shell(0);
    for line in ["play", "play last", "next", "prev", "shuffle"] {
        let lines = said(&mut shell, line);
        assert!(!lines.is_empty(), "{}", line);
    }
}

#[test]
fn other_texts_are_looked_up() {
    let mut shell = shell(1);
    let step = shell.run_command("play moon", 0);
    assert!(matches!(
        step.action,
        ShellAction::Resolve { query, purpose: Purpose::Play } if query == "moon"
    ));
    let step = shell.resolved(Purpose::Play, Some(track("Moon", "Mili")));
    assert_eq!(replaced(step), "Moon");
    assert_eq!(no_playable_match("moon"), "no playable match for: moon");
}

#[test]
fn one_track_plays_at_a_time() {
    let mut shell = shell(2);
    assert_eq!(shell.may_start(), None);
    let lines = shell.playback_started(track("Song 1", "Artist"));
    assert_eq!(lines[0], "started Song 1");
    assert!(shell.may_start().unwrap()[0].contains("Song 1"));
    assert_eq!(shell.current_track.as_ref().unwrap().title, "Song 1");
    shell.playback_ended();
    assert_eq!(shell.may_start(), None);
    assert_eq!(shell.current_track.as_ref().unwrap().title, "Song 1");
}

#[test]
fn controls_need_something_that_plays() {
    let mut shell = shell(2);
    assert_eq!(said(&mut shell, "pause"), texts(&["nothing is playing"]));
    assert_eq!(said(&mut shell, "resume"), texts(&["nothing is paused"]));
    assert_eq!(said(&mut shell, "stop"), Vec::<String>::new());

    shell.playback_started(track("Song 1", "Artist"));
    assert!(matches!(
        shell.run_command("pause", 0).action,
        ShellAction::Control(PlaybackControl::Pause)
    ));
    assert!(matches!(
        shell.run_command("继续", 0).action,
        ShellAction::Control(PlaybackControl::Resume)
    ));
    let step = shell.run_command("stop", 0);
    assert_eq!(step.lines, texts(&["stopping Song 1"]));
    assert!(matches!(step.action, ShellAction::Control(PlaybackControl::Stop)));
    assert_eq!(shell.playback, None);
}

#[test]
fn only_quitting_leaves() {
    let mut shell = shell(2);
    for (name, kind) in COMMAND_NAMES {
        let step = shell.run_command(name, 0);
        let leaves = matches!(step.action, ShellAction::Quit { .. });
        assert_eq!(leaves, kind == CommandKind::Quit, "{}", name);
    }
    shell.playback_started(track("Song 1", "Artist"));
    shell.language = ShellLanguage::Chinese;
    let step = shell.run_command("/q", 0);
    assert_eq!(step.lines, texts(&["正在停止 Song 1"]));
    assert!(matches!(step.action, ShellAction::Quit { stop: true }));
    assert_eq!(shell.playback, None);
}

#[test]
fn playback_events_are_taken_in_together() {
    let mut shell = shell(1);
    let events = [
        PlaybackEvent::Loading {
            title: "Moon".to_string(),
            path: "/m/a.flac".to_string(),
        },
        PlaybackEvent::Playing {
            title: "Moon".to_string(),
            stream: DecodeStreamInfo {
                sample_rate: 44_100,
                channel_count: 2,
                bit_depth: None,
                duration_ms: None,
            },
            output: OutputStreamInfo {
                device_name: "Speakers".to_string(),
                mode: "shared",
                sample_rate: 44_100,
                channel_count: 2,
                sample_format: "F32".to_string(),
                buffer_size: "Default".to_string(),
                warnings: Vec::new(),
            },
        },
        PlaybackEvent::Warning("slow".to_string()),
    ];
    assert_eq!(shell.drain_playback_lines(&events, true), Vec::<String>::new());

    shell.playback_started(track("Moon", "Mili"));
    let lines = shell.drain_playback_lines(&events, false);
    assert_eq!(lines[0], "playing Moon");
    assert_eq!(lines[1], "source  /m/a.flac");
    assert!(lines.last().unwrap().contains("slow"));
    assert!(shell.playback.is_some());
    assert_eq!(shell.drain_playback_lines(&[], true), Vec::<String>::new());
    assert_eq!(shell.playback, None);
}

// ------------------------------------------------------------------ lists

#[test]
fn one_result_more_than_shown_is_fetched() {
    assert_eq!(RESULT_LIMIT, 20);
    assert_eq!(fetch_limit(20), 21);
    assert_eq!(fetch_limit(usize::MAX), usize::MAX);
    let (window, has_more) = load_result_window(tracks(3), 0);
    assert_eq!(window.len(), 0);
    assert!(has_more);

    let shell = shell(25);
    assert_eq!(shell.results.len(), 20);
    assert!(shell.has_more_results);
    assert_eq!(shell.result_label, "library");
}

#[test]
fn lists_are_asked_for() {
    let mut shell = shell(25);
    let step = shell.run_command("search moon", 0);
    assert!(matches!(
        step.action,
        ShellAction::Load { query, label, limit: 20, reopen: false, showing: Showing::Search }
            if query == "moon" && label == "moon"
    ));
    let step = shell.run_command("ls", 0);
    assert!(matches!(
        step.action,
        ShellAction::Load { query, label, limit: 20, reopen: true, showing: Showing::Library }
            if query.is_empty() && label == "library"
    ));
    let step = shell.run_command("more", 0);
    assert!(matches!(
        step.action,
        ShellAction::Load {
            limit: 40,
            reopen: false,
            showing: Showing::More { old_count: 20 },
            ..
        }
    ));
    assert!(matches!(shell.run_command("r", 0).action, ShellAction::ShowResults));
    let usage = said(&mut shell, "search");
    assert!(usage.iter().any(|line| line.contains("search <query>")));
}

#[test]
fn a_loaded_list_replaces_the_results() {
    let mut shell = shell(2);
    shell.load_results("moon", "moon", 20, tracks(21));
    assert_eq!(shell.results.len(), 20);
    assert!(shell.has_more_results);
    assert_eq!(shell.result_query, "moon");
    let lines = shell.showing_lines(Showing::Search, 80);
    assert_eq!(lines[0].text, "moon: 20 tracks");
    assert_eq!(lines[0].style, LineStyle::Heading);
    assert!(lines.last().unwrap().text.contains("play 1..20"));

    shell.load_results("zzz", "zzz", 20, Vec::new());
    let lines = shell.showing_lines(Showing::Search, 80);
    assert!(lines.iter().any(|line| line.text.contains("zzz")));
    let lines = shell.showing_lines(Showing::More { old_count: 0 }, 80);
    assert!(lines
        .iter()
        .any(|line| line.text == "no more matches in this view"));
    let lines = shell.showing_lines(Showing::Scan, 80);
    assert_eq!(lines.last().unwrap().text, "next: scan another folder, or type help");
}

#[test]
fn every_result_is_listed_with_its_number() {
    let all = tracks(12);
    let lines = listing("library", &all, Some(&all[2]), true, 100);
    for (index, song) in all.iter().enumerate() {
        let marker = if index == 2 { ">" } else { " " };
        let start = format!("{}{:>2}.", marker, index + 1);
        assert!(
            lines
                .iter()
                .any(|line| line.text.starts_with(&start) && line.text.contains(&song.title)),
            "{}",
            start
        );
    }
    assert_eq!(lines[0].text, "library: 12 tracks");
}

#[test]
fn below_the_card_stands_what_to_do() {
    let lines = shell(0).below_card_lines(80);
    assert_eq!(lines.len(), 2);
    assert_eq!(lines[0].text, "No tracks yet. Run scan to choose a folder.");
    assert_eq!(lines[1].text, "");
    let lines = shell(2).below_card_lines(80);
    assert_eq!(lines[0].text, "library: 2 tracks");
    assert_eq!(
        lines[lines.len() - 2].text,
        "next: play 1, shuffle, next, prev, search <query>, or library"
    );
}

// ------------------------------------------------------------------ other commands

#[test]
fn scanning_takes_a_folder_or_picks_one() {
    let mut shell = shell(0);
    for line in ["scan", "add", "scan ADD", "添加 x"] {
        assert!(matches!(shell.run_command(line, 0).action, ShellAction::PickFolder));
    }
    assert!(matches!(
        shell.run_command("scan D:\\Music Rin", 0).action,
        ShellAction::Scan(folder) if folder == "D:\\Music Rin"
    ));
}

#[test]
fn the_language_is_switched_or_told() {
    let mut shell = shell(0);
    assert!(matches!(
        shell.run_command("language", 0).action,
        ShellAction::SwitchLanguage(ShellLanguage::Chinese)
    ));
    assert_eq!(shell.language, ShellLanguage::Chinese);
    assert_eq!(shell.language_switched_lines(), texts(&["语言： 中文", ""]));
    let status = said(&mut shell, "语言 状态");
    assert!(!status.is_empty());
    let usage = said(&mut shell, "language jp");
    assert_ne!(usage, status);
    assert_eq!(shell.language, ShellLanguage::Chinese);
    assert!(matches!(
        shell.run_command("lang en", 0).action,
        ShellAction::SwitchLanguage(ShellLanguage::English)
    ));
    assert_eq!(shell.language_switched_lines(), texts(&["language: English", ""]));
}

#[test]
fn tracks_are_inspected_opened_and_copied() {
    let mut shell = shell(2);
    let lines = said(&mut shell, "info 2");
    assert!(lines.iter().any(|line| line.contains("Song 2")));
    assert_eq!(said(&mut shell, "now"), texts(&["now: idle"]));
    assert!(matches!(
        shell.run_command("open", 0).action,
        ShellAction::Open(track) if track.title == "Song 1"
    ));
    shell.playback_started(track("Song 2", "Artist"));
    assert!(matches!(
        shell.run_command("copy current", 0).action,
        ShellAction::Copy(track) if track.title == "Song 2"
    ));
    assert!(matches!(
        shell.run_command("copy 0", 0).action,
        ShellAction::Copy(track) if track.title == "Song 1"
    ));
    assert!(said(&mut shell, "now")[0].contains("now"));
    let none = said(&mut shell, "open 9");
    assert!(none.iter().any(|line| line.contains("open")));
    assert!(matches!(
        shell.run_command("where moon", 0).action,
        ShellAction::Resolve { purpose: Purpose::Open, .. }
    ));
    assert_eq!(opened_line(&track("Moon", "Mili")), "opened Moon");
    assert_eq!(copied_line(&track("Moon", "Mili")), "copied path for Moon");
}

#[test]
fn unknown_words_are_searched() {
    let mut shell = shell(2);
    let step = shell.run_command("moonlight sonata", 0);
    assert_eq!(step.lines, texts(&["searching moonlight sonata"]));
    assert!(matches!(
        step.action,
        ShellAction::Load { query, .. } if query == "moonlight sonata"
    ));
    let step = shell.run_command("ply moon", 0);
    assert!(step.lines[0].contains("unknown command"));
    assert_eq!(step.lines.last().unwrap(), "searching ply moon");
    assert!(matches!(
        step.action,
        ShellAction::Load { query, .. } if query == "ply moon"
    ));
}

#[test]
fn reports_are_left_to_the_terminal() {
    let mut shell = shell(0);
    for (line, wanted) in [
        ("status", "Status"),
        ("devices", "Devices"),
        ("doctor", "Doctor"),
        ("errors", "Errors"),
        ("open-db", "OpenDatabase"),
        ("tips", "NextSteps"),
        ("home", "Welcome { clear_screen: false }"),
        ("cls", "Welcome { clear_screen: true }"),
    ] {
        let step = shell.run_command(line, 0);
        assert_eq!(format!("{:?}", step.action), wanted);
        assert!(step.lines.is_empty());
    }
    assert_eq!(error_lines(&[]), texts(&["no recent scan errors"]));
    assert_eq!(
        error_lines(&[("/m/a.flac".to_string(), "bad tag".to_string())]),
        texts(&["/m/a.flac :: bad tag"])
    );
    let status = shell.status(12, "Speakers", "/db");
    assert_eq!(status[0], "tracks       12");
    assert!(shell.next_steps(0).iter().any(|line| line.contains("scan")));
    let context = shell.suggestion_context(0);
    assert_eq!(context.suggestions("")[0].completion, "scan");
}

#[test]
fn again_repeats_the_last_command() {
    let mut shell = shell(3);
    assert_eq!(said(&mut shell, "again")[0], "nothing to repeat yet");
    shell.finish_command("2", true);
    shell.finish_command("again", true);
    let step = shell.run_command("!!", 0);
    assert_eq!(step.lines, texts(&["again 2"]));
    assert_eq!(replaced(step), "Song 2");
    shell.finish_command("quit", false);
    assert_eq!(shell.last_command, Some("2".to_string()));
}

// ------------------------------------------------------------------ lines that were read

#[test]
fn lines_become_plans() {
    let mut reader = ShellReader::load("search moon\nplay 1\n");
    assert!(matches!(reader.take_line("   "), LinePlan::NextSteps));
    match reader.take_line(" scan D:\\Music ") {
        LinePlan::Run { command, echo, save } => {
            assert_eq!(command, "scan D:\\Music");
            assert_eq!(echo, None);
            assert!(save);
        }
        other => panic!("{:?}", other),
    }
    match reader.take_line("!1") {
        LinePlan::Run { command, echo, save } => {
            assert_eq!(command, "search moon");
            assert_eq!(echo, Some("!1 -> search moon".to_string()));
            assert!(save);
        }
        other => panic!("{:?}", other),
    }
    match reader.take_line("quit") {
        LinePlan::Run { command, save, .. } => {
            assert_eq!(command, "quit");
            assert!(!save);
        }
        other => panic!("{:?}", other),
    }
    match reader.take_line("history clear") {
        LinePlan::History { lines, save } => {
            assert!(!lines.is_empty());
            assert!(save);
        }
        other => panic!("{:?}", other),
    }
    assert_eq!(reader.saved_history(), "");
}
