use echo_cli::library::Track;
use echo_cli::playback::PlaybackEvent;
use echo_cli::shell::command::{parse_command, CommandKind};
use echo_cli::shell::language::ShellLanguage;
use echo_cli::shell::queue::{parse_queue_command, QueueCommand, QueueOrder, SessionQueue};
use echo_cli::shell::session::{EchoShell, ShellAction};
use echo_cli::shell::transport::{
    parse_seek_command, seek_target, volume_for, SeekCommand, MAX_VOLUME,
};

fn track(title: &str, seconds: Option<u64>) -> Track {
    Track {
        id: None,
        title: title.to_string(),
        artist: None,
        album: None,
        album_artist: None,
        track_number: None,
        disc_number: None,
        duration_ms: seconds.map(|seconds| seconds * 1000),
        sample_rate: None,
        channel_count: None,
        bit_depth: None,
        path: format!("/music/{}.flac", title),
        modified_unix: 0,
        size_bytes: 0,
    }
}

fn songs(count: u64) -> Vec<Track> {
    (1..=count)
        .map(|number| track(&format!("Song {}", number), Some(60 * number)))
        .collect()
}

/// A shell with `count` results that plays result number `at`.
fn playing(count: u64, at: usize) -> EchoShell {
    let mut shell = EchoShell::new(songs(count), ShellLanguage::English);
    let track = shell.results[at - 1].clone();
    shell.playback_started(track);
    shell
}

fn order(titles: &[&str], at: usize) -> QueueOrder {
    QueueOrder {
        tracks: titles.iter().map(|title| track(title, None)).collect(),
        at,
    }
}

fn titles(order: &QueueOrder) -> Vec<&str> {
    order.tracks.iter().map(|track| track.title.as_str()).collect()
}

fn said(shell: &mut EchoShell, line: &str) -> Vec<String> {
    let step = shell.run_command(line, 0);
    assert!(matches!(step.action, ShellAction::Nothing), "{:?}", step);
    step.lines
}

fn action(shell: &mut EchoShell, line: &str) -> String {
    format!("{:?}", shell.run_command(line, 0).action)
}

fn finished() -> [PlaybackEvent; 1] {
    [PlaybackEvent::Finished {
        title: "Song".to_string(),
        elapsed_ms: 1,
    }]
}

// ------------------------------------------------------------------ volume

#[test]
fn volume_is_set_stepped_and_muted() {
    let mut shell = playing(3, 1);
    assert_eq!(shell.volume, MAX_VOLUME);
    let step = shell.run_command("/volume 65", 0);
    assert_eq!(step.lines, vec!["volume 65".to_string()]);
    assert!(matches!(step.action, ShellAction::SetVolume(65)));
    assert_eq!(shell.volume, 65);
    assert_eq!(action(&mut shell, "volume +5"), "SetVolume(70)");
    assert_eq!(action(&mut shell, "volume -100"), "SetVolume(0)");
    assert_eq!(action(&mut shell, "volume +400"), "SetVolume(100)");
    assert_eq!(action(&mut shell, "volume MUTE"), "SetVolume(0)");
    assert_eq!(said(&mut shell, "volume"), vec!["volume 0".to_string()]);
    for line in ["volume 101", "volume loud", "volume +", "volume --5", "volume 5%"] {
        assert!(said(&mut shell, line)[0].starts_with("usage: volume"), "{}", line);
        assert_eq!(shell.volume, 0);
    }
}

#[test]
fn every_volume_can_be_asked_for() {
    for volume in 0..=100u8 {
        assert_eq!(volume_for(&volume.to_string(), 50), Some(volume));
        assert_eq!(volume_for("+7", volume), Some((volume + 7).min(100)));
        assert_eq!(volume_for("-7", volume), Some(volume.saturating_sub(7)));
    }
}

// ------------------------------------------------------------------ seeking

#[test]
fn seeks_are_read() {
    for (argument, wanted) in [
        ("1:30", SeekCommand::To { seconds: 90 }),
        ("90", SeekCommand::To { seconds: 90 }),
        ("1:02:03", SeekCommand::To { seconds: 3723 }),
        ("50%", SeekCommand::ToPercent { percent: 50 }),
        ("+10%", SeekCommand::ByPercent { forward: true, percent: 10 }),
        ("-10%", SeekCommand::ByPercent { forward: false, percent: 10 }),
        ("+10", SeekCommand::By { forward: true, seconds: 10 }),
        ("-1:00", SeekCommand::By { forward: false, seconds: 60 }),
        (" START ", SeekCommand::Start),
        ("end", SeekCommand::End),
        ("undo", SeekCommand::Undo),
        ("", SeekCommand::Unclear),
        ("1:60", SeekCommand::Unclear),
        ("1:", SeekCommand::Unclear),
        (":30", SeekCommand::Unclear),
        ("1:2:3:4", SeekCommand::Unclear),
        ("101%", SeekCommand::Unclear),
        ("%", SeekCommand::Unclear),
        ("+", SeekCommand::Unclear),
        ("++1", SeekCommand::Unclear),
        ("1000000000", SeekCommand::Unclear),
    ] {
        assert_eq!(parse_seek_command(argument), wanted, "{}", argument);
    }
}

#[test]
fn seeks_stay_in_the_track() {
    let length = Some(200_000);
    let by = |forward, seconds| SeekCommand::By { forward, seconds };
    assert_eq!(seek_target(by(true, 10), 30_000, length, None), Some(40_000));
    assert_eq!(seek_target(by(true, 500), 30_000, length, None), Some(200_000));
    assert_eq!(seek_target(by(false, 40), 30_000, length, None), Some(0));
    assert_eq!(seek_target(by(true, 500), 30_000, None, None), Some(530_000));
    let percent = SeekCommand::ToPercent { percent: 50 };
    assert_eq!(seek_target(percent, 0, length, None), Some(100_000));
    assert_eq!(seek_target(percent, 0, None, None), None);
    let on = SeekCommand::ByPercent { forward: true, percent: 10 };
    assert_eq!(seek_target(on, 30_000, length, None), Some(50_000));
    assert_eq!(seek_target(SeekCommand::End, 0, length, None), Some(200_000));
    assert_eq!(seek_target(SeekCommand::End, 0, None, None), None);
    assert_eq!(seek_target(SeekCommand::Undo, 0, length, Some(7)), Some(7));
    assert_eq!(seek_target(SeekCommand::Undo, 0, length, None), None);
}

#[test]
fn seeking_acts_on_what_plays() {
    let mut idle = EchoShell::new(songs(2), ShellLanguage::English);
    assert_eq!(said(&mut idle, "seek +10"), vec!["nothing is playing".to_string()]);

    let mut shell = playing(3, 2);
    shell.note_elapsed(20_000);
    let step = shell.run_command("seek +10", 0);
    assert_eq!(step.lines, vec!["seek to 0:30".to_string()]);
    assert!(matches!(step.action, ShellAction::Seek(30_000)));
    assert_eq!(action(&mut shell, "seek undo"), "Seek(20000)");
    assert_eq!(action(&mut shell, "seek undo"), "Seek(30000)");
    assert_eq!(action(&mut shell, "seek end"), "Seek(120000)");
    assert_eq!(action(&mut shell, "/seek 1:30"), "Seek(90000)");
    assert_eq!(shell.elapsed_ms, 90_000);
    assert!(said(&mut shell, "seek somewhere")[0].starts_with("usage: seek"));

    shell.playback_started(track("Endless", None));
    assert_eq!(
        said(&mut shell, "seek 50%"),
        vec!["the length of this track is not known".to_string()]
    );
    assert_eq!(said(&mut shell, "seek undo"), vec!["no seek to undo".to_string()]);
}

#[test]
fn transport_leaves_the_results_alone() {
    let mut shell = playing(3, 1);
    shell.load_results("moon", "moonlight", 20, songs(2));
    for line in ["volume 65", "seek +10", "queue", "queue add 1", "queue undo", "meter"] {
        shell.run_command(line, 0);
        assert_eq!(shell.results.len(), 2, "{}", line);
        assert_eq!(shell.result_query, "moon");
        assert_eq!(shell.result_label, "moonlight");
        assert!(shell.playback.is_some());
    }
    assert_eq!(shell.queue.order.tracks.len(), 3);
}

// ------------------------------------------------------------------ the queue

#[test]
fn queue_arguments_are_read() {
    for (argument, wanted) in [
        ("", QueueCommand::Show),
        ("all", QueueCommand::All),
        ("UNDO", QueueCommand::Undo),
        ("shuffle", QueueCommand::Shuffle),
        ("reverse", QueueCommand::Reverse),
        ("dedupe", QueueCommand::Dedupe),
        ("clear", QueueCommand::Clear),
        ("next 5", QueueCommand::Next(5)),
        ("add #5", QueueCommand::Add(5)),
        ("move 5  2", QueueCommand::Move { from: 5, to: 2 }),
        ("remove 4", QueueCommand::Remove(4)),
        ("5", QueueCommand::Jump(5)),
        ("next", QueueCommand::Unclear),
        ("move 5", QueueCommand::Unclear),
        ("0", QueueCommand::Unclear),
        ("backwards", QueueCommand::Unclear),
    ] {
        assert_eq!(parse_queue_command(argument), wanted, "{}", argument);
    }
    for line in ["queue", "up next", "/Up NEXT"] {
        let command = parse_command(line);
        assert_eq!(command.kind, CommandKind::Queue);
        assert_eq!(command.argument, "");
    }
    assert_eq!(parse_command("up north").kind, CommandKind::Unknown);
    assert_eq!(parse_command("up north").argument, "up north");
}

#[test]
fn playing_a_result_makes_the_results_the_queue() {
    let shell = playing(3, 2);
    assert_eq!(titles(&shell.queue.order), vec!["Song 1", "Song 2", "Song 3"]);
    assert_eq!(shell.queue.order.at, 1);
    let mut shell = playing(3, 2);
    shell.playback_started(track("Elsewhere", None));
    assert_eq!(titles(&shell.queue.order), vec!["Elsewhere"]);
}

#[test]
fn the_queue_is_shown() {
    let mut shell = playing(3, 2);
    assert_eq!(
        said(&mut shell, "queue"),
        vec![
            "queue 2/3, 5:00 known".to_string(),
            "> 2. Song 2  2:00".to_string(),
            "  3. Song 3  3:00".to_string(),
        ]
    );
    assert_eq!(said(&mut shell, "queue all").len(), 4);
    assert_eq!(said(&mut shell, "up next"), said(&mut shell, "queue"));
    let mut long = playing(15, 2);
    let lines = said(&mut long, "queue");
    assert_eq!(lines.len(), 12);
    assert_eq!(lines[11], "  more: queue all");
    let mut empty = EchoShell::new(Vec::new(), ShellLanguage::English);
    assert!(said(&mut empty, "queue")[0].starts_with("queue is empty"));
    assert!(said(&mut empty, "queue shuffle")[0].starts_with("queue is empty"));
}

#[test]
fn upcoming_tracks_are_reordered() {
    let queue = order(&["A", "B", "C", "D"], 1);
    assert_eq!(titles(&queue.upcoming_reversed()), vec!["A", "B", "D", "C"]);
    assert_eq!(titles(&queue.upcoming_reversed().upcoming_reversed()), titles(&queue));
    for seed in 0..50 {
        let mixed = queue.upcoming_shuffled(seed);
        assert_eq!(mixed.at, 1);
        assert_eq!(titles(&mixed)[..2], ["A", "B"]);
        let mut rest = titles(&mixed)[2..].to_vec();
        rest.sort();
        assert_eq!(rest, vec!["C", "D"]);
    }
    assert!((0..50).any(|seed| titles(&queue.upcoming_shuffled(seed))[2] == "D"));
    assert!((0..50).any(|seed| titles(&queue.upcoming_shuffled(seed))[2] == "C"));
}

#[test]
fn entries_are_moved_and_removed() {
    let queue = order(&["A", "B", "C", "D", "E"], 2);
    for from in 0..5 {
        for to in 0..5 {
            let moved = queue.moved(from, to);
            assert_eq!(moved.tracks[moved.at].title, "C");
            assert_eq!(moved.tracks[to].title, queue.tracks[from].title);
            let back = moved.moved(to, from);
            assert_eq!(titles(&back), titles(&queue));
            assert_eq!(back.at, 2);
        }
    }
    let removed = queue.removed(0);
    assert_eq!(titles(&removed), vec!["B", "C", "D", "E"]);
    assert_eq!(removed.at, 1);
    assert_eq!(titles(&queue.played_next(track("X", None))), vec!["A", "B", "C", "X", "D", "E"]);
    let cleared = queue.cleared();
    assert_eq!(titles(&cleared), vec!["C"]);
    assert_eq!(cleared.at, 0);
}

#[test]
fn duplicates_go_and_the_current_track_stays() {
    let queue = order(&["A", "B", "A", "C", "B", "A"], 2);
    let deduped = queue.deduped();
    assert_eq!(titles(&deduped), vec!["B", "A", "C"]);
    assert_eq!(deduped.at, 1);
    assert_eq!(SessionQueue::new().order.deduped().tracks.len(), 0);
}

#[test]
fn edits_are_undone() {
    let mut shell = playing(5, 2);
    assert_eq!(said(&mut shell, "queue undo")[0], "nothing to undo in the queue");
    for line in [
        "queue next 5",
        "queue add 1",
        "queue move 5 2",
        "queue remove 4",
        "queue reverse",
        "queue shuffle",
        "queue dedupe",
        "queue clear",
    ] {
        let before: Vec<String> = shell.queue.order.tracks.iter().map(|t| t.path.clone()).collect();
        let lines = said(&mut shell, line);
        assert!(lines[0].starts_with("queue: "), "{:?}", lines);
        let current = &shell.queue.order.tracks[shell.queue.order.at];
        assert_eq!(current.title, "Song 2", "{}", line);
        assert_eq!(said(&mut shell, "queue undo")[0], "queue: last edit undone");
        let after: Vec<String> = shell.queue.order.tracks.iter().map(|t| t.path.clone()).collect();
        assert_eq!(before, after, "{}", line);
        said(&mut shell, "queue undo");
    }
    assert_eq!(titles(&shell.queue.order), vec!["Song 2"]);
}

#[test]
fn missing_entries_are_told() {
    let mut shell = playing(2, 1);
    assert!(said(&mut shell, "queue add 9")[0].contains("9"));
    assert_eq!(said(&mut shell, "queue remove 9"), vec!["no queue entry 9 of 2".to_string()]);
    assert_eq!(said(&mut shell, "queue move 9 1"), vec!["no queue entry 9 of 2".to_string()]);
    assert_eq!(said(&mut shell, "queue move 1 7"), vec!["no queue entry 7 of 2".to_string()]);
    assert_eq!(said(&mut shell, "queue 3"), vec!["no queue entry 3 of 2".to_string()]);
    assert!(said(&mut shell, "queue remove 1")[0].starts_with("the current track stays"));
    assert!(said(&mut shell, "queue sideways")[0].starts_with("usage: queue"));
    assert_eq!(shell.queue.order.tracks.len(), 2);
}

#[test]
fn an_entry_is_played() {
    let mut shell = playing(3, 1);
    let step = shell.run_command("queue 3", 0);
    assert_eq!(step.lines, vec!["queue 3. Song 3".to_string()]);
    match step.action {
        ShellAction::PlayQueued { track, at } => {
            assert_eq!(track.title, "Song 3");
            assert_eq!(at, 2);
            shell.note_elapsed(5);
            let lines = shell.queued_playback_started(at);
            assert_eq!(lines[0], "started Song 3");
        }
        other => panic!("{:?}", other),
    }
    assert_eq!(shell.queue.order.at, 2);
    assert_eq!(shell.queue.order.tracks.len(), 3);
    assert_eq!(shell.current_track.as_ref().unwrap().title, "Song 3");
    assert_eq!(shell.elapsed_ms, 0);
}

#[test]
fn shuffling_picks_from_the_queue_that_plays() {
    let mut shell = playing(3, 1);
    shell.load_results("none", "none", 20, Vec::new());
    for seed in 0..10 {
        match shell.run_command("shuffle", seed).action {
            ShellAction::PlayQueued { track, at } => {
                assert_eq!(track.title, shell.queue.order.tracks[at].title);
                assert_ne!(at, 0);
            }
            other => panic!("{:?}", other),
        }
    }
}

#[test]
fn a_finished_track_is_followed_by_the_next() {
    let mut shell = playing(3, 1);
    let step = shell.finished_step(&finished(), true);
    assert_eq!(step.lines, vec!["up next 2. Song 2".to_string()]);
    assert!(matches!(
        step.action,
        ShellAction::PlayQueued { track, at: 1 } if track.title == "Song 2"
    ));
    shell.drain_playback_lines(&finished(), true);
    assert_eq!(shell.playback, None);
    shell.queued_playback_started(1);
    shell.queued_playback_started(2);
    let last = shell.finished_step(&finished(), true);
    assert!(matches!(last.action, ShellAction::Nothing));
    assert!(last.lines.is_empty());

    let shell = playing(3, 1);
    let stopped = [PlaybackEvent::Stopped {
        title: "Song".to_string(),
        elapsed_ms: 1,
    }];
    assert!(matches!(shell.finished_step(&stopped, true).action, ShellAction::Nothing));
    assert!(matches!(shell.finished_step(&finished(), false).action, ShellAction::Nothing));
    assert!(matches!(shell.finished_step(&[], true).action, ShellAction::Nothing));
}

// ------------------------------------------------------------------ the meter

#[test]
fn the_meter_tells_time_queue_and_cost() {
    let mut shell = playing(3, 2);
    shell.note_elapsed(20_000);
    shell.run_command("seek +10", 0);
    let wanted = vec![
        "time 0:30 / 2:00, 1:30 left".to_string(),
        "queue 2/3, 4:30 left".to_string(),
        "seek undo 0:20".to_string(),
        "up next Song 3".to_string(),
        "tokens 300, cost $0.000900 (simulated, never billed)".to_string(),
    ];
    assert_eq!(said(&mut shell, "meter"), wanted);
    assert_eq!(said(&mut shell, "tokens"), wanted);
    let now = said(&mut shell, "now");
    assert_eq!(now[now.len() - 5..], wanted[..]);
    let status = shell.status(3, "Speakers", "/db");
    assert_eq!(status[status.len() - 5..], wanted[..]);
    assert_eq!(shell.prompt_note(), Some("0:30  2/3  $0.000900".to_string()));

    shell.playback_ended();
    assert_eq!(said(&mut shell, "meter"), vec!["nothing is playing".to_string()]);
    assert_eq!(shell.prompt_note(), None);
    assert_ne!(shell.status(3, "Speakers", "/db").last(), wanted.last());

    shell.playback_started(track("Endless", None));
    shell.note_elapsed(400_000_000);
    let lines = said(&mut shell, "meter");
    assert_eq!(lines[0], "time 111:06:40 / --:--");
    assert_eq!(lines[2], "seek undo --:--");
    assert_eq!(lines[3], "up next nothing");
    assert_eq!(lines[4], "tokens 4000000, cost $12.000000 (simulated, never billed)");
    assert_eq!(shell.prompt_note(), Some("111:06:40  $12.000000".to_string()));
}
