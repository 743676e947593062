use echo_cli::library::Track;
use echo_cli::playback::PlaybackEvent;
use echo_cli::shell::catalogue::{ShellSuggestion, command_suggestions};
use echo_cli::shell::drawing::{prompt_for_playback, suggestion_footer_line, suggestion_footer_line_for_input};
use echo_cli::shell::help::{alias_lines, help_lines, localized_help_lines, shortcut_lines};
use echo_cli::shell::history::{HISTORY_LIMIT, history_replay_index, is_history_worthy, is_repeat_command, parse_history_entries, push_history_entry, serialize_history_entries};
use echo_cli::shell::info::{explorer_select_path, format_duration, format_size, format_track_number, format_track_technical_summary};
use echo_cli::shell::language::{ShellLanguage, is_language_status_argument, parse_language};
use echo_cli::shell::layout::{compact, compact_path, display_width};
use echo_cli::shell::line::{insert_char_at_cursor, next_char_boundary, next_word_boundary, previous_char_boundary, previous_word_boundary, remove_after_cursor, remove_char_at_cursor, remove_char_before_cursor, remove_word_before_cursor};
use echo_cli::shell::messages::{StatusSnapshot, already_playing_lines, localized_result_view_label, localized_result_window_label, no_result_index_lines, no_results_yet_lines, nothing_paused_line, nothing_playing_line, nothing_to_copy_lines, nothing_to_inspect_lines, nothing_to_open_lines, playback_event_lines, result_header, result_next_steps, result_view_label, result_window_label, scan_canceled_line, scan_empty_next_steps, scan_failure_hint, scan_next_steps, scan_started_line, scan_summary_line_parts, search_no_matches_lines, search_usage_lines, started_playback_lines, status_lines, stopping_line, stopping_timeout_line};
use echo_cli::shell::nearest::{nearest_command_suggestions, searching_line, unknown_command_lines};
use echo_cli::shell::reader::{ShellReader, accepted_suggestion_needs_more_input, should_accept_suggestion_on_enter};
use echo_cli::shell::results::{current_result_label, relative_result_index, result_line, result_line_for_width, result_table_header_for_width, shuffle_result_index};
use echo_cli::shell::session::{fetch_limit, load_result_window};
use echo_cli::shell::suggestions::{ShellSuggestionContext, help_topic_suggestions, parse_result_index_input};
use echo_cli::shell::welcome::welcome_card_lines;

#[test]
fn command_suggestions_filter_prefix() {
    let suggestions = command_suggestions("sc");

    assert_eq!(suggestions[0].completion, "scan");
    assert!(
        suggestions
            .iter()
            .any(|suggestion| suggestion.usage == "scan <folder>")
    );
}

#[test]
fn command_suggestions_include_add_shortcut() {
    let suggestions = command_suggestions("a");

    assert!(
        suggestions
            .iter()
            .any(|suggestion| suggestion.completion == "add")
    );
}

#[test]
fn command_suggestions_include_list_aliases() {
    let list_suggestions = command_suggestions("li");
    let recent_suggestions = command_suggestions("r");
    let song_suggestions = command_suggestions("so");
    let track_suggestions = command_suggestions("tr");

    assert!(
        list_suggestions
            .iter()
            .any(|suggestion| suggestion.completion == "list")
    );
    assert!(
        recent_suggestions
            .iter()
            .any(|suggestion| suggestion.completion == "recent")
    );
    assert!(
        song_suggestions
            .iter()
            .any(|suggestion| suggestion.completion == "songs")
    );
    assert!(
        track_suggestions
            .iter()
            .any(|suggestion| suggestion.completion == "tracks")
    );
}

#[test]
fn command_suggestions_include_find_alias() {
    let suggestions = command_suggestions("fi");

    assert!(
        suggestions
            .iter()
            .any(|suggestion| suggestion.completion == "find ")
    );
}

#[test]
fn command_suggestions_show_multiple_playback_matches() {
    let completions: Vec<_> = command_suggestions("p")
        .into_iter()
        .map(|suggestion| suggestion.completion)
        .collect();

    assert!(completions.contains(&"play "));
    assert!(completions.contains(&"play last"));
    assert!(completions.contains(&"play first"));
    assert!(completions.contains(&"play next"));
    assert!(completions.contains(&"play prev"));
    assert!(completions.contains(&"pause"));
    assert!(completions.contains(&"playing"));
    assert!(completions.contains(&"play random"));
}

#[test]
fn command_suggestions_show_multiple_uppercase_playback_matches() {
    let completions: Vec<_> = command_suggestions("P")
        .into_iter()
        .map(|suggestion| suggestion.completion)
        .collect();

    assert!(completions.contains(&"play "));
    assert!(completions.contains(&"play surprise"));
    assert!(completions.contains(&"pause"));
    assert!(completions.contains(&"prev"));
}

#[test]
fn command_suggestions_include_shuffle() {
    let completions: Vec<_> = command_suggestions("s")
        .into_iter()
        .map(|suggestion| suggestion.completion)
        .collect();

    assert!(completions.contains(&"shuffle"));
    assert!(completions.contains(&"surprise"));
    assert!(completions.contains(&"search "));
}

#[test]
fn command_suggestions_keep_slash_controls() {
    let suggestions = command_suggestions("/p");
    let completions: Vec<_> = suggestions
        .iter()
        .map(|suggestion| suggestion.completion)
        .collect();

    assert_eq!(suggestions[0].completion, "/pause");
    assert!(completions.contains(&"/play "));
    assert!(completions.contains(&"/play next"));
    assert!(completions.contains(&"/play prev"));
    assert!(completions.contains(&"/play random"));
}

#[test]
fn command_suggestions_include_slash_command_center() {
    let home_completions: Vec<_> = command_suggestions("/h")
        .into_iter()
        .map(|suggestion| suggestion.completion)
        .collect();
    let status_completions: Vec<_> = command_suggestions("/s")
        .into_iter()
        .map(|suggestion| suggestion.completion)
        .collect();

    assert!(home_completions.contains(&"/help"));
    assert!(home_completions.contains(&"/home"));
    assert!(
        command_suggestions("/c")
            .iter()
            .any(|suggestion| suggestion.completion == "/current")
    );
    assert!(status_completions.contains(&"/status"));
    assert!(status_completions.contains(&"/stop"));
    assert!(status_completions.contains(&"/scan"));
    assert!(status_completions.contains(&"/search "));
    assert!(
        command_suggestions("/f")
            .iter()
            .any(|suggestion| suggestion.completion == "/find ")
    );
    assert!(
        command_suggestions("/l")
            .iter()
            .any(|suggestion| suggestion.completion == "/library")
    );
    assert!(
        command_suggestions("/so")
            .iter()
            .any(|suggestion| suggestion.completion == "/songs")
    );
    assert!(
        command_suggestions("/r")
            .iter()
            .any(|suggestion| suggestion.completion == "/results")
    );
    assert!(
        command_suggestions("/o")
            .iter()
            .any(|suggestion| suggestion.completion == "/open ")
    );
    assert!(
        command_suggestions("/re")
            .iter()
            .any(|suggestion| suggestion.completion == "/reveal ")
    );
    assert!(
        command_suggestions("/sh")
            .iter()
            .any(|suggestion| suggestion.completion == "/shortcuts")
    );
    assert!(
        command_suggestions("/he")
            .iter()
            .any(|suggestion| suggestion.completion == "/health")
    );
}

#[test]
fn command_suggestions_include_next_step_help() {
    let next_completions: Vec<_> = command_suggestions("n")
        .into_iter()
        .map(|suggestion| suggestion.completion)
        .collect();
    let prev_completions: Vec<_> = command_suggestions("pr")
        .into_iter()
        .map(|suggestion| suggestion.completion)
        .collect();

    assert!(next_completions.contains(&"next"));
    assert!(prev_completions.contains(&"prev"));
    assert!(prev_completions.contains(&"previous"));
}

#[test]
fn command_suggestions_include_shortcuts() {
    let shortcut_completions: Vec<_> = command_suggestions("sh")
        .into_iter()
        .map(|suggestion| suggestion.completion)
        .collect();
    let key_completions: Vec<_> = command_suggestions("k")
        .into_iter()
        .map(|suggestion| suggestion.completion)
        .collect();

    assert!(shortcut_completions.contains(&"shortcuts"));
    assert!(key_completions.contains(&"keys"));
}

#[test]
fn command_suggestions_include_aliases() {
    let alias_completions: Vec<_> = command_suggestions("al")
        .into_iter()
        .map(|suggestion| suggestion.completion)
        .collect();
    let slash_completions: Vec<_> = command_suggestions("/al")
        .into_iter()
        .map(|suggestion| suggestion.completion)
        .collect();

    assert!(alias_completions.contains(&"aliases"));
    assert!(alias_completions.contains(&"alias"));
    assert!(slash_completions.contains(&"/aliases"));
}

#[test]
fn command_suggestions_include_language_switching() {
    let english: Vec<_> = command_suggestions("lang")
        .into_iter()
        .map(|suggestion| suggestion.completion)
        .collect();
    let slash: Vec<_> = command_suggestions("/lang")
        .into_iter()
        .map(|suggestion| suggestion.completion)
        .collect();
    let chinese: Vec<_> = command_suggestions("语")
        .into_iter()
        .map(|suggestion| suggestion.completion)
        .collect();

    assert!(english.contains(&"language"));
    assert!(english.contains(&"language zh"));
    assert!(english.contains(&"language status"));
    assert!(english.contains(&"language list"));
    assert!(slash.contains(&"/language"));
    assert!(slash.contains(&"/language zh"));
    assert!(slash.contains(&"/language status"));
    assert!(slash.contains(&"/language list"));
    assert!(chinese.contains(&"语言"));
    assert!(chinese.contains(&"语言 zh"));
    assert!(chinese.contains(&"语言 状态"));
    assert!(chinese.contains(&"语言 列表"));
}

#[test]
fn command_suggestions_include_chinese_aliases() {
    let play: Vec<_> = command_suggestions("播")
        .into_iter()
        .map(|suggestion| suggestion.completion)
        .collect();
    let search: Vec<_> = command_suggestions("搜")
        .into_iter()
        .map(|suggestion| suggestion.completion)
        .collect();
    let help: Vec<_> = command_suggestions("帮")
        .into_iter()
        .map(|suggestion| suggestion.completion)
        .collect();

    assert!(play.contains(&"播放 "));
    assert!(play.contains(&"播放 下一首"));
    assert!(search.contains(&"搜索 "));
    assert!(help.contains(&"帮助"));
}

#[test]
fn command_suggestions_localize_descriptions() {
    let context =
        ShellSuggestionContext::from_tracks_with_language(&[], ShellLanguage::Chinese);
    let suggestions = context.suggestions("播");

    assert!(
        suggestions
            .iter()
            .any(|suggestion| suggestion.completion == "播放 "
                && suggestion.description.contains("编号播放"))
    );
}

#[test]
fn unknown_command_lines_are_localized() {
    let suggestions = nearest_command_suggestions("ply");
    let english = unknown_command_lines(
        "ply",
        "ply moon",
        suggestions.clone(),
        ShellLanguage::English,
    );
    let chinese = unknown_command_lines("ply", "ply moon", suggestions, ShellLanguage::Chinese);

    assert!(english.iter().any(|line| line.contains("unknown command")));
    assert!(english.iter().any(|line| line.contains("did you mean")));
    assert!(
        english
            .iter()
            .any(|line| line.contains("or type search ply moon"))
    );
    assert!(chinese.iter().any(|line| line.contains("未知命令")));
    assert!(chinese.iter().any(|line| line.contains("你是不是想用")));
    assert!(
        chinese
            .iter()
            .any(|line| line.contains("或者输入 搜索 ply moon"))
    );
}

#[test]
fn searching_line_is_localized() {
    assert_eq!(
        searching_line("moon", ShellLanguage::English),
        "searching moon"
    );
    assert_eq!(
        searching_line("moon", ShellLanguage::Chinese),
        "正在搜索 moon"
    );
}

#[test]
fn command_suggestions_include_diagnostic_aliases() {
    let device_completions: Vec<_> = command_suggestions("dev")
        .into_iter()
        .map(|suggestion| suggestion.completion)
        .collect();
    let output_completions: Vec<_> = command_suggestions("out")
        .into_iter()
        .map(|suggestion| suggestion.completion)
        .collect();
    let health_completions: Vec<_> = command_suggestions("he")
        .into_iter()
        .map(|suggestion| suggestion.completion)
        .collect();
    let diagnose_completions: Vec<_> = command_suggestions("diag")
        .into_iter()
        .map(|suggestion| suggestion.completion)
        .collect();

    assert!(device_completions.contains(&"devices"));
    assert!(device_completions.contains(&"device"));
    assert!(output_completions.contains(&"outputs"));
    assert!(output_completions.contains(&"output"));
    assert!(health_completions.contains(&"health"));
    assert!(diagnose_completions.contains(&"diagnose"));
    assert!(diagnose_completions.contains(&"diagnostics"));
}

#[test]
fn command_suggestions_include_open_and_again() {
    let open_completions: Vec<_> = command_suggestions("o")
        .into_iter()
        .map(|suggestion| suggestion.completion)
        .collect();
    let reveal_completions: Vec<_> = command_suggestions("re")
        .into_iter()
        .map(|suggestion| suggestion.completion)
        .collect();
    let folder_completions: Vec<_> = command_suggestions("fo")
        .into_iter()
        .map(|suggestion| suggestion.completion)
        .collect();
    let where_completions: Vec<_> = command_suggestions("wh")
        .into_iter()
        .map(|suggestion| suggestion.completion)
        .collect();
    let again_completions: Vec<_> = command_suggestions("a")
        .into_iter()
        .map(|suggestion| suggestion.completion)
        .collect();

    assert!(open_completions.contains(&"open "));
    assert!(reveal_completions.contains(&"reveal "));
    assert!(folder_completions.contains(&"folder"));
    assert!(where_completions.contains(&"where"));
    assert!(again_completions.contains(&"again"));
}

#[test]
fn command_suggestions_include_copy_path() {
    let completions: Vec<_> = command_suggestions("c")
        .into_iter()
        .map(|suggestion| suggestion.completion)
        .collect();

    assert!(completions.contains(&"copy "));
    assert!(completions.contains(&"copy current"));
    assert!(completions.contains(&"clear"));
    assert!(completions.contains(&"commands"));
    assert!(completions.contains(&"current"));
}

#[test]
fn command_suggestions_include_results_and_info() {
    let result_completions: Vec<_> = command_suggestions("r")
        .into_iter()
        .map(|suggestion| suggestion.completion)
        .collect();
    let info_completions: Vec<_> = command_suggestions("i")
        .into_iter()
        .map(|suggestion| suggestion.completion)
        .collect();

    assert!(result_completions.contains(&"results"));
    assert!(result_completions.contains(&"r"));
    assert!(info_completions.contains(&"info "));
    assert!(info_completions.contains(&"info current"));
}

#[test]
fn command_suggestions_include_more() {
    let completions: Vec<_> = command_suggestions("m")
        .into_iter()
        .map(|suggestion| suggestion.completion)
        .collect();

    assert!(completions.contains(&"more"));
}

#[test]
fn command_suggestions_include_history() {
    let completions: Vec<_> = command_suggestions("h")
        .into_iter()
        .map(|suggestion| suggestion.completion)
        .collect();

    assert!(completions.contains(&"history"));
    assert!(completions.contains(&"history clear"));
    assert!(completions.contains(&"help"));
    assert!(completions.contains(&"home"));
}

#[test]
fn command_suggestions_include_shell_control_aliases() {
    let quit_completions: Vec<_> = command_suggestions("q")
        .into_iter()
        .map(|suggestion| suggestion.completion)
        .collect();
    let exit_completions: Vec<_> = command_suggestions("ex")
        .into_iter()
        .map(|suggestion| suggestion.completion)
        .collect();
    let clear_completions: Vec<_> = command_suggestions("cl")
        .into_iter()
        .map(|suggestion| suggestion.completion)
        .collect();
    let repeat_completions: Vec<_> = command_suggestions("re")
        .into_iter()
        .map(|suggestion| suggestion.completion)
        .collect();

    assert!(quit_completions.contains(&"quit"));
    assert!(quit_completions.contains(&"q"));
    assert!(exit_completions.contains(&"exit"));
    assert!(clear_completions.contains(&"clear"));
    assert!(clear_completions.contains(&"cls"));
    assert!(repeat_completions.contains(&"repeat"));
}

#[test]
fn command_suggestions_include_question_mark_help() {
    let suggestions = command_suggestions("?");

    assert_eq!(suggestions.len(), 1);
    assert_eq!(suggestions[0].completion, "?");
    assert_eq!(suggestions[0].description, "same as help");
}

#[test]
fn history_entries_are_deduped_trimmed_and_limited() {
    let mut history =
        parse_history_entries(" scan D:\\Music \nscan D:\\Music\n\nsearch moon\n");

    assert_eq!(history, vec!["scan D:\\Music", "search moon"]);
    assert!(!push_history_entry(&mut history, "search moon"));
    assert!(push_history_entry(&mut history, "play 1"));
    assert_eq!(history.last().map(String::as_str), Some("play 1"));

    for index in 0..(HISTORY_LIMIT + 5) {
        push_history_entry(&mut history, &format!("search {index}"));
    }
    assert_eq!(history.len(), HISTORY_LIMIT);
    assert_eq!(
        serialize_history_entries(&history).lines().count(),
        HISTORY_LIMIT
    );
}

#[test]
fn history_skips_transient_control_commands() {
    assert!(!is_history_worthy("quit"));
    assert!(!is_history_worthy("/exit"));
    assert!(!is_history_worthy(":clear"));
    assert!(!is_history_worthy("history"));
    assert!(!is_history_worthy("history clear"));
    assert!(!is_history_worthy("again"));
    assert!(is_history_worthy("search moon"));
    assert!(is_history_worthy("play 1"));
}

#[test]
fn history_replay_index_accepts_bang_numbers() {
    assert_eq!(history_replay_index("!1"), Some(1));
    assert_eq!(history_replay_index("!20"), Some(20));
    assert_eq!(history_replay_index("!!"), None);
    assert_eq!(history_replay_index("!"), None);
    assert_eq!(history_replay_index("history"), None);
}

#[test]
fn result_window_tracks_whether_more_rows_exist() {
    let stored = [
        test_track("A", "Artist"),
        test_track("B", "Artist"),
        test_track("C", "Artist"),
    ];

    let (two_tracks, has_more) = load_result_window(stored[..fetch_limit(2)].to_vec(), 2);
    assert_eq!(two_tracks.len(), 2);
    assert!(has_more);

    assert_eq!(fetch_limit(3), 4);
    let (three_tracks, has_more) = load_result_window(stored.to_vec(), 3);
    assert_eq!(three_tracks.len(), 3);
    assert!(!has_more);
}

#[test]
fn shell_reader_replays_numbered_history_entries() {
    let mut reader = ShellReader::new();
    assert!(reader.add_history("scan D:\\Music"));
    assert!(reader.add_history("search moon"));

    assert_eq!(
        reader.replay_history_command("!1"),
        Some("scan D:\\Music".to_string())
    );
    assert_eq!(
        reader.replay_history_command("!2"),
        Some("search moon".to_string())
    );
    assert_eq!(reader.replay_history_command("!3"), None);
}

#[test]
fn accepted_prefix_suggestions_wait_for_more_input() {
    let play_prefix = ShellSuggestion {
        completion: "play ".to_string(),
        description: "play by query or result number".to_string(),
    };
    let pause_command = ShellSuggestion {
        completion: "pause".to_string(),
        description: "pause playback".to_string(),
    };

    assert!(accepted_suggestion_needs_more_input(&play_prefix));
    assert!(!accepted_suggestion_needs_more_input(&pause_command));
}

#[test]
fn enter_runs_complete_command_instead_of_adding_trailing_space() {
    let play_prefix = ShellSuggestion {
        completion: "play ".to_string(),
        description: "play by query or result number".to_string(),
    };

    assert!(should_accept_suggestion_on_enter("pla", &play_prefix));
    assert!(!should_accept_suggestion_on_enter("play", &play_prefix));
    assert!(!should_accept_suggestion_on_enter("play ", &play_prefix));
}

#[test]
fn suggestion_footer_explains_selection_and_hidden_matches() {
    assert_eq!(suggestion_footer_line(0, 0, ShellLanguage::English), None);
    assert_eq!(
        suggestion_footer_line(3, 3, ShellLanguage::English),
        Some("Up/Down select | Tab accept | Enter accept/run".to_string())
    );
    assert_eq!(
        suggestion_footer_line(11, 8, ShellLanguage::English),
        Some("Up/Down select | Tab accept | Enter accept/run | +3 more".to_string())
    );
    assert_eq!(
        suggestion_footer_line(11, 8, ShellLanguage::Chinese),
        Some("上/下 选择 | Tab 补全 | Enter 接受/执行 | 还有 3 个".to_string())
    );
}

#[test]
fn empty_prompt_suggestions_follow_shell_state() {
    let no_tracks = ShellSuggestionContext::new(&[], ShellLanguage::English, false, 0);
    let no_track_completions: Vec<_> = no_tracks
        .suggestions("")
        .into_iter()
        .map(|suggestion| suggestion.completion)
        .collect();
    assert_eq!(
        no_track_completions.first().map(String::as_str),
        Some("scan")
    );
    assert!(no_track_completions.contains(&"devices".to_string()));

    let tracks = [test_track("Moon Halo", "Mili")];
    let ready = ShellSuggestionContext::new(&tracks, ShellLanguage::English, false, 1);
    let ready_completions: Vec<_> = ready
        .suggestions("")
        .into_iter()
        .map(|suggestion| suggestion.completion)
        .collect();
    assert_eq!(ready_completions.first().map(String::as_str), Some("play"));
    assert!(ready_completions.contains(&"1".to_string()));

    let playing = ShellSuggestionContext::new(&tracks, ShellLanguage::Chinese, true, 1);
    let playing_completions: Vec<_> = playing
        .suggestions("")
        .into_iter()
        .map(|suggestion| suggestion.completion)
        .collect();
    assert_eq!(
        playing_completions.first().map(String::as_str),
        Some("暂停")
    );
    assert!(playing_completions.contains(&"停止".to_string()));
    assert!(playing_completions.contains(&"下一首".to_string()));
}

#[test]
fn empty_prompt_footer_keeps_history_hint() {
    assert_eq!(
        suggestion_footer_line_for_input(4, 4, ShellLanguage::English, true),
        Some("Tab accepts first | Enter shows tips | Up/Down history".to_string())
    );
    assert_eq!(
        suggestion_footer_line_for_input(4, 4, ShellLanguage::Chinese, true),
        Some("Tab 接受第一条 | Enter 显示下一步 | 上/下 历史".to_string())
    );
}

#[test]
fn cursor_boundaries_are_utf8_safe() {
    let input = "a你b";

    assert_eq!(next_char_boundary(input, 0), 1);
    assert_eq!(next_char_boundary(input, 1), 4);
    assert_eq!(next_char_boundary(input, 4), 5);
    assert_eq!(previous_char_boundary(input, 5), 4);
    assert_eq!(previous_char_boundary(input, 4), 1);
    assert_eq!(previous_char_boundary(input, 1), 0);
}

#[test]
fn cursor_editing_inserts_and_deletes_wide_characters() {
    let mut input = "ab".to_string();
    let mut cursor_index = 1;

    insert_char_at_cursor(&mut input, &mut cursor_index, '你');
    assert_eq!(input, "a你b");
    assert_eq!(cursor_index, 4);
    assert_eq!(display_width(&input[..cursor_index]), 3);

    assert!(remove_char_before_cursor(&mut input, &mut cursor_index));
    assert_eq!(input, "ab");
    assert_eq!(cursor_index, 1);

    assert!(remove_char_at_cursor(&mut input, &mut cursor_index));
    assert_eq!(input, "a");
    assert_eq!(cursor_index, 1);
    assert!(!remove_char_at_cursor(&mut input, &mut cursor_index));
}

#[test]
fn word_boundaries_skip_whitespace_and_respect_utf8() {
    let input = "search 月光 halo";
    let end = input.len();
    let halo_start = "search 月光 ".len();
    let moon_start = "search ".len();

    assert_eq!(previous_word_boundary(input, end), halo_start);
    assert_eq!(previous_word_boundary(input, halo_start), moon_start);
    assert_eq!(next_word_boundary(input, 0), moon_start);
    assert_eq!(next_word_boundary(input, moon_start), halo_start);
}

#[test]
fn word_editing_deletes_previous_word_and_tail() {
    let mut input = "search 月光 halo".to_string();
    let mut cursor_index = input.len();

    assert!(remove_word_before_cursor(&mut input, &mut cursor_index));
    assert_eq!(input, "search 月光 ");
    assert_eq!(cursor_index, "search 月光 ".len());

    assert!(remove_word_before_cursor(&mut input, &mut cursor_index));
    assert_eq!(input, "search ");
    assert_eq!(cursor_index, "search ".len());

    cursor_index = 0;
    assert!(remove_after_cursor(&mut input, &mut cursor_index));
    assert_eq!(input, "");
    assert_eq!(cursor_index, 0);
    assert!(!remove_after_cursor(&mut input, &mut cursor_index));
}

#[test]
fn nearest_command_suggestions_help_with_typos() {
    let suggestions = nearest_command_suggestions("ply");

    assert!(
        suggestions
            .iter()
            .any(|suggestion| suggestion.completion == "play ")
    );
}

#[test]
fn playback_event_lines_include_next_step() {
    let lines = playback_event_lines(
        &PlaybackEvent::Paused {
            title: "Song".to_string(),
        },
        ShellLanguage::English,
    );

    assert!(lines.iter().any(|line| line.contains("resume")));
    assert!(lines.iter().any(|line| line.contains("prev")));
}

#[test]
fn playback_event_lines_are_localized() {
    let lines = playback_event_lines(
        &PlaybackEvent::Paused {
            title: "Song".to_string(),
        },
        ShellLanguage::Chinese,
    );

    assert!(lines.iter().any(|line| line.contains("已暂停 Song")));
    assert!(lines.iter().any(|line| line.contains("继续")));
    assert!(lines.iter().any(|line| line.contains("上一首")));
}

#[test]
fn play_prefix_suggests_current_results() {
    let context = ShellSuggestionContext::from_tracks(&[
        test_track("Moon Halo", "Mili"),
        test_track("A Lonely Night", "The Weeknd"),
    ]);
    let suggestions = context.suggestions("play ");

    assert_eq!(suggestions[0].completion, "play 1");
    assert!(suggestions[0].description.contains("Moon Halo"));
    assert_eq!(suggestions[1].completion, "play Moon Halo");
    assert_eq!(suggestions[2].completion, "play 2");
}

#[test]
fn slash_play_prefix_suggests_current_results() {
    let context = ShellSuggestionContext::from_tracks(&[
        test_track("Moon Halo", "Mili"),
        test_track("A Lonely Night", "The Weeknd"),
    ]);
    let suggestions = context.suggestions("/play ");

    assert_eq!(suggestions[0].completion, "/play 1");
    assert!(suggestions[0].description.contains("Moon Halo"));
    assert_eq!(suggestions[1].completion, "/play Moon Halo");
}

#[test]
fn chinese_play_prefix_suggests_current_results() {
    let context = ShellSuggestionContext::from_tracks(&[
        test_track("Moon Halo", "Mili"),
        test_track("A Lonely Night", "The Weeknd"),
    ]);
    let suggestions = context.suggestions("播放 ");

    assert_eq!(suggestions[0].completion, "播放 1");
    assert!(suggestions[0].description.contains("Moon Halo"));
    assert_eq!(suggestions[1].completion, "播放 Moon Halo");
}

#[test]
fn chinese_play_prefix_localizes_result_descriptions() {
    let context = ShellSuggestionContext::from_tracks_with_language(
        &[
            test_track("Moon Halo", "Mili"),
            test_track("A Lonely Night", "The Weeknd"),
        ],
        ShellLanguage::Chinese,
    );
    let suggestions = context.suggestions("播放 moon");

    assert_eq!(suggestions[0].completion, "播放 1");
    assert_eq!(suggestions[1].completion, "播放 Moon Halo");
    assert!(suggestions[1].description.contains("结果 #1"));
}

#[test]
fn play_prefix_filters_result_titles() {
    let context = ShellSuggestionContext::from_tracks(&[
        test_track("Moon Halo", "Mili"),
        test_track("A Lonely Night", "The Weeknd"),
    ]);
    let suggestions = context.suggestions("play lonely");

    assert_eq!(suggestions.len(), 2);
    assert_eq!(suggestions[0].completion, "play 2");
    assert_eq!(suggestions[1].completion, "play A Lonely Night");
}

#[test]
fn open_prefix_suggests_current_results() {
    let context = ShellSuggestionContext::from_tracks(&[
        test_track("Moon Halo", "Mili"),
        test_track("A Lonely Night", "The Weeknd"),
    ]);
    let suggestions = context.suggestions("open ");

    assert_eq!(suggestions[0].completion, "open 1");
    assert!(suggestions[0].description.contains("Moon Halo"));
    assert_eq!(suggestions[1].completion, "open Moon Halo");
}

#[test]
fn slash_result_commands_keep_slash_completion() {
    let context = ShellSuggestionContext::from_tracks(&[
        test_track("Moon Halo", "Mili"),
        test_track("A Lonely Night", "The Weeknd"),
    ]);

    assert_eq!(context.suggestions("/open ")[0].completion, "/open 1");
    assert_eq!(context.suggestions("/copy ")[0].completion, "/copy 1");
    assert_eq!(context.suggestions("/info ")[0].completion, "/info 1");
}

#[test]
fn copy_prefix_suggests_current_results() {
    let context = ShellSuggestionContext::from_tracks(&[
        test_track("Moon Halo", "Mili"),
        test_track("A Lonely Night", "The Weeknd"),
    ]);
    let suggestions = context.suggestions("copy ");

    assert_eq!(suggestions[0].completion, "copy 1");
    assert!(suggestions[0].description.contains("Moon Halo"));
    assert_eq!(suggestions[1].completion, "copy Moon Halo");
}

#[test]
fn info_prefix_suggests_current_results() {
    let context = ShellSuggestionContext::from_tracks(&[
        test_track("Moon Halo", "Mili"),
        test_track("A Lonely Night", "The Weeknd"),
    ]);
    let suggestions = context.suggestions("info ");

    assert_eq!(suggestions[0].completion, "info 1");
    assert!(suggestions[0].description.contains("Moon Halo"));
    assert_eq!(suggestions[1].completion, "info Moon Halo");
}

#[test]
fn result_command_suggestions_include_title_completion() {
    let context = ShellSuggestionContext::from_tracks(&[
        test_track("Moon Halo", "Mili"),
        test_track("A Lonely Night", "The Weeknd"),
    ]);
    let suggestions = context.suggestions("play moon");

    assert_eq!(suggestions[0].completion, "play 1");
    assert_eq!(suggestions[1].completion, "play Moon Halo");
}

#[test]
fn numeric_prefix_suggests_direct_play_result() {
    let context = ShellSuggestionContext::from_tracks(&[
        test_track("Moon Halo", "Mili"),
        test_track("A Lonely Night", "The Weeknd"),
    ]);
    let suggestions = context.suggestions("1");

    assert_eq!(suggestions[0].completion, "1");
    assert!(suggestions[0].description.contains("play Moon Halo"));
}

#[test]
fn hash_numeric_prefix_suggests_direct_play_result() {
    let context = ShellSuggestionContext::from_tracks(&[
        test_track("Moon Halo", "Mili"),
        test_track("A Lonely Night", "The Weeknd"),
    ]);
    let suggestions = context.suggestions("#2");

    assert_eq!(suggestions[0].completion, "#2");
    assert!(suggestions[0].description.contains("A Lonely Night"));
}

#[test]
fn search_prefix_suggests_current_result_titles() {
    let context = ShellSuggestionContext::from_tracks(&[
        test_track("Moon Halo", "Mili"),
        test_track("A Lonely Night", "The Weeknd"),
    ]);
    let suggestions = context.suggestions("search moon");

    assert_eq!(suggestions.len(), 1);
    assert_eq!(suggestions[0].completion, "search Moon Halo");
    assert!(suggestions[0].description.contains("result #1"));
}

#[test]
fn slash_search_prefix_suggests_current_result_titles() {
    let context = ShellSuggestionContext::from_tracks(&[
        test_track("Moon Halo", "Mili"),
        test_track("A Lonely Night", "The Weeknd"),
    ]);
    let suggestions = context.suggestions("/search moon");

    assert_eq!(suggestions.len(), 1);
    assert_eq!(suggestions[0].completion, "/search Moon Halo");
}

#[test]
fn chinese_search_prefix_suggests_current_result_titles() {
    let context = ShellSuggestionContext::from_tracks(&[
        test_track("Moon Halo", "Mili"),
        test_track("A Lonely Night", "The Weeknd"),
    ]);
    let suggestions = context.suggestions("搜索 moon");

    assert_eq!(suggestions.len(), 1);
    assert_eq!(suggestions[0].completion, "搜索 Moon Halo");
}

#[test]
fn bare_text_suggests_matching_result_titles() {
    let context = ShellSuggestionContext::from_tracks(&[
        test_track("Moon Halo", "Mili"),
        test_track("A Lonely Night", "The Weeknd"),
    ]);
    let suggestions = context.suggestions("moon");

    assert_eq!(suggestions.len(), 1);
    assert_eq!(suggestions[0].completion, "Moon Halo");
    assert!(suggestions[0].description.contains("search title"));
}

#[test]
fn bare_text_does_not_hide_command_typos() {
    let context = ShellSuggestionContext::from_tracks(&[test_track("Playground", "Artist")]);
    let suggestions = context.suggestions("pla");

    assert!(
        suggestions
            .iter()
            .any(|suggestion| suggestion.completion == "play ")
    );
}

#[test]
fn shell_prompt_reflects_playback_state() {
    assert_eq!(prompt_for_playback(false), "echo ready> ");
    assert_eq!(prompt_for_playback(true), "echo playing> ");
}

#[test]
fn welcome_card_keeps_stable_width_and_useful_commands() {
    let english = welcome_card_lines(12, "Speakers", ShellLanguage::English, 72);
    assert!(english.iter().all(|line| display_width(line) == 72));
    assert!(english.iter().any(|line| line.contains("Welcome back")));
    assert!(english.iter().any(|line| line.contains("scan or add")));
    assert!(english.iter().any(|line| line.contains("play 1")));
    assert!(english.iter().any(|line| line.contains("Empty Enter")));

    let chinese = welcome_card_lines(0, "Mi Monitor", ShellLanguage::Chinese, 72);
    assert!(chinese.iter().all(|line| display_width(line) == 72));
    assert!(chinese.iter().any(|line| line.contains("欢迎回来")));
    assert!(chinese.iter().any(|line| line.contains("扫描 或 添加")));
    assert!(chinese.iter().any(|line| line.contains("播放 1")));
    assert!(chinese.iter().any(|line| line.contains("空 Enter")));
}

#[test]
fn result_header_and_next_steps_are_specific() {
    assert_eq!(result_header("library", 1), "library: 1 track");
    assert_eq!(result_header("library", 2), "library: 2 tracks");
    assert!(result_next_steps(0, ShellLanguage::English).contains("list"));
    assert!(result_next_steps(3, ShellLanguage::English).contains("play 1..3"));
    assert!(result_next_steps(3, ShellLanguage::English).contains("info"));
    assert!(result_next_steps(3, ShellLanguage::English).contains("results"));
    assert!(result_next_steps(3, ShellLanguage::English).contains("more"));
    assert!(result_next_steps(3, ShellLanguage::English).contains("next"));
    assert!(result_next_steps(3, ShellLanguage::English).contains("prev"));
    assert!(result_next_steps(3, ShellLanguage::English).contains("copy"));
    assert!(result_next_steps(0, ShellLanguage::Chinese).contains("扫描"));
    assert!(result_next_steps(3, ShellLanguage::Chinese).contains("播放 1..3"));
}

#[test]
fn dead_end_messages_suggest_next_actions() {
    let search_usage = search_usage_lines(ShellLanguage::English);
    assert!(
        search_usage
            .iter()
            .any(|line| line.contains("search <query>"))
    );
    assert!(
        search_usage
            .iter()
            .any(|line| line.contains("keywords directly"))
    );

    let no_results = no_results_yet_lines(ShellLanguage::Chinese);
    assert!(no_results.iter().any(|line| line.contains("曲库")));
    assert!(no_results.iter().any(|line| line.contains("播放 1")));

    let no_index = no_result_index_lines(9, 3, ShellLanguage::Chinese);
    assert!(no_index.iter().any(|line| line.contains("1..3")));
    assert!(no_index.iter().any(|line| line.contains("更多")));

    let no_matches = search_no_matches_lines("moon", ShellLanguage::Chinese);
    assert!(no_matches.iter().any(|line| line.contains("没有匹配")));
    assert!(no_matches.iter().any(|line| line.contains("换个关键词")));

    assert!(
        nothing_to_open_lines(ShellLanguage::Chinese)
            .iter()
            .any(|line| line.contains("打开 1"))
    );
    assert!(
        nothing_to_copy_lines(ShellLanguage::Chinese)
            .iter()
            .any(|line| line.contains("复制 1"))
    );
    assert!(
        nothing_to_inspect_lines(ShellLanguage::Chinese)
            .iter()
            .any(|line| line.contains("信息 1"))
    );
}

#[test]
fn result_status_labels_explain_view_and_window() {
    assert_eq!(result_view_label("library", ""), "library");
    assert_eq!(result_view_label("moon", "moon"), "search moon");
    assert_eq!(result_window_label(20, true), "20+ visible");
    assert_eq!(result_window_label(17, false), "17 visible");
    assert_eq!(
        localized_result_view_label("library", "", ShellLanguage::Chinese),
        "曲库"
    );
    assert_eq!(
        localized_result_view_label("library", "moon", ShellLanguage::Chinese),
        "搜索 moon"
    );
    assert_eq!(
        localized_result_window_label(20, true, ShellLanguage::Chinese),
        "20+ 可见"
    );
}

#[test]
fn status_lines_are_localized() {
    let english = status_lines(StatusSnapshot {
        track_count: 12,
        result_count: 3,
        result_label: "library",
        result_query: "",
        has_more_results: true,
        default_device: "Speakers",
        playback_title: None,
        current_title: Some("Moon Halo"),
        current_result: Some("#1".to_string()),
        database_path: "G:\\ECHOCli\\echo.db",
        language: ShellLanguage::English,
    });
    let chinese = status_lines(StatusSnapshot {
        track_count: 12,
        result_count: 3,
        result_label: "library",
        result_query: "",
        has_more_results: true,
        default_device: "Speakers",
        playback_title: None,
        current_title: Some("Moon Halo"),
        current_result: Some("#1".to_string()),
        database_path: "G:\\ECHOCli\\echo.db",
        language: ShellLanguage::Chinese,
    });

    assert!(english.iter().any(|line| line == "tracks       12"));
    assert!(english.iter().any(|line| line == "playback     idle"));
    assert!(chinese.iter().any(|line| line == "歌曲        12"));
    assert!(chinese.iter().any(|line| line == "播放        空闲"));
    assert!(chinese.iter().any(|line| line == "视图        曲库"));
}

#[test]
fn playback_control_lines_are_localized() {
    let started_en = started_playback_lines("Moon Halo", ShellLanguage::English);
    let started_zh = started_playback_lines("Moon Halo", ShellLanguage::Chinese);
    let busy_zh = already_playing_lines("Moon Halo", ShellLanguage::Chinese);

    assert!(started_en.iter().any(|line| line == "started Moon Halo"));
    assert!(started_zh.iter().any(|line| line == "开始播放 Moon Halo"));
    assert!(
        started_zh
            .iter()
            .any(|line| line.contains("暂停 继续 停止"))
    );
    assert!(busy_zh.iter().any(|line| line == "正在播放 Moon Halo"));
    assert_eq!(
        nothing_playing_line(ShellLanguage::Chinese),
        "现在没有在播放"
    );
    assert_eq!(
        nothing_paused_line(ShellLanguage::Chinese),
        "现在没有暂停的播放"
    );
    assert_eq!(
        stopping_line("Moon Halo", ShellLanguage::Chinese),
        "正在停止 Moon Halo"
    );
    assert!(stopping_timeout_line(ShellLanguage::Chinese).contains("上一首"));
}

#[test]
fn scan_failure_hint_points_to_errors_command() {
    assert_eq!(scan_failure_hint(0, ShellLanguage::English), None);
    assert_eq!(
        scan_failure_hint(1, ShellLanguage::English),
        Some("1 file failed; type errors to inspect it".to_string())
    );
    assert_eq!(
        scan_failure_hint(3, ShellLanguage::English),
        Some("3 files failed; type errors to inspect them".to_string())
    );
}

#[test]
fn scan_lines_are_localized() {
    let folder = r"D:\MusicRin";
    assert_eq!(
        scan_started_line(folder, ShellLanguage::English),
        r"scan D:\MusicRin"
    );
    assert_eq!(
        scan_started_line(folder, ShellLanguage::Chinese),
        r"扫描 D:\MusicRin"
    );
    assert_eq!(scan_canceled_line(ShellLanguage::Chinese), "已取消扫描");
    assert_eq!(
        scan_summary_line_parts(138, 140, 2, 1, 0, 65, ShellLanguage::Chinese),
        "已入库 138 | 已扫描 140 | 已跳过 2 | 失败 1 | 已移除 0 | 65 ms"
    );
    assert_eq!(
        scan_failure_hint(3, ShellLanguage::Chinese),
        Some("3 个文件失败；输入 错误 查看".to_string())
    );
    assert!(scan_next_steps(ShellLanguage::Chinese).contains("播放 1"));
    assert!(scan_empty_next_steps(ShellLanguage::Chinese).contains("帮助"));
}

#[test]
fn result_line_marks_current_track() {
    let current = test_track("Moon Halo", "Mili");
    let line = result_line(1, &current, Some(&current));

    assert!(line.starts_with("> 1."));
    assert!(line.contains("Moon Halo"));
    assert!(line.contains("Mili"));
}

#[test]
fn result_line_keeps_plain_marker_for_other_tracks() {
    let current = test_track("Moon Halo", "Mili");
    let other = test_track("A Lonely Night", "The Weeknd");
    let line = result_line(2, &other, Some(&current));

    assert!(line.starts_with("  2."));
    assert!(line.contains("A Lonely Night"));
}

#[test]
fn result_line_fits_terminal_width() {
    let track = Track {
        id: None,
        title: "A Very Very Long Song Title That Used To Wrap In The Shell".to_string(),
        artist: Some("A Very Long Artist Name".to_string()),
        album: None,
        album_artist: None,
        track_number: None,
        disc_number: None,
        duration_ms: None,
        sample_rate: None,
        channel_count: None,
        bit_depth: None,
        path: r"\\?\D:\MusicRin\A Very Long Folder Name\A Very Long File Name.flac".to_string(),
        modified_unix: 0,
        size_bytes: 0,
    };

    let narrow = result_line_for_width(12, &track, None, 48);
    let wide = result_line_for_width(12, &track, None, 120);

    assert!(usize::from(display_width(&narrow)) <= 48);
    assert!(usize::from(display_width(&wide)) <= 120);
    assert!(wide.contains("..."));
    assert!(wide.contains("flac"));
}

#[test]
fn result_table_header_matches_terminal_width() {
    let narrow = result_table_header_for_width(48);
    let wide = result_table_header_for_width(120);

    assert!(usize::from(display_width(&narrow)) <= 48);
    assert!(usize::from(display_width(&wide)) <= 120);
    assert!(narrow.contains("title"));
    assert!(narrow.contains("artist"));
    assert!(!narrow.contains("path"));
    assert!(wide.contains("path"));
}

#[test]
fn current_result_label_reports_visible_position() {
    let tracks = vec![
        test_track("Moon Halo", "Mili"),
        test_track("A Lonely Night", "The Weeknd"),
    ];
    let outside = test_track("Outside", "Artist");

    assert_eq!(
        current_result_label(&tracks, Some(&tracks[1])),
        Some("#2".to_string())
    );
    assert_eq!(current_result_label(&tracks, Some(&outside)), None);
    assert_eq!(current_result_label(&tracks, None), None);
}

#[test]
fn relative_result_index_moves_and_wraps_visible_results() {
    let tracks = vec![
        test_track("Moon Halo", "Mili"),
        test_track("A Lonely Night", "The Weeknd"),
        test_track("Minecraft", "C418"),
    ];

    assert_eq!(relative_result_index(&tracks, Some(&tracks[0]), 1), Some(1));
    assert_eq!(relative_result_index(&tracks, Some(&tracks[2]), 1), Some(0));
    assert_eq!(
        relative_result_index(&tracks, Some(&tracks[0]), -1),
        Some(2)
    );
}

#[test]
fn relative_result_index_starts_from_edge_without_current_track() {
    let tracks = vec![
        test_track("Moon Halo", "Mili"),
        test_track("A Lonely Night", "The Weeknd"),
    ];
    let outside = test_track("Outside", "Artist");

    assert_eq!(relative_result_index(&tracks, None, 1), Some(0));
    assert_eq!(relative_result_index(&tracks, None, -1), Some(1));
    assert_eq!(relative_result_index(&tracks, Some(&outside), 1), Some(0));
    assert_eq!(relative_result_index(&tracks, Some(&outside), -1), Some(1));
    assert_eq!(relative_result_index(&[], None, 1), None);
}

#[test]
fn shuffle_result_index_uses_seed_and_avoids_current_when_possible() {
    let tracks = vec![
        test_track("Moon Halo", "Mili"),
        test_track("A Lonely Night", "The Weeknd"),
        test_track("Minecraft", "C418"),
    ];

    assert_eq!(shuffle_result_index(&tracks, None, 4), Some(1));
    assert_eq!(shuffle_result_index(&tracks, Some(&tracks[1]), 4), Some(2));
    assert_eq!(
        shuffle_result_index(&tracks[..1], Some(&tracks[0]), 4),
        Some(0)
    );
    assert_eq!(shuffle_result_index(&[], None, 4), None);
}

#[test]
fn help_topic_explains_play_command() {
    let lines = help_lines("play");

    assert!(lines.iter().any(|line| line.contains("play <pick>")));
    assert!(lines.iter().any(|line| line.contains("play #7")));
    assert!(lines.iter().any(|line| line.contains("play first")));
    assert!(lines.iter().any(|line| line.contains("play next")));
    assert!(lines.iter().any(|line| line.contains("play prev")));
    assert!(lines.iter().any(|line| line.contains("shuffle")));
    assert!(lines.iter().any(|line| line.contains("surprise")));
    assert!(lines.iter().any(|line| line.contains("pause")));
}

#[test]
fn help_topic_explains_bare_search() {
    let lines = help_lines("search");

    assert!(lines.iter().any(|line| line.contains("bare text")));
    assert!(lines.iter().any(|line| line.contains("find moon")));
}

#[test]
fn help_topic_explains_scan_shortcut() {
    let lines = help_lines("scan");

    assert!(lines.iter().any(|line| line.contains("  scan")));
    assert!(lines.iter().any(|line| line.contains("same as scan")));
}

#[test]
fn help_topic_explains_library_aliases() {
    let lines = help_lines("list");

    assert!(lines.iter().any(|line| line.contains("recent")));
    assert!(lines.iter().any(|line| line.contains("songs")));
    assert!(lines.iter().any(|line| line.contains("tracks")));
    assert!(lines.iter().any(|line| line.contains("play <pick>")));
    assert!(lines.iter().any(|line| line.contains("results")));
    assert!(lines.iter().any(|line| line.contains("more")));
}

#[test]
fn help_topic_suggestions_filter_prefix() {
    let suggestions = help_topic_suggestions("help p");
    let completions: Vec<_> = suggestions
        .into_iter()
        .map(|suggestion| suggestion.completion)
        .collect();

    assert!(completions.contains(&"help play".to_string()));
    assert!(completions.contains(&"help playback".to_string()));
}

#[test]
fn chinese_help_topic_suggestions_filter_prefix() {
    let suggestions = help_topic_suggestions("帮助 播");
    let completions: Vec<_> = suggestions
        .into_iter()
        .map(|suggestion| suggestion.completion)
        .collect();

    assert!(completions.contains(&"帮助 播放".to_string()));
}

#[test]
fn slash_help_topic_suggestions_keep_slash_completion() {
    let suggestions = help_topic_suggestions("/help p");
    let completions: Vec<_> = suggestions
        .into_iter()
        .map(|suggestion| suggestion.completion)
        .collect();

    assert!(completions.contains(&"/help play".to_string()));
    assert!(completions.contains(&"/help playback".to_string()));
}

#[test]
fn localized_help_lines_support_chinese() {
    let root = localized_help_lines("", ShellLanguage::Chinese);
    let play = localized_help_lines("播放", ShellLanguage::Chinese);
    let language = localized_help_lines("语言", ShellLanguage::Chinese);
    let shortcuts = shortcut_lines(ShellLanguage::Chinese);
    let aliases = alias_lines(ShellLanguage::Chinese);

    assert!(root.iter().any(|line| line.contains("命令")));
    assert!(play.iter().any(|line| line.contains("播放 下一首")));
    assert!(language.iter().any(|line| line.contains("语言 zh")));
    assert!(language.iter().any(|line| line.contains("语言 状态")));
    assert!(language.iter().any(|line| line.contains("语言 列表")));
    assert!(shortcuts.iter().any(|line| line.contains("Ctrl+W")));
    assert!(aliases.iter().any(|line| line.contains("中英文命令")));
}

#[test]
fn help_topic_explains_language_command() {
    let lines = help_lines("language");

    assert!(lines.iter().any(|line| line.contains("language zh")));
    assert!(lines.iter().any(|line| line.contains("language status")));
    assert!(lines.iter().any(|line| line.contains("language list")));
}

#[test]
fn parse_language_accepts_supported_names() {
    assert_eq!(parse_language("zh"), Some(ShellLanguage::Chinese));
    assert_eq!(parse_language("中文"), Some(ShellLanguage::Chinese));
    assert_eq!(parse_language("en"), Some(ShellLanguage::English));
    assert_eq!(parse_language("English"), Some(ShellLanguage::English));
    assert_eq!(parse_language("jp"), None);
}

#[test]
fn language_status_argument_accepts_status_words() {
    assert!(is_language_status_argument("status"));
    assert!(is_language_status_argument("list"));
    assert!(is_language_status_argument("current"));
    assert!(is_language_status_argument("状态"));
    assert!(is_language_status_argument("列表"));
    assert!(!is_language_status_argument("zh"));
}

#[test]
fn help_topic_explains_next_and_tips_separately() {
    let next_lines = help_lines("next");
    let tips_lines = help_lines("tips");
    let home_lines = help_lines("home");
    let shortcut_lines = help_lines("shortcuts");

    assert!(next_lines.iter().any(|line| line.contains("prev")));
    assert!(next_lines.iter().any(|line| line.contains("result #1")));
    assert!(
        tips_lines
            .iter()
            .any(|line| line.contains("most useful commands"))
    );
    assert!(
        home_lines
            .iter()
            .any(|line| line.contains("welcome screen"))
    );
    assert!(shortcut_lines.iter().any(|line| line.contains("Ctrl+W")));
    assert!(shortcut_lines.iter().any(|line| line.contains("Tab")));
}

#[test]
fn help_topic_explains_open_and_again() {
    let open_lines = help_lines("open");
    let again_lines = help_lines("again");

    assert!(open_lines.iter().any(|line| line.contains("open current")));
    assert!(open_lines.iter().any(|line| line.contains("reveal")));
    assert!(open_lines.iter().any(|line| line.contains("where")));
    assert!(
        again_lines
            .iter()
            .any(|line| line.contains("last non-again"))
    );
}

#[test]
fn help_topic_explains_copy_command() {
    let lines = help_lines("copy");

    assert!(lines.iter().any(|line| line.contains("copy current")));
    assert!(lines.iter().any(|line| line.contains("clipboard")));
}

#[test]
fn help_topic_explains_info_command() {
    let lines = help_lines("info");
    let current_lines = help_lines("current");

    assert!(lines.iter().any(|line| line.contains("info current")));
    assert!(lines.iter().any(|line| line.contains("info 7")));
    assert!(current_lines.iter().any(|line| line.contains("playing")));
}

#[test]
fn help_topic_explains_diagnostic_aliases() {
    let lines = help_lines("health");

    assert!(lines.iter().any(|line| line.contains("device")));
    assert!(lines.iter().any(|line| line.contains("outputs")));
    assert!(lines.iter().any(|line| line.contains("diagnose")));
    assert!(lines.iter().any(|line| line.contains("health")));
}

#[test]
fn help_topic_explains_aliases() {
    let lines = help_lines("aliases");

    assert!(lines.iter().any(|line| line.contains("library")));
    assert!(lines.iter().any(|line| line.contains("doctor")));
    assert!(lines.iter().any(|line| line.contains("shortcuts")));
    assert!(lines.iter().any(|line| line.contains("bare keywords")));
}

#[test]
fn help_topic_explains_shell_control_commands() {
    let errors = help_lines("errors");
    let clear = help_lines("clear");
    let quit = help_lines("quit");
    let open_db = help_lines("open-db");

    assert!(errors.iter().any(|line| line.contains("failed")));
    assert!(clear.iter().any(|line| line.contains("cls")));
    assert!(quit.iter().any(|line| line.contains("exit")));
    assert!(open_db.iter().any(|line| line.contains("database folder")));
}

#[test]
fn repeat_command_is_not_recorded_as_last_command() {
    assert!(is_repeat_command("again"));
    assert!(is_repeat_command("/repeat"));
    assert!(is_repeat_command("!!"));
    assert!(!is_repeat_command("play 1"));
}

#[test]
fn parse_result_index_accepts_plain_and_hash_numbers() {
    assert_eq!(parse_result_index_input("1"), Some(1));
    assert_eq!(parse_result_index_input("#12"), Some(12));
    assert_eq!(parse_result_index_input("0"), None);
    assert_eq!(parse_result_index_input("play 1"), None);
}

#[test]
fn explorer_select_path_removes_verbatim_prefix() {
    assert_eq!(
        explorer_select_path(r"\\?\D:\Music\Song.flac"),
        r"D:\Music\Song.flac"
    );
}

#[test]
fn compact_path_keeps_tail() {
    assert_eq!(compact_path("C:/Music/Album/Song.flac", 12), "...Song.flac");
}

#[test]
fn compact_respects_wide_character_display_width() {
    let value = compact("インターネット最高: NSO by ItsMeUltimate", 18);

    assert!(display_width(&value) <= 18);
    assert!(value.ends_with("..."));
}

#[test]
fn compact_path_respects_wide_character_display_width() {
    let value = compact_path(
        r"D:\MusicRin\油兔凡云视听曲目\AViVA - BLAME IT ON THE KIDS.flac",
        24,
    );

    assert!(display_width(&value) <= 24);
    assert!(value.ends_with("KIDS.flac"));
}

#[test]
fn track_detail_formatters_are_human_readable() {
    let mut track = test_track("Moon Halo", "Mili");
    track.duration_ms = Some(65_000);
    track.sample_rate = Some(44_100);
    track.channel_count = Some(2);
    track.bit_depth = Some(16);
    track.size_bytes = 5 * 1024 * 1024;

    assert_eq!(format_duration(track.duration_ms.unwrap()), "1:05");
    assert_eq!(format_track_number(Some(1), Some(7)), "1.7");
    assert_eq!(
        format_track_technical_summary(&track),
        "44100 Hz / 2ch / 16-bit"
    );
    assert_eq!(format_size(track.size_bytes), "5.0 MiB");
}

fn test_track(title: &str, artist: &str) -> Track {
    Track {
        id: None,
        title: title.to_string(),
        artist: Some(artist.to_string()),
        album: None,
        album_artist: None,
        track_number: None,
        disc_number: None,
        duration_ms: None,
        sample_rate: None,
        channel_count: None,
        bit_depth: None,
        path: format!("C:/Music/{title}.flac"),
        modified_unix: 0,
        size_bytes: 0,
    }
}
