use echo_cli::library::Track;
use echo_cli::shell::drawing::{suggestion_footer_line, suggestion_footer_line_for_input};
use echo_cli::shell::history::{
    history_command, history_lines, parse_history_entries, push_history_entry,
    serialize_history_entries, strip_command, HistoryCommand, HISTORY_LIMIT,
};
use echo_cli::shell::language::{lines_in, parse_language, saved_language, ShellLanguage};
use echo_cli::shell::line::{
    before_cursor, insert_char_at_cursor, next_char_boundary, next_word_boundary,
    previous_char_boundary, previous_word_boundary, remove_after_cursor, remove_before_cursor,
    remove_char_before_cursor, remove_word_before_cursor,
};
use echo_cli::shell::nearest::{edit_distance, nearest_command_suggestions};
use echo_cli::shell::reader::{Key, KeyOutcome, KeyPress, ReadAction, ShellReader};
use echo_cli::shell::suggestions::{is_result_index_prefix, slash_command_view, ShellSuggestionContext};

fn press(key: Key) -> KeyPress {
    KeyPress {
        key,
        control: false,
        modifiers: 0,
    }
}

fn control(character: char) -> KeyPress {
    KeyPress {
        key: Key::Char(character),
        control: true,
        modifiers: 2,
    }
}

/// A prompt with its line.
struct Desk {
    reader: ShellReader,
    input: String,
    cursor: usize,
    context: ShellSuggestionContext,
    now: u64,
}

fn desk(history: &str) -> Desk {
    Desk {
        reader: ShellReader::load(history),
        input: String::new(),
        cursor: 0,
        context: ShellSuggestionContext::new(&[], ShellLanguage::English, false, 0),
        now: 0,
    }
}

impl Desk {
    fn key(&mut self, key: KeyPress) -> KeyOutcome {
        self.now += 1_000_000_000;
        self.reader.handle_key(
            &mut self.input,
            &mut self.cursor,
            key,
            self.now,
            &self.context,
        )
    }

    fn type_in(&mut self, text: &str) {
        for character in text.chars() {
            self.key(press(Key::Char(character)));
        }
    }
}

fn track(title: &str) -> Track {
    Track {
        id: None,
        title: title.to_string(),
        artist: None,
        album: None,
        album_artist: None,
        track_number: None,
        disc_number: None,
        duration_ms: None,
        sample_rate: None,
        channel_count: None,
        bit_depth: None,
        path: format!("/music/{}.flac", title),
        modified_unix: 0,
        size_bytes: 0,
    }
}

// ------------------------------------------------------------------ the line

#[test]
fn typing_and_deleting_returns_to_the_line() {
    for (line, cursor) in [("", 0), ("ab", 1), ("a月b", 4), ("月光", 6)] {
        for character in ['x', '月', '🎵'] {
            let mut input = line.to_string();
            let mut at = cursor;
            insert_char_at_cursor(&mut input, &mut at, character);
            assert_eq!(at, cursor + character.len_utf8());
            assert!(remove_char_before_cursor(&mut input, &mut at));
            assert_eq!((input.as_str(), at), (line, cursor));
        }
    }
}

#[test]
fn boundaries_stay_inside_the_line() {
    let line = "search 月光 halo";
    for cursor in 0..=line.len() {
        if !line.is_char_boundary(cursor) {
            continue;
        }
        for at in [
            previous_char_boundary(line, cursor),
            next_char_boundary(line, cursor),
            previous_word_boundary(line, cursor),
            next_word_boundary(line, cursor),
        ] {
            assert!(line.is_char_boundary(at));
        }
        assert!(previous_word_boundary(line, cursor) <= cursor);
        assert!(next_word_boundary(line, cursor) >= cursor);
        assert_eq!(before_cursor(line, cursor), &line[..cursor]);
    }
    assert_eq!(previous_char_boundary(line, 0), 0);
    assert_eq!(next_char_boundary(line, line.len()), line.len());
}

#[test]
fn the_head_and_the_tail_can_be_cut() {
    let mut input = "play 月光".to_string();
    let mut cursor = 5;
    remove_before_cursor(&mut input, &mut cursor);
    assert_eq!((input.as_str(), cursor), ("月光", 0));
    cursor = 3;
    assert!(remove_after_cursor(&mut input, &mut cursor));
    assert_eq!((input.as_str(), cursor), ("月", 3));
    assert!(remove_word_before_cursor(&mut input, &mut cursor));
    assert_eq!((input.as_str(), cursor), ("", 0));
    assert!(!remove_word_before_cursor(&mut input, &mut cursor));
    assert!(!remove_char_before_cursor(&mut input, &mut cursor));
}

// ------------------------------------------------------------------ keys

#[test]
fn typed_characters_enter_the_line() {
    let mut desk = desk("");
    desk.type_in("月x");
    assert_eq!((desk.input.as_str(), desk.cursor), ("月x", 4));
    desk.key(press(Key::Left));
    desk.key(press(Key::Backspace));
    assert_eq!((desk.input.as_str(), desk.cursor), ("x", 0));
    desk.key(press(Key::Delete));
    assert_eq!(desk.input, "");
    let outcome = desk.key(press(Key::Delete));
    assert!(!outcome.redraw);
    let outcome = desk.key(press(Key::Other));
    assert_eq!(outcome.action, ReadAction::Continue);
    assert!(!outcome.redraw);
}

#[test]
fn home_and_end_move_to_the_ends() {
    let mut desk = desk("");
    desk.type_in("zz 月光");
    desk.key(press(Key::Home));
    assert_eq!(desk.cursor, 0);
    desk.key(press(Key::End));
    assert_eq!(desk.cursor, desk.input.len());
    desk.key(KeyPress {
        key: Key::Left,
        control: true,
        modifiers: 2,
    });
    assert_eq!(desk.cursor, 3);
}

#[test]
fn escape_empties_the_line() {
    let mut desk = desk("");
    desk.type_in("moon");
    let outcome = desk.key(press(Key::Esc));
    assert_eq!(outcome.action, ReadAction::Continue);
    assert_eq!((desk.input.as_str(), desk.cursor), ("", 0));
}

#[test]
fn control_keys_edit_the_line() {
    let mut desk = desk("");
    desk.type_in("zz moon");
    desk.key(control('w'));
    assert_eq!(desk.input, "zz ");
    desk.key(control('a'));
    assert_eq!(desk.cursor, 0);
    desk.key(control('e'));
    assert_eq!(desk.cursor, 3);
    desk.key(control('u'));
    assert_eq!(desk.input, "");
    let outcome = desk.key(control('l'));
    assert!(outcome.clear_screen);
}

#[test]
fn control_c_cancels() {
    let mut desk = desk("");
    desk.type_in("zz");
    assert_eq!(desk.key(control('c')).action, ReadAction::Cancel);
}

#[test]
fn an_echoed_character_is_taken_once() {
    let mut reader = ShellReader::new();
    assert!(reader.accept_char('a', 0, 1_000));
    assert!(!reader.accept_char('a', 0, 2_000));
    assert!(reader.accept_char('b', 0, 2_500));
    assert!(reader.accept_char('b', 1, 2_600));
    assert!(reader.accept_char('b', 1, 1_000_000_000));
}

#[test]
fn tab_takes_the_first_suggestion() {
    let mut desk = desk("");
    let first = desk.context.suggestions("sc")[0].completion.clone();
    desk.type_in("sc");
    desk.key(press(Key::Tab));
    assert_eq!(desk.input, first);
    assert_eq!(desk.cursor, desk.input.len());
}

#[test]
fn the_selection_moves_both_ways() {
    let mut desk = desk("");
    desk.type_in("p");
    let first = desk
        .reader
        .selected_suggestion(&desk.input, &desk.context)
        .unwrap();
    desk.key(press(Key::Down));
    let second = desk
        .reader
        .selected_suggestion(&desk.input, &desk.context)
        .unwrap();
    assert_ne!(first.completion, second.completion);
    desk.key(press(Key::Up));
    let back = desk
        .reader
        .selected_suggestion(&desk.input, &desk.context)
        .unwrap();
    assert_eq!(first.completion, back.completion);
    assert_eq!(desk.input, "p");
}

#[test]
fn a_complete_command_runs_on_enter() {
    let mut desk = desk("");
    desk.type_in("play");
    assert_eq!(desk.key(press(Key::Enter)).action, ReadAction::Submit);
    assert_eq!(desk.input, "play");
}

#[test]
fn a_prefix_is_completed_on_enter() {
    let mut desk = desk("");
    desk.type_in("pla");
    assert_eq!(desk.key(press(Key::Enter)).action, ReadAction::Continue);
    assert_eq!(desk.input, "play ");
    let mut other = self::desk("");
    other.type_in("paus");
    assert_eq!(other.key(press(Key::Enter)).action, ReadAction::Submit);
    assert_eq!(other.input, "pause");
}

#[test]
fn a_blank_line_is_submitted() {
    let mut desk = desk("");
    assert_eq!(desk.key(press(Key::Enter)).action, ReadAction::Submit);
    assert_eq!(desk.input, "");
}

#[test]
fn the_history_is_walked_both_ways() {
    let mut desk = desk("search moon\nplay 1\n");
    desk.key(press(Key::Up));
    assert_eq!(desk.input, "play 1");
    desk.reader.begin_line();
    let mut input = String::new();
    let mut cursor = 0;
    desk.reader.previous_history(&mut input, &mut cursor);
    desk.reader.previous_history(&mut input, &mut cursor);
    assert_eq!((input.as_str(), cursor), ("search moon", 11));
    desk.reader.previous_history(&mut input, &mut cursor);
    assert_eq!(input, "search moon");
    desk.reader.next_history(&mut input, &mut cursor);
    assert_eq!(input, "play 1");
    desk.reader.next_history(&mut input, &mut cursor);
    assert_eq!(input, "");
}

// ------------------------------------------------------------------ drawing

#[test]
fn the_prompt_shows_its_suggestions() {
    let mut desk = desk("");
    desk.type_in("p");
    desk.key(press(Key::Down));
    let view = desk
        .reader
        .prompt_view("echo ready> ", &desk.input, desk.cursor, &desk.context);
    assert_eq!(view.cursor_column, 13);
    assert!(view.rows.len() <= 8);
    assert_eq!(view.rows.iter().filter(|row| row.selected).count(), 1);
    assert!(view.rows[1].selected);
    assert!(view.footer.is_some());

    let wide = desk.reader.prompt_view("> ", "月x", 3, &desk.context);
    assert_eq!(wide.cursor_column, 4);
    let none = desk.reader.prompt_view("> ", "zzzzzzzz", 8, &desk.context);
    assert_eq!(none.rows.len(), 0);
    assert_eq!(none.footer, None);
}

#[test]
fn a_footer_stands_below_suggestions_only() {
    for language in [ShellLanguage::English, ShellLanguage::Chinese] {
        for blank in [false, true] {
            assert_eq!(suggestion_footer_line_for_input(0, 0, language, blank), None);
            assert!(suggestion_footer_line_for_input(2, 2, language, blank).is_some());
        }
        assert!(suggestion_footer_line(9, 8, language).unwrap().contains('1'));
    }
}

// ------------------------------------------------------------------ the history

#[test]
fn a_saved_history_is_read_back() {
    let mut history = Vec::new();
    for number in 0..HISTORY_LIMIT + 3 {
        push_history_entry(&mut history, &format!("search {}", number));
    }
    assert_eq!(history.len(), HISTORY_LIMIT);
    assert_eq!(history[0], "search 3");
    assert_eq!(parse_history_entries(&serialize_history_entries(&history)), history);
    assert_eq!(serialize_history_entries(&[]), "");
}

#[test]
fn a_command_moves_to_the_end_of_the_history() {
    let mut history = vec!["play 1".to_string(), "search moon".to_string()];
    assert!(!push_history_entry(&mut history, "   "));
    let before = history.clone();
    assert!(!push_history_entry(&mut history, " search moon "));
    assert_eq!(history, before);
    assert!(push_history_entry(&mut history, "play 1"));
    assert_eq!(history.last().unwrap(), "play 1");
}

#[test]
fn history_commands_are_recognised() {
    assert!(matches!(history_command("history clear"), HistoryCommand::Clear));
    assert!(!matches!(history_command("history"), HistoryCommand::Clear));
    assert_eq!(strip_command("/:play 1"), "play 1");
    let mut reader = ShellReader::load("search moon\n");
    let (lines, save) = reader.run_history_command("history").unwrap();
    assert!(lines.iter().any(|line| line.contains("search moon")));
    assert!(!save);
    assert_eq!(reader.run_history_command("play 1"), None);
    let (_, save) = reader.run_history_command("/history clear").unwrap();
    assert!(save);
    assert!(reader.history.is_empty());
    assert!(!history_lines(&[], 20).is_empty());
}

// ------------------------------------------------------------------ languages

#[test]
fn a_saved_language_is_read_back() {
    for language in [ShellLanguage::English, ShellLanguage::Chinese] {
        assert_eq!(saved_language(Some(language.code())), language);
        assert_eq!(parse_language(language.code()), Some(language));
        assert_eq!(language.toggled().toggled(), language);
        assert_ne!(language.toggled(), language);
        assert_ne!(language.label(), language.toggled().label());
    }
    assert_eq!(saved_language(None), ShellLanguage::English);
    assert_eq!(saved_language(Some("jp")), ShellLanguage::English);
    assert_eq!(saved_language(Some(" zh\n")), ShellLanguage::Chinese);
    assert_eq!(ShellLanguage::Chinese.text("a", "b"), "b");
    assert_eq!(lines_in(ShellLanguage::English, &["a"], &["b"]), vec!["a".to_string()]);
}

// ------------------------------------------------------------------ near misses

#[test]
fn edit_distances_count_changes() {
    for (left, right, distance) in [
        ("", "", 0),
        ("", "abc", 3),
        ("play", "play", 0),
        ("ply", "play", 1),
        ("kitten", "sitting", 3),
        ("月光", "月", 1),
        ("flaw", "lawn", 2),
    ] {
        assert_eq!(edit_distance(left, right), distance);
        assert_eq!(edit_distance(right, left), distance);
    }
}

#[test]
fn far_words_have_no_near_command() {
    assert!(nearest_command_suggestions("moonlight").is_empty());
    assert!(nearest_command_suggestions("").is_empty());
    for near in nearest_command_suggestions("ply") {
        let word = near.completion.split_whitespace().next().unwrap();
        assert!(edit_distance("ply", word.trim_start_matches('/')) <= 2, "{}", word);
    }
}

// ------------------------------------------------------------------ suggestions

#[test]
fn slashes_are_kept_before_completions() {
    assert_eq!(slash_command_view("/play 1"), ("play 1", "/"));
    assert_eq!(slash_command_view("play 1"), ("play 1", ""));
    assert!(is_result_index_prefix("#1"));
    assert!(is_result_index_prefix("12"));
    assert!(!is_result_index_prefix("play"));
}

#[test]
fn results_are_offered_by_number_and_title() {
    let tracks = [track("Moon Halo"), track("Étude")];
    let context = ShellSuggestionContext::from_tracks(&tracks);
    let completions: Vec<String> = context
        .suggestions("info TUDE")
        .into_iter()
        .map(|suggestion| suggestion.completion)
        .collect();
    assert_eq!(completions, vec!["info 2".to_string(), "info Étude".to_string()]);
}
