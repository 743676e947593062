//! The saved command history.

use crate::text;
use vstd::prelude::*;

verus! {

pub const HISTORY_LIMIT: usize = 200;

/// Commands that are not worth remembering.
pub const TRANSIENT_COMMANDS: [&'static str; 12] = [
    "",
    "q",
    "quit",
    "exit",
    "退出",
    "clear",
    "cls",
    "清屏",
    "history",
    "again",
    "repeat",
    "!!",
];

/// Commands that repeat the last one.
pub const REPEAT_COMMANDS: [&'static str; 3] = ["again", "repeat", "!!"];

// ---------------------------------------------------------------- entries

/// Blank commands and repetitions of the last entry are not added; the oldest entries give way.
pub open spec fn pushed(history: Seq<Seq<char>>, command: Seq<char>) -> Seq<Seq<char>> {
    let entry = text::trim_spec(command);
    if entry.len() == 0 || (history.len() > 0 && history.last() == entry) {
        history
    } else {
        let longer = history.push(entry);
        if longer.len() > HISTORY_LIMIT {
            longer.skip(longer.len() - HISTORY_LIMIT)
        } else {
            longer
        }
    }
}

pub open spec fn adds_entry(history: Seq<Seq<char>>, command: Seq<char>) -> bool {
    let entry = text::trim_spec(command);
    entry.len() > 0 && (history.len() > 0 ==> history.last() != entry)
}

/// The history that results from adding `lines` one after another.
pub open spec fn collected(lines: Seq<Seq<char>>) -> Seq<Seq<char>>
    decreases lines.len(),
{
    if lines.len() == 0 {
        Seq::empty()
    } else {
        pushed(collected(lines.drop_last()), lines.last())
    }
}

/// Each entry on a line of its own.
pub open spec fn serialized(history: Seq<Seq<char>>) -> Seq<char>
    decreases history.len(),
{
    if history.len() == 0 {
        Seq::empty()
    } else {
        history[0] + seq!['\n'] + serialized(history.skip(1))
    }
}

/// At most `HISTORY_LIMIT` entries, none of them blank or untrimmed, no two neighbours equal.
pub open spec fn history_ok(history: Seq<Seq<char>>) -> bool {
    &&& history.len() <= HISTORY_LIMIT
    &&& forall|i: int|
        0 <= i < history.len() ==> (#[trigger] history[i]).len() > 0 && text::trim_spec(history[i])
            == history[i]
    &&& forall|i: int| 0 < i < history.len() ==> #[trigger] history[i] != history[i - 1]
}

/// No entry holds a line feed.
pub open spec fn single_lines(history: Seq<Seq<char>>) -> bool {
    forall|i: int, j: int|
        0 <= i < history.len() && 0 <= j < history[i].len() ==> #[trigger] history[i][j] != '\n'
}

pub fn push_history_entry(history: &mut Vec<String>, command: &str) -> (r: bool)
    ensures
        text::texts(final(history)@) == pushed(text::texts(old(history)@), command@),
        r == adds_entry(text::texts(old(history)@), command@),
{
    let entry = text::trim(command);
    let ghost before = text::texts(history@);
    if entry.is_empty() {
        return false;
    }
    if history.len() > 0 && text::same_text(history[history.len() - 1].as_str(), entry) {
        return false;
    }
    history.push(entry.to_owned());
    let ghost longer = before.push(entry@);
    assert(text::texts(history@) =~= longer);
    assert(longer.skip(0) =~= longer);
    let ghost mut dropped: int = 0;
    while history.len() > HISTORY_LIMIT
        invariant
            0 <= dropped <= longer.len(),
            history@.len() == longer.len() - dropped,
            dropped > 0 ==> history@.len() >= HISTORY_LIMIT,
            text::texts(history@) == longer.skip(dropped),
        decreases history@.len(),
    {
        let ghost held = text::texts(history@);
        history.remove(0);
        proof {
            assert(text::texts(history@) =~= held.skip(1));
            assert(held.skip(1) =~= longer.skip(dropped + 1));
            dropped = dropped + 1;
        }
    }
    true
}

pub fn parse_history_entries(contents: &str) -> (r: Vec<String>)
    ensures
        text::texts(r@) == collected(text::lines_spec(contents@)),
{
    let lines = text::split_lines(contents);
    let ghost all = text::texts(lines@);
    let mut history: Vec<String> = Vec::new();
    assert(text::texts(history@) =~= collected(all.take(0)));
    for i in 0..lines.len()
        invariant
            all == text::texts(lines@),
            text::texts(history@) == collected(all.take(i as int)),
    {
        push_history_entry(&mut history, lines[i].as_str());
        assert(all.take(i + 1).drop_last() =~= all.take(i as int));
    }
    assert(all.take(all.len() as int) =~= all);
    history
}

proof fn lemma_serialized_push(history: Seq<Seq<char>>, entry: Seq<char>)
    ensures
        serialized(history.push(entry)) == serialized(history) + entry + seq!['\n'],
    decreases history.len(),
{
    if history.len() == 0 {
        assert(history.push(entry).skip(1) =~= Seq::<Seq<char>>::empty());
        assert(serialized(history.push(entry).skip(1)) =~= Seq::<char>::empty());
        assert(serialized(history.push(entry)) =~= serialized(history) + entry + seq!['\n']);
    } else {
        lemma_serialized_push(history.skip(1), entry);
        assert(history.push(entry).skip(1) =~= history.skip(1).push(entry));
        assert(serialized(history.push(entry)) =~= serialized(history) + entry + seq!['\n']);
    }
}

pub fn serialize_history_entries(history: &[String]) -> (r: String)
    ensures
        r@ == serialized(text::texts(history@)),
{
    let ghost all = text::texts(history@);
    let mut r = String::new();
    assert(r@ =~= serialized(all.take(0)));
    for i in 0..history.len()
        invariant
            all == text::texts(history@),
            r@ == serialized(all.take(i as int)),
    {
        proof {
            lemma_serialized_push(all.take(i as int), all[i as int]);
            assert(all.take(i + 1) =~= all.take(i as int).push(all[i as int]));
        }
        r.append(history[i].as_str());
        r.push('\n');
        assert(r@ =~= serialized(all.take(i as int)) + all[i as int] + seq!['\n']);
    }
    assert(all.take(all.len() as int) =~= all);
    r
}

// ---------------------------------------------------------------- laws

/// Adding a command keeps the history in order.
pub proof fn pushing_keeps_history(history: Seq<Seq<char>>, command: Seq<char>)
    requires
        history_ok(history),
    ensures
        history_ok(pushed(history, command)),
{
    text::trimming_twice_is_trimming(command);
    let entry = text::trim_spec(command);
    let longer = history.push(entry);
    let next = pushed(history, command);
    if adds_entry(history, command) && longer.len() > HISTORY_LIMIT {
        let d = longer.len() - HISTORY_LIMIT;
        assert forall|i: int| 0 < i < next.len() implies #[trigger] next[i] != next[i - 1] by {
            assert(next[i] == longer[i + d]);
            assert(next[i - 1] == longer[i + d - 1]);
        }
    }
}

/// What was read from any file is a history in order.
pub proof fn reading_gives_a_history(lines: Seq<Seq<char>>)
    ensures
        history_ok(collected(lines)),
    decreases lines.len(),
{
    if lines.len() > 0 {
        reading_gives_a_history(lines.drop_last());
        pushing_keeps_history(collected(lines.drop_last()), lines.last());
    }
}

/// Reading what was written gives the same history back.
pub proof fn saved_history_is_read_back(history: Seq<Seq<char>>)
    requires
        history_ok(history),
        single_lines(history),
    ensures
        collected(text::lines_spec(serialized(history))) == history,
{
    lemma_lines_of_serialized(history);
    lemma_collected_again(history);
}

/// The newest command is the last entry.
pub proof fn newest_command_is_last(history: Seq<Seq<char>>, command: Seq<char>)
    requires
        text::trim_spec(command).len() > 0,
    ensures
        pushed(history, command).len() > 0,
        pushed(history, command).last() == text::trim_spec(command),
{
}

proof fn lemma_lines_of_serialized(history: Seq<Seq<char>>)
    requires
        history_ok(history),
        single_lines(history),
    ensures
        text::lines_spec(serialized(history)) == history,
    decreases history.len(),
{
    if history.len() > 0 {
        let rest = history.skip(1);
        let whole = serialized(history);
        let n = history[0].len() as int;
        assert forall|i: int| 0 < i < rest.len() implies #[trigger] rest[i] != rest[i - 1] by {
            assert(rest[i] == history[i + 1]);
            assert(rest[i - 1] == history[i]);
        }
        assert forall|i: int, j: int|
            0 <= i < rest.len() && 0 <= j < rest[i].len() implies #[trigger] rest[i][j] != '\n' by {
            assert(rest[i] == history[i + 1]);
            assert(history[i + 1][j] != '\n');
        }
        lemma_lines_of_serialized(rest);
        assert forall|i: int| 0 <= i < n implies whole[i] != '\n' by {
            assert(whole[i] == history[0][i]);
        }
        assert(whole[n] == '\n');
        text::lemma_line_len(whole, n);
        assert(whole.take(n) =~= history[0]);
        assert(whole.skip(n + 1) =~= serialized(rest));
        text::trimming_twice_is_trimming(history[0]);
        assert(!text::white_space(history[0].last())) by {
            assert(text::trim_end_spec(history[0]) == history[0]);
            lemma_trimmed_last(history[0]);
        }
        assert(text::without_return(history[0]) == history[0]);
        assert(text::lines_spec(whole) =~= seq![history[0]] + rest);
        assert(seq![history[0]] + rest =~= history);
    }
}

proof fn lemma_trimmed_last(s: Seq<char>)
    requires
        s.len() > 0,
        text::trim_end_spec(s) == s,
    ensures
        !text::white_space(s.last()),
{
    if text::white_space(s.last()) {
        text::lemma_trim_end_shorter(s.drop_last());
    }
}

proof fn lemma_collected_again(history: Seq<Seq<char>>)
    requires
        history_ok(history),
    ensures
        collected(history) == history,
    decreases history.len(),
{
    if history.len() > 0 {
        let rest = history.drop_last();
        assert(history_ok(rest)) by {
            assert forall|i: int| 0 < i < rest.len() implies #[trigger] rest[i] != rest[i - 1] by {
                assert(rest[i] == history[i]);
                assert(rest[i - 1] == history[i - 1]);
            }
        }
        lemma_collected_again(rest);
        if rest.len() > 0 {
            assert(history[history.len() - 1] != history[history.len() - 1 - 1]);
        }
        assert(rest.push(history.last()) =~= history);
    }
}

// ---------------------------------------------------------------- commands

/// The command behind colons and slashes.
pub open spec fn bare_command(command: Seq<char>) -> Seq<char> {
    text::trim_spec(text::strip_leading_spec(command, seq![':', '/']))
}

pub fn strip_command(command: &str) -> (r: &str)
    ensures
        r@ == bare_command(command@),
{
    let marks = [':', '/'];
    assert(marks@ =~= seq![':', '/']);
    text::trim(text::strip_leading(command, &marks))
}

/// The first word, in lower case.
pub open spec fn command_name(command: Seq<char>) -> Seq<char> {
    text::ascii_lower_spec(text::first_word_spec(command))
}

pub fn is_history_worthy(command: &str) -> (r: bool)
    ensures
        r == !text::literals(TRANSIENT_COMMANDS@).contains(command_name(bare_command(command@))),
{
    let first = text::ascii_lower(text::first_word(strip_command(command)));
    !text::is_one_of(&first, &TRANSIENT_COMMANDS)
}

pub open spec fn is_repeat_spec(command: Seq<char>) -> bool {
    text::literals(REPEAT_COMMANDS@).contains(
        command_name(text::strip_leading_spec(command, seq![':', '/'])),
    )
}

pub fn is_repeat_command(command: &str) -> (r: bool)
    ensures
        r == is_repeat_spec(command@),
{
    let marks = [':', '/'];
    assert(marks@ =~= seq![':', '/']);
    let first = text::ascii_lower(text::first_word(text::strip_leading(command, &marks)));
    text::is_one_of(&first, &REPEAT_COMMANDS)
}

/// The entry number behind an exclamation mark.
pub open spec fn replay_index_spec(command: Seq<char>) -> Option<usize> {
    match text::strip_prefix_spec(text::trim_spec(command), "!"@) {
        None => None,
        Some(digits) => if digits.len() > 0 && text::all_digits(digits) && 0 < text::digits_value(
            digits,
        ) <= usize::MAX {
            Some(text::digits_value(digits) as usize)
        } else {
            None
        },
    }
}

pub fn history_replay_index(command: &str) -> (r: Option<usize>)
    ensures
        r == replay_index_spec(command@),
{
    match text::strip_prefix(text::trim(command), "!") {
        None => None,
        Some(rest) => {
            let digits = text::chars_of(rest);
            if digits.len() == 0 || !text::is_all_digits(&digits) {
                return None;
            }
            match text::digits_to_usize(&digits) {
                Some(index) => if index > 0 {
                    Some(index)
                } else {
                    None
                },
                None => None,
            }
        },
    }
}

/// What a line asks of the history.
#[derive(Debug, Clone, Copy, PartialEq, Eq, Structural)]
pub enum HistoryCommand {
    /// Nothing: it is another command.
    Other,
    /// To forget every entry.
    Clear,
    /// To list the newest entries.
    Show { count: usize },
}

pub open spec fn history_command_spec(command: Seq<char>) -> HistoryCommand {
    let bare = bare_command(command);
    let argument = text::first_word_spec(text::after_word_spec(bare));
    if command_name(bare) != "history"@ {
        HistoryCommand::Other
    } else if text::ascii_lower_spec(argument) == "clear"@ {
        HistoryCommand::Clear
    } else {
        match text::parse_usize_spec(argument) {
            Some(count) => HistoryCommand::Show { count: if count > 0 { count } else { 20 } },
            None => HistoryCommand::Show { count: 20 },
        }
    }
}

pub fn history_command(command: &str) -> (r: HistoryCommand)
    ensures
        r == history_command_spec(command@),
{
    let bare = strip_command(command);
    let name = text::ascii_lower(text::first_word(bare));
    if !text::same_text(&name, "history") {
        return HistoryCommand::Other;
    }
    let argument = text::first_word(text::after_word(bare));
    let lowered = text::ascii_lower(argument);
    if text::same_text(&lowered, "clear") {
        return HistoryCommand::Clear;
    }
    match text::parse_usize(argument) {
        Some(count) => if count > 0 {
            HistoryCommand::Show { count }
        } else {
            HistoryCommand::Show { count: 20 }
        },
        None => HistoryCommand::Show { count: 20 },
    }
}

pub open spec fn entry_line(history: Seq<Seq<char>>, i: int) -> Seq<char> {
    text::pad_start_spec(text::decimal_spec((i + 1) as nat), 3, ' ') + "  "@ + history[i]
}

/// The newest `count` entries with their numbers.
pub open spec fn history_lines_spec(history: Seq<Seq<char>>, count: nat) -> Seq<Seq<char>> {
    if history.len() == 0 {
        seq!["history is empty"@, "try: search <query>, scan, or play 1"@]
    } else {
        let start = if history.len() > count {
            history.len() - count
        } else {
            0
        };
        Seq::new((history.len() - start) as nat, |i: int| entry_line(history, start + i)).push(
            "replay: !<number>"@,
        )
    }
}

pub fn history_lines(history: &[String], count: usize) -> (r: Vec<String>)
    ensures
        text::texts(r@) == history_lines_spec(text::texts(history@), count as nat),
{
    let ghost all = text::texts(history@);
    let ghost expected = history_lines_spec(all, count as nat);
    if history.len() == 0 {
        let lines = ["history is empty", "try: search <query>, scan, or play 1"];
        let r = text::lines_of(&lines);
        assert(text::texts(r@) =~= expected);
        return r;
    }
    let start: usize = if history.len() > count {
        history.len() - count
    } else {
        0
    };
    let mut r: Vec<String> = Vec::new();
    for i in start..history.len()
        invariant
            all == text::texts(history@),
            r@.len() == i - start,
            forall|j: int| 0 <= j < r@.len() ==> (#[trigger] r@[j])@ == entry_line(all, start + j),
    {
        let number = text::decimal(i as u128 + 1);
        let padded = text::pad_start(&number, 3, ' ');
        r.push(text::text3(&padded, "  ", history[i].as_str()));
    }
    r.push("replay: !<number>".to_owned());
    assert(text::texts(r@) =~= expected);
    r
}

/// A new command is put behind the others without the white space around it, the oldest making room
/// once the history is full; a blank one and one that was just given change nothing.
pub proof fn commands_are_put_at_the_end(history: Seq<Seq<char>>, command: Seq<char>)
    requires
        history.len() <= HISTORY_LIMIT,
    ensures
        text::trim_spec(command).len() == 0 ==> pushed(history, command) == history,
        history.len() > 0 && history.last() == text::trim_spec(command) ==> pushed(
            history,
            command,
        ) == history,
        text::trim_spec(command).len() > 0 && (history.len() == 0 || history.last()
            != text::trim_spec(command)) ==> {
            &&& history.len() < 200 ==> pushed(history, command) == history.push(
                text::trim_spec(command),
            )
            &&& history.len() == 200 ==> pushed(history, command) == history.skip(1).push(
                text::trim_spec(command),
            )
        },
        adds_entry(history, command) <==> pushed(history, command) != history,
{
    let entry = text::trim_spec(command);
    if history.len() == 200 {
        assert(history.push(entry).skip(1) =~= history.skip(1).push(entry));
    }
    if adds_entry(history, command) {
        assert(pushed(history, command).last() == entry);
    }
}

/// The newest entries are listed in their order, each with the number that replays it.
pub proof fn history_shows_the_newest(history: Seq<Seq<char>>, count: nat, i: int)
    requires
        0 < history.len() <= usize::MAX,
        0 <= i < history.len(),
        history.len() - count <= i,
    ensures
        ({
            let shown = if count < history.len() {
                count
            } else {
                history.len()
            };
            let lines = history_lines_spec(history, count);
            let line = lines[i - (history.len() - shown)];
            &&& lines.len() == shown + 1
            &&& text::ends_with_spec(line, text::decimal_spec((i + 1) as nat) + "  "@ + history[i])
            &&& replay_index_spec("!"@ + text::decimal_spec((i + 1) as nat)) == Some(
                (i + 1) as usize,
            )
        }),
{
    let n = (i + 1) as nat;
    let number = text::decimal_spec(n);
    let line = entry_line(history, i);
    let tail = number + "  "@ + history[i];
    assert(line.skip(line.len() - tail.len()) =~= tail);
    text::lemma_decimal(n);
    reveal_strlit("!");
    let typed = "!"@ + number;
    assert(text::is_digit(number[number.len() - 1]));
    assert(typed.last() == number[number.len() - 1]);
    assert(text::trim_spec(typed) == typed);
    assert(typed.take(1) =~= "!"@);
    assert(typed.skip(1) =~= number);
}

/// The history is shown as far as was asked, twenty entries where nothing was said, or cleared.
pub proof fn history_is_asked_for(count: usize)
    requires
        count > 0,
    ensures
        history_command_spec("history "@ + text::decimal_spec(count as nat))
            == (HistoryCommand::Show { count }),
        history_command_spec("history"@) == (HistoryCommand::Show { count: 20 }),
        history_command_spec("history clear"@) == HistoryCommand::Clear,
{
    reveal_strlit("history");
    reveal_strlit("history ");
    reveal_strlit("history clear");
    reveal_strlit("clear");
    reveal_strlit(" ");
    let word = "history"@;
    let number = text::decimal_spec(count as nat);
    assert("history "@ =~= word + " "@);
    assert("history clear"@ =~= word + " "@ + "clear"@);
    text::lemma_number_is_a_word(count as nat);
    text::lemma_decimal(count as nat);
    assert(number.last() == number[number.len() - 1]);
    text::first_word_and_rest(word, number);
    text::first_word_and_rest(word, "clear"@);
    text::single_word_is_the_first(word);
    text::single_word_is_the_first("clear"@);
    text::lemma_lower_stays(word);
    text::lemma_lower_stays("clear"@);
    lemma_bare(word + " "@ + number);
    lemma_bare(word + " "@ + "clear"@);
    lemma_bare(word);
    lemma_argument(word + " "@ + number, number);
    lemma_argument(word + " "@ + "clear"@, "clear"@);
    assert(number != "clear"@) by {
        assert('0' <= number[0] <= '9');
    }
    assert(number[0] != '+') by {
        assert('0' <= number[0] <= '9');
    }
    assert(text::parse_usize_spec(Seq::<char>::empty()) is None);
}

proof fn lemma_argument(command: Seq<char>, argument: Seq<char>)
    requires
        text::trim_spec(text::after_word_spec(command)) == argument,
        argument.len() > 0,
        !text::white_space(argument[0]),
        text::first_word_spec(argument) == argument,
    ensures
        text::first_word_spec(text::after_word_spec(command)) == argument,
{
    let rest = text::trim_start_spec(text::after_word_spec(command));
    text::lemma_word_of_trimmed(rest);
    assert(text::trim_end_spec(rest) == argument);
    assert(text::trim_start_spec(argument) == argument);
}

proof fn lemma_bare(command: Seq<char>)
    requires
        command.len() > 0,
        command[0] == 'h',
        text::trim_spec(command) == command,
    ensures
        bare_command(command) == command,
{
    assert(!seq![':', '/'].contains(command[0])) by {
        assert(forall|c: char| seq![':', '/'].contains(c) ==> c == ':' || c == '/');
    }
}

/// Only a positive number behind an exclamation mark names an entry.
pub proof fn only_positive_numbers_replay(command: Seq<char>)
    ensures
        replay_index_spec(command) matches Some(n) ==> n > 0 && text::trim_spec(command)[0] == '!',
        replay_index_spec("!0"@) is None,
        replay_index_spec("!"@) is None,
{
    reveal_strlit("!");
    reveal_strlit("!0");
    let typed = text::trim_spec(command);
    if text::starts_with_spec(typed, "!"@) {
        assert(typed.take(1)[0] == typed[0]);
    }
    assert(text::trim_spec("!0"@) == "!0"@);
    assert(text::trim_spec("!"@) == "!"@);
    assert("!0"@.take(1) =~= "!"@);
    let digits = "!0"@.skip(1);
    assert(digits =~= seq!['0']);
    assert(text::digits_value(digits) == 0) by {
        reveal_with_fuel(text::digits_value, 2);
        assert(digits.drop_last() =~= Seq::<char>::empty());
    }
}

/// A command is repeated by any of its words, with or without a mark before it.
pub proof fn repetitions_are_known_by_their_words(i: int)
    requires
        0 <= i < 3,
    ensures
        ({
            let word = seq!["again"@, "repeat"@, "!!"@][i];
            &&& is_repeat_spec(word)
            &&& is_repeat_spec(":"@ + word)
            &&& is_repeat_spec("/"@ + word)
        }),
{
    reveal_strlit("again");
    reveal_strlit("repeat");
    reveal_strlit("!!");
    let words = text::literals(REPEAT_COMMANDS@);
    assert(words[0] == "again"@ && words[1] == "repeat"@ && words[2] == "!!"@);
    lemma_marks_are_taken_off("again"@);
    lemma_marks_are_taken_off("repeat"@);
    lemma_marks_are_taken_off("!!"@);
}

proof fn lemma_marks_are_taken_off(word: Seq<char>)
    requires
        word.len() > 0,
        forall|i: int|
            0 <= i < word.len() ==> !text::white_space(#[trigger] word[i]) && !('A' <= word[i]
                <= 'Z'),
        word[0] != ':' && word[0] != '/',
    ensures
        ({
            let marks = seq![':', '/'];
            &&& command_name(text::strip_leading_spec(word, marks)) == word
            &&& command_name(text::strip_leading_spec(":"@ + word, marks)) == word
            &&& command_name(text::strip_leading_spec("/"@ + word, marks)) == word
        }),
{
    reveal_strlit(":");
    reveal_strlit("/");
    let marks = seq![':', '/'];
    assert(marks[0] == ':' && marks[1] == '/');
    assert(marks.contains(':') && marks.contains('/'));
    assert(forall|c: char| marks.contains(c) ==> c == ':' || c == '/');
    assert(text::strip_leading_spec(word, marks) == word);
    assert((":"@ + word).skip(1) =~= word);
    assert(("/"@ + word).skip(1) =~= word);
    assert((":"@ + word)[0] == ':' && ("/"@ + word)[0] == '/');
    assert(text::strip_leading_spec(":"@ + word, marks) == word);
    assert(text::strip_leading_spec("/"@ + word, marks) == word);
    text::single_word_is_the_first(word);
    text::lemma_lower_stays(word);
}

} // verus!
