//! The prompt: what each key does to the line, the history and the offered suggestions, and what
//! there is to draw.

use crate::shell::catalogue;
use crate::shell::catalogue::{ShellSuggestion, Suggestion};
use crate::shell::history;
use crate::shell::history::HistoryCommand;
use crate::shell::language;
use crate::shell::language::ShellLanguage;
use crate::shell::line;
use crate::shell::line::Line;
use crate::shell::suggestions::ShellSuggestionContext;
use crate::text;
use vstd::prelude::*;

verus! {

/// A character that repeats the last one within this time was sent twice for one key stroke.
pub const REPEAT_WINDOW_NANOS: u64 = 25_000_000;

pub const VISIBLE_SUGGESTIONS: usize = 8;

pub const COMPLETION_WIDTH: u16 = 18;

#[derive(Debug, Clone, Copy, PartialEq, Eq, Structural)]
pub enum Key {
    Char(char),
    Enter,
    Esc,
    Backspace,
    Delete,
    Left,
    Right,
    Home,
    End,
    Tab,
    Up,
    Down,
    Other,
}

/// A key with its modifiers.
#[derive(Debug, Clone, Copy, PartialEq, Eq, Structural)]
pub struct KeyPress {
    pub key: Key,
    pub control: bool,
    /// Every modifier, one bit each.
    pub modifiers: u8,
}

#[derive(Debug, Clone, Copy, PartialEq, Eq, Structural)]
pub struct LastChar {
    pub character: char,
    pub modifiers: u8,
    pub at_nanos: u64,
}

#[derive(Debug, Clone, Copy, PartialEq, Eq, Structural)]
pub enum ReadAction {
    Continue,
    Submit,
    Cancel,
}

/// What the terminal has to do after a key.
#[derive(Debug, Clone, Copy, PartialEq, Eq, Structural)]
pub struct KeyOutcome {
    pub action: ReadAction,
    pub redraw: bool,
    pub clear_screen: bool,
}

#[derive(Debug)]
pub struct ShellReader {
    pub history: Vec<String>,
    pub history_cursor: Option<usize>,
    pub suggestion_index: usize,
    pub last_char: Option<LastChar>,
    pub language: ShellLanguage,
}

// ---------------------------------------------------------------- the model

/// The prompt while a line is edited.
#[verifier::ext_equal]
pub ghost struct Prompt {
    pub line: Line,
    /// The entry that was last recalled from the history.
    pub recalled: Option<usize>,
    /// The selected suggestion.
    pub chosen: nat,
    pub last_char: Option<LastChar>,
}

pub open spec fn outcome(action: ReadAction, redraw: bool) -> KeyOutcome {
    KeyOutcome { action, redraw, clear_screen: false }
}

/// The text without its trailing white space is not yet the completion's.
pub open spec fn accepts_on_enter(input: Seq<char>, completion: Seq<char>) -> bool {
    input != completion && text::trim_end_spec(input) != text::trim_end_spec(completion)
}

/// A selection kept within `count` suggestions.
pub open spec fn within(chosen: nat, count: nat) -> nat {
    if count == 0 {
        0
    } else if chosen < count {
        chosen
    } else {
        (count - 1) as nat
    }
}

/// The selection moved up, from the first suggestion to the last.
pub open spec fn selection_before(chosen: nat, count: nat) -> nat {
    if count == 0 {
        chosen
    } else if chosen == 0 {
        (count - 1) as nat
    } else {
        (chosen - 1) as nat
    }
}

/// The selection moved down, from the last suggestion to the first.
pub open spec fn selection_after(chosen: nat, count: nat) -> nat {
    if count == 0 {
        chosen
    } else {
        (chosen + 1) % count
    }
}

impl Prompt {
    /// The line changed: the history and the selection start over.
    pub open spec fn edited(self, to: Line) -> Prompt {
        Prompt { line: to, recalled: None, chosen: 0, last_char: self.last_char }
    }

    pub open spec fn moved(self, at: nat) -> Prompt {
        Prompt { line: Line { chars: self.line.chars, at }, ..self }
    }

    /// The line replaced as a whole, with the cursor at its end.
    pub open spec fn replaced(self, by: Seq<char>) -> Prompt {
        self.edited(Line { chars: by, at: by.len() })
    }

    /// The selection after the suggestions were shown.
    pub open spec fn shown(self, context: ShellSuggestionContext) -> Prompt {
        Prompt {
            chosen: within(self.chosen, context.suggestions_spec(self.line.chars).len()),
            ..self
        }
    }

    pub open spec fn has_visible(self, context: ShellSuggestionContext) -> bool {
        text::trim_spec(self.line.chars).len() > 0 && context.suggestions_spec(
            self.line.chars,
        ).len() > 0
    }

    pub open spec fn selected(self, context: ShellSuggestionContext) -> Option<Suggestion> {
        let candidates = context.suggestions_spec(self.line.chars);
        if candidates.len() == 0 {
            None
        } else {
            Some(candidates[within(self.chosen, candidates.len()) as int])
        }
    }

    pub open spec fn history_before(self, entries: Seq<Seq<char>>) -> Prompt {
        if entries.len() == 0 {
            self
        } else {
            let next = match self.recalled {
                Some(index) => if index > 0 {
                    index - 1
                } else {
                    0
                },
                None => entries.len() - 1,
            };
            Prompt { recalled: Some(next as usize), ..self }.with_line(entries[next])
        }
    }

    pub open spec fn history_after(self, entries: Seq<Seq<char>>) -> Prompt {
        match self.recalled {
            None => self,
            Some(index) => if index + 1 >= entries.len() {
                Prompt { recalled: None, ..self }.with_line(Seq::empty())
            } else {
                Prompt { recalled: Some((index + 1) as usize), ..self }.with_line(
                    entries[index + 1],
                )
            },
        }
    }

    pub open spec fn with_line(self, chars: Seq<char>) -> Prompt {
        Prompt { line: Line { chars, at: chars.len() }, ..self }
    }

    /// The same character with the same modifiers came a moment ago.
    pub open spec fn repeats(self, character: char, modifiers: u8, now: u64) -> bool {
        match self.last_char {
            Some(last) => last.character == character && last.modifiers == modifiers && now
                - last.at_nanos < REPEAT_WINDOW_NANOS,
            None => false,
        }
    }

    // ------------------------------------------------------------ keys

    /// A change that is drawn.
    pub open spec fn drawn(self, context: ShellSuggestionContext) -> (Prompt, KeyOutcome) {
        (self.shown(context), outcome(ReadAction::Continue, true))
    }

    /// An edit that is drawn where it did something.
    pub open spec fn drawn_if(
        self,
        changes: bool,
        to: Line,
        context: ShellSuggestionContext,
    ) -> (Prompt, KeyOutcome) {
        if changes {
            self.edited(to).drawn(context)
        } else {
            (self, outcome(ReadAction::Continue, false))
        }
    }

    pub open spec fn after_char(
        self,
        character: char,
        modifiers: u8,
        now: u64,
        context: ShellSuggestionContext,
    ) -> (Prompt, KeyOutcome) {
        if self.repeats(character, modifiers, now) {
            (self, outcome(ReadAction::Continue, false))
        } else {
            let last_char = Some(LastChar { character, modifiers, at_nanos: now });
            Prompt { last_char, ..self }.edited(self.line.typed(character)).drawn(context)
        }
    }

    pub open spec fn after_control_char(
        self,
        character: char,
        modifiers: u8,
        now: u64,
        context: ShellSuggestionContext,
    ) -> (Prompt, KeyOutcome) {
        let line = self.line;
        if character == 'c' {
            (self, outcome(ReadAction::Cancel, false))
        } else if character == 'a' {
            self.moved(0).drawn(context)
        } else if character == 'e' {
            self.moved(line.chars.len()).drawn(context)
        } else if character == 'u' {
            self.edited(line.without_head()).drawn(context)
        } else if character == 'k' {
            self.drawn_if(line.at < line.chars.len(), line.without_tail(), context)
        } else if character == 'l' {
            (
                self.shown(context),
                KeyOutcome { action: ReadAction::Continue, redraw: true, clear_screen: true },
            )
        } else if character == 'w' {
            self.drawn_if(line.at > 0, line.without_word_before(), context)
        } else if character == 'd' {
            if line.chars.len() == 0 {
                (self, outcome(ReadAction::Cancel, false))
            } else {
                self.drawn_if(line.at < line.chars.len(), line.without_char_after(), context)
            }
        } else {
            self.after_char(character, modifiers, now, context)
        }
    }

    pub open spec fn after_enter(self, context: ShellSuggestionContext) -> (Prompt, KeyOutcome) {
        match self.selected(context) {
            Some(suggestion) if self.has_visible(context) && accepts_on_enter(
                self.line.chars,
                suggestion.completion,
            ) => {
                let done = self.replaced(suggestion.completion);
                if text::ends_with_spec(suggestion.completion, " "@) {
                    done.drawn(context)
                } else {
                    (done, outcome(ReadAction::Submit, false))
                }
            },
            _ => (self, outcome(ReadAction::Submit, false)),
        }
    }

    pub open spec fn after_tab(self, context: ShellSuggestionContext) -> (Prompt, KeyOutcome) {
        match self.selected(context) {
            Some(suggestion) => self.replaced(suggestion.completion).drawn(context),
            None => (self, outcome(ReadAction::Continue, false)),
        }
    }

    /// What a key does.
    pub open spec fn after_key(
        self,
        entries: Seq<Seq<char>>,
        press: KeyPress,
        now: u64,
        context: ShellSuggestionContext,
    ) -> (Prompt, KeyOutcome) {
        let line = self.line;
        let count = context.suggestions_spec(line.chars).len();
        match press.key {
            Key::Char(character) => if press.control {
                self.after_control_char(character, press.modifiers, now, context)
            } else {
                self.after_char(character, press.modifiers, now, context)
            },
            Key::Enter => self.after_enter(context),
            Key::Esc => self.replaced(Seq::empty()).drawn(context),
            Key::Backspace => self.drawn_if(
                line.at > 0,
                if press.control {
                    line.without_word_before()
                } else {
                    line.without_char_before()
                },
                context,
            ),
            Key::Delete => self.drawn_if(
                line.at < line.chars.len(),
                if press.control {
                    line.without_tail()
                } else {
                    line.without_char_after()
                },
                context,
            ),
            Key::Left => self.moved(
                if press.control {
                    line::word_start(line.chars, line.at)
                } else if line.at == 0 {
                    0
                } else {
                    (line.at - 1) as nat
                },
            ).drawn(context),
            Key::Right => self.moved(
                if press.control {
                    line::word_end(line.chars, line.at)
                } else if line.at >= line.chars.len() {
                    line.chars.len()
                } else {
                    line.at + 1
                },
            ).drawn(context),
            Key::Home => self.moved(0).drawn(context),
            Key::End => self.moved(line.chars.len()).drawn(context),
            Key::Tab => self.after_tab(context),
            Key::Up => if self.has_visible(context) {
                Prompt { chosen: selection_before(self.chosen, count), ..self }.drawn(context)
            } else {
                self.history_before(entries).drawn(context)
            },
            Key::Down => if self.has_visible(context) {
                Prompt { chosen: selection_after(self.chosen, count), ..self }.drawn(context)
            } else {
                self.history_after(entries).drawn(context)
            },
            Key::Other => (self, outcome(ReadAction::Continue, false)),
        }
    }
}

// ---------------------------------------------------------------- laws

/// Up and then Down among the suggestions, or Down and then Up, selects the same one again.
pub proof fn selection_steps_undo_each_other(chosen: nat, count: nat)
    requires
        chosen < count,
    ensures
        selection_after(selection_before(chosen, count), count) == chosen,
        selection_before(selection_after(chosen, count), count) == chosen,
        selection_before(chosen, count) < count,
        selection_after(chosen, count) < count,
{
    if chosen + 1 < count {
        vstd::arithmetic::div_mod::lemma_small_mod(chosen + 1, count);
    } else {
        vstd::arithmetic::div_mod::lemma_mod_self_0(count as int);
    }
    vstd::arithmetic::div_mod::lemma_small_mod(chosen, count);
    vstd::arithmetic::div_mod::lemma_mod_self_0(count as int);
}

/// A command that is typed in full runs on Enter as it stands, whatever trailing space the
/// selected suggestion has.
pub proof fn complete_command_runs_on_enter(prompt: Prompt, context: ShellSuggestionContext)
    requires
        prompt.selected(context) matches Some(suggestion) && text::trim_end_spec(prompt.line.chars)
            == text::trim_end_spec(suggestion.completion),
    ensures
        prompt.after_enter(context) == (prompt, outcome(ReadAction::Submit, false)),
{
}

/// Enter on a blank line hands the line in unchanged.
pub proof fn blank_line_is_submitted(prompt: Prompt, context: ShellSuggestionContext)
    requires
        text::trim_spec(prompt.line.chars).len() == 0,
    ensures
        prompt.after_enter(context) == (prompt, outcome(ReadAction::Submit, false)),
{
}

/// Tab on an empty prompt takes the first suggestion.
pub proof fn tab_takes_the_first_suggestion(prompt: Prompt, context: ShellSuggestionContext)
    requires
        prompt.line.chars.len() == 0,
        prompt.chosen == 0,
        context.suggestions_spec(prompt.line.chars).len() > 0,
    ensures
        prompt.after_tab(context).0.line.chars == context.suggestions_spec(
            prompt.line.chars,
        )[0].completion,
{
}

/// Going back in the history and forward again returns to the entry, and past the newest entry
/// to an empty line.
pub proof fn history_steps_undo_each_other(prompt: Prompt, entries: Seq<Seq<char>>, index: usize)
    requires
        0 < index < entries.len(),
        prompt.recalled == Some(index),
        prompt.line == (Line { chars: entries[index as int], at: entries[index as int].len() }),
    ensures
        prompt.history_before(entries).history_after(entries) == prompt,
        index + 1 == entries.len() ==> prompt.history_after(entries).line.chars.len() == 0,
{
}

/// Up on a blank prompt recalls the newest command, whatever is suggested.
pub proof fn up_recalls_the_newest_command(
    prompt: Prompt,
    entries: Seq<Seq<char>>,
    control: bool,
    modifiers: u8,
    now: u64,
    context: ShellSuggestionContext,
)
    requires
        text::trim_spec(prompt.line.chars).len() == 0,
        prompt.recalled is None,
        entries.len() > 0,
    ensures
        prompt.after_key(
            entries,
            KeyPress { key: Key::Up, control, modifiers },
            now,
            context,
        ).0.line == (Line { chars: entries.last(), at: entries.last().len() }),
{
}

/// Escape empties the line.
pub proof fn escape_empties_the_line(
    prompt: Prompt,
    entries: Seq<Seq<char>>,
    control: bool,
    modifiers: u8,
    now: u64,
    context: ShellSuggestionContext,
)
    ensures
        prompt.after_key(
            entries,
            KeyPress { key: Key::Esc, control, modifiers },
            now,
            context,
        ).0.line == (Line { chars: Seq::empty(), at: 0 }),
{
}

// ---------------------------------------------------------------- the reader

pub fn accepted_suggestion_needs_more_input(suggestion: &ShellSuggestion) -> (r: bool)
    ensures
        r == text::ends_with_spec(suggestion.completion@, " "@),
{
    text::ends_with(suggestion.completion.as_str(), " ")
}

pub fn should_accept_suggestion_on_enter(input: &str, suggestion: &ShellSuggestion) -> (r: bool)
    ensures
        r == accepts_on_enter(input@, suggestion.completion@),
{
    !text::same_text(input, suggestion.completion.as_str()) && !text::same_text(
        text::trim_end(input),
        text::trim_end(suggestion.completion.as_str()),
    )
}

impl ShellReader {
    /// The prompt for a line.
    pub open spec fn prompt(self, input: Seq<char>, cursor: nat) -> Prompt {
        Prompt {
            line: line::line_of(input, cursor),
            recalled: self.history_cursor,
            chosen: self.suggestion_index as nat,
            last_char: self.last_char,
        }
    }

    pub open spec fn entries(self) -> Seq<Seq<char>> {
        text::texts(self.history@)
    }

    /// The recalled entry exists.
    pub open spec fn wf(self) -> bool {
        &&& self.suggestion_index < usize::MAX
        &&& self.history_cursor matches Some(index) ==> index < self.history@.len()
    }

    pub fn new() -> (r: Self)
        ensures
            r.wf(),
            r.entries() == Seq::<Seq<char>>::empty(),
            r.history_cursor is None,
            r.suggestion_index == 0,
            r.last_char is None,
            r.language == ShellLanguage::English,
    {
        let r = ShellReader {
            history: Vec::new(),
            history_cursor: None,
            suggestion_index: 0,
            last_char: None,
            language: ShellLanguage::English,
        };
        assert(r.entries() =~= Seq::<Seq<char>>::empty());
        r
    }

    /// A reader with the history that was saved.
    pub fn load(contents: &str) -> (r: Self)
        ensures
            r.wf(),
            r.entries() == history::collected(text::lines_spec(contents@)),
            r.history_cursor is None,
            r.suggestion_index == 0,
            r.last_char is None,
            r.language == ShellLanguage::English,
    {
        let entries = history::parse_history_entries(contents);
        let mut r = ShellReader::new();
        r.history = entries;
        r
    }

    pub fn set_language(&mut self, language: ShellLanguage)
        ensures
            *final(self) == (ShellReader { language, ..*old(self) }),
    {
        self.language = language;
    }

    pub fn add_history(&mut self, command: &str) -> (r: bool)
        ensures
            final(self).entries() == history::pushed(old(self).entries(), command@),
            r == history::adds_entry(old(self).entries(), command@),
            final(self).history_cursor == old(self).history_cursor,
            final(self).suggestion_index == old(self).suggestion_index,
            final(self).last_char == old(self).last_char,
            final(self).language == old(self).language,
    {
        history::push_history_entry(&mut self.history, command)
    }

    /// The text of the history file.
    pub fn saved_history(&self) -> (r: String)
        ensures
            r@ == history::serialized(self.entries()),
    {
        history::serialize_history_entries(&self.history)
    }

    /// Runs a `history` command: what to print, and whether the history has to be saved. Nothing,
    /// if it is another command.
    pub fn run_history_command(&mut self, command: &str) -> (r: Option<(Vec<String>, bool)>)
        ensures
            final(self).entries() == if history::history_command_spec(command@)
                == HistoryCommand::Clear {
                Seq::empty()
            } else {
                old(self).entries()
            },
            final(self).history_cursor == old(self).history_cursor,
            final(self).suggestion_index == old(self).suggestion_index,
            final(self).last_char == old(self).last_char,
            final(self).language == old(self).language,
            match history::history_command_spec(command@) {
                HistoryCommand::Other => r is None,
                HistoryCommand::Clear => r matches Some(reply) && text::texts(reply.0@) == seq![
                    "history cleared"@,
                ] && reply.1,
                HistoryCommand::Show { count } => r matches Some(reply) && text::texts(reply.0@)
                    == history::history_lines_spec(old(self).entries(), count as nat) && !reply.1,
            },
    {
        match history::history_command(command) {
            HistoryCommand::Other => None,
            HistoryCommand::Clear => {
                self.history.clear();
                assert(self.entries() =~= Seq::<Seq<char>>::empty());
                let lines = text::lines_of(&["history cleared"]);
                assert(text::texts(lines@) =~= seq!["history cleared"@]);
                Some((lines, true))
            },
            HistoryCommand::Show { count } => Some(
                (history::history_lines(&self.history, count), false),
            ),
        }
    }

    /// The entry that a command such as `!7` names.
    pub fn replay_history_command(&self, command: &str) -> (r: Option<String>)
        ensures
            match history::replay_index_spec(command@) {
                Some(index) => if index <= self.entries().len() {
                    r matches Some(entry) && entry@ == self.entries()[index - 1]
                } else {
                    r is None
                },
                None => r is None,
            },
    {
        match history::history_replay_index(command) {
            Some(index) => if index <= self.history.len() {
                Some(self.history[index - 1].clone())
            } else {
                None
            },
            None => None,
        }
    }

    /// Starts a new line.
    pub fn begin_line(&mut self)
        ensures
            final(self).wf(),
            final(self).history_cursor is None,
            final(self).suggestion_index == 0,
            final(self).last_char is None,
            final(self).history == old(self).history,
            final(self).language == old(self).language,
    {
        self.history_cursor = None;
        self.suggestion_index = 0;
        self.last_char = None;
    }

    pub fn has_visible_suggestions(&self, input: &str, context: &ShellSuggestionContext) -> (r: bool)
        ensures
            r == (text::trim_spec(input@).len() > 0 && context.suggestions_spec(input@).len() > 0),
    {
        if text::trim(input).is_empty() {
            return false;
        }
        let candidates = context.suggestions(input);
        assert(catalogue::shown(candidates@).len() == candidates@.len());
        candidates.len() > 0
    }

    pub fn selected_suggestion(&self, input: &str, context: &ShellSuggestionContext) -> (r: Option<
        ShellSuggestion,
    >)
        ensures
            match self.prompt(input@, 0).selected(*context) {
                Some(suggestion) => r matches Some(found) && found@ == suggestion,
                None => r is None,
            },
    {
        let candidates = context.suggestions(input);
        assert(catalogue::shown(candidates@).len() == candidates@.len());
        if candidates.len() == 0 {
            return None;
        }
        let index = if self.suggestion_index < candidates.len() {
            self.suggestion_index
        } else {
            candidates.len() - 1
        };
        assert(catalogue::shown(candidates@)[index as int] == candidates@[index as int]@);
        Some(candidates[index].clone())
    }

    pub fn previous_suggestion(&mut self, input: &str, context: &ShellSuggestionContext)
        ensures
            old(self).wf() ==> final(self).wf(),
            final(self).suggestion_index == selection_before(
                old(self).suggestion_index as nat,
                context.suggestions_spec(input@).len(),
            ),
            final(self).history == old(self).history,
            final(self).history_cursor == old(self).history_cursor,
            final(self).last_char == old(self).last_char,
            final(self).language == old(self).language,
    {
        let candidates = context.suggestions(input);
        assert(catalogue::shown(candidates@).len() == candidates@.len());
        if candidates.len() == 0 {
            return ;
        }
        self.suggestion_index = if self.suggestion_index == 0 {
            candidates.len() - 1
        } else {
            self.suggestion_index - 1
        };
    }

    pub fn next_suggestion(&mut self, input: &str, context: &ShellSuggestionContext)
        requires
            old(self).suggestion_index < usize::MAX,
        ensures
            old(self).wf() ==> final(self).wf(),
            final(self).suggestion_index == selection_after(
                old(self).suggestion_index as nat,
                context.suggestions_spec(input@).len(),
            ),
            final(self).history == old(self).history,
            final(self).history_cursor == old(self).history_cursor,
            final(self).last_char == old(self).last_char,
            final(self).language == old(self).language,
    {
        let candidates = context.suggestions(input);
        assert(catalogue::shown(candidates@).len() == candidates@.len());
        if candidates.len() == 0 {
            return ;
        }
        self.suggestion_index = (self.suggestion_index + 1) % candidates.len();
    }

    pub fn previous_history(&mut self, input: &mut String, cursor_index: &mut usize)
        requires
            old(self).wf(),
            line::on_boundary(old(input)@, *old(cursor_index) as nat),
        ensures
            final(self).wf(),
            line::on_boundary(final(input)@, *final(cursor_index) as nat),
            final(self).prompt(final(input)@, *final(cursor_index) as nat) == old(self).prompt(
                old(input)@,
                *old(cursor_index) as nat,
            ).history_before(old(self).entries()),
            final(self).history == old(self).history,
            final(self).language == old(self).language,
    {
        if self.history.len() == 0 {
            return ;
        }
        let next: usize = match self.history_cursor {
            Some(index) => if index > 0 {
                index - 1
            } else {
                0
            },
            None => self.history.len() - 1,
        };
        self.history_cursor = Some(next);
        *input = self.history[next].clone();
        *cursor_index = text::byte_len(input.as_str());
        proof {
            line::lemma_end_of_line(input@, 0);
        }
    }

    pub fn next_history(&mut self, input: &mut String, cursor_index: &mut usize)
        requires
            old(self).wf(),
            line::on_boundary(old(input)@, *old(cursor_index) as nat),
        ensures
            final(self).wf(),
            line::on_boundary(final(input)@, *final(cursor_index) as nat),
            final(self).prompt(final(input)@, *final(cursor_index) as nat) == old(self).prompt(
                old(input)@,
                *old(cursor_index) as nat,
            ).history_after(old(self).entries()),
            final(self).history == old(self).history,
            final(self).language == old(self).language,
    {
        match self.history_cursor {
            None => {},
            Some(index) => {
                assert(index < self.history.len());
                if index + 1 >= self.history.len() {
                    self.history_cursor = None;
                    *input = String::new();
                    *cursor_index = 0;
                    proof {
                        line::lemma_start_of_line(input@);
                    }
                } else {
                    self.history_cursor = Some(index + 1);
                    *input = self.history[index + 1].clone();
                    *cursor_index = text::byte_len(input.as_str());
                    proof {
                        line::lemma_end_of_line(input@, 0);
                    }
                }
            },
        }
    }

    /// Takes note of a character, unless it repeats the last one too soon.
    pub fn accept_char(&mut self, character: char, modifiers: u8, now: u64) -> (r: bool)
        ensures
            r == !old(self).prompt(Seq::empty(), 0).repeats(character, modifiers, now),
            final(self).last_char == if r {
                Some(LastChar { character, modifiers, at_nanos: now })
            } else {
                old(self).last_char
            },
            final(self).history == old(self).history,
            final(self).history_cursor == old(self).history_cursor,
            final(self).suggestion_index == old(self).suggestion_index,
            final(self).language == old(self).language,
    {
        if let Some(last) = self.last_char {
            if last.character == character && last.modifiers == modifiers && (now < last.at_nanos
                || now - last.at_nanos < REPEAT_WINDOW_NANOS) {
                return false;
            }
        }
        self.last_char = Some(LastChar { character, modifiers, at_nanos: now });
        true
    }

    /// Keeps the selection within the suggestions for the line.
    pub fn show_suggestions(&mut self, input: &str, context: &ShellSuggestionContext)
        ensures
            final(self).suggestion_index == within(
                old(self).suggestion_index as nat,
                context.suggestions_spec(input@).len(),
            ),
            final(self).history == old(self).history,
            final(self).history_cursor == old(self).history_cursor,
            final(self).last_char == old(self).last_char,
            final(self).language == old(self).language,
    {
        let candidates = context.suggestions(input);
        assert(catalogue::shown(candidates@).len() == candidates@.len());
        if candidates.len() == 0 {
            self.suggestion_index = 0;
        } else if self.suggestion_index >= candidates.len() {
            self.suggestion_index = candidates.len() - 1;
        }
    }

    fn drawn(&mut self, input: &str, context: &ShellSuggestionContext) -> (r: KeyOutcome)
        requires
            old(self).wf(),
        ensures
            final(self).wf(),
            final(self).suggestion_index == within(
                old(self).suggestion_index as nat,
                context.suggestions_spec(input@).len(),
            ),
            final(self).history == old(self).history,
            final(self).history_cursor == old(self).history_cursor,
            final(self).last_char == old(self).last_char,
            final(self).language == old(self).language,
            r == outcome(ReadAction::Continue, true),
    {
        self.show_suggestions(input, context);
        KeyOutcome { action: ReadAction::Continue, redraw: true, clear_screen: false }
    }

    /// The line was edited.
    fn drawn_edit(&mut self, input: &str, context: &ShellSuggestionContext) -> (r: KeyOutcome)
        requires
            old(self).wf(),
        ensures
            final(self).wf(),
            final(self).suggestion_index == 0,
            final(self).history == old(self).history,
            final(self).history_cursor is None,
            final(self).last_char == old(self).last_char,
            final(self).language == old(self).language,
            r == outcome(ReadAction::Continue, true),
    {
        self.history_cursor = None;
        self.suggestion_index = 0;
        self.drawn(input, context)
    }

    fn handle_char(
        &mut self,
        input: &mut String,
        cursor_index: &mut usize,
        character: char,
        modifiers: u8,
        now: u64,
        context: &ShellSuggestionContext,
    ) -> (r: KeyOutcome)
        requires
            old(self).wf(),
            line::on_boundary(old(input)@, *old(cursor_index) as nat),
        ensures
            final(self).wf(),
            line::on_boundary(final(input)@, *final(cursor_index) as nat),
            (final(self).prompt(final(input)@, *final(cursor_index) as nat), r) == old(self).prompt(
                old(input)@,
                *old(cursor_index) as nat,
            ).after_char(character, modifiers, now, *context),
            final(self).history == old(self).history,
            final(self).language == old(self).language,
    {
        if !self.accept_char(character, modifiers, now) {
            return KeyOutcome { action: ReadAction::Continue, redraw: false, clear_screen: false };
        }
        line::insert_char_at_cursor(input, cursor_index, character);
        self.drawn_edit(input.as_str(), context)
    }

    fn handle_control_char(
        &mut self,
        input: &mut String,
        cursor_index: &mut usize,
        character: char,
        modifiers: u8,
        now: u64,
        context: &ShellSuggestionContext,
    ) -> (r: KeyOutcome)
        requires
            old(self).wf(),
            line::on_boundary(old(input)@, *old(cursor_index) as nat),
        ensures
            final(self).wf(),
            line::on_boundary(final(input)@, *final(cursor_index) as nat),
            (final(self).prompt(final(input)@, *final(cursor_index) as nat), r) == old(self).prompt(
                old(input)@,
                *old(cursor_index) as nat,
            ).after_control_char(character, modifiers, now, *context),
            final(self).history == old(self).history,
            final(self).language == old(self).language,
    {
        let unchanged = KeyOutcome {
            action: ReadAction::Continue,
            redraw: false,
            clear_screen: false,
        };
        let cancel = KeyOutcome { action: ReadAction::Cancel, redraw: false, clear_screen: false };
        proof {
            line::lemma_start_of_line(input@);
            line::lemma_end_of_line(input@, 0);
            line::lemma_ends(input@, *cursor_index as nat);
        }
        if character == 'c' {
            cancel
        } else if character == 'a' {
            *cursor_index = 0;
            self.drawn(input.as_str(), context)
        } else if character == 'e' {
            *cursor_index = text::byte_len(input.as_str());
            self.drawn(input.as_str(), context)
        } else if character == 'u' {
            line::remove_before_cursor(input, cursor_index);
            self.drawn_edit(input.as_str(), context)
        } else if character == 'k' {
            if line::remove_after_cursor(input, cursor_index) {
                self.drawn_edit(input.as_str(), context)
            } else {
                assert(input@ =~= old(input)@);
                unchanged
            }
        } else if character == 'l' {
            self.show_suggestions(input.as_str(), context);
            KeyOutcome { action: ReadAction::Continue, redraw: true, clear_screen: true }
        } else if character == 'w' {
            if line::remove_word_before_cursor(input, cursor_index) {
                self.drawn_edit(input.as_str(), context)
            } else {
                assert(input@ =~= old(input)@);
                unchanged
            }
        } else if character == 'd' {
            if input.as_str().is_empty() {
                cancel
            } else if line::remove_char_at_cursor(input, cursor_index) {
                self.drawn_edit(input.as_str(), context)
            } else {
                unchanged
            }
        } else {
            self.handle_char(input, cursor_index, character, modifiers, now, context)
        }
    }

    fn handle_enter(
        &mut self,
        input: &mut String,
        cursor_index: &mut usize,
        context: &ShellSuggestionContext,
    ) -> (r: KeyOutcome)
        requires
            old(self).wf(),
            line::on_boundary(old(input)@, *old(cursor_index) as nat),
        ensures
            final(self).wf(),
            line::on_boundary(final(input)@, *final(cursor_index) as nat),
            (final(self).prompt(final(input)@, *final(cursor_index) as nat), r) == old(self).prompt(
                old(input)@,
                *old(cursor_index) as nat,
            ).after_enter(*context),
            final(self).history == old(self).history,
            final(self).language == old(self).language,
    {
        let submit = KeyOutcome { action: ReadAction::Submit, redraw: false, clear_screen: false };
        if !self.has_visible_suggestions(input.as_str(), context) {
            return submit;
        }
        match self.selected_suggestion(input.as_str(), context) {
            None => submit,
            Some(suggestion) => {
                if !should_accept_suggestion_on_enter(input.as_str(), &suggestion) {
                    return submit;
                }
                let needs_more_input = accepted_suggestion_needs_more_input(&suggestion);
                *input = suggestion.completion;
                *cursor_index = text::byte_len(input.as_str());
                proof {
                    line::lemma_end_of_line(input@, 0);
                }
                self.history_cursor = None;
                self.suggestion_index = 0;
                if needs_more_input {
                    self.drawn(input.as_str(), context)
                } else {
                    submit
                }
            },
        }
    }

    fn handle_tab(
        &mut self,
        input: &mut String,
        cursor_index: &mut usize,
        context: &ShellSuggestionContext,
    ) -> (r: KeyOutcome)
        requires
            old(self).wf(),
            line::on_boundary(old(input)@, *old(cursor_index) as nat),
        ensures
            final(self).wf(),
            line::on_boundary(final(input)@, *final(cursor_index) as nat),
            (final(self).prompt(final(input)@, *final(cursor_index) as nat), r) == old(self).prompt(
                old(input)@,
                *old(cursor_index) as nat,
            ).after_tab(*context),
            final(self).history == old(self).history,
            final(self).language == old(self).language,
    {
        match self.selected_suggestion(input.as_str(), context) {
            None => KeyOutcome {
                action: ReadAction::Continue,
                redraw: false,
                clear_screen: false,
            },
            Some(suggestion) => {
                *input = suggestion.completion;
                *cursor_index = text::byte_len(input.as_str());
                proof {
                    line::lemma_end_of_line(input@, 0);
                }
                self.drawn_edit(input.as_str(), context)
            },
        }
    }

    /// Does what a key asks, at time `now` in nanoseconds.
    pub fn handle_key(
        &mut self,
        input: &mut String,
        cursor_index: &mut usize,
        press: KeyPress,
        now: u64,
        context: &ShellSuggestionContext,
    ) -> (r: KeyOutcome)
        requires
            old(self).wf(),
            line::on_boundary(old(input)@, *old(cursor_index) as nat),
        ensures
            final(self).wf(),
            line::on_boundary(final(input)@, *final(cursor_index) as nat),
            (final(self).prompt(final(input)@, *final(cursor_index) as nat), r) == old(self).prompt(
                old(input)@,
                *old(cursor_index) as nat,
            ).after_key(old(self).entries(), press, now, *context),
            final(self).history == old(self).history,
            final(self).language == old(self).language,
    {
        let unchanged = KeyOutcome {
            action: ReadAction::Continue,
            redraw: false,
            clear_screen: false,
        };
        proof {
            line::lemma_start_of_line(input@);
            line::lemma_end_of_line(input@, 0);
            line::lemma_ends(input@, *cursor_index as nat);
        }
        match press.key {
            Key::Char(character) => if press.control {
                self.handle_control_char(
                    input,
                    cursor_index,
                    character,
                    press.modifiers,
                    now,
                    context,
                )
            } else {
                self.handle_char(input, cursor_index, character, press.modifiers, now, context)
            },
            Key::Enter => self.handle_enter(input, cursor_index, context),
            Key::Esc => {
                *input = String::new();
                *cursor_index = 0;
                proof {
                    line::lemma_start_of_line(input@);
                }
                self.drawn_edit(input.as_str(), context)
            },
            Key::Backspace => {
                let changed = if press.control {
                    line::remove_word_before_cursor(input, cursor_index)
                } else {
                    line::remove_char_before_cursor(input, cursor_index)
                };
                if changed {
                    self.drawn_edit(input.as_str(), context)
                } else {
                    assert(input@ =~= old(input)@);
                    unchanged
                }
            },
            Key::Delete => {
                let changed = if press.control {
                    line::remove_after_cursor(input, cursor_index)
                } else {
                    line::remove_char_at_cursor(input, cursor_index)
                };
                if changed {
                    self.drawn_edit(input.as_str(), context)
                } else {
                    assert(input@ =~= old(input)@);
                    unchanged
                }
            },
            Key::Left => {
                *cursor_index = if press.control {
                    line::previous_word_boundary(input.as_str(), *cursor_index)
                } else {
                    line::previous_char_boundary(input.as_str(), *cursor_index)
                };
                self.drawn(input.as_str(), context)
            },
            Key::Right => {
                *cursor_index = if press.control {
                    line::next_word_boundary(input.as_str(), *cursor_index)
                } else {
                    line::next_char_boundary(input.as_str(), *cursor_index)
                };
                self.drawn(input.as_str(), context)
            },
            Key::Home => {
                *cursor_index = 0;
                self.drawn(input.as_str(), context)
            },
            Key::End => {
                *cursor_index = text::byte_len(input.as_str());
                self.drawn(input.as_str(), context)
            },
            Key::Tab => self.handle_tab(input, cursor_index, context),
            Key::Up => {
                if self.has_visible_suggestions(input.as_str(), context) {
                    self.previous_suggestion(input.as_str(), context);
                } else {
                    self.previous_history(input, cursor_index);
                }
                self.drawn(input.as_str(), context)
            },
            Key::Down => {
                if self.has_visible_suggestions(input.as_str(), context) {
                    self.next_suggestion(input.as_str(), context);
                } else {
                    self.next_history(input, cursor_index);
                }
                self.drawn(input.as_str(), context)
            },
            Key::Other => unchanged,
        }
    }
}

// ---------------------------------------------------------------- what the keys do

/// A character that is typed stands at the cursor, which goes behind it, and nothing else of the
/// line changes; the line is drawn and read on.
pub proof fn typed_characters_enter_the_line(
    prompt: Prompt,
    entries: Seq<Seq<char>>,
    c: char,
    modifiers: u8,
    now: u64,
    context: ShellSuggestionContext,
)
    requires
        prompt.line.valid(),
    ensures
        ({
            let (after, told) = prompt.after_key(
                entries,
                KeyPress { key: Key::Char(c), control: false, modifiers },
                now,
                context,
            );
            let again = prompt.last_char matches Some(last) && last.character == c
                && last.modifiers == modifiers && now - last.at_nanos < 25_000_000;
            &&& told.action == ReadAction::Continue && !told.clear_screen
            &&& again ==> after == prompt && !told.redraw
            &&& !again ==> {
                &&& told.redraw
                &&& after.line.at == prompt.line.at + 1
                &&& after.line.chars == prompt.line.chars.take(prompt.line.at as int) + seq![c]
                    + prompt.line.chars.skip(prompt.line.at as int)
                &&& after.recalled is None
                &&& after.chosen == 0
                &&& after.last_char == Some(LastChar { character: c, modifiers, at_nanos: now })
            }
        }),
{
    line::typing_puts_the_character_there(prompt.line, c);
}

/// The arrows, and the keys for the ends, move the cursor and leave the text.
pub proof fn moving_keys_leave_the_text(
    prompt: Prompt,
    entries: Seq<Seq<char>>,
    control: bool,
    modifiers: u8,
    now: u64,
    context: ShellSuggestionContext,
)
    requires
        prompt.line.valid(),
    ensures
        ({
            let at = |key: Key|
                prompt.after_key(entries, KeyPress { key, control, modifiers }, now, context);
            let n = prompt.line.chars.len();
            &&& at(Key::Left).0.line.chars == prompt.line.chars
            &&& at(Key::Right).0.line.chars == prompt.line.chars
            &&& at(Key::Home).0.line == (Line { chars: prompt.line.chars, at: 0 })
            &&& at(Key::End).0.line == (Line { chars: prompt.line.chars, at: n })
            &&& !control ==> at(Key::Left).0.line.at == if prompt.line.at > 0 {
                prompt.line.at - 1
            } else {
                0
            }
            &&& !control ==> at(Key::Right).0.line.at == if prompt.line.at < n {
                prompt.line.at + 1
            } else {
                n
            }
            &&& control ==> at(Key::Left).0.line.at == line::word_start(
                prompt.line.chars,
                prompt.line.at,
            )
            &&& control ==> at(Key::Right).0.line.at == line::word_end(
                prompt.line.chars,
                prompt.line.at,
            )
            &&& at(Key::Left).1.action == ReadAction::Continue
            &&& at(Key::Right).1.action == ReadAction::Continue
        }),
{
}

/// Backspace takes the character before the cursor and Delete the one behind it; with Control they
/// take the word before it and all that is behind it. At an end they do nothing.
pub proof fn deleting_keys_take_their_part(
    prompt: Prompt,
    entries: Seq<Seq<char>>,
    modifiers: u8,
    now: u64,
    context: ShellSuggestionContext,
)
    requires
        prompt.line.valid(),
    ensures
        ({
            let at = |key: Key, control: bool|
                prompt.after_key(entries, KeyPress { key, control, modifiers }, now, context).0;
            let line = prompt.line;
            let n = line.chars.len();
            let start = line::word_start(line.chars, line.at);
            &&& line.at > 0 ==> at(Key::Backspace, false).line.chars == line.chars.remove(
                line.at - 1,
            ) && at(Key::Backspace, false).line.at == line.at - 1
            &&& line.at > 0 ==> at(Key::Backspace, true).line.chars == line.chars.take(start as int)
                + line.chars.skip(line.at as int) && at(Key::Backspace, true).line.at == start
            &&& line.at == 0 ==> at(Key::Backspace, false) == prompt && at(Key::Backspace, true)
                == prompt
            &&& line.at < n ==> at(Key::Delete, false).line.chars == line.chars.remove(
                line.at as int,
            ) && at(Key::Delete, false).line.at == line.at
            &&& line.at < n ==> at(Key::Delete, true).line.chars == line.chars.take(line.at as int)
                && at(Key::Delete, true).line.at == line.at
            &&& line.at == n ==> at(Key::Delete, false) == prompt && at(Key::Delete, true) == prompt
        }),
{
    line::deleting_takes_one_character(prompt.line);
    line::clearing_leaves_the_other_side(prompt.line);
}

/// What the letters do with Control: leaving, the ends, clearing before and behind the cursor, the
/// word before it, the character behind it, and the screen.
pub proof fn control_letters_do_their_part(
    prompt: Prompt,
    entries: Seq<Seq<char>>,
    modifiers: u8,
    now: u64,
    context: ShellSuggestionContext,
)
    requires
        prompt.line.valid(),
    ensures
        ({
            let at = |c: char|
                prompt.after_key(
                    entries,
                    KeyPress { key: Key::Char(c), control: true, modifiers },
                    now,
                    context,
                );
            let line = prompt.line;
            let n = line.chars.len();
            let start = line::word_start(line.chars, line.at);
            &&& at('c').1.action == ReadAction::Cancel
            &&& n == 0 ==> at('d').1.action == ReadAction::Cancel
            &&& n > 0 ==> at('d').1.action == ReadAction::Continue
            &&& line.at < n ==> at('d').0.line.chars == line.chars.remove(line.at as int)
                && at('d').0.line.at == line.at
            &&& at('a').0.line == (Line { chars: line.chars, at: 0 })
            &&& at('e').0.line == (Line { chars: line.chars, at: n })
            &&& at('u').0.line == (Line { chars: line.chars.skip(line.at as int), at: 0 })
            &&& line.at < n ==> at('k').0.line == (Line {
                chars: line.chars.take(line.at as int),
                at: line.at,
            })
            &&& line.at > 0 ==> at('w').0.line == (Line {
                chars: line.chars.take(start as int) + line.chars.skip(line.at as int),
                at: start,
            })
            &&& at('l').0.line == line && at('l').1.clear_screen && at('l').1.redraw
            &&& !at('a').1.clear_screen && !at('c').1.clear_screen
        }),
{
    line::deleting_takes_one_character(prompt.line);
    line::clearing_leaves_the_other_side(prompt.line);
}

/// Enter takes the marked suggestion where one is shown that differs from what was typed, and waits
/// for more where that ends in a space; else the line is handed over as it is.
pub proof fn enter_takes_or_submits(prompt: Prompt, context: ShellSuggestionContext)
    ensures
        ({
            let shown = context.suggestions_spec(prompt.line.chars);
            let marked = shown[within(prompt.chosen, shown.len()) as int].completion;
            let offered = text::trim_spec(prompt.line.chars).len() > 0 && shown.len() > 0
                && text::trim_end_spec(prompt.line.chars) != text::trim_end_spec(marked);
            let (after, told) = prompt.after_enter(context);
            &&& !offered ==> after == prompt && told.action == ReadAction::Submit
            &&& offered ==> after.line == (Line { chars: marked, at: marked.len() })
            &&& offered && text::ends_with_spec(marked, " "@) ==> told.action
                == ReadAction::Continue && told.redraw
            &&& offered && !text::ends_with_spec(marked, " "@) ==> told.action == ReadAction::Submit
        }),
{
}

/// Tab puts the marked suggestion in place of the line, and does nothing where none is there.
pub proof fn tab_takes_the_marked_suggestion(prompt: Prompt, context: ShellSuggestionContext)
    ensures
        ({
            let shown = context.suggestions_spec(prompt.line.chars);
            let marked = shown[within(prompt.chosen, shown.len()) as int].completion;
            let (after, told) = prompt.after_tab(context);
            &&& shown.len() > 0 ==> after.line == (Line { chars: marked, at: marked.len() })
            &&& shown.len() == 0 ==> after == prompt
            &&& told.action == ReadAction::Continue
        }),
{
}

/// The mark goes one suggestion up or down, around the ends, while suggestions are shown.
pub proof fn arrows_move_the_mark(
    prompt: Prompt,
    entries: Seq<Seq<char>>,
    control: bool,
    modifiers: u8,
    now: u64,
    context: ShellSuggestionContext,
)
    requires
        text::trim_spec(prompt.line.chars).len() > 0,
        prompt.chosen < context.suggestions_spec(prompt.line.chars).len(),
    ensures
        ({
            let count = context.suggestions_spec(prompt.line.chars).len();
            let at = |key: Key|
                prompt.after_key(entries, KeyPress { key, control, modifiers }, now, context).0;
            &&& at(Key::Up).line == prompt.line && at(Key::Down).line == prompt.line
            &&& at(Key::Up).chosen == if prompt.chosen == 0 {
                count - 1
            } else {
                prompt.chosen - 1
            }
            &&& at(Key::Down).chosen == if prompt.chosen + 1 == count {
                0
            } else {
                prompt.chosen + 1
            }
        }),
{
    let count = context.suggestions_spec(prompt.line.chars).len();
    if prompt.chosen + 1 == count {
        vstd::arithmetic::div_mod::lemma_mod_self_0(count as int);
    } else {
        vstd::arithmetic::div_mod::lemma_small_mod((prompt.chosen + 1) as nat, count);
    }
}

/// Without suggestions the arrows go through the history: up to the entry before, down to the one
/// behind, and past the newest to an empty line.
pub proof fn arrows_go_through_the_history(prompt: Prompt, entries: Seq<Seq<char>>, index: usize)
    requires
        index < entries.len(),
        prompt.recalled == Some(index),
    ensures
        ({
            let older = if index > 0 {
                index - 1
            } else {
                0
            };
            &&& prompt.history_before(entries).line == (Line {
                chars: entries[older],
                at: entries[older].len(),
            })
            &&& prompt.history_before(entries).recalled == Some(older as usize)
            &&& index + 1 < entries.len() ==> prompt.history_after(entries).line == (Line {
                chars: entries[index + 1],
                at: entries[index + 1].len(),
            }) && prompt.history_after(entries).recalled == Some((index + 1) as usize)
            &&& index + 1 == entries.len() ==> prompt.history_after(entries).line == (Line {
                chars: Seq::empty(),
                at: 0,
            }) && prompt.history_after(entries).recalled is None
        }),
{
}

/// The mark stays on the suggestions that there are.
pub proof fn mark_stays_on_the_suggestions(chosen: nat, count: nat)
    ensures
        count > 0 ==> within(chosen, count) < count,
        chosen < count ==> within(chosen, count) == chosen,
        0 < count <= chosen ==> within(chosen, count) == count - 1,
        count == 0 ==> within(chosen, count) == 0,
{
}

} // verus!
