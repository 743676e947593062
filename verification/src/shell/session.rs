//! The state of the shell and what each command does with it.
//!
//! A command gives lines to print and one action. The terminal carries the action out and reports
//! back what came of it.

use crate::library::Track;
use crate::playback::{PlaybackControl, PlaybackEvent};
use crate::shell::command;
use crate::shell::command::{Command, CommandKind, ShellCommand};
use crate::shell::help;
use crate::shell::history;
use crate::shell::info;
use crate::shell::language;
use crate::shell::language::ShellLanguage;
use crate::shell::layout;
use crate::shell::listing;
use crate::shell::listing::{LineStyle, Styled, StyledLine};
use crate::shell::messages;
use crate::shell::nearest;
use crate::shell::queue;
use crate::shell::queue::{Queue, QueueCommand, SessionQueue};
use crate::shell::reader::ShellReader;
use crate::shell::results;
use crate::shell::suggestions;
use crate::shell::suggestions::ShellSuggestionContext;
use crate::shell::transport;
use crate::shell::welcome;
use crate::text;
use vstd::prelude::*;

verus! {

pub const RESULT_LIMIT: usize = 20;

pub const RESULT_PAGE_SIZE: usize = 20;

pub const SHUFFLE_ARGUMENTS: [&'static str; 6] = [
    "random",
    "shuffle",
    "surprise",
    "随机",
    "随便",
    "惊喜",
];

pub const NEXT_ARGUMENTS: [&'static str; 2] = ["next", "下一首"];

pub const PREVIOUS_ARGUMENTS: [&'static str; 3] = ["prev", "previous", "上一首"];

pub const LAST_ARGUMENTS: [&'static str; 3] = ["last", "最后", "最后一首"];

pub const FIRST_ARGUMENTS: [&'static str; 5] = ["best", "first", "第一首", "第一", "第一个"];

pub const CURRENT_ARGUMENTS: [&'static str; 3] = ["", "current", "now"];

#[derive(Debug)]
pub struct EchoShell {
    pub results: Vec<Track>,
    pub result_query: String,
    pub result_label: String,
    pub result_limit: usize,
    pub has_more_results: bool,
    pub current_track: Option<Track>,
    /// The title of the track that is playing.
    pub playback: Option<String>,
    pub last_command: Option<String>,
    pub language: ShellLanguage,
    /// What plays after what.
    pub queue: SessionQueue,
    /// From silence to the largest volume.
    pub volume: u8,
    /// How far the track that is playing has come.
    pub elapsed_ms: u64,
    /// The position before the last seek in this track.
    pub seek_undo: Option<u64>,
}

/// What a track is looked up for.
#[derive(Debug, Clone, Copy, PartialEq, Eq, Structural)]
pub enum Purpose {
    Play,
    Info,
    Open,
    Copy,
}

/// Which command asked for a list.
#[derive(Debug, Clone, Copy, PartialEq, Eq, Structural)]
pub enum Showing {
    Search,
    Library,
    More { old_count: usize },
    Scan,
}

#[derive(Debug)]
pub enum ShellAction {
    Nothing,
    /// Leave the shell, stopping what plays.
    Quit { stop: bool },
    Control(PlaybackControl),
    Welcome { clear_screen: bool },
    NextSteps,
    /// Save the language and show the welcome in it.
    SwitchLanguage(ShellLanguage),
    /// Let a folder be picked and scan it.
    PickFolder,
    Scan(String),
    /// Search, and show what was found.
    Load { query: String, label: String, limit: usize, reopen: bool, showing: Showing },
    ShowResults,
    /// Play this track in place of the one that plays.
    Replace(Track),
    /// Play the entry of the queue in place of what plays.
    PlayQueued { track: Track, at: usize },
    SetVolume(u8),
    /// Go to this millisecond of the track.
    Seek(u64),
    /// Find the track that a text means.
    Resolve { query: String, purpose: Purpose },
    Status,
    Devices,
    Doctor,
    Errors,
    Open(Track),
    Copy(Track),
    OpenDatabase,
}

/// The model of an action.
pub ghost enum Action {
    Nothing,
    Quit { stop: bool },
    Control(PlaybackControl),
    Welcome { clear_screen: bool },
    NextSteps,
    SwitchLanguage(ShellLanguage),
    PickFolder,
    Scan(Seq<char>),
    Load { query: Seq<char>, label: Seq<char>, limit: usize, reopen: bool, showing: Showing },
    ShowResults,
    Replace(Track),
    PlayQueued { track: Track, at: usize },
    SetVolume(u8),
    Seek(u64),
    Resolve { query: Seq<char>, purpose: Purpose },
    Status,
    Devices,
    Doctor,
    Errors,
    Open(Track),
    Copy(Track),
    OpenDatabase,
}

impl View for ShellAction {
    type V = Action;

    open spec fn view(&self) -> Action {
        match *self {
            ShellAction::Nothing => Action::Nothing,
            ShellAction::Quit { stop } => Action::Quit { stop },
            ShellAction::Control(control) => Action::Control(control),
            ShellAction::Welcome { clear_screen } => Action::Welcome { clear_screen },
            ShellAction::NextSteps => Action::NextSteps,
            ShellAction::SwitchLanguage(language) => Action::SwitchLanguage(language),
            ShellAction::PickFolder => Action::PickFolder,
            ShellAction::Scan(folder) => Action::Scan(folder@),
            ShellAction::Load { query, label, limit, reopen, showing } => Action::Load {
                query: query@,
                label: label@,
                limit,
                reopen,
                showing,
            },
            ShellAction::ShowResults => Action::ShowResults,
            ShellAction::Replace(track) => Action::Replace(track),
            ShellAction::PlayQueued { track, at } => Action::PlayQueued { track, at },
            ShellAction::SetVolume(volume) => Action::SetVolume(volume),
            ShellAction::Seek(ms) => Action::Seek(ms),
            ShellAction::Resolve { query, purpose } => Action::Resolve { query: query@, purpose },
            ShellAction::Status => Action::Status,
            ShellAction::Devices => Action::Devices,
            ShellAction::Doctor => Action::Doctor,
            ShellAction::Errors => Action::Errors,
            ShellAction::Open(track) => Action::Open(track),
            ShellAction::Copy(track) => Action::Copy(track),
            ShellAction::OpenDatabase => Action::OpenDatabase,
        }
    }
}

#[derive(Debug)]
pub struct ShellStep {
    pub lines: Vec<String>,
    pub action: ShellAction,
}

#[verifier::ext_equal]
pub ghost struct Step {
    pub lines: Seq<Seq<char>>,
    pub action: Action,
}

impl View for ShellStep {
    type V = Step;

    open spec fn view(&self) -> Step {
        Step { lines: text::texts(self.lines@), action: self.action@ }
    }
}

pub open spec fn only(action: Action) -> Step {
    Step { lines: Seq::empty(), action }
}

pub open spec fn says(lines: Seq<Seq<char>>) -> Step {
    Step { lines, action: Action::Nothing }
}

fn step_only(action: ShellAction) -> (r: ShellStep)
    ensures
        r@ == only(action@),
{
    let r = ShellStep { lines: Vec::new(), action };
    assert(text::texts(r.lines@) =~= Seq::<Seq<char>>::empty());
    r
}

fn step_says(lines: Vec<String>) -> (r: ShellStep)
    ensures
        r@ == says(text::texts(lines@)),
{
    ShellStep { lines, action: ShellAction::Nothing }
}

pub open spec fn is_word(argument: Seq<char>, words: Seq<&str>) -> bool {
    text::literals(words).contains(text::ascii_lower_spec(argument))
}

fn is_word_in(argument: &str, words: &[&'static str]) -> (r: bool)
    ensures
        r == is_word(argument@, words@),
{
    let lowered = text::ascii_lower(argument);
    text::is_one_of(&lowered, words)
}

/// The line that announces a chosen result.
pub open spec fn chosen_line(label: Seq<char>, index: nat, track: Track) -> Seq<char> {
    label + " "@ + text::decimal_spec(index + 1) + ". "@ + layout::compact_spec(track.title@, 56)
}

pub const VOLUME_USAGE: &'static str = "usage: volume 0..100, volume +5, volume -5, or volume mute";

pub const SEEK_USAGE: &'static str = "usage: seek 1:30, seek +10, seek 50%, seek start, seek end, or seek undo";

pub const QUEUE_USAGE: &'static str = "usage: queue, queue all, queue 5, queue next 5, queue add 5, queue move 5 2, queue remove 4, queue shuffle, queue reverse, queue dedupe, queue undo, or queue clear";

pub open spec fn volume_line_spec(volume: u8) -> Seq<char> {
    "volume "@ + text::decimal_spec(volume as nat)
}

fn volume_line(volume: u8) -> (r: String)
    ensures
        r@ == volume_line_spec(volume),
{
    let number = text::decimal(volume as u128);
    text::text2("volume ", &number)
}

/// Why a seek leads nowhere.
pub open spec fn no_seek_spec(command: transport::SeekCommand) -> Seq<char> {
    match command {
        transport::SeekCommand::Undo => "no seek to undo"@,
        transport::SeekCommand::Unclear => SEEK_USAGE@,
        _ => "the length of this track is not known"@,
    }
}

fn no_seek_line(command: transport::SeekCommand) -> (r: &'static str)
    ensures
        r@ == no_seek_spec(command),
{
    match command {
        transport::SeekCommand::Undo => "no seek to undo",
        transport::SeekCommand::Unclear => SEEK_USAGE,
        _ => "the length of this track is not known",
    }
}

/// What an edit did.
pub open spec fn edit_line_spec(command: QueueCommand) -> Seq<char> {
    match command {
        QueueCommand::Shuffle => "queue: upcoming tracks shuffled"@,
        QueueCommand::Reverse => "queue: upcoming tracks reversed"@,
        QueueCommand::Dedupe => "queue: duplicates removed"@,
        QueueCommand::Clear => "queue: only the current track is left"@,
        QueueCommand::Next(_) => "queue: plays next"@,
        QueueCommand::Add(_) => "queue: added"@,
        QueueCommand::Move { .. } => "queue: moved"@,
        _ => "queue: removed"@,
    }
}

fn edit_line(command: QueueCommand) -> (r: &'static str)
    ensures
        r@ == edit_line_spec(command),
{
    match command {
        QueueCommand::Shuffle => "queue: upcoming tracks shuffled",
        QueueCommand::Reverse => "queue: upcoming tracks reversed",
        QueueCommand::Dedupe => "queue: duplicates removed",
        QueueCommand::Clear => "queue: only the current track is left",
        QueueCommand::Next(_) => "queue: plays next",
        QueueCommand::Add(_) => "queue: added",
        QueueCommand::Move { .. } => "queue: moved",
        _ => "queue: removed",
    }
}

pub open spec fn no_entry_spec(n: usize, count: nat) -> Seq<char> {
    "no queue entry "@ + text::decimal_spec(n as nat) + " of "@ + text::decimal_spec(count)
}

fn no_entry_line(n: usize, count: usize) -> (r: String)
    ensures
        r@ == no_entry_spec(n, count as nat),
{
    let number = text::decimal(n as u128);
    let count = text::decimal(count as u128);
    text::text4("no queue entry ", &number, " of ", &count)
}

/// A track was heard to its end.
pub open spec fn has_finished(events: Seq<PlaybackEvent>) -> bool {
    exists|i: int| 0 <= i < events.len() && (#[trigger] events[i]) is Finished
}

fn any_finished(events: &[PlaybackEvent]) -> (r: bool)
    ensures
        r == has_finished(events@),
{
    for i in 0..events.len()
        invariant
            forall|j: int| 0 <= j < i ==> !((#[trigger] events@[j]) is Finished),
    {
        if let PlaybackEvent::Finished { .. } = &events[i] {
            return true;
        }
    }
    false
}

// ---------------------------------------------------------------- what commands do

impl EchoShell {
    pub open spec fn current(&self) -> Option<&Track> {
        match &self.current_track {
            Some(track) => Some(track),
            None => None,
        }
    }

    pub open spec fn no_results(self) -> Step {
        says(
            language::pick_lines(
                self.language,
                messages::NO_RESULTS_EN@,
                messages::NO_RESULTS_ZH@,
            ),
        )
    }

    pub open spec fn choice(self, index: Option<int>, label: Seq<char>) -> Step {
        match index {
            None => self.no_results(),
            Some(index) => Step {
                lines: seq![chosen_line(label, index as nat, self.results@[index])],
                action: Action::Replace(self.results@[index]),
            },
        }
    }

    pub open spec fn relative_step(self, step: int, label: Seq<char>) -> Step {
        self.choice(results::relative_index_spec(self.results@, self.current(), step), label)
    }

    /// The queue counts while something plays.
    pub open spec fn has_active_queue(self) -> bool {
        self.playback is Some && self.queue@.order.tracks.len() > 0
    }

    pub open spec fn queued_step(self, index: int, label: Seq<char>) -> Step {
        let track = self.queue@.order.tracks[index];
        Step {
            lines: seq![chosen_line(label, index as nat, track)],
            action: Action::PlayQueued { track, at: index as usize },
        }
    }

    /// A track of the active queue is picked, or a result where there is none.
    pub open spec fn shuffle_step(self, seed: u64, label: Seq<char>) -> Step {
        if self.has_active_queue() {
            match results::shuffle_index_spec(
                self.queue@.order.tracks,
                self.current(),
                seed as usize,
            ) {
                Some(index) => self.queued_step(index, label),
                None => self.no_results(),
            }
        } else {
            self.choice(
                results::shuffle_index_spec(self.results@, self.current(), seed as usize),
                label,
            )
        }
    }

    /// The result at `index` played, where there is one.
    pub open spec fn play_at(self, index: int) -> Step {
        if 0 <= index < self.results@.len() {
            only(Action::Replace(self.results@[index]))
        } else {
            self.no_results()
        }
    }

    pub open spec fn play_step(self, argument: Seq<char>, seed: u64) -> Step {
        if argument.len() == 0 {
            self.play_at(0)
        } else if is_word(argument, SHUFFLE_ARGUMENTS@) {
            self.shuffle_step(seed, argument)
        } else if is_word(argument, NEXT_ARGUMENTS@) {
            self.relative_step(1, "play next"@)
        } else if is_word(argument, PREVIOUS_ARGUMENTS@) {
            self.relative_step(-1, "play prev"@)
        } else if is_word(argument, LAST_ARGUMENTS@) {
            self.play_at(self.results@.len() - 1)
        } else if is_word(argument, FIRST_ARGUMENTS@) {
            self.play_at(0)
        } else {
            match suggestions::parse_index_spec(argument) {
                Some(index) => if index <= self.results@.len() {
                    only(Action::Replace(self.results@[index - 1]))
                } else {
                    says(
                        messages::no_result_index_spec(
                            index as nat,
                            self.results@.len(),
                            self.language,
                        ),
                    )
                },
                None => only(Action::Resolve { query: argument, purpose: Purpose::Play }),
            }
        }
    }

    /// The track that `info`, `open` and `copy` without a name mean.
    pub open spec fn default_target(self) -> Option<Track> {
        match self.current_track {
            Some(track) => Some(track),
            None => if self.results@.len() > 0 {
                Some(self.results@[0])
            } else {
                None
            },
        }
    }

    /// Result number `index`; zero means the first.
    pub open spec fn numbered_target(self, index: nat) -> Option<Track> {
        let at = if index == 0 {
            0
        } else {
            index - 1
        };
        if at < self.results@.len() {
            Some(self.results@[at as int])
        } else {
            None
        }
    }

    /// What is done with a track that was found, or not.
    pub open spec fn target_step(self, purpose: Purpose, target: Option<Track>) -> Step {
        match (purpose, target) {
            (Purpose::Play, Some(track)) => only(Action::Replace(track)),
            (Purpose::Play, None) => self.no_results(),
            (Purpose::Info, Some(track)) => says(info::track_info_spec("info"@, track)),
            (Purpose::Info, None) => says(
                language::pick_lines(
                    self.language,
                    messages::NOTHING_TO_INSPECT_EN@,
                    messages::NOTHING_TO_INSPECT_ZH@,
                ),
            ),
            (Purpose::Open, Some(track)) => only(Action::Open(track)),
            (Purpose::Open, None) => says(
                language::pick_lines(
                    self.language,
                    messages::NOTHING_TO_OPEN_EN@,
                    messages::NOTHING_TO_OPEN_ZH@,
                ),
            ),
            (Purpose::Copy, Some(track)) => only(Action::Copy(track)),
            (Purpose::Copy, None) => says(
                language::pick_lines(
                    self.language,
                    messages::NOTHING_TO_COPY_EN@,
                    messages::NOTHING_TO_COPY_ZH@,
                ),
            ),
        }
    }

    pub open spec fn pick_step(self, purpose: Purpose, argument: Seq<char>) -> Step {
        if is_word(argument, CURRENT_ARGUMENTS@) {
            self.target_step(purpose, self.default_target())
        } else {
            match text::parse_usize_spec(argument) {
                Some(index) => self.target_step(purpose, self.numbered_target(index as nat)),
                None => only(Action::Resolve { query: argument, purpose }),
            }
        }
    }

    pub open spec fn search_step(self, query: Seq<char>) -> Step {
        if query.len() == 0 {
            says(
                language::pick_lines(
                    self.language,
                    messages::SEARCH_USAGE_EN@,
                    messages::SEARCH_USAGE_ZH@,
                ),
            )
        } else {
            only(
                Action::Load {
                    query,
                    label: query,
                    limit: RESULT_LIMIT,
                    reopen: false,
                    showing: Showing::Search,
                },
            )
        }
    }

    pub open spec fn scan_step(self, argument: Seq<char>) -> Step {
        if argument.len() == 0 || text::ascii_lower_spec(argument) == "add"@ {
            only(Action::PickFolder)
        } else {
            only(Action::Scan(argument))
        }
    }

    /// The language that an argument asks for.
    pub open spec fn next_language(self, argument: Seq<char>) -> Option<ShellLanguage> {
        if text::trim_spec(argument).len() == 0 {
            Some(language::toggled_spec(self.language))
        } else {
            language::parse_language_spec(text::trim_spec(argument))
        }
    }

    pub open spec fn asks_language_status(argument: Seq<char>) -> bool {
        text::literals(language::LANGUAGE_STATUS_WORDS@).contains(
            text::ascii_lower_spec(text::trim_spec(text::trim_spec(argument))),
        )
    }

    pub open spec fn language_step(self, argument: Seq<char>) -> Step {
        if Self::asks_language_status(argument) {
            says(messages::language_status_spec(self.language))
        } else {
            match self.next_language(argument) {
                Some(next) => only(Action::SwitchLanguage(next)),
                None => says(
                    language::pick_lines(
                        self.language,
                        messages::LANGUAGE_USAGE_EN@,
                        messages::LANGUAGE_USAGE_ZH@,
                    ),
                ),
            }
        }
    }

    /// Bare text is searched for. Where it begins with a near miss of a command, the commands that
    /// may have been meant are told first.
    pub open spec fn unknown_step(self, input: Seq<char>) -> Step {
        let token = text::first_word_spec(input);
        let near = nearest::nearest_spec(token);
        if token.len() == 0 {
            says(Seq::empty())
        } else {
            let hints = if near.len() == 0 {
                Seq::empty()
            } else {
                nearest::unknown_command_spec(token, input, near, self.language)
            };
            Step {
                lines: hints + seq![
                    language::pick(self.language, "searching "@, "正在搜索 "@) + input,
                ] + self.search_step(input).lines,
                action: self.search_step(input).action,
            }
        }
    }

    pub open spec fn more_step(self) -> Step {
        only(
            Action::Load {
                query: self.result_query@,
                label: self.result_label@,
                limit: if self.result_limit + RESULT_PAGE_SIZE <= usize::MAX {
                    (self.result_limit + RESULT_PAGE_SIZE) as usize
                } else {
                    usize::MAX
                },
                reopen: false,
                showing: Showing::More { old_count: self.results@.len() as usize },
            },
        )
    }

    pub open spec fn stop_lines(self) -> Seq<Seq<char>> {
        match self.playback {
            Some(title) => seq![messages::stopping_spec(title@, self.language)],
            None => Seq::empty(),
        }
    }

    pub open spec fn nothing_playing(self) -> Step {
        says(seq![language::pick(self.language, "nothing is playing"@, "现在没有在播放"@)])
    }

    pub open spec fn duration(self) -> Option<u64> {
        match self.current_track {
            Some(track) => track.duration_ms,
            None => None,
        }
    }

    /// Without an argument the volume is told, else it is set.
    pub open spec fn volume_step(self, argument: Seq<char>) -> Step {
        if text::trim_spec(argument).len() == 0 {
            says(seq![volume_line_spec(self.volume)])
        } else {
            match transport::volume_spec(argument, self.volume) {
                Some(volume) => Step {
                    lines: seq![volume_line_spec(volume)],
                    action: Action::SetVolume(volume),
                },
                None => says(seq![VOLUME_USAGE@]),
            }
        }
    }

    pub open spec fn seek_target(self, argument: Seq<char>) -> Option<u64> {
        transport::seek_target_spec(
            transport::parse_seek_spec(argument),
            self.elapsed_ms,
            self.duration(),
            self.seek_undo,
        )
    }

    /// The track that is playing goes on elsewhere.
    pub open spec fn seek_step(self, argument: Seq<char>) -> Step {
        match self.playback {
            None => self.nothing_playing(),
            Some(_) => match self.seek_target(argument) {
                Some(ms) => Step {
                    lines: seq!["seek to "@ + info::duration_spec(ms as nat)],
                    action: Action::Seek(ms),
                },
                None => says(seq![no_seek_spec(transport::parse_seek_spec(argument))]),
            },
        }
    }

    pub open spec fn after_seek(self, argument: Seq<char>) -> EchoShell {
        match self.seek_step(argument).action {
            Action::Seek(ms) => EchoShell {
                elapsed_ms: ms,
                seek_undo: Some(self.elapsed_ms),
                ..self
            },
            _ => self,
        }
    }

    /// The queue is shown or edited, or one of its entries is played.
    pub open spec fn queue_step(self, argument: Seq<char>, seed: u64) -> Step {
        let command = queue::parse_queue_spec(argument);
        let order = self.queue@.order;
        match queue::edited(order, self.results@, command, seed) {
            Some(next) => says(seq![edit_line_spec(command)] + next.lines(false)),
            None => match command {
                QueueCommand::Show => says(order.lines(false)),
                QueueCommand::All => says(order.lines(true)),
                QueueCommand::Undo => match self.queue@.before {
                    Some(before) => says(seq!["queue: last edit undone"@] + before.lines(false)),
                    None => says(seq!["nothing to undo in the queue"@]),
                },
                QueueCommand::Jump(n) => if 0 < n <= order.tracks.len() {
                    self.queued_step(n - 1, "queue"@)
                } else {
                    says(seq![no_entry_spec(n, order.tracks.len())])
                },
                QueueCommand::Next(n) => says(
                    messages::no_result_index_spec(n as nat, self.results@.len(), self.language),
                ),
                QueueCommand::Add(n) => says(
                    messages::no_result_index_spec(n as nat, self.results@.len(), self.language),
                ),
                QueueCommand::Remove(n) => if 0 < n <= order.tracks.len() {
                    says(seq!["the current track stays in the queue; try next or stop"@])
                } else {
                    says(seq![no_entry_spec(n, order.tracks.len())])
                },
                QueueCommand::Move { from, to } => if 0 < from <= order.tracks.len() {
                    says(seq![no_entry_spec(to, order.tracks.len())])
                } else {
                    says(seq![no_entry_spec(from, order.tracks.len())])
                },
                QueueCommand::Unclear => says(seq![QUEUE_USAGE@]),
                _ => says(order.lines(false)),
            },
        }
    }

    pub open spec fn queue_after(self, argument: Seq<char>, seed: u64) -> Queue {
        let command = queue::parse_queue_spec(argument);
        match queue::edited(self.queue@.order, self.results@, command, seed) {
            Some(next) => self.queue@.edited_to(next),
            None => if command == QueueCommand::Undo {
                match self.queue@.undone() {
                    Some(undone) => undone,
                    None => self.queue@,
                }
            } else {
                self.queue@
            },
        }
    }

    /// What is left of the track, as far as its length is known.
    pub open spec fn left_ms(self) -> nat {
        match self.duration() {
            Some(ms) => transport::left_spec(self.elapsed_ms, ms),
            None => 0,
        }
    }

    pub open spec fn queue_left_spec(self) -> Seq<char> {
        let order = self.queue@.order;
        if order.tracks.len() == 0 {
            "queue empty"@
        } else {
            "queue "@ + order.place() + ", "@ + info::duration_spec(
                queue::at_most_u64(
                    self.left_ms() + queue::known_ms(order.tracks.skip(order.at + 1)),
                ),
            ) + " left"@
        }
    }

    pub open spec fn up_next_spec(self) -> Seq<char> {
        let order = self.queue@.order;
        if order.at + 1 < order.tracks.len() {
            "up next "@ + layout::compact_spec(order.tracks[order.at + 1].title@, 56)
        } else {
            "up next nothing"@
        }
    }

    /// Time, queue, undo position, the next track and the simulated cost.
    pub open spec fn meter_spec(self) -> Seq<Seq<char>> {
        seq![
            transport::time_spec(self.elapsed_ms, self.duration()),
            self.queue_left_spec(),
            transport::undo_line_spec(self.seek_undo),
            self.up_next_spec(),
            transport::tokens_line_spec(self.elapsed_ms),
        ]
    }

    pub open spec fn meter_step(self) -> Step {
        match self.playback {
            Some(_) => says(self.meter_spec()),
            None => self.nothing_playing(),
        }
    }

    /// What is metered, while something plays.
    pub open spec fn meter_while_playing(self) -> Seq<Seq<char>> {
        match self.playback {
            Some(_) => self.meter_spec(),
            None => Seq::empty(),
        }
    }

    /// What a command does that repeats no other one.
    #[verifier::opaque]
    pub open spec fn plain_step(self, command: Command, seed: u64) -> Step {
        let argument = command.argument;
        match command.kind {
            CommandKind::Quit => Step {
                lines: self.stop_lines(),
                action: Action::Quit { stop: self.playback is Some },
            },
            CommandKind::Help => says(help::localized_help_spec(argument, self.language)),
            CommandKind::Again => says(Seq::empty()),
            CommandKind::Next => self.relative_step(1, "next"@),
            CommandKind::Previous => self.relative_step(-1, "prev"@),
            CommandKind::Shuffle => self.shuffle_step(seed, argument),
            CommandKind::Home => only(Action::Welcome { clear_screen: false }),
            CommandKind::Tips => only(Action::NextSteps),
            CommandKind::Shortcuts => says(
                language::pick_lines(self.language, help::SHORTCUTS_EN@, help::SHORTCUTS_ZH@),
            ),
            CommandKind::Aliases => says(
                language::pick_lines(self.language, help::ALIASES_EN@, help::ALIASES_ZH@),
            ),
            CommandKind::Language => self.language_step(argument),
            CommandKind::Pause => match self.playback {
                Some(_) => only(Action::Control(PlaybackControl::Pause)),
                None => says(
                    seq![
                        language::pick(self.language, "nothing is playing"@, "现在没有在播放"@),
                    ],
                ),
            },
            CommandKind::Resume => match self.playback {
                Some(_) => only(Action::Control(PlaybackControl::Resume)),
                None => says(
                    seq![
                        language::pick(self.language, "nothing is paused"@, "现在没有暂停的播放"@),
                    ],
                ),
            },
            CommandKind::Stop => Step {
                lines: self.stop_lines(),
                action: match self.playback {
                    Some(_) => Action::Control(PlaybackControl::Stop),
                    None => Action::Nothing,
                },
            },
            CommandKind::Volume => self.volume_step(argument),
            CommandKind::Seek => self.seek_step(argument),
            CommandKind::Queue => self.queue_step(argument, seed),
            CommandKind::Meter => self.meter_step(),
            CommandKind::Scan => self.scan_step(argument),
            CommandKind::Add => self.scan_step("add"@),
            CommandKind::Search => self.search_step(argument),
            CommandKind::Library => only(
                Action::Load {
                    query: Seq::empty(),
                    label: "library"@,
                    limit: RESULT_LIMIT,
                    reopen: true,
                    showing: Showing::Library,
                },
            ),
            CommandKind::Results => only(Action::ShowResults),
            CommandKind::More => self.more_step(),
            CommandKind::Play => self.play_step(argument, seed),
            CommandKind::Now => match self.current_track {
                Some(track) => says(
                    info::track_info_spec("now"@, track) + self.meter_while_playing(),
                ),
                None => says(seq!["now: idle"@]),
            },
            CommandKind::Info => self.pick_step(Purpose::Info, argument),
            CommandKind::Status => only(Action::Status),
            CommandKind::Devices => only(Action::Devices),
            CommandKind::Doctor => only(Action::Doctor),
            CommandKind::Errors => only(Action::Errors),
            CommandKind::Open => self.pick_step(Purpose::Open, argument),
            CommandKind::Copy => self.pick_step(Purpose::Copy, argument),
            CommandKind::OpenDatabase => only(Action::OpenDatabase),
            CommandKind::Clear => only(Action::Welcome { clear_screen: true }),
            CommandKind::Unknown => self.unknown_step(argument),
        }
    }

    /// The command that is carried out: the one typed, or the last one where it is to be repeated.
    pub open spec fn effective(self, line: Seq<char>) -> Option<Seq<char>> {
        if command::parse_spec(line).kind == CommandKind::Again {
            match self.last_command {
                Some(last) => Some(last@),
                None => None,
            }
        } else {
            Some(line)
        }
    }

    pub open spec fn command_step(self, line: Seq<char>, seed: u64) -> Step {
        if command::parse_spec(line).kind == CommandKind::Again {
            match self.last_command {
                Some(last) => {
                    let step = self.plain_step(command::parse_spec(last@), seed);
                    Step { lines: seq!["again "@ + last@] + step.lines, action: step.action }
                },
                None => says(
                    seq!["nothing to repeat yet"@, "try: search <query>, play, or scan"@],
                ),
            }
        } else {
            self.plain_step(command::parse_spec(line), seed)
        }
    }

    /// The shell after a command, but for its queue: stopping forgets what plays, and the language,
    /// the volume and the position may change.
    pub open spec fn after_command(self, command: Command) -> EchoShell {
        match command.kind {
            CommandKind::Quit => EchoShell { playback: None, ..self },
            CommandKind::Stop => EchoShell { playback: None, ..self },
            CommandKind::Language => match self.language_step(command.argument).action {
                Action::SwitchLanguage(next) => EchoShell { language: next, ..self },
                _ => self,
            },
            CommandKind::Volume => match self.volume_step(command.argument).action {
                Action::SetVolume(volume) => EchoShell { volume, ..self },
                _ => self,
            },
            CommandKind::Seek => self.after_seek(command.argument),
            _ => self,
        }
    }

    /// The queue after a command.
    pub open spec fn queue_after_command(self, command: Command, seed: u64) -> Queue {
        if command.kind == CommandKind::Queue {
            self.queue_after(command.argument, seed)
        } else {
            self.queue@
        }
    }

    /// A command that is repeated repeats no other one, the volume is in its range, and the queue
    /// holds its current entry.
    pub open spec fn wf(self) -> bool {
        &&& self.last_command matches Some(last) ==> !history::is_repeat_spec(last@)
        &&& self.volume <= transport::MAX_VOLUME
        &&& self.queue@.wf()
    }

    // ------------------------------------------------------------ carrying it out

    fn current_ref(&self) -> (r: Option<&Track>)
        ensures
            r == self.current(),
    {
        match &self.current_track {
            Some(track) => Some(track),
            None => None,
        }
    }

    fn no_results_step(&self) -> (r: ShellStep)
        ensures
            r@ == self.no_results(),
    {
        step_says(messages::no_results_yet_lines(self.language))
    }

    fn play_choice(&self, index: Option<usize>, label: &str) -> (r: ShellStep)
        requires
            index matches Some(index) ==> index < self.results@.len(),
        ensures
            r@ == self.choice(
                match index {
                    Some(index) => Some(index as int),
                    None => None,
                },
                label@,
            ),
    {
        match index {
            None => self.no_results_step(),
            Some(index) => {
                let track = self.results[index].clone();
                let title = layout::compact(track.title.as_str(), 56);
                let number = text::decimal(index as u128 + 1);
                let line = text::text5(label, " ", &number, ". ", &title);
                let r = ShellStep { lines: vec![line], action: ShellAction::Replace(track) };
                assert(text::texts(r.lines@) =~= seq![
                    chosen_line(label@, index as nat, self.results@[index as int]),
                ]);
                r
            },
        }
    }

    fn play_queued(&self, index: usize, label: &str) -> (r: ShellStep)
        requires
            index < self.queue@.order.tracks.len(),
        ensures
            r@ == self.queued_step(index as int, label@),
    {
        let track = self.queue.order.tracks[index].clone();
        let title = layout::compact(track.title.as_str(), 56);
        let number = text::decimal(index as u128 + 1);
        let line = text::text5(label, " ", &number, ". ", &title);
        let r = ShellStep {
            lines: vec![line],
            action: ShellAction::PlayQueued { track, at: index },
        };
        assert(text::texts(r.lines@) =~= seq![
            chosen_line(label@, index as nat, self.queue@.order.tracks[index as int]),
        ]);
        r
    }

    pub fn run_relative_playback(&self, step: isize, label: &str) -> (r: ShellStep)
        ensures
            r@ == self.relative_step(step as int, label@),
    {
        let index = results::relative_result_index(&self.results, self.current_ref(), step);
        self.play_choice(index, label)
    }

    pub fn run_shuffle_playback(&self, seed: u64, label: &str) -> (r: ShellStep)
        ensures
            r@ == self.shuffle_step(seed, label@),
    {
        if self.playback.is_some() && self.queue.order.tracks.len() > 0 {
            return match results::shuffle_result_index(
                &self.queue.order.tracks,
                self.current_ref(),
                seed,
            ) {
                Some(index) => self.play_queued(index, label),
                None => self.no_results_step(),
            };
        }
        let index = results::shuffle_result_index(&self.results, self.current_ref(), seed);
        self.play_choice(index, label)
    }

    fn play_result(&self, index: usize) -> (r: ShellStep)
        ensures
            r@ == self.play_at(index as int),
    {
        if index < self.results.len() {
            step_only(ShellAction::Replace(self.results[index].clone()))
        } else {
            self.no_results_step()
        }
    }

    pub fn run_play(&self, argument: &str, seed: u64) -> (r: ShellStep)
        ensures
            r@ == self.play_step(argument@, seed),
    {
        if argument.is_empty() {
            return self.play_result(0);
        }
        if is_word_in(argument, &SHUFFLE_ARGUMENTS) {
            return self.run_shuffle_playback(seed, argument);
        }
        if is_word_in(argument, &NEXT_ARGUMENTS) {
            return self.run_relative_playback(1, "play next");
        }
        if is_word_in(argument, &PREVIOUS_ARGUMENTS) {
            return self.run_relative_playback(-1, "play prev");
        }
        if is_word_in(argument, &LAST_ARGUMENTS) {
            if self.results.len() == 0 {
                return self.no_results_step();
            }
            return self.play_result(self.results.len() - 1);
        }
        if is_word_in(argument, &FIRST_ARGUMENTS) {
            return self.play_result(0);
        }
        match suggestions::parse_result_index_input(argument) {
            Some(index) => if index <= self.results.len() {
                step_only(ShellAction::Replace(self.results[index - 1].clone()))
            } else {
                step_says(
                    messages::no_result_index_lines(index, self.results.len(), self.language),
                )
            },
            None => step_only(
                ShellAction::Resolve { query: argument.to_owned(), purpose: Purpose::Play },
            ),
        }
    }

    /// Does what a track was looked up for.
    pub fn resolved(&self, purpose: Purpose, target: Option<Track>) -> (r: ShellStep)
        ensures
            r@ == self.target_step(purpose, target),
    {
        match (purpose, target) {
            (Purpose::Play, Some(track)) => step_only(ShellAction::Replace(track)),
            (Purpose::Play, None) => self.no_results_step(),
            (Purpose::Info, Some(track)) => step_says(info::track_info_lines("info", &track)),
            (Purpose::Info, None) => step_says(messages::nothing_to_inspect_lines(self.language)),
            (Purpose::Open, Some(track)) => step_only(ShellAction::Open(track)),
            (Purpose::Open, None) => step_says(messages::nothing_to_open_lines(self.language)),
            (Purpose::Copy, Some(track)) => step_only(ShellAction::Copy(track)),
            (Purpose::Copy, None) => step_says(messages::nothing_to_copy_lines(self.language)),
        }
    }

    fn run_pick(&self, purpose: Purpose, argument: &str) -> (r: ShellStep)
        ensures
            r@ == self.pick_step(purpose, argument@),
    {
        if is_word_in(argument, &CURRENT_ARGUMENTS) {
            let target = match &self.current_track {
                Some(track) => Some(track.clone()),
                None => if self.results.len() > 0 {
                    Some(self.results[0].clone())
                } else {
                    None
                },
            };
            return self.resolved(purpose, target);
        }
        match text::parse_usize(argument) {
            Some(index) => {
                let at: usize = if index == 0 {
                    0
                } else {
                    index - 1
                };
                let target = if at < self.results.len() {
                    Some(self.results[at].clone())
                } else {
                    None
                };
                self.resolved(purpose, target)
            },
            None => step_only(ShellAction::Resolve { query: argument.to_owned(), purpose }),
        }
    }

    pub fn run_search(&self, query: &str) -> (r: ShellStep)
        ensures
            r@ == self.search_step(query@),
    {
        if query.is_empty() {
            return step_says(messages::search_usage_lines(self.language));
        }
        step_only(
            ShellAction::Load {
                query: query.to_owned(),
                label: query.to_owned(),
                limit: RESULT_LIMIT,
                reopen: false,
                showing: Showing::Search,
            },
        )
    }

    pub fn run_scan(&self, argument: &str) -> (r: ShellStep)
        ensures
            r@ == self.scan_step(argument@),
    {
        let lowered = text::ascii_lower(argument);
        if argument.is_empty() || text::same_text(&lowered, "add") {
            step_only(ShellAction::PickFolder)
        } else {
            step_only(ShellAction::Scan(argument.to_owned()))
        }
    }

    pub fn run_language(&mut self, argument: &str) -> (r: ShellStep)
        ensures
            r@ == old(self).language_step(argument@),
            *final(self) == match old(self).language_step(argument@).action {
                Action::SwitchLanguage(next) => EchoShell { language: next, ..*old(self) },
                _ => *old(self),
            },
    {
        let argument = text::trim(argument);
        if language::is_language_status_argument(argument) {
            return step_says(messages::language_status_lines(self.language));
        }
        let next = if argument.is_empty() {
            Some(self.language.toggled())
        } else {
            language::parse_language(argument)
        };
        match next {
            Some(next) => {
                self.language = next;
                step_only(ShellAction::SwitchLanguage(next))
            },
            None => step_says(messages::language_usage_lines(self.language)),
        }
    }

    pub fn handle_unknown_input(&self, input: &str) -> (r: ShellStep)
        ensures
            r@ == self.unknown_step(input@),
    {
        let token = text::first_word(input);
        if token.is_empty() {
            let r = step_only(ShellAction::Nothing);
            assert(r@ =~= says(Seq::empty()));
            return r;
        }
        let near = nearest::nearest_command_suggestions(token);
        let mut lines = if near.len() == 0 {
            let none: Vec<String> = Vec::new();
            assert(text::texts(none@) =~= Seq::<Seq<char>>::empty());
            none
        } else {
            nearest::unknown_command_lines(token, input, near, self.language)
        };
        let ghost hints = text::texts(lines@);
        let searching = nearest::searching_line(input, self.language);
        let mut step = self.run_search(input);
        let ghost after = step@;
        lines.push(searching);
        lines.append(&mut step.lines);
        let r = ShellStep { lines, action: step.action };
        assert(r@.lines =~= hints + seq![searching@] + after.lines);
        r
    }

    pub fn run_more_results(&self) -> (r: ShellStep)
        ensures
            r@ == self.more_step(),
    {
        let limit = if self.result_limit <= usize::MAX - RESULT_PAGE_SIZE {
            self.result_limit + RESULT_PAGE_SIZE
        } else {
            usize::MAX
        };
        step_only(
            ShellAction::Load {
                query: self.result_query.clone(),
                label: self.result_label.clone(),
                limit,
                reopen: false,
                showing: Showing::More { old_count: self.results.len() },
            },
        )
    }

    fn stopping_lines(&self) -> (r: Vec<String>)
        ensures
            text::texts(r@) == self.stop_lines(),
    {
        match &self.playback {
            Some(title) => {
                let r = vec![messages::stopping_line(title.as_str(), self.language)];
                assert(text::texts(r@) =~= self.stop_lines());
                r
            },
            None => {
                let r: Vec<String> = Vec::new();
                assert(text::texts(r@) =~= self.stop_lines());
                r
            },
        }
    }

    fn control(&self, control: PlaybackControl, otherwise: &'static str) -> (r: ShellStep)
        ensures
            r@ == match self.playback {
                Some(_) => only(Action::Control(control)),
                None => says(seq![otherwise@]),
            },
    {
        match &self.playback {
            Some(_) => step_only(ShellAction::Control(control)),
            None => {
                let lines = vec![otherwise.to_owned()];
                assert(text::texts(lines@) =~= seq![otherwise@]);
                step_says(lines)
            },
        }
    }

    fn say_one(line: String) -> (r: ShellStep)
        ensures
            r@ == says(seq![line@]),
    {
        let lines = vec![line];
        assert(text::texts(lines@) =~= seq![line@]);
        step_says(lines)
    }

    fn duration_of(&self) -> (r: Option<u64>)
        ensures
            r == self.duration(),
    {
        match &self.current_track {
            Some(track) => track.duration_ms,
            None => None,
        }
    }

    /// Tells or sets the volume.
    pub fn run_volume(&mut self, argument: &str) -> (r: ShellStep)
        requires
            old(self).wf(),
        ensures
            final(self).wf(),
            r@ == old(self).volume_step(argument@),
            *final(self) == match old(self).volume_step(argument@).action {
                Action::SetVolume(volume) => EchoShell { volume, ..*old(self) },
                _ => *old(self),
            },
    {
        if text::trim(argument).is_empty() {
            return Self::say_one(volume_line(self.volume));
        }
        match transport::volume_for(argument, self.volume) {
            Some(volume) => {
                self.volume = volume;
                let r = ShellStep {
                    lines: vec![volume_line(volume)],
                    action: ShellAction::SetVolume(volume),
                };
                assert(text::texts(r.lines@) =~= seq![volume_line_spec(volume)]);
                r
            },
            None => Self::say_one(VOLUME_USAGE.to_owned()),
        }
    }

    /// Goes elsewhere in the track that is playing.
    pub fn run_seek(&mut self, argument: &str) -> (r: ShellStep)
        ensures
            r@ == old(self).seek_step(argument@),
            *final(self) == old(self).after_seek(argument@),
    {
        if self.playback.is_none() {
            return Self::say_one(messages::nothing_playing_line(self.language).to_owned());
        }
        let command = transport::parse_seek_command(argument);
        match transport::seek_target(
            command,
            self.elapsed_ms,
            self.duration_of(),
            self.seek_undo,
        ) {
            Some(ms) => {
                self.seek_undo = Some(self.elapsed_ms);
                self.elapsed_ms = ms;
                let position = info::format_duration(ms);
                let r = ShellStep {
                    lines: vec![text::text2("seek to ", &position)],
                    action: ShellAction::Seek(ms),
                };
                assert(text::texts(r.lines@) =~= seq![
                    "seek to "@ + info::duration_spec(ms as nat),
                ]);
                r
            },
            None => Self::say_one(no_seek_line(command).to_owned()),
        }
    }

    fn say_headed(head: &str, lines: Vec<String>) -> (r: ShellStep)
        ensures
            r@ == says(seq![head@] + text::texts(lines@)),
    {
        let ghost rest = text::texts(lines@);
        let mut more = lines;
        let mut all = vec![head.to_owned()];
        all.append(&mut more);
        assert(text::texts(all@) =~= seq![head@] + rest);
        step_says(all)
    }

    /// Shows or edits the queue, or plays one of its entries.
    pub fn run_queue(&mut self, argument: &str, seed: u64) -> (r: ShellStep)
        requires
            old(self).wf(),
        ensures
            final(self).wf(),
            r@ == old(self).queue_step(argument@, seed),
            final(self).queue@ == old(self).queue_after(argument@, seed),
            *final(self) == (EchoShell { queue: final(self).queue, ..*old(self) }),
    {
        let command = queue::parse_queue_command(argument);
        if let Some(next) = queue::edit(&self.queue.order, &self.results, command, seed) {
            proof {
                queue::edits_keep_the_current_track(
                    self.queue@.order,
                    self.results@,
                    command,
                    seed,
                );
            }
            let lines = next.lines(false);
            self.queue.edit_to(next);
            return Self::say_headed(edit_line(command), lines);
        }
        let count = self.queue.order.tracks.len();
        match command {
            QueueCommand::Show => step_says(self.queue.order.lines(false)),
            QueueCommand::All => step_says(self.queue.order.lines(true)),
            QueueCommand::Undo => if self.queue.undo() {
                let lines = self.queue.order.lines(false);
                Self::say_headed("queue: last edit undone", lines)
            } else {
                Self::say_one("nothing to undo in the queue".to_owned())
            },
            QueueCommand::Jump(n) => if 0 < n && n <= count {
                self.play_queued(n - 1, "queue")
            } else {
                Self::say_one(no_entry_line(n, count))
            },
            QueueCommand::Next(n) => step_says(
                messages::no_result_index_lines(n, self.results.len(), self.language),
            ),
            QueueCommand::Add(n) => step_says(
                messages::no_result_index_lines(n, self.results.len(), self.language),
            ),
            QueueCommand::Remove(n) => if 0 < n && n <= count {
                Self::say_one(
                    "the current track stays in the queue; try next or stop".to_owned(),
                )
            } else {
                Self::say_one(no_entry_line(n, count))
            },
            QueueCommand::Move { from, to } => if 0 < from && from <= count {
                Self::say_one(no_entry_line(to, count))
            } else {
                Self::say_one(no_entry_line(from, count))
            },
            QueueCommand::Unclear => Self::say_one(QUEUE_USAGE.to_owned()),
            _ => step_says(self.queue.order.lines(false)),
        }
    }

    fn queue_left_line(&self) -> (r: String)
        requires
            self.queue@.wf(),
        ensures
            r@ == self.queue_left_spec(),
    {
        let order = &self.queue.order;
        if order.tracks.len() == 0 {
            return "queue empty".to_owned();
        }
        let left: u64 = match self.duration_of() {
            Some(ms) => transport::left_of(self.elapsed_ms, ms),
            None => 0,
        };
        let place = order.place();
        let known = queue::known_duration(&order.tracks, order.at + 1, left);
        let known = info::format_duration(known);
        text::text5("queue ", &place, ", ", &known, " left")
    }

    fn up_next_line(&self) -> (r: String)
        requires
            self.queue@.wf(),
        ensures
            r@ == self.up_next_spec(),
    {
        let order = &self.queue.order;
        if order.tracks.len() > 0 && order.at + 1 < order.tracks.len() {
            let title = layout::compact(order.tracks[order.at + 1].title.as_str(), 56);
            text::text2("up next ", &title)
        } else {
            "up next nothing".to_owned()
        }
    }

    fn meter_lines(&self) -> (r: Vec<String>)
        requires
            self.queue@.wf(),
        ensures
            text::texts(r@) == self.meter_while_playing(),
    {
        let mut r: Vec<String> = Vec::new();
        if self.playback.is_some() {
            r.push(transport::time_line(self.elapsed_ms, self.duration_of()));
            r.push(self.queue_left_line());
            r.push(transport::undo_line(self.seek_undo));
            r.push(self.up_next_line());
            r.push(transport::tokens_line(self.elapsed_ms));
        }
        assert(text::texts(r@) =~= self.meter_while_playing());
        r
    }

    /// Tells what is metered of the track that is playing.
    pub fn run_meter(&self) -> (r: ShellStep)
        requires
            self.queue@.wf(),
        ensures
            r@ == self.meter_step(),
    {
        if self.playback.is_some() {
            step_says(self.meter_lines())
        } else {
            Self::say_one(messages::nothing_playing_line(self.language).to_owned())
        }
    }

    fn run_now(&self) -> (r: ShellStep)
        requires
            self.queue@.wf(),
        ensures
            r@ == match self.current_track {
                Some(track) => says(
                    info::track_info_spec("now"@, track) + self.meter_while_playing(),
                ),
                None => says(seq!["now: idle"@]),
            },
    {
        match &self.current_track {
            Some(track) => {
                let mut lines = info::track_info_lines("now", track);
                let ghost told = text::texts(lines@);
                let mut more = self.meter_lines();
                lines.append(&mut more);
                assert(text::texts(lines@) =~= told + self.meter_while_playing());
                step_says(lines)
            },
            None => Self::say_one("now: idle".to_owned()),
        }
    }

    fn run_plain(&mut self, command: &ShellCommand, seed: u64) -> (r: ShellStep)
        requires
            old(self).wf(),
        ensures
            final(self).wf(),
            r@ == old(self).plain_step(command@, seed),
            final(self).queue@ == old(self).queue_after_command(command@, seed),
            *final(self) == (EchoShell {
                queue: final(self).queue,
                ..old(self).after_command(command@)
            }),
            final(self).last_command == old(self).last_command,
    {
        reveal(EchoShell::plain_step);
        let argument = command.argument.as_str();
        match command.kind {
            CommandKind::Quit => {
                let stop = self.playback.is_some();
                let lines = self.stopping_lines();
                self.playback = None;
                ShellStep { lines, action: ShellAction::Quit { stop } }
            },
            CommandKind::Help => step_says(help::localized_help_lines(argument, self.language)),
            CommandKind::Again => {
                let r = step_only(ShellAction::Nothing);
                assert(r@ =~= says(Seq::empty()));
                r
            },
            CommandKind::Next => self.run_relative_playback(1, "next"),
            CommandKind::Previous => self.run_relative_playback(-1, "prev"),
            CommandKind::Shuffle => self.run_shuffle_playback(seed, argument),
            CommandKind::Home => step_only(ShellAction::Welcome { clear_screen: false }),
            CommandKind::Tips => step_only(ShellAction::NextSteps),
            CommandKind::Shortcuts => step_says(help::shortcut_lines(self.language)),
            CommandKind::Aliases => step_says(help::alias_lines(self.language)),
            CommandKind::Language => self.run_language(argument),
            CommandKind::Pause => self.control(
                PlaybackControl::Pause,
                messages::nothing_playing_line(self.language),
            ),
            CommandKind::Resume => self.control(
                PlaybackControl::Resume,
                messages::nothing_paused_line(self.language),
            ),
            CommandKind::Stop => {
                let playing = self.playback.is_some();
                let lines = self.stopping_lines();
                self.playback = None;
                if playing {
                    ShellStep { lines, action: ShellAction::Control(PlaybackControl::Stop) }
                } else {
                    ShellStep { lines, action: ShellAction::Nothing }
                }
            },
            CommandKind::Volume => self.run_volume(argument),
            CommandKind::Seek => self.run_seek(argument),
            CommandKind::Queue => self.run_queue(argument, seed),
            CommandKind::Meter => self.run_meter(),
            CommandKind::Scan => self.run_scan(argument),
            CommandKind::Add => self.run_scan("add"),
            CommandKind::Search => self.run_search(argument),
            CommandKind::Library => {
                let query = String::new();
                assert(query@ =~= Seq::<char>::empty());
                step_only(
                    ShellAction::Load {
                        query,
                        label: "library".to_owned(),
                        limit: RESULT_LIMIT,
                        reopen: true,
                        showing: Showing::Library,
                    },
                )
            },
            CommandKind::Results => step_only(ShellAction::ShowResults),
            CommandKind::More => self.run_more_results(),
            CommandKind::Play => self.run_play(argument, seed),
            CommandKind::Now => self.run_now(),
            CommandKind::Info => self.run_pick(Purpose::Info, argument),
            CommandKind::Status => step_only(ShellAction::Status),
            CommandKind::Devices => step_only(ShellAction::Devices),
            CommandKind::Doctor => step_only(ShellAction::Doctor),
            CommandKind::Errors => step_only(ShellAction::Errors),
            CommandKind::Open => self.run_pick(Purpose::Open, argument),
            CommandKind::Copy => self.run_pick(Purpose::Copy, argument),
            CommandKind::OpenDatabase => step_only(ShellAction::OpenDatabase),
            CommandKind::Clear => step_only(ShellAction::Welcome { clear_screen: true }),
            CommandKind::Unknown => self.handle_unknown_input(argument),
        }
    }

    /// Runs a command. `seed` picks where something is to be picked at random.
    pub fn run_command(&mut self, line: &str, seed: u64) -> (r: ShellStep)
        requires
            old(self).wf(),
        ensures
            final(self).wf(),
            r@ == old(self).command_step(line@, seed),
            match old(self).effective(line@) {
                Some(effective) => {
                    let command = command::parse_spec(effective);
                    &&& final(self).queue@ == old(self).queue_after_command(command, seed)
                    &&& *final(self) == (EchoShell {
                        queue: final(self).queue,
                        ..old(self).after_command(command)
                    })
                },
                None => *final(self) == *old(self),
            },
    {
        let command = command::parse_command(line);
        match command.kind {
            CommandKind::Again => {
                let last = match &self.last_command {
                    Some(last) => last.clone(),
                    None => {
                        let lines = vec![
                            "nothing to repeat yet".to_owned(),
                            "try: search <query>, play, or scan".to_owned(),
                        ];
                        assert(text::texts(lines@) =~= seq![
                            "nothing to repeat yet"@,
                            "try: search <query>, play, or scan"@,
                        ]);
                        return step_says(lines);
                    },
                };
                let repeated = command::parse_command(last.as_str());
                let mut step = self.run_plain(&repeated, seed);
                let ghost after = step@;
                let mut lines = vec![text::text2("again ", last.as_str())];
                lines.append(&mut step.lines);
                let r = ShellStep { lines, action: step.action };
                assert(r@.lines =~= seq!["again "@ + last@] + after.lines);
                r
            },
            _ => self.run_plain(&command, seed),
        }
    }

    /// Remembers a command that was carried out, unless it left the shell or repeats another one.
    pub fn finish_command(&mut self, line: &str, keep_running: bool)
        requires
            old(self).wf(),
        ensures
            final(self).wf(),
            if keep_running && !history::is_repeat_spec(line@) {
                &&& final(self).last_command matches Some(last) && last@ == line@
                &&& *final(self) == (EchoShell {
                    last_command: final(self).last_command,
                    ..*old(self)
                })
            } else {
                *final(self) == *old(self)
            },
    {
        if keep_running && !history::is_repeat_command(line) {
            self.last_command = Some(line.to_owned());
        }
    }
}

// ---------------------------------------------------------------- the list of results

/// How many rows are asked for to show `limit` and know whether there are more.
pub fn fetch_limit(limit: usize) -> (r: usize)
    ensures
        r == if limit < usize::MAX {
            limit + 1
        } else {
            usize::MAX as int
        },
{
    if limit < usize::MAX {
        limit + 1
    } else {
        usize::MAX
    }
}

/// The first `limit` rows, and whether there were more.
pub fn load_result_window(fetched: Vec<Track>, limit: usize) -> (r: (Vec<Track>, bool))
    ensures
        r.0@ == nearest::at_most(fetched@, limit as int),
        r.1 == (fetched@.len() > limit),
{
    let mut results = fetched;
    let has_more = results.len() > limit;
    results.truncate(limit);
    assert(results@ =~= nearest::at_most(fetched@, limit as int));
    (results, has_more)
}

/// A window never holds more than its limit; that more exist is said exactly when rows were cut.
pub proof fn window_says_whether_more_exist(fetched: Seq<Track>, limit: nat)
    ensures
        nearest::at_most(fetched, limit as int).len() <= limit,
        nearest::at_most(fetched, limit as int).len() < fetched.len() <==> fetched.len() > limit,
        fetched.len() <= limit ==> nearest::at_most(fetched, limit as int) == fetched,
{
}

pub open spec fn plain(lines: Seq<Seq<char>>) -> Seq<Styled> {
    Seq::new(lines.len(), |i: int| Styled { style: LineStyle::Plain, text: lines[i] })
}

fn push_plain(lines: &mut Vec<StyledLine>, text: &str)
    ensures
        listing::styled(final(lines)@) == listing::styled(old(lines)@).push(
            Styled { style: LineStyle::Plain, text: text@ },
        ),
{
    let ghost before = listing::styled(lines@);
    lines.push(StyledLine { style: LineStyle::Plain, text: text.to_owned() });
    assert(listing::styled(lines@) =~= before.push(
        Styled { style: LineStyle::Plain, text: text@ },
    ));
}

fn plain_lines(lines: Vec<String>) -> (r: Vec<StyledLine>)
    ensures
        listing::styled(r@) == plain(text::texts(lines@)),
{
    let ghost expected = plain(text::texts(lines@));
    let mut r: Vec<StyledLine> = Vec::new();
    for i in 0..lines.len()
        invariant
            expected == plain(text::texts(lines@)),
            r@.len() == i,
            forall|j: int| 0 <= j < i ==> (#[trigger] r@[j])@ == expected[j],
    {
        r.push(StyledLine { style: LineStyle::Plain, text: lines[i].clone() });
    }
    assert(listing::styled(r@) =~= expected);
    r
}

impl EchoShell {
    /// The results are `window` of what was found for `query`.
    pub open spec fn shows(
        self,
        query: Seq<char>,
        label: Seq<char>,
        limit: usize,
        fetched: Seq<Track>,
    ) -> bool {
        &&& self.results@ == nearest::at_most(fetched, limit as int)
        &&& self.has_more_results == (fetched.len() > limit)
        &&& self.result_query@ == query
        &&& self.result_label@ == label
        &&& self.result_limit == limit
    }

    /// The shell at its start, with what was found for an empty query.
    pub fn new(fetched: Vec<Track>, language: ShellLanguage) -> (r: Self)
        ensures
            r.wf(),
            r.shows(Seq::empty(), "library"@, RESULT_LIMIT, fetched@),
            r.current_track is None,
            r.playback is None,
            r.last_command is None,
            r.language == language,
            r.queue@ == Queue::fresh(Seq::empty(), 0),
            r.volume == transport::MAX_VOLUME,
            r.elapsed_ms == 0,
            r.seek_undo is None,
    {
        let (results, has_more_results) = load_result_window(fetched, RESULT_LIMIT);
        let result_query = String::new();
        assert(result_query@ =~= Seq::<char>::empty());
        EchoShell {
            results,
            result_query,
            result_label: "library".to_owned(),
            result_limit: RESULT_LIMIT,
            has_more_results,
            current_track: None,
            playback: None,
            last_command: None,
            language,
            queue: SessionQueue::new(),
            volume: transport::MAX_VOLUME,
            elapsed_ms: 0,
            seek_undo: None,
        }
    }

    /// Takes over what was found for a query.
    pub fn load_results(&mut self, query: &str, label: &str, limit: usize, fetched: Vec<Track>)
        ensures
            final(self).shows(query@, label@, limit, fetched@),
            fetched@.len() <= limit ==> final(self).results@ == fetched@,
            fetched@.len() > limit ==> final(self).results@ == fetched@.take(limit as int),
            final(self).has_more_results == (fetched@.len() > limit),
            final(self).result_query@ == query@,
            final(self).result_label@ == label@,
            final(self).result_limit == limit,
            final(self).current_track == old(self).current_track,
            final(self).playback == old(self).playback,
            final(self).last_command == old(self).last_command,
            final(self).language == old(self).language,
            final(self).queue == old(self).queue,
            final(self).volume == old(self).volume,
            final(self).elapsed_ms == old(self).elapsed_ms,
            final(self).seek_undo == old(self).seek_undo,
    {
        let (results, has_more_results) = load_result_window(fetched, limit);
        self.results = results;
        self.result_query = query.to_owned();
        self.result_label = label.to_owned();
        self.result_limit = limit;
        self.has_more_results = has_more_results;
    }

    pub open spec fn results_spec(self, label: Seq<char>, terminal_width: u16) -> Seq<Styled> {
        listing::listing_spec(
            label,
            self.results@,
            self.current(),
            self.has_more_results,
            terminal_width,
        )
    }

    pub fn print_results(&self, label: &str, terminal_width: u16) -> (r: Vec<StyledLine>)
        requires
            listing::rows_have_room(self.results@, self.current(), terminal_width),
        ensures
            listing::styled(r@) == self.results_spec(label@, terminal_width),
    {
        listing::listing(
            label,
            &self.results,
            self.current_ref(),
            self.has_more_results,
            terminal_width,
        )
    }

    /// What is shown after a search, a listing or a scan.
    pub open spec fn showing_spec(self, showing: Showing, terminal_width: u16) -> Seq<Styled> {
        let next = messages::result_next_steps_spec(self.results@.len(), self.language);
        match showing {
            Showing::Search => (if self.results@.len() == 0 {
                plain(messages::no_matches_spec(self.result_label@, self.language))
            } else {
                self.results_spec(self.result_label@, terminal_width)
            }).push(Styled { style: LineStyle::Plain, text: next }),
            Showing::Library => self.results_spec(self.result_label@, terminal_width).push(
                Styled { style: LineStyle::Plain, text: next },
            ),
            Showing::More { old_count } => {
                let shown = self.results_spec(self.result_label@, terminal_width);
                (if self.results@.len() == old_count && !self.has_more_results {
                    shown.push(
                        Styled {
                            style: LineStyle::Plain,
                            text: "no more matches in this view"@,
                        },
                    )
                } else {
                    shown
                }).push(Styled { style: LineStyle::Plain, text: next })
            },
            Showing::Scan => self.results_spec(self.result_label@, terminal_width).push(
                Styled {
                    style: LineStyle::Plain,
                    text: if self.results@.len() == 0 {
                        language::pick(
                            self.language,
                            "next: scan another folder, or type help"@,
                            "下一步: 再扫描一个文件夹，或输入 帮助"@,
                        )
                    } else {
                        language::pick(
                            self.language,
                            "next: play 1, shuffle, next, prev, play best, or search <query>"@,
                            "下一步: 播放 1、随机、下一首、上一首，或 搜索 <关键词>"@,
                        )
                    },
                },
            ),
        }
    }

    pub fn showing_lines(&self, showing: Showing, terminal_width: u16) -> (r: Vec<StyledLine>)
        requires
            listing::rows_have_room(self.results@, self.current(), terminal_width),
        ensures
            listing::styled(r@) == self.showing_spec(showing, terminal_width),
    {
        let next = messages::result_next_steps(self.results.len(), self.language);
        let label = self.result_label.as_str();
        match showing {
            Showing::Search => {
                let mut r = if self.results.len() == 0 {
                    plain_lines(messages::search_no_matches_lines(label, self.language))
                } else {
                    self.print_results(label, terminal_width)
                };
                push_plain(&mut r, &next);
                r
            },
            Showing::Library => {
                let mut r = self.print_results(label, terminal_width);
                push_plain(&mut r, &next);
                r
            },
            Showing::More { old_count } => {
                let mut r = self.print_results(label, terminal_width);
                if self.results.len() == old_count && !self.has_more_results {
                    push_plain(&mut r, "no more matches in this view");
                }
                push_plain(&mut r, &next);
                r
            },
            Showing::Scan => {
                let mut r = self.print_results(label, terminal_width);
                push_plain(
                    &mut r,
                    if self.results.len() == 0 {
                        messages::scan_empty_next_steps(self.language)
                    } else {
                        messages::scan_next_steps(self.language)
                    },
                );
                r
            },
        }
    }

    pub open spec fn below_card_spec(self, terminal_width: u16) -> Seq<Styled> {
        let hint = if self.results@.len() > 0 {
            language::pick(
                self.language,
                "next: play 1, shuffle, next, prev, search <query>, or library"@,
                "下一步: 播放 1、随机、下一首、上一首、搜索 <关键词>，或 曲库"@,
            )
        } else {
            language::pick(
                self.language,
                "No tracks yet. Run scan to choose a folder."@,
                "还没有歌曲。输入 扫描 来选择音乐文件夹。"@,
            )
        };
        let shown = if self.results@.len() > 0 {
            self.results_spec("library"@, terminal_width)
        } else {
            Seq::empty()
        };
        shown.push(Styled { style: LineStyle::Plain, text: hint }).push(
            Styled { style: LineStyle::Plain, text: ""@ },
        )
    }

    /// What stands below the welcome card.
    pub fn below_card_lines(&self, terminal_width: u16) -> (r: Vec<StyledLine>)
        requires
            listing::rows_have_room(self.results@, self.current(), terminal_width),
        ensures
            listing::styled(r@) == self.below_card_spec(terminal_width),
    {
        let has_results = self.results.len() > 0;
        let mut r = if has_results {
            self.print_results("library", terminal_width)
        } else {
            let none: Vec<StyledLine> = Vec::new();
            assert(listing::styled(none@) =~= Seq::<Styled>::empty());
            none
        };
        push_plain(&mut r, welcome::welcome_hint(has_results, self.language));
        push_plain(&mut r, "");
        r
    }

    // ------------------------------------------------------------ playback

    /// Whether a track can be started; if not, what to say.
    pub fn may_start(&self) -> (r: Option<Vec<String>>)
        ensures
            match self.playback {
                Some(title) => r matches Some(lines) && text::texts(lines@)
                    == messages::already_playing_spec(title@, self.language),
                None => r is None,
            },
    {
        match &self.playback {
            Some(title) => Some(messages::already_playing_lines(title.as_str(), self.language)),
            None => None,
        }
    }

    /// A track was started: it begins a queue of its own, the visible results where it is one of
    /// them.
    pub fn playback_started(&mut self, track: Track) -> (r: Vec<String>)
        ensures
            text::texts(r@) == messages::started_spec(track.title@, old(self).language),
            final(self).current_track == Some(track),
            final(self).playback matches Some(title) && title@ == track.title@,
            final(self).queue@ == Queue::starting(old(self).results@, track),
            old(self).wf() ==> final(self).wf(),
            *final(self) == (EchoShell {
                current_track: final(self).current_track,
                playback: final(self).playback,
                queue: final(self).queue,
                elapsed_ms: 0,
                seek_undo: None,
                ..*old(self)
            }),
    {
        self.queue = SessionQueue::starting(&self.results, &track);
        self.begin(track)
    }

    /// An entry of the queue was started.
    pub fn queued_playback_started(&mut self, at: usize) -> (r: Vec<String>)
        requires
            at < old(self).queue@.order.tracks.len(),
        ensures
            text::texts(r@) == messages::started_spec(
                old(self).queue@.order.tracks[at as int].title@,
                old(self).language,
            ),
            final(self).current_track == Some(old(self).queue@.order.tracks[at as int]),
            final(self).playback matches Some(title) && title@
                == old(self).queue@.order.tracks[at as int].title@,
            final(self).queue@ == old(self).queue@.moved_to(at as int),
            old(self).wf() ==> final(self).wf(),
            *final(self) == (EchoShell {
                current_track: final(self).current_track,
                playback: final(self).playback,
                queue: final(self).queue,
                elapsed_ms: 0,
                seek_undo: None,
                ..*old(self)
            }),
    {
        let track = self.queue.order.tracks[at].clone();
        self.queue.move_to(at);
        self.begin(track)
    }

    fn begin(&mut self, track: Track) -> (r: Vec<String>)
        ensures
            text::texts(r@) == messages::started_spec(track.title@, old(self).language),
            final(self).current_track == Some(track),
            final(self).playback matches Some(title) && title@ == track.title@,
            *final(self) == (EchoShell {
                current_track: final(self).current_track,
                playback: final(self).playback,
                elapsed_ms: 0,
                seek_undo: None,
                ..*old(self)
            }),
    {
        let title = track.title.clone();
        let lines = messages::started_playback_lines(title.as_str(), self.language);
        self.current_track = Some(track);
        self.playback = Some(title);
        self.elapsed_ms = 0;
        self.seek_undo = None;
        lines
    }

    /// The track that is playing has come this far.
    pub fn note_elapsed(&mut self, elapsed_ms: u64)
        ensures
            *final(self) == (EchoShell { elapsed_ms, ..*old(self) }),
    {
        self.elapsed_ms = elapsed_ms;
    }

    /// What follows once a playback is over: after a track that was heard to its end, the next
    /// entry of the queue.
    pub open spec fn finished_spec(self, events: Seq<PlaybackEvent>, done: bool) -> Step {
        let order = self.queue@.order;
        if done && has_finished(events) && self.playback is Some && order.at + 1
            < order.tracks.len() {
            self.queued_step(order.at + 1, "up next"@)
        } else {
            says(Seq::empty())
        }
    }

    pub fn finished_step(&self, events: &[PlaybackEvent], done: bool) -> (r: ShellStep)
        requires
            self.wf(),
        ensures
            r@ == self.finished_spec(events@, done),
    {
        let order = &self.queue.order;
        if done && any_finished(events) && self.playback.is_some() && order.tracks.len() > 0
            && order.at + 1 < order.tracks.len() {
            return self.play_queued(order.at + 1, "up next");
        }
        let r = step_only(ShellAction::Nothing);
        assert(r@ =~= says(Seq::empty()));
        r
    }

    /// Elapsed time, the place in a queue of more than one track, and the simulated cost.
    pub open spec fn prompt_note_spec(self) -> Option<Seq<char>> {
        match self.playback {
            Some(_) => Some(
                info::duration_spec(self.elapsed_ms as nat) + (if self.queue@.order.tracks.len()
                    > 1 {
                    "  "@ + self.queue@.order.place()
                } else {
                    ""@
                }) + "  "@ + transport::cost_spec(self.elapsed_ms),
            ),
            None => None,
        }
    }

    /// What the prompt shows while something plays.
    pub fn prompt_note(&self) -> (r: Option<String>)
        ensures
            match r {
                Some(note) => self.prompt_note_spec() == Some(note@),
                None => self.prompt_note_spec() is None,
            },
    {
        if self.playback.is_none() {
            return None;
        }
        let elapsed = info::format_duration(self.elapsed_ms);
        let place = if self.queue.order.tracks.len() > 1 {
            let place = self.queue.order.place();
            text::text2("  ", &place)
        } else {
            "".to_owned()
        };
        let cost = transport::cost_text(self.elapsed_ms);
        Some(text::text4(&elapsed, &place, "  ", &cost))
    }

    /// Takes in what the playback has told since it was last asked, and whether it is over.
    /// Without a playback there is nothing to take in.
    pub fn drain_playback_lines(&mut self, events: &[PlaybackEvent], done: bool) -> (r: Vec<String>)
        ensures
            text::texts(r@) == if old(self).playback is Some {
                events_spec(events@, old(self).language)
            } else {
                Seq::empty()
            },
            *final(self) == (EchoShell {
                playback: if done {
                    None
                } else {
                    old(self).playback
                },
                ..*old(self)
            }),
    {
        let mut r: Vec<String> = Vec::new();
        assert(text::texts(r@) =~= Seq::empty());
        if self.playback.is_some() {
            let language = self.language;
            for i in 0..events.len()
                invariant
                    *self == *old(self),
                    language == self.language,
                    text::texts(r@) == events_spec(events@.take(i as int), language),
            {
                let ghost before = r@;
                let mut lines = messages::playback_event_lines(&events[i], language);
                let ghost told = lines@;
                r.append(&mut lines);
                assert(text::texts(r@) =~= text::texts(before) + text::texts(told));
                assert(events@.take(i + 1).drop_last() =~= events@.take(i as int));
            }
            assert(events@.take(events@.len() as int) =~= events@);
        }
        if done {
            self.playback = None;
        }
        r
    }

    /// Nothing plays any more.
    pub fn playback_ended(&mut self)
        ensures
            *final(self) == (EchoShell { playback: None, ..*old(self) }),
    {
        self.playback = None;
    }

    // ------------------------------------------------------------ reports

    /// What is said once the language was saved.
    pub fn language_switched_lines(&self) -> (r: Vec<String>)
        ensures
            text::texts(r@) == seq![
                language::pick(self.language, "language: English"@, "语言： 中文"@),
                ""@,
            ],
    {
        let r = vec![
            self.language.text("language: English", "语言： 中文").to_owned(),
            "".to_owned(),
        ];
        assert(text::texts(r@) =~= seq![
            language::pick(self.language, "language: English"@, "语言： 中文"@),
            ""@,
        ]);
        r
    }

    pub fn next_steps(&self, track_count: u64) -> (r: Vec<String>)
        ensures
            text::texts(r@) == messages::next_steps_spec(
                match self.playback {
                    Some(title) => Some(title@),
                    None => None,
                },
                track_count as nat,
                self.results@.len(),
                self.language,
            ),
    {
        let playing = match &self.playback {
            Some(title) => Some(title.as_str()),
            None => None,
        };
        messages::next_steps_lines(playing, track_count, self.results.len(), self.language)
    }

    /// The state of the shell.
    pub fn status(&self, track_count: u64, default_device: &str, database_path: &str) -> (r: Vec<
        String,
    >)
        requires
            self.wf(),
        ensures
            exists|snapshot: messages::StatusSnapshot<'_>|
                self.is_snapshot(snapshot, track_count, default_device@, database_path@)
                    && text::texts(r@) == #[trigger] messages::status_spec(snapshot)
                    + self.meter_while_playing(),
    {
        let playback_title = match &self.playback {
            Some(title) => Some(title.as_str()),
            None => None,
        };
        let current_title = match &self.current_track {
            Some(track) => Some(track.title.as_str()),
            None => None,
        };
        let snapshot = messages::StatusSnapshot {
            track_count,
            result_count: self.results.len(),
            result_label: self.result_label.as_str(),
            result_query: self.result_query.as_str(),
            has_more_results: self.has_more_results,
            default_device,
            playback_title,
            current_title,
            current_result: results::current_result_label(&self.results, self.current_ref()),
            database_path,
            language: self.language,
        };
        assert(self.is_snapshot(snapshot, track_count, default_device@, database_path@));
        let mut lines = messages::status_lines(snapshot);
        let mut more = self.meter_lines();
        lines.append(&mut more);
        assert(text::texts(lines@) =~= messages::status_spec(snapshot)
            + self.meter_while_playing());
        lines
    }

    /// The snapshot shows this shell.
    pub open spec fn is_snapshot(
        self,
        snapshot: messages::StatusSnapshot<'_>,
        track_count: u64,
        default_device: Seq<char>,
        database_path: Seq<char>,
    ) -> bool {
        &&& snapshot.track_count == track_count
        &&& snapshot.result_count == self.results@.len()
        &&& snapshot.result_label@ == self.result_label@
        &&& snapshot.result_query@ == self.result_query@
        &&& snapshot.has_more_results == self.has_more_results
        &&& snapshot.default_device@ == default_device
        &&& messages::title_view(snapshot.playback_title) == match self.playback {
            Some(title) => Some(title@),
            None => None,
        }
        &&& messages::title_view(snapshot.current_title) == match self.current_track {
            Some(track) => Some(track.title@),
            None => None,
        }
        &&& match results::current_index_spec(self.results@, self.current()) {
            Some(index) => snapshot.current_result matches Some(label) && label@ == "#"@
                + text::decimal_spec(index + 1),
            None => snapshot.current_result is None,
        }
        &&& snapshot.database_path@ == database_path
        &&& snapshot.language == self.language
    }

    /// What the prompt can offer.
    pub fn suggestion_context(&self, track_count: u64) -> (r: ShellSuggestionContext)
        ensures
            r.lists(self.results@),
            r.language == self.language,
            r.playback_active == self.playback is Some,
            r.track_count == track_count,
    {
        ShellSuggestionContext::new(
            &self.results,
            self.language,
            self.playback.is_some(),
            track_count,
        )
    }
}

/// What is said of several playback events, one after the other.
pub open spec fn events_spec(events: Seq<PlaybackEvent>, language: ShellLanguage) -> Seq<Seq<char>>
    decreases events.len(),
{
    if events.len() == 0 {
        Seq::empty()
    } else {
        events_spec(events.drop_last(), language) + messages::event_spec(events.last(), language)
    }
}

/// What is said once a track is shown in its folder.
pub fn opened_line(track: &Track) -> (r: String)
    ensures
        r@ == "opened "@ + layout::compact_spec(track.title@, 56),
{
    let title = layout::compact(track.title.as_str(), 56);
    text::text2("opened ", &title)
}

/// What is said once the path of a track is in the clipboard.
pub fn copied_line(track: &Track) -> (r: String)
    ensures
        r@ == "copied path for "@ + layout::compact_spec(track.title@, 56),
{
    let title = layout::compact(track.title.as_str(), 56);
    text::text2("copied path for ", &title)
}

/// The error where nothing matches what was to be played.
pub fn no_playable_match(query: &str) -> (r: String)
    ensures
        r@ == "no playable match for: "@ + query@,
{
    text::text2("no playable match for: ", query)
}

pub open spec fn error_line(path: Seq<char>, error: Seq<char>) -> Seq<char> {
    layout::compact_path_spec(path, 64) + " :: "@ + layout::compact_spec(error, 72)
}

/// Files that failed, with why.
pub fn error_lines(errors: &[(String, String)]) -> (r: Vec<String>)
    ensures
        text::texts(r@) == if errors@.len() == 0 {
            seq!["no recent scan errors"@]
        } else {
            Seq::new(errors@.len(), |i: int| error_line(errors@[i].0@, errors@[i].1@))
        },
{
    if errors.len() == 0 {
        let r = vec!["no recent scan errors".to_owned()];
        assert(text::texts(r@) =~= seq!["no recent scan errors"@]);
        return r;
    }
    let mut r: Vec<String> = Vec::new();
    for i in 0..errors.len()
        invariant
            r@.len() == i,
            forall|j: int|
                0 <= j < i ==> (#[trigger] r@[j])@ == error_line(errors@[j].0@, errors@[j].1@),
    {
        let path = layout::compact_path(errors[i].0.as_str(), 64);
        let error = layout::compact(errors[i].1.as_str(), 72);
        r.push(text::text3(&path, " :: ", &error));
    }
    assert(text::texts(r@) =~= Seq::new(
        errors@.len(),
        |i: int| error_line(errors@[i].0@, errors@[i].1@),
    ));
    r
}

// ---------------------------------------------------------------- a line that was read

/// What becomes of a line that was read.
#[derive(Debug)]
pub enum LinePlan {
    /// It is blank: show what to do next.
    NextSteps,
    /// It was about the history.
    History { lines: Vec<String>, save: bool },
    /// It is a command; `echo` is printed first.
    Run { command: String, echo: Option<String>, save: bool },
}

pub ghost enum Plan {
    NextSteps,
    History { lines: Seq<Seq<char>>, save: bool },
    Run { command: Seq<char>, echo: Option<Seq<char>>, save: bool },
}

impl View for LinePlan {
    type V = Plan;

    open spec fn view(&self) -> Plan {
        match *self {
            LinePlan::NextSteps => Plan::NextSteps,
            LinePlan::History { lines, save } => Plan::History { lines: text::texts(lines@), save },
            LinePlan::Run { command, echo, save } => Plan::Run {
                command: command@,
                echo: match echo {
                    Some(line) => Some(line@),
                    None => None,
                },
                save,
            },
        }
    }
}

pub open spec fn worth_keeping(command: Seq<char>) -> bool {
    !text::literals(history::TRANSIENT_COMMANDS@).contains(
        history::command_name(history::bare_command(command)),
    )
}

/// The history with a command, where it is worth keeping.
pub open spec fn remembered(entries: Seq<Seq<char>>, command: Seq<char>) -> Seq<Seq<char>> {
    if worth_keeping(command) {
        history::pushed(entries, command)
    } else {
        entries
    }
}

pub open spec fn run_plan(
    entries: Seq<Seq<char>>,
    command: Seq<char>,
    echo: Option<Seq<char>>,
) -> Plan {
    Plan::Run {
        command,
        echo,
        save: worth_keeping(command) && history::adds_entry(entries, command),
    }
}

/// The entry that a line such as `!7` names.
pub open spec fn replayed(entries: Seq<Seq<char>>, line: Seq<char>) -> Option<Seq<char>> {
    match history::replay_index_spec(line) {
        Some(index) => if index <= entries.len() {
            Some(entries[index - 1])
        } else {
            None
        },
        None => None,
    }
}

/// What becomes of a line, and of the history with it.
pub open spec fn plan_spec(entries: Seq<Seq<char>>, line: Seq<char>) -> (Plan, Seq<Seq<char>>) {
    let command = text::trim_spec(line);
    if command.len() == 0 {
        (Plan::NextSteps, entries)
    } else {
        match history::history_command_spec(command) {
            history::HistoryCommand::Clear => (
                Plan::History { lines: seq!["history cleared"@], save: true },
                Seq::empty(),
            ),
            history::HistoryCommand::Show { count } => (
                Plan::History {
                    lines: history::history_lines_spec(entries, count as nat),
                    save: false,
                },
                entries,
            ),
            history::HistoryCommand::Other => match replayed(entries, command) {
                Some(entry) => (
                    run_plan(entries, entry, Some(command + " -> "@ + entry)),
                    remembered(entries, entry),
                ),
                None => (run_plan(entries, command, None), remembered(entries, command)),
            },
        }
    }
}

impl ShellReader {
    fn remember(&mut self, command: &str) -> (r: bool)
        ensures
            final(self).entries() == remembered(old(self).entries(), command@),
            r == (worth_keeping(command@) && history::adds_entry(old(self).entries(), command@)),
            final(self).language == old(self).language,
    {
        if history::is_history_worthy(command) {
            self.add_history(command)
        } else {
            false
        }
    }

    /// Takes a line that was read.
    pub fn take_line(&mut self, line: &str) -> (r: LinePlan)
        ensures
            (r@, final(self).entries()) == plan_spec(old(self).entries(), line@),
            final(self).language == old(self).language,
    {
        let command = text::trim(line);
        if command.is_empty() {
            return LinePlan::NextSteps;
        }
        if let Some((lines, save)) = self.run_history_command(command) {
            return LinePlan::History { lines, save };
        }
        match self.replay_history_command(command) {
            Some(entry) => {
                let echo = text::text3(command, " -> ", entry.as_str());
                let save = self.remember(entry.as_str());
                LinePlan::Run { command: entry, echo: Some(echo), save }
            },
            None => {
                let save = self.remember(command);
                LinePlan::Run { command: command.to_owned(), echo: None, save }
            },
        }
    }
}

// ---------------------------------------------------------------- laws

/// Repeating runs the last command as if it had been typed again.
pub proof fn again_repeats_the_last_command(shell: EchoShell, line: Seq<char>, seed: u64)
    requires
        shell.wf(),
        command::parse_spec(line).kind == CommandKind::Again,
        shell.last_command is Some,
    ensures
        shell.command_step(line, seed).action == shell.command_step(
            shell.last_command->0@,
            seed,
        ).action,
        shell.effective(line) == shell.effective(shell.last_command->0@),
{
    command::repeat_commands_agree(shell.last_command->0@);
}

/// A leaving command leaves the shell, also where it is repeated, and no other one does.
pub proof fn only_quit_leaves(shell: EchoShell, line: Seq<char>, seed: u64)
    requires
        shell.wf(),
    ensures
        shell.command_step(line, seed).action is Quit <==> (shell.effective(line) matches Some(
            effective,
        ) && command::parse_spec(effective).kind == CommandKind::Quit),
{
    reveal(EchoShell::plain_step);
}

/// A number that is listed plays exactly that result, with or without the word for playing.
pub proof fn number_plays_its_result(shell: EchoShell, index: usize, seed: u64)
    requires
        0 < index <= shell.results@.len(),
    ensures
        shell.play_step(text::decimal_spec(index as nat), seed) == only(
            Action::Replace(shell.results@[index - 1]),
        ),
        shell.command_step(text::decimal_spec(index as nat), seed) == only(
            Action::Replace(shell.results@[index - 1]),
        ),
{
    reveal(EchoShell::plain_step);
    let number = text::decimal_spec(index as nat);
    text::lemma_decimal(index as nat);
    text::lemma_digits_are_bare(number);
    lemma_number_is_no_word(number);
    assert(!text::starts_with_spec(number, "#"@)) by {
        reveal_strlit("#");
        assert(text::is_digit(number[0]));
        assert(number.take(1)[0] == number[0]);
    }
    assert(!seq![':', '/'].contains(number[0])) by {
        assert(text::is_digit(number[0]));
        assert(forall|c: char| seq![':', '/'].contains(c) ==> c == ':' || c == '/');
    }
}

proof fn lemma_words_are_no_numbers(words: Seq<&str>, number: Seq<char>)
    requires
        number.len() > 0,
        text::all_digits(number),
        forall|i: int|
            0 <= i < words.len() ==> (#[trigger] words[i])@.len() > 0 && !text::is_digit(
                words[i]@[0],
            ),
    ensures
        !is_word(number, words),
{
    let lowered = text::ascii_lower_spec(number);
    assert(text::is_digit(number[0]));
    assert(lowered[0] == number[0]);
    assert forall|i: int| 0 <= i < words.len() implies text::literals(words)[i] != lowered by {
        assert(text::literals(words)[i] == words[i]@);
    }
}

proof fn lemma_number_is_no_word(number: Seq<char>)
    requires
        number.len() > 0,
        text::all_digits(number),
    ensures
        !is_word(number, SHUFFLE_ARGUMENTS@),
        !is_word(number, NEXT_ARGUMENTS@),
        !is_word(number, PREVIOUS_ARGUMENTS@),
        !is_word(number, LAST_ARGUMENTS@),
        !is_word(number, FIRST_ARGUMENTS@),
{
    reveal_strlit("random");
    reveal_strlit("shuffle");
    reveal_strlit("surprise");
    reveal_strlit("随机");
    reveal_strlit("随便");
    reveal_strlit("惊喜");
    reveal_strlit("next");
    reveal_strlit("下一首");
    reveal_strlit("prev");
    reveal_strlit("previous");
    reveal_strlit("上一首");
    reveal_strlit("last");
    reveal_strlit("最后");
    reveal_strlit("最后一首");
    reveal_strlit("best");
    reveal_strlit("first");
    reveal_strlit("第一首");
    reveal_strlit("第一");
    reveal_strlit("第一个");
    lemma_words_are_no_numbers(SHUFFLE_ARGUMENTS@, number);
    lemma_words_are_no_numbers(NEXT_ARGUMENTS@, number);
    lemma_words_are_no_numbers(PREVIOUS_ARGUMENTS@, number);
    lemma_words_are_no_numbers(LAST_ARGUMENTS@, number);
    lemma_words_are_no_numbers(FIRST_ARGUMENTS@, number);
}

/// Whatever plays is told to stop when the shell is stopped or left, and is forgotten.
pub proof fn stopping_forgets_what_plays(shell: EchoShell, command: Command, seed: u64)
    requires
        command.kind == CommandKind::Stop || command.kind == CommandKind::Quit,
    ensures
        shell.after_command(command).playback is None,
        shell.playback is Some && command.kind == CommandKind::Stop ==> shell.plain_step(
            command,
            seed,
        ).action == Action::Control(PlaybackControl::Stop),
        command.kind == CommandKind::Quit ==> shell.plain_step(command, seed).action
            == (Action::Quit { stop: shell.playback is Some }),
{
    reveal(EchoShell::plain_step);
}

/// Playing without a name plays the first result.
pub proof fn playing_alone_plays_the_first(shell: EchoShell, seed: u64)
    requires
        shell.results@.len() > 0,
    ensures
        shell.play_step(Seq::empty(), seed) == shell.play_step(text::decimal_spec(1), seed),
        shell.play_step(Seq::empty(), seed) == only(Action::Replace(shell.results@[0])),
{
    number_plays_its_result(shell, 1, seed);
}

/// Words that are no command are searched for as they stand, and something is said of it.
pub proof fn bare_text_is_searched(shell: EchoShell, input: Seq<char>)
    requires
        text::first_word_spec(input).len() > 0,
    ensures
        shell.unknown_step(input).action == (Action::Load {
            query: input,
            label: input,
            limit: RESULT_LIMIT,
            reopen: false,
            showing: Showing::Search,
        }),
        shell.unknown_step(input).lines.len() > 0,
        nearest::nearest_spec(text::first_word_spec(input)).len() > 0 ==> {
            let hints = nearest::unknown_command_spec(
                text::first_word_spec(input),
                input,
                nearest::nearest_spec(text::first_word_spec(input)),
                shell.language,
            );
            shell.unknown_step(input).lines.take(hints.len() as int) == hints
        },
{
    let hints = nearest::unknown_command_spec(
        text::first_word_spec(input),
        input,
        nearest::nearest_spec(text::first_word_spec(input)),
        shell.language,
    );
    if nearest::nearest_spec(text::first_word_spec(input)).len() > 0 {
        assert(shell.unknown_step(input).lines.take(hints.len() as int) =~= hints);
    }
}

/// Replaying never runs a blank command.
pub proof fn plans_run_only_commands(entries: Seq<Seq<char>>, line: Seq<char>)
    requires
        history::history_ok(entries),
    ensures
        plan_spec(entries, line).0 matches Plan::Run { command, .. } ==> text::trim_spec(
            command,
        ).len() > 0,
        history::history_ok(plan_spec(entries, line).1),
{
    let command = text::trim_spec(line);
    text::trimming_twice_is_trimming(line);
    history::pushing_keeps_history(entries, command);
    match replayed(entries, command) {
        Some(entry) => {
            history::pushing_keeps_history(entries, entry);
            let index = history::replay_index_spec(command)->0;
            assert(entries[index - 1].len() > 0 && text::trim_spec(entries[index - 1])
                == entries[index - 1]);
        },
        None => {},
    }
}

/// Volume, position, queue and meter leave the results and what was searched for alone, whatever is
/// asked of them.
pub proof fn transport_leaves_the_results(shell: EchoShell, command: Command)
    requires
        command.kind == CommandKind::Volume || command.kind == CommandKind::Seek || command.kind
            == CommandKind::Queue || command.kind == CommandKind::Meter,
    ensures
        shell.after_command(command).results == shell.results,
        shell.after_command(command).result_query == shell.result_query,
        shell.after_command(command).result_label == shell.result_label,
        shell.after_command(command).playback == shell.playback,
        shell.after_command(command).current_track == shell.current_track,
{
}

/// Every number of the range sets the volume to it.
pub proof fn volume_takes_every_number(shell: EchoShell, volume: u8)
    requires
        volume <= transport::MAX_VOLUME,
    ensures
        shell.volume_step(text::decimal_spec(volume as nat)).action == Action::SetVolume(volume),
{
    let number = text::decimal_spec(volume as nat);
    text::lemma_decimal(volume as nat);
    text::lemma_digits_are_bare(number);
    assert(text::is_digit(number[0]));
    assert(text::ascii_lower_spec(number) =~= number) by {
        assert forall|i: int| 0 <= i < number.len() implies text::ascii_lower_char(
            #[trigger] number[i],
        ) == number[i] by {
            assert(text::is_digit(number[i]));
        }
    }
    reveal_strlit("mute");
    assert(number != "mute"@) by {
        assert("mute"@[0] == 'm');
    }
}

/// A seek is undone by going back to where it began, and the undoing by going there again.
pub proof fn seek_undo_returns(shell: EchoShell, argument: Seq<char>, undo: Seq<char>)
    requires
        shell.playback is Some,
        shell.seek_target(argument) is Some,
        transport::parse_seek_spec(undo) == transport::SeekCommand::Undo,
        shell.duration() matches Some(ms) ==> shell.elapsed_ms <= ms,
    ensures
        shell.after_seek(argument).seek_step(undo).action == Action::Seek(shell.elapsed_ms),
        shell.after_seek(argument).after_seek(undo).seek_step(undo).action == Action::Seek(
            shell.seek_target(argument)->0,
        ),
{
}

/// A track that is heard to its end is followed by the next one of the queue, and the last one by
/// none.
pub proof fn finished_track_is_followed(shell: EchoShell, events: Seq<PlaybackEvent>)
    requires
        shell.wf(),
        shell.playback is Some,
        has_finished(events),
    ensures
        ({
            let order = shell.queue@.order;
            if order.at + 1 < order.tracks.len() {
                shell.finished_spec(events, true).action == (Action::PlayQueued {
                    track: order.tracks[order.at + 1],
                    at: (order.at + 1) as usize,
                })
            } else {
                shell.finished_spec(events, true).action == Action::Nothing
            }
        }),
        shell.finished_spec(events, false).action == Action::Nothing,
{
}

/// An edit of the queue is undone by asking for it.
pub proof fn queue_undo_gives_back(shell: EchoShell, argument: Seq<char>, undo: Seq<char>, seed: u64)
    requires
        queue::edited(
            shell.queue@.order,
            shell.results@,
            queue::parse_queue_spec(argument),
            seed,
        ) is Some,
        queue::parse_queue_spec(undo) == QueueCommand::Undo,
    ensures
        shell.queue_after(argument, seed).undone() matches Some(undone) && undone.order
            == shell.queue@.order,
        forall|after: EchoShell|
            after.queue@ == shell.queue_after(argument, seed) ==> (#[trigger] after.queue_after(
                undo,
                seed,
            )).order == shell.queue@.order,
{
}

// ---------------------------------------------------------------- what the commands come to

/// `next` plays the result below the current one and `prev` the one above it, around the ends; where
/// nothing listed is current, they play the first and the last.
pub proof fn next_and_prev_play_the_neighbours(shell: EchoShell, at: int, seed: u64)
    requires
        0 <= at < shell.results@.len(),
        shell.current_track is Some,
        shell.results@[at].path@ == shell.current_track->0.path@,
        forall|i: int|
            0 <= i < at ==> (#[trigger] shell.results@[i]).path@ != shell.current_track->0.path@,
    ensures
        ({
            let below = if at + 1 < shell.results@.len() {
                at + 1
            } else {
                0
            };
            let above = if at > 0 {
                at - 1
            } else {
                shell.results@.len() - 1
            };
            let next = Command { kind: CommandKind::Next, argument: Seq::empty() };
            let previous = Command { kind: CommandKind::Previous, argument: Seq::empty() };
            &&& shell.plain_step(next, seed).action == Action::Replace(shell.results@[below])
            &&& shell.plain_step(previous, seed).action == Action::Replace(shell.results@[above])
            &&& shell.play_step("next"@, seed).action == Action::Replace(shell.results@[below])
            &&& shell.play_step("prev"@, seed).action == Action::Replace(shell.results@[above])
            &&& shell.play_step("previous"@, seed).action == Action::Replace(
                shell.results@[above],
            )
        }),
{
    reveal(EchoShell::plain_step);
    results::steps_lead_to_the_neighbours(shell.results@, &shell.current_track->0, at);
    lemma_play_words();
}

/// Which list of words each word is in.
proof fn lemma_play_words()
    ensures
        is_word("next"@, NEXT_ARGUMENTS@) && !is_word("next"@, SHUFFLE_ARGUMENTS@),
        is_word("prev"@, PREVIOUS_ARGUMENTS@) && !is_word("prev"@, SHUFFLE_ARGUMENTS@) && !is_word(
            "prev"@,
            NEXT_ARGUMENTS@,
        ),
        is_word("previous"@, PREVIOUS_ARGUMENTS@) && !is_word("previous"@, SHUFFLE_ARGUMENTS@)
            && !is_word("previous"@, NEXT_ARGUMENTS@),
        is_word("last"@, LAST_ARGUMENTS@) && !is_word("last"@, SHUFFLE_ARGUMENTS@) && !is_word(
            "last"@,
            NEXT_ARGUMENTS@,
        ) && !is_word("last"@, PREVIOUS_ARGUMENTS@),
        is_word("first"@, FIRST_ARGUMENTS@) && !is_word("first"@, SHUFFLE_ARGUMENTS@) && !is_word(
            "first"@,
            NEXT_ARGUMENTS@,
        ) && !is_word("first"@, PREVIOUS_ARGUMENTS@) && !is_word("first"@, LAST_ARGUMENTS@),
        is_word("best"@, FIRST_ARGUMENTS@) && !is_word("best"@, SHUFFLE_ARGUMENTS@) && !is_word(
            "best"@,
            NEXT_ARGUMENTS@,
        ) && !is_word("best"@, PREVIOUS_ARGUMENTS@) && !is_word("best"@, LAST_ARGUMENTS@),
        is_word("random"@, SHUFFLE_ARGUMENTS@),
        is_word("shuffle"@, SHUFFLE_ARGUMENTS@),
        "next"@.len() > 0 && "prev"@.len() > 0 && "previous"@.len() > 0 && "last"@.len() > 0
            && "first"@.len() > 0 && "best"@.len() > 0 && "random"@.len() > 0 && "shuffle"@.len()
            > 0,
{
    reveal_strlit("random");
    reveal_strlit("shuffle");
    reveal_strlit("surprise");
    reveal_strlit("随机");
    reveal_strlit("随便");
    reveal_strlit("惊喜");
    reveal_strlit("next");
    reveal_strlit("下一首");
    reveal_strlit("prev");
    reveal_strlit("previous");
    reveal_strlit("上一首");
    reveal_strlit("last");
    reveal_strlit("最后");
    reveal_strlit("最后一首");
    reveal_strlit("best");
    reveal_strlit("first");
    text::lemma_lower_stays("next"@);
    text::lemma_lower_stays("prev"@);
    text::lemma_lower_stays("previous"@);
    text::lemma_lower_stays("last"@);
    text::lemma_lower_stays("first"@);
    text::lemma_lower_stays("best"@);
    text::lemma_lower_stays("random"@);
    text::lemma_lower_stays("shuffle"@);
    let s = text::literals(SHUFFLE_ARGUMENTS@);
    let n = text::literals(NEXT_ARGUMENTS@);
    let p = text::literals(PREVIOUS_ARGUMENTS@);
    let l = text::literals(LAST_ARGUMENTS@);
    let f = text::literals(FIRST_ARGUMENTS@);
    assert(s[0] == "random"@ && s[1] == "shuffle"@ && s[2] == "surprise"@ && s[3] == "随机"@ && s[4]
        == "随便"@ && s[5] == "惊喜"@);
    assert(n[0] == "next"@ && n[1] == "下一首"@);
    assert(p[0] == "prev"@ && p[1] == "previous"@ && p[2] == "上一首"@);
    assert(l[0] == "last"@ && l[1] == "最后"@ && l[2] == "最后一首"@);
    assert(f[0] == "best"@ && f[1] == "first"@);
    assert(forall|w: Seq<char>| s.contains(w) ==> w.len() != 4 && w.len() != 5 && (w.len() == 8 ==>
        w[0] == 's'));
    assert(forall|w: Seq<char>| n.contains(w) ==> w.len() <= 4 && (w.len() == 4 ==> w[0] == 'n'));
    assert(forall|w: Seq<char>|
        p.contains(w) ==> w.len() != 5 && (w.len() == 4 ==> w[0] == 'p'));
    assert(forall|w: Seq<char>|
        l.contains(w) ==> w.len() <= 4 && (w.len() == 4 && w[0] < '\u{80}' ==> w[0] == 'l')
            && w[0] != 'b');
}

/// The words for the ends of the list play them.
pub proof fn first_and_last_play_the_ends(shell: EchoShell, seed: u64)
    requires
        shell.results@.len() > 0,
    ensures
        shell.play_step("last"@, seed).action == Action::Replace(
            shell.results@[shell.results@.len() - 1],
        ),
        shell.play_step("first"@, seed).action == Action::Replace(shell.results@[0]),
        shell.play_step("best"@, seed).action == Action::Replace(shell.results@[0]),
{
    lemma_play_words();
}

/// A shuffle plays an entry of the queue while one is active, else a result, and not the current
/// track where there is another.
pub proof fn shuffle_plays_another_track(shell: EchoShell, seed: u64, label: Seq<char>)
    requires
        shell.results@.len() <= usize::MAX,
        shell.queue@.order.tracks.len() <= usize::MAX,
    ensures
        shell.playback is Some && shell.queue@.order.tracks.len() > 0 ==> (shell.shuffle_step(
            seed,
            label,
        ).action matches Action::PlayQueued { track, at } && at < shell.queue@.order.tracks.len()
            && track == shell.queue@.order.tracks[at as int]),
        shell.playback is None && shell.results@.len() > 0 ==> (shell.shuffle_step(
            seed,
            label,
        ).action matches Action::Replace(track) && shell.results@.contains(track)),
        shell.playback is None && shell.results@.len() == 0 ==> shell.shuffle_step(
            seed,
            label,
        ).action == Action::Nothing,
{
    let queued = shell.queue@.order.tracks;
    let n = queued.len() as int;
    let m = shell.results@.len() as int;
    if n > 0 {
        vstd::arithmetic::div_mod::lemma_mod_bound(seed as usize as int, n);
        vstd::arithmetic::div_mod::lemma_mod_bound((seed as usize as int) % n + 1, n);
    }
    if m > 0 {
        vstd::arithmetic::div_mod::lemma_mod_bound(seed as usize as int, m);
        vstd::arithmetic::div_mod::lemma_mod_bound((seed as usize as int) % m + 1, m);
    }
}

/// A number behind `info`, `open` or `copy` means the result with it; nothing, or the word for what
/// plays, means the current track, and the first result where none is.
pub proof fn targets_are_what_was_named(shell: EchoShell, index: usize)
    requires
        0 < index <= shell.results@.len(),
    ensures
        ({
            let number = text::decimal_spec(index as nat);
            let meant = match shell.current_track {
                Some(track) => track,
                None => shell.results@[0],
            };
            &&& shell.pick_step(Purpose::Open, number).action == Action::Open(
                shell.results@[index - 1],
            )
            &&& shell.pick_step(Purpose::Copy, number).action == Action::Copy(
                shell.results@[index - 1],
            )
            &&& shell.pick_step(Purpose::Info, number).lines == info::track_info_spec(
                "info"@,
                shell.results@[index - 1],
            )
            &&& shell.pick_step(Purpose::Open, ""@).action == Action::Open(meant)
            &&& shell.pick_step(Purpose::Copy, ""@).action == Action::Copy(meant)
            &&& shell.pick_step(Purpose::Open, "current"@).action == Action::Open(meant)
        }),
{
    let number = text::decimal_spec(index as nat);
    reveal_strlit("");
    reveal_strlit("current");
    reveal_strlit("now");
    let words = text::literals(CURRENT_ARGUMENTS@);
    assert(words[0] == ""@ && words[1] == "current"@ && words[2] == "now"@);
    text::lemma_lower_stays(""@);
    text::lemma_lower_stays("current"@);
    text::lemma_decimal(index as nat);
    text::lemma_number_is_a_word(index as nat);
    assert('0' <= number[0] <= '9');
    assert(!is_word(number, CURRENT_ARGUMENTS@)) by {
        assert(forall|w: Seq<char>| words.contains(w) ==> w.len() == 0 || w[0] == 'c' || w[0]
            == 'n');
    }
}

/// A search asks for what was typed, a listing for everything, and more for the same again with
/// twenty rows more.
pub proof fn lists_ask_for_what_was_typed(shell: EchoShell, query: Seq<char>, seed: u64)
    requires
        query.len() > 0,
        shell.result_limit <= usize::MAX - 20,
    ensures
        shell.plain_step(Command { kind: CommandKind::Search, argument: query }, seed).action == (
        Action::Load {
            query,
            label: query,
            limit: 20,
            reopen: false,
            showing: Showing::Search,
        }),
        shell.plain_step(
            Command { kind: CommandKind::Library, argument: Seq::empty() },
            seed,
        ).action matches Action::Load { query: all, limit, .. } && all.len() == 0 && limit == 20,
        shell.plain_step(
            Command { kind: CommandKind::More, argument: Seq::empty() },
            seed,
        ).action matches Action::Load { query: same, label, limit, .. } && same
            == shell.result_query@ && label == shell.result_label@ && limit == shell.result_limit
            + 20,
        shell.search_step(Seq::empty()).action == Action::Nothing,
{
    reveal(EchoShell::plain_step);
}

/// A folder that is named is scanned; without one, a folder is picked.
pub proof fn scans_take_the_named_folder(shell: EchoShell, folder: Seq<char>)
    ensures
        folder.len() > 0 && text::ascii_lower_spec(folder) != "add"@ ==> shell.scan_step(
            folder,
        ).action == Action::Scan(folder),
        shell.scan_step(Seq::empty()).action == Action::PickFolder,
        shell.scan_step("add"@).action == Action::PickFolder,
{
    reveal_strlit("add");
    text::lemma_lower_stays("add"@);
}

/// Pausing and resuming act on what plays, and on nothing where nothing does.
pub proof fn controls_act_on_what_plays(shell: EchoShell, seed: u64)
    ensures
        ({
            let pause = shell.plain_step(
                Command { kind: CommandKind::Pause, argument: Seq::empty() },
                seed,
            ).action;
            let resume = shell.plain_step(
                Command { kind: CommandKind::Resume, argument: Seq::empty() },
                seed,
            ).action;
            &&& shell.playback is Some ==> pause == Action::Control(PlaybackControl::Pause)
            &&& shell.playback is Some ==> resume == Action::Control(PlaybackControl::Resume)
            &&& shell.playback is None ==> pause == Action::Nothing && resume == Action::Nothing
        }),
{
    reveal(EchoShell::plain_step);
}

/// The other commands ask the terminal for what they are named after.
pub proof fn reports_are_asked_for(shell: EchoShell, seed: u64)
    ensures
        ({
            let at = |kind: CommandKind|
                shell.plain_step(Command { kind, argument: Seq::empty() }, seed).action;
            &&& at(CommandKind::Status) == Action::Status
            &&& at(CommandKind::Devices) == Action::Devices
            &&& at(CommandKind::Doctor) == Action::Doctor
            &&& at(CommandKind::Errors) == Action::Errors
            &&& at(CommandKind::OpenDatabase) == Action::OpenDatabase
            &&& at(CommandKind::Results) == Action::ShowResults
            &&& at(CommandKind::Tips) == Action::NextSteps
            &&& at(CommandKind::Home) == (Action::Welcome { clear_screen: false })
            &&& at(CommandKind::Clear) == (Action::Welcome { clear_screen: true })
        }),
{
    reveal(EchoShell::plain_step);
}

/// A language is switched to by its name, and to the other one without a name; it then holds.
pub proof fn languages_are_switched_to(shell: EchoShell, name: Seq<char>)
    requires
        !EchoShell::asks_language_status(name),
        text::trim_spec(name).len() > 0,
        language::parse_language_spec(text::trim_spec(name)) is Some,
    ensures
        shell.language_step(name).action == Action::SwitchLanguage(
            language::parse_language_spec(text::trim_spec(name))->0,
        ),
        shell.after_command(
            Command { kind: CommandKind::Language, argument: name },
        ).language == language::parse_language_spec(text::trim_spec(name))->0,
{
}

/// The volume that is told to the playback is the one that holds from then on; where none is told,
/// none changes.
pub proof fn volume_holds_once_told(shell: EchoShell, argument: Seq<char>)
    ensures
        ({
            let after = shell.after_command(Command { kind: CommandKind::Volume, argument });
            match shell.volume_step(argument).action {
                Action::SetVolume(volume) => after.volume == volume,
                _ => after.volume == shell.volume,
            }
        }),
        shell.volume_step(argument).action is SetVolume || shell.volume_step(argument).action
            == Action::Nothing,
{
}

/// A seek tells the playback where it leads, remembers where it began, and needs something that
/// plays.
pub proof fn seeks_lead_there(shell: EchoShell, argument: Seq<char>)
    ensures
        shell.playback is None ==> shell.seek_step(argument).action == Action::Nothing
            && shell.after_seek(argument) == shell,
        shell.playback is Some && shell.seek_target(argument) is Some ==> shell.seek_step(
            argument,
        ).action == Action::Seek(shell.seek_target(argument)->0) && shell.after_seek(
            argument,
        ).elapsed_ms == shell.seek_target(argument)->0 && shell.after_seek(argument).seek_undo
            == Some(shell.elapsed_ms),
        shell.playback is Some && shell.seek_target(argument) is None ==> shell.after_seek(argument)
            == shell,
        shell.after_seek(argument).volume == shell.volume,
        shell.after_seek(argument).queue == shell.queue,
        shell.after_seek(argument).current_track == shell.current_track,
{
}

/// Ten seconds on is ten seconds on: a step that is typed goes that far from where the track is.
pub proof fn typed_steps_go_that_far(shell: EchoShell, n: u64)
    requires
        n <= transport::MAX_NUMBER,
        shell.playback is Some,
        shell.duration() matches Some(ms) && shell.elapsed_ms + n * 1000 <= ms,
    ensures
        shell.seek_step("+"@ + text::decimal_spec(n as nat)).action == Action::Seek(
            (shell.elapsed_ms + n * 1000) as u64,
        ),
        n * 1000 <= shell.elapsed_ms ==> shell.seek_step(
            "-"@ + text::decimal_spec(n as nat),
        ).action == Action::Seek((shell.elapsed_ms - n * 1000) as u64),
        shell.seek_step(text::decimal_spec(n as nat)).action == Action::Seek((n * 1000) as u64),
{
    transport::seconds_are_read_as_typed(n);
}

/// A number behind `queue` plays that entry of the queue, which stays as it is.
pub proof fn queue_numbers_play_their_entry(shell: EchoShell, n: usize, seed: u64)
    requires
        0 < n <= shell.queue@.order.tracks.len(),
    ensures
        shell.queue_step(text::decimal_spec(n as nat), seed).action == (Action::PlayQueued {
            track: shell.queue@.order.tracks[n - 1],
            at: (n - 1) as usize,
        }),
        shell.queue_after(text::decimal_spec(n as nat), seed) == shell.queue@,
{
    queue::queue_numbers_are_read_as_typed(n);
}

/// What is typed behind `queue` edits it: the numbered result plays next or last, the numbered entry
/// moves or leaves.
pub proof fn queue_edits_do_as_typed(shell: EchoShell, n: usize, seed: u64)
    requires
        shell.wf(),
        0 < n <= shell.results@.len(),
        shell.queue@.order.tracks.len() > 0,
    ensures
        shell.queue_after("next "@ + text::decimal_spec(n as nat), seed).order.tracks
            == shell.queue@.order.tracks.insert(shell.queue@.order.at + 1, shell.results@[n - 1]),
        shell.queue_after("add "@ + text::decimal_spec(n as nat), seed).order.tracks
            == shell.queue@.order.tracks.push(shell.results@[n - 1]),
        n <= shell.queue@.order.tracks.len() && n - 1 != shell.queue@.order.at
            ==> shell.queue_after(
            "remove "@ + text::decimal_spec(n as nat),
            seed,
        ).order.tracks == shell.queue@.order.tracks.remove(n - 1),
        shell.queue_after("add "@ + text::decimal_spec(n as nat), seed).before == Some(
            shell.queue@.order,
        ),
        shell.queue_step("add "@ + text::decimal_spec(n as nat), seed).action == Action::Nothing,
{
    queue::queue_numbers_are_read_as_typed(n);
}

/// The queue, with all its entries or from the current one on, is shown without being changed.
pub proof fn showing_the_queue_changes_nothing(shell: EchoShell, seed: u64)
    ensures
        shell.queue_after(""@, seed) == shell.queue@,
        shell.queue_after("all"@, seed) == shell.queue@,
        shell.queue_step(""@, seed) == says(shell.queue@.order.lines(false)),
        shell.queue_step("all"@, seed) == says(shell.queue@.order.lines(true)),
{
    queue::queue_words_are_read();
}

/// While something plays, the meter tells the time, the place in the queue with what is left of it,
/// where undoing a seek leads, the next entry and the simulated cost.
pub proof fn meter_tells_the_session(shell: EchoShell)
    requires
        shell.wf(),
        shell.playback is Some,
        shell.queue@.order.tracks.len() > 0,
    ensures
        shell.meter_step().lines.len() == 5,
        shell.meter_step().action == Action::Nothing,
        text::starts_with_spec(
            shell.meter_step().lines[0],
            "time "@ + info::duration_spec(shell.elapsed_ms as nat),
        ),
        text::starts_with_spec(
            shell.meter_step().lines[1],
            "queue "@ + (text::decimal_spec((shell.queue@.order.at + 1) as nat) + "/"@
                + text::decimal_spec(shell.queue@.order.tracks.len())),
        ),
        shell.queue@.order.at + 1 < shell.queue@.order.tracks.len() ==> shell.meter_step().lines[3]
            == "up next "@ + layout::compact_spec(
            shell.queue@.order.tracks[shell.queue@.order.at + 1].title@,
            56,
        ),
        shell.duration() matches Some(ms) ==> (shell.elapsed_ms <= ms ==> shell.left_ms()
            + shell.elapsed_ms == ms),
{
    let lines = shell.meter_step().lines;
    let time = "time "@ + info::duration_spec(shell.elapsed_ms as nat);
    let place = "queue "@ + shell.queue@.order.place();
    assert(lines[0].take(time.len() as int) =~= time);
    assert(lines[1].take(place.len() as int) =~= place);
}

/// The rows that are kept are the first ones that were found, in their order.
pub proof fn windows_keep_the_first_rows(fetched: Seq<Track>, limit: nat, i: int)
    requires
        0 <= i < fetched.len(),
        i < limit,
    ensures
        i < nearest::at_most(fetched, limit as int).len(),
        nearest::at_most(fetched, limit as int)[i] == fetched[i],
{
}

/// An entry of the history that is named by its number is run as it stands.
pub proof fn history_numbers_run_their_entry(entries: Seq<Seq<char>>, i: int)
    requires
        0 <= i < entries.len() <= usize::MAX,
    ensures
        replayed(entries, "!"@ + text::decimal_spec((i + 1) as nat)) == Some(entries[i]),
{
    history::history_shows_the_newest(entries, entries.len(), i);
}

/// An entry of the queue is announced under its own number and title.
pub proof fn queued_entries_are_announced(shell: EchoShell, index: int, label: Seq<char>)
    requires
        0 <= index < shell.queue@.order.tracks.len() <= usize::MAX,
    ensures
        shell.queued_step(index, label).action == (Action::PlayQueued {
            track: shell.queue@.order.tracks[index],
            at: index as usize,
        }),
        shell.queued_step(index, label).lines == seq![
            label + " "@ + text::decimal_spec((index + 1) as nat) + ". "@ + layout::compact_spec(
                shell.queue@.order.tracks[index].title@,
                56,
            ),
        ],
{
}

/// What is said of playback events comes in their order.
pub proof fn events_are_told_in_order(
    events: Seq<PlaybackEvent>,
    more: Seq<PlaybackEvent>,
    event: PlaybackEvent,
    language: ShellLanguage,
)
    ensures
        events_spec(events + more, language) == events_spec(events, language) + events_spec(
            more,
            language,
        ),
        events_spec(seq![event], language) == messages::event_spec(event, language),
    decreases more.len(),
{
    assert(seq![event].drop_last() =~= Seq::<PlaybackEvent>::empty());
    assert(events_spec(seq![event].drop_last(), language) =~= Seq::<Seq<char>>::empty());
    assert(Seq::<Seq<char>>::empty() + messages::event_spec(event, language)
        =~= messages::event_spec(event, language));
    if more.len() > 0 {
        events_are_told_in_order(events, more.drop_last(), event, language);
        assert((events + more).drop_last() =~= events + more.drop_last());
        assert(events_spec(events + more, language) =~= events_spec(events, language) + events_spec(
            more,
            language,
        ));
    } else {
        assert(events + more =~= events);
        assert(events_spec(events, language) + Seq::<Seq<char>>::empty() =~= events_spec(
            events,
            language,
        ));
    }
}

/// Leaving, clearing, repeating and asking for the history are not kept in it.
pub proof fn passing_commands_are_not_kept()
    ensures
        !worth_keeping("quit"@),
        !worth_keeping("exit"@),
        !worth_keeping("q"@),
        !worth_keeping("clear"@),
        !worth_keeping("cls"@),
        !worth_keeping("history"@),
        !worth_keeping("again"@),
        !worth_keeping("repeat"@),
        !worth_keeping("!!"@),
{
    reveal_strlit("quit");
    reveal_strlit("exit");
    reveal_strlit("q");
    reveal_strlit("clear");
    reveal_strlit("cls");
    reveal_strlit("history");
    reveal_strlit("again");
    reveal_strlit("repeat");
    reveal_strlit("!!");
    let words = text::literals(history::TRANSIENT_COMMANDS@);
    assert(words[1] == "q"@ && words[2] == "quit"@ && words[3] == "exit"@ && words[5] == "clear"@
        && words[6] == "cls"@ && words[8] == "history"@ && words[9] == "again"@ && words[10]
        == "repeat"@ && words[11] == "!!"@);
    lemma_bare_word("quit"@);
    lemma_bare_word("exit"@);
    lemma_bare_word("q"@);
    lemma_bare_word("clear"@);
    lemma_bare_word("cls"@);
    lemma_bare_word("history"@);
    lemma_bare_word("again"@);
    lemma_bare_word("repeat"@);
    lemma_bare_word("!!"@);
}

proof fn lemma_bare_word(word: Seq<char>)
    requires
        word.len() > 0,
        forall|i: int|
            0 <= i < word.len() ==> !text::white_space(#[trigger] word[i]) && !('A' <= word[i]
                <= 'Z'),
        word[0] != ':' && word[0] != '/',
    ensures
        history::command_name(history::bare_command(word)) == word,
{
    assert(!seq![':', '/'].contains(word[0])) by {
        assert(forall|c: char| seq![':', '/'].contains(c) ==> c == ':' || c == '/');
    }
    assert(text::strip_leading_spec(word, seq![':', '/']) == word);
    text::single_word_is_the_first(word);
    text::lemma_lower_stays(word);
}

/// A result that starts brings the whole list along, with nothing to undo.
pub proof fn started_results_bring_their_list(shell: EchoShell, at: int)
    requires
        0 <= at < shell.results@.len(),
    ensures
        Queue::starting(shell.results@, shell.results@[at]).order.tracks == shell.results@,
        Queue::starting(shell.results@, shell.results@[at]).before is None,
{
    queue::started_result_brings_the_list(shell.results@, shell.results@[at], at);
}

/// What stands beside the prompt while something plays: the time, the place in the queue where it has
/// more than one entry, and the cost.
pub proof fn prompt_tells_time_place_and_cost(shell: EchoShell)
    ensures
        shell.playback is None <==> shell.prompt_note_spec() is None,
        shell.prompt_note_spec() matches Some(note) ==> text::starts_with_spec(
            note,
            info::duration_spec(shell.elapsed_ms as nat) + "  "@,
        ) && text::ends_with_spec(note, "  "@ + transport::cost_spec(shell.elapsed_ms)) && (
        shell.queue@.order.tracks.len() > 1 ==> text::contains_spec(
            note,
            "  "@ + (text::decimal_spec((shell.queue@.order.at + 1) as nat) + "/"@
                + text::decimal_spec(shell.queue@.order.tracks.len())) + "  "@,
        )),
{
    reveal_strlit("");
    if shell.playback is Some {
        let time = info::duration_spec(shell.elapsed_ms as nat);
        let cost = transport::cost_spec(shell.elapsed_ms);
        let place = shell.queue@.order.place();
        let note = shell.prompt_note_spec()->0;
        let middle = if shell.queue@.order.tracks.len() > 1 {
            "  "@ + place
        } else {
            ""@
        };
        assert(note == time + middle + "  "@ + cost);
        assert(time + middle + "  "@ + cost =~= (time + middle) + ("  "@ + cost));
        text::begins_and_ends(time + middle, "  "@ + cost);
        if shell.queue@.order.tracks.len() > 1 {
            assert(note =~= (time + "  "@) + (place + "  "@ + cost));
            text::begins_and_ends(time + "  "@, place + "  "@ + cost);
            assert(note =~= time + ("  "@ + place + "  "@) + cost);
            text::parts_are_inside(time, "  "@ + place + "  "@, cost);
        } else {
            assert(note =~= (time + "  "@) + cost);
            text::begins_and_ends(time + "  "@, cost);
        }
    }
}

/// A list that was fetched is shown below its label; nothing found and nothing more are said.
pub proof fn fetched_lists_are_shown(shell: EchoShell, width: u16)
    ensures
        shell.results@.len() > 0 ==> shell.showing_spec(Showing::Search, width).drop_last()
            == listing::listing_spec(
            shell.result_label@,
            shell.results@,
            shell.current(),
            shell.has_more_results,
            width,
        ),
        shell.showing_spec(Showing::Library, width).drop_last() == listing::listing_spec(
            shell.result_label@,
            shell.results@,
            shell.current(),
            shell.has_more_results,
            width,
        ),
        shell.showing_spec(Showing::Scan, width).drop_last() == listing::listing_spec(
            shell.result_label@,
            shell.results@,
            shell.current(),
            shell.has_more_results,
            width,
        ),
        shell.results@.len() == 0 ==> text::starts_with_spec(
            shell.showing_spec(Showing::Search, width)[0].text,
            shell.result_label@,
        ),
{
    let label = shell.result_label@;
    let listed = shell.results_spec(label, width);
    let next = shell.showing_spec(Showing::Library, width).last();
    assert(listed.push(next).drop_last() =~= listed);
    let end = shell.showing_spec(Showing::Scan, width).last();
    assert(listed.push(end).drop_last() =~= listed);
    text::begins_and_ends(
        label,
        language::pick(shell.language, ": no matches"@, ": 没有匹配"@),
    );
}

/// Failed files are told by path and error.
pub proof fn failures_tell_path_and_error(path: Seq<char>, error: Seq<char>)
    ensures
        text::starts_with_spec(
            error_line(path, error),
            layout::compact_path_spec(path, 64) + " :: "@,
        ),
        text::ends_with_spec(error_line(path, error), " :: "@ + layout::compact_spec(error, 72)),
{
    let a = layout::compact_path_spec(path, 64);
    let b = layout::compact_spec(error, 72);
    text::begins_and_ends(a + " :: "@, b);
    text::begins_and_ends(a, " :: "@ + b);
    assert(a + (" :: "@ + b) =~= a + " :: "@ + b);
}

/// What is left of the queue is what is left of the track and the lengths of the entries behind it.
pub proof fn what_is_left_counts_what_is_to_come(shell: EchoShell)
    requires
        shell.queue@.order.tracks.len() > 0,
    ensures
        text::ends_with_spec(
            shell.queue_left_spec(),
            info::duration_spec(
                queue::at_most_u64(
                    shell.left_ms() + queue::known_ms(
                        shell.queue@.order.tracks.skip(shell.queue@.order.at + 1),
                    ),
                ),
            ) + " left"@,
        ),
{
    let order = shell.queue@.order;
    let head = "queue "@ + order.place() + ", "@;
    let left = info::duration_spec(
        queue::at_most_u64(shell.left_ms() + queue::known_ms(order.tracks.skip(order.at + 1))),
    );
    text::lemma_regroup(head, left, " left"@);
    text::begins_and_ends(head, left + " left"@);
}

/// A track that was heard to its end makes way for the next entry once the playback is over, and
/// nothing else goes on by itself.
pub proof fn ended_tracks_make_way_for_the_next(
    shell: EchoShell,
    events: Seq<PlaybackEvent>,
    done: bool,
    i: int,
)
    requires
        0 <= i < events.len(),
        shell.wf(),
    ensures
        ({
            let order = shell.queue@.order;
            let next = order.at + 1;
            &&& done && events[i] is Finished && shell.playback is Some && next
                < order.tracks.len() ==> shell.finished_spec(events, done).action
                == (Action::PlayQueued { track: order.tracks[next], at: next as usize })
            &&& !done || shell.playback is None || next >= order.tracks.len()
                ==> shell.finished_spec(events, done).action == Action::Nothing
            &&& (forall|k: int| 0 <= k < events.len() ==> !((#[trigger] events[k]) is Finished))
                ==> shell.finished_spec(events, done).action == Action::Nothing
        }),
{
}

/// A seek leads to its position and can be undone from there; it changes nothing else.
pub proof fn seeks_remember_where_they_came_from(shell: EchoShell, argument: Seq<char>)
    ensures
        shell.seek_step(argument).action matches Action::Seek(ms) ==> {
            let after = shell.after_seek(argument);
            &&& after.elapsed_ms == ms
            &&& after.seek_undo == Some(shell.elapsed_ms)
            &&& after.playback == shell.playback
            &&& after.current_track == shell.current_track
            &&& after.volume == shell.volume
            &&& after.results == shell.results
        },
        !(shell.seek_step(argument).action is Seek) ==> shell.after_seek(argument) == shell,
        shell.playback is None ==> !(shell.seek_step(argument).action is Seek),
{
}

/// Repeating does what the last command did, and says so.
pub proof fn repeating_does_it_again(shell: EchoShell, line: Seq<char>, last: String, seed: u64)
    requires
        command::parse_spec(line).kind == CommandKind::Again,
    ensures
        shell.last_command == Some(last) ==> shell.command_step(line, seed).action
            == shell.plain_step(command::parse_spec(last@), seed).action && shell.command_step(
            line,
            seed,
        ).lines[0] == "again "@ + last@,
        shell.last_command is None ==> shell.command_step(line, seed).action == Action::Nothing,
        shell.last_command == Some(last) ==> shell.effective(line) == Some(last@),
{
}

/// Words that are no command are searched for, all of them.
pub proof fn other_words_are_searched_for(shell: EchoShell, input: Seq<char>)
    requires
        text::first_word_spec(input).len() > 0,
        input.len() > 0,
    ensures
        shell.unknown_step(input).action == (Action::Load {
            query: input,
            label: input,
            limit: 20,
            reopen: false,
            showing: Showing::Search,
        }),
{
}

/// Leaving and stopping forget what plays, and keep the track and the list.
pub proof fn stopping_keeps_the_track_and_the_list(shell: EchoShell, argument: Seq<char>)
    ensures
        ({
            let stopped = shell.after_command(Command { kind: CommandKind::Stop, argument });
            let left = shell.after_command(Command { kind: CommandKind::Quit, argument });
            &&& stopped.playback is None && left.playback is None
            &&& stopped.current_track == shell.current_track
            &&& stopped.results == shell.results
            &&& stopped.elapsed_ms == shell.elapsed_ms
            &&& stopped.volume == shell.volume
        }),
{
}

/// A line that names an entry of the history runs the entry, which is remembered in its place; any
/// other command is run and remembered as it stands.
pub proof fn lines_are_run_and_remembered(entries: Seq<Seq<char>>, line: Seq<char>)
    requires
        text::trim_spec(line).len() > 0,
        history::history_command_spec(text::trim_spec(line)) == history::HistoryCommand::Other,
    ensures
        ({
            let command = text::trim_spec(line);
            let run = match replayed(entries, command) {
                Some(entry) => entry,
                None => command,
            };
            let planned = plan_spec(entries, line);
            &&& planned.0 matches Plan::Run { command: shown, .. } && shown == run
            &&& worth_keeping(run) ==> planned.1 == history::pushed(entries, run)
            &&& !worth_keeping(run) ==> planned.1 == entries
        }),
{
}

} // verus!
