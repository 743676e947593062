//! The full-screen view: its state, what each key does to it, and what it shows.

use crate::commands;
use crate::device::AudioDevice;
use crate::library;
use crate::library::Track;
use crate::playback::PlaybackEvent;
use crate::scanner::ScanSummary;
use crate::shell::messages;
use crate::shell::reader::{Key, KeyPress};
use crate::text;
use vstd::prelude::*;

verus! {

pub const LIBRARY_LIMIT: usize = 500;

pub const SEARCH_LIMIT: usize = 200;

#[derive(Debug, Clone, Copy, PartialEq, Eq, Structural)]
pub enum InputMode {
    Browse,
    Search,
    Command,
}

#[derive(Debug)]
pub struct NowPlaying {
    pub title: String,
    pub path: String,
    pub status: String,
    pub output: String,
    pub source_format: String,
    /// When the track was started, in milliseconds of the view's clock.
    pub started_ms: Option<u64>,
    pub duration_ms: Option<u64>,
    pub progress_ms: Option<u64>,
}

impl NowPlaying {
    pub fn empty() -> (r: Self)
        ensures
            r.idle(),
    {
        let path = String::new();
        assert(path@ =~= Seq::<char>::empty());
        NowPlaying {
            title: "No track".to_owned(),
            path,
            status: "idle".to_owned(),
            output: "system default".to_owned(),
            source_format: "unknown".to_owned(),
            started_ms: None,
            duration_ms: None,
            progress_ms: None,
        }
    }

    /// No track was played yet.
    pub open spec fn idle(self) -> bool {
        &&& self.title@ == "No track"@
        &&& self.path@ == Seq::<char>::empty()
        &&& self.status@ == "idle"@
        &&& self.output@ == "system default"@
        &&& self.source_format@ == "unknown"@
        &&& self.started_ms is None
        &&& self.duration_ms is None
        &&& self.progress_ms is None
    }

    /// The time since the start while a track runs, else where it stood last.
    pub open spec fn progress(self, now_ms: u64) -> Option<u64> {
        match self.started_ms {
            Some(started) => Some(
                if now_ms > started {
                    (now_ms - started) as u64
                } else {
                    0
                },
            ),
            None => self.progress_ms,
        }
    }

    pub fn estimated_progress(&self, now_ms: u64) -> (r: Option<u64>)
        ensures
            r == self.progress(now_ms),
    {
        match self.started_ms {
            Some(started) => if now_ms > started {
                Some(now_ms - started)
            } else {
                Some(0)
            },
            None => self.progress_ms,
        }
    }
}

#[derive(Debug)]
pub struct TuiApp {
    pub tracks: Vec<Track>,
    pub selected: usize,
    pub devices: Vec<AudioDevice>,
    pub device_panel_visible: bool,
    pub input_mode: InputMode,
    pub input: String,
    pub status: String,
    pub command_history: Vec<String>,
    pub now_playing: NowPlaying,
    pub playback_busy: bool,
    pub scan_busy: bool,
    pub library_count: u64,
    pub should_quit: bool,
}

/// What a key asks of the world outside.
#[derive(Debug)]
pub enum TuiAction {
    Nothing,
    Play(Track),
    /// Search for the input.
    Search,
    /// Show the library again.
    Refresh,
    ListDevices,
    Doctor,
    /// Scan a folder, if it exists.
    Scan(String),
}

pub ghost enum Action {
    Nothing,
    Play(Track),
    Search,
    Refresh,
    ListDevices,
    Doctor,
    Scan(Seq<char>),
}

impl View for TuiAction {
    type V = Action;

    open spec fn view(&self) -> Action {
        match *self {
            TuiAction::Nothing => Action::Nothing,
            TuiAction::Play(track) => Action::Play(track),
            TuiAction::Search => Action::Search,
            TuiAction::Refresh => Action::Refresh,
            TuiAction::ListDevices => Action::ListDevices,
            TuiAction::Doctor => Action::Doctor,
            TuiAction::Scan(folder) => Action::Scan(folder@),
        }
    }
}

// ---------------------------------------------------------------- the model

/// What keys change, with texts as sequences.
#[verifier::ext_equal]
pub ghost struct State {
    pub tracks: Seq<Track>,
    pub selected: int,
    pub device_panel_visible: bool,
    pub input_mode: InputMode,
    pub input: Seq<char>,
    pub status: Seq<char>,
    pub command_history: Seq<Seq<char>>,
    pub playback_busy: bool,
    pub scan_busy: bool,
    pub should_quit: bool,
}

/// The selection moved by `delta`, within the tracks.
pub open spec fn moved_selection(selected: int, delta: int, count: nat) -> int {
    if count == 0 {
        0
    } else if selected + delta < 0 {
        0
    } else if selected + delta >= count {
        count - 1
    } else {
        selected + delta
    }
}

impl State {
    /// The selection is one of the tracks.
    pub open spec fn wf(self) -> bool {
        if self.tracks.len() == 0 {
            self.selected == 0
        } else {
            0 <= self.selected < self.tracks.len()
        }
    }

    pub open spec fn moved(self, delta: int) -> State {
        State { selected: moved_selection(self.selected, delta, self.tracks.len()), ..self }
    }

    pub open spec fn play_selected(self) -> (State, Action) {
        if self.playback_busy {
            (State { status: "playback is already active"@, ..self }, Action::Nothing)
        } else if self.selected < self.tracks.len() {
            let track = self.tracks[self.selected];
            (
                State { playback_busy: true, status: "loading "@ + track.title@, ..self },
                Action::Play(track),
            )
        } else {
            (State { status: "library is empty"@, ..self }, Action::Nothing)
        }
    }

    pub open spec fn quit(self) -> (State, Action) {
        (State { should_quit: true, ..self }, Action::Nothing)
    }

    pub open spec fn says(self, status: Seq<char>) -> (State, Action) {
        (State { status, ..self }, Action::Nothing)
    }

    pub open spec fn after_browse_key(self, key: Key) -> (State, Action) {
        match key {
            Key::Char(c) => if c == 'q' {
                self.quit()
            } else if c == '/' {
                (
                    State {
                        input_mode: InputMode::Search,
                        input: Seq::empty(),
                        status: "search"@,
                        ..self
                    },
                    Action::Nothing,
                )
            } else if c == ':' {
                (
                    State {
                        input_mode: InputMode::Command,
                        input: Seq::empty(),
                        status: "command"@,
                        ..self
                    },
                    Action::Nothing,
                )
            } else if c == 'j' {
                (self.moved(1), Action::Nothing)
            } else if c == 'k' {
                (self.moved(-1), Action::Nothing)
            } else if c == 'd' {
                (
                    State { device_panel_visible: !self.device_panel_visible, ..self },
                    Action::Nothing,
                )
            } else if c == 'x' {
                self.says("exclusive mode lands in Phase 4"@)
            } else if c == ' ' {
                self.says("pause/resume lands after nonblocking controls"@)
            } else if c == 'n' {
                self.moved(1).play_selected()
            } else if c == 'p' {
                self.moved(-1).play_selected()
            } else {
                (self, Action::Nothing)
            },
            Key::Down => (self.moved(1), Action::Nothing),
            Key::Up => (self.moved(-1), Action::Nothing),
            Key::Enter => self.play_selected(),
            _ => (self, Action::Nothing),
        }
    }

    pub open spec fn without_last_char(self) -> State {
        State {
            input: if self.input.len() == 0 {
                self.input
            } else {
                self.input.drop_last()
            },
            ..self
        }
    }

    pub open spec fn after_search_key(self, key: Key) -> (State, Action) {
        match key {
            Key::Esc => (
                State { input_mode: InputMode::Browse, input: Seq::empty(), ..self },
                Action::Refresh,
            ),
            Key::Enter => State { input_mode: InputMode::Browse, ..self }.play_selected(),
            Key::Backspace => (self.without_last_char(), Action::Search),
            Key::Char(c) => (State { input: self.input.push(c), ..self }, Action::Search),
            Key::Down => (self.moved(1), Action::Nothing),
            Key::Up => (self.moved(-1), Action::Nothing),
            _ => (self, Action::Nothing),
        }
    }

    pub open spec fn after_command(self, command: Seq<char>) -> (State, Action) {
        let noted = State { command_history: self.command_history.push(command), ..self };
        let name = text::first_word_spec(command);
        let argument = text::trim_spec(text::after_word_spec(command));
        if command.len() == 0 {
            self.says("ready"@)
        } else if name == "q"@ || name == "quit"@ {
            noted.quit()
        } else if name == "scan"@ {
            if self.scan_busy {
                noted.says("scan is already active"@)
            } else if argument.len() == 0 {
                noted.says("scan needs a folder"@)
            } else {
                (noted, Action::Scan(argument))
            }
        } else if name == "devices"@ {
            (State { device_panel_visible: true, ..noted }, Action::ListDevices)
        } else if name == "doctor"@ {
            (noted, Action::Doctor)
        } else if name == "clear"@ {
            (
                State { command_history: Seq::empty(), status: "cleared"@, ..self },
                Action::Nothing,
            )
        } else {
            noted.says("unknown command: "@ + name)
        }
    }

    pub open spec fn after_command_key(self, key: Key) -> (State, Action) {
        match key {
            Key::Esc => (
                State {
                    input_mode: InputMode::Browse,
                    input: Seq::empty(),
                    status: "ready"@,
                    ..self
                },
                Action::Nothing,
            ),
            Key::Enter => State {
                input_mode: InputMode::Browse,
                input: Seq::empty(),
                ..self
            }.after_command(text::trim_spec(self.input)),
            Key::Backspace => (self.without_last_char(), Action::Nothing),
            Key::Char(c) => (State { input: self.input.push(c), ..self }, Action::Nothing),
            _ => (self, Action::Nothing),
        }
    }

    pub open spec fn after_key(self, press: KeyPress) -> (State, Action) {
        if press.control && press.key == Key::Char('c') {
            self.quit()
        } else {
            match self.input_mode {
                InputMode::Browse => self.after_browse_key(press.key),
                InputMode::Search => self.after_search_key(press.key),
                InputMode::Command => self.after_command_key(press.key),
            }
        }
    }
}

impl TuiApp {
    pub open spec fn state(self) -> State {
        State {
            tracks: self.tracks@,
            selected: self.selected as int,
            device_panel_visible: self.device_panel_visible,
            input_mode: self.input_mode,
            input: self.input@,
            status: self.status@,
            command_history: text::texts(self.command_history@),
            playback_busy: self.playback_busy,
            scan_busy: self.scan_busy,
            should_quit: self.should_quit,
        }
    }

    /// Keys leave the rest alone.
    pub open spec fn same_world(self, other: TuiApp) -> bool {
        &&& self.devices == other.devices
        &&& self.now_playing == other.now_playing
        &&& self.library_count == other.library_count
    }

    /// The view at its start.
    pub fn load(tracks: Vec<Track>, devices: Vec<AudioDevice>, library_count: u64) -> (r: Self)
        ensures
            r.state() == (State {
                tracks: tracks@,
                selected: 0,
                device_panel_visible: true,
                input_mode: InputMode::Browse,
                input: Seq::empty(),
                status: "ready"@,
                command_history: Seq::empty(),
                playback_busy: false,
                scan_busy: false,
                should_quit: false,
            }),
            r.state().wf(),
            r.devices == devices,
            r.library_count == library_count,
            r.now_playing.idle(),
    {
        let r = TuiApp {
            tracks,
            selected: 0,
            devices,
            device_panel_visible: true,
            input_mode: InputMode::Browse,
            input: String::new(),
            status: "ready".to_owned(),
            command_history: Vec::new(),
            now_playing: NowPlaying::empty(),
            playback_busy: false,
            scan_busy: false,
            library_count,
            should_quit: false,
        };
        assert(r.input@ =~= Seq::<char>::empty());
        assert(text::texts(r.command_history@) =~= Seq::<Seq<char>>::empty());
        r
    }

    /// The highlighted row of the list.
    pub fn list_selection(&self) -> (r: Option<usize>)
        ensures
            r == if self.tracks@.len() == 0 {
                None
            } else {
                Some(self.selected)
            },
    {
        if self.tracks.len() == 0 {
            None
        } else {
            Some(self.selected)
        }
    }

    pub fn move_selection(&mut self, delta: isize)
        requires
            old(self).state().wf(),
        ensures
            final(self).state().wf(),
            final(self).state() == old(self).state().moved(delta as int),
            final(self).same_world(*old(self)),
    {
        if self.tracks.len() == 0 {
            self.selected = 0;
        } else if delta < 0 {
            let back = (-(delta as i128)) as u128;
            if back > self.selected as u128 {
                self.selected = 0;
            } else {
                self.selected = self.selected - back as usize;
            }
        } else {
            let last = self.tracks.len() - 1;
            if delta as u128 > (last - self.selected) as u128 {
                self.selected = last;
            } else {
                self.selected = self.selected + delta as usize;
            }
        }
    }

    fn says(&mut self, status: &str) -> (r: TuiAction)
        ensures
            (final(self).state(), r@) == old(self).state().says(status@),
            final(self).same_world(*old(self)),
    {
        self.status = status.to_owned();
        TuiAction::Nothing
    }

    pub fn play_selected(&mut self) -> (r: TuiAction)
        ensures
            (final(self).state(), r@) == old(self).state().play_selected(),
            final(self).same_world(*old(self)),
    {
        if self.playback_busy {
            return self.says("playback is already active");
        }
        if self.selected >= self.tracks.len() {
            return self.says("library is empty");
        }
        let track = self.tracks[self.selected].clone();
        self.playback_busy = true;
        self.status = text::text2("loading ", track.title.as_str());
        TuiAction::Play(track)
    }

    fn quit(&mut self) -> (r: TuiAction)
        ensures
            (final(self).state(), r@) == old(self).state().quit(),
            final(self).same_world(*old(self)),
    {
        self.should_quit = true;
        TuiAction::Nothing
    }

    fn clear_input(&mut self)
        ensures
            final(self).state() == (State { input: Seq::empty(), ..old(self).state() }),
            final(self).same_world(*old(self)),
    {
        self.input = String::new();
        assert(self.input@ =~= Seq::<char>::empty());
    }

    fn remove_last_char(&mut self)
        ensures
            final(self).state() == old(self).state().without_last_char(),
            final(self).same_world(*old(self)),
    {
        let chars = text::chars_of(self.input.as_str());
        if chars.len() > 0 {
            let kept = vstd::slice::slice_subrange(&chars, 0, chars.len() - 1);
            self.input = text::string_of(kept);
            assert(chars@.subrange(0, chars@.len() - 1) =~= chars@.drop_last());
        }
    }

    fn handle_browse_key(&mut self, key: Key) -> (r: TuiAction)
        requires
            old(self).state().wf(),
        ensures
            (final(self).state(), r@) == old(self).state().after_browse_key(key),
            final(self).same_world(*old(self)),
    {
        match key {
            Key::Char(c) => if c == 'q' {
                self.quit()
            } else if c == '/' {
                self.input_mode = InputMode::Search;
                self.clear_input();
                self.says("search")
            } else if c == ':' {
                self.input_mode = InputMode::Command;
                self.clear_input();
                self.says("command")
            } else if c == 'j' {
                self.move_selection(1);
                TuiAction::Nothing
            } else if c == 'k' {
                self.move_selection(-1);
                TuiAction::Nothing
            } else if c == 'd' {
                self.device_panel_visible = !self.device_panel_visible;
                TuiAction::Nothing
            } else if c == 'x' {
                self.says("exclusive mode lands in Phase 4")
            } else if c == ' ' {
                self.says("pause/resume lands after nonblocking controls")
            } else if c == 'n' {
                self.move_selection(1);
                self.play_selected()
            } else if c == 'p' {
                self.move_selection(-1);
                self.play_selected()
            } else {
                TuiAction::Nothing
            },
            Key::Down => {
                self.move_selection(1);
                TuiAction::Nothing
            },
            Key::Up => {
                self.move_selection(-1);
                TuiAction::Nothing
            },
            Key::Enter => self.play_selected(),
            _ => TuiAction::Nothing,
        }
    }

    fn handle_search_key(&mut self, key: Key) -> (r: TuiAction)
        requires
            old(self).state().wf(),
        ensures
            (final(self).state(), r@) == old(self).state().after_search_key(key),
            final(self).same_world(*old(self)),
    {
        match key {
            Key::Esc => {
                self.input_mode = InputMode::Browse;
                self.clear_input();
                TuiAction::Refresh
            },
            Key::Enter => {
                self.input_mode = InputMode::Browse;
                self.play_selected()
            },
            Key::Backspace => {
                self.remove_last_char();
                TuiAction::Search
            },
            Key::Char(c) => {
                self.input.push(c);
                TuiAction::Search
            },
            Key::Down => {
                self.move_selection(1);
                TuiAction::Nothing
            },
            Key::Up => {
                self.move_selection(-1);
                TuiAction::Nothing
            },
            _ => TuiAction::Nothing,
        }
    }

    fn run_command(&mut self, command: &str) -> (r: TuiAction)
        ensures
            (final(self).state(), r@) == old(self).state().after_command(command@),
            final(self).same_world(*old(self)),
    {
        if command.is_empty() {
            return self.says("ready");
        }
        let ghost before = text::texts(self.command_history@);
        self.command_history.push(command.to_owned());
        assert(text::texts(self.command_history@) =~= before.push(command@));
        let name = text::first_word(command);
        let argument = text::trim(text::after_word(command));
        if text::same_text(name, "q") || text::same_text(name, "quit") {
            self.quit()
        } else if text::same_text(name, "scan") {
            self.start_scan(argument)
        } else if text::same_text(name, "devices") {
            self.device_panel_visible = true;
            TuiAction::ListDevices
        } else if text::same_text(name, "doctor") {
            TuiAction::Doctor
        } else if text::same_text(name, "clear") {
            self.command_history = Vec::new();
            assert(text::texts(self.command_history@) =~= Seq::<Seq<char>>::empty());
            self.says("cleared")
        } else {
            let status = text::text2("unknown command: ", name);
            self.says(&status)
        }
    }

    fn start_scan(&mut self, folder: &str) -> (r: TuiAction)
        ensures
            (final(self).state(), r@) == if old(self).scan_busy {
                old(self).state().says("scan is already active"@)
            } else if folder@.len() == 0 {
                old(self).state().says("scan needs a folder"@)
            } else {
                (old(self).state(), Action::Scan(folder@))
            },
            final(self).same_world(*old(self)),
    {
        if self.scan_busy {
            self.says("scan is already active")
        } else if folder.is_empty() {
            self.says("scan needs a folder")
        } else {
            TuiAction::Scan(folder.to_owned())
        }
    }

    fn handle_command_key(&mut self, key: Key) -> (r: TuiAction)
        ensures
            (final(self).state(), r@) == old(self).state().after_command_key(key),
            final(self).same_world(*old(self)),
    {
        match key {
            Key::Esc => {
                self.input_mode = InputMode::Browse;
                self.clear_input();
                self.says("ready")
            },
            Key::Enter => {
                let command = text::trim(self.input.as_str()).to_owned();
                self.clear_input();
                self.input_mode = InputMode::Browse;
                self.run_command(command.as_str())
            },
            Key::Backspace => {
                self.remove_last_char();
                TuiAction::Nothing
            },
            Key::Char(c) => {
                self.input.push(c);
                TuiAction::Nothing
            },
            _ => TuiAction::Nothing,
        }
    }

    /// Does what a key asks.
    pub fn handle_key(&mut self, press: KeyPress) -> (r: TuiAction)
        requires
            old(self).state().wf(),
        ensures
            final(self).state().wf(),
            (final(self).state(), r@) == old(self).state().after_key(press),
            final(self).same_world(*old(self)),
    {
        let interrupt = match press.key {
            Key::Char(c) => press.control && c == 'c',
            _ => false,
        };
        if interrupt {
            return self.quit();
        }
        match self.input_mode {
            InputMode::Browse => self.handle_browse_key(press.key),
            InputMode::Search => self.handle_search_key(press.key),
            InputMode::Command => self.handle_command_key(press.key),
        }
    }

    // ------------------------------------------------------------ what came of it

    /// The tracks that a search found.
    pub fn apply_search(&mut self, tracks: Vec<Track>)
        ensures
            final(self).state().wf(),
            final(self).state() == (State {
                tracks: tracks@,
                selected: 0,
                status: text::decimal_spec(tracks@.len()) + " matches"@,
                ..old(self).state()
            }),
            final(self).same_world(*old(self)),
    {
        let count = text::decimal(tracks.len() as u128);
        self.tracks = tracks;
        self.selected = 0;
        self.status = text::text2(&count, " matches");
    }

    /// The library again.
    pub fn refresh_library(&mut self, library_count: u64, tracks: Vec<Track>)
        ensures
            final(self).state().wf(),
            final(self).state() == (State {
                tracks: tracks@,
                selected: moved_selection(old(self).selected as int, 0, tracks@.len()),
                status: text::decimal_spec(library_count as nat) + " tracks indexed"@,
                ..old(self).state()
            }),
            final(self).library_count == library_count,
            final(self).devices == old(self).devices,
            final(self).now_playing == old(self).now_playing,
    {
        let count = text::decimal(library_count as u128);
        self.library_count = library_count;
        let last = if tracks.len() == 0 {
            0
        } else {
            tracks.len() - 1
        };
        if self.selected > last {
            self.selected = last;
        }
        self.tracks = tracks;
        self.status = text::text2(&count, " tracks indexed");
    }

    /// The devices that were found.
    pub fn show_devices(&mut self, devices: Vec<AudioDevice>)
        ensures
            final(self).state() == (State {
                status: text::decimal_spec(devices@.len()) + " output devices"@,
                ..old(self).state()
            }),
            final(self).devices == devices,
            final(self).now_playing == old(self).now_playing,
            final(self).library_count == old(self).library_count,
    {
        let count = text::decimal(devices.len() as u128);
        self.devices = devices;
        self.status = text::text2(&count, " output devices");
    }

    /// A short diagnosis.
    pub fn show_doctor(&mut self, library_count: u64, default_device: &str)
        ensures
            final(self).state() == (State {
                status: text::decimal_spec(library_count as nat) + " tracks / "@
                    + text::decimal_spec(old(self).devices@.len()) + " devices / "@
                    + default_device@,
                ..old(self).state()
            }),
            final(self).library_count == library_count,
            final(self).devices == old(self).devices,
            final(self).now_playing == old(self).now_playing,
    {
        let tracks = text::decimal(library_count as u128);
        let devices = text::decimal(self.devices.len() as u128);
        self.library_count = library_count;
        self.status = text::text5(&tracks, " tracks / ", &devices, " devices / ", default_device);
    }

    /// The folder to scan does not exist.
    pub fn folder_missing(&mut self, folder: &str)
        ensures
            final(self).state() == old(self).state().says("folder not found: "@ + folder@).0,
            final(self).same_world(*old(self)),
    {
        let status = text::text2("folder not found: ", folder);
        self.says(&status);
    }

    pub fn scan_started(&mut self, folder: &str)
        ensures
            final(self).state() == (State {
                scan_busy: true,
                status: "scanning "@ + folder@,
                ..old(self).state()
            }),
            final(self).same_world(*old(self)),
    {
        self.scan_busy = true;
        self.status = text::text2("scanning ", folder);
    }

    /// A scan has ended, with what is to be said of it; the library is shown again if it succeeded.
    pub fn scan_ended(&mut self, result: Result<String, String>) -> (r: TuiAction)
        ensures
            final(self).state() == (State {
                scan_busy: false,
                status: match result {
                    Ok(status) => status@,
                    Err(error) => "scan failed: "@ + error@,
                },
                ..old(self).state()
            }),
            r@ == match result {
                Ok(_) => Action::Refresh,
                Err(_) => Action::Nothing,
            },
            final(self).same_world(*old(self)),
    {
        self.scan_busy = false;
        match result {
            Ok(status) => {
                self.status = status;
                TuiAction::Refresh
            },
            Err(error) => {
                self.status = text::text2("scan failed: ", error.as_str());
                TuiAction::Nothing
            },
        }
    }

    /// The player could not be started.
    pub fn playback_failed(&mut self, error: &str)
        ensures
            final(self).state() == (State {
                playback_busy: false,
                status: "playback thread failed: "@ + error@,
                ..old(self).state()
            }),
            final(self).same_world(*old(self)),
    {
        self.playback_busy = false;
        self.status = text::text2("playback thread failed: ", error);
    }

    /// The state after an event of the player.
    pub open spec fn state_after(self, event: PlaybackEvent) -> State {
        match event {
            PlaybackEvent::Loading { title, path } => State { status: "decoding"@, ..self.state() },
            PlaybackEvent::Playing { title, stream, output } => State {
                status: "playing"@,
                ..self.state()
            },
            PlaybackEvent::Warning(message) => State {
                status: "warning: "@ + message@,
                ..self.state()
            },
            PlaybackEvent::Finished { title, elapsed_ms } => State {
                playback_busy: false,
                status: "finished in "@ + text::decimal_spec(elapsed_ms as nat) + " ms"@,
                ..self.state()
            },
            PlaybackEvent::Error { path, message } => State {
                playback_busy: false,
                status: message@,
                ..self.state()
            },
            _ => self.state(),
        }
    }

    /// What is shown of the track after an event of the player.
    pub open spec fn playing_after(
        self,
        event: PlaybackEvent,
        now_ms: u64,
        after: NowPlaying,
    ) -> bool {
        let before = self.now_playing;
        match event {
            PlaybackEvent::Loading { title, path } => {
                &&& after.status@ == "decoding"@
                &&& after == (NowPlaying {
                    title,
                    path,
                    status: after.status,
                    started_ms: None,
                    duration_ms: None,
                    ..before
                })
            },
            PlaybackEvent::Playing { title, stream, output } => {
                &&& after.status@ == "playing"@
                &&& after.output@ == output.device_name@ + " / "@ + output.mode@ + " / "@
                    + text::decimal_spec(output.sample_rate as nat) + " Hz"@
                &&& after.source_format@ == messages::rate_and_channels(
                    stream.sample_rate,
                    stream.channel_count,
                ) + commands::bit_depth_spec(stream.bit_depth)
                &&& after == (NowPlaying {
                    title,
                    status: after.status,
                    output: after.output,
                    source_format: after.source_format,
                    duration_ms: stream.duration_ms,
                    started_ms: Some(now_ms),
                    ..before
                })
            },
            PlaybackEvent::Finished { title, elapsed_ms } => {
                &&& after.status@ == "finished"@
                &&& after == (NowPlaying {
                    status: after.status,
                    progress_ms: before.duration_ms,
                    started_ms: None,
                    ..before
                })
            },
            PlaybackEvent::Error { path, message } => {
                &&& after.status@ == "error"@
                &&& after == (NowPlaying { status: after.status, started_ms: None, ..before })
            },
            _ => after == before,
        }
    }

    pub fn apply_playback_event(&mut self, event: PlaybackEvent, now_ms: u64)
        ensures
            final(self).state() == old(self).state_after(event),
            old(self).playing_after(event, now_ms, final(self).now_playing),
            final(self).devices == old(self).devices,
            final(self).library_count == old(self).library_count,
    {
        match event {
            PlaybackEvent::Loading { title, path } => {
                self.now_playing.title = title;
                self.now_playing.path = path;
                self.now_playing.status = "decoding".to_owned();
                self.now_playing.started_ms = None;
                self.now_playing.duration_ms = None;
                self.status = "decoding".to_owned();
            },
            PlaybackEvent::Playing { title, stream, output } => {
                let rate = text::decimal(output.sample_rate as u128);
                let mut shown = text::text5(
                    output.device_name.as_str(),
                    " / ",
                    output.mode,
                    " / ",
                    &rate,
                );
                shown.append(" Hz");
                let source = messages::rate_and_channels_text(
                    stream.sample_rate,
                    stream.channel_count,
                );
                let bits = commands::bit_depth_text(stream.bit_depth);
                self.now_playing.title = title;
                self.now_playing.status = "playing".to_owned();
                self.now_playing.output = shown;
                self.now_playing.source_format = text::text2(&source, &bits);
                self.now_playing.duration_ms = stream.duration_ms;
                self.now_playing.started_ms = Some(now_ms);
                self.status = "playing".to_owned();
            },
            PlaybackEvent::Warning(message) => {
                self.status = text::text2("warning: ", message.as_str());
            },
            PlaybackEvent::Finished { title: _, elapsed_ms } => {
                let elapsed = text::decimal(elapsed_ms);
                self.playback_busy = false;
                self.now_playing.status = "finished".to_owned();
                self.now_playing.progress_ms = self.now_playing.duration_ms;
                self.now_playing.started_ms = None;
                self.status = text::text3("finished in ", &elapsed, " ms");
            },
            PlaybackEvent::Error { path: _, message } => {
                self.playback_busy = false;
                self.now_playing.status = "error".to_owned();
                self.now_playing.started_ms = None;
                self.status = message;
            },
            _ => {},
        }
    }
}

/// What is said of a scan.
pub fn scan_status(summary: &ScanSummary) -> (r: String)
    ensures
        r@ == "scan indexed "@ + text::decimal_spec(summary.indexed_tracks as nat) + " / skipped "@
            + text::decimal_spec(summary.skipped_unchanged as nat) + " / failed "@
            + text::decimal_spec(summary.failed_files as nat),
{
    let mut r = "scan indexed ".to_owned();
    r.append(&text::decimal(summary.indexed_tracks as u128));
    r.append(" / skipped ");
    r.append(&text::decimal(summary.skipped_unchanged as u128));
    r.append(" / failed ");
    r.append(&text::decimal(summary.failed_files as u128));
    r
}

// ---------------------------------------------------------------- laws

/// No key takes the selection off the tracks.
pub proof fn keys_keep_the_selection(state: State, press: KeyPress)
    requires
        state.wf(),
    ensures
        state.after_key(press).0.wf(),
{
}

/// A track is only started while none plays.
pub proof fn one_track_at_a_time(state: State, press: KeyPress)
    requires
        state.playback_busy,
    ensures
        !(state.after_key(press).1 is Play),
{
}

/// A scan is only started while none runs.
pub proof fn one_scan_at_a_time(state: State, press: KeyPress)
    requires
        state.scan_busy,
    ensures
        !(state.after_key(press).1 is Scan),
{
}

// ---------------------------------------------------------------- what is shown

pub fn compact(value: &str, width: usize) -> (r: String)
    ensures
        r@ == text::shortened_spec(value@, width as nat),
{
    text::shortened(value, width)
}

/// How far the track is: `done` of `total`, where `total` is never zero.
#[derive(Debug, Clone, Copy, PartialEq, Eq, Structural)]
pub struct ProgressParts {
    pub done: u64,
    pub total: u64,
}

pub open spec fn ratio_spec(playing: NowPlaying, now_ms: u64) -> ProgressParts {
    match playing.duration_ms {
        Some(duration) => if duration > 0 {
            let progress = match playing.progress(now_ms) {
                Some(progress) => progress,
                None => 0,
            };
            ProgressParts {
                done: if progress < duration {
                    progress
                } else {
                    duration
                },
                total: duration,
            }
        } else {
            ProgressParts { done: 0, total: 1 }
        },
        None => ProgressParts { done: 0, total: 1 },
    }
}

/// The progress never passes the end.
pub proof fn progress_is_clamped(playing: NowPlaying, now_ms: u64)
    ensures
        ratio_spec(playing, now_ms).done <= ratio_spec(playing, now_ms).total,
        0 < ratio_spec(playing, now_ms).total,
{
}

impl TuiApp {
    pub fn progress_ratio(&self, now_ms: u64) -> (r: ProgressParts)
        ensures
            r == ratio_spec(self.now_playing, now_ms),
    {
        match self.now_playing.duration_ms {
            Some(duration) => {
                if duration == 0 {
                    return ProgressParts { done: 0, total: 1 };
                }
                let progress = match self.now_playing.estimated_progress(now_ms) {
                    Some(progress) => progress,
                    None => 0,
                };
                ProgressParts {
                    done: if progress < duration {
                        progress
                    } else {
                        duration
                    },
                    total: duration,
                }
            },
            None => ProgressParts { done: 0, total: 1 },
        }
    }

    pub fn progress_label(&self, now_ms: u64) -> (r: String)
        ensures
            r@ == commands::minutes_spec(
                match self.now_playing.progress(now_ms) {
                    Some(progress) => progress as nat,
                    None => 0,
                },
            ) + " / "@ + commands::minutes_spec(
                match self.now_playing.duration_ms {
                    Some(duration) => duration as nat,
                    None => 0,
                },
            ),
    {
        let progress = match self.now_playing.estimated_progress(now_ms) {
            Some(progress) => progress,
            None => 0,
        };
        let duration = match self.now_playing.duration_ms {
            Some(duration) => duration,
            None => 0,
        };
        let progress = commands::format_duration(progress);
        let duration = commands::format_duration(duration);
        text::text3(&progress, " / ", &duration)
    }

    pub open spec fn prompt_spec(self) -> Seq<char> {
        match self.input_mode {
            InputMode::Browse => self.status@,
            InputMode::Search => "/"@ + self.input@,
            InputMode::Command => ":"@ + self.input@,
        }
    }

    pub fn prompt(&self) -> (r: String)
        ensures
            r@ == self.prompt_spec(),
    {
        match self.input_mode {
            InputMode::Browse => self.status.clone(),
            InputMode::Search => text::text2("/", self.input.as_str()),
            InputMode::Command => text::text2(":", self.input.as_str()),
        }
    }

    pub fn title_line(&self) -> (r: String)
        ensures
            r@ == "ECHO CLI  "@ + match self.input_mode {
                InputMode::Browse => "browse"@,
                InputMode::Search => "search"@,
                InputMode::Command => "command"@,
            } + "  "@ + text::decimal_spec(self.library_count as nat) + " tracks"@,
    {
        let mode = match self.input_mode {
            InputMode::Browse => "browse",
            InputMode::Search => "search",
            InputMode::Command => "command",
        };
        let count = text::decimal(self.library_count as u128);
        text::text5("ECHO CLI  ", mode, "  ", &count, " tracks")
    }

    pub fn library_title(&self) -> (r: String)
        ensures
            r@ == if self.input_mode == InputMode::Search {
                " Library / "@ + self.input@
            } else {
                " Library "@
            },
    {
        if self.input_mode == InputMode::Search {
            text::text2(" Library / ", self.input.as_str())
        } else {
            " Library ".to_owned()
        }
    }

    /// The title and artist of each row of the library.
    pub fn library_rows(&self) -> (r: Vec<(String, String)>)
        ensures
            r@.len() == self.tracks@.len(),
            forall|i: int|
                0 <= i < r@.len() ==> (#[trigger] r@[i]).0@ == text::shortened_spec(
                    self.tracks@[i].title@,
                    34,
                ) && r@[i].1@ == text::shortened_spec(
                    library::text_or(self.tracks@[i].artist, "unknown artist"@),
                    22,
                ),
    {
        let mut r: Vec<(String, String)> = Vec::new();
        for i in 0..self.tracks.len()
            invariant
                r@.len() == i,
                forall|j: int|
                    0 <= j < i ==> (#[trigger] r@[j]).0@ == text::shortened_spec(
                        self.tracks@[j].title@,
                        34,
                    ) && r@[j].1@ == text::shortened_spec(
                        library::text_or(self.tracks@[j].artist, "unknown artist"@),
                        22,
                    ),
        {
            let track = &self.tracks[i];
            let title = compact(track.title.as_str(), 34);
            let artist = compact(library::text_or_default(&track.artist, "unknown artist"), 22);
            r.push((title, artist));
        }
        r
    }

    /// The labels and texts of what plays.
    pub fn now_rows(&self) -> (r: Vec<(&'static str, String)>)
        ensures
            r@.len() == 5,
            r@[0].0@ == "track   "@ && r@[0].1@ == text::shortened_spec(
                self.now_playing.title@,
                56,
            ),
            r@[1].0@ == "state   "@ && r@[1].1@ == self.now_playing.status@,
            r@[2].0@ == "output  "@ && r@[2].1@ == text::shortened_spec(
                self.now_playing.output@,
                58,
            ),
            r@[3].0@ == "source  "@ && r@[3].1@ == self.now_playing.source_format@,
            r@[4].0@ == "path    "@ && r@[4].1@ == text::shortened_spec(self.now_playing.path@, 58),
    {
        let playing = &self.now_playing;
        vec![
            ("track   ", compact(playing.title.as_str(), 56)),
            ("state   ", playing.status.clone()),
            ("output  ", compact(playing.output.as_str(), 58)),
            ("source  ", playing.source_format.clone()),
            ("path    ", compact(playing.path.as_str(), 58)),
        ]
    }

    /// The last five commands, newest first.
    pub fn console_rows(&self) -> (r: Vec<String>)
        ensures
            text::texts(r@) == Seq::new(
                if self.command_history@.len() < 5 {
                    self.command_history@.len()
                } else {
                    5
                },
                |i: int|
                    ":"@ + text::shortened_spec(
                        self.command_history@[self.command_history@.len() - 1 - i]@,
                        64,
                    ),
            ),
    {
        let total = self.command_history.len();
        let count = if total < 5 {
            total
        } else {
            5
        };
        let mut r: Vec<String> = Vec::new();
        for i in 0..count
            invariant
                total == self.command_history@.len(),
                count <= total,
                r@.len() == i,
                forall|j: int|
                    0 <= j < i ==> (#[trigger] r@[j])@ == ":"@ + text::shortened_spec(
                        self.command_history@[total - 1 - j]@,
                        64,
                    ),
        {
            let command = compact(self.command_history[total - 1 - i].as_str(), 64);
            r.push(text::text2(":", &command));
        }
        assert(text::texts(r@) =~= Seq::new(
            if self.command_history@.len() < 5 {
                self.command_history@.len()
            } else {
                5
            },
            |i: int|
                ":"@ + text::shortened_spec(
                    self.command_history@[self.command_history@.len() - 1 - i]@,
                    64,
                ),
        ));
        r
    }

    /// The mark and name of each device.
    pub fn device_rows(&self) -> (r: Vec<(&'static str, String)>)
        ensures
            r@.len() == self.devices@.len(),
            forall|i: int|
                0 <= i < r@.len() ==> (#[trigger] r@[i]).0@ == (if self.devices@[i].is_default {
                    "* "@
                } else {
                    "  "@
                }) && r@[i].1@ == text::shortened_spec(self.devices@[i].name@, 32),
    {
        let mut r: Vec<(&'static str, String)> = Vec::new();
        for i in 0..self.devices.len()
            invariant
                r@.len() == i,
                forall|j: int|
                    0 <= j < i ==> (#[trigger] r@[j]).0@ == (if self.devices@[j].is_default {
                        "* "@
                    } else {
                        "  "@
                    }) && r@[j].1@ == text::shortened_spec(self.devices@[j].name@, 32),
        {
            let mark = if self.devices[i].is_default {
                "* "
            } else {
                "  "
            };
            r.push((mark, compact(self.devices[i].name.as_str(), 32)));
        }
        r
    }

    /// What is written over the view while something is under way.
    pub fn busy_text(&self) -> (r: Option<&'static str>)
        ensures
            match r {
                Some(line) => (self.scan_busy || self.playback_busy) && line@ == if self.scan_busy {
                    "scanning"@
                } else {
                    "playing"@
                },
                None => !self.scan_busy && !self.playback_busy,
            },
    {
        if self.scan_busy {
            Some("scanning")
        } else if self.playback_busy {
            Some("playing")
        } else {
            None
        }
    }
}

// ---------------------------------------------------------------- what the keys do

/// Down goes to the track below and up to the one above, and both stop at the ends.
pub proof fn arrows_move_by_one(state: State, control: bool, modifiers: u8)
    requires
        state.wf(),
        state.tracks.len() > 0,
        state.input_mode != InputMode::Command,
    ensures
        ({
            let at = |key: Key| state.after_key(KeyPress { key, control, modifiers });
            &&& at(Key::Down).0.selected == if state.selected + 1 < state.tracks.len() {
                state.selected + 1
            } else {
                state.selected
            }
            &&& at(Key::Up).0.selected == if state.selected > 0 {
                state.selected - 1
            } else {
                0
            }
            &&& at(Key::Down).0.tracks == state.tracks && at(Key::Up).0.tracks == state.tracks
            &&& at(Key::Down).1 == Action::Nothing && at(Key::Up).1 == Action::Nothing
        }),
{
}

/// While browsing, Enter plays the selected track, `n` the one below it and `p` the one above it;
/// `j` and `k` only go there.
pub proof fn browse_keys_play_and_move(state: State, control: bool, modifiers: u8)
    requires
        state.wf(),
        state.tracks.len() > 0,
        state.input_mode == InputMode::Browse,
        !state.playback_busy,
    ensures
        ({
            let at = |key: Key| state.after_key(KeyPress { key, control, modifiers });
            let below = if state.selected + 1 < state.tracks.len() {
                state.selected + 1
            } else {
                state.selected
            };
            let above = if state.selected > 0 {
                state.selected - 1
            } else {
                0
            };
            &&& at(Key::Enter).1 == Action::Play(state.tracks[state.selected])
            &&& at(Key::Char('n')).1 == Action::Play(state.tracks[below])
            &&& at(Key::Char('p')).1 == Action::Play(state.tracks[above])
            &&& at(Key::Enter).0.selected == state.selected
            &&& at(Key::Char('n')).0.selected == below && at(Key::Char('p')).0.selected == above
            &&& at(Key::Enter).0.playback_busy && at(Key::Char('n')).0.playback_busy
            &&& at(Key::Char('j')).0.selected == below && at(Key::Char('j')).1 == Action::Nothing
            &&& at(Key::Char('k')).0.selected == above && at(Key::Char('k')).1 == Action::Nothing
        }),
{
}

/// The keys that open something: a slash the search, a colon the commands, `d` the devices, which it
/// also closes; `q` leaves, and so does Control with `c` wherever one is.
pub proof fn browse_keys_open_and_leave(state: State, control: bool, modifiers: u8)
    requires
        state.input_mode == InputMode::Browse,
    ensures
        ({
            let at = |c: char|
                state.after_key(KeyPress { key: Key::Char(c), control, modifiers });
            &&& at('/').0.input_mode == InputMode::Search && at('/').0.input.len() == 0
            &&& at(':').0.input_mode == InputMode::Command && at(':').0.input.len() == 0
            &&& at('d').0.device_panel_visible == !state.device_panel_visible
            &&& at('q').0.should_quit
            &&& at('/').1 == Action::Nothing && at(':').1 == Action::Nothing && at('d').1
                == Action::Nothing && at('q').1 == Action::Nothing
            &&& !state.should_quit ==> !at('/').0.should_quit && !at('d').0.should_quit
        }),
{
}

pub proof fn control_c_leaves(state: State, modifiers: u8)
    ensures
        state.after_key(KeyPress { key: Key::Char('c'), control: true, modifiers }).0.should_quit,
{
}

/// In the search every character is put at the end of the text and searched for, Backspace takes
/// the last one, Enter plays what is selected, and Escape shows the library again.
pub proof fn search_keys_edit_and_search(state: State, c: char, modifiers: u8)
    requires
        state.wf(),
        state.input_mode == InputMode::Search,
    ensures
        ({
            let at = |key: Key| state.after_key(KeyPress { key, control: false, modifiers });
            &&& at(Key::Char(c)).0.input == state.input.push(c) && at(Key::Char(c)).1
                == Action::Search
            &&& at(Key::Char(c)).0.input_mode == InputMode::Search
            &&& state.input.len() > 0 ==> at(Key::Backspace).0.input == state.input.take(
                state.input.len() - 1,
            )
            &&& at(Key::Backspace).1 == Action::Search
            &&& at(Key::Esc).0.input_mode == InputMode::Browse && at(Key::Esc).0.input.len() == 0
                && at(Key::Esc).1 == Action::Refresh
            &&& at(Key::Enter).0.input_mode == InputMode::Browse
            &&& state.tracks.len() > 0 && !state.playback_busy ==> at(Key::Enter).1
                == Action::Play(state.tracks[state.selected])
        }),
{
    if state.input.len() > 0 {
        assert(state.input.drop_last() =~= state.input.take(state.input.len() - 1));
    }
}

/// Commands: the folder behind the word is scanned, and each other word does what it says.
pub proof fn commands_do_what_they_say(state: State, folder: Seq<char>)
    requires
        folder.len() > 0,
        !text::white_space(folder[0]),
        !text::white_space(folder.last()),
    ensures
        !state.scan_busy ==> state.after_command("scan"@ + " "@ + folder).1 == Action::Scan(folder),
        state.after_command("scan"@).1 == Action::Nothing,
        state.after_command("devices"@).1 == Action::ListDevices,
        state.after_command("devices"@).0.device_panel_visible,
        state.after_command("doctor"@).1 == Action::Doctor,
        state.after_command("quit"@).0.should_quit,
        state.after_command("q"@).0.should_quit,
        state.after_command("clear"@).0.command_history.len() == 0,
        state.after_command("doctor"@).0.command_history == state.command_history.push("doctor"@),
{
    reveal_strlit("scan");
    reveal_strlit("devices");
    reveal_strlit("doctor");
    reveal_strlit("quit");
    reveal_strlit("q");
    reveal_strlit("clear");
    text::first_word_and_rest("scan"@, folder);
    text::single_word_is_the_first("scan"@);
    text::single_word_is_the_first("devices"@);
    text::single_word_is_the_first("doctor"@);
    text::single_word_is_the_first("quit"@);
    text::single_word_is_the_first("q"@);
    text::single_word_is_the_first("clear"@);
    assert("scan"@[0] == 's' && "devices"@.len() == 7 && "doctor"@.len() == 6 && "quit"@.len() == 4
        && "q"@.len() == 1 && "clear"@.len() == 5 && "scan"@.len() == 4 && "quit"@[0] == 'q');
}

/// A track that has come to its end, or failed, makes way for the next; what only tells something
/// does not.
pub proof fn ended_tracks_make_way(app: TuiApp, event: PlaybackEvent)
    ensures
        event is Finished || event is Error ==> !app.state_after(event).playback_busy,
        !(event is Finished || event is Error) ==> app.state_after(event).playback_busy
            == app.playback_busy,
        app.state_after(event).tracks == app.tracks@,
        app.state_after(event).selected == app.selected,
{
}

/// Progress is the time since the start, as long as the track runs, and never more than its length.
pub proof fn progress_is_the_time_since_the_start(playing: NowPlaying, now_ms: u64)
    requires
        playing.started_ms is Some,
        playing.started_ms->0 <= now_ms,
    ensures
        playing.progress(now_ms) == Some((now_ms - playing.started_ms->0) as u64),
        playing.duration_ms matches Some(length) ==> length > 0 ==> ratio_spec(
            playing,
            now_ms,
        ).total == length && (ratio_spec(playing, now_ms).done == now_ms - playing.started_ms->0 || (
        ratio_spec(playing, now_ms).done == length && length < now_ms - playing.started_ms->0)),
{
}

/// Before what is typed stands the sign of what it is for; otherwise the state is told.
pub proof fn prompts_tell_what_is_typed(app: TuiApp)
    ensures
        app.input_mode == InputMode::Browse ==> app.prompt_spec() == app.status@,
        app.input_mode == InputMode::Search ==> app.prompt_spec() == "/"@ + app.input@,
        app.input_mode == InputMode::Command ==> app.prompt_spec() == ":"@ + app.input@,
{
}

/// A track that plays runs from now on, with its own length; one that has ended stands at its end,
/// and one that loads or failed stands still.
pub proof fn playing_tracks_run(
    app: TuiApp,
    event: PlaybackEvent,
    now_ms: u64,
    after: NowPlaying,
)
    requires
        app.playing_after(event, now_ms, after),
    ensures
        event matches PlaybackEvent::Loading { title, path } ==> after.title == title && after.path
            == path && after.started_ms is None && after.duration_ms is None,
        event matches PlaybackEvent::Playing { title, stream, output } ==> after.title == title
            && after.path == app.now_playing.path && after.started_ms == Some(now_ms)
            && after.duration_ms == stream.duration_ms && text::starts_with_spec(
            after.output@,
            output.device_name@ + " / "@ + output.mode@,
        ) && text::starts_with_spec(
            after.source_format@,
            text::decimal_spec(stream.sample_rate as nat) + " Hz / "@ + text::decimal_spec(
                stream.channel_count as nat,
            ) + "ch"@,
        ),
        event matches PlaybackEvent::Finished { title, elapsed_ms } ==> after.started_ms is None
            && after.progress_ms == app.now_playing.duration_ms && after.title
            == app.now_playing.title && after.progress(now_ms) == app.now_playing.duration_ms,
        event matches PlaybackEvent::Error { path, message } ==> after.started_ms is None
            && after.progress_ms == app.now_playing.progress_ms && after.duration_ms
            == app.now_playing.duration_ms,
        event is Warning || event is Paused || event is Resumed || event is Stopped ==> after
            == app.now_playing,
{
    if let PlaybackEvent::Playing { title, stream, output } = event {
        let head = output.device_name@ + " / "@ + output.mode@;
        let rate = text::decimal_spec(output.sample_rate as nat);
        text::lemma_regroup(head, " / "@, rate);
        text::lemma_regroup(head, " / "@ + rate, " Hz"@);
        text::begins_and_ends(head, " / "@ + rate + " Hz"@);
        text::begins_and_ends(
            messages::rate_and_channels(stream.sample_rate, stream.channel_count),
            commands::bit_depth_spec(stream.bit_depth),
        );
    }
}

} // verus!
