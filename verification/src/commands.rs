//! The commands of the command line and what they print.

use crate::app::{APP_NAME, APP_VERSION, SUPPORTED_EXTENSIONS};
use crate::device;
use crate::device::AudioDevice;
use crate::library;
use crate::playback::PlaybackEvent;
use crate::scanner::ScanSummary;
use crate::search::SearchResult;
use crate::shell::info;
use crate::shell::messages;
use crate::text;
use vstd::prelude::*;

verus! {

#[derive(Debug, PartialEq, Eq)]
pub struct Cli {
    pub command: Option<Command>,
}

#[derive(Debug, PartialEq, Eq)]
pub enum Command {
    /// Open the interactive shell.
    Shell,
    /// Another name for the shell.
    Tui,
    /// Scan a music folder into the local library database.
    Scan { folder: String },
    /// Search the indexed library.
    Search { query: String },
    /// Play a path or indexed search result.
    Play { query_or_path: String },
    /// List audio devices.
    Devices,
    /// Save the preferred output device.
    UseDevice { device_id_or_name: String },
    /// Print runtime, database, and audio backend diagnostics.
    Doctor,
    /// Print version information.
    Version,
}

impl Cli {
    /// The shell opens without a command, and under either of its names.
    pub fn opens_shell(&self) -> (r: bool)
        ensures
            r == match self.command {
                None => true,
                Some(Command::Shell) => true,
                Some(Command::Tui) => true,
                _ => false,
            },
    {
        match &self.command {
            None => true,
            Some(Command::Shell) => true,
            Some(Command::Tui) => true,
            _ => false,
        }
    }
}

// ---------------------------------------------------------------- texts

pub fn truncate(value: &str, width: usize) -> (r: String)
    ensures
        r@ == text::shortened_spec(value@, width as nat),
{
    text::shortened(value, width)
}

/// Minutes and seconds.
pub open spec fn minutes_spec(duration_ms: nat) -> Seq<char> {
    let total = duration_ms / 1000;
    text::decimal_spec(total / 60) + ":"@ + info::two_digits(total % 60)
}

pub fn format_duration(duration_ms: u64) -> (r: String)
    ensures
        r@ == minutes_spec(duration_ms as nat),
{
    let total_seconds = duration_ms / 1000;
    let minutes = text::decimal((total_seconds / 60) as u128);
    let seconds = info::two_digit_text(total_seconds % 60);
    text::text3(&minutes, ":", &seconds)
}

pub fn version_line() -> (r: String)
    ensures
        r@ == APP_NAME@ + " "@ + APP_VERSION@,
{
    text::text3(APP_NAME, " ", APP_VERSION)
}

// ---------------------------------------------------------------- scan

pub fn scan_header_lines(folder: &str, database_path: &str) -> (r: Vec<String>)
    ensures
        text::texts(r@) == seq![
            "ECHO CLI  scan"@,
            "  folder  "@ + folder@,
            "  db      "@ + database_path@,
        ],
{
    let r = vec![
        "ECHO CLI  scan".to_owned(),
        text::text2("  folder  ", folder),
        text::text2("  db      ", database_path),
    ];
    assert(text::texts(r@) =~= seq![
        "ECHO CLI  scan"@,
        "  folder  "@ + folder@,
        "  db      "@ + database_path@,
    ]);
    r
}

pub open spec fn scan_report_spec(summary: ScanSummary) -> Seq<Seq<char>> {
    seq![
        ""@,
        "indexed   "@ + text::decimal_spec(summary.indexed_tracks as nat),
        "scanned   "@ + text::decimal_spec(summary.scanned_files as nat),
        "skipped   "@ + text::decimal_spec(summary.skipped_unchanged as nat),
        "failed    "@ + text::decimal_spec(summary.failed_files as nat),
        "removed   "@ + text::decimal_spec(summary.removed_missing as nat),
        "elapsed   "@ + text::decimal_spec(summary.elapsed_ms as nat) + " ms"@,
    ]
}

pub fn scan_report_lines(summary: &ScanSummary) -> (r: Vec<String>)
    ensures
        text::texts(r@) == scan_report_spec(*summary),
{
    let r = vec![
        "".to_owned(),
        text::text2("indexed   ", &text::decimal(summary.indexed_tracks as u128)),
        text::text2("scanned   ", &text::decimal(summary.scanned_files as u128)),
        text::text2("skipped   ", &text::decimal(summary.skipped_unchanged as u128)),
        text::text2("failed    ", &text::decimal(summary.failed_files as u128)),
        text::text2("removed   ", &text::decimal(summary.removed_missing as u128)),
        text::text3("elapsed   ", &text::decimal(summary.elapsed_ms), " ms"),
    ];
    assert(text::texts(r@) =~= scan_report_spec(*summary));
    r
}

// ---------------------------------------------------------------- search

pub open spec fn search_line(index: nat, result: SearchResult) -> Seq<char> {
    text::pad_start_spec(text::decimal_spec(index), 2, ' ') + ". "@ + text::pad_end_spec(
        text::shortened_spec(result.track.title@, 42),
        42,
    ) + "  "@ + text::pad_end_spec(
        text::shortened_spec(library::text_or(result.track.artist, "unknown artist"@), 28),
        28,
    ) + "  "@ + result.track.path@
}

pub open spec fn search_report_spec(query: Seq<char>, results: Seq<SearchResult>) -> Seq<Seq<char>> {
    seq!["ECHO CLI  search  /"@ + query] + if results.len() == 0 {
        seq!["no matches"@]
    } else {
        Seq::new(results.len(), |i: int| search_line((i + 1) as nat, results[i]))
    }
}

pub fn search_report_lines(query: &str, results: &[SearchResult]) -> (r: Vec<String>)
    ensures
        text::texts(r@) == search_report_spec(query@, results@),
{
    let ghost expected = search_report_spec(query@, results@);
    let mut r = vec![text::text2("ECHO CLI  search  /", query)];
    if results.len() == 0 {
        r.push("no matches".to_owned());
        assert(text::texts(r@) =~= expected);
        return r;
    }
    for i in 0..results.len()
        invariant
            results@.len() > 0,
            expected == search_report_spec(query@, results@),
            r@.len() == i + 1,
            forall|j: int| 0 <= j < i + 1 ==> (#[trigger] r@[j])@ == expected[j],
    {
        let track = &results[i].track;
        let number = text::decimal(i as u128 + 1);
        let mut line = text::pad_start(&number, 2, ' ');
        line.append(". ");
        let title = truncate(track.title.as_str(), 42);
        line.append(&text::pad_end(&title, 42));
        line.append("  ");
        let artist = truncate(library::text_or_default(&track.artist, "unknown artist"), 28);
        line.append(&text::pad_end(&artist, 28));
        line.append("  ");
        line.append(track.path.as_str());
        assert(line@ == search_line((i + 1) as nat, results@[i as int]));
        r.push(line);
    }
    assert(text::texts(r@) =~= expected);
    r
}

// ---------------------------------------------------------------- devices

pub open spec fn device_line(device: device::Device) -> Seq<char> {
    "- "@ + device.name + " ["@ + device.id + "] "@ + if device.is_default {
        "default"@
    } else {
        ""@
    }
}

pub fn device_report_lines(devices: &[AudioDevice]) -> (r: Vec<String>)
    ensures
        text::texts(r@) == seq!["ECHO CLI  devices"@] + Seq::new(
            devices@.len(),
            |i: int| device_line(devices@[i]@),
        ),
{
    let ghost expected = seq!["ECHO CLI  devices"@] + Seq::new(
        devices@.len(),
        |i: int| device_line(devices@[i]@),
    );
    let mut r = vec!["ECHO CLI  devices".to_owned()];
    for i in 0..devices.len()
        invariant
            expected == seq!["ECHO CLI  devices"@] + Seq::new(
                devices@.len(),
                |i: int| device_line(devices@[i]@),
            ),
            r@.len() == i + 1,
            forall|j: int| 0 <= j < i + 1 ==> (#[trigger] r@[j])@ == expected[j],
    {
        let device = &devices[i];
        let mut line = text::text5(
            "- ",
            device.name.as_str(),
            " [",
            device.id.as_str(),
            "] ",
        );
        line.append(
            if device.is_default {
                "default"
            } else {
                ""
            },
        );
        r.push(line);
    }
    assert(text::texts(r@) =~= expected);
    r
}

pub fn use_device_lines(device_id_or_name: &str) -> (r: Vec<String>)
    ensures
        text::texts(r@) == seq![
            "device preference is a Phase 4 feature: "@ + device_id_or_name@,
            "WASAPI device switching is intentionally not wired in Phase 3."@,
        ],
{
    let r = vec![
        text::text2("device preference is a Phase 4 feature: ", device_id_or_name),
        "WASAPI device switching is intentionally not wired in Phase 3.".to_owned(),
    ];
    assert(text::texts(r@) =~= seq![
        "device preference is a Phase 4 feature: "@ + device_id_or_name@,
        "WASAPI device switching is intentionally not wired in Phase 3."@,
    ]);
    r
}

// ---------------------------------------------------------------- doctor

/// What the diagnostics are about.
#[derive(Debug)]
pub struct DoctorFacts {
    pub os: String,
    pub arch: String,
    pub backend: &'static str,
    pub exclusive: &'static str,
    pub default_device: String,
    pub devices: Vec<AudioDevice>,
    pub database_path: String,
    pub config_dir: String,
    pub cache_dir: String,
    pub track_count: u64,
    pub recent_errors: Vec<(String, String)>,
}

/// The supported formats, with commas.
pub open spec fn formats_spec() -> Seq<char> {
    text::joined_spec(text::literals(SUPPORTED_EXTENSIONS@), ", "@)
}

pub open spec fn doctor_device_line(device: device::Device) -> Seq<char> {
    "    - "@ + device.name + if device.is_default {
        " (default)"@
    } else {
        ""@
    }
}

pub open spec fn doctor_error_line(path: Seq<char>, error: Seq<char>) -> Seq<char> {
    "    - "@ + text::shortened_spec(path, 72) + " :: "@ + text::shortened_spec(error, 72)
}

pub open spec fn doctor_spec(facts: DoctorFacts) -> Seq<Seq<char>> {
    let head = seq![
        "ECHO CLI  doctor"@,
        "  os                     "@ + facts.os@ + " "@ + facts.arch@,
        "  audio backend          "@ + facts.backend@,
        "  wasapi exclusive       "@ + facts.exclusive@,
        "  default output device  "@ + facts.default_device@,
        "  available devices"@,
    ];
    let devices = Seq::new(
        facts.devices@.len(),
        |i: int| doctor_device_line(facts.devices@[i]@),
    );
    let middle = seq![
        "  database path          "@ + facts.database_path@,
        "  config path            "@ + facts.config_dir@,
        "  cache path             "@ + facts.cache_dir@,
        "  library tracks         "@ + text::decimal_spec(facts.track_count as nat),
        "  supported formats      "@ + formats_spec(),
    ];
    let errors = if facts.recent_errors@.len() == 0 {
        seq!["  recent scan errors     none"@]
    } else {
        seq!["  recent scan errors"@] + Seq::new(
            facts.recent_errors@.len(),
            |i: int| doctor_error_line(facts.recent_errors@[i].0@, facts.recent_errors@[i].1@),
        )
    };
    head + devices + middle + errors
}

fn doctor_device_lines(devices: &[AudioDevice]) -> (r: Vec<String>)
    ensures
        text::texts(r@) == Seq::new(devices@.len(), |i: int| doctor_device_line(devices@[i]@)),
{
    let mut r: Vec<String> = Vec::new();
    for i in 0..devices.len()
        invariant
            r@.len() == i,
            forall|j: int| 0 <= j < i ==> (#[trigger] r@[j])@ == doctor_device_line(devices@[j]@),
    {
        r.push(
            text::text3(
                "    - ",
                devices[i].name.as_str(),
                if devices[i].is_default {
                    " (default)"
                } else {
                    ""
                },
            ),
        );
    }
    assert(text::texts(r@) =~= Seq::new(
        devices@.len(),
        |i: int| doctor_device_line(devices@[i]@),
    ));
    r
}

fn doctor_error_lines(errors: &[(String, String)]) -> (r: Vec<String>)
    ensures
        text::texts(r@) == Seq::new(
            errors@.len(),
            |i: int| doctor_error_line(errors@[i].0@, errors@[i].1@),
        ),
{
    let mut r: Vec<String> = Vec::new();
    for i in 0..errors.len()
        invariant
            r@.len() == i,
            forall|j: int|
                0 <= j < i ==> (#[trigger] r@[j])@ == doctor_error_line(
                    errors@[j].0@,
                    errors@[j].1@,
                ),
    {
        let path = truncate(errors[i].0.as_str(), 72);
        let error = truncate(errors[i].1.as_str(), 72);
        r.push(text::text4("    - ", &path, " :: ", &error));
    }
    assert(text::texts(r@) =~= Seq::new(
        errors@.len(),
        |i: int| doctor_error_line(errors@[i].0@, errors@[i].1@),
    ));
    r
}

pub fn doctor_lines(facts: &DoctorFacts) -> (r: Vec<String>)
    ensures
        text::texts(r@) == doctor_spec(*facts),
{
    let mut r = vec![
        "ECHO CLI  doctor".to_owned(),
        text::text4(
            "  os                     ",
            facts.os.as_str(),
            " ",
            facts.arch.as_str(),
        ),
        text::text2("  audio backend          ", facts.backend),
        text::text2("  wasapi exclusive       ", facts.exclusive),
        text::text2("  default output device  ", facts.default_device.as_str()),
        "  available devices".to_owned(),
    ];
    let ghost head = text::texts(r@);
    let mut devices = doctor_device_lines(&facts.devices);
    let ghost device_part = text::texts(devices@);
    r.append(&mut devices);
    assert(text::texts(r@) =~= head + device_part);
    let ghost so_far = text::texts(r@);
    let count = text::decimal(facts.track_count as u128);
    let formats = text::join(&SUPPORTED_EXTENSIONS, ", ");
    let mut middle = vec![
        text::text2("  database path          ", facts.database_path.as_str()),
        text::text2("  config path            ", facts.config_dir.as_str()),
        text::text2("  cache path             ", facts.cache_dir.as_str()),
        text::text2("  library tracks         ", &count),
        text::text2("  supported formats      ", &formats),
    ];
    let ghost middle_part = text::texts(middle@);
    r.append(&mut middle);
    assert(text::texts(r@) =~= so_far + middle_part);
    let ghost before_errors = text::texts(r@);
    if facts.recent_errors.len() == 0 {
        r.push("  recent scan errors     none".to_owned());
    } else {
        r.push("  recent scan errors".to_owned());
        let mut errors = doctor_error_lines(&facts.recent_errors);
        let ghost error_part = text::texts(errors@);
        let ghost with_title = text::texts(r@);
        r.append(&mut errors);
        assert(text::texts(r@) =~= with_title + error_part);
    }
    assert(text::texts(r@) =~= doctor_spec(*facts));
    r
}

/// The diagnostics as the shell prints them.
pub open spec fn shell_doctor_spec(facts: DoctorFacts) -> Seq<Seq<char>> {
    seq![
        "os                  "@ + facts.os@ + " "@ + facts.arch@,
        "audio backend       "@ + facts.backend@,
        "wasapi exclusive    "@ + facts.exclusive@,
        "default device      "@ + facts.default_device@,
        "database            "@ + facts.database_path@,
        "tracks              "@ + text::decimal_spec(facts.track_count as nat),
        "formats             "@ + formats_spec(),
    ]
}

pub fn shell_doctor_lines(facts: &DoctorFacts) -> (r: Vec<String>)
    ensures
        text::texts(r@) == shell_doctor_spec(*facts),
{
    let count = text::decimal(facts.track_count as u128);
    let formats = text::join(&SUPPORTED_EXTENSIONS, ", ");
    let r = vec![
        text::text4("os                  ", facts.os.as_str(), " ", facts.arch.as_str()),
        text::text2("audio backend       ", facts.backend),
        text::text2("wasapi exclusive    ", facts.exclusive),
        text::text2("default device      ", facts.default_device.as_str()),
        text::text2("database            ", facts.database_path.as_str()),
        text::text2("tracks              ", &count),
        text::text2("formats             ", &formats),
    ];
    assert(text::texts(r@) =~= shell_doctor_spec(*facts));
    r
}

// ---------------------------------------------------------------- playback

pub open spec fn bit_depth_spec(bits: Option<u32>) -> Seq<char> {
    match bits {
        Some(bits) => " / "@ + text::decimal_spec(bits as nat) + "-bit"@,
        None => ""@,
    }
}

/// The bit depth behind the rate and channels, where it is known.
pub fn bit_depth_text(bits: Option<u32>) -> (r: String)
    ensures
        r@ == bit_depth_spec(bits),
{
    match bits {
        Some(bits) => {
            let number = text::decimal(bits as u128);
            text::text3(" / ", &number, "-bit")
        },
        None => "".to_owned(),
    }
}

/// What the command line says of a playback event; pausing, resuming and stopping, which it cannot
/// ask for, go unsaid.
pub open spec fn event_report_spec(event: PlaybackEvent) -> Seq<Seq<char>> {
    match event {
        PlaybackEvent::Loading { title, path } => seq![
            "ECHO  playing"@,
            "  track    "@ + title@,
            "  source   "@ + path@,
            "  status   decoding..."@,
        ],
        PlaybackEvent::Playing { title, stream, output } => {
            let head = seq![
                "  output   "@ + output.device_name@ + " / "@ + output.mode@,
                "  format   "@ + messages::rate_and_channels(
                    output.sample_rate,
                    output.channel_count,
                ) + " / "@ + output.sample_format@,
                "  buffer   "@ + output.buffer_size@,
                "  source   "@ + messages::rate_and_channels(
                    stream.sample_rate,
                    stream.channel_count,
                ) + bit_depth_spec(stream.bit_depth),
            ];
            let length = match stream.duration_ms {
                Some(duration) => seq!["  length   "@ + minutes_spec(duration as nat)],
                None => Seq::empty(),
            };
            head + length + seq!["  status   playing"@]
        },
        PlaybackEvent::Warning(message) => seq!["  warning  "@ + message@],
        PlaybackEvent::Paused { title } => Seq::empty(),
        PlaybackEvent::Resumed { title } => Seq::empty(),
        PlaybackEvent::Stopped { title, elapsed_ms } => Seq::empty(),
        PlaybackEvent::Finished { title, elapsed_ms } => seq![
            "  status   finished in "@ + text::decimal_spec(elapsed_ms as nat) + " ms"@,
        ],
        PlaybackEvent::Error { path, message } => seq![
            "  status   failed"@,
            "  error    "@ + message@,
        ],
    }
}

pub fn playback_report_lines(event: &PlaybackEvent) -> (r: Vec<String>)
    ensures
        text::texts(r@) == event_report_spec(*event),
{
    let r = match event {
        PlaybackEvent::Loading { title, path } => vec![
            "ECHO  playing".to_owned(),
            text::text2("  track    ", title.as_str()),
            text::text2("  source   ", path.as_str()),
            "  status   decoding...".to_owned(),
        ],
        PlaybackEvent::Playing { title: _, stream, output } => {
            let format = messages::rate_and_channels_text(
                output.sample_rate,
                output.channel_count,
            );
            let source = messages::rate_and_channels_text(
                stream.sample_rate,
                stream.channel_count,
            );
            let bits = bit_depth_text(stream.bit_depth);
            let mut lines = vec![
                text::text4(
                    "  output   ",
                    output.device_name.as_str(),
                    " / ",
                    output.mode,
                ),
                text::text4("  format   ", &format, " / ", output.sample_format.as_str()),
                text::text2("  buffer   ", output.buffer_size.as_str()),
                text::text3("  source   ", &source, &bits),
            ];
            if let Some(duration) = stream.duration_ms {
                let length = format_duration(duration);
                lines.push(text::text2("  length   ", &length));
            }
            lines.push("  status   playing".to_owned());
            lines
        },
        PlaybackEvent::Warning(message) => vec![text::text2("  warning  ", message.as_str())],
        PlaybackEvent::Paused { title: _ } => Vec::new(),
        PlaybackEvent::Resumed { title: _ } => Vec::new(),
        PlaybackEvent::Stopped { title: _, elapsed_ms: _ } => Vec::new(),
        PlaybackEvent::Finished { title: _, elapsed_ms } => {
            let elapsed = text::decimal(*elapsed_ms);
            vec![text::text3("  status   finished in ", &elapsed, " ms")]
        },
        PlaybackEvent::Error { path: _, message } => vec![
            "  status   failed".to_owned(),
            text::text2("  error    ", message.as_str()),
        ],
    };
    assert(text::texts(r@) =~= event_report_spec(*event));
    r
}

/// Each count of a scan stands in the line of its name.
pub proof fn reported_counts_stand_behind_their_names(summary: ScanSummary)
    ensures
        scan_report_spec(summary)[1] == "indexed   "@ + text::decimal_spec(
            summary.indexed_tracks as nat,
        ),
        scan_report_spec(summary)[2] == "scanned   "@ + text::decimal_spec(
            summary.scanned_files as nat,
        ),
        scan_report_spec(summary)[3] == "skipped   "@ + text::decimal_spec(
            summary.skipped_unchanged as nat,
        ),
        scan_report_spec(summary)[4] == "failed    "@ + text::decimal_spec(
            summary.failed_files as nat,
        ),
        scan_report_spec(summary)[5] == "removed   "@ + text::decimal_spec(
            summary.removed_missing as nat,
        ),
{
}

/// The results of a search are reported one by one in their order, each with its number and path.
pub proof fn reported_results_keep_their_order(
    query: Seq<char>,
    results: Seq<SearchResult>,
    i: int,
)
    requires
        0 <= i < results.len(),
    ensures
        search_report_spec(query, results).len() == results.len() + 1,
        text::ends_with_spec(search_report_spec(query, results)[i + 1], results[i].track.path@),
        text::contains_spec(
            search_report_spec(query, results)[i + 1],
            text::decimal_spec((i + 1) as nat) + ". "@ + text::shortened_spec(
                results[i].track.title@,
                42,
            ),
        ),
{
    let line = search_report_spec(query, results)[i + 1];
    let path = results[i].track.path@;
    assert(line.skip(line.len() - path.len()) =~= path);
    let number = text::decimal_spec((i + 1) as nat);
    let padded = text::pad_start_spec(number, 2, ' ');
    let title = text::shortened_spec(results[i].track.title@, 42);
    let part = number + ". "@ + title;
    let at = padded.len() - number.len();
    assert(line.subrange(at, at + part.len()) =~= part);
    assert(text::occurs_at(line, part, at));
}

/// The report of a playback tells each fact behind its name; pauses, resumptions and stops are not
/// reported.
pub proof fn playbacks_are_reported_with_their_facts(
    title: String,
    path: String,
    message: String,
    elapsed_ms: u128,
)
    ensures
        event_report_spec(PlaybackEvent::Loading { title, path })[1] == "  track    "@ + title@,
        event_report_spec(PlaybackEvent::Loading { title, path })[2] == "  source   "@ + path@,
        event_report_spec(PlaybackEvent::Warning(message)) == seq!["  warning  "@ + message@],
        event_report_spec(PlaybackEvent::Error { path, message })[1] == "  error    "@ + message@,
        text::ends_with_spec(
            event_report_spec(PlaybackEvent::Finished { title, elapsed_ms })[0],
            text::decimal_spec(elapsed_ms as nat) + " ms"@,
        ),
        event_report_spec(PlaybackEvent::Paused { title }).len() == 0,
        event_report_spec(PlaybackEvent::Resumed { title }).len() == 0,
        event_report_spec(PlaybackEvent::Stopped { title, elapsed_ms }).len() == 0,
{
    let head = "  status   finished in "@;
    let time = text::decimal_spec(elapsed_ms as nat) + " ms"@;
    text::begins_and_ends(head, time);
    text::lemma_regroup(head, text::decimal_spec(elapsed_ms as nat), " ms"@);
}

/// What the doctor found stands behind its name: one line for each device, in their order, before
/// the paths, and one for each error after them.
pub proof fn findings_stand_behind_their_names(facts: DoctorFacts, i: int, j: int)
    requires
        0 <= i < facts.devices@.len(),
        0 <= j < facts.recent_errors@.len(),
    ensures
        ({
            let lines = doctor_spec(facts);
            let n = facts.devices@.len() as int;
            &&& lines.len() == 12 + n + facts.recent_errors@.len()
            &&& lines[4] == "  default output device  "@ + facts.default_device@
            &&& text::starts_with_spec(lines[6 + i], "    - "@ + facts.devices@[i].name@)
            &&& lines[6 + n] == "  database path          "@ + facts.database_path@
            &&& lines[7 + n] == "  config path            "@ + facts.config_dir@
            &&& lines[8 + n] == "  cache path             "@ + facts.cache_dir@
            &&& lines[9 + n] == "  library tracks         "@ + text::decimal_spec(
                facts.track_count as nat,
            )
            &&& text::starts_with_spec(
                lines[12 + n + j],
                "    - "@ + text::shortened_spec(facts.recent_errors@[j].0@, 72) + " :: "@,
            )
            &&& shell_doctor_spec(facts)[3] == "default device      "@ + facts.default_device@
            &&& shell_doctor_spec(facts)[4] == "database            "@ + facts.database_path@
        }),
{
    let name = "    - "@ + facts.devices@[i].name@;
    text::begins_and_ends(name, " (default)"@);
    text::begins_and_ends(name, ""@);
    let path = "    - "@ + text::shortened_spec(facts.recent_errors@[j].0@, 72) + " :: "@;
    text::begins_and_ends(
        path,
        text::shortened_spec(facts.recent_errors@[j].1@, 72),
    );
}

/// Lengths are told in minutes and seconds.
pub proof fn lengths_are_minutes_and_seconds(minutes: nat, seconds: nat, rest_ms: nat)
    requires
        seconds < 60,
        rest_ms < 1000,
    ensures
        minutes_spec((minutes * 60 + seconds) * 1000 + rest_ms) == text::decimal_spec(minutes)
            + ":"@ + info::two_digits(seconds),
{
    let total = minutes * 60 + seconds;
    assert((total * 1000 + rest_ms) / 1000 == total);
    assert(total / 60 == minutes && total % 60 == seconds);
}

} // verus!
