//! What a line typed at the prompt asks for.

use crate::shell::history;
use crate::shell::suggestions;
use crate::text;
use vstd::prelude::*;

verus! {

#[derive(Debug, Clone, Copy, PartialEq, Eq, Structural)]
pub enum CommandKind {
    Quit,
    Help,
    Again,
    Next,
    Previous,
    Shuffle,
    Home,
    Tips,
    Shortcuts,
    Aliases,
    Language,
    Pause,
    Resume,
    Stop,
    Volume,
    Seek,
    Queue,
    Meter,
    Scan,
    Add,
    Search,
    Library,
    Results,
    More,
    Play,
    Now,
    Info,
    Status,
    Devices,
    Doctor,
    Errors,
    Open,
    Copy,
    OpenDatabase,
    Clear,
    Unknown,
}

/// The names in the order of their characters.
pub const COMMAND_NAMES: [(&'static str, CommandKind); 110] = [
    ("!!", CommandKind::Again),
    ("?", CommandKind::Help),
    ("add", CommandKind::Add),
    ("again", CommandKind::Again),
    ("alias", CommandKind::Aliases),
    ("aliases", CommandKind::Aliases),
    ("check", CommandKind::Doctor),
    ("clear", CommandKind::Clear),
    ("cls", CommandKind::Clear),
    ("commands", CommandKind::Help),
    ("copy", CommandKind::Copy),
    ("current", CommandKind::Now),
    ("device", CommandKind::Devices),
    ("devices", CommandKind::Devices),
    ("diagnose", CommandKind::Doctor),
    ("diagnostics", CommandKind::Doctor),
    ("doctor", CommandKind::Doctor),
    ("errors", CommandKind::Errors),
    ("exit", CommandKind::Quit),
    ("find", CommandKind::Search),
    ("folder", CommandKind::Open),
    ("h", CommandKind::Help),
    ("health", CommandKind::Doctor),
    ("help", CommandKind::Help),
    ("home", CommandKind::Home),
    ("i", CommandKind::Info),
    ("info", CommandKind::Info),
    ("keys", CommandKind::Shortcuts),
    ("lang", CommandKind::Language),
    ("language", CommandKind::Language),
    ("library", CommandKind::Library),
    ("list", CommandKind::Library),
    ("ls", CommandKind::Library),
    ("meter", CommandKind::Meter),
    ("more", CommandKind::More),
    ("next", CommandKind::Next),
    ("now", CommandKind::Now),
    ("open", CommandKind::Open),
    ("open-db", CommandKind::OpenDatabase),
    ("output", CommandKind::Devices),
    ("outputs", CommandKind::Devices),
    ("pause", CommandKind::Pause),
    ("play", CommandKind::Play),
    ("playing", CommandKind::Now),
    ("prev", CommandKind::Previous),
    ("previous", CommandKind::Previous),
    ("q", CommandKind::Quit),
    ("queue", CommandKind::Queue),
    ("quit", CommandKind::Quit),
    ("r", CommandKind::Results),
    ("random", CommandKind::Shuffle),
    ("recent", CommandKind::Library),
    ("repeat", CommandKind::Again),
    ("results", CommandKind::Results),
    ("resume", CommandKind::Resume),
    ("reveal", CommandKind::Open),
    ("scan", CommandKind::Scan),
    ("search", CommandKind::Search),
    ("seek", CommandKind::Seek),
    ("shortcuts", CommandKind::Shortcuts),
    ("shuffle", CommandKind::Shuffle),
    ("songs", CommandKind::Library),
    ("status", CommandKind::Status),
    ("stop", CommandKind::Stop),
    ("surprise", CommandKind::Shuffle),
    ("tips", CommandKind::Tips),
    ("tokens", CommandKind::Meter),
    ("tracks", CommandKind::Library),
    ("volume", CommandKind::Volume),
    ("where", CommandKind::Open),
    ("上一首", CommandKind::Previous),
    ("下一步", CommandKind::Tips),
    ("下一首", CommandKind::Next),
    ("位置", CommandKind::Open),
    ("信息", CommandKind::Info),
    ("停止", CommandKind::Stop),
    ("列表", CommandKind::Library),
    ("别名", CommandKind::Aliases),
    ("命令", CommandKind::Help),
    ("复制", CommandKind::Copy),
    ("帮助", CommandKind::Help),
    ("当前", CommandKind::Now),
    ("快捷键", CommandKind::Shortcuts),
    ("打开", CommandKind::Open),
    ("扫描", CommandKind::Scan),
    ("找", CommandKind::Search),
    ("提示", CommandKind::Tips),
    ("搜索", CommandKind::Search),
    ("播放", CommandKind::Play),
    ("暂停", CommandKind::Pause),
    ("曲库", CommandKind::Library),
    ("更多", CommandKind::More),
    ("检查", CommandKind::Doctor),
    ("歌曲", CommandKind::Library),
    ("正在播放", CommandKind::Now),
    ("添加", CommandKind::Add),
    ("清屏", CommandKind::Clear),
    ("状态", CommandKind::Status),
    ("结果", CommandKind::Results),
    ("继续", CommandKind::Resume),
    ("设备", CommandKind::Devices),
    ("诊断", CommandKind::Doctor),
    ("详情", CommandKind::Info),
    ("语言", CommandKind::Language),
    ("输出", CommandKind::Devices),
    ("退出", CommandKind::Quit),
    ("错误", CommandKind::Errors),
    ("随便", CommandKind::Shuffle),
    ("随机", CommandKind::Shuffle),
    ("首页", CommandKind::Home),
];

/// The kind that the table gives to `name` from entry `from` on.
pub open spec fn kind_from(name: Seq<char>, from: int) -> CommandKind
    decreases COMMAND_NAMES@.len() - from,
{
    if from < 0 || from >= COMMAND_NAMES@.len() {
        CommandKind::Unknown
    } else if COMMAND_NAMES@[from].0@ == name {
        COMMAND_NAMES@[from].1
    } else {
        kind_from(name, from + 1)
    }
}

pub open spec fn kind_spec(name: Seq<char>) -> CommandKind {
    kind_from(name, 0)
}

pub fn command_kind(name: &str) -> (r: CommandKind)
    ensures
        r == kind_spec(name@),
{
    let names = COMMAND_NAMES;
    let mut i: usize = 0;
    while i < names.len()
        invariant
            names@ == COMMAND_NAMES@,
            i <= names@.len(),
            kind_from(name@, 0) == kind_from(name@, i as int),
        decreases names@.len() - i,
    {
        if text::same_text(names[i].0, name) {
            return names[i].1;
        }
        i = i + 1;
    }
    CommandKind::Unknown
}

/// A command and its argument.
#[derive(Debug)]
pub struct ShellCommand {
    pub kind: CommandKind,
    /// What follows the name. Of a shuffle, the name itself; of an unknown command, the whole line.
    pub argument: String,
}

pub ghost struct Command {
    pub kind: CommandKind,
    pub argument: Seq<char>,
}

impl View for ShellCommand {
    type V = Command;

    open spec fn view(&self) -> Command {
        Command { kind: self.kind, argument: self.argument@ }
    }
}

/// A number plays that result. Else the first word names the command; what is up next is asked of
/// the queue.
pub open spec fn parse_spec(line: Seq<char>) -> Command {
    let bare = history::bare_command(line);
    let name = history::command_name(bare);
    let argument = text::trim_spec(text::after_word_spec(bare));
    match suggestions::parse_index_spec(bare) {
        Some(index) => Command {
            kind: CommandKind::Play,
            argument: text::decimal_spec(index as nat),
        },
        None => match kind_spec(name) {
            CommandKind::Shuffle => Command { kind: CommandKind::Shuffle, argument: name },
            CommandKind::Add => Command { kind: CommandKind::Scan, argument: "add"@ },
            CommandKind::Unknown => if name == "up"@ && text::ascii_lower_spec(argument)
                == "next"@ {
                Command { kind: CommandKind::Queue, argument: Seq::empty() }
            } else {
                Command { kind: CommandKind::Unknown, argument: bare }
            },
            kind => Command { kind, argument },
        },
    }
}

pub fn parse_command(line: &str) -> (r: ShellCommand)
    ensures
        r@ == parse_spec(line@),
{
    let bare = history::strip_command(line);
    if let Some(index) = suggestions::parse_result_index_input(bare) {
        return ShellCommand { kind: CommandKind::Play, argument: text::decimal(index as u128) };
    }
    let name = text::ascii_lower(text::first_word(bare));
    let kind = command_kind(&name);
    match kind {
        CommandKind::Shuffle => ShellCommand { kind, argument: name },
        CommandKind::Add => ShellCommand { kind: CommandKind::Scan, argument: "add".to_owned() },
        CommandKind::Unknown => {
            let argument = text::ascii_lower(text::trim(text::after_word(bare)));
            if text::same_text(&name, "up") && text::same_text(&argument, "next") {
                let none = String::new();
                assert(none@ =~= Seq::<char>::empty());
                ShellCommand { kind: CommandKind::Queue, argument: none }
            } else {
                ShellCommand { kind, argument: bare.to_owned() }
            }
        },
        _ => ShellCommand { kind, argument: text::trim(text::after_word(bare)).to_owned() },
    }
}

// ---------------------------------------------------------------- laws

/// Leading colons and slashes make no difference.
pub proof fn slash_makes_no_difference(line: Seq<char>, mark: char)
    requires
        mark == ':' || mark == '/',
    ensures
        parse_spec(seq![mark] + line) == parse_spec(line),
{
    let marked = seq![mark] + line;
    assert(marked.skip(1) =~= line);
    assert(seq![':', '/'].contains(mark)) by {
        assert(seq![':', '/'][0] == ':');
        assert(seq![':', '/'][1] == '/');
    }
    assert(marked[0] == mark);
}

/// A command that repeats is told by its name alone, wherever it is looked at.
pub proof fn repeat_commands_agree(line: Seq<char>)
    ensures
        parse_spec(line).kind == CommandKind::Again ==> history::is_repeat_spec(line),
{
    let bare = history::bare_command(line);
    let stripped = text::strip_leading_spec(line, seq![':', '/']);
    let name = history::command_name(bare);
    if parse_spec(line).kind == CommandKind::Again {
        lemma_kind_again(name, 0);
        lemma_first_word_of_trimmed(stripped);
    }
}

proof fn lemma_kind_again(name: Seq<char>, from: int)
    requires
        0 <= from,
        kind_from(name, from) == CommandKind::Again,
    ensures
        text::literals(history::REPEAT_COMMANDS@).contains(name),
    decreases COMMAND_NAMES@.len() - from,
{
    let words = text::literals(history::REPEAT_COMMANDS@);
    assert(words[0] == "again"@);
    assert(words[1] == "repeat"@);
    assert(words[2] == "!!"@);
    if from < COMMAND_NAMES@.len() && COMMAND_NAMES@[from].0@ != name {
        lemma_kind_again(name, from + 1);
    }
}

proof fn lemma_first_word_of_trimmed(s: Seq<char>)
    ensures
        text::first_word_spec(text::trim_spec(s)) == text::first_word_spec(s),
{
    text::trimming_twice_is_trimming(s);
    text::lemma_word_of_trimmed(text::trim_start_spec(s));
}

/// The name of entry `i` comes before the next one.
spec fn stands_right(i: int) -> bool {
    i + 1 < COMMAND_NAMES@.len() ==> text::comes_before(
        COMMAND_NAMES@[i].0@,
        COMMAND_NAMES@[i + 1].0@,
    )
}

proof fn lemma_names_from_0()
    ensures
        forall|i: int| 0 <= i < 8 ==> #[trigger] stands_right(i),
{
    reveal_strlit("!!");
    reveal_strlit("?");
    reveal_strlit("add");
    reveal_strlit("again");
    reveal_strlit("alias");
    reveal_strlit("aliases");
    reveal_strlit("check");
    reveal_strlit("clear");
    reveal_strlit("cls");
    assert(text::parts_at("!!"@, "?"@, 0));
    assert(stands_right(0));
    assert(text::parts_at("?"@, "add"@, 0));
    assert(stands_right(1));
    assert(text::parts_at("add"@, "again"@, 1));
    assert(stands_right(2));
    assert(text::parts_at("again"@, "alias"@, 1));
    assert(stands_right(3));
    assert(text::parts_at("alias"@, "aliases"@, 5));
    assert(stands_right(4));
    assert(text::parts_at("aliases"@, "check"@, 0));
    assert(stands_right(5));
    assert(text::parts_at("check"@, "clear"@, 1));
    assert(stands_right(6));
    assert(text::parts_at("clear"@, "cls"@, 2));
    assert(stands_right(7));
}

proof fn lemma_names_from_8()
    ensures
        forall|i: int| 8 <= i < 16 ==> #[trigger] stands_right(i),
{
    reveal_strlit("cls");
    reveal_strlit("commands");
    reveal_strlit("copy");
    reveal_strlit("current");
    reveal_strlit("device");
    reveal_strlit("devices");
    reveal_strlit("diagnose");
    reveal_strlit("diagnostics");
    reveal_strlit("doctor");
    assert(text::parts_at("cls"@, "commands"@, 1));
    assert(stands_right(8));
    assert(text::parts_at("commands"@, "copy"@, 2));
    assert(stands_right(9));
    assert(text::parts_at("copy"@, "current"@, 1));
    assert(stands_right(10));
    assert(text::parts_at("current"@, "device"@, 0));
    assert(stands_right(11));
    assert(text::parts_at("device"@, "devices"@, 6));
    assert(stands_right(12));
    assert(text::parts_at("devices"@, "diagnose"@, 1));
    assert(stands_right(13));
    assert(text::parts_at("diagnose"@, "diagnostics"@, 7));
    assert(stands_right(14));
    assert(text::parts_at("diagnostics"@, "doctor"@, 1));
    assert(stands_right(15));
}

proof fn lemma_names_from_16()
    ensures
        forall|i: int| 16 <= i < 24 ==> #[trigger] stands_right(i),
{
    reveal_strlit("doctor");
    reveal_strlit("errors");
    reveal_strlit("exit");
    reveal_strlit("find");
    reveal_strlit("folder");
    reveal_strlit("h");
    reveal_strlit("health");
    reveal_strlit("help");
    reveal_strlit("home");
    assert(text::parts_at("doctor"@, "errors"@, 0));
    assert(stands_right(16));
    assert(text::parts_at("errors"@, "exit"@, 1));
    assert(stands_right(17));
    assert(text::parts_at("exit"@, "find"@, 0));
    assert(stands_right(18));
    assert(text::parts_at("find"@, "folder"@, 1));
    assert(stands_right(19));
    assert(text::parts_at("folder"@, "h"@, 0));
    assert(stands_right(20));
    assert(text::parts_at("h"@, "health"@, 1));
    assert(stands_right(21));
    assert(text::parts_at("health"@, "help"@, 2));
    assert(stands_right(22));
    assert(text::parts_at("help"@, "home"@, 1));
    assert(stands_right(23));
}

proof fn lemma_names_from_24()
    ensures
        forall|i: int| 24 <= i < 32 ==> #[trigger] stands_right(i),
{
    reveal_strlit("home");
    reveal_strlit("i");
    reveal_strlit("info");
    reveal_strlit("keys");
    reveal_strlit("lang");
    reveal_strlit("language");
    reveal_strlit("library");
    reveal_strlit("list");
    reveal_strlit("ls");
    assert(text::parts_at("home"@, "i"@, 0));
    assert(stands_right(24));
    assert(text::parts_at("i"@, "info"@, 1));
    assert(stands_right(25));
    assert(text::parts_at("info"@, "keys"@, 0));
    assert(stands_right(26));
    assert(text::parts_at("keys"@, "lang"@, 0));
    assert(stands_right(27));
    assert(text::parts_at("lang"@, "language"@, 4));
    assert(stands_right(28));
    assert(text::parts_at("language"@, "library"@, 1));
    assert(stands_right(29));
    assert(text::parts_at("library"@, "list"@, 2));
    assert(stands_right(30));
    assert(text::parts_at("list"@, "ls"@, 1));
    assert(stands_right(31));
}

proof fn lemma_names_from_32()
    ensures
        forall|i: int| 32 <= i < 40 ==> #[trigger] stands_right(i),
{
    reveal_strlit("ls");
    reveal_strlit("meter");
    reveal_strlit("more");
    reveal_strlit("next");
    reveal_strlit("now");
    reveal_strlit("open");
    reveal_strlit("open-db");
    reveal_strlit("output");
    reveal_strlit("outputs");
    assert(text::parts_at("ls"@, "meter"@, 0));
    assert(stands_right(32));
    assert(text::parts_at("meter"@, "more"@, 1));
    assert(stands_right(33));
    assert(text::parts_at("more"@, "next"@, 0));
    assert(stands_right(34));
    assert(text::parts_at("next"@, "now"@, 1));
    assert(stands_right(35));
    assert(text::parts_at("now"@, "open"@, 0));
    assert(stands_right(36));
    assert(text::parts_at("open"@, "open-db"@, 4));
    assert(stands_right(37));
    assert(text::parts_at("open-db"@, "output"@, 1));
    assert(stands_right(38));
    assert(text::parts_at("output"@, "outputs"@, 6));
    assert(stands_right(39));
}

proof fn lemma_names_from_40()
    ensures
        forall|i: int| 40 <= i < 48 ==> #[trigger] stands_right(i),
{
    reveal_strlit("outputs");
    reveal_strlit("pause");
    reveal_strlit("play");
    reveal_strlit("playing");
    reveal_strlit("prev");
    reveal_strlit("previous");
    reveal_strlit("q");
    reveal_strlit("queue");
    reveal_strlit("quit");
    assert(text::parts_at("outputs"@, "pause"@, 0));
    assert(stands_right(40));
    assert(text::parts_at("pause"@, "play"@, 1));
    assert(stands_right(41));
    assert(text::parts_at("play"@, "playing"@, 4));
    assert(stands_right(42));
    assert(text::parts_at("playing"@, "prev"@, 1));
    assert(stands_right(43));
    assert(text::parts_at("prev"@, "previous"@, 4));
    assert(stands_right(44));
    assert(text::parts_at("previous"@, "q"@, 0));
    assert(stands_right(45));
    assert(text::parts_at("q"@, "queue"@, 1));
    assert(stands_right(46));
    assert(text::parts_at("queue"@, "quit"@, 2));
    assert(stands_right(47));
}

proof fn lemma_names_from_48()
    ensures
        forall|i: int| 48 <= i < 56 ==> #[trigger] stands_right(i),
{
    reveal_strlit("quit");
    reveal_strlit("r");
    reveal_strlit("random");
    reveal_strlit("recent");
    reveal_strlit("repeat");
    reveal_strlit("results");
    reveal_strlit("resume");
    reveal_strlit("reveal");
    reveal_strlit("scan");
    assert(text::parts_at("quit"@, "r"@, 0));
    assert(stands_right(48));
    assert(text::parts_at("r"@, "random"@, 1));
    assert(stands_right(49));
    assert(text::parts_at("random"@, "recent"@, 1));
    assert(stands_right(50));
    assert(text::parts_at("recent"@, "repeat"@, 2));
    assert(stands_right(51));
    assert(text::parts_at("repeat"@, "results"@, 2));
    assert(stands_right(52));
    assert(text::parts_at("results"@, "resume"@, 4));
    assert(stands_right(53));
    assert(text::parts_at("resume"@, "reveal"@, 2));
    assert(stands_right(54));
    assert(text::parts_at("reveal"@, "scan"@, 0));
    assert(stands_right(55));
}

proof fn lemma_names_from_56()
    ensures
        forall|i: int| 56 <= i < 64 ==> #[trigger] stands_right(i),
{
    reveal_strlit("scan");
    reveal_strlit("search");
    reveal_strlit("seek");
    reveal_strlit("shortcuts");
    reveal_strlit("shuffle");
    reveal_strlit("songs");
    reveal_strlit("status");
    reveal_strlit("stop");
    reveal_strlit("surprise");
    assert(text::parts_at("scan"@, "search"@, 1));
    assert(stands_right(56));
    assert(text::parts_at("search"@, "seek"@, 2));
    assert(stands_right(57));
    assert(text::parts_at("seek"@, "shortcuts"@, 1));
    assert(stands_right(58));
    assert(text::parts_at("shortcuts"@, "shuffle"@, 2));
    assert(stands_right(59));
    assert(text::parts_at("shuffle"@, "songs"@, 1));
    assert(stands_right(60));
    assert(text::parts_at("songs"@, "status"@, 1));
    assert(stands_right(61));
    assert(text::parts_at("status"@, "stop"@, 2));
    assert(stands_right(62));
    assert(text::parts_at("stop"@, "surprise"@, 1));
    assert(stands_right(63));
}

proof fn lemma_names_from_64()
    ensures
        forall|i: int| 64 <= i < 72 ==> #[trigger] stands_right(i),
{
    reveal_strlit("surprise");
    reveal_strlit("tips");
    reveal_strlit("tokens");
    reveal_strlit("tracks");
    reveal_strlit("volume");
    reveal_strlit("where");
    reveal_strlit("上一首");
    reveal_strlit("下一步");
    reveal_strlit("下一首");
    assert(text::parts_at("surprise"@, "tips"@, 0));
    assert(stands_right(64));
    assert(text::parts_at("tips"@, "tokens"@, 1));
    assert(stands_right(65));
    assert(text::parts_at("tokens"@, "tracks"@, 1));
    assert(stands_right(66));
    assert(text::parts_at("tracks"@, "volume"@, 0));
    assert(stands_right(67));
    assert(text::parts_at("volume"@, "where"@, 0));
    assert(stands_right(68));
    assert(text::parts_at("where"@, "上一首"@, 0));
    assert(stands_right(69));
    assert(text::parts_at("上一首"@, "下一步"@, 0));
    assert(stands_right(70));
    assert(text::parts_at("下一步"@, "下一首"@, 2));
    assert(stands_right(71));
}

proof fn lemma_names_from_72()
    ensures
        forall|i: int| 72 <= i < 80 ==> #[trigger] stands_right(i),
{
    reveal_strlit("下一首");
    reveal_strlit("位置");
    reveal_strlit("信息");
    reveal_strlit("停止");
    reveal_strlit("列表");
    reveal_strlit("别名");
    reveal_strlit("命令");
    reveal_strlit("复制");
    reveal_strlit("帮助");
    assert(text::parts_at("下一首"@, "位置"@, 0));
    assert(stands_right(72));
    assert(text::parts_at("位置"@, "信息"@, 0));
    assert(stands_right(73));
    assert(text::parts_at("信息"@, "停止"@, 0));
    assert(stands_right(74));
    assert(text::parts_at("停止"@, "列表"@, 0));
    assert(stands_right(75));
    assert(text::parts_at("列表"@, "别名"@, 0));
    assert(stands_right(76));
    assert(text::parts_at("别名"@, "命令"@, 0));
    assert(stands_right(77));
    assert(text::parts_at("命令"@, "复制"@, 0));
    assert(stands_right(78));
    assert(text::parts_at("复制"@, "帮助"@, 0));
    assert(stands_right(79));
}

proof fn lemma_names_from_80()
    ensures
        forall|i: int| 80 <= i < 88 ==> #[trigger] stands_right(i),
{
    reveal_strlit("帮助");
    reveal_strlit("当前");
    reveal_strlit("快捷键");
    reveal_strlit("打开");
    reveal_strlit("扫描");
    reveal_strlit("找");
    reveal_strlit("提示");
    reveal_strlit("搜索");
    reveal_strlit("播放");
    assert(text::parts_at("帮助"@, "当前"@, 0));
    assert(stands_right(80));
    assert(text::parts_at("当前"@, "快捷键"@, 0));
    assert(stands_right(81));
    assert(text::parts_at("快捷键"@, "打开"@, 0));
    assert(stands_right(82));
    assert(text::parts_at("打开"@, "扫描"@, 0));
    assert(stands_right(83));
    assert(text::parts_at("扫描"@, "找"@, 0));
    assert(stands_right(84));
    assert(text::parts_at("找"@, "提示"@, 0));
    assert(stands_right(85));
    assert(text::parts_at("提示"@, "搜索"@, 0));
    assert(stands_right(86));
    assert(text::parts_at("搜索"@, "播放"@, 0));
    assert(stands_right(87));
}

proof fn lemma_names_from_88()
    ensures
        forall|i: int| 88 <= i < 96 ==> #[trigger] stands_right(i),
{
    reveal_strlit("播放");
    reveal_strlit("暂停");
    reveal_strlit("曲库");
    reveal_strlit("更多");
    reveal_strlit("检查");
    reveal_strlit("歌曲");
    reveal_strlit("正在播放");
    reveal_strlit("添加");
    reveal_strlit("清屏");
    assert(text::parts_at("播放"@, "暂停"@, 0));
    assert(stands_right(88));
    assert(text::parts_at("暂停"@, "曲库"@, 0));
    assert(stands_right(89));
    assert(text::parts_at("曲库"@, "更多"@, 0));
    assert(stands_right(90));
    assert(text::parts_at("更多"@, "检查"@, 0));
    assert(stands_right(91));
    assert(text::parts_at("检查"@, "歌曲"@, 0));
    assert(stands_right(92));
    assert(text::parts_at("歌曲"@, "正在播放"@, 0));
    assert(stands_right(93));
    assert(text::parts_at("正在播放"@, "添加"@, 0));
    assert(stands_right(94));
    assert(text::parts_at("添加"@, "清屏"@, 0));
    assert(stands_right(95));
}

proof fn lemma_names_from_96()
    ensures
        forall|i: int| 96 <= i < 104 ==> #[trigger] stands_right(i),
{
    reveal_strlit("清屏");
    reveal_strlit("状态");
    reveal_strlit("结果");
    reveal_strlit("继续");
    reveal_strlit("设备");
    reveal_strlit("诊断");
    reveal_strlit("详情");
    reveal_strlit("语言");
    reveal_strlit("输出");
    assert(text::parts_at("清屏"@, "状态"@, 0));
    assert(stands_right(96));
    assert(text::parts_at("状态"@, "结果"@, 0));
    assert(stands_right(97));
    assert(text::parts_at("结果"@, "继续"@, 0));
    assert(stands_right(98));
    assert(text::parts_at("继续"@, "设备"@, 0));
    assert(stands_right(99));
    assert(text::parts_at("设备"@, "诊断"@, 0));
    assert(stands_right(100));
    assert(text::parts_at("诊断"@, "详情"@, 0));
    assert(stands_right(101));
    assert(text::parts_at("详情"@, "语言"@, 0));
    assert(stands_right(102));
    assert(text::parts_at("语言"@, "输出"@, 0));
    assert(stands_right(103));
}

proof fn lemma_names_from_104()
    ensures
        forall|i: int| 104 <= i < 110 ==> #[trigger] stands_right(i),
{
    reveal_strlit("输出");
    reveal_strlit("退出");
    reveal_strlit("错误");
    reveal_strlit("随便");
    reveal_strlit("随机");
    reveal_strlit("首页");
    assert(text::parts_at("输出"@, "退出"@, 0));
    assert(stands_right(104));
    assert(text::parts_at("退出"@, "错误"@, 0));
    assert(stands_right(105));
    assert(text::parts_at("错误"@, "随便"@, 0));
    assert(stands_right(106));
    assert(text::parts_at("随便"@, "随机"@, 1));
    assert(stands_right(107));
    assert(text::parts_at("随机"@, "首页"@, 0));
    assert(stands_right(108));
    assert(stands_right(109));
}

proof fn lemma_names_stand_right()
    ensures
        forall|i: int| 0 <= i < COMMAND_NAMES@.len() ==> #[trigger] stands_right(i),
{
    lemma_names_from_0();
    lemma_names_from_8();
    lemma_names_from_16();
    lemma_names_from_24();
    lemma_names_from_32();
    lemma_names_from_40();
    lemma_names_from_48();
    lemma_names_from_56();
    lemma_names_from_64();
    lemma_names_from_72();
    lemma_names_from_80();
    lemma_names_from_88();
    lemma_names_from_96();
    lemma_names_from_104();
}

proof fn lemma_names_in_order(i: int, j: int)
    requires
        0 <= i < j < COMMAND_NAMES@.len(),
        forall|k: int| 0 <= k < COMMAND_NAMES@.len() ==> #[trigger] stands_right(k),
    ensures
        text::comes_before(COMMAND_NAMES@[i].0@, COMMAND_NAMES@[j].0@),
    decreases j - i,
{
    assert(stands_right(i));
    if i + 1 < j {
        lemma_names_in_order(i + 1, j);
        text::lemma_order_goes_on(
            COMMAND_NAMES@[i].0@,
            COMMAND_NAMES@[i + 1].0@,
            COMMAND_NAMES@[j].0@,
        );
    }
}

proof fn lemma_kind_starts_at(name: Seq<char>, from: int, upto: int)
    requires
        0 <= from <= upto <= COMMAND_NAMES@.len(),
        forall|k: int| from <= k < upto ==> (#[trigger] COMMAND_NAMES@[k]).0@ != name,
    ensures
        kind_from(name, from) == kind_from(name, upto),
    decreases upto - from,
{
    if from < upto {
        lemma_kind_starts_at(name, from + 1, upto);
    }
}

/// Every name asks for the one command that it is listed with.
pub proof fn every_name_asks_for_its_command(i: int)
    requires
        0 <= i < COMMAND_NAMES@.len(),
    ensures
        kind_spec(COMMAND_NAMES@[i].0@) == COMMAND_NAMES@[i].1,
{
    let name = COMMAND_NAMES@[i].0@;
    lemma_names_stand_right();
    assert forall|k: int| 0 <= k < i implies (#[trigger] COMMAND_NAMES@[k]).0@ != name by {
        lemma_names_in_order(k, i);
    }
    lemma_kind_starts_at(name, 0, i);
}

/// What the names for playing mean, in both languages.
pub proof fn names_for_playing()
    ensures
        kind_spec("play"@) == CommandKind::Play,
        kind_spec("播放"@) == CommandKind::Play,
        kind_spec("next"@) == CommandKind::Next,
        kind_spec("下一首"@) == CommandKind::Next,
        kind_spec("prev"@) == CommandKind::Previous,
        kind_spec("previous"@) == CommandKind::Previous,
        kind_spec("上一首"@) == CommandKind::Previous,
        kind_spec("shuffle"@) == CommandKind::Shuffle,
        kind_spec("random"@) == CommandKind::Shuffle,
        kind_spec("surprise"@) == CommandKind::Shuffle,
        kind_spec("随机"@) == CommandKind::Shuffle,
        kind_spec("随便"@) == CommandKind::Shuffle,
        kind_spec("pause"@) == CommandKind::Pause,
        kind_spec("暂停"@) == CommandKind::Pause,
        kind_spec("resume"@) == CommandKind::Resume,
        kind_spec("继续"@) == CommandKind::Resume,
        kind_spec("stop"@) == CommandKind::Stop,
        kind_spec("停止"@) == CommandKind::Stop,
{
    every_name_asks_for_its_command(42);
    every_name_asks_for_its_command(88);
    every_name_asks_for_its_command(35);
    every_name_asks_for_its_command(72);
    every_name_asks_for_its_command(44);
    every_name_asks_for_its_command(45);
    every_name_asks_for_its_command(70);
    every_name_asks_for_its_command(60);
    every_name_asks_for_its_command(50);
    every_name_asks_for_its_command(64);
    every_name_asks_for_its_command(108);
    every_name_asks_for_its_command(107);
    every_name_asks_for_its_command(41);
    every_name_asks_for_its_command(89);
    every_name_asks_for_its_command(54);
    every_name_asks_for_its_command(99);
    every_name_asks_for_its_command(63);
    every_name_asks_for_its_command(75);
}

/// What the names for volume, position, queue and meter mean.
pub proof fn names_for_transport()
    ensures
        kind_spec("volume"@) == CommandKind::Volume,
        kind_spec("seek"@) == CommandKind::Seek,
        kind_spec("queue"@) == CommandKind::Queue,
        kind_spec("meter"@) == CommandKind::Meter,
        kind_spec("tokens"@) == CommandKind::Meter,
{
    every_name_asks_for_its_command(68);
    every_name_asks_for_its_command(58);
    every_name_asks_for_its_command(47);
    every_name_asks_for_its_command(33);
    every_name_asks_for_its_command(66);
}

/// What the names for scanning, searching and listing mean, in both languages.
pub proof fn names_for_finding()
    ensures
        kind_spec("scan"@) == CommandKind::Scan,
        kind_spec("扫描"@) == CommandKind::Scan,
        kind_spec("add"@) == CommandKind::Add,
        kind_spec("添加"@) == CommandKind::Add,
        kind_spec("search"@) == CommandKind::Search,
        kind_spec("find"@) == CommandKind::Search,
        kind_spec("搜索"@) == CommandKind::Search,
        kind_spec("找"@) == CommandKind::Search,
        kind_spec("library"@) == CommandKind::Library,
        kind_spec("list"@) == CommandKind::Library,
        kind_spec("recent"@) == CommandKind::Library,
        kind_spec("ls"@) == CommandKind::Library,
        kind_spec("songs"@) == CommandKind::Library,
        kind_spec("tracks"@) == CommandKind::Library,
        kind_spec("曲库"@) == CommandKind::Library,
        kind_spec("列表"@) == CommandKind::Library,
        kind_spec("歌曲"@) == CommandKind::Library,
        kind_spec("results"@) == CommandKind::Results,
        kind_spec("r"@) == CommandKind::Results,
        kind_spec("结果"@) == CommandKind::Results,
        kind_spec("more"@) == CommandKind::More,
        kind_spec("更多"@) == CommandKind::More,
{
    every_name_asks_for_its_command(56);
    every_name_asks_for_its_command(84);
    every_name_asks_for_its_command(2);
    every_name_asks_for_its_command(95);
    every_name_asks_for_its_command(57);
    every_name_asks_for_its_command(19);
    every_name_asks_for_its_command(87);
    every_name_asks_for_its_command(85);
    every_name_asks_for_its_command(30);
    every_name_asks_for_its_command(31);
    every_name_asks_for_its_command(51);
    every_name_asks_for_its_command(32);
    every_name_asks_for_its_command(61);
    every_name_asks_for_its_command(67);
    every_name_asks_for_its_command(90);
    every_name_asks_for_its_command(76);
    every_name_asks_for_its_command(93);
    every_name_asks_for_its_command(53);
    every_name_asks_for_its_command(49);
    every_name_asks_for_its_command(98);
    every_name_asks_for_its_command(34);
    every_name_asks_for_its_command(91);
}

/// What the names for looking at tracks and at the state of things mean, in both languages.
pub proof fn names_for_telling()
    ensures
        kind_spec("now"@) == CommandKind::Now,
        kind_spec("current"@) == CommandKind::Now,
        kind_spec("playing"@) == CommandKind::Now,
        kind_spec("当前"@) == CommandKind::Now,
        kind_spec("正在播放"@) == CommandKind::Now,
        kind_spec("info"@) == CommandKind::Info,
        kind_spec("i"@) == CommandKind::Info,
        kind_spec("信息"@) == CommandKind::Info,
        kind_spec("详情"@) == CommandKind::Info,
        kind_spec("status"@) == CommandKind::Status,
        kind_spec("状态"@) == CommandKind::Status,
        kind_spec("devices"@) == CommandKind::Devices,
        kind_spec("device"@) == CommandKind::Devices,
        kind_spec("output"@) == CommandKind::Devices,
        kind_spec("outputs"@) == CommandKind::Devices,
        kind_spec("设备"@) == CommandKind::Devices,
        kind_spec("输出"@) == CommandKind::Devices,
        kind_spec("doctor"@) == CommandKind::Doctor,
        kind_spec("diagnose"@) == CommandKind::Doctor,
        kind_spec("diagnostics"@) == CommandKind::Doctor,
        kind_spec("health"@) == CommandKind::Doctor,
        kind_spec("check"@) == CommandKind::Doctor,
        kind_spec("诊断"@) == CommandKind::Doctor,
        kind_spec("检查"@) == CommandKind::Doctor,
        kind_spec("errors"@) == CommandKind::Errors,
        kind_spec("错误"@) == CommandKind::Errors,
        kind_spec("open"@) == CommandKind::Open,
        kind_spec("reveal"@) == CommandKind::Open,
        kind_spec("folder"@) == CommandKind::Open,
        kind_spec("where"@) == CommandKind::Open,
        kind_spec("打开"@) == CommandKind::Open,
        kind_spec("位置"@) == CommandKind::Open,
        kind_spec("copy"@) == CommandKind::Copy,
        kind_spec("复制"@) == CommandKind::Copy,
        kind_spec("open-db"@) == CommandKind::OpenDatabase,
{
    every_name_asks_for_its_command(36);
    every_name_asks_for_its_command(11);
    every_name_asks_for_its_command(43);
    every_name_asks_for_its_command(81);
    every_name_asks_for_its_command(94);
    every_name_asks_for_its_command(26);
    every_name_asks_for_its_command(25);
    every_name_asks_for_its_command(74);
    every_name_asks_for_its_command(102);
    every_name_asks_for_its_command(62);
    every_name_asks_for_its_command(97);
    every_name_asks_for_its_command(13);
    every_name_asks_for_its_command(12);
    every_name_asks_for_its_command(39);
    every_name_asks_for_its_command(40);
    every_name_asks_for_its_command(100);
    every_name_asks_for_its_command(104);
    every_name_asks_for_its_command(16);
    every_name_asks_for_its_command(14);
    every_name_asks_for_its_command(15);
    every_name_asks_for_its_command(22);
    every_name_asks_for_its_command(6);
    every_name_asks_for_its_command(101);
    every_name_asks_for_its_command(92);
    every_name_asks_for_its_command(17);
    every_name_asks_for_its_command(106);
    every_name_asks_for_its_command(37);
    every_name_asks_for_its_command(55);
    every_name_asks_for_its_command(20);
    every_name_asks_for_its_command(69);
    every_name_asks_for_its_command(83);
    every_name_asks_for_its_command(73);
    every_name_asks_for_its_command(10);
    every_name_asks_for_its_command(79);
    every_name_asks_for_its_command(38);
}

/// What the names that concern the shell itself mean, in both languages.
pub proof fn names_for_shell()
    ensures
        kind_spec("q"@) == CommandKind::Quit,
        kind_spec("quit"@) == CommandKind::Quit,
        kind_spec("exit"@) == CommandKind::Quit,
        kind_spec("退出"@) == CommandKind::Quit,
        kind_spec("help"@) == CommandKind::Help,
        kind_spec("h"@) == CommandKind::Help,
        kind_spec("?"@) == CommandKind::Help,
        kind_spec("commands"@) == CommandKind::Help,
        kind_spec("帮助"@) == CommandKind::Help,
        kind_spec("命令"@) == CommandKind::Help,
        kind_spec("again"@) == CommandKind::Again,
        kind_spec("repeat"@) == CommandKind::Again,
        kind_spec("!!"@) == CommandKind::Again,
        kind_spec("home"@) == CommandKind::Home,
        kind_spec("首页"@) == CommandKind::Home,
        kind_spec("tips"@) == CommandKind::Tips,
        kind_spec("提示"@) == CommandKind::Tips,
        kind_spec("下一步"@) == CommandKind::Tips,
        kind_spec("shortcuts"@) == CommandKind::Shortcuts,
        kind_spec("keys"@) == CommandKind::Shortcuts,
        kind_spec("快捷键"@) == CommandKind::Shortcuts,
        kind_spec("aliases"@) == CommandKind::Aliases,
        kind_spec("alias"@) == CommandKind::Aliases,
        kind_spec("别名"@) == CommandKind::Aliases,
        kind_spec("language"@) == CommandKind::Language,
        kind_spec("lang"@) == CommandKind::Language,
        kind_spec("语言"@) == CommandKind::Language,
        kind_spec("clear"@) == CommandKind::Clear,
        kind_spec("cls"@) == CommandKind::Clear,
        kind_spec("清屏"@) == CommandKind::Clear,
{
    every_name_asks_for_its_command(46);
    every_name_asks_for_its_command(48);
    every_name_asks_for_its_command(18);
    every_name_asks_for_its_command(105);
    every_name_asks_for_its_command(23);
    every_name_asks_for_its_command(21);
    every_name_asks_for_its_command(1);
    every_name_asks_for_its_command(9);
    every_name_asks_for_its_command(80);
    every_name_asks_for_its_command(78);
    every_name_asks_for_its_command(3);
    every_name_asks_for_its_command(52);
    every_name_asks_for_its_command(0);
    every_name_asks_for_its_command(24);
    every_name_asks_for_its_command(109);
    every_name_asks_for_its_command(65);
    every_name_asks_for_its_command(86);
    every_name_asks_for_its_command(71);
    every_name_asks_for_its_command(59);
    every_name_asks_for_its_command(27);
    every_name_asks_for_its_command(82);
    every_name_asks_for_its_command(5);
    every_name_asks_for_its_command(4);
    every_name_asks_for_its_command(77);
    every_name_asks_for_its_command(29);
    every_name_asks_for_its_command(28);
    every_name_asks_for_its_command(103);
    every_name_asks_for_its_command(7);
    every_name_asks_for_its_command(8);
    every_name_asks_for_its_command(96);
}

/// The first word names the command, what follows it is its argument, without the white space
/// between them.
pub proof fn names_are_parted_from_arguments(name: Seq<char>, argument: Seq<char>)
    requires
        name.len() > 0,
        forall|i: int|
            0 <= i < name.len() ==> !text::white_space(#[trigger] name[i]) && !('A' <= name[i]
                <= 'Z'),
        !text::is_digit(name[0]) && name[0] != '#' && name[0] != ':' && name[0] != '/',
        argument.len() > 0,
        !text::white_space(argument[0]),
        !text::white_space(argument.last()),
        kind_spec(name) != CommandKind::Shuffle,
        kind_spec(name) != CommandKind::Add,
        kind_spec(name) != CommandKind::Unknown,
    ensures
        parse_spec(name + " "@ + argument) == (Command { kind: kind_spec(name), argument }),
        parse_spec(name) == (Command { kind: kind_spec(name), argument: Seq::empty() }),
{
    reveal_strlit(" ");
    reveal_strlit("#");
    let line = name + " "@ + argument;
    text::first_word_and_rest(name, argument);
    text::single_word_is_the_first(name);
    text::lemma_lower_stays(name);
    assert(!seq![':', '/'].contains(name[0])) by {
        assert(forall|c: char| seq![':', '/'].contains(c) ==> c == ':' || c == '/');
    }
    assert(line[0] == name[0]);
    assert(text::strip_leading_spec(line, seq![':', '/']) == line);
    assert(text::strip_leading_spec(name, seq![':', '/']) == name);
    assert(line.take(1)[0] == line[0]);
    assert(name.take(1)[0] == name[0]);
    assert(suggestions::index_digits(line) == line);
    assert(suggestions::index_digits(name) == name);
    assert(!text::is_digit(line[0]));
}

/// Words that name no command are kept whole.
pub proof fn other_words_are_kept_whole(line: Seq<char>)
    requires
        suggestions::parse_index_spec(history::bare_command(line)) is None,
        kind_spec(history::command_name(history::bare_command(line))) == CommandKind::Unknown,
        history::command_name(history::bare_command(line)) != "up"@,
    ensures
        parse_spec(line) == (Command {
            kind: CommandKind::Unknown,
            argument: text::trim_spec(text::strip_leading_spec(line, seq![':', '/'])),
        }),
{
}

/// Shuffling keeps the word that asked for it, adding asks for a folder whatever follows, and `up
/// next` shows the queue.
pub proof fn special_words_have_their_own_meaning(name: Seq<char>, argument: Seq<char>)
    requires
        name.len() > 0,
        forall|i: int|
            0 <= i < name.len() ==> !text::white_space(#[trigger] name[i]) && !('A' <= name[i]
                <= 'Z'),
        !text::is_digit(name[0]) && name[0] != '#' && name[0] != ':' && name[0] != '/',
        argument.len() > 0,
        !text::white_space(argument[0]),
        !text::white_space(argument.last()),
    ensures
        kind_spec(name) == CommandKind::Shuffle ==> parse_spec(name + " "@ + argument) == (Command {
            kind: CommandKind::Shuffle,
            argument: name,
        }) && parse_spec(name) == (Command { kind: CommandKind::Shuffle, argument: name }),
        kind_spec(name) == CommandKind::Add ==> parse_spec(name + " "@ + argument) == (Command {
            kind: CommandKind::Scan,
            argument: "add"@,
        }) && parse_spec(name) == (Command { kind: CommandKind::Scan, argument: "add"@ }),
        kind_spec(name) == CommandKind::Unknown && name == "up"@ && text::ascii_lower_spec(argument)
            == "next"@ ==> parse_spec(name + " "@ + argument) == (Command {
            kind: CommandKind::Queue,
            argument: Seq::empty(),
        }),
        kind_spec(name) == CommandKind::Unknown && name != "up"@ ==> parse_spec(
            name + " "@ + argument,
        ) == (Command { kind: CommandKind::Unknown, argument: name + " "@ + argument }),
{
    reveal_strlit(" ");
    reveal_strlit("#");
    let line = name + " "@ + argument;
    text::first_word_and_rest(name, argument);
    text::single_word_is_the_first(name);
    text::lemma_lower_stays(name);
    assert(!seq![':', '/'].contains(name[0])) by {
        assert(forall|c: char| seq![':', '/'].contains(c) ==> c == ':' || c == '/');
    }
    assert(line[0] == name[0]);
    assert(text::strip_leading_spec(line, seq![':', '/']) == line);
    assert(text::strip_leading_spec(name, seq![':', '/']) == name);
    assert(line.take(1)[0] == line[0]);
    assert(name.take(1)[0] == name[0]);
    assert(suggestions::index_digits(line) == line);
    assert(suggestions::index_digits(name) == name);
    assert(!text::is_digit(line[0]));
}

} // verus!
