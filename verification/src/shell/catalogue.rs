//! The commands that the shell offers, with their translated descriptions.

use crate::seqs;
use crate::shell::language::ShellLanguage;
use crate::text;
use vstd::prelude::*;

verus! {

/// Completion, usage and description of each command, in the order of their offering.
pub const COMMANDS: [(&'static str, &'static str, &'static str); 165] = [
    ("scan", "scan", "open folder picker and scan"),
    ("add", "add", "choose a music folder"),
    ("scan add", "scan add", "same as scan"),
    ("scan ", "scan <folder>", "scan folder path directly"),
    ("扫描", "扫描", "open folder picker and scan"),
    ("添加", "添加", "same as scan"),
    ("search ", "search <query>", "search indexed tracks"),
    ("find ", "find <query>", "same as search"),
    ("搜索 ", "搜索 <query>", "search indexed tracks"),
    ("找 ", "找 <query>", "same as search"),
    ("play ", "play <query|#>", "play by query or result number"),
    ("播放 ", "播放 <query|#>", "play by query or result number"),
    ("播放 下一首", "播放 下一首", "play next visible result"),
    ("播放 上一首", "播放 上一首", "play previous visible result"),
    ("播放 随机", "播放 随机", "play a random visible result"),
    ("play last", "play last", "play last listed result"),
    ("play first", "play first", "same as play best"),
    ("play best", "play best", "play first listed result"),
    ("play next", "play next", "play next visible result"),
    ("play prev", "play prev", "play previous visible result"),
    ("play previous", "play previous", "same as play prev"),
    ("play random", "play random", "play a random visible result"),
    ("play surprise", "play surprise", "pick something for me"),
    ("shuffle", "shuffle", "play a random visible result"),
    ("surprise", "surprise", "pick something for me"),
    ("random", "random", "same as shuffle"),
    ("随机", "随机", "same as shuffle"),
    ("随便", "随便", "pick something for me"),
    ("results", "results", "print current results again"),
    ("more", "more", "show more current results"),
    ("结果", "结果", "print current results again"),
    ("更多", "更多", "show more current results"),
    ("r", "r", "same as results"),
    ("open ", "open <query|#>", "show a track in Explorer"),
    ("open current", "open current", "show current track in Explorer"),
    ("reveal ", "reveal <query|#>", "same as open"),
    ("folder", "folder", "show current track in Explorer"),
    ("where", "where", "show current track in Explorer"),
    ("打开 ", "打开 <query|#>", "show a track in Explorer"),
    ("位置", "位置", "show current track in Explorer"),
    ("copy ", "copy <query|#>", "copy a track path"),
    ("复制 ", "复制 <query|#>", "copy a track path"),
    ("copy current", "copy current", "copy current track path"),
    ("info ", "info <query|#>", "show track details"),
    ("info current", "info current", "show current track details"),
    ("信息 ", "信息 <query|#>", "show track details"),
    ("详情 ", "详情 <query|#>", "show track details"),
    ("history", "history", "show recent commands"),
    ("history clear", "history clear", "clear saved command history"),
    ("again", "again", "repeat the last command"),
    ("repeat", "repeat", "same as again"),
    ("next", "next", "play next visible result"),
    ("下一首", "下一首", "play next visible result"),
    ("prev", "prev", "play previous visible result"),
    ("previous", "previous", "same as prev"),
    ("上一首", "上一首", "play previous visible result"),
    ("tips", "tips", "show suggested next steps"),
    ("提示", "提示", "show suggested next steps"),
    ("home", "home", "show the welcome screen"),
    ("首页", "首页", "show the welcome screen"),
    ("shortcuts", "shortcuts", "show keyboard shortcuts"),
    ("keys", "keys", "same as shortcuts"),
    ("快捷键", "快捷键", "same as shortcuts"),
    ("aliases", "aliases", "show alternate command names"),
    ("alias", "alias", "same as aliases"),
    ("别名", "别名", "same as aliases"),
    ("language", "language", "switch English / 中文"),
    ("language zh", "language zh", "switch to 中文"),
    ("language en", "language en", "switch to English"),
    ("language status", "language status", "show current language"),
    ("language list", "language list", "show available languages"),
    ("语言", "语言", "switch English / 中文"),
    ("语言 zh", "语言 zh", "切换到中文"),
    ("语言 en", "语言 en", "切换到 English"),
    ("语言 状态", "语言 状态", "show current language"),
    ("语言 列表", "语言 列表", "show available languages"),
    ("pause", "pause", "pause playback"),
    ("暂停", "暂停", "pause playback"),
    ("resume", "resume", "resume playback"),
    ("继续", "继续", "resume playback"),
    ("stop", "stop", "stop playback"),
    ("停止", "停止", "stop playback"),
    ("quit", "quit", "exit"),
    ("exit", "exit", "same as quit"),
    ("q", "q", "same as quit"),
    ("退出", "退出", "same as quit"),
    ("/pause", "/pause", "pause playback"),
    ("/resume", "/resume", "resume playback"),
    ("/stop", "/stop", "stop playback"),
    ("/next", "/next", "play next visible result"),
    ("/prev", "/prev", "play previous visible result"),
    ("/play ", "/play <query|#>", "play by query or result number"),
    ("/play next", "/play next", "play next visible result"),
    ("/play prev", "/play prev", "play previous visible result"),
    ("/play random", "/play random", "play a random visible result"),
    ("/search ", "/search <query>", "search indexed tracks"),
    ("/find ", "/find <query>", "same as search"),
    ("/scan", "/scan", "open folder picker and scan"),
    ("/library", "/library", "show indexed tracks"),
    ("/songs", "/songs", "same as library"),
    ("/results", "/results", "print current results again"),
    ("/more", "/more", "show more current results"),
    ("/open ", "/open <query|#>", "show a track in Explorer"),
    ("/reveal ", "/reveal <query|#>", "same as open"),
    ("/shortcuts", "/shortcuts", "show keyboard shortcuts"),
    ("/aliases", "/aliases", "show alternate command names"),
    ("/language", "/language", "switch English / 中文"),
    ("/language zh", "/language zh", "switch to 中文"),
    ("/language en", "/language en", "switch to English"),
    ("/language status", "/language status", "show current language"),
    ("/language list", "/language list", "show available languages"),
    ("/quit", "/quit", "stop playback and exit"),
    ("/help", "/help", "show commands"),
    ("/home", "/home", "show the welcome screen"),
    ("/tips", "/tips", "show suggested next steps"),
    ("/now", "/now", "show current track"),
    ("/current", "/current", "same as now"),
    ("/status", "/status", "show shell status"),
    ("/devices", "/devices", "list output devices"),
    ("/health", "/health", "same as doctor"),
    ("library", "library", "show indexed tracks"),
    ("曲库", "曲库", "show indexed tracks"),
    ("list", "list", "same as library"),
    ("recent", "recent", "show recent tracks"),
    ("songs", "songs", "same as library"),
    ("tracks", "tracks", "same as library"),
    ("列表", "列表", "same as library"),
    ("歌曲", "歌曲", "same as library"),
    ("now", "now", "show current track"),
    ("当前", "当前", "show current track"),
    ("current", "current", "same as now"),
    ("playing", "playing", "same as now"),
    ("正在播放", "正在播放", "same as now"),
    ("status", "status", "show shell status"),
    ("状态", "状态", "show shell status"),
    ("devices", "devices", "list output devices"),
    ("设备", "设备", "list output devices"),
    ("device", "device", "same as devices"),
    ("outputs", "outputs", "same as devices"),
    ("output", "output", "same as devices"),
    ("输出", "输出", "same as devices"),
    ("doctor", "doctor", "print diagnostics"),
    ("诊断", "诊断", "same as doctor"),
    ("diagnose", "diagnose", "same as doctor"),
    ("diagnostics", "diagnostics", "same as doctor"),
    ("health", "health", "same as doctor"),
    ("check", "check", "same as doctor"),
    ("检查", "检查", "same as doctor"),
    ("errors", "errors", "show recent scan errors"),
    ("错误", "错误", "show recent scan errors"),
    ("open-db", "open-db", "open database folder"),
    ("help", "help", "show commands"),
    ("帮助", "帮助", "show commands"),
    ("commands", "commands", "same as help"),
    ("命令", "命令", "same as help"),
    ("?", "?", "same as help"),
    ("clear", "clear", "clear screen"),
    ("清屏", "清屏", "same as clear"),
    ("cls", "cls", "same as clear"),
    ("volume ", "volume <0-100>", "set playback volume"),
    ("seek ", "seek <time|%>", "jump within the current track"),
    ("queue", "queue", "show the session queue"),
    ("up next", "up next", "show the session queue"),
    ("meter", "meter", "show playback time and simulated cost"),
    ("tokens", "tokens", "same as meter"),
];

/// The Chinese form of each description.
pub const DESCRIPTIONS: [(&'static str, &'static str); 67] = [
    ("open folder picker and scan", "打开文件夹选择框并扫描"),
    ("choose a music folder", "选择音乐文件夹"),
    ("same as scan", "同 扫描"),
    ("scan folder path directly", "直接扫描文件夹路径"),
    ("search indexed tracks", "搜索已入库歌曲"),
    ("same as search", "同 搜索"),
    ("play by query or result number", "按关键词或编号播放"),
    ("play next visible result", "播放当前列表下一首"),
    ("play previous visible result", "播放当前列表上一首"),
    ("play a random visible result", "随机播放当前列表"),
    ("play last listed result", "播放列表最后一首"),
    ("same as play best", "同 play best"),
    ("play first listed result", "播放列表第一首"),
    ("same as play prev", "同 play prev"),
    ("pick something for me", "帮我随便选一首"),
    ("same as shuffle", "同 随机"),
    ("print current results again", "重新显示当前结果"),
    ("show more current results", "显示更多当前结果"),
    ("same as results", "同 结果"),
    ("show a track in Explorer", "在 Explorer 中定位歌曲"),
    ("show current track in Explorer", "在 Explorer 中定位当前歌曲"),
    ("same as open", "同 打开"),
    ("copy a track path", "复制歌曲路径"),
    ("copy current track path", "复制当前歌曲路径"),
    ("show track details", "显示歌曲详情"),
    ("show current track details", "显示当前歌曲详情"),
    ("show recent commands", "显示最近命令"),
    ("clear saved command history", "清空已保存历史"),
    ("repeat the last command", "重复上一条命令"),
    ("same as again", "同 again"),
    ("show suggested next steps", "显示下一步建议"),
    ("show the welcome screen", "显示欢迎页"),
    ("show keyboard shortcuts", "显示快捷键"),
    ("same as shortcuts", "同 快捷键"),
    ("show alternate command names", "显示命令别名"),
    ("same as aliases", "同 别名"),
    ("switch English / 中文", "切换 English / 中文"),
    ("switch to 中文", "切换到中文"),
    ("switch to English", "切换到 English"),
    ("show current language", "显示当前语言"),
    ("show available languages", "显示可用语言"),
    ("pause playback", "暂停播放"),
    ("resume playback", "继续播放"),
    ("stop playback", "停止播放"),
    ("exit", "退出"),
    ("same as quit", "同 退出"),
    ("stop playback and exit", "停止播放并退出"),
    ("show indexed tracks", "显示已入库歌曲"),
    ("show recent tracks", "显示最近歌曲"),
    ("show current track", "显示当前歌曲"),
    ("same as now", "同 当前"),
    ("show shell status", "显示 shell 状态"),
    ("list output devices", "列出输出设备"),
    ("same as devices", "同 设备"),
    ("print diagnostics", "打印诊断信息"),
    ("same as doctor", "同 诊断"),
    ("show recent scan errors", "显示最近扫描错误"),
    ("open database folder", "打开数据库文件夹"),
    ("show commands", "显示命令"),
    ("same as help", "同 帮助"),
    ("clear screen", "清屏"),
    ("same as clear", "同 清屏"),
    ("set playback volume", "设置播放音量"),
    ("jump within the current track", "在当前歌曲内跳转"),
    ("show the session queue", "显示播放队列"),
    ("show playback time and simulated cost", "显示播放时间和模拟费用"),
    ("same as meter", "同 meter"),
];

#[derive(Debug, Clone, Copy, PartialEq, Eq)]
pub struct CommandSuggestion {
    pub completion: &'static str,
    pub usage: &'static str,
    pub description: &'static str,
}

/// What the prompt shows for a suggestion.
pub struct Suggestion {
    pub completion: Seq<char>,
    pub description: Seq<char>,
}

#[derive(Debug, PartialEq, Eq)]
pub struct ShellSuggestion {
    pub completion: String,
    pub description: String,
}

impl View for ShellSuggestion {
    type V = Suggestion;

    open spec fn view(&self) -> Suggestion {
        Suggestion { completion: self.completion@, description: self.description@ }
    }
}

impl Clone for ShellSuggestion {
    fn clone(&self) -> (r: Self)
        ensures
            r == *self,
    {
        ShellSuggestion { completion: self.completion.clone(), description: self.description.clone() }
    }
}

/// What the prompt shows for a list of suggestions.
pub open spec fn shown(suggestions: Seq<ShellSuggestion>) -> Seq<Suggestion> {
    Seq::new(suggestions.len(), |i: int| suggestions[i]@)
}

/// Literal pairs of completion and description.
pub open spec fn shown_pairs(pairs: Seq<(&str, &str)>) -> Seq<Suggestion> {
    Seq::new(
        pairs.len(),
        |i: int| Suggestion { completion: pairs[i].0@, description: pairs[i].1@ },
    )
}

pub fn suggestions_of(pairs: &[(&'static str, &'static str)]) -> (r: Vec<ShellSuggestion>)
    ensures
        shown(r@) == shown_pairs(pairs@),
{
    let mut r: Vec<ShellSuggestion> = Vec::new();
    for i in 0..pairs.len()
        invariant
            r.len() == i,
            forall|j: int|
                0 <= j < i ==> (#[trigger] r@[j]).completion@ == pairs@[j].0@
                    && r@[j].description@ == pairs@[j].1@,
    {
        r.push(shell_suggestion(pairs[i].0, pairs[i].1));
    }
    assert(shown(r@) =~= shown_pairs(pairs@));
    r
}

pub fn shell_suggestion(completion: &str, description: &str) -> (r: ShellSuggestion)
    ensures
        r@ == (Suggestion { completion: completion@, description: description@ }),
{
    ShellSuggestion { completion: completion.to_owned(), description: description.to_owned() }
}

// ---------------------------------------------------------------- offering commands

/// Every command, in the order of their offering.
#[verifier::opaque]
pub open spec fn catalogue() -> Seq<CommandSuggestion> {
    Seq::new(
        COMMANDS@.len(),
        |i: int|
            CommandSuggestion {
                completion: COMMANDS@[i].0,
                usage: COMMANDS@[i].1,
                description: COMMANDS@[i].2,
            },
    )
}

pub fn all_commands() -> (r: Vec<CommandSuggestion>)
    ensures
        r@ == catalogue(),
{
    reveal(catalogue);
    let mut r: Vec<CommandSuggestion> = Vec::new();
    let commands = COMMANDS;
    for i in 0..commands.len()
        invariant
            commands@ == COMMANDS@,
            r@ == catalogue().take(i as int),
            catalogue().len() == commands@.len(),
            forall|j: int|
                0 <= j < commands@.len() ==> #[trigger] catalogue()[j] == (CommandSuggestion {
                    completion: commands@[j].0,
                    usage: commands@[j].1,
                    description: commands@[j].2,
                }),
    {
        assert(catalogue().take(i + 1) == catalogue().take(i as int).push(catalogue()[i as int]));
        r.push(
            CommandSuggestion {
                completion: commands[i].0,
                usage: commands[i].1,
                description: commands[i].2,
            },
        );
    }
    assert(catalogue().take(commands@.len() as int) == catalogue());
    r
}

/// Leading white space, colons and white space again dropped, ASCII letters in lower case.
pub open spec fn normalized_spec(input: Seq<char>) -> Seq<char> {
    text::ascii_lower_spec(
        text::trim_start_spec(
            text::strip_leading_spec(text::trim_start_spec(input), seq![':']),
        ),
    )
}

pub fn normalized_suggestion_input(input: &str) -> (r: String)
    ensures
        r@ == normalized_spec(input@),
{
    let rest = text::strip_leading(text::trim_start(input), &[':']);
    assert([':']@ =~= seq![':']);
    text::ascii_lower(text::trim_start(rest))
}

/// The commands whose completion or usage begins with the input.
pub open spec fn offered(normalized: Seq<char>) -> spec_fn(CommandSuggestion) -> bool {
    |command: CommandSuggestion|
        text::starts_with_spec(command.completion@, normalized) || text::starts_with_spec(
            command.usage@,
            normalized,
        )
}

pub open spec fn command_suggestions_spec(input: Seq<char>) -> Seq<CommandSuggestion> {
    catalogue().filter(offered(normalized_spec(input)))
}

pub fn command_suggestions(input: &str) -> (r: Vec<CommandSuggestion>)
    ensures
        r@ == command_suggestions_spec(input@),
{
    let normalized = normalized_suggestion_input(input);
    let commands = all_commands();
    let ghost keep = offered(normalized@);
    let mut r: Vec<CommandSuggestion> = Vec::new();
    proof {
        seqs::lemma_filter_none(catalogue(), keep);
    }
    for i in 0..commands.len()
        invariant
            commands@ == catalogue(),
            keep == offered(normalized@),
            r@ == catalogue().take(i as int).filter(keep),
    {
        proof {
            seqs::lemma_filter_step(catalogue(), keep, i as int);
        }
        let command = commands[i];
        if text::starts_with(command.completion, &normalized) || text::starts_with(
            command.usage,
            &normalized,
        ) {
            r.push(command);
        }
    }
    assert(catalogue().take(commands.len() as int) == catalogue());
    r
}

/// A blank input offers every command.
pub proof fn blank_input_offers_everything(input: Seq<char>)
    requires
        normalized_spec(input).len() == 0,
    ensures
        command_suggestions_spec(input) == catalogue(),
{
    let keep = offered(normalized_spec(input));
    assert forall|i: int| 0 <= i < catalogue().len() implies keep(#[trigger] catalogue()[i]) by {
        let command = catalogue()[i];
        assert(command.completion@.take(0) == normalized_spec(input));
    }
    lemma_filter_all(catalogue(), keep);
}

proof fn lemma_filter_all(s: Seq<CommandSuggestion>, p: spec_fn(CommandSuggestion) -> bool)
    requires
        forall|i: int| 0 <= i < s.len() ==> p(#[trigger] s[i]),
    ensures
        s.filter(p) == s,
    decreases s.len(),
{
    reveal(Seq::filter);
    if s.len() > 0 {
        lemma_filter_all(s.drop_last(), p);
        assert(p(s[s.len() - 1]));
    }
}

/// Every offered command begins with what was typed, in its completion or in its usage.
pub proof fn offered_commands_begin_with_input(input: Seq<char>, i: int)
    requires
        0 <= i < command_suggestions_spec(input).len(),
    ensures
        catalogue().contains(command_suggestions_spec(input)[i]),
        text::starts_with_spec(
            command_suggestions_spec(input)[i].completion@,
            normalized_spec(input),
        ) || text::starts_with_spec(
            command_suggestions_spec(input)[i].usage@,
            normalized_spec(input),
        ),
{
    seqs::lemma_filter_members(catalogue(), offered(normalized_spec(input)));
}

// ---------------------------------------------------------------- descriptions

/// The translation listed for `key`, else `key`.
pub open spec fn translated(pairs: Seq<(&str, &str)>, key: Seq<char>) -> Seq<char>
    decreases pairs.len(),
{
    if pairs.len() == 0 {
        key
    } else if pairs[0].0@ == key {
        pairs[0].1@
    } else {
        translated(pairs.skip(1), key)
    }
}

pub open spec fn description_spec(description: Seq<char>, language: ShellLanguage) -> Seq<char> {
    match language {
        ShellLanguage::English => description,
        ShellLanguage::Chinese => translated(DESCRIPTIONS@, description),
    }
}

pub fn localized_command_description(
    description: &'static str,
    language: ShellLanguage,
) -> (r: &'static str)
    ensures
        r@ == description_spec(description@, language),
{
    match language {
        ShellLanguage::English => description,
        ShellLanguage::Chinese => {
            let pairs = DESCRIPTIONS;
            let mut i: usize = 0;
            assert(pairs@.skip(0) == pairs@);
            while i < pairs.len()
                invariant
                    pairs@ == DESCRIPTIONS@,
                    language == ShellLanguage::Chinese,
                    i <= pairs@.len(),
                    translated(DESCRIPTIONS@, description@) == translated(
                        pairs@.skip(i as int),
                        description@,
                    ),
                decreases pairs@.len() - i,
            {
                if text::same_text(pairs[i].0, description) {
                    return pairs[i].1;
                }
                assert(pairs@.skip(i as int).skip(1) == pairs@.skip(i + 1));
                i = i + 1;
            }
            description
        },
    }
}

impl CommandSuggestion {
    pub open spec fn localized(self, language: ShellLanguage) -> Suggestion {
        Suggestion {
            completion: self.completion@,
            description: description_spec(self.description@, language),
        }
    }

    pub fn to_shell_suggestion(self, language: ShellLanguage) -> (r: ShellSuggestion)
        ensures
            r@ == self.localized(language),
    {
        shell_suggestion(
            self.completion,
            localized_command_description(self.description, language),
        )
    }
}

// ---------------------------------------------------------------- translating again

spec fn begins_in_ascii(s: Seq<char>) -> bool {
    s.len() > 0 && s[0] < '\u{80}'
}

spec fn begins_past_ascii(s: Seq<char>) -> bool {
    s.len() > 0 && s[0] >= '\u{80}'
}

/// Pair `i` leads from an English text to a Chinese one.
spec fn leads_over(i: int) -> bool {
    begins_in_ascii(DESCRIPTIONS@[i].0@) && begins_past_ascii(DESCRIPTIONS@[i].1@)
}

proof fn lemma_pairs_from_0()
    ensures
        forall|i: int| 0 <= i < 16 ==> #[trigger] leads_over(i),
{
    reveal_strlit("open folder picker and scan");
    reveal_strlit("打开文件夹选择框并扫描");
    assert(leads_over(0));
    reveal_strlit("choose a music folder");
    reveal_strlit("选择音乐文件夹");
    assert(leads_over(1));
    reveal_strlit("same as scan");
    reveal_strlit("同 扫描");
    assert(leads_over(2));
    reveal_strlit("scan folder path directly");
    reveal_strlit("直接扫描文件夹路径");
    assert(leads_over(3));
    reveal_strlit("search indexed tracks");
    reveal_strlit("搜索已入库歌曲");
    assert(leads_over(4));
    reveal_strlit("same as search");
    reveal_strlit("同 搜索");
    assert(leads_over(5));
    reveal_strlit("play by query or result number");
    reveal_strlit("按关键词或编号播放");
    assert(leads_over(6));
    reveal_strlit("play next visible result");
    reveal_strlit("播放当前列表下一首");
    assert(leads_over(7));
    reveal_strlit("play previous visible result");
    reveal_strlit("播放当前列表上一首");
    assert(leads_over(8));
    reveal_strlit("play a random visible result");
    reveal_strlit("随机播放当前列表");
    assert(leads_over(9));
    reveal_strlit("play last listed result");
    reveal_strlit("播放列表最后一首");
    assert(leads_over(10));
    reveal_strlit("same as play best");
    reveal_strlit("同 play best");
    assert(leads_over(11));
    reveal_strlit("play first listed result");
    reveal_strlit("播放列表第一首");
    assert(leads_over(12));
    reveal_strlit("same as play prev");
    reveal_strlit("同 play prev");
    assert(leads_over(13));
    reveal_strlit("pick something for me");
    reveal_strlit("帮我随便选一首");
    assert(leads_over(14));
    reveal_strlit("same as shuffle");
    reveal_strlit("同 随机");
    assert(leads_over(15));
}

proof fn lemma_pairs_from_16()
    ensures
        forall|i: int| 16 <= i < 32 ==> #[trigger] leads_over(i),
{
    reveal_strlit("print current results again");
    reveal_strlit("重新显示当前结果");
    assert(leads_over(16));
    reveal_strlit("show more current results");
    reveal_strlit("显示更多当前结果");
    assert(leads_over(17));
    reveal_strlit("same as results");
    reveal_strlit("同 结果");
    assert(leads_over(18));
    reveal_strlit("show a track in Explorer");
    reveal_strlit("在 Explorer 中定位歌曲");
    assert(leads_over(19));
    reveal_strlit("show current track in Explorer");
    reveal_strlit("在 Explorer 中定位当前歌曲");
    assert(leads_over(20));
    reveal_strlit("same as open");
    reveal_strlit("同 打开");
    assert(leads_over(21));
    reveal_strlit("copy a track path");
    reveal_strlit("复制歌曲路径");
    assert(leads_over(22));
    reveal_strlit("copy current track path");
    reveal_strlit("复制当前歌曲路径");
    assert(leads_over(23));
    reveal_strlit("show track details");
    reveal_strlit("显示歌曲详情");
    assert(leads_over(24));
    reveal_strlit("show current track details");
    reveal_strlit("显示当前歌曲详情");
    assert(leads_over(25));
    reveal_strlit("show recent commands");
    reveal_strlit("显示最近命令");
    assert(leads_over(26));
    reveal_strlit("clear saved command history");
    reveal_strlit("清空已保存历史");
    assert(leads_over(27));
    reveal_strlit("repeat the last command");
    reveal_strlit("重复上一条命令");
    assert(leads_over(28));
    reveal_strlit("same as again");
    reveal_strlit("同 again");
    assert(leads_over(29));
    reveal_strlit("show suggested next steps");
    reveal_strlit("显示下一步建议");
    assert(leads_over(30));
    reveal_strlit("show the welcome screen");
    reveal_strlit("显示欢迎页");
    assert(leads_over(31));
}

proof fn lemma_pairs_from_32()
    ensures
        forall|i: int| 32 <= i < 48 ==> #[trigger] leads_over(i),
{
    reveal_strlit("show keyboard shortcuts");
    reveal_strlit("显示快捷键");
    assert(leads_over(32));
    reveal_strlit("same as shortcuts");
    reveal_strlit("同 快捷键");
    assert(leads_over(33));
    reveal_strlit("show alternate command names");
    reveal_strlit("显示命令别名");
    assert(leads_over(34));
    reveal_strlit("same as aliases");
    reveal_strlit("同 别名");
    assert(leads_over(35));
    reveal_strlit("switch English / 中文");
    reveal_strlit("切换 English / 中文");
    assert(leads_over(36));
    reveal_strlit("switch to 中文");
    reveal_strlit("切换到中文");
    assert(leads_over(37));
    reveal_strlit("switch to English");
    reveal_strlit("切换到 English");
    assert(leads_over(38));
    reveal_strlit("show current language");
    reveal_strlit("显示当前语言");
    assert(leads_over(39));
    reveal_strlit("show available languages");
    reveal_strlit("显示可用语言");
    assert(leads_over(40));
    reveal_strlit("pause playback");
    reveal_strlit("暂停播放");
    assert(leads_over(41));
    reveal_strlit("resume playback");
    reveal_strlit("继续播放");
    assert(leads_over(42));
    reveal_strlit("stop playback");
    reveal_strlit("停止播放");
    assert(leads_over(43));
    reveal_strlit("exit");
    reveal_strlit("退出");
    assert(leads_over(44));
    reveal_strlit("same as quit");
    reveal_strlit("同 退出");
    assert(leads_over(45));
    reveal_strlit("stop playback and exit");
    reveal_strlit("停止播放并退出");
    assert(leads_over(46));
    reveal_strlit("show indexed tracks");
    reveal_strlit("显示已入库歌曲");
    assert(leads_over(47));
}

proof fn lemma_pairs_from_48()
    ensures
        forall|i: int| 48 <= i < 64 ==> #[trigger] leads_over(i),
{
    reveal_strlit("show recent tracks");
    reveal_strlit("显示最近歌曲");
    assert(leads_over(48));
    reveal_strlit("show current track");
    reveal_strlit("显示当前歌曲");
    assert(leads_over(49));
    reveal_strlit("same as now");
    reveal_strlit("同 当前");
    assert(leads_over(50));
    reveal_strlit("show shell status");
    reveal_strlit("显示 shell 状态");
    assert(leads_over(51));
    reveal_strlit("list output devices");
    reveal_strlit("列出输出设备");
    assert(leads_over(52));
    reveal_strlit("same as devices");
    reveal_strlit("同 设备");
    assert(leads_over(53));
    reveal_strlit("print diagnostics");
    reveal_strlit("打印诊断信息");
    assert(leads_over(54));
    reveal_strlit("same as doctor");
    reveal_strlit("同 诊断");
    assert(leads_over(55));
    reveal_strlit("show recent scan errors");
    reveal_strlit("显示最近扫描错误");
    assert(leads_over(56));
    reveal_strlit("open database folder");
    reveal_strlit("打开数据库文件夹");
    assert(leads_over(57));
    reveal_strlit("show commands");
    reveal_strlit("显示命令");
    assert(leads_over(58));
    reveal_strlit("same as help");
    reveal_strlit("同 帮助");
    assert(leads_over(59));
    reveal_strlit("clear screen");
    reveal_strlit("清屏");
    assert(leads_over(60));
    reveal_strlit("same as clear");
    reveal_strlit("同 清屏");
    assert(leads_over(61));
    reveal_strlit("set playback volume");
    reveal_strlit("设置播放音量");
    assert(leads_over(62));
    reveal_strlit("jump within the current track");
    reveal_strlit("在当前歌曲内跳转");
    assert(leads_over(63));
}

proof fn lemma_pairs_from_64()
    ensures
        forall|i: int| 64 <= i < 67 ==> #[trigger] leads_over(i),
{
    reveal_strlit("show the session queue");
    reveal_strlit("显示播放队列");
    assert(leads_over(64));
    reveal_strlit("show playback time and simulated cost");
    reveal_strlit("显示播放时间和模拟费用");
    assert(leads_over(65));
    reveal_strlit("same as meter");
    reveal_strlit("同 meter");
    assert(leads_over(66));
}

proof fn lemma_translation_has_ended(from: int, key: Seq<char>)
    requires
        0 <= from <= DESCRIPTIONS@.len(),
        forall|i: int| 0 <= i < DESCRIPTIONS@.len() ==> #[trigger] leads_over(i),
    ensures
        translated(DESCRIPTIONS@.skip(from), key) == key || begins_past_ascii(
            translated(DESCRIPTIONS@.skip(from), key),
        ),
        begins_past_ascii(key) ==> translated(DESCRIPTIONS@.skip(from), key) == key,
    decreases DESCRIPTIONS@.len() - from,
{
    if from < DESCRIPTIONS@.len() {
        assert(leads_over(from));
        assert(DESCRIPTIONS@.skip(from).skip(1) == DESCRIPTIONS@.skip(from + 1));
        lemma_translation_has_ended(from + 1, key);
    }
}

/// English leaves every description as it is, and translating a second time changes nothing.
pub proof fn translating_again_changes_nothing(
    description: Seq<char>,
    language: ShellLanguage,
    again: ShellLanguage,
)
    requires
        again == language || again == ShellLanguage::English,
    ensures
        description_spec(description, ShellLanguage::English) == description,
        description_spec(description_spec(description, language), again) == description_spec(
            description,
            language,
        ),
{
    lemma_pairs_from_0();
    lemma_pairs_from_16();
    lemma_pairs_from_32();
    lemma_pairs_from_48();
    lemma_pairs_from_64();
    assert(DESCRIPTIONS@.skip(0) == DESCRIPTIONS@);
    lemma_translation_has_ended(0, description);
    lemma_translation_has_ended(0, translated(DESCRIPTIONS@, description));
}

/// Every command that begins with what was typed is offered, and no other one.
pub proof fn commands_are_offered_by_their_beginning(input: Seq<char>, i: int)
    requires
        0 <= i < catalogue().len(),
    ensures
        command_suggestions_spec(input).contains(catalogue()[i]) <==> text::starts_with_spec(
            catalogue()[i].completion@,
            normalized_spec(input),
        ) || text::starts_with_spec(catalogue()[i].usage@, normalized_spec(input)),
{
    let keep = offered(normalized_spec(input));
    seqs::lemma_filter_members(catalogue(), keep);
    if keep(catalogue()[i]) {
        seqs::lemma_filter_keeps(catalogue(), keep, i);
    }
    let found = command_suggestions_spec(input);
    if found.contains(catalogue()[i]) {
        let k = choose|k: int| 0 <= k < found.len() && found[k] == catalogue()[i];
        assert(keep(found[k]));
    }
}

/// A listed description is given in Chinese as it is listed, as long as it is listed once.
pub proof fn listed_descriptions_are_translated(i: int)
    requires
        0 <= i < DESCRIPTIONS@.len(),
        forall|k: int| 0 <= k < i ==> (#[trigger] DESCRIPTIONS@[k]).0@ != DESCRIPTIONS@[i].0@,
    ensures
        description_spec(DESCRIPTIONS@[i].0@, ShellLanguage::Chinese) == DESCRIPTIONS@[i].1@,
{
    assert(DESCRIPTIONS@.skip(0) == DESCRIPTIONS@);
    lemma_translation_at(0, i);
}

proof fn lemma_translation_at(from: int, i: int)
    requires
        0 <= from <= i < DESCRIPTIONS@.len(),
        forall|k: int| from <= k < i ==> (#[trigger] DESCRIPTIONS@[k]).0@ != DESCRIPTIONS@[i].0@,
    ensures
        translated(DESCRIPTIONS@.skip(from), DESCRIPTIONS@[i].0@) == DESCRIPTIONS@[i].1@,
    decreases i - from,
{
    if from < i {
        assert(DESCRIPTIONS@.skip(from).skip(1) == DESCRIPTIONS@.skip(from + 1));
        assert(DESCRIPTIONS@[from].0@ != DESCRIPTIONS@[i].0@);
        lemma_translation_at(from + 1, i);
    }
}

/// What is typed is compared in lower case, without a colon or white space before it.
pub proof fn typed_lines_are_compared_plainly(s: Seq<char>)
    requires
        s.len() > 0,
        !text::white_space(s[0]),
        s[0] != ':',
    ensures
        normalized_spec(s) == text::ascii_lower_spec(s),
        normalized_spec(":"@ + s) == text::ascii_lower_spec(s),
        normalized_spec(" "@ + s) == text::ascii_lower_spec(s),
{
    reveal_strlit(":");
    reveal_strlit(" ");
    let marks = seq![':'];
    assert(marks[0] == ':');
    assert(marks.contains(':'));
    assert(forall|c: char| marks.contains(c) ==> c == ':');
    assert(text::trim_start_spec(s) == s);
    assert(text::strip_leading_spec(s, marks) == s);
    let marked = ":"@ + s;
    assert(marked[0] == ':' && marked.skip(1) =~= s);
    assert(text::trim_start_spec(marked) == marked);
    assert(text::strip_leading_spec(marked, marks) == s);
    let spaced = " "@ + s;
    assert(spaced[0] == ' ' && spaced.skip(1) =~= s);
    assert(text::trim_start_spec(spaced) == s);
}

} // verus!
