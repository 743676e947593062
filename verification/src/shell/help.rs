//! The help pages.

use crate::shell::language;
use crate::shell::language::ShellLanguage;
use crate::shell::nearest;
use crate::text;
use vstd::prelude::*;

verus! {

pub const SHORTCUTS_EN: [&'static str; 13] = [
    "shortcuts:",
    "  Up/Down          select suggestions; browse history on an empty prompt",
    "  Tab              complete the selected suggestion",
    "  Enter            run complete commands or accept selected suggestions",
    "  Left/Right       move the cursor",
    "  Ctrl+Left/Right  jump by word",
    "  Ctrl+W           delete the previous word",
    "  Ctrl+K           delete to the end of the line",
    "  Ctrl+U           clear before the cursor",
    "  Ctrl+L           clear the screen",
    "  Ctrl+C           exit the shell",
    "",
    "playback: pause, resume, stop, next, prev, shuffle, now",
];

pub const SHORTCUTS_ZH: [&'static str; 13] = [
    "快捷键:",
    "  上/下            选择候选；空输入时浏览历史",
    "  Tab              补全当前候选",
    "  Enter            执行完整命令或接受候选",
    "  左/右            移动光标",
    "  Ctrl+左/右       按词跳转",
    "  Ctrl+W           删除前一个词",
    "  Ctrl+K           删除到行尾",
    "  Ctrl+U           清空光标前内容",
    "  Ctrl+L           清屏",
    "  Ctrl+C           退出 shell",
    "",
    "播放控制: 暂停、继续、停止、下一首、上一首、随机、当前",
];

pub const ALIASES_EN: [&'static str; 26] = [
    "aliases:",
    "  help        h, ?, commands, /help",
    "  帮助        help, commands, ?",
    "  library     list, recent, ls, songs, tracks",
    "  曲库        library, list, songs, tracks",
    "  search      find, bare keywords",
    "  搜索        search, find",
    "  play        1, #1, play best, play first, play last",
    "  播放        play, 播放 1, 播放 下一首, 播放 随机",
    "  play next   next, play prev, prev, previous",
    "  shuffle     random, surprise, play random, play surprise",
    "  随机        shuffle, random, surprise",
    "  now         current, playing",
    "  当前        now, current, playing",
    "  open        reveal, folder, where",
    "  打开        open, reveal, folder, where",
    "  devices     device, output, outputs",
    "  设备        devices, outputs",
    "  doctor      health, diagnose, diagnostics, check",
    "  诊断        doctor, health, check",
    "  again       repeat, !!",
    "  clear       cls",
    "  quit        q, exit, /quit",
    "  shortcuts   keys, /shortcuts",
    "",
    "Type any alias exactly like a normal command.",
];

pub const ALIASES_ZH: [&'static str; 17] = [
    "别名:",
    "  帮助        help, h, ?, commands, /help",
    "  语言        language, lang, /language",
    "  曲库        library, list, recent, ls, songs, tracks",
    "  搜索        search, find, 也可以直接输入关键词",
    "  播放        play, 播放 1, 播放 下一首, 播放 随机",
    "  下一首      next, play next",
    "  上一首      prev, previous, play prev",
    "  随机        shuffle, random, surprise",
    "  当前        now, current, playing",
    "  打开        open, reveal, folder, where",
    "  设备        devices, output, outputs",
    "  诊断        doctor, health, check",
    "  快捷键      shortcuts, keys",
    "  退出        q, quit, exit, /quit",
    "",
    "中英文命令可以混用，照你顺手的来。",
];

pub const OVERVIEW_HELP_EN: [&'static str; 44] = [
    "commands:",
    "  scan              open a Windows folder picker and scan",
    "  add               same as scan",
    "  scan add          same as scan",
    "  scan <folder>     scan a folder path directly",
    "  search <query>    search title, artist, album, filename, path",
    "  library           show recent indexed tracks",
    "  list              same as library",
    "  results           print current search/list results again",
    "  more              show more current search/list results",
    "  play <n>          play numbered result",
    "  1                 play result #1 directly",
    "  play              play result #1",
    "  shuffle           play a random visible result",
    "  surprise          pick something for me",
    "  info <n>          show details for numbered result",
    "  open              show current/result #1 in Explorer",
    "  copy              copy current/result #1 path",
    "  again             repeat the last command",
    "  pause             pause current playback",
    "  resume            resume current playback",
    "  stop              stop current playback",
    "  next              play next visible result",
    "  prev              play previous visible result",
    "  tips              show what to do next",
    "  home              show the welcome screen",
    "  shortcuts         show keyboard shortcuts",
    "  aliases           show alternate command names",
    "  history           show recent commands",
    "  now               show current track",
    "  status            show shell status",
    "  devices           list output devices",
    "  doctor            print diagnostics",
    "  errors            show recent scan failures",
    "  open-db           open the database folder",
    "  clear             clear the screen",
    "  /help             slash commands also work",
    "  help <command>    explain one command",
    "  commands          same as help",
    "  ?                 same as help",
    "  quit              exit",
    "",
    "Type a prefix to list matches. Up/Down selects. Left/Right edits. Ctrl+Left/Right jumps words.",
    "History is saved between sessions; use Up/Down when the prompt is empty.",
];

pub const SCAN_HELP_EN: [&'static str; 8] = [
    "help: scan",
    "  scan              choose a music folder with a Windows picker",
    "  add               same as scan",
    "  scan add          same as scan",
    "  scan D:\\Music     scan a folder path directly",
    "  errors            show recent files that failed during scanning",
    "",
    "After scanning, use play, shuffle, surprise, next, or prev to choose from results.",
];

pub const SEARCH_HELP_EN: [&'static str; 11] = [
    "help: search",
    "  search moon       search indexed tracks",
    "  find moon         same as search",
    "  search            pick from visible track titles",
    "  moon halo         bare text also searches the library",
    "  results           print the current search results again",
    "  more              show more current search results",
    "  library           reset to recent indexed tracks",
    "  list              same as library",
    "",
    "Tip: after search, type play, info, open, or copy and pick a visible result.",
];

pub const LIBRARY_HELP_EN: [&'static str; 12] = [
    "help: library",
    "  library           show recent indexed tracks",
    "  list              same as library",
    "  recent            same as library",
    "  ls                same as library",
    "  songs             same as library",
    "  tracks            same as library",
    "  results           print current results without resetting them",
    "  r                 same as results",
    "  more              show more current results",
    "",
    "After listing, type 1, play <pick>, shuffle, surprise, info <pick>, next, prev, open <pick>, or copy <pick>.",
];

pub const PLAY_HELP_EN: [&'static str; 22] = [
    "help: play",
    "  play              play result #1",
    "  7                 play result #7 directly",
    "  #7                same as 7",
    "  play #7           same as play 7",
    "  play <pick>       pick from current results",
    "  play 7            play result #7",
    "  play best         play first listed result",
    "  play first        same as play best",
    "  play last         play last listed result",
    "  play next         play next visible result",
    "  play prev         play previous visible result",
    "  play random       play a random visible result",
    "  play surprise     pick something for me",
    "  shuffle           same as play random",
    "  surprise          same as play surprise",
    "  random            same as shuffle",
    "  play <query>      search and play best match",
    "  next              play next visible result",
    "  prev              play previous visible result",
    "",
    "During playback, the prompt stays usable: pause, resume, stop, next, prev, quit.",
];

pub const OPEN_HELP_EN: [&'static str; 8] = [
    "help: open",
    "  open              show current track, or result #1, in Explorer",
    "  open current      show current track in Explorer",
    "  open 7            show result #7 in Explorer",
    "  open <query>      search and show best match in Explorer",
    "  reveal <pick>     same as open",
    "  folder            show current track in Explorer",
    "  where             same as folder",
];

pub const COPY_HELP_EN: [&'static str; 5] = [
    "help: copy",
    "  copy              copy current track, or result #1, to clipboard",
    "  copy current      copy current track path",
    "  copy 7            copy result #7 path",
    "  copy <query>      search and copy best match path",
];

pub const INFO_HELP_EN: [&'static str; 8] = [
    "help: info",
    "  now               show current track details",
    "  current           same as now",
    "  playing           same as now",
    "  info              show current track, or result #1, details",
    "  info current      show current track details",
    "  info 7            show result #7 details",
    "  info <query>      search and show best match details",
];

pub const AGAIN_HELP_EN: [&'static str; 4] = [
    "help: again",
    "  again             repeat the last non-again command",
    "  repeat            same as again",
    "  !!                same as again",
];

pub const HISTORY_HELP_EN: [&'static str; 5] = [
    "help: history",
    "  history           show recent saved commands",
    "  history 50        show the last 50 saved commands",
    "  !7                replay history entry #7",
    "  history clear     clear saved command history",
];

pub const LANGUAGE_HELP_EN: [&'static str; 7] = [
    "help: language",
    "  language          toggle English / 中文",
    "  language zh       switch to 中文",
    "  language en       switch to English",
    "  language status   show current language",
    "  language list     show available languages",
    "  /language         slash form also works",
];

pub const ERRORS_HELP_EN: [&'static str; 4] = [
    "help: errors",
    "  errors            show recent files that failed during scanning",
    "",
    "Use this after scan reports failed files.",
];

pub const PLAYBACK_HELP_EN: [&'static str; 11] = [
    "help: playback",
    "  pause             pause current playback",
    "  resume            resume playback",
    "  stop              stop playback",
    "  next              stop current track and play next visible result",
    "  prev              stop current track and play previous visible result",
    "  shuffle           stop current track and play a random visible result",
    "  surprise          stop current track and pick something for me",
    "  now               show current track details",
    "",
    "The prompt changes to echo playing> while music is active.",
];

pub const DIAGNOSTICS_HELP_EN: [&'static str; 9] = [
    "help: diagnostics",
    "  status            show library, results, device, and playback state",
    "  devices           list output devices",
    "  device            same as devices",
    "  outputs           same as devices",
    "  doctor            print runtime and audio backend diagnostics",
    "  diagnose          same as doctor",
    "  health            same as doctor",
    "  open-db           open the database folder in Explorer",
];

pub const CLEAR_HELP_EN: [&'static str; 3] = [
    "help: clear",
    "  clear             clear the terminal and show the welcome screen",
    "  cls               same as clear",
];

pub const QUIT_HELP_EN: [&'static str; 5] = [
    "help: quit",
    "  quit              stop playback and exit",
    "  q                 same as quit",
    "  exit              same as quit",
    "  /quit             slash form also works",
];

pub const NEXT_HELP_EN: [&'static str; 6] = [
    "help: next",
    "  next              play next visible result",
    "  prev              play previous visible result",
    "  previous          same as prev",
    "",
    "If nothing is playing, next starts result #1 and prev starts the last result.",
];

pub const TIPS_HELP_EN: [&'static str; 4] = [
    "help: tips",
    "  tips              show the most useful commands for the current state",
    "",
    "Empty Enter does the same thing, so the shell never leaves you stranded.",
];

pub const HOME_HELP_EN: [&'static str; 5] = [
    "help: home",
    "  home              show the welcome screen and current library view",
    "  clear             clear the terminal and then show the welcome screen",
    "",
    "Use this when you feel lost and want the shell to re-orient you.",
];

pub const OVERVIEW_HELP_ZH: [&'static str; 25] = [
    "命令:",
    "  扫描              选择音乐文件夹并扫描",
    "  扫描 D:\\Music     直接扫描文件夹路径",
    "  搜索 <关键词>      搜索曲名、艺人、专辑、文件名、路径",
    "  曲库              显示最近入库歌曲",
    "  播放              播放第 1 个结果",
    "  播放 7            播放第 7 个结果",
    "  播放 #7           同 play #7",
    "  播放 下一首       播放当前列表下一首",
    "  播放 上一首       播放当前列表上一首",
    "  随机              随机播放当前可见结果",
    "  暂停 / 继续 / 停止 控制当前播放",
    "  当前              查看正在播放",
    "  打开 1            在 Explorer 中定位结果",
    "  复制 1            复制结果路径",
    "  更多              展开更多结果",
    "  状态              查看 shell 状态",
    "  设备              查看输出设备",
    "  诊断              查看运行诊断",
    "  语言              切换 English / 中文",
    "  快捷键            查看键盘操作",
    "  别名              查看中英文别名",
    "  退出              离开 shell",
    "",
    "输入前缀会显示候选；上下键选择，Tab 补全，Enter 执行。",
];

pub const LANGUAGE_HELP_ZH: [&'static str; 7] = [
    "帮助: 语言",
    "  语言              在 English / 中文 之间切换",
    "  语言 zh           切换到中文",
    "  language en       switch to English",
    "  语言 状态         查看当前语言",
    "  语言 列表         查看可用语言",
    "  /language         slash 命令也可以用",
];

pub const PLAY_HELP_ZH: [&'static str; 9] = [
    "帮助: 播放",
    "  播放              播放第 1 个结果",
    "  播放 7            播放第 7 个结果",
    "  播放 #7           同 play #7",
    "  播放 下一首       播放当前列表下一首",
    "  播放 上一首       播放当前列表上一首",
    "  播放 随机         随机播放当前可见结果",
    "  随机              同 play random",
    "  播放 <关键词>     搜索并播放最佳匹配",
];

pub const SEARCH_HELP_ZH: [&'static str; 6] = [
    "帮助: 搜索",
    "  搜索 moon         搜索已入库歌曲",
    "  找 moon           同 搜索",
    "  moon halo         直接输入关键词也会搜索",
    "  结果              重新显示当前结果",
    "  更多              显示更多结果",
];

pub const SCAN_HELP_ZH: [&'static str; 5] = [
    "帮助: 扫描",
    "  扫描              打开 Windows 文件夹选择框",
    "  添加              同 扫描",
    "  扫描 D:\\Music     直接扫描路径",
    "  错误              查看扫描失败文件",
];

// ---------------------------------------------------------------- pages

#[derive(Debug, Clone, Copy, PartialEq, Eq, Structural)]
pub enum HelpPage {
    Overview,
    Scan,
    Search,
    Library,
    Play,
    Open,
    Copy,
    Info,
    Again,
    History,
    Language,
    Errors,
    Playback,
    Diagnostics,
    Clear,
    Quit,
    Next,
    Tips,
    Home,
    Shortcuts,
    Aliases,
}

/// The topics of the English pages, in the order of their characters.
pub const TOPICS_EN: [(&'static str, HelpPage); 95] = [
    ("", HelpPage::Overview),
    ("!!", HelpPage::Again),
    ("add", HelpPage::Scan),
    ("again", HelpPage::Again),
    ("alias", HelpPage::Aliases),
    ("aliases", HelpPage::Aliases),
    ("check", HelpPage::Diagnostics),
    ("clear", HelpPage::Clear),
    ("cls", HelpPage::Clear),
    ("copy", HelpPage::Copy),
    ("current", HelpPage::Info),
    ("device", HelpPage::Diagnostics),
    ("devices", HelpPage::Diagnostics),
    ("diagnose", HelpPage::Diagnostics),
    ("diagnostics", HelpPage::Diagnostics),
    ("doctor", HelpPage::Diagnostics),
    ("errors", HelpPage::Errors),
    ("exit", HelpPage::Quit),
    ("find", HelpPage::Search),
    ("folder", HelpPage::Open),
    ("health", HelpPage::Diagnostics),
    ("history", HelpPage::History),
    ("home", HelpPage::Home),
    ("i", HelpPage::Info),
    ("info", HelpPage::Info),
    ("keys", HelpPage::Shortcuts),
    ("lang", HelpPage::Language),
    ("language", HelpPage::Language),
    ("library", HelpPage::Library),
    ("list", HelpPage::Library),
    ("ls", HelpPage::Library),
    ("next", HelpPage::Next),
    ("now", HelpPage::Info),
    ("open", HelpPage::Open),
    ("open-db", HelpPage::Diagnostics),
    ("output", HelpPage::Diagnostics),
    ("outputs", HelpPage::Diagnostics),
    ("pause", HelpPage::Playback),
    ("play", HelpPage::Play),
    ("playback", HelpPage::Playback),
    ("playing", HelpPage::Info),
    ("prev", HelpPage::Next),
    ("previous", HelpPage::Next),
    ("q", HelpPage::Quit),
    ("quit", HelpPage::Quit),
    ("r", HelpPage::Library),
    ("random", HelpPage::Play),
    ("recent", HelpPage::Library),
    ("repeat", HelpPage::Again),
    ("results", HelpPage::Library),
    ("resume", HelpPage::Playback),
    ("reveal", HelpPage::Open),
    ("scan", HelpPage::Scan),
    ("search", HelpPage::Search),
    ("shortcuts", HelpPage::Shortcuts),
    ("shuffle", HelpPage::Play),
    ("songs", HelpPage::Library),
    ("status", HelpPage::Diagnostics),
    ("stop", HelpPage::Playback),
    ("surprise", HelpPage::Play),
    ("tips", HelpPage::Tips),
    ("tracks", HelpPage::Library),
    ("where", HelpPage::Open),
    ("上一首", HelpPage::Next),
    ("下一步", HelpPage::Tips),
    ("下一首", HelpPage::Next),
    ("位置", HelpPage::Open),
    ("信息", HelpPage::Info),
    ("停止", HelpPage::Playback),
    ("列表", HelpPage::Library),
    ("别名", HelpPage::Aliases),
    ("复制", HelpPage::Copy),
    ("当前", HelpPage::Info),
    ("快捷键", HelpPage::Shortcuts),
    ("打开", HelpPage::Open),
    ("找", HelpPage::Search),
    ("提示", HelpPage::Tips),
    ("搜索", HelpPage::Search),
    ("播放", HelpPage::Play),
    ("暂停", HelpPage::Playback),
    ("曲库", HelpPage::Library),
    ("检查", HelpPage::Diagnostics),
    ("歌曲", HelpPage::Library),
    ("正在播放", HelpPage::Info),
    ("状态", HelpPage::Diagnostics),
    ("结果", HelpPage::Library),
    ("继续", HelpPage::Playback),
    ("设备", HelpPage::Diagnostics),
    ("诊断", HelpPage::Diagnostics),
    ("详情", HelpPage::Info),
    ("语言", HelpPage::Language),
    ("输出", HelpPage::Diagnostics),
    ("随便", HelpPage::Play),
    ("随机", HelpPage::Play),
    ("首页", HelpPage::Home),
];

/// The topics that have a page in Chinese, in the same order.
pub const TOPICS_ZH: [(&'static str, HelpPage); 25] = [
    ("", HelpPage::Overview),
    ("add", HelpPage::Scan),
    ("alias", HelpPage::Aliases),
    ("aliases", HelpPage::Aliases),
    ("find", HelpPage::Search),
    ("keys", HelpPage::Shortcuts),
    ("lang", HelpPage::Language),
    ("language", HelpPage::Language),
    ("play", HelpPage::Play),
    ("random", HelpPage::Play),
    ("scan", HelpPage::Scan),
    ("search", HelpPage::Search),
    ("shortcuts", HelpPage::Shortcuts),
    ("shuffle", HelpPage::Play),
    ("surprise", HelpPage::Play),
    ("别名", HelpPage::Aliases),
    ("快捷键", HelpPage::Shortcuts),
    ("扫描", HelpPage::Scan),
    ("找", HelpPage::Search),
    ("搜索", HelpPage::Search),
    ("播放", HelpPage::Play),
    ("添加", HelpPage::Scan),
    ("语言", HelpPage::Language),
    ("随便", HelpPage::Play),
    ("随机", HelpPage::Play),
];

/// The lines of an English page.
pub open spec fn page_lines_en(page: HelpPage) -> Seq<Seq<char>> {
    match page {
        HelpPage::Overview => text::literals(OVERVIEW_HELP_EN@),
        HelpPage::Scan => text::literals(SCAN_HELP_EN@),
        HelpPage::Search => text::literals(SEARCH_HELP_EN@),
        HelpPage::Library => text::literals(LIBRARY_HELP_EN@),
        HelpPage::Play => text::literals(PLAY_HELP_EN@),
        HelpPage::Open => text::literals(OPEN_HELP_EN@),
        HelpPage::Copy => text::literals(COPY_HELP_EN@),
        HelpPage::Info => text::literals(INFO_HELP_EN@),
        HelpPage::Again => text::literals(AGAIN_HELP_EN@),
        HelpPage::History => text::literals(HISTORY_HELP_EN@),
        HelpPage::Language => text::literals(LANGUAGE_HELP_EN@),
        HelpPage::Errors => text::literals(ERRORS_HELP_EN@),
        HelpPage::Playback => text::literals(PLAYBACK_HELP_EN@),
        HelpPage::Diagnostics => text::literals(DIAGNOSTICS_HELP_EN@),
        HelpPage::Clear => text::literals(CLEAR_HELP_EN@),
        HelpPage::Quit => text::literals(QUIT_HELP_EN@),
        HelpPage::Next => text::literals(NEXT_HELP_EN@),
        HelpPage::Tips => text::literals(TIPS_HELP_EN@),
        HelpPage::Home => text::literals(HOME_HELP_EN@),
        HelpPage::Shortcuts => text::literals(SHORTCUTS_EN@),
        HelpPage::Aliases => text::literals(ALIASES_EN@),
    }
}

fn english_page(page: HelpPage) -> (r: Vec<String>)
    ensures
        text::texts(r@) == page_lines_en(page),
{
    match page {
        HelpPage::Overview => text::lines_of(&OVERVIEW_HELP_EN),
        HelpPage::Scan => text::lines_of(&SCAN_HELP_EN),
        HelpPage::Search => text::lines_of(&SEARCH_HELP_EN),
        HelpPage::Library => text::lines_of(&LIBRARY_HELP_EN),
        HelpPage::Play => text::lines_of(&PLAY_HELP_EN),
        HelpPage::Open => text::lines_of(&OPEN_HELP_EN),
        HelpPage::Copy => text::lines_of(&COPY_HELP_EN),
        HelpPage::Info => text::lines_of(&INFO_HELP_EN),
        HelpPage::Again => text::lines_of(&AGAIN_HELP_EN),
        HelpPage::History => text::lines_of(&HISTORY_HELP_EN),
        HelpPage::Language => text::lines_of(&LANGUAGE_HELP_EN),
        HelpPage::Errors => text::lines_of(&ERRORS_HELP_EN),
        HelpPage::Playback => text::lines_of(&PLAYBACK_HELP_EN),
        HelpPage::Diagnostics => text::lines_of(&DIAGNOSTICS_HELP_EN),
        HelpPage::Clear => text::lines_of(&CLEAR_HELP_EN),
        HelpPage::Quit => text::lines_of(&QUIT_HELP_EN),
        HelpPage::Next => text::lines_of(&NEXT_HELP_EN),
        HelpPage::Tips => text::lines_of(&TIPS_HELP_EN),
        HelpPage::Home => text::lines_of(&HOME_HELP_EN),
        HelpPage::Shortcuts => text::lines_of(&SHORTCUTS_EN),
        HelpPage::Aliases => text::lines_of(&ALIASES_EN),
    }
}

/// The lines of a page in Chinese, where it has one of its own.
pub open spec fn page_lines_zh(page: HelpPage) -> Seq<Seq<char>> {
    match page {
        HelpPage::Overview => text::literals(OVERVIEW_HELP_ZH@),
        HelpPage::Language => text::literals(LANGUAGE_HELP_ZH@),
        HelpPage::Play => text::literals(PLAY_HELP_ZH@),
        HelpPage::Search => text::literals(SEARCH_HELP_ZH@),
        HelpPage::Scan => text::literals(SCAN_HELP_ZH@),
        HelpPage::Shortcuts => text::literals(SHORTCUTS_ZH@),
        HelpPage::Aliases => text::literals(ALIASES_ZH@),
        _ => page_lines_en(page),
    }
}

fn chinese_page(page: HelpPage) -> (r: Vec<String>)
    ensures
        text::texts(r@) == page_lines_zh(page),
{
    match page {
        HelpPage::Overview => text::lines_of(&OVERVIEW_HELP_ZH),
        HelpPage::Language => text::lines_of(&LANGUAGE_HELP_ZH),
        HelpPage::Play => text::lines_of(&PLAY_HELP_ZH),
        HelpPage::Search => text::lines_of(&SEARCH_HELP_ZH),
        HelpPage::Scan => text::lines_of(&SCAN_HELP_ZH),
        HelpPage::Shortcuts => text::lines_of(&SHORTCUTS_ZH),
        HelpPage::Aliases => text::lines_of(&ALIASES_ZH),
        _ => english_page(page),
    }
}

/// The page that the table gives to `topic` from entry `from` on.
pub open spec fn page_from(
    topics: Seq<(&str, HelpPage)>,
    topic: Seq<char>,
    from: int,
) -> Option<HelpPage>
    decreases topics.len() - from,
{
    if from < 0 || from >= topics.len() {
        None
    } else if topics[from].0@ == topic {
        Some(topics[from].1)
    } else {
        page_from(topics, topic, from + 1)
    }
}

fn find_page(topics: &[(&'static str, HelpPage)], topic: &str) -> (r: Option<HelpPage>)
    ensures
        r == page_from(topics@, topic@, 0),
{
    let mut i: usize = 0;
    while i < topics.len()
        invariant
            i <= topics@.len(),
            page_from(topics@, topic@, 0) == page_from(topics@, topic@, i as int),
        decreases topics@.len() - i,
    {
        if text::same_text(topics[i].0, topic) {
            return Some(topics[i].1);
        }
        i = i + 1;
    }
    None
}

/// The topic as it is looked up: trimmed, without leading slashes, in lower case.
pub open spec fn topic_spec(topic: Seq<char>) -> Seq<char> {
    text::ascii_lower_spec(text::strip_leading_spec(text::trim_spec(topic), seq!['/']))
}

fn normalized_topic(topic: &str) -> (r: String)
    ensures
        r@ == topic_spec(topic@),
{
    let marks = ['/'];
    assert(marks@ =~= seq!['/']);
    text::ascii_lower(text::strip_leading(text::trim(topic), &marks))
}

/// The nearest commands where there are any, some topics where there are none.
pub open spec fn missing_topic_spec(topic: Seq<char>) -> Seq<Seq<char>> {
    let nearest = nearest::nearest_spec(topic);
    if nearest.len() == 0 {
        seq![
            "no help topic for: "@ + topic,
            "try: help play, help search, help scan, or help devices"@,
        ]
    } else {
        seq!["no help topic for: "@ + topic, "did you mean:"@] + Seq::new(
            nearest.len(),
            |i: int| "  help "@ + text::trim_spec(nearest[i].completion@),
        )
    }
}

fn missing_topic_lines(topic: &str) -> (r: Vec<String>)
    ensures
        text::texts(r@) == missing_topic_spec(topic@),
{
    let suggestions = nearest::nearest_command_suggestions(topic);
    let ghost near = nearest::nearest_spec(topic@);
    let ghost expected = missing_topic_spec(topic@);
    let mut lines: Vec<String> = Vec::new();
    lines.push(text::text2("no help topic for: ", topic));
    if suggestions.len() == 0 {
        lines.push("try: help play, help search, help scan, or help devices".to_owned());
        assert(text::texts(lines@) =~= expected);
        return lines;
    }
    lines.push("did you mean:".to_owned());
    for i in 0..suggestions.len()
        invariant
            near == suggestions@,
            near == nearest::nearest_spec(topic@),
            near.len() > 0,
            expected == missing_topic_spec(topic@),
            lines@.len() == i + 2,
            forall|j: int| 0 <= j < i + 2 ==> (#[trigger] lines@[j])@ == expected[j],
    {
        lines.push(text::text2("  help ", text::trim(suggestions[i].completion)));
    }
    assert(text::texts(lines@) =~= expected);
    lines
}

pub open spec fn help_spec(topic: Seq<char>) -> Seq<Seq<char>> {
    match page_from(TOPICS_EN@, topic_spec(topic), 0) {
        Some(page) => page_lines_en(page),
        None => missing_topic_spec(topic_spec(topic)),
    }
}

/// A topic without a Chinese page has the English one.
pub open spec fn chinese_help_spec(topic: Seq<char>) -> Seq<Seq<char>> {
    match page_from(TOPICS_ZH@, topic_spec(topic), 0) {
        Some(page) => page_lines_zh(page),
        None => help_spec(topic_spec(topic)),
    }
}

pub fn help_lines(topic: &str) -> (r: Vec<String>)
    ensures
        text::texts(r@) == help_spec(topic@),
{
    let name = normalized_topic(topic);
    match find_page(&TOPICS_EN, &name) {
        Some(page) => english_page(page),
        None => missing_topic_lines(&name),
    }
}

pub fn chinese_help_lines(topic: &str) -> (r: Vec<String>)
    ensures
        text::texts(r@) == chinese_help_spec(topic@),
{
    let name = normalized_topic(topic);
    match find_page(&TOPICS_ZH, &name) {
        Some(page) => chinese_page(page),
        None => help_lines(&name),
    }
}

pub open spec fn localized_help_spec(topic: Seq<char>, language: ShellLanguage) -> Seq<Seq<char>> {
    match language {
        ShellLanguage::English => help_spec(topic),
        ShellLanguage::Chinese => chinese_help_spec(topic),
    }
}

pub fn localized_help_lines(topic: &str, language: ShellLanguage) -> (r: Vec<String>)
    ensures
        text::texts(r@) == localized_help_spec(topic@, language),
{
    match language {
        ShellLanguage::English => help_lines(topic),
        ShellLanguage::Chinese => chinese_help_lines(topic),
    }
}

pub fn shortcut_lines(language: ShellLanguage) -> (r: Vec<String>)
    ensures
        text::texts(r@) == language::pick_lines(language, SHORTCUTS_EN@, SHORTCUTS_ZH@),
{
    language::lines_in(language, &SHORTCUTS_EN, &SHORTCUTS_ZH)
}

pub fn alias_lines(language: ShellLanguage) -> (r: Vec<String>)
    ensures
        text::texts(r@) == language::pick_lines(language, ALIASES_EN@, ALIASES_ZH@),
{
    language::lines_in(language, &ALIASES_EN, &ALIASES_ZH)
}

// ---------------------------------------------------------------- laws

/// No white space, slash or capital letter.
spec fn is_plain(topic: Seq<char>) -> bool {
    forall|i: int|
        0 <= i < topic.len() ==> {
            let c = #[trigger] topic[i];
            !text::white_space(c) && c != '/' && !('A' <= c <= 'Z')
        }
}

/// A plain text is looked up as it stands.
proof fn lemma_topic_as_it_stands(topic: Seq<char>)
    requires
        is_plain(topic),
    ensures
        topic_spec(topic) == topic,
{
    assert(text::trim_spec(topic) == topic);
    if topic.len() > 0 {
        assert(topic[0] != '/');
        assert(!seq!['/'].contains(topic[0]));
    }
    assert(text::strip_leading_spec(topic, seq!['/']) == topic);
    assert(text::ascii_lower_spec(topic) =~= topic);
}

/// No entry before `upto` has this topic, so the search goes on there.
proof fn lemma_page_starts_at(topics: Seq<(&str, HelpPage)>, topic: Seq<char>, from: int, upto: int)
    requires
        0 <= from <= upto <= topics.len(),
        forall|k: int| from <= k < upto ==> (#[trigger] topics[k]).0@ != topic,
    ensures
        page_from(topics, topic, from) == page_from(topics, topic, upto),
    decreases upto - from,
{
    if from < upto {
        lemma_page_starts_at(topics, topic, from + 1, upto);
    }
}

/// The topic of entry `i` is plain and comes before the next one.
spec fn stands_right(i: int) -> bool {
    &&& is_plain(TOPICS_EN@[i].0@)
    &&& i + 1 < TOPICS_EN@.len() ==> text::comes_before(TOPICS_EN@[i].0@, TOPICS_EN@[i + 1].0@)
}

proof fn lemma_topics_from_0()
    ensures
        forall|i: int| 0 <= i < 8 ==> #[trigger] stands_right(i),
{
    reveal_strlit("");
    reveal_strlit("!!");
    reveal_strlit("add");
    reveal_strlit("again");
    reveal_strlit("alias");
    reveal_strlit("aliases");
    reveal_strlit("check");
    reveal_strlit("clear");
    reveal_strlit("cls");
    assert(text::parts_at(""@, "!!"@, 0));
    assert(stands_right(0));
    assert(text::parts_at("!!"@, "add"@, 0));
    assert(stands_right(1));
    assert(text::parts_at("add"@, "again"@, 1));
    assert(stands_right(2));
    assert(text::parts_at("again"@, "alias"@, 1));
    assert(stands_right(3));
    assert(text::parts_at("alias"@, "aliases"@, 5));
    assert(stands_right(4));
    assert(text::parts_at("aliases"@, "check"@, 0));
    assert(stands_right(5));
    assert(text::parts_at("check"@, "clear"@, 1));
    assert(stands_right(6));
    assert(text::parts_at("clear"@, "cls"@, 2));
    assert(stands_right(7));
}

proof fn lemma_topics_from_8()
    ensures
        forall|i: int| 8 <= i < 16 ==> #[trigger] stands_right(i),
{
    reveal_strlit("cls");
    reveal_strlit("copy");
    reveal_strlit("current");
    reveal_strlit("device");
    reveal_strlit("devices");
    reveal_strlit("diagnose");
    reveal_strlit("diagnostics");
    reveal_strlit("doctor");
    reveal_strlit("errors");
    assert(text::parts_at("cls"@, "copy"@, 1));
    assert(stands_right(8));
    assert(text::parts_at("copy"@, "current"@, 1));
    assert(stands_right(9));
    assert(text::parts_at("current"@, "device"@, 0));
    assert(stands_right(10));
    assert(text::parts_at("device"@, "devices"@, 6));
    assert(stands_right(11));
    assert(text::parts_at("devices"@, "diagnose"@, 1));
    assert(stands_right(12));
    assert(text::parts_at("diagnose"@, "diagnostics"@, 7));
    assert(stands_right(13));
    assert(text::parts_at("diagnostics"@, "doctor"@, 1));
    assert(stands_right(14));
    assert(text::parts_at("doctor"@, "errors"@, 0));
    assert(stands_right(15));
}

proof fn lemma_topics_from_16()
    ensures
        forall|i: int| 16 <= i < 24 ==> #[trigger] stands_right(i),
{
    reveal_strlit("errors");
    reveal_strlit("exit");
    reveal_strlit("find");
    reveal_strlit("folder");
    reveal_strlit("health");
    reveal_strlit("history");
    reveal_strlit("home");
    reveal_strlit("i");
    reveal_strlit("info");
    assert(text::parts_at("errors"@, "exit"@, 1));
    assert(stands_right(16));
    assert(text::parts_at("exit"@, "find"@, 0));
    assert(stands_right(17));
    assert(text::parts_at("find"@, "folder"@, 1));
    assert(stands_right(18));
    assert(text::parts_at("folder"@, "health"@, 0));
    assert(stands_right(19));
    assert(text::parts_at("health"@, "history"@, 1));
    assert(stands_right(20));
    assert(text::parts_at("history"@, "home"@, 1));
    assert(stands_right(21));
    assert(text::parts_at("home"@, "i"@, 0));
    assert(stands_right(22));
    assert(text::parts_at("i"@, "info"@, 1));
    assert(stands_right(23));
}

proof fn lemma_topics_from_24()
    ensures
        forall|i: int| 24 <= i < 32 ==> #[trigger] stands_right(i),
{
    reveal_strlit("info");
    reveal_strlit("keys");
    reveal_strlit("lang");
    reveal_strlit("language");
    reveal_strlit("library");
    reveal_strlit("list");
    reveal_strlit("ls");
    reveal_strlit("next");
    reveal_strlit("now");
    assert(text::parts_at("info"@, "keys"@, 0));
    assert(stands_right(24));
    assert(text::parts_at("keys"@, "lang"@, 0));
    assert(stands_right(25));
    assert(text::parts_at("lang"@, "language"@, 4));
    assert(stands_right(26));
    assert(text::parts_at("language"@, "library"@, 1));
    assert(stands_right(27));
    assert(text::parts_at("library"@, "list"@, 2));
    assert(stands_right(28));
    assert(text::parts_at("list"@, "ls"@, 1));
    assert(stands_right(29));
    assert(text::parts_at("ls"@, "next"@, 0));
    assert(stands_right(30));
    assert(text::parts_at("next"@, "now"@, 1));
    assert(stands_right(31));
}

proof fn lemma_topics_from_32()
    ensures
        forall|i: int| 32 <= i < 40 ==> #[trigger] stands_right(i),
{
    reveal_strlit("now");
    reveal_strlit("open");
    reveal_strlit("open-db");
    reveal_strlit("output");
    reveal_strlit("outputs");
    reveal_strlit("pause");
    reveal_strlit("play");
    reveal_strlit("playback");
    reveal_strlit("playing");
    assert(text::parts_at("now"@, "open"@, 0));
    assert(stands_right(32));
    assert(text::parts_at("open"@, "open-db"@, 4));
    assert(stands_right(33));
    assert(text::parts_at("open-db"@, "output"@, 1));
    assert(stands_right(34));
    assert(text::parts_at("output"@, "outputs"@, 6));
    assert(stands_right(35));
    assert(text::parts_at("outputs"@, "pause"@, 0));
    assert(stands_right(36));
    assert(text::parts_at("pause"@, "play"@, 1));
    assert(stands_right(37));
    assert(text::parts_at("play"@, "playback"@, 4));
    assert(stands_right(38));
    assert(text::parts_at("playback"@, "playing"@, 4));
    assert(stands_right(39));
}

proof fn lemma_topics_from_40()
    ensures
        forall|i: int| 40 <= i < 48 ==> #[trigger] stands_right(i),
{
    reveal_strlit("playing");
    reveal_strlit("prev");
    reveal_strlit("previous");
    reveal_strlit("q");
    reveal_strlit("quit");
    reveal_strlit("r");
    reveal_strlit("random");
    reveal_strlit("recent");
    reveal_strlit("repeat");
    assert(text::parts_at("playing"@, "prev"@, 1));
    assert(stands_right(40));
    assert(text::parts_at("prev"@, "previous"@, 4));
    assert(stands_right(41));
    assert(text::parts_at("previous"@, "q"@, 0));
    assert(stands_right(42));
    assert(text::parts_at("q"@, "quit"@, 1));
    assert(stands_right(43));
    assert(text::parts_at("quit"@, "r"@, 0));
    assert(stands_right(44));
    assert(text::parts_at("r"@, "random"@, 1));
    assert(stands_right(45));
    assert(text::parts_at("random"@, "recent"@, 1));
    assert(stands_right(46));
    assert(text::parts_at("recent"@, "repeat"@, 2));
    assert(stands_right(47));
}

proof fn lemma_topics_from_48()
    ensures
        forall|i: int| 48 <= i < 56 ==> #[trigger] stands_right(i),
{
    reveal_strlit("repeat");
    reveal_strlit("results");
    reveal_strlit("resume");
    reveal_strlit("reveal");
    reveal_strlit("scan");
    reveal_strlit("search");
    reveal_strlit("shortcuts");
    reveal_strlit("shuffle");
    reveal_strlit("songs");
    assert(text::parts_at("repeat"@, "results"@, 2));
    assert(stands_right(48));
    assert(text::parts_at("results"@, "resume"@, 4));
    assert(stands_right(49));
    assert(text::parts_at("resume"@, "reveal"@, 2));
    assert(stands_right(50));
    assert(text::parts_at("reveal"@, "scan"@, 0));
    assert(stands_right(51));
    assert(text::parts_at("scan"@, "search"@, 1));
    assert(stands_right(52));
    assert(text::parts_at("search"@, "shortcuts"@, 1));
    assert(stands_right(53));
    assert(text::parts_at("shortcuts"@, "shuffle"@, 2));
    assert(stands_right(54));
    assert(text::parts_at("shuffle"@, "songs"@, 1));
    assert(stands_right(55));
}

proof fn lemma_topics_from_56()
    ensures
        forall|i: int| 56 <= i < 64 ==> #[trigger] stands_right(i),
{
    reveal_strlit("songs");
    reveal_strlit("status");
    reveal_strlit("stop");
    reveal_strlit("surprise");
    reveal_strlit("tips");
    reveal_strlit("tracks");
    reveal_strlit("where");
    reveal_strlit("上一首");
    reveal_strlit("下一步");
    assert(text::parts_at("songs"@, "status"@, 1));
    assert(stands_right(56));
    assert(text::parts_at("status"@, "stop"@, 2));
    assert(stands_right(57));
    assert(text::parts_at("stop"@, "surprise"@, 1));
    assert(stands_right(58));
    assert(text::parts_at("surprise"@, "tips"@, 0));
    assert(stands_right(59));
    assert(text::parts_at("tips"@, "tracks"@, 1));
    assert(stands_right(60));
    assert(text::parts_at("tracks"@, "where"@, 0));
    assert(stands_right(61));
    assert(text::parts_at("where"@, "上一首"@, 0));
    assert(stands_right(62));
    assert(text::parts_at("上一首"@, "下一步"@, 0));
    assert(stands_right(63));
}

proof fn lemma_topics_from_64()
    ensures
        forall|i: int| 64 <= i < 72 ==> #[trigger] stands_right(i),
{
    reveal_strlit("下一步");
    reveal_strlit("下一首");
    reveal_strlit("位置");
    reveal_strlit("信息");
    reveal_strlit("停止");
    reveal_strlit("列表");
    reveal_strlit("别名");
    reveal_strlit("复制");
    reveal_strlit("当前");
    assert(text::parts_at("下一步"@, "下一首"@, 2));
    assert(stands_right(64));
    assert(text::parts_at("下一首"@, "位置"@, 0));
    assert(stands_right(65));
    assert(text::parts_at("位置"@, "信息"@, 0));
    assert(stands_right(66));
    assert(text::parts_at("信息"@, "停止"@, 0));
    assert(stands_right(67));
    assert(text::parts_at("停止"@, "列表"@, 0));
    assert(stands_right(68));
    assert(text::parts_at("列表"@, "别名"@, 0));
    assert(stands_right(69));
    assert(text::parts_at("别名"@, "复制"@, 0));
    assert(stands_right(70));
    assert(text::parts_at("复制"@, "当前"@, 0));
    assert(stands_right(71));
}

proof fn lemma_topics_from_72()
    ensures
        forall|i: int| 72 <= i < 80 ==> #[trigger] stands_right(i),
{
    reveal_strlit("当前");
    reveal_strlit("快捷键");
    reveal_strlit("打开");
    reveal_strlit("找");
    reveal_strlit("提示");
    reveal_strlit("搜索");
    reveal_strlit("播放");
    reveal_strlit("暂停");
    reveal_strlit("曲库");
    assert(text::parts_at("当前"@, "快捷键"@, 0));
    assert(stands_right(72));
    assert(text::parts_at("快捷键"@, "打开"@, 0));
    assert(stands_right(73));
    assert(text::parts_at("打开"@, "找"@, 0));
    assert(stands_right(74));
    assert(text::parts_at("找"@, "提示"@, 0));
    assert(stands_right(75));
    assert(text::parts_at("提示"@, "搜索"@, 0));
    assert(stands_right(76));
    assert(text::parts_at("搜索"@, "播放"@, 0));
    assert(stands_right(77));
    assert(text::parts_at("播放"@, "暂停"@, 0));
    assert(stands_right(78));
    assert(text::parts_at("暂停"@, "曲库"@, 0));
    assert(stands_right(79));
}

proof fn lemma_topics_from_80()
    ensures
        forall|i: int| 80 <= i < 88 ==> #[trigger] stands_right(i),
{
    reveal_strlit("曲库");
    reveal_strlit("检查");
    reveal_strlit("歌曲");
    reveal_strlit("正在播放");
    reveal_strlit("状态");
    reveal_strlit("结果");
    reveal_strlit("继续");
    reveal_strlit("设备");
    reveal_strlit("诊断");
    assert(text::parts_at("曲库"@, "检查"@, 0));
    assert(stands_right(80));
    assert(text::parts_at("检查"@, "歌曲"@, 0));
    assert(stands_right(81));
    assert(text::parts_at("歌曲"@, "正在播放"@, 0));
    assert(stands_right(82));
    assert(text::parts_at("正在播放"@, "状态"@, 0));
    assert(stands_right(83));
    assert(text::parts_at("状态"@, "结果"@, 0));
    assert(stands_right(84));
    assert(text::parts_at("结果"@, "继续"@, 0));
    assert(stands_right(85));
    assert(text::parts_at("继续"@, "设备"@, 0));
    assert(stands_right(86));
    assert(text::parts_at("设备"@, "诊断"@, 0));
    assert(stands_right(87));
}

proof fn lemma_topics_from_88()
    ensures
        forall|i: int| 88 <= i < 95 ==> #[trigger] stands_right(i),
{
    reveal_strlit("诊断");
    reveal_strlit("详情");
    reveal_strlit("语言");
    reveal_strlit("输出");
    reveal_strlit("随便");
    reveal_strlit("随机");
    reveal_strlit("首页");
    assert(text::parts_at("诊断"@, "详情"@, 0));
    assert(stands_right(88));
    assert(text::parts_at("详情"@, "语言"@, 0));
    assert(stands_right(89));
    assert(text::parts_at("语言"@, "输出"@, 0));
    assert(stands_right(90));
    assert(text::parts_at("输出"@, "随便"@, 0));
    assert(stands_right(91));
    assert(text::parts_at("随便"@, "随机"@, 1));
    assert(stands_right(92));
    assert(text::parts_at("随机"@, "首页"@, 0));
    assert(stands_right(93));
    assert(stands_right(94));
}

proof fn lemma_topics_stand_right()
    ensures
        forall|i: int| 0 <= i < TOPICS_EN@.len() ==> #[trigger] stands_right(i),
{
    lemma_topics_from_0();
    lemma_topics_from_8();
    lemma_topics_from_16();
    lemma_topics_from_24();
    lemma_topics_from_32();
    lemma_topics_from_40();
    lemma_topics_from_48();
    lemma_topics_from_56();
    lemma_topics_from_64();
    lemma_topics_from_72();
    lemma_topics_from_80();
    lemma_topics_from_88();
}

proof fn lemma_topics_in_order(i: int, j: int)
    requires
        0 <= i < j < TOPICS_EN@.len(),
    ensures
        text::comes_before(TOPICS_EN@[i].0@, TOPICS_EN@[j].0@),
    decreases j - i,
{
    lemma_topics_stand_right();
    assert(stands_right(i));
    if i + 1 < j {
        lemma_topics_in_order(i + 1, j);
        text::lemma_order_goes_on(TOPICS_EN@[i].0@, TOPICS_EN@[i + 1].0@, TOPICS_EN@[j].0@);
    }
}

/// Every topic has its page, which is the help that it gives.
pub proof fn every_topic_gives_its_page(i: int)
    requires
        0 <= i < TOPICS_EN@.len(),
    ensures
        page_from(TOPICS_EN@, topic_spec(TOPICS_EN@[i].0@), 0) == Some(TOPICS_EN@[i].1),
        help_spec(TOPICS_EN@[i].0@) == page_lines_en(TOPICS_EN@[i].1),
{
    let topic = TOPICS_EN@[i].0@;
    lemma_topics_stand_right();
    assert(stands_right(i));
    lemma_topic_as_it_stands(topic);
    assert forall|k: int| 0 <= k < i implies (#[trigger] TOPICS_EN@[k]).0@ != topic by {
        lemma_topics_in_order(k, i);
    }
    lemma_page_starts_at(TOPICS_EN@, topic, 0, i);
}

/// Two topics of one page give the same help, and neither is answered that there is no such topic.
pub proof fn alias_topics_give_the_same_help(i: int, j: int)
    requires
        0 <= i < TOPICS_EN@.len(),
        0 <= j < TOPICS_EN@.len(),
        TOPICS_EN@[i].1 == TOPICS_EN@[j].1,
    ensures
        help_spec(TOPICS_EN@[i].0@) == help_spec(TOPICS_EN@[j].0@),
        page_from(TOPICS_EN@, topic_spec(TOPICS_EN@[i].0@), 0) is Some,
        page_from(TOPICS_EN@, topic_spec(TOPICS_EN@[j].0@), 0) is Some,
{
    every_topic_gives_its_page(i);
    every_topic_gives_its_page(j);
}

/// Scanning, searching and the library have their pages, by any of their names.
pub proof fn help_for_scanning_and_searching()
    ensures
        help_spec("add"@) == text::literals(SCAN_HELP_EN@),
        help_spec("find"@) == text::literals(SEARCH_HELP_EN@),
        help_spec("library"@) == text::literals(LIBRARY_HELP_EN@),
        help_spec("list"@) == text::literals(LIBRARY_HELP_EN@),
        help_spec("ls"@) == text::literals(LIBRARY_HELP_EN@),
        help_spec("r"@) == text::literals(LIBRARY_HELP_EN@),
        help_spec("recent"@) == text::literals(LIBRARY_HELP_EN@),
        help_spec("results"@) == text::literals(LIBRARY_HELP_EN@),
        help_spec("scan"@) == text::literals(SCAN_HELP_EN@),
        help_spec("search"@) == text::literals(SEARCH_HELP_EN@),
        help_spec("songs"@) == text::literals(LIBRARY_HELP_EN@),
        help_spec("tracks"@) == text::literals(LIBRARY_HELP_EN@),
        help_spec("列表"@) == text::literals(LIBRARY_HELP_EN@),
        help_spec("找"@) == text::literals(SEARCH_HELP_EN@),
        help_spec("搜索"@) == text::literals(SEARCH_HELP_EN@),
        help_spec("曲库"@) == text::literals(LIBRARY_HELP_EN@),
        help_spec("歌曲"@) == text::literals(LIBRARY_HELP_EN@),
        help_spec("结果"@) == text::literals(LIBRARY_HELP_EN@),
{
    every_topic_gives_its_page(2);
    every_topic_gives_its_page(18);
    every_topic_gives_its_page(28);
    every_topic_gives_its_page(29);
    every_topic_gives_its_page(30);
    every_topic_gives_its_page(45);
    every_topic_gives_its_page(47);
    every_topic_gives_its_page(49);
    every_topic_gives_its_page(52);
    every_topic_gives_its_page(53);
    every_topic_gives_its_page(56);
    every_topic_gives_its_page(61);
    every_topic_gives_its_page(69);
    every_topic_gives_its_page(75);
    every_topic_gives_its_page(77);
    every_topic_gives_its_page(80);
    every_topic_gives_its_page(82);
    every_topic_gives_its_page(85);
}

/// Playing, controlling playback, going on and repeating have their pages, by any of their names.
pub proof fn help_for_playing()
    ensures
        help_spec("!!"@) == text::literals(AGAIN_HELP_EN@),
        help_spec("again"@) == text::literals(AGAIN_HELP_EN@),
        help_spec("next"@) == text::literals(NEXT_HELP_EN@),
        help_spec("pause"@) == text::literals(PLAYBACK_HELP_EN@),
        help_spec("play"@) == text::literals(PLAY_HELP_EN@),
        help_spec("playback"@) == text::literals(PLAYBACK_HELP_EN@),
        help_spec("prev"@) == text::literals(NEXT_HELP_EN@),
        help_spec("previous"@) == text::literals(NEXT_HELP_EN@),
        help_spec("random"@) == text::literals(PLAY_HELP_EN@),
        help_spec("repeat"@) == text::literals(AGAIN_HELP_EN@),
        help_spec("resume"@) == text::literals(PLAYBACK_HELP_EN@),
        help_spec("shuffle"@) == text::literals(PLAY_HELP_EN@),
        help_spec("stop"@) == text::literals(PLAYBACK_HELP_EN@),
        help_spec("surprise"@) == text::literals(PLAY_HELP_EN@),
        help_spec("上一首"@) == text::literals(NEXT_HELP_EN@),
        help_spec("下一首"@) == text::literals(NEXT_HELP_EN@),
        help_spec("停止"@) == text::literals(PLAYBACK_HELP_EN@),
        help_spec("播放"@) == text::literals(PLAY_HELP_EN@),
        help_spec("暂停"@) == text::literals(PLAYBACK_HELP_EN@),
        help_spec("继续"@) == text::literals(PLAYBACK_HELP_EN@),
        help_spec("随便"@) == text::literals(PLAY_HELP_EN@),
        help_spec("随机"@) == text::literals(PLAY_HELP_EN@),
{
    every_topic_gives_its_page(1);
    every_topic_gives_its_page(3);
    every_topic_gives_its_page(31);
    every_topic_gives_its_page(37);
    every_topic_gives_its_page(38);
    every_topic_gives_its_page(39);
    every_topic_gives_its_page(41);
    every_topic_gives_its_page(42);
    every_topic_gives_its_page(46);
    every_topic_gives_its_page(48);
    every_topic_gives_its_page(50);
    every_topic_gives_its_page(55);
    every_topic_gives_its_page(58);
    every_topic_gives_its_page(59);
    every_topic_gives_its_page(63);
    every_topic_gives_its_page(65);
    every_topic_gives_its_page(68);
    every_topic_gives_its_page(78);
    every_topic_gives_its_page(79);
    every_topic_gives_its_page(86);
    every_topic_gives_its_page(92);
    every_topic_gives_its_page(93);
}

/// Opening, copying and inspecting a track have their pages, by any of their names.
pub proof fn help_for_tracks()
    ensures
        help_spec("copy"@) == text::literals(COPY_HELP_EN@),
        help_spec("current"@) == text::literals(INFO_HELP_EN@),
        help_spec("folder"@) == text::literals(OPEN_HELP_EN@),
        help_spec("i"@) == text::literals(INFO_HELP_EN@),
        help_spec("info"@) == text::literals(INFO_HELP_EN@),
        help_spec("now"@) == text::literals(INFO_HELP_EN@),
        help_spec("open"@) == text::literals(OPEN_HELP_EN@),
        help_spec("playing"@) == text::literals(INFO_HELP_EN@),
        help_spec("reveal"@) == text::literals(OPEN_HELP_EN@),
        help_spec("where"@) == text::literals(OPEN_HELP_EN@),
        help_spec("位置"@) == text::literals(OPEN_HELP_EN@),
        help_spec("信息"@) == text::literals(INFO_HELP_EN@),
        help_spec("复制"@) == text::literals(COPY_HELP_EN@),
        help_spec("当前"@) == text::literals(INFO_HELP_EN@),
        help_spec("打开"@) == text::literals(OPEN_HELP_EN@),
        help_spec("正在播放"@) == text::literals(INFO_HELP_EN@),
        help_spec("详情"@) == text::literals(INFO_HELP_EN@),
{
    every_topic_gives_its_page(9);
    every_topic_gives_its_page(10);
    every_topic_gives_its_page(19);
    every_topic_gives_its_page(23);
    every_topic_gives_its_page(24);
    every_topic_gives_its_page(32);
    every_topic_gives_its_page(33);
    every_topic_gives_its_page(40);
    every_topic_gives_its_page(51);
    every_topic_gives_its_page(62);
    every_topic_gives_its_page(66);
    every_topic_gives_its_page(67);
    every_topic_gives_its_page(71);
    every_topic_gives_its_page(72);
    every_topic_gives_its_page(74);
    every_topic_gives_its_page(83);
    every_topic_gives_its_page(89);
}

/// Diagnosing and scan errors have their pages, by any of their names.
pub proof fn help_for_diagnosing()
    ensures
        help_spec("check"@) == text::literals(DIAGNOSTICS_HELP_EN@),
        help_spec("device"@) == text::literals(DIAGNOSTICS_HELP_EN@),
        help_spec("devices"@) == text::literals(DIAGNOSTICS_HELP_EN@),
        help_spec("diagnose"@) == text::literals(DIAGNOSTICS_HELP_EN@),
        help_spec("diagnostics"@) == text::literals(DIAGNOSTICS_HELP_EN@),
        help_spec("doctor"@) == text::literals(DIAGNOSTICS_HELP_EN@),
        help_spec("errors"@) == text::literals(ERRORS_HELP_EN@),
        help_spec("health"@) == text::literals(DIAGNOSTICS_HELP_EN@),
        help_spec("open-db"@) == text::literals(DIAGNOSTICS_HELP_EN@),
        help_spec("output"@) == text::literals(DIAGNOSTICS_HELP_EN@),
        help_spec("outputs"@) == text::literals(DIAGNOSTICS_HELP_EN@),
        help_spec("status"@) == text::literals(DIAGNOSTICS_HELP_EN@),
        help_spec("检查"@) == text::literals(DIAGNOSTICS_HELP_EN@),
        help_spec("状态"@) == text::literals(DIAGNOSTICS_HELP_EN@),
        help_spec("设备"@) == text::literals(DIAGNOSTICS_HELP_EN@),
        help_spec("诊断"@) == text::literals(DIAGNOSTICS_HELP_EN@),
        help_spec("输出"@) == text::literals(DIAGNOSTICS_HELP_EN@),
{
    every_topic_gives_its_page(6);
    every_topic_gives_its_page(11);
    every_topic_gives_its_page(12);
    every_topic_gives_its_page(13);
    every_topic_gives_its_page(14);
    every_topic_gives_its_page(15);
    every_topic_gives_its_page(16);
    every_topic_gives_its_page(20);
    every_topic_gives_its_page(34);
    every_topic_gives_its_page(35);
    every_topic_gives_its_page(36);
    every_topic_gives_its_page(57);
    every_topic_gives_its_page(81);
    every_topic_gives_its_page(84);
    every_topic_gives_its_page(87);
    every_topic_gives_its_page(88);
    every_topic_gives_its_page(91);
}

/// The shell itself has its pages, by any of their names.
pub proof fn help_for_shell()
    ensures
        help_spec(""@) == text::literals(OVERVIEW_HELP_EN@),
        help_spec("alias"@) == text::literals(ALIASES_EN@),
        help_spec("aliases"@) == text::literals(ALIASES_EN@),
        help_spec("clear"@) == text::literals(CLEAR_HELP_EN@),
        help_spec("cls"@) == text::literals(CLEAR_HELP_EN@),
        help_spec("exit"@) == text::literals(QUIT_HELP_EN@),
        help_spec("history"@) == text::literals(HISTORY_HELP_EN@),
        help_spec("home"@) == text::literals(HOME_HELP_EN@),
        help_spec("keys"@) == text::literals(SHORTCUTS_EN@),
        help_spec("lang"@) == text::literals(LANGUAGE_HELP_EN@),
        help_spec("language"@) == text::literals(LANGUAGE_HELP_EN@),
        help_spec("q"@) == text::literals(QUIT_HELP_EN@),
        help_spec("quit"@) == text::literals(QUIT_HELP_EN@),
        help_spec("shortcuts"@) == text::literals(SHORTCUTS_EN@),
        help_spec("tips"@) == text::literals(TIPS_HELP_EN@),
        help_spec("下一步"@) == text::literals(TIPS_HELP_EN@),
        help_spec("别名"@) == text::literals(ALIASES_EN@),
        help_spec("快捷键"@) == text::literals(SHORTCUTS_EN@),
        help_spec("提示"@) == text::literals(TIPS_HELP_EN@),
        help_spec("语言"@) == text::literals(LANGUAGE_HELP_EN@),
        help_spec("首页"@) == text::literals(HOME_HELP_EN@),
{
    every_topic_gives_its_page(0);
    every_topic_gives_its_page(4);
    every_topic_gives_its_page(5);
    every_topic_gives_its_page(7);
    every_topic_gives_its_page(8);
    every_topic_gives_its_page(17);
    every_topic_gives_its_page(21);
    every_topic_gives_its_page(22);
    every_topic_gives_its_page(25);
    every_topic_gives_its_page(26);
    every_topic_gives_its_page(27);
    every_topic_gives_its_page(43);
    every_topic_gives_its_page(44);
    every_topic_gives_its_page(54);
    every_topic_gives_its_page(60);
    every_topic_gives_its_page(64);
    every_topic_gives_its_page(70);
    every_topic_gives_its_page(73);
    every_topic_gives_its_page(76);
    every_topic_gives_its_page(90);
    every_topic_gives_its_page(94);
}

/// What has a page in Chinese is explained there, and the rest in English.
pub proof fn chinese_pages_come_first(topic: Seq<char>)
    ensures
        chinese_help_spec(""@) == text::literals(OVERVIEW_HELP_ZH@),
        chinese_help_spec("add"@) == text::literals(SCAN_HELP_ZH@),
        chinese_help_spec("alias"@) == text::literals(ALIASES_ZH@),
        chinese_help_spec("aliases"@) == text::literals(ALIASES_ZH@),
        chinese_help_spec("find"@) == text::literals(SEARCH_HELP_ZH@),
        chinese_help_spec("keys"@) == text::literals(SHORTCUTS_ZH@),
        chinese_help_spec("lang"@) == text::literals(LANGUAGE_HELP_ZH@),
        chinese_help_spec("language"@) == text::literals(LANGUAGE_HELP_ZH@),
        chinese_help_spec("play"@) == text::literals(PLAY_HELP_ZH@),
        chinese_help_spec("random"@) == text::literals(PLAY_HELP_ZH@),
        chinese_help_spec("scan"@) == text::literals(SCAN_HELP_ZH@),
        chinese_help_spec("search"@) == text::literals(SEARCH_HELP_ZH@),
        chinese_help_spec("shortcuts"@) == text::literals(SHORTCUTS_ZH@),
        chinese_help_spec("shuffle"@) == text::literals(PLAY_HELP_ZH@),
        chinese_help_spec("surprise"@) == text::literals(PLAY_HELP_ZH@),
        page_from(TOPICS_ZH@, topic_spec(topic), 0) is None ==> chinese_help_spec(topic) == help_spec(
            topic_spec(topic),
        ),
{
    lemma_chinese_page_0();
    lemma_chinese_page_1();
    lemma_chinese_page_2();
    lemma_chinese_page_3();
    lemma_chinese_page_4();
    lemma_chinese_page_5();
    lemma_chinese_page_6();
    lemma_chinese_page_7();
    lemma_chinese_page_8();
    lemma_chinese_page_9();
    lemma_chinese_page_10();
    lemma_chinese_page_11();
    lemma_chinese_page_12();
    lemma_chinese_page_13();
    lemma_chinese_page_14();
}

proof fn lemma_chinese_page_0()
    ensures
        chinese_help_spec(""@) == text::literals(OVERVIEW_HELP_ZH@),
{
    reveal_strlit("");
    lemma_topic_as_it_stands(""@);
}

proof fn lemma_chinese_page_1()
    ensures
        chinese_help_spec("add"@) == text::literals(SCAN_HELP_ZH@),
{
    reveal_strlit("");
    reveal_strlit("add");
    lemma_topic_as_it_stands("add"@);
    assert(""@.len() != "add"@.len());
    lemma_page_starts_at(TOPICS_ZH@, "add"@, 0, 1);
}

proof fn lemma_chinese_page_2()
    ensures
        chinese_help_spec("alias"@) == text::literals(ALIASES_ZH@),
{
    reveal_strlit("");
    reveal_strlit("add");
    reveal_strlit("alias");
    lemma_topic_as_it_stands("alias"@);
    assert(""@.len() != "alias"@.len());
    assert("add"@.len() != "alias"@.len());
    lemma_page_starts_at(TOPICS_ZH@, "alias"@, 0, 2);
}

proof fn lemma_chinese_page_3()
    ensures
        chinese_help_spec("aliases"@) == text::literals(ALIASES_ZH@),
{
    reveal_strlit("");
    reveal_strlit("add");
    reveal_strlit("alias");
    reveal_strlit("aliases");
    lemma_topic_as_it_stands("aliases"@);
    assert(""@.len() != "aliases"@.len());
    assert("add"@.len() != "aliases"@.len());
    assert("alias"@.len() != "aliases"@.len());
    lemma_page_starts_at(TOPICS_ZH@, "aliases"@, 0, 3);
}

proof fn lemma_chinese_page_4()
    ensures
        chinese_help_spec("find"@) == text::literals(SEARCH_HELP_ZH@),
{
    reveal_strlit("");
    reveal_strlit("add");
    reveal_strlit("alias");
    reveal_strlit("aliases");
    reveal_strlit("find");
    lemma_topic_as_it_stands("find"@);
    assert(""@.len() != "find"@.len());
    assert("add"@.len() != "find"@.len());
    assert("alias"@.len() != "find"@.len());
    assert("aliases"@.len() != "find"@.len());
    lemma_page_starts_at(TOPICS_ZH@, "find"@, 0, 4);
}

proof fn lemma_chinese_page_5()
    ensures
        chinese_help_spec("keys"@) == text::literals(SHORTCUTS_ZH@),
{
    reveal_strlit("");
    reveal_strlit("add");
    reveal_strlit("alias");
    reveal_strlit("aliases");
    reveal_strlit("find");
    reveal_strlit("keys");
    lemma_topic_as_it_stands("keys"@);
    assert(""@.len() != "keys"@.len());
    assert("add"@.len() != "keys"@.len());
    assert("alias"@.len() != "keys"@.len());
    assert("aliases"@.len() != "keys"@.len());
    assert("find"@[0] != "keys"@[0]);
    lemma_page_starts_at(TOPICS_ZH@, "keys"@, 0, 5);
}

proof fn lemma_chinese_page_6()
    ensures
        chinese_help_spec("lang"@) == text::literals(LANGUAGE_HELP_ZH@),
{
    reveal_strlit("");
    reveal_strlit("add");
    reveal_strlit("alias");
    reveal_strlit("aliases");
    reveal_strlit("find");
    reveal_strlit("keys");
    reveal_strlit("lang");
    lemma_topic_as_it_stands("lang"@);
    assert(""@.len() != "lang"@.len());
    assert("add"@.len() != "lang"@.len());
    assert("alias"@.len() != "lang"@.len());
    assert("aliases"@.len() != "lang"@.len());
    assert("find"@[0] != "lang"@[0]);
    assert("keys"@[0] != "lang"@[0]);
    lemma_page_starts_at(TOPICS_ZH@, "lang"@, 0, 6);
}

proof fn lemma_chinese_page_7()
    ensures
        chinese_help_spec("language"@) == text::literals(LANGUAGE_HELP_ZH@),
{
    reveal_strlit("");
    reveal_strlit("add");
    reveal_strlit("alias");
    reveal_strlit("aliases");
    reveal_strlit("find");
    reveal_strlit("keys");
    reveal_strlit("lang");
    reveal_strlit("language");
    lemma_topic_as_it_stands("language"@);
    assert(""@.len() != "language"@.len());
    assert("add"@.len() != "language"@.len());
    assert("alias"@.len() != "language"@.len());
    assert("aliases"@.len() != "language"@.len());
    assert("find"@.len() != "language"@.len());
    assert("keys"@.len() != "language"@.len());
    assert("lang"@.len() != "language"@.len());
    lemma_page_starts_at(TOPICS_ZH@, "language"@, 0, 7);
}

proof fn lemma_chinese_page_8()
    ensures
        chinese_help_spec("play"@) == text::literals(PLAY_HELP_ZH@),
{
    reveal_strlit("");
    reveal_strlit("add");
    reveal_strlit("alias");
    reveal_strlit("aliases");
    reveal_strlit("find");
    reveal_strlit("keys");
    reveal_strlit("lang");
    reveal_strlit("language");
    reveal_strlit("play");
    lemma_topic_as_it_stands("play"@);
    assert(""@.len() != "play"@.len());
    assert("add"@.len() != "play"@.len());
    assert("alias"@.len() != "play"@.len());
    assert("aliases"@.len() != "play"@.len());
    assert("find"@[0] != "play"@[0]);
    assert("keys"@[0] != "play"@[0]);
    assert("lang"@[0] != "play"@[0]);
    assert("language"@.len() != "play"@.len());
    lemma_page_starts_at(TOPICS_ZH@, "play"@, 0, 8);
}

proof fn lemma_chinese_page_9()
    ensures
        chinese_help_spec("random"@) == text::literals(PLAY_HELP_ZH@),
{
    reveal_strlit("");
    reveal_strlit("add");
    reveal_strlit("alias");
    reveal_strlit("aliases");
    reveal_strlit("find");
    reveal_strlit("keys");
    reveal_strlit("lang");
    reveal_strlit("language");
    reveal_strlit("play");
    reveal_strlit("random");
    lemma_topic_as_it_stands("random"@);
    assert(""@.len() != "random"@.len());
    assert("add"@.len() != "random"@.len());
    assert("alias"@.len() != "random"@.len());
    assert("aliases"@.len() != "random"@.len());
    assert("find"@.len() != "random"@.len());
    assert("keys"@.len() != "random"@.len());
    assert("lang"@.len() != "random"@.len());
    assert("language"@.len() != "random"@.len());
    assert("play"@.len() != "random"@.len());
    lemma_page_starts_at(TOPICS_ZH@, "random"@, 0, 9);
}

proof fn lemma_chinese_page_10()
    ensures
        chinese_help_spec("scan"@) == text::literals(SCAN_HELP_ZH@),
{
    reveal_strlit("");
    reveal_strlit("add");
    reveal_strlit("alias");
    reveal_strlit("aliases");
    reveal_strlit("find");
    reveal_strlit("keys");
    reveal_strlit("lang");
    reveal_strlit("language");
    reveal_strlit("play");
    reveal_strlit("random");
    reveal_strlit("scan");
    lemma_topic_as_it_stands("scan"@);
    assert(""@.len() != "scan"@.len());
    assert("add"@.len() != "scan"@.len());
    assert("alias"@.len() != "scan"@.len());
    assert("aliases"@.len() != "scan"@.len());
    assert("find"@[0] != "scan"@[0]);
    assert("keys"@[0] != "scan"@[0]);
    assert("lang"@[0] != "scan"@[0]);
    assert("language"@.len() != "scan"@.len());
    assert("play"@[0] != "scan"@[0]);
    assert("random"@.len() != "scan"@.len());
    lemma_page_starts_at(TOPICS_ZH@, "scan"@, 0, 10);
}

proof fn lemma_chinese_page_11()
    ensures
        chinese_help_spec("search"@) == text::literals(SEARCH_HELP_ZH@),
{
    reveal_strlit("");
    reveal_strlit("add");
    reveal_strlit("alias");
    reveal_strlit("aliases");
    reveal_strlit("find");
    reveal_strlit("keys");
    reveal_strlit("lang");
    reveal_strlit("language");
    reveal_strlit("play");
    reveal_strlit("random");
    reveal_strlit("scan");
    reveal_strlit("search");
    lemma_topic_as_it_stands("search"@);
    assert(""@.len() != "search"@.len());
    assert("add"@.len() != "search"@.len());
    assert("alias"@.len() != "search"@.len());
    assert("aliases"@.len() != "search"@.len());
    assert("find"@.len() != "search"@.len());
    assert("keys"@.len() != "search"@.len());
    assert("lang"@.len() != "search"@.len());
    assert("language"@.len() != "search"@.len());
    assert("play"@.len() != "search"@.len());
    assert("random"@[0] != "search"@[0]);
    assert("scan"@.len() != "search"@.len());
    lemma_page_starts_at(TOPICS_ZH@, "search"@, 0, 11);
}

proof fn lemma_chinese_page_12()
    ensures
        chinese_help_spec("shortcuts"@) == text::literals(SHORTCUTS_ZH@),
{
    reveal_strlit("");
    reveal_strlit("add");
    reveal_strlit("alias");
    reveal_strlit("aliases");
    reveal_strlit("find");
    reveal_strlit("keys");
    reveal_strlit("lang");
    reveal_strlit("language");
    reveal_strlit("play");
    reveal_strlit("random");
    reveal_strlit("scan");
    reveal_strlit("search");
    reveal_strlit("shortcuts");
    lemma_topic_as_it_stands("shortcuts"@);
    assert(""@.len() != "shortcuts"@.len());
    assert("add"@.len() != "shortcuts"@.len());
    assert("alias"@.len() != "shortcuts"@.len());
    assert("aliases"@.len() != "shortcuts"@.len());
    assert("find"@.len() != "shortcuts"@.len());
    assert("keys"@.len() != "shortcuts"@.len());
    assert("lang"@.len() != "shortcuts"@.len());
    assert("language"@.len() != "shortcuts"@.len());
    assert("play"@.len() != "shortcuts"@.len());
    assert("random"@.len() != "shortcuts"@.len());
    assert("scan"@.len() != "shortcuts"@.len());
    assert("search"@.len() != "shortcuts"@.len());
    lemma_page_starts_at(TOPICS_ZH@, "shortcuts"@, 0, 12);
}

proof fn lemma_chinese_page_13()
    ensures
        chinese_help_spec("shuffle"@) == text::literals(PLAY_HELP_ZH@),
{
    reveal_strlit("");
    reveal_strlit("add");
    reveal_strlit("alias");
    reveal_strlit("aliases");
    reveal_strlit("find");
    reveal_strlit("keys");
    reveal_strlit("lang");
    reveal_strlit("language");
    reveal_strlit("play");
    reveal_strlit("random");
    reveal_strlit("scan");
    reveal_strlit("search");
    reveal_strlit("shortcuts");
    reveal_strlit("shuffle");
    lemma_topic_as_it_stands("shuffle"@);
    assert(""@.len() != "shuffle"@.len());
    assert("add"@.len() != "shuffle"@.len());
    assert("alias"@.len() != "shuffle"@.len());
    assert("aliases"@[0] != "shuffle"@[0]);
    assert("find"@.len() != "shuffle"@.len());
    assert("keys"@.len() != "shuffle"@.len());
    assert("lang"@.len() != "shuffle"@.len());
    assert("language"@.len() != "shuffle"@.len());
    assert("play"@.len() != "shuffle"@.len());
    assert("random"@.len() != "shuffle"@.len());
    assert("scan"@.len() != "shuffle"@.len());
    assert("search"@.len() != "shuffle"@.len());
    assert("shortcuts"@.len() != "shuffle"@.len());
    lemma_page_starts_at(TOPICS_ZH@, "shuffle"@, 0, 13);
}

proof fn lemma_chinese_page_14()
    ensures
        chinese_help_spec("surprise"@) == text::literals(PLAY_HELP_ZH@),
{
    reveal_strlit("");
    reveal_strlit("add");
    reveal_strlit("alias");
    reveal_strlit("aliases");
    reveal_strlit("find");
    reveal_strlit("keys");
    reveal_strlit("lang");
    reveal_strlit("language");
    reveal_strlit("play");
    reveal_strlit("random");
    reveal_strlit("scan");
    reveal_strlit("search");
    reveal_strlit("shortcuts");
    reveal_strlit("shuffle");
    reveal_strlit("surprise");
    lemma_topic_as_it_stands("surprise"@);
    assert(""@.len() != "surprise"@.len());
    assert("add"@.len() != "surprise"@.len());
    assert("alias"@.len() != "surprise"@.len());
    assert("aliases"@.len() != "surprise"@.len());
    assert("find"@.len() != "surprise"@.len());
    assert("keys"@.len() != "surprise"@.len());
    assert("lang"@.len() != "surprise"@.len());
    assert("language"@[0] != "surprise"@[0]);
    assert("play"@.len() != "surprise"@.len());
    assert("random"@.len() != "surprise"@.len());
    assert("scan"@.len() != "surprise"@.len());
    assert("search"@.len() != "surprise"@.len());
    assert("shortcuts"@.len() != "surprise"@.len());
    assert("shuffle"@.len() != "surprise"@.len());
    lemma_page_starts_at(TOPICS_ZH@, "surprise"@, 0, 14);
}

/// A topic that nobody knows is named, with the nearest commands below it where there are any.
pub proof fn unknown_topics_name_what_is_near(topic: Seq<char>, i: int)
    requires
        page_from(TOPICS_EN@, topic_spec(topic), 0) is None,
        0 <= i < nearest::nearest_spec(topic_spec(topic)).len(),
    ensures
        help_spec(topic)[0] == "no help topic for: "@ + topic_spec(topic),
        help_spec(topic).len() == nearest::nearest_spec(topic_spec(topic)).len() + 2,
        help_spec(topic)[i + 2] == "  help "@ + text::trim_spec(
            nearest::nearest_spec(topic_spec(topic))[i].completion@,
        ),
{
}

} // verus!
