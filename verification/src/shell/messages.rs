//! What the shell says.

use crate::playback::PlaybackEvent;
use crate::scanner::ScanSummary;
use crate::shell::language;
use crate::shell::language::ShellLanguage;
use crate::shell::layout;
use crate::text;
use vstd::prelude::*;

verus! {

// ---------------------------------------------------------------- fixed messages

pub const SEARCH_USAGE_EN: [&'static str; 3] = [
    "usage: search <query>",
    "tip: you can also type keywords directly, like moon halo",
    "try: library, scan, or help search",
];

pub const SEARCH_USAGE_ZH: [&'static str; 3] = [
    "用法: 搜索 <关键词>",
    "提示: 也可以直接输入关键词，比如 moon halo",
    "可以试试: 曲库、扫描，或 帮助 搜索",
];

pub const NO_RESULTS_EN: [&'static str; 3] = [
    "no visible results yet",
    "try: library, search <query>, or scan",
    "tip: after results appear, use play 1, 1, shuffle, next, or prev",
];

pub const NO_RESULTS_ZH: [&'static str; 3] = [
    "现在还没有可用结果",
    "可以试试: 曲库、搜索 <关键词>，或 扫描",
    "有结果后可以直接输入: 播放 1、1、随机、下一首、上一首",
];

pub const NOTHING_TO_INSPECT_EN: [&'static str; 2] = [
    "nothing to inspect yet",
    "try: results, info 1, search <query>, or play",
];

pub const NOTHING_TO_INSPECT_ZH: [&'static str; 2] = [
    "现在还没有可以查看的歌曲",
    "可以试试: 结果、信息 1、搜索 <关键词>，或 播放",
];

pub const NOTHING_TO_OPEN_EN: [&'static str; 2] = [
    "nothing to open yet",
    "try: library, open 1, search <query>, or play",
];

pub const NOTHING_TO_OPEN_ZH: [&'static str; 2] = [
    "现在还没有可以打开的歌曲",
    "可以试试: 曲库、打开 1、搜索 <关键词>，或 播放",
];

pub const NOTHING_TO_COPY_EN: [&'static str; 2] = [
    "nothing to copy yet",
    "try: library, copy 1, search <query>, or play",
];

pub const NOTHING_TO_COPY_ZH: [&'static str; 2] = [
    "现在还没有可以复制的歌曲路径",
    "可以试试: 曲库、复制 1、搜索 <关键词>，或 播放",
];

pub const LANGUAGE_USAGE_EN: [&'static str; 2] = ["usage: language [en|zh]", "try: language zh"];

pub const LANGUAGE_USAGE_ZH: [&'static str; 2] = [
    "用法: 语言 [en|zh]",
    "例如: 语言 zh 或 language en",
];

pub const PLAYING_STEPS_EN: [&'static str; 11] = [
    "  pause             pause playback",
    "  stop              stop playback",
    "  next              play next visible result",
    "  prev              play previous visible result",
    "  shuffle           play a random visible result",
    "  surprise          pick something for me",
    "  now               show track details",
    "  info              show track details",
    "  results           print current results again",
    "  open              show current track in Explorer",
    "  copy              copy current track path",
];

pub const PLAYING_STEPS_ZH: [&'static str; 10] = [
    "  暂停              暂停播放",
    "  继续              继续播放",
    "  停止              停止播放",
    "  下一首            播放当前结果里的下一首",
    "  上一首            播放当前结果里的上一首",
    "  随机              随机播放当前可见结果",
    "  当前              查看正在播放的歌曲",
    "  结果              重新显示当前列表",
    "  打开              在 Explorer 里定位当前歌曲",
    "  复制              复制当前歌曲路径",
];

pub const EMPTY_LIBRARY_STEPS_EN: [&'static str; 3] = [
    "  scan              choose a music folder",
    "  scan D:\\Music     scan a folder path",
    "  devices           check output devices",
];

pub const EMPTY_LIBRARY_STEPS_ZH: [&'static str; 4] = [
    "  扫描              选择音乐文件夹",
    "  扫描 D:\\Music     直接扫描一个路径",
    "  设备              检查输出设备",
    "  帮助              查看所有命令",
];

pub const NO_RESULTS_STEPS_EN: [&'static str; 4] = [
    "  library           show indexed tracks",
    "  list              same as library",
    "  search <query>    find a track",
    "  more              show more current results",
];

pub const NO_RESULTS_STEPS_ZH: [&'static str; 4] = [
    "  曲库              显示已入库歌曲",
    "  搜索 <关键词>      找一首歌",
    "  更多              显示更多当前结果",
    "  扫描              再添加一个音乐文件夹",
];

pub const RESULTS_STEPS_EN: [&'static str; 19] = [
    "  play              play result #1",
    "  1                 play result #1",
    "  play <pick>       pick from current results",
    "  info <pick>       show track details",
    "  next              play next visible result",
    "  prev              play previous visible result",
    "  shuffle           play a random visible result",
    "  surprise          pick something for me",
    "  open <pick>       show a result in Explorer",
    "  copy <pick>       copy a result path",
    "  <keywords>        search without typing search",
    "  search <pick>     pick a result title to search",
    "  search <query>    narrow the list",
    "  results           print current results again",
    "  more              show more current results",
    "  again             repeat the last command",
    "  library           reset to recent tracks",
    "  list              same as library",
    "  home              show the welcome screen",
];

pub const RESULTS_STEPS_ZH: [&'static str; 16] = [
    "  播放              播放第 1 个结果",
    "  1                 直接播放第 1 个结果",
    "  播放 <编号/歌名>   从当前结果里选择",
    "  信息 <编号/歌名>   查看歌曲详情",
    "  下一首            播放当前结果里的下一首",
    "  上一首            播放当前结果里的上一首",
    "  随机              随机播放当前可见结果",
    "  打开 <编号/歌名>   在 Explorer 里定位",
    "  复制 <编号/歌名>   复制歌曲路径",
    "  <关键词>          直接搜索，不用先打 搜索",
    "  搜索 <关键词>      缩小列表",
    "  结果              重新显示当前结果",
    "  更多              显示更多结果",
    "  again             重复上一条命令",
    "  曲库              回到最近入库歌曲",
    "  首页              回到欢迎页",
];

pub fn search_usage_lines(language: ShellLanguage) -> (r: Vec<String>)
    ensures
        text::texts(r@) == language::pick_lines(language, SEARCH_USAGE_EN@, SEARCH_USAGE_ZH@),
{
    language::lines_in(language, &SEARCH_USAGE_EN, &SEARCH_USAGE_ZH)
}

pub fn no_results_yet_lines(language: ShellLanguage) -> (r: Vec<String>)
    ensures
        text::texts(r@) == language::pick_lines(language, NO_RESULTS_EN@, NO_RESULTS_ZH@),
{
    language::lines_in(language, &NO_RESULTS_EN, &NO_RESULTS_ZH)
}

pub fn nothing_to_inspect_lines(language: ShellLanguage) -> (r: Vec<String>)
    ensures
        text::texts(r@) == language::pick_lines(language, NOTHING_TO_INSPECT_EN@, NOTHING_TO_INSPECT_ZH@),
{
    language::lines_in(language, &NOTHING_TO_INSPECT_EN, &NOTHING_TO_INSPECT_ZH)
}

pub fn nothing_to_open_lines(language: ShellLanguage) -> (r: Vec<String>)
    ensures
        text::texts(r@) == language::pick_lines(language, NOTHING_TO_OPEN_EN@, NOTHING_TO_OPEN_ZH@),
{
    language::lines_in(language, &NOTHING_TO_OPEN_EN, &NOTHING_TO_OPEN_ZH)
}

pub fn nothing_to_copy_lines(language: ShellLanguage) -> (r: Vec<String>)
    ensures
        text::texts(r@) == language::pick_lines(language, NOTHING_TO_COPY_EN@, NOTHING_TO_COPY_ZH@),
{
    language::lines_in(language, &NOTHING_TO_COPY_EN, &NOTHING_TO_COPY_ZH)
}

pub fn language_usage_lines(language: ShellLanguage) -> (r: Vec<String>)
    ensures
        text::texts(r@) == language::pick_lines(language, LANGUAGE_USAGE_EN@, LANGUAGE_USAGE_ZH@),
{
    language::lines_in(language, &LANGUAGE_USAGE_EN, &LANGUAGE_USAGE_ZH)
}

pub fn stopping_timeout_line(language: ShellLanguage) -> (r: &'static str)
    ensures
        r@ == language::pick(
            language,
            "previous track is still stopping; trying the next one anyway"@,
            "上一首还在停止中；会继续尝试切到下一首"@,
        ),
{
    language.text(
        "previous track is still stopping; trying the next one anyway",
        "上一首还在停止中；会继续尝试切到下一首",
    )
}

pub fn nothing_playing_line(language: ShellLanguage) -> (r: &'static str)
    ensures
        r@ == language::pick(language, "nothing is playing"@, "现在没有在播放"@),
{
    language.text("nothing is playing", "现在没有在播放")
}

pub fn nothing_paused_line(language: ShellLanguage) -> (r: &'static str)
    ensures
        r@ == language::pick(language, "nothing is paused"@, "现在没有暂停的播放"@),
{
    language.text("nothing is paused", "现在没有暂停的播放")
}

pub fn scan_canceled_line(language: ShellLanguage) -> (r: &'static str)
    ensures
        r@ == language::pick(language, "scan canceled"@, "已取消扫描"@),
{
    language.text("scan canceled", "已取消扫描")
}

pub fn scan_empty_next_steps(language: ShellLanguage) -> (r: &'static str)
    ensures
        r@ == language::pick(
            language,
            "next: scan another folder, or type help"@,
            "下一步: 再扫描一个文件夹，或输入 帮助"@,
        ),
{
    language.text(
        "next: scan another folder, or type help",
        "下一步: 再扫描一个文件夹，或输入 帮助",
    )
}

pub fn scan_next_steps(language: ShellLanguage) -> (r: &'static str)
    ensures
        r@ == language::pick(
            language,
            "next: play 1, shuffle, next, prev, play best, or search <query>"@,
            "下一步: 播放 1、随机、下一首、上一首，或 搜索 <关键词>"@,
        ),
{
    language.text(
        "next: play 1, shuffle, next, prev, play best, or search <query>",
        "下一步: 播放 1、随机、下一首、上一首，或 搜索 <关键词>",
    )
}

// ---------------------------------------------------------------- playback

pub open spec fn started_spec(title: Seq<char>, language: ShellLanguage) -> Seq<Seq<char>> {
    seq![
        language::pick(language, "started "@, "开始播放 "@) + title,
        language::pick(
            language,
            "controls: pause resume stop next prev quit"@,
            "控制: 暂停 继续 停止 下一首 上一首 退出"@,
        ),
    ]
}

pub fn started_playback_lines(title: &str, language: ShellLanguage) -> (r: Vec<String>)
    ensures
        text::texts(r@) == started_spec(title@, language),
{
    let r = vec![
        text::text2(language.text("started ", "开始播放 "), title),
        language.text(
            "controls: pause resume stop next prev quit",
            "控制: 暂停 继续 停止 下一首 上一首 退出",
        ).to_owned(),
    ];
    assert(text::texts(r@) =~= started_spec(title@, language));
    r
}

pub open spec fn already_playing_spec(title: Seq<char>, language: ShellLanguage) -> Seq<Seq<char>> {
    seq![
        language::pick(language, "already playing "@, "正在播放 "@) + title,
        language::pick(
            language,
            "use stop before starting another track"@,
            "先输入 停止，再开始另一首。也可以用 播放 下一首 切歌。"@,
        ),
    ]
}

pub fn already_playing_lines(title: &str, language: ShellLanguage) -> (r: Vec<String>)
    ensures
        text::texts(r@) == already_playing_spec(title@, language),
{
    let r = vec![
        text::text2(language.text("already playing ", "正在播放 "), title),
        language.text(
            "use stop before starting another track",
            "先输入 停止，再开始另一首。也可以用 播放 下一首 切歌。",
        ).to_owned(),
    ];
    assert(text::texts(r@) =~= already_playing_spec(title@, language));
    r
}

pub open spec fn stopping_spec(title: Seq<char>, language: ShellLanguage) -> Seq<char> {
    language::pick(language, "stopping "@, "正在停止 "@) + title
}

pub fn stopping_line(title: &str, language: ShellLanguage) -> (r: String)
    ensures
        r@ == stopping_spec(title@, language),
{
    text::text2(language.text("stopping ", "正在停止 "), title)
}

pub open spec fn rate_and_channels(rate: u32, channels: u16) -> Seq<char> {
    text::decimal_spec(rate as nat) + " Hz / "@ + text::decimal_spec(channels as nat) + "ch"@
}

/// Sample rate and channel count.
pub fn rate_and_channels_text(rate: u32, channels: u16) -> (r: String)
    ensures
        r@ == rate_and_channels(rate, channels),
{
    let rate = text::decimal(rate as u128);
    let channels = text::decimal(channels as u128);
    text::text4(&rate, " Hz / ", &channels, "ch")
}

/// What the shell says of a playback event.
pub open spec fn event_spec(event: PlaybackEvent, language: ShellLanguage) -> Seq<Seq<char>> {
    match event {
        PlaybackEvent::Loading { title, path } => seq![
            language::pick(language, "playing "@, "正在播放 "@) + title@,
            language::pick(language, "source  "@, "来源  "@) + path@,
            language::pick(language, "status  decoding"@, "状态  解码中"@),
        ],
        PlaybackEvent::Playing { title, stream, output } => seq![
            language::pick(language, "output  "@, "输出  "@) + output.device_name@ + " / "@
                + output.mode@,
            language::pick(language, "format  "@, "格式  "@) + rate_and_channels(
                output.sample_rate,
                output.channel_count,
            ) + " / "@ + output.sample_format@,
            language::pick(language, "source  "@, "来源  "@) + rate_and_channels(
                stream.sample_rate,
                stream.channel_count,
            ),
            language::pick(language, "status  playing"@, "状态  播放中"@),
            language::pick(
                language,
                "next: pause, stop, shuffle, next, prev, now, or search <query>"@,
                "下一步: 暂停、停止、随机、下一首、上一首、当前，或 搜索 <关键词>"@,
            ),
        ],
        PlaybackEvent::Warning(message) => seq![
            language::pick(language, "warning "@, "警告 "@) + message@,
        ],
        PlaybackEvent::Paused { title } => seq![
            language::pick(language, "paused "@, "已暂停 "@) + title@,
            language::pick(
                language,
                "next: resume, stop, shuffle, next, prev, or quit"@,
                "下一步: 继续、停止、随机、下一首、上一首，或 退出"@,
            ),
        ],
        PlaybackEvent::Resumed { title } => seq![
            language::pick(language, "resumed "@, "已继续 "@) + title@,
        ],
        PlaybackEvent::Stopped { title, elapsed_ms } => seq![
            language::pick(language, "stopped "@, "已停止 "@) + title@ + language::pick(
                language,
                " after "@,
                "，用时 "@,
            ) + text::decimal_spec(elapsed_ms as nat) + " ms"@,
        ],
        PlaybackEvent::Finished { title, elapsed_ms } => seq![
            language::pick(language, "finished in "@, "播放结束，用时 "@) + text::decimal_spec(
                elapsed_ms as nat,
            ) + " ms"@,
            language::pick(
                language,
                "next: play, search <query>, or library"@,
                "下一步: 播放、搜索 <关键词>，或 曲库"@,
            ),
        ],
        PlaybackEvent::Error { path, message } => seq![
            language::pick(language, "error "@, "错误 "@) + message@,
            language::pick(language, "next: doctor or devices"@, "下一步: 诊断 或 设备"@),
        ],
    }
}

pub fn playback_event_lines(event: &PlaybackEvent, language: ShellLanguage) -> (r: Vec<String>)
    ensures
        text::texts(r@) == event_spec(*event, language),
{
    let r = match event {
        PlaybackEvent::Loading { title, path } => vec![
            text::text2(language.text("playing ", "正在播放 "), title.as_str()),
            text::text2(language.text("source  ", "来源  "), path.as_str()),
            language.text("status  decoding", "状态  解码中").to_owned(),
        ],
        PlaybackEvent::Playing { title: _, stream, output } => {
            let format = rate_and_channels_text(output.sample_rate, output.channel_count);
            let source = rate_and_channels_text(stream.sample_rate, stream.channel_count);
            vec![
                text::text4(
                    language.text("output  ", "输出  "),
                    output.device_name.as_str(),
                    " / ",
                    output.mode,
                ),
                text::text4(
                    language.text("format  ", "格式  "),
                    &format,
                    " / ",
                    output.sample_format.as_str(),
                ),
                text::text2(language.text("source  ", "来源  "), &source),
                language.text("status  playing", "状态  播放中").to_owned(),
                language.text(
                    "next: pause, stop, shuffle, next, prev, now, or search <query>",
                    "下一步: 暂停、停止、随机、下一首、上一首、当前，或 搜索 <关键词>",
                ).to_owned(),
            ]
        },
        PlaybackEvent::Warning(message) => vec![
            text::text2(language.text("warning ", "警告 "), message.as_str()),
        ],
        PlaybackEvent::Paused { title } => vec![
            text::text2(language.text("paused ", "已暂停 "), title.as_str()),
            language.text(
                "next: resume, stop, shuffle, next, prev, or quit",
                "下一步: 继续、停止、随机、下一首、上一首，或 退出",
            ).to_owned(),
        ],
        PlaybackEvent::Resumed { title } => vec![
            text::text2(language.text("resumed ", "已继续 "), title.as_str()),
        ],
        PlaybackEvent::Stopped { title, elapsed_ms } => {
            let elapsed = text::decimal(*elapsed_ms);
            vec![
                text::text5(
                    language.text("stopped ", "已停止 "),
                    title.as_str(),
                    language.text(" after ", "，用时 "),
                    &elapsed,
                    " ms",
                ),
            ]
        },
        PlaybackEvent::Finished { title: _, elapsed_ms } => {
            let elapsed = text::decimal(*elapsed_ms);
            vec![
                text::text3(language.text("finished in ", "播放结束，用时 "), &elapsed, " ms"),
                language.text(
                    "next: play, search <query>, or library",
                    "下一步: 播放、搜索 <关键词>，或 曲库",
                ).to_owned(),
            ]
        },
        PlaybackEvent::Error { path: _, message } => vec![
            text::text2(language.text("error ", "错误 "), message.as_str()),
            language.text("next: doctor or devices", "下一步: 诊断 或 设备").to_owned(),
        ],
    };
    assert(text::texts(r@) =~= event_spec(*event, language));
    r
}

// ---------------------------------------------------------------- results

pub open spec fn result_header_spec(label: Seq<char>, count: nat) -> Seq<char> {
    label + ": "@ + text::decimal_spec(count) + if count == 1 {
        " track"@
    } else {
        " tracks"@
    }
}

pub fn result_header(label: &str, count: usize) -> (r: String)
    ensures
        r@ == result_header_spec(label@, count as nat),
{
    let number = text::decimal(count as u128);
    text::text4(
        label,
        ": ",
        &number,
        if count == 1 {
            " track"
        } else {
            " tracks"
        },
    )
}

pub open spec fn view_label_spec(label: Seq<char>, query: Seq<char>) -> Seq<char> {
    if text::trim_spec(query).len() == 0 {
        label
    } else {
        "search "@ + query
    }
}

pub fn result_view_label(label: &str, query: &str) -> (r: String)
    ensures
        r@ == view_label_spec(label@, query@),
{
    if text::trim(query).is_empty() {
        label.to_owned()
    } else {
        text::text2("search ", query)
    }
}

pub open spec fn localized_view_label_spec(
    label: Seq<char>,
    query: Seq<char>,
    language: ShellLanguage,
) -> Seq<char> {
    match language {
        ShellLanguage::English => view_label_spec(label, query),
        ShellLanguage::Chinese => if text::trim_spec(query).len() > 0 {
            "搜索 "@ + query
        } else if label == "library"@ {
            "曲库"@
        } else if label == "results"@ {
            "结果"@
        } else {
            label
        },
    }
}

pub fn localized_result_view_label(label: &str, query: &str, language: ShellLanguage) -> (r: String)
    ensures
        r@ == localized_view_label_spec(label@, query@, language),
{
    match language {
        ShellLanguage::English => result_view_label(label, query),
        ShellLanguage::Chinese => if !text::trim(query).is_empty() {
            text::text2("搜索 ", query)
        } else if text::same_text(label, "library") {
            "曲库".to_owned()
        } else if text::same_text(label, "results") {
            "结果".to_owned()
        } else {
            label.to_owned()
        },
    }
}

pub open spec fn window_label_spec(count: nat, has_more: bool) -> Seq<char> {
    text::decimal_spec(count) + if has_more {
        "+ visible"@
    } else {
        " visible"@
    }
}

pub fn result_window_label(count: usize, has_more: bool) -> (r: String)
    ensures
        r@ == window_label_spec(count as nat, has_more),
{
    let number = text::decimal(count as u128);
    text::text2(
        &number,
        if has_more {
            "+ visible"
        } else {
            " visible"
        },
    )
}

pub open spec fn localized_window_label_spec(
    count: nat,
    has_more: bool,
    language: ShellLanguage,
) -> Seq<char> {
    match language {
        ShellLanguage::English => window_label_spec(count, has_more),
        ShellLanguage::Chinese => text::decimal_spec(count) + if has_more {
            "+ 可见"@
        } else {
            " 可见"@
        },
    }
}

pub fn localized_result_window_label(
    count: usize,
    has_more: bool,
    language: ShellLanguage,
) -> (r: String)
    ensures
        r@ == localized_window_label_spec(count as nat, has_more, language),
{
    match language {
        ShellLanguage::English => result_window_label(count, has_more),
        ShellLanguage::Chinese => {
            let number = text::decimal(count as u128);
            text::text2(
                &number,
                if has_more {
                    "+ 可见"
                } else {
                    " 可见"
                },
            )
        },
    }
}

pub open spec fn no_result_index_spec(index: nat, count: nat, language: ShellLanguage) -> Seq<
    Seq<char>,
> {
    let first = language::pick(language, "no result #"@, "没有第 "@) + text::decimal_spec(index)
        + language::pick(language, ""@, " 个结果"@);
    if count == 0 {
        seq![first] + language::pick_lines(language, NO_RESULTS_EN@, NO_RESULTS_ZH@)
    } else {
        seq![
            first,
            language::pick(language, "visible results are 1.."@, "当前可见结果是 1.."@)
                + text::decimal_spec(count),
            language::pick(
                language,
                "try: play 1, results, more, or search <query>"@,
                "可以试试: 播放 1、结果、更多，或 搜索 <关键词>"@,
            ),
        ]
    }
}

pub fn no_result_index_lines(index: usize, count: usize, language: ShellLanguage) -> (r: Vec<String>)
    ensures
        text::texts(r@) == no_result_index_spec(index as nat, count as nat, language),
{
    let number = text::decimal(index as u128);
    let first = text::text3(
        language.text("no result #", "没有第 "),
        &number,
        language.text("", " 个结果"),
    );
    let ghost expected = no_result_index_spec(index as nat, count as nat, language);
    let mut lines = vec![first];
    if count == 0 {
        let mut more = no_results_yet_lines(language);
        let ghost rest = text::texts(more@);
        lines.append(&mut more);
        assert(text::texts(lines@) =~= seq![first@] + rest);
    } else {
        let visible = text::decimal(count as u128);
        lines.push(
            text::text2(
                language.text("visible results are 1..", "当前可见结果是 1.."),
                &visible,
            ),
        );
        lines.push(
            language.text(
                "try: play 1, results, more, or search <query>",
                "可以试试: 播放 1、结果、更多，或 搜索 <关键词>",
            ).to_owned(),
        );
        assert(text::texts(lines@) =~= expected);
    }
    lines
}

pub open spec fn no_matches_spec(query: Seq<char>, language: ShellLanguage) -> Seq<Seq<char>> {
    seq![
        query + language::pick(language, ": no matches"@, ": 没有匹配"@),
        language::pick(
            language,
            "try: fewer words, library, scan, or another keyword"@,
            "可以试试: 更少的关键词、曲库、扫描，或换个关键词"@,
        ),
    ]
}

pub fn search_no_matches_lines(query: &str, language: ShellLanguage) -> (r: Vec<String>)
    ensures
        text::texts(r@) == no_matches_spec(query@, language),
{
    let r = vec![
        text::text2(query, language.text(": no matches", ": 没有匹配")),
        language.text(
            "try: fewer words, library, scan, or another keyword",
            "可以试试: 更少的关键词、曲库、扫描，或换个关键词",
        ).to_owned(),
    ];
    assert(text::texts(r@) =~= no_matches_spec(query@, language));
    r
}

pub open spec fn result_next_steps_spec(count: nat, language: ShellLanguage) -> Seq<char> {
    if count == 0 {
        language::pick(
            language,
            "next: type another keyword, list, results, or scan"@,
            "下一步: 输入另一个关键词、曲库、结果，或 扫描"@,
        )
    } else {
        language::pick(language, "next: 1, play, play 1.."@, "下一步: 1、播放、播放 1.."@)
            + text::decimal_spec(count) + language::pick(
            language,
            ", shuffle, info, results, more, next, prev, open, copy, or search"@,
            "、随机、信息、结果、更多、下一首、上一首、打开、复制，或 搜索"@,
        )
    }
}

pub fn result_next_steps(count: usize, language: ShellLanguage) -> (r: String)
    ensures
        r@ == result_next_steps_spec(count as nat, language),
{
    if count == 0 {
        language.text(
            "next: type another keyword, list, results, or scan",
            "下一步: 输入另一个关键词、曲库、结果，或 扫描",
        ).to_owned()
    } else {
        let number = text::decimal(count as u128);
        text::text3(
            language.text("next: 1, play, play 1..", "下一步: 1、播放、播放 1.."),
            &number,
            language.text(
                ", shuffle, info, results, more, next, prev, open, copy, or search",
                "、随机、信息、结果、更多、下一首、上一首、打开、复制，或 搜索",
            ),
        )
    }
}

// ---------------------------------------------------------------- scanning

pub open spec fn scan_started_spec(folder: Seq<char>, language: ShellLanguage) -> Seq<char> {
    language::pick(language, "scan "@, "扫描 "@) + folder
}

pub fn scan_started_line(folder: &str, language: ShellLanguage) -> (r: String)
    ensures
        r@ == scan_started_spec(folder@, language),
{
    text::text2(language.text("scan ", "扫描 "), folder)
}

pub open spec fn scan_summary_spec(summary: ScanSummary, language: ShellLanguage) -> Seq<char> {
    language::pick(language, "indexed "@, "已入库 "@) + text::decimal_spec(
        summary.indexed_tracks as nat,
    ) + language::pick(language, " | scanned "@, " | 已扫描 "@) + text::decimal_spec(
        summary.scanned_files as nat,
    ) + language::pick(language, " | skipped "@, " | 已跳过 "@) + text::decimal_spec(
        summary.skipped_unchanged as nat,
    ) + language::pick(language, " | failed "@, " | 失败 "@) + text::decimal_spec(
        summary.failed_files as nat,
    ) + language::pick(language, " | removed "@, " | 已移除 "@) + text::decimal_spec(
        summary.removed_missing as nat,
    ) + " | "@ + text::decimal_spec(summary.elapsed_ms as nat) + " ms"@
}

pub fn scan_summary_line(summary: &ScanSummary, language: ShellLanguage) -> (r: String)
    ensures
        r@ == scan_summary_spec(*summary, language),
{
    scan_summary_line_parts(
        summary.indexed_tracks,
        summary.scanned_files,
        summary.skipped_unchanged,
        summary.failed_files,
        summary.removed_missing,
        summary.elapsed_ms,
        language,
    )
}

pub fn scan_summary_line_parts(
    indexed_tracks: usize,
    scanned_files: usize,
    skipped_unchanged: usize,
    failed_files: usize,
    removed_missing: usize,
    elapsed_ms: u128,
    language: ShellLanguage,
) -> (r: String)
    ensures
        r@ == scan_summary_spec(
            ScanSummary {
                indexed_tracks,
                scanned_files,
                skipped_unchanged,
                failed_files,
                removed_missing,
                elapsed_ms,
            },
            language,
        ),
{
    let mut line = language.text("indexed ", "已入库 ").to_owned();
    line.append(&text::decimal(indexed_tracks as u128));
    line.append(language.text(" | scanned ", " | 已扫描 "));
    line.append(&text::decimal(scanned_files as u128));
    line.append(language.text(" | skipped ", " | 已跳过 "));
    line.append(&text::decimal(skipped_unchanged as u128));
    line.append(language.text(" | failed ", " | 失败 "));
    line.append(&text::decimal(failed_files as u128));
    line.append(language.text(" | removed ", " | 已移除 "));
    line.append(&text::decimal(removed_missing as u128));
    line.append(" | ");
    line.append(&text::decimal(elapsed_ms));
    line.append(" ms");
    line
}

pub open spec fn scan_failure_spec(failed: nat, language: ShellLanguage) -> Option<Seq<char>> {
    if failed == 0 {
        None
    } else {
        Some(
            text::decimal_spec(failed) + language::pick(
                language,
                if failed == 1 {
                    " file failed; type errors to inspect it"@
                } else {
                    " files failed; type errors to inspect them"@
                },
                " 个文件失败；输入 错误 查看"@,
            ),
        )
    }
}

pub fn scan_failure_hint(failed_files: usize, language: ShellLanguage) -> (r: Option<String>)
    ensures
        r is Some == scan_failure_spec(failed_files as nat, language) is Some,
        r matches Some(line) ==> Some(line@) == scan_failure_spec(failed_files as nat, language),
{
    if failed_files == 0 {
        return None;
    }
    let number = text::decimal(failed_files as u128);
    let english = if failed_files == 1 {
        " file failed; type errors to inspect it"
    } else {
        " files failed; type errors to inspect them"
    };
    Some(text::text2(&number, language.text(english, " 个文件失败；输入 错误 查看")))
}

// ---------------------------------------------------------------- status

pub struct StatusSnapshot<'a> {
    pub track_count: u64,
    pub result_count: usize,
    pub result_label: &'a str,
    pub result_query: &'a str,
    pub has_more_results: bool,
    pub default_device: &'a str,
    pub playback_title: Option<&'a str>,
    pub current_title: Option<&'a str>,
    pub current_result: Option<String>,
    pub database_path: &'a str,
    pub language: ShellLanguage,
}

pub open spec fn title_or(title: Option<&str>, fallback: Seq<char>) -> Seq<char> {
    match title {
        Some(title) => title@,
        None => fallback,
    }
}

pub open spec fn label_or(label: Option<String>, fallback: Seq<char>) -> Seq<char> {
    match label {
        Some(label) => label@,
        None => fallback,
    }
}

pub open spec fn status_spec(snapshot: StatusSnapshot<'_>) -> Seq<Seq<char>> {
    let language = snapshot.language;
    let head = seq![
        language::pick(language, "tracks       "@, "歌曲        "@) + text::decimal_spec(
            snapshot.track_count as nat,
        ),
        language::pick(language, "results      "@, "结果        "@) + text::decimal_spec(
            snapshot.result_count as nat,
        ),
        language::pick(language, "view         "@, "视图        "@) + localized_view_label_spec(
            snapshot.result_label@,
            snapshot.result_query@,
            language,
        ),
        language::pick(language, "window       "@, "窗口        "@) + localized_window_label_spec(
            snapshot.result_count as nat,
            snapshot.has_more_results,
            language,
        ),
    ];
    let query = if text::trim_spec(snapshot.result_query@).len() > 0 {
        seq![
            language::pick(language, "query        "@, "关键词      "@) + snapshot.result_query@,
        ]
    } else {
        Seq::empty()
    };
    let tail = seq![
        language::pick(language, "device       "@, "设备        "@) + snapshot.default_device@,
        language::pick(language, "playback     "@, "播放        "@) + title_or(
            snapshot.playback_title,
            language::pick(language, "idle"@, "空闲"@),
        ),
        language::pick(language, "current      "@, "当前        "@) + title_or(
            snapshot.current_title,
            language::pick(language, "idle"@, "空闲"@),
        ),
        language::pick(language, "result       "@, "结果位置    "@) + label_or(
            snapshot.current_result,
            language::pick(language, "not in current results"@, "不在当前结果中"@),
        ),
        language::pick(language, "database     "@, "数据库      "@) + snapshot.database_path@,
    ];
    head + query + tail
}

pub fn status_lines(snapshot: StatusSnapshot<'_>) -> (r: Vec<String>)
    ensures
        text::texts(r@) == status_spec(snapshot),
{
    let language = snapshot.language;
    let ghost expected = status_spec(snapshot);
    let idle = language.text("idle", "空闲");
    let tracks = text::decimal(snapshot.track_count as u128);
    let results = text::decimal(snapshot.result_count as u128);
    let view = localized_result_view_label(snapshot.result_label, snapshot.result_query, language);
    let window = localized_result_window_label(
        snapshot.result_count,
        snapshot.has_more_results,
        language,
    );
    let mut lines = vec![
        text::text2(language.text("tracks       ", "歌曲        "), &tracks),
        text::text2(language.text("results      ", "结果        "), &results),
        text::text2(language.text("view         ", "视图        "), &view),
        text::text2(language.text("window       ", "窗口        "), &window),
    ];
    if !text::trim(snapshot.result_query).is_empty() {
        lines.push(
            text::text2(
                language.text("query        ", "关键词      "),
                snapshot.result_query,
            ),
        );
    }
    lines.push(
        text::text2(language.text("device       ", "设备        "), snapshot.default_device),
    );
    lines.push(
        text::text2(
            language.text("playback     ", "播放        "),
            match snapshot.playback_title {
                Some(title) => title,
                None => idle,
            },
        ),
    );
    lines.push(
        text::text2(
            language.text("current      ", "当前        "),
            match snapshot.current_title {
                Some(title) => title,
                None => idle,
            },
        ),
    );
    lines.push(
        text::text2(
            language.text("result       ", "结果位置    "),
            match &snapshot.current_result {
                Some(label) => label.as_str(),
                None => language.text("not in current results", "不在当前结果中"),
            },
        ),
    );
    lines.push(
        text::text2(language.text("database     ", "数据库      "), snapshot.database_path),
    );
    assert(text::texts(lines@) =~= expected);
    lines
}

pub open spec fn language_status_spec(language: ShellLanguage) -> Seq<Seq<char>> {
    seq![
        language::pick(language, "language: English"@, "语言：中文"@),
        language::pick(
            language,
            "available: en English, zh 中文"@,
            "可用：en English，zh 中文"@,
        ),
        language::pick(
            language,
            "switch: language zh, language en, or /language"@,
            "切换：语言 zh、language en，或 /language"@,
        ),
    ]
}

pub fn language_status_lines(language: ShellLanguage) -> (r: Vec<String>)
    ensures
        text::texts(r@) == language_status_spec(language),
{
    let r = vec![
        language.text("language: English", "语言：中文").to_owned(),
        language.text("available: en English, zh 中文", "可用：en English，zh 中文").to_owned(),
        language.text(
            "switch: language zh, language en, or /language",
            "切换：语言 zh、language en，或 /language",
        ).to_owned(),
    ];
    assert(text::texts(r@) =~= language_status_spec(language));
    r
}

// ---------------------------------------------------------------- next steps

/// What to do next, from what is playing, what is in the library and what is listed.
pub open spec fn next_steps_spec(
    playing: Option<Seq<char>>,
    track_count: nat,
    result_count: nat,
    language: ShellLanguage,
) -> Seq<Seq<char>> {
    seq![language::pick(language, "next:"@, "下一步:"@)] + match playing {
        Some(title) => seq![
            language::pick(language, "  now playing       "@, "  正在播放          "@)
                + layout::compact_spec(title, 54),
        ] + language::pick_lines(language, PLAYING_STEPS_EN@, PLAYING_STEPS_ZH@),
        None => if track_count == 0 {
            language::pick_lines(language, EMPTY_LIBRARY_STEPS_EN@, EMPTY_LIBRARY_STEPS_ZH@)
        } else if result_count == 0 {
            language::pick_lines(language, NO_RESULTS_STEPS_EN@, NO_RESULTS_STEPS_ZH@)
        } else {
            language::pick_lines(language, RESULTS_STEPS_EN@, RESULTS_STEPS_ZH@)
        },
    }
}

pub open spec fn title_view(title: Option<&str>) -> Option<Seq<char>> {
    match title {
        Some(title) => Some(title@),
        None => None,
    }
}

pub fn next_steps_lines(
    playing: Option<&str>,
    track_count: u64,
    result_count: usize,
    language: ShellLanguage,
) -> (r: Vec<String>)
    ensures
        text::texts(r@) == next_steps_spec(
            title_view(playing),
            track_count as nat,
            result_count as nat,
            language,
        ),
{
    let ghost expected = next_steps_spec(
        title_view(playing),
        track_count as nat,
        result_count as nat,
        language,
    );
    let mut lines = vec![language.text("next:", "下一步:").to_owned()];
    let mut rest = match playing {
        Some(title) => {
            let short = layout::compact(title, 54);
            lines.push(
                text::text2(
                    language.text("  now playing       ", "  正在播放          "),
                    &short,
                ),
            );
            language::lines_in(language, &PLAYING_STEPS_EN, &PLAYING_STEPS_ZH)
        },
        None => if track_count == 0 {
            language::lines_in(language, &EMPTY_LIBRARY_STEPS_EN, &EMPTY_LIBRARY_STEPS_ZH)
        } else if result_count == 0 {
            language::lines_in(language, &NO_RESULTS_STEPS_EN, &NO_RESULTS_STEPS_ZH)
        } else {
            language::lines_in(language, &RESULTS_STEPS_EN, &RESULTS_STEPS_ZH)
        },
    };
    let ghost head = text::texts(lines@);
    let ghost tail = text::texts(rest@);
    lines.append(&mut rest);
    assert(text::texts(lines@) =~= head + tail);
    assert(head + tail =~= expected);
    lines
}

/// There is always a next step.
pub proof fn next_steps_are_never_empty(
    playing: Option<Seq<char>>,
    track_count: nat,
    result_count: nat,
    language: ShellLanguage,
)
    ensures
        next_steps_spec(playing, track_count, result_count, language).len() > 1,
{
}

/// What is said of a track that starts, is busy or stops names it.
pub proof fn messages_name_the_track(title: Seq<char>, language: ShellLanguage)
    ensures
        text::ends_with_spec(started_spec(title, language)[0], title),
        text::ends_with_spec(already_playing_spec(title, language)[0], title),
        text::ends_with_spec(stopping_spec(title, language), title),
        started_spec(title, ShellLanguage::English)[0] == "started "@ + title,
        already_playing_spec(title, ShellLanguage::English)[0] == "already playing "@ + title,
        stopping_spec(title, ShellLanguage::English) == "stopping "@ + title,
{
    text::begins_and_ends(language::pick(language, "started "@, "开始播放 "@), title);
    text::begins_and_ends(
        language::pick(language, "already playing "@, "正在播放 "@),
        title,
    );
    text::begins_and_ends(language::pick(language, "stopping "@, "正在停止 "@), title);
}

/// What loads is told with its title and path.
pub proof fn loading_names_title_and_path(title: String, path: String, language: ShellLanguage)
    ensures
        ({
            let lines = event_spec(PlaybackEvent::Loading { title, path }, language);
            text::ends_with_spec(lines[0], title@) && text::ends_with_spec(lines[1], path@)
        }),
{
    text::begins_and_ends(
        language::pick(language, "playing "@, "正在播放 "@),
        title@,
    );
    text::begins_and_ends(
        language::pick(language, "source  "@, "来源  "@),
        path@,
    );
}

/// What plays is told with the device first, the format it plays in next and that of the file last.
pub proof fn playing_names_device_and_formats(
    title: String,
    stream: crate::decoder::DecodeStreamInfo,
    output: crate::audio_backend::OutputStreamInfo,
    language: ShellLanguage,
)
    ensures
        ({
            let lines = event_spec(PlaybackEvent::Playing { title, stream, output }, language);
            &&& text::contains_spec(lines[0], output.device_name@)
            &&& text::ends_with_spec(lines[0], output.mode@)
            &&& text::contains_spec(
                lines[1],
                text::decimal_spec(output.sample_rate as nat) + " Hz / "@ + text::decimal_spec(
                    output.channel_count as nat,
                ) + "ch"@,
            )
            &&& text::ends_with_spec(lines[1], output.sample_format@)
            &&& text::ends_with_spec(
                lines[2],
                text::decimal_spec(stream.sample_rate as nat) + " Hz / "@ + text::decimal_spec(
                    stream.channel_count as nat,
                ) + "ch"@,
            )
        }),
{
    let head = language::pick(language, "output  "@, "输出  "@);
    lemma_between(head, output.device_name@, " / "@, output.mode@);
    let format = language::pick(language, "format  "@, "格式  "@);
    let shown = rate_and_channels(output.sample_rate, output.channel_count);
    lemma_between(format, shown, " / "@, output.sample_format@);
    text::begins_and_ends(
        language::pick(language, "source  "@, "来源  "@),
        rate_and_channels(stream.sample_rate, stream.channel_count),
    );
}

/// Warnings, errors, pauses and resumptions are told with what they carry.
pub proof fn notes_name_what_they_carry(text: String, path: String, language: ShellLanguage)
    ensures
        text::ends_with_spec(event_spec(PlaybackEvent::Warning(text), language)[0], text@),
        text::ends_with_spec(
            event_spec(PlaybackEvent::Error { path, message: text }, language)[0],
            text@,
        ),
        text::ends_with_spec(event_spec(PlaybackEvent::Paused { title: text }, language)[0], text@),
        text::ends_with_spec(
            event_spec(PlaybackEvent::Resumed { title: text }, language)[0],
            text@,
        ),
{
    text::begins_and_ends(language::pick(language, "warning "@, "警告 "@), text@);
    text::begins_and_ends(language::pick(language, "error "@, "错误 "@), text@);
    text::begins_and_ends(language::pick(language, "paused "@, "已暂停 "@), text@);
    text::begins_and_ends(language::pick(language, "resumed "@, "已继续 "@), text@);
}

/// What has stopped is told with its title and the time that was heard, what has finished with the
/// time.
pub proof fn endings_tell_the_time(title: String, elapsed_ms: u128, language: ShellLanguage)
    ensures
        ({
            let stopped = event_spec(PlaybackEvent::Stopped { title, elapsed_ms }, language)[0];
            let finished = event_spec(PlaybackEvent::Finished { title, elapsed_ms }, language)[0];
            let time = text::decimal_spec(elapsed_ms as nat) + " ms"@;
            &&& text::contains_spec(stopped, title@)
            &&& text::ends_with_spec(stopped, time)
            &&& text::ends_with_spec(finished, time)
        }),
{
    let head = language::pick(language, "stopped "@, "已停止 "@);
    let middle = language::pick(language, " after "@, "，用时 "@);
    let number = text::decimal_spec(elapsed_ms as nat);
    lemma_between(head, title@, middle, number);
    lemma_stays_inside(head + title@ + middle + number, " ms"@, title@);
    lemma_ends_with_both(head + title@ + middle, number, " ms"@);
    lemma_ends_with_both(
        language::pick(language, "finished in "@, "播放结束，用时 "@),
        number,
        " ms"@,
    );
}

proof fn lemma_between(a: Seq<char>, b: Seq<char>, c: Seq<char>, d: Seq<char>)
    ensures
        text::contains_spec(a + b + c + d, b),
        text::ends_with_spec(a + b + c + d, d),
        text::contains_spec(a + b + c + d, b + c + d),
{
    let whole = a + b + c + d;
    let at = a.len() as int;
    assert(whole.subrange(at, at + b.len()) =~= b);
    assert(text::occurs_at(whole, b, at));
    text::begins_and_ends(a + b + c, d);
    assert(whole.subrange(at, at + (b + c + d).len()) =~= b + c + d);
    assert(text::occurs_at(whole, b + c + d, at));
}

proof fn lemma_ends_with_both(a: Seq<char>, b: Seq<char>, c: Seq<char>)
    ensures
        text::ends_with_spec(a + b + c, b + c),
{
    text::lemma_regroup(a, b, c);
    text::begins_and_ends(a, b + c);
}

proof fn lemma_stays_inside(s: Seq<char>, more: Seq<char>, part: Seq<char>)
    requires
        text::contains_spec(s, part),
    ensures
        text::contains_spec(s + more, part),
{
    let at = choose|at: int| text::occurs_at(s, part, at);
    assert((s + more).subrange(at, at + part.len()) =~= s.subrange(at, at + part.len()));
    assert(text::occurs_at(s + more, part, at));
}

proof fn lemma_stays_in_front(s: Seq<char>, more: Seq<char>, part: Seq<char>)
    requires
        text::starts_with_spec(s, part),
    ensures
        text::starts_with_spec(s + more, part),
{
    assert((s + more).take(part.len() as int) =~= s.take(part.len() as int));
}

/// Numbers that follow each other, each behind a word of its own: the first stands in front, and
/// each other one between its own word and the next.
proof fn lemma_counts_in_a_row(
    words: (Seq<char>, Seq<char>, Seq<char>, Seq<char>, Seq<char>, Seq<char>, Seq<char>),
    n: (Seq<char>, Seq<char>, Seq<char>, Seq<char>, Seq<char>, Seq<char>),
)
    ensures
        ({
            let line = words.0 + n.0 + words.1 + n.1 + words.2 + n.2 + words.3 + n.3 + words.4 + n.4
                + words.5 + n.5 + words.6;
            &&& text::starts_with_spec(line, words.0 + n.0)
            &&& text::contains_spec(line, words.1 + n.1 + words.2)
            &&& text::contains_spec(line, words.2 + n.2 + words.3)
            &&& text::contains_spec(line, words.3 + n.3 + words.4)
            &&& text::contains_spec(line, words.4 + n.4 + words.5)
            &&& text::ends_with_spec(line, n.5 + words.6)
        }),
{
    let a = words.0 + n.0;
    let b = a + words.1 + n.1;
    let c = b + words.2 + n.2;
    let d = c + words.3 + n.3;
    let e = d + words.4 + n.4;
    let f = e + words.5 + n.5;
    let line = f + words.6;
    text::begins_and_ends(a, Seq::empty());
    assert(a + Seq::empty() =~= a);
    lemma_stays_in_front(a, words.1, a);
    lemma_stays_in_front(a + words.1, n.1, a);
    lemma_stays_in_front(b, words.2, a);
    lemma_stays_in_front(b + words.2, n.2, a);
    lemma_stays_in_front(c, words.3, a);
    lemma_stays_in_front(c + words.3, n.3, a);
    lemma_stays_in_front(d, words.4, a);
    lemma_stays_in_front(d + words.4, n.4, a);
    lemma_stays_in_front(e, words.5, a);
    lemma_stays_in_front(e + words.5, n.5, a);
    lemma_stays_in_front(f, words.6, a);
    let second = words.1 + n.1 + words.2;
    lemma_between(a, words.1, n.1, words.2);
    lemma_stays_inside(b + words.2, n.2, second);
    lemma_stays_inside(c, words.3, second);
    lemma_stays_inside(c + words.3, n.3, second);
    lemma_stays_inside(d, words.4, second);
    lemma_stays_inside(d + words.4, n.4, second);
    lemma_stays_inside(e, words.5, second);
    lemma_stays_inside(e + words.5, n.5, second);
    lemma_stays_inside(f, words.6, second);
    let third = words.2 + n.2 + words.3;
    lemma_between(b, words.2, n.2, words.3);
    lemma_stays_inside(c + words.3, n.3, third);
    lemma_stays_inside(d, words.4, third);
    lemma_stays_inside(d + words.4, n.4, third);
    lemma_stays_inside(e, words.5, third);
    lemma_stays_inside(e + words.5, n.5, third);
    lemma_stays_inside(f, words.6, third);
    let fourth = words.3 + n.3 + words.4;
    lemma_between(c, words.3, n.3, words.4);
    lemma_stays_inside(d + words.4, n.4, fourth);
    lemma_stays_inside(e, words.5, fourth);
    lemma_stays_inside(e + words.5, n.5, fourth);
    lemma_stays_inside(f, words.6, fourth);
    let fifth = words.4 + n.4 + words.5;
    lemma_between(d, words.4, n.4, words.5);
    lemma_stays_inside(e + words.5, n.5, fifth);
    lemma_stays_inside(f, words.6, fifth);
    lemma_ends_with_both(e + words.5, n.5, words.6);
}

/// Each count of a scan stands behind its own word.
pub proof fn counts_stand_behind_their_words(summary: ScanSummary)
    ensures
        ({
            let line = scan_summary_spec(summary, ShellLanguage::English);
            &&& text::starts_with_spec(
                line,
                "indexed "@ + text::decimal_spec(summary.indexed_tracks as nat),
            )
            &&& text::contains_spec(
                line,
                " | scanned "@ + text::decimal_spec(summary.scanned_files as nat) + " | skipped "@,
            )
            &&& text::contains_spec(
                line,
                " | skipped "@ + text::decimal_spec(summary.skipped_unchanged as nat)
                    + " | failed "@,
            )
            &&& text::contains_spec(
                line,
                " | failed "@ + text::decimal_spec(summary.failed_files as nat) + " | removed "@,
            )
            &&& text::contains_spec(
                line,
                " | removed "@ + text::decimal_spec(summary.removed_missing as nat) + " | "@,
            )
            &&& text::ends_with_spec(line, text::decimal_spec(summary.elapsed_ms as nat) + " ms"@)
        }),
        scan_failure_spec(summary.failed_files as nat, ShellLanguage::English) is Some <==>
            summary.failed_files > 0,
{
    lemma_counts_in_a_row(
        (
            "indexed "@,
            " | scanned "@,
            " | skipped "@,
            " | failed "@,
            " | removed "@,
            " | "@,
            " ms"@,
        ),
        (
            text::decimal_spec(summary.indexed_tracks as nat),
            text::decimal_spec(summary.scanned_files as nat),
            text::decimal_spec(summary.skipped_unchanged as nat),
            text::decimal_spec(summary.failed_files as nat),
            text::decimal_spec(summary.removed_missing as nat),
            text::decimal_spec(summary.elapsed_ms as nat),
        ),
    );
}

/// The state is told line by line: tracks, results, view, window, the query where there is one,
/// device, playback, current track, its place among the results, and the database.
pub proof fn states_stand_behind_their_words(snapshot: StatusSnapshot<'_>)
    requires
        snapshot.language == ShellLanguage::English,
    ensures
        ({
            let lines = status_spec(snapshot);
            let n = lines.len();
            &&& n == if text::trim_spec(snapshot.result_query@).len() > 0 {
                10int
            } else {
                9int
            }
            &&& lines[0] == "tracks       "@ + text::decimal_spec(snapshot.track_count as nat)
            &&& lines[1] == "results      "@ + text::decimal_spec(snapshot.result_count as nat)
            &&& text::trim_spec(snapshot.result_query@).len() > 0 ==> lines[2]
                == "view         "@ + ("search "@ + snapshot.result_query@) && lines[4]
                == "query        "@ + snapshot.result_query@
            &&& text::trim_spec(snapshot.result_query@).len() == 0 ==> lines[2]
                == "view         "@ + snapshot.result_label@
            &&& lines[n - 5] == "device       "@ + snapshot.default_device@
            &&& snapshot.playback_title matches Some(title) ==> lines[n - 4] == "playback     "@
                + title@
            &&& snapshot.playback_title is None ==> lines[n - 4] == "playback     "@ + "idle"@
            &&& snapshot.current_title matches Some(title) ==> lines[n - 3] == "current      "@
                + title@
            &&& snapshot.current_title is None ==> lines[n - 3] == "current      "@ + "idle"@
            &&& snapshot.current_result matches Some(label) ==> lines[n - 2] == "result       "@
                + label@
            &&& lines[n - 1] == "database     "@ + snapshot.database_path@
        }),
{
}

/// What to do next goes by what is going on: the track that plays is named; else an empty library
/// comes before an empty list.
pub proof fn next_steps_suit_the_moment(
    playing: Option<Seq<char>>,
    track_count: nat,
    result_count: nat,
)
    ensures
        ({
            let steps = next_steps_spec(playing, track_count, result_count, ShellLanguage::English);
            &&& playing matches Some(title) ==> steps[1] == "  now playing       "@
                + layout::compact_spec(title, 54)
            &&& playing is None && track_count == 0 ==> steps[1]
                == "  scan              choose a music folder"@
            &&& playing is None && track_count > 0 && result_count == 0 ==> steps[1]
                == "  library           show indexed tracks"@
            &&& playing is None && track_count > 0 && result_count > 0 ==> steps[1]
                == "  play              play result #1"@
        }),
{
}

/// What is listed is told with its name and count, and what cannot be found with its number or query.
pub proof fn lists_are_told_with_their_counts(
    label: Seq<char>,
    query: Seq<char>,
    index: nat,
    count: nat,
    language: ShellLanguage,
)
    ensures
        result_header_spec(label, 1) == label + ": "@ + text::decimal_spec(1) + " track"@,
        count != 1 ==> result_header_spec(label, count) == label + ": "@ + text::decimal_spec(count)
            + " tracks"@,
        text::starts_with_spec(
            localized_window_label_spec(count, true, language),
            text::decimal_spec(count) + "+"@,
        ),
        text::starts_with_spec(
            localized_window_label_spec(count, false, language),
            text::decimal_spec(count) + " "@,
        ),
        text::trim_spec(query).len() > 0 ==> text::ends_with_spec(
            localized_view_label_spec(label, query, language),
            query,
        ),
        text::starts_with_spec(no_matches_spec(query, language)[0], query),
        no_result_index_spec(index, count, ShellLanguage::English)[0] == "no result #"@
            + text::decimal_spec(index),
        count > 0 ==> text::ends_with_spec(
            no_result_index_spec(index, count, language)[1],
            text::decimal_spec(count),
        ),
        count > 0 ==> text::contains_spec(
            result_next_steps_spec(count, language),
            text::decimal_spec(count),
        ),
        text::ends_with_spec(scan_started_spec(label, language), label),
{
    reveal_strlit("");
    reveal_strlit("+");
    reveal_strlit(" ");
    reveal_strlit("+ visible");
    reveal_strlit(" visible");
    reveal_strlit("+ 可见");
    reveal_strlit(" 可见");
    let number = text::decimal_spec(count);
    assert(localized_window_label_spec(count, true, language).take(number.len() as int + 1)
        =~= number + "+"@);
    assert(localized_window_label_spec(count, false, language).take(number.len() as int + 1)
        =~= number + " "@);
    text::begins_and_ends("search "@, query);
    text::begins_and_ends("搜索 "@, query);
    text::begins_and_ends(query, language::pick(language, ": no matches"@, ": 没有匹配"@));
    assert("no result #"@ + text::decimal_spec(index) + ""@ =~= "no result #"@ + text::decimal_spec(
        index,
    ));
    text::begins_and_ends(
        language::pick(language, "visible results are 1.."@, "当前可见结果是 1.."@),
        number,
    );
    text::parts_are_inside(
        language::pick(language, "next: 1, play, play 1.."@, "下一步: 1、播放、播放 1.."@),
        number,
        language::pick(
            language,
            ", shuffle, info, results, more, next, prev, open, copy, or search"@,
            "、随机、信息、结果、更多、下一首、上一首、打开、复制，或 搜索"@,
        ),
    );
    text::begins_and_ends(language::pick(language, "scan "@, "扫描 "@), label);
}

} // verus!
