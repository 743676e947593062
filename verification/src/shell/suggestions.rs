//! What the prompt suggests for an input.

use crate::library::Track;
use crate::library;
use crate::seqs;
use crate::shell::catalogue::{
    command_suggestions, normalized_suggestion_input, suggestions_of,
    ShellSuggestion, Suggestion,
};
use crate::shell::catalogue;
use crate::shell::language::ShellLanguage;
use crate::shell::language;
use crate::shell::layout::compact;
use crate::shell::layout;
use crate::text;
use vstd::prelude::*;

verus! {

/// The help topics with their descriptions, in the order of their offering.
pub const TOPICS: [(&'static str, &'static str); 60] = [
    ("play", "play tracks and choose current results"),
    ("播放", "播放歌曲和当前结果"),
    ("shuffle", "play a random visible result"),
    ("随机", "随机播放当前结果"),
    ("surprise", "pick something for me"),
    ("open", "show tracks in Explorer"),
    ("打开", "在 Explorer 中定位歌曲"),
    ("reveal", "same as open"),
    ("folder", "same as open"),
    ("where", "same as open"),
    ("copy", "copy track paths to clipboard"),
    ("复制", "复制歌曲路径"),
    ("again", "repeat the last command"),
    ("search", "find tracks and narrow visible results"),
    ("搜索", "搜索曲库"),
    ("find", "same as search"),
    ("scan", "add music folders to the library"),
    ("扫描", "添加音乐文件夹"),
    ("library", "show recent indexed tracks"),
    ("曲库", "显示最近歌曲"),
    ("list", "same as library"),
    ("songs", "same as library"),
    ("tracks", "same as library"),
    ("results", "print current results again"),
    ("more", "show more current results"),
    ("info", "show track details"),
    ("now", "show current track details"),
    ("current", "same as now"),
    ("history", "show and replay saved commands"),
    ("errors", "show recent scan failures"),
    ("playback", "pause, resume, stop, and inspect playback"),
    ("devices", "list output devices and diagnostics"),
    ("设备", "查看输出设备"),
    ("device", "same as devices"),
    ("outputs", "same as devices"),
    ("status", "show shell and database state"),
    ("状态", "查看 shell 状态"),
    ("doctor", "print diagnostics"),
    ("诊断", "查看诊断"),
    ("health", "same as doctor"),
    ("open-db", "open the database folder"),
    ("next", "play next visible result"),
    ("下一首", "播放下一首"),
    ("prev", "play previous visible result"),
    ("上一首", "播放上一首"),
    ("tips", "show suggested next steps"),
    ("提示", "显示下一步建议"),
    ("home", "show the welcome screen"),
    ("首页", "显示欢迎页"),
    ("clear", "clear the terminal"),
    ("shortcuts", "show keyboard shortcuts"),
    ("快捷键", "查看键盘操作"),
    ("aliases", "show alternate command names"),
    ("别名", "查看中英文别名"),
    ("alias", "same as aliases"),
    ("language", "switch English / 中文"),
    ("语言", "切换 English / 中文"),
    ("quit", "exit the shell"),
    ("退出", "退出 shell"),
    ("exit", "same as quit"),
];

pub const PLAYING_EN: [(&'static str, &'static str); 8] = [
    ("pause", "pause playback"),
    ("stop", "stop playback"),
    ("next", "play next visible result"),
    ("prev", "play previous visible result"),
    ("now", "show current track"),
    ("search ", "search indexed tracks"),
    ("tips", "show suggested next steps"),
    ("help", "show commands"),
];

pub const EMPTY_LIBRARY_EN: [(&'static str, &'static str); 6] = [
    ("scan", "choose a music folder"),
    ("scan add", "choose a music folder"),
    ("scan D:\\Music", "scan a folder path"),
    ("devices", "check output devices"),
    ("language", "switch English / 中文"),
    ("help", "show commands"),
];

pub const NO_RESULTS_EN: [(&'static str, &'static str); 6] = [
    ("library", "show indexed tracks"),
    ("search ", "search indexed tracks"),
    ("scan", "add another folder"),
    ("devices", "check output devices"),
    ("tips", "show suggested next steps"),
    ("help", "show commands"),
];

pub const READY_EN: [(&'static str, &'static str); 9] = [
    ("play", "play result #1"),
    ("1", "play result #1"),
    ("shuffle", "play a random visible result"),
    ("next", "play next visible result"),
    ("info 1", "show result #1 details"),
    ("open 1", "show result #1 in Explorer"),
    ("search ", "search indexed tracks"),
    ("more", "show more current results"),
    ("tips", "show suggested next steps"),
];

pub const PLAYING_ZH: [(&'static str, &'static str); 8] = [
    ("暂停", "暂停播放"),
    ("停止", "停止播放"),
    ("下一首", "播放当前结果里的下一首"),
    ("上一首", "播放当前结果里的上一首"),
    ("当前", "查看正在播放的歌曲"),
    ("搜索 ", "搜索已入库歌曲"),
    ("下一步", "显示建议动作"),
    ("帮助", "显示命令"),
];

pub const EMPTY_LIBRARY_ZH: [(&'static str, &'static str); 5] = [
    ("扫描", "选择音乐文件夹"),
    ("扫描 D:\\Music", "直接扫描一个路径"),
    ("设备", "检查输出设备"),
    ("语言", "切换 English / 中文"),
    ("帮助", "显示命令"),
];

pub const NO_RESULTS_ZH: [(&'static str, &'static str); 6] = [
    ("曲库", "显示已入库歌曲"),
    ("搜索 ", "搜索已入库歌曲"),
    ("扫描", "再添加一个音乐文件夹"),
    ("设备", "检查输出设备"),
    ("下一步", "显示建议动作"),
    ("帮助", "显示命令"),
];

pub const READY_ZH: [(&'static str, &'static str); 9] = [
    ("播放", "播放第 1 个结果"),
    ("1", "直接播放第 1 个结果"),
    ("随机", "随机播放当前可见结果"),
    ("下一首", "播放当前结果里的下一首"),
    ("信息 1", "查看第 1 个结果"),
    ("打开 1", "在 Explorer 里定位"),
    ("搜索 ", "搜索已入库歌曲"),
    ("更多", "显示更多当前结果"),
    ("下一步", "显示建议动作"),
];

/// The commands that take one of the visible results.
pub const RESULT_COMMANDS: [&'static str; 9] = [
    "play",
    "播放",
    "open",
    "打开",
    "copy",
    "复制",
    "info",
    "信息",
    "详情",
];

/// The commands that take a title to search for.
pub const SEARCH_COMMANDS: [&'static str; 3] = ["search", "搜索", "找"];

#[derive(Debug, Clone)]
pub struct ResultSuggestion {
    pub index: usize,
    pub title: String,
    pub artist: String,
}

#[derive(Debug, Clone)]
pub struct ShellSuggestionContext {
    pub results: Vec<ResultSuggestion>,
    pub language: ShellLanguage,
    pub playback_active: bool,
    pub track_count: u64,
}

// ---------------------------------------------------------------- matching results

impl ResultSuggestion {
    /// The number starts with the query, or title or artist contain it up to ASCII case.
    pub open spec fn matches_spec(self, query: Seq<char>) -> bool {
        ||| query.len() == 0
        ||| text::starts_with_spec(text::decimal_spec(self.index as nat), query)
        ||| text::contains_spec(
            text::ascii_lower_spec(self.title@),
            text::ascii_lower_spec(query),
        )
        ||| text::contains_spec(
            text::ascii_lower_spec(self.artist@),
            text::ascii_lower_spec(query),
        )
    }

    pub fn matches(&self, query: &str) -> (r: bool)
        ensures
            r == self.matches_spec(query@),
    {
        if query.is_empty() {
            return true;
        }
        let index = text::decimal(self.index as u128);
        if text::starts_with(&index, query) {
            return true;
        }
        let query = text::ascii_lower(query);
        let title = text::ascii_lower(&self.title);
        if text::contains(&title, &query) {
            return true;
        }
        let artist = text::ascii_lower(&self.artist);
        text::contains(&artist, &query)
    }
}

pub open spec fn matching(query: Seq<char>) -> spec_fn(ResultSuggestion) -> bool {
    |result: ResultSuggestion| result.matches_spec(query)
}

pub open spec fn numbered(query: Seq<char>) -> spec_fn(ResultSuggestion) -> bool {
    |result: ResultSuggestion|
        text::starts_with_spec(text::decimal_spec(result.index as nat), query)
}

/// The input behind the command's name, trimmed.
pub open spec fn query_after(input: Seq<char>, command: Seq<char>) -> Seq<char> {
    match text::strip_prefix_spec(input, command + " "@) {
        Some(rest) => text::trim_spec(rest),
        None => Seq::empty(),
    }
}

fn argument_query<'a>(input: &'a str, command: &str) -> (r: &'a str)
    ensures
        r@ == query_after(input@, command@),
{
    let prefix = text::text2(command, " ");
    match text::strip_prefix(input, &prefix) {
        Some(rest) => text::trim(rest),
        None => {
            proof {
                reveal_strlit("");
                assert(""@ =~= Seq::<char>::empty());
            }
            ""
        },
    }
}

pub open spec fn smaller(a: nat, b: nat) -> nat {
    if a < b {
        a
    } else {
        b
    }
}

pub open spec fn title_and_artist(result: ResultSuggestion) -> Seq<char> {
    layout::compact_spec(result.title@, 42) + " - "@ + layout::compact_spec(result.artist@, 24)
}

pub open spec fn title_description(result: ResultSuggestion, language: ShellLanguage) -> Seq<char> {
    layout::compact_spec(result.artist@, 28) + language::pick(
        language,
        " | result #"@,
        " | 结果 #"@,
    ) + text::decimal_spec(result.index as nat)
}

/// `command` with the number of the result.
pub open spec fn by_number(
    result: ResultSuggestion,
    slash: Seq<char>,
    command: Seq<char>,
) -> Suggestion {
    Suggestion {
        completion: slash + command + " "@ + text::decimal_spec(result.index as nat),
        description: title_and_artist(result),
    }
}

/// `command` with the title of the result.
pub open spec fn by_title(
    result: ResultSuggestion,
    slash: Seq<char>,
    command: Seq<char>,
    language: ShellLanguage,
) -> Suggestion {
    Suggestion {
        completion: slash + command + " "@ + result.title@,
        description: title_description(result, language),
    }
}

/// Each matching result by number and by title, twelve suggestions at most.
pub open spec fn result_command_spec(
    context: ShellSuggestionContext,
    input: Seq<char>,
    command: Seq<char>,
    slash: Seq<char>,
) -> Seq<Suggestion> {
    let found = context.results@.filter(matching(query_after(input, command)));
    Seq::new(
        smaller(12, 2 * found.len()),
        |i: int|
            if i % 2 == 0 {
                by_number(found[i / 2], slash, command)
            } else {
                by_title(found[i / 2], slash, command, context.language)
            },
    )
}

/// Each matching result by title, twelve suggestions at most.
pub open spec fn search_result_spec(
    context: ShellSuggestionContext,
    input: Seq<char>,
    slash: Seq<char>,
    command: Seq<char>,
) -> Seq<Suggestion> {
    let found = context.results@.filter(matching(query_after(input, command)));
    Seq::new(
        smaller(12, found.len()),
        |i: int| by_title(found[i], slash, command, context.language),
    )
}

/// The titles of the matching results, eight at most.
pub open spec fn bare_search_spec(context: ShellSuggestionContext, input: Seq<char>) -> Seq<
    Suggestion,
> {
    let found = context.results@.filter(matching(input));
    Seq::new(
        smaller(8, found.len()),
        |i: int|
            Suggestion {
                completion: found[i].title@,
                description: language::pick(
                    context.language,
                    "search title | "@,
                    "搜索标题 | "@,
                ) + layout::compact_spec(found[i].artist@, 22) + language::pick(
                    context.language,
                    " | result #"@,
                    " | 结果 #"@,
                ) + text::decimal_spec(found[i].index as nat),
            },
    )
}

/// The results whose number starts with the digits, eight at most.
pub open spec fn result_index_spec(context: ShellSuggestionContext, input: Seq<char>) -> Seq<
    Suggestion,
> {
    let found = context.results@.filter(
        numbered(text::strip_leading_spec(input, seq!['#'])),
    );
    let hash = if text::starts_with_spec(input, "#"@) {
        "#"@
    } else {
        ""@
    };
    Seq::new(
        smaller(8, found.len()),
        |i: int|
            Suggestion {
                completion: hash + text::decimal_spec(found[i].index as nat),
                description: language::pick(context.language, "play "@, "播放 "@)
                    + title_and_artist(found[i]),
            },
    )
}

/// Positions of the first elements that `keep` selects.
pub open spec fn selects(
    positions: Seq<usize>,
    results: Seq<ResultSuggestion>,
    keep: spec_fn(ResultSuggestion) -> bool,
    limit: nat,
) -> bool {
    let found = results.filter(keep);
    &&& positions.len() == smaller(limit, found.len())
    &&& forall|k: int|
        0 <= k < positions.len() ==> (#[trigger] positions[k]) < results.len()
            && results[positions[k] as int] == found[k]
}

proof fn lemma_select_step(
    before: Seq<usize>,
    after: Seq<usize>,
    results: Seq<ResultSuggestion>,
    keep: spec_fn(ResultSuggestion) -> bool,
    limit: nat,
    i: int,
)
    requires
        0 <= i < results.len(),
        results.len() <= usize::MAX,
        selects(before, results.take(i), keep, limit),
        after == if keep(results[i]) && before.len() < limit {
            before.push(i as usize)
        } else {
            before
        },
    ensures
        selects(after, results.take(i + 1), keep, limit),
{
    seqs::lemma_filter_step(results, keep, i);
    let found = results.take(i + 1).filter(keep);
    assert forall|k: int| 0 <= k < after.len() implies (#[trigger] after[k]) < results.take(
        i + 1,
    ).len() && results.take(i + 1)[after[k] as int] == found[k] by {
        if k < before.len() {
            assert(after[k] == before[k]);
            assert(results.take(i)[before[k] as int] == results.take(i + 1)[before[k] as int]);
        }
    }
}

impl ShellSuggestionContext {
    pub fn from_tracks(tracks: &[Track]) -> (r: Self)
        ensures
            r.lists(tracks@),
            r.language == ShellLanguage::English,
            !r.playback_active,
            r.track_count == tracks@.len(),
    {
        ShellSuggestionContext::from_tracks_with_language(tracks, ShellLanguage::English)
    }

    pub fn from_tracks_with_language(tracks: &[Track], language: ShellLanguage) -> (r: Self)
        ensures
            r.lists(tracks@),
            r.language == language,
            !r.playback_active,
            r.track_count == tracks@.len(),
    {
        ShellSuggestionContext::new(tracks, language, false, tracks.len() as u64)
    }

    /// The results are these tracks, numbered from one.
    pub open spec fn lists(self, tracks: Seq<Track>) -> bool {
        &&& self.results@.len() == tracks.len()
        &&& forall|i: int|
            0 <= i < tracks.len() ==> (#[trigger] self.results@[i]).index == i + 1
                && self.results@[i].title@ == tracks[i].title@ && self.results@[i].artist@
                == library::text_or(tracks[i].artist, "unknown artist"@)
    }

    pub fn new(
        tracks: &[Track],
        language: ShellLanguage,
        playback_active: bool,
        track_count: u64,
    ) -> (r: Self)
        ensures
            r.lists(tracks@),
            r.results@.len() == tracks@.len(),
            forall|i: int|
                0 <= i < tracks@.len() ==> (#[trigger] r.results@[i]).index == i + 1
                    && r.results@[i].title@ == tracks@[i].title@ && (tracks@[i].artist matches Some(
                    artist,
                ) ==> r.results@[i].artist@ == artist@),
            r.language == language,
            r.playback_active == playback_active,
            r.track_count == track_count,
    {
        let mut results: Vec<ResultSuggestion> = Vec::new();
        for i in 0..tracks.len()
            invariant
                results.len() == i,
                forall|j: int|
                    0 <= j < i ==> (#[trigger] results@[j]).index == j + 1 && results@[j].title@
                        == tracks@[j].title@ && results@[j].artist@ == library::text_or(
                        tracks@[j].artist,
                        "unknown artist"@,
                    ),
        {
            let artist = library::text_or_default(&tracks[i].artist, "unknown artist");
            results.push(
                ResultSuggestion {
                    index: i + 1,
                    title: tracks[i].title.clone(),
                    artist: artist.to_owned(),
                },
            );
        }
        ShellSuggestionContext { results, language, playback_active, track_count }
    }

    fn matching_results(&self, query: &str, limit: usize) -> (r: Vec<usize>)
        ensures
            selects(r@, self.results@, matching(query@), limit as nat),
    {
        let mut r: Vec<usize> = Vec::new();
        let ghost keep = matching(query@);
        proof {
            seqs::lemma_filter_none(self.results@, keep);
        }
        for i in 0..self.results.len()
            invariant
                keep == matching(query@),
                selects(r@, self.results@.take(i as int), keep, limit as nat),
        {
            let ghost before = r@;
            if self.results[i].matches(query) && r.len() < limit {
                r.push(i);
            }
            proof {
                lemma_select_step(before, r@, self.results@, keep, limit as nat, i as int);
            }
        }
        assert(self.results@.take(self.results.len() as int) == self.results@);
        r
    }

    fn numbered_results(&self, query: &str, limit: usize) -> (r: Vec<usize>)
        ensures
            selects(r@, self.results@, numbered(query@), limit as nat),
    {
        let mut r: Vec<usize> = Vec::new();
        let ghost keep = numbered(query@);
        proof {
            seqs::lemma_filter_none(self.results@, keep);
        }
        for i in 0..self.results.len()
            invariant
                keep == numbered(query@),
                selects(r@, self.results@.take(i as int), keep, limit as nat),
        {
            let ghost before = r@;
            let number = text::decimal(self.results[i].index as u128);
            if text::starts_with(&number, query) && r.len() < limit {
                r.push(i);
            }
            proof {
                lemma_select_step(before, r@, self.results@, keep, limit as nat, i as int);
            }
        }
        assert(self.results@.take(self.results.len() as int) == self.results@);
        r
    }

    fn result_description(result: &ResultSuggestion) -> (r: String)
        ensures
            r@ == title_and_artist(*result),
    {
        let title = compact(&result.title, 42);
        let artist = compact(&result.artist, 24);
        text::text3(&title, " - ", &artist)
    }

    pub fn result_title_completion_description(&self, result: &ResultSuggestion) -> (r: String)
        ensures
            r@ == title_description(*result, self.language),
    {
        let artist = compact(&result.artist, 28);
        let number = text::decimal(result.index as u128);
        text::text3(&artist, self.language.text(" | result #", " | 结果 #"), &number)
    }

    pub fn result_command_suggestions(
        &self,
        normalized_input: &str,
        command: &str,
        completion_prefix: &str,
    ) -> (r: Vec<ShellSuggestion>)
        ensures
            catalogue::shown(r@) == result_command_spec(
                *self,
                normalized_input@,
                command@,
                completion_prefix@,
            ),
    {
        let query = argument_query(normalized_input, command);
        let found = self.matching_results(query, 6);
        let ghost all = self.results@.filter(matching(query@));
        let ghost expected = result_command_spec(
            *self,
            normalized_input@,
            command@,
            completion_prefix@,
        );
        let start = text::text3(completion_prefix, command, " ");
        let mut r: Vec<ShellSuggestion> = Vec::new();
        for k in 0..found.len()
            invariant
                selects(found@, self.results@, matching(query@), 6),
                all == self.results@.filter(matching(query@)),
                query@ == query_after(normalized_input@, command@),
                start@ == completion_prefix@ + command@ + " "@,
                expected == result_command_spec(
                    *self,
                    normalized_input@,
                    command@,
                    completion_prefix@,
                ),
                r.len() == 2 * k,
                forall|j: int| 0 <= j < r.len() ==> (#[trigger] r@[j])@ == expected[j],
        {
            let result = &self.results[found[k]];
            assert(self.results@[found@[k as int] as int] == all[k as int]);
            assert(expected[2 * k] == by_number(all[k as int], completion_prefix@, command@));
            assert(expected[2 * k + 1] == by_title(
                all[k as int],
                completion_prefix@,
                command@,
                self.language,
            ));
            let number = text::decimal(result.index as u128);
            r.push(
                ShellSuggestion {
                    completion: text::text2(&start, &number),
                    description: Self::result_description(result),
                },
            );
            r.push(
                ShellSuggestion {
                    completion: text::text2(&start, &result.title),
                    description: self.result_title_completion_description(result),
                },
            );
        }
        assert(catalogue::shown(r@) =~= expected);
        r
    }

    pub fn search_result_suggestions(
        &self,
        normalized_input: &str,
        completion_prefix: &str,
    ) -> (r: Vec<ShellSuggestion>)
        ensures
            catalogue::shown(r@) == search_result_spec(
                *self,
                normalized_input@,
                completion_prefix@,
                "search"@,
            ),
    {
        self.search_result_suggestions_for_command(normalized_input, completion_prefix, "search")
    }

    pub fn search_result_suggestions_for_command(
        &self,
        normalized_input: &str,
        completion_prefix: &str,
        command: &str,
    ) -> (r: Vec<ShellSuggestion>)
        ensures
            catalogue::shown(r@) == search_result_spec(
                *self,
                normalized_input@,
                completion_prefix@,
                command@,
            ),
    {
        let query = argument_query(normalized_input, command);
        let found = self.matching_results(query, 12);
        let ghost all = self.results@.filter(matching(query@));
        let ghost expected = search_result_spec(
            *self,
            normalized_input@,
            completion_prefix@,
            command@,
        );
        let start = text::text3(completion_prefix, command, " ");
        let mut r: Vec<ShellSuggestion> = Vec::new();
        for k in 0..found.len()
            invariant
                selects(found@, self.results@, matching(query@), 12),
                all == self.results@.filter(matching(query@)),
                query@ == query_after(normalized_input@, command@),
                start@ == completion_prefix@ + command@ + " "@,
                expected == search_result_spec(
                    *self,
                    normalized_input@,
                    completion_prefix@,
                    command@,
                ),
                r.len() == k,
                forall|j: int| 0 <= j < r.len() ==> (#[trigger] r@[j])@ == expected[j],
        {
            let result = &self.results[found[k]];
            assert(self.results@[found@[k as int] as int] == all[k as int]);
            r.push(
                ShellSuggestion {
                    completion: text::text2(&start, &result.title),
                    description: self.result_title_completion_description(result),
                },
            );
        }
        assert(catalogue::shown(r@) =~= expected);
        r
    }

    pub fn bare_search_suggestions(&self, normalized_input: &str) -> (r: Vec<ShellSuggestion>)
        ensures
            catalogue::shown(r@) == bare_search_spec(*self, normalized_input@),
    {
        let found = self.matching_results(normalized_input, 8);
        let ghost all = self.results@.filter(matching(normalized_input@));
        let ghost expected = bare_search_spec(*self, normalized_input@);
        let mut r: Vec<ShellSuggestion> = Vec::new();
        for k in 0..found.len()
            invariant
                selects(found@, self.results@, matching(normalized_input@), 8),
                all == self.results@.filter(matching(normalized_input@)),
                expected == bare_search_spec(*self, normalized_input@),
                r.len() == k,
                forall|j: int| 0 <= j < r.len() ==> (#[trigger] r@[j])@ == expected[j],
        {
            let result = &self.results[found[k]];
            assert(self.results@[found@[k as int] as int] == all[k as int]);
            let artist = compact(&result.artist, 22);
            let number = text::decimal(result.index as u128);
            r.push(
                ShellSuggestion {
                    completion: result.title.clone(),
                    description: text::text4(
                        self.language.text("search title | ", "搜索标题 | "),
                        &artist,
                        self.language.text(" | result #", " | 结果 #"),
                        &number,
                    ),
                },
            );
        }
        assert(catalogue::shown(r@) =~= expected);
        r
    }

    pub fn result_index_suggestions(&self, normalized_input: &str) -> (r: Vec<ShellSuggestion>)
        ensures
            catalogue::shown(r@) == result_index_spec(*self, normalized_input@),
    {
        let query = text::strip_leading(normalized_input, &['#']);
        assert(['#']@ =~= seq!['#']);
        let hash = if text::starts_with(normalized_input, "#") {
            "#"
        } else {
            ""
        };
        let found = self.numbered_results(query, 8);
        let ghost all = self.results@.filter(numbered(query@));
        let ghost expected = result_index_spec(*self, normalized_input@);
        let mut r: Vec<ShellSuggestion> = Vec::new();
        for k in 0..found.len()
            invariant
                selects(found@, self.results@, numbered(query@), 8),
                all == self.results@.filter(numbered(query@)),
                query@ == text::strip_leading_spec(normalized_input@, seq!['#']),
                hash@ == if text::starts_with_spec(normalized_input@, "#"@) {
                    "#"@
                } else {
                    ""@
                },
                expected == result_index_spec(*self, normalized_input@),
                r.len() == k,
                forall|j: int| 0 <= j < r.len() ==> (#[trigger] r@[j])@ == expected[j],
        {
            let result = &self.results[found[k]];
            assert(self.results@[found@[k as int] as int] == all[k as int]);
            let number = text::decimal(result.index as u128);
            let description = Self::result_description(result);
            r.push(
                ShellSuggestion {
                    completion: text::text2(hash, &number),
                    description: text::text2(self.language.text("play ", "播放 "), &description),
                },
            );
        }
        assert(catalogue::shown(r@) =~= expected);
        r
    }

    // ------------------------------------------------------------ an empty prompt

    pub open spec fn english_idle_spec(self) -> Seq<Suggestion> {
        if self.playback_active {
            catalogue::shown_pairs(PLAYING_EN@)
        } else if self.track_count == 0 {
            catalogue::shown_pairs(EMPTY_LIBRARY_EN@)
        } else if self.results@.len() == 0 {
            catalogue::shown_pairs(NO_RESULTS_EN@)
        } else {
            catalogue::shown_pairs(READY_EN@)
        }
    }

    pub open spec fn chinese_idle_spec(self) -> Seq<Suggestion> {
        if self.playback_active {
            catalogue::shown_pairs(PLAYING_ZH@)
        } else if self.track_count == 0 {
            catalogue::shown_pairs(EMPTY_LIBRARY_ZH@)
        } else if self.results@.len() == 0 {
            catalogue::shown_pairs(NO_RESULTS_ZH@)
        } else {
            catalogue::shown_pairs(READY_ZH@)
        }
    }

    pub open spec fn idle_spec(self) -> Seq<Suggestion> {
        match self.language {
            ShellLanguage::English => self.english_idle_spec(),
            ShellLanguage::Chinese => self.chinese_idle_spec(),
        }
    }

    pub fn english_idle_suggestions(&self) -> (r: Vec<ShellSuggestion>)
        ensures
            catalogue::shown(r@) == self.english_idle_spec(),
    {
        if self.playback_active {
            suggestions_of(&PLAYING_EN)
        } else if self.track_count == 0 {
            suggestions_of(&EMPTY_LIBRARY_EN)
        } else if self.results.len() == 0 {
            suggestions_of(&NO_RESULTS_EN)
        } else {
            suggestions_of(&READY_EN)
        }
    }

    pub fn chinese_idle_suggestions(&self) -> (r: Vec<ShellSuggestion>)
        ensures
            catalogue::shown(r@) == self.chinese_idle_spec(),
    {
        if self.playback_active {
            suggestions_of(&PLAYING_ZH)
        } else if self.track_count == 0 {
            suggestions_of(&EMPTY_LIBRARY_ZH)
        } else if self.results.len() == 0 {
            suggestions_of(&NO_RESULTS_ZH)
        } else {
            suggestions_of(&READY_ZH)
        }
    }

    pub fn idle_suggestions(&self) -> (r: Vec<ShellSuggestion>)
        ensures
            catalogue::shown(r@) == self.idle_spec(),
    {
        match self.language {
            ShellLanguage::English => self.english_idle_suggestions(),
            ShellLanguage::Chinese => self.chinese_idle_suggestions(),
        }
    }

    // ------------------------------------------------------------ any input

    /// What the result commands from `from` on offer: the first that the input names with
    /// something to offer.
    pub open spec fn result_commands_spec(self, input: Seq<char>, slash: Seq<char>, from: int) -> Seq<
        Suggestion,
    >
        decreases RESULT_COMMANDS@.len() - from,
    {
        if from < 0 || from >= RESULT_COMMANDS@.len() {
            Seq::empty()
        } else {
            let command = RESULT_COMMANDS@[from]@;
            if text::starts_with_spec(input, command + " "@) && result_command_spec(
                self,
                input,
                command,
                slash,
            ).len() > 0 {
                result_command_spec(self, input, command, slash)
            } else {
                self.result_commands_spec(input, slash, from + 1)
            }
        }
    }

    /// The same for the search commands.
    pub open spec fn search_commands_spec(self, input: Seq<char>, slash: Seq<char>, from: int) -> Seq<
        Suggestion,
    >
        decreases SEARCH_COMMANDS@.len() - from,
    {
        if from < 0 || from >= SEARCH_COMMANDS@.len() {
            Seq::empty()
        } else {
            let command = SEARCH_COMMANDS@[from]@;
            if text::starts_with_spec(input, command + " "@) && search_result_spec(
                self,
                input,
                slash,
                command,
            ).len() > 0 {
                search_result_spec(self, input, slash, command)
            } else {
                self.search_commands_spec(input, slash, from + 1)
            }
        }
    }

    /// The catalogue's commands that the input begins, in the shell's language.
    pub open spec fn command_spec(self, input: Seq<char>) -> Seq<Suggestion> {
        let commands = catalogue::command_suggestions_spec(input);
        Seq::new(commands.len(), |i: int| commands[i].localized(self.language))
    }

    /// Numbers, result commands, searches and help topics come first; text that begins no command
    /// is matched against the results; what is left is offered from the catalogue.
    pub open spec fn suggestions_spec(self, input: Seq<char>) -> Seq<Suggestion> {
        let normalized = catalogue::normalized_spec(input);
        let command_input = slash_view_spec(normalized).0;
        let slash = slash_view_spec(normalized).1;
        if normalized.len() == 0 {
            self.idle_spec()
        } else if is_index_prefix_spec(normalized) && result_index_spec(self, normalized).len()
            > 0 {
            result_index_spec(self, normalized)
        } else if self.result_commands_spec(command_input, slash, 0).len() > 0 {
            self.result_commands_spec(command_input, slash, 0)
        } else if self.search_commands_spec(command_input, slash, 0).len() > 0 {
            self.search_commands_spec(command_input, slash, 0)
        } else if (text::starts_with_spec(command_input, "help "@) || text::starts_with_spec(
            command_input,
            "帮助 "@,
        )) && help_topics_spec(normalized).len() > 0 {
            help_topics_spec(normalized)
        } else if catalogue::command_suggestions_spec(input).len() == 0 && bare_search_spec(
            self,
            normalized,
        ).len() > 0 {
            bare_search_spec(self, normalized)
        } else {
            self.command_spec(input)
        }
    }

    fn result_commands(&self, input: &str, slash: &str) -> (r: Vec<ShellSuggestion>)
        ensures
            catalogue::shown(r@) == self.result_commands_spec(input@, slash@, 0),
    {
        let commands = RESULT_COMMANDS;
        let mut i: usize = 0;
        while i < commands.len()
            invariant
                commands@ == RESULT_COMMANDS@,
                i <= commands@.len(),
                self.result_commands_spec(input@, slash@, 0) == self.result_commands_spec(
                    input@,
                    slash@,
                    i as int,
                ),
            decreases commands@.len() - i,
        {
            let prefix = text::text2(commands[i], " ");
            if text::starts_with(input, &prefix) {
                let found = self.result_command_suggestions(input, commands[i], slash);
                assert(catalogue::shown(found@).len() == found@.len());
                if found.len() > 0 {
                    return found;
                }
            }
            i = i + 1;
        }
        let none: Vec<ShellSuggestion> = Vec::new();
        assert(catalogue::shown(none@) =~= Seq::<Suggestion>::empty());
        none
    }

    fn search_commands(&self, input: &str, slash: &str) -> (r: Vec<ShellSuggestion>)
        ensures
            catalogue::shown(r@) == self.search_commands_spec(input@, slash@, 0),
    {
        let commands = SEARCH_COMMANDS;
        let mut i: usize = 0;
        while i < commands.len()
            invariant
                commands@ == SEARCH_COMMANDS@,
                i <= commands@.len(),
                self.search_commands_spec(input@, slash@, 0) == self.search_commands_spec(
                    input@,
                    slash@,
                    i as int,
                ),
            decreases commands@.len() - i,
        {
            let prefix = text::text2(commands[i], " ");
            if text::starts_with(input, &prefix) {
                let found = self.search_result_suggestions_for_command(input, slash, commands[i]);
                assert(catalogue::shown(found@).len() == found@.len());
                if found.len() > 0 {
                    return found;
                }
            }
            i = i + 1;
        }
        let none: Vec<ShellSuggestion> = Vec::new();
        assert(catalogue::shown(none@) =~= Seq::<Suggestion>::empty());
        none
    }

    pub fn suggestions(&self, input: &str) -> (r: Vec<ShellSuggestion>)
        ensures
            catalogue::shown(r@) == self.suggestions_spec(input@),
    {
        let normalized = normalized_suggestion_input(input);
        if normalized.as_str().is_empty() {
            return self.idle_suggestions();
        }
        let (command_input, slash) = slash_command_view(&normalized);
        if is_result_index_prefix(&normalized) {
            let found = self.result_index_suggestions(&normalized);
            assert(catalogue::shown(found@).len() == found@.len());
            if found.len() > 0 {
                return found;
            }
        }
        let found = self.result_commands(command_input, slash);
        assert(catalogue::shown(found@).len() == found@.len());
        if found.len() > 0 {
            return found;
        }
        let found = self.search_commands(command_input, slash);
        assert(catalogue::shown(found@).len() == found@.len());
        if found.len() > 0 {
            return found;
        }
        if text::starts_with(command_input, "help ") || text::starts_with(command_input, "帮助 ") {
            let found = help_topic_suggestions(&normalized);
            assert(catalogue::shown(found@).len() == found@.len());
            if found.len() > 0 {
                return found;
            }
        }
        let commands = command_suggestions(input);
        if commands.len() == 0 {
            let found = self.bare_search_suggestions(&normalized);
            assert(catalogue::shown(found@).len() == found@.len());
            if found.len() > 0 {
                return found;
            }
        }
        let ghost expected = self.command_spec(input@);
        let mut r: Vec<ShellSuggestion> = Vec::new();
        for i in 0..commands.len()
            invariant
                commands@ == catalogue::command_suggestions_spec(input@),
                expected == self.command_spec(input@),
                r.len() == i,
                forall|j: int| 0 <= j < i ==> (#[trigger] r@[j])@ == expected[j],
        {
            r.push(commands[i].to_shell_suggestion(self.language));
        }
        assert(catalogue::shown(r@) =~= expected);
        r
    }
}

// ---------------------------------------------------------------- parts of the input

/// The input behind a slash, and the slash.
pub open spec fn slash_view_spec(normalized: Seq<char>) -> (Seq<char>, Seq<char>) {
    match text::strip_prefix_spec(normalized, "/"@) {
        Some(rest) => (rest, "/"@),
        None => (normalized, ""@),
    }
}

pub fn slash_command_view(normalized_input: &str) -> (r: (&str, &'static str))
    ensures
        (r.0@, r.1@) == slash_view_spec(normalized_input@),
{
    match text::strip_prefix(normalized_input, "/") {
        Some(rest) => (rest, "/"),
        None => (normalized_input, ""),
    }
}

/// Digits, with or without a leading hash.
pub open spec fn index_digits(input: Seq<char>) -> Seq<char> {
    match text::strip_prefix_spec(text::trim_spec(input), "#"@) {
        Some(rest) => rest,
        None => text::trim_spec(input),
    }
}

pub open spec fn is_index_prefix_spec(input: Seq<char>) -> bool {
    index_digits(input).len() > 0 && text::all_digits(index_digits(input))
}

fn digits_of(input: &str) -> (r: &str)
    ensures
        r@ == index_digits(input@),
{
    let value = text::trim(input);
    match text::strip_prefix(value, "#") {
        Some(rest) => rest,
        None => value,
    }
}

pub fn is_result_index_prefix(input: &str) -> (r: bool)
    ensures
        r == is_index_prefix_spec(input@),
{
    let digits = digits_of(input);
    let chars = text::chars_of(digits);
    chars.len() > 0 && text::is_all_digits(&chars)
}

/// A positive number, with or without a leading hash.
pub open spec fn parse_index_spec(input: Seq<char>) -> Option<usize> {
    if is_index_prefix_spec(input) && 0 < text::digits_value(index_digits(input)) <= usize::MAX {
        Some(text::digits_value(index_digits(input)) as usize)
    } else {
        None
    }
}

pub fn parse_result_index_input(input: &str) -> (r: Option<usize>)
    ensures
        r == parse_index_spec(input@),
{
    let digits = digits_of(input);
    let chars = text::chars_of(digits);
    if chars.len() == 0 || !text::is_all_digits(&chars) {
        return None;
    }
    match text::digits_to_usize(&chars) {
        Some(index) => if index > 0 {
            Some(index)
        } else {
            None
        },
        None => None,
    }
}

// ---------------------------------------------------------------- help topics

/// The form of the help command that was typed.
pub open spec fn help_prefix(normalized: Seq<char>) -> Seq<char> {
    if text::starts_with_spec(normalized, "/help "@) {
        "/help "@
    } else if text::starts_with_spec(normalized, "帮助 "@) {
        "帮助 "@
    } else {
        "help "@
    }
}

/// What follows it, trimmed.
pub open spec fn help_query(normalized: Seq<char>) -> Seq<char> {
    match text::strip_prefix_spec(normalized, help_prefix(normalized)) {
        Some(rest) => text::trim_spec(rest),
        None => Seq::empty(),
    }
}

pub open spec fn topic_matches(query: Seq<char>) -> spec_fn((&'static str, &'static str)) -> bool {
    |topic: (&'static str, &'static str)| text::starts_with_spec(topic.0@, query)
}

/// The topics that begin with the query.
pub open spec fn help_topics_spec(normalized: Seq<char>) -> Seq<Suggestion> {
    let topics = TOPICS@.filter(topic_matches(help_query(normalized)));
    Seq::new(
        topics.len(),
        |i: int|
            Suggestion {
                completion: help_prefix(normalized) + topics[i].0@,
                description: topics[i].1@,
            },
    )
}

pub fn help_topic_suggestions(normalized_input: &str) -> (r: Vec<ShellSuggestion>)
    ensures
        catalogue::shown(r@) == help_topics_spec(normalized_input@),
{
    let prefix = if text::starts_with(normalized_input, "/help ") {
        "/help "
    } else if text::starts_with(normalized_input, "帮助 ") {
        "帮助 "
    } else {
        "help "
    };
    let query = match text::strip_prefix(normalized_input, prefix) {
        Some(rest) => text::trim(rest),
        None => {
            proof {
                reveal_strlit("");
                assert(""@ =~= Seq::<char>::empty());
            }
            ""
        },
    };
    let topics = TOPICS;
    let ghost all = topics@;
    let ghost keep = topic_matches(query@);
    let mut r: Vec<ShellSuggestion> = Vec::new();
    proof {
        seqs::lemma_filter_none(all, keep);
    }
    for i in 0..topics.len()
        invariant
            all == topics@,
            keep == topic_matches(query@),
            r.len() == all.take(i as int).filter(keep).len(),
            forall|j: int|
                0 <= j < r.len() ==> (#[trigger] r@[j])@ == (Suggestion {
                    completion: prefix@ + all.take(i as int).filter(keep)[j].0@,
                    description: all.take(i as int).filter(keep)[j].1@,
                }),
    {
        proof {
            seqs::lemma_filter_step(all, keep, i as int);
        }
        if text::starts_with(topics[i].0, query) {
            r.push(
                ShellSuggestion {
                    completion: text::text2(prefix, topics[i].0),
                    description: topics[i].1.to_owned(),
                },
            );
        }
    }
    assert(all.take(topics@.len() as int) == all);
    assert(catalogue::shown(r@) =~= help_topics_spec(normalized_input@));
    r
}

/// The digits of a number, with or without a hash before them, ask for that result.
pub proof fn numbers_ask_for_their_result(n: usize)
    requires
        n > 0,
    ensures
        parse_index_spec(text::decimal_spec(n as nat)) == Some(n),
        parse_index_spec("#"@ + text::decimal_spec(n as nat)) == Some(n),
{
    reveal_strlit("#");
    let number = text::decimal_spec(n as nat);
    text::lemma_decimal(n as nat);
    text::lemma_number_is_a_word(n as nat);
    assert(!text::starts_with_spec(number, "#"@)) by {
        assert(number.take(1)[0] == number[0]);
    }
    let hashed = "#"@ + number;
    assert(hashed.last() == number[number.len() - 1]);
    assert(hashed[0] == '#');
    assert(text::trim_spec(hashed) == hashed);
    assert(hashed.take(1) =~= "#"@);
    assert(hashed.skip(1) =~= number);
}

/// A result matches what its number begins with, or its title or artist hold in any case; an empty
/// query matches all, and nothing else matches.
pub proof fn results_match_by_number_title_or_artist(result: ResultSuggestion, query: Seq<char>)
    ensures
        query.len() == 0 ==> result.matches_spec(query),
        text::starts_with_spec(text::decimal_spec(result.index as nat), query)
            ==> result.matches_spec(query),
        text::contains_spec(text::ascii_lower_spec(result.title@), text::ascii_lower_spec(query))
            ==> result.matches_spec(query),
        text::contains_spec(text::ascii_lower_spec(result.artist@), text::ascii_lower_spec(query))
            ==> result.matches_spec(query),
        result.matches_spec(query) ==> query.len() == 0 || text::starts_with_spec(
            text::decimal_spec(result.index as nat),
            query,
        ) || text::contains_spec(
            text::ascii_lower_spec(result.title@),
            text::ascii_lower_spec(query),
        ) || text::contains_spec(
            text::ascii_lower_spec(result.artist@),
            text::ascii_lower_spec(query),
        ),
{
}

/// Each matching result is offered by its number and then by its title, in the order of the list, up
/// to six of them.
pub proof fn results_are_offered_by_number_and_title(
    context: ShellSuggestionContext,
    input: Seq<char>,
    command: Seq<char>,
    slash: Seq<char>,
    k: int,
)
    requires
        0 <= k < 6,
        k < context.results@.filter(matching(query_after(input, command))).len(),
    ensures
        ({
            let result = context.results@.filter(matching(query_after(input, command)))[k];
            let offered = result_command_spec(context, input, command, slash);
            &&& offered.len() <= 12
            &&& 2 * k + 1 < offered.len()
            &&& context.results@.contains(result)
            &&& result.matches_spec(query_after(input, command))
            &&& offered[2 * k].completion == slash + command + " "@ + text::decimal_spec(
                result.index as nat,
            )
            &&& offered[2 * k + 1].completion == slash + command + " "@ + result.title@
        }),
{
    seqs::lemma_filter_members(context.results@, matching(query_after(input, command)));
    assert((2 * k) / 2 == k && (2 * k + 1) / 2 == k && (2 * k) % 2 == 0 && (2 * k + 1) % 2 == 1);
}

/// A number offers the results whose number begins with it, each under its own number.
pub proof fn numbers_offer_their_results(
    context: ShellSuggestionContext,
    input: Seq<char>,
    k: int,
)
    requires
        0 <= k < result_index_spec(context, input).len(),
    ensures
        result_index_spec(context, input).len() <= 8,
        exists|r: int|
            0 <= r < context.results@.len() && text::starts_with_spec(
                text::decimal_spec((#[trigger] context.results@[r]).index as nat),
                text::strip_leading_spec(input, seq!['#']),
            ) && text::ends_with_spec(
                result_index_spec(context, input)[k].completion,
                text::decimal_spec(context.results@[r].index as nat),
            ) && text::ends_with_spec(
                result_index_spec(context, input)[k].description,
                layout::compact_spec(context.results@[r].title@, 42) + " - "@
                    + layout::compact_spec(context.results@[r].artist@, 24),
            ),
{
    let keep = numbered(text::strip_leading_spec(input, seq!['#']));
    let found = context.results@.filter(keep);
    seqs::lemma_filter_members(context.results@, keep);
    assert(keep(found[k]) && context.results@.contains(found[k]));
    let r = choose|r: int| 0 <= r < context.results@.len() && context.results@[r] == found[k];
    let offered = result_index_spec(context, input)[k];
    let number = text::decimal_spec(context.results@[r].index as nat);
    let shown = title_and_artist(context.results@[r]);
    assert(offered.completion.skip(offered.completion.len() - number.len()) =~= number);
    assert(offered.description.skip(offered.description.len() - shown.len()) =~= shown);
}

/// Words that begin no command offer the titles that hold them.
pub proof fn bare_words_offer_titles(context: ShellSuggestionContext, input: Seq<char>, k: int)
    requires
        0 <= k < bare_search_spec(context, input).len(),
    ensures
        bare_search_spec(context, input).len() <= 8,
        exists|r: int|
            0 <= r < context.results@.len() && (#[trigger] context.results@[r]).matches_spec(input)
                && bare_search_spec(context, input)[k].completion == context.results@[r].title@,
{
    let found = context.results@.filter(matching(input));
    seqs::lemma_filter_members(context.results@, matching(input));
    assert(matching(input)(found[k]) && context.results@.contains(found[k]));
    let r = choose|r: int| 0 <= r < context.results@.len() && context.results@[r] == found[k];
    assert(context.results@[r].matches_spec(input));
}

/// What is offered for a line: for nothing typed what suits the moment, for a number its results,
/// and for the beginning of a command that command, unless results or topics complete the line.
pub proof fn offers_follow_what_was_typed(context: ShellSuggestionContext, input: Seq<char>)
    ensures
        ({
            let typed = catalogue::normalized_spec(input);
            let offered = context.suggestions_spec(input);
            &&& typed.len() == 0 ==> offered == context.idle_spec()
            &&& typed.len() > 0 && is_index_prefix_spec(typed) && result_index_spec(
                context,
                typed,
            ).len() > 0 ==> offered == result_index_spec(context, typed)
            &&& typed.len() > 0 && context.results@.len() == 0 && !text::starts_with_spec(
                slash_view_spec(typed).0,
                "help "@,
            ) && !text::starts_with_spec(slash_view_spec(typed).0, "帮助 "@) ==> offered
                == context.command_spec(input)
        }),
{
    if context.results@.len() == 0 {
        let typed = catalogue::normalized_spec(input);
        assert forall|keep: spec_fn(ResultSuggestion) -> bool| #[trigger]
            context.results@.filter(keep).len() == 0 by {
            seqs::lemma_filter_members(context.results@, keep);
            if context.results@.filter(keep).len() > 0 {
                assert(context.results@.contains(context.results@.filter(keep)[0]));
            }
        }
        lemma_no_results_no_offers(context, slash_view_spec(typed).0, slash_view_spec(typed).1, 0);
        lemma_no_results_no_searches(
            context,
            slash_view_spec(typed).0,
            slash_view_spec(typed).1,
            0,
        );
    }
}

proof fn lemma_no_results_no_offers(
    context: ShellSuggestionContext,
    input: Seq<char>,
    slash: Seq<char>,
    from: int,
)
    requires
        forall|keep: spec_fn(ResultSuggestion) -> bool| #[trigger]
            context.results@.filter(keep).len() == 0,
    ensures
        context.result_commands_spec(input, slash, from).len() == 0,
    decreases RESULT_COMMANDS@.len() - from,
{
    if 0 <= from < RESULT_COMMANDS@.len() {
        lemma_no_results_no_offers(context, input, slash, from + 1);
    }
}

proof fn lemma_no_results_no_searches(
    context: ShellSuggestionContext,
    input: Seq<char>,
    slash: Seq<char>,
    from: int,
)
    requires
        forall|keep: spec_fn(ResultSuggestion) -> bool| #[trigger]
            context.results@.filter(keep).len() == 0,
    ensures
        context.search_commands_spec(input, slash, from).len() == 0,
    decreases SEARCH_COMMANDS@.len() - from,
{
    if 0 <= from < SEARCH_COMMANDS@.len() {
        lemma_no_results_no_searches(context, input, slash, from + 1);
    }
}

/// The offers for nothing typed go by what is going on: playing comes before an empty library, and
/// that before an empty list.
pub proof fn idle_offers_suit_the_moment(context: ShellSuggestionContext)
    ensures
        ({
            let first = context.idle_spec()[0].completion;
            let english = context.language == ShellLanguage::English;
            &&& context.idle_spec().len() > 0
            &&& context.playback_active ==> first == if english {
                "pause"@
            } else {
                "暂停"@
            }
            &&& !context.playback_active && context.track_count == 0 ==> first == if english {
                "scan"@
            } else {
                "扫描"@
            }
            &&& !context.playback_active && context.track_count > 0 && context.results@.len() == 0
                ==> first == if english {
                "library"@
            } else {
                "曲库"@
            }
            &&& !context.playback_active && context.track_count > 0 && context.results@.len() > 0
                ==> first == if english {
                "play"@
            } else {
                "播放"@
            }
        }),
{
}

/// Every topic that begins with what was typed is offered, behind the word for help.
pub proof fn topics_are_offered_by_their_beginning(normalized: Seq<char>, k: int)
    requires
        0 <= k < help_topics_spec(normalized).len(),
    ensures
        exists|i: int|
            0 <= i < TOPICS@.len() && text::starts_with_spec(
                (#[trigger] TOPICS@[i]).0@,
                help_query(normalized),
            ) && help_topics_spec(normalized)[k].completion == help_prefix(normalized)
                + TOPICS@[i].0@ && help_topics_spec(normalized)[k].description == TOPICS@[i].1@,
{
    let keep = topic_matches(help_query(normalized));
    seqs::lemma_filter_members(TOPICS@, keep);
    let found = TOPICS@.filter(keep);
    assert(keep(found[k]) && TOPICS@.contains(found[k]));
    let i = choose|i: int| 0 <= i < TOPICS@.len() && TOPICS@[i] == found[k];
    assert(text::starts_with_spec(TOPICS@[i].0@, help_query(normalized)));
}

/// What is offered comes in the order of the list, without a gap, up to its limit: eight titles for
/// bare words, eight results for a number, and twelve titles for a search.
pub proof fn offers_keep_the_order_of_the_list(
    context: ShellSuggestionContext,
    input: Seq<char>,
    command: Seq<char>,
    slash: Seq<char>,
    k: int,
)
    ensures
        ({
            let found = context.results@.filter(|r: ResultSuggestion| r.matches_spec(input));
            let offered = bare_search_spec(context, input);
            &&& found.len() <= 8 ==> offered.len() == found.len()
            &&& found.len() > 8 ==> offered.len() == 8
            &&& 0 <= k < offered.len() ==> offered[k].completion == found[k].title@
        }),
        ({
            let query = query_after(input, command);
            let found = context.results@.filter(|r: ResultSuggestion| r.matches_spec(query));
            let offered = search_result_spec(context, input, slash, command);
            &&& found.len() <= 12 ==> offered.len() == found.len()
            &&& found.len() > 12 ==> offered.len() == 12
            &&& 0 <= k < offered.len() ==> offered[k].completion == slash + command + " "@
                + found[k].title@
        }),
        ({
            let digits = text::strip_leading_spec(input, seq!['#']);
            let found = context.results@.filter(
                |r: ResultSuggestion|
                    text::starts_with_spec(text::decimal_spec(r.index as nat), digits),
            );
            let offered = result_index_spec(context, input);
            &&& found.len() <= 8 ==> offered.len() == found.len()
            &&& found.len() > 8 ==> offered.len() == 8
            &&& 0 <= k < offered.len() ==> text::ends_with_spec(
                offered[k].completion,
                text::decimal_spec(found[k].index as nat),
            )
        }),
{
    let bare = |r: ResultSuggestion| r.matches_spec(input);
    assert(bare =~= matching(input));
    let query = query_after(input, command);
    let behind = |r: ResultSuggestion| r.matches_spec(query);
    assert(behind =~= matching(query));
    let digits = text::strip_leading_spec(input, seq!['#']);
    let by_digits = |r: ResultSuggestion|
        text::starts_with_spec(text::decimal_spec(r.index as nat), digits);
    assert(by_digits =~= numbered(digits));
    let offered = result_index_spec(context, input);
    if 0 <= k < offered.len() {
        let hash = if text::starts_with_spec(input, "#"@) {
            "#"@
        } else {
            ""@
        };
        text::begins_and_ends(
            hash,
            text::decimal_spec(context.results@.filter(numbered(digits))[k].index as nat),
        );
    }
}

/// Nothing but a positive number of digits asks for a result, and it asks for the one with that
/// number.
pub proof fn only_positive_numbers_ask_for_results(input: Seq<char>)
    ensures
        parse_index_spec(input) matches Some(n) ==> n > 0 && is_index_prefix_spec(input) && (
        text::trim_spec(input)[0] != '#' ==> n == text::digits_value(text::trim_spec(input))),
        !is_index_prefix_spec(input) ==> parse_index_spec(input) is None,
{
    reveal_strlit("#");
    let typed = text::trim_spec(input);
    if text::starts_with_spec(typed, "#"@) {
        assert(typed.take(1)[0] == typed[0]);
    }
}

/// A slash before a command is taken off, and put before what is offered for it.
pub proof fn slashes_are_taken_off(typed: Seq<char>)
    ensures
        slash_view_spec("/"@ + typed) == (typed, "/"@),
        typed.len() == 0 || typed[0] != '/' ==> slash_view_spec(typed) == (typed, Seq::<char>::empty()),
{
    reveal_strlit("/");
    reveal_strlit("");
    assert(("/"@ + typed).take(1) =~= "/"@);
    assert(("/"@ + typed).skip(1) =~= typed);
    assert(""@ =~= Seq::<char>::empty());
    if typed.len() > 0 && text::starts_with_spec(typed, "/"@) {
        assert(typed.take(1)[0] == typed[0]);
    }
}

proof fn lemma_needs_a_space(input: Seq<char>, command: Seq<char>)
    requires
        text::starts_with_spec(input, command + " "@),
    ensures
        input.contains(' '),
{
    reveal_strlit(" ");
    let whole = command + " "@;
    assert(input.take(whole.len() as int)[command.len() as int] == whole[command.len() as int]);
    assert(input[command.len() as int] == ' ');
}

proof fn lemma_no_space_no_commands(
    context: ShellSuggestionContext,
    input: Seq<char>,
    slash: Seq<char>,
    from: int,
)
    requires
        !input.contains(' '),
        0 <= from,
    ensures
        context.result_commands_spec(input, slash, from).len() == 0,
        context.search_commands_spec(input, slash, from).len() == 0,
    decreases RESULT_COMMANDS@.len() - from,
{
    if from < RESULT_COMMANDS@.len() {
        lemma_no_space_no_commands(context, input, slash, from + 1);
        if text::starts_with_spec(input, RESULT_COMMANDS@[from]@ + " "@) {
            lemma_needs_a_space(input, RESULT_COMMANDS@[from]@);
        }
        if from < SEARCH_COMMANDS@.len() && text::starts_with_spec(
            input,
            SEARCH_COMMANDS@[from]@ + " "@,
        ) {
            lemma_needs_a_space(input, SEARCH_COMMANDS@[from]@);
        }
    }
}

/// For a single word the commands that it begins are offered, and titles only where there are none.
pub proof fn commands_come_before_titles(context: ShellSuggestionContext, input: Seq<char>)
    requires
        catalogue::normalized_spec(input).len() > 0,
        !slash_view_spec(catalogue::normalized_spec(input)).0.contains(' '),
        !is_index_prefix_spec(catalogue::normalized_spec(input)),
    ensures
        catalogue::command_suggestions_spec(input).len() > 0 ==> context.suggestions_spec(input)
            == context.command_spec(input),
        catalogue::command_suggestions_spec(input).len() == 0 && bare_search_spec(
            context,
            catalogue::normalized_spec(input),
        ).len() > 0 ==> context.suggestions_spec(input) == bare_search_spec(
            context,
            catalogue::normalized_spec(input),
        ),
{
    let typed = slash_view_spec(catalogue::normalized_spec(input)).0;
    let slash = slash_view_spec(catalogue::normalized_spec(input)).1;
    lemma_no_space_no_commands(context, typed, slash, 0);
    reveal_strlit(" ");
    reveal_strlit("help ");
    reveal_strlit("help");
    reveal_strlit("帮助 ");
    reveal_strlit("帮助");
    assert("help "@ =~= "help"@ + " "@);
    assert("帮助 "@ =~= "帮助"@ + " "@);
    if text::starts_with_spec(typed, "help "@) {
        lemma_needs_a_space(typed, "help"@);
    }
    if text::starts_with_spec(typed, "帮助 "@) {
        lemma_needs_a_space(typed, "帮助"@);
    }
}

proof fn lemma_starts_like(input: Seq<char>, command: Seq<char>)
    requires
        text::starts_with_spec(input, command + " "@),
        command.len() > 0,
    ensures
        input.len() > 0,
        input[0] == command[0],
{
    let whole = command + " "@;
    assert(input.take(whole.len() as int)[0] == whole[0]);
}

proof fn lemma_result_command_is_reached(
    context: ShellSuggestionContext,
    input: Seq<char>,
    slash: Seq<char>,
    from: int,
    i: int,
)
    requires
        0 <= from <= i <= RESULT_COMMANDS@.len(),
        input.len() > 0,
        forall|j: int|
            from <= j < i ==> (#[trigger] RESULT_COMMANDS@[j])@.len() > 0 && RESULT_COMMANDS@[j]@[0]
                != input[0],
    ensures
        context.result_commands_spec(input, slash, from) == context.result_commands_spec(
            input,
            slash,
            i,
        ),
    decreases i - from,
{
    if from < i {
        lemma_result_command_is_reached(context, input, slash, from + 1, i);
        assert(RESULT_COMMANDS@[from]@[0] != input[0]);
        if text::starts_with_spec(input, RESULT_COMMANDS@[from]@ + " "@) {
            lemma_starts_like(input, RESULT_COMMANDS@[from]@);
        }
    }
}

proof fn lemma_first_characters()
    ensures
        forall|j: int|
            0 <= j < RESULT_COMMANDS@.len() ==> (#[trigger] RESULT_COMMANDS@[j])@.len() > 0
                && RESULT_COMMANDS@[j]@[0] == seq![
                'p',
                '播',
                'o',
                '打',
                'c',
                '复',
                'i',
                '信',
                '详',
            ][j],
{
    reveal_strlit("play");
    reveal_strlit("播放");
    reveal_strlit("open");
    reveal_strlit("打开");
    reveal_strlit("copy");
    reveal_strlit("复制");
    reveal_strlit("info");
    reveal_strlit("信息");
    reveal_strlit("详情");
}

/// A command on results, with something behind it that some of them match, offers those.
pub proof fn result_commands_offer_results(
    context: ShellSuggestionContext,
    input: Seq<char>,
    i: int,
)
    requires
        0 <= i < RESULT_COMMANDS@.len(),
        text::starts_with_spec(
            slash_view_spec(catalogue::normalized_spec(input)).0,
            RESULT_COMMANDS@[i]@ + " "@,
        ),
        !is_index_prefix_spec(catalogue::normalized_spec(input)),
        catalogue::normalized_spec(input).len() > 0,
    ensures
        ({
            let typed = slash_view_spec(catalogue::normalized_spec(input)).0;
            let slash = slash_view_spec(catalogue::normalized_spec(input)).1;
            let offered = result_command_spec(context, typed, RESULT_COMMANDS@[i]@, slash);
            offered.len() > 0 ==> context.suggestions_spec(input) == offered
        }),
        text::literals(RESULT_COMMANDS@) == seq![
            "play"@,
            "播放"@,
            "open"@,
            "打开"@,
            "copy"@,
            "复制"@,
            "info"@,
            "信息"@,
            "详情"@,
        ],
        text::literals(SEARCH_COMMANDS@) == seq!["search"@, "搜索"@, "找"@],
{
    let typed = slash_view_spec(catalogue::normalized_spec(input)).0;
    let slash = slash_view_spec(catalogue::normalized_spec(input)).1;
    lemma_first_characters();
    lemma_starts_like(typed, RESULT_COMMANDS@[i]@);
    assert forall|j: int| 0 <= j < i implies (#[trigger] RESULT_COMMANDS@[j])@.len() > 0
        && RESULT_COMMANDS@[j]@[0] != typed[0] by {}
    lemma_result_command_is_reached(context, typed, slash, 0, i);
    assert(text::literals(RESULT_COMMANDS@) =~= seq![
        "play"@,
        "播放"@,
        "open"@,
        "打开"@,
        "copy"@,
        "复制"@,
        "info"@,
        "信息"@,
        "详情"@,
    ]);
    assert(text::literals(SEARCH_COMMANDS@) =~= seq!["search"@, "搜索"@, "找"@]);
}

} // verus!
