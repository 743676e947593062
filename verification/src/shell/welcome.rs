//! The welcome card.

use crate::app::{APP_NAME, APP_VERSION};
use crate::shell::language;
use crate::shell::language::ShellLanguage;
use crate::shell::layout;
use crate::text;
use vstd::prelude::*;

verus! {

pub const CARD_MIN_WIDTH: usize = 72;

/// The headings of the card.
pub const CARD_HEADINGS: [&'static str; 6] = [
    "Welcome back",
    "Tips for getting started",
    "What's next",
    "欢迎回来",
    "开始提示",
    "下一步",
];

// ---------------------------------------------------------------- rows

pub open spec fn row_spec(content: Seq<char>, inner: nat) -> Seq<char> {
    "| "@ + layout::padded_spec(layout::compact_spec(content, inner), inner) + " |"@
}

pub fn card_row(content: &str, inner_width: usize) -> (r: String)
    ensures
        r@ == row_spec(content@, inner_width as nat),
{
    let content = layout::fit_line_to_width(content, inner_width);
    let filled = layout::padded_to(&content, inner_width);
    text::text3("| ", &filled, " |")
}

pub open spec fn blank_row_spec(inner: nat) -> Seq<char> {
    "| "@ + text::repeated(' ', inner) + " |"@
}

pub fn card_blank_row(inner_width: usize) -> (r: String)
    ensures
        r@ == blank_row_spec(inner_width as nat),
{
    let spaces = text::repeat_char(' ', inner_width);
    text::text3("| ", &spaces, " |")
}

pub open spec fn split_row_spec(
    left: Seq<char>,
    right: Seq<char>,
    left_width: nat,
    right_width: nat,
) -> Seq<char> {
    "| "@ + layout::padded_spec(layout::compact_spec(left, left_width), left_width) + " | "@
        + layout::padded_spec(layout::compact_spec(right, right_width), right_width) + " |"@
}

pub fn card_split_row(left: &str, right: &str, left_width: usize, right_width: usize) -> (r: String)
    ensures
        r@ == split_row_spec(left@, right@, left_width as nat, right_width as nat),
{
    let left = layout::fit_line_to_width(left, left_width);
    let right = layout::fit_line_to_width(right, right_width);
    let left = layout::padded_to(&left, left_width);
    let right = layout::padded_to(&right, right_width);
    text::text5("| ", &left, " | ", &right, " |")
}

pub open spec fn divider_spec(left_width: nat, right_width: nat) -> Seq<char> {
    "|"@ + text::repeated('-', left_width + 2) + "+"@ + text::repeated('-', right_width + 2) + "|"@
}

pub fn card_divider(left_width: usize, right_width: usize) -> (r: String)
    requires
        left_width + 2 <= usize::MAX,
        right_width + 2 <= usize::MAX,
    ensures
        r@ == divider_spec(left_width as nat, right_width as nat),
{
    let left = text::repeat_char('-', left_width + 2);
    let right = text::repeat_char('-', right_width + 2);
    text::text5("|", &left, "+", &right, "|")
}

pub open spec fn rule_spec(width: nat) -> Seq<char> {
    "+"@ + text::repeated('-', (width - 2) as nat) + "+"@
}

// ---------------------------------------------------------------- the card

/// The width of the card: what was asked for, but not less than the least.
pub open spec fn card_width(width: nat) -> nat {
    if width < CARD_MIN_WIDTH {
        CARD_MIN_WIDTH as nat
    } else {
        width
    }
}

/// The left column takes 42 parts in a hundred, and leaves the right one at least 28 columns.
pub open spec fn left_width_spec(width: nat) -> nat {
    let total = (card_width(width) - 7) as nat;
    let share = total * 42 / 100;
    if share < 28 {
        28
    } else if share > total - 28 {
        (total - 28) as nat
    } else {
        share
    }
}

pub open spec fn right_width_spec(width: nat) -> nat {
    (card_width(width) - 7 - left_width_spec(width)) as nat
}

/// The left and right texts of the two-column rows.
pub open spec fn columns_spec(
    track_count: nat,
    default_device: Seq<char>,
    language: ShellLanguage,
    left_width: nat,
) -> Seq<(Seq<char>, Seq<char>)> {
    let empty = track_count == 0;
    seq![
        (
            language::pick(language, "Welcome back"@, "欢迎回来"@),
            language::pick(language, "Tips for getting started"@, "开始提示"@),
        ),
        (
            text::decimal_spec(track_count) + language::pick(language, " tracks / "@, " 首歌 / "@)
                + if empty {
                language::pick(language, "empty"@, "空曲库"@)
            } else {
                language::pick(language, "indexed"@, "已入库"@)
            },
            language::pick(
                language,
                "scan or add    choose a music folder"@,
                "扫描 或 添加    选择音乐文件夹"@,
            ),
        ),
        (
            language::pick(language, "output "@, "输出 "@) + layout::compact_spec(
                default_device,
                (left_width - 7) as nat,
            ),
            language::pick(
                language,
                "play 1         play the first result"@,
                "播放 1         播放第一个结果"@,
            ),
        ),
        (
            if empty {
                language::pick(language, "state ready to scan"@, "状态 准备扫描"@)
            } else {
                language::pick(language, "state ready to play"@, "状态 准备播放"@)
            },
            language::pick(
                language,
                "Tab            accept the top suggestion"@,
                "Tab            接受第一条建议"@,
            ),
        ),
        (
            language::pick(language, "Now"@, "现在"@),
            language::pick(language, "What's next"@, "下一步"@),
        ),
        (
            "echo ready> shell"@,
            if empty {
                language::pick(language, "scan"@, "扫描"@)
            } else {
                language::pick(language, "play 1 / shuffle"@, "播放 1 / 随机"@)
            },
        ),
        (
            language::pick(language, "history saved"@, "历史会保存"@),
            language::pick(
                language,
                "search moon / info 1 / open 1"@,
                "搜索 moon / 信息 1 / 打开 1"@,
            ),
        ),
        (
            language::pick(language, "normal scrollback"@, "普通滚动历史"@),
            language::pick(
                language,
                "pause / resume / stop / next"@,
                "暂停 / 继续 / 停止 / 下一首"@,
            ),
        ),
    ]
}

/// The two-column rows, four above the divider and four below it.
pub open spec fn welcome_spec(
    track_count: nat,
    default_device: Seq<char>,
    language: ShellLanguage,
    width: nat,
) -> Seq<Seq<char>> {
    let inner = (card_width(width) - 4) as nat;
    let left = left_width_spec(width);
    let right = right_width_spec(width);
    let columns = columns_spec(track_count, default_device, language, left);
    let rule = rule_spec(card_width(width));
    seq![
        rule,
        row_spec(
            APP_NAME@ + " "@ + APP_VERSION@ + language::pick(
                language,
                "  local music shell"@,
                "  本地音乐 shell"@,
            ),
            inner,
        ),
    ] + split_rows_spec(columns.take(4), left, right) + seq![
        divider_spec(left, right),
    ] + split_rows_spec(columns.skip(4), left, right) + seq![
        blank_row_spec(inner),
        row_spec(
            language::pick(
                language,
                "Type a prefix to see commands. Empty Enter shows what to do next."@,
                "输入前缀就会显示候选；空 Enter 会告诉你下一步。"@,
            ),
            inner,
        ),
        rule,
    ]
}

/// The rows of a stretch of the card, one for each pair of texts.
pub open spec fn split_rows_spec(
    columns: Seq<(Seq<char>, Seq<char>)>,
    left_width: nat,
    right_width: nat,
) -> Seq<Seq<char>> {
    Seq::new(
        columns.len(),
        |i: int| split_row_spec(columns[i].0, columns[i].1, left_width, right_width),
    )
}

pub open spec fn pairs(columns: Seq<(&str, &str)>) -> Seq<(Seq<char>, Seq<char>)> {
    Seq::new(columns.len(), |i: int| (columns[i].0@, columns[i].1@))
}

fn push_split_rows(
    lines: &mut Vec<String>,
    columns: &[(&str, &str)],
    left_width: usize,
    right_width: usize,
)
    ensures
        text::texts(final(lines)@) == text::texts(old(lines)@) + split_rows_spec(
            pairs(columns@),
            left_width as nat,
            right_width as nat,
        ),
{
    let ghost rows = split_rows_spec(pairs(columns@), left_width as nat, right_width as nat);
    let ghost before = text::texts(lines@);
    let mut i: usize = 0;
    assert(before + rows.take(0) =~= before);
    while i < columns.len()
        invariant
            i <= columns.len(),
            rows == split_rows_spec(pairs(columns@), left_width as nat, right_width as nat),
            text::texts(lines@) == before + rows.take(i as int),
        decreases columns.len() - i,
    {
        let ghost so_far = lines@;
        let row = card_split_row(columns[i].0, columns[i].1, left_width, right_width);
        lines.push(row);
        assert(text::texts(lines@) =~= text::texts(so_far).push(row@));
        assert(rows.take(i + 1) =~= rows.take(i as int).push(rows[i as int]));
        i = i + 1;
        assert(text::texts(lines@) =~= before + rows.take(i as int));
    }
    assert(rows.take(i as int) =~= rows);
}

fn card_lines(
    rule: String,
    top: String,
    above: &[(&str, &str)],
    below: &[(&str, &str)],
    bottom: String,
    left_width: usize,
    right_width: usize,
    inner_width: usize,
) -> (r: Vec<String>)
    requires
        left_width + 2 <= usize::MAX,
        right_width + 2 <= usize::MAX,
    ensures
        text::texts(r@) == seq![rule@, top@] + split_rows_spec(
            pairs(above@),
            left_width as nat,
            right_width as nat,
        ) + seq![divider_spec(left_width as nat, right_width as nat)] + split_rows_spec(
            pairs(below@),
            left_width as nat,
            right_width as nat,
        ) + seq![blank_row_spec(inner_width as nat), bottom@, rule@],
{
    let mut lines: Vec<String> = vec![rule.clone(), top];
    assert(text::texts(lines@) =~= seq![rule@, top@]);
    push_split_rows(&mut lines, above, left_width, right_width);
    let ghost first = lines@;
    lines.push(card_divider(left_width, right_width));
    assert(text::texts(lines@) =~= text::texts(first) + seq![
        divider_spec(left_width as nat, right_width as nat),
    ]);
    push_split_rows(&mut lines, below, left_width, right_width);
    let ghost second = lines@;
    lines.push(card_blank_row(inner_width));
    lines.push(bottom);
    lines.push(rule);
    assert(text::texts(lines@) =~= text::texts(second) + seq![
        blank_row_spec(inner_width as nat),
        bottom@,
        rule@,
    ]);
    lines
}

pub fn welcome_card_lines(
    track_count: u64,
    default_device: &str,
    language: ShellLanguage,
    width: usize,
) -> (r: Vec<String>)
    requires
        width * 42 <= usize::MAX,
    ensures
        text::texts(r@) == welcome_spec(track_count as nat, default_device@, language, width as nat),
{
    let width: usize = if width < CARD_MIN_WIDTH {
        CARD_MIN_WIDTH
    } else {
        width
    };
    let inner: usize = width - 4;
    let total: usize = width - 7;
    let share: usize = total * 42 / 100;
    let left: usize = if share < 28 {
        28
    } else if share > total - 28 {
        total - 28
    } else {
        share
    };
    let right: usize = total - left;
    let dashes = text::repeat_char('-', width - 2);
    let rule = text::text3("+", &dashes, "+");
    let empty = track_count == 0;
    let name = text::text4(
        APP_NAME,
        " ",
        APP_VERSION,
        language.text("  local music shell", "  本地音乐 shell"),
    );
    let count = text::decimal(track_count as u128);
    let tracks = text::text3(
        &count,
        language.text(" tracks / ", " 首歌 / "),
        if empty {
            language.text("empty", "空曲库")
        } else {
            language.text("indexed", "已入库")
        },
    );
    let device = layout::compact(default_device, left - 7);
    let output = text::text2(language.text("output ", "输出 "), &device);
    let above: [(&str, &str); 4] = [
        (
            language.text("Welcome back", "欢迎回来"),
            language.text("Tips for getting started", "开始提示"),
        ),
        (
            &tracks,
            language.text(
                "scan or add    choose a music folder",
                "扫描 或 添加    选择音乐文件夹",
            ),
        ),
        (
            &output,
            language.text(
                "play 1         play the first result",
                "播放 1         播放第一个结果",
            ),
        ),
        (
            if empty {
                language.text("state ready to scan", "状态 准备扫描")
            } else {
                language.text("state ready to play", "状态 准备播放")
            },
            language.text(
                "Tab            accept the top suggestion",
                "Tab            接受第一条建议",
            ),
        ),
    ];
    let below: [(&str, &str); 4] = [
        (
            language.text("Now", "现在"),
            language.text("What's next", "下一步"),
        ),
        (
            "echo ready> shell",
            if empty {
                language.text("scan", "扫描")
            } else {
                language.text("play 1 / shuffle", "播放 1 / 随机")
            },
        ),
        (
            language.text("history saved", "历史会保存"),
            language.text("search moon / info 1 / open 1", "搜索 moon / 信息 1 / 打开 1"),
        ),
        (
            language.text("normal scrollback", "普通滚动历史"),
            language.text("pause / resume / stop / next", "暂停 / 继续 / 停止 / 下一首"),
        ),
    ];
    let top = card_row(&name, inner);
    let bottom = card_row(
        language.text(
            "Type a prefix to see commands. Empty Enter shows what to do next.",
            "输入前缀就会显示候选；空 Enter 会告诉你下一步。",
        ),
        inner,
    );
    proof {
        let columns = columns_spec(track_count as nat, default_device@, language, left as nat);
        assert(pairs(above@) =~= columns.take(4));
        assert(pairs(below@) =~= columns.skip(4));
    }
    let lines = card_lines(rule, top, &above, &below, bottom, left, right, inner);
    lines
}

// ---------------------------------------------------------------- laws

/// Every line of the card is exactly as wide as the card, in either language and whatever the
/// name of the device.
pub proof fn welcome_card_keeps_its_width(
    track_count: nat,
    default_device: Seq<char>,
    language: ShellLanguage,
    width: nat,
    i: int,
)
    requires
        0 <= i < welcome_spec(track_count, default_device, language, width).len(),
    ensures
        layout::cols(welcome_spec(track_count, default_device, language, width)[i]) == card_width(
            width,
        ),
{
    let w = card_width(width);
    let inner = (w - 4) as nat;
    let left = left_width_spec(width);
    let right = right_width_spec(width);
    let columns = columns_spec(track_count, default_device, language, left);
    let lines = welcome_spec(track_count, default_device, language, width);
    lemma_left_width(width);
    lemma_rule_width(w);
    lemma_divider_width(left, right);
    lemma_blank_row_width(inner);
    if 2 <= i < 6 {
        lemma_split_row_width(columns[i - 2].0, columns[i - 2].1, left, right);
        assert(lines[i] == split_row_spec(columns[i - 2].0, columns[i - 2].1, left, right));
    } else if 7 <= i < 11 {
        lemma_split_row_width(columns[i - 3].0, columns[i - 3].1, left, right);
        assert(lines[i] == split_row_spec(columns[i - 3].0, columns[i - 3].1, left, right));
    } else if i == 1 {
        let content = APP_NAME@ + " "@ + APP_VERSION@ + language::pick(
            language,
            "  local music shell"@,
            "  本地音乐 shell"@,
        );
        lemma_row_width(content, inner);
        assert(lines[1] == row_spec(content, inner));
    } else if i == 12 {
        let content = language::pick(
            language,
            "Type a prefix to see commands. Empty Enter shows what to do next."@,
            "输入前缀就会显示候选；空 Enter 会告诉你下一步。"@,
        );
        lemma_row_width(content, inner);
        assert(lines[12] == row_spec(content, inner));
    } else if i == 6 {
        assert(lines[6] == divider_spec(left, right));
    } else if i == 11 {
        assert(lines[11] == blank_row_spec(inner));
    } else {
        assert(lines[i] == rule_spec(w));
    }
}

proof fn lemma_left_width(width: nat)
    ensures
        7 <= left_width_spec(width) <= card_width(width) - 7,
{
}

proof fn lemma_literal_cols()
    ensures
        layout::cols("| "@) == 2,
        layout::cols(" |"@) == 2,
        layout::cols(" | "@) == 3,
        layout::cols("|"@) == 1,
        layout::cols("+"@) == 1,
{
    reveal_strlit("| ");
    reveal_strlit(" |");
    reveal_strlit(" | ");
    reveal_strlit("|");
    reveal_strlit("+");
    layout::lemma_cols_ascii("| "@);
    layout::lemma_cols_ascii(" |"@);
    layout::lemma_cols_ascii(" | "@);
    layout::lemma_cols_ascii("|"@);
    layout::lemma_cols_ascii("+"@);
}

proof fn lemma_filled_width(content: Seq<char>, width: nat)
    ensures
        layout::cols(layout::padded_spec(layout::compact_spec(content, width), width)) == width,
{
    layout::compact_fits(content, width);
    layout::padding_reaches_width(layout::compact_spec(content, width), width);
}

proof fn lemma_row_width(content: Seq<char>, inner: nat)
    ensures
        layout::cols(row_spec(content, inner)) == inner + 4,
{
    let filled = layout::padded_spec(layout::compact_spec(content, inner), inner);
    lemma_literal_cols();
    lemma_filled_width(content, inner);
    layout::lemma_cols_concat("| "@, filled);
    layout::lemma_cols_concat("| "@ + filled, " |"@);
}

proof fn lemma_blank_row_width(inner: nat)
    ensures
        layout::cols(blank_row_spec(inner)) == inner + 4,
{
    lemma_literal_cols();
    layout::lemma_cols_repeated(' ', inner);
    layout::lemma_cols_concat("| "@, text::repeated(' ', inner));
    layout::lemma_cols_concat("| "@ + text::repeated(' ', inner), " |"@);
}

proof fn lemma_split_row_width(left: Seq<char>, right: Seq<char>, left_width: nat, right_width: nat)
    ensures
        layout::cols(split_row_spec(left, right, left_width, right_width)) == left_width
            + right_width + 7,
{
    let a = layout::padded_spec(layout::compact_spec(left, left_width), left_width);
    let b = layout::padded_spec(layout::compact_spec(right, right_width), right_width);
    lemma_literal_cols();
    lemma_filled_width(left, left_width);
    lemma_filled_width(right, right_width);
    layout::lemma_cols_concat("| "@, a);
    layout::lemma_cols_concat("| "@ + a, " | "@);
    layout::lemma_cols_concat("| "@ + a + " | "@, b);
    layout::lemma_cols_concat("| "@ + a + " | "@ + b, " |"@);
}

proof fn lemma_divider_width(left_width: nat, right_width: nat)
    ensures
        layout::cols(divider_spec(left_width, right_width)) == left_width + right_width + 7,
{
    let a = text::repeated('-', left_width + 2);
    let b = text::repeated('-', right_width + 2);
    lemma_literal_cols();
    layout::lemma_cols_repeated('-', left_width + 2);
    layout::lemma_cols_repeated('-', right_width + 2);
    layout::lemma_cols_concat("|"@, a);
    layout::lemma_cols_concat("|"@ + a, "+"@);
    layout::lemma_cols_concat("|"@ + a + "+"@, b);
    layout::lemma_cols_concat("|"@ + a + "+"@ + b, "|"@);
}

proof fn lemma_rule_width(width: nat)
    requires
        width >= 2,
    ensures
        layout::cols(rule_spec(width)) == width,
{
    let dashes = text::repeated('-', (width - 2) as nat);
    lemma_literal_cols();
    layout::lemma_cols_repeated('-', (width - 2) as nat);
    layout::lemma_cols_concat("+"@, dashes);
    layout::lemma_cols_concat("+"@ + dashes, "+"@);
}

// ---------------------------------------------------------------- colours

/// How a line of the card is coloured.
#[derive(Debug, Clone, Copy, PartialEq, Eq, Structural)]
pub enum CardStyle {
    /// Rules and dividers.
    Frame,
    Name,
    Heading,
    Plain,
}

pub open spec fn contains_any(line: Seq<char>, words: Seq<&str>) -> bool {
    exists|i: int| 0 <= i < words.len() && text::contains_spec(line, #[trigger] words[i]@)
}

pub open spec fn card_style_spec(index: nat, count: nat, line: Seq<char>) -> CardStyle {
    if index == 0 || index + 1 == count {
        CardStyle::Frame
    } else if text::contains_spec(line, APP_NAME@) {
        CardStyle::Name
    } else if text::contains_spec(line, "-+-"@) {
        CardStyle::Frame
    } else if contains_any(line, CARD_HEADINGS@) {
        CardStyle::Heading
    } else {
        CardStyle::Plain
    }
}

/// How line `index` of `count` is coloured.
pub fn card_line_style(index: usize, count: usize, line: &str) -> (r: CardStyle)
    requires
        index < count,
    ensures
        r == card_style_spec(index as nat, count as nat, line@),
{
    if index == 0 || index + 1 == count {
        return CardStyle::Frame;
    }
    if text::contains(line, APP_NAME) {
        return CardStyle::Name;
    }
    if text::contains(line, "-+-") {
        return CardStyle::Frame;
    }
    let headings = CARD_HEADINGS;
    for i in 0..headings.len()
        invariant
            headings@ == CARD_HEADINGS@,
            forall|j: int| 0 <= j < i ==> !text::contains_spec(line@, #[trigger] headings@[j]@),
            0 < index < count,
            index + 1 != count,
            !text::contains_spec(line@, APP_NAME@),
            !text::contains_spec(line@, "-+-"@),
    {
        if text::contains(line, headings[i]) {
            assert(contains_any(line@, headings@));
            return CardStyle::Heading;
        }
    }
    CardStyle::Plain
}

/// What stands below the card: the way to a first track, or what to do with the listed ones.
pub fn welcome_hint(has_results: bool, language: ShellLanguage) -> (r: &'static str)
    ensures
        r@ == if has_results {
            language::pick(
                language,
                "next: play 1, shuffle, next, prev, search <query>, or library"@,
                "下一步: 播放 1、随机、下一首、上一首、搜索 <关键词>，或 曲库"@,
            )
        } else {
            language::pick(
                language,
                "No tracks yet. Run scan to choose a folder."@,
                "还没有歌曲。输入 扫描 来选择音乐文件夹。"@,
            )
        },
{
    if has_results {
        language.text(
            "next: play 1, shuffle, next, prev, search <query>, or library",
            "下一步: 播放 1、随机、下一首、上一首、搜索 <关键词>，或 曲库",
        )
    } else {
        language.text(
            "No tracks yet. Run scan to choose a folder.",
            "还没有歌曲。输入 扫描 来选择音乐文件夹。",
        )
    }
}

/// The width of a card on a terminal; of a terminal of unknown width, the usual one.
pub fn terminal_width_for_cards(terminal_width: Option<u16>) -> (r: usize)
    ensures
        r == match terminal_width {
            Some(width) => if width < 64 {
                64
            } else if width > 96 {
                96
            } else {
                width as int
            },
            None => 82,
        },
{
    match terminal_width {
        Some(width) => if width < 64 {
            64
        } else if width > 96 {
            96
        } else {
            width as usize
        },
        None => 82,
    }
}

/// The card tells how many tracks there are, the device, and what can be done with them.
pub proof fn card_tells_tracks_and_device(
    track_count: nat,
    device: Seq<char>,
    language: ShellLanguage,
    left_width: nat,
)
    ensures
        ({
            let columns = columns_spec(track_count, device, language, left_width);
            &&& columns.len() == 8
            &&& text::starts_with_spec(columns[1].0, text::decimal_spec(track_count))
            &&& text::ends_with_spec(
                columns[2].0,
                layout::compact_spec(device, (left_width - 7) as nat),
            )
            &&& language == ShellLanguage::English && track_count == 0 ==> columns[3].0
                == "state ready to scan"@ && columns[5].1 == "scan"@
            &&& language == ShellLanguage::English && track_count > 0 ==> columns[3].0
                == "state ready to play"@ && columns[5].1 == "play 1 / shuffle"@
        }),
{
    let told = language::pick(language, " tracks / "@, " 首歌 / "@);
    let state = if track_count == 0 {
        language::pick(language, "empty"@, "空曲库"@)
    } else {
        language::pick(language, "indexed"@, "已入库"@)
    };
    text::lemma_regroup(text::decimal_spec(track_count), told, state);
    text::begins_and_ends(text::decimal_spec(track_count), told + state);
    text::begins_and_ends(
        language::pick(language, "output "@, "输出 "@),
        layout::compact_spec(device, (left_width - 7) as nat),
    );
}

} // verus!
