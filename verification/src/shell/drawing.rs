//! What the terminal shows below and around the edited line.

use crate::shell::catalogue;
use crate::shell::language;
use crate::shell::language::ShellLanguage;
use crate::shell::layout;
use crate::shell::line;
use crate::shell::reader::{ShellReader, COMPLETION_WIDTH, VISIBLE_SUGGESTIONS};
use crate::shell::suggestions::ShellSuggestionContext;
use crate::text;
use vstd::prelude::*;

verus! {

pub open spec fn prompt_spec(is_playing: bool) -> Seq<char> {
    if is_playing {
        "echo playing> "@
    } else {
        "echo ready> "@
    }
}

pub fn prompt_for_playback(is_playing: bool) -> (r: &'static str)
    ensures
        r@ == prompt_spec(is_playing),
{
    if is_playing {
        "echo playing> "
    } else {
        "echo ready> "
    }
}

// ---------------------------------------------------------------- the footer

/// The controls that apply, and how many suggestions are hidden.
pub open spec fn footer_spec(
    total: nat,
    visible: nat,
    language: ShellLanguage,
    input_is_empty: bool,
) -> Option<Seq<char>> {
    let controls = if input_is_empty {
        language::pick(
            language,
            "Tab accepts first | Enter shows tips | Up/Down history"@,
            "Tab 接受第一条 | Enter 显示下一步 | 上/下 历史"@,
        )
    } else {
        language::pick(
            language,
            "Up/Down select | Tab accept | Enter accept/run"@,
            "上/下 选择 | Tab 补全 | Enter 接受/执行"@,
        )
    };
    if visible == 0 {
        None
    } else if total > visible {
        let hidden = text::decimal_spec((total - visible) as nat);
        Some(
            controls + language::pick(language, " | +"@, " | 还有 "@) + hidden + language::pick(
                language,
                " more"@,
                " 个"@,
            ),
        )
    } else {
        Some(controls)
    }
}

pub fn suggestion_footer_line(
    total_count: usize,
    visible_count: usize,
    language: ShellLanguage,
) -> (r: Option<String>)
    ensures
        r is Some == footer_spec(
            total_count as nat,
            visible_count as nat,
            language,
            false,
        ) is Some,
        r matches Some(line) ==> Some(line@) == footer_spec(
            total_count as nat,
            visible_count as nat,
            language,
            false,
        ),
{
    suggestion_footer_line_for_input(total_count, visible_count, language, false)
}

pub fn suggestion_footer_line_for_input(
    total_count: usize,
    visible_count: usize,
    language: ShellLanguage,
    input_is_empty: bool,
) -> (r: Option<String>)
    ensures
        r is Some == footer_spec(
            total_count as nat,
            visible_count as nat,
            language,
            input_is_empty,
        ) is Some,
        r matches Some(line) ==> Some(line@) == footer_spec(
            total_count as nat,
            visible_count as nat,
            language,
            input_is_empty,
        ),
{
    if visible_count == 0 {
        return None;
    }
    let controls = if input_is_empty {
        language.text(
            "Tab accepts first | Enter shows tips | Up/Down history",
            "Tab 接受第一条 | Enter 显示下一步 | 上/下 历史",
        )
    } else {
        language.text(
            "Up/Down select | Tab accept | Enter accept/run",
            "上/下 选择 | Tab 补全 | Enter 接受/执行",
        )
    };
    if total_count > visible_count {
        let hidden = text::decimal((total_count - visible_count) as u128);
        Some(
            text::text4(
                controls,
                language.text(" | +", " | 还有 "),
                &hidden,
                language.text(" more", " 个"),
            ),
        )
    } else {
        Some(controls.to_owned())
    }
}

/// The footer stands there exactly where suggestions do.
pub proof fn footer_accompanies_suggestions(
    total: nat,
    visible: nat,
    language: ShellLanguage,
    input_is_empty: bool,
)
    ensures
        footer_spec(total, visible, language, input_is_empty) is Some <==> visible > 0,
{
}

// ---------------------------------------------------------------- the rows

/// One suggestion below the line.
#[derive(Debug)]
pub struct SuggestionRow {
    pub selected: bool,
    pub completion: String,
    pub description: String,
}

pub ghost struct Row {
    pub selected: bool,
    pub completion: Seq<char>,
    pub description: Seq<char>,
}

impl View for SuggestionRow {
    type V = Row;

    open spec fn view(&self) -> Row {
        Row {
            selected: self.selected,
            completion: self.completion@,
            description: self.description@,
        }
    }
}

pub open spec fn rows(shown: Seq<SuggestionRow>) -> Seq<Row> {
    Seq::new(shown.len(), |i: int| shown[i]@)
}

/// The prompt as drawn: the rows below it, and where the cursor goes.
#[derive(Debug)]
pub struct PromptView {
    pub rows: Vec<SuggestionRow>,
    pub footer: Option<String>,
    /// The lines between the last one drawn and the edited line.
    pub lines_below: u16,
    pub cursor_column: u16,
}

pub open spec fn visible_count(total: nat) -> nat {
    if total < VISIBLE_SUGGESTIONS {
        total
    } else {
        VISIBLE_SUGGESTIONS as nat
    }
}

pub open spec fn rows_spec(context: ShellSuggestionContext, input: Seq<char>, chosen: nat) -> Seq<
    Row,
> {
    let candidates = context.suggestions_spec(input);
    Seq::new(
        visible_count(candidates.len()),
        |i: int|
            Row {
                selected: i == chosen,
                completion: layout::padded_spec(
                    candidates[i].completion,
                    COMPLETION_WIDTH as nat,
                ),
                description: candidates[i].description,
            },
    )
}

impl ShellReader {
    /// What to draw for the line.
    pub fn prompt_view(
        &self,
        prompt: &str,
        input: &str,
        cursor_index: usize,
        context: &ShellSuggestionContext,
    ) -> (r: PromptView)
        requires
            line::on_boundary(input@, cursor_index as nat),
            layout::cols(prompt@) + layout::cols(
                input@.take(line::char_index(input@, cursor_index as nat) as int),
            ) <= u16::MAX,
        ensures
            rows(r.rows@) == rows_spec(*context, input@, self.suggestion_index as nat),
            ({
                let total = context.suggestions_spec(input@).len();
                let visible = visible_count(total);
                let footer = footer_spec(
                    total,
                    visible,
                    self.language,
                    text::trim_spec(input@).len() == 0,
                );
                &&& r.footer is Some == footer is Some
                &&& r.footer matches Some(line) ==> Some(line@) == footer
                &&& r.lines_below == if visible > 0 {
                    visible + 1
                } else {
                    0
                }
            }),
            r.cursor_column == layout::cols(prompt@) + layout::cols(
                input@.take(line::char_index(input@, cursor_index as nat) as int),
            ),
    {
        let candidates = context.suggestions(input);
        let ghost all = context.suggestions_spec(input@);
        assert(all.len() == candidates@.len());
        let visible: usize = if candidates.len() < VISIBLE_SUGGESTIONS {
            candidates.len()
        } else {
            VISIBLE_SUGGESTIONS
        };
        let mut shown: Vec<SuggestionRow> = Vec::new();
        let ghost expected = rows_spec(*context, input@, self.suggestion_index as nat);
        for i in 0..visible
            invariant
                visible <= candidates@.len(),
                visible == visible_count(all.len()),
                all == context.suggestions_spec(input@),
                all == catalogue::shown(candidates@),
                expected == rows_spec(*context, input@, self.suggestion_index as nat),
                shown@.len() == i,
                forall|j: int| 0 <= j < i ==> (#[trigger] shown@[j])@ == expected[j],
        {
            assert(all[i as int] == candidates@[i as int]@);
            shown.push(
                SuggestionRow {
                    selected: i == self.suggestion_index,
                    completion: layout::padded(candidates[i].completion.as_str(), COMPLETION_WIDTH),
                    description: candidates[i].description.clone(),
                },
            );
        }
        assert(rows(shown@) =~= expected);
        let footer = suggestion_footer_line_for_input(
            candidates.len(),
            visible,
            self.language,
            text::trim(input).is_empty(),
        );
        let before = line::before_cursor(input, cursor_index);
        let cursor_column: u16 = layout::display_width(prompt) + layout::display_width(&before);
        let lines_below: u16 = if visible > 0 {
            visible as u16 + 1
        } else {
            0
        };
        PromptView { rows: shown, footer, lines_below, cursor_column }
    }
}

/// The footer says how many suggestions are hidden, where some are.
pub proof fn footer_counts_what_is_hidden(
    total: nat,
    visible: nat,
    language: ShellLanguage,
    input_is_empty: bool,
)
    requires
        0 < visible <= total,
    ensures
        visible < total ==> text::contains_spec(
            footer_spec(total, visible, language, input_is_empty)->0,
            text::decimal_spec((total - visible) as nat),
        ),
        visible == total ==> footer_spec(total, visible, language, input_is_empty) == footer_spec(
            visible,
            visible,
            language,
            input_is_empty,
        ),
{
    if visible < total {
        let controls = footer_spec(visible, visible, language, input_is_empty)->0;
        let line = footer_spec(total, visible, language, input_is_empty)->0;
        let hidden = text::decimal_spec((total - visible) as nat);
        let at = controls.len() + language::pick(language, " | +"@, " | 还有 "@).len();
        assert(line.subrange(at as int, at as int + hidden.len()) =~= hidden);
        assert(text::occurs_at(line, hidden, at as int));
    }
}

/// Each row shows its suggestion, in their order, and exactly the chosen one is marked.
pub proof fn rows_show_the_suggestions(
    context: ShellSuggestionContext,
    input: Seq<char>,
    chosen: nat,
    i: int,
)
    requires
        0 <= i < rows_spec(context, input, chosen).len(),
    ensures
        i < context.suggestions_spec(input).len(),
        rows_spec(context, input, chosen).len() <= VISIBLE_SUGGESTIONS,
        rows_spec(context, input, chosen)[i].selected <==> i == chosen,
        rows_spec(context, input, chosen)[i].description == context.suggestions_spec(
            input,
        )[i].description,
        text::starts_with_spec(
            rows_spec(context, input, chosen)[i].completion,
            context.suggestions_spec(input)[i].completion,
        ),
{
    let completion = context.suggestions_spec(input)[i].completion;
    let shown = rows_spec(context, input, chosen)[i].completion;
    assert(shown.take(completion.len() as int) =~= completion);
}

} // verus!
