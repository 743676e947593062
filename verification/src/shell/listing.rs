//! The list of results on the terminal.

use crate::library::Track;
use crate::shell::layout;
use crate::shell::messages;
use crate::shell::results;
use crate::text;
use vstd::prelude::*;

verus! {

#[derive(Debug, Clone, Copy, PartialEq, Eq, Structural)]
pub enum LineStyle {
    Plain,
    Heading,
    Faint,
}

#[derive(Debug)]
pub struct StyledLine {
    pub style: LineStyle,
    pub text: String,
}

pub ghost struct Styled {
    pub style: LineStyle,
    pub text: Seq<char>,
}

impl View for StyledLine {
    type V = Styled;

    open spec fn view(&self) -> Styled {
        Styled { style: self.style, text: self.text@ }
    }
}

pub open spec fn styled(lines: Seq<StyledLine>) -> Seq<Styled> {
    Seq::new(lines.len(), |i: int| lines[i]@)
}

/// Every row leaves room for its texts beside its number.
pub open spec fn rows_have_room(
    tracks: Seq<Track>,
    current: Option<&Track>,
    terminal_width: u16,
) -> bool {
    forall|i: int|
        0 <= i < tracks.len() ==> results::layout_has_room(
            terminal_width,
            layout::cols(results::line_prefix((i + 1) as nat, #[trigger] tracks[i], current)),
        )
}

pub open spec fn rows_spec(
    tracks: Seq<Track>,
    current: Option<&Track>,
    terminal_width: u16,
) -> Seq<Styled> {
    Seq::new(
        tracks.len(),
        |i: int|
            Styled {
                style: LineStyle::Plain,
                text: results::result_line_spec(
                    (i + 1) as nat,
                    tracks[i],
                    current,
                    terminal_width,
                ),
            },
    )
}

/// A heading, column labels, one row for each track, and a hint where more were found.
pub open spec fn listing_spec(
    label: Seq<char>,
    tracks: Seq<Track>,
    current: Option<&Track>,
    has_more: bool,
    terminal_width: u16,
) -> Seq<Styled> {
    if tracks.len() == 0 {
        seq![Styled { style: LineStyle::Plain, text: label + ": no tracks"@ }]
    } else {
        let head = seq![
            Styled {
                style: LineStyle::Heading,
                text: messages::result_header_spec(label, tracks.len()),
            },
            Styled {
                style: LineStyle::Faint,
                text: results::table_header_spec(terminal_width),
            },
        ];
        let hint = if has_more {
            seq![
                Styled {
                    style: LineStyle::Faint,
                    text: "showing first "@ + text::decimal_spec(tracks.len())
                        + "; type more to expand, or a narrower keyword to filter"@,
                },
            ]
        } else {
            Seq::empty()
        };
        head + rows_spec(tracks, current, terminal_width) + hint
    }
}

pub fn listing(
    label: &str,
    tracks: &[Track],
    current: Option<&Track>,
    has_more: bool,
    terminal_width: u16,
) -> (r: Vec<StyledLine>)
    requires
        rows_have_room(tracks@, current, terminal_width),
    ensures
        styled(r@) == listing_spec(label@, tracks@, current, has_more, terminal_width),
{
    let ghost expected = listing_spec(label@, tracks@, current, has_more, terminal_width);
    if tracks.len() == 0 {
        let r = vec![
            StyledLine { style: LineStyle::Plain, text: text::text2(label, ": no tracks") },
        ];
        assert(styled(r@) =~= expected);
        return r;
    }
    let mut r = vec![
        StyledLine {
            style: LineStyle::Heading,
            text: messages::result_header(label, tracks.len()),
        },
        StyledLine {
            style: LineStyle::Faint,
            text: results::result_table_header_for_width(terminal_width),
        },
    ];
    let ghost head = styled(r@);
    assert(head =~= seq![
        Styled {
            style: LineStyle::Heading,
            text: messages::result_header_spec(label@, tracks@.len()),
        },
        Styled { style: LineStyle::Faint, text: results::table_header_spec(terminal_width) },
    ]);
    let ghost rows = rows_spec(tracks@, current, terminal_width);
    assert(styled(r@) =~= head + rows.take(0));
    for i in 0..tracks.len()
        invariant
            rows_have_room(tracks@, current, terminal_width),
            rows == rows_spec(tracks@, current, terminal_width),
            styled(r@) == head + rows.take(i as int),
    {
        let ghost before = styled(r@);
        let line = results::result_line_for_width(i + 1, &tracks[i], current, terminal_width);
        r.push(StyledLine { style: LineStyle::Plain, text: line });
        assert(styled(r@) =~= before.push(rows[i as int]));
        assert(rows.take(i + 1) =~= rows.take(i as int).push(rows[i as int]));
    }
    assert(rows.take(tracks@.len() as int) =~= rows);
    let ghost before = styled(r@);
    if has_more {
        let count = text::decimal(tracks.len() as u128);
        r.push(
            StyledLine {
                style: LineStyle::Faint,
                text: text::text3(
                    "showing first ",
                    &count,
                    "; type more to expand, or a narrower keyword to filter",
                ),
            },
        );
    }
    assert(styled(r@) =~= expected);
    r
}

/// Every track of the list has a row, in its order.
pub proof fn every_result_is_listed(
    label: Seq<char>,
    tracks: Seq<Track>,
    current: Option<&Track>,
    has_more: bool,
    terminal_width: u16,
    i: int,
)
    requires
        0 <= i < tracks.len(),
    ensures
        listing_spec(label, tracks, current, has_more, terminal_width)[i + 2].text
            == results::result_line_spec((i + 1) as nat, tracks[i], current, terminal_width),
{
}

/// A list is a heading, the names of the columns, one row for each track, and a hint where there are
/// more.
pub proof fn lists_have_one_row_for_each_track(
    label: Seq<char>,
    tracks: Seq<Track>,
    current: Option<&Track>,
    has_more: bool,
    terminal_width: u16,
)
    requires
        tracks.len() > 0,
    ensures
        listing_spec(label, tracks, current, has_more, terminal_width).len() == tracks.len() + 2
            + (if has_more {
            1int
        } else {
            0int
        }),
        listing_spec(label, tracks, current, has_more, terminal_width)[0].style
            == LineStyle::Heading,
        text::starts_with_spec(
            listing_spec(label, tracks, current, has_more, terminal_width)[0].text,
            label,
        ),
        text::contains_spec(
            listing_spec(label, tracks, current, has_more, terminal_width)[0].text,
            text::decimal_spec(tracks.len()),
        ),
{
    let heading = messages::result_header_spec(label, tracks.len());
    let number = text::decimal_spec(tracks.len());
    reveal_strlit(": ");
    let at = label.len() as int + 2;
    assert(heading.take(label.len() as int) =~= label);
    assert(heading.subrange(at, at + number.len()) =~= number);
    assert(text::occurs_at(heading, number, at));
}

/// The row of each track stands in the place of its number, below the heading and the labels.
pub proof fn rows_stand_in_their_order(
    label: Seq<char>,
    tracks: Seq<Track>,
    current: Option<&Track>,
    has_more: bool,
    terminal_width: u16,
    i: int,
)
    requires
        0 <= i < tracks.len(),
    ensures
        listing_spec(label, tracks, current, has_more, terminal_width)[i + 2].text
            == results::result_line_spec((i + 1) as nat, tracks[i], current, terminal_width),
        listing_spec(label, tracks, current, has_more, terminal_width)[i + 2].style
            == LineStyle::Plain,
{
}

} // verus!
