//! The areas of the full-screen view.

use crate::tui::{InputMode, TuiApp};
use ratatui::layout::{Constraint, Direction, Layout, Rect};
use vstd::prelude::*;

verus! {

/// A rectangle of the terminal.
#[derive(Debug, Clone, Copy, PartialEq, Eq, Structural)]
pub struct Area {
    pub x: u16,
    pub y: u16,
    pub width: u16,
    pub height: u16,
}

#[derive(Debug, Clone, Copy, PartialEq, Eq, Structural)]
pub enum Split {
    /// Side by side.
    Columns,
    /// One below the other.
    Rows,
}

/// What a part of a split asks for.
#[derive(Debug, Clone, Copy, PartialEq, Eq, Structural)]
pub enum Part {
    Length(u16),
    Min(u16),
    Percentage(u16),
}

/// The first column behind the area.
pub open spec fn right_edge(area: Area) -> int {
    if area.x + area.width <= u16::MAX {
        area.x + area.width
    } else {
        u16::MAX as int
    }
}

/// The first row below the area.
pub open spec fn bottom_edge(area: Area) -> int {
    if area.y + area.height <= u16::MAX {
        area.y + area.height
    } else {
        u16::MAX as int
    }
}

/// The part lies in the area and spans it across the split.
pub open spec fn spans(part: Area, area: Area, split: Split) -> bool {
    match split {
        Split::Columns => {
            &&& part.y == area.y && part.height == area.height
            &&& area.x <= part.x && part.x + part.width <= right_edge(area)
        },
        Split::Rows => {
            &&& part.x == area.x && part.width == area.width
            &&& area.y <= part.y && part.y + part.height <= bottom_edge(area)
        },
    }
}

/// Where the area begins along the split.
pub open spec fn start_of(area: Area, split: Split) -> int {
    match split {
        Split::Columns => area.x as int,
        Split::Rows => area.y as int,
    }
}

/// The size of the area along the split.
pub open spec fn extent(area: Area, split: Split) -> int {
    match split {
        Split::Columns => right_edge(area) - area.x,
        Split::Rows => bottom_edge(area) - area.y,
    }
}

pub open spec fn fixed_size(part: Part) -> int {
    match part {
        Part::Length(size) => size as int,
        _ => 0,
    }
}

pub open spec fn flexible(part: Part) -> int {
    match part {
        Part::Min(_) => 1,
        _ => 0,
    }
}

pub open spec fn percentage(part: Part) -> int {
    match part {
        Part::Percentage(share) => share as int,
        _ => 0,
    }
}

/// What the parts of fixed length take together.
pub open spec fn fixed_total(parts: Seq<Part>) -> int
    decreases parts.len(),
{
    if parts.len() == 0 {
        0
    } else {
        fixed_total(parts.drop_last()) + fixed_size(parts.last())
    }
}

/// How many parts take what is left.
pub open spec fn flexible_count(parts: Seq<Part>) -> int
    decreases parts.len(),
{
    if parts.len() == 0 {
        0
    } else {
        flexible_count(parts.drop_last()) + flexible(parts.last())
    }
}

pub open spec fn percent_total(parts: Seq<Part>) -> int
    decreases parts.len(),
{
    if parts.len() == 0 {
        0
    } else {
        percent_total(parts.drop_last()) + percentage(parts.last())
    }
}

/// Every part can have just what it asks for: percentages that make up the whole, or lengths with
/// one or two parts that share what is left and need no more than that.
pub open spec fn all_can_have(parts: Seq<Part>, extent: int) -> bool {
    ||| {
        &&& forall|i: int| 0 <= i < parts.len() ==> #[trigger] parts[i] is Percentage
        &&& percent_total(parts) == 100
    }
    ||| {
        &&& 1 <= flexible_count(parts) <= 2
        &&& fixed_total(parts) <= extent
        &&& forall|i: int|
            0 <= i < parts.len() ==> match #[trigger] parts[i] {
                Part::Length(_) => true,
                Part::Min(size) => size * flexible_count(parts) <= extent - fixed_total(parts),
                Part::Percentage(_) => false,
            }
    }
}

/// What a part takes, in hundredths.
pub open spec fn share_of(part: Part, parts: Seq<Part>, extent: int) -> int {
    match part {
        Part::Length(size) => 100 * size,
        Part::Min(_) => 100 * (extent - fixed_total(parts)) / flexible_count(parts),
        Part::Percentage(share) => share * extent,
    }
}

/// What the first `count` parts take, in hundredths.
pub open spec fn shares_before(parts: Seq<Part>, extent: int, count: int) -> int
    decreases count,
{
    if count <= 0 {
        0
    } else {
        shares_before(parts, extent, count - 1) + share_of(parts[count - 1], parts, extent)
    }
}

/// Where part `index` begins: behind the parts before it, rounded to a whole cell.
pub open spec fn cut(parts: Seq<Part>, area: Area, split: Split, index: int) -> int {
    start_of(area, split) + (shares_before(parts, extent(area, split), index) + 50) / 100
}

/// The part reaches from its own cut to the next.
pub open spec fn between_cuts(
    part: Area,
    parts: Seq<Part>,
    area: Area,
    split: Split,
    index: int,
) -> bool {
    let from = cut(parts, area, split, index);
    let to = cut(parts, area, split, index + 1);
    match split {
        Split::Columns => part.x == from && part.width == to - from,
        Split::Rows => part.y == from && part.height == to - from,
    }
}

/// `Layout::split` of ratatui, without margin or spacing: one area for each part, inside the whole
/// and as wide, or as high, as it across the split. Where every part can have what it asks for,
/// the parts follow each other with those sizes, each cut rounded to a whole cell. Where they
/// cannot, a constraint solver weighs them against each other, and its documentation calls some of
/// the outcomes indeterminate; the contract leaves those open.
#[verifier::external_body]
pub(crate) fn split_area(split: Split, parts: &[Part], area: Area) -> (r: Vec<Area>)
    ensures
        r@.len() == parts@.len(),
        forall|i: int| 0 <= i < r@.len() ==> spans(#[trigger] r@[i], area, split),
        all_can_have(parts@, extent(area, split)) ==> forall|i: int|
            0 <= i < r@.len() ==> between_cuts(#[trigger] r@[i], parts@, area, split, i),
{
    let constraints = parts.iter().map(|part| match *part {
        Part::Length(size) => Constraint::Length(size),
        Part::Min(size) => Constraint::Min(size),
        Part::Percentage(share) => Constraint::Percentage(share),
    });
    let direction = match split {
        Split::Columns => Direction::Horizontal,
        Split::Rows => Direction::Vertical,
    };
    let Area { x, y, width, height } = area;
    let layout = Layout::default().direction(direction).constraints(constraints);
    let rects = layout.split(Rect { x, y, width, height });
    rects.iter().map(|r| Area { x: r.x, y: r.y, width: r.width, height: r.height }).collect()
}

/// Header, body and prompt, from top to bottom.
pub fn root_parts() -> (r: Vec<Part>)
    ensures
        r@ == seq![Part::Length(1), Part::Min(8), Part::Length(3)],
{
    let r = vec![Part::Length(1), Part::Min(8), Part::Length(3)];
    assert(r@ =~= seq![Part::Length(1), Part::Min(8), Part::Length(3)]);
    r
}

/// Library, what plays, and the devices where they are shown.
pub fn body_parts(device_panel_visible: bool) -> (r: Vec<Part>)
    ensures
        r@ == if device_panel_visible {
            seq![Part::Percentage(34), Part::Percentage(42), Part::Percentage(24)]
        } else {
            seq![Part::Percentage(38), Part::Percentage(62)]
        },
{
    if device_panel_visible {
        let r = vec![Part::Percentage(34), Part::Percentage(42), Part::Percentage(24)];
        assert(r@ =~= seq![Part::Percentage(34), Part::Percentage(42), Part::Percentage(24)]);
        r
    } else {
        let r = vec![Part::Percentage(38), Part::Percentage(62)];
        assert(r@ =~= seq![Part::Percentage(38), Part::Percentage(62)]);
        r
    }
}

/// The track, its progress and the console.
pub fn now_parts() -> (r: Vec<Part>)
    ensures
        r@ == seq![Part::Length(8), Part::Length(3), Part::Min(4)],
{
    let r = vec![Part::Length(8), Part::Length(3), Part::Min(4)];
    assert(r@ =~= seq![Part::Length(8), Part::Length(3), Part::Min(4)]);
    r
}

/// The rows and columns around an area in the middle.
pub fn centered_parts(percent_x: u16, height: u16) -> (r: (Vec<Part>, Vec<Part>))
    requires
        percent_x <= 100,
    ensures
        r.0@ == seq![Part::Min(0), Part::Length(height), Part::Min(0)],
        r.1@ == seq![
            Part::Percentage(((100 - percent_x) / 2) as u16),
            Part::Percentage(percent_x),
            Part::Percentage(((100 - percent_x) / 2) as u16),
        ],
{
    let side = (100 - percent_x) / 2;
    let rows = vec![Part::Min(0), Part::Length(height), Part::Min(0)];
    let columns = vec![
        Part::Percentage(side),
        Part::Percentage(percent_x),
        Part::Percentage(side),
    ];
    assert(rows@ =~= seq![Part::Min(0), Part::Length(height), Part::Min(0)]);
    assert(columns@ =~= seq![
        Part::Percentage(((100 - percent_x) / 2) as u16),
        Part::Percentage(percent_x),
        Part::Percentage(((100 - percent_x) / 2) as u16),
    ]);
    (rows, columns)
}

/// The sums over two parts, written out.
proof fn lemma_two_parts(parts: Seq<Part>, extent: int)
    requires
        parts.len() == 2,
    ensures
        fixed_total(parts) == fixed_size(parts[0]) + fixed_size(parts[1]),
        flexible_count(parts) == flexible(parts[0]) + flexible(parts[1]),
        percent_total(parts) == percentage(parts[0]) + percentage(parts[1]),
        shares_before(parts, extent, 0) == 0,
        shares_before(parts, extent, 1) == share_of(parts[0], parts, extent),
        shares_before(parts, extent, 2) == share_of(parts[0], parts, extent) + share_of(
            parts[1],
            parts,
            extent,
        ),
{
    reveal_with_fuel(fixed_total, 3);
    reveal_with_fuel(flexible_count, 3);
    reveal_with_fuel(percent_total, 3);
    reveal_with_fuel(shares_before, 3);
}

/// The sums over three parts, written out.
proof fn lemma_three_parts(parts: Seq<Part>, extent: int)
    requires
        parts.len() == 3,
    ensures
        fixed_total(parts) == fixed_size(parts[0]) + fixed_size(parts[1]) + fixed_size(parts[2]),
        flexible_count(parts) == flexible(parts[0]) + flexible(parts[1]) + flexible(parts[2]),
        percent_total(parts) == percentage(parts[0]) + percentage(parts[1]) + percentage(parts[2]),
        shares_before(parts, extent, 0) == 0,
        shares_before(parts, extent, 1) == share_of(parts[0], parts, extent),
        shares_before(parts, extent, 2) == share_of(parts[0], parts, extent) + share_of(
            parts[1],
            parts,
            extent,
        ),
        shares_before(parts, extent, 3) == share_of(parts[0], parts, extent) + share_of(
            parts[1],
            parts,
            extent,
        ) + share_of(parts[2], parts, extent),
{
    reveal_with_fuel(fixed_total, 4);
    reveal_with_fuel(flexible_count, 4);
    reveal_with_fuel(percent_total, 4);
    reveal_with_fuel(shares_before, 4);
}

/// Every area spans the whole across the split.
pub open spec fn all_span(areas: Seq<Area>, area: Area, split: Split) -> bool {
    forall|i: int| 0 <= i < areas.len() ==> spans(#[trigger] areas[i], area, split)
}

/// Below the top of the area by `from` rows, `rows` high.
pub open spec fn rows_of(area: Area, from: int, rows: int) -> Area {
    Area { x: area.x, y: (area.y + from) as u16, width: area.width, height: rows as u16 }
}

/// Right of the start of the area by `from` columns, up to `to` columns.
pub open spec fn columns_of(area: Area, from: int, to: int) -> Area {
    Area { x: (area.x + from) as u16, y: area.y, width: (to - from) as u16, height: area.height }
}

/// A percentage of the columns, rounded.
pub open spec fn percent_of(area: Area, percent: int) -> int {
    (percent * extent(area, Split::Columns) + 50) / 100
}

/// The header takes one row and the prompt three, where the body is left its least.
pub fn root_areas(area: Area) -> (r: Vec<Area>)
    ensures
        r@.len() == 3,
        all_span(r@, area, Split::Rows),
        extent(area, Split::Rows) >= 12 ==> {
            let rows = extent(area, Split::Rows);
            r@ == seq![
                rows_of(area, 0, 1),
                rows_of(area, 1, rows - 4),
                rows_of(area, rows - 3, 3),
            ]
        },
{
    let parts = root_parts();
    let r = split_area(Split::Rows, &parts, area);
    proof {
        let rows = extent(area, Split::Rows);
        if rows >= 12 {
            lemma_three_parts(parts@, rows);
            assert(between_cuts(r@[0], parts@, area, Split::Rows, 0));
            assert(between_cuts(r@[1], parts@, area, Split::Rows, 1));
            assert(between_cuts(r@[2], parts@, area, Split::Rows, 2));
            assert(r@ =~= seq![
                rows_of(area, 0, 1),
                rows_of(area, 1, rows - 4),
                rows_of(area, rows - 3, 3),
            ]);
        }
    }
    r
}

/// The columns are cut at their percentages.
pub fn body_areas(area: Area, device_panel_visible: bool) -> (r: Vec<Area>)
    ensures
        all_span(r@, area, Split::Columns),
        r@ == if device_panel_visible {
            seq![
                columns_of(area, 0, percent_of(area, 34)),
                columns_of(area, percent_of(area, 34), percent_of(area, 76)),
                columns_of(area, percent_of(area, 76), extent(area, Split::Columns)),
            ]
        } else {
            seq![
                columns_of(area, 0, percent_of(area, 38)),
                columns_of(area, percent_of(area, 38), extent(area, Split::Columns)),
            ]
        },
{
    let parts = body_parts(device_panel_visible);
    let r = split_area(Split::Columns, &parts, area);
    proof {
        let columns = extent(area, Split::Columns);
        if device_panel_visible {
            lemma_three_parts(parts@, columns);
            assert(between_cuts(r@[0], parts@, area, Split::Columns, 0));
            assert(between_cuts(r@[1], parts@, area, Split::Columns, 1));
            assert(between_cuts(r@[2], parts@, area, Split::Columns, 2));
            assert(r@ =~= seq![
                columns_of(area, 0, percent_of(area, 34)),
                columns_of(area, percent_of(area, 34), percent_of(area, 76)),
                columns_of(area, percent_of(area, 76), columns),
            ]);
        } else {
            lemma_two_parts(parts@, columns);
            assert(between_cuts(r@[0], parts@, area, Split::Columns, 0));
            assert(between_cuts(r@[1], parts@, area, Split::Columns, 1));
            assert(r@ =~= seq![
                columns_of(area, 0, percent_of(area, 38)),
                columns_of(area, percent_of(area, 38), columns),
            ]);
        }
    }
    r
}

/// The track takes eight rows and the progress three, where the console is left its least.
pub fn now_areas(area: Area) -> (r: Vec<Area>)
    ensures
        r@.len() == 3,
        all_span(r@, area, Split::Rows),
        extent(area, Split::Rows) >= 15 ==> r@ == seq![
            rows_of(area, 0, 8),
            rows_of(area, 8, 3),
            rows_of(area, 11, extent(area, Split::Rows) - 11),
        ],
{
    let parts = now_parts();
    let r = split_area(Split::Rows, &parts, area);
    proof {
        let rows = extent(area, Split::Rows);
        if rows >= 15 {
            lemma_three_parts(parts@, rows);
            assert(between_cuts(r@[0], parts@, area, Split::Rows, 0));
            assert(between_cuts(r@[1], parts@, area, Split::Rows, 1));
            assert(between_cuts(r@[2], parts@, area, Split::Rows, 2));
            assert(r@ =~= seq![
                rows_of(area, 0, 8),
                rows_of(area, 8, 3),
                rows_of(area, 11, rows - 11),
            ]);
        }
    }
    r
}

/// The rows above an area of this height in the middle of another, rounded up.
pub open spec fn rows_above(area: Area, height: int) -> int {
    (extent(area, Split::Rows) - height + 1) / 2
}

/// An area in the middle of another: so many percent of the columns, and so many rows.
pub fn centered_rect(percent_x: u16, height: u16, area: Area) -> (r: Area)
    requires
        percent_x <= 100,
    ensures
        exists|row: Area| #[trigger]
            spans(row, area, Split::Rows) && spans(r, row, Split::Columns),
        height <= extent(area, Split::Rows) ==> {
            &&& r.y == area.y + rows_above(area, height as int)
            &&& r.height == height
        },
        percent_x % 2 == 0 ==> {
            let side = (100 - percent_x) / 2;
            &&& r.x == area.x + percent_of(area, side)
            &&& r.x + r.width == area.x + percent_of(area, side + percent_x)
        },
{
    let (rows, columns) = centered_parts(percent_x, height);
    let vertical = split_area(Split::Rows, &rows, area);
    let row = vertical[1];
    let horizontal = split_area(Split::Columns, &columns, row);
    assert(spans(row, area, Split::Rows));
    proof {
        lemma_three_parts(rows@, extent(area, Split::Rows));
        lemma_three_parts(columns@, extent(row, Split::Columns));
        if height <= extent(area, Split::Rows) {
            assert(between_cuts(vertical@[1], rows@, area, Split::Rows, 1));
        }
        if percent_x % 2 == 0 {
            let side = (100 - percent_x) / 2;
            let width = extent(area, Split::Columns);
            assert(extent(row, Split::Columns) == width);
            assert(percent_total(columns@) == 100);
            assert(between_cuts(horizontal@[1], columns@, row, Split::Columns, 1));
            assert((side + percent_x) * width == side * width + percent_x * width)
                by (nonlinear_arith);
        }
    }
    horizontal[1]
}

/// The column behind what is typed, counted in the sixteen bits of a terminal position.
pub open spec fn cursor_column(area: Area, typed: nat) -> int {
    area.x + 1 + typed % 0x1_0000
}

impl TuiApp {
    /// Where the cursor stands while something is typed, if it is still in the area of the prompt.
    pub fn prompt_cursor(&self, area: Area) -> (r: Option<(u16, u16)>)
        requires
            self.input_mode != InputMode::Browse ==> {
                &&& cursor_column(area, self.prompt_spec().len()) <= u16::MAX
                &&& area.y < u16::MAX
            },
        ensures
            r == if self.input_mode == InputMode::Browse || cursor_column(
                area,
                self.prompt_spec().len(),
            ) >= right_edge(area) {
                None
            } else {
                Some(
                    (
                        cursor_column(area, self.prompt_spec().len()) as u16,
                        (area.y + 1) as u16,
                    ),
                )
            },
    {
        if self.input_mode == InputMode::Browse {
            return None;
        }
        let prompt = self.prompt();
        let typed: usize = prompt.as_str().unicode_len() % 0x1_0000;
        let x = area.x as u32 + 1 + typed as u32;
        let edge = area.x as u32 + area.width as u32;
        let right = if edge <= u16::MAX as u32 {
            edge
        } else {
            u16::MAX as u32
        };
        if x < right {
            Some((x as u16, area.y + 1))
        } else {
            None
        }
    }
}

/// A percentage of an area is that share of its columns, rounded to the nearest: none for nothing,
/// all for the whole, and never less for more.
pub proof fn percentages_are_shares(area: Area, percent: int, more: int)
    requires
        0 <= percent <= more <= 100,
    ensures
        percent_of(area, 0) == 0,
        percent_of(area, 100) == extent(area, Split::Columns),
        percent_of(area, percent) <= percent_of(area, more),
        100 * percent_of(area, percent) <= percent * extent(area, Split::Columns) + 50,
        percent * extent(area, Split::Columns) + 50 < 100 * percent_of(area, percent) + 100,
{
    let n = extent(area, Split::Columns);
    assert(percent * n <= more * n) by (nonlinear_arith)
        requires
            percent <= more,
            0 <= n,
    ;
}

/// What is centred has as many rows above it as below it, or one more.
pub proof fn centred_rows_are_in_the_middle(area: Area, height: int)
    requires
        0 <= height <= extent(area, Split::Rows),
    ensures
        ({
            let above = rows_above(area, height);
            let below = extent(area, Split::Rows) - height - above;
            0 <= below <= above <= below + 1
        }),
{
}

} // verus!
