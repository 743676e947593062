//! The visible result list: its lines, and moving through it.

use crate::library::{text_or_default, Track};
use crate::library;
use crate::shell::layout::{compact, compact_path, display_columns, fit_line_to_width, padded};
use crate::shell::layout;
use crate::text;
use vstd::prelude::*;

verus! {

#[derive(Debug, Clone, Copy, PartialEq, Eq, Structural)]
pub struct ResultLineLayout {
    pub total_width: usize,
    pub title_width: usize,
    pub artist_width: usize,
    pub path_width: Option<usize>,
}

pub open spec fn clamp(value: int, low: int, high: int) -> int {
    if value < low {
        low
    } else if value > high {
        high
    } else {
        value
    }
}

pub open spec fn at_least(value: int, low: int) -> int {
    if value < low {
        low
    } else {
        value
    }
}

/// Below 72 columns the line holds title and artist, two thirds and one third of what the
/// prefix leaves. From 72 columns on it also holds the path.
pub open spec fn layout_spec(terminal_width: u16, prefix_width: nat) -> ResultLineLayout {
    let total = at_least(terminal_width as int, 24);
    if total < 72 {
        let content = at_least(total - prefix_width - 2, 8);
        let title = clamp(content * 2 / 3, 8, content - 1);
        ResultLineLayout {
            total_width: total as usize,
            title_width: title as usize,
            artist_width: (content - title) as usize,
            path_width: None,
        }
    } else {
        let content = at_least(total - prefix_width - 4, 24);
        let path = clamp(content * 38 / 100, 18, 56);
        let artist = clamp(content * 20 / 100, 12, 26);
        let title = at_least(content - path - artist, 12);
        ResultLineLayout {
            total_width: total as usize,
            title_width: title as usize,
            artist_width: artist as usize,
            path_width: Some(path as usize),
        }
    }
}

/// On a narrow terminal at least nine columns must remain beside the prefix.
pub open spec fn layout_has_room(terminal_width: u16, prefix_width: nat) -> bool {
    at_least(terminal_width as int, 24) < 72 ==> prefix_width + 11 <= at_least(
        terminal_width as int,
        24,
    )
}

pub fn result_line_layout(terminal_width: u16, prefix_width: usize) -> (r: ResultLineLayout)
    requires
        layout_has_room(terminal_width, prefix_width as nat),
        prefix_width <= usize::MAX - 4,
    ensures
        r == layout_spec(terminal_width, prefix_width as nat),
{
    let total_width: usize = if terminal_width < 24 {
        24
    } else {
        terminal_width as usize
    };
    if total_width < 72 {
        let content_width: usize = total_width - (prefix_width + 2);
        let two_thirds: usize = content_width * 2 / 3;
        let title_width: usize = if two_thirds < 8 {
            8
        } else if two_thirds > content_width - 1 {
            content_width - 1
        } else {
            two_thirds
        };
        return ResultLineLayout {
            total_width,
            title_width,
            artist_width: content_width - title_width,
            path_width: None,
        };
    }
    let used: usize = prefix_width + 4;
    let content_width: usize = if total_width >= used && total_width - used > 24 {
        total_width - used
    } else {
        24
    };
    let path_share: usize = content_width * 38 / 100;
    let path_width: usize = if path_share < 18 {
        18
    } else if path_share > 56 {
        56
    } else {
        path_share
    };
    let artist_share: usize = content_width * 20 / 100;
    let artist_width: usize = if artist_share < 12 {
        12
    } else if artist_share > 26 {
        26
    } else {
        artist_share
    };
    let title_width: usize = if content_width >= path_width + artist_width + 12 {
        content_width - (path_width + artist_width)
    } else {
        12
    };
    ResultLineLayout { total_width, title_width, artist_width, path_width: Some(path_width) }
}

pub open spec fn table_header_spec(terminal_width: u16) -> Seq<char> {
    let prefix = " #   "@;
    let widths = layout_spec(terminal_width, layout::cols(prefix));
    let title = layout::padded_spec("title"@, widths.title_width as nat);
    let artist = layout::compact_spec("artist"@, widths.artist_width as nat);
    let line = match widths.path_width {
        Some(path_width) => prefix + title + "  "@ + layout::padded_spec(
            artist,
            widths.artist_width as nat,
        ) + "  "@ + layout::compact_spec("path"@, path_width as nat),
        None => prefix + title + "  "@ + artist,
    };
    layout::compact_spec(line, widths.total_width as nat)
}

proof fn lemma_header_prefix()
    ensures
        layout::cols(" #   "@) == 5,
{
    reveal_strlit(" #   ");
    reveal_with_fuel(layout::cols, 6);
}

pub fn result_table_header_for_width(terminal_width: u16) -> (r: String)
    ensures
        r@ == table_header_spec(terminal_width),
{
    let prefix = " #   ";
    proof {
        lemma_header_prefix();
    }
    let widths = result_line_layout(terminal_width, display_columns(prefix));
    let title = padded("title", widths.title_width as u16);
    let artist = compact("artist", widths.artist_width);
    let mut line = text::text3(prefix, &title, "  ");
    match widths.path_width {
        Some(path_width) => {
            let artist = padded(&artist, widths.artist_width as u16);
            let path = compact("path", path_width);
            line.append(&artist);
            line.append("  ");
            line.append(&path);
        },
        None => {
            line.append(&artist);
        },
    }
    fit_line_to_width(&line, widths.total_width)
}

pub open spec fn is_current(track: Track, current: Option<&Track>) -> bool {
    match current {
        Some(current) => current.path@ == track.path@,
        None => false,
    }
}

/// The marker of the current track, the right-aligned index and a dot.
pub open spec fn line_prefix(index: nat, track: Track, current: Option<&Track>) -> Seq<char> {
    (if is_current(track, current) {
        ">"@
    } else {
        " "@
    }) + text::pad_start_spec(text::decimal_spec(index), 2, ' ') + ". "@
}

pub open spec fn result_line_spec(
    index: nat,
    track: Track,
    current: Option<&Track>,
    terminal_width: u16,
) -> Seq<char> {
    let prefix = line_prefix(index, track, current);
    let artist = library::text_or(track.artist, "unknown artist"@);
    let widths = layout_spec(terminal_width, layout::cols(prefix));
    let title = layout::padded_spec(
        layout::compact_spec(track.title@, widths.title_width as nat),
        widths.title_width as nat,
    );
    let short_artist = layout::compact_spec(artist, widths.artist_width as nat);
    let line = match widths.path_width {
        Some(path_width) => prefix + title + "  "@ + layout::padded_spec(
            short_artist,
            widths.artist_width as nat,
        ) + "  "@ + layout::compact_path_spec(track.path@, path_width as nat),
        None => prefix + title + "  "@ + short_artist,
    };
    layout::compact_spec(line, widths.total_width as nat)
}

pub fn is_current_track(track: &Track, current_track: Option<&Track>) -> (r: bool)
    ensures
        r == is_current(*track, current_track),
{
    match current_track {
        Some(current) => text::same_text(&current.path, &track.path),
        None => false,
    }
}

pub fn result_line_for_width(
    index: usize,
    track: &Track,
    current_track: Option<&Track>,
    terminal_width: u16,
) -> (r: String)
    requires
        layout_has_room(
            terminal_width,
            layout::cols(line_prefix(index as nat, *track, current_track)),
        ),
    ensures
        r@ == result_line_spec(index as nat, *track, current_track, terminal_width),
{
    let marker = if is_current_track(track, current_track) {
        ">"
    } else {
        " "
    };
    let number = text::decimal(index as u128);
    let aligned = text::pad_start(&number, 2, ' ');
    let prefix = text::text3(marker, &aligned, ". ");
    let artist = text_or_default(&track.artist, "unknown artist");
    let prefix_width: usize = display_columns(&prefix);
    proof {
        lemma_prefix_is_short(index as nat, *track, current_track);
    }
    let widths = result_line_layout(terminal_width, prefix_width);
    let short_title = compact(&track.title, widths.title_width);
    let title = padded(&short_title, widths.title_width as u16);
    let short_artist = compact(artist, widths.artist_width);
    let mut line = text::text3(&prefix, &title, "  ");
    match widths.path_width {
        Some(path_width) => {
            let wide_artist = padded(&short_artist, widths.artist_width as u16);
            let path = compact_path(&track.path, path_width);
            line.append(&wide_artist);
            line.append("  ");
            line.append(&path);
        },
        None => {
            line.append(&short_artist);
        },
    }
    fit_line_to_width(&line, widths.total_width)
}

proof fn lemma_decimal_cols(n: nat)
    ensures
        text::decimal_spec(n).len() <= n + 1,
        layout::cols(text::decimal_spec(n)) == text::decimal_spec(n).len(),
        n < 0x1_0000_0000_0000_0000 ==> text::decimal_spec(n).len() <= 20,
    decreases n,
{
    lemma_decimal_short(n, 20);
    if n < 10 {
        assert(text::decimal_spec(n).drop_last() == Seq::<char>::empty());
        assert(layout::cols(Seq::<char>::empty()) == 0);
    } else {
        lemma_decimal_cols(n / 10);
        assert(text::decimal_spec(n).drop_last() == text::decimal_spec(n / 10));
    }
}

pub open spec fn power_of_ten(k: nat) -> nat
    decreases k,
{
    if k == 0 {
        1
    } else {
        10 * power_of_ten((k - 1) as nat)
    }
}

proof fn lemma_decimal_short(n: nat, k: nat)
    requires
        k >= 1,
    ensures
        n < power_of_ten(k) ==> text::decimal_spec(n).len() <= k,
        power_of_ten(20) > 0xffff_ffff_ffff_ffff,
    decreases k,
{
    assert(power_of_ten(20) > 0xffff_ffff_ffff_ffff) by {
        reveal_with_fuel(power_of_ten, 21);
    }
    if k > 1 && n >= 10 {
        lemma_decimal_short(n / 10, (k - 1) as nat);
    } else if n >= 10 {
        assert(power_of_ten(1) == 10) by {
            reveal_with_fuel(power_of_ten, 2);
        }
    }
}

proof fn lemma_prefix_is_short(index: nat, track: Track, current: Option<&Track>)
    requires
        index <= usize::MAX,
    ensures
        layout::cols(line_prefix(index, track, current)) <= 25,
{
    let number = text::decimal_spec(index);
    let gap = if 2 > number.len() {
        (2 - number.len()) as nat
    } else {
        0
    };
    let marker = if is_current(track, current) {
        ">"@
    } else {
        " "@
    };
    lemma_decimal_cols(index);
    layout::lemma_cols_repeated(' ', gap);
    layout::lemma_cols_concat(text::repeated(' ', gap), number);
    let aligned = text::pad_start_spec(number, 2, ' ');
    layout::lemma_cols_concat(marker, aligned);
    layout::lemma_cols_concat(marker + aligned, ". "@);
    reveal_strlit(">");
    reveal_strlit(" ");
    reveal_strlit(". ");
    reveal_with_fuel(layout::cols, 3);
}

/// A list of fewer than ten thousand million results leaves room for its texts beside the numbers
/// on every terminal.
pub proof fn short_lists_have_room(
    index: nat,
    track: Track,
    current: Option<&Track>,
    terminal_width: u16,
)
    requires
        index < 10_000_000_000,
    ensures
        layout_has_room(terminal_width, layout::cols(line_prefix(index, track, current))),
{
    let number = text::decimal_spec(index);
    let gap = if 2 > number.len() {
        (2 - number.len()) as nat
    } else {
        0
    };
    let marker = if is_current(track, current) {
        ">"@
    } else {
        " "@
    };
    lemma_decimal_cols(index);
    assert(power_of_ten(10) == 10_000_000_000) by {
        reveal_with_fuel(power_of_ten, 11);
    }
    lemma_decimal_short(index, 10);
    layout::lemma_cols_repeated(' ', gap);
    layout::lemma_cols_concat(text::repeated(' ', gap), number);
    let aligned = text::pad_start_spec(number, 2, ' ');
    layout::lemma_cols_concat(marker, aligned);
    layout::lemma_cols_concat(marker + aligned, ". "@);
    reveal_strlit(">");
    reveal_strlit(" ");
    reveal_strlit(". ");
    layout::lemma_cols_ascii(">"@);
    layout::lemma_cols_ascii(" "@);
    layout::lemma_cols_ascii(". "@);
}

/// A result line never exceeds the terminal, nor 24 columns on a narrower one.
pub proof fn result_line_fits(index: nat, track: Track, current: Option<&Track>, terminal_width: u16)
    ensures
        layout::cols(result_line_spec(index, track, current, terminal_width)) <= at_least(
            terminal_width as int,
            24,
        ),
{
    let prefix = line_prefix(index, track, current);
    let artist = library::text_or(track.artist, "unknown artist"@);
    let widths = layout_spec(terminal_width, layout::cols(prefix));
    let title = layout::padded_spec(
        layout::compact_spec(track.title@, widths.title_width as nat),
        widths.title_width as nat,
    );
    let short_artist = layout::compact_spec(artist, widths.artist_width as nat);
    let line = match widths.path_width {
        Some(path_width) => prefix + title + "  "@ + layout::padded_spec(
            short_artist,
            widths.artist_width as nat,
        ) + "  "@ + layout::compact_path_spec(track.path@, path_width as nat),
        None => prefix + title + "  "@ + short_artist,
    };
    layout::compact_fits(line, widths.total_width as nat);
}

/// The table header never exceeds the terminal, nor 24 columns on a narrower one.
pub proof fn table_header_fits(terminal_width: u16)
    ensures
        layout::cols(table_header_spec(terminal_width)) <= at_least(terminal_width as int, 24),
{
    let prefix = " #   "@;
    let widths = layout_spec(terminal_width, layout::cols(prefix));
    let title = layout::padded_spec("title"@, widths.title_width as nat);
    let artist = layout::compact_spec("artist"@, widths.artist_width as nat);
    let line = match widths.path_width {
        Some(path_width) => prefix + title + "  "@ + layout::padded_spec(
            artist,
            widths.artist_width as nat,
        ) + "  "@ + layout::compact_spec("path"@, path_width as nat),
        None => prefix + title + "  "@ + artist,
    };
    layout::compact_fits(line, widths.total_width as nat);
}

pub fn result_line(index: usize, track: &Track, current_track: Option<&Track>) -> (r: String)
    ensures
        r@ == result_line_spec(index as nat, *track, current_track, 132),
{
    result_line_for_width(index, track, current_track, 132)
}

// ---------------------------------------------------------------- moving through the results

/// The first position whose track has this path.
pub open spec fn position_of(results: Seq<Track>, path: Seq<char>) -> Option<nat>
    decreases results.len(),
{
    if results.len() == 0 {
        None
    } else if results[0].path@ == path {
        Some(0)
    } else {
        match position_of(results.skip(1), path) {
            Some(i) => Some(i + 1),
            None => None,
        }
    }
}

/// The position of the current track among the results.
pub open spec fn current_index_spec(results: Seq<Track>, current: Option<&Track>) -> Option<nat> {
    match current {
        Some(current) => position_of(results, current.path@),
        None => None,
    }
}

pub proof fn lemma_position_of(results: Seq<Track>, path: Seq<char>)
    ensures
        match position_of(results, path) {
            Some(i) => i < results.len() && results[i as int].path@ == path && forall|j: int|
                0 <= j < i ==> (#[trigger] results[j]).path@ != path,
            None => forall|j: int|
                0 <= j < results.len() ==> (#[trigger] results[j]).path@ != path,
        },
    decreases results.len(),
{
    if results.len() > 0 && results[0].path@ != path {
        let rest = results.skip(1);
        lemma_position_of(rest, path);
        match position_of(rest, path) {
            Some(i) => {
                assert forall|j: int| 0 <= j < i + 1 implies (#[trigger] results[j]).path@
                    != path by {
                    if j > 0 {
                        assert(rest[j - 1] == results[j]);
                    }
                }
            },
            None => {
                assert forall|j: int| 0 <= j < results.len() implies (#[trigger] results[j]).path@
                    != path by {
                    if j > 0 {
                        assert(rest[j - 1] == results[j]);
                    }
                }
            },
        }
    }
}

pub fn current_result_index(results: &[Track], current_track: Option<&Track>) -> (r: Option<usize>)
    ensures
        match r {
            Some(i) => current_index_spec(results@, current_track) == Some(i as nat) && i
                < results@.len(),
            None => current_index_spec(results@, current_track) is None,
        },
{
    match current_track {
        None => None,
        Some(current) => {
            let mut i: usize = 0;
            assert(results@.skip(0) == results@);
            while i < results.len()
                invariant
                    i <= results.len(),
                    current_track == Some(current),
                    match position_of(results@.skip(i as int), current.path@) {
                        Some(k) => position_of(results@, current.path@) == Some(k + i as nat),
                        None => position_of(results@, current.path@) is None,
                    },
                decreases results.len() - i,
            {
                if text::same_text(&results[i].path, &current.path) {
                    return Some(i);
                }
                assert(results@.skip(i as int).skip(1) == results@.skip(i + 1));
                i = i + 1;
            }
            None
        },
    }
}

pub fn current_result_label(results: &[Track], current_track: Option<&Track>) -> (r: Option<String>)
    ensures
        match r {
            Some(label) => current_index_spec(results@, current_track) is Some && label@ == "#"@
                + text::decimal_spec(current_index_spec(results@, current_track)->0 + 1),
            None => current_index_spec(results@, current_track) is None,
        },
{
    match current_result_index(results, current_track) {
        Some(index) => {
            let number = text::decimal(index as u128 + 1);
            Some(text::text2("#", &number))
        },
        None => None,
    }
}

/// `step` places on from the current track, around the ends; without a current track among the
/// results the first one, or the last one for a step back.
pub open spec fn relative_index_spec(
    results: Seq<Track>,
    current: Option<&Track>,
    step: int,
) -> Option<int> {
    if results.len() == 0 {
        None
    } else {
        match current_index_spec(results, current) {
            Some(index) => Some((index + step) % (results.len() as int)),
            None => if step < 0 {
                Some(results.len() - 1)
            } else {
                Some(0)
            },
        }
    }
}

pub fn relative_result_index(
    results: &[Track],
    current_track: Option<&Track>,
    step: isize,
) -> (r: Option<usize>)
    ensures
        match r {
            Some(i) => relative_index_spec(results@, current_track, step as int) == Some(i as int)
                && i < results@.len(),
            None => results@.len() == 0,
        },
{
    if results.len() == 0 {
        return None;
    }
    let len: usize = results.len();
    match current_result_index(results, current_track) {
        Some(index) => {
            if step >= 0 {
                let sum: u128 = index as u128 + step as u128;
                Some((sum % (len as u128)) as usize)
            } else {
                let back: u128 = (-(step as i128)) as u128;
                let offset: u128 = back % (len as u128);
                let sum: u128 = index as u128 + (len as u128 - offset);
                proof {
                    let n = len as int;
                    let q = (back as int) / n;
                    vstd::arithmetic::div_mod::lemma_fundamental_div_mod(back as int, n);
                    vstd::arithmetic::div_mod::lemma_mod_multiples_vanish(
                        -(q + 1),
                        sum as int,
                        n,
                    );
                    assert(n * (-(q + 1)) + sum == index + step) by (nonlinear_arith)
                        requires
                            back == n * q + offset,
                            sum == index + (n - offset),
                            step == -back,
                    ;
                }
                Some((sum % (len as u128)) as usize)
            }
        },
        None => if step < 0 {
            Some(len - 1)
        } else {
            Some(0)
        },
    }
}

/// The seed picks a result; where that is the current track and others exist, the next one.
pub open spec fn shuffle_index_spec(
    results: Seq<Track>,
    current: Option<&Track>,
    seed: usize,
) -> Option<int> {
    let len = results.len() as int;
    if len == 0 {
        None
    } else {
        let picked = (seed as int) % len;
        if len > 1 && current_index_spec(results, current) == Some(picked as nat) {
            Some((picked + 1) % len)
        } else {
            Some(picked)
        }
    }
}

pub fn shuffle_result_index(
    results: &[Track],
    current_track: Option<&Track>,
    seed: u64,
) -> (r: Option<usize>)
    ensures
        match r {
            Some(i) => shuffle_index_spec(results@, current_track, seed as usize) == Some(i as int)
                && i < results@.len(),
            None => results@.len() == 0,
        },
{
    if results.len() == 0 {
        return None;
    }
    let index: usize = (seed as usize) % results.len();
    if results.len() > 1 {
        match current_result_index(results, current_track) {
            Some(current) => {
                if current == index {
                    return Some((index + 1) % results.len());
                }
            },
            None => {},
        }
    }
    Some(index)
}

/// Shuffling never repeats the current track while there is another visible result.
pub proof fn shuffle_avoids_current(results: Seq<Track>, current: Option<&Track>, seed: usize)
    requires
        results.len() > 1,
    ensures
        match shuffle_index_spec(results, current, seed) {
            Some(i) => 0 <= i < results.len() && current_index_spec(results, current) != Some(
                i as nat,
            ),
            None => false,
        },
{
    let n = results.len() as int;
    let picked = (seed as int) % n;
    if picked + 1 < n {
        vstd::arithmetic::div_mod::lemma_small_mod((picked + 1) as nat, n as nat);
    } else {
        vstd::arithmetic::div_mod::lemma_mod_self_0(n);
    }
}

/// Stepping forward and then back returns to where the walk began, when no two results share a
/// path.
pub proof fn next_then_prev_returns(results: Seq<Track>, start: int, step: int)
    requires
        0 <= start < results.len(),
        forall|i: int, j: int|
            0 <= i < j < results.len() ==> (#[trigger] results[i]).path@ != (
            #[trigger] results[j]).path@,
    ensures
        match relative_index_spec(results, Some(&results[start]), step) {
            Some(there) => relative_index_spec(results, Some(&results[there]), -step) == Some(
                start,
            ),
            None => false,
        },
{
    let n = results.len() as int;
    lemma_position_of(results, results[start].path@);
    let there = (start + step) % n;
    lemma_position_of(results, results[there].path@);
    vstd::arithmetic::div_mod::lemma_fundamental_div_mod(start + step, n);
    let q = (start + step) / n;
    assert(there - step == n * (-q) + start) by (nonlinear_arith)
        requires
            start + step == n * q + there,
    ;
    vstd::arithmetic::div_mod::lemma_mod_multiples_vanish(-q, start, n);
    vstd::arithmetic::div_mod::lemma_small_mod(start as nat, n as nat);
}

/// Going on leads to the result listed below, from the last one to the first; going back to the one
/// listed above, from the first one to the last.
pub proof fn steps_lead_to_the_neighbours(results: Seq<Track>, current: &Track, at: int)
    requires
        0 <= at < results.len(),
        results[at].path@ == current.path@,
        forall|i: int| 0 <= i < at ==> (#[trigger] results[i]).path@ != current.path@,
    ensures
        relative_index_spec(results, Some(current), 1) == Some(
            if at + 1 < results.len() {
                at + 1
            } else {
                0
            },
        ),
        relative_index_spec(results, Some(current), -1) == Some(
            if at > 0 {
                at - 1
            } else {
                results.len() - 1
            },
        ),
{
    lemma_position_of(results, current.path@);
    assert(current_index_spec(results, Some(current)) == Some(at as nat)) by {
        let found = current_index_spec(results, Some(current))->0 as int;
        if found < at {
            assert(results[found].path@ != current.path@);
        }
        if at < found {
            assert(results[at].path@ != current.path@);
        }
    }
    let n = results.len() as int;
    if at + 1 < n {
        vstd::arithmetic::div_mod::lemma_small_mod((at + 1) as nat, n as nat);
    } else {
        vstd::arithmetic::div_mod::lemma_mod_self_0(n);
    }
    if at > 0 {
        vstd::arithmetic::div_mod::lemma_small_mod((at - 1) as nat, n as nat);
    } else {
        vstd::arithmetic::div_mod::lemma_mod_add_multiples_vanish(-1, n);
        vstd::arithmetic::div_mod::lemma_small_mod((n - 1) as nat, n as nat);
    }
}

/// Where nothing listed is current, going on starts at the first result and going back at the last.
pub proof fn steps_start_at_an_end(results: Seq<Track>, current: Option<&Track>)
    requires
        results.len() > 0,
        forall|i: int|
            0 <= i < results.len() && current is Some ==> (#[trigger] results[i]).path@
                != current->0.path@,
    ensures
        relative_index_spec(results, current, 1) == Some(0int),
        relative_index_spec(results, current, -1) == Some(results.len() - 1),
{
    match current {
        Some(current) => {
            lemma_position_of(results, current.path@);
        },
        None => {},
    }
}

/// Every result can be picked at random.
pub proof fn every_result_can_be_picked(results: Seq<Track>, i: usize)
    requires
        i < results.len(),
    ensures
        shuffle_index_spec(results, None, i) == Some(i as int),
{
    vstd::arithmetic::div_mod::lemma_small_mod(i as nat, results.len());
}

/// The row of the current track is marked, and no other one; the number stands behind the mark.
pub proof fn rows_are_marked_and_numbered(index: nat, track: Track, current: Option<&Track>)
    ensures
        line_prefix(index, track, current).len() > 0,
        line_prefix(index, track, current)[0] == '>' <==> current is Some && current->0.path@
            == track.path@,
        line_prefix(index, track, current)[0] == ' ' <==> !(current is Some && current->0.path@
            == track.path@),
        text::ends_with_spec(
            line_prefix(index, track, current),
            text::decimal_spec(index) + ". "@,
        ),
{
    reveal_strlit(">");
    reveal_strlit(" ");
    reveal_strlit(". ");
    let prefix = line_prefix(index, track, current);
    let tail = text::decimal_spec(index) + ". "@;
    assert(prefix.skip(prefix.len() - tail.len()) =~= tail);
}

/// The columns of a row and the gaps between them make up the whole line, as long as there is room.
pub proof fn columns_fill_the_line(terminal_width: u16, prefix_width: nat)
    requires
        terminal_width >= 24,
        prefix_width <= 10,
    ensures
        ({
            let widths = layout_spec(terminal_width, prefix_width);
            &&& widths.total_width == terminal_width
            &&& widths.path_width is Some <==> terminal_width >= 72
            &&& widths.title_width > 0 && widths.artist_width > 0
            &&& match widths.path_width {
                Some(path) => prefix_width + widths.title_width + 2 + widths.artist_width + 2 + path
                    == terminal_width,
                None => prefix_width + widths.title_width + 2 + widths.artist_width
                    == terminal_width,
            }
            &&& widths.title_width >= widths.artist_width
        }),
{
}

/// A row shows its number, the title behind it, the artist in the next column, and the path at the
/// end where there is a column for it.
pub proof fn rows_show_title_artist_and_path(
    index: nat,
    track: Track,
    artist: String,
    current: Option<&Track>,
    terminal_width: u16,
)
    requires
        terminal_width >= 24,
        layout::cols(line_prefix(index, track, current)) <= 10,
        track.artist == Some(artist),
        ({
            let widths = layout_spec(
                terminal_width,
                layout::cols(line_prefix(index, track, current)),
            );
            &&& layout::cols(track.title@) <= widths.title_width
            &&& layout::cols(artist@) <= widths.artist_width
            &&& widths.path_width matches Some(width) ==> layout::cols(track.path@) <= width
        }),
    ensures
        ({
            let prefix = line_prefix(index, track, current);
            let widths = layout_spec(terminal_width, layout::cols(prefix));
            let row = result_line_spec(index, track, current, terminal_width);
            &&& text::starts_with_spec(row, prefix + track.title@)
            &&& text::occurs_at(
                row,
                artist@,
                prefix.len() + track.title@.len() + (widths.title_width - layout::cols(
                    track.title@,
                )) + 2,
            )
            &&& terminal_width >= 72 ==> text::ends_with_spec(row, track.path@)
        }),
{
    let prefix = line_prefix(index, track, current);
    let widths = layout_spec(terminal_width, layout::cols(prefix));
    columns_fill_the_line(terminal_width, layout::cols(prefix));
    let title = layout::padded_spec(track.title@, widths.title_width as nat);
    layout::padding_reaches_width(track.title@, widths.title_width as nat);
    layout::padding_only_adds_spaces(track.title@, widths.title_width as nat);
    reveal_strlit("  ");
    layout::lemma_cols_ascii("  "@);
    layout::lemma_cols_concat(prefix, title);
    layout::lemma_cols_concat(prefix + title, "  "@);
    let start = prefix + title + "  "@;
    match widths.path_width {
        Some(path_width) => {
            let wide = layout::padded_spec(artist@, widths.artist_width as nat);
            layout::padding_reaches_width(artist@, widths.artist_width as nat);
            layout::padding_only_adds_spaces(artist@, widths.artist_width as nat);
            layout::lemma_cols_concat(start, wide);
            layout::lemma_cols_concat(start + wide, "  "@);
            layout::lemma_cols_concat(start + wide + "  "@, track.path@);
            let line = start + wide + "  "@ + track.path@;
            assert(result_line_spec(index, track, current, terminal_width) == line);
            assert(line.take(prefix.len() as int + track.title@.len()) =~= prefix + track.title@);
            assert(line.subrange(start.len() as int, start.len() as int + artist@.len())
                =~= artist@);
            assert(line.skip(line.len() - track.path@.len()) =~= track.path@);
        },
        None => {
            layout::lemma_cols_concat(start, artist@);
            let line = start + artist@;
            assert(result_line_spec(index, track, current, terminal_width) == line);
            assert(line.take(prefix.len() as int + track.title@.len()) =~= prefix + track.title@);
            assert(line.subrange(start.len() as int, start.len() as int + artist@.len())
                =~= artist@);
        },
    }
}

/// On a wide line the path has thirty-eight hundredths of what is left beside the number, the artist a
/// fifth and the title the rest; on a narrow one the title has two thirds.
pub proof fn columns_have_their_shares(terminal_width: u16, prefix_width: nat)
    requires
        terminal_width >= 24,
        prefix_width <= 10,
    ensures
        ({
            let widths = layout_spec(terminal_width, prefix_width);
            let wide = terminal_width - prefix_width - 4;
            let narrow = terminal_width - prefix_width - 2;
            &&& terminal_width < 72 ==> 3 * widths.title_width <= 2 * narrow < 3
                * widths.title_width + 3 || widths.title_width == 8 || widths.title_width == narrow
                - 1
            &&& terminal_width < 72 && 13 <= narrow ==> 3 * widths.title_width <= 2 * narrow < 3
                * widths.title_width + 3
            &&& widths.path_width matches Some(path) ==> 18 <= path <= 56 && 12
                <= widths.artist_width <= 26
            &&& widths.path_width matches Some(path) ==> (18 < path < 56 ==> 100 * path <= 38 * wide
                < 100 * path + 100)
            &&& widths.path_width matches Some(path) ==> (12 < widths.artist_width < 26 ==> 5
                * widths.artist_width <= wide < 5 * widths.artist_width + 5)
            &&& widths.path_width matches Some(path) ==> (wide >= 150 ==> path == 56) && (wide
                >= 130 ==> widths.artist_width == 26)
        }),
{
}

} // verus!
