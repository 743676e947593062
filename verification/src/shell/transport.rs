//! Volume, position in the track, and what is metered while it plays.

use crate::shell::info;
use crate::shell::queue;
use crate::text;
use vstd::prelude::*;

verus! {

pub const MAX_VOLUME: u8 = 100;

/// The largest number of seconds or percent that is read.
pub const MAX_NUMBER: usize = 999_999_999;

/// Decimal digits whose value is not too large.
pub open spec fn number_spec(s: Seq<char>) -> Option<u64> {
    if s.len() > 0 && text::all_digits(s) && text::digits_value(s) <= MAX_NUMBER {
        Some(text::digits_value(s) as u64)
    } else {
        None
    }
}

fn number_of(chars: &[char]) -> (r: Option<u64>)
    ensures
        r == number_spec(chars@),
        r matches Some(n) ==> n <= MAX_NUMBER,
{
    if chars.len() == 0 || !text::is_all_digits(chars) {
        return None;
    }
    match text::digits_to_usize(chars) {
        Some(value) => if value <= MAX_NUMBER {
            Some(value as u64)
        } else {
            None
        },
        None => None,
    }
}

fn part_of(chars: &[char], from: usize, to: usize) -> (r: Vec<char>)
    requires
        from <= to <= chars@.len(),
    ensures
        r@ == chars@.subrange(from as int, to as int),
{
    let mut r: Vec<char> = Vec::new();
    let mut i: usize = from;
    while i < to
        invariant
            from <= i <= to <= chars@.len(),
            r@ == chars@.subrange(from as int, i as int),
        decreases to - i,
    {
        r.push(chars[i]);
        assert(chars@.subrange(from as int, i as int).push(chars@[i as int]) =~= chars@.subrange(
            from as int,
            i + 1,
        ));
        i = i + 1;
    }
    r
}

// ---------------------------------------------------------------- volume

/// The volume that an argument asks for: a number up to the largest, steps up or down that stop at
/// the ends, or silence.
pub open spec fn volume_spec(argument: Seq<char>, volume: u8) -> Option<u8> {
    let asked = text::ascii_lower_spec(text::trim_spec(argument));
    if asked == "mute"@ {
        Some(0)
    } else if asked.len() > 0 && asked[0] == '+' {
        match number_spec(asked.skip(1)) {
            Some(n) => Some(
                if volume + n <= MAX_VOLUME {
                    (volume + n) as u8
                } else {
                    MAX_VOLUME
                },
            ),
            None => None,
        }
    } else if asked.len() > 0 && asked[0] == '-' {
        match number_spec(asked.skip(1)) {
            Some(n) => Some(
                if n <= volume {
                    (volume - n) as u8
                } else {
                    0
                },
            ),
            None => None,
        }
    } else {
        match number_spec(asked) {
            Some(n) => if n <= MAX_VOLUME {
                Some(n as u8)
            } else {
                None
            },
            None => None,
        }
    }
}

pub fn volume_for(argument: &str, volume: u8) -> (r: Option<u8>)
    requires
        volume <= MAX_VOLUME,
    ensures
        r == volume_spec(argument@, volume),
        r matches Some(next) ==> next <= MAX_VOLUME,
{
    let asked = text::ascii_lower(text::trim(argument));
    if text::same_text(&asked, "mute") {
        return Some(0);
    }
    let chars = text::chars_of(&asked);
    if chars.len() > 0 && (chars[0] == '+' || chars[0] == '-') {
        let rest = part_of(&chars, 1, chars.len());
        assert(rest@ =~= asked@.skip(1));
        match number_of(&rest) {
            None => None,
            Some(n) => if chars[0] == '+' {
                if volume as u64 + n <= MAX_VOLUME as u64 {
                    Some((volume as u64 + n) as u8)
                } else {
                    Some(MAX_VOLUME)
                }
            } else if n <= volume as u64 {
                Some((volume as u64 - n) as u8)
            } else {
                Some(0)
            },
        }
    } else {
        match number_of(&chars) {
            Some(n) => if n <= MAX_VOLUME as u64 {
                Some(n as u8)
            } else {
                None
            },
            None => None,
        }
    }
}

// ---------------------------------------------------------------- position

/// A time as it is typed: seconds, minutes and seconds, or hours, minutes and seconds, with colons
/// between them.
pub open spec fn seconds_spec(s: Seq<char>) -> Option<u64> {
    let colon = part_len(s);
    if colon == s.len() {
        number_spec(s)
    } else {
        let rest = s.skip(colon as int + 1);
        let second = part_len(rest);
        if second == rest.len() {
            sum_spec(Some(0), number_spec(s.take(colon as int)), sixtieths_spec(rest))
        } else {
            sum_spec(
                number_spec(s.take(colon as int)),
                sixtieths_spec(rest.take(second as int)),
                sixtieths_spec(rest.skip(second as int + 1)),
            )
        }
    }
}

/// How many characters stand before the first colon.
pub open spec fn part_len(s: Seq<char>) -> nat
    decreases s.len(),
{
    if s.len() == 0 || s[0] == ':' {
        0
    } else {
        1 + part_len(s.skip(1))
    }
}

/// One or two digits below sixty.
pub open spec fn sixtieths_spec(s: Seq<char>) -> Option<u64> {
    match number_spec(s) {
        Some(n) => if s.len() <= 2 && n < 60 {
            Some(n)
        } else {
            None
        },
        None => None,
    }
}

pub open spec fn sum_spec(
    hours: Option<u64>,
    minutes: Option<u64>,
    seconds: Option<u64>,
) -> Option<u64> {
    match (hours, minutes, seconds) {
        (Some(h), Some(m), Some(s)) => Some((h * 3600 + m * 60 + s) as u64),
        _ => None,
    }
}

fn sixtieths_of(chars: &[char]) -> (r: Option<u64>)
    ensures
        r == sixtieths_spec(chars@),
        r matches Some(n) ==> n < 60,
{
    match number_of(chars) {
        Some(n) => if chars.len() <= 2 && n < 60 {
            Some(n)
        } else {
            None
        },
        None => None,
    }
}

fn sum_of(hours: Option<u64>, minutes: Option<u64>, seconds: Option<u64>) -> (r: Option<u64>)
    requires
        hours matches Some(h) ==> h <= MAX_NUMBER,
        minutes matches Some(m) ==> m <= MAX_NUMBER,
        seconds matches Some(s) ==> s <= MAX_NUMBER,
    ensures
        r == sum_spec(hours, minutes, seconds),
        r matches Some(n) ==> n <= 5_000_000_000_000,
{
    match (hours, minutes, seconds) {
        (Some(h), Some(m), Some(s)) => Some(h * 3600 + m * 60 + s),
        _ => None,
    }
}

proof fn lemma_part_len(s: Seq<char>, n: int)
    requires
        0 <= n <= s.len(),
        forall|i: int| 0 <= i < n ==> #[trigger] s[i] != ':',
        n < s.len() ==> s[n] == ':',
    ensures
        part_len(s) == n,
    decreases s.len(),
{
    if n > 0 {
        assert forall|i: int| 0 <= i < n - 1 implies #[trigger] s.skip(1)[i] != ':' by {
            assert(s[i + 1] != ':');
        }
        lemma_part_len(s.skip(1), n - 1);
    }
}

fn first_part_len(chars: &[char]) -> (r: usize)
    ensures
        r == part_len(chars@),
        r <= chars@.len(),
        r < chars@.len() ==> chars@[r as int] == ':',
{
    let mut i: usize = 0;
    while i < chars.len() && chars[i] != ':'
        invariant
            i <= chars@.len(),
            forall|j: int| 0 <= j < i ==> #[trigger] chars@[j] != ':',
        decreases chars@.len() - i,
    {
        i = i + 1;
    }
    proof {
        lemma_part_len(chars@, i as int);
    }
    i
}

fn seconds_of(chars: &[char]) -> (r: Option<u64>)
    ensures
        r == seconds_spec(chars@),
        r matches Some(n) ==> n <= 5_000_000_000_000,
{
    let colon = first_part_len(chars);
    if colon == chars.len() {
        return number_of(chars);
    }
    let first = part_of(chars, 0, colon);
    let rest = part_of(chars, colon + 1, chars.len());
    assert(first@ =~= chars@.take(colon as int));
    assert(rest@ =~= chars@.skip(colon + 1));
    let second = first_part_len(&rest);
    if second == rest.len() {
        sum_of(Some(0), number_of(&first), sixtieths_of(&rest))
    } else {
        let middle = part_of(&rest, 0, second);
        let last = part_of(&rest, second + 1, rest.len());
        assert(middle@ =~= rest@.take(second as int));
        assert(last@ =~= rest@.skip(second + 1));
        sum_of(number_of(&first), sixtieths_of(&middle), sixtieths_of(&last))
    }
}

/// Where to go in the track.
#[derive(Debug, Clone, Copy, PartialEq, Eq, Structural)]
pub enum SeekCommand {
    Undo,
    Start,
    End,
    To { seconds: u64 },
    ToPercent { percent: u64 },
    By { forward: bool, seconds: u64 },
    ByPercent { forward: bool, percent: u64 },
    Unclear,
}

/// A percentage up to the whole, where a percent sign stands behind it.
pub open spec fn percent_spec(s: Seq<char>) -> Option<u64> {
    match number_spec(s.drop_last()) {
        Some(n) => if n <= 100 {
            Some(n)
        } else {
            None
        },
        None => None,
    }
}

pub open spec fn parse_seek_spec(argument: Seq<char>) -> SeekCommand {
    let asked = text::ascii_lower_spec(text::trim_spec(argument));
    if asked == "undo"@ {
        SeekCommand::Undo
    } else if asked == "start"@ {
        SeekCommand::Start
    } else if asked == "end"@ {
        SeekCommand::End
    } else if asked.len() == 0 {
        SeekCommand::Unclear
    } else if asked[0] == '+' || asked[0] == '-' {
        let forward = asked[0] == '+';
        let rest = asked.skip(1);
        if asked.last() == '%' {
            match percent_spec(rest) {
                Some(percent) => SeekCommand::ByPercent { forward, percent },
                None => SeekCommand::Unclear,
            }
        } else {
            match seconds_spec(rest) {
                Some(seconds) => SeekCommand::By { forward, seconds },
                None => SeekCommand::Unclear,
            }
        }
    } else if asked.last() == '%' {
        match percent_spec(asked) {
            Some(percent) => SeekCommand::ToPercent { percent },
            None => SeekCommand::Unclear,
        }
    } else {
        match seconds_spec(asked) {
            Some(seconds) => SeekCommand::To { seconds },
            None => SeekCommand::Unclear,
        }
    }
}

fn percent_of(chars: &[char]) -> (r: Option<u64>)
    requires
        chars@.len() > 0,
    ensures
        r == percent_spec(chars@),
        r matches Some(n) ==> n <= 100,
{
    let digits = part_of(chars, 0, chars.len() - 1);
    assert(digits@ =~= chars@.drop_last());
    match number_of(&digits) {
        Some(n) => if n <= 100 {
            Some(n)
        } else {
            None
        },
        None => None,
    }
}

impl SeekCommand {
    /// The numbers are as small as they are read.
    pub open spec fn is_small(self) -> bool {
        match self {
            SeekCommand::To { seconds } => seconds <= 5_000_000_000_000,
            SeekCommand::By { seconds, .. } => seconds <= 5_000_000_000_000,
            SeekCommand::ToPercent { percent } => percent <= 100,
            SeekCommand::ByPercent { percent, .. } => percent <= 100,
            _ => true,
        }
    }
}

pub fn parse_seek_command(argument: &str) -> (r: SeekCommand)
    ensures
        r == parse_seek_spec(argument@),
        r.is_small(),
{
    let asked = text::ascii_lower(text::trim(argument));
    if text::same_text(&asked, "undo") {
        return SeekCommand::Undo;
    }
    if text::same_text(&asked, "start") {
        return SeekCommand::Start;
    }
    if text::same_text(&asked, "end") {
        return SeekCommand::End;
    }
    let chars = text::chars_of(&asked);
    if chars.len() == 0 {
        return SeekCommand::Unclear;
    }
    let in_percent = chars[chars.len() - 1] == '%';
    if chars[0] == '+' || chars[0] == '-' {
        let forward = chars[0] == '+';
        let rest = part_of(&chars, 1, chars.len());
        assert(rest@ =~= asked@.skip(1));
        if in_percent {
            assert(rest@.len() > 0) by {
                if asked@.len() == 1 {
                    assert(asked@[0] == asked@.last());
                }
            }
            match percent_of(&rest) {
                Some(percent) => SeekCommand::ByPercent { forward, percent },
                None => SeekCommand::Unclear,
            }
        } else {
            match seconds_of(&rest) {
                Some(seconds) => SeekCommand::By { forward, seconds },
                None => SeekCommand::Unclear,
            }
        }
    } else if in_percent {
        match percent_of(&chars) {
            Some(percent) => SeekCommand::ToPercent { percent },
            None => SeekCommand::Unclear,
        }
    } else {
        match seconds_of(&chars) {
            Some(seconds) => SeekCommand::To { seconds },
            None => SeekCommand::Unclear,
        }
    }
}

/// The last position that can be gone to.
pub open spec fn last_position(duration_ms: Option<u64>) -> int {
    match duration_ms {
        Some(ms) => ms as int,
        None => u64::MAX as int,
    }
}

pub open spec fn within(position: int, duration_ms: Option<u64>) -> u64 {
    if position < 0 {
        0
    } else if position <= last_position(duration_ms) {
        position as u64
    } else {
        last_position(duration_ms) as u64
    }
}

pub open spec fn share_of(duration_ms: u64, percent: u64) -> int {
    (duration_ms * percent) / 100
}

/// The position in milliseconds that a command leads to. Shares and the end need a known length,
/// and undoing needs a seek before it.
pub open spec fn seek_target_spec(
    command: SeekCommand,
    elapsed_ms: u64,
    duration_ms: Option<u64>,
    undo_ms: Option<u64>,
) -> Option<u64> {
    match command {
        SeekCommand::Undo => match undo_ms {
            Some(ms) => Some(within(ms as int, duration_ms)),
            None => None,
        },
        SeekCommand::Start => Some(0),
        SeekCommand::End => duration_ms,
        SeekCommand::To { seconds } => Some(within(seconds * 1000, duration_ms)),
        SeekCommand::ToPercent { percent } => match duration_ms {
            Some(ms) => Some(within(share_of(ms, percent), duration_ms)),
            None => None,
        },
        SeekCommand::By { forward, seconds } => Some(
            within(
                if forward {
                    elapsed_ms + seconds * 1000
                } else {
                    elapsed_ms - seconds * 1000
                },
                duration_ms,
            ),
        ),
        SeekCommand::ByPercent { forward, percent } => match duration_ms {
            Some(ms) => Some(
                within(
                    if forward {
                        elapsed_ms + share_of(ms, percent)
                    } else {
                        elapsed_ms - share_of(ms, percent)
                    },
                    duration_ms,
                ),
            ),
            None => None,
        },
        SeekCommand::Unclear => None,
    }
}

fn keep_within(position: i128, duration_ms: Option<u64>) -> (r: u64)
    ensures
        r == within(position as int, duration_ms),
{
    let last: u64 = match duration_ms {
        Some(ms) => ms,
        None => u64::MAX,
    };
    if position < 0 {
        0
    } else if position <= last as i128 {
        position as u64
    } else {
        last
    }
}

fn share(duration_ms: u64, percent: u64) -> (r: i128)
    requires
        percent <= 100,
    ensures
        r == share_of(duration_ms, percent),
        0 <= r <= u64::MAX,
{
    proof {
        assert(0 <= duration_ms * percent <= u64::MAX * 100) by (nonlinear_arith)
            requires
                percent <= 100,
        ;
    }
    let parts: u128 = duration_ms as u128 * percent as u128;
    (parts / 100) as i128
}

pub fn seek_target(
    command: SeekCommand,
    elapsed_ms: u64,
    duration_ms: Option<u64>,
    undo_ms: Option<u64>,
) -> (r: Option<u64>)
    requires
        command.is_small(),
    ensures
        r == seek_target_spec(command, elapsed_ms, duration_ms, undo_ms),
{
    let elapsed = elapsed_ms as i128;
    match command {
        SeekCommand::Undo => match undo_ms {
            Some(ms) => Some(keep_within(ms as i128, duration_ms)),
            None => None,
        },
        SeekCommand::Start => Some(0),
        SeekCommand::End => duration_ms,
        SeekCommand::To { seconds } => Some(keep_within(seconds as i128 * 1000, duration_ms)),
        SeekCommand::ToPercent { percent } => match duration_ms {
            Some(ms) => Some(keep_within(share(ms, percent), duration_ms)),
            None => None,
        },
        SeekCommand::By { forward, seconds } => {
            let distance = seconds as i128 * 1000;
            if forward {
                Some(keep_within(elapsed + distance, duration_ms))
            } else {
                Some(keep_within(elapsed - distance, duration_ms))
            }
        },
        SeekCommand::ByPercent { forward, percent } => match duration_ms {
            Some(ms) => {
                let distance = share(ms, percent);
                if forward {
                    Some(keep_within(elapsed + distance, duration_ms))
                } else {
                    Some(keep_within(elapsed - distance, duration_ms))
                }
            },
            None => None,
        },
        SeekCommand::Unclear => None,
    }
}

// ---------------------------------------------------------------- the meter

pub open spec fn left_spec(elapsed_ms: u64, duration_ms: u64) -> nat {
    if elapsed_ms <= duration_ms {
        (duration_ms - elapsed_ms) as nat
    } else {
        0
    }
}

/// Elapsed time, and what is left where the length is known.
pub open spec fn time_spec(elapsed_ms: u64, duration_ms: Option<u64>) -> Seq<char> {
    match duration_ms {
        Some(ms) => "time "@ + info::duration_spec(elapsed_ms as nat) + " / "@
            + info::duration_spec(ms as nat) + (", "@ + info::duration_spec(
            left_spec(elapsed_ms, ms),
        ) + " left"@),
        None => "time "@ + info::duration_spec(elapsed_ms as nat) + " / --:--"@,
    }
}

/// One simulated token for each tenth of a second.
pub open spec fn tokens_spec(elapsed_ms: u64) -> nat {
    (elapsed_ms / 100) as nat
}

/// The simulated cost: three millionths of a dollar for a token.
pub open spec fn cost_spec(elapsed_ms: u64) -> Seq<char> {
    let millionths = tokens_spec(elapsed_ms) * 3;
    "$"@ + text::decimal_spec(millionths / 1_000_000) + "."@ + text::pad_start_spec(
        text::decimal_spec(millionths % 1_000_000),
        6,
        '0',
    )
}

pub fn cost_text(elapsed_ms: u64) -> (r: String)
    ensures
        r@ == cost_spec(elapsed_ms),
{
    let millionths = (elapsed_ms / 100) * 3;
    let whole = text::decimal((millionths / 1_000_000) as u128);
    let digits = text::decimal((millionths % 1_000_000) as u128);
    let fraction = text::pad_start(&digits, 6, '0');
    text::text4("$", &whole, ".", &fraction)
}

pub open spec fn tokens_line_spec(elapsed_ms: u64) -> Seq<char> {
    "tokens "@ + text::decimal_spec(tokens_spec(elapsed_ms)) + ", cost "@ + cost_spec(elapsed_ms)
        + " (simulated, never billed)"@
}

pub open spec fn undo_line_spec(undo_ms: Option<u64>) -> Seq<char> {
    "seek undo "@ + queue::length_spec(undo_ms)
}

pub fn left_of(elapsed_ms: u64, duration_ms: u64) -> (r: u64)
    ensures
        r == left_spec(elapsed_ms, duration_ms),
{
    if elapsed_ms <= duration_ms {
        duration_ms - elapsed_ms
    } else {
        0
    }
}

pub fn time_line(elapsed_ms: u64, duration_ms: Option<u64>) -> (r: String)
    ensures
        r@ == time_spec(elapsed_ms, duration_ms),
{
    let elapsed = info::format_duration(elapsed_ms);
    match duration_ms {
        Some(ms) => {
            let length = info::format_duration(ms);
            let left = info::format_duration(left_of(elapsed_ms, ms));
            let left = text::text3(", ", &left, " left");
            text::text5("time ", &elapsed, " / ", &length, &left)
        },
        None => text::text3("time ", &elapsed, " / --:--"),
    }
}

pub fn tokens_line(elapsed_ms: u64) -> (r: String)
    ensures
        r@ == tokens_line_spec(elapsed_ms),
{
    let tokens = text::decimal((elapsed_ms / 100) as u128);
    let cost = cost_text(elapsed_ms);
    text::text5("tokens ", &tokens, ", cost ", &cost, " (simulated, never billed)")
}

pub fn undo_line(undo_ms: Option<u64>) -> (r: String)
    ensures
        r@ == undo_line_spec(undo_ms),
{
    let position = queue::length_text(undo_ms);
    text::text2("seek undo ", &position)
}

// ---------------------------------------------------------------- laws

/// A volume that is asked for never leaves its range, wherever it starts from.
pub proof fn volume_stays_in_range(argument: Seq<char>, volume: u8)
    requires
        volume <= MAX_VOLUME,
    ensures
        volume_spec(argument, volume) matches Some(next) ==> next <= MAX_VOLUME,
{
}

/// A seek never leads past the end of a track whose length is known.
pub proof fn seek_stays_in_the_track(
    command: SeekCommand,
    elapsed_ms: u64,
    duration_ms: u64,
    undo_ms: Option<u64>,
)
    ensures
        seek_target_spec(command, elapsed_ms, Some(duration_ms), undo_ms) matches Some(target)
            ==> target <= duration_ms,
{
}

/// Going back as far as one went forward returns to where one was, unless the end was in the way.
pub proof fn seeking_back_returns(elapsed_ms: u64, seconds: u64, duration_ms: u64)
    requires
        elapsed_ms + seconds * 1000 <= duration_ms,
    ensures
        seek_target_spec(
            SeekCommand::By { forward: true, seconds },
            elapsed_ms,
            Some(duration_ms),
            None,
        ) matches Some(there) && seek_target_spec(
            SeekCommand::By { forward: false, seconds },
            there,
            Some(duration_ms),
            None,
        ) == Some(elapsed_ms),
{
}

/// A percentage leads that share of the way into the track: the start for none, the end for all,
/// and never further back for more. Where one is does not matter.
pub proof fn percent_leads_that_far(
    percent: u64,
    more: u64,
    duration_ms: u64,
    elapsed_ms: u64,
    undo_ms: Option<u64>,
)
    requires
        percent <= more <= 100,
    ensures
        seek_target_spec(
            SeekCommand::ToPercent { percent },
            elapsed_ms,
            Some(duration_ms),
            undo_ms,
        ) matches Some(target) && {
            &&& target * 100 <= duration_ms * percent < target * 100 + 100
            &&& percent == 0 ==> target == 0
            &&& percent == 100 ==> target == duration_ms
            &&& seek_target_spec(
                SeekCommand::ToPercent { percent: more },
                elapsed_ms,
                Some(duration_ms),
                undo_ms,
            ) matches Some(further) && target <= further
        },
{
    let parts: int = duration_ms * percent;
    let further: int = duration_ms * more;
    assert(0 <= parts <= further <= duration_ms * 100) by (nonlinear_arith)
        requires
            parts == duration_ms * percent,
            further == duration_ms * more,
            percent <= more <= 100,
    ;
    assert(percent == 0 ==> parts == 0) by (nonlinear_arith)
        requires
            parts == duration_ms * percent,
    ;
    assert(percent == 100 ==> parts == duration_ms * 100) by (nonlinear_arith)
        requires
            parts == duration_ms * percent,
    ;
}

/// A time leads there, counted from the start, and no further than the end.
pub proof fn time_leads_there(
    seconds: u64,
    duration_ms: u64,
    elapsed_ms: u64,
    undo_ms: Option<u64>,
)
    requires
        seconds * 1000 <= u64::MAX,
    ensures
        seek_target_spec(SeekCommand::To { seconds }, elapsed_ms, Some(duration_ms), undo_ms)
            == Some(
            if seconds * 1000 <= duration_ms {
                (seconds * 1000) as u64
            } else {
                duration_ms
            },
        ),
        seek_target_spec(SeekCommand::To { seconds }, elapsed_ms, None, undo_ms) == Some(
            (seconds * 1000) as u64,
        ),
{
}

/// Steps go as many seconds on or back as they say, unless an end of the track is nearer.
pub proof fn steps_go_that_far(
    seconds: u64,
    duration_ms: u64,
    elapsed_ms: u64,
    undo_ms: Option<u64>,
)
    requires
        elapsed_ms <= duration_ms,
    ensures
        seek_target_spec(
            SeekCommand::By { forward: true, seconds },
            elapsed_ms,
            Some(duration_ms),
            undo_ms,
        ) matches Some(target) && (target - elapsed_ms == seconds * 1000 || (target == duration_ms
            && target - elapsed_ms < seconds * 1000)),
        seek_target_spec(
            SeekCommand::By { forward: false, seconds },
            elapsed_ms,
            Some(duration_ms),
            undo_ms,
        ) matches Some(target) && (elapsed_ms - target == seconds * 1000 || (target == 0
            && elapsed_ms - target < seconds * 1000)),
{
}

/// A percentage as a step goes on or back by that share of the whole track.
pub proof fn percent_steps_go_that_far(
    percent: u64,
    duration_ms: u64,
    elapsed_ms: u64,
    undo_ms: Option<u64>,
)
    requires
        elapsed_ms <= duration_ms,
        percent <= 100,
    ensures
        seek_target_spec(
            SeekCommand::ByPercent { forward: true, percent },
            elapsed_ms,
            Some(duration_ms),
            undo_ms,
        ) matches Some(target) && elapsed_ms <= target && (target == duration_ms || (target
            - elapsed_ms) * 100 <= duration_ms * percent < (target - elapsed_ms) * 100 + 100)
            && (target - elapsed_ms) * 100 <= duration_ms * percent,
        seek_target_spec(
            SeekCommand::ByPercent { forward: false, percent },
            elapsed_ms,
            Some(duration_ms),
            undo_ms,
        ) matches Some(target) && target <= elapsed_ms && (target == 0 || (elapsed_ms - target)
            * 100 <= duration_ms * percent < (elapsed_ms - target) * 100 + 100) && (elapsed_ms
            - target) * 100 <= duration_ms * percent,
{
    let parts: int = duration_ms * percent;
    assert(0 <= parts <= duration_ms * 100) by (nonlinear_arith)
        requires
            parts == duration_ms * percent,
            percent <= 100,
    ;
}

/// The start is the start and the end the end; going back is only to where the last seek began. A
/// share, or the end, of a track of unknown length leads nowhere, and neither does what is unclear.
pub proof fn seek_words_mean_what_they_say(
    percent: u64,
    forward: bool,
    elapsed_ms: u64,
    duration_ms: u64,
    undo_ms: u64,
)
    ensures
        seek_target_spec(SeekCommand::Start, elapsed_ms, Some(duration_ms), Some(undo_ms)) == Some(
            0u64,
        ),
        seek_target_spec(SeekCommand::Start, elapsed_ms, None, None) == Some(0u64),
        seek_target_spec(SeekCommand::End, elapsed_ms, Some(duration_ms), Some(undo_ms)) == Some(
            duration_ms,
        ),
        undo_ms <= duration_ms ==> seek_target_spec(
            SeekCommand::Undo,
            elapsed_ms,
            Some(duration_ms),
            Some(undo_ms),
        ) == Some(undo_ms),
        seek_target_spec(SeekCommand::Undo, elapsed_ms, None, Some(undo_ms)) == Some(undo_ms),
        seek_target_spec(SeekCommand::Undo, elapsed_ms, Some(duration_ms), None) is None,
        seek_target_spec(SeekCommand::End, elapsed_ms, None, Some(undo_ms)) is None,
        seek_target_spec(
            SeekCommand::ToPercent { percent },
            elapsed_ms,
            None,
            Some(undo_ms),
        ) is None,
        seek_target_spec(
            SeekCommand::ByPercent { forward, percent },
            elapsed_ms,
            None,
            Some(undo_ms),
        ) is None,
        seek_target_spec(
            SeekCommand::Unclear,
            elapsed_ms,
            Some(duration_ms),
            Some(undo_ms),
        ) is None,
{
}

/// A number with a sign before it steps up or down by that much and stops at the ends; the word for
/// silence silences.
pub proof fn volume_steps_by_the_number(volume: u8, n: u64)
    requires
        volume <= MAX_VOLUME,
        n <= MAX_NUMBER,
    ensures
        volume_spec("+"@ + text::decimal_spec(n as nat), volume) matches Some(next) && (next
            - volume == n || (next == 100 && next - volume < n)),
        volume_spec("-"@ + text::decimal_spec(n as nat), volume) matches Some(next) && (volume
            - next == n || (next == 0 && volume - next < n)),
        n <= 100 ==> volume_spec(text::decimal_spec(n as nat), volume) == Some(n as u8),
        n > 100 ==> volume_spec(text::decimal_spec(n as nat), volume) is None,
        volume_spec("mute"@, volume) == Some(0u8),
{
    reveal_strlit("mute");
    reveal_strlit("+");
    reveal_strlit("-");
    let number = text::decimal_spec(n as nat);
    assert("+"@ =~= seq!['+']);
    assert("-"@ =~= seq!['-']);
    lemma_signed(n, "+"@, '+');
    lemma_signed(n, "-"@, '-');
    text::lemma_decimal(n as nat);
    text::lemma_number_is_a_word(n as nat);
    assert("mute"@[0] == 'm');
    text::lemma_lower_stays("mute"@);
    assert(text::trim_spec("mute"@) == "mute"@);
}

/// A number behind a sign is read as it stands.
proof fn lemma_signed(n: u64, sign: Seq<char>, c: char)
    requires
        sign == seq![c],
        c == '+' || c == '-',
        n <= MAX_NUMBER,
    ensures
        ({
            let s = sign + text::decimal_spec(n as nat);
            &&& text::ascii_lower_spec(text::trim_spec(s)) == s
            &&& s[0] == c
            &&& s.skip(1) == text::decimal_spec(n as nat)
            &&& '0' <= s.last() <= '9'
            &&& number_spec(s.skip(1)) == Some(n)
        }),
{
    let number = text::decimal_spec(n as nat);
    text::lemma_decimal(n as nat);
    text::lemma_number_is_a_word(n as nat);
    let s = sign + number;
    assert(s.last() == number[number.len() - 1]);
    assert(s.skip(1) =~= number);
    assert forall|i: int| 0 <= i < s.len() implies !('A' <= #[trigger] s[i] <= 'Z') by {
        if i > 0 {
            assert(s[i] == number[i - 1]);
        }
    }
    text::lemma_lower_stays(s);
    assert(text::trim_spec(s) == s);
}

proof fn lemma_no_colon(n: nat)
    ensures
        part_len(text::decimal_spec(n)) == text::decimal_spec(n).len(),
{
    text::lemma_number_is_a_word(n);
    lemma_part_len(text::decimal_spec(n), text::decimal_spec(n).len() as int);
}

/// Seconds are typed as a number, steps with a sign before it.
pub proof fn seconds_are_read_as_typed(n: u64)
    requires
        n <= MAX_NUMBER,
    ensures
        parse_seek_spec(text::decimal_spec(n as nat)) == (SeekCommand::To { seconds: n }),
        parse_seek_spec("+"@ + text::decimal_spec(n as nat)) == (SeekCommand::By {
            forward: true,
            seconds: n,
        }),
        parse_seek_spec("-"@ + text::decimal_spec(n as nat)) == (SeekCommand::By {
            forward: false,
            seconds: n,
        }),
{
    reveal_strlit("undo");
    reveal_strlit("start");
    reveal_strlit("end");
    reveal_strlit("+");
    reveal_strlit("-");
    let number = text::decimal_spec(n as nat);
    assert("+"@ =~= seq!['+']);
    assert("-"@ =~= seq!['-']);
    lemma_signed(n, "+"@, '+');
    lemma_signed(n, "-"@, '-');
    lemma_no_colon(n as nat);
    text::lemma_decimal(n as nat);
    text::lemma_number_is_a_word(n as nat);
    assert('0' <= number[0] <= '9');
    assert('0' <= number[number.len() - 1] <= '9');
}

/// Percentages are typed with their sign behind them, steps with one before them, too.
pub proof fn percentages_are_read_as_typed(n: u64)
    requires
        n <= 100,
    ensures
        parse_seek_spec(text::decimal_spec(n as nat) + "%"@) == (SeekCommand::ToPercent {
            percent: n,
        }),
        parse_seek_spec("+"@ + text::decimal_spec(n as nat) + "%"@) == (SeekCommand::ByPercent {
            forward: true,
            percent: n,
        }),
        parse_seek_spec("-"@ + text::decimal_spec(n as nat) + "%"@) == (SeekCommand::ByPercent {
            forward: false,
            percent: n,
        }),
{
    reveal_strlit("undo");
    reveal_strlit("start");
    reveal_strlit("end");
    reveal_strlit("+");
    reveal_strlit("-");
    reveal_strlit("%");
    let number = text::decimal_spec(n as nat);
    text::lemma_decimal(n as nat);
    text::lemma_number_is_a_word(n as nat);
    assert('0' <= number[0] <= '9');
    let plain = number + "%"@;
    assert(plain.drop_last() =~= number);
    assert forall|i: int| 0 <= i < plain.len() implies !('A' <= #[trigger] plain[i] <= 'Z') by {
        if i < number.len() {
            assert(plain[i] == number[i]);
        }
    }
    text::lemma_lower_stays(plain);
    assert(plain[0] == number[0]);
    assert(text::trim_spec(plain) == plain);
    assert forall|sign: Seq<char>| sign == seq!['+'] || sign == seq!['-'] implies {
        let s = #[trigger] (sign + number) + "%"@;
        &&& text::ascii_lower_spec(text::trim_spec(s)) == s
        &&& s.skip(1).drop_last() == number
        &&& s[0] == sign[0]
        &&& s.last() == '%'
        &&& s.len() > 1
    } by {
        let s = (sign + number) + "%"@;
        assert(s.skip(1).drop_last() =~= number);
        assert forall|i: int| 0 <= i < s.len() implies !('A' <= #[trigger] s[i] <= 'Z') by {
            if 0 < i <= number.len() {
                assert(s[i] == number[i - 1]);
            }
        }
        text::lemma_lower_stays(s);
        assert(text::trim_spec(s) == s);
    }
    assert("+"@ =~= seq!['+']);
    assert("-"@ =~= seq!['-']);
    assert(number_spec(number) == Some(n));
}

/// Minutes and seconds are typed with a colon between them.
pub proof fn minutes_are_read_as_typed(minutes: u64, seconds: u64)
    requires
        minutes <= MAX_NUMBER,
        seconds < 60,
    ensures
        parse_seek_spec(text::decimal_spec(minutes as nat) + ":"@ + info::two_digits(seconds as nat))
            == (SeekCommand::To { seconds: (minutes * 60 + seconds) as u64 }),
{
    reveal_strlit("undo");
    reveal_strlit("start");
    reveal_strlit("end");
    reveal_strlit(":");
    let first = text::decimal_spec(minutes as nat);
    let second = info::two_digits(seconds as nat);
    text::lemma_decimal(minutes as nat);
    text::lemma_number_is_a_word(minutes as nat);
    lemma_two_digits(seconds);
    let s = first + ":"@ + second;
    let n = first.len() as int;
    assert('0' <= first[0] <= '9');
    assert(s[0] == first[0]);
    assert('0' <= second[second.len() - 1] <= '9');
    assert(s.last() == second[second.len() - 1]);
    assert forall|i: int| 0 <= i < s.len() implies !('A' <= #[trigger] s[i] <= 'Z') by {
        if i < n {
            assert(s[i] == first[i]);
        } else if i > n {
            assert(s[i] == second[i - n - 1]);
        }
    }
    text::lemma_lower_stays(s);
    assert(text::trim_spec(s) == s);
    assert forall|i: int| 0 <= i < n implies #[trigger] s[i] != ':' by {
        assert(s[i] == first[i]);
    }
    lemma_part_len(s, n);
    assert(s.take(n) =~= first);
    assert(s.skip(n + 1) =~= second);
    lemma_part_len(second, second.len() as int);
}

proof fn lemma_two_digits(n: u64)
    requires
        n < 60,
    ensures
        info::two_digits(n as nat).len() == 2,
        forall|i: int|
            0 <= i < info::two_digits(n as nat).len() ==> '0' <= #[trigger] info::two_digits(
                n as nat,
            )[i] <= '9',
        sixtieths_spec(info::two_digits(n as nat)) == Some(n),
{
    let digits = text::decimal_spec(n as nat);
    let shown = info::two_digits(n as nat);
    text::lemma_decimal(n as nat);
    text::lemma_number_is_a_word(n as nat);
    if n < 10 {
        assert(shown =~= seq!['0'] + digits);
        assert(shown.drop_last() =~= seq!['0']);
        assert(shown.drop_last().drop_last() =~= Seq::<char>::empty());
        assert(text::digits_value(shown.drop_last().drop_last()) == 0);
        assert(text::digits_value(shown.drop_last()) == 0);
        assert(shown.last() == digits.last());
        assert(digits.drop_last() =~= Seq::<char>::empty());
        assert(text::digits_value(digits.drop_last()) == 0);
        assert(text::digits_value(shown) == n);
        assert(text::all_digits(shown)) by {
            assert forall|i: int| 0 <= i < shown.len() implies text::is_digit(#[trigger] shown[i]) by {
                if i == 1 {
                    assert(shown[1] == digits[0]);
                }
            }
        }
    } else {
        assert(n / 10 < 10);
        assert(digits == text::decimal_spec((n / 10) as nat).push(text::digit_char((n % 10) as nat)));
        assert(shown =~= digits);
    }
    assert forall|i: int| 0 <= i < shown.len() implies '0' <= #[trigger] shown[i] <= '9' by {
        assert(text::is_digit(shown[i]));
    }
}

/// The words for the ends and for going back are read in any case.
pub proof fn seek_words_are_read()
    ensures
        parse_seek_spec("start"@) == SeekCommand::Start,
        parse_seek_spec("end"@) == SeekCommand::End,
        parse_seek_spec("undo"@) == SeekCommand::Undo,
{
    reveal_strlit("undo");
    reveal_strlit("start");
    reveal_strlit("end");
    text::lemma_lower_stays("undo"@);
    text::lemma_lower_stays("start"@);
    text::lemma_lower_stays("end"@);
    assert(text::trim_spec("undo"@) == "undo"@);
    assert(text::trim_spec("start"@) == "start"@);
    assert(text::trim_spec("end"@) == "end"@);
    assert("start"@[0] != "undo"@[0]);
    assert("end"@[0] != "undo"@[0]);
    assert("end"@[0] != "start"@[0]);
}

/// Hours, minutes and seconds are typed with colons between them.
pub proof fn hours_are_read_as_typed(hours: u64, minutes: u64, seconds: u64)
    requires
        hours <= MAX_NUMBER,
        minutes < 60,
        seconds < 60,
    ensures
        parse_seek_spec(
            text::decimal_spec(hours as nat) + ":"@ + info::two_digits(minutes as nat) + ":"@
                + info::two_digits(seconds as nat),
        ) == (SeekCommand::To { seconds: (hours * 3600 + minutes * 60 + seconds) as u64 }),
{
    reveal_strlit("undo");
    reveal_strlit("start");
    reveal_strlit("end");
    reveal_strlit(":");
    let first = text::decimal_spec(hours as nat);
    let second = info::two_digits(minutes as nat);
    let third = info::two_digits(seconds as nat);
    text::lemma_decimal(hours as nat);
    text::lemma_number_is_a_word(hours as nat);
    lemma_two_digits(minutes);
    lemma_two_digits(seconds);
    let s = first + ":"@ + second + ":"@ + third;
    let rest = second + ":"@ + third;
    let n = first.len() as int;
    assert(s =~= first + ":"@ + rest);
    assert('0' <= first[0] <= '9');
    assert(s[0] == first[0]);
    assert('0' <= third[1] <= '9');
    assert(s.last() == third[1]);
    assert forall|i: int| 0 <= i < s.len() implies !('A' <= #[trigger] s[i] <= 'Z') by {
        if i < n {
            assert(s[i] == first[i]);
        } else if n < i < n + 3 {
            assert(s[i] == second[i - n - 1]);
        } else if i > n + 3 {
            assert(s[i] == third[i - n - 4]);
        }
    }
    text::lemma_lower_stays(s);
    assert(text::trim_spec(s) == s);
    assert forall|i: int| 0 <= i < n implies #[trigger] s[i] != ':' by {
        assert(s[i] == first[i]);
    }
    lemma_part_len(s, n);
    assert(s.take(n) =~= first);
    assert(s.skip(n + 1) =~= rest);
    assert forall|i: int| 0 <= i < 2 implies #[trigger] rest[i] != ':' by {
        assert(rest[i] == second[i]);
    }
    lemma_part_len(rest, 2);
    assert(rest.take(2) =~= second);
    assert(rest.skip(3) =~= third);
}

/// A time that is shown can be typed to go there, to the second.
pub proof fn shown_times_can_be_gone_to(hours: u64, minutes: u64, seconds: u64, rest_ms: nat)
    requires
        hours <= MAX_NUMBER,
        minutes < 60,
        seconds < 60,
        rest_ms < 1000,
    ensures
        parse_seek_spec(
            info::duration_spec(
                ((hours * 3600 + minutes * 60 + seconds) * 1000 + rest_ms) as nat,
            ),
        ) == (SeekCommand::To { seconds: (hours * 3600 + minutes * 60 + seconds) as u64 }),
{
    info::times_show_their_parts(hours as nat, minutes as nat, seconds as nat, rest_ms);
    if hours == 0 {
        minutes_are_read_as_typed(minutes, seconds);
    } else {
        hours_are_read_as_typed(hours, minutes, seconds);
    }
}

/// The simulated cost grows with what was heard, and is nothing at the start.
pub proof fn tokens_grow_with_what_was_heard(elapsed_ms: u64, later_ms: u64)
    requires
        elapsed_ms <= later_ms,
    ensures
        tokens_spec(elapsed_ms) <= tokens_spec(later_ms),
        tokens_spec(0) == 0,
        tokens_spec(elapsed_ms) * 100 <= elapsed_ms < tokens_spec(elapsed_ms) * 100 + 100,
{
}

/// What was heard and what is left make up the track.
pub proof fn heard_and_left_make_the_track(elapsed_ms: u64, duration_ms: u64)
    requires
        elapsed_ms <= duration_ms,
    ensures
        elapsed_ms + left_spec(elapsed_ms, duration_ms) == duration_ms,
        left_spec(duration_ms, duration_ms) == 0,
{
}

/// The simulated cost is three dollars for a million tokens.
pub proof fn cost_is_three_dollars_a_million(elapsed_ms: u64, dollars: nat, millionths: nat)
    requires
        tokens_spec(elapsed_ms) * 3 == dollars * 1_000_000 + millionths,
        millionths < 1_000_000,
    ensures
        cost_spec(elapsed_ms) == "$"@ + text::decimal_spec(dollars) + "."@ + text::pad_start_spec(
            text::decimal_spec(millionths),
            6,
            '0',
        ),
{
    let total = tokens_spec(elapsed_ms) * 3;
    assert(total / 1_000_000 == dollars && total % 1_000_000 == millionths) by (nonlinear_arith)
        requires
            total == dollars * 1_000_000 + millionths,
            millionths < 1_000_000,
    ;
}

/// The time line tells what was heard, the whole and what is left.
pub proof fn time_tells_heard_whole_and_left(elapsed_ms: u64, ms: u64)
    requires
        elapsed_ms <= ms,
    ensures
        time_spec(elapsed_ms, Some(ms)) == "time "@ + info::duration_spec(elapsed_ms as nat) + " / "@
            + info::duration_spec(ms as nat) + (", "@ + info::duration_spec(
            (ms - elapsed_ms) as nat,
        ) + " left"@),
        text::starts_with_spec(
            time_spec(elapsed_ms, None),
            "time "@ + info::duration_spec(elapsed_ms as nat),
        ),
{
    text::begins_and_ends(
        "time "@ + info::duration_spec(elapsed_ms as nat),
        " / --:--"@,
    );
}

/// Behind a colon stand one or two digits below sixty, or it is no time.
pub proof fn parts_of_times_are_below_sixty(minutes: Seq<char>, seconds: Seq<char>)
    requires
        forall|i: int| 0 <= i < minutes.len() ==> #[trigger] minutes[i] != ':',
        forall|i: int| 0 <= i < seconds.len() ==> #[trigger] seconds[i] != ':',
    ensures
        seconds_spec(minutes + ":"@ + seconds) is Some <==> {
            &&& minutes.len() > 0 && text::all_digits(minutes)
            &&& text::digits_value(minutes) <= MAX_NUMBER
            &&& 0 < seconds.len() <= 2 && text::all_digits(seconds)
            &&& text::digits_value(seconds) < 60
        },
        seconds_spec(minutes + ":"@ + seconds) matches Some(n) ==> n == text::digits_value(minutes)
            * 60 + text::digits_value(seconds),
{
    reveal_strlit(":");
    let s = minutes + ":"@ + seconds;
    assert(s[minutes.len() as int] == ':');
    assert forall|i: int| 0 <= i < minutes.len() implies #[trigger] s[i] != ':' by {
        assert(s[i] == minutes[i]);
    }
    lemma_part_len(s, minutes.len() as int);
    assert(s.take(minutes.len() as int) =~= minutes);
    assert(s.skip(minutes.len() as int + 1) =~= seconds);
    lemma_part_len(seconds, seconds.len() as int);
}

/// Where undoing leads is told as a time, and the tokens by their number.
pub proof fn undo_and_tokens_are_told(undo_ms: u64, elapsed_ms: u64)
    ensures
        undo_line_spec(Some(undo_ms)) == "seek undo "@ + info::duration_spec(undo_ms as nat),
        tokens_line_spec(elapsed_ms) == "tokens "@ + text::decimal_spec((elapsed_ms / 100) as nat)
            + ", cost "@ + cost_spec(elapsed_ms) + " (simulated, never billed)"@,
{
}

} // verus!
