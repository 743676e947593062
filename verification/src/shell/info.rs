//! The details of a track.

use crate::library;
use crate::library::Track;
use crate::text;
use vstd::prelude::*;

verus! {

/// Two digits.
pub open spec fn two_digits(n: nat) -> Seq<char> {
    text::pad_start_spec(text::decimal_spec(n), 2, '0')
}

pub fn two_digit_text(n: u64) -> (r: String)
    ensures
        r@ == two_digits(n as nat),
{
    let digits = text::decimal(n as u128);
    text::pad_start(&digits, 2, '0')
}

/// Hours where there are any, minutes and seconds.
pub open spec fn duration_spec(duration_ms: nat) -> Seq<char> {
    let total = duration_ms / 1000;
    let hours = total / 3600;
    let minutes = (total % 3600) / 60;
    let seconds = total % 60;
    if hours > 0 {
        text::decimal_spec(hours) + ":"@ + two_digits(minutes) + ":"@ + two_digits(seconds)
    } else {
        text::decimal_spec(minutes) + ":"@ + two_digits(seconds)
    }
}

pub fn format_duration(duration_ms: u64) -> (r: String)
    ensures
        r@ == duration_spec(duration_ms as nat),
{
    let total_seconds = duration_ms / 1000;
    let hours = total_seconds / 3600;
    let minutes = (total_seconds % 3600) / 60;
    let seconds = two_digit_text(total_seconds % 60);
    if hours > 0 {
        let hours = text::decimal(hours as u128);
        let minutes = two_digit_text(minutes);
        text::text5(&hours, ":", &minutes, ":", &seconds)
    } else {
        let minutes = text::decimal(minutes as u128);
        text::text3(&minutes, ":", &seconds)
    }
}

pub open spec fn track_number_spec(disc: Option<u32>, track: Option<u32>) -> Seq<char> {
    match (disc, track) {
        (Some(disc), Some(track)) => text::decimal_spec(disc as nat) + "."@ + text::decimal_spec(
            track as nat,
        ),
        (Some(disc), None) => "disc "@ + text::decimal_spec(disc as nat),
        (None, Some(track)) => text::decimal_spec(track as nat),
        (None, None) => "unknown"@,
    }
}

pub fn format_track_number(disc_number: Option<u32>, track_number: Option<u32>) -> (r: String)
    ensures
        r@ == track_number_spec(disc_number, track_number),
{
    match (disc_number, track_number) {
        (Some(disc), Some(track)) => {
            let disc = text::decimal(disc as u128);
            let track = text::decimal(track as u128);
            text::text3(&disc, ".", &track)
        },
        (Some(disc), None) => {
            let disc = text::decimal(disc as u128);
            text::text2("disc ", &disc)
        },
        (None, Some(track)) => text::decimal(track as u128),
        (None, None) => "unknown".to_owned(),
    }
}

/// A number with its unit.
pub open spec fn measure_spec(value: Option<u32>, unit: Seq<char>, unknown: Seq<char>) -> Seq<char> {
    match value {
        Some(value) => text::decimal_spec(value as nat) + unit,
        None => unknown,
    }
}

fn measure(value: Option<u32>, unit: &str, unknown: &str) -> (r: String)
    ensures
        r@ == measure_spec(value, unit@, unknown@),
{
    match value {
        Some(value) => {
            let number = text::decimal(value as u128);
            text::text2(&number, unit)
        },
        None => unknown.to_owned(),
    }
}

pub open spec fn technical_spec(track: Track) -> Seq<char> {
    measure_spec(track.sample_rate, " Hz"@, "unknown Hz"@) + " / "@ + measure_spec(
        track.channel_count,
        "ch"@,
        "unknown ch"@,
    ) + " / "@ + measure_spec(track.bit_depth, "-bit"@, "unknown bit"@)
}

pub fn format_track_technical_summary(track: &Track) -> (r: String)
    ensures
        r@ == technical_spec(*track),
{
    let sample_rate = measure(track.sample_rate, " Hz", "unknown Hz");
    let channels = measure(track.channel_count, "ch", "unknown ch");
    let bit_depth = measure(track.bit_depth, "-bit", "unknown bit");
    text::text5(&sample_rate, " / ", &channels, " / ", &bit_depth)
}

// ---------------------------------------------------------------- sizes

pub const KIB: u64 = 1024;

pub const MIB: u64 = 1_048_576;

pub const GIB: u64 = 1_073_741_824;

/// The first size that a double cannot hold exactly any more is above this one.
pub const EXACT_LIMIT: u64 = 9_007_199_254_740_992;

/// `n / unit` rounded to the nearest integer, and to the even one where two are equally near.
pub open spec fn nearest_even(n: nat, unit: nat) -> nat {
    let below = n / unit;
    let rest = n % unit;
    if 2 * rest > unit || (2 * rest == unit && below % 2 == 1) {
        below + 1
    } else {
        below
    }
}

/// The distance of two neighbouring doubles at `n`, for integers.
pub open spec fn double_step(n: nat) -> nat
    decreases n,
{
    if n < EXACT_LIMIT {
        1
    } else {
        2 * double_step(n / 2)
    }
}

/// `n` as a double holds it.
pub open spec fn as_double(n: nat) -> nat {
    nearest_even(n, double_step(n)) * double_step(n)
}

/// A size in `unit`, with one decimal.
pub open spec fn tenths_spec(size: nat, unit: nat) -> Seq<char> {
    let tenths = nearest_even(size * 10, unit);
    text::decimal_spec(tenths / 10) + "."@ + text::decimal_spec(tenths % 10)
}

pub open spec fn size_spec(size_bytes: nat) -> Seq<char> {
    let size = as_double(size_bytes);
    if size >= GIB {
        tenths_spec(size, GIB as nat) + " GiB"@
    } else if size >= MIB {
        tenths_spec(size, MIB as nat) + " MiB"@
    } else if size >= KIB {
        tenths_spec(size, KIB as nat) + " KiB"@
    } else {
        text::decimal_spec(size_bytes) + " B"@
    }
}

fn round_to_even(n: u128, unit: u128) -> (r: u128)
    requires
        0 < unit <= 0x1_0000_0000_0000_0000,
        n < 0x1000_0000_0000_0000_0000_0000,
    ensures
        r == nearest_even(n as nat, unit as nat),
        r <= n / unit + 1,
{
    let below = n / unit;
    let rest = n % unit;
    if 2 * rest > unit || (2 * rest == unit && below % 2 == 1) {
        proof {
            vstd::arithmetic::div_mod::lemma_div_is_ordered_by_denominator(
                n as int,
                1,
                unit as int,
            );
            assert(n as int / 1 == n);
        }
        below + 1
    } else {
        below
    }
}

fn rounded_to_double(n: u64) -> (r: u128)
    ensures
        r == as_double(n as nat),
        r <= 0x2_0000_0000_0000_0000,
{
    let mut step: u128 = 1;
    let mut rest: u64 = n;
    while rest >= EXACT_LIMIT
        invariant
            0 < step,
            step == 1 || rest >= 1,
            step * rest <= n,
            double_step(n as nat) == step * double_step(rest as nat),
        decreases rest,
    {
        assert(2 * (rest as int / 2) <= rest);
        assert((step * 2) * (rest as int / 2) <= step * rest) by (nonlinear_arith)
            requires
                2 * (rest as int / 2) <= rest,
                0 < step,
        ;
        assert(step * double_step(rest as nat) == (step * 2) * double_step((rest / 2) as nat))
            by (nonlinear_arith)
            requires
                double_step(rest as nat) == 2 * double_step((rest / 2) as nat),
        ;
        assert(step <= n) by (nonlinear_arith)
            requires
                step * rest <= n,
                rest >= 1,
                step > 0,
        ;
        step = step * 2;
        rest = rest / 2;
    }
    assert(step <= n + 1) by (nonlinear_arith)
        requires
            step == 1 || rest >= 1,
            step * rest <= n,
            step > 0,
    ;
    assert(double_step(rest as nat) == 1);
    assert(step * 1 == step);
    let units = round_to_even(n as u128, step);
    proof {
        vstd::arithmetic::div_mod::lemma_fundamental_div_mod(n as int, step as int);
        assert(units * step <= n + step) by (nonlinear_arith)
            requires
                units <= n as int / step as int + 1,
                n == step * (n as int / step as int) + n as int % step as int,
                0 <= n as int % step as int,
                step > 0,
        ;
    }
    units * step
}

fn tenths_text(size: u128, unit: u64) -> (r: String)
    requires
        unit > 0,
        size <= 0x2_0000_0000_0000_0000,
    ensures
        r@ == tenths_spec(size as nat, unit as nat),
{
    let tenths = round_to_even(size * 10, unit as u128);
    let whole = text::decimal(tenths / 10);
    let rest = text::decimal(tenths % 10);
    text::text3(&whole, ".", &rest)
}

pub fn format_size(size_bytes: u64) -> (r: String)
    ensures
        r@ == size_spec(size_bytes as nat),
{
    let size = rounded_to_double(size_bytes);
    if size >= GIB as u128 {
        let number = tenths_text(size, GIB);
        text::text2(&number, " GiB")
    } else if size >= MIB as u128 {
        let number = tenths_text(size, MIB);
        text::text2(&number, " MiB")
    } else if size >= KIB as u128 {
        let number = tenths_text(size, KIB);
        text::text2(&number, " KiB")
    } else {
        let number = text::decimal(size_bytes as u128);
        text::text2(&number, " B")
    }
}

// ---------------------------------------------------------------- the whole

/// A path without the mark of a verbatim path.
pub open spec fn select_path_spec(path: Seq<char>) -> Seq<char> {
    match text::strip_prefix_spec(path, "\\\\?\\"@) {
        Some(rest) => rest,
        None => path,
    }
}

pub fn explorer_select_path(path: &str) -> (r: String)
    ensures
        r@ == select_path_spec(path@),
{
    match text::strip_prefix(path, "\\\\?\\") {
        Some(rest) => rest.to_owned(),
        None => path.to_owned(),
    }
}

pub open spec fn track_info_spec(label: Seq<char>, track: Track) -> Seq<Seq<char>> {
    let head = seq![
        label + ":"@,
        "  title    "@ + track.title@,
        "  artist   "@ + library::text_or(track.artist, "unknown artist"@),
        "  album    "@ + library::text_or(track.album, "unknown album"@),
    ];
    let album_artist = match track.album_artist {
        Some(album_artist) => seq!["  album by "@ + album_artist@],
        None => Seq::empty(),
    };
    let number = if track.track_number is Some || track.disc_number is Some {
        seq!["  number   "@ + track_number_spec(track.disc_number, track.track_number)]
    } else {
        Seq::empty()
    };
    let tail = seq![
        "  length   "@ + match track.duration_ms {
            Some(duration) => duration_spec(duration as nat),
            None => "unknown"@,
        },
        "  format   "@ + technical_spec(track),
        "  size     "@ + size_spec(track.size_bytes as nat),
        "  path     "@ + select_path_spec(track.path@),
    ];
    head + album_artist + number + tail
}

pub fn track_info_lines(label: &str, track: &Track) -> (r: Vec<String>)
    ensures
        text::texts(r@) == track_info_spec(label@, *track),
{
    let ghost expected = track_info_spec(label@, *track);
    let mut lines = vec![
        text::text2(label, ":"),
        text::text2("  title    ", track.title.as_str()),
        text::text2("  artist   ", library::text_or_default(&track.artist, "unknown artist")),
        text::text2("  album    ", library::text_or_default(&track.album, "unknown album")),
    ];
    if let Some(album_artist) = &track.album_artist {
        lines.push(text::text2("  album by ", album_artist.as_str()));
    }
    if track.track_number.is_some() || track.disc_number.is_some() {
        let number = format_track_number(track.disc_number, track.track_number);
        lines.push(text::text2("  number   ", &number));
    }
    let length = match track.duration_ms {
        Some(duration) => format_duration(duration),
        None => "unknown".to_owned(),
    };
    lines.push(text::text2("  length   ", &length));
    let format = format_track_technical_summary(track);
    lines.push(text::text2("  format   ", &format));
    let size = format_size(track.size_bytes);
    lines.push(text::text2("  size     ", &size));
    let path = explorer_select_path(track.path.as_str());
    lines.push(text::text2("  path     ", &path));
    assert(text::texts(lines@) =~= expected);
    lines
}

/// So many hours, minutes and seconds are shown as such: minutes and seconds with two digits behind
/// something larger, hours only where there are any, and what is left of a second not at all.
pub proof fn times_show_their_parts(hours: nat, minutes: nat, seconds: nat, rest_ms: nat)
    requires
        minutes < 60,
        seconds < 60,
        rest_ms < 1000,
    ensures
        ({
            let shown = duration_spec(
                (hours * 3600 + minutes * 60 + seconds) * 1000 + rest_ms,
            );
            &&& hours == 0 ==> shown == text::decimal_spec(minutes) + ":"@ + two_digits(seconds)
            &&& hours > 0 ==> shown == text::decimal_spec(hours) + ":"@ + two_digits(minutes) + ":"@
                + two_digits(seconds)
        }),
{
    let total = hours * 3600 + minutes * 60 + seconds;
    let ms = total * 1000 + rest_ms;
    assert(ms / 1000 == total);
    assert(total / 3600 == hours);
    assert(total % 3600 == minutes * 60 + seconds);
    assert((minutes * 60 + seconds) / 60 == minutes);
    assert(total == (hours * 60 + minutes) * 60 + seconds);
    assert(total % 60 == seconds);
}

/// Rounding goes to the nearer multiple, and to the even one where both are as near.
pub proof fn rounding_is_to_the_nearest(n: nat, unit: nat)
    requires
        unit > 0,
    ensures
        2 * n <= 2 * (nearest_even(n, unit) * unit) + unit,
        2 * (nearest_even(n, unit) * unit) <= 2 * n + unit,
{
    vstd::arithmetic::div_mod::lemma_fundamental_div_mod(n as int, unit as int);
    let below = n / unit;
    let rest = n % unit;
    assert((below + 1) * unit == below * unit + unit) by (nonlinear_arith);
    assert(below * unit == unit * below) by (nonlinear_arith);
}

/// Sizes below a kibibyte are counted in bytes, and larger ones in the largest unit that they reach.
pub proof fn sizes_are_told_in_their_unit(size: u64)
    requires
        size < EXACT_LIMIT,
    ensures
        size < 1024 ==> size_spec(size as nat) == text::decimal_spec(size as nat) + " B"@,
        1024 <= size < 1_048_576 ==> size_spec(size as nat) == tenths_spec(size as nat, 1024)
            + " KiB"@,
        1_048_576 <= size < 1_073_741_824 ==> size_spec(size as nat) == tenths_spec(
            size as nat,
            1_048_576,
        ) + " MiB"@,
        1_073_741_824 <= size ==> size_spec(size as nat) == tenths_spec(size as nat, 1_073_741_824)
            + " GiB"@,
{
    assert(double_step(size as nat) == 1);
    assert(size as nat / 1 == size && size as nat % 1 == 0);
    assert(as_double(size as nat) == size);
}

/// The details of a track stand behind their own names: title, artist, album, length, format, size
/// and path.
pub proof fn details_stand_behind_their_names(label: Seq<char>, track: Track)
    ensures
        ({
            let lines = track_info_spec(label, track);
            let n = lines.len();
            &&& n == 8 + (if track.album_artist is Some {
                1int
            } else {
                0int
            }) + (if track.track_number is Some || track.disc_number is Some {
                1int
            } else {
                0int
            })
            &&& lines[0] == label + ":"@
            &&& lines[1] == "  title    "@ + track.title@
            &&& track.artist matches Some(artist) ==> lines[2] == "  artist   "@ + artist@
            &&& track.artist is None ==> lines[2] == "  artist   "@ + "unknown artist"@
            &&& track.album matches Some(album) ==> lines[3] == "  album    "@ + album@
            &&& track.album is None ==> lines[3] == "  album    "@ + "unknown album"@
            &&& track.album_artist matches Some(artist) ==> lines[4] == "  album by "@ + artist@
            &&& track.duration_ms matches Some(ms) ==> lines[n - 4] == "  length   "@
                + duration_spec(ms as nat)
            &&& track.duration_ms is None ==> lines[n - 4] == "  length   "@ + "unknown"@
            &&& lines[n - 2] == "  size     "@ + size_spec(track.size_bytes as nat)
            &&& text::ends_with_spec(track.path@, select_path_spec(track.path@))
            &&& lines[n - 1] == "  path     "@ + select_path_spec(track.path@)
        }),
{
    let path = track.path@;
    let shown = select_path_spec(path);
    reveal_strlit("\\\\?\\");
    assert(path.skip(0) =~= path);
    if text::starts_with_spec(path, "\\\\?\\"@) {
        assert(path.skip(path.len() - shown.len()) =~= shown);
    }
}

/// Disc and track are told together, and the format by rate, channels and depth, in this order.
pub proof fn numbers_and_formats_are_told(track: Track, disc: u32, number: u32)
    ensures
        track_number_spec(Some(disc), Some(number)) == text::decimal_spec(disc as nat) + "."@
            + text::decimal_spec(number as nat),
        track_number_spec(None, Some(number)) == text::decimal_spec(number as nat),
        text::ends_with_spec(
            track_number_spec(Some(disc), None),
            text::decimal_spec(disc as nat),
        ),
        track.sample_rate matches Some(rate) ==> text::starts_with_spec(
            technical_spec(track),
            text::decimal_spec(rate as nat) + " Hz / "@,
        ),
        track.bit_depth matches Some(bits) ==> text::ends_with_spec(
            technical_spec(track),
            " / "@ + text::decimal_spec(bits as nat) + "-bit"@,
        ),
        track.channel_count matches Some(channels) ==> text::contains_spec(
            technical_spec(track),
            " / "@ + text::decimal_spec(channels as nat) + "ch / "@,
        ),
        ({
            let lines = track_info_spec("info"@, track);
            lines[lines.len() - 3] == "  format   "@ + technical_spec(track)
        }),
{
    text::begins_and_ends("disc "@, text::decimal_spec(disc as nat));
    let a = measure_spec(track.sample_rate, " Hz"@, "unknown Hz"@);
    let b = measure_spec(track.channel_count, "ch"@, "unknown ch"@);
    let c = measure_spec(track.bit_depth, "-bit"@, "unknown bit"@);
    lemma_three_parts(a, b, c);
    if let Some(rate) = track.sample_rate {
        assert(" Hz / "@ == " Hz"@ + " / "@) by {
            reveal_strlit(" Hz / ");
            reveal_strlit(" Hz");
            reveal_strlit(" / ");
            assert(" Hz / "@ =~= " Hz"@ + " / "@);
        }
        text::lemma_regroup(text::decimal_spec(rate as nat), " Hz"@, " / "@);
    }
    if let Some(bits) = track.bit_depth {
        text::lemma_regroup(" / "@, text::decimal_spec(bits as nat), "-bit"@);
    }
    if let Some(channels) = track.channel_count {
        assert("ch / "@ == "ch"@ + " / "@) by {
            reveal_strlit("ch / ");
            reveal_strlit("ch");
            reveal_strlit(" / ");
            assert("ch / "@ =~= "ch"@ + " / "@);
        }
        let number = text::decimal_spec(channels as nat);
        text::lemma_regroup(" / "@, number, "ch"@);
        text::lemma_regroup(" / "@ + number, "ch"@, " / "@);
    }
}

proof fn lemma_three_parts(a: Seq<char>, b: Seq<char>, c: Seq<char>)
    ensures
        ({
            let whole = a + " / "@ + b + " / "@ + c;
            &&& text::starts_with_spec(whole, a + " / "@)
            &&& text::contains_spec(whole, " / "@ + b + " / "@)
            &&& text::ends_with_spec(whole, " / "@ + c)
        }),
{
    let whole = a + " / "@ + b + " / "@ + c;
    assert(whole.take((a + " / "@).len() as int) =~= a + " / "@);
    let part = " / "@ + b + " / "@;
    assert(whole.subrange(a.len() as int, a.len() as int + part.len()) =~= part);
    assert(text::occurs_at(whole, part, a.len() as int));
    text::lemma_regroup(a + " / "@ + b, " / "@, c);
    text::begins_and_ends(a + " / "@ + b, " / "@ + c);
}

/// A number right between two units goes to the even one.
pub proof fn ties_go_to_the_even_number(below: nat, half: nat)
    requires
        half > 0,
    ensures
        nearest_even(below * (2 * half) + half, 2 * half) % 2 == 0,
{
    let n = below * (2 * half) + half;
    assert(n / (2 * half) == below && n % (2 * half) == half) by (nonlinear_arith)
        requires
            n == below * (2 * half) + half,
            half > 0,
    ;
}

/// Sizes are counted in double precision: exactly up to its limit, and above it in steps, of which
/// they take the nearest.
pub proof fn large_sizes_are_counted_in_steps(n: nat)
    ensures
        n < EXACT_LIMIT ==> as_double(n) == n,
        n >= EXACT_LIMIT ==> as_double(n) % 2 == 0,
        2 * n <= 2 * as_double(n) + double_step(n),
        2 * as_double(n) <= 2 * n + double_step(n),
        EXACT_LIMIT <= n < 2 * EXACT_LIMIT ==> double_step(n) == 2,
        2 * EXACT_LIMIT <= n < 4 * EXACT_LIMIT ==> double_step(n) == 4,
{
    lemma_step_is_positive(n);
    rounding_is_to_the_nearest(n, double_step(n));
    if n < EXACT_LIMIT {
        assert(nearest_even(n, 1) == n);
    } else {
        let half = double_step(n / 2);
        let k = nearest_even(n, double_step(n));
        assert(k * (2 * half) == 2 * (k * half)) by (nonlinear_arith);
        reveal_with_fuel(double_step, 3);
    }
}

proof fn lemma_step_is_positive(n: nat)
    ensures
        double_step(n) > 0,
    decreases n,
{
    if n >= EXACT_LIMIT {
        lemma_step_is_positive(n / 2);
    }
}

/// The mark of long paths is taken off, and nothing else.
pub proof fn marks_of_long_paths_are_taken_off(path: Seq<char>)
    ensures
        select_path_spec("\\\\?\\"@ + path) == path,
        !text::starts_with_spec(path, "\\\\?\\"@) ==> select_path_spec(path) == path,
{
    let mark = "\\\\?\\"@;
    assert((mark + path).take(mark.len() as int) =~= mark);
    assert((mark + path).skip(mark.len() as int) =~= path);
}

} // verus!
