//! Display widths, shortening and padding of single lines.

use crate::text;
use vstd::prelude::*;

verus! {

/// The columns that `c` takes on the terminal.
pub open spec fn char_cols(c: char) -> nat {
    if (c as u32) < 128 {
        1
    } else {
        2
    }
}

/// The columns that `s` takes on the terminal.
pub open spec fn cols(s: Seq<char>) -> nat
    decreases s.len(),
{
    if s.len() == 0 {
        0
    } else {
        cols(s.drop_last()) + char_cols(s.last())
    }
}

/// The length of the longest prefix of `s` that fits in `budget` columns.
pub open spec fn fitting_prefix(s: Seq<char>, budget: nat) -> nat
    decreases s.len(),
{
    if cols(s) <= budget || s.len() == 0 {
        s.len()
    } else {
        fitting_prefix(s.drop_last(), budget)
    }
}

/// The length of the longest suffix of `s` that fits in `budget` columns.
pub open spec fn fitting_suffix(s: Seq<char>, budget: nat) -> nat
    decreases s.len(),
{
    if cols(s) <= budget || s.len() == 0 {
        s.len()
    } else {
        fitting_suffix(s.skip(1), budget)
    }
}

/// `s` if it fits in `width` columns, else its longest fitting prefix followed by three dots.
pub open spec fn compact_spec(s: Seq<char>, width: nat) -> Seq<char> {
    if cols(s) <= width {
        s
    } else if width <= 3 {
        text::repeated('.', width)
    } else {
        s.take(fitting_prefix(s, (width - 3) as nat) as int) + text::repeated('.', 3)
    }
}

/// `s` if it fits in `width` columns, else three dots followed by its longest fitting suffix.
pub open spec fn compact_path_spec(s: Seq<char>, width: nat) -> Seq<char> {
    if cols(s) <= width {
        s
    } else if width <= 3 {
        text::repeated('.', width)
    } else {
        text::repeated('.', 3) + s.skip(s.len() - fitting_suffix(s, (width - 3) as nat))
    }
}

/// `s` followed by spaces up to `width` columns.
pub open spec fn padded_spec(s: Seq<char>, width: nat) -> Seq<char> {
    s + text::repeated(' ', if width > cols(s) { (width - cols(s)) as nat } else { 0 })
}

pub proof fn lemma_cols_concat(a: Seq<char>, b: Seq<char>)
    ensures
        cols(a + b) == cols(a) + cols(b),
    decreases b.len(),
{
    if b.len() == 0 {
        assert(a + b == a);
    } else {
        lemma_cols_concat(a, b.drop_last());
        assert((a + b).drop_last() == a + b.drop_last());
        assert((a + b).last() == b.last());
    }
}

pub proof fn lemma_cols_repeated(c: char, n: nat)
    requires
        (c as u32) < 128,
    ensures
        cols(text::repeated(c, n)) == n,
    decreases n,
{
    if n > 0 {
        lemma_cols_repeated(c, (n - 1) as nat);
        assert(text::repeated(c, n).drop_last() == text::repeated(c, (n - 1) as nat));
    }
}

/// A text of ASCII characters takes one column for each.
pub proof fn lemma_cols_ascii(s: Seq<char>)
    requires
        forall|i: int| 0 <= i < s.len() ==> (#[trigger] s[i] as u32) < 128,
    ensures
        cols(s) == s.len(),
    decreases s.len(),
{
    if s.len() > 0 {
        lemma_cols_ascii(s.drop_last());
    }
}

proof fn lemma_cols_fit_in_bytes(s: Seq<char>)
    ensures
        cols(s) <= text::utf8_len(s),
    decreases s.len(),
{
    if s.len() > 0 {
        lemma_cols_fit_in_bytes(s.drop_last());
    }
}

proof fn lemma_cols_take(s: Seq<char>, i: int, j: int)
    requires
        0 <= i <= j <= s.len(),
    ensures
        cols(s.take(i)) <= cols(s.take(j)),
        i < j ==> cols(s.take(i)) < cols(s.take(j)),
    decreases j,
{
    if i < j {
        assert(s.take(j).drop_last() == s.take(j - 1));
        lemma_cols_take(s, i, j - 1);
    }
}

pub proof fn lemma_cols_skip(s: Seq<char>, i: int)
    requires
        0 <= i <= s.len(),
    ensures
        cols(s) == cols(s.take(i)) + cols(s.skip(i)),
{
    assert(s == s.take(i) + s.skip(i));
    lemma_cols_concat(s.take(i), s.skip(i));
}

/// A prefix that fits and cannot grow by one character is the longest fitting one.
proof fn lemma_fitting_prefix_is(s: Seq<char>, budget: nat, k: int)
    requires
        0 <= k <= s.len(),
        cols(s.take(k)) <= budget,
        k < s.len() ==> cols(s.take(k + 1)) > budget,
    ensures
        fitting_prefix(s, budget) == k,
    decreases s.len(),
{
    assert(s.take(s.len() as int) == s);
    if k < s.len() {
        lemma_cols_take(s, k + 1, s.len() as int);
        let shorter = s.drop_last();
        assert(shorter.take(k) == s.take(k));
        if k < shorter.len() {
            assert(shorter.take(k + 1) == s.take(k + 1));
        }
        lemma_fitting_prefix_is(shorter, budget, k);
    }
}

/// A suffix that fits and cannot grow by one character is the longest fitting one.
proof fn lemma_fitting_suffix_is(s: Seq<char>, budget: nat, at: int)
    requires
        0 <= at <= s.len(),
        cols(s.skip(at)) <= budget,
        at > 0 ==> cols(s.skip(at - 1)) > budget,
    ensures
        fitting_suffix(s, budget) == s.len() - at,
    decreases s.len(),
{
    assert(s.skip(0) == s);
    if at > 0 {
        lemma_cols_skip(s, at - 1);
        let shorter = s.skip(1);
        assert(shorter.skip(at - 1) == s.skip(at));
        if at - 1 > 0 {
            assert(shorter.skip(at - 2) == s.skip(at - 1));
        }
        lemma_fitting_suffix_is(shorter, budget, at - 1);
    }
}

proof fn lemma_fitting_prefix_fits(s: Seq<char>, budget: nat)
    ensures
        fitting_prefix(s, budget) <= s.len(),
        cols(s.take(fitting_prefix(s, budget) as int)) <= budget,
    decreases s.len(),
{
    assert(s.take(s.len() as int) == s);
    if !(cols(s) <= budget || s.len() == 0) {
        lemma_fitting_prefix_fits(s.drop_last(), budget);
        let k = fitting_prefix(s, budget) as int;
        assert(s.drop_last().take(k) == s.take(k));
    }
}

proof fn lemma_fitting_suffix_fits(s: Seq<char>, budget: nat)
    ensures
        fitting_suffix(s, budget) <= s.len(),
        cols(s.skip(s.len() - fitting_suffix(s, budget))) <= budget,
    decreases s.len(),
{
    assert(s.skip(0) == s);
    if !(cols(s) <= budget || s.len() == 0) {
        lemma_fitting_suffix_fits(s.skip(1), budget);
        let k = fitting_suffix(s, budget) as int;
        assert(s.skip(1).skip(s.skip(1).len() - k) == s.skip(s.len() - k));
    }
}

/// A shortened line never exceeds the width it was shortened to.
pub proof fn compact_fits(s: Seq<char>, width: nat)
    ensures
        cols(compact_spec(s, width)) <= width,
{
    if cols(s) > width {
        if width <= 3 {
            lemma_cols_repeated('.', width);
        } else {
            let k = fitting_prefix(s, (width - 3) as nat) as int;
            lemma_fitting_prefix_fits(s, (width - 3) as nat);
            lemma_cols_concat(s.take(k), text::repeated('.', 3));
            lemma_cols_repeated('.', 3);
        }
    }
}

/// A shortened path never exceeds the width it was shortened to.
pub proof fn compact_path_fits(s: Seq<char>, width: nat)
    ensures
        cols(compact_path_spec(s, width)) <= width,
{
    if cols(s) > width {
        if width <= 3 {
            lemma_cols_repeated('.', width);
        } else {
            let k = fitting_suffix(s, (width - 3) as nat) as int;
            lemma_fitting_suffix_fits(s, (width - 3) as nat);
            lemma_cols_concat(text::repeated('.', 3), s.skip(s.len() - k));
            lemma_cols_repeated('.', 3);
        }
    }
}

/// Padding brings a line that fits to exactly the width, and leaves a wider one alone.
pub proof fn padding_reaches_width(s: Seq<char>, width: nat)
    ensures
        cols(s) <= width ==> cols(padded_spec(s, width)) == width,
        cols(s) > width ==> padded_spec(s, width) == s,
{
    let n = if width > cols(s) {
        (width - cols(s)) as nat
    } else {
        0
    };
    lemma_cols_concat(s, text::repeated(' ', n));
    lemma_cols_repeated(' ', n);
    assert(n == 0 ==> s + text::repeated(' ', n) == s);
}

pub fn display_char_width(character: char) -> (width: u16)
    ensures
        width == char_cols(character),
{
    if (character as u32) < 128 {
        1
    } else {
        2
    }
}

/// The columns of `value`.
pub fn display_columns(value: &str) -> (columns: usize)
    ensures
        columns == cols(value@),
{
    let chars = text::chars_of(value);
    let bytes: usize = text::byte_len(value);
    let mut columns: usize = 0;
    for i in 0..chars.len()
        invariant
            chars@ == value@,
            bytes == text::utf8_len(value@),
            columns == cols(value@.take(i as int)),
    {
        proof {
            assert(value@.take(i + 1).drop_last() == value@.take(i as int));
            lemma_cols_take(value@, i + 1, value@.len() as int);
            assert(value@.take(value@.len() as int) == value@);
            lemma_cols_fit_in_bytes(value@);
        }
        columns = columns + display_char_width(chars[i]) as usize;
    }
    assert(value@.take(chars.len() as int) == value@);
    columns
}

pub fn display_width(value: &str) -> (width: u16)
    requires
        cols(value@) <= u16::MAX,
    ensures
        width == cols(value@),
{
    display_columns(value) as u16
}

pub fn padded(value: &str, width: u16) -> (r: String)
    ensures
        r@ == padded_spec(value@, width as nat),
{
    padded_to(value, width as usize)
}

/// Pads to any width.
pub fn padded_to(value: &str, width: usize) -> (r: String)
    ensures
        r@ == padded_spec(value@, width as nat),
{
    let value_width: usize = display_columns(value);
    let count: usize = if width > value_width {
        width - value_width
    } else {
        0
    };
    let padding = text::repeat_char(' ', count);
    text::text2(value, &padding)
}

pub fn compact(value: &str, width: usize) -> (r: String)
    ensures
        r@ == compact_spec(value@, width as nat),
{
    if display_columns(value) <= width {
        return value.to_owned();
    }
    if width <= 3 {
        return text::repeat_char('.', width);
    }
    let budget: usize = width - 3;
    let chars = text::chars_of(value);
    let mut used: usize = 0;
    let mut kept: usize = 0;
    assert(value@.take(0) == Seq::<char>::empty());
    while kept < chars.len() && used + display_char_width(chars[kept]) as usize <= budget
        invariant
            chars@ == value@,
            budget == width - 3,
            kept <= chars.len(),
            used == cols(value@.take(kept as int)),
            used <= budget,
        decreases chars.len() - kept,
    {
        assert(value@.take(kept + 1).drop_last() == value@.take(kept as int));
        used = used + display_char_width(chars[kept]) as usize;
        kept = kept + 1;
    }
    proof {
        if kept < chars.len() {
            assert(value@.take(kept + 1).drop_last() == value@.take(kept as int));
        }
        lemma_fitting_prefix_is(value@, budget as nat, kept as int);
        assert(value@.subrange(0, kept as int) == value@.take(kept as int));
    }
    let dots = text::repeat_char('.', 3);
    text::text2(value.substring_char(0, kept), &dots)
}

pub fn compact_path(value: &str, width: usize) -> (r: String)
    ensures
        r@ == compact_path_spec(value@, width as nat),
{
    if display_columns(value) <= width {
        return value.to_owned();
    }
    if width <= 3 {
        return text::repeat_char('.', width);
    }
    let budget: usize = width - 3;
    let chars = text::chars_of(value);
    let mut used: usize = 0;
    let mut start: usize = chars.len();
    assert(value@.skip(start as int) == Seq::<char>::empty());
    while start > 0 && used + display_char_width(chars[start - 1]) as usize <= budget
        invariant
            chars@ == value@,
            budget == width - 3,
            start <= chars.len(),
            used == cols(value@.skip(start as int)),
            used <= budget,
        decreases start,
    {
        proof {
            lemma_cols_grow_left(value@, start as int);
        }
        used = used + display_char_width(chars[start - 1]) as usize;
        start = start - 1;
    }
    proof {
        if start > 0 {
            lemma_cols_grow_left(value@, start as int);
        }
        lemma_fitting_suffix_is(value@, budget as nat, start as int);
        assert(value@.subrange(start as int, value@.len() as int) == value@.skip(start as int));
    }
    let dots = text::repeat_char('.', 3);
    text::text2(&dots, value.substring_char(start, chars.len()))
}

proof fn lemma_cols_grow_left(s: Seq<char>, at: int)
    requires
        0 < at <= s.len(),
    ensures
        cols(s.skip(at - 1)) == char_cols(s[at - 1]) + cols(s.skip(at)),
{
    let c = seq![s[at - 1]];
    assert(s.skip(at - 1) == c + s.skip(at));
    lemma_cols_concat(c, s.skip(at));
    assert(c.drop_last() == Seq::<char>::empty());
    assert(cols(Seq::<char>::empty()) == 0);
}

pub fn fit_line_to_width(value: &str, width: usize) -> (r: String)
    ensures
        r@ == compact_spec(value@, width as nat),
{
    if display_columns(value) <= width {
        value.to_owned()
    } else {
        compact(value, width)
    }
}

/// A text that fits is left alone; of a longer one the beginning stays, as much as fits before three
/// dots.
pub proof fn shortening_keeps_the_beginning(s: Seq<char>, width: nat)
    ensures
        cols(s) <= width ==> compact_spec(s, width) == s,
        cols(s) > width && width > 3 ==> exists|n: int|
            0 <= n < s.len() && #[trigger] compact_spec(s, width) == #[trigger] s.take(n)
                + text::repeated('.', 3) && cols(s.take(n)) <= width - 3 < cols(s.take(n + 1)),
{
    if cols(s) > width && width > 3 {
        let n = fitting_prefix(s, (width - 3) as nat) as int;
        lemma_fitting_prefix_fits(s, (width - 3) as nat);
        lemma_fitting_prefix_is_longest(s, (width - 3) as nat);
        if n == s.len() {
            assert(s.take(n) =~= s);
        }
        assert(compact_spec(s, width) == s.take(n) + text::repeated('.', 3));
    }
}

proof fn lemma_fitting_prefix_is_longest(s: Seq<char>, budget: nat)
    ensures
        fitting_prefix(s, budget) < s.len() ==> cols(s.take(fitting_prefix(s, budget) as int + 1))
            > budget,
    decreases s.len(),
{
    if !(cols(s) <= budget || s.len() == 0) {
        let shorter = s.drop_last();
        lemma_fitting_prefix_is_longest(shorter, budget);
        lemma_fitting_prefix_fits(shorter, budget);
        let n = fitting_prefix(shorter, budget) as int;
        if n < shorter.len() {
            assert(shorter.take(n + 1) =~= s.take(n + 1));
        } else {
            assert(s.take(n + 1) =~= s);
        }
    }
}

/// A path that fits is left alone; of a longer one the end stays, behind three dots.
pub proof fn shortening_a_path_keeps_the_end(s: Seq<char>, width: nat)
    ensures
        cols(s) <= width ==> compact_path_spec(s, width) == s,
        cols(s) > width && width > 3 ==> exists|n: int|
            0 <= n <= s.len() && #[trigger] compact_path_spec(s, width) == text::repeated('.', 3)
                + #[trigger] s.skip(n),
{
    if cols(s) > width && width > 3 {
        lemma_fitting_suffix_fits(s, (width - 3) as nat);
        let n = s.len() - fitting_suffix(s, (width - 3) as nat);
        assert(compact_path_spec(s, width) == text::repeated('.', 3) + s.skip(n));
    }
}

/// Padding puts spaces behind the text and nothing else.
pub proof fn padding_only_adds_spaces(s: Seq<char>, width: nat)
    ensures
        text::starts_with_spec(padded_spec(s, width), s),
        forall|i: int|
            s.len() <= i < padded_spec(s, width).len() ==> #[trigger] padded_spec(s, width)[i]
                == ' ',
{
    assert(padded_spec(s, width).take(s.len() as int) =~= s);
}

/// Characters beyond ASCII take two columns, the others one.
pub proof fn wide_characters_take_two_columns(s: Seq<char>, c: char)
    ensures
        c as u32 <= 127 ==> cols(s.push(c)) == cols(s) + 1,
        c as u32 > 127 ==> cols(s.push(c)) == cols(s) + 2,
        cols(Seq::empty()) == 0,
{
    assert(s.push(c).drop_last() =~= s);
}

proof fn lemma_fitting_suffix_is_longest(s: Seq<char>, budget: nat)
    ensures
        fitting_suffix(s, budget) < s.len() ==> cols(
            s.skip(s.len() - fitting_suffix(s, budget) - 1),
        ) > budget,
    decreases s.len(),
{
    if cols(s) <= budget || s.len() == 0 {
    } else {
        let rest = s.skip(1);
        lemma_fitting_suffix_is_longest(rest, budget);
        lemma_fitting_suffix_fits(rest, budget);
        let n = fitting_suffix(rest, budget);
        if n < rest.len() {
            assert(rest.skip(rest.len() - n - 1) =~= s.skip(s.len() - n - 1));
        } else {
            assert(s.skip(s.len() - n - 1) =~= s);
        }
    }
}

/// What is kept of the end of a path is as much as has room behind the dots.
pub proof fn shortened_paths_keep_all_that_fits(s: Seq<char>, width: nat) -> (n: int)
    requires
        cols(s) > width > 3,
    ensures
        0 < n <= s.len(),
        compact_path_spec(s, width) == text::repeated('.', 3) + s.skip(n),
        cols(s.skip(n)) <= width - 3 < cols(s.skip(n - 1)),
{
    let budget = (width - 3) as nat;
    lemma_fitting_suffix_fits(s, budget);
    lemma_fitting_suffix_is_longest(s, budget);
    let kept = fitting_suffix(s, budget);
    if kept == s.len() {
        assert(s.skip(0) =~= s);
    }
    s.len() - kept
}

} // verus!
