//! Text primitives. A string is modelled by its sequence of characters.

use vstd::prelude::*;

verus! {

broadcast use vstd::string::group_string_axioms;

/// `String::push` appends the character at the end.
pub assume_specification[ String::push ](target: &mut String, ch: char)
    ensures
        final(target)@ == old(target)@.push(ch),
;

/// `s` in lower case, by the Unicode rules.
pub uninterp spec fn lowercase(s: Seq<char>) -> Seq<char>;

/// `str::to_lowercase` of std: a function of the text alone. Of a text of ASCII characters it is
/// the one that replaces `A` to `Z`.
#[verifier::external_body]
pub(crate) fn to_lowercase(text: &str) -> (r: String)
    ensures
        r@ == lowercase(text@),
        (forall|i: int| 0 <= i < text@.len() ==> (#[trigger] text@[i] as u32) < 128) ==> r@
            == ascii_lower_spec(text@),
{
    text.to_lowercase()
}

/// The characters of each line.
pub open spec fn texts(lines: Seq<String>) -> Seq<Seq<char>> {
    Seq::new(lines.len(), |i: int| lines[i]@)
}

/// The characters of each literal.
pub open spec fn literals(lines: Seq<&str>) -> Seq<Seq<char>> {
    Seq::new(lines.len(), |i: int| lines[i]@)
}

/// `character` repeated `count` times.
pub open spec fn repeated(character: char, count: nat) -> Seq<char> {
    Seq::new(count, |i: int| character)
}

/// The Unicode `White_Space` property.
pub open spec fn white_space(c: char) -> bool {
    let n = c as u32;
    ||| 0x09 <= n <= 0x0d
    ||| n == 0x20
    ||| n == 0x85
    ||| n == 0xa0
    ||| n == 0x1680
    ||| 0x2000 <= n <= 0x200a
    ||| n == 0x2028
    ||| n == 0x2029
    ||| n == 0x202f
    ||| n == 0x205f
    ||| n == 0x3000
}

/// `s` without its leading white space.
pub open spec fn trim_start_spec(s: Seq<char>) -> Seq<char>
    decreases s.len(),
{
    if s.len() > 0 && white_space(s[0]) {
        trim_start_spec(s.skip(1))
    } else {
        s
    }
}

/// `s` without its trailing white space.
pub open spec fn trim_end_spec(s: Seq<char>) -> Seq<char>
    decreases s.len(),
{
    if s.len() > 0 && white_space(s.last()) {
        trim_end_spec(s.drop_last())
    } else {
        s
    }
}

/// `s` without white space at either end.
pub open spec fn trim_spec(s: Seq<char>) -> Seq<char> {
    trim_end_spec(trim_start_spec(s))
}

/// `s` without its leading characters that occur in `set`.
pub open spec fn strip_leading_spec(s: Seq<char>, set: Seq<char>) -> Seq<char>
    decreases s.len(),
{
    if s.len() > 0 && set.contains(s[0]) {
        strip_leading_spec(s.skip(1), set)
    } else {
        s
    }
}

/// The number of characters before the first white space.
pub open spec fn word_len(s: Seq<char>) -> nat
    decreases s.len(),
{
    if s.len() > 0 && !white_space(s[0]) {
        1 + word_len(s.skip(1))
    } else {
        0
    }
}

/// The first run of characters without white space; empty if there is none.
pub open spec fn first_word_spec(s: Seq<char>) -> Seq<char> {
    trim_start_spec(s).take(word_len(trim_start_spec(s)) as int)
}

/// What follows the first word.
pub open spec fn after_word_spec(s: Seq<char>) -> Seq<char> {
    trim_start_spec(s).skip(word_len(trim_start_spec(s)) as int)
}

/// The number of characters before the first line feed.
pub open spec fn line_len(s: Seq<char>) -> nat
    decreases s.len(),
{
    if s.len() > 0 && s[0] != '\n' {
        1 + line_len(s.skip(1))
    } else {
        0
    }
}

/// A line that was ended by a line feed, without the carriage return before it.
pub open spec fn without_return(line: Seq<char>) -> Seq<char> {
    if line.len() > 0 && line.last() == '\r' {
        line.drop_last()
    } else {
        line
    }
}

/// The lines of `s`, each ended by a line feed but for the last, which may be.
pub open spec fn lines_spec(s: Seq<char>) -> Seq<Seq<char>>
    decreases s.len(),
{
    if s.len() == 0 {
        Seq::empty()
    } else if line_len(s) >= s.len() {
        seq![s]
    } else {
        seq![without_return(s.take(line_len(s) as int))] + lines_spec(
            s.skip((line_len(s) + 1) as int),
        )
    }
}

pub open spec fn starts_with_spec(s: Seq<char>, prefix: Seq<char>) -> bool {
    prefix.len() <= s.len() && s.take(prefix.len() as int) == prefix
}

pub open spec fn ends_with_spec(s: Seq<char>, suffix: Seq<char>) -> bool {
    suffix.len() <= s.len() && s.skip(s.len() - suffix.len()) == suffix
}

/// `needle` stands in `s` at position `at`.
pub open spec fn occurs_at(s: Seq<char>, needle: Seq<char>, at: int) -> bool {
    0 <= at && at + needle.len() <= s.len() && s.subrange(at, at + needle.len()) == needle
}

pub open spec fn contains_spec(s: Seq<char>, needle: Seq<char>) -> bool {
    exists|at: int| occurs_at(s, needle, at)
}

/// What follows `prefix`, where `s` starts with it.
pub open spec fn strip_prefix_spec(s: Seq<char>, prefix: Seq<char>) -> Option<Seq<char>> {
    if starts_with_spec(s, prefix) {
        Some(s.skip(prefix.len() as int))
    } else {
        None
    }
}

pub open spec fn ascii_lower_char(c: char) -> char {
    if 'A' <= c <= 'Z' {
        ((c as u32 + 32) as u32) as char
    } else {
        c
    }
}

/// `s` with `A` to `Z` replaced by `a` to `z`.
pub open spec fn ascii_lower_spec(s: Seq<char>) -> Seq<char> {
    Seq::new(s.len(), |i: int| ascii_lower_char(s[i]))
}

pub open spec fn digit_char(d: nat) -> char {
    (('0' as u32 + d) as u32) as char
}

/// The decimal digits of `n`, without leading zeros.
pub open spec fn decimal_spec(n: nat) -> Seq<char>
    decreases n,
{
    if n < 10 {
        seq![digit_char(n)]
    } else {
        decimal_spec(n / 10).push(digit_char(n % 10))
    }
}

pub open spec fn is_digit(c: char) -> bool {
    '0' <= c <= '9'
}

pub open spec fn all_digits(s: Seq<char>) -> bool {
    forall|i: int| 0 <= i < s.len() ==> is_digit(#[trigger] s[i])
}

/// The number that the decimal digits `s` denote.
pub open spec fn digits_value(s: Seq<char>) -> nat
    decreases s.len(),
{
    if s.len() == 0 {
        0
    } else {
        digits_value(s.drop_last()) * 10 + (s.last() as u32 - '0' as u32) as nat
    }
}

/// An optional `+` and decimal digits whose value fits in a `usize`.
pub open spec fn parse_usize_spec(s: Seq<char>) -> Option<usize> {
    let digits = if s.len() > 0 && s[0] == '+' {
        s.skip(1)
    } else {
        s
    };
    if digits.len() > 0 && all_digits(digits) && digits_value(digits) <= usize::MAX {
        Some(digits_value(digits) as usize)
    } else {
        None
    }
}

/// `s` followed by spaces up to `width` characters.
pub open spec fn pad_end_spec(s: Seq<char>, width: nat) -> Seq<char> {
    s + repeated(' ', if width > s.len() { (width - s.len()) as nat } else { 0 })
}

/// `s` preceded by `fill` up to `width` characters.
pub open spec fn pad_start_spec(s: Seq<char>, width: nat, fill: char) -> Seq<char> {
    repeated(fill, if width > s.len() { (width - s.len()) as nat } else { 0 }) + s
}

/// The texts with `separator` between them.
pub open spec fn joined_spec(parts: Seq<Seq<char>>, separator: Seq<char>) -> Seq<char>
    decreases parts.len(),
{
    if parts.len() == 0 {
        Seq::empty()
    } else if parts.len() == 1 {
        parts[0]
    } else {
        joined_spec(parts.drop_last(), separator) + separator + parts.last()
    }
}

/// `s` if it has at most `width` characters, else its start and three dots.
pub open spec fn shortened_spec(s: Seq<char>, width: nat) -> Seq<char> {
    if s.len() <= width {
        s
    } else if width <= 3 {
        repeated('.', width)
    } else {
        s.take(width - 3) + repeated('.', 3)
    }
}

/// The number of bytes in the UTF-8 encoding of `c`.
pub open spec fn utf8_width(c: char) -> nat {
    let n = c as u32;
    if n < 0x80 {
        1
    } else if n < 0x800 {
        2
    } else if n < 0x10000 {
        3
    } else {
        4
    }
}

/// The number of bytes in the UTF-8 encoding of `s`.
pub open spec fn utf8_len(s: Seq<char>) -> nat
    decreases s.len(),
{
    if s.len() == 0 {
        0
    } else {
        utf8_len(s.drop_last()) + utf8_width(s.last())
    }
}

pub proof fn lemma_utf8_len_concat(a: Seq<char>, b: Seq<char>)
    ensures
        utf8_len(a + b) == utf8_len(a) + utf8_len(b),
    decreases b.len(),
{
    if b.len() == 0 {
        assert(a + b == a);
    } else {
        lemma_utf8_len_concat(a, b.drop_last());
        assert((a + b).drop_last() == a + b.drop_last());
        assert((a + b).last() == b.last());
    }
}

pub proof fn lemma_utf8_len_single(c: char)
    ensures
        utf8_len(seq![c]) == utf8_width(c),
{
    assert(seq![c].drop_last() == Seq::<char>::empty());
    assert(utf8_len(Seq::<char>::empty()) == 0);
}

proof fn lemma_utf8_len_encodes(s: Seq<char>)
    ensures
        utf8_len(s) == vstd::utf8::encode_utf8(s).len(),
    decreases s.len(),
{
    if s.len() > 0 {
        let rest = s.drop_first();
        lemma_utf8_len_encodes(rest);
        assert(s == seq![s[0]] + rest);
        lemma_utf8_len_concat(seq![s[0]], rest);
        lemma_utf8_len_single(s[0]);
        vstd::utf8::char_is_scalar(s[0]);
    }
}

// ---------------------------------------------------------------- characters and strings

pub fn chars_of(text: &str) -> (chars: Vec<char>)
    ensures
        chars@ == text@,
{
    let mut chars: Vec<char> = Vec::new();
    for c in it: text.chars()
        invariant
            chars@ == it.seq().take(it.index() as int),
            it.seq() == text@,
    {
        chars.push(c);
    }
    chars
}

pub fn string_of(chars: &[char]) -> (text: String)
    ensures
        text@ == chars@,
{
    let mut text = String::new();
    for i in 0..chars.len()
        invariant
            text@ == chars@.take(i as int),
    {
        text.push(chars[i]);
        assert(chars@.take(i + 1) == chars@.take(i as int).push(chars@[i as int]));
    }
    assert(chars@.take(chars.len() as int) == chars@);
    text
}

pub fn is_white_space(c: char) -> (r: bool)
    ensures
        r == white_space(c),
{
    let n: u32 = c as u32;
    (0x09 <= n && n <= 0x0d) || n == 0x20 || n == 0x85 || n == 0xa0 || n == 0x1680 || (0x2000 <= n
        && n <= 0x200a) || n == 0x2028 || n == 0x2029 || n == 0x202f || n == 0x205f || n == 0x3000
}

pub fn same_text(left: &str, right: &str) -> (r: bool)
    ensures
        r == (left@ == right@),
{
    let a = chars_of(left);
    let b = chars_of(right);
    same_chars(&a, &b)
}

pub fn same_chars(a: &[char], b: &[char]) -> (r: bool)
    ensures
        r == (a@ == b@),
{
    if a.len() != b.len() {
        return false;
    }
    for i in 0..a.len()
        invariant
            a.len() == b.len(),
            forall|j: int| 0 <= j < i ==> a@[j] == b@[j],
    {
        if a[i] != b[i] {
            return false;
        }
    }
    assert(a@ =~= b@);
    true
}

/// The length of `text` in bytes.
pub fn byte_len(text: &str) -> (n: usize)
    ensures
        n == utf8_len(text@),
{
    proof {
        lemma_utf8_len_encodes(text@);
    }
    text.as_bytes().len()
}

pub fn char_byte_len(c: char) -> (n: usize)
    ensures
        n == utf8_width(c),
        1 <= n <= 4,
{
    let code: u32 = c as u32;
    if code < 0x80 {
        1
    } else if code < 0x800 {
        2
    } else if code < 0x10000 {
        3
    } else {
        4
    }
}

pub fn text2(a: &str, b: &str) -> (text: String)
    ensures
        text@ == a@ + b@,
{
    let mut text = a.to_owned();
    text.append(b);
    text
}

pub fn text3(a: &str, b: &str, c: &str) -> (text: String)
    ensures
        text@ == a@ + b@ + c@,
{
    let mut text = text2(a, b);
    text.append(c);
    text
}

pub fn text4(a: &str, b: &str, c: &str, d: &str) -> (text: String)
    ensures
        text@ == a@ + b@ + c@ + d@,
{
    let mut text = text3(a, b, c);
    text.append(d);
    text
}

pub fn text5(a: &str, b: &str, c: &str, d: &str, e: &str) -> (text: String)
    ensures
        text@ == a@ + b@ + c@ + d@ + e@,
{
    let mut text = text4(a, b, c, d);
    text.append(e);
    text
}

pub fn repeat_char(character: char, count: usize) -> (text: String)
    ensures
        text@ == repeated(character, count as nat),
{
    let mut text = String::new();
    for i in 0..count
        invariant
            text@ == repeated(character, i as nat),
    {
        text.push(character);
        assert(repeated(character, (i + 1) as nat) =~= repeated(character, i as nat).push(
            character,
        ));
    }
    text
}

pub fn lines_of(literal_lines: &[&str]) -> (lines: Vec<String>)
    ensures
        texts(lines@) == literals(literal_lines@),
{
    let mut lines: Vec<String> = Vec::new();
    for i in 0..literal_lines.len()
        invariant
            lines.len() == i,
            forall|j: int| 0 <= j < i ==> (#[trigger] lines@[j])@ == literal_lines@[j]@,
    {
        lines.push(literal_lines[i].to_owned());
    }
    lines
}

// ---------------------------------------------------------------- trimming and words

pub fn trim_start(text: &str) -> (r: &str)
    ensures
        r@ == trim_start_spec(text@),
{
    let chars = chars_of(text);
    let n: usize = chars.len();
    let mut i: usize = 0;
    assert(text@.skip(0) == text@);
    while i < n && is_white_space(chars[i])
        invariant
            chars@ == text@,
            n == text@.len(),
            i <= n,
            trim_start_spec(text@) == trim_start_spec(text@.skip(i as int)),
        decreases n - i,
    {
        assert(text@.skip(i as int).skip(1) == text@.skip(i + 1));
        i = i + 1;
    }
    assert(text@.subrange(i as int, n as int) == text@.skip(i as int));
    text.substring_char(i, n)
}

pub fn trim_end(text: &str) -> (r: &str)
    ensures
        r@ == trim_end_spec(text@),
{
    let chars = chars_of(text);
    let mut n: usize = chars.len();
    assert(text@.take(n as int) == text@);
    while n > 0 && is_white_space(chars[n - 1])
        invariant
            chars@ == text@,
            n <= text@.len(),
            trim_end_spec(text@) == trim_end_spec(text@.take(n as int)),
        decreases n,
    {
        assert(text@.take(n as int).drop_last() == text@.take(n - 1));
        n = n - 1;
    }
    assert(text@.subrange(0, n as int) == text@.take(n as int));
    text.substring_char(0, n)
}

pub fn trim(text: &str) -> (r: &str)
    ensures
        r@ == trim_spec(text@),
{
    trim_end(trim_start(text))
}

pub fn contains_char(chars: &[char], c: char) -> (r: bool)
    ensures
        r == chars@.contains(c),
{
    for i in 0..chars.len()
        invariant
            forall|j: int| 0 <= j < i ==> chars@[j] != c,
    {
        if chars[i] == c {
            return true;
        }
    }
    false
}

/// Drops the leading characters that occur in `set`.
pub fn strip_leading<'a>(text: &'a str, set: &[char]) -> (r: &'a str)
    ensures
        r@ == strip_leading_spec(text@, set@),
{
    let chars = chars_of(text);
    let n: usize = chars.len();
    let mut i: usize = 0;
    assert(text@.skip(0) == text@);
    while i < n && contains_char(set, chars[i])
        invariant
            chars@ == text@,
            n == text@.len(),
            i <= n,
            strip_leading_spec(text@, set@) == strip_leading_spec(text@.skip(i as int), set@),
        decreases n - i,
    {
        assert(text@.skip(i as int).skip(1) == text@.skip(i + 1));
        i = i + 1;
    }
    assert(text@.subrange(i as int, n as int) == text@.skip(i as int));
    text.substring_char(i, n)
}

/// The length in characters of the run before the first white space.
pub fn leading_word_len(chars: &[char]) -> (n: usize)
    ensures
        n == word_len(chars@),
        n <= chars@.len(),
{
    let mut i: usize = 0;
    assert(chars@.skip(0) == chars@);
    while i < chars.len() && !is_white_space(chars[i])
        invariant
            i <= chars.len(),
            word_len(chars@) == i + word_len(chars@.skip(i as int)),
        decreases chars.len() - i,
    {
        assert(chars@.skip(i as int).skip(1) == chars@.skip(i + 1));
        i = i + 1;
    }
    i
}

pub fn first_word(text: &str) -> (r: &str)
    ensures
        r@ == first_word_spec(text@),
{
    let rest = trim_start(text);
    let chars = chars_of(rest);
    let n: usize = leading_word_len(&chars);
    assert(rest@.subrange(0, n as int) == rest@.take(n as int));
    rest.substring_char(0, n)
}

/// What follows the first word.
pub fn after_word(text: &str) -> (r: &str)
    ensures
        r@ == after_word_spec(text@),
{
    let rest = trim_start(text);
    let chars = chars_of(rest);
    let n: usize = leading_word_len(&chars);
    assert(rest@.subrange(n as int, rest@.len() as int) == rest@.skip(n as int));
    rest.substring_char(n, chars.len())
}

pub proof fn lemma_line_len(s: Seq<char>, n: int)
    requires
        0 <= n <= s.len(),
        forall|i: int| 0 <= i < n ==> s[i] != '\n',
        n < s.len() ==> s[n] == '\n',
    ensures
        line_len(s) == n,
    decreases s.len(),
{
    if n > 0 {
        lemma_line_len(s.skip(1), n - 1);
    }
}

/// The lines of `text`.
pub fn split_lines(text: &str) -> (r: Vec<String>)
    ensures
        texts(r@) == lines_spec(text@),
{
    let chars = chars_of(text);
    let mut r: Vec<String> = Vec::new();
    let mut from: usize = 0;
    let mut i: usize = 0;
    assert(texts(r@) =~= Seq::<Seq<char>>::empty());
    assert(text@.skip(0) =~= text@);
    while i < chars.len()
        invariant
            chars@ == text@,
            from <= i <= chars@.len(),
            forall|j: int| from <= j < i ==> chars@[j] != '\n',
            texts(r@) + lines_spec(text@.skip(from as int)) == lines_spec(text@),
        decreases chars@.len() - i,
    {
        if chars[i] == '\n' {
            let end = if i > from && chars[i - 1] == '\r' {
                i - 1
            } else {
                i
            };
            let ghost rest = text@.skip(from as int);
            let ghost before = texts(r@);
            let line = string_of(vstd::slice::slice_subrange(&chars, from, end));
            proof {
                lemma_line_len(rest, i - from);
                assert(rest.take(i - from) =~= text@.subrange(from as int, i as int));
                assert(line@ =~= without_return(rest.take(i - from)));
                assert(rest.skip(i - from + 1) =~= text@.skip(i + 1));
            }
            r.push(line);
            assert(texts(r@) =~= before + seq![line@]);
            from = i + 1;
            assert(texts(r@) + lines_spec(text@.skip(from as int)) =~= before + (seq![line@]
                + lines_spec(text@.skip(from as int))));
        }
        i = i + 1;
    }
    let ghost rest = text@.skip(from as int);
    if from < chars.len() {
        let ghost before = texts(r@);
        let line = string_of(vstd::slice::slice_subrange(&chars, from, chars.len()));
        proof {
            lemma_line_len(rest, rest.len() as int);
            assert(line@ =~= rest);
        }
        r.push(line);
        assert(texts(r@) =~= before + seq![rest]);
    } else {
        assert(texts(r@) =~= texts(r@) + lines_spec(rest));
    }
    r
}

/// Trimming what has been trimmed changes nothing.
pub proof fn trimming_twice_is_trimming(s: Seq<char>)
    ensures
        trim_spec(trim_spec(s)) == trim_spec(s),
        trim_start_spec(trim_spec(s)) == trim_spec(s),
        trim_end_spec(trim_spec(s)) == trim_spec(s),
{
    let start = trim_start_spec(s);
    lemma_trim_start_head(s);
    lemma_trim_end_last(start);
}

proof fn lemma_trim_start_head(s: Seq<char>)
    ensures
        trim_start_spec(s).len() > 0 ==> !white_space(trim_start_spec(s)[0]),
    decreases s.len(),
{
    if s.len() > 0 && white_space(s[0]) {
        lemma_trim_start_head(s.skip(1));
    }
}

/// Trailing white space does not belong to the first word.
pub proof fn lemma_word_of_trimmed(s: Seq<char>)
    ensures
        word_len(trim_end_spec(s)) == word_len(s),
        trim_end_spec(s).take(word_len(s) as int) == s.take(word_len(s) as int),
    decreases s.len(),
{
    lemma_word_len_bound(s);
    if s.len() > 0 && white_space(s.last()) {
        let shorter = s.drop_last();
        lemma_word_of_trimmed(shorter);
        lemma_word_len_bound(shorter);
        lemma_word_len_prefix(s);
        let n = word_len(s) as int;
        assert(shorter.take(n) =~= s.take(n));
    }
}

proof fn lemma_word_len_bound(s: Seq<char>)
    ensures
        word_len(s) <= s.len(),
    decreases s.len(),
{
    if s.len() > 0 && !white_space(s[0]) {
        lemma_word_len_bound(s.skip(1));
    }
}

proof fn lemma_word_len_prefix(s: Seq<char>)
    requires
        s.len() > 0,
        white_space(s.last()),
    ensures
        word_len(s.drop_last()) == word_len(s),
    decreases s.len(),
{
    if !white_space(s[0]) {
        assert(s.len() > 1);
        lemma_word_len_prefix(s.skip(1));
        assert(s.drop_last().skip(1) =~= s.skip(1).drop_last());
    }
}

/// Trimming never lengthens a text.
pub proof fn lemma_trim_end_shorter(s: Seq<char>)
    ensures
        trim_end_spec(s).len() <= s.len(),
{
    lemma_trim_end_last(s);
}

proof fn lemma_trim_end_last(s: Seq<char>)
    ensures
        trim_end_spec(s).len() <= s.len(),
        trim_end_spec(s) == s.take(trim_end_spec(s).len() as int),
        trim_end_spec(s).len() > 0 ==> !white_space(trim_end_spec(s).last()),
    decreases s.len(),
{
    if s.len() > 0 && white_space(s.last()) {
        lemma_trim_end_last(s.drop_last());
        let n = trim_end_spec(s).len() as int;
        assert(s.drop_last().take(n) =~= s.take(n));
    } else {
        assert(s.take(s.len() as int) =~= s);
    }
}

// ---------------------------------------------------------------- searching

pub fn chars_at(chars: &[char], needle: &[char], at: usize) -> (r: bool)
    requires
        at <= chars.len(),
    ensures
        r == occurs_at(chars@, needle@, at as int),
{
    if needle.len() > chars.len() - at {
        return false;
    }
    for i in 0..needle.len()
        invariant
            at <= chars.len(),
            needle.len() <= chars.len() - at,
            forall|j: int| 0 <= j < i ==> chars@[at + j] == needle@[j],
    {
        if chars[at + i] != needle[i] {
            assert(chars@.subrange(at as int, at + needle@.len())[i as int] != needle@[i as int]);
            return false;
        }
    }
    assert(chars@.subrange(at as int, at + needle@.len()) =~= needle@);
    true
}

pub fn starts_with(text: &str, prefix: &str) -> (r: bool)
    ensures
        r == starts_with_spec(text@, prefix@),
{
    let chars = chars_of(text);
    let needle = chars_of(prefix);
    assert(prefix@.len() <= text@.len() ==> text@.subrange(0, prefix@.len() as int) == text@.take(
        prefix@.len() as int,
    ));
    chars_at(&chars, &needle, 0)
}

pub fn ends_with(text: &str, suffix: &str) -> (r: bool)
    ensures
        r == ends_with_spec(text@, suffix@),
{
    let chars = chars_of(text);
    let needle = chars_of(suffix);
    if needle.len() > chars.len() {
        return false;
    }
    let at: usize = chars.len() - needle.len();
    assert(text@.subrange(at as int, at + suffix@.len()) == text@.skip(at as int));
    chars_at(&chars, &needle, at)
}

pub fn contains(text: &str, needle: &str) -> (r: bool)
    ensures
        r == contains_spec(text@, needle@),
{
    let chars = chars_of(text);
    let wanted = chars_of(needle);
    if wanted.len() > chars.len() {
        return false;
    }
    let last: usize = chars.len() - wanted.len();
    let mut at: usize = 0;
    while at <= last
        invariant
            chars@ == text@,
            wanted@ == needle@,
            last == chars.len() - wanted.len(),
            wanted.len() <= chars.len(),
            at <= last + 1,
            forall|j: int| 0 <= j < at ==> !occurs_at(text@, needle@, j),
        decreases last + 1 - at,
    {
        if chars_at(&chars, &wanted, at) {
            return true;
        }
        if at == last {
            return false;
        }
        at = at + 1;
    }
    false
}

pub fn strip_prefix<'a>(text: &'a str, prefix: &str) -> (r: Option<&'a str>)
    ensures
        match r {
            Some(rest) => strip_prefix_spec(text@, prefix@) == Some(rest@),
            None => strip_prefix_spec(text@, prefix@) is None,
        },
{
    if starts_with(text, prefix) {
        let n: usize = prefix.unicode_len();
        let m: usize = text.unicode_len();
        assert(text@.subrange(n as int, m as int) == text@.skip(n as int));
        Some(text.substring_char(n, m))
    } else {
        None
    }
}

/// Whether `text` is one of `words`.
pub fn is_one_of(text: &str, words: &[&str]) -> (r: bool)
    ensures
        r == literals(words@).contains(text@),
{
    for i in 0..words.len()
        invariant
            forall|j: int| 0 <= j < i ==> words@[j]@ != text@,
    {
        if same_text(words[i], text) {
            assert(literals(words@)[i as int] == text@);
            return true;
        }
    }
    assert forall|j: int| 0 <= j < literals(words@).len() implies literals(words@)[j] != text@ by {
        assert(literals(words@)[j] == words@[j]@);
    }
    false
}

// ---------------------------------------------------------------- letter case

pub fn lower_char(c: char) -> (r: char)
    ensures
        r == ascii_lower_char(c),
{
    if 'A' <= c && c <= 'Z' {
        ((c as u8) + 32) as char
    } else {
        c
    }
}

/// Lower-cases the ASCII letters.
pub fn ascii_lower(text: &str) -> (r: String)
    ensures
        r@ == ascii_lower_spec(text@),
{
    let chars = chars_of(text);
    let mut lowered = String::new();
    for i in 0..chars.len()
        invariant
            chars@ == text@,
            lowered@ == ascii_lower_spec(text@).take(i as int),
    {
        lowered.push(lower_char(chars[i]));
        assert(ascii_lower_spec(text@).take(i + 1) == ascii_lower_spec(text@).take(i as int).push(
            ascii_lower_char(text@[i as int]),
        ));
    }
    assert(ascii_lower_spec(text@).take(chars.len() as int) == ascii_lower_spec(text@));
    lowered
}

// ---------------------------------------------------------------- numbers

pub fn decimal(n: u128) -> (text: String)
    ensures
        text@ == decimal_spec(n as nat),
    decreases n,
{
    let digit: u8 = (n % 10) as u8;
    let character: char = (48u8 + digit) as char;
    if n < 10 {
        let mut text = String::new();
        text.push(character);
        text
    } else {
        let mut text = decimal(n / 10);
        text.push(character);
        text
    }
}

/// The decimal digits of a number denote it.
pub proof fn lemma_decimal(n: nat)
    ensures
        decimal_spec(n).len() > 0,
        all_digits(decimal_spec(n)),
        digits_value(decimal_spec(n)) == n,
    decreases n,
{
    let s = decimal_spec(n);
    if n < 10 {
        assert(s.drop_last() == Seq::<char>::empty());
        assert(digits_value(s.drop_last()) == 0);
    } else {
        lemma_decimal(n / 10);
        let rest = decimal_spec(n / 10);
        assert(s.drop_last() == rest);
        assert forall|i: int| 0 <= i < s.len() implies is_digit(#[trigger] s[i]) by {
            if i < rest.len() {
                assert(s[i] == rest[i]);
            }
        }
    }
}

/// Digits have nothing to trim.
pub proof fn lemma_digits_are_bare(s: Seq<char>)
    requires
        s.len() > 0,
        all_digits(s),
    ensures
        trim_spec(s) == s,
        trim_start_spec(s) == s,
{
    assert(is_digit(s[0]));
    assert(is_digit(s[s.len() - 1]));
}

pub fn is_digit_char(c: char) -> (r: bool)
    ensures
        r == is_digit(c),
{
    '0' <= c && c <= '9'
}

pub fn is_all_digits(chars: &[char]) -> (r: bool)
    ensures
        r == all_digits(chars@),
{
    for i in 0..chars.len()
        invariant
            forall|j: int| 0 <= j < i ==> is_digit(#[trigger] chars@[j]),
    {
        if !is_digit_char(chars[i]) {
            return false;
        }
    }
    true
}

/// The value of the digits, or `None` where it exceeds `usize::MAX`.
pub fn digits_to_usize(chars: &[char]) -> (r: Option<usize>)
    requires
        all_digits(chars@),
    ensures
        r == if digits_value(chars@) <= usize::MAX {
            Some(digits_value(chars@) as usize)
        } else {
            None
        },
{
    let mut value: usize = 0;
    let mut i: usize = 0;
    while i < chars.len()
        invariant
            all_digits(chars@),
            i <= chars.len(),
            value == digits_value(chars@.take(i as int)),
        decreases chars.len() - i,
    {
        proof {
            let next = chars@.take(i + 1);
            assert(next.drop_last() == chars@.take(i as int));
            assert(next.last() == chars@[i as int]);
            assert(is_digit(chars@[i as int]));
            lemma_digits_value_grows(chars@, i + 1);
        }
        let digit: usize = (chars[i] as u32 - '0' as u32) as usize;
        match value.checked_mul(10) {
            None => {
                return None;
            },
            Some(tens) => match tens.checked_add(digit) {
                None => {
                    return None;
                },
                Some(sum) => {
                    value = sum;
                },
            },
        }
        i = i + 1;
    }
    assert(chars@.take(chars.len() as int) == chars@);
    Some(value)
}

proof fn lemma_digits_value_grows(s: Seq<char>, i: int)
    requires
        all_digits(s),
        0 <= i <= s.len(),
    ensures
        digits_value(s.take(i)) <= digits_value(s),
    decreases s.len(),
{
    if i == s.len() {
        assert(s.take(i) == s);
    } else {
        let shorter = s.drop_last();
        assert(all_digits(shorter)) by {
            assert forall|j: int| 0 <= j < shorter.len() implies is_digit(#[trigger] shorter[j]) by {
                assert(shorter[j] == s[j]);
            }
        }
        assert(s.take(i) == shorter.take(i));
        lemma_digits_value_grows(shorter, i);
    }
}

pub fn parse_usize(text: &str) -> (r: Option<usize>)
    ensures
        r == parse_usize_spec(text@),
{
    let mut chars = chars_of(text);
    if chars.len() > 0 && chars[0] == '+' {
        chars.remove(0);
        assert(chars@ =~= text@.skip(1));
    }
    if chars.len() == 0 || !is_all_digits(&chars) {
        return None;
    }
    digits_to_usize(&chars)
}

pub fn pad_end(text: &str, width: usize) -> (r: String)
    ensures
        r@ == pad_end_spec(text@, width as nat),
{
    let n: usize = text.unicode_len();
    let count: usize = if width > n {
        width - n
    } else {
        0
    };
    let padding = repeat_char(' ', count);
    text2(text, &padding)
}

pub fn pad_start(text: &str, width: usize, fill: char) -> (r: String)
    ensures
        r@ == pad_start_spec(text@, width as nat, fill),
{
    let n: usize = text.unicode_len();
    let count: usize = if width > n {
        width - n
    } else {
        0
    };
    let padding = repeat_char(fill, count);
    text2(&padding, text)
}

/// Joins literals with `separator` between them.
pub fn join(parts: &[&str], separator: &str) -> (r: String)
    ensures
        r@ == joined_spec(literals(parts@), separator@),
{
    let ghost all = literals(parts@);
    let mut r = String::new();
    assert(r@ =~= joined_spec(all.take(0), separator@));
    for i in 0..parts.len()
        invariant
            all == literals(parts@),
            r@ == joined_spec(all.take(i as int), separator@),
    {
        if i > 0 {
            r.append(separator);
        }
        r.append(parts[i]);
        proof {
            let now = all.take(i + 1);
            assert(now.drop_last() =~= all.take(i as int));
            assert(now.last() == parts@[i as int]@);
            if i == 0 {
                assert(r@ =~= now[0]);
            }
        }
    }
    assert(all.take(all.len() as int) =~= all);
    r
}

/// Shortens to a number of characters.
pub fn shortened(text: &str, width: usize) -> (r: String)
    ensures
        r@ == shortened_spec(text@, width as nat),
{
    let n: usize = text.unicode_len();
    if n <= width {
        return text.to_owned();
    }
    if width <= 3 {
        return repeat_char('.', width);
    }
    let dots = repeat_char('.', 3);
    assert(text@.subrange(0, width - 3) == text@.take(width - 3));
    text2(text.substring_char(0, width - 3), &dots)
}

/// A shortened text has at most that many characters.
pub proof fn shortening_fits(s: Seq<char>, width: nat)
    ensures
        shortened_spec(s, width).len() <= width,
{
}

/// A run of characters without white space, up to white space or the end, is the first word.
pub proof fn lemma_word_len_is(s: Seq<char>, n: int)
    requires
        0 <= n <= s.len(),
        forall|i: int| 0 <= i < n ==> !white_space(#[trigger] s[i]),
        n < s.len() ==> white_space(s[n]),
    ensures
        word_len(s) == n,
    decreases s.len(),
{
    if n > 0 {
        assert(!white_space(s[0]));
        assert forall|i: int| 0 <= i < n - 1 implies !white_space(#[trigger] s.skip(1)[i]) by {
            assert(!white_space(s[i + 1]));
        }
        lemma_word_len_is(s.skip(1), n - 1);
    }
}

/// A word, a space and something else: the word comes first, the rest follows it.
pub proof fn first_word_and_rest(word: Seq<char>, rest: Seq<char>)
    requires
        word.len() > 0,
        forall|i: int| 0 <= i < word.len() ==> !white_space(#[trigger] word[i]),
        rest.len() > 0,
        !white_space(rest[0]),
        !white_space(rest.last()),
    ensures
        trim_spec(word + " "@ + rest) == word + " "@ + rest,
        first_word_spec(word + " "@ + rest) == word,
        trim_spec(after_word_spec(word + " "@ + rest)) == rest,
        trim_spec(rest) == rest,
{
    reveal_strlit(" ");
    let s = word + " "@ + rest;
    let n = word.len() as int;
    assert(!white_space(word[0]));
    assert(s[0] == word[0]);
    assert(s.last() == rest.last());
    assert(s[n] == ' ');
    assert forall|i: int| 0 <= i < n implies !white_space(#[trigger] s[i]) by {
        assert(s[i] == word[i]);
    }
    lemma_word_len_is(s, n);
    assert(s.take(n) =~= word);
    let after = s.skip(n);
    assert(after =~= " "@ + rest);
    assert(after.skip(1) =~= rest);
    assert(after[0] == ' ');
    assert(white_space(after[0]));
    assert(trim_start_spec(rest) == rest);
    assert(trim_start_spec(after) == rest);
}

/// A single word is all there is.
pub proof fn single_word_is_the_first(word: Seq<char>)
    requires
        forall|i: int| 0 <= i < word.len() ==> !white_space(#[trigger] word[i]),
    ensures
        trim_spec(word) == word,
        first_word_spec(word) == word,
        after_word_spec(word) == Seq::<char>::empty(),
        trim_spec(after_word_spec(word)) == Seq::<char>::empty(),
{
    if word.len() > 0 {
        assert(!white_space(word[0]));
        assert(!white_space(word[word.len() - 1]));
    }
    lemma_word_len_is(word, word.len() as int);
    assert(word.take(word.len() as int) =~= word);
    assert(word.skip(word.len() as int) =~= Seq::<char>::empty());
}

/// Digits and lower-case letters stay as they are in lower case.
pub proof fn lemma_lower_stays(s: Seq<char>)
    requires
        forall|i: int| 0 <= i < s.len() ==> !('A' <= #[trigger] s[i] <= 'Z'),
    ensures
        ascii_lower_spec(s) == s,
{
    assert(ascii_lower_spec(s) =~= s);
}

/// The digits of a number are a word of their own, the same in lower case.
pub proof fn lemma_number_is_a_word(n: nat)
    ensures
        forall|i: int|
            0 <= i < decimal_spec(n).len() ==> !white_space(#[trigger] decimal_spec(n)[i]),
        forall|i: int|
            0 <= i < decimal_spec(n).len() ==> '0' <= #[trigger] decimal_spec(n)[i] <= '9',
        decimal_spec(n).len() > 0,
        ascii_lower_spec(decimal_spec(n)) == decimal_spec(n),
        trim_spec(decimal_spec(n)) == decimal_spec(n),
        first_word_spec(decimal_spec(n)) == decimal_spec(n),
        trim_spec(after_word_spec(decimal_spec(n))) == Seq::<char>::empty(),
{
    lemma_decimal(n);
    let s = decimal_spec(n);
    assert forall|i: int| 0 <= i < s.len() implies !white_space(#[trigger] s[i]) && '0' <= s[i]
        <= '9' by {
        assert(is_digit(s[i]));
    }
    lemma_lower_stays(s);
    single_word_is_the_first(s);
}

/// The texts agree in their first `n` characters, and there the first one ends or has the smaller
/// character.
pub open spec fn parts_at(a: Seq<char>, b: Seq<char>, n: int) -> bool {
    &&& 0 <= n <= a.len()
    &&& n < b.len()
    &&& forall|i: int| 0 <= i < n ==> #[trigger] a[i] == b[i]
    &&& n == a.len() || a[n] < b[n]
}

/// The order of dictionaries.
pub open spec fn comes_before(a: Seq<char>, b: Seq<char>) -> bool {
    exists|n: int| parts_at(a, b, n)
}

pub proof fn lemma_order_goes_on(a: Seq<char>, b: Seq<char>, c: Seq<char>)
    requires
        comes_before(a, b),
        comes_before(b, c),
    ensures
        comes_before(a, c),
{
    let m = choose|m: int| parts_at(a, b, m);
    let n = choose|n: int| parts_at(b, c, n);
    let at = if m <= n { m } else { n };
    assert forall|i: int| 0 <= i < at implies #[trigger] a[i] == c[i] by {
        assert(a[i] == b[i]);
        assert(b[i] == c[i]);
    }
    if m < n {
        assert(b[m] == c[m]);
    }
    if n < m {
        assert(a[n] == b[n]);
    }
    assert(parts_at(a, c, at));
}

/// A text begins with its first part and ends with its last.
pub proof fn begins_and_ends(a: Seq<char>, b: Seq<char>)
    ensures
        starts_with_spec(a + b, a),
        ends_with_spec(a + b, b),
{
    assert((a + b).take(a.len() as int) =~= a);
    assert((a + b).skip((a + b).len() - b.len()) =~= b);
}

/// How the parts of a text are grouped makes no difference.
pub proof fn lemma_regroup(a: Seq<char>, b: Seq<char>, c: Seq<char>)
    ensures
        a + (b + c) == a + b + c,
{
    assert(a + (b + c) =~= a + b + c);
}

/// A part of a text is in it, its beginning begins it and its end ends it.
pub proof fn parts_are_inside(a: Seq<char>, b: Seq<char>, c: Seq<char>)
    ensures
        contains_spec(a + b + c, b),
        starts_with_spec(a + b, a),
        ends_with_spec(a + b, b),
        contains_spec(a + b, a),
        contains_spec(a + b, b),
{
    assert((a + b + c).subrange(a.len() as int, a.len() as int + b.len()) =~= b);
    assert(occurs_at(a + b + c, b, a.len() as int));
    assert((a + b).take(a.len() as int) =~= a);
    assert((a + b).skip((a + b).len() - b.len()) =~= b);
    assert((a + b).subrange(0, a.len() as int) =~= a);
    assert(occurs_at(a + b, a, 0));
    assert((a + b).subrange(a.len() as int, a.len() as int + b.len()) =~= b);
    assert(occurs_at(a + b, b, a.len() as int));
}

/// Trimming takes white space from both ends and nothing else: what it takes is white, and what it
/// leaves neither begins nor ends so.
pub proof fn trimming_takes_only_white_space(s: Seq<char>) -> (r: (int, int))
    ensures
        0 <= r.0 <= r.1 <= s.len(),
        trim_spec(s) == s.subrange(r.0, r.1),
        forall|i: int| 0 <= i < r.0 ==> white_space(#[trigger] s[i]),
        forall|i: int| r.1 <= i < s.len() ==> white_space(#[trigger] s[i]),
        r.0 < r.1 ==> !white_space(s[r.0]) && !white_space(s[r.1 - 1]),
{
    let n = lemma_trim_start_run(s);
    let rest = s.skip(n);
    let m = lemma_trim_end_run(rest);
    assert(rest.take(m) =~= s.subrange(n, n + m));
    assert forall|i: int| n + m <= i < s.len() implies white_space(#[trigger] s[i]) by {
        assert(rest[i - n] == s[i]);
    }
    if m > 0 {
        lemma_trim_start_head(s);
        lemma_trim_end_last(rest);
        assert(rest[0] == s[n]);
        assert(rest.take(m).last() == s[n + m - 1]);
    }
    (n, n + m)
}

proof fn lemma_trim_start_run(s: Seq<char>) -> (n: int)
    ensures
        0 <= n <= s.len(),
        trim_start_spec(s) == s.skip(n),
        forall|i: int| 0 <= i < n ==> white_space(#[trigger] s[i]),
    decreases s.len(),
{
    if s.len() > 0 && white_space(s[0]) {
        let n = lemma_trim_start_run(s.skip(1));
        assert(s.skip(1).skip(n) =~= s.skip(n + 1));
        assert forall|i: int| 0 <= i < n + 1 implies white_space(#[trigger] s[i]) by {
            if i > 0 {
                assert(s.skip(1)[i - 1] == s[i]);
            }
        }
        n + 1
    } else {
        assert(s.skip(0) =~= s);
        0
    }
}

proof fn lemma_trim_end_run(s: Seq<char>) -> (m: int)
    ensures
        0 <= m <= s.len(),
        trim_end_spec(s) == s.take(m),
        forall|i: int| m <= i < s.len() ==> white_space(#[trigger] s[i]),
    decreases s.len(),
{
    if s.len() > 0 && white_space(s.last()) {
        let m = lemma_trim_end_run(s.drop_last());
        assert(s.drop_last().take(m) =~= s.take(m));
        assert forall|i: int| m <= i < s.len() implies white_space(#[trigger] s[i]) by {
            if i < s.len() - 1 {
                assert(s.drop_last()[i] == s[i]);
            }
        }
        m
    } else {
        assert(s.take(s.len() as int) =~= s);
        s.len() as int
    }
}

/// Filling up a text leaves it as it is, and puts nothing but the filling on one side of it, up to
/// the width.
pub proof fn filling_up_keeps_the_text(s: Seq<char>, width: nat, fill: char, i: int)
    ensures
        starts_with_spec(pad_end_spec(s, width), s),
        ends_with_spec(pad_start_spec(s, width, fill), s),
        s.len() <= i < pad_end_spec(s, width).len() ==> pad_end_spec(s, width)[i] == ' ',
        0 <= i < pad_start_spec(s, width, fill).len() - s.len() ==> pad_start_spec(s, width, fill)[i]
            == fill,
        s.len() <= width ==> pad_end_spec(s, width).len() == width && pad_start_spec(
            s,
            width,
            fill,
        ).len() == width,
        s.len() > width ==> pad_end_spec(s, width) == s && pad_start_spec(s, width, fill) == s,
{
    begins_and_ends(s, repeated(' ', (width - s.len()) as nat));
    assert(pad_end_spec(s, width).take(s.len() as int) =~= s);
    let filled = pad_start_spec(s, width, fill);
    assert(filled.skip(filled.len() - s.len()) =~= s);
}

/// One text is joined as it is, and each further one stands behind a separator.
pub proof fn joining_puts_separators_between(
    parts: Seq<Seq<char>>,
    last: Seq<char>,
    separator: Seq<char>,
)
    ensures
        joined_spec(seq![last], separator) == last,
        parts.len() > 0 ==> joined_spec(parts.push(last), separator) == joined_spec(
            parts,
            separator,
        ) + separator + last,
{
    assert(parts.push(last).drop_last() =~= parts);
}

/// A text that fits stays as it is; a longer one is cut down to the width with three dots at its end.
pub proof fn shortened_texts_keep_their_beginning(s: Seq<char>, width: nat)
    ensures
        s.len() <= width ==> shortened_spec(s, width) == s,
        s.len() > width && width >= 3 ==> shortened_spec(s, width).len() == width
            && starts_with_spec(shortened_spec(s, width), s.take(width - 3)) && ends_with_spec(
            shortened_spec(s, width),
            "..."@,
        ),
{
    reveal_strlit("...");
    if s.len() > width && width >= 3 {
        let shown = shortened_spec(s, width);
        assert(shown.take(width - 3) =~= s.take(width - 3));
        assert(shown.skip(shown.len() - 3) =~= "..."@);
    }
}

} // verus!
