//! The edited line: its characters and a cursor between them.
//!
//! The cursor is kept as a byte offset into the line. The model counts characters.

use crate::text;
use vstd::prelude::*;
use vstd::slice::slice_subrange;

verus! {

/// The byte offset at which character `k` begins.
pub open spec fn offset(s: Seq<char>, k: int) -> nat {
    text::utf8_len(s.take(k))
}

/// The number of whole characters in the first `cursor` bytes.
pub open spec fn char_index(s: Seq<char>, cursor: nat) -> nat
    decreases s.len(),
{
    if s.len() == 0 {
        0
    } else if text::utf8_len(s) <= cursor {
        s.len()
    } else {
        char_index(s.drop_last(), cursor)
    }
}

/// The byte offset lies between two characters, or at either end.
pub open spec fn on_boundary(s: Seq<char>, cursor: nat) -> bool {
    offset(s, char_index(s, cursor) as int) == cursor
}

/// A cursor past the end counts as one at the end.
pub open spec fn cursor_ok(s: Seq<char>, cursor: nat) -> bool {
    text::utf8_len(s) <= cursor || on_boundary(s, cursor)
}

/// How far one can go back from `k` over characters that are white space, or that are not.
pub open spec fn back_while(s: Seq<char>, k: nat, white: bool) -> nat
    decreases k,
{
    if 0 < k <= s.len() && text::white_space(s[k - 1]) == white {
        back_while(s, (k - 1) as nat, white)
    } else {
        k
    }
}

/// How far one can go on from `k` over characters that are white space, or that are not.
pub open spec fn on_while(s: Seq<char>, k: nat, white: bool) -> nat
    decreases s.len() - k,
{
    if k < s.len() && text::white_space(s[k as int]) == white {
        on_while(s, k + 1, white)
    } else {
        k
    }
}

/// Where the word before `k` begins.
pub open spec fn word_start(s: Seq<char>, k: nat) -> nat {
    back_while(s, back_while(s, k, true), false)
}

/// Where the word after the one at `k` begins.
pub open spec fn word_end(s: Seq<char>, k: nat) -> nat {
    on_while(s, on_while(s, k, false), true)
}

/// A line with its cursor before character `at`.
pub ghost struct Line {
    pub chars: Seq<char>,
    pub at: nat,
}

pub open spec fn line_of(input: Seq<char>, cursor: nat) -> Line {
    Line { chars: input, at: char_index(input, cursor) }
}

impl Line {
    pub open spec fn valid(self) -> bool {
        self.at <= self.chars.len()
    }

    /// The characters between `from` and `to` taken out, with the cursor where they were.
    pub open spec fn cut(self, from: nat, to: nat) -> Line {
        Line { chars: self.chars.take(from as int) + self.chars.skip(to as int), at: from }
    }

    pub open spec fn typed(self, c: char) -> Line {
        Line { chars: self.chars.insert(self.at as int, c), at: self.at + 1 }
    }

    pub open spec fn without_char_before(self) -> Line {
        if self.at == 0 {
            self
        } else {
            self.cut((self.at - 1) as nat, self.at)
        }
    }

    pub open spec fn without_char_after(self) -> Line {
        if self.at >= self.chars.len() {
            self
        } else {
            self.cut(self.at, self.at + 1)
        }
    }

    pub open spec fn without_word_before(self) -> Line {
        self.cut(word_start(self.chars, self.at), self.at)
    }

    pub open spec fn without_head(self) -> Line {
        self.cut(0, self.at)
    }

    pub open spec fn without_tail(self) -> Line {
        self.cut(self.at, self.chars.len())
    }
}

// ---------------------------------------------------------------- laws

/// Deleting the character before the cursor undoes typing it.
pub proof fn typing_then_deleting_returns(line: Line, c: char)
    requires
        line.valid(),
    ensures
        line.typed(c).without_char_before() == line,
{
    assert(line.typed(c).without_char_before().chars =~= line.chars);
}

/// Every edit of a line with its cursor inside leaves the cursor inside.
pub proof fn edits_keep_the_cursor_inside(line: Line, c: char)
    requires
        line.valid(),
    ensures
        line.typed(c).valid(),
        line.without_char_before().valid(),
        line.without_char_after().valid(),
        line.without_word_before().valid(),
        line.without_head().valid(),
        line.without_tail().valid(),
{
    lemma_word_start(line.chars, line.at);
}

/// What is cut before the cursor and what is cut after it make up the whole line.
pub proof fn head_and_tail_make_the_line(line: Line)
    requires
        line.valid(),
    ensures
        line.without_tail().chars + line.without_head().chars == line.chars,
{
    assert(line.without_tail().chars + line.without_head().chars =~= line.chars);
}

/// A step back over a word does not pass the cursor, a step on does not fall behind it, and both
/// stay inside the line.
pub proof fn word_steps_go_their_way(s: Seq<char>, k: nat)
    requires
        k <= s.len(),
    ensures
        word_start(s, k) <= k <= word_end(s, k) <= s.len(),
{
    lemma_word_start(s, k);
    lemma_word_end(s, k);
}

// ---------------------------------------------------------------- offsets and characters

proof fn lemma_back_while(s: Seq<char>, k: nat, white: bool)
    ensures
        back_while(s, k, white) <= k,
    decreases k,
{
    if 0 < k <= s.len() && text::white_space(s[k - 1]) == white {
        lemma_back_while(s, (k - 1) as nat, white);
    }
}

proof fn lemma_on_while(s: Seq<char>, k: nat, white: bool)
    requires
        k <= s.len(),
    ensures
        k <= on_while(s, k, white) <= s.len(),
    decreases s.len() - k,
{
    if k < s.len() && text::white_space(s[k as int]) == white {
        lemma_on_while(s, k + 1, white);
    }
}

proof fn lemma_word_start(s: Seq<char>, k: nat)
    ensures
        word_start(s, k) <= k,
{
    lemma_back_while(s, k, true);
    lemma_back_while(s, back_while(s, k, true), false);
}

proof fn lemma_word_end(s: Seq<char>, k: nat)
    requires
        k <= s.len(),
    ensures
        k <= word_end(s, k) <= s.len(),
{
    lemma_on_while(s, k, false);
    lemma_on_while(s, on_while(s, k, false), true);
}

proof fn lemma_offset_step(s: Seq<char>, k: int)
    requires
        0 <= k < s.len(),
    ensures
        offset(s, k + 1) == offset(s, k) + text::utf8_width(s[k]),
{
    assert(s.take(k + 1).drop_last() == s.take(k));
}

proof fn lemma_offset_grows(s: Seq<char>, j: int, k: int)
    requires
        0 <= j <= k <= s.len(),
    ensures
        offset(s, j) <= offset(s, k),
        j < k ==> offset(s, j) < offset(s, k),
    decreases k - j,
{
    if j < k {
        lemma_offset_step(s, k - 1);
        lemma_offset_grows(s, j, k - 1);
    }
}

/// The index is the one character boundary at or before the cursor that the next one is past.
proof fn lemma_char_index_unique(s: Seq<char>, cursor: nat, k: int)
    requires
        0 <= k <= s.len(),
        offset(s, k) <= cursor,
        k < s.len() ==> cursor < offset(s, k + 1),
    ensures
        char_index(s, cursor) == k,
    decreases s.len(),
{
    assert(s.take(s.len() as int) == s);
    if k < s.len() {
        lemma_offset_grows(s, k + 1, s.len() as int);
        let rest = s.drop_last();
        assert(rest.take(k) == s.take(k));
        if k < rest.len() {
            assert(rest.take(k + 1) == s.take(k + 1));
        }
        lemma_char_index_unique(rest, cursor, k);
    }
}

proof fn lemma_char_index_bound(s: Seq<char>, cursor: nat)
    ensures
        char_index(s, cursor) <= s.len(),
    decreases s.len(),
{
    if s.len() > 0 && text::utf8_len(s) > cursor {
        lemma_char_index_bound(s.drop_last(), cursor);
    }
}

/// The boundary of character `k` is found again.
pub proof fn lemma_offset_is_boundary(s: Seq<char>, k: int)
    requires
        0 <= k <= s.len(),
    ensures
        char_index(s, offset(s, k)) == k,
        on_boundary(s, offset(s, k)),
{
    if k < s.len() {
        lemma_offset_grows(s, k, k + 1);
    }
    lemma_char_index_unique(s, offset(s, k), k);
}

/// A cursor at or past the end stands after the last character.
pub proof fn lemma_end_of_line(s: Seq<char>, cursor: nat)
    ensures
        text::utf8_len(s) <= cursor ==> char_index(s, cursor) == s.len(),
        on_boundary(s, text::utf8_len(s)),
        line_of(s, text::utf8_len(s)) == (Line { chars: s, at: s.len() }),
{
    assert(s.take(s.len() as int) == s);
    lemma_offset_is_boundary(s, s.len() as int);
}

pub proof fn lemma_start_of_line(s: Seq<char>)
    ensures
        on_boundary(s, 0),
        line_of(s, 0) == (Line { chars: s, at: 0 }),
{
    assert(s.take(0) == Seq::<char>::empty());
    assert(text::utf8_len(Seq::<char>::empty()) == 0);
    lemma_offset_is_boundary(s, 0);
}

/// The cursor stands at the start exactly when no character is before it, and at the end exactly
/// when none is after it.
pub proof fn lemma_ends(s: Seq<char>, cursor: nat)
    requires
        on_boundary(s, cursor),
    ensures
        char_index(s, cursor) <= s.len(),
        cursor <= text::utf8_len(s),
        cursor == 0 <==> char_index(s, cursor) == 0,
        cursor == text::utf8_len(s) <==> char_index(s, cursor) == s.len(),
{
    let k = char_index(s, cursor) as int;
    lemma_char_index_bound(s, cursor);
    assert(s.take(s.len() as int) == s);
    assert(s.take(0) == Seq::<char>::empty());
    assert(text::utf8_len(Seq::<char>::empty()) == 0);
    lemma_offset_grows(s, 0, k);
    lemma_offset_grows(s, k, s.len() as int);
}

fn char_position(chars: &[char], cursor: usize) -> (k: usize)
    ensures
        k == char_index(chars@, cursor as nat),
        k <= chars@.len(),
{
    let mut k: usize = 0;
    let mut sum: usize = 0;
    assert(chars@.take(0) == Seq::<char>::empty());
    assert(text::utf8_len(Seq::<char>::empty()) == 0);
    while k < chars.len()
        invariant_except_break
            k <= chars@.len(),
            sum == offset(chars@, k as int),
            sum <= cursor,
        ensures
            k <= chars@.len(),
            offset(chars@, k as int) <= cursor,
            k < chars@.len() ==> cursor < offset(chars@, k + 1),
        decreases chars@.len() - k,
    {
        let width = text::char_byte_len(chars[k]);
        proof {
            lemma_offset_step(chars@, k as int);
        }
        if width > cursor - sum {
            break;
        }
        sum = sum + width;
        k = k + 1;
    }
    proof {
        lemma_char_index_unique(chars@, cursor as nat, k as int);
    }
    k
}

fn byte_offset(chars: &[char], k: usize) -> (r: usize)
    requires
        k <= chars@.len(),
    ensures
        r == offset(chars@, k as int),
{
    let before = text::string_of(slice_subrange(chars, 0, k));
    assert(chars@.subrange(0, k as int) == chars@.take(k as int));
    text::byte_len(&before)
}

// ---------------------------------------------------------------- moving

pub fn previous_char_boundary(input: &str, cursor_index: usize) -> (r: usize)
    requires
        cursor_ok(input@, cursor_index as nat),
    ensures
        on_boundary(input@, r as nat),
        char_index(input@, r as nat) == if char_index(input@, cursor_index as nat) == 0 {
            0
        } else {
            char_index(input@, cursor_index as nat) - 1
        },
{
    let chars = text::chars_of(input);
    let k = char_position(&chars, cursor_index);
    let to = if k == 0 {
        0
    } else {
        k - 1
    };
    proof {
        lemma_offset_is_boundary(input@, to as int);
    }
    byte_offset(&chars, to)
}

pub fn next_char_boundary(input: &str, cursor_index: usize) -> (r: usize)
    requires
        cursor_ok(input@, cursor_index as nat),
    ensures
        on_boundary(input@, r as nat),
        char_index(input@, r as nat) == if char_index(input@, cursor_index as nat)
            >= input@.len() {
            input@.len()
        } else {
            char_index(input@, cursor_index as nat) + 1
        },
{
    let chars = text::chars_of(input);
    let k = char_position(&chars, cursor_index);
    let to = if k >= chars.len() {
        chars.len()
    } else {
        k + 1
    };
    proof {
        lemma_offset_is_boundary(input@, to as int);
    }
    byte_offset(&chars, to)
}

fn start_of_word(chars: &[char], from: usize) -> (r: usize)
    requires
        from <= chars@.len(),
    ensures
        r == word_start(chars@, from as nat),
        r <= from,
{
    let mut k = from;
    while k > 0 && text::is_white_space(chars[k - 1])
        invariant
            k <= from <= chars@.len(),
            back_while(chars@, k as nat, true) == back_while(chars@, from as nat, true),
        decreases k,
    {
        k = k - 1;
    }
    let ghost middle = k;
    while k > 0 && !text::is_white_space(chars[k - 1])
        invariant
            k <= middle <= from <= chars@.len(),
            middle == back_while(chars@, from as nat, true),
            back_while(chars@, k as nat, false) == back_while(chars@, middle as nat, false),
        decreases k,
    {
        k = k - 1;
    }
    k
}

pub fn previous_word_boundary(input: &str, cursor_index: usize) -> (r: usize)
    requires
        cursor_ok(input@, cursor_index as nat),
    ensures
        on_boundary(input@, r as nat),
        char_index(input@, r as nat) == word_start(
            input@,
            char_index(input@, cursor_index as nat),
        ),
{
    let chars = text::chars_of(input);
    let k = char_position(&chars, cursor_index);
    let to = start_of_word(&chars, k);
    proof {
        lemma_offset_is_boundary(input@, to as int);
    }
    byte_offset(&chars, to)
}

pub fn next_word_boundary(input: &str, cursor_index: usize) -> (r: usize)
    requires
        cursor_ok(input@, cursor_index as nat),
    ensures
        on_boundary(input@, r as nat),
        char_index(input@, r as nat) == word_end(input@, char_index(input@, cursor_index as nat)),
{
    let chars = text::chars_of(input);
    let from = char_position(&chars, cursor_index);
    let mut k = from;
    while k < chars.len() && !text::is_white_space(chars[k])
        invariant
            k <= chars@.len(),
            on_while(chars@, k as nat, false) == on_while(chars@, from as nat, false),
        decreases chars@.len() - k,
    {
        k = k + 1;
    }
    let ghost middle = k;
    while k < chars.len() && text::is_white_space(chars[k])
        invariant
            k <= chars@.len(),
            middle == on_while(chars@, from as nat, false),
            on_while(chars@, k as nat, true) == on_while(chars@, middle as nat, true),
        decreases chars@.len() - k,
    {
        k = k + 1;
    }
    proof {
        lemma_offset_is_boundary(input@, k as int);
    }
    byte_offset(&chars, k)
}

// ---------------------------------------------------------------- editing

/// Takes the characters between `from` and `to` out and puts the cursor there.
fn cut_out(input: &mut String, cursor_index: &mut usize, chars: &[char], from: usize, to: usize)
    requires
        chars@ == old(input)@,
        from <= to <= chars@.len(),
    ensures
        on_boundary(final(input)@, *final(cursor_index) as nat),
        line_of(final(input)@, *final(cursor_index) as nat) == line_of(
            old(input)@,
            *old(cursor_index) as nat,
        ).cut(from as nat, to as nat),
{
    let head = text::string_of(slice_subrange(chars, 0, from));
    let tail = text::string_of(slice_subrange(chars, to, chars.len()));
    let ghost whole = chars@;
    *cursor_index = text::byte_len(&head);
    *input = text::text2(&head, &tail);
    proof {
        assert(whole.subrange(0, from as int) == whole.take(from as int));
        assert(whole.subrange(to as int, whole.len() as int) == whole.skip(to as int));
        assert(input@.take(from as int) == head@);
        lemma_offset_is_boundary(input@, from as int);
    }
}

pub fn insert_char_at_cursor(input: &mut String, cursor_index: &mut usize, character: char)
    requires
        on_boundary(old(input)@, *old(cursor_index) as nat),
    ensures
        on_boundary(final(input)@, *final(cursor_index) as nat),
        line_of(final(input)@, *final(cursor_index) as nat) == line_of(
            old(input)@,
            *old(cursor_index) as nat,
        ).typed(character),
{
    let chars = text::chars_of(input.as_str());
    let k = char_position(&chars, *cursor_index);
    let mut head = text::string_of(slice_subrange(&chars, 0, k));
    let tail = text::string_of(slice_subrange(&chars, k, chars.len()));
    let ghost whole = chars@;
    head.push(character);
    *cursor_index = text::byte_len(&head);
    *input = text::text2(&head, &tail);
    proof {
        assert(input@ =~= whole.insert(k as int, character));
        assert(input@.take(k + 1) == head@);
        lemma_offset_is_boundary(input@, k + 1);
    }
}

pub fn remove_char_before_cursor(input: &mut String, cursor_index: &mut usize) -> (r: bool)
    requires
        on_boundary(old(input)@, *old(cursor_index) as nat),
    ensures
        on_boundary(final(input)@, *final(cursor_index) as nat),
        line_of(final(input)@, *final(cursor_index) as nat) == line_of(
            old(input)@,
            *old(cursor_index) as nat,
        ).without_char_before(),
        r == (*old(cursor_index) != 0),
{
    proof {
        lemma_ends(input@, *cursor_index as nat);
    }
    if *cursor_index == 0 {
        return false;
    }
    let chars = text::chars_of(input.as_str());
    let k = char_position(&chars, *cursor_index);
    cut_out(input, cursor_index, &chars, k - 1, k);
    true
}

pub fn remove_char_at_cursor(input: &mut String, cursor_index: &mut usize) -> (r: bool)
    requires
        on_boundary(old(input)@, *old(cursor_index) as nat),
    ensures
        on_boundary(final(input)@, *final(cursor_index) as nat),
        line_of(final(input)@, *final(cursor_index) as nat) == line_of(
            old(input)@,
            *old(cursor_index) as nat,
        ).without_char_after(),
        r == (*old(cursor_index) < text::utf8_len(old(input)@)),
{
    proof {
        lemma_ends(input@, *cursor_index as nat);
    }
    if *cursor_index >= text::byte_len(input.as_str()) {
        return false;
    }
    let chars = text::chars_of(input.as_str());
    let k = char_position(&chars, *cursor_index);
    assert(k < chars@.len());
    assert(chars@.len() == chars.len());
    cut_out(input, cursor_index, &chars, k, k + 1);
    true
}

pub fn remove_word_before_cursor(input: &mut String, cursor_index: &mut usize) -> (r: bool)
    requires
        on_boundary(old(input)@, *old(cursor_index) as nat),
    ensures
        on_boundary(final(input)@, *final(cursor_index) as nat),
        line_of(final(input)@, *final(cursor_index) as nat) == line_of(
            old(input)@,
            *old(cursor_index) as nat,
        ).without_word_before(),
        r == (*old(cursor_index) != 0),
{
    proof {
        lemma_ends(input@, *cursor_index as nat);
    }
    if *cursor_index == 0 {
        assert(input@.take(0) + input@.skip(0) =~= input@);
        return false;
    }
    let chars = text::chars_of(input.as_str());
    let k = char_position(&chars, *cursor_index);
    let start = start_of_word(&chars, k);
    cut_out(input, cursor_index, &chars, start, k);
    true
}

pub fn remove_after_cursor(input: &mut String, cursor_index: &mut usize) -> (r: bool)
    requires
        on_boundary(old(input)@, *old(cursor_index) as nat),
    ensures
        on_boundary(final(input)@, *final(cursor_index) as nat),
        line_of(final(input)@, *final(cursor_index) as nat) == line_of(
            old(input)@,
            *old(cursor_index) as nat,
        ).without_tail(),
        r == (*old(cursor_index) < text::utf8_len(old(input)@)),
{
    proof {
        lemma_ends(input@, *cursor_index as nat);
    }
    if *cursor_index >= text::byte_len(input.as_str()) {
        assert(input@.take(input@.len() as int) + input@.skip(input@.len() as int) =~= input@);
        return false;
    }
    let chars = text::chars_of(input.as_str());
    let k = char_position(&chars, *cursor_index);
    cut_out(input, cursor_index, &chars, k, chars.len());
    true
}

/// Takes everything before the cursor out.
pub fn remove_before_cursor(input: &mut String, cursor_index: &mut usize)
    requires
        on_boundary(old(input)@, *old(cursor_index) as nat),
    ensures
        on_boundary(final(input)@, *final(cursor_index) as nat),
        line_of(final(input)@, *final(cursor_index) as nat) == line_of(
            old(input)@,
            *old(cursor_index) as nat,
        ).without_head(),
        *final(cursor_index) == 0,
{
    let chars = text::chars_of(input.as_str());
    let k = char_position(&chars, *cursor_index);
    cut_out(input, cursor_index, &chars, 0, k);
    proof {
        lemma_ends(input@, *cursor_index as nat);
    }
}

/// The text before the cursor.
pub fn before_cursor(input: &str, cursor_index: usize) -> (r: String)
    requires
        on_boundary(input@, cursor_index as nat),
    ensures
        r@ == input@.take(char_index(input@, cursor_index as nat) as int),
{
    let chars = text::chars_of(input);
    let k = char_position(&chars, cursor_index);
    assert(chars@.subrange(0, k as int) == chars@.take(k as int));
    text::string_of(slice_subrange(&chars, 0, k))
}

/// A typed character stands where the cursor was, the cursor behind it; the rest stays.
pub proof fn typing_puts_the_character_there(line: Line, c: char)
    requires
        line.valid(),
    ensures
        line.typed(c).chars == line.chars.take(line.at as int) + seq![c] + line.chars.skip(
            line.at as int,
        ),
        line.typed(c).at == line.at + 1,
{
    assert(line.typed(c).chars =~= line.chars.take(line.at as int) + seq![c] + line.chars.skip(
        line.at as int,
    ));
}

/// Deleting takes the one character before, or behind, the cursor, and nothing at an end.
pub proof fn deleting_takes_one_character(line: Line)
    requires
        line.valid(),
    ensures
        line.at > 0 ==> line.without_char_before().chars == line.chars.remove(line.at - 1)
            && line.without_char_before().at == line.at - 1,
        line.at == 0 ==> line.without_char_before() == line,
        line.at < line.chars.len() ==> line.without_char_after().chars == line.chars.remove(
            line.at as int,
        ) && line.without_char_after().at == line.at,
        line.at == line.chars.len() ==> line.without_char_after() == line,
{
    if line.at > 0 {
        assert(line.without_char_before().chars =~= line.chars.remove(line.at - 1));
    }
    if line.at < line.chars.len() {
        assert(line.without_char_after().chars =~= line.chars.remove(line.at as int));
    }
}

/// Clearing before the cursor leaves what is behind it, clearing behind it what is before it; the
/// cursor stays between them.
pub proof fn clearing_leaves_the_other_side(line: Line)
    requires
        line.valid(),
    ensures
        line.without_head().chars == line.chars.skip(line.at as int),
        line.without_head().at == 0,
        line.without_tail().chars == line.chars.take(line.at as int),
        line.without_tail().at == line.at,
{
    assert(line.without_head().chars =~= line.chars.skip(line.at as int));
    assert(line.without_tail().chars =~= line.chars.take(line.at as int));
}

proof fn lemma_back_while_run(s: Seq<char>, k: nat, white: bool)
    requires
        k <= s.len(),
    ensures
        forall|i: int|
            back_while(s, k, white) <= i < k ==> text::white_space(#[trigger] s[i]) == white,
        back_while(s, k, white) > 0 ==> text::white_space(s[back_while(s, k, white) - 1]) != white,
        back_while(s, k, white) <= k,
    decreases k,
{
    if 0 < k && text::white_space(s[k - 1]) == white {
        lemma_back_while_run(s, (k - 1) as nat, white);
    }
}

proof fn lemma_on_while_run(s: Seq<char>, k: nat, white: bool)
    requires
        k <= s.len(),
    ensures
        forall|i: int|
            k <= i < on_while(s, k, white) ==> text::white_space(#[trigger] s[i]) == white,
        on_while(s, k, white) < s.len() ==> text::white_space(s[on_while(s, k, white) as int])
            != white,
        k <= on_while(s, k, white) <= s.len(),
    decreases s.len() - k,
{
    if k < s.len() && text::white_space(s[k as int]) == white {
        lemma_on_while_run(s, k + 1, white);
    }
}

/// Going back a word passes white space and then the word before it, up to where that begins; going
/// on a word passes the rest of the word and then the white space behind it.
pub proof fn word_steps_pass_one_word(s: Seq<char>, k: nat) -> (r: (nat, nat))
    requires
        k <= s.len(),
    ensures
        word_start(s, k) <= r.0 <= k <= r.1 <= word_end(s, k) <= s.len(),
        forall|i: int| r.0 <= i < k ==> text::white_space(#[trigger] s[i]),
        forall|i: int| word_start(s, k) <= i < r.0 ==> !text::white_space(#[trigger] s[i]),
        word_start(s, k) > 0 ==> text::white_space(s[word_start(s, k) - 1]),
        r.0 > 0 ==> word_start(s, k) < r.0,
        forall|i: int| k <= i < r.1 ==> !text::white_space(#[trigger] s[i]),
        forall|i: int| r.1 <= i < word_end(s, k) ==> text::white_space(#[trigger] s[i]),
        word_end(s, k) < s.len() ==> !text::white_space(s[word_end(s, k) as int]),
        r.1 < s.len() ==> r.1 < word_end(s, k),
{
    let before = back_while(s, k, true);
    let behind = on_while(s, k, false);
    lemma_back_while_run(s, k, true);
    lemma_back_while_run(s, before, false);
    lemma_on_while_run(s, k, false);
    lemma_on_while_run(s, behind, true);
    (before, behind)
}

/// Deleting a word takes what lies between its beginning and the cursor, and leaves the rest.
pub proof fn deleting_a_word_leaves_the_rest(line: Line)
    requires
        line.valid(),
    ensures
        line.without_word_before().chars == line.chars.take(
            word_start(line.chars, line.at) as int,
        ) + line.chars.skip(line.at as int),
        line.without_word_before().at == word_start(line.chars, line.at),
{
}

/// The cursor behind so many characters is found there again, whatever their width.
pub proof fn cursors_are_found_again(s: Seq<char>, k: int)
    requires
        0 <= k <= s.len(),
    ensures
        line_of(s, text::utf8_len(s.take(k))) == (Line { chars: s, at: k as nat }),
        line_of(s, text::utf8_len(s)).at == s.len(),
{
    lemma_offset_is_boundary(s, k);
    lemma_offset_is_boundary(s, s.len() as int);
    assert(s.take(s.len() as int) =~= s);
}

} // verus!
