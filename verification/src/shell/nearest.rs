//! Recovery from mistyped commands.

use crate::seqs;
use crate::shell::catalogue::{all_commands, localized_command_description, CommandSuggestion};
use crate::shell::catalogue;
use crate::shell::language::ShellLanguage;
use crate::shell::language;
use crate::sorting;
use crate::text;
use vstd::prelude::*;

verus! {

pub open spec fn least(a: nat, b: nat) -> nat {
    if b < a {
        b
    } else {
        a
    }
}

/// The fewest insertions, deletions and substitutions that turn `left` into `right`.
pub open spec fn edit_distance_spec(left: Seq<char>, right: Seq<char>) -> nat
    decreases left.len() + right.len(),
{
    if left.len() == 0 {
        right.len()
    } else if right.len() == 0 {
        left.len()
    } else {
        least(
            least(
                edit_distance_spec(left, right.drop_last()) + 1,
                edit_distance_spec(left.drop_last(), right) + 1,
            ),
            edit_distance_spec(left.drop_last(), right.drop_last()) + if left.last()
                != right.last() {
                1nat
            } else {
                0nat
            },
        )
    }
}

proof fn lemma_distance_bounded(left: Seq<char>, right: Seq<char>)
    ensures
        edit_distance_spec(left, right) <= if left.len() < right.len() {
            right.len()
        } else {
            left.len()
        },
    decreases left.len() + right.len(),
{
    if left.len() > 0 && right.len() > 0 {
        lemma_distance_bounded(left.drop_last(), right.drop_last());
    }
}

/// The distance does not depend on the direction.
pub proof fn edit_distance_is_symmetric(left: Seq<char>, right: Seq<char>)
    ensures
        edit_distance_spec(left, right) == edit_distance_spec(right, left),
    decreases left.len() + right.len(),
{
    if left.len() > 0 && right.len() > 0 {
        edit_distance_is_symmetric(left, right.drop_last());
        edit_distance_is_symmetric(left.drop_last(), right);
        edit_distance_is_symmetric(left.drop_last(), right.drop_last());
    }
}

/// Exactly equal texts have distance zero.
pub proof fn edit_distance_zero_means_equal(left: Seq<char>, right: Seq<char>)
    ensures
        edit_distance_spec(left, right) == 0 <==> left == right,
    decreases left.len() + right.len(),
{
    if left.len() > 0 && right.len() > 0 {
        edit_distance_zero_means_equal(left.drop_last(), right.drop_last());
        if left.last() == right.last() && left.drop_last() == right.drop_last() {
            assert(left == left.drop_last().push(left.last()));
            assert(right == right.drop_last().push(right.last()));
        }
    } else if left.len() == right.len() {
        assert(left =~= right);
    }
}

pub fn edit_distance(left: &str, right: &str) -> (r: usize)
    ensures
        r == edit_distance_spec(left@, right@),
{
    let a = text::chars_of(left);
    let b = text::chars_of(right);
    let mut previous: Vec<u128> = Vec::new();
    let mut k: usize = 0;
    assert(a@.take(0) == Seq::<char>::empty());
    loop
        invariant_except_break
            k <= b.len(),
            previous.len() == k,
            forall|j: int|
                0 <= j < k ==> #[trigger] previous@[j] == edit_distance_spec(
                    a@.take(0),
                    b@.take(j),
                ),
        invariant
            b@ == right@,
            a@ == left@,
        ensures
            k == b.len(),
            previous.len() == k + 1,
            forall|j: int|
                0 <= j <= k ==> #[trigger] previous@[j] == edit_distance_spec(
                    a@.take(0),
                    b@.take(j),
                ),
        decreases b.len() - k,
    {
        previous.push(k as u128);
        assert(b@.take(k as int).len() == k);
        if k == b.len() {
            break;
        }
        k = k + 1;
    }
    for i in 0..a.len()
        invariant
            a@ == left@,
            b@ == right@,
            previous.len() == b.len() + 1,
            forall|j: int|
                0 <= j <= b.len() ==> #[trigger] previous@[j] == edit_distance_spec(
                    a@.take(i as int),
                    b@.take(j),
                ),
    {
        let mut current: Vec<u128> = Vec::new();
        current.push(i as u128 + 1);
        assert(b@.take(0) == Seq::<char>::empty());
        for j in 0..b.len()
            invariant
                a@ == left@,
                b@ == right@,
                0 <= i < a.len(),
                previous.len() == b.len() + 1,
                forall|m: int|
                    0 <= m <= b.len() ==> #[trigger] previous@[m] == edit_distance_spec(
                        a@.take(i as int),
                        b@.take(m),
                    ),
                current.len() == j + 1,
                forall|m: int|
                    0 <= m <= j ==> #[trigger] current@[m] == edit_distance_spec(
                        a@.take(i + 1),
                        b@.take(m),
                    ),
        {
            proof {
                let x = a@.take(i + 1);
                let y = b@.take(j + 1);
                assert(x.drop_last() == a@.take(i as int));
                assert(y.drop_last() == b@.take(j as int));
                assert(x.last() == a@[i as int] && y.last() == b@[j as int]);
                lemma_distance_bounded(x, b@.take(j as int));
                lemma_distance_bounded(a@.take(i as int), y);
                lemma_distance_bounded(a@.take(i as int), b@.take(j as int));
            }
            let insertion: u128 = current[j] + 1;
            let deletion: u128 = previous[j + 1] + 1;
            let substitution: u128 = if a[i] != b[j] {
                previous[j] + 1
            } else {
                previous[j]
            };
            let mut best: u128 = insertion;
            if deletion < best {
                best = deletion;
            }
            if substitution < best {
                best = substitution;
            }
            current.push(best);
        }
        previous = current;
    }
    proof {
        assert(a@.take(a.len() as int) == a@);
        assert(b@.take(b.len() as int) == b@);
        lemma_distance_bounded(left@, right@);
    }
    previous[b.len()] as usize
}

// ---------------------------------------------------------------- nearest commands

/// The first word of a completion behind its slashes.
pub open spec fn command_token(completion: Seq<char>) -> Seq<char> {
    let word = text::first_word_spec(text::strip_leading_spec(completion, seq!['/']));
    if word.len() == 0 {
        completion
    } else {
        word
    }
}

pub open spec fn command_distance(typed: Seq<char>, command: CommandSuggestion) -> nat {
    edit_distance_spec(typed, command_token(command.completion@))
}

/// At most two edits away.
pub open spec fn near(typed: Seq<char>) -> spec_fn(CommandSuggestion) -> bool {
    |command: CommandSuggestion| command_distance(typed, command) <= 2
}

/// By distance, then by the length of the completion.
pub open spec fn nearer(typed: Seq<char>) -> spec_fn(CommandSuggestion, CommandSuggestion) -> bool {
    |a: CommandSuggestion, b: CommandSuggestion|
        command_distance(typed, a) < command_distance(typed, b) || (command_distance(typed, a)
            == command_distance(typed, b) && text::utf8_len(a.completion@) < text::utf8_len(
            b.completion@,
        ))
}

/// What was typed: leading white space, colons and slashes dropped, trimmed, in lower case.
pub open spec fn typed_command(input: Seq<char>) -> Seq<char> {
    text::ascii_lower_spec(
        text::trim_spec(text::strip_leading_spec(text::trim_start_spec(input), seq![':', '/'])),
    )
}

pub open spec fn at_most<A>(s: Seq<A>, n: int) -> Seq<A> {
    if s.len() <= n {
        s
    } else {
        s.take(n)
    }
}

/// The three nearest commands.
pub open spec fn nearest_spec(input: Seq<char>) -> Seq<CommandSuggestion> {
    let typed = typed_command(input);
    if typed.len() == 0 {
        Seq::empty()
    } else {
        at_most(
            sorting::stable_sort(catalogue::catalogue().filter(near(typed)), nearer(typed)),
            3,
        )
    }
}

#[derive(Debug, Clone, Copy)]
struct RankedCommand {
    distance: usize,
    length: usize,
    command: CommandSuggestion,
}

spec fn commands_in(ranked: Seq<RankedCommand>) -> Seq<CommandSuggestion> {
    Seq::new(ranked.len(), |i: int| ranked[i].command)
}

spec fn measured(ranked: Seq<RankedCommand>, typed: Seq<char>) -> bool {
    forall|i: int|
        0 <= i < ranked.len() ==> (#[trigger] ranked[i]).distance == command_distance(
            typed,
            ranked[i].command,
        ) && ranked[i].length == text::utf8_len(ranked[i].command.completion@)
}

fn insert_ranked(ranked: &mut Vec<RankedCommand>, entry: RankedCommand, Ghost(typed): Ghost<Seq<char>>)
    requires
        measured(old(ranked)@, typed),
        entry.distance == command_distance(typed, entry.command),
        entry.length == text::utf8_len(entry.command.completion@),
    ensures
        measured(final(ranked)@, typed),
        commands_in(final(ranked)@) == sorting::insert_stable(
            commands_in(old(ranked)@),
            entry.command,
            nearer(typed),
        ),
{
    let mut at: usize = ranked.len();
    while at > 0 && (entry.distance < ranked[at - 1].distance || (entry.distance == ranked[at
        - 1].distance && entry.length < ranked[at - 1].length))
        invariant
            at <= ranked.len(),
            ranked@ == old(ranked)@,
            measured(ranked@, typed),
            entry.distance == command_distance(typed, entry.command),
            entry.length == text::utf8_len(entry.command.completion@),
            forall|k: int|
                at <= k < ranked.len() ==> nearer(typed)(
                    entry.command,
                    #[trigger] commands_in(ranked@)[k],
                ),
        decreases at,
    {
        assert(commands_in(ranked@)[at - 1] == ranked@[at - 1].command);
        at = at - 1;
    }
    proof {
        if at > 0 {
            assert(commands_in(ranked@)[at - 1] == ranked@[at - 1].command);
        }
        sorting::lemma_insert_position(
            commands_in(ranked@),
            entry.command,
            nearer(typed),
            at as int,
        );
    }
    ranked.insert(at, entry);
    assert(commands_in(ranked@) =~= commands_in(old(ranked)@).insert(at as int, entry.command));
}

pub fn nearest_command_suggestions(input: &str) -> (r: Vec<CommandSuggestion>)
    ensures
        r@ == nearest_spec(input@),
{
    let rest = text::strip_leading(text::trim_start(input), &[':', '/']);
    assert([':', '/']@ =~= seq![':', '/']);
    let typed = text::ascii_lower(text::trim(rest));
    let mut r: Vec<CommandSuggestion> = Vec::new();
    if typed.as_str().is_empty() {
        return r;
    }
    let commands = all_commands();
    let ghost all = catalogue::catalogue();
    let ghost keep = near(typed@);
    let mut ranked: Vec<RankedCommand> = Vec::new();
    proof {
        seqs::lemma_filter_none(all, keep);
        assert(commands_in(ranked@) =~= Seq::<CommandSuggestion>::empty());
    }
    for i in 0..commands.len()
        invariant
            all == catalogue::catalogue(),
            commands@ == all,
            keep == near(typed@),
            measured(ranked@, typed@),
            commands_in(ranked@) == sorting::stable_sort(
                all.take(i as int).filter(keep),
                nearer(typed@),
            ),
    {
        let command = commands[i];
        let token = token_of(command.completion);
        let distance: usize = edit_distance(&typed, token);
        proof {
            seqs::lemma_filter_step(all, keep, i as int);
            sorting::lemma_sort_step(
                all.take(i as int).filter(keep),
                all[i as int],
                nearer(typed@),
            );
        }
        if distance <= 2 {
            let length: usize = text::byte_len(command.completion);
            insert_ranked(
                &mut ranked,
                RankedCommand { distance, length, command },
                Ghost(typed@),
            );
        }
    }
    assert(all.take(commands.len() as int) == all);
    let mut i: usize = 0;
    while i < ranked.len() && i < 3
        invariant
            i <= ranked.len(),
            i <= 3,
            r@ == commands_in(ranked@).take(i as int),
        decreases ranked.len() - i,
    {
        r.push(ranked[i].command);
        assert(commands_in(ranked@).take(i + 1) == commands_in(ranked@).take(i as int).push(
            ranked@[i as int].command,
        ));
        i = i + 1;
    }
    assert(commands_in(ranked@).take(ranked@.len() as int) == commands_in(ranked@));
    r
}

fn token_of(completion: &'static str) -> (r: &'static str)
    ensures
        r@ == command_token(completion@),
{
    let rest = text::strip_leading(completion, &['/']);
    assert(['/']@ =~= seq!['/']);
    let word = text::first_word(rest);
    if word.is_empty() {
        completion
    } else {
        word
    }
}

/// A suggestion for a typo is a command at most two edits away, and there are at most three.
pub proof fn nearest_commands_are_near(input: Seq<char>)
    ensures
        nearest_spec(input).len() <= 3,
        forall|i: int|
            0 <= i < nearest_spec(input).len() ==> catalogue::catalogue().contains(
                #[trigger] nearest_spec(input)[i],
            ) && command_distance(typed_command(input), nearest_spec(input)[i]) <= 2,
{
    broadcast use vstd::seq_lib::group_to_multiset_ensures;

    let typed = typed_command(input);
    let kept = catalogue::catalogue().filter(near(typed));
    let sorted = sorting::stable_sort(kept, nearer(typed));
    sorting::sorting_keeps_elements(kept, nearer(typed));
    seqs::lemma_filter_members(catalogue::catalogue(), near(typed));
    assert forall|i: int| 0 <= i < nearest_spec(input).len() implies catalogue::catalogue().contains(
        #[trigger] nearest_spec(input)[i],
    ) && command_distance(typed, nearest_spec(input)[i]) <= 2 by {
        let command = nearest_spec(input)[i];
        assert(sorted[i] == command);
        assert(sorted.contains(command));
        assert(kept.to_multiset().count(command) > 0);
        assert(kept.contains(command));
        let k = choose|k: int| 0 <= k < kept.len() && kept[k] == command;
        assert(near(typed)(kept[k]));
    }
}

/// Suggestions for a typo come nearest first, and shorter ones before longer ones at the same
/// distance.
pub proof fn nearest_commands_come_first(input: Seq<char>)
    ensures
        sorting::ordered(nearest_spec(input), nearer(typed_command(input))),
{
    let typed = typed_command(input);
    let kept = catalogue::catalogue().filter(near(typed));
    let sorted = sorting::stable_sort(kept, nearer(typed));
    sorting::sorting_orders(kept, nearer(typed));
    assert forall|i: int, j: int| 0 <= i < j < nearest_spec(input).len() implies !nearer(typed)(
        #[trigger] nearest_spec(input)[j],
        #[trigger] nearest_spec(input)[i],
    ) by {
        assert(nearest_spec(input)[i] == sorted[i] && nearest_spec(input)[j] == sorted[j]);
    }
}

// ---------------------------------------------------------------- messages

pub fn searching_line(input: &str, language: ShellLanguage) -> (r: String)
    ensures
        r@ == language::pick(language, "searching "@, "正在搜索 "@) + input@,
{
    text::text2(language.text("searching ", "正在搜索 "), input)
}

/// A suggestion, its completion filled up to sixteen characters.
pub open spec fn suggestion_line(command: CommandSuggestion, language: ShellLanguage) -> Seq<char> {
    "  "@ + text::pad_end_spec(command.completion@, 16) + " "@ + catalogue::description_spec(
        command.description@,
        language,
    )
}

pub open spec fn unknown_command_spec(
    first_token: Seq<char>,
    input: Seq<char>,
    suggestions: Seq<CommandSuggestion>,
    language: ShellLanguage,
) -> Seq<Seq<char>> {
    seq![
        language::pick(language, "unknown command: "@, "未知命令："@) + first_token,
        language::pick(language, "did you mean:"@, "你是不是想用:"@),
    ] + Seq::new(suggestions.len(), |i: int| suggestion_line(suggestions[i], language)) + seq![
        language::pick(language, "or type search "@, "或者输入 搜索 "@) + input,
    ]
}

pub fn unknown_command_lines(
    first_token: &str,
    input: &str,
    suggestions: Vec<CommandSuggestion>,
    language: ShellLanguage,
) -> (r: Vec<String>)
    ensures
        text::texts(r@) == unknown_command_spec(first_token@, input@, suggestions@, language),
{
    let mut lines: Vec<String> = Vec::new();
    lines.push(text::text2(language.text("unknown command: ", "未知命令："), first_token));
    lines.push(language.text("did you mean:", "你是不是想用:").to_owned());
    let ghost head = text::texts(lines@);
    let ghost middle = Seq::new(
        suggestions@.len(),
        |i: int| suggestion_line(suggestions@[i], language),
    );
    for i in 0..suggestions.len()
        invariant
            middle == Seq::new(
                suggestions@.len(),
                |i: int| suggestion_line(suggestions@[i], language),
            ),
            text::texts(lines@) == head + middle.take(i as int),
    {
        let completion = text::pad_end(suggestions[i].completion, 16);
        let description = localized_command_description(suggestions[i].description, language);
        let ghost before = lines@;
        lines.push(text::text4("  ", &completion, " ", description));
        proof {
            assert(text::texts(lines@) =~= text::texts(before).push(middle[i as int]));
            assert(middle.take(i + 1) =~= middle.take(i as int).push(middle[i as int]));
        }
    }
    assert(middle.take(suggestions@.len() as int) =~= middle);
    let ghost before = lines@;
    lines.push(text::text2(language.text("or type search ", "或者输入 搜索 "), input));
    assert(text::texts(lines@) =~= text::texts(before).push(
        language::pick(language, "or type search "@, "或者输入 搜索 "@) + input@,
    ));
    lines
}

/// One character is put in, taken out or replaced.
pub open spec fn one_edit(a: Seq<char>, b: Seq<char>) -> bool {
    ||| exists|i: int| 0 <= i < a.len() && b == #[trigger] a.remove(i)
    ||| exists|i: int| 0 <= i < b.len() && a == #[trigger] b.remove(i)
    ||| exists|i: int, c: char| 0 <= i < a.len() && b == #[trigger] a.update(i, c)
}

proof fn lemma_insert_step(left: Seq<char>, head: Seq<char>, c: char, tail: Seq<char>)
    ensures
        edit_distance_spec(left, head + seq![c] + tail) <= edit_distance_spec(left, head + tail)
            + 1,
        edit_distance_spec(left, head + tail) <= edit_distance_spec(left, head + seq![c] + tail)
            + 1,
    decreases left.len() + head.len() + tail.len(),
{
    let long = head + seq![c] + tail;
    let short = head + tail;
    if left.len() == 0 {
    } else if tail.len() > 0 {
        assert(long.drop_last() =~= head + seq![c] + tail.drop_last());
        assert(short.drop_last() =~= head + tail.drop_last());
        assert(long.last() == short.last());
        lemma_insert_step(left, head, c, tail.drop_last());
        lemma_insert_step(left.drop_last(), head, c, tail);
        lemma_insert_step(left.drop_last(), head, c, tail.drop_last());
    } else {
        assert(short =~= head);
        assert(long =~= head.push(c));
        assert(long.drop_last() =~= head);
        if head.len() == 0 {
            lemma_distance_bounded(left.drop_last(), long);
            lemma_distance_to_nothing(left.drop_last());
            lemma_distance_at_least(left.drop_last(), long);
        } else {
            lemma_insert_step(left.drop_last(), head, c, tail);
            assert(head + tail =~= head);
            assert(head + seq![c] + tail =~= long);
            lemma_insert_step(left.drop_last(), head.drop_last(), head.last(), Seq::empty());
            assert(head.drop_last() + Seq::<char>::empty() =~= head.drop_last());
            assert(head.drop_last() + seq![head.last()] + Seq::<char>::empty() =~= head);
            lemma_left_step(left, head);
        }
    }
}

proof fn lemma_distance_to_nothing(s: Seq<char>)
    ensures
        edit_distance_spec(s, Seq::empty()) == s.len(),
        edit_distance_spec(Seq::empty(), s) == s.len(),
{
}

/// Taking the last character off the left text changes the distance by at most one.
proof fn lemma_left_step(left: Seq<char>, right: Seq<char>)
    requires
        left.len() > 0,
    ensures
        edit_distance_spec(left.drop_last(), right) <= edit_distance_spec(left, right) + 1,
    decreases left.len() + right.len(),
{
    if right.len() > 0 {
        lemma_left_step(left, right.drop_last());
    }
}

/// Texts are at least as far apart as their lengths.
proof fn lemma_distance_at_least(left: Seq<char>, right: Seq<char>)
    ensures
        edit_distance_spec(left, right) >= left.len() - right.len(),
        edit_distance_spec(left, right) >= right.len() - left.len(),
    decreases left.len() + right.len(),
{
    if left.len() > 0 && right.len() > 0 {
        lemma_distance_at_least(left, right.drop_last());
        lemma_distance_at_least(left.drop_last(), right);
        lemma_distance_at_least(left.drop_last(), right.drop_last());
    }
}

proof fn lemma_replace_step(left: Seq<char>, head: Seq<char>, c: char, d: char, tail: Seq<char>)
    ensures
        edit_distance_spec(left, head + seq![c] + tail) <= edit_distance_spec(
            left,
            head + seq![d] + tail,
        ) + 1,
    decreases left.len() + tail.len(),
{
    let one = head + seq![c] + tail;
    let other = head + seq![d] + tail;
    if left.len() > 0 {
        if tail.len() > 0 {
            assert(one.drop_last() =~= head + seq![c] + tail.drop_last());
            assert(other.drop_last() =~= head + seq![d] + tail.drop_last());
            assert(one.last() == other.last());
            lemma_replace_step(left, head, c, d, tail.drop_last());
            lemma_replace_step(left.drop_last(), head, c, d, tail);
            lemma_replace_step(left.drop_last(), head, c, d, tail.drop_last());
        } else {
            assert(one.drop_last() =~= head);
            assert(other.drop_last() =~= head);
            lemma_replace_step(left.drop_last(), head, c, d, tail);
        }
    }
}

/// One edit brings two texts nearer or further apart by at most one, so that a text that takes
/// `n` edits to make is at most `n` away.
pub proof fn one_edit_is_one_step(left: Seq<char>, right: Seq<char>, edited: Seq<char>)
    requires
        one_edit(right, edited),
    ensures
        edit_distance_spec(left, edited) <= edit_distance_spec(left, right) + 1,
        edit_distance_spec(left, right) <= edit_distance_spec(left, edited) + 1,
{
    if exists|i: int| 0 <= i < right.len() && edited == #[trigger] right.remove(i) {
        let i = choose|i: int| 0 <= i < right.len() && edited == #[trigger] right.remove(i);
        let (head, tail) = (right.take(i), right.skip(i + 1));
        assert(right =~= head + seq![right[i]] + tail);
        assert(edited =~= head + tail);
        lemma_insert_step(left, head, right[i], tail);
    } else if exists|i: int| 0 <= i < edited.len() && right == #[trigger] edited.remove(i) {
        let i = choose|i: int| 0 <= i < edited.len() && right == #[trigger] edited.remove(i);
        let (head, tail) = (edited.take(i), edited.skip(i + 1));
        assert(edited =~= head + seq![edited[i]] + tail);
        assert(right =~= head + tail);
        lemma_insert_step(left, head, edited[i], tail);
    } else {
        let (i, c) = choose|i: int, c: char|
            0 <= i < right.len() && edited == #[trigger] right.update(i, c);
        let (head, tail) = (right.take(i), right.skip(i + 1));
        assert(right =~= head + seq![right[i]] + tail);
        assert(edited =~= head + seq![c] + tail);
        lemma_replace_step(left, head, c, right[i], tail);
        lemma_replace_step(left, head, right[i], c, tail);
    }
}

proof fn lemma_edit_under_last(a: Seq<char>, b: Seq<char>, last: char)
    requires
        one_edit(a, b),
    ensures
        one_edit(a.push(last), b.push(last)),
{
    if exists|i: int| 0 <= i < a.len() && b == #[trigger] a.remove(i) {
        let i = choose|i: int| 0 <= i < a.len() && b == #[trigger] a.remove(i);
        assert(b.push(last) =~= a.push(last).remove(i));
    } else if exists|i: int| 0 <= i < b.len() && a == #[trigger] b.remove(i) {
        let i = choose|i: int| 0 <= i < b.len() && a == #[trigger] b.remove(i);
        assert(a.push(last) =~= b.push(last).remove(i));
    } else {
        let (i, c) = choose|i: int, c: char| 0 <= i < a.len() && b == #[trigger] a.update(i, c);
        assert(b.push(last) =~= a.push(last).update(i, c));
    }
}

/// Between different texts some edit brings them one nearer: the distance is the number of edits
/// that it takes, and not more.
pub proof fn some_edit_comes_nearer(left: Seq<char>, right: Seq<char>) -> (nearer: Seq<char>)
    requires
        left != right,
    ensures
        one_edit(right, nearer),
        edit_distance_spec(left, nearer) + 1 == edit_distance_spec(left, right),
    decreases left.len() + right.len(),
{
    edit_distance_zero_means_equal(left, right);
    let distance = edit_distance_spec(left, right);
    if left.len() == 0 {
        let nearer = right.drop_last();
        assert(nearer =~= right.remove(right.len() - 1));
        nearer
    } else if right.len() == 0 {
        let nearer = seq![left.last()];
        assert(right =~= nearer.remove(0));
        assert(nearer.drop_last() =~= Seq::<char>::empty());
        assert(nearer.drop_last() == right);
        lemma_distance_to_nothing(left.drop_last());
        assert(edit_distance_spec(left, nearer) <= edit_distance_spec(left.drop_last(), right));
        one_edit_is_one_step(left, right, nearer);
        nearer
    } else if distance == edit_distance_spec(left, right.drop_last()) + 1 {
        let nearer = right.drop_last();
        assert(nearer =~= right.remove(right.len() - 1));
        nearer
    } else if distance == edit_distance_spec(left.drop_last(), right) + 1 {
        let nearer = right.push(left.last());
        assert(right =~= nearer.remove(nearer.len() - 1));
        assert(nearer.drop_last() =~= right);
        assert(edit_distance_spec(left, nearer) <= edit_distance_spec(left.drop_last(), right));
        one_edit_is_one_step(left, right, nearer);
        nearer
    } else if left.last() != right.last() {
        let nearer = right.update(right.len() - 1, left.last());
        assert(nearer.drop_last() =~= right.drop_last());
        assert(nearer.last() == left.last());
        one_edit_is_one_step(left, right, nearer);
        nearer
    } else {
        let (a, b) = (left.drop_last(), right.drop_last());
        assert(left =~= a.push(left.last()));
        assert(right =~= b.push(left.last()));
        let shorter = some_edit_comes_nearer(a, b);
        let nearer = shorter.push(left.last());
        lemma_edit_under_last(b, shorter, left.last());
        assert(nearer.drop_last() =~= shorter);
        assert(edit_distance_spec(left, nearer) <= edit_distance_spec(a, shorter));
        one_edit_is_one_step(left, right, nearer);
        nearer
    }
}

/// Every command within two edits is offered, unless three others are that are as near.
pub proof fn near_commands_are_offered(input: Seq<char>, i: int)
    requires
        0 <= i < catalogue::catalogue().len(),
        typed_command(input).len() > 0,
        edit_distance_spec(
            typed_command(input),
            command_token(catalogue::catalogue()[i].completion@),
        ) <= 2,
        !nearest_spec(input).contains(catalogue::catalogue()[i]),
    ensures
        nearest_spec(input).len() == 3,
        forall|k: int|
            0 <= k < 3 ==> edit_distance_spec(
                typed_command(input),
                command_token((#[trigger] nearest_spec(input)[k]).completion@),
            ) <= edit_distance_spec(
                typed_command(input),
                command_token(catalogue::catalogue()[i].completion@),
            ),
{
    let typed = typed_command(input);
    let all = catalogue::catalogue().filter(near(typed));
    let sorted = sorting::stable_sort(all, nearer(typed));
    let left_out = catalogue::catalogue()[i];
    seqs::lemma_filter_keeps(catalogue::catalogue(), near(typed), i);
    sorting::sorting_keeps_elements(all, nearer(typed));
    sorted.to_multiset_ensures();
    all.to_multiset_ensures();
    assert(sorted.to_multiset().count(left_out) > 0);
    let at = choose|at: int| 0 <= at < sorted.len() && sorted[at] == left_out;
    if sorted.len() <= 3 {
        assert(nearest_spec(input)[at] == left_out);
    }
    if at < 3 {
        assert(nearest_spec(input)[at] == left_out);
    }
    sorting::sorting_orders(all, nearer(typed));
    assert forall|k: int| 0 <= k < 3 implies edit_distance_spec(
        typed,
        command_token((#[trigger] nearest_spec(input)[k]).completion@),
    ) <= edit_distance_spec(typed, command_token(left_out.completion@)) by {
        assert(!nearer(typed)(sorted[at], sorted[k]));
    }
}

/// What is offered comes in the order of its distance, and nothing is offered that is further than
/// two edits away.
pub proof fn offered_commands_come_by_distance(input: Seq<char>, i: int, j: int)
    requires
        0 <= i <= j < nearest_spec(input).len(),
    ensures
        edit_distance_spec(
            typed_command(input),
            command_token(nearest_spec(input)[i].completion@),
        ) <= edit_distance_spec(
            typed_command(input),
            command_token(nearest_spec(input)[j].completion@),
        ) <= 2,
        i < j && edit_distance_spec(
            typed_command(input),
            command_token(nearest_spec(input)[i].completion@),
        ) == edit_distance_spec(
            typed_command(input),
            command_token(nearest_spec(input)[j].completion@),
        ) ==> text::utf8_len(nearest_spec(input)[i].completion@) <= text::utf8_len(
            nearest_spec(input)[j].completion@,
        ),
{
    nearest_commands_are_near(input);
    nearest_commands_come_first(input);
    if i < j {
        assert(!nearer(typed_command(input))(nearest_spec(input)[j], nearest_spec(input)[i]));
    }
}

/// Slashes and colons before a word, white space around it and its case make no difference.
pub proof fn typed_commands_read_alike(word: Seq<char>, mark: char)
    requires
        mark == '/' || mark == ':',
        word.len() > 0 ==> !text::white_space(word[0]),
    ensures
        typed_command(seq![mark] + word) == typed_command(word),
        typed_command(seq![' '] + word) == typed_command(word),
{
    let marked = seq![mark] + word;
    assert(marked.skip(1) =~= word);
    assert(seq![':', '/'].contains(mark)) by {
        assert(seq![':', '/'][0] == ':');
        assert(seq![':', '/'][1] == '/');
    }
    assert(marked[0] == mark);
    assert(text::trim_start_spec(marked) == marked);
    assert(text::trim_start_spec(word) == word);
    assert((seq![' '] + word).skip(1) =~= word);
    assert((seq![' '] + word)[0] == ' ');
}

/// A slash before a command, and what follows its first word, make no difference to how near it is.
pub proof fn commands_are_measured_by_their_word(word: Seq<char>, rest: Seq<char>)
    requires
        word.len() > 0,
        forall|i: int| 0 <= i < word.len() ==> !text::white_space(#[trigger] word[i]),
        word[0] != '/',
        rest.len() > 0,
        !text::white_space(rest[0]),
        !text::white_space(rest.last()),
    ensures
        command_token(word) == word,
        command_token("/"@ + word) == word,
        command_token(word + " "@ + rest) == word,
{
    reveal_strlit("/");
    reveal_strlit(" ");
    assert(forall|c: char| seq!['/'].contains(c) ==> c == '/');
    assert(seq!['/'].contains('/')) by {
        assert(seq!['/'][0] == '/');
    }
    assert(!seq!['/'].contains(word[0]));
    text::single_word_is_the_first(word);
    text::first_word_and_rest(word, rest);
    assert(text::strip_leading_spec(word, seq!['/']) == word);
    let slashed = "/"@ + word;
    assert(slashed[0] == '/');
    assert(slashed.skip(1) =~= word);
    assert(text::strip_leading_spec(slashed, seq!['/']) == word);
    let longer = word + " "@ + rest;
    assert(longer[0] == word[0]);
    assert(text::strip_leading_spec(longer, seq!['/']) == longer);
}

/// An unknown command is named, the near ones follow one by one, and last the search for all that was
/// typed.
pub proof fn unknown_commands_are_named(
    token: Seq<char>,
    input: Seq<char>,
    suggestions: Seq<CommandSuggestion>,
    language: ShellLanguage,
    i: int,
)
    requires
        0 <= i < suggestions.len(),
    ensures
        ({
            let lines = unknown_command_spec(token, input, suggestions, language);
            &&& lines.len() == suggestions.len() + 3
            &&& text::ends_with_spec(lines[0], token)
            &&& text::starts_with_spec(lines[i + 2], "  "@ + suggestions[i].completion@)
            &&& text::ends_with_spec(
                lines[i + 2],
                catalogue::description_spec(suggestions[i].description@, language),
            )
            &&& text::ends_with_spec(lines.last(), input)
        }),
{
    text::begins_and_ends(language::pick(language, "unknown command: "@, "未知命令："@), token);
    text::begins_and_ends(language::pick(language, "or type search "@, "或者输入 搜索 "@), input);
    let shown = text::pad_end_spec(suggestions[i].completion@, 16);
    let description = catalogue::description_spec(suggestions[i].description@, language);
    let line = suggestion_line(suggestions[i], language);
    assert(line == "  "@ + shown + " "@ + description);
    text::begins_and_ends("  "@ + shown + " "@, description);
    let named = "  "@ + suggestions[i].completion@;
    assert(line.take(named.len() as int) =~= named);
}

} // verus!
