//! The tracks that play one after the other in a session, and how their order is edited.

use crate::library::Track;
use crate::shell::info;
use crate::shell::layout;
use crate::shell::results;
use crate::shell::suggestions;
use crate::text;
use vstd::prelude::*;

verus! {

/// How many entries are listed, counted from the current one, unless all are asked for.
pub const LISTED_ENTRIES: usize = 10;

/// The tracks in the order in which they play, and the entry that is current.
#[derive(Debug)]
pub struct QueueOrder {
    pub tracks: Vec<Track>,
    pub at: usize,
}

#[verifier::ext_equal]
pub ghost struct Order {
    pub tracks: Seq<Track>,
    pub at: int,
}

impl View for QueueOrder {
    type V = Order;

    open spec fn view(&self) -> Order {
        Order { tracks: self.tracks@, at: self.at as int }
    }
}

/// The order of a session, and the one before its last edit.
#[derive(Debug)]
pub struct SessionQueue {
    pub order: QueueOrder,
    pub before: Option<QueueOrder>,
}

#[verifier::ext_equal]
pub ghost struct Queue {
    pub order: Order,
    pub before: Option<Order>,
}

impl View for SessionQueue {
    type V = Queue;

    open spec fn view(&self) -> Queue {
        Queue {
            order: self.order@,
            before: match self.before {
                Some(before) => Some(before@),
                None => None,
            },
        }
    }
}

// ---------------------------------------------------------------- edits

/// The state from which the next pick of a shuffle is drawn.
pub open spec fn next_seed(seed: u64) -> u64 {
    ((seed * 6364136223846793005 + 1442695040888963407) % 0x1_0000_0000_0000_0000) as u64
}

pub open spec fn pick(seed: u64, count: nat) -> int {
    ((next_seed(seed) / 0x2_0000_0000) as int) % (count as int)
}

/// One track after the other is picked out of those that are left.
pub open spec fn shuffled(tracks: Seq<Track>, seed: u64) -> Seq<Track>
    decreases tracks.len(),
{
    if tracks.len() == 0 {
        Seq::empty()
    } else {
        proof {
            lemma_pick_is_one(seed, tracks.len());
        }
        let i = pick(seed, tracks.len());
        seq![tracks[i]] + shuffled(tracks.remove(i), next_seed(seed))
    }
}

impl Order {
    /// The current entry is one of the queue; an empty queue has none.
    pub open spec fn wf(self) -> bool {
        if self.tracks.len() == 0 {
            self.at == 0
        } else {
            0 <= self.at < self.tracks.len()
        }
    }

    /// How many entries have been reached, the current one with them.
    pub open spec fn reached(self) -> int {
        if self.tracks.len() == 0 {
            0
        } else {
            self.at + 1
        }
    }

    pub open spec fn upcoming(self) -> Seq<Track> {
        self.tracks.skip(self.reached())
    }

    pub open spec fn with_upcoming(self, upcoming: Seq<Track>) -> Order {
        Order { tracks: self.tracks.take(self.reached()) + upcoming, at: self.at }
    }

    pub open spec fn appended(self, track: Track) -> Order {
        Order { tracks: self.tracks.push(track), at: self.at }
    }

    pub open spec fn played_next(self, track: Track) -> Order {
        Order { tracks: self.tracks.insert(self.reached(), track), at: self.at }
    }

    pub open spec fn upcoming_reversed(self) -> Order {
        self.with_upcoming(self.upcoming().reverse())
    }

    pub open spec fn upcoming_shuffled(self, seed: u64) -> Order {
        self.with_upcoming(shuffled(self.upcoming(), seed))
    }

    /// The current entry stays; of other entries with one path, the first.
    pub open spec fn is_kept(self, i: int) -> bool {
        i == self.at || (self.tracks[i].path@ != self.tracks[self.at].path@ && forall|j: int|
            0 <= j < i ==> (#[trigger] self.tracks[j]).path@ != self.tracks[i].path@)
    }

    /// What is kept of the first `n` entries.
    pub open spec fn kept(self, n: int) -> Seq<Track>
        decreases n,
    {
        if n <= 0 {
            Seq::empty()
        } else if self.is_kept(n - 1) {
            self.kept(n - 1).push(self.tracks[n - 1])
        } else {
            self.kept(n - 1)
        }
    }

    pub open spec fn deduped(self) -> Order {
        Order {
            tracks: self.kept(self.tracks.len() as int),
            at: self.kept(self.at).len() as int,
        }
    }

    /// The entry at `from` stands at `to`; the current track stays current.
    pub open spec fn moved(self, from: int, to: int) -> Order {
        let without = if from < self.at {
            self.at - 1
        } else {
            self.at
        };
        Order {
            tracks: self.tracks.remove(from).insert(to, self.tracks[from]),
            at: if from == self.at {
                to
            } else if to <= without {
                without + 1
            } else {
                without
            },
        }
    }

    pub open spec fn removed(self, i: int) -> Order {
        Order {
            tracks: self.tracks.remove(i),
            at: if i < self.at {
                self.at - 1
            } else {
                self.at
            },
        }
    }

    /// Only the current entry is left.
    pub open spec fn cleared(self) -> Order {
        Order { tracks: seq![self.tracks[self.at]], at: 0 }
    }
}

fn copy_range(tracks: &[Track], from: usize, to: usize) -> (r: Vec<Track>)
    requires
        from <= to <= tracks@.len(),
    ensures
        r@ == tracks@.subrange(from as int, to as int),
{
    let mut r: Vec<Track> = Vec::new();
    let mut i: usize = from;
    while i < to
        invariant
            from <= i <= to <= tracks@.len(),
            r@ == tracks@.subrange(from as int, i as int),
        decreases to - i,
    {
        r.push(tracks[i].clone());
        assert(tracks@.subrange(from as int, i as int).push(tracks@[i as int])
            =~= tracks@.subrange(from as int, i + 1));
        i = i + 1;
    }
    r
}

pub fn copy_tracks(tracks: &[Track]) -> (r: Vec<Track>)
    ensures
        r@ == tracks@,
{
    let r = copy_range(tracks, 0, tracks.len());
    assert(tracks@.subrange(0, tracks@.len() as int) =~= tracks@);
    r
}

fn draw(seed: u64) -> (r: u64)
    ensures
        r == next_seed(seed),
{
    let drawn = (seed as u128 * 6364136223846793005 + 1442695040888963407)
        % 0x1_0000_0000_0000_0000;
    drawn as u64
}

pub proof fn lemma_pick_is_one(seed: u64, count: nat)
    requires
        count > 0,
    ensures
        0 <= pick(seed, count) < count,
{
    vstd::arithmetic::div_mod::lemma_mod_bound(
        (next_seed(seed) / 0x2_0000_0000) as int,
        count as int,
    );
}

fn shuffle(tracks: Vec<Track>, seed: u64) -> (r: Vec<Track>)
    ensures
        r@ == shuffled(tracks@, seed),
{
    let mut rest = tracks;
    let mut seed: u64 = seed;
    let ghost expected = shuffled(tracks@, seed);
    let mut r: Vec<Track> = Vec::new();
    assert(r@ + shuffled(rest@, seed) =~= expected);
    while rest.len() > 0
        invariant
            r@ + shuffled(rest@, seed) == expected,
        decreases rest@.len(),
    {
        proof {
            lemma_pick_is_one(seed, rest@.len());
        }
        let ghost left = rest@;
        let ghost before = r@;
        let next = draw(seed);
        let i: usize = ((next / 0x2_0000_0000) % (rest.len() as u64)) as usize;
        let track = rest.remove(i);
        r.push(track);
        assert(r@ + shuffled(rest@, next) =~= before + shuffled(left, seed));
        seed = next;
    }
    assert(r@ =~= expected);
    r
}

impl QueueOrder {
    fn reached_count(&self) -> (r: usize)
        requires
            self@.wf(),
        ensures
            r == self@.reached(),
            r <= self.tracks@.len(),
    {
        if self.tracks.len() == 0 {
            0
        } else {
            self.at + 1
        }
    }

    pub fn copy(&self) -> (r: Self)
        ensures
            r@ == self@,
    {
        QueueOrder { tracks: copy_tracks(&self.tracks), at: self.at }
    }

    pub fn appended(&self, track: Track) -> (r: Self)
        ensures
            r@ == self@.appended(track),
    {
        let mut tracks = copy_tracks(&self.tracks);
        tracks.push(track);
        QueueOrder { tracks, at: self.at }
    }

    pub fn played_next(&self, track: Track) -> (r: Self)
        requires
            self@.wf(),
        ensures
            r@ == self@.played_next(track),
    {
        let at = self.reached_count();
        let mut tracks = copy_tracks(&self.tracks);
        tracks.insert(at, track);
        QueueOrder { tracks, at: self.at }
    }

    pub fn upcoming_reversed(&self) -> (r: Self)
        requires
            self@.wf(),
        ensures
            r@ == self@.upcoming_reversed(),
    {
        let reached = self.reached_count();
        let mut tracks = copy_range(&self.tracks, 0, reached);
        let mut left: usize = self.tracks.len();
        while left > reached
            invariant
                self@.wf(),
                reached == self@.reached(),
                reached <= left <= self.tracks@.len(),
                tracks@ == self.tracks@.take(reached as int) + self.tracks@.skip(
                    left as int,
                ).reverse(),
            decreases left - reached,
        {
            left = left - 1;
            tracks.push(self.tracks[left].clone());
            assert(self.tracks@.skip(left as int).reverse() =~= self.tracks@.skip(
                left + 1,
            ).reverse().push(self.tracks@[left as int]));
        }
        QueueOrder { tracks, at: self.at }
    }

    pub fn upcoming_shuffled(&self, seed: u64) -> (r: Self)
        requires
            self@.wf(),
        ensures
            r@ == self@.upcoming_shuffled(seed),
    {
        let reached = self.reached_count();
        let mut tracks = copy_range(&self.tracks, 0, reached);
        let upcoming = copy_range(&self.tracks, reached, self.tracks.len());
        assert(upcoming@ =~= self@.upcoming());
        let mut mixed = shuffle(upcoming, seed);
        tracks.append(&mut mixed);
        assert(tracks@ =~= self@.upcoming_shuffled(seed).tracks);
        QueueOrder { tracks, at: self.at }
    }

    fn keeps(&self, i: usize) -> (r: bool)
        requires
            self@.wf(),
            i < self.tracks@.len(),
        ensures
            r == self@.is_kept(i as int),
    {
        if i == self.at {
            return true;
        }
        if text::same_text(&self.tracks[i].path, &self.tracks[self.at].path) {
            return false;
        }
        for j in 0..i
            invariant
                i < self.tracks@.len(),
                i != self.at,
                forall|k: int|
                    0 <= k < j ==> (#[trigger] self.tracks@[k]).path@
                        != self.tracks@[i as int].path@,
        {
            if text::same_text(&self.tracks[j].path, &self.tracks[i].path) {
                assert(self@.tracks[j as int].path@ == self@.tracks[i as int].path@);
                return false;
            }
        }
        true
    }

    pub fn deduped(&self) -> (r: Self)
        requires
            self@.wf(),
        ensures
            r@ == self@.deduped(),
    {
        let mut tracks: Vec<Track> = Vec::new();
        let mut at: usize = 0;
        for i in 0..self.tracks.len()
            invariant
                self@.wf(),
                tracks@ == self@.kept(i as int),
                i <= self.at ==> at == 0,
                i > self.at ==> at == self@.kept(self.at as int).len(),
        {
            if i == self.at {
                at = tracks.len();
            }
            if self.keeps(i) {
                tracks.push(self.tracks[i].clone());
            }
        }
        assert(self.tracks@.len() == 0 ==> self@.kept(self.at as int) =~= Seq::empty());
        QueueOrder { tracks, at }
    }

    pub fn moved(&self, from: usize, to: usize) -> (r: Self)
        requires
            self@.wf(),
            from < self.tracks@.len(),
            to < self.tracks@.len(),
        ensures
            r@ == self@.moved(from as int, to as int),
    {
        let mut tracks = copy_tracks(&self.tracks);
        let track = tracks.remove(from);
        tracks.insert(to, track);
        let without = if from < self.at {
            self.at - 1
        } else {
            self.at
        };
        let at = if from == self.at {
            to
        } else if to <= without {
            without + 1
        } else {
            without
        };
        QueueOrder { tracks, at }
    }

    pub fn removed(&self, i: usize) -> (r: Self)
        requires
            self@.wf(),
            i < self.tracks@.len(),
        ensures
            r@ == self@.removed(i as int),
    {
        let mut tracks = copy_tracks(&self.tracks);
        tracks.remove(i);
        let at = if i < self.at {
            self.at - 1
        } else {
            self.at
        };
        QueueOrder { tracks, at }
    }

    pub fn cleared(&self) -> (r: Self)
        requires
            self@.wf(),
            self.tracks@.len() > 0,
        ensures
            r@ == self@.cleared(),
    {
        let tracks = vec![self.tracks[self.at].clone()];
        assert(tracks@ =~= seq![self.tracks@[self.at as int]]);
        QueueOrder { tracks, at: 0 }
    }
}

// ---------------------------------------------------------------- what is asked of the queue

/// What follows the word for the queue; entries and results are counted from one.
#[derive(Debug, Clone, Copy, PartialEq, Eq, Structural)]
pub enum QueueCommand {
    Show,
    All,
    Undo,
    Shuffle,
    Reverse,
    Dedupe,
    Clear,
    /// Play a result next.
    Next(usize),
    /// Append a result.
    Add(usize),
    Move { from: usize, to: usize },
    Remove(usize),
    Jump(usize),
    Unclear,
}

pub const QUEUE_WORDS: [(&'static str, QueueCommand); 7] = [
    ("", QueueCommand::Show),
    ("all", QueueCommand::All),
    ("undo", QueueCommand::Undo),
    ("shuffle", QueueCommand::Shuffle),
    ("reverse", QueueCommand::Reverse),
    ("dedupe", QueueCommand::Dedupe),
    ("clear", QueueCommand::Clear),
];

pub open spec fn word_from(word: Seq<char>, from: int) -> Option<QueueCommand>
    decreases QUEUE_WORDS@.len() - from,
{
    if from < 0 || from >= QUEUE_WORDS@.len() {
        None
    } else if QUEUE_WORDS@[from].0@ == word {
        Some(QUEUE_WORDS@[from].1)
    } else {
        word_from(word, from + 1)
    }
}

fn find_word(word: &str) -> (r: Option<QueueCommand>)
    ensures
        r == word_from(word@, 0),
{
    let words = QUEUE_WORDS;
    let mut i: usize = 0;
    while i < words.len()
        invariant
            words@ == QUEUE_WORDS@,
            i <= words@.len(),
            word_from(word@, 0) == word_from(word@, i as int),
        decreases words@.len() - i,
    {
        if text::same_text(words[i].0, word) {
            return Some(words[i].1);
        }
        i = i + 1;
    }
    None
}

/// The command on the number that is the whole of `s`.
pub open spec fn numbered(s: Seq<char>, command: spec_fn(usize) -> QueueCommand) -> QueueCommand {
    match suggestions::parse_index_spec(s) {
        Some(n) => command(n),
        None => QueueCommand::Unclear,
    }
}

pub open spec fn parse_queue_spec(argument: Seq<char>) -> QueueCommand {
    let whole = text::ascii_lower_spec(text::trim_spec(argument));
    let word = text::first_word_spec(whole);
    let rest = text::trim_spec(text::after_word_spec(whole));
    match word_from(whole, 0) {
        Some(command) => command,
        None => if word == "next"@ {
            numbered(rest, |n: usize| QueueCommand::Next(n))
        } else if word == "add"@ {
            numbered(rest, |n: usize| QueueCommand::Add(n))
        } else if word == "remove"@ {
            numbered(rest, |n: usize| QueueCommand::Remove(n))
        } else if word == "move"@ {
            match (
                suggestions::parse_index_spec(text::first_word_spec(rest)),
                suggestions::parse_index_spec(text::trim_spec(text::after_word_spec(rest))),
            ) {
                (Some(from), Some(to)) => QueueCommand::Move { from, to },
                _ => QueueCommand::Unclear,
            }
        } else {
            numbered(whole, |n: usize| QueueCommand::Jump(n))
        },
    }
}

pub fn parse_queue_command(argument: &str) -> (r: QueueCommand)
    ensures
        r == parse_queue_spec(argument@),
{
    let lowered = text::ascii_lower(text::trim(argument));
    let whole = lowered.as_str();
    if let Some(command) = find_word(whole) {
        return command;
    }
    let word = text::first_word(whole);
    let rest = text::trim(text::after_word(whole));
    if text::same_text(word, "next") {
        match suggestions::parse_result_index_input(rest) {
            Some(n) => QueueCommand::Next(n),
            None => QueueCommand::Unclear,
        }
    } else if text::same_text(word, "add") {
        match suggestions::parse_result_index_input(rest) {
            Some(n) => QueueCommand::Add(n),
            None => QueueCommand::Unclear,
        }
    } else if text::same_text(word, "remove") {
        match suggestions::parse_result_index_input(rest) {
            Some(n) => QueueCommand::Remove(n),
            None => QueueCommand::Unclear,
        }
    } else if text::same_text(word, "move") {
        let from = suggestions::parse_result_index_input(text::first_word(rest));
        let to = suggestions::parse_result_index_input(text::trim(text::after_word(rest)));
        match (from, to) {
            (Some(from), Some(to)) => QueueCommand::Move { from, to },
            _ => QueueCommand::Unclear,
        }
    } else {
        match suggestions::parse_result_index_input(whole) {
            Some(n) => QueueCommand::Jump(n),
            None => QueueCommand::Unclear,
        }
    }
}

/// The order that an edit makes of this one; nothing where it is no edit or cannot be done.
pub open spec fn edited(
    order: Order,
    results: Seq<Track>,
    command: QueueCommand,
    seed: u64,
) -> Option<Order> {
    let count = order.tracks.len();
    match command {
        QueueCommand::Shuffle => if count > 0 {
            Some(order.upcoming_shuffled(seed))
        } else {
            None
        },
        QueueCommand::Reverse => if count > 0 {
            Some(order.upcoming_reversed())
        } else {
            None
        },
        QueueCommand::Dedupe => if count > 0 {
            Some(order.deduped())
        } else {
            None
        },
        QueueCommand::Clear => if count > 0 {
            Some(order.cleared())
        } else {
            None
        },
        QueueCommand::Next(n) => if 0 < n <= results.len() {
            Some(order.played_next(results[n - 1]))
        } else {
            None
        },
        QueueCommand::Add(n) => if 0 < n <= results.len() {
            Some(order.appended(results[n - 1]))
        } else {
            None
        },
        QueueCommand::Move { from, to } => if 0 < from <= count && 0 < to <= count {
            Some(order.moved(from - 1, to - 1))
        } else {
            None
        },
        QueueCommand::Remove(n) => if 0 < n <= count && n - 1 != order.at {
            Some(order.removed(n - 1))
        } else {
            None
        },
        _ => None,
    }
}

pub fn edit(order: &QueueOrder, results: &[Track], command: QueueCommand, seed: u64) -> (r: Option<
    QueueOrder,
>)
    requires
        order@.wf(),
    ensures
        match r {
            Some(next) => edited(order@, results@, command, seed) == Some(next@),
            None => edited(order@, results@, command, seed) is None,
        },
{
    let count = order.tracks.len();
    match command {
        QueueCommand::Shuffle if count > 0 => Some(order.upcoming_shuffled(seed)),
        QueueCommand::Reverse if count > 0 => Some(order.upcoming_reversed()),
        QueueCommand::Dedupe if count > 0 => Some(order.deduped()),
        QueueCommand::Clear if count > 0 => Some(order.cleared()),
        QueueCommand::Next(n) if 0 < n && n <= results.len() => Some(
            order.played_next(results[n - 1].clone()),
        ),
        QueueCommand::Add(n) if 0 < n && n <= results.len() => Some(
            order.appended(results[n - 1].clone()),
        ),
        QueueCommand::Move { from, to } if 0 < from && from <= count && 0 < to && to <= count
            => Some(order.moved(from - 1, to - 1)),
        QueueCommand::Remove(n) if 0 < n && n <= count && n - 1 != order.at => Some(
            order.removed(n - 1),
        ),
        _ => None,
    }
}

// ---------------------------------------------------------------- what the queue shows

pub open spec fn known_ms_of(track: Track) -> nat {
    match track.duration_ms {
        Some(ms) => ms as nat,
        None => 0,
    }
}

/// The sum of the durations that are known.
pub open spec fn known_ms(tracks: Seq<Track>) -> nat
    decreases tracks.len(),
{
    if tracks.len() == 0 {
        0
    } else {
        known_ms(tracks.drop_last()) + known_ms_of(tracks.last())
    }
}

pub open spec fn at_most_u64(n: nat) -> nat {
    if n <= u64::MAX {
        n
    } else {
        u64::MAX as nat
    }
}

/// The sum of `start` and the known durations from entry `from` on.
pub fn known_duration(tracks: &[Track], from: usize, start: u64) -> (r: u64)
    requires
        from <= tracks@.len(),
    ensures
        r == at_most_u64(start as nat + known_ms(tracks@.skip(from as int))),
{
    let mut total: u64 = start;
    let mut i: usize = from;
    while i < tracks.len()
        invariant
            from <= i <= tracks@.len(),
            total == at_most_u64(
                start as nat + known_ms(tracks@.subrange(from as int, i as int)),
            ),
        decreases tracks@.len() - i,
    {
        let known: u64 = match tracks[i].duration_ms {
            Some(ms) => ms,
            None => 0,
        };
        proof {
            let next = tracks@.subrange(from as int, i + 1);
            assert(next.drop_last() =~= tracks@.subrange(from as int, i as int));
            assert(next.last() == tracks@[i as int]);
        }
        total = if total <= u64::MAX - known {
            total + known
        } else {
            u64::MAX
        };
        i = i + 1;
    }
    assert(tracks@.subrange(from as int, tracks@.len() as int) =~= tracks@.skip(from as int));
    total
}

pub open spec fn length_spec(duration_ms: Option<u64>) -> Seq<char> {
    match duration_ms {
        Some(ms) => info::duration_spec(ms as nat),
        None => "--:--"@,
    }
}

pub fn length_text(duration_ms: Option<u64>) -> (r: String)
    ensures
        r@ == length_spec(duration_ms),
{
    match duration_ms {
        Some(ms) => info::format_duration(ms),
        None => "--:--".to_owned(),
    }
}

impl Order {
    /// One entry: its mark, number, title and length.
    pub open spec fn row(self, i: int) -> Seq<char> {
        (if i == self.at {
            "> "@
        } else {
            "  "@
        }) + text::decimal_spec((i + 1) as nat) + ". "@ + layout::compact_spec(
            self.tracks[i].title@,
            56,
        ) + ("  "@ + length_spec(self.tracks[i].duration_ms))
    }

    pub open spec fn place(self) -> Seq<char> {
        text::decimal_spec((self.at + 1) as nat) + "/"@ + text::decimal_spec(self.tracks.len())
    }

    pub open spec fn first_listed(self, all: bool) -> int {
        if all {
            0
        } else {
            self.at
        }
    }

    pub open spec fn end_of_list(self, all: bool) -> int {
        if all || self.tracks.len() <= self.at + LISTED_ENTRIES {
            self.tracks.len() as int
        } else {
            self.at + LISTED_ENTRIES
        }
    }

    pub open spec fn rows(self, from: int, to: int) -> Seq<Seq<char>> {
        Seq::new((to - from) as nat, |k: int| self.row(from + k))
    }

    /// The place in the queue with its known duration, then the entries.
    pub open spec fn lines(self, all: bool) -> Seq<Seq<char>> {
        if self.tracks.len() == 0 {
            seq!["queue is empty; play a result to fill it"@]
        } else {
            let from = self.first_listed(all);
            let to = self.end_of_list(all);
            seq![
                "queue "@ + self.place() + ", "@ + info::duration_spec(
                    at_most_u64(known_ms(self.tracks.skip(self.at))),
                ) + " known"@,
            ] + self.rows(from, to) + (if to < self.tracks.len() {
                seq!["  more: queue all"@]
            } else {
                Seq::empty()
            })
        }
    }
}

impl QueueOrder {
    pub fn place(&self) -> (r: String)
        ensures
            r@ == self@.place(),
    {
        let at = text::decimal(self.at as u128 + 1);
        let count = text::decimal(self.tracks.len() as u128);
        text::text3(&at, "/", &count)
    }

    fn row(&self, i: usize) -> (r: String)
        requires
            i < self.tracks@.len(),
        ensures
            r@ == self@.row(i as int),
    {
        let number = text::decimal(i as u128 + 1);
        let title = layout::compact(self.tracks[i].title.as_str(), 56);
        let length = length_text(self.tracks[i].duration_ms);
        let length = text::text2("  ", &length);
        let mark = if i == self.at {
            "> "
        } else {
            "  "
        };
        text::text5(mark, &number, ". ", &title, &length)
    }

    pub fn lines(&self, all: bool) -> (r: Vec<String>)
        requires
            self@.wf(),
        ensures
            text::texts(r@) == self@.lines(all),
    {
        let count = self.tracks.len();
        if count == 0 {
            let r = vec!["queue is empty; play a result to fill it".to_owned()];
            assert(text::texts(r@) =~= self@.lines(all));
            return r;
        }
        let from: usize = if all {
            0
        } else {
            self.at
        };
        let to: usize = if all || count - self.at <= LISTED_ENTRIES {
            count
        } else {
            self.at + LISTED_ENTRIES
        };
        let place = self.place();
        let known = info::format_duration(known_duration(&self.tracks, self.at, 0));
        let head = text::text5("queue ", &place, ", ", &known, " known");
        let ghost rows = self@.rows(from as int, to as int);
        let mut r: Vec<String> = vec![head];
        let mut i: usize = from;
        while i < to
            invariant
                from <= i <= to <= self.tracks@.len(),
                rows == self@.rows(from as int, to as int),
                r@.len() == i - from + 1,
                r@[0]@ == head@,
                forall|k: int| 0 <= k < i - from ==> (#[trigger] r@[k + 1])@ == rows[k],
            decreases to - i,
        {
            r.push(self.row(i));
            i = i + 1;
        }
        let ghost listed = text::texts(r@);
        assert(listed =~= seq![head@] + rows) by {
            assert forall|k: int| 0 <= k < listed.len() implies #[trigger] listed[k] == (seq![
                head@,
            ] + rows)[k] by {
                if k > 0 {
                    assert(r@[(k - 1) + 1]@ == rows[k - 1]);
                }
            }
        }
        if to < count {
            r.push("  more: queue all".to_owned());
            assert(text::texts(r@) =~= listed.push("  more: queue all"@));
        }
        assert(text::texts(r@) =~= self@.lines(all));
        r
    }
}

// ---------------------------------------------------------------- the queue of a session

impl Queue {
    pub open spec fn wf(self) -> bool {
        self.order.wf() && (self.before matches Some(before) ==> before.wf())
    }

    /// A new queue, with nothing to undo.
    pub open spec fn fresh(tracks: Seq<Track>, at: int) -> Queue {
        Queue { order: Order { tracks, at }, before: None }
    }

    /// The queue of a track that starts: the visible results where it is one of them, else itself.
    pub open spec fn starting(results: Seq<Track>, track: Track) -> Queue {
        match results::position_of(results, track.path@) {
            Some(i) => Queue::fresh(results, i as int),
            None => Queue::fresh(seq![track], 0),
        }
    }

    pub open spec fn edited_to(self, order: Order) -> Queue {
        Queue { order, before: Some(self.order) }
    }

    /// The order before the last edit; undoing once more brings the edit back.
    pub open spec fn undone(self) -> Option<Queue> {
        match self.before {
            Some(before) => Some(Queue { order: before, before: Some(self.order) }),
            None => None,
        }
    }

    /// Another entry is current. The order before the last edit goes along where it has that track.
    pub open spec fn moved_to(self, at: int) -> Queue {
        Queue {
            order: Order { tracks: self.order.tracks, at },
            before: match self.before {
                Some(before) => match results::position_of(
                    before.tracks,
                    self.order.tracks[at].path@,
                ) {
                    Some(i) => Some(Order { tracks: before.tracks, at: i as int }),
                    None => None,
                },
                None => None,
            },
        }
    }
}

impl SessionQueue {
    pub fn new() -> (r: Self)
        ensures
            r@ == Queue::fresh(Seq::empty(), 0),
            r@.wf(),
    {
        let tracks: Vec<Track> = Vec::new();
        assert(tracks@ =~= Seq::<Track>::empty());
        SessionQueue { order: QueueOrder { tracks, at: 0 }, before: None }
    }

    pub fn starting(results: &[Track], track: &Track) -> (r: Self)
        ensures
            r@ == Queue::starting(results@, *track),
            r@.wf(),
    {
        match results::current_result_index(results, Some(track)) {
            Some(at) => SessionQueue {
                order: QueueOrder { tracks: copy_tracks(results), at },
                before: None,
            },
            None => {
                let tracks = vec![track.clone()];
                assert(tracks@ =~= seq![*track]);
                SessionQueue { order: QueueOrder { tracks, at: 0 }, before: None }
            },
        }
    }

    pub fn edit_to(&mut self, order: QueueOrder)
        ensures
            final(self)@ == old(self)@.edited_to(order@),
    {
        let before = self.order.copy();
        self.before = Some(before);
        self.order = order;
    }

    /// Undoes the last edit, where there is one.
    pub fn undo(&mut self) -> (r: bool)
        ensures
            r == (old(self)@.undone() is Some),
            final(self)@ == match old(self)@.undone() {
                Some(queue) => queue,
                None => old(self)@,
            },
    {
        let before = match &self.before {
            Some(before) => before.copy(),
            None => {
                return false;
            },
        };
        self.edit_to(before);
        true
    }

    pub fn move_to(&mut self, at: usize)
        requires
            at < old(self)@.order.tracks.len(),
        ensures
            final(self)@ == old(self)@.moved_to(at as int),
            old(self)@.wf() ==> final(self)@.wf(),
    {
        let before = match &self.before {
            Some(before) => match results::current_result_index(
                &before.tracks,
                Some(&self.order.tracks[at]),
            ) {
                Some(i) => Some(QueueOrder { tracks: copy_tracks(&before.tracks), at: i }),
                None => None,
            },
            None => None,
        };
        self.before = before;
        self.order.at = at;
    }
}

// ---------------------------------------------------------------- laws

proof fn lemma_kept(order: Order, n: int)
    requires
        order.wf(),
        0 <= n <= order.tracks.len(),
    ensures
        order.kept(n).len() <= n,
        forall|k: int|
            0 <= k < order.kept(n).len() ==> exists|i: int|
                0 <= i < n && order.is_kept(i) && order.tracks[i] == #[trigger] order.kept(n)[k],
        forall|i: int|
            0 <= i < n && #[trigger] order.is_kept(i) ==> order.kept(n).contains(order.tracks[i]),
        forall|j: int, k: int|
            0 <= j < k < order.kept(n).len() ==> (#[trigger] order.kept(n)[j]).path@ != (
            #[trigger] order.kept(n)[k]).path@,
    decreases n,
{
    if n > 0 {
        lemma_kept(order, n - 1);
        let shorter = order.kept(n - 1);
        let kept = order.kept(n);
        if order.is_kept(n - 1) {
            let track = order.tracks[n - 1];
            assert(kept == shorter.push(track));
            assert(kept[kept.len() - 1] == track);
            assert forall|i: int| 0 <= i < n && #[trigger] order.is_kept(i) implies kept.contains(
                order.tracks[i],
            ) by {
                if i < n - 1 {
                    let k = choose|k: int|
                        0 <= k < shorter.len() && shorter[k] == order.tracks[i];
                    assert(kept[k] == order.tracks[i]);
                }
            }
            assert forall|k: int| 0 <= k < kept.len() implies exists|i: int|
                0 <= i < n && order.is_kept(i) && order.tracks[i] == #[trigger] kept[k] by {
                if k < shorter.len() {
                    assert(kept[k] == shorter[k]);
                    let i = choose|i: int|
                        0 <= i < n - 1 && order.is_kept(i) && order.tracks[i] == shorter[k];
                    assert(order.tracks[i] == kept[k]);
                } else {
                    assert(order.tracks[n - 1] == kept[k]);
                }
            }
            assert forall|j: int, k: int| 0 <= j < k < kept.len() implies (
            #[trigger] kept[j]).path@ != (#[trigger] kept[k]).path@ by {
                assert(kept[j] == shorter[j]);
                if k < shorter.len() {
                    assert(kept[k] == shorter[k]);
                } else {
                    let i = choose|i: int|
                        0 <= i < n - 1 && order.is_kept(i) && order.tracks[i] == shorter[j];
                    if n - 1 == order.at {
                        assert(order.tracks[i].path@ != order.tracks[order.at].path@);
                    } else {
                        assert(order.tracks[i].path@ != order.tracks[n - 1].path@);
                    }
                }
            }
        } else {
            assert(kept == shorter);
            assert forall|k: int| 0 <= k < kept.len() implies exists|i: int|
                0 <= i < n && order.is_kept(i) && order.tracks[i] == #[trigger] kept[k] by {
                let i = choose|i: int|
                    0 <= i < n - 1 && order.is_kept(i) && order.tracks[i] == shorter[k];
                assert(order.tracks[i] == kept[k]);
            }
        }
    }
}

proof fn lemma_kept_prefix(order: Order, m: int, n: int)
    requires
        0 <= m <= n <= order.tracks.len(),
    ensures
        order.kept(m).len() <= order.kept(n).len(),
        forall|k: int|
            0 <= k < order.kept(m).len() ==> #[trigger] order.kept(n)[k] == order.kept(m)[k],
    decreases n - m,
{
    if m < n {
        lemma_kept_prefix(order, m, n - 1);
    }
}

/// Without duplicates no path occurs twice, and none is lost.
pub proof fn dedupe_keeps_each_path_once(order: Order, i: int)
    requires
        order.wf(),
        0 <= i < order.tracks.len(),
    ensures
        exists|k: int|
            0 <= k < order.deduped().tracks.len() && (
            #[trigger] order.deduped().tracks[k]).path@ == order.tracks[i].path@,
        forall|j: int, k: int|
            0 <= j < k < order.deduped().tracks.len() ==> (
            #[trigger] order.deduped().tracks[j]).path@ != (
            #[trigger] order.deduped().tracks[k]).path@,
{
    let n = order.tracks.len() as int;
    lemma_kept(order, n);
    let path = order.tracks[i].path@;
    let at = if path == order.tracks[order.at].path@ {
        order.at
    } else {
        results::lemma_position_of(order.tracks, path);
        results::position_of(order.tracks, path)->0 as int
    };
    assert(order.is_kept(at));
    let k = choose|k: int| 0 <= k < order.kept(n).len() && order.kept(n)[k] == order.tracks[at];
    assert(order.deduped().tracks[k].path@ == path);
}

proof fn lemma_dedupe_keeps_current(order: Order)
    requires
        order.wf(),
        order.tracks.len() > 0,
    ensures
        order.deduped().wf(),
        order.deduped().tracks[order.deduped().at] == order.tracks[order.at],
{
    assert(order.is_kept(order.at));
    assert(order.kept(order.at + 1) == order.kept(order.at).push(order.tracks[order.at]));
    lemma_kept_prefix(order, order.at + 1, order.tracks.len() as int);
    assert(order.kept(order.at + 1)[order.kept(order.at).len() as int] == order.tracks[order.at]);
}

proof fn lemma_shuffled(tracks: Seq<Track>, seed: u64)
    ensures
        shuffled(tracks, seed).len() == tracks.len(),
        shuffled(tracks, seed).to_multiset() == tracks.to_multiset(),
    decreases tracks.len(),
{
    broadcast use vstd::seq_lib::group_to_multiset_ensures;

    if tracks.len() > 0 {
        lemma_pick_is_one(seed, tracks.len());
        let i = pick(seed, tracks.len());
        let rest = tracks.remove(i);
        lemma_shuffled(rest, next_seed(seed));
        vstd::seq_lib::lemma_multiset_commutative(
            seq![tracks[i]],
            shuffled(rest, next_seed(seed)),
        );
        assert(seq![tracks[i]] =~= Seq::empty().push(tracks[i]));
        assert(tracks.to_multiset() =~= rest.to_multiset().insert(tracks[i]));
        assert(shuffled(tracks, seed).to_multiset() =~= tracks.to_multiset());
    }
}

/// Shuffling gives each upcoming track a place and takes none away; what was reached stays.
pub proof fn shuffling_keeps_every_track(order: Order, seed: u64)
    requires
        order.wf(),
    ensures
        order.upcoming_shuffled(seed).upcoming().to_multiset() == order.upcoming().to_multiset(),
        order.upcoming_shuffled(seed).tracks.take(order.reached()) == order.tracks.take(
            order.reached(),
        ),
{
    lemma_shuffled(order.upcoming(), seed);
    let next = order.upcoming_shuffled(seed);
    assert(next.reached() == order.reached());
    assert(next.upcoming() =~= shuffled(order.upcoming(), seed));
    assert(next.tracks.take(order.reached()) =~= order.tracks.take(order.reached()));
}

/// Reversing the upcoming tracks twice gives them back.
pub proof fn reversing_twice_changes_nothing(order: Order)
    requires
        order.wf(),
    ensures
        order.upcoming_reversed().upcoming_reversed() == order,
{
    let next = order.upcoming_reversed();
    assert(next.reached() == order.reached());
    assert(next.upcoming() =~= order.upcoming().reverse());
    assert(next.upcoming_reversed() =~= order);
}

/// A track that was appended and removed again leaves the queue as it was.
pub proof fn removing_what_was_added(order: Order, track: Track)
    requires
        order.wf(),
        order.tracks.len() > 0,
    ensures
        order.appended(track).removed(order.tracks.len() as int) == order,
{
    assert(order.appended(track).removed(order.tracks.len() as int) =~= order);
}

/// An entry that was moved and moved back leaves the queue as it was.
pub proof fn moving_back_changes_nothing(order: Order, from: int, to: int)
    requires
        order.wf(),
        0 <= from < order.tracks.len(),
        0 <= to < order.tracks.len(),
    ensures
        order.moved(from, to).moved(to, from) == order,
{
    let there = order.moved(from, to);
    assert(there.tracks.remove(to) =~= order.tracks.remove(from));
    assert(there.moved(to, from).tracks =~= order.tracks);
}

/// No edit takes the current track away: it stays current, wherever it then stands.
pub proof fn edits_keep_the_current_track(
    order: Order,
    results: Seq<Track>,
    command: QueueCommand,
    seed: u64,
)
    requires
        order.wf(),
        edited(order, results, command, seed) is Some,
    ensures
        edited(order, results, command, seed)->0.wf(),
        order.tracks.len() > 0 ==> {
            let next = edited(order, results, command, seed)->0;
            next.tracks[next.at] == order.tracks[order.at]
        },
{
    lemma_shuffled(order.upcoming(), seed);
    if order.tracks.len() > 0 {
        lemma_dedupe_keeps_current(order);
    }
}

/// Undoing after an edit gives back the queue before it, and undoing again the edit.
pub proof fn undo_gives_back_the_order(queue: Queue, order: Order)
    ensures
        queue.edited_to(order).undone() matches Some(undone) && undone.order == queue.order
            && undone.undone() == Some(queue.edited_to(order)),
{
}

/// A started track is the current entry of its queue.
pub proof fn started_track_is_current(results: Seq<Track>, track: Track)
    ensures
        Queue::starting(results, track).wf(),
        ({
            let order = Queue::starting(results, track).order;
            order.tracks.len() > 0 && order.tracks[order.at].path@ == track.path@
        }),
{
    results::lemma_position_of(results, track.path@);
}

/// The result that is shown as number `n` plays right behind the current entry; everything else
/// stays in its order.
pub proof fn next_takes_the_numbered_result(order: Order, results: Seq<Track>, n: usize, seed: u64)
    requires
        order.wf(),
    ensures
        edited(order, results, QueueCommand::Next(n), seed) is Some <==> 1 <= n <= results.len(),
        1 <= n <= results.len() ==> {
            let next = edited(order, results, QueueCommand::Next(n), seed)->0;
            let behind = if order.tracks.len() == 0 {
                0
            } else {
                order.at + 1
            };
            &&& next.at == order.at
            &&& next.tracks.len() == order.tracks.len() + 1
            &&& next.tracks[behind] == results[n - 1]
            &&& next.tracks.take(behind) == order.tracks.take(behind)
            &&& next.tracks.skip(behind + 1) == order.tracks.skip(behind)
        },
{
    if 1 <= n <= results.len() {
        let next = edited(order, results, QueueCommand::Next(n), seed)->0;
        let behind = if order.tracks.len() == 0 {
            0
        } else {
            order.at + 1
        };
        assert(next.tracks.take(behind) =~= order.tracks.take(behind));
        assert(next.tracks.skip(behind + 1) =~= order.tracks.skip(behind));
    }
}

/// The result that is shown as number `n` becomes the last entry, behind all that stood there.
pub proof fn add_takes_the_numbered_result(order: Order, results: Seq<Track>, n: usize, seed: u64)
    ensures
        edited(order, results, QueueCommand::Add(n), seed) is Some <==> 1 <= n <= results.len(),
        1 <= n <= results.len() ==> {
            let next = edited(order, results, QueueCommand::Add(n), seed)->0;
            &&& next.at == order.at
            &&& next.tracks.len() == order.tracks.len() + 1
            &&& next.tracks.last() == results[n - 1]
            &&& next.tracks.drop_last() == order.tracks
        },
{
    if 1 <= n <= results.len() {
        let next = edited(order, results, QueueCommand::Add(n), seed)->0;
        assert(next.tracks.drop_last() =~= order.tracks);
    }
}

/// Entry number `from` then stands as number `to`; the others keep their order among themselves.
pub proof fn move_puts_the_entry_there(
    order: Order,
    results: Seq<Track>,
    from: usize,
    to: usize,
    seed: u64,
)
    requires
        order.wf(),
    ensures
        edited(order, results, QueueCommand::Move { from, to }, seed) is Some <==> 1 <= from
            <= order.tracks.len() && 1 <= to <= order.tracks.len(),
        edited(order, results, QueueCommand::Move { from, to }, seed) matches Some(next) ==> {
            &&& next.tracks.len() == order.tracks.len()
            &&& next.tracks[to - 1] == order.tracks[from - 1]
            &&& next.tracks.remove(to - 1) == order.tracks.remove(from - 1)
            &&& next.tracks[next.at] == order.tracks[order.at]
            &&& from - 1 == order.at ==> next.at == to - 1
        },
{
    if edited(order, results, QueueCommand::Move { from, to }, seed) is Some {
        let next = edited(order, results, QueueCommand::Move { from, to }, seed)->0;
        assert(next.tracks.remove(to - 1) =~= order.tracks.remove(from - 1));
    }
}

/// Entry number `n` leaves and nothing else does; the current one stays.
pub proof fn remove_takes_the_numbered_entry(
    order: Order,
    results: Seq<Track>,
    n: usize,
    seed: u64,
)
    requires
        order.wf(),
    ensures
        edited(order, results, QueueCommand::Remove(n), seed) is Some <==> 1 <= n
            <= order.tracks.len() && n - 1 != order.at,
        edited(order, results, QueueCommand::Remove(n), seed) matches Some(next) ==> {
            &&& next.tracks.take(n - 1) == order.tracks.take(n - 1)
            &&& next.tracks.skip(n - 1) == order.tracks.skip(n as int)
            &&& next.at == if n - 1 < order.at {
                order.at - 1
            } else {
                order.at
            }
        },
{
    if edited(order, results, QueueCommand::Remove(n), seed) is Some {
        let next = edited(order, results, QueueCommand::Remove(n), seed)->0;
        assert(next.tracks.take(n - 1) =~= order.tracks.take(n - 1));
        assert(next.tracks.skip(n - 1) =~= order.tracks.skip(n as int));
    }
}

/// The last entry plays first and so on, behind the current one; what was reached stays.
pub proof fn reverse_turns_what_is_to_come(order: Order, results: Seq<Track>, seed: u64, i: int)
    requires
        order.wf(),
        0 <= i < order.tracks.len(),
    ensures
        edited(order, results, QueueCommand::Reverse, seed) matches Some(next) && {
            &&& next.at == order.at
            &&& next.tracks.len() == order.tracks.len()
            &&& i <= order.at ==> next.tracks[i] == order.tracks[i]
            &&& i > order.at ==> next.tracks[i] == order.tracks[order.tracks.len() + order.at - i]
        },
{
}

/// Shuffling leaves what was reached where it is and gives every track to come one place.
pub proof fn shuffle_mixes_what_is_to_come(order: Order, results: Seq<Track>, seed: u64)
    requires
        order.wf(),
        order.tracks.len() > 0,
    ensures
        edited(order, results, QueueCommand::Shuffle, seed) matches Some(next) && {
            &&& next.at == order.at
            &&& next.tracks.len() == order.tracks.len()
            &&& next.tracks.take(order.at + 1) == order.tracks.take(order.at + 1)
            &&& next.tracks.skip(order.at + 1).to_multiset() == order.tracks.skip(
                order.at + 1,
            ).to_multiset()
        },
{
    shuffling_keeps_every_track(order, seed);
    lemma_shuffled(order.upcoming(), seed);
}

/// Only the current track is left, and it is current.
pub proof fn clear_leaves_the_current_track(order: Order, results: Seq<Track>, seed: u64)
    requires
        order.wf(),
        order.tracks.len() > 0,
    ensures
        edited(order, results, QueueCommand::Clear, seed) matches Some(next) && next.tracks.len()
            == 1 && next.tracks[0] == order.tracks[order.at] && next.at == 0,
{
}

proof fn lemma_place_of_kept(order: Order, i: int, n: int)
    requires
        0 <= i < n <= order.tracks.len(),
        order.is_kept(i),
    ensures
        order.kept(i).len() < order.kept(n).len(),
        order.kept(n)[order.kept(i).len() as int] == order.tracks[i],
{
    assert(order.kept(i + 1) == order.kept(i).push(order.tracks[i]));
    lemma_kept_prefix(order, i + 1, n);
    assert(order.kept(i + 1)[order.kept(i).len() as int] == order.tracks[i]);
}

/// Without duplicates the first entry of each path stays, of the current track's path the current
/// one, and what stays keeps its order.
pub proof fn dedupe_keeps_the_first_in_order(
    order: Order,
    results: Seq<Track>,
    seed: u64,
    i: int,
    j: int,
)
    requires
        order.wf(),
        0 <= i < j < order.tracks.len(),
        i == order.at || (order.tracks[i].path@ != order.tracks[order.at].path@ && forall|k: int|
            0 <= k < i ==> (#[trigger] order.tracks[k]).path@ != order.tracks[i].path@),
        j == order.at || (order.tracks[j].path@ != order.tracks[order.at].path@ && forall|k: int|
            0 <= k < j ==> (#[trigger] order.tracks[k]).path@ != order.tracks[j].path@),
    ensures
        edited(order, results, QueueCommand::Dedupe, seed) matches Some(next) && exists|
            p: int,
            q: int,
        |
            0 <= p < q < next.tracks.len() && #[trigger] next.tracks[p] == order.tracks[i]
                && #[trigger] next.tracks[q] == order.tracks[j],
{
    let n = order.tracks.len() as int;
    let next = edited(order, results, QueueCommand::Dedupe, seed)->0;
    lemma_place_of_kept(order, i, n);
    lemma_place_of_kept(order, j, n);
    lemma_place_of_kept(order, i, j);
    let p = order.kept(i).len() as int;
    let q = order.kept(j).len() as int;
    assert(next.tracks[p] == order.tracks[i]);
    assert(next.tracks[q] == order.tracks[j]);
}

/// Showing the queue, undoing and playing an entry are no edits.
pub proof fn looking_edits_nothing(order: Order, results: Seq<Track>, n: usize, seed: u64)
    ensures
        edited(order, results, QueueCommand::Show, seed) is None,
        edited(order, results, QueueCommand::All, seed) is None,
        edited(order, results, QueueCommand::Undo, seed) is None,
        edited(order, results, QueueCommand::Jump(n), seed) is None,
        edited(order, results, QueueCommand::Unclear, seed) is None,
{
}

/// A track that starts from the results makes them the queue, as they are listed; another one is
/// alone in its queue. Nothing is left to undo.
pub proof fn started_result_brings_the_list(results: Seq<Track>, track: Track, i: int)
    requires
        0 <= i < results.len(),
        results[i].path@ == track.path@,
    ensures
        Queue::starting(results, track).order.tracks == results,
        0 <= Queue::starting(results, track).order.at <= i,
        results[Queue::starting(results, track).order.at].path@ == track.path@,
        Queue::starting(results, track).before is None,
{
    results::lemma_position_of(results, track.path@);
}

pub proof fn started_stranger_is_alone(results: Seq<Track>, track: Track)
    requires
        forall|i: int| 0 <= i < results.len() ==> (#[trigger] results[i]).path@ != track.path@,
    ensures
        Queue::starting(results, track).order.tracks == seq![track],
        Queue::starting(results, track).order.at == 0,
        Queue::starting(results, track).before is None,
{
    results::lemma_position_of(results, track.path@);
}

/// Going on to another entry leaves the tracks as they are.
pub proof fn going_on_keeps_the_tracks(queue: Queue, at: int)
    requires
        queue.wf(),
        0 <= at < queue.order.tracks.len(),
    ensures
        queue.moved_to(at).order.tracks == queue.order.tracks,
        queue.moved_to(at).order.at == at,
        queue.moved_to(at).wf(),
        queue.moved_to(at).before matches Some(before) ==> queue.before is Some && before.tracks
            == queue.before->0.tracks && before.tracks[before.at].path@
            == queue.order.tracks[at].path@,
{
    match queue.before {
        Some(before) => {
            results::lemma_position_of(before.tracks, queue.order.tracks[at].path@);
        },
        None => {},
    }
}

/// The known duration of two lists is that of both together, and of one track its own.
pub proof fn known_durations_add_up(a: Seq<Track>, b: Seq<Track>, track: Track)
    ensures
        known_ms(a + b) == known_ms(a) + known_ms(b),
        known_ms(seq![track]) == match track.duration_ms {
            Some(ms) => ms as nat,
            None => 0,
        },
    decreases b.len(),
{
    assert(seq![track].drop_last() =~= Seq::<Track>::empty());
    assert(known_ms(seq![track].drop_last()) == 0);
    if b.len() > 0 {
        known_durations_add_up(a, b.drop_last(), track);
        assert((a + b).drop_last() =~= a + b.drop_last());
    } else {
        assert(a + b =~= a);
    }
}

proof fn lemma_no_queue_word(s: Seq<char>)
    requires
        s.len() > 0,
        '0' <= s.last() <= '9',
    ensures
        word_from(s, 0) is None,
{
    reveal_strlit("");
    reveal_strlit("all");
    reveal_strlit("undo");
    reveal_strlit("shuffle");
    reveal_strlit("reverse");
    reveal_strlit("dedupe");
    reveal_strlit("clear");
    reveal_with_fuel(word_from, 8);
}

/// A word and a number, as they are typed.
proof fn lemma_word_and_number(word: Seq<char>, n: usize)
    requires
        n > 0,
        word.len() > 0,
        forall|i: int| 0 <= i < word.len() ==> 'a' <= #[trigger] word[i] <= 'z',
    ensures
        ({
            let s = word + " "@ + text::decimal_spec(n as nat);
            &&& text::ascii_lower_spec(text::trim_spec(s)) == s
            &&& text::first_word_spec(s) == word
            &&& text::trim_spec(text::after_word_spec(s)) == text::decimal_spec(n as nat)
            &&& word_from(s, 0) is None
        }),
        suggestions::parse_index_spec(text::decimal_spec(n as nat)) == Some(n),
{
    reveal_strlit(" ");
    let number = text::decimal_spec(n as nat);
    let s = word + " "@ + number;
    text::lemma_number_is_a_word(n as nat);
    suggestions::numbers_ask_for_their_result(n);
    assert(number.last() == number[number.len() - 1]);
    text::first_word_and_rest(word, number);
    assert forall|i: int| 0 <= i < s.len() implies !('A' <= #[trigger] s[i] <= 'Z') by {
        if i < word.len() {
            assert(s[i] == word[i]);
        } else if i > word.len() {
            assert(s[i] == number[i - word.len() - 1]);
        }
    }
    text::lemma_lower_stays(s);
    assert(s.last() == number.last());
    lemma_no_queue_word(s);
}

/// A number behind its word means that result or entry, and a number alone plays that entry.
pub proof fn queue_numbers_are_read_as_typed(n: usize)
    requires
        n > 0,
    ensures
        parse_queue_spec("next "@ + text::decimal_spec(n as nat)) == QueueCommand::Next(n),
        parse_queue_spec("add "@ + text::decimal_spec(n as nat)) == QueueCommand::Add(n),
        parse_queue_spec("remove "@ + text::decimal_spec(n as nat)) == QueueCommand::Remove(n),
        parse_queue_spec(text::decimal_spec(n as nat)) == QueueCommand::Jump(n),
{
    reveal_strlit(" ");
    reveal_strlit("next");
    reveal_strlit("add");
    reveal_strlit("remove");
    reveal_strlit("move");
    reveal_strlit("next ");
    reveal_strlit("add ");
    reveal_strlit("remove ");
    assert("next "@ =~= "next"@ + " "@);
    assert("add "@ =~= "add"@ + " "@);
    assert("remove "@ =~= "remove"@ + " "@);
    lemma_word_and_number("next"@, n);
    lemma_word_and_number("add"@, n);
    lemma_word_and_number("remove"@, n);
    assert("add"@ != "next"@);
    assert("remove"@[0] != "next"@[0]);
    assert("remove"@[0] != "add"@[0]);
    let number = text::decimal_spec(n as nat);
    text::lemma_number_is_a_word(n as nat);
    assert(number.last() == number[number.len() - 1]);
    lemma_no_queue_word(number);
    assert('0' <= number[0] <= '9');
    assert(number[0] != "next"@[0] && number[0] != "add"@[0] && number[0] != "remove"@[0]
        && number[0] != "move"@[0]);
}

/// The first number says which entry is moved, the second one where to.
pub proof fn moves_are_read_as_typed(from: usize, to: usize)
    requires
        from > 0,
        to > 0,
    ensures
        parse_queue_spec(
            "move "@ + (text::decimal_spec(from as nat) + " "@ + text::decimal_spec(to as nat)),
        ) == (QueueCommand::Move { from, to }),
{
    reveal_strlit(" ");
    reveal_strlit("next");
    reveal_strlit("add");
    reveal_strlit("remove");
    reveal_strlit("move");
    reveal_strlit("move ");
    assert("move "@ =~= "move"@ + " "@);
    let a = text::decimal_spec(from as nat);
    let b = text::decimal_spec(to as nat);
    text::lemma_number_is_a_word(from as nat);
    text::lemma_number_is_a_word(to as nat);
    suggestions::numbers_ask_for_their_result(from);
    suggestions::numbers_ask_for_their_result(to);
    assert(b.last() == b[b.len() - 1]);
    text::first_word_and_rest(a, b);
    let rest = a + " "@ + b;
    assert(rest[0] == a[0]);
    assert(rest.last() == b.last());
    text::first_word_and_rest("move"@, rest);
    let s = "move"@ + " "@ + rest;
    assert("move "@ + rest =~= s);
    assert forall|i: int| 0 <= i < s.len() implies !('A' <= #[trigger] s[i] <= 'Z') by {
        if i > 4 {
            assert(s[i] == rest[i - 5]);
            if i - 5 < a.len() {
                assert(rest[i - 5] == a[i - 5]);
            } else if i - 5 > a.len() {
                assert(rest[i - 5] == b[i - 5 - a.len() - 1]);
            }
        }
    }
    text::lemma_lower_stays(s);
    assert(s.last() == b.last());
    lemma_no_queue_word(s);
    assert("move"@[0] != "next"@[0]);
    assert("move"@[0] != "add"@[0]);
    assert("move"@[0] != "remove"@[0]);
}

/// Each word asks for what it says.
pub proof fn queue_words_are_read()
    ensures
        parse_queue_spec(""@) == QueueCommand::Show,
        parse_queue_spec("all"@) == QueueCommand::All,
        parse_queue_spec("undo"@) == QueueCommand::Undo,
        parse_queue_spec("shuffle"@) == QueueCommand::Shuffle,
        parse_queue_spec("reverse"@) == QueueCommand::Reverse,
        parse_queue_spec("dedupe"@) == QueueCommand::Dedupe,
        parse_queue_spec("clear"@) == QueueCommand::Clear,
{
    reveal_strlit("");
    reveal_strlit("all");
    reveal_strlit("undo");
    reveal_strlit("shuffle");
    reveal_strlit("reverse");
    reveal_strlit("dedupe");
    reveal_strlit("clear");
    reveal_with_fuel(word_from, 8);
    text::single_word_is_the_first(""@);
    text::single_word_is_the_first("all"@);
    text::single_word_is_the_first("undo"@);
    text::single_word_is_the_first("shuffle"@);
    text::single_word_is_the_first("reverse"@);
    text::single_word_is_the_first("dedupe"@);
    text::single_word_is_the_first("clear"@);
    text::lemma_lower_stays(""@);
    text::lemma_lower_stays("all"@);
    text::lemma_lower_stays("undo"@);
    text::lemma_lower_stays("shuffle"@);
    text::lemma_lower_stays("reverse"@);
    text::lemma_lower_stays("dedupe"@);
    text::lemma_lower_stays("clear"@);
    assert("all"@.len() == 3 && "undo"@.len() == 4 && "shuffle"@[0] == 's' && "reverse"@[0] == 'r'
        && "dedupe"@[0] == 'd' && "clear"@[0] == 'c' && "undo"@[0] == 'u' && "all"@[0] == 'a');
}

/// The queue is listed from the current entry on, or from the first where all are asked for; each
/// row has the number that plays its entry, its title and its length, and the current one a mark.
pub proof fn rows_show_their_entries(order: Order, all: bool, i: int)
    requires
        order.wf(),
        order.tracks.len() > 0,
        0 <= i < order.tracks.len(),
        all || order.at <= i < order.at + 10,
    ensures
        ({
            let from = if all {
                0
            } else {
                order.at
            };
            let row = order.lines(all)[1 + i - from];
            &&& 1 + i - from < order.lines(all).len()
            &&& row[0] == '>' <==> i == order.at
            &&& row[0] == ' ' <==> i != order.at
            &&& text::starts_with_spec(
                row.skip(2),
                text::decimal_spec((i + 1) as nat) + ". "@ + layout::compact_spec(
                    order.tracks[i].title@,
                    56,
                ),
            )
            &&& order.tracks[i].duration_ms matches Some(ms) ==> text::ends_with_spec(
                row,
                "  "@ + info::duration_spec(ms as nat),
            )
        }),
        text::starts_with_spec(
            order.lines(all)[0],
            "queue "@ + (text::decimal_spec((order.at + 1) as nat) + "/"@ + text::decimal_spec(
                order.tracks.len(),
            )),
        ),
        all ==> order.lines(all).len() == order.tracks.len() + 1,
{
    reveal_strlit("> ");
    reveal_strlit("  ");
    let from = order.first_listed(all);
    let to = order.end_of_list(all);
    let lines = order.lines(all);
    assert(lines[1 + i - from] == order.rows(from, to)[i - from]);
    let row = order.row(i);
    assert(lines[1 + i - from] == row);
    let named = text::decimal_spec((i + 1) as nat) + ". "@ + layout::compact_spec(
        order.tracks[i].title@,
        56,
    );
    assert(row.skip(2).take(named.len() as int) =~= named);
    let length = "  "@ + length_spec(order.tracks[i].duration_ms);
    assert(row.skip(row.len() - length.len()) =~= length);
    let place = "queue "@ + order.place();
    assert(lines[0].take(place.len() as int) =~= place);
}

} // verus!
