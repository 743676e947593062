//! Stable sorting, as repeated insertion.

use vstd::prelude::*;

verus! {

/// `x` inserted behind every element that it does not precede.
pub open spec fn insert_stable<A>(
    sorted: Seq<A>,
    x: A,
    precedes: spec_fn(A, A) -> bool,
) -> Seq<A>
    decreases sorted.len(),
{
    if sorted.len() > 0 && precedes(x, sorted.last()) {
        insert_stable(sorted.drop_last(), x, precedes).push(sorted.last())
    } else {
        sorted.push(x)
    }
}

/// The elements of `s` ordered by `precedes`; elements that do not precede each other keep their
/// order.
pub open spec fn stable_sort<A>(s: Seq<A>, precedes: spec_fn(A, A) -> bool) -> Seq<A>
    decreases s.len(),
{
    if s.len() == 0 {
        s
    } else {
        insert_stable(stable_sort(s.drop_last(), precedes), s.last(), precedes)
    }
}

/// No element comes behind one that it precedes.
pub open spec fn ordered<A>(s: Seq<A>, precedes: spec_fn(A, A) -> bool) -> bool {
    forall|i: int, j: int| 0 <= i < j < s.len() ==> !precedes(#[trigger] s[j], #[trigger] s[i])
}

/// `y` precedes no element.
pub open spec fn precedes_none<A>(y: A, s: Seq<A>, precedes: spec_fn(A, A) -> bool) -> bool {
    forall|i: int| 0 <= i < s.len() ==> !precedes(y, #[trigger] s[i])
}

/// `precedes` compares by some ranking: it is irreflexive, and neither it nor its negation loses
/// transitivity.
pub open spec fn ranks<A>(precedes: spec_fn(A, A) -> bool) -> bool {
    &&& forall|a: A, b: A| #[trigger] precedes(a, b) ==> !precedes(b, a)
    &&& forall|a: A, b: A, c: A|
        !(#[trigger] precedes(b, a)) && !(#[trigger] precedes(c, b)) ==> !precedes(c, a)
}

/// Scanning from the end finds where the insertion takes place.
pub proof fn lemma_insert_position<A>(
    sorted: Seq<A>,
    x: A,
    precedes: spec_fn(A, A) -> bool,
    at: int,
)
    requires
        0 <= at <= sorted.len(),
        forall|k: int| at <= k < sorted.len() ==> precedes(x, #[trigger] sorted[k]),
        at > 0 ==> !precedes(x, sorted[at - 1]),
    ensures
        insert_stable(sorted, x, precedes) == sorted.insert(at, x),
    decreases sorted.len(),
{
    if sorted.len() > 0 && at < sorted.len() {
        assert(precedes(x, sorted[sorted.len() - 1]));
        let shorter = sorted.drop_last();
        assert forall|k: int| at <= k < shorter.len() implies precedes(x, #[trigger] shorter[k]) by {
            assert(shorter[k] == sorted[k]);
        }
        lemma_insert_position(shorter, x, precedes, at);
        assert(shorter.insert(at, x).push(sorted.last()) =~= sorted.insert(at, x));
    } else {
        assert(sorted.push(x) =~= sorted.insert(at, x));
    }
}

pub proof fn lemma_sort_step<A>(s: Seq<A>, x: A, precedes: spec_fn(A, A) -> bool)
    ensures
        stable_sort(s.push(x), precedes) == insert_stable(stable_sort(s, precedes), x, precedes),
{
    assert(s.push(x).drop_last() == s);
}

proof fn lemma_insert_keeps<A>(sorted: Seq<A>, x: A, precedes: spec_fn(A, A) -> bool)
    ensures
        insert_stable(sorted, x, precedes).len() == sorted.len() + 1,
        insert_stable(sorted, x, precedes).to_multiset() == sorted.to_multiset().insert(x),
    decreases sorted.len(),
{
    broadcast use vstd::seq_lib::group_to_multiset_ensures;

    if sorted.len() > 0 && precedes(x, sorted.last()) {
        let shorter = sorted.drop_last();
        lemma_insert_keeps(shorter, x, precedes);
        assert(sorted == shorter.push(sorted.last()));
        assert(shorter.to_multiset().insert(x).insert(sorted.last()) =~= sorted.to_multiset().insert(
            x,
        ));
    }
}

/// Sorting rearranges: nothing is lost, nothing is added.
pub proof fn sorting_keeps_elements<A>(s: Seq<A>, precedes: spec_fn(A, A) -> bool)
    ensures
        stable_sort(s, precedes).len() == s.len(),
        stable_sort(s, precedes).to_multiset() == s.to_multiset(),
    decreases s.len(),
{
    broadcast use vstd::seq_lib::group_to_multiset_ensures;

    if s.len() > 0 {
        sorting_keeps_elements(s.drop_last(), precedes);
        lemma_insert_keeps(stable_sort(s.drop_last(), precedes), s.last(), precedes);
        assert(s == s.drop_last().push(s.last()));
    }
}

proof fn lemma_insert_orders<A>(sorted: Seq<A>, x: A, precedes: spec_fn(A, A) -> bool)
    requires
        ranks(precedes),
        ordered(sorted, precedes),
    ensures
        ordered(insert_stable(sorted, x, precedes), precedes),
        forall|y: A| #[trigger]
            precedes_none(y, sorted, precedes) && !precedes(y, x) ==> precedes_none(
                y,
                insert_stable(sorted, x, precedes),
                precedes,
            ),
    decreases sorted.len(),
{
    let r = insert_stable(sorted, x, precedes);
    if sorted.len() > 0 && precedes(x, sorted.last()) {
        let shorter = sorted.drop_last();
        let last = sorted.last();
        assert(ordered(shorter, precedes)) by {
            assert forall|i: int, j: int| 0 <= i < j < shorter.len() implies !precedes(
                #[trigger] shorter[j],
                #[trigger] shorter[i],
            ) by {
                assert(shorter[i] == sorted[i] && shorter[j] == sorted[j]);
            }
        }
        lemma_insert_orders(shorter, x, precedes);
        let front = insert_stable(shorter, x, precedes);
        assert(r == front.push(last));
        assert forall|i: int| 0 <= i < shorter.len() implies !precedes(last, #[trigger] shorter[i]) by {
            assert(shorter[i] == sorted[i]);
            assert(last == sorted[sorted.len() - 1]);
        }
        assert(precedes_none(last, shorter, precedes));
        assert(!precedes(last, x));
        assert(precedes_none(last, front, precedes));
        assert(ordered(r, precedes));
        assert forall|y: A| #[trigger]
            precedes_none(y, sorted, precedes) && !precedes(y, x) implies precedes_none(
            y,
            r,
            precedes,
        ) by {
            assert forall|i: int| 0 <= i < shorter.len() implies !precedes(y, #[trigger] shorter[i]) by {
                assert(shorter[i] == sorted[i]);
            }
            assert(precedes_none(y, shorter, precedes));
            assert(precedes_none(y, front, precedes));
            assert(!precedes(y, sorted[sorted.len() - 1]));
        }
    } else {
        assert(r == sorted.push(x));
        if sorted.len() > 0 {
            let last = sorted[sorted.len() - 1];
            assert forall|i: int| 0 <= i < sorted.len() implies !precedes(x, #[trigger] sorted[i]) by {
                if i < sorted.len() - 1 {
                    assert(!precedes(last, sorted[i]));
                }
            }
        }
    }
}

/// Sorting by a ranking gives an ordered sequence.
pub proof fn sorting_orders<A>(s: Seq<A>, precedes: spec_fn(A, A) -> bool)
    requires
        ranks(precedes),
    ensures
        ordered(stable_sort(s, precedes), precedes),
    decreases s.len(),
{
    if s.len() > 0 {
        sorting_orders(s.drop_last(), precedes);
        lemma_insert_orders(stable_sort(s.drop_last(), precedes), s.last(), precedes);
    }
}

/// What neither precedes `x` nor is preceded by it.
pub open spec fn level_with<A>(x: A, precedes: spec_fn(A, A) -> bool) -> spec_fn(A) -> bool {
    |y: A| !precedes(x, y) && !precedes(y, x)
}

proof fn lemma_insert_is_stable<A>(sorted: Seq<A>, x: A, c: A, precedes: spec_fn(A, A) -> bool)
    requires
        ranks(precedes),
    ensures
        insert_stable(sorted, x, precedes).filter(level_with(c, precedes)) == sorted.push(x).filter(
            level_with(c, precedes),
        ),
    decreases sorted.len(),
{
    reveal(Seq::filter);
    let p = level_with(c, precedes);
    assert(sorted.push(x).drop_last() == sorted);
    if sorted.len() > 0 && precedes(x, sorted.last()) {
        let shorter = sorted.drop_last();
        let last = sorted.last();
        lemma_insert_is_stable(shorter, x, c, precedes);
        assert(shorter.push(x).drop_last() == shorter);
        let front = insert_stable(shorter, x, precedes);
        assert(front.push(last).drop_last() == front);
        assert(sorted.filter(p) == if p(last) {
            shorter.filter(p).push(last)
        } else {
            shorter.filter(p)
        });
        assert(shorter.push(x).filter(p) == if p(x) {
            shorter.filter(p).push(x)
        } else {
            shorter.filter(p)
        });
        assert(front.push(last).filter(p) == if p(last) {
            front.filter(p).push(last)
        } else {
            front.filter(p)
        });
        if p(x) && p(last) {
            assert(!precedes(c, x) && !precedes(last, c));
            assert(!precedes(x, c) && !precedes(c, last));
            assert(!precedes(x, last));
        }
    }
}

/// Elements of equal rank keep the order in which they came.
pub proof fn sorting_is_stable<A>(s: Seq<A>, c: A, precedes: spec_fn(A, A) -> bool)
    requires
        ranks(precedes),
    ensures
        stable_sort(s, precedes).filter(level_with(c, precedes)) == s.filter(
            level_with(c, precedes),
        ),
    decreases s.len(),
{
    reveal(Seq::filter);
    if s.len() > 0 {
        let rest = s.drop_last();
        sorting_is_stable(rest, c, precedes);
        lemma_insert_is_stable(stable_sort(rest, precedes), s.last(), c, precedes);
        assert(stable_sort(rest, precedes).push(s.last()).drop_last() == stable_sort(
            rest,
            precedes,
        ));
    }
}

} // verus!
