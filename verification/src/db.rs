//! What the library database is asked, and how values are stored in it.

use crate::paths;
use crate::seqs;
use crate::text;
use vstd::hash_set::StringHashSet;
use vstd::prelude::*;

verus! {

// ---------------------------------------------------------------- stored numbers

/// A count as SQLite stores it, in a signed column.
pub fn stored_number(value: Option<u32>) -> (r: Option<i64>)
    ensures
        r == match value {
            Some(value) => Some(value as i64),
            None => None,
        },
{
    match value {
        Some(value) => Some(value as i64),
        None => None,
    }
}

/// A size or duration as SQLite stores it, in a signed column.
pub fn stored_size(value: u64) -> (r: i64)
    ensures
        r == value as i64,
{
    value as i64
}

pub fn read_number(value: Option<i64>) -> (r: Option<u32>)
    ensures
        r == match value {
            Some(value) => Some(value as u32),
            None => None,
        },
{
    match value {
        Some(value) => Some(value as u32),
        None => None,
    }
}

pub fn read_size(value: i64) -> (r: u64)
    ensures
        r == value as u64,
{
    value as u64
}

/// Every number, size and duration is read as it was stored.
pub proof fn stored_values_are_read_back(number: u32, size: u64)
    ensures
        (number as i64) as u32 == number,
        (size as i64) as u64 == size,
{
    assert((number as i64) as u32 == number) by (bit_vector);
    assert((size as i64) as u64 == size) by (bit_vector);
}

// ---------------------------------------------------------------- asking for candidates

/// Which tracks are asked for.
#[derive(Debug, PartialEq, Eq)]
pub enum CandidateQuery {
    /// Every track, by title.
    All,
    /// Those with the pattern in title, artist, album or path.
    Like(String),
}

pub open spec fn pattern_spec(lowered: Seq<char>) -> Seq<char> {
    "%"@ + lowered + "%"@
}

/// A blank query asks for everything.
pub fn candidate_query(query: &str) -> (r: CandidateQuery)
    ensures
        if text::trim_spec(query@).len() == 0 {
            r is All
        } else {
            r matches CandidateQuery::Like(pattern) && pattern@ == pattern_spec(
                text::lowercase(query@),
            )
        },
{
    if text::trim(query).is_empty() {
        return CandidateQuery::All;
    }
    CandidateQuery::Like(like_pattern(&text::to_lowercase(query)))
}

/// The pattern for a text in lower case.
pub fn like_pattern(lowered: &str) -> (r: String)
    ensures
        r@ == pattern_spec(lowered@),
{
    text::text3("%", lowered, "%")
}

/// A row count as SQLite takes it.
pub fn row_limit(limit: usize) -> (r: i64)
    ensures
        r == limit as i64,
{
    limit as i64
}

// ---------------------------------------------------------------- tracks that are gone

/// The path is the root or lies in it: behind the root it goes on with a separator, unless the
/// root ends in one.
pub open spec fn under(root: Seq<char>, path: Seq<char>) -> bool {
    &&& text::starts_with_spec(path, root)
    &&& {
        ||| path.len() == root.len()
        ||| root.len() > 0 && paths::separator(root.last())
        ||| paths::separator(path[root.len() as int])
    }
}

fn is_separator(c: char) -> (r: bool)
    ensures
        r == paths::separator(c),
{
    c == '/' || c == '\\'
}

/// Whether the path is the root or lies in it.
pub fn is_under(root: &str, path: &str) -> (r: bool)
    ensures
        r == under(root@, path@),
{
    match text::strip_prefix(path, root) {
        None => false,
        Some(rest) => {
            let root_chars = text::chars_of(root);
            let rest_chars = text::chars_of(rest);
            if rest_chars.len() == 0 {
                return true;
            }
            assert(rest@[0] == path@[root@.len() as int]);
            if root_chars.len() > 0 && is_separator(root_chars[root_chars.len() - 1]) {
                return true;
            }
            is_separator(rest_chars[0])
        },
    }
}

/// The path lies under the root and was not seen.
pub open spec fn gone(root: Seq<char>, seen: Set<Seq<char>>) -> spec_fn(Seq<char>) -> bool {
    |path: Seq<char>| under(root, path) && !seen.contains(path)
}

pub open spec fn as_set(paths: Seq<Seq<char>>) -> Set<Seq<char>> {
    paths.to_set()
}

/// The stored paths to remove after a scan of `root` that saw `seen`.
pub fn missing_under(stored: &[String], root: &str, seen: &[String]) -> (r: Vec<String>)
    ensures
        text::texts(r@) == text::texts(stored@).filter(
            gone(root@, as_set(text::texts(seen@))),
        ),
{
    let mut kept = StringHashSet::new();
    let ghost all_seen = text::texts(seen@);
    assert(all_seen.take(0).to_set() =~= Set::<Seq<char>>::empty());
    for i in 0..seen.len()
        invariant
            all_seen == text::texts(seen@),
            kept@ == all_seen.take(i as int).to_set(),
    {
        kept.insert(seen[i].clone());
        proof {
            let now = all_seen.take(i + 1);
            let then = all_seen.take(i as int);
            assert(now =~= then.push(all_seen[i as int]));
            assert forall|path: Seq<char>| now.to_set().contains(path) == then.to_set().insert(
                all_seen[i as int],
            ).contains(path) by {
                if now.contains(path) {
                    let k = choose|k: int| 0 <= k < now.len() && now[k] == path;
                    if k < i {
                        assert(then[k] == path);
                    }
                }
                if then.contains(path) {
                    let k = choose|k: int| 0 <= k < then.len() && then[k] == path;
                    assert(now[k] == path);
                }
                if path == all_seen[i as int] {
                    assert(now[i as int] == path);
                }
            }
            assert(now.to_set() =~= then.to_set().insert(all_seen[i as int]));
        }
    }
    assert(all_seen.take(all_seen.len() as int) =~= all_seen);
    let ghost all = text::texts(stored@);
    let ghost keep = gone(root@, as_set(all_seen));
    let mut r: Vec<String> = Vec::new();
    proof {
        seqs::lemma_filter_none(all, keep);
        assert(text::texts(r@) =~= Seq::<Seq<char>>::empty());
    }
    for i in 0..stored.len()
        invariant
            all == text::texts(stored@),
            all_seen == text::texts(seen@),
            kept@ == all_seen.to_set(),
            keep == gone(root@, as_set(all_seen)),
            text::texts(r@) == all.take(i as int).filter(keep),
    {
        let ghost before = text::texts(r@);
        proof {
            seqs::lemma_filter_step(all, keep, i as int);
        }
        if is_under(root, stored[i].as_str()) && !kept.contains(stored[i].as_str()) {
            r.push(stored[i].clone());
            assert(text::texts(r@) =~= before.push(all[i as int]));
        }
    }
    assert(all.take(all.len() as int) =~= all);
    r
}

/// A scan removes only tracks under its root, and none that it saw.
pub proof fn scan_removes_only_under_root(
    stored: Seq<Seq<char>>,
    root: Seq<char>,
    seen: Set<Seq<char>>,
    path: Seq<char>,
)
    requires
        stored.filter(gone(root, seen)).contains(path),
    ensures
        stored.contains(path),
        under(root, path),
        !seen.contains(path),
{
    seqs::lemma_filter_members(stored, gone(root, seen));
    let removed = stored.filter(gone(root, seen));
    let k = choose|k: int| 0 <= k < removed.len() && removed[k] == path;
    assert(removed[k] == path);
}

/// What lies in a folder, behind a separator, is under it, and so is the folder itself; a folder
/// whose name only begins alike is another one.
pub proof fn folders_hold_what_is_behind_a_separator(
    root: Seq<char>,
    rest: Seq<char>,
    c: char,
    other: Seq<char>,
)
    requires
        root.len() > 0,
        root.last() != '/' && root.last() != '\\',
    ensures
        under(root, root),
        under(root, root + "/"@ + rest),
        under(root, root + "\\"@ + rest),
        c != '/' && c != '\\' ==> !under(root, root + seq![c] + rest),
        other.len() < root.len() ==> !under(root, other),
        other.len() >= root.len() && other.take(root.len() as int) != root ==> !under(root, other),
{
    reveal_strlit("/");
    reveal_strlit("\\");
    assert(root.take(root.len() as int) =~= root);
    assert((root + "/"@ + rest).take(root.len() as int) =~= root);
    assert((root + "\\"@ + rest).take(root.len() as int) =~= root);
    assert((root + seq![c] + rest).take(root.len() as int) =~= root);
    assert((root + seq![c] + rest)[root.len() as int] == c);
}

/// Everything in the folder that was not seen is removed, and it alone.
pub proof fn unseen_paths_under_root_are_removed(
    stored: Seq<Seq<char>>,
    root: Seq<char>,
    seen: Seq<Seq<char>>,
    i: int,
)
    requires
        0 <= i < stored.len(),
    ensures
        stored.filter(gone(root, as_set(seen))).contains(stored[i]) <==> under(root, stored[i])
            && !seen.contains(stored[i]),
{
    let removed = gone(root, as_set(seen));
    seqs::lemma_filter_members(stored, removed);
    if removed(stored[i]) {
        seqs::lemma_filter_keeps(stored, removed, i);
    }
    if stored.filter(removed).contains(stored[i]) {
        let k = choose|k: int|
            0 <= k < stored.filter(removed).len() && stored.filter(removed)[k] == stored[i];
        assert(removed(stored.filter(removed)[k]));
    }
}

/// The pattern stands for the text with anything around it.
pub proof fn pattern_holds_the_text(lowered: Seq<char>)
    ensures
        pattern_spec(lowered).len() == lowered.len() + 2,
        pattern_spec(lowered)[0] == '%',
        pattern_spec(lowered).last() == '%',
        pattern_spec(lowered).subrange(1, lowered.len() as int + 1) == lowered,
{
    reveal_strlit("%");
    assert(pattern_spec(lowered).subrange(1, lowered.len() as int + 1) =~= lowered);
}

/// A folder that ends in a separator holds everything that begins with it, and every folder holds
/// itself.
pub proof fn folders_with_a_separator_hold_all_behind_it(root: Seq<char>, rest: Seq<char>)
    requires
        root.len() > 0,
        root.last() == '/' || root.last() == '\\',
    ensures
        under(root, root + rest),
        under(rest, rest),
{
    assert((root + rest).take(root.len() as int) =~= root);
    assert(rest.take(rest.len() as int) =~= rest);
}

} // verus!
