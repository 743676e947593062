//! Ranking what was found.

use crate::library;
use crate::library::Track;
use crate::paths;
use crate::sorting;
use crate::text;
use vstd::prelude::*;

verus! {

#[derive(Debug)]
pub struct SearchResult {
    pub track: Track,
    pub score: u8,
}

/// How many candidates are asked for to find the best `limit`.
pub fn candidate_limit(limit: usize) -> (r: usize)
    ensures
        r == if limit * 8 <= usize::MAX {
            limit * 8
        } else {
            usize::MAX as int
        },
{
    if limit <= usize::MAX / 8 {
        limit * 8
    } else {
        usize::MAX
    }
}

// ---------------------------------------------------------------- ranking

/// The texts of a track that a query is looked for in, in lower case.
pub ghost struct Fields {
    pub title: Seq<char>,
    pub artist: Seq<char>,
    pub album: Seq<char>,
    pub filename: Seq<char>,
    pub path: Seq<char>,
}

/// Title or artist in full, at their start, or with the album anywhere; then the file name, then
/// the path.
pub open spec fn rank_spec(fields: Fields, query: Seq<char>) -> u8 {
    if query.len() == 0 {
        1
    } else if fields.title == query || fields.artist == query {
        100
    } else if text::starts_with_spec(fields.title, query) || text::starts_with_spec(
        fields.artist,
        query,
    ) {
        80
    } else if text::contains_spec(fields.title, query) || text::contains_spec(fields.artist, query)
        || text::contains_spec(fields.album, query) {
        60
    } else if text::contains_spec(fields.filename, query) {
        40
    } else if text::contains_spec(fields.path, query) {
        20
    } else {
        0
    }
}

/// The rank by texts that are in lower case already.
pub fn rank_lowered(
    title: &str,
    artist: &str,
    album: &str,
    filename: &str,
    path: &str,
    query: &str,
) -> (r: u8)
    ensures
        r == rank_spec(
            Fields {
                title: title@,
                artist: artist@,
                album: album@,
                filename: filename@,
                path: path@,
            },
            query@,
        ),
{
    if query.is_empty() {
        1
    } else if text::same_text(title, query) || text::same_text(artist, query) {
        100
    } else if text::starts_with(title, query) || text::starts_with(artist, query) {
        80
    } else if text::contains(title, query) || text::contains(artist, query) || text::contains(
        album,
        query,
    ) {
        60
    } else if text::contains(filename, query) {
        40
    } else if text::contains(path, query) {
        20
    } else {
        0
    }
}

/// The texts of a track whose file is named `filename`.
pub open spec fn fields_of(track: Track, filename: Seq<char>) -> Fields {
    Fields {
        title: text::lowercase(track.title@),
        artist: text::lowercase(library::text_or(track.artist, ""@)),
        album: text::lowercase(library::text_or(track.album, ""@)),
        filename: text::lowercase(filename),
        path: text::lowercase(track.path@),
    }
}

/// The rank that a track has for a query, by the name of its file.
pub open spec fn ranked_by(track: Track, query: Seq<char>, filename: Seq<char>) -> u8 {
    rank_spec(fields_of(track, filename), text::lowercase(text::trim_spec(query)))
}

/// `score` is the rank of the track, by a file name that stands in its path. Every platform takes
/// the same name from a plain path; where backslashes stand in the name, a platform that knows them
/// only as characters takes them with it.
pub open spec fn is_rank(track: Track, query: Seq<char>, score: u8) -> bool {
    &&& paths::plain_path(track.path@) ==> score == ranked_by(
        track,
        query,
        paths::stem_spec(paths::tail_spec(track.path@)),
    )
    &&& paths::names_a_file(track.path@) ==> score == ranked_by(
        track,
        query,
        paths::stem_spec(paths::name_spec(track.path@)),
    ) || score == ranked_by(track, query, paths::stem_spec(paths::tail_spec(track.path@)))
    &&& exists|filename: Seq<char>| #[trigger]
        ranked_by(track, query, filename) == score && (filename == ""@ || text::contains_spec(
            track.path@,
            filename,
        ))
}

pub fn rank_track(track: &Track, query: &str) -> (r: u8)
    ensures
        is_rank(*track, query@, r),
        paths::plain_path(track.path@) ==> r == ranked_by(
            *track,
            query@,
            paths::stem_spec(paths::tail_spec(track.path@)),
        ),
        text::lowercase(text::trim_spec(query@)).len() == 0 ==> r == 1,
        text::lowercase(text::trim_spec(query@)).len() > 0 ==> {
            let q = text::lowercase(text::trim_spec(query@));
            let title = text::lowercase(track.title@);
            &&& r == 0 || r == 20 || r == 40 || r == 60 || r == 80 || r == 100
            &&& title == q ==> r == 100
            &&& text::starts_with_spec(title, q) ==> r >= 80
            &&& text::contains_spec(title, q) ==> r >= 60
            &&& text::contains_spec(text::lowercase(track.path@), q) ==> r >= 20
        },
{
    let lowered = text::to_lowercase(text::trim(query));
    let title = text::to_lowercase(track.title.as_str());
    let artist = text::to_lowercase(library::text_or_default(&track.artist, ""));
    let album = text::to_lowercase(library::text_or_default(&track.album, ""));
    let stem = match paths::path_file_stem(track.path.as_str()) {
        Some(stem) => stem,
        None => "".to_owned(),
    };
    let filename = text::to_lowercase(stem.as_str());
    let path = text::to_lowercase(track.path.as_str());
    let r = rank_lowered(&title, &artist, &album, &filename, &path, &lowered);
    assert(ranked_by(*track, query@, stem@) == r);
    proof {
        if text::lowercase(text::trim_spec(query@)).len() > 0 {
            ranks_tell_where_the_query_stands(*track, query@, stem@);
        }
    }
    r
}

// ---------------------------------------------------------------- order

/// `a` comes before `b` in the dictionary, character by character.
pub open spec fn text_before(a: Seq<char>, b: Seq<char>) -> bool
    decreases a.len(),
{
    if b.len() == 0 {
        false
    } else if a.len() == 0 {
        true
    } else if a[0] != b[0] {
        a[0] < b[0]
    } else {
        text_before(a.skip(1), b.skip(1))
    }
}

fn chars_before(a: &[char], b: &[char]) -> (r: bool)
    ensures
        r == text_before(a@, b@),
{
    let mut i: usize = 0;
    assert(a@.skip(0) =~= a@);
    assert(b@.skip(0) =~= b@);
    while i < a.len() && i < b.len()
        invariant
            i <= a@.len(),
            i <= b@.len(),
            text_before(a@, b@) == text_before(a@.skip(i as int), b@.skip(i as int)),
        decreases a@.len() - i,
    {
        let x: char = a[i];
        let y: char = b[i];
        if x != y {
            return x < y;
        }
        assert(a@.skip(i as int).skip(1) =~= a@.skip(i + 1));
        assert(b@.skip(i as int).skip(1) =~= b@.skip(i + 1));
        i = i + 1;
    }
    i >= a.len() && i < b.len()
}

/// Higher scores come first, and among equal ones the titles in their order.
pub open spec fn better() -> spec_fn(SearchResult, SearchResult) -> bool {
    |a: SearchResult, b: SearchResult|
        a.score > b.score || (a.score == b.score && text_before(
            text::lowercase(a.track.title@),
            text::lowercase(b.track.title@),
        ))
}

/// A result with its title in lower case.
struct Keyed {
    result: SearchResult,
    key: Vec<char>,
}

spec fn results_in(keyed: Seq<Keyed>) -> Seq<SearchResult> {
    Seq::new(keyed.len(), |i: int| keyed[i].result)
}

spec fn keys_fit(keyed: Seq<Keyed>) -> bool {
    forall|i: int|
        0 <= i < keyed.len() ==> (#[trigger] keyed[i]).key@ == text::lowercase(
            keyed[i].result.track.title@,
        )
}

fn keyed_before(a: &Keyed, b: &Keyed) -> (r: bool)
    requires
        a.key@ == text::lowercase(a.result.track.title@),
        b.key@ == text::lowercase(b.result.track.title@),
    ensures
        r == better()(a.result, b.result),
{
    if a.result.score != b.result.score {
        return a.result.score > b.result.score;
    }
    chars_before(&a.key, &b.key)
}

fn insert_keyed(sorted: &mut Vec<Keyed>, entry: Keyed)
    requires
        keys_fit(old(sorted)@),
        entry.key@ == text::lowercase(entry.result.track.title@),
    ensures
        keys_fit(final(sorted)@),
        results_in(final(sorted)@) == sorting::insert_stable(
            results_in(old(sorted)@),
            entry.result,
            better(),
        ),
{
    let mut at: usize = sorted.len();
    while at > 0 && keyed_before(&entry, &sorted[at - 1])
        invariant
            at <= sorted@.len(),
            sorted@ == old(sorted)@,
            keys_fit(sorted@),
            entry.key@ == text::lowercase(entry.result.track.title@),
            forall|k: int|
                at <= k < sorted@.len() ==> better()(
                    entry.result,
                    #[trigger] results_in(sorted@)[k],
                ),
        decreases at,
    {
        assert(results_in(sorted@)[at - 1] == sorted@[at - 1].result);
        at = at - 1;
    }
    proof {
        if at > 0 {
            assert(results_in(sorted@)[at - 1] == sorted@[at - 1].result);
        }
        sorting::lemma_insert_position(results_in(sorted@), entry.result, better(), at as int);
    }
    sorted.insert(at, entry);
    assert(results_in(sorted@) =~= results_in(old(sorted)@).insert(at as int, entry.result));
}

/// The first `limit` results, best first.
pub open spec fn best_spec(results: Seq<SearchResult>, limit: nat) -> Seq<SearchResult> {
    let sorted = sorting::stable_sort(results, better());
    if sorted.len() <= limit {
        sorted
    } else {
        sorted.take(limit as int)
    }
}

pub fn best_results(results: Vec<SearchResult>, limit: usize) -> (r: Vec<SearchResult>)
    ensures
        r@ == best_spec(results@, limit as nat),
{
    let ghost all = results@;
    let mut sorted: Vec<Keyed> = Vec::new();
    assert(results_in(sorted@) =~= sorting::stable_sort(all.take(0), better()));
    for result in it: results
        invariant
            it.seq() == all,
            keys_fit(sorted@),
            results_in(sorted@) == sorting::stable_sort(all.take(it.index() as int), better()),
    {
        let lowered = text::to_lowercase(result.track.title.as_str());
        let key = text::chars_of(lowered.as_str());
        proof {
            let i = it.index() as int;
            sorting::lemma_sort_step(all.take(i), all[i], better());
            assert(all.take(i + 1) =~= all.take(i).push(all[i]));
        }
        insert_keyed(&mut sorted, Keyed { result, key });
    }
    assert(all.take(all.len() as int) =~= all);
    sorted.truncate(limit);
    let ghost kept = results_in(sorted@);
    let mut r: Vec<SearchResult> = Vec::new();
    for entry in it: sorted
        invariant
            kept == results_in(it.seq()),
            r@ == kept.take(it.index() as int),
    {
        assert(kept.take(it.index() + 1) =~= kept.take(it.index() as int).push(
            kept[it.index() as int],
        ));
        r.push(entry.result);
    }
    assert(kept.take(kept.len() as int) =~= kept);
    assert(kept =~= best_spec(all, limit as nat));
    r
}

/// The candidates, each with its rank.
pub open spec fn ranks_of(
    results: Seq<SearchResult>,
    candidates: Seq<Track>,
    query: Seq<char>,
) -> bool {
    &&& results.len() == candidates.len()
    &&& forall|i: int|
        0 <= i < results.len() ==> (#[trigger] results[i]).track == candidates[i] && is_rank(
            candidates[i],
            query,
            results[i].score,
        )
}

pub fn rank_candidates(candidates: Vec<Track>, query: &str) -> (r: Vec<SearchResult>)
    ensures
        ranks_of(r@, candidates@, query@),
{
    let ghost all = candidates@;
    let mut r: Vec<SearchResult> = Vec::new();
    for track in it: candidates
        invariant
            it.seq() == all,
            r@.len() == it.index(),
            forall|i: int|
                0 <= i < r@.len() ==> (#[trigger] r@[i]).track == all[i] && is_rank(
                    all[i],
                    query@,
                    r@[i].score,
                ),
    {
        let score = rank_track(&track, query);
        r.push(SearchResult { track, score });
    }
    r
}

/// The best `limit` of the candidates.
pub fn search(candidates: Vec<Track>, query: &str, limit: usize) -> (r: Vec<SearchResult>)
    ensures
        exists|ranked: Seq<SearchResult>| #[trigger]
            ranks_of(ranked, candidates@, query@) && r@ == best_spec(ranked, limit as nat),
        r@.len() <= limit,
        r@.len() == candidates@.len() || r@.len() == limit,
        forall|i: int|
            0 <= i < r@.len() ==> candidates@.contains((#[trigger] r@[i]).track) && is_rank(
                r@[i].track,
                query@,
                r@[i].score,
            ),
        forall|i: int, j: int|
            0 <= i < j < r@.len() ==> (#[trigger] r@[i]).score >= (#[trigger] r@[j]).score,
        forall|i: int, j: int|
            0 <= i < j < r@.len() && (#[trigger] r@[i]).score == (#[trigger] r@[j]).score
                ==> comes_no_later(
                text::lowercase(r@[i].track.title@),
                text::lowercase(r@[j].track.title@),
            ),
{
    let ranked = rank_candidates(candidates, query);
    let ghost all = ranked@;
    assert(ranks_of(all, candidates@, query@));
    let r = best_results(ranked, limit);
    proof {
        best_results_are_limited(all, limit as nat);
        sorting::sorting_keeps_elements(all, better());
        assert forall|i: int| 0 <= i < r@.len() implies candidates@.contains(
            (#[trigger] r@[i]).track,
        ) && is_rank(r@[i].track, query@, r@[i].score) by {
            best_results_come_from_the_candidates(all, limit as nat, i);
            let k = choose|k: int| 0 <= k < all.len() && all[k] == r@[i];
            assert(candidates@[k] == r@[i].track);
        }
        assert forall|i: int, j: int| 0 <= i < j < r@.len() implies (#[trigger] r@[i]).score >= (
        #[trigger] r@[j]).score && (r@[i].score == r@[j].score ==> comes_no_later(
            text::lowercase(r@[i].track.title@),
            text::lowercase(r@[j].track.title@),
        )) by {
            best_come_first_and_equals_by_title(all, limit as nat, i, j);
        }
    }
    r
}

/// The tracks of the results, in their order.
pub fn tracks_of(results: Vec<SearchResult>) -> (r: Vec<Track>)
    ensures
        r@.len() == results@.len(),
        forall|i: int| 0 <= i < r@.len() ==> #[trigger] r@[i] == results@[i].track,
{
    let ghost all = results@;
    let mut r: Vec<Track> = Vec::new();
    for result in it: results
        invariant
            it.seq() == all,
            r@.len() == it.index(),
            forall|i: int| 0 <= i < r@.len() ==> #[trigger] r@[i] == all[i].track,
    {
        r.push(result.track);
    }
    r
}

// ---------------------------------------------------------------- laws

/// A full match ranks above a match at the start, that above one inside, that above one in the
/// file name, and that above one in the path.
pub proof fn ranks_follow_the_match(
    full: Fields,
    start: Fields,
    inside: Fields,
    in_name: Fields,
    in_path: Fields,
    query: Seq<char>,
)
    requires
        query.len() > 0,
        full.title == query || full.artist == query,
        text::starts_with_spec(start.title, query) || text::starts_with_spec(start.artist, query),
        start.title != query && start.artist != query,
        !text::starts_with_spec(inside.title, query) && !text::starts_with_spec(
            inside.artist,
            query,
        ),
        text::contains_spec(inside.title, query) || text::contains_spec(inside.artist, query)
            || text::contains_spec(inside.album, query),
        no_text_match(in_name, query),
        text::contains_spec(in_name.filename, query),
        no_text_match(in_path, query),
        !text::contains_spec(in_path.filename, query),
        text::contains_spec(in_path.path, query),
    ensures
        rank_spec(full, query) > rank_spec(start, query) > rank_spec(inside, query) > rank_spec(
            in_name,
            query,
        ) > rank_spec(in_path, query) > 0,
{
    lemma_no_text_match(in_name, query);
    lemma_no_text_match(in_path, query);
    assert(query.take(query.len() as int) =~= query);
}

/// A rank is one of a few steps. Only a blank query has the one, and only a query that none of the
/// texts holds has none.
pub proof fn no_rank_means_no_match(fields: Fields, query: Seq<char>)
    ensures
        seq![0u8, 1u8, 20u8, 40u8, 60u8, 80u8, 100u8].contains(rank_spec(fields, query)),
        rank_spec(fields, query) == 1 <==> query.len() == 0,
        rank_spec(fields, query) == 0 <==> query.len() > 0 && no_text_match(fields, query)
            && !text::contains_spec(fields.filename, query) && !text::contains_spec(
            fields.path,
            query,
        ),
{
    let ranks = seq![0u8, 1u8, 20u8, 40u8, 60u8, 80u8, 100u8];
    assert(ranks[0] == 0 && ranks[1] == 1 && ranks[2] == 20 && ranks[3] == 40 && ranks[4] == 60
        && ranks[5] == 80 && ranks[6] == 100);
    lemma_start_is_inside(fields.title, query);
    lemma_start_is_inside(fields.artist, query);
    assert(query.take(query.len() as int) =~= query);
}

/// White space around a query and its case make no difference: queries with the same trimmed text
/// in lower case rank a file of a given name alike.
pub proof fn queries_that_read_alike_rank_alike(
    track: Track,
    one: Seq<char>,
    other: Seq<char>,
    filename: Seq<char>,
)
    requires
        text::lowercase(text::trim_spec(one)) == text::lowercase(text::trim_spec(other)),
    ensures
        ranked_by(track, one, filename) == ranked_by(track, other, filename),
{
}

/// Neither title, artist nor album holds the query.
pub open spec fn no_text_match(fields: Fields, query: Seq<char>) -> bool {
    &&& !text::contains_spec(fields.title, query)
    &&& !text::contains_spec(fields.artist, query)
    &&& !text::contains_spec(fields.album, query)
}

proof fn lemma_no_text_match(fields: Fields, query: Seq<char>)
    requires
        no_text_match(fields, query),
    ensures
        fields.title != query,
        fields.artist != query,
        !text::starts_with_spec(fields.title, query),
        !text::starts_with_spec(fields.artist, query),
{
    lemma_start_is_inside(fields.title, query);
    lemma_start_is_inside(fields.artist, query);
    assert(query.take(query.len() as int) =~= query);
}

proof fn lemma_start_is_inside(s: Seq<char>, query: Seq<char>)
    ensures
        text::starts_with_spec(s, query) ==> text::contains_spec(s, query),
{
    if text::starts_with_spec(s, query) {
        assert(s.subrange(0, query.len() as int) =~= s.take(query.len() as int));
        assert(text::occurs_at(s, query, 0));
    }
}

/// At most `limit` results come out, each of them one of those that went in.
pub proof fn best_results_are_limited(results: Seq<SearchResult>, limit: nat)
    ensures
        best_spec(results, limit).len() <= limit,
        best_spec(results, limit).len() <= results.len(),
        results.len() <= limit ==> best_spec(results, limit).to_multiset() == results.to_multiset(),
        best_spec(results, limit).to_multiset().subset_of(results.to_multiset()),
{
    let sorted = sorting::stable_sort(results, better());
    sorting::sorting_keeps_elements(results, better());
    if sorted.len() > limit {
        sorted.to_multiset_ensures();
        sorted.take(limit as int).to_multiset_ensures();
        sorted.skip(limit as int).to_multiset_ensures();
        assert(sorted =~= sorted.take(limit as int) + sorted.skip(limit as int));
        vstd::seq_lib::lemma_multiset_commutative(
            sorted.take(limit as int),
            sorted.skip(limit as int),
        );
    }
}

/// No result comes behind one that it beats, and none that is left out beats one that is kept.
pub proof fn best_results_are_ordered(results: Seq<SearchResult>, limit: nat)
    ensures
        sorting::ordered(best_spec(results, limit), better()),
        forall|kept: int, left_out: int|
            0 <= kept < limit <= left_out < results.len() ==> !better()(
                #[trigger] sorting::stable_sort(results, better())[left_out],
                #[trigger] best_spec(results, limit)[kept],
            ),
{
    lemma_better_ranks();
    sorting::sorting_orders(results, better());
    sorting::sorting_keeps_elements(results, better());
}

proof fn lemma_text_before_asymmetric(a: Seq<char>, b: Seq<char>)
    ensures
        text_before(a, b) ==> !text_before(b, a),
    decreases a.len(),
{
    if a.len() > 0 && b.len() > 0 && a[0] == b[0] {
        lemma_text_before_asymmetric(a.skip(1), b.skip(1));
    }
}

proof fn lemma_text_before_negation(a: Seq<char>, b: Seq<char>, c: Seq<char>)
    ensures
        !text_before(b, a) && !text_before(c, b) ==> !text_before(c, a),
    decreases a.len(),
{
    if a.len() > 0 && b.len() > 0 && c.len() > 0 && a[0] == b[0] && b[0] == c[0] {
        lemma_text_before_negation(a.skip(1), b.skip(1), c.skip(1));
    }
}

proof fn lemma_better_ranks()
    ensures
        sorting::ranks(better()),
{
    let p = better();
    assert forall|a: SearchResult, b: SearchResult| #[trigger] p(a, b) implies !p(b, a) by {
        lemma_text_before_asymmetric(
            text::lowercase(a.track.title@),
            text::lowercase(b.track.title@),
        );
    }
    assert forall|a: SearchResult, b: SearchResult, c: SearchResult|
        !(#[trigger] p(b, a)) && !(#[trigger] p(c, b)) implies !p(c, a) by {
        lemma_text_before_negation(
            text::lowercase(a.track.title@),
            text::lowercase(b.track.title@),
            text::lowercase(c.track.title@),
        );
        lemma_text_before_asymmetric(
            text::lowercase(a.track.title@),
            text::lowercase(b.track.title@),
        );
    }
}

/// `a` is `b`, or its beginning, or has the smaller character where they first differ.
pub open spec fn comes_no_later(a: Seq<char>, b: Seq<char>) -> bool {
    exists|k: int| #[trigger] agree_up_to(a, b, k) && (k == a.len() || (k < b.len() && a[k] < b[k]))
}

/// The first `k` characters are the same.
pub open spec fn agree_up_to(a: Seq<char>, b: Seq<char>, k: int) -> bool {
    &&& 0 <= k <= a.len()
    &&& k <= b.len()
    &&& a.take(k) == b.take(k)
}

/// Where two texts first differ, the smaller character decides which comes first.
pub proof fn first_difference_decides(a: Seq<char>, b: Seq<char>, k: int)
    requires
        0 <= k < a.len(),
        k < b.len(),
        forall|i: int| 0 <= i < k ==> #[trigger] a[i] == b[i],
        a[k] != b[k],
    ensures
        text_before(a, b) <==> a[k] < b[k],
        text_before(b, a) <==> b[k] < a[k],
    decreases k,
{
    if k > 0 {
        assert(a[0] == b[0]);
        assert forall|i: int| 0 <= i < k - 1 implies #[trigger] a.skip(1)[i] == b.skip(1)[i] by {
            assert(a[i + 1] == b[i + 1]);
        }
        first_difference_decides(a.skip(1), b.skip(1), k - 1);
    }
}

/// A text comes before every longer one that begins with it, and never the other way round.
pub proof fn beginnings_come_first(a: Seq<char>, rest: Seq<char>)
    ensures
        text_before(a, a + rest) <==> rest.len() > 0,
        !text_before(a + rest, a),
    decreases a.len(),
{
    if a.len() > 0 {
        beginnings_come_first(a.skip(1), rest);
        assert((a + rest).skip(1) =~= a.skip(1) + rest);
    } else {
        assert(a + rest =~= rest);
    }
}

/// Of two different texts exactly one comes before the other, and none comes before itself.
pub proof fn one_of_two_texts_comes_first(a: Seq<char>, b: Seq<char>)
    ensures
        a != b ==> text_before(a, b) != text_before(b, a),
        !text_before(a, a),
        !text_before(b, a) ==> comes_no_later(a, b),
        text_before(b, a) ==> !comes_no_later(a, b),
    decreases a.len(),
{
    lemma_text_before_asymmetric(a, b);
    lemma_text_before_asymmetric(a, a);
    if a.len() == 0 || b.len() == 0 || a[0] != b[0] {
        assert(a.take(0) =~= b.take(0));
        assert(agree_up_to(a, b, 0));
        if a.len() == 0 && b.len() == 0 {
            assert(a =~= b);
        }
        if text_before(b, a) && comes_no_later(a, b) {
            let k = choose|k: int| #[trigger]
                agree_up_to(a, b, k) && (k == a.len() || (k < b.len() && a[k] < b[k]));
            if k > 0 {
                assert(a.take(k)[0] == b.take(k)[0]);
            }
        }
    } else {
        let x = a.skip(1);
        let y = b.skip(1);
        one_of_two_texts_comes_first(x, y);
        if x == y {
            assert(a =~= seq![a[0]] + x);
            assert(b =~= seq![b[0]] + y);
        }
        if comes_no_later(x, y) {
            let k = choose|k: int| #[trigger]
                agree_up_to(x, y, k) && (k == x.len() || (k < y.len() && x[k] < y[k]));
            assert forall|i: int| 0 <= i < k + 1 implies #[trigger] a[i] == b[i] by {
                if i > 0 {
                    assert(x.take(k)[i - 1] == y.take(k)[i - 1]);
                }
            }
            assert(a.take(k + 1) =~= b.take(k + 1));
            assert(agree_up_to(a, b, k + 1));
        }
        if comes_no_later(a, b) {
            let k = choose|k: int| #[trigger]
                agree_up_to(a, b, k) && (k == a.len() || (k < b.len() && a[k] < b[k]));
            assert(k > 0);
            assert forall|i: int| 0 <= i < k - 1 implies #[trigger] x[i] == y[i] by {
                assert(a.take(k)[i + 1] == b.take(k)[i + 1]);
            }
            assert(x.take(k - 1) =~= y.take(k - 1));
            assert(agree_up_to(x, y, k - 1));
        }
    }
}

/// Which comes first does not go in a circle.
pub proof fn text_order_goes_on(a: Seq<char>, b: Seq<char>, c: Seq<char>)
    requires
        text_before(a, b),
        text_before(b, c),
    ensures
        text_before(a, c),
    decreases a.len(),
{
    if a.len() > 0 && b.len() > 0 && c.len() > 0 && a[0] == b[0] && b[0] == c[0] {
        text_order_goes_on(a.skip(1), b.skip(1), c.skip(1));
    }
}

/// Of two listed results the first has the higher score, or the same and a title that comes no
/// later in lower case.
pub proof fn best_come_first_and_equals_by_title(
    results: Seq<SearchResult>,
    limit: nat,
    i: int,
    j: int,
)
    requires
        0 <= i < j < best_spec(results, limit).len(),
    ensures
        best_spec(results, limit)[i].score >= best_spec(results, limit)[j].score,
        best_spec(results, limit)[i].score == best_spec(results, limit)[j].score ==> comes_no_later(
            text::lowercase(best_spec(results, limit)[i].track.title@),
            text::lowercase(best_spec(results, limit)[j].track.title@),
        ),
{
    best_results_are_ordered(results, limit);
    let first = best_spec(results, limit)[i];
    let second = best_spec(results, limit)[j];
    assert(!better()(second, first));
    one_of_two_texts_comes_first(
        text::lowercase(first.track.title@),
        text::lowercase(second.track.title@),
    );
}

/// What is listed was ranked.
pub proof fn best_results_come_from_the_candidates(results: Seq<SearchResult>, limit: nat, i: int)
    requires
        0 <= i < best_spec(results, limit).len(),
    ensures
        results.contains(best_spec(results, limit)[i]),
{
    let sorted = sorting::stable_sort(results, better());
    sorting::sorting_keeps_elements(results, better());
    sorted.to_multiset_ensures();
    results.to_multiset_ensures();
    assert(sorted[i] == best_spec(results, limit)[i]);
    assert(sorted.contains(sorted[i]));
    assert(results.to_multiset().count(sorted[i]) > 0);
}

/// No result that is left out has a higher score than one that is listed.
pub proof fn what_is_left_out_scores_no_higher(results: Seq<SearchResult>, limit: nat, i: int, k: int)
    requires
        0 <= i < best_spec(results, limit).len(),
        0 <= k < results.len(),
        !best_spec(results, limit).contains(results[k]),
    ensures
        results[k].score <= best_spec(results, limit)[i].score,
{
    let sorted = sorting::stable_sort(results, better());
    let best = best_spec(results, limit);
    sorting::sorting_keeps_elements(results, better());
    sorted.to_multiset_ensures();
    results.to_multiset_ensures();
    assert(results.contains(results[k]));
    assert(sorted.to_multiset().count(results[k]) > 0);
    let at = choose|at: int| 0 <= at < sorted.len() && sorted[at] == results[k];
    if at < best.len() {
        assert(best[at] == results[k]);
    }
    lemma_better_ranks();
    sorting::sorting_orders(results, better());
    assert(!better()(sorted[at], sorted[i]));
}

/// Results of one score and one title stay in the order in which they came.
pub proof fn equal_results_keep_their_order(results: Seq<SearchResult>, chosen: SearchResult)
    ensures
        ({
            let alike = |other: SearchResult|
                other.score == chosen.score && text::lowercase(other.track.title@)
                    == text::lowercase(chosen.track.title@);
            best_spec(results, results.len()).filter(alike) == results.filter(alike)
        }),
{
    let alike = |other: SearchResult|
        other.score == chosen.score && text::lowercase(other.track.title@) == text::lowercase(
            chosen.track.title@,
        );
    lemma_better_ranks();
    sorting::sorting_is_stable(results, chosen, better());
    sorting::sorting_keeps_elements(results, better());
    let level = sorting::level_with(chosen, better());
    assert forall|other: SearchResult| #[trigger] alike(other) == level(other) by {
        one_of_two_texts_comes_first(
            text::lowercase(chosen.track.title@),
            text::lowercase(other.track.title@),
        );
    }
    assert(alike =~= level);
}

/// What each step of the rank means, in the track's own texts: the whole title or artist, the start
/// of one of them, a part of title, artist or album, a part of the file name, a part of the path.
pub proof fn ranks_tell_where_the_query_stands(track: Track, query: Seq<char>, filename: Seq<char>)
    requires
        text::lowercase(text::trim_spec(query)).len() > 0,
    ensures
        ({
            let q = text::lowercase(text::trim_spec(query));
            let title = text::lowercase(track.title@);
            let artist = text::lowercase(
                match track.artist {
                    Some(artist) => artist@,
                    None => ""@,
                },
            );
            let album = text::lowercase(
                match track.album {
                    Some(album) => album@,
                    None => ""@,
                },
            );
            let rank = ranked_by(track, query, filename);
            let at_start = text::starts_with_spec(title, q) || text::starts_with_spec(artist, q);
            let inside = text::contains_spec(title, q) || text::contains_spec(artist, q)
                || text::contains_spec(album, q);
            let in_name = text::contains_spec(text::lowercase(filename), q);
            let in_path = text::contains_spec(text::lowercase(track.path@), q);
            &&& rank >= 100 <==> title == q || artist == q
            &&& rank >= 80 <==> at_start
            &&& rank >= 60 <==> inside
            &&& rank >= 40 <==> inside || in_name
            &&& rank >= 20 <==> inside || in_name || in_path
        }),
{
    let q = text::lowercase(text::trim_spec(query));
    let fields = fields_of(track, filename);
    lemma_start_is_inside(fields.title, q);
    lemma_start_is_inside(fields.artist, q);
    assert(q.take(q.len() as int) =~= q);
}

} // verus!
