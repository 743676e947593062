//! Scanning a folder into the library.

use crate::db;
use crate::library::{FileFingerprint, Track};
use crate::metadata;
use crate::metadata::{FileFacts, TagInfo};
use crate::seqs;
use crate::text;
use vstd::hash_map::StringHashMap;
use vstd::prelude::*;

verus! {

#[derive(Debug, Clone, Copy, PartialEq, Eq, Structural)]
pub struct ScanSummary {
    pub scanned_files: usize,
    pub indexed_tracks: usize,
    pub skipped_unchanged: usize,
    pub failed_files: usize,
    pub removed_missing: usize,
    pub elapsed_ms: u128,
}

impl Default for ScanSummary {
    fn default() -> (r: Self)
        ensures
            r == (ScanSummary {
                scanned_files: 0,
                indexed_tracks: 0,
                skipped_unchanged: 0,
                failed_files: 0,
                removed_missing: 0,
                elapsed_ms: 0,
            }),
    {
        ScanSummary {
            scanned_files: 0,
            indexed_tracks: 0,
            skipped_unchanged: 0,
            failed_files: 0,
            removed_missing: 0,
            elapsed_ms: 0,
        }
    }
}

// ---------------------------------------------------------------- what has to be read

/// A file that the scan came upon.
#[derive(Debug, PartialEq, Eq)]
pub struct FileEntry {
    pub path: String,
    pub fingerprint: FileFingerprint,
}

pub open spec fn fingerprint_spec(modified_secs: Option<u64>, size_bytes: u64) -> FileFingerprint {
    FileFingerprint {
        modified_unix: match modified_secs {
            Some(secs) => secs as i64,
            None => 0,
        },
        size_bytes,
    }
}

/// A file's fingerprint, from its time in seconds since the Unix epoch where that can be had.
pub fn fingerprint_from_metadata(modified_secs: Option<u64>, size_bytes: u64) -> (r: FileFingerprint)
    ensures
        r == fingerprint_spec(modified_secs, size_bytes),
        r.size_bytes == size_bytes,
        modified_secs matches Some(secs) ==> r.modified_unix == secs as i64,
        modified_secs is None ==> r.modified_unix == 0,
{
    FileFingerprint {
        modified_unix: match modified_secs {
            Some(secs) => secs as i64,
            None => 0,
        },
        size_bytes,
    }
}

/// What the library knows of each path.
pub open spec fn known_spec(known: Seq<(String, FileFingerprint)>) -> Map<
    Seq<char>,
    FileFingerprint,
>
    decreases known.len(),
{
    if known.len() == 0 {
        Map::empty()
    } else {
        known_spec(known.drop_last()).insert(known.last().0@, known.last().1)
    }
}

/// The file is unknown, or its time or size has changed.
pub open spec fn changed(known: Map<Seq<char>, FileFingerprint>) -> spec_fn(FileEntry) -> bool {
    |file: FileEntry|
        !(known.dom().contains(file.path@) && known[file.path@] == file.fingerprint)
}

pub open spec fn paths_of(files: Seq<FileEntry>) -> Seq<Seq<char>> {
    Seq::new(files.len(), |i: int| files[i].path@)
}

/// The files to read and those to leave alone.
#[derive(Debug)]
pub struct ScanPlan {
    /// The paths to read.
    pub candidates: Vec<String>,
    /// Every path that was seen.
    pub seen: Vec<String>,
    pub skipped_unchanged: usize,
}

/// The plan of a scan: every file that changed is read, the others are counted.
pub open spec fn is_plan(
    plan: ScanPlan,
    known: Seq<(String, FileFingerprint)>,
    files: Seq<FileEntry>,
) -> bool {
    &&& text::texts(plan.candidates@) == paths_of(files.filter(changed(known_spec(known))))
    &&& text::texts(plan.seen@) == paths_of(files)
    &&& plan.candidates@.len() + plan.skipped_unchanged == files.len()
}

fn known_map(known: &[(String, FileFingerprint)]) -> (r: StringHashMap<FileFingerprint>)
    ensures
        r@ == known_spec(known@),
{
    let mut r: StringHashMap<FileFingerprint> = StringHashMap::new();
    assert(known_spec(known@.take(0)) =~= Map::empty());
    for i in 0..known.len()
        invariant
            r@ == known_spec(known@.take(i as int)),
    {
        r.insert(known[i].0.clone(), known[i].1);
        assert(known@.take(i + 1).drop_last() =~= known@.take(i as int));
    }
    assert(known@.take(known@.len() as int) =~= known@);
    r
}

pub fn plan_scan(known: &[(String, FileFingerprint)], files: &[FileEntry]) -> (r: ScanPlan)
    ensures
        is_plan(r, known@, files@),
        text::texts(r.candidates@) == paths_of(files@.filter(changed(known_spec(known@)))),
        text::texts(r.seen@) == paths_of(files@),
        r.candidates@.len() + r.skipped_unchanged == files@.len(),
{
    let map = known_map(known);
    let ghost keep = changed(map@);
    let mut candidates: Vec<String> = Vec::new();
    let mut seen: Vec<String> = Vec::new();
    let mut skipped_unchanged: usize = 0;
    proof {
        seqs::lemma_filter_none(files@, keep);
        assert(text::texts(candidates@) =~= paths_of(files@.take(0).filter(keep)));
    }
    for i in 0..files.len()
        invariant
            map@ == known_spec(known@),
            keep == changed(map@),
            text::texts(candidates@) == paths_of(files@.take(i as int).filter(keep)),
            seen@.len() == i,
            forall|j: int| 0 <= j < i ==> (#[trigger] seen@[j])@ == files@[j].path@,
            candidates@.len() + skipped_unchanged == i,
    {
        let file = &files[i];
        let ghost before = text::texts(candidates@);
        let ghost kept = files@.take(i as int).filter(keep);
        proof {
            seqs::lemma_filter_step(files@, keep, i as int);
        }
        seen.push(file.path.clone());
        let same = match map.get(file.path.as_str()) {
            Some(fingerprint) => *fingerprint == file.fingerprint,
            None => false,
        };
        if same {
            skipped_unchanged = skipped_unchanged + 1;
        } else {
            candidates.push(file.path.clone());
            assert(text::texts(candidates@) =~= before.push(file.path@));
            assert(paths_of(kept.push(files@[i as int])) =~= paths_of(kept).push(file.path@));
        }
    }
    assert(files@.take(files@.len() as int) =~= files@);
    assert(text::texts(seen@) =~= paths_of(files@));
    ScanPlan { candidates, seen, skipped_unchanged }
}

// ---------------------------------------------------------------- what was read

#[derive(Debug)]
pub enum ScanItem {
    Track(Track),
    Error { path: String, error: String },
}

/// What became of one file: its track by its tags, by its name where the tags cannot be read, or
/// an error.
pub open spec fn item_of(
    item: ScanItem,
    path: Seq<char>,
    facts: Result<FileFacts, String>,
    tags: Result<TagInfo, String>,
) -> bool {
    match facts {
        Err(message) => item matches ScanItem::Error { path: at, error } && at@ == path && error@
            == message@,
        Ok(facts) => match (facts.modified_secs, tags) {
            (Ok(modified), Ok(tags)) => item matches ScanItem::Track(track)
                && metadata::shows_tags(track, path, tags, modified, facts.size_bytes),
            (Ok(modified), Err(_)) => item matches ScanItem::Track(track) && metadata::shows_file(
                track,
                path,
                modified,
                facts.size_bytes,
            ),
            (Err(message), Ok(_)) => item matches ScanItem::Error { path: at, error } && at@ == path
                && error@ == message@,
            (Err(_), Err(message)) => item matches ScanItem::Error { path: at, error } && at@
                == path && error@ == "metadata read failed for "@ + path + ": "@ + message@,
        },
    }
}

pub fn read_scan_item(
    path: &str,
    facts: &Result<FileFacts, String>,
    tags: &Result<TagInfo, String>,
) -> (r: ScanItem)
    ensures
        item_of(r, path@, *facts, *tags),
{
    let facts = match facts {
        Ok(facts) => facts,
        Err(message) => {
            return ScanItem::Error { path: path.to_owned(), error: message.clone() };
        },
    };
    match metadata::read_track(path, tags, facts) {
        Ok(track) => ScanItem::Track(track),
        Err(error) => match metadata::fallback_track(path, facts) {
            Ok(track) => ScanItem::Track(track),
            Err(_) => ScanItem::Error { path: path.to_owned(), error: error.message() },
        },
    }
}

pub open spec fn is_track() -> spec_fn(ScanItem) -> bool {
    |item: ScanItem| item is Track
}

pub open spec fn is_error() -> spec_fn(ScanItem) -> bool {
    |item: ScanItem| item is Error
}

/// The tracks among the items and the errors among them, each in their order.
pub open spec fn is_split(
    items: Seq<ScanItem>,
    tracks: Seq<Track>,
    errors: Seq<(String, String)>,
) -> bool {
    let read = items.filter(is_track());
    let failed = items.filter(is_error());
    &&& tracks.len() == read.len()
    &&& forall|i: int| 0 <= i < read.len() ==> #[trigger] read[i] == ScanItem::Track(tracks[i])
    &&& errors.len() == failed.len()
    &&& forall|i: int|
        0 <= i < failed.len() ==> #[trigger] failed[i] == (ScanItem::Error {
            path: errors[i].0,
            error: errors[i].1,
        })
}

/// Parts what was read from what failed.
pub fn split_scan_items(items: Vec<ScanItem>) -> (r: (Vec<Track>, Vec<(String, String)>))
    ensures
        is_split(items@, r.0@, r.1@),
        ({
            let tracks = items@.filter(is_track());
            let errors = items@.filter(is_error());
            &&& r.0@.len() == tracks.len()
            &&& forall|i: int|
                0 <= i < tracks.len() ==> #[trigger] tracks[i] == ScanItem::Track(r.0@[i])
            &&& r.1@.len() == errors.len()
            &&& forall|i: int|
                0 <= i < errors.len() ==> #[trigger] errors[i] == (ScanItem::Error {
                    path: r.1@[i].0,
                    error: r.1@[i].1,
                })
        }),
        r.0@.len() + r.1@.len() == items@.len(),
{
    let mut tracks: Vec<Track> = Vec::new();
    let mut errors: Vec<(String, String)> = Vec::new();
    let ghost all = items@;
    proof {
        seqs::lemma_filter_none(all, is_track());
        seqs::lemma_filter_none(all, is_error());
    }
    for item in it: items
        invariant
            it.seq() == all,
            tracks@.len() == all.take(it.index() as int).filter(is_track()).len(),
            forall|i: int|
                0 <= i < tracks@.len() ==> #[trigger] all.take(it.index() as int).filter(
                    is_track(),
                )[i] == ScanItem::Track(tracks@[i]),
            errors@.len() == all.take(it.index() as int).filter(is_error()).len(),
            forall|i: int|
                0 <= i < errors@.len() ==> #[trigger] all.take(it.index() as int).filter(
                    is_error(),
                )[i] == (ScanItem::Error { path: errors@[i].0, error: errors@[i].1 }),
            tracks@.len() + errors@.len() == it.index(),
    {
        proof {
            seqs::lemma_filter_step(all, is_track(), it.index() as int);
            seqs::lemma_filter_step(all, is_error(), it.index() as int);
        }
        match item {
            ScanItem::Track(track) => tracks.push(track),
            ScanItem::Error { path, error } => errors.push((path, error)),
        }
    }
    assert(all.take(all.len() as int) =~= all);
    (tracks, errors)
}

pub open spec fn summary_spec(
    plan: ScanPlan,
    indexed_tracks: usize,
    failed_files: usize,
    removed_missing: usize,
    elapsed_ms: u128,
) -> ScanSummary {
    ScanSummary {
        scanned_files: (plan.candidates@.len() + plan.skipped_unchanged) as usize,
        indexed_tracks,
        skipped_unchanged: plan.skipped_unchanged,
        failed_files,
        removed_missing,
        elapsed_ms,
    }
}

/// The summary of a scan.
pub fn scan_summary(
    plan: &ScanPlan,
    indexed_tracks: usize,
    failed_files: usize,
    removed_missing: usize,
    elapsed_ms: u128,
) -> (r: ScanSummary)
    requires
        plan.candidates@.len() + plan.skipped_unchanged <= usize::MAX,
    ensures
        r == summary_spec(*plan, indexed_tracks, failed_files, removed_missing, elapsed_ms),
        r.scanned_files == plan.candidates@.len() + plan.skipped_unchanged,
        r.indexed_tracks == indexed_tracks,
        r.skipped_unchanged == plan.skipped_unchanged,
        r.failed_files == failed_files,
        r.removed_missing == removed_missing,
        r.elapsed_ms == elapsed_ms,
{
    ScanSummary {
        scanned_files: plan.candidates.len() + plan.skipped_unchanged,
        indexed_tracks,
        skipped_unchanged: plan.skipped_unchanged,
        failed_files,
        removed_missing,
        elapsed_ms,
    }
}

// ---------------------------------------------------------------- a whole scan

pub open spec fn fingerprint_of(track: Track) -> FileFingerprint {
    FileFingerprint { modified_unix: track.modified_unix, size_bytes: track.size_bytes }
}

/// What the library knows once tracks are stored under their paths, in place of older ones.
pub open spec fn stored_after(known: Map<Seq<char>, FileFingerprint>, tracks: Seq<Track>) -> Map<
    Seq<char>,
    FileFingerprint,
>
    decreases tracks.len(),
{
    if tracks.len() == 0 {
        known
    } else {
        stored_after(known, tracks.drop_last()).insert(
            tracks.last().path@,
            fingerprint_of(tracks.last()),
        )
    }
}

/// One scan: what the library knew, what was found under the root, what was read of it, and what
/// became of it.
pub ghost struct Scan {
    pub known: Seq<(String, FileFingerprint)>,
    pub root: Seq<char>,
    pub files: Seq<FileEntry>,
    pub plan: ScanPlan,
    /// What the file system and the tags say of each candidate.
    pub facts: Seq<Result<FileFacts, String>>,
    pub tags: Seq<Result<TagInfo, String>>,
    pub items: Seq<ScanItem>,
    pub tracks: Seq<Track>,
    pub errors: Seq<(String, String)>,
    /// Every path in the library once the tracks are stored.
    pub stored_paths: Seq<Seq<char>>,
    pub removed: Seq<Seq<char>>,
    pub summary: ScanSummary,
}

impl Scan {
    pub open spec fn seen(self) -> Set<Seq<char>> {
        db::as_set(text::texts(self.plan.seen@))
    }

    /// What the library knows once the tracks are stored.
    pub open spec fn stored(self) -> Map<Seq<char>, FileFingerprint> {
        stored_after(known_spec(self.known), self.tracks)
    }

    /// What the library knows once the missing paths are removed, too.
    pub open spec fn after(self) -> Map<Seq<char>, FileFingerprint> {
        self.stored().remove_keys(self.removed.to_set())
    }

    /// The steps of the scan, each as its function gives it.
    pub open spec fn ran(self) -> bool {
        &&& is_plan(self.plan, self.known, self.files)
        &&& self.facts.len() == self.plan.candidates@.len()
        &&& self.tags.len() == self.plan.candidates@.len()
        &&& self.items.len() == self.plan.candidates@.len()
        &&& forall|k: int|
            0 <= k < self.items.len() ==> item_of(
                #[trigger] self.items[k],
                self.plan.candidates@[k]@,
                self.facts[k],
                self.tags[k],
            )
        &&& is_split(self.items, self.tracks, self.errors)
        &&& self.stored_paths.to_set() == self.stored().dom()
        &&& self.removed == self.stored_paths.filter(db::gone(self.root, self.seen()))
        &&& self.files.len() <= usize::MAX
        &&& self.removed.len() <= usize::MAX
        &&& self.summary == summary_spec(
            self.plan,
            self.tracks.len() as usize,
            self.errors.len() as usize,
            self.removed.len() as usize,
            self.summary.elapsed_ms,
        )
    }

    /// No file changed between being found and being read.
    pub open spec fn files_kept_still(self) -> bool {
        forall|i: int, k: int|
            #![trigger self.files[i], self.facts[k]]
            0 <= i < self.files.len() && 0 <= k < self.facts.len()
                && self.plan.candidates@[k]@ == self.files[i].path@ ==> (self.facts[k] matches Ok(
                facts,
            ) ==> (facts.modified_secs matches Ok(modified) ==> self.files[i].fingerprint
                == fingerprint_spec(Some(modified), facts.size_bytes)))
    }
}

// ---------------------------------------------------------------- laws

/// A file whose time and size are what the library knows is not read again.
pub proof fn unchanged_files_are_skipped(
    known: Map<Seq<char>, FileFingerprint>,
    files: Seq<FileEntry>,
    i: int,
)
    requires
        0 <= i < files.len(),
        known.dom().contains(files[i].path@),
        known[files[i].path@] == files[i].fingerprint,
    ensures
        !files.filter(changed(known)).contains(files[i]),
{
    seqs::lemma_filter_members(files, changed(known));
    let kept = files.filter(changed(known));
    if kept.contains(files[i]) {
        let k = choose|k: int| 0 <= k < kept.len() && kept[k] == files[i];
        assert(changed(known)(kept[k]));
    }
}

/// A second scan over unchanged files reads nothing again and removes nothing: where the library
/// knows every file as it is, and every stored path under the root was seen, no file is left to
/// read and no path to remove.
pub proof fn second_scan_changes_nothing(
    known: Seq<(String, FileFingerprint)>,
    files: Seq<FileEntry>,
    stored: Seq<Seq<char>>,
    root: Seq<char>,
)
    requires
        forall|i: int|
            0 <= i < files.len() ==> known_spec(known).dom().contains((#[trigger] files[i]).path@)
                && known_spec(known)[files[i].path@] == files[i].fingerprint,
        forall|i: int|
            0 <= i < stored.len() && db::under(root, #[trigger] stored[i]) ==> paths_of(
                files,
            ).contains(stored[i]),
    ensures
        files.filter(changed(known_spec(known))).len() == 0,
        stored.filter(db::gone(root, db::as_set(paths_of(files)))).len() == 0,
{
    let unread = files.filter(changed(known_spec(known)));
    seqs::lemma_filter_members(files, changed(known_spec(known)));
    if unread.len() > 0 {
        assert(changed(known_spec(known))(unread[0]) && files.contains(unread[0]));
    }
    let removal = db::gone(root, db::as_set(paths_of(files)));
    let removed = stored.filter(removal);
    seqs::lemma_filter_members(stored, removal);
    if removed.len() > 0 {
        assert(removal(removed[0]) && stored.contains(removed[0]));
        let k = choose|k: int| 0 <= k < stored.len() && stored[k] == removed[0];
        assert(db::under(root, stored[k]));
    }
}

/// A file that could be read becomes a track with its path and its fingerprint.
pub proof fn read_tracks_keep_the_fingerprint(
    item: ScanItem,
    path: Seq<char>,
    facts: FileFacts,
    tags: Result<TagInfo, String>,
)
    requires
        item_of(item, path, Ok(facts), tags),
        facts.modified_secs is Ok,
    ensures
        item matches ScanItem::Track(track) && track.path@ == path && fingerprint_of(track)
            == fingerprint_spec(Some(facts.modified_secs->Ok_0), facts.size_bytes),
{
}

proof fn lemma_stored(known: Map<Seq<char>, FileFingerprint>, tracks: Seq<Track>, path: Seq<char>)
    ensures
        (forall|k: int| 0 <= k < tracks.len() ==> (#[trigger] tracks[k]).path@ != path) ==> {
            &&& stored_after(known, tracks).dom().contains(path) == known.dom().contains(path)
            &&& known.dom().contains(path) ==> stored_after(known, tracks)[path] == known[path]
        },
        (exists|k: int| 0 <= k < tracks.len() && (#[trigger] tracks[k]).path@ == path) ==> {
            &&& stored_after(known, tracks).dom().contains(path)
            &&& exists|k: int|
                0 <= k < tracks.len() && (#[trigger] tracks[k]).path@ == path
                    && stored_after(known, tracks)[path] == fingerprint_of(tracks[k])
        },
    decreases tracks.len(),
{
    if tracks.len() > 0 {
        let fewer = tracks.drop_last();
        lemma_stored(known, fewer, path);
        assert(forall|k: int| 0 <= k < fewer.len() ==> #[trigger] fewer[k] == tracks[k]);
        if tracks.last().path@ == path {
            assert(tracks[tracks.len() - 1].path@ == path);
        } else if exists|k: int| 0 <= k < tracks.len() && (#[trigger] tracks[k]).path@ == path {
            let k = choose|k: int| 0 <= k < tracks.len() && (#[trigger] tracks[k]).path@ == path;
            assert(fewer[k].path@ == path);
            let m = choose|m: int|
                0 <= m < fewer.len() && (#[trigger] fewer[m]).path@ == path && stored_after(
                    known,
                    fewer,
                )[path] == fingerprint_of(fewer[m]);
            assert(tracks[m].path@ == path);
        } else {
            assert forall|k: int| 0 <= k < fewer.len() implies (#[trigger] fewer[k]).path@
                != path by {
                assert(tracks[k].path@ != path);
            }
        }
    }
}

proof fn lemma_without_errors(items: Seq<ScanItem>)
    requires
        items.filter(is_error()).len() == 0,
    ensures
        items.filter(is_track()) == items,
    decreases items.len(),
{
    reveal(Seq::filter);
    if items.len() > 0 {
        lemma_without_errors(items.drop_last());
        assert(items.last() is Track);
        assert(items =~= items.drop_last().push(items.last()));
    }
}

/// A scan without failures leaves a library that knows every file as it is.
pub proof fn scan_leaves_every_file_known(scan: Scan, i: int)
    requires
        scan.ran(),
        scan.files_kept_still(),
        scan.summary.failed_files == 0,
        0 <= i < scan.files.len(),
    ensures
        scan.after().dom().contains(scan.files[i].path@),
        scan.after()[scan.files[i].path@] == scan.files[i].fingerprint,
{
    let known = known_spec(scan.known);
    let path = scan.files[i].path@;
    let unread = scan.files.filter(changed(known));
    let candidates = scan.plan.candidates@;
    lemma_without_errors(scan.items);
    assert(text::texts(candidates).len() == paths_of(unread).len());
    assert forall|k: int| 0 <= k < scan.tracks.len() implies (#[trigger] scan.tracks[k]).path@
        == candidates[k]@ && (scan.tracks[k].path@ == path ==> fingerprint_of(scan.tracks[k])
        == scan.files[i].fingerprint) by {
        assert(scan.items[k] == ScanItem::Track(scan.tracks[k]));
        assert(item_of(scan.items[k], candidates[k]@, scan.facts[k], scan.tags[k]));
        read_tracks_keep_the_fingerprint(
            scan.items[k],
            candidates[k]@,
            scan.facts[k]->Ok_0,
            scan.tags[k],
        );
    }
    if changed(known)(scan.files[i]) {
        seqs::lemma_filter_keeps(scan.files, changed(known), i);
        let k = choose|k: int| 0 <= k < unread.len() && unread[k] == scan.files[i];
        assert(text::texts(candidates)[k] == paths_of(unread)[k]);
        assert(scan.tracks[k].path@ == path);
    }
    lemma_stored(known, scan.tracks, path);
    assert(paths_of(scan.files)[i] == path);
    assert(scan.stored().dom().contains(path));
    assert(!db::gone(scan.root, scan.seen())(path));
}

/// A scan leaves no path under its root that it did not see.
pub proof fn scan_leaves_only_what_it_saw(scan: Scan, path: Seq<char>)
    requires
        scan.ran(),
        scan.after().dom().contains(path),
        db::under(scan.root, path),
    ensures
        paths_of(scan.files).contains(path),
{
    let missing = db::gone(scan.root, scan.seen());
    assert(scan.stored_paths.to_set().contains(path));
    let k = choose|k: int| 0 <= k < scan.stored_paths.len() && scan.stored_paths[k] == path;
    if missing(path) {
        seqs::lemma_filter_keeps(scan.stored_paths, missing, k);
        assert(scan.removed.to_set().contains(path));
    }
}

/// Scanning a second time, where nothing has changed since a scan without failures: every file is
/// seen again and left alone, nothing is indexed, fails or is removed, and the library stays as it
/// is.
pub proof fn scanning_twice_changes_nothing(first: Scan, second: Scan)
    requires
        first.ran(),
        first.files_kept_still(),
        first.summary.failed_files == 0,
        second.ran(),
        second.files == first.files,
        second.root == first.root,
        known_spec(second.known) == first.after(),
    ensures
        second.summary.indexed_tracks == 0,
        second.summary.skipped_unchanged == second.summary.scanned_files,
        second.summary.scanned_files == first.summary.scanned_files,
        second.summary.failed_files == 0,
        second.summary.removed_missing == 0,
        second.tracks.len() == 0,
        second.removed.len() == 0,
        second.after() == first.after(),
{
    assert forall|i: int| 0 <= i < second.files.len() implies known_spec(
        second.known,
    ).dom().contains((#[trigger] second.files[i]).path@) && known_spec(
        second.known,
    )[second.files[i].path@] == second.files[i].fingerprint by {
        scan_leaves_every_file_known(first, i);
    }
    let unread = second.files.filter(changed(known_spec(second.known)));
    second_scan_changes_nothing(second.known, second.files, Seq::empty(), second.root);
    assert(text::texts(second.plan.candidates@).len() == paths_of(unread).len());
    scan_counts_add_up(second.items);
    assert(second.stored() == first.after());
    let stored = second.stored_paths;
    assert forall|i: int|
        0 <= i < stored.len() && db::under(second.root, #[trigger] stored[i]) implies paths_of(
        second.files,
    ).contains(stored[i]) by {
        assert(stored.to_set().contains(stored[i]));
        scan_leaves_only_what_it_saw(first, stored[i]);
    }
    second_scan_changes_nothing(second.known, second.files, stored, second.root);
    assert(second.after() =~= first.after());
}

/// Every item is either a track or an error: what was read and what failed add up.
pub proof fn scan_counts_add_up(items: Seq<ScanItem>)
    ensures
        items.filter(is_track()).len() + items.filter(is_error()).len() == items.len(),
    decreases items.len(),
{
    reveal(Seq::filter);
    if items.len() > 0 {
        scan_counts_add_up(items.drop_last());
    }
}

/// A file that the library does not know, or knows with another time or size, is read.
pub proof fn changed_files_are_read(
    known: Map<Seq<char>, FileFingerprint>,
    files: Seq<FileEntry>,
    i: int,
)
    requires
        0 <= i < files.len(),
        !known.dom().contains(files[i].path@) || known[files[i].path@].modified_unix
            != files[i].fingerprint.modified_unix || known[files[i].path@].size_bytes
            != files[i].fingerprint.size_bytes,
    ensures
        files.filter(changed(known)).contains(files[i]),
        paths_of(files.filter(changed(known))).contains(files[i].path@),
{
    seqs::lemma_filter_keeps(files, changed(known), i);
    let read = files.filter(changed(known));
    let k = choose|k: int| 0 <= k < read.len() && read[k] == files[i];
    assert(paths_of(read)[k] == files[i].path@);
}

/// The library knows of a path what was stored of it last.
pub proof fn what_is_stored_is_known(
    known: Seq<(String, FileFingerprint)>,
    path: String,
    fingerprint: FileFingerprint,
    other: Seq<char>,
)
    ensures
        known_spec(known.push((path, fingerprint)))[path@] == fingerprint,
        known_spec(known.push((path, fingerprint))).dom().contains(path@),
        other != path@ ==> known_spec(known.push((path, fingerprint))).dom().contains(other)
            == known_spec(known).dom().contains(other),
        other != path@ && known_spec(known).dom().contains(other) ==> known_spec(
            known.push((path, fingerprint)),
        )[other] == known_spec(known)[other],
{
    assert(known.push((path, fingerprint)).drop_last() =~= known);
}

/// What cannot be read is an error under its own path; what has no tags is a track under its name.
pub proof fn items_say_what_became_of_the_file(
    item: ScanItem,
    path: Seq<char>,
    facts: Result<FileFacts, String>,
    tags: Result<TagInfo, String>,
)
    requires
        item_of(item, path, facts, tags),
    ensures
        item is Track <==> facts is Ok && facts->Ok_0.modified_secs is Ok,
        item matches ScanItem::Error { path: at, error } ==> at@ == path,
        facts matches Err(message) ==> (item matches ScanItem::Error { path: at, error } && error@
            == message@),
        item matches ScanItem::Track(track) ==> track.path@ == path && track.id is None,
        item matches ScanItem::Track(track) ==> (tags matches Ok(tags) ==> metadata::taken_over(
            tags.artist,
            track.artist,
        ) && metadata::taken_over(tags.album, track.album) && metadata::taken_over(
            tags.album_artist,
            track.album_artist,
        )),
        item matches ScanItem::Track(track) ==> (tags is Err ==> track.artist is None
            && track.album is None && metadata::titled_by_path(track.title@, path)),
{
}

} // verus!
