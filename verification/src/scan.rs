//! The decisions of a folder scan: which walked files are kept, when the
//! listing stops, which folders are walked, the running file total, and the
//! progress events the front end receives.
use vstd::prelude::*;
use crate::paths::{is_indexable, is_indexable_path};
use crate::text::str_equal;

verus! {

/// The most files one listing hands to the front end.
pub const MAX_LISTED_FILES: usize = 10000;

/// Gathers `(file path, folder uuid)` pairs while the caller walks the
/// registered folders, keeping only indexable files and stopping at
/// `MAX_LISTED_FILES`.
pub struct FileCollector {
    ignore_prefixes: Vec<String>,
    files: Vec<(String, String)>,
}

impl FileCollector {
    /// The ignore folders the collector filters by.
    pub closed spec fn ignores(&self) -> Seq<String> {
        self.ignore_prefixes@
    }

    /// The files kept so far, in the order they were offered.
    pub closed spec fn kept(&self) -> Seq<(String, String)> {
        self.files@
    }

    #[verifier::type_invariant]
    closed spec fn holds_only_indexable_files_up_to_the_limit(&self) -> bool {
        &&& self.files@.len() <= MAX_LISTED_FILES
        &&& forall|k: int|
            0 <= k < self.files@.len() ==> is_indexable_path(
                (#[trigger] self.files@[k]).0@,
                self.ignore_prefixes@,
            )
    }

    /// A collector that has kept nothing yet.
    pub fn new(ignore_prefixes: Vec<String>) -> (r: FileCollector)
        ensures
            r.ignores() == ignore_prefixes@,
            r.kept().len() == 0,
    {
        FileCollector { ignore_prefixes, files: Vec::new() }
    }

    /// Whether the listing has reached its limit.
    pub fn is_full(&self) -> (r: bool)
        ensures
            r == (self.kept().len() >= MAX_LISTED_FILES),
            self.kept().len() <= MAX_LISTED_FILES,
    {
        proof {
            use_type_invariant(self);
        }
        self.files.len() >= MAX_LISTED_FILES
    }

    /// Offers one regular file found under the folder with `uuid`. It is
    /// kept when it is an image outside every ignore folder. The result says
    /// whether the listing is now full and the walk should stop.
    pub fn offer(&mut self, path: &str, uuid: &str) -> (full: bool)
        requires
            old(self).kept().len() < MAX_LISTED_FILES,
        ensures
            final(self).ignores() == old(self).ignores(),
            is_indexable_path(path@, old(self).ignores()) ==> final(self).kept().len()
                == old(self).kept().len() + 1 && final(self).kept().drop_last() == old(
                self,
            ).kept() && final(self).kept().last().0@ == path@ && final(self).kept().last().1@
                == uuid@,
            !is_indexable_path(path@, old(self).ignores()) ==> final(self).kept() == old(
                self,
            ).kept(),
            full == (final(self).kept().len() >= MAX_LISTED_FILES),
    {
        proof {
            use_type_invariant(&*self);
        }
        if is_indexable(path, &self.ignore_prefixes) {
            let mut files: Vec<(String, String)> = Vec::new();
            std::mem::swap(&mut files, &mut self.files);
            files.push((String::from_str(path), String::from_str(uuid)));
            assert(files@.drop_last() =~= old(self).files@);
            self.files = files;
        }
        self.files.len() >= MAX_LISTED_FILES
    }

    /// The files kept, in the order they were offered: at most
    /// `MAX_LISTED_FILES`, each an image outside every ignore folder.
    pub fn into_files(self) -> (r: Vec<(String, String)>)
        ensures
            r@ == self.kept(),
            r@.len() <= MAX_LISTED_FILES,
            forall|k: int| 0 <= k < r@.len() ==> is_indexable_path((#[trigger] r@[k]).0@, self.ignores()),
    {
        proof {
            use_type_invariant(&self);
        }
        self.files
    }
}

/// Whether some row has folder path `path`.
pub open spec fn has_path(rows: Seq<(String, String)>, path: Seq<char>) -> bool {
    exists|j: int| 0 <= j < rows.len() && (#[trigger] rows[j]).0@ == path
}

/// The rows whose folder path did not occur earlier, in their order.
pub open spec fn first_occurrences(rows: Seq<(String, String)>) -> Seq<(String, String)>
    decreases rows.len(),
{
    if rows.len() == 0 {
        Seq::empty()
    } else {
        let kept = first_occurrences(rows.drop_last());
        if has_path(kept, rows.last().0@) {
            kept
        } else {
            kept.push(rows.last())
        }
    }
}

proof fn lemma_first_occurrences_distinct(rows: Seq<(String, String)>)
    ensures
        forall|a: int, b: int|
            0 <= a < b < first_occurrences(rows).len() ==> (#[trigger] first_occurrences(rows)[a]).0@
                != (#[trigger] first_occurrences(rows)[b]).0@,
    decreases rows.len(),
{
    if rows.len() > 0 {
        lemma_first_occurrences_distinct(rows.drop_last());
        let f = first_occurrences(rows.drop_last());
        let r = first_occurrences(rows);
        if !has_path(f, rows.last().0@) {
            assert forall|a: int, b: int| 0 <= a < b < r.len() implies (#[trigger] r[a]).0@ != (
            #[trigger] r[b]).0@ by {
                assert(r[a] == f[a]);
                if b < f.len() {
                    assert(r[b] == f[b]);
                } else {
                    assert(r[b] == rows.last());
                }
            }
        }
    }
}

proof fn lemma_first_occurrences_cover(rows: Seq<(String, String)>)
    ensures
        forall|i: int| 0 <= i < rows.len() ==> has_path(first_occurrences(rows), (#[trigger] rows[i]).0@),
        forall|a: int|
            0 <= a < first_occurrences(rows).len() ==> exists|i: int|
                0 <= i < rows.len() && rows[i] == #[trigger] first_occurrences(rows)[a],
    decreases rows.len(),
{
    if rows.len() > 0 {
        let front = rows.drop_last();
        lemma_first_occurrences_cover(front);
        let f = first_occurrences(front);
        let r = first_occurrences(rows);
        assert forall|i: int| 0 <= i < rows.len() implies has_path(r, (#[trigger] rows[i]).0@) by {
            if i < front.len() {
                assert(front[i] == rows[i]);
                assert(has_path(f, front[i].0@));
                let j = choose|j: int| 0 <= j < f.len() && (#[trigger] f[j]).0@ == front[i].0@;
                assert(r[j] == f[j]);
            } else if !has_path(f, rows.last().0@) {
                assert(r[f.len() as int] == rows.last());
            }
        }
        assert forall|a: int| 0 <= a < r.len() implies exists|i: int|
            0 <= i < rows.len() && rows[i] == #[trigger] r[a] by {
            if a < f.len() {
                assert(r[a] == f[a]);
                let i = choose|i: int| 0 <= i < front.len() && front[i] == #[trigger] f[a];
                assert(rows[i] == front[i]);
            } else {
                assert(rows[rows.len() - 1] == r[a]);
            }
        }
    }
}

fn path_seen(kept: &Vec<(String, String)>, path: &str) -> (r: bool)
    ensures
        r == has_path(kept@, path@),
{
    let n = kept.len();
    let mut i: usize = 0;
    while i < n
        invariant
            n == kept@.len(),
            i <= n,
            forall|j: int| 0 <= j < i ==> (#[trigger] kept@[j]).0@ != path@,
        decreases n - i,
    {
        if str_equal(kept[i].0.as_str(), path) {
            return true;
        }
        i = i + 1;
    }
    false
}

/// Keeps the first `(folder, uuid)` row for each folder path, in order, so
/// that no folder is walked twice.
pub fn distinct_folders(rows: &Vec<(String, String)>) -> (r: Vec<(String, String)>)
    ensures
        r@ == first_occurrences(rows@),
        forall|a: int, b: int| 0 <= a < b < r@.len() ==> (#[trigger] r@[a]).0@ != (#[trigger] r@[b]).0@,
        forall|i: int| 0 <= i < rows@.len() ==> has_path(r@, (#[trigger] rows@[i]).0@),
        forall|a: int| 0 <= a < r@.len() ==> exists|i: int| 0 <= i < rows@.len() && rows@[i] == #[trigger] r@[a],
{
    let n = rows.len();
    let mut kept: Vec<(String, String)> = Vec::new();
    let mut i: usize = 0;
    while i < n
        invariant
            n == rows@.len(),
            i <= n,
            kept@ == first_occurrences(rows@.take(i as int)),
        decreases n - i,
    {
        assert(rows@.take(i + 1).drop_last() =~= rows@.take(i as int));
        assert(rows@.take(i + 1).last() == rows@[i as int]);
        let seen = path_seen(&kept, rows[i].0.as_str());
        if !seen {
            kept.push((rows[i].0.clone(), rows[i].1.clone()));
        }
        i = i + 1;
    }
    assert(rows@.take(n as int) =~= rows@);
    proof {
        lemma_first_occurrences_distinct(rows@);
        lemma_first_occurrences_cover(rows@);
    }
    kept
}

/// `total` plus the number of files found in one folder, the count taken as
/// a 32-bit number and the sum saturating at `u32::MAX`.
pub open spec fn total_after(total: u32, found: usize) -> u32 {
    let sum = total as int + (found as int % 0x1_0000_0000);
    if sum > u32::MAX {
        u32::MAX
    } else {
        sum as u32
    }
}

/// Adds one folder's file count to the scan total (see `total_after`).
pub fn add_to_total(total: u32, found: usize) -> (r: u32)
    ensures
        r == total_after(total, found),
{
    let count = found as u32;
    assert(count as int == found as int % 0x1_0000_0000) by (bit_vector)
        requires
            count == found as u32,
    ;
    total.saturating_add(count)
}

/// A scan total never goes down as folders are added.
pub proof fn totals_never_decrease(total: u32, found: usize)
    ensures
        total_after(total, found) >= total,
        found <= u32::MAX ==> total_after(total, found) == if total + found > u32::MAX {
            u32::MAX as int
        } else {
            total + found
        },
{
}

/// One progress event of a scan, as the front end receives it.
pub struct ScanProgress {
    pub event_id: String,
    pub processed: u32,
    pub total: u32,
    pub progress: u32,
    pub message: String,
}

/// The event sent when a scan starts, before any file is processed.
pub fn scan_started(event_id: &str, total: u32) -> (r: ScanProgress)
    ensures
        r.event_id@ == event_id@,
        r.processed == 0,
        r.total == total,
        r.progress == 0,
        r.message@ == "スキャン開始..."@,
{
    ScanProgress {
        event_id: String::from_str(event_id),
        processed: 0,
        total,
        progress: 0,
        message: String::from_str("スキャン開始..."),
    }
}

/// The error a scan reports when it is given no folder.
pub open spec fn no_folders_message() -> Seq<char> {
    "フォルダがありません。"@
}

/// A scan needs at least one folder.
pub fn check_folder_list(folder_list: &Vec<String>) -> (r: Result<(), String>)
    ensures
        folder_list@.len() == 0 <==> r is Err,
        r matches Err(e) ==> e@ == no_folders_message(),
{
    if folder_list.len() == 0 {
        Err(String::from_str("フォルダがありません。"))
    } else {
        Ok(())
    }
}

/// The closing event of a scan and the scan's own result, given how the
/// indexing pass ended: its count of indexed files, or its error.
pub fn scan_finished(event_id: &str, total: u32, outcome: Result<u32, String>) -> (r: (
    ScanProgress,
    Result<(), String>,
))
    ensures
        r.0.event_id@ == event_id@,
        r.0.total == total,
        match outcome {
            Ok(count) => {
                &&& r.0.processed == count
                &&& r.0.progress == count
                &&& r.0.message@ == "スキャン完了"@
                &&& r.1 is Ok
            },
            Err(e) => {
                &&& r.0.processed == 0
                &&& r.0.progress == 0
                &&& r.0.message@ == "スキャン失敗: "@ + e@
                &&& r.1 matches Err(e2) && e2@ == e@
            },
        },
{
    match outcome {
        Ok(count) => (
            ScanProgress {
                event_id: String::from_str(event_id),
                processed: count,
                total,
                progress: count,
                message: String::from_str("スキャン完了"),
            },
            Ok(()),
        ),
        Err(e) => {
            let mut message = String::from_str("スキャン失敗: ");
            message.append(e.as_str());
            (
                ScanProgress {
                    event_id: String::from_str(event_id),
                    processed: 0,
                    total,
                    progress: 0,
                    message,
                },
                Err(e),
            )
        },
    }
}

} // verus!
