//! The index cache: rows already stored for image files, and whether a file
//! on disk still matches its row so that re-indexing can be skipped.
use vstd::prelude::*;

verus! {

/// What the index holds about one image file.
pub struct CachedImage {
    /// The file size recorded when the file was indexed.
    pub file_size: i32,
    /// The length of the stored thumbnail.
    pub thumbnail_len: i32,
    /// When the row was written, as RFC 3339 text.
    pub updated_at: String,
}

/// The row recorded for `key`: the one written last wins.
pub open spec fn lookup(entries: Seq<(String, CachedImage)>, key: Seq<char>) -> Option<CachedImage>
    decreases entries.len(),
{
    if entries.len() == 0 {
        None
    } else if entries.last().0@ == key {
        Some(entries.last().1)
    } else {
        lookup(entries.drop_last(), key)
    }
}

/// Rows fetched from the index for one batch of files, keyed by file path.
pub struct CacheIndex {
    entries: Vec<(String, CachedImage)>,
}

impl CacheIndex {
    /// The row held for `key`, if any.
    pub closed spec fn entry(&self, key: Seq<char>) -> Option<CachedImage> {
        lookup(self.entries@, key)
    }

    /// An index holding no row.
    pub fn new() -> (r: CacheIndex)
        ensures
            forall|k: Seq<char>| #[trigger] r.entry(k) is None,
    {
        CacheIndex { entries: Vec::new() }
    }

    /// Records the row for `path`, replacing any earlier one.
    pub fn insert(&mut self, path: String, row: CachedImage)
        ensures
            final(self).entry(path@) == Some(row),
            forall|k: Seq<char>| k != path@ ==> #[trigger] final(self).entry(k) == old(self).entry(k),
    {
        self.entries.push((path, row));
        assert(self.entries@.drop_last() =~= old(self).entries@);
    }

    /// The row held for `path`, if any.
    pub fn get(&self, path: &str) -> (r: Option<&CachedImage>)
        ensures
            match self.entry(path@) {
                Some(c) => r matches Some(x) && *x == c,
                None => r is None,
            },
    {
        let mut i: usize = self.entries.len();
        assert(self.entries@.take(i as int) =~= self.entries@);
        while i > 0
            invariant
                i <= self.entries@.len(),
                lookup(self.entries@, path@) == lookup(self.entries@.take(i as int), path@),
            decreases i,
        {
            let ghost front = self.entries@.take(i as int);
            assert(front.drop_last() =~= self.entries@.take(i - 1));
            assert(front.last() == self.entries@[i - 1]);
            if crate::text::str_equal(self.entries[i - 1].0.as_str(), path) {
                return Some(&self.entries[i - 1].1);
            }
            i = i - 1;
        }
        None
    }
}

/// A read gives back what the last write for the same path wrote, and a
/// write leaves every other path as it was.
pub proof fn lookup_after_insert(
    entries: Seq<(String, CachedImage)>,
    path: String,
    row: CachedImage,
    other: Seq<char>,
)
    ensures
        lookup(entries.push((path, row)), path@) == Some(row),
        other != path@ ==> lookup(entries.push((path, row)), other) == lookup(entries, other),
{
    assert(entries.push((path, row)).drop_last() =~= entries);
}

/// When a file on disk was last modified, as far as the file system tells.
pub enum ModifiedTime {
    /// The file system reports no modification time.
    Unavailable,
    /// The modification time lies before the Unix epoch.
    BeforeEpoch,
    /// Time since the Unix epoch: whole seconds and the nanoseconds beyond.
    Since { secs: u64, nanos: u32 },
}

/// Whether a modification time is not later than the instant `db_secs`
/// whole seconds after the Unix epoch (an unknown time never is).
pub open spec fn modified_not_after(modified: ModifiedTime, db_secs: u64) -> bool {
    match modified {
        ModifiedTime::Unavailable => false,
        ModifiedTime::BeforeEpoch => true,
        ModifiedTime::Since { secs, nanos } => secs < db_secs || (secs == db_secs && nanos == 0),
    }
}

fn modified_not_after_exec(modified: &ModifiedTime, db_secs: u64) -> (r: bool)
    ensures
        r == modified_not_after(*modified, db_secs),
{
    match modified {
        ModifiedTime::Unavailable => false,
        ModifiedTime::BeforeEpoch => true,
        ModifiedTime::Since { secs, nanos } => *secs < db_secs || (*secs == db_secs && *nanos == 0),
    }
}

/// The Unix timestamp that chrono reads from a text as `DateTime<Utc>`
/// (relaxed RFC 3339), if it reads one.
pub uninterp spec fn utc_timestamp_of(text: Seq<char>) -> Option<i64>;

/// `str::parse::<chrono::DateTime<chrono::Utc>>` followed by `timestamp()`,
/// named `utc_timestamp_of`; nothing else is claimed of it.
#[verifier::external_body]
fn parse_utc_timestamp(text: &str) -> (r: Option<i64>)
    ensures
        r == utc_timestamp_of(text@),
{
    text.parse::<chrono::DateTime<chrono::Utc>>().ok().map(|d| d.timestamp())
}

/// Whether `SystemTime::UNIX_EPOCH.checked_add(Duration::from_secs(secs))`
/// succeeds. The bounds of `SystemTime` differ between platforms, so
/// nothing is claimed of the result.
#[verifier::external_body]
fn epoch_offset_representable(secs: u64) -> bool {
    std::time::SystemTime::UNIX_EPOCH.checked_add(std::time::Duration::from_secs(secs)).is_some()
}

/// The row a reference points at, if any.
pub open spec fn deref_entry(o: Option<&CachedImage>) -> Option<CachedImage> {
    match o {
        Some(c) => Some(*c),
        None => None,
    }
}

/// The file still has the size its row records, and the row has a thumbnail.
pub open spec fn row_matches(file_len: u64, c: CachedImage) -> bool {
    (file_len as i32) == c.file_size && c.thumbnail_len > 0
}

/// The batch indexer's rule for skipping an unchanged file, given what the
/// row's timestamp reads as (`stamp`) and whether the epoch plus that many
/// seconds can be represented: the row must match the file, the stamp must
/// read, and the file must not have been modified after the stored time
/// (the epoch itself when that time cannot be represented).
pub open spec fn batch_skip_given(
    file_len: u64,
    cached: Option<CachedImage>,
    stamp: Option<i64>,
    representable: bool,
    modified: ModifiedTime,
) -> bool {
    match cached {
        None => false,
        Some(c) => row_matches(file_len, c) && match stamp {
            None => false,
            Some(ts) => modified_not_after(
                modified,
                if representable {
                    ts as u64
                } else {
                    0
                },
            ),
        },
    }
}

/// The batch indexer's skip rule (see `batch_skip_given`) with the stamp
/// already read and its representability known.
pub fn batch_skip_decision(
    file_len: u64,
    cached: Option<&CachedImage>,
    stamp: Option<i64>,
    representable: bool,
    modified: &ModifiedTime,
) -> (r: bool)
    ensures
        r == batch_skip_given(file_len, deref_entry(cached), stamp, representable, *modified),
{
    match cached {
        None => false,
        Some(c) => {
            if !((file_len as i32) == c.file_size && c.thumbnail_len > 0) {
                return false;
            }
            match stamp {
                None => false,
                Some(ts) => {
                    let db_secs: u64 = if representable {
                        ts as u64
                    } else {
                        0
                    };
                    modified_not_after_exec(modified, db_secs)
                },
            }
        },
    }
}

/// Whether the batch indexer may skip a file because its row is current.
/// The row's timestamp is read with chrono. A stored time at or after the
/// epoch is compared exactly: where the platform cannot represent it, it
/// lies beyond every time the platform represents, the file's modification
/// time included. Only for a stored time before the epoch does the
/// platform's answer matter.
pub fn is_unchanged(file_len: u64, cached: Option<&CachedImage>, modified: &ModifiedTime) -> (r:
    bool)
    ensures
        ({
            let stamp = match cached {
                Some(c) => utc_timestamp_of(c.updated_at@),
                None => None,
            };
            r == batch_skip_given(file_len, deref_entry(cached), stamp, true, *modified) || r
                == batch_skip_given(file_len, deref_entry(cached), stamp, false, *modified)
        }),
        ({
            let stamp = match cached {
                Some(c) => utc_timestamp_of(c.updated_at@),
                None => None,
            };
            !(stamp matches Some(ts) && ts < 0) ==> r == batch_skip_given(
                file_len,
                deref_entry(cached),
                stamp,
                true,
                *modified,
            )
        }),
{
    match cached {
        None => batch_skip_decision(file_len, cached, None, true, modified),
        Some(c) => {
            let stamp = parse_utc_timestamp(c.updated_at.as_str());
            let representable = match stamp {
                Some(ts) => ts >= 0 || epoch_offset_representable(ts as u64),
                None => true,
            };
            batch_skip_decision(file_len, cached, stamp, representable, modified)
        },
    }
}

/// The single-file indexer's rule: like the batch rule, except that a stamp
/// that does not read, a stored time that cannot be represented, or an
/// unknown modification time stops indexing the file (`None`).
pub open spec fn strict_skip_given(
    file_len: u64,
    cached: Option<CachedImage>,
    stamp: Option<i64>,
    representable: bool,
    modified: ModifiedTime,
) -> Option<bool> {
    match cached {
        None => Some(false),
        Some(c) => if !row_matches(file_len, c) {
            Some(false)
        } else {
            match stamp {
                None => None,
                Some(ts) => if !representable || modified is Unavailable {
                    None
                } else {
                    Some(modified_not_after(modified, ts as u64))
                },
            }
        },
    }
}

/// The single-file rule (see `strict_skip_given`) with the stamp already read
/// and its representability known.
pub fn strict_skip_decision(
    file_len: u64,
    cached: Option<&CachedImage>,
    stamp: Option<i64>,
    representable: bool,
    modified: &ModifiedTime,
) -> (r: Option<bool>)
    ensures
        r == strict_skip_given(file_len, deref_entry(cached), stamp, representable, *modified),
{
    match cached {
        None => Some(false),
        Some(c) => {
            if !((file_len as i32) == c.file_size && c.thumbnail_len > 0) {
                return Some(false);
            }
            match stamp {
                None => None,
                Some(ts) => {
                    let unknown = match modified {
                        ModifiedTime::Unavailable => true,
                        _ => false,
                    };
                    if !representable || unknown {
                        None
                    } else {
                        Some(modified_not_after_exec(modified, ts as u64))
                    }
                },
            }
        },
    }
}

/// Whether the single-file indexer may skip a file; `None` where it cannot
/// decide and stops.
pub fn is_unchanged_strict(
    file_len: u64,
    cached: Option<&CachedImage>,
    modified: &ModifiedTime,
) -> (r: Option<bool>)
    ensures
        ({
            let stamp = match cached {
                Some(c) => utc_timestamp_of(c.updated_at@),
                None => None,
            };
            r == strict_skip_given(file_len, deref_entry(cached), stamp, true, *modified) || r
                == strict_skip_given(file_len, deref_entry(cached), stamp, false, *modified)
        }),
{
    match cached {
        None => strict_skip_decision(file_len, cached, None, true, modified),
        Some(c) => {
            let stamp = parse_utc_timestamp(c.updated_at.as_str());
            let representable = match stamp {
                Some(ts) => epoch_offset_representable(ts as u64),
                None => true,
            };
            strict_skip_decision(file_len, cached, stamp, representable, modified)
        },
    }
}

/// A file whose row matches it and that was not modified after the row's
/// stored time is skipped by both indexers where that time can be
/// represented.
pub proof fn unmodified_files_are_skipped(
    file_len: u64,
    c: CachedImage,
    ts: i64,
    modified: ModifiedTime,
)
    requires
        row_matches(file_len, c),
        modified_not_after(modified, ts as u64),
    ensures
        batch_skip_given(file_len, Some(c), Some(ts), true, modified),
        strict_skip_given(file_len, Some(c), Some(ts), true, modified) == Some(true),
{
}

/// A file modified after its row's stored time is never skipped: the batch
/// indexer indexes it again and the single-file indexer does not skip it,
/// whatever the platform can represent.
pub proof fn modified_files_are_reindexed(
    file_len: u64,
    cached: Option<CachedImage>,
    ts: i64,
    representable: bool,
    secs: u64,
    nanos: u32,
)
    requires
        ts >= 0,
        secs > ts || (secs == ts && nanos > 0),
    ensures
        !batch_skip_given(
            file_len,
            cached,
            Some(ts),
            representable,
            ModifiedTime::Since { secs, nanos },
        ),
        strict_skip_given(
            file_len,
            cached,
            Some(ts),
            representable,
            ModifiedTime::Since { secs, nanos },
        ) != Some(true),
{
}

/// A file with no row, or whose row records another size or no thumbnail,
/// is always indexed again.
pub proof fn mismatched_rows_are_reindexed(
    file_len: u64,
    cached: Option<CachedImage>,
    stamp: Option<i64>,
    representable: bool,
    modified: ModifiedTime,
)
    requires
        match cached {
            Some(c) => !row_matches(file_len, c),
            None => true,
        },
    ensures
        !batch_skip_given(file_len, cached, stamp, representable, modified),
        strict_skip_given(file_len, cached, stamp, representable, modified) == Some(false),
{
}

/// Where the single-file indexer decides, the batch indexer decides the same.
pub proof fn indexers_agree_where_both_decide(
    file_len: u64,
    cached: Option<CachedImage>,
    stamp: Option<i64>,
    modified: ModifiedTime,
    skip: bool,
)
    requires
        strict_skip_given(file_len, cached, stamp, true, modified) == Some(skip),
    ensures
        batch_skip_given(file_len, cached, stamp, true, modified) == skip,
{
}

/// What the batch indexer knows about one file of a batch: its path, its
/// size (none when its metadata could not be read) and its modification time.
pub struct FileStat {
    pub path: String,
    pub size: Option<u64>,
    pub modified: ModifiedTime,
}

/// The row's stamp as chrono reads it, if there is a row.
pub open spec fn stamp_of(entry: Option<CachedImage>) -> Option<i64> {
    match entry {
        Some(c) => utc_timestamp_of(c.updated_at@),
        None => None,
    }
}

/// Whether the batch indexer processes a file: its metadata was read and
/// its row does not let it be skipped (`representable` as in
/// `batch_skip_given`).
pub open spec fn needs_indexing(f: FileStat, entry: Option<CachedImage>, representable: bool) -> bool {
    match f.size {
        None => false,
        Some(len) => !batch_skip_given(len, entry, stamp_of(entry), representable, f.modified),
    }
}

/// The paths the batch indexer processes, in order, given one
/// representability outcome per file.
pub open spec fn selected_paths(files: Seq<FileStat>, cache: CacheIndex, reps: Seq<bool>) -> Seq<
    Seq<char>,
>
    decreases files.len(),
{
    if files.len() == 0 {
        Seq::empty()
    } else {
        let prev = selected_paths(files.drop_last(), cache, reps.drop_last());
        let f = files.last();
        if needs_indexing(f, cache.entry(f.path@), reps.last()) {
            prev.push(f.path@)
        } else {
            prev
        }
    }
}

/// How many files the batch indexer takes into one batch (one lookup of
/// stored rows and one transaction).
pub const INDEX_BATCH_SIZE: usize = 250;

/// Representability outcomes that hold for every stored time at or after
/// the epoch (see `is_unchanged`).
pub open spec fn reps_fit(files: Seq<FileStat>, cache: CacheIndex, reps: Seq<bool>) -> bool {
    forall|k: int|
        0 <= k < files.len() && 0 <= k < reps.len() ==> match stamp_of(
            cache.entry(#[trigger] files[k].path@),
        ) {
            Some(ts) => ts >= 0 ==> reps[k],
            None => true,
        }
}

/// The files of one batch that need indexing, in order: those whose
/// metadata was read and whose cached row is missing or out of date. The
/// platform's time bounds matter only for stored times before the epoch;
/// the result is exact for every outcome of that.
pub fn select_files_to_index(files: &Vec<FileStat>, cache: &CacheIndex) -> (r: Vec<String>)
    ensures
        exists|reps: Seq<bool>|
            reps.len() == files@.len() && reps_fit(files@, *cache, reps) && #[trigger] selected_paths(
                files@,
                *cache,
                reps,
            ) == r@.map_values(|p: String| p@),
{
    let n = files.len();
    let mut out: Vec<String> = Vec::new();
    let ghost mut reps: Seq<bool> = Seq::empty();
    let mut i: usize = 0;
    while i < n
        invariant
            n == files@.len(),
            i <= n,
            reps.len() == i,
            reps_fit(files@.take(i as int), *cache, reps),
            selected_paths(files@.take(i as int), *cache, reps) == out@.map_values(|p: String| p@),
        decreases n - i,
    {
        let f = &files[i];
        let ghost before = out@;
        let mut rep = true;
        let mut keep = false;
        match f.size {
            None => {},
            Some(len) => {
                let entry = cache.get(f.path.as_str());
                let stamp = match entry {
                    Some(c) => parse_utc_timestamp(c.updated_at.as_str()),
                    None => None,
                };
                rep = match stamp {
                    Some(ts) => ts >= 0 || epoch_offset_representable(ts as u64),
                    None => true,
                };
                keep = !batch_skip_decision(len, entry, stamp, rep, &f.modified);
            },
        }
        proof {
            assert(files@.take(i + 1).drop_last() =~= files@.take(i as int));
            assert(reps.push(rep).drop_last() =~= reps);
            assert(files@.take(i + 1).last() == files@[i as int]);
            assert(keep == needs_indexing(files@[i as int], cache.entry(files@[i as int].path@), rep));
        }
        if keep {
            out.push(f.path.clone());
            assert(out@.map_values(|p: String| p@) =~= before.map_values(|p: String| p@).push(
                f.path@,
            ));
        }
        proof {
            assert(rep || !(stamp_of(cache.entry(files@[i as int].path@)) matches Some(ts) && ts
                >= 0));
            let ghost taken = files@.take(i + 1);
            assert forall|k: int| 0 <= k < taken.len() && 0 <= k < reps.push(rep).len() implies match stamp_of(
                cache.entry(#[trigger] taken[k].path@),
            ) {
                Some(ts) => ts >= 0 ==> reps.push(rep)[k],
                None => true,
            } by {
                if k < i {
                    assert(taken[k] == files@.take(i as int)[k]);
                }
            }
            reps = reps.push(rep);
        }
        i = i + 1;
    }
    assert(files@.take(n as int) =~= files@);
    out
}

/// A file is skipped only when its length, taken as a 32-bit number, is the
/// size its row records and the row has a thumbnail: otherwise the batch
/// indexer indexes it again and the single-file indexer does not skip it,
/// whatever the stamp, the platform or the modification time.
pub proof fn size_or_thumbnail_mismatch_is_reindexed(
    file_len: u64,
    c: CachedImage,
    stamp: Option<i64>,
    representable: bool,
    modified: ModifiedTime,
)
    requires
        (file_len as i32) != c.file_size || c.thumbnail_len <= 0,
    ensures
        !batch_skip_given(file_len, Some(c), stamp, representable, modified),
        strict_skip_given(file_len, Some(c), stamp, representable, modified) == Some(false),
{
}

/// The file's size was read, its row records that size and a thumbnail,
/// the row's stamp reads as a time at or after the epoch, and the file was
/// last modified at or before that time (whole seconds, no fraction beyond).
pub open spec fn unchanged_since_its_row(f: FileStat, entry: Option<CachedImage>) -> bool {
    &&& f.size matches Some(len)
    &&& entry matches Some(c)
    &&& (len as i32) == c.file_size
    &&& c.thumbnail_len > 0
    &&& utc_timestamp_of(c.updated_at@) matches Some(ts)
    &&& ts >= 0
    &&& match f.modified {
        ModifiedTime::Unavailable => false,
        ModifiedTime::BeforeEpoch => true,
        ModifiedTime::Since { secs, nanos } => secs < ts || (secs == ts && nanos == 0),
    }
}

/// A batch never selects a path all of whose files are unchanged since
/// their row was written, wherever they stand in the batch.
pub proof fn unchanged_files_are_not_selected(
    files: Seq<FileStat>,
    cache: CacheIndex,
    reps: Seq<bool>,
    p: Seq<char>,
)
    requires
        reps.len() == files.len(),
        reps_fit(files, cache, reps),
        forall|j: int|
            0 <= j < files.len() && #[trigger] files[j].path@ == p ==> unchanged_since_its_row(
                files[j],
                cache.entry(p),
            ),
    ensures
        !selected_paths(files, cache, reps).contains(p),
    decreases files.len(),
{
    if files.len() > 0 {
        let front = files.drop_last();
        let rfront = reps.drop_last();
        assert forall|k: int| 0 <= k < front.len() && 0 <= k < rfront.len() implies match stamp_of(
            cache.entry(#[trigger] front[k].path@),
        ) {
            Some(ts) => ts >= 0 ==> rfront[k],
            None => true,
        } by {
            assert(front[k] == files[k]);
        }
        assert forall|j: int| 0 <= j < front.len() && #[trigger] front[j].path@ == p implies unchanged_since_its_row(
            front[j],
            cache.entry(p),
        ) by {
            assert(front[j] == files[j]);
        }
        unchanged_files_are_not_selected(front, cache, rfront, p);
        let prev = selected_paths(front, cache, rfront);
        let last = files.len() - 1;
        let f = files[last];
        assert(files.last() == f);
        if f.path@ == p {
            assert(unchanged_since_its_row(f, cache.entry(p)));
            assert(reps[last]);
            assert(reps.last() == reps[last]);
            assert(!needs_indexing(f, cache.entry(f.path@), reps.last()));
        } else if needs_indexing(f, cache.entry(f.path@), reps.last()) {
            assert forall|k: int| 0 <= k < prev.push(f.path@).len() implies prev.push(f.path@)[k] != p by {
                if k < prev.len() {
                    assert(prev.push(f.path@)[k] == prev[k]);
                }
            }
        }
    }
}

} // verus!
