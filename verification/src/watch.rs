//! The decisions of a watch-folder run: which directory entries a scan looks
//! at, and which media files it hands to the queue. A run remembers, for each
//! file it handed on, the modification time it had then, and hands the file
//! on again only once that time has changed.
use vstd::prelude::*;
use vstd::pervasive::VecAdditionalExecFns;
use crate::jobs::should_enqueue;
use crate::model::WatchFolder;

verus! {

/// A file's modification time, taken against the Unix epoch: `secs` and
/// `nanos` after it, or (with `before_epoch`) that long before it.
#[derive(Debug, Clone, Copy, PartialEq, Eq, Structural)]
pub struct FileStamp {
    pub before_epoch: bool,
    pub secs: u64,
    pub nanos: u32,
}

/// What a scan does with one directory entry.
#[derive(Debug, Clone, Copy, PartialEq, Eq, Structural)]
pub enum ScanStep {
    /// Left out.
    Skip,
    /// A directory whose entries are scanned in turn.
    Descend,
    /// A media file that the scan returns.
    Take,
}

pub open spec fn scan_step_spec(
    is_symlink: bool,
    is_dir: bool,
    is_file: bool,
    recursive: bool,
    is_media: bool,
) -> ScanStep {
    if is_symlink {
        ScanStep::Skip
    } else if is_dir && recursive {
        ScanStep::Descend
    } else if is_file && is_media {
        ScanStep::Take
    } else {
        ScanStep::Skip
    }
}

/// A symbolic link is never followed nor returned; a directory is entered
/// only in a recursive scan; a regular file is returned when it is a media
/// file.
pub fn scan_step(is_symlink: bool, is_dir: bool, is_file: bool, recursive: bool, is_media: bool) -> (r:
    ScanStep)
    ensures
        r == scan_step_spec(is_symlink, is_dir, is_file, recursive, is_media),
        r == ScanStep::Take ==> !is_symlink && is_file && is_media,
        r == ScanStep::Descend ==> !is_symlink && is_dir && recursive,
        !is_symlink && !is_dir && is_file && is_media ==> r == ScanStep::Take,
{
    if is_symlink {
        ScanStep::Skip
    } else if is_dir && recursive {
        ScanStep::Descend
    } else if is_file && is_media {
        ScanStep::Take
    } else {
        ScanStep::Skip
    }
}

/// What a scan does with an entry, by what the entry is: a symbolic link is
/// always left out; a regular media file is always taken, in a recursive
/// scan as in a flat one; a directory is entered exactly when the scan is
/// recursive; and nothing that is not a media file is taken.
pub proof fn scan_takes_media_files_and_follows_no_links(
    is_symlink: bool,
    is_dir: bool,
    is_file: bool,
    recursive: bool,
    is_media: bool,
)
    ensures
        is_symlink ==> scan_step_spec(is_symlink, is_dir, is_file, recursive, is_media) == ScanStep::Skip,
        !is_symlink && !is_dir && is_file && is_media ==> scan_step_spec(
            is_symlink,
            is_dir,
            is_file,
            recursive,
            is_media,
        ) == ScanStep::Take,
        !is_symlink && is_dir && !is_file ==> (scan_step_spec(is_symlink, is_dir, is_file, recursive, is_media)
            == ScanStep::Descend <==> recursive),
        !is_media ==> scan_step_spec(is_symlink, is_dir, is_file, recursive, is_media) != ScanStep::Take,
        !is_dir ==> scan_step_spec(is_symlink, is_dir, is_file, recursive, is_media) != ScanStep::Descend,
{
}

/// The memory that a list of (file, time) records gives: for each file, the
/// time of its last record.
pub open spec fn stamps_map(s: Seq<(Seq<u8>, FileStamp)>) -> Map<Seq<u8>, FileStamp>
    decreases s.len(),
{
    if s.len() == 0 {
        Map::empty()
    } else {
        stamps_map(s.drop_last()).insert(s.last().0, s.last().1)
    }
}

/// Whether the memory holds this very time for the file.
pub open spec fn seen_unchanged(memory: Map<Seq<u8>, FileStamp>, path: Seq<u8>, stamp: FileStamp) -> bool {
    memory.contains_key(path) && memory[path] == stamp
}

/// Whether a watch run hands a file on: the folder is enabled, the file is
/// not under the destination, it has been left alone for the settle time,
/// and the memory does not hold its present time.
pub open spec fn watch_enqueues(
    folder: crate::model::WatchFolderView,
    memory: Map<Seq<u8>, FileStamp>,
    inside_destination: bool,
    age_seconds: u64,
    path: Seq<u8>,
    stamp: FileStamp,
) -> bool {
    &&& folder.enabled
    &&& !inside_destination
    &&& age_seconds >= folder.settle_seconds
    &&& !seen_unchanged(memory, path, stamp)
}

/// What a watch run remembers of the files it handed on, keyed by the bytes
/// of their paths.
pub struct WatchMemory {
    entries: Vec<(Vec<u8>, FileStamp)>,
}

impl WatchMemory {
    pub closed spec fn records(&self) -> Seq<(Seq<u8>, FileStamp)> {
        self.entries@.map_values(|e: (Vec<u8>, FileStamp)| (e.0@, e.1))
    }
}

impl View for WatchMemory {
    type V = Map<Seq<u8>, FileStamp>;

    closed spec fn view(&self) -> Map<Seq<u8>, FileStamp> {
        stamps_map(self.records())
    }
}

/// The last record of a key gives its time.
proof fn lemma_stamps_last(s: Seq<(Seq<u8>, FileStamp)>, i: int)
    requires
        0 <= i < s.len(),
        forall|j: int| i < j < s.len() ==> #[trigger] s[j].0 != s[i].0,
    ensures
        stamps_map(s).contains_key(s[i].0),
        stamps_map(s)[s[i].0] == s[i].1,
    decreases s.len(),
{
    if i < s.len() - 1 {
        let t = s.drop_last();
        assert(s[s.len() - 1].0 != s[i].0);
        assert forall|j: int| i < j < t.len() implies #[trigger] t[j].0 != t[i].0 by {
            assert(t[j] == s[j]);
        }
        lemma_stamps_last(t, i);
    }
}

/// A key with no record is not in the memory.
proof fn lemma_stamps_absent(s: Seq<(Seq<u8>, FileStamp)>, k: Seq<u8>)
    requires
        forall|j: int| 0 <= j < s.len() ==> #[trigger] s[j].0 != k,
    ensures
        !stamps_map(s).contains_key(k),
    decreases s.len(),
{
    if s.len() > 0 {
        let t = s.drop_last();
        assert(s[s.len() - 1].0 != k);
        assert forall|j: int| 0 <= j < t.len() implies #[trigger] t[j].0 != k by {
            assert(t[j] == s[j]);
        }
        lemma_stamps_absent(t, k);
    }
}

/// Rewriting the time of a key's last record sets the key's time.
proof fn lemma_stamps_update(s: Seq<(Seq<u8>, FileStamp)>, i: int, stamp: FileStamp)
    requires
        0 <= i < s.len(),
        forall|j: int| i < j < s.len() ==> #[trigger] s[j].0 != s[i].0,
    ensures
        stamps_map(s.update(i, (s[i].0, stamp))) == stamps_map(s).insert(s[i].0, stamp),
    decreases s.len(),
{
    let u = s.update(i, (s[i].0, stamp));
    let k = s[i].0;
    if i == s.len() - 1 {
        assert(u.drop_last() =~= s.drop_last());
        assert(stamps_map(u) =~= stamps_map(s).insert(k, stamp));
    } else {
        let t = s.drop_last();
        assert(s[s.len() - 1].0 != k);
        assert forall|j: int| i < j < t.len() implies #[trigger] t[j].0 != t[i].0 by {
            assert(t[j] == s[j]);
        }
        lemma_stamps_update(t, i, stamp);
        assert(u.drop_last() =~= t.update(i, (k, stamp)));
        assert(u.last() == s.last());
        assert(stamps_map(u) =~= stamps_map(s).insert(k, stamp));
    }
}

/// Whether two byte strings are equal.
fn same_bytes(a: &[u8], b: &[u8]) -> (r: bool)
    ensures
        r == (a@ == b@),
{
    if a.len() != b.len() {
        return false;
    }
    let mut i: usize = 0;
    while i < a.len()
        invariant
            i <= a@.len(),
            a@.len() == b@.len(),
            forall|j: int| 0 <= j < i ==> a@[j] == b@[j],
        decreases a.len() - i,
    {
        if a[i] != b[i] {
            return false;
        }
        i = i + 1;
    }
    assert(a@ =~= b@);
    true
}

impl WatchMemory {
    /// A memory with no file in it.
    pub fn new() -> (r: WatchMemory)
        ensures
            r@ == Map::<Seq<u8>, FileStamp>::empty(),
    {
        let r = WatchMemory { entries: Vec::new() };
        assert(r.records() =~= Seq::<(Seq<u8>, FileStamp)>::empty());
        r
    }

    /// The index of the last record of a path.
    fn find_last(&self, path: &[u8]) -> (r: Option<usize>)
        ensures
            match r {
                Some(i) => {
                    &&& i < self.records().len()
                    &&& self.records()[i as int].0 == path@
                    &&& forall|j: int| i < j < self.records().len() ==> #[trigger] self.records()[j].0 != path@
                },
                None => forall|j: int| 0 <= j < self.records().len() ==> #[trigger] self.records()[j].0 != path@,
            },
    {
        let mut n: usize = self.entries.len();
        while n > 0
            invariant
                n <= self.entries@.len(),
                self.records().len() == self.entries@.len(),
                forall|j: int| n <= j < self.records().len() ==> #[trigger] self.records()[j].0 != path@,
            decreases n,
        {
            let e = &self.entries[n - 1];
            assert(self.records()[n - 1] == (e.0@, e.1));
            if same_bytes(e.0.as_slice(), path) {
                return Some(n - 1);
            }
            n = n - 1;
        }
        None
    }

    /// The time the memory holds for a path, if any.
    pub fn stamp_of(&self, path: &[u8]) -> (r: Option<FileStamp>)
        ensures
            r == (if self@.contains_key(path@) {
                Some(self@[path@])
            } else {
                None
            }),
    {
        match self.find_last(path) {
            Some(i) => {
                proof {
                    lemma_stamps_last(self.records(), i as int);
                }
                Some(self.entries[i].1)
            },
            None => {
                proof {
                    lemma_stamps_absent(self.records(), path@);
                }
                None
            },
        }
    }

    /// Whether the run hands a file on: `inside_destination` and
    /// `age_seconds` describe the file, `stamp` is its modification time.
    pub fn decide(
        &self,
        folder: &WatchFolder,
        inside_destination: bool,
        age_seconds: u64,
        path: &[u8],
        stamp: FileStamp,
    ) -> (r: bool)
        ensures
            r == watch_enqueues(folder@, self@, inside_destination, age_seconds, path@, stamp),
            !folder@.enabled ==> !r,
    {
        let unchanged = match self.stamp_of(path) {
            Some(s) => s == stamp,
            None => false,
        };
        folder.enabled && should_enqueue(inside_destination, age_seconds, folder.settle_seconds, unchanged)
    }

    /// Remembers the time a file was handed on with.
    pub fn record(&mut self, path: Vec<u8>, stamp: FileStamp)
        ensures
            final(self)@ == old(self)@.insert(path@, stamp),
    {
        match self.find_last(path.as_slice()) {
            Some(i) => {
                let ghost before = self.records();
                proof {
                    lemma_stamps_update(before, i as int, stamp);
                }
                self.entries.set(i, (path, stamp));
                assert(self.records() =~= before.update(i as int, (before[i as int].0, stamp)));
            },
            None => {
                let ghost before = self.records();
                let ghost key = path@;
                self.entries.push((path, stamp));
                assert(self.records() =~= before.push((key, stamp)));
                assert(self.records().drop_last() =~= before);
            },
        }
    }
}

/// Within one watch run, a file handed to the queue twice, with no hand-over
/// of that file in between, was handed on with two different modification
/// times. `events` lists the run's hand-overs in order; the memory before
/// hand-over `n` is that of the first `n` records, and each hand-over was
/// one that the memory did not hold.
pub proof fn watch_run_hands_on_only_changed_files(events: Seq<(Seq<u8>, FileStamp)>, i: int, j: int)
    requires
        forall|n: int|
            0 <= n < events.len() ==> !seen_unchanged(
                #[trigger] stamps_map(events.take(n)),
                events[n].0,
                events[n].1,
            ),
        0 <= i < j < events.len(),
        events[i].0 == events[j].0,
        forall|n: int| i < n < j ==> #[trigger] events[n].0 != events[i].0,
    ensures
        events[i].1 != events[j].1,
{
    let before = events.take(j);
    assert forall|n: int| i < n < before.len() implies #[trigger] before[n].0 != before[i].0 by {
        assert(before[n] == events[n]);
    }
    lemma_stamps_last(before, i);
    assert(before[i] == events[i]);
    assert(!seen_unchanged(stamps_map(events.take(j)), events[j].0, events[j].1));
}

} // verus!
