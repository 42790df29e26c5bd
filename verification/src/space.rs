//! The space viewer: totals of a folder scan, bytes per kind of file, and
//! the largest files and folders.
use crate::format::{file_size_text, format_size};
use crate::model::FileKind;
use crate::number::{decimal, push_decimal};
use crate::sort::{lemma_filter_insert, lemma_filter_single, lemma_filter_split};
use crate::text::{push_str, string_of};
use vstd::prelude::*;

verus! {

/// Whether an element has weight `k`.
pub open spec fn weighs<T>(w: spec_fn(T) -> nat, k: nat) -> spec_fn(T) -> bool {
    |y: T| w(y) == k
}

/// `r` is `s` sorted by weight, heaviest first, elements of equal weight
/// in their original order.
pub open spec fn weight_sorted<T>(r: Seq<T>, s: Seq<T>, w: spec_fn(T) -> nat) -> bool {
    &&& r.to_multiset() == s.to_multiset()
    &&& forall|a: int, b: int| 0 <= a < b < r.len() ==> w(#[trigger] r[a]) >= w(#[trigger] r[b])
    &&& forall|k: nat| #[trigger] r.filter(weighs(w, k)) == s.filter(weighs(w, k))
}

/// Sorts by weight, heaviest first and stably; `weights` holds the weight
/// of each element.
fn sort_by_weight_desc<T>(v: Vec<T>, weights: Vec<u64>, Ghost(w): Ghost<spec_fn(T) -> nat>) -> (r:
    Vec<T>)
    requires
        weights@.len() == v@.len(),
        forall|i: int| 0 <= i < v@.len() ==> weights@[i] == w(#[trigger] v@[i]),
    ensures
        weight_sorted(r@, v@, w),
{
    let mut input = v;
    let mut ws = weights;
    let ghost orig = input@;
    let mut out: Vec<T> = Vec::new();
    let mut keys: Vec<u64> = Vec::new();
    let ghost mut done: int = 0;
    assert(orig.skip(0) =~= orig);
    assert(orig.take(0) =~= out@);
    while input.len() > 0
        invariant
            0 <= done <= orig.len(),
            input@ == orig.skip(done),
            ws@.len() == input@.len(),
            forall|i: int| 0 <= i < input@.len() ==> ws@[i] == w(#[trigger] input@[i]),
            out@.len() == done,
            keys@.len() == out@.len(),
            forall|t: int| 0 <= t < out@.len() ==> keys@[t] == w(#[trigger] out@[t]),
            out@.to_multiset() == orig.take(done).to_multiset(),
            forall|a: int, b: int|
                0 <= a < b < out@.len() ==> w(#[trigger] out@[a]) >= w(#[trigger] out@[b]),
            forall|k: nat| #[trigger]
                out@.filter(weighs(w, k)) == orig.take(done).filter(weighs(w, k)),
        decreases input.len(),
    {
        assert(ws@[0] == w(input@[0]));
        let ghost in0 = input@;
        let ghost ws0 = ws@;
        let x = input.remove(0);
        let kx = ws.remove(0);
        assert(x == orig[done]);
        assert(input@ =~= orig.skip(done + 1));
        assert forall|i: int| 0 <= i < input@.len() implies ws@[i] == w(#[trigger] input@[i]) by {
            assert(input@[i] == in0[i + 1]);
            assert(ws@[i] == ws0[i + 1]);
            assert(ws0[i + 1] == w(in0[i + 1]));
        }
        let mut j: usize = 0;
        while j < out.len() && keys[j] >= kx
            invariant
                j <= out@.len(),
                keys@.len() == out@.len(),
                forall|t: int| 0 <= t < out@.len() ==> keys@[t] == w(#[trigger] out@[t]),
                kx == w(x),
                forall|t: int| 0 <= t < j ==> w(#[trigger] out@[t]) >= w(x),
            decreases out.len() - j,
        {
            assert(keys@[j as int] == w(out@[j as int]));
            j = j + 1;
        }
        let ghost old_out = out@;
        let ghost old_keys = keys@;
        proof {
            if j < out@.len() {
                assert(keys@[j as int] == w(out@[j as int]));
            }
            assert forall|t: int| j <= t < old_out.len() implies w(#[trigger] old_out[t]) < w(x) by {
                if t > j {
                    assert(w(old_out[j as int]) >= w(old_out[t]));
                }
            }
        }
        out.insert(j, x);
        keys.insert(j, kx);
        proof {
            let newo = out@;
            assert(newo == old_out.insert(j as int, x));
            assert forall|t: int| 0 <= t < newo.len() implies keys@[t] == w(#[trigger] newo[t]) by {
                if t < j {
                    assert(keys@[t] == old_keys[t]);
                } else if t > j {
                    assert(keys@[t] == old_keys[t - 1]);
                    assert(newo[t] == old_out[t - 1]);
                }
            }
            vstd::seq_lib::to_multiset_insert(old_out, j as int, x);
            assert(orig.take(done + 1) =~= orig.take(done).push(x));
            vstd::seq_lib::to_multiset_build(orig.take(done), x);
            assert forall|a: int, b: int| 0 <= a < b < newo.len() implies w(#[trigger] newo[a]) >= w(
                #[trigger] newo[b],
            ) by {
                if b < j {
                    assert(w(old_out[a]) >= w(old_out[b]));
                } else if b == j {
                    assert(w(old_out[a]) >= w(x));
                } else if a < j {
                    assert(w(old_out[a]) >= w(x));
                    assert(w(x) > w(old_out[b - 1]));
                } else if a == j {
                    assert(w(x) > w(old_out[b - 1]));
                } else {
                    assert(w(old_out[a - 1]) >= w(old_out[b - 1]));
                }
            }
            assert forall|k: nat| #[trigger]
                newo.filter(weighs(w, k)) == orig.take(done + 1).filter(weighs(w, k)) by {
                let p = weighs(w, k);
                let prev = orig.take(done);
                assert(old_out.filter(p) == prev.filter(p));
                lemma_filter_insert(old_out, j as int, x, p);
                lemma_filter_split(old_out, j as int, p);
                lemma_filter_single(x, p);
                let a = old_out.take(j as int).filter(p);
                let rest = old_out.skip(j as int);
                assert(orig.take(done + 1).filter(p) == (if p(x) {
                    prev.filter(p).push(x)
                } else {
                    prev.filter(p)
                })) by {
                    reveal_with_fuel(Seq::<_>::filter, 1);
                    assert(orig.take(done + 1).drop_last() =~= prev);
                    assert(orig.take(done + 1).last() == x);
                }
                if p(x) {
                    assert forall|t: int| 0 <= t < rest.len() implies !p(#[trigger] rest[t]) by {
                        assert(rest[t] == old_out[j + t]);
                    }
                    rest.lemma_all_neg_filter_empty(p);
                    assert(rest.filter(p) =~= Seq::<T>::empty());
                    assert(newo.filter(p) =~= a + seq![x]);
                    assert(prev.filter(p) =~= a);
                } else {
                    assert(newo.filter(p) =~= a + rest.filter(p));
                }
            }
        }
        proof {
            done = done + 1;
        }
    }
    assert(orig.take(done) =~= orig);
    out
}

} // verus!

verus! {

/// How deep a space scan goes.
#[derive(Clone, Copy, Debug, PartialEq, Eq, Structural)]
pub enum ScanDepth {
    FolderOnly,
    OneLevelDeep,
    FullRecursive,
}

/// Bytes and file count of one kind of file.
#[derive(Clone, Copy, Debug, PartialEq, Eq, Structural)]
pub struct CategoryStat {
    pub kind: FileKind,
    pub bytes: u64,
    pub count: u64,
}

/// A file or folder and its size.
#[derive(Clone, Debug)]
pub struct FileStat {
    pub path: String,
    pub bytes: u64,
}

/// The outcome of a space scan.
#[derive(Clone, Debug)]
pub struct ScanResult {
    pub root: String,
    pub depth: ScanDepth,
    pub total_bytes: u64,
    pub file_count: u64,
    pub folder_count: u64,
    pub by_category: Vec<CategoryStat>,
    pub largest_files: Vec<FileStat>,
    pub largest_dirs: Vec<FileStat>,
    pub error_count: u32,
    pub cancelled: bool,
}

/// The size of an entry, by which entries are ranked.
pub open spec fn size_of(f: FileStat) -> nat {
    f.bytes as nat
}

/// The bytes of a kind's total, by which kinds are ranked.
pub open spec fn cat_size(c: CategoryStat) -> nat {
    c.bytes as nat
}

/// How many of the largest files a scan keeps while it runs.
pub const KEPT_FILES: usize = 20;

/// How many files and folders a scan result lists.
pub const LISTED_ENTRIES: usize = 15;

/// The index of the kind's total, or -1.
pub open spec fn cat_index(cs: Seq<CategoryStat>, k: FileKind) -> int
    decreases cs.len(),
{
    if cs.len() == 0 {
        -1
    } else if cs.last().kind == k {
        cs.len() - 1
    } else {
        cat_index(cs.drop_last(), k)
    }
}

/// The totals after a file of kind `k` and `sz` bytes: its kind's total
/// grows, or a new total is added for a kind not seen before.
pub open spec fn add_to_category(cs: Seq<CategoryStat>, k: FileKind, sz: nat) -> Seq<CategoryStat> {
    let i = cat_index(cs, k);
    if i >= 0 {
        cs.update(
            i,
            CategoryStat { kind: k, bytes: (cs[i].bytes + sz) as u64, count: (cs[i].count + 1) as u64 },
        )
    } else {
        cs.push(CategoryStat { kind: k, bytes: sz as u64, count: 1 })
    }
}

/// The kept largest files after seeing one more: it is added when fewer
/// than [`KEPT_FILES`] are kept or some kept file is smaller, and when that
/// makes one too many, the list is ranked by size and the smallest dropped.
pub open spec fn keep_largest(list: Seq<FileStat>, f: FileStat, r: Seq<FileStat>) -> bool {
    if list.len() < KEPT_FILES || exists|i: int| 0 <= i < list.len() && (#[trigger] list[i]).bytes < f.bytes {
        let l = list.push(f);
        if l.len() > KEPT_FILES {
            exists|s: Seq<FileStat>| weight_sorted(s, l, |x: FileStat| size_of(x)) && r == s.take(
                KEPT_FILES as int,
            )
        } else {
            r == l
        }
    } else {
        r == list
    }
}

/// The bytes of all kinds' totals together.
pub open spec fn bytes_total(cs: Seq<CategoryStat>) -> int {
    cs.fold_left(0int, |acc: int, c: CategoryStat| acc + c.bytes)
}

/// The files of all kinds' totals together.
pub open spec fn count_total(cs: Seq<CategoryStat>) -> int {
    cs.fold_left(0int, |acc: int, c: CategoryStat| acc + c.count)
}

proof fn lemma_totals_push(cs: Seq<CategoryStat>, c: CategoryStat)
    ensures
        bytes_total(cs.push(c)) == bytes_total(cs) + c.bytes,
        count_total(cs.push(c)) == count_total(cs) + c.count,
{
    assert(cs.push(c).drop_last() =~= cs);
}

proof fn lemma_totals_update(cs: Seq<CategoryStat>, i: int, c: CategoryStat)
    requires
        0 <= i < cs.len(),
    ensures
        bytes_total(cs.update(i, c)) == bytes_total(cs) - cs[i].bytes + c.bytes,
        count_total(cs.update(i, c)) == count_total(cs) - cs[i].count + c.count,
    decreases cs.len(),
{
    let u = cs.update(i, c);
    if i == cs.len() - 1 {
        assert(u.drop_last() =~= cs.drop_last());
    } else {
        lemma_totals_update(cs.drop_last(), i, c);
        assert(u.drop_last() =~= cs.drop_last().update(i, c));
    }
}

/// Reordering the kinds keeps their totals.
pub proof fn lemma_totals_reorder(a: Seq<CategoryStat>, b: Seq<CategoryStat>)
    requires
        a.to_multiset() == b.to_multiset(),
    ensures
        bytes_total(a) == bytes_total(b),
        count_total(a) == count_total(b),
{
    let fb = |acc: int, c: CategoryStat| acc + c.bytes;
    let fc = |acc: int, c: CategoryStat| acc + c.count;
    assert(vstd::seq_lib::commutative_foldl(fb)) by {
        assert forall|x: CategoryStat, y: CategoryStat, v: int| #[trigger] fb(fb(v, x), y) == fb(fb(v, y), x) by {}
    }
    assert(vstd::seq_lib::commutative_foldl(fc)) by {
        assert forall|x: CategoryStat, y: CategoryStat, v: int| #[trigger] fc(fc(v, x), y) == fc(fc(v, y), x) by {}
    }
    vstd::seq_lib::lemma_fold_left_permutation(a, b, fb, 0int);
    vstd::seq_lib::lemma_fold_left_permutation(a, b, fc, 0int);
}

/// Every file in `out` is at most as large as every file in `kept`.
pub open spec fn all_smaller(out: Seq<FileStat>, kept: Seq<FileStat>) -> bool {
    forall|i: int, j: int| 0 <= i < out.len() && 0 <= j < kept.len() ==> (#[trigger] out[i]).bytes <= (
    #[trigger] kept[j]).bytes
}

/// What a scan learns of one entry of a folder (without following links):
/// that it could not be read, that it is a link (with the size of its
/// target when the target is a file), a folder, a regular file and its
/// size, or something else (a device, socket or pipe) and its size.
#[derive(Clone, Copy, Debug, PartialEq, Eq, Structural)]
pub enum ScanEntry {
    Unreadable,
    Link { target_file_size: Option<u64> },
    Folder,
    File { size: u64 },
    Special { size: u64 },
}

/// What a scan does with one entry.
#[derive(Clone, Copy, Debug, PartialEq, Eq, Structural)]
pub enum ScanAction {
    /// Count an entry that could not be read.
    CountError,
    /// Count a file of this many bytes.
    CountFile(u64),
    /// Count a folder and visit it as [`folder_visit`] says.
    EnterFolder,
    /// Leave the entry out.
    Skip,
}

/// The action for an entry: unreadable ones are errors, links count as the
/// file they point to (and are left out when that is not a file), files
/// count with their size; where `counts_folders` (not inside a folder
/// summed one level deep) folders are entered and other entries count as
/// files, otherwise both are left out.
pub open spec fn entry_action(e: ScanEntry, counts_folders: bool) -> ScanAction {
    match e {
        ScanEntry::Unreadable => ScanAction::CountError,
        ScanEntry::Link { target_file_size } => match target_file_size {
            Some(sz) => ScanAction::CountFile(sz),
            None => ScanAction::Skip,
        },
        ScanEntry::Folder => if counts_folders {
            ScanAction::EnterFolder
        } else {
            ScanAction::Skip
        },
        ScanEntry::File { size } => ScanAction::CountFile(size),
        ScanEntry::Special { size } => if counts_folders {
            ScanAction::CountFile(size)
        } else {
            ScanAction::Skip
        },
    }
}

/// Decides what the scan does with one entry.
pub fn scan_entry_action(e: ScanEntry, counts_folders: bool) -> (r: ScanAction)
    ensures
        r == entry_action(e, counts_folders),
{
    match e {
        ScanEntry::Unreadable => ScanAction::CountError,
        ScanEntry::Link { target_file_size } => match target_file_size {
            Some(sz) => ScanAction::CountFile(sz),
            None => ScanAction::Skip,
        },
        ScanEntry::Folder => if counts_folders {
            ScanAction::EnterFolder
        } else {
            ScanAction::Skip
        },
        ScanEntry::File { size } => ScanAction::CountFile(size),
        ScanEntry::Special { size } => if counts_folders {
            ScanAction::CountFile(size)
        } else {
            ScanAction::Skip
        },
    }
}

/// How a scan visits a folder it entered.
#[derive(Clone, Copy, Debug, PartialEq, Eq, Structural)]
pub enum FolderVisit {
    /// Do not look inside; list the folder with size 0.
    ListUnsized,
    /// Sum the files directly inside it (counting them) and list the folder
    /// with that sum.
    SumOneLevel,
    /// Scan it and everything below; list it with the bytes found below it
    /// when `listed`.
    Recurse { listed: bool },
}

/// The visit of a folder found `level` levels below the scanned one (0 for
/// its own entries): only the folder's own entries for a folder-only scan,
/// one level summed for a one-level scan, and for a full scan everything
/// below, listing only the folders directly in the scanned one.
pub open spec fn visit_of(depth: ScanDepth, level: u32) -> FolderVisit {
    match depth {
        ScanDepth::FolderOnly => FolderVisit::ListUnsized,
        ScanDepth::OneLevelDeep => FolderVisit::SumOneLevel,
        ScanDepth::FullRecursive => FolderVisit::Recurse { listed: level == 0 },
    }
}

/// Decides how a scan visits a folder.
pub fn folder_visit(depth: ScanDepth, level: u32) -> (r: FolderVisit)
    ensures
        r == visit_of(depth, level),
{
    match depth {
        ScanDepth::FolderOnly => FolderVisit::ListUnsized,
        ScanDepth::OneLevelDeep => FolderVisit::SumOneLevel,
        ScanDepth::FullRecursive => FolderVisit::Recurse { listed: level == 0 },
    }
}

/// A full scan reads a folder, and each next entry of it, only while it
/// was not cancelled; the other scans read to the end.
pub fn scan_goes_on(depth: ScanDepth, cancelled: bool) -> (r: bool)
    ensures
        r == (depth != ScanDepth::FullRecursive || !cancelled),
{
    match depth {
        ScanDepth::FullRecursive => !cancelled,
        _ => true,
    }
}

/// The running totals of a space scan. `seen_files` are all files counted
/// so far; `largest_files` keeps the largest of them and `dropped_files`
/// the rest.
pub struct SpaceTally {
    pub total_bytes: u64,
    pub file_count: u64,
    pub folder_count: u64,
    pub error_count: u32,
    pub categories: Vec<CategoryStat>,
    pub largest_files: Vec<FileStat>,
    pub largest_dirs: Vec<FileStat>,
    pub seen_files: Ghost<Seq<FileStat>>,
    pub dropped_files: Ghost<Seq<FileStat>>,
}

impl SpaceTally {
    /// The tally is consistent: the kept files are at most [`KEPT_FILES`],
    /// full once any was dropped, together with the dropped ones they are
    /// exactly the files seen, and none dropped is larger than one kept;
    /// each kind has one total, and the kinds' totals add up to the overall
    /// bytes and file count.
    pub open spec fn wf(&self) -> bool {
        let kept = self.largest_files@;
        let out = self.dropped_files@;
        &&& kept.len() <= KEPT_FILES
        &&& out.len() > 0 ==> kept.len() == KEPT_FILES
        &&& self.seen_files@.to_multiset() == kept.to_multiset().add(out.to_multiset())
        &&& all_smaller(out, kept)
        &&& self.file_count == self.seen_files@.len()
        &&& forall|i: int, j: int|
            0 <= i < j < self.categories@.len() ==> (#[trigger] self.categories@[i]).kind != (
            #[trigger] self.categories@[j]).kind
        &&& forall|i: int|
            0 <= i < self.categories@.len() ==> (#[trigger] self.categories@[i]).bytes
                <= self.total_bytes && self.categories@[i].count <= self.file_count
        &&& bytes_total(self.categories@) == self.total_bytes
        &&& count_total(self.categories@) == self.file_count
    }

    /// A tally with nothing counted.
    pub fn new() -> (t: Self)
        ensures
            t.wf(),
            t.total_bytes == 0,
            t.file_count == 0,
            t.folder_count == 0,
            t.error_count == 0,
            t.categories@.len() == 0,
            t.largest_files@.len() == 0,
            t.largest_dirs@.len() == 0,
            t.seen_files@.len() == 0,
    {
        let t = SpaceTally {
            total_bytes: 0,
            file_count: 0,
            folder_count: 0,
            error_count: 0,
            categories: Vec::new(),
            largest_files: Vec::new(),
            largest_dirs: Vec::new(),
            seen_files: Ghost(Seq::empty()),
            dropped_files: Ghost(Seq::empty()),
        };
        assert(t.seen_files@.to_multiset() =~= t.largest_files@.to_multiset().add(
            t.dropped_files@.to_multiset(),
        )) by {
            broadcast use vstd::seq_lib::group_to_multiset_ensures;
            broadcast use vstd::multiset::group_multiset_axioms;

            assert(t.seen_files@.to_multiset().len() == 0);
            assert(t.largest_files@.to_multiset().len() == 0);
            assert(t.dropped_files@.to_multiset().len() == 0);
        }
        t
    }
}

} // verus!

verus! {

proof fn lemma_cat_index(cs: Seq<CategoryStat>, k: FileKind)
    ensures
        -1 <= cat_index(cs, k) < cs.len(),
        cat_index(cs, k) >= 0 ==> cs[cat_index(cs, k)].kind == k,
        cat_index(cs, k) < 0 ==> forall|i: int| 0 <= i < cs.len() ==> (#[trigger] cs[i]).kind != k,
    decreases cs.len(),
{
    if cs.len() > 0 {
        lemma_cat_index(cs.drop_last(), k);
        if cs.last().kind != k {
            assert forall|i: int| 0 <= i < cs.len() - 1 implies cs[i] == cs.drop_last()[i] by {}
        }
    }
}

fn find_category(cs: &Vec<CategoryStat>, k: FileKind) -> (r: Option<usize>)
    ensures
        match r {
            Some(i) => i as int == cat_index(cs@, k),
            None => cat_index(cs@, k) < 0,
        },
{
    let mut i: usize = cs.len();
    assert(cs@.take(cs@.len() as int) =~= cs@);
    while i > 0
        invariant
            i <= cs@.len(),
            cat_index(cs@, k) == cat_index(cs@.take(i as int), k),
        decreases i,
    {
        assert(cs@.take(i as int).drop_last() =~= cs@.take(i - 1));
        assert(cs@.take(i as int).last() == cs@[i - 1]);
        if cs[i - 1].kind == k {
            return Some(i - 1);
        }
        i = i - 1;
    }
    None
}

/// Keeping the larger of two groups after ranking: with `l` ranked into
/// `s`, the first [`KEPT_FILES`] of `s` are no smaller than the one left
/// over, nor than files already dropped for being at most as large as
/// every file of `kept` when `f` is larger than one of those.
proof fn lemma_trim_keeps_largest(
    kept: Seq<FileStat>,
    out: Seq<FileStat>,
    f: FileStat,
    s: Seq<FileStat>,
    m: int,
)
    requires
        kept.len() == KEPT_FILES,
        0 <= m < kept.len(),
        kept[m].bytes < f.bytes,
        all_smaller(out, kept),
        weight_sorted(s, kept.push(f), |x: FileStat| size_of(x)),
    ensures
        s.len() == KEPT_FILES + 1,
        s =~= s.take(KEPT_FILES as int).push(s[KEPT_FILES as int]),
        all_smaller(out.push(s[KEPT_FILES as int]), s.take(KEPT_FILES as int)),
{
    let l = kept.push(f);
    let w = |x: FileStat| size_of(x);
    broadcast use vstd::seq_lib::group_to_multiset_ensures;

    assert(s.len() == l.len()) by {
        assert(s.to_multiset().len() == l.to_multiset().len());
    }
    let t = s.take(KEPT_FILES as int);
    let e = s[KEPT_FILES as int];
    assert forall|i: int, j: int| 0 <= i < out.push(e).len() && 0 <= j < t.len() implies (
    #[trigger] out.push(e)[i]).bytes <= (#[trigger] t[j]).bytes by {
        assert(t[j] == s[j]);
        if i == out.len() {
            assert(w(s[j]) >= w(s[KEPT_FILES as int]));
        } else {
            assert(out.push(e)[i] == out[i]);
            assert(s.contains(s[j]));
            assert(s.to_multiset().count(s[j]) > 0);
            assert(l.to_multiset().count(s[j]) > 0);
            assert(l.contains(s[j]));
            let k = choose|k: int| 0 <= k < l.len() && l[k] == s[j];
            if k < kept.len() {
                assert(l[k] == kept[k]);
                assert(out[i].bytes <= kept[k].bytes);
            } else {
                assert(l[k] == f);
                assert(out[i].bytes <= kept[m].bytes);
            }
        }
    }
}

impl SpaceTally {
    /// Counts a file of `bytes` bytes and kind `kind`: adds to the total,
    /// the file count and the kind's total, and keeps it if it is among the
    /// largest.
    pub fn add_file(&mut self, path: String, bytes: u64, kind: FileKind)
        requires
            old(self).wf(),
            old(self).total_bytes + bytes <= u64::MAX,
            old(self).file_count < u64::MAX,
        ensures
            final(self).wf(),
            final(self).total_bytes == old(self).total_bytes + bytes,
            final(self).file_count == old(self).file_count + 1,
            final(self).folder_count == old(self).folder_count,
            final(self).error_count == old(self).error_count,
            final(self).categories@ == add_to_category(old(self).categories@, kind, bytes as nat),
            keep_largest(
                old(self).largest_files@,
                FileStat { path: path, bytes: bytes },
                final(self).largest_files@,
            ),
            final(self).largest_dirs@ == old(self).largest_dirs@,
            final(self).seen_files@ == old(self).seen_files@.push(FileStat { path: path, bytes: bytes }),
    {
        broadcast use vstd::seq_lib::group_to_multiset_ensures;
        broadcast use vstd::multiset::group_multiset_axioms;

        let ghost old_cats = self.categories@;
        proof {
            lemma_cat_index(old_cats, kind);
        }
        self.total_bytes = self.total_bytes + bytes;
        self.file_count = self.file_count + 1;
        match find_category(&self.categories, kind) {
            Some(i) => {
                let c = self.categories[i];
                assert(c.bytes <= old(self).total_bytes);
                assert(c.count <= old(self).file_count);
                let nc = CategoryStat { kind, bytes: c.bytes + bytes, count: c.count + 1 };
                proof {
                    lemma_totals_update(old_cats, i as int, nc);
                }
                self.categories.set(i, nc);
            },
            None => {
                let nc = CategoryStat { kind, bytes, count: 1 };
                proof {
                    lemma_totals_push(old_cats, nc);
                }
                self.categories.push(nc);
            },
        }
        assert(self.categories@ =~= add_to_category(old_cats, kind, bytes as nat));
        let f = FileStat { path, bytes };
        let ghost kept = self.largest_files@;
        let ghost out = self.dropped_files@;
        let mut any_smaller = false;
        let mut k: usize = 0;
        while k < self.largest_files.len()
            invariant
                k <= kept.len(),
                self.largest_files@ == kept,
                any_smaller == (exists|i: int| 0 <= i < k && (#[trigger] kept[i]).bytes < f.bytes),
            decreases kept.len() - k,
        {
            if self.largest_files[k].bytes < f.bytes {
                any_smaller = true;
            }
            k = k + 1;
        }
        let ghost fv = f;
        let ghost seen0 = self.seen_files@;
        proof {
            self.seen_files@ = self.seen_files@.push(fv);
            assert(self.seen_files@.to_multiset() =~= seen0.to_multiset().insert(fv));
        }
        if self.largest_files.len() < KEPT_FILES || any_smaller {
            self.largest_files.push(f);
            if self.largest_files.len() > KEPT_FILES {
                let ghost m = choose|i: int| 0 <= i < kept.len() && (#[trigger] kept[i]).bytes < fv.bytes;
                let mut list: Vec<FileStat> = Vec::new();
                std::mem::swap(&mut list, &mut self.largest_files);
                let ghost l = list@;
                let mut weights: Vec<u64> = Vec::new();
                let mut q: usize = 0;
                while q < list.len()
                    invariant
                        q <= list@.len(),
                        list@ == l,
                        weights@.len() == q,
                        forall|i: int| 0 <= i < q ==> weights@[i] == size_of(#[trigger] l[i]),
                    decreases list.len() - q,
                {
                    weights.push(list[q].bytes);
                    q = q + 1;
                }
                let mut sorted = sort_by_weight_desc(list, weights, Ghost(|x: FileStat| size_of(x)));
                let ghost s = sorted@;
                proof {
                    assert(l == kept.push(fv));
                    lemma_trim_keeps_largest(kept, out, fv, s, m);
                    self.dropped_files@ = out.push(s[KEPT_FILES as int]);
                }
                sorted.truncate(KEPT_FILES);
                self.largest_files = sorted;
                proof {
                    let t = s.take(KEPT_FILES as int);
                    assert(self.largest_files@ == t);
                    let e = s[KEPT_FILES as int];
                    assert(s.to_multiset() == t.to_multiset().insert(e));
                    assert(s.to_multiset() == l.to_multiset());
                    assert(l.to_multiset() =~= kept.to_multiset().insert(fv));
                    assert(self.dropped_files@.to_multiset() =~= out.to_multiset().insert(e));
                    let a = kept.to_multiset();
                    let b = out.to_multiset();
                    let tm = t.to_multiset();
                    assert(seen0.to_multiset() == a.add(b));
                    assert(tm.add(b.insert(e)) =~= tm.insert(e).add(b));
                    assert(a.add(b).insert(fv) =~= a.insert(fv).add(b));
                    assert(self.seen_files@.to_multiset() =~= self.largest_files@.to_multiset().add(
                        self.dropped_files@.to_multiset(),
                    ));
                }
            } else {
                proof {
                    assert(out.len() == 0);
                    assert(self.largest_files@ == kept.push(fv));
                    assert(self.largest_files@.to_multiset() =~= kept.to_multiset().insert(fv));
                    assert(seen0.to_multiset() == kept.to_multiset().add(out.to_multiset()));
                    assert(self.dropped_files@ == out);
                    assert(self.seen_files@ == seen0.push(fv));
                    let a = kept.to_multiset();
                    let b = out.to_multiset();
                    assert(a.add(b).insert(fv) =~= a.insert(fv).add(b));
                    assert(self.seen_files@.to_multiset() =~= self.largest_files@.to_multiset().add(
                        self.dropped_files@.to_multiset(),
                    ));
                }
            }
        } else {
            proof {
                self.dropped_files@ = out.push(fv);
                assert forall|i: int, j: int|
                    0 <= i < self.dropped_files@.len() && 0 <= j < kept.len() implies (
                #[trigger] self.dropped_files@[i]).bytes <= (#[trigger] kept[j]).bytes by {
                    if i == out.len() {
                        assert(!(kept[j].bytes < fv.bytes));
                    } else {
                        assert(self.dropped_files@[i] == out[i]);
                    }
                }
                assert(self.seen_files@.to_multiset() =~= self.largest_files@.to_multiset().add(
                    self.dropped_files@.to_multiset(),
                ));
            }
        }
    }
}

} // verus!

verus! {

/// The first `n` entries, or all when there are fewer.
pub open spec fn first_at_most<T>(s: Seq<T>, n: nat) -> Seq<T> {
    if s.len() <= n {
        s
    } else {
        s.take(n as int)
    }
}

fn weights_of(v: &Vec<FileStat>) -> (w: Vec<u64>)
    ensures
        w@.len() == v@.len(),
        forall|i: int| 0 <= i < v@.len() ==> w@[i] == size_of(#[trigger] v@[i]),
{
    let mut w: Vec<u64> = Vec::new();
    let mut q: usize = 0;
    while q < v.len()
        invariant
            q <= v@.len(),
            w@.len() == q,
            forall|i: int| 0 <= i < q ==> w@[i] == size_of(#[trigger] v@[i]),
        decreases v.len() - q,
    {
        w.push(v[q].bytes);
        q = q + 1;
    }
    w
}

fn ranked_files(v: Vec<FileStat>) -> (r: Vec<FileStat>)
    ensures
        exists|s: Seq<FileStat>|
            weight_sorted(s, v@, |x: FileStat| size_of(x)) && r@ == first_at_most(
                s,
                LISTED_ENTRIES as nat,
            ),
{
    let w = weights_of(&v);
    let ghost v0 = v@;
    let mut s = sort_by_weight_desc(v, w, Ghost(|x: FileStat| size_of(x)));
    let ghost full = s@;
    if s.len() > LISTED_ENTRIES {
        s.truncate(LISTED_ENTRIES);
    }
    assert(weight_sorted(full, v0, |x: FileStat| size_of(x)) && s@ == first_at_most(
        full,
        LISTED_ENTRIES as nat,
    ));
    s
}

/// The files listed by a scan are the largest it counted: together with
/// the others they are all the files seen, and none of the others is
/// larger than a listed one.
pub open spec fn lists_largest(seen: Seq<FileStat>, listed: Seq<FileStat>) -> bool {
    exists|others: Seq<FileStat>|
        seen.to_multiset() == listed.to_multiset().add(others.to_multiset()) && all_smaller(
            others,
            listed,
        )
}

proof fn lemma_listed_are_largest(
    seen: Seq<FileStat>,
    kept: Seq<FileStat>,
    out: Seq<FileStat>,
    s: Seq<FileStat>,
)
    requires
        seen.to_multiset() == kept.to_multiset().add(out.to_multiset()),
        all_smaller(out, kept),
        weight_sorted(s, kept, |x: FileStat| size_of(x)),
    ensures
        lists_largest(seen, first_at_most(s, LISTED_ENTRIES as nat)),
{
    broadcast use vstd::seq_lib::group_to_multiset_ensures;
    broadcast use vstd::multiset::group_multiset_axioms;

    let w = |x: FileStat| size_of(x);
    let n = LISTED_ENTRIES as int;
    let r = first_at_most(s, LISTED_ENTRIES as nat);
    let rest: Seq<FileStat> = if s.len() <= n {
        seq![]
    } else {
        s.skip(n)
    };
    let others = out + rest;
    assert(s =~= r + rest);
    vstd::seq_lib::lemma_multiset_commutative(r, rest);
    vstd::seq_lib::lemma_multiset_commutative(out, rest);
    assert(seen.to_multiset() =~= r.to_multiset().add(others.to_multiset()));
    assert forall|i: int, j: int| 0 <= i < others.len() && 0 <= j < r.len() implies (
    #[trigger] others[i]).bytes <= (#[trigger] r[j]).bytes by {
        assert(r[j] == s[j]);
        if i < out.len() {
            assert(others[i] == out[i]);
            assert(s.contains(s[j]));
            assert(s.to_multiset().count(s[j]) > 0);
            assert(kept.to_multiset().count(s[j]) > 0);
            assert(kept.contains(s[j]));
            let k = choose|k: int| 0 <= k < kept.len() && kept[k] == s[j];
            assert(out[i].bytes <= kept[k].bytes);
        } else {
            assert(others[i] == s[n + (i - out.len())]);
            assert(w(s[j]) >= w(s[n + (i - out.len())]));
        }
    }
    assert(seen.to_multiset() == r.to_multiset().add(others.to_multiset()) && all_smaller(others, r));
}

impl SpaceTally {
    /// Counts a folder.
    pub fn add_folder(&mut self)
        requires
            old(self).wf(),
            old(self).folder_count < u64::MAX,
        ensures
            final(self).wf(),
            final(self).folder_count == old(self).folder_count + 1,
            final(self).total_bytes == old(self).total_bytes,
            final(self).file_count == old(self).file_count,
            final(self).error_count == old(self).error_count,
            final(self).categories@ == old(self).categories@,
            final(self).largest_files@ == old(self).largest_files@,
            final(self).largest_dirs@ == old(self).largest_dirs@,
            final(self).seen_files@ == old(self).seen_files@,
    {
        self.folder_count = self.folder_count + 1;
    }

    /// Records the size of a folder for the list of largest folders.
    pub fn add_dir(&mut self, path: String, bytes: u64)
        requires
            old(self).wf(),
        ensures
            final(self).wf(),
            final(self).largest_dirs@ == old(self).largest_dirs@.push(FileStat { path: path, bytes: bytes }),
            final(self).folder_count == old(self).folder_count,
            final(self).total_bytes == old(self).total_bytes,
            final(self).file_count == old(self).file_count,
            final(self).error_count == old(self).error_count,
            final(self).categories@ == old(self).categories@,
            final(self).largest_files@ == old(self).largest_files@,
            final(self).seen_files@ == old(self).seen_files@,
    {
        self.largest_dirs.push(FileStat { path, bytes });
    }

    /// Counts an entry that could not be read.
    pub fn add_error(&mut self)
        requires
            old(self).wf(),
            old(self).error_count < u32::MAX,
        ensures
            final(self).wf(),
            final(self).error_count == old(self).error_count + 1,
            final(self).folder_count == old(self).folder_count,
            final(self).total_bytes == old(self).total_bytes,
            final(self).file_count == old(self).file_count,
            final(self).categories@ == old(self).categories@,
            final(self).largest_files@ == old(self).largest_files@,
            final(self).largest_dirs@ == old(self).largest_dirs@,
            final(self).seen_files@ == old(self).seen_files@,
    {
        self.error_count = self.error_count + 1;
    }

    /// The scan's result: totals, the kinds ranked by bytes (kinds of equal
    /// size in the order first met; their totals still add up to the
    /// overall bytes and file count), and the [`LISTED_ENTRIES`] largest
    /// files and folders, largest first.
    pub fn finish(self, root: String, depth: ScanDepth, cancelled: bool) -> (r: ScanResult)
        requires
            self.wf(),
        ensures
            r.root == root,
            r.depth == depth,
            r.cancelled == cancelled,
            r.total_bytes == self.total_bytes,
            r.file_count == self.file_count,
            r.folder_count == self.folder_count,
            r.error_count == self.error_count,
            weight_sorted(r.by_category@, self.categories@, |c: CategoryStat| cat_size(c)),
            bytes_total(r.by_category@) == r.total_bytes,
            count_total(r.by_category@) == r.file_count,
            exists|s: Seq<FileStat>|
                weight_sorted(s, self.largest_files@, |x: FileStat| size_of(x)) && r.largest_files@
                    == first_at_most(s, LISTED_ENTRIES as nat),
            exists|s: Seq<FileStat>|
                weight_sorted(s, self.largest_dirs@, |x: FileStat| size_of(x)) && r.largest_dirs@
                    == first_at_most(s, LISTED_ENTRIES as nat),
            lists_largest(self.seen_files@, r.largest_files@),
            r.largest_files@.len() == (if self.seen_files@.len() <= LISTED_ENTRIES {
                self.seen_files@.len()
            } else {
                LISTED_ENTRIES as nat
            }),
    {
        broadcast use vstd::seq_lib::group_to_multiset_ensures;

        let ghost seen = self.seen_files@;
        let ghost kept = self.largest_files@;
        let ghost out = self.dropped_files@;
        let mut cw: Vec<u64> = Vec::new();
        let mut q: usize = 0;
        while q < self.categories.len()
            invariant
                q <= self.categories@.len(),
                cw@.len() == q,
                forall|i: int| 0 <= i < q ==> cw@[i] == cat_size(#[trigger] self.categories@[i]),
            decreases self.categories.len() - q,
        {
            cw.push(self.categories[q].bytes);
            q = q + 1;
        }
        let by_category = sort_by_weight_desc(self.categories, cw, Ghost(|c: CategoryStat| cat_size(c)));
        let largest_files = ranked_files(self.largest_files);
        let largest_dirs = ranked_files(self.largest_dirs);
        proof {
            lemma_totals_reorder(by_category@, self.categories@);
            let s = choose|s: Seq<FileStat>|
                weight_sorted(s, kept, |x: FileStat| size_of(x)) && largest_files@ == first_at_most(
                    s,
                    LISTED_ENTRIES as nat,
                );
            lemma_listed_are_largest(seen, kept, out, s);
            assert(s.len() == kept.len()) by {
                assert(s.to_multiset().len() == kept.to_multiset().len());
            }
            assert(seen.len() == kept.len() + out.len()) by {
                assert(seen.to_multiset().len() == kept.to_multiset().len() + out.to_multiset().len());
            }
        }
        ScanResult {
            root,
            depth,
            total_bytes: self.total_bytes,
            file_count: self.file_count,
            folder_count: self.folder_count,
            by_category,
            largest_files,
            largest_dirs,
            error_count: self.error_count,
            cancelled,
        }
    }
}

} // verus!

verus! {

/// The views of the space viewer.
#[derive(Clone, Copy, Debug, PartialEq, Eq, Structural)]
pub enum SpaceView {
    Breakdown,
    TopItems,
    Categories,
}

impl SpaceView {
    /// The caption of the view's tab.
    pub fn label(self) -> (r: &'static str)
        ensures
            r@ == match self {
                SpaceView::Breakdown => "BREAKDOWN"@,
                SpaceView::TopItems => "TOP ITEMS"@,
                SpaceView::Categories => "CATEGORIES"@,
            },
    {
        match self {
            SpaceView::Breakdown => "BREAKDOWN",
            SpaceView::TopItems => "TOP ITEMS",
            SpaceView::Categories => "CATEGORIES",
        }
    }

    /// The name under which the view's page is stacked.
    pub fn stack_name(self) -> (r: &'static str)
        ensures
            r@ == match self {
                SpaceView::Breakdown => "breakdown"@,
                SpaceView::TopItems => "top_items"@,
                SpaceView::Categories => "categories"@,
            },
    {
        match self {
            SpaceView::Breakdown => "breakdown",
            SpaceView::TopItems => "top_items",
            SpaceView::Categories => "categories",
        }
    }
}

/// The summary lines of a scan: total size, items, files and folders.
pub open spec fn summary_texts(r: ScanResult) -> (Seq<char>, Seq<char>, Seq<char>, Seq<char>) {
    (
        "Total: "@ + file_size_text(r.total_bytes as nat),
        decimal((r.file_count + r.folder_count) as nat) + "  items"@,
        decimal(r.file_count as nat) + "  files"@,
        decimal(r.folder_count as nat) + "  folders"@,
    )
}

fn number_then(n: u64, text: &str) -> (r: String)
    ensures
        r@ == decimal(n as nat) + text@,
{
    let mut out: Vec<char> = Vec::new();
    push_decimal(&mut out, n as u128);
    push_str(&mut out, text);
    string_of(&out)
}

/// The summary lines shown above a scan's charts.
pub fn scan_summary_labels(r: &ScanResult) -> (s: (String, String, String, String))
    requires
        r.file_count + r.folder_count <= u64::MAX,
    ensures
        (s.0@, s.1@, s.2@, s.3@) == summary_texts(*r),
{
    let mut total: Vec<char> = Vec::new();
    push_str(&mut total, "Total: ");
    let size = format_size(r.total_bytes);
    push_str(&mut total, size.as_str());
    (
        string_of(&total),
        number_then(r.file_count + r.folder_count, "  items"),
        number_then(r.file_count, "  files"),
        number_then(r.folder_count, "  folders"),
    )
}

/// The warning of a scan: cancelled, or the number of entries skipped;
/// nothing when neither.
pub open spec fn scan_warning_text(r: ScanResult) -> Option<Seq<char>> {
    if r.cancelled {
        Some("\u{26a0} Scan cancelled."@)
    } else if r.error_count > 0 {
        Some(
            "\u{26a0} "@ + decimal(r.error_count as nat) + " item"@ + (if r.error_count == 1 {
                ""@
            } else {
                "s"@
            }) + " skipped (permission denied)"@,
        )
    } else {
        None
    }
}

/// The warning line of a scan, if any.
pub fn scan_warning(r: &ScanResult) -> (w: Option<String>)
    ensures
        crate::text::opt_text(w) == scan_warning_text(*r),
{
    if r.cancelled {
        Some(String::from_str("\u{26a0} Scan cancelled."))
    } else if r.error_count > 0 {
        let mut out: Vec<char> = Vec::new();
        push_str(&mut out, "\u{26a0} ");
        push_decimal(&mut out, r.error_count as u128);
        push_str(&mut out, " item");
        if r.error_count != 1 {
            push_str(&mut out, "s");
        }
        push_str(&mut out, " skipped (permission denied)");
        proof {
            reveal_strlit("");
        }
        assert(out@ =~= scan_warning_text(*r).unwrap());
        Some(string_of(&out))
    } else {
        None
    }
}

/// The share of the total a kind takes, in whole percent (rounded down);
/// zero when the total is zero.
pub fn category_percent(bytes: u64, total: u64) -> (p: u64)
    requires
        bytes * 100 <= u64::MAX,
    ensures
        p == (if total > 0 {
            (bytes * 100) / (total as int)
        } else {
            0
        }),
{
    if total > 0 {
        bytes * 100 / total
    } else {
        0
    }
}

/// The detail of a kind's row: its size and file count.
pub open spec fn category_detail_text(bytes: u64, count: u64) -> Seq<char> {
    file_size_text(bytes as nat) + "  \u{b7}  "@ + if count == 1 {
        "1 file"@
    } else {
        decimal(count as nat) + " files"@
    }
}

/// The size and file count shown for a kind.
pub fn category_detail(bytes: u64, count: u64) -> (r: String)
    ensures
        r@ == category_detail_text(bytes, count),
{
    let mut out: Vec<char> = Vec::new();
    let size = format_size(bytes);
    push_str(&mut out, size.as_str());
    push_str(&mut out, "  \u{b7}  ");
    if count == 1 {
        push_str(&mut out, "1 file");
    } else {
        push_decimal(&mut out, count as u128);
        push_str(&mut out, " files");
    }
    assert(out@ =~= category_detail_text(bytes, count));
    string_of(&out)
}

} // verus!
