//! The triage view: which items each filter keeps.
use crate::clipboard::{path_in, texts};
use crate::model::{FileItem, FileKind};
use crate::path::path_eq;
use crate::text::chars_of;
use crate::views::TriageFilter;
use vstd::prelude::*;

verus! {

/// The size from which a file counts as large: 50 MiB.
pub const TRIAGE_LARGE_FILE_BYTES: u64 = 52428800;

/// The moment the filters are applied: the current time and today's date and
/// month as the local calendar writes them ("2024-05-17", "2024-05").
#[derive(Clone, Debug)]
pub struct TriageClock {
    pub now_unix: Option<i64>,
    pub today: Option<String>,
    pub this_month: Option<String>,
}

/// What the filters need to know of an item beyond the item itself: the
/// local date and month of its modification, and whether it is executable.
#[derive(Clone, Debug)]
pub struct TriageFacts {
    pub day: Option<String>,
    pub month: Option<String>,
    pub executable: bool,
}

/// Two optional texts are both present and equal.
pub open spec fn same_text(a: Option<String>, b: Option<String>) -> bool {
    match (a, b) {
        (Some(x), Some(y)) => x@ == y@,
        _ => false,
    }
}

/// The age of an item in seconds, when both times are known.
pub open spec fn age_of(it: FileItem, clock: TriageClock) -> Option<int> {
    match (it.modified_unix, clock.now_unix) {
        (Some(m), Some(n)) => Some(n - m),
        _ => None,
    }
}

/// Whether an item passes a triage filter.
pub open spec fn triage_keeps(
    it: FileItem,
    f: TriageFilter,
    facts: TriageFacts,
    clock: TriageClock,
    dups: Option<Seq<Seq<char>>>,
) -> bool {
    match f {
        TriageFilter::All => true,
        TriageFilter::Today => same_text(facts.day, clock.today),
        TriageFilter::ThisWeek => match age_of(it, clock) {
            Some(a) => a <= 7 * 24 * 60 * 60,
            None => false,
        },
        TriageFilter::ThisMonth => same_text(facts.month, clock.this_month),
        TriageFilter::OlderThanOneMonth => match age_of(it, clock) {
            Some(a) => a > 30 * 24 * 60 * 60,
            None => false,
        },
        TriageFilter::Images => it.kind == FileKind::Image,
        TriageFilter::Videos => it.kind == FileKind::Video,
        TriageFilter::Archives => it.kind == FileKind::Archive,
        TriageFilter::Documents => it.kind == FileKind::Document || it.kind == FileKind::Text
            || it.kind == FileKind::ConfigCode,
        TriageFilter::LargeFiles => match it.size_bytes {
            Some(s) => s >= TRIAGE_LARGE_FILE_BYTES,
            None => false,
        },
        TriageFilter::Audio => it.kind == FileKind::Audio,
        TriageFilter::Executables => !it.is_dir && facts.executable,
        TriageFilter::Empty => !it.is_dir && it.size_bytes == Some(0u64),
        TriageFilter::Duplicates => match dups {
            Some(d) => path_in(it.path@, d),
            None => false,
        },
    }
}

/// The duplicate paths as texts, if known.
pub open spec fn dup_texts(d: Option<&Vec<String>>) -> Option<Seq<Seq<char>>> {
    match d {
        Some(v) => Some(texts(v@)),
        None => None,
    }
}

fn text_eq(a: &Option<String>, b: &Option<String>) -> (r: bool)
    ensures
        r == same_text(*a, *b),
{
    match (a, b) {
        (Some(x), Some(y)) => {
            let cx = chars_of(x.as_str());
            let cy = chars_of(y.as_str());
            crate::text::chars_eq(&cx, &cy)
        },
        _ => false,
    }
}

fn path_listed(p: &String, ps: &Vec<String>) -> (r: bool)
    ensures
        r == path_in(p@, texts(ps@)),
{
    let cp = chars_of(p.as_str());
    let mut i: usize = 0;
    while i < ps.len()
        invariant
            i <= ps.len(),
            cp@ == p@,
            forall|j: int| 0 <= j < i ==> !crate::path::same_path(#[trigger] texts(ps@)[j], p@),
        decreases ps.len() - i,
    {
        let q = chars_of(ps[i].as_str());
        assert(texts(ps@)[i as int] == q@);
        if path_eq(&q, &cp) {
            return true;
        }
        i = i + 1;
    }
    false
}

/// Whether an item passes a triage filter.
pub fn matches_triage_filter(
    item: &FileItem,
    filter: TriageFilter,
    facts: &TriageFacts,
    clock: &TriageClock,
    duplicate_set: Option<&Vec<String>>,
) -> (r: bool)
    ensures
        r == triage_keeps(*item, filter, *facts, *clock, dup_texts(duplicate_set)),
{
    match filter {
        TriageFilter::All => true,
        TriageFilter::Today => text_eq(&facts.day, &clock.today),
        TriageFilter::ThisWeek => match (item.modified_unix, clock.now_unix) {
            (Some(m), Some(n)) => (n as i128) - (m as i128) <= 7 * 24 * 60 * 60,
            _ => false,
        },
        TriageFilter::ThisMonth => text_eq(&facts.month, &clock.this_month),
        TriageFilter::OlderThanOneMonth => match (item.modified_unix, clock.now_unix) {
            (Some(m), Some(n)) => (n as i128) - (m as i128) > 30 * 24 * 60 * 60,
            _ => false,
        },
        TriageFilter::Images => item.kind == FileKind::Image,
        TriageFilter::Videos => item.kind == FileKind::Video,
        TriageFilter::Archives => item.kind == FileKind::Archive,
        TriageFilter::Documents => item.kind == FileKind::Document || item.kind == FileKind::Text
            || item.kind == FileKind::ConfigCode,
        TriageFilter::LargeFiles => match item.size_bytes {
            Some(s) => s >= TRIAGE_LARGE_FILE_BYTES,
            None => false,
        },
        TriageFilter::Audio => item.kind == FileKind::Audio,
        TriageFilter::Executables => !item.is_dir && facts.executable,
        TriageFilter::Empty => !item.is_dir && item.size_bytes == Some(0u64),
        TriageFilter::Duplicates => match duplicate_set {
            Some(set) => path_listed(&item.path, set),
            None => false,
        },
    }
}

/// Keeps the items that pass the filter, in order. `facts[i]` describes
/// `items[i]`.
pub fn filter_triage_items(
    items: Vec<FileItem>,
    facts: &Vec<TriageFacts>,
    filter: TriageFilter,
    clock: &TriageClock,
    duplicate_set: Option<&Vec<String>>,
) -> (r: Vec<FileItem>)
    requires
        facts.len() == items.len(),
    ensures
        exists|idx: Seq<int>|
            #![trigger idx.len()]
            idx.len() == r@.len() && (forall|a: int, b: int| 0 <= a < b < idx.len() ==> idx[a] < idx[b])
                && (forall|k: int| 0 <= k < idx.len() ==> 0 <= #[trigger] idx[k] < items@.len()
                && r@[k] == items@[idx[k]])
                && (forall|i: int| 0 <= i < items@.len() ==> (idx.contains(i) <==> triage_keeps(
                #[trigger] items@[i],
                filter,
                facts@[i],
                *clock,
                dup_texts(duplicate_set),
            ))),
{
    let ghost all = items@;
    let mut rest = items;
    let mut out: Vec<FileItem> = Vec::new();
    let ghost mut idx: Seq<int> = Seq::empty();
    let mut i: usize = 0;
    assert(all.skip(0) =~= all);
    while rest.len() > 0
        invariant
            i <= all.len(),
            rest@ == all.skip(i as int),
            facts.len() == all.len(),
            idx.len() == out@.len(),
            forall|a: int, b: int| 0 <= a < b < idx.len() ==> idx[a] < idx[b],
            forall|k: int| 0 <= k < idx.len() ==> 0 <= #[trigger] idx[k] < i && out@[k] == all[idx[k]],
            forall|t: int| 0 <= t < i ==> (idx.contains(t) <==> triage_keeps(
                #[trigger] all[t],
                filter,
                facts@[t],
                *clock,
                dup_texts(duplicate_set),
            )),
        decreases rest.len(),
    {
        let x = rest.remove(0);
        assert(x == all[i as int]);
        assert(rest@ =~= all.skip(i + 1));
        let keep = matches_triage_filter(&x, filter, &facts[i], clock, duplicate_set);
        let ghost old_idx = idx;
        if keep {
            out.push(x);
            proof {
                idx = idx.push(i as int);
            }
        }
        assert forall|t: int| 0 <= t < i + 1 implies (idx.contains(t) <==> triage_keeps(
            #[trigger] all[t],
            filter,
            facts@[t],
            *clock,
            dup_texts(duplicate_set),
        )) by {
            if t < i {
                if idx.contains(t) && !old_idx.contains(t) {
                    assert(idx[idx.len() - 1] == i);
                }
                if old_idx.contains(t) {
                    let k = choose|k: int| 0 <= k < old_idx.len() && old_idx[k] == t;
                    assert(idx[k] == t);
                }
            } else {
                if keep {
                    assert(idx[idx.len() - 1] == t);
                } else if idx.contains(t) {
                    let k = choose|k: int| 0 <= k < idx.len() && idx[k] == t;
                    assert(idx[k] < i);
                }
            }
        }
        i = i + 1;
    }
    out
}

/// Whether permission bits mark a file as executable by anyone; files whose
/// permissions could not be read are not.
pub fn is_executable(mode: Option<u32>) -> (r: bool)
    ensures
        r == match mode {
            Some(m) => (m & 0o111u32) != 0,
            None => false,
        },
{
    match mode {
        Some(m) => (m & 0o111u32) != 0,
        None => false,
    }
}


/// What each kind and size filter of the triage view keeps: Images, Videos,
/// Audio and Archives keep items of that kind; Documents keeps documents,
/// plain text and code or configuration files; Large files keeps items of
/// at least 50 MiB; Empty keeps files of zero bytes; Executables keeps files
/// marked executable; All keeps everything.
pub proof fn lemma_triage_kind_filters(
    it: FileItem,
    facts: TriageFacts,
    clock: TriageClock,
    dups: Option<Seq<Seq<char>>>,
)
    ensures
        triage_keeps(it, TriageFilter::All, facts, clock, dups),
        triage_keeps(it, TriageFilter::Images, facts, clock, dups) <==> it.kind == FileKind::Image,
        triage_keeps(it, TriageFilter::Videos, facts, clock, dups) <==> it.kind == FileKind::Video,
        triage_keeps(it, TriageFilter::Audio, facts, clock, dups) <==> it.kind == FileKind::Audio,
        triage_keeps(it, TriageFilter::Archives, facts, clock, dups) <==> it.kind == FileKind::Archive,
        triage_keeps(it, TriageFilter::Documents, facts, clock, dups) <==> (it.kind == FileKind::Document
            || it.kind == FileKind::Text || it.kind == FileKind::ConfigCode),
        triage_keeps(it, TriageFilter::LargeFiles, facts, clock, dups) <==> (it.size_bytes matches Some(s) && s
            >= 52428800),
        triage_keeps(it, TriageFilter::Empty, facts, clock, dups) <==> (!it.is_dir && it.size_bytes == Some(0u64)),
        triage_keeps(it, TriageFilter::Executables, facts, clock, dups) <==> (!it.is_dir && facts.executable),
{
}

/// What the date filters keep: This week keeps items modified at most seven
/// days before now, Older than a month those modified more than thirty days
/// before (neither keeps an item whose time is unknown); Today and This month
/// keep items whose local day or month is today's.
pub proof fn lemma_triage_date_filters(
    it: FileItem,
    facts: TriageFacts,
    clock: TriageClock,
    dups: Option<Seq<Seq<char>>>,
)
    ensures
        triage_keeps(it, TriageFilter::ThisWeek, facts, clock, dups) <==> (it.modified_unix matches Some(m)
            && clock.now_unix matches Some(n) && n - m <= 604800),
        triage_keeps(it, TriageFilter::OlderThanOneMonth, facts, clock, dups) <==> (it.modified_unix matches Some(
            m,
        ) && clock.now_unix matches Some(n) && n - m > 2592000),
        triage_keeps(it, TriageFilter::Today, facts, clock, dups) <==> (facts.day matches Some(d)
            && clock.today matches Some(t) && d@ == t@),
        triage_keeps(it, TriageFilter::ThisMonth, facts, clock, dups) <==> (facts.month matches Some(d)
            && clock.this_month matches Some(t) && d@ == t@),
{
}

} // verus!
