//! Search queries: the filters a query carries and which entries match it.
use crate::model::{FileItem, FileKind, Shape};
use crate::sort::{to_lowercase, unicode_lowercase};
use crate::text::{chars_of, contains_chars, has_infix};
use vstd::prelude::*;

verus! {

/// The kind filter of a search.
#[derive(Clone, Copy, Debug, PartialEq, Eq, Structural)]
pub enum SearchKindFilter {
    All,
    Folders,
    Images,
    Videos,
    Text,
    Archives,
    Code,
}

/// The age filter of a search.
#[derive(Clone, Copy, Debug, PartialEq, Eq, Structural)]
pub enum SearchAgeFilter {
    Any,
    Today,
    ThisWeek,
    ThisMonth,
    Older,
}

/// The size filter of a search.
#[derive(Clone, Copy, Debug, PartialEq, Eq, Structural)]
pub enum SearchSizeFilter {
    Any,
    Small,
    Medium,
    Large,
}

impl SearchKindFilter {
    /// The chip label of the filter.
    pub fn label(&self) -> (r: &'static str)
        ensures
            r@ == match *self {
                SearchKindFilter::All => "All Types"@,
                SearchKindFilter::Folders => "Folders"@,
                SearchKindFilter::Images => "Images"@,
                SearchKindFilter::Videos => "Videos"@,
                SearchKindFilter::Text => "Text"@,
                SearchKindFilter::Archives => "Archives"@,
                SearchKindFilter::Code => "Code"@,
            },
    {
        match self {
            SearchKindFilter::All => "All Types",
            SearchKindFilter::Folders => "Folders",
            SearchKindFilter::Images => "Images",
            SearchKindFilter::Videos => "Videos",
            SearchKindFilter::Text => "Text",
            SearchKindFilter::Archives => "Archives",
            SearchKindFilter::Code => "Code",
        }
    }
}

impl SearchAgeFilter {
    /// The chip label of the filter.
    pub fn label(&self) -> (r: &'static str)
        ensures
            r@ == match *self {
                SearchAgeFilter::Any => "Any Date"@,
                SearchAgeFilter::Today => "Today"@,
                SearchAgeFilter::ThisWeek => "This Week"@,
                SearchAgeFilter::ThisMonth => "This Month"@,
                SearchAgeFilter::Older => "Older"@,
            },
    {
        match self {
            SearchAgeFilter::Any => "Any Date",
            SearchAgeFilter::Today => "Today",
            SearchAgeFilter::ThisWeek => "This Week",
            SearchAgeFilter::ThisMonth => "This Month",
            SearchAgeFilter::Older => "Older",
        }
    }
}

impl SearchSizeFilter {
    /// The chip label of the filter.
    pub fn label(&self) -> (r: &'static str)
        ensures
            r@ == match *self {
                SearchSizeFilter::Any => "Any Size"@,
                SearchSizeFilter::Small => "< 1 MB"@,
                SearchSizeFilter::Medium => "1–50 MB"@,
                SearchSizeFilter::Large => "> 50 MB"@,
            },
    {
        match self {
            SearchSizeFilter::Any => "Any Size",
            SearchSizeFilter::Small => "< 1 MB",
            SearchSizeFilter::Medium => "1–50 MB",
            SearchSizeFilter::Large => "> 50 MB",
        }
    }
}

/// A search: name text, filters, the folder searched and whether to descend.
#[derive(Clone, Debug)]
pub struct SearchQuery {
    pub name: String,
    pub kind: SearchKindFilter,
    pub age: SearchAgeFilter,
    pub size: SearchSizeFilter,
    pub tag_id: Option<i64>,
    pub scope_dir: String,
    pub recursive: bool,
}

impl SearchQuery {
    /// An empty, recursive query over `scope_dir` with every filter open.
    pub fn new(scope_dir: String) -> (q: Self)
        ensures
            q.name@.len() == 0,
            q.kind == SearchKindFilter::All,
            q.age == SearchAgeFilter::Any,
            q.size == SearchSizeFilter::Any,
            q.tag_id is None,
            q.scope_dir == scope_dir,
            q.recursive,
    {
        SearchQuery {
            name: String::new(),
            kind: SearchKindFilter::All,
            age: SearchAgeFilter::Any,
            size: SearchSizeFilter::Any,
            tag_id: None,
            scope_dir,
            recursive: true,
        }
    }
}

/// A directory entry met during a search.
#[derive(Clone, Debug)]
pub struct SearchEntry {
    pub path: String,
    pub fname: String,
    pub is_dir: bool,
    pub size: u64,
    pub modified_secs: i64,
}

/// Whether an entry of the given kind passes the kind filter.
pub open spec fn kind_ok(f: SearchKindFilter, is_dir: bool, kind: FileKind) -> bool {
    match f {
        SearchKindFilter::All => true,
        SearchKindFilter::Folders => is_dir,
        SearchKindFilter::Images => kind == FileKind::Image,
        SearchKindFilter::Videos => kind == FileKind::Video,
        SearchKindFilter::Text => kind == FileKind::Text,
        SearchKindFilter::Archives => kind == FileKind::Archive,
        SearchKindFilter::Code => kind == FileKind::ConfigCode,
    }
}

/// Whether a size passes the size filter; folders always do.
pub open spec fn size_ok(f: SearchSizeFilter, is_dir: bool, size: u64) -> bool {
    is_dir || match f {
        SearchSizeFilter::Any => true,
        SearchSizeFilter::Small => size < 1000000,
        SearchSizeFilter::Medium => size >= 1000000 && size < 50000000,
        SearchSizeFilter::Large => size >= 50000000,
    }
}

/// Whether an age in seconds passes the age filter.
pub open spec fn age_ok(f: SearchAgeFilter, age: int) -> bool {
    match f {
        SearchAgeFilter::Any => true,
        SearchAgeFilter::Today => age < 86400,
        SearchAgeFilter::ThisWeek => age < 7 * 86400,
        SearchAgeFilter::ThisMonth => age < 30 * 86400,
        SearchAgeFilter::Older => age >= 30 * 86400,
    }
}

/// Whether an entry of kind `kind` whose lower-cased name is `lowered`
/// matches the query: the name contains the lower-cased query text (when
/// there is one), and the entry passes the kind, size and age filters at
/// time `now_secs`.
pub open spec fn entry_matches_with(
    e: SearchEntry,
    lowered: Seq<char>,
    kind: FileKind,
    q: SearchQuery,
    name_lower: Seq<char>,
    now_secs: i64,
) -> bool {
    &&& (name_lower.len() == 0 || has_infix(lowered, name_lower))
    &&& kind_ok(q.kind, e.is_dir, kind)
    &&& size_ok(q.size, e.is_dir, e.size)
    &&& age_ok(q.age, now_secs - e.modified_secs)
}

/// Whether an entry matches, its name lower-cased by `str::to_lowercase`.
pub open spec fn entry_matches(
    e: SearchEntry,
    kind: FileKind,
    q: SearchQuery,
    name_lower: Seq<char>,
    now_secs: i64,
) -> bool {
    entry_matches_with(e, unicode_lowercase(e.fname@), kind, q, name_lower, now_secs)
}

/// The item a search lists for a matching entry: its name, path, kind and
/// sizes, openable, with no tags or mark.
pub open spec fn search_item(it: FileItem, e: SearchEntry, kind: FileKind) -> bool {
    &&& it.name@ == e.fname@
    &&& it.path@ == e.path@
    &&& it.is_dir == e.is_dir
    &&& it.is_openable
    &&& it.detail is None
    &&& it.kind == kind
    &&& it.size_bytes == (if e.is_dir {
        None
    } else {
        Some(e.size)
    })
    &&& it.modified_unix == Some(e.modified_secs)
    &&& it.tags@.len() == 0
    &&& it.mark_tint_id == 0
    &&& it.mark_tint_color is None
    &&& it.mark_shape == Shape::Circle
    &&& it.original_path is None
}

/// The listing item for a matching search entry whose name lower-cased is
/// `lowered`; `None` when it does not match.
pub fn match_entry_lowered(
    e: &SearchEntry,
    lowered: &str,
    kind: FileKind,
    query: &SearchQuery,
    query_name_lower: &str,
    now_secs: i64,
) -> (r: Option<FileItem>)
    requires
        query.age != SearchAgeFilter::Any ==> i64::MIN <= now_secs - e.modified_secs <= i64::MAX,
    ensures
        r is Some == entry_matches_with(*e, lowered@, kind, *query, query_name_lower@, now_secs),
        r matches Some(it) ==> search_item(it, *e, kind),
{
    let needle = chars_of(query_name_lower);
    if needle.len() > 0 {
        let hay = chars_of(lowered);
        if !contains_chars(&hay, &needle) {
            return None;
        }
    }
    let kind_pass = match query.kind {
        SearchKindFilter::All => true,
        SearchKindFilter::Folders => e.is_dir,
        SearchKindFilter::Images => kind == FileKind::Image,
        SearchKindFilter::Videos => kind == FileKind::Video,
        SearchKindFilter::Text => kind == FileKind::Text,
        SearchKindFilter::Archives => kind == FileKind::Archive,
        SearchKindFilter::Code => kind == FileKind::ConfigCode,
    };
    if !kind_pass {
        return None;
    }
    let size_pass = e.is_dir || match query.size {
        SearchSizeFilter::Any => true,
        SearchSizeFilter::Small => e.size < 1_000_000,
        SearchSizeFilter::Medium => e.size >= 1_000_000 && e.size < 50_000_000,
        SearchSizeFilter::Large => e.size >= 50_000_000,
    };
    if !size_pass {
        return None;
    }
    let age_pass = match query.age {
        SearchAgeFilter::Any => true,
        SearchAgeFilter::Today => now_secs - e.modified_secs < 86_400,
        SearchAgeFilter::ThisWeek => now_secs - e.modified_secs < 7 * 86_400,
        SearchAgeFilter::ThisMonth => now_secs - e.modified_secs < 30 * 86_400,
        SearchAgeFilter::Older => now_secs - e.modified_secs >= 30 * 86_400,
    };
    if !age_pass {
        return None;
    }
    Some(
        FileItem {
            name: e.fname.clone(),
            path: e.path.clone(),
            is_dir: e.is_dir,
            is_openable: true,
            detail: None,
            kind,
            size_bytes: if e.is_dir {
                None
            } else {
                Some(e.size)
            },
            modified_unix: Some(e.modified_secs),
            tags: Vec::new(),
            mark_tint_id: 0,
            mark_tint_color: None,
            mark_shape: Shape::Circle,
            original_path: None,
        },
    )
}

/// The listing item for a matching search entry, `None` when it does not
/// match. `kind` is the entry's detected kind.
pub fn match_entry(
    e: &SearchEntry,
    kind: FileKind,
    query: &SearchQuery,
    query_name_lower: &str,
    now_secs: i64,
) -> (r: Option<FileItem>)
    requires
        query.age != SearchAgeFilter::Any ==> i64::MIN <= now_secs - e.modified_secs <= i64::MAX,
    ensures
        r is Some == entry_matches(*e, kind, *query, query_name_lower@, now_secs),
        r matches Some(it) ==> search_item(it, *e, kind),
{
    let lowered = to_lowercase(e.fname.as_str());
    match_entry_lowered(e, lowered.as_str(), kind, query, query_name_lower, now_secs)
}

/// How many levels below its folder a search descends.
pub const MAX_SEARCH_DEPTH: u32 = 8;

/// How many results a search gathers at most.
pub const MAX_SEARCH_RESULTS: usize = 2000;

/// Whether a search reads the folder it reached at `depth` below its own,
/// with `found` results so far: not once cancelled, too deep or full.
pub fn search_enters_folder(cancelled: bool, depth: u32, found: usize) -> (r: bool)
    ensures
        r == (!cancelled && depth <= MAX_SEARCH_DEPTH && found < MAX_SEARCH_RESULTS),
{
    !cancelled && depth <= MAX_SEARCH_DEPTH && found < MAX_SEARCH_RESULTS
}

/// Whether a search looks at one more entry with `found` results so far.
pub fn search_takes_entry(cancelled: bool, found: usize) -> (r: bool)
    ensures
        r == (!cancelled && found < MAX_SEARCH_RESULTS),
{
    !cancelled && found < MAX_SEARCH_RESULTS
}

/// Splits the entries of one folder into files and sub-folders, each in the
/// order met, so that a search looks at a folder's files before descending.
pub fn partition_entries(entries: Vec<SearchEntry>) -> (r: (Vec<SearchEntry>, Vec<SearchEntry>))
    ensures
        r.0@ == entries@.filter(|e: SearchEntry| !e.is_dir),
        r.1@ == entries@.filter(|e: SearchEntry| e.is_dir),
{
    let mut files: Vec<SearchEntry> = Vec::new();
    let mut dirs: Vec<SearchEntry> = Vec::new();
    let mut rest = entries;
    let ghost all = rest@;
    let ghost mut k: int = 0;
    assert(all.take(0) =~= Seq::<SearchEntry>::empty());
    assert(all.skip(0) =~= all);
    reveal_with_fuel(Seq::<_>::filter, 1);
    while rest.len() > 0
        invariant
            0 <= k <= all.len(),
            rest@ == all.skip(k),
            files@ == all.take(k).filter(|e: SearchEntry| !e.is_dir),
            dirs@ == all.take(k).filter(|e: SearchEntry| e.is_dir),
        decreases rest.len(),
    {
        let e = rest.remove(0);
        proof {
            assert(e == all[k]);
            assert(rest@ =~= all.skip(k + 1));
            reveal_with_fuel(Seq::<_>::filter, 1);
            assert(all.take(k + 1).drop_last() =~= all.take(k));
            assert(all.take(k + 1).last() == e);
            k = k + 1;
        }
        if e.is_dir {
            dirs.push(e);
        } else {
            files.push(e);
        }
    }
    assert(all.take(k) =~= all);
    (files, dirs)
}


/// What the size filter adds to the other filters: a folder passes it
/// whatever its size; a file passes "< 1 MB" below 1,000,000 bytes,
/// "1–50 MB" from 1,000,000 up to below 50,000,000 bytes, "> 50 MB" from
/// 50,000,000 bytes on, and "Any Size" always.
pub proof fn lemma_size_filter(
    e: SearchEntry,
    lowered: Seq<char>,
    kind: FileKind,
    q: SearchQuery,
    name_lower: Seq<char>,
    now_secs: i64,
)
    ensures
        ({
            let open = SearchQuery { size: SearchSizeFilter::Any, ..q };
            let m = entry_matches_with(e, lowered, kind, q, name_lower, now_secs);
            let m_any = entry_matches_with(e, lowered, kind, open, name_lower, now_secs);
            &&& e.is_dir ==> (m <==> m_any)
            &&& (!e.is_dir && q.size == SearchSizeFilter::Small) ==> (m <==> (m_any && e.size < 1000000))
            &&& (!e.is_dir && q.size == SearchSizeFilter::Medium) ==> (m <==> (m_any && 1000000 <= e.size
                && e.size < 50000000))
            &&& (!e.is_dir && q.size == SearchSizeFilter::Large) ==> (m <==> (m_any && e.size >= 50000000))
            &&& q.size == SearchSizeFilter::Any ==> (m <==> m_any)
        }),
{
}

/// What the kind filter adds to the other filters: "Folders" keeps folders,
/// "Images", "Videos", "Text", "Archives" and "Code" keep entries of that
/// detected kind, and "All" keeps everything.
pub proof fn lemma_kind_filter(
    e: SearchEntry,
    lowered: Seq<char>,
    kind: FileKind,
    q: SearchQuery,
    name_lower: Seq<char>,
    now_secs: i64,
)
    ensures
        ({
            let open = SearchQuery { kind: SearchKindFilter::All, ..q };
            let m = entry_matches_with(e, lowered, kind, q, name_lower, now_secs);
            let m_all = entry_matches_with(e, lowered, kind, open, name_lower, now_secs);
            &&& q.kind == SearchKindFilter::All ==> (m <==> m_all)
            &&& q.kind == SearchKindFilter::Folders ==> (m <==> (m_all && e.is_dir))
            &&& q.kind == SearchKindFilter::Images ==> (m <==> (m_all && kind == FileKind::Image))
            &&& q.kind == SearchKindFilter::Videos ==> (m <==> (m_all && kind == FileKind::Video))
            &&& q.kind == SearchKindFilter::Text ==> (m <==> (m_all && kind == FileKind::Text))
            &&& q.kind == SearchKindFilter::Archives ==> (m <==> (m_all && kind == FileKind::Archive))
            &&& q.kind == SearchKindFilter::Code ==> (m <==> (m_all && kind == FileKind::ConfigCode))
        }),
{
}

/// What the age filter adds to the other filters, by the seconds since the
/// entry was modified: "Today" below one day, "This week" below seven days,
/// "This month" below thirty days, "Older" thirty days or more, "Any" always.
pub proof fn lemma_age_filter(
    e: SearchEntry,
    lowered: Seq<char>,
    kind: FileKind,
    q: SearchQuery,
    name_lower: Seq<char>,
    now_secs: i64,
)
    ensures
        ({
            let open = SearchQuery { age: SearchAgeFilter::Any, ..q };
            let m = entry_matches_with(e, lowered, kind, q, name_lower, now_secs);
            let m_any = entry_matches_with(e, lowered, kind, open, name_lower, now_secs);
            let age = now_secs - e.modified_secs;
            &&& q.age == SearchAgeFilter::Any ==> (m <==> m_any)
            &&& q.age == SearchAgeFilter::Today ==> (m <==> (m_any && age < 86400))
            &&& q.age == SearchAgeFilter::ThisWeek ==> (m <==> (m_any && age < 604800))
            &&& q.age == SearchAgeFilter::ThisMonth ==> (m <==> (m_any && age < 2592000))
            &&& q.age == SearchAgeFilter::Older ==> (m <==> (m_any && age >= 2592000))
        }),
{
}

/// The name part: with query text, an entry passes only when its
/// lower-cased name holds the text somewhere; with none, the name does not
/// matter.
pub proof fn lemma_name_filter(
    e: SearchEntry,
    lowered: Seq<char>,
    kind: FileKind,
    q: SearchQuery,
    name_lower: Seq<char>,
    now_secs: i64,
)
    ensures
        entry_matches_with(e, lowered, kind, q, name_lower, now_secs) <==> ((name_lower.len() == 0 || exists|i: int|
            0 <= i && i + name_lower.len() <= lowered.len() && #[trigger] lowered.subrange(i, i + name_lower.len())
                == name_lower) && entry_matches_with(e, lowered, kind, q, seq![], now_secs)),
{
}

} // verus!
