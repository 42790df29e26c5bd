//! Ordering of file listings: folders first, then by name, date, size or
//! kind, ascending or descending, stable among equal entries.
use crate::model::{kind_rank, FileItem};
use crate::text::chars_of;
use vstd::prelude::*;

verus! {

/// What a listing is ordered by.
#[derive(Clone, Copy, Debug, PartialEq, Eq, Structural)]
pub enum SortField {
    Name,
    Modified,
    Size,
    Kind,
}

/// The direction of a listing's order (folders always come first).
#[derive(Clone, Copy, Debug, PartialEq, Eq, Structural)]
pub enum SortDirection {
    Ascending,
    Descending,
}

/// What `str::to_lowercase` returns for a string (full Unicode lower-casing).
pub uninterp spec fn unicode_lowercase(s: Seq<char>) -> Seq<char>;

/// `str::to_lowercase`: the Unicode lower-case form of the text. Its result is
/// named by [`unicode_lowercase`]; the Unicode case tables are not written out.
#[verifier::external_body]
pub(crate) fn to_lowercase(s: &str) -> (r: String)
    ensures
        r@ == unicode_lowercase(s@),
{
    s.to_lowercase()
}

/// Lexicographic comparison of character sequences by code point, which is
/// also the byte order of their UTF-8 encodings (`-1`, `0` or `1`).
pub open spec fn text_order(a: Seq<char>, b: Seq<char>) -> int
    decreases a.len(),
{
    if a.len() == 0 {
        if b.len() == 0 {
            0
        } else {
            -1
        }
    } else if b.len() == 0 {
        1
    } else if a[0] < b[0] {
        -1
    } else if a[0] > b[0] {
        1
    } else {
        text_order(a.drop_first(), b.drop_first())
    }
}

/// The sort key of an item whose lower-cased name is `lowered`: folder
/// rank, a number, a text.
pub open spec fn item_key_with(it: FileItem, field: SortField, lowered: Seq<char>) -> (int, int, Seq<char>) {
    let dir: int = if it.is_dir {
        0
    } else {
        1
    };
    match field {
        SortField::Name => (dir, 0, lowered),
        SortField::Modified => (
            dir,
            match it.modified_unix {
                Some(t) => t as int,
                None => 0,
            },
            Seq::empty(),
        ),
        SortField::Size => (
            dir,
            match it.size_bytes {
                Some(s) => s as int,
                None => 0,
            },
            Seq::empty(),
        ),
        SortField::Kind => (dir, kind_rank(it.kind) as int, lowered),
    }
}

/// The sort key of an item, its name lower-cased by `str::to_lowercase`.
pub open spec fn item_key(it: FileItem, field: SortField) -> (int, int, Seq<char>) {
    item_key_with(it, field, unicode_lowercase(it.name@))
}

/// Comparison of keys: folder rank first, then number and text, the latter
/// two reversed when descending.
pub open spec fn key_order(a: (int, int, Seq<char>), b: (int, int, Seq<char>), desc: bool) -> int {
    if a.0 < b.0 {
        -1
    } else if a.0 > b.0 {
        1
    } else {
        let base = if a.1 < b.1 {
            -1
        } else if a.1 > b.1 {
            1
        } else {
            text_order(a.2, b.2)
        };
        if desc {
            -base
        } else {
            base
        }
    }
}

/// `a` may stand before `b` in a listing sorted by `field`.
pub open spec fn item_le(a: FileItem, b: FileItem, field: SortField, desc: bool) -> bool {
    key_order(item_key(a, field), item_key(b, field), desc) <= 0
}

/// Whether an item has the key `k`.
pub open spec fn key_pred(field: SortField, k: (int, int, Seq<char>)) -> spec_fn(FileItem) -> bool {
    |y: FileItem| item_key(y, field) == k
}

/// The items of `s` whose key is `k`, in order.
pub open spec fn key_class(s: Seq<FileItem>, field: SortField, k: (int, int, Seq<char>)) -> Seq<
    FileItem,
> {
    s.filter(key_pred(field, k))
}

/// `r` is `s` sorted stably by `field` in the given direction: a permutation,
/// in order, and items with equal keys keep their relative order.
pub open spec fn stably_sorted(r: Seq<FileItem>, s: Seq<FileItem>, field: SortField, desc: bool) -> bool {
    &&& r.to_multiset() == s.to_multiset()
    &&& forall|a: int, b: int|
        0 <= a < b < r.len() ==> item_le(#[trigger] r[a], #[trigger] r[b], field, desc)
    &&& forall|k: (int, int, Seq<char>)| #[trigger]
        key_class(r, field, k) == key_class(s, field, k)
}

/// Whether an element has the key `k`.
pub open spec fn key_is<T>(kf: spec_fn(T) -> (int, int, Seq<char>), k: (int, int, Seq<char>)) -> spec_fn(T) -> bool {
    |y: T| kf(y) == k
}

/// Key `a` may stand before key `b`.
pub open spec fn key_le(a: (int, int, Seq<char>), b: (int, int, Seq<char>), desc: bool) -> bool {
    key_order(a, b, desc) <= 0
}

/// `r` is `s` sorted stably by the keys `kf` in the given direction: a
/// permutation, in key order, and elements with equal keys keep their
/// relative order.
pub open spec fn keyed_sorted<T>(r: Seq<T>, s: Seq<T>, kf: spec_fn(T) -> (int, int, Seq<char>), desc: bool) -> bool {
    &&& r.to_multiset() == s.to_multiset()
    &&& forall|a: int, b: int|
        0 <= a < b < r.len() ==> key_le(kf(#[trigger] r[a]), kf(#[trigger] r[b]), desc)
    &&& forall|k: (int, int, Seq<char>)| #[trigger]
        r.filter(key_is(kf, k)) == s.filter(key_is(kf, k))
}

pub(crate) proof fn lemma_text_order_antisym(a: Seq<char>, b: Seq<char>)
    ensures
        text_order(a, b) == -text_order(b, a),
        (text_order(a, b) == 0) == (a == b),
        -1 <= text_order(a, b) <= 1,
    decreases a.len(),
{
    if a.len() > 0 && b.len() > 0 && a[0] == b[0] {
        lemma_text_order_antisym(a.drop_first(), b.drop_first());
        if a.drop_first() == b.drop_first() {
            assert(a =~= seq![a[0]] + a.drop_first());
            assert(b =~= seq![b[0]] + b.drop_first());
        }
    } else if a.len() == 0 && b.len() != 0 {
        assert(a != b);
    } else if a.len() != 0 && b.len() == 0 {
        assert(a != b);
    } else if a.len() > 0 && b.len() > 0 {
        assert(a[0] != b[0]);
        assert(a != b);
    } else {
        assert(a =~= b);
    }
}

pub(crate) proof fn lemma_text_order_trans(a: Seq<char>, b: Seq<char>, c: Seq<char>)
    requires
        text_order(a, b) <= 0,
        text_order(b, c) <= 0,
    ensures
        text_order(a, c) <= 0,
    decreases a.len(),
{
    if a.len() > 0 && b.len() > 0 && c.len() > 0 && a[0] == c[0] {
        assert(a[0] == b[0]);
        lemma_text_order_trans(a.drop_first(), b.drop_first(), c.drop_first());
    }
}

proof fn lemma_key_order_props(
    a: (int, int, Seq<char>),
    b: (int, int, Seq<char>),
    c: (int, int, Seq<char>),
    desc: bool,
)
    ensures
        key_order(a, b, desc) == -key_order(b, a, desc),
        key_order(a, a, desc) == 0,
        key_order(a, b, desc) <= 0 && key_order(b, c, desc) <= 0 ==> key_order(a, c, desc) <= 0,
{
    lemma_text_order_antisym(a.2, b.2);
    lemma_text_order_antisym(b.2, c.2);
    lemma_text_order_antisym(a.2, c.2);
    lemma_text_order_antisym(a.2, a.2);
    if text_order(a.2, b.2) <= 0 && text_order(b.2, c.2) <= 0 {
        lemma_text_order_trans(a.2, b.2, c.2);
    }
    if text_order(c.2, b.2) <= 0 && text_order(b.2, a.2) <= 0 {
        lemma_text_order_trans(c.2, b.2, a.2);
    }
}

pub(crate) proof fn lemma_filter_split<A>(s: Seq<A>, j: int, p: spec_fn(A) -> bool)
    requires
        0 <= j <= s.len(),
    ensures
        s.filter(p) == s.take(j).filter(p) + s.skip(j).filter(p),
{
    assert(s =~= s.take(j) + s.skip(j));
    Seq::filter_distributes_over_add(s.take(j), s.skip(j), p);
}

pub(crate) proof fn lemma_filter_insert<A>(s: Seq<A>, j: int, x: A, p: spec_fn(A) -> bool)
    requires
        0 <= j <= s.len(),
    ensures
        s.insert(j, x).filter(p) == s.take(j).filter(p) + seq![x].filter(p) + s.skip(j).filter(p),
{
    assert(s.insert(j, x) =~= s.take(j) + seq![x] + s.skip(j));
    Seq::filter_distributes_over_add(s.take(j) + seq![x], s.skip(j), p);
    Seq::filter_distributes_over_add(s.take(j), seq![x], p);
}

pub(crate) proof fn lemma_filter_single<A>(x: A, p: spec_fn(A) -> bool)
    ensures
        seq![x].filter(p) == (if p(x) {
            seq![x]
        } else {
            Seq::<A>::empty()
        }),
{
    reveal_with_fuel(Seq::<_>::filter, 2);
    assert(seq![x].drop_last() =~= Seq::<A>::empty());
}

/// A computed sort key.
struct SortKey {
    dir: u8,
    num: i128,
    text: Vec<char>,
}

spec fn kview(k: SortKey) -> (int, int, Seq<char>) {
    (k.dir as int, k.num as int, k.text@)
}

fn make_key(it: &FileItem, field: SortField) -> (k: SortKey)
    ensures
        kview(k) == item_key(*it, field),
{
    let dir: u8 = if it.is_dir {
        0
    } else {
        1
    };
    match field {
        SortField::Name => {
            let lower = to_lowercase(it.name.as_str());
            SortKey { dir, num: 0, text: chars_of(lower.as_str()) }
        },
        SortField::Modified => {
            let t: i128 = match it.modified_unix {
                Some(t) => t as i128,
                None => 0,
            };
            SortKey { dir, num: t, text: Vec::new() }
        },
        SortField::Size => {
            let s: i128 = match it.size_bytes {
                Some(s) => s as i128,
                None => 0,
            };
            SortKey { dir, num: s, text: Vec::new() }
        },
        SortField::Kind => {
            let lower = to_lowercase(it.name.as_str());
            SortKey { dir, num: it.kind.sort_key() as i128, text: chars_of(lower.as_str()) }
        },
    }
}

pub(crate) fn text_order_exec(a: &Vec<char>, b: &Vec<char>) -> (r: i8)
    ensures
        r as int == text_order(a@, b@),
{
    let mut i: usize = 0;
    assert(a@.skip(0) =~= a@);
    assert(b@.skip(0) =~= b@);
    while i < a.len() && i < b.len()
        invariant
            i <= a.len(),
            i <= b.len(),
            text_order(a@, b@) == text_order(a@.skip(i as int), b@.skip(i as int)),
        decreases a.len() - i,
    {
        let ghost sa = a@.skip(i as int);
        let ghost sb = b@.skip(i as int);
        assert(sa[0] == a@[i as int]);
        assert(sb[0] == b@[i as int]);
        if a[i] < b[i] {
            return -1;
        }
        if a[i] > b[i] {
            return 1;
        }
        assert(sa.drop_first() =~= a@.skip(i + 1));
        assert(sb.drop_first() =~= b@.skip(i + 1));
        i = i + 1;
    }
    if i == a.len() && i == b.len() {
        assert(a@.skip(i as int).len() == 0);
        0
    } else if i == a.len() {
        assert(a@.skip(i as int).len() == 0);
        -1
    } else {
        assert(b@.skip(i as int).len() == 0);
        1
    }
}

fn key_order_exec(a: &SortKey, b: &SortKey, desc: bool) -> (r: i8)
    ensures
        r as int == key_order(kview(*a), kview(*b), desc),
{
    if a.dir < b.dir {
        return -1;
    }
    if a.dir > b.dir {
        return 1;
    }
    let base: i8 = if a.num < b.num {
        -1
    } else if a.num > b.num {
        1
    } else {
        proof {
            lemma_text_order_antisym(a.text@, b.text@);
        }
        text_order_exec(&a.text, &b.text)
    };
    if desc {
        -base
    } else {
        base
    }
}

/// Stable insertion sort of `v` by the keys `ks` (`ks[i]` the key of
/// `v[i]`).
fn sort_keyed<T>(v: Vec<T>, ks: Vec<SortKey>, Ghost(kf): Ghost<spec_fn(T) -> (int, int, Seq<char>)>, desc: bool) -> (r:
    Vec<T>)
    requires
        ks@.len() == v@.len(),
        forall|i: int| 0 <= i < v@.len() ==> kview(#[trigger] ks@[i]) == kf(v@[i]),
    ensures
        keyed_sorted(r@, v@, kf, desc),
{
    let mut input = v;
    let mut kin = ks;
    let ghost orig = input@;
    let mut out: Vec<T> = Vec::new();
    let mut keys: Vec<SortKey> = Vec::new();
    let ghost mut done: int = 0;
    assert(orig.skip(0) =~= orig);
    assert(orig.take(0) =~= out@);
    while input.len() > 0
        invariant
            0 <= done <= orig.len(),
            input@ == orig.skip(done),
            kin@.len() == input@.len(),
            forall|i: int| 0 <= i < input@.len() ==> kview(#[trigger] kin@[i]) == kf(input@[i]),
            out.len() == done,
            keys.len() == out.len(),
            forall|t: int| 0 <= t < out.len() ==> kview(#[trigger] keys@[t]) == kf(out@[t]),
            out@.to_multiset() == orig.take(done).to_multiset(),
            forall|a: int, b: int|
                0 <= a < b < out.len() ==> key_le(kf(#[trigger] out@[a]), kf(#[trigger] out@[b]), desc),
            forall|k: (int, int, Seq<char>)| #[trigger]
                out@.filter(key_is(kf, k)) == orig.take(done).filter(key_is(kf, k)),
        decreases input.len(),
    {
        let ghost in0 = input@;
        let ghost k0 = kin@;
        let x = input.remove(0);
        let kx = kin.remove(0);
        assert(kview(kx) == kf(x)) by {
            assert(kview(k0[0]) == kf(in0[0]));
        }
        assert forall|i: int| 0 <= i < input@.len() implies kview(#[trigger] kin@[i]) == kf(input@[i]) by {
            assert(kin@[i] == k0[i + 1]);
            assert(input@[i] == in0[i + 1]);
        }
        assert(x == orig[done]);
        assert(input@ =~= orig.skip(done + 1));
        let mut j: usize = 0;
        while j < out.len() && key_order_exec(&keys[j], &kx, desc) <= 0
            invariant
                j <= out.len(),
                keys.len() == out.len(),
                forall|t: int| 0 <= t < out.len() ==> kview(#[trigger] keys@[t]) == kf(out@[t]),
                kview(kx) == kf(x),
                forall|t: int| 0 <= t < j ==> key_le(kf(#[trigger] out@[t]), kf(x), desc),
            decreases out.len() - j,
        {
            j = j + 1;
        }
        let ghost old_out = out@;
        proof {
            if j < out.len() {
                assert(kview(keys@[j as int]) == kf(out@[j as int]));
            }
            assert forall|t: int| j <= t < old_out.len() implies !key_le(kf(#[trigger] old_out[t]), kf(x), desc) && key_le(kf(x), kf(old_out[t]), desc) by {
                let kj = kf(old_out[j as int]);
                let kt = kf(old_out[t]);
                let kxx = kf(x);
                lemma_key_order_props(kj, kt, kxx, desc);
                lemma_key_order_props(kxx, kj, kt, desc);
                if t > j {
                    assert(key_le(kf(old_out[j as int]), kf(old_out[t]), desc));
                }
            }
        }
        out.insert(j, x);
        keys.insert(j, kx);
        proof {
            let newo = out@;
            assert(newo == old_out.insert(j as int, x));
            assert forall|t: int| 0 <= t < newo.len() implies kview(#[trigger] keys@[t])
                == kf(newo[t]) by {
                if t < j {
                } else if t == j {
                } else {
                    assert(newo[t] == old_out[t - 1]);
                }
            }
            vstd::seq_lib::to_multiset_insert(old_out, j as int, x);
            assert(orig.take(done + 1) =~= orig.take(done).push(x));
            vstd::seq_lib::to_multiset_build(orig.take(done), x);
            assert forall|a: int, b: int| 0 <= a < b < newo.len() implies key_le(kf(#[trigger] newo[a]), kf(#[trigger] newo[b]), desc) by {
                let kx2 = kf(x);
                if b < j {
                    assert(key_le(kf(old_out[a]), kf(old_out[b]), desc));
                } else if b == j {
                    assert(key_le(kf(old_out[a]), kf(x), desc));
                } else if a < j {
                    let ka = kf(old_out[a]);
                    let kb = kf(old_out[b - 1]);
                    lemma_key_order_props(ka, kx2, kb, desc);
                    assert(key_le(kf(old_out[a]), kf(x), desc));
                    assert(key_le(kf(x), kf(old_out[b - 1]), desc));
                } else if a == j {
                    assert(key_le(kf(x), kf(old_out[b - 1]), desc));
                } else {
                    assert(key_le(kf(old_out[a - 1]), kf(old_out[b - 1]), desc));
                }
            }
            assert forall|k: (int, int, Seq<char>)| #[trigger]
                newo.filter(key_is(kf, k)) == orig.take(done + 1).filter(key_is(kf, k)) by {
                let p = key_is(kf, k);
                let prev = orig.take(done);
                assert(old_out.filter(p) == prev.filter(p));
                lemma_filter_insert(old_out, j as int, x, p);
                lemma_filter_split(old_out, j as int, p);
                lemma_filter_single(x, p);
                let a = old_out.take(j as int).filter(p);
                let rest = old_out.skip(j as int);
                assert(orig.take(done + 1).filter(p) == (if p(x) {
                    prev.filter(p).push(x)
                } else {
                    prev.filter(p)
                })) by {
                    reveal_with_fuel(Seq::<_>::filter, 1);
                    assert(orig.take(done + 1).drop_last() =~= prev);
                    assert(orig.take(done + 1).last() == x);
                }
                if p(x) {
                    assert forall|t: int| 0 <= t < rest.len() implies !p(#[trigger] rest[t]) by {
                        assert(rest[t] == old_out[j + t]);
                        assert(!key_le(kf(old_out[j + t]), kf(x), desc));
                        lemma_key_order_props(
                            kf(x),
                            kf(x),
                            kf(x),
                            desc,
                        );
                    }
                    rest.lemma_all_neg_filter_empty(p);
                    assert(rest.filter(p) =~= Seq::<T>::empty());
                    assert(newo.filter(p) =~= a + seq![x]);
                    assert(prev.filter(p) =~= a);
                } else {
                    assert(newo.filter(p) =~= a + rest.filter(p));
                }
            }
        }
        proof {
            done = done + 1;
        }
    }
    assert(orig.take(done) =~= orig);
    out
}

proof fn lemma_keyed_is_stable(r: Seq<FileItem>, s: Seq<FileItem>, field: SortField, desc: bool)
    requires
        keyed_sorted(r, s, |x: FileItem| item_key(x, field), desc),
    ensures
        stably_sorted(r, s, field, desc),
{
    let kf = |x: FileItem| item_key(x, field);
    assert forall|k: (int, int, Seq<char>)| #[trigger] key_class(r, field, k) == key_class(s, field, k) by {
        assert(key_pred(field, k) =~= key_is(kf, k));
        assert(r.filter(key_is(kf, k)) == s.filter(key_is(kf, k)));
    }
}

/// Sorts a listing in place: folders before files, then by `field` in the
/// given direction; items that compare equal keep their order.
pub fn sort_items_with(items: &mut Vec<FileItem>, field: SortField, direction: SortDirection)
    ensures
        stably_sorted(final(items)@, old(items)@, field, direction == SortDirection::Descending),
{
    let desc = match direction {
        SortDirection::Ascending => false,
        SortDirection::Descending => true,
    };
    let mut input: Vec<FileItem> = Vec::new();
    std::mem::swap(&mut input, items);
    let mut ks: Vec<SortKey> = Vec::new();
    let mut i: usize = 0;
    while i < input.len()
        invariant
            i <= input@.len(),
            ks@.len() == i,
            forall|t: int| 0 <= t < i ==> kview(#[trigger] ks@[t]) == item_key(input@[t], field),
        decreases input.len() - i,
    {
        ks.push(make_key(&input[i], field));
        i = i + 1;
    }
    let ghost kf = |x: FileItem| item_key(x, field);
    let ghost orig = input@;
    let sorted = sort_keyed(input, ks, Ghost(kf), desc);
    proof {
        lemma_keyed_is_stable(sorted@, orig, field, desc);
    }
    *items = sorted;
}

/// An item together with its name lower-cased, the key by which names
/// order.
pub open spec fn named_key(p: (FileItem, String), field: SortField) -> (int, int, Seq<char>) {
    item_key_with(p.0, field, p.1@)
}

fn key_with(it: &FileItem, lowered: &String, field: SortField) -> (k: SortKey)
    ensures
        kview(k) == item_key_with(*it, field, lowered@),
{
    let dir: u8 = if it.is_dir {
        0
    } else {
        1
    };
    match field {
        SortField::Name => SortKey { dir, num: 0, text: chars_of(lowered.as_str()) },
        SortField::Modified => {
            let t: i128 = match it.modified_unix {
                Some(t) => t as i128,
                None => 0,
            };
            SortKey { dir, num: t, text: Vec::new() }
        },
        SortField::Size => {
            let s: i128 = match it.size_bytes {
                Some(s) => s as i128,
                None => 0,
            };
            SortKey { dir, num: s, text: Vec::new() }
        },
        SortField::Kind => SortKey { dir, num: it.kind.sort_key() as i128, text: chars_of(lowered.as_str()) },
    }
}

/// Sorts items given with their lower-cased names: folders before files,
/// then by `field` in the given direction, names compared by the given
/// lower-cased text; entries that compare equal keep their order.
pub fn sort_named_items(entries: Vec<(FileItem, String)>, field: SortField, direction: SortDirection) -> (r: Vec<
    (FileItem, String),
>)
    ensures
        keyed_sorted(r@, entries@, |p: (FileItem, String)| named_key(p, field), direction == SortDirection::Descending),
{
    let desc = match direction {
        SortDirection::Ascending => false,
        SortDirection::Descending => true,
    };
    let mut ks: Vec<SortKey> = Vec::new();
    let mut i: usize = 0;
    while i < entries.len()
        invariant
            i <= entries@.len(),
            ks@.len() == i,
            forall|t: int| 0 <= t < i ==> kview(#[trigger] ks@[t]) == named_key(entries@[t], field),
        decreases entries.len() - i,
    {
        ks.push(key_with(&entries[i].0, &entries[i].1, field));
        i = i + 1;
    }
    sort_keyed(entries, ks, Ghost(|p: (FileItem, String)| named_key(p, field)), desc)
}

/// Sorts a listing by name, ascending, folders first.
pub fn sort_items(items: &mut Vec<FileItem>)
    ensures
        stably_sorted(final(items)@, old(items)@, SortField::Name, false),
{
    sort_items_with(items, SortField::Name, SortDirection::Ascending);
}


/// The size an item is ordered by: its size, or 0 when unknown.
pub open spec fn size_or_zero(it: FileItem) -> int {
    match it.size_bytes {
        Some(x) => x as int,
        None => 0,
    }
}

/// The time an item is ordered by: its modification time, or 0 when unknown.
pub open spec fn time_or_zero(it: FileItem) -> int {
    match it.modified_unix {
        Some(t) => t as int,
        None => 0,
    }
}

/// A listing sorted by size puts folders first and, within folders and
/// within files, smaller items before larger ones when ascending and larger
/// before smaller when descending.
pub proof fn lemma_sorted_by_size(r: Seq<FileItem>, s: Seq<FileItem>, desc: bool)
    requires
        stably_sorted(r, s, SortField::Size, desc),
    ensures
        forall|a: int, b: int| 0 <= a < b < r.len() ==> (#[trigger] r[a]).is_dir || !(#[trigger] r[b]).is_dir,
        forall|a: int, b: int|
            0 <= a < b < r.len() && (#[trigger] r[a]).is_dir == (#[trigger] r[b]).is_dir ==> (if desc {
                size_or_zero(r[a]) >= size_or_zero(r[b])
            } else {
                size_or_zero(r[a]) <= size_or_zero(r[b])
            }),
{
    assert forall|a: int, b: int| 0 <= a < b < r.len() implies ((#[trigger] r[a]).is_dir || !(#[trigger] r[b]).is_dir)
        && (r[a].is_dir == r[b].is_dir ==> (if desc {
        size_or_zero(r[a]) >= size_or_zero(r[b])
    } else {
        size_or_zero(r[a]) <= size_or_zero(r[b])
    })) by {
        assert(item_le(r[a], r[b], SortField::Size, desc));
    }
}

/// A listing sorted by modification time puts folders first and, within
/// folders and within files, older items first when ascending and newer
/// first when descending.
pub proof fn lemma_sorted_by_time(r: Seq<FileItem>, s: Seq<FileItem>, desc: bool)
    requires
        stably_sorted(r, s, SortField::Modified, desc),
    ensures
        forall|a: int, b: int| 0 <= a < b < r.len() ==> (#[trigger] r[a]).is_dir || !(#[trigger] r[b]).is_dir,
        forall|a: int, b: int|
            0 <= a < b < r.len() && (#[trigger] r[a]).is_dir == (#[trigger] r[b]).is_dir ==> (if desc {
                time_or_zero(r[a]) >= time_or_zero(r[b])
            } else {
                time_or_zero(r[a]) <= time_or_zero(r[b])
            }),
{
    assert forall|a: int, b: int| 0 <= a < b < r.len() implies ((#[trigger] r[a]).is_dir || !(#[trigger] r[b]).is_dir)
        && (r[a].is_dir == r[b].is_dir ==> (if desc {
        time_or_zero(r[a]) >= time_or_zero(r[b])
    } else {
        time_or_zero(r[a]) <= time_or_zero(r[b])
    })) by {
        assert(item_le(r[a], r[b], SortField::Modified, desc));
    }
}

/// A listing sorted by kind puts folders first and, within folders and
/// within files, orders kinds by their rank (reversed when descending).
pub proof fn lemma_sorted_by_kind(r: Seq<FileItem>, s: Seq<FileItem>, desc: bool)
    requires
        stably_sorted(r, s, SortField::Kind, desc),
    ensures
        forall|a: int, b: int| 0 <= a < b < r.len() ==> (#[trigger] r[a]).is_dir || !(#[trigger] r[b]).is_dir,
        forall|a: int, b: int|
            0 <= a < b < r.len() && (#[trigger] r[a]).is_dir == (#[trigger] r[b]).is_dir ==> (if desc {
                kind_rank(r[a].kind) >= kind_rank(r[b].kind)
            } else {
                kind_rank(r[a].kind) <= kind_rank(r[b].kind)
            }),
{
    assert forall|a: int, b: int| 0 <= a < b < r.len() implies ((#[trigger] r[a]).is_dir || !(#[trigger] r[b]).is_dir)
        && (r[a].is_dir == r[b].is_dir ==> (if desc {
        kind_rank(r[a].kind) >= kind_rank(r[b].kind)
    } else {
        kind_rank(r[a].kind) <= kind_rank(r[b].kind)
    })) by {
        assert(item_le(r[a], r[b], SortField::Kind, desc));
    }
}

/// Items sorted with given lower-cased names by size follow the same order:
/// folders first, then by size, ascending or descending.
pub proof fn lemma_named_sorted_by_size(r: Seq<(FileItem, String)>, s: Seq<(FileItem, String)>, desc: bool)
    requires
        keyed_sorted(r, s, |p: (FileItem, String)| named_key(p, SortField::Size), desc),
    ensures
        forall|a: int, b: int| 0 <= a < b < r.len() ==> (#[trigger] r[a]).0.is_dir || !(#[trigger] r[b]).0.is_dir,
        forall|a: int, b: int|
            0 <= a < b < r.len() && (#[trigger] r[a]).0.is_dir == (#[trigger] r[b]).0.is_dir ==> (if desc {
                size_or_zero(r[a].0) >= size_or_zero(r[b].0)
            } else {
                size_or_zero(r[a].0) <= size_or_zero(r[b].0)
            }),
{
    let kf = |p: (FileItem, String)| named_key(p, SortField::Size);
    assert forall|a: int, b: int| 0 <= a < b < r.len() implies ((#[trigger] r[a]).0.is_dir || !(
    #[trigger] r[b]).0.is_dir) && (r[a].0.is_dir == r[b].0.is_dir ==> (if desc {
        size_or_zero(r[a].0) >= size_or_zero(r[b].0)
    } else {
        size_or_zero(r[a].0) <= size_or_zero(r[b].0)
    })) by {
        assert(key_le(kf(r[a]), kf(r[b]), desc));
    }
}


/// A listing sorted by name puts folders first and, within folders and
/// within files, orders lower-cased names by code point (reversed when
/// descending).
pub proof fn lemma_sorted_by_name(r: Seq<FileItem>, s: Seq<FileItem>, desc: bool)
    requires
        stably_sorted(r, s, SortField::Name, desc),
    ensures
        forall|a: int, b: int| 0 <= a < b < r.len() ==> (#[trigger] r[a]).is_dir || !(#[trigger] r[b]).is_dir,
        forall|a: int, b: int|
            0 <= a < b < r.len() && (#[trigger] r[a]).is_dir == (#[trigger] r[b]).is_dir ==> (if desc {
                text_order(unicode_lowercase(r[a].name@), unicode_lowercase(r[b].name@)) >= 0
            } else {
                text_order(unicode_lowercase(r[a].name@), unicode_lowercase(r[b].name@)) <= 0
            }),
{
    assert forall|a: int, b: int| 0 <= a < b < r.len() implies ((#[trigger] r[a]).is_dir || !(#[trigger] r[b]).is_dir)
        && (r[a].is_dir == r[b].is_dir ==> (if desc {
        text_order(unicode_lowercase(r[a].name@), unicode_lowercase(r[b].name@)) >= 0
    } else {
        text_order(unicode_lowercase(r[a].name@), unicode_lowercase(r[b].name@)) <= 0
    })) by {
        assert(item_le(r[a], r[b], SortField::Name, desc));
    }
}

} // verus!
