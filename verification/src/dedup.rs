//! Duplicate detection: files of equal size whose whole contents hash alike
//! under 64-bit FNV-1a.
use vstd::prelude::*;

verus! {

/// The FNV-1a offset basis: the hash of no bytes.
pub const FNV_OFFSET_BASIS: u64 = 14695981039346656037u64;

/// The FNV-1a prime.
pub const FNV_PRIME: u64 = 1099511628211u64;

/// One FNV-1a step: xor in the byte, multiply by the prime modulo 2^64.
pub open spec fn fnv_step(h: u64, b: u8) -> u64 {
    (((h ^ (b as u64)) as nat * FNV_PRIME as nat) % 0x1_0000_0000_0000_0000) as u64
}

/// The FNV-1a hash of `data` started from state `h`.
pub open spec fn fnv(h: u64, data: Seq<u8>) -> u64
    decreases data.len(),
{
    if data.len() == 0 {
        h
    } else {
        fnv(fnv_step(h, data[0]), data.drop_first())
    }
}

/// Continues an FNV-1a hash over more bytes.
pub fn fnv1a_continue(hash: u64, data: &[u8]) -> (r: u64)
    ensures
        r == fnv(hash, data@),
{
    let mut h = hash;
    let mut i: usize = 0;
    assert(data@.skip(0) =~= data@);
    while i < data.len()
        invariant
            i <= data.len(),
            fnv(hash, data@) == fnv(h, data@.skip(i as int)),
        decreases data.len() - i,
    {
        let b = data[i];
        assert(data@.skip(i as int)[0] == b);
        assert(data@.skip(i as int).drop_first() =~= data@.skip(i + 1));
        h = (h ^ (b as u64)).wrapping_mul(FNV_PRIME);
        i = i + 1;
    }
    h
}

/// Hashing in chunks gives the hash of the whole: feeding `a` then `b`
/// equals feeding `a + b`. This is what lets a file be hashed one buffer at
/// a time.
pub proof fn lemma_fnv_chunks(h: u64, a: Seq<u8>, b: Seq<u8>)
    ensures
        fnv(fnv(h, a), b) == fnv(h, a + b),
    decreases a.len(),
{
    if a.len() > 0 {
        assert((a + b).drop_first() =~= a.drop_first() + b);
        assert((a + b)[0] == a[0]);
        lemma_fnv_chunks(fnv_step(h, a[0]), a.drop_first(), b);
    } else {
        assert(a + b =~= b);
    }
}

/// A directory entry as seen by duplicate detection.
#[derive(Clone, Debug)]
pub struct SizedEntry {
    pub path: String,
    pub is_dir: bool,
    pub size: u64,
}

/// Only non-empty regular files take part.
pub open spec fn eligible(e: SizedEntry) -> bool {
    !e.is_dir && e.size > 0
}

/// Entry `i` shares its size with another eligible entry.
pub open spec fn size_shared(es: Seq<SizedEntry>, i: int) -> bool {
    eligible(es[i]) && exists|j: int|
        0 <= j < es.len() && j != i && eligible(#[trigger] es[j]) && es[j].size == es[i].size
}

/// Entry `i` has the size and content hash of another eligible entry.
pub open spec fn is_duplicate(es: Seq<SizedEntry>, hs: Seq<Option<u64>>, i: int) -> bool {
    &&& eligible(es[i])
    &&& hs[i] is Some
    &&& exists|j: int|
        0 <= j < es.len() && j != i && eligible(#[trigger] es[j]) && es[j].size == es[i].size
            && hs[j] == hs[i]
}

/// The indices of the entries whose contents need hashing: eligible files
/// whose size another eligible file shares.
pub fn duplicate_candidates(entries: &Vec<SizedEntry>) -> (r: Vec<usize>)
    ensures
        forall|k: int| 0 <= k < r.len() ==> r@[k] < entries.len() && size_shared(entries@, #[trigger] r@[k] as int),
        forall|i: int| 0 <= i < entries.len() && size_shared(entries@, i) ==> #[trigger] r@.contains(i as usize),
        forall|a: int, b: int| 0 <= a < b < r.len() ==> r@[a] < r@[b],
{
    let mut r: Vec<usize> = Vec::new();
    let mut i: usize = 0;
    while i < entries.len()
        invariant
            i <= entries.len(),
            forall|k: int| 0 <= k < r.len() ==> r@[k] < i && size_shared(entries@, #[trigger] r@[k] as int),
            forall|t: int| 0 <= t < i && size_shared(entries@, t) ==> #[trigger] r@.contains(t as usize),
            forall|a: int, b: int| 0 <= a < b < r.len() ==> r@[a] < r@[b],
        decreases entries.len() - i,
    {
        let e = &entries[i];
        let mut shared = false;
        if !e.is_dir && e.size > 0 {
            let mut j: usize = 0;
            while j < entries.len()
                invariant
                    j <= entries.len(),
                    i < entries.len(),
                    eligible(entries@[i as int]),
                    shared ==> size_shared(entries@, i as int),
                    !shared ==> forall|t: int| 0 <= t < j && t != i ==> !(eligible(#[trigger] entries@[t]) && entries@[t].size == entries@[i as int].size),
                decreases entries.len() - j,
            {
                if j != i && !entries[j].is_dir && entries[j].size > 0 && entries[j].size == entries[i].size {
                    shared = true;
                }
                j = j + 1;
            }
        }
        let ghost before = r@;
        if shared {
            r.push(i);
            assert(r@[r.len() - 1] == i);
        }
        assert forall|t: int| 0 <= t < i + 1 && size_shared(entries@, t) implies #[trigger] r@.contains(t as usize) by {
            if t < i {
                assert(before.contains(t as usize));
                let k = choose|k: int| 0 <= k < before.len() && before[k] == t as usize;
                assert(r@[k] == t as usize);
            } else {
                assert(r@[r.len() - 1] == i);
            }
        }
        i = i + 1;
    }
    r
}

/// The indices of the duplicate files, in entry order, given the content
/// hash of each entry (`None` where it was not or could not be computed).
pub fn duplicates_from_hashes(entries: &Vec<SizedEntry>, hashes: &Vec<Option<u64>>) -> (r: Vec<usize>)
    requires
        hashes.len() == entries.len(),
    ensures
        forall|k: int| 0 <= k < r.len() ==> r@[k] < entries.len() && is_duplicate(entries@, hashes@, #[trigger] r@[k] as int),
        forall|i: int| 0 <= i < entries.len() && is_duplicate(entries@, hashes@, i) ==> #[trigger] r@.contains(i as usize),
        forall|a: int, b: int| 0 <= a < b < r.len() ==> r@[a] < r@[b],
{
    let mut r: Vec<usize> = Vec::new();
    let mut i: usize = 0;
    while i < entries.len()
        invariant
            i <= entries.len(),
            hashes.len() == entries.len(),
            forall|k: int| 0 <= k < r.len() ==> r@[k] < i && is_duplicate(entries@, hashes@, #[trigger] r@[k] as int),
            forall|t: int| 0 <= t < i && is_duplicate(entries@, hashes@, t) ==> #[trigger] r@.contains(t as usize),
            forall|a: int, b: int| 0 <= a < b < r.len() ==> r@[a] < r@[b],
        decreases entries.len() - i,
    {
        let mut dup = false;
        if !entries[i].is_dir && entries[i].size > 0 && hashes[i].is_some() {
            let mut j: usize = 0;
            while j < entries.len()
                invariant
                    j <= entries.len(),
                    i < entries.len(),
                    hashes.len() == entries.len(),
                    eligible(entries@[i as int]),
                    hashes@[i as int] is Some,
                    dup ==> is_duplicate(entries@, hashes@, i as int),
                    !dup ==> forall|t: int| 0 <= t < j && t != i ==> !(eligible(#[trigger] entries@[t]) && entries@[t].size == entries@[i as int].size && hashes@[t] == hashes@[i as int]),
                decreases entries.len() - j,
            {
                if j != i && !entries[j].is_dir && entries[j].size > 0 && entries[j].size == entries[i].size {
                    match (hashes[j], hashes[i]) {
                        (Some(a), Some(b)) => {
                            if a == b {
                                dup = true;
                            }
                        },
                        _ => {},
                    }
                }
                j = j + 1;
            }
        }
        let ghost before = r@;
        if dup {
            r.push(i);
            assert(r@[r.len() - 1] == i);
        }
        assert forall|t: int| 0 <= t < i + 1 && is_duplicate(entries@, hashes@, t) implies #[trigger] r@.contains(t as usize) by {
            if t < i {
                assert(before.contains(t as usize));
                let k = choose|k: int| 0 <= k < before.len() && before[k] == t as usize;
                assert(r@[k] == t as usize);
            } else {
                assert(r@[r.len() - 1] == i);
            }
        }
        i = i + 1;
    }
    r
}

} // verus!
