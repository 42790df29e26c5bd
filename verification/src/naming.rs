//! Names for new, copied and duplicated items that avoid the names already
//! taken in the destination folder.
use crate::clipboard::texts;
use crate::number::{decimal, lemma_decimal_injective, lemma_decimal_nonempty, push_decimal};
use crate::path::{
    extension, file_stem, join, parent, path_extension, path_file_stem, path_join, path_parent,
};
use crate::text::{append_chars, chars_eq, chars_of, push_str, string_of};
use vstd::prelude::*;
use vstd::set_lib::lemma_len_subset;

verus! {

/// `head` for the first attempt, then `head`, a space and the attempt number:
/// "New Folder", "New Folder 2", "New Folder 3", ...
pub open spec fn counted_name(head: Seq<char>, n: nat, sfx: Seq<char>) -> Seq<char> {
    if n <= 1 {
        head + sfx
    } else {
        head + seq![' '] + decimal(n) + sfx
    }
}

/// `stem (n)` followed by the suffix: "report (2).pdf".
pub open spec fn paren_name(stem: Seq<char>, n: nat, sfx: Seq<char>) -> Seq<char> {
    stem + seq![' ', '('] + decimal(n) + seq![')'] + sfx
}

/// `n` is the first attempt, from `lo` on, whose name is not taken.
pub open spec fn least_free(f: spec_fn(nat) -> Seq<char>, lo: nat, n: nat, taken: Seq<Seq<char>>) -> bool {
    &&& lo <= n
    &&& !taken.contains(f(n))
    &&& forall|k: nat| lo <= k < n ==> taken.contains(#[trigger] f(k))
}

/// Different attempts give different counted names.
pub proof fn lemma_counted_injective(head: Seq<char>, sfx: Seq<char>, a: nat, b: nat)
    requires
        1 <= a,
        1 <= b,
        counted_name(head, a, sfx) == counted_name(head, b, sfx),
    ensures
        a == b,
{
    lemma_decimal_nonempty(a);
    lemma_decimal_nonempty(b);
    let x = counted_name(head, a, sfx);
    let y = counted_name(head, b, sfx);
    let h = head.len() as int;
    let da = decimal(a);
    let db = decimal(b);
    assert(x.len() == y.len());
    assert(a > 1 ==> x.len() == h + 1 + da.len() + sfx.len());
    assert(b > 1 ==> y.len() == h + 1 + db.len() + sfx.len());
    assert(a <= 1 ==> x.len() == h + sfx.len());
    assert(b <= 1 ==> y.len() == h + sfx.len());
    if a > 1 && b > 1 {
        assert(da.len() == db.len());
        assert(x.subrange(h + 1, h + 1 + da.len()) =~= da);
        assert(counted_name(head, b, sfx).subrange(h + 1, h + 1 + db.len()) =~= db);
        lemma_decimal_injective(a, b);
    }
}

/// Different attempts give different parenthesised names.
pub proof fn lemma_paren_injective(stem: Seq<char>, sfx: Seq<char>, a: nat, b: nat)
    requires
        paren_name(stem, a, sfx) == paren_name(stem, b, sfx),
    ensures
        a == b,
{
    let da = decimal(a);
    let db = decimal(b);
    let h = stem.len() as int;
    assert(paren_name(stem, a, sfx).len() == h + 3 + da.len() + sfx.len());
    assert(paren_name(stem, b, sfx).len() == h + 3 + db.len() + sfx.len());
    assert(da.len() == db.len());
    assert(paren_name(stem, a, sfx).subrange(h + 2, h + 2 + da.len()) =~= da);
    assert(paren_name(stem, b, sfx).subrange(h + 2, h + 2 + db.len()) =~= db);
    lemma_decimal_injective(a, b);
}

/// When the names of attempts `lo..n` are distinct and all taken, there
/// are at least as many taken names as attempts.
proof fn lemma_tries_bounded(f: spec_fn(nat) -> Seq<char>, lo: nat, n: nat, taken: Seq<Seq<char>>)
    requires
        lo <= n,
        forall|a: nat, b: nat| lo <= a < b < n ==> #[trigger] f(a) != #[trigger] f(b),
        forall|k: nat| lo <= k < n ==> taken.contains(#[trigger] f(k)),
    ensures
        n - lo <= taken.len(),
{
    let tried = Seq::new((n - lo) as nat, |i: int| f((lo + i) as nat));
    assert forall|i: int, j: int| 0 <= i < tried.len() && 0 <= j < tried.len() && i != j implies tried[i]
        != tried[j] by {
        if i < j {
            assert(f((lo + i) as nat) != f((lo + j) as nat));
        } else {
            assert(f((lo + j) as nat) != f((lo + i) as nat));
        }
    }
    assert(tried.no_duplicates());
    tried.unique_seq_to_set();
    assert forall|x: Seq<char>| tried.to_set().contains(x) implies taken.to_set().contains(x) by {
        let i = choose|i: int| 0 <= i < tried.len() && tried[i] == x;
        assert(taken.contains(f((lo + i) as nat)));
    }
    taken.lemma_cardinality_of_set();
    lemma_len_subset(tried.to_set(), taken.to_set());
}

/// Whether `name` is one of the taken names.
pub(crate) fn is_taken(name: &Vec<char>, taken: &Vec<String>) -> (r: bool)
    ensures
        r == texts(taken@).contains(name@),
{
    let mut i: usize = 0;
    while i < taken.len()
        invariant
            i <= taken.len(),
            forall|j: int| 0 <= j < i ==> texts(taken@)[j] != name@,
        decreases taken.len() - i,
    {
        let t = chars_of(taken[i].as_str());
        assert(texts(taken@)[i as int] == t@);
        if chars_eq(&t, name) {
            return true;
        }
        i = i + 1;
    }
    false
}

fn counted_vec(head: &Vec<char>, n: u128, sfx: &Vec<char>) -> (r: Vec<char>)
    ensures
        r@ == counted_name(head@, n as nat, sfx@),
{
    let mut out: Vec<char> = Vec::new();
    append_chars(&mut out, head);
    if n > 1 {
        out.push(' ');
        push_decimal(&mut out, n);
    }
    append_chars(&mut out, sfx);
    assert(out@ =~= counted_name(head@, n as nat, sfx@));
    out
}

fn paren_vec(stem: &Vec<char>, n: u128, sfx: &Vec<char>) -> (r: Vec<char>)
    ensures
        r@ == paren_name(stem@, n as nat, sfx@),
{
    let mut out: Vec<char> = Vec::new();
    append_chars(&mut out, stem);
    out.push(' ');
    out.push('(');
    push_decimal(&mut out, n);
    out.push(')');
    append_chars(&mut out, sfx);
    assert(out@ =~= paren_name(stem@, n as nat, sfx@));
    out
}

/// The first counted name, from the first attempt on, that is not taken.
fn first_free_counted(head: &Vec<char>, sfx: &Vec<char>, taken: &Vec<String>) -> (r: Vec<char>)
    ensures
        exists|n: nat|
            least_free(|k: nat| counted_name(head@, k, sfx@), 1, n, texts(taken@)) && r@
                == counted_name(head@, n, sfx@),
{
    let ghost f = |k: nat| counted_name(head@, k, sfx@);
    let ghost ts = texts(taken@);
    let mut n: u128 = 1;
    loop
        invariant
            1 <= n <= 1 + taken@.len(),
            taken@.len() == taken.len(),
            ts == texts(taken@),
            f == (|k: nat| counted_name(head@, k, sfx@)),
            forall|k: nat| 1 <= k < n ==> ts.contains(#[trigger] f(k)),
        decreases taken@.len() + 1 - n,
    {
        let c = counted_vec(head, n, sfx);
        if !is_taken(&c, taken) {
            assert(least_free(f, 1, n as nat, ts));
            return c;
        }
        proof {
            assert forall|a: nat, b: nat| 1 <= a < b < n + 1 implies #[trigger] f(a) != #[trigger] f(b) by {
                if f(a) == f(b) {
                    lemma_counted_injective(head@, sfx@, a, b);
                }
            }
            lemma_tries_bounded(f, 1, (n + 1) as nat, ts);
        }
        n = n + 1;
    }
}

/// The first parenthesised name, from the second attempt on, that is not
/// taken.
fn first_free_paren(stem: &Vec<char>, sfx: &Vec<char>, taken: &Vec<String>) -> (r: Vec<char>)
    ensures
        exists|n: nat|
            least_free(|k: nat| paren_name(stem@, k, sfx@), 2, n, texts(taken@)) && r@ == paren_name(
                stem@,
                n,
                sfx@,
            ),
{
    let ghost f = |k: nat| paren_name(stem@, k, sfx@);
    let ghost ts = texts(taken@);
    let mut n: u128 = 2;
    loop
        invariant
            2 <= n <= 2 + taken@.len(),
            taken@.len() == taken.len(),
            ts == texts(taken@),
            f == (|k: nat| paren_name(stem@, k, sfx@)),
            forall|k: nat| 2 <= k < n ==> ts.contains(#[trigger] f(k)),
        decreases taken@.len() + 2 - n,
    {
        let c = paren_vec(stem, n, sfx);
        if !is_taken(&c, taken) {
            assert(least_free(f, 2, n as nat, ts));
            return c;
        }
        proof {
            assert forall|a: nat, b: nat| 2 <= a < b < n + 1 implies #[trigger] f(a) != #[trigger] f(b) by {
                if f(a) == f(b) {
                    lemma_paren_injective(stem@, sfx@, a, b);
                }
            }
            lemma_tries_bounded(f, 2, (n + 1) as nat, ts);
        }
        n = n + 1;
    }
}

/// The path for a new folder in `current_dir`: "New Folder", then
/// "New Folder 2", ..., the first whose name is not among `taken`, the
/// names already present in the folder.
pub fn next_new_folder_path(current_dir: &str, taken: &Vec<String>) -> (r: String)
    ensures
        exists|n: nat|
            least_free(|k: nat| counted_name("New Folder"@, k, seq![]), 1, n, texts(taken@)) && r@
                == join(current_dir@, counted_name("New Folder"@, n, seq![])),
{
    let head = chars_of("New Folder");
    let none: Vec<char> = Vec::new();
    let name = first_free_counted(&head, &none, taken);
    string_of(&path_join(&chars_of(current_dir), &name))
}

/// The path for a new text document in `current_dir`: "Untitled", then
/// "Untitled 2", ..., the first whose name is not among `taken`.
pub fn next_new_text_document_path(current_dir: &str, taken: &Vec<String>) -> (r: String)
    ensures
        exists|n: nat|
            least_free(|k: nat| counted_name("Untitled"@, k, seq![]), 1, n, texts(taken@)) && r@
                == join(current_dir@, counted_name("Untitled"@, n, seq![])),
{
    let head = chars_of("Untitled");
    let none: Vec<char> = Vec::new();
    let name = first_free_counted(&head, &none, taken);
    string_of(&path_join(&chars_of(current_dir), &name))
}

/// `.ext` for a non-empty extension, nothing otherwise.
pub open spec fn ext_suffix(ext: Option<Seq<char>>) -> Seq<char> {
    match ext {
        Some(e) => if e.len() > 0 {
            seq!['.'] + e
        } else {
            seq![]
        },
        None => seq![],
    }
}

/// `.ext` for any extension, even an empty one.
pub open spec fn dot_ext(ext: Option<Seq<char>>) -> Seq<char> {
    match ext {
        Some(e) => seq!['.'] + e,
        None => seq![],
    }
}

/// The value of an optional text, or a default.
pub open spec fn or_text(o: Option<Seq<char>>, d: Seq<char>) -> Seq<char> {
    match o {
        Some(s) => s,
        None => d,
    }
}

fn or_chars(o: Option<Vec<char>>, d: &str) -> (r: Vec<char>)
    ensures
        r@ == or_text(
            match o {
                Some(v) => Some(v@),
                None => None,
            },
            d@,
        ),
{
    match o {
        Some(v) => v,
        None => chars_of(d),
    }
}

fn ext_suffix_vec(ext: &Option<Vec<char>>, always: bool) -> (r: Vec<char>)
    ensures
        always ==> r@ == dot_ext(
            match ext {
                Some(v) => Some(v@),
                None => None,
            },
        ),
        !always ==> r@ == ext_suffix(
            match ext {
                Some(v) => Some(v@),
                None => None,
            },
        ),
{
    let mut out: Vec<char> = Vec::new();
    match ext {
        Some(e) => {
            if always || e.len() > 0 {
                out.push('.');
                append_chars(&mut out, e);
            }
        },
        None => {},
    }
    assert(always ==> out@ =~= dot_ext(
        match ext {
            Some(v) => Some(v@),
            None => None,
        },
    ));
    assert(!always ==> out@ =~= ext_suffix(
        match ext {
            Some(v) => Some(v@),
            None => None,
        },
    ));
    out
}

/// The copy names of `destination` ("notes copy.txt", "notes copy 2.txt",
/// ...), from its stem ("Copy" when it has none) and extension.
pub open spec fn copy_name(destination: Seq<char>, n: nat) -> Seq<char> {
    counted_name(
        or_text(file_stem(destination), "Copy"@) + " copy"@,
        n,
        ext_suffix(extension(destination)),
    )
}

/// A free path for a copy that would land on `destination`: the first copy
/// name not among `taken`, the names present in its folder ("/" when it
/// has no parent).
pub fn next_copy_path(destination: &str, taken: &Vec<String>) -> (r: String)
    ensures
        exists|n: nat|
            least_free(|k: nat| copy_name(destination@, k), 1, n, texts(taken@)) && r@ == join(
                or_text(parent(destination@), "/"@),
                copy_name(destination@, n),
            ),
{
    let d = chars_of(destination);
    let mut head = or_chars(path_file_stem(&d), "Copy");
    push_str(&mut head, " copy");
    let sfx = ext_suffix_vec(&path_extension(&d), false);
    let dir = or_chars(path_parent(&d), "/");
    let name = first_free_counted(&head, &sfx, taken);
    proof {
        let f = |k: nat| copy_name(destination@, k);
        let g = |k: nat| counted_name(head@, k, sfx@);
        assert forall|k: nat| #[trigger] f(k) == g(k) by {}
        assert(f == g);
    }
    string_of(&path_join(&dir, &name))
}

/// The names for a duplicate of `src`: its stem followed by " copy", then
/// " copy 2", ..., and its extension with the dot (even an empty one).
pub open spec fn duplicate_name(src: Seq<char>, n: nat) -> Seq<char> {
    counted_name(or_text(file_stem(src), seq![]) + " copy"@, n, dot_ext(extension(src)))
}

/// Where a duplicate of `src` goes in `parent_dir`: the first duplicate
/// name that is not among `taken`, the names present there.
pub fn duplicate_dest_name(src: &str, parent_dir: &str, taken: &Vec<String>) -> (r: String)
    ensures
        exists|n: nat|
            least_free(|k: nat| duplicate_name(src@, k), 1, n, texts(taken@)) && r@ == join(
                parent_dir@,
                duplicate_name(src@, n),
            ),
{
    let s = chars_of(src);
    let mut head = or_chars(path_file_stem(&s), "");
    push_str(&mut head, " copy");
    let sfx = ext_suffix_vec(&path_extension(&s), true);
    let name = first_free_counted(&head, &sfx, taken);
    proof {
        reveal_strlit("");
        let f = |k: nat| duplicate_name(src@, k);
        let g = |k: nat| counted_name(head@, k, sfx@);
        assert forall|k: nat| #[trigger] f(k) == g(k) by {}
        assert(f == g);
    }
    string_of(&path_join(&chars_of(parent_dir), &name))
}

/// The numbered alternatives of `path`: "name (2).ext", "name (3).ext", ...
/// ("Archive" when it has no stem).
pub open spec fn available_name(path: Seq<char>, n: nat) -> Seq<char> {
    paren_name(or_text(file_stem(path), "Archive"@), n, ext_suffix(extension(path)))
}

/// `path` itself when nothing is there, otherwise the first numbered
/// alternative whose name is not among `taken`, the names in its folder
/// ("." when it has no parent).
pub fn next_available_path(path: &str, path_exists: bool, taken: &Vec<String>) -> (r: String)
    ensures
        !path_exists ==> r@ == path@,
        path_exists ==> exists|n: nat|
            least_free(|k: nat| available_name(path@, k), 2, n, texts(taken@)) && r@ == join(
                or_text(parent(path@), "."@),
                available_name(path@, n),
            ),
{
    if !path_exists {
        return String::from_str(path);
    }
    let p = chars_of(path);
    let stem = or_chars(path_file_stem(&p), "Archive");
    let sfx = ext_suffix_vec(&path_extension(&p), false);
    let dir = or_chars(path_parent(&p), ".");
    let name = first_free_paren(&stem, &sfx, taken);
    assert(stem@ == or_text(file_stem(path@), "Archive"@));
    assert(sfx@ == ext_suffix(extension(path@)));
    proof {
        let f = |k: nat| available_name(path@, k);
        let g = |k: nat| paren_name(stem@, k, sfx@);
        assert forall|k: nat| #[trigger] f(k) == g(k) by {}
        assert(f == g);
    }
    string_of(&path_join(&dir, &name))
}


/// The numbered names a dropped item falls back to when its own name is
/// taken: "stem (2).ext", "stem (3).ext", ...
pub open spec fn drop_attempt(name: Seq<char>, k: nat) -> Seq<char> {
    paren_name(or_text(file_stem(name), seq![]), k, ext_suffix(extension(name)))
}

/// `k` is the first numbered attempt for `name` that is not taken.
pub open spec fn drop_free_at(name: Seq<char>, k: nat, taken: Seq<Seq<char>>) -> bool {
    least_free(|j: nat| drop_attempt(name, j), 2, k, taken)
}

/// The name an item called `name` gets in a folder whose names are
/// `taken`: the name itself when it is free, otherwise the first free
/// numbered name.
pub open spec fn free_name_for(name: Seq<char>, taken: Seq<Seq<char>>) -> Seq<char> {
    if !taken.contains(name) {
        name
    } else {
        drop_attempt(name, choose|k: nat| #[trigger] drop_free_at(name, k, taken))
    }
}

/// There is only one first free attempt.
pub proof fn lemma_least_free_unique(
    f: spec_fn(nat) -> Seq<char>,
    lo: nat,
    a: nat,
    b: nat,
    taken: Seq<Seq<char>>,
)
    requires
        least_free(f, lo, a, taken),
        least_free(f, lo, b, taken),
    ensures
        a == b,
{
    if a < b {
        assert(taken.contains(f(a)));
    } else if b < a {
        assert(taken.contains(f(b)));
    }
}

/// The name an item called `name` gets among the names `taken`.
pub fn free_name(name: &Vec<char>, taken: &Vec<String>) -> (r: Vec<char>)
    ensures
        r@ == free_name_for(name@, texts(taken@)),
{
    if !is_taken(name, taken) {
        return crate::text::slice_vec(name, 0, name.len());
    }
    let stem = or_chars(path_file_stem(name), "");
    let sfx = ext_suffix_vec(&path_extension(name), false);
    let r = first_free_paren(&stem, &sfx, taken);
    proof {
        reveal_strlit("");
        let ts = texts(taken@);
        let f = |j: nat| drop_attempt(name@, j);
        let g = |j: nat| paren_name(stem@, j, sfx@);
        assert forall|k: nat| #[trigger] f(k) == g(k) by {}
        assert(f == g);
        let n = choose|n: nat| #[trigger] least_free(g, 2, n, ts) && r@ == g(n);
        assert(drop_free_at(name@, n, ts));
        let c = choose|k: nat| #[trigger] drop_free_at(name@, k, ts);
        lemma_least_free_unique(f, 2, n, c, ts);
    }
    r
}

} // verus!
