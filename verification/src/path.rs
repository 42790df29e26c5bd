//! A model of Unix path text following `std::path`: components, file name,
//! parent, stem, extension, joining and prefix stripping.
use crate::text::{append_chars, chars_eq, slice_vec};
use vstd::prelude::*;

verus! {

/// The kind of a path component.
#[derive(Clone, Copy, Debug, PartialEq, Eq, Structural)]
pub enum CompKind {
    /// The leading `/`.
    Root,
    /// A leading `.` of a relative path.
    Cur,
    /// A `..` component.
    Parent,
    /// Any other non-empty component.
    Normal,
}

/// A component of a path, located by its character range in the path text.
#[derive(Clone, Copy, Debug)]
pub struct Comp {
    pub kind: CompKind,
    pub start: usize,
    pub end: usize,
}

/// A component as a mathematical triple.
pub open spec fn cview(c: Comp) -> (CompKind, int, int) {
    (c.kind, c.start as int, c.end as int)
}

/// The triples of a sequence of components.
pub open spec fn cviews(v: Seq<Comp>) -> Seq<(CompKind, int, int)> {
    v.map_values(|c: Comp| cview(c))
}

/// The component (if any) made by the piece `s[a..b]` between separators:
/// empty pieces and `.` pieces vanish.
pub open spec fn piece(s: Seq<char>, a: int, b: int) -> Seq<(CompKind, int, int)> {
    if b - a == 0 || (b - a == 1 && s[a] == '.') {
        seq![]
    } else if b - a == 2 && s[a] == '.' && s[a + 1] == '.' {
        seq![(CompKind::Parent, a, b)]
    } else {
        seq![(CompKind::Normal, a, b)]
    }
}

/// The components found from position `i`, the current piece starting at `start`.
pub open spec fn scan(s: Seq<char>, start: int, i: int) -> Seq<(CompKind, int, int)>
    decreases s.len() - i,
{
    if i >= s.len() || start > i || start < 0 {
        piece(s, start, s.len() as int)
    } else if s[i] == '/' {
        piece(s, start, i) + scan(s, i + 1, i + 1)
    } else {
        scan(s, start, i + 1)
    }
}

/// Whether the path starts with a `.` component that is kept (`./x` or `.`).
pub open spec fn leading_cur(s: Seq<char>) -> bool {
    s.len() > 0 && s[0] == '.' && (s.len() == 1 || s[1] == '/')
}

/// Where the component body begins after the root or leading `.`.
pub open spec fn body_start(s: Seq<char>) -> int {
    if s.len() > 0 && (s[0] == '/' || leading_cur(s)) {
        1
    } else {
        0
    }
}

/// The components of a path, as `Path::components` yields them on Unix.
pub open spec fn components(s: Seq<char>) -> Seq<(CompKind, int, int)> {
    let head = if s.len() > 0 && s[0] == '/' {
        seq![(CompKind::Root, 0int, 1int)]
    } else if leading_cur(s) {
        seq![(CompKind::Cur, 0int, 1int)]
    } else {
        seq![]
    };
    head + scan(s, body_start(s), body_start(s))
}

/// The components with their text.
pub open spec fn comp_texts(s: Seq<char>) -> Seq<(CompKind, Seq<char>)> {
    components(s).map_values(|c: (CompKind, int, int)| (c.0, s.subrange(c.1, c.2)))
}

/// Two paths are equal as `Path`s: same components.
pub open spec fn same_path(a: Seq<char>, b: Seq<char>) -> bool {
    comp_texts(a) == comp_texts(b)
}

/// The path has a root (`Path::is_absolute` on Unix).
pub open spec fn is_absolute(s: Seq<char>) -> bool {
    s.len() > 0 && s[0] == '/'
}

/// `Path::file_name`: the last component when it is a normal one.
pub open spec fn file_name(s: Seq<char>) -> Option<Seq<char>> {
    let c = components(s);
    if c.len() > 0 && c.last().0 == CompKind::Normal {
        Some(s.subrange(c.last().1, c.last().2))
    } else {
        None
    }
}

/// `Path::parent`: the text before the last component, with trailing
/// separators and `.` pieces dropped; `None` for the root and the empty path.
pub open spec fn parent(s: Seq<char>) -> Option<Seq<char>> {
    let c = components(s);
    if c.len() == 0 || c.last().0 == CompKind::Root {
        None
    } else if c.len() == 1 {
        Some(seq![])
    } else {
        Some(s.subrange(0, c[c.len() - 2].2))
    }
}

/// `PathBuf::push` / `Path::join`: an absolute `p` replaces the base, otherwise
/// a separator is added when the base is non-empty and does not end in one.
pub open spec fn join(base: Seq<char>, p: Seq<char>) -> Seq<char> {
    if is_absolute(p) {
        p
    } else if base.len() == 0 || base.last() == '/' {
        base + p
    } else {
        base + seq!['/'] + p
    }
}

/// `Path::strip_prefix`: when the components of `base` begin those of `path`,
/// the text of the remaining components.
pub open spec fn strip_prefix(path: Seq<char>, base: Seq<char>) -> Option<Seq<char>> {
    let cp = comp_texts(path);
    let cb = comp_texts(base);
    let c = components(path);
    if cb.len() <= cp.len() && cp.take(cb.len() as int) == cb {
        if cb.len() == cp.len() {
            Some(seq![])
        } else {
            Some(path.subrange(c[cb.len() as int].1, c.last().2))
        }
    } else {
        None
    }
}

/// Index of the last occurrence of `c` in `s`, or -1.
pub open spec fn last_index_of(s: Seq<char>, c: char) -> int
    decreases s.len(),
{
    if s.len() == 0 {
        -1
    } else if s.last() == c {
        s.len() - 1
    } else {
        last_index_of(s.drop_last(), c)
    }
}

/// The stem of a file name: the part before the last `.`, unless that dot
/// is the first character or there is none.
pub open spec fn stem_of(name: Seq<char>) -> Seq<char> {
    let d = last_index_of(name, '.');
    if d <= 0 {
        name
    } else {
        name.subrange(0, d)
    }
}

/// The extension of a file name: the part after the last `.`, unless that
/// dot is the first character or there is none.
pub open spec fn ext_of(name: Seq<char>) -> Option<Seq<char>> {
    let d = last_index_of(name, '.');
    if d <= 0 {
        None
    } else {
        Some(name.subrange(d + 1, name.len() as int))
    }
}

/// `Path::file_stem`.
pub open spec fn file_stem(s: Seq<char>) -> Option<Seq<char>> {
    match file_name(s) {
        Some(n) => Some(stem_of(n)),
        None => None,
    }
}

/// `Path::extension`.
pub open spec fn extension(s: Seq<char>) -> Option<Seq<char>> {
    match file_name(s) {
        Some(n) => ext_of(n),
        None => None,
    }
}

proof fn lemma_scan_bounds(s: Seq<char>, start: int, i: int)
    requires
        0 <= start <= i <= s.len(),
    ensures
        forall|k: int|
            0 <= k < scan(s, start, i).len() ==> {
                let c = #[trigger] scan(s, start, i)[k];
                &&& start <= c.1 < c.2 <= s.len()
                &&& c.0 == CompKind::Parent || c.0 == CompKind::Normal
            },
        forall|k1: int, k2: int|
            0 <= k1 < k2 < scan(s, start, i).len() ==> #[trigger] scan(s, start, i)[k1].2
                <= #[trigger] scan(s, start, i)[k2].1,
    decreases s.len() - i,
{
    if i < s.len() {
        if s[i] == '/' {
            lemma_scan_bounds(s, i + 1, i + 1);
        } else {
            lemma_scan_bounds(s, start, i + 1);
        }
    }
}

/// Every component lies within the path text, only the first can be a root
/// or a leading `.`, and the rest are parent or normal components.
pub proof fn lemma_components_wf(s: Seq<char>)
    ensures
        forall|k: int|
            0 <= k < components(s).len() ==> {
                let c = #[trigger] components(s)[k];
                &&& 0 <= c.1 < c.2 <= s.len()
                &&& (k > 0 ==> (c.0 == CompKind::Parent || c.0 == CompKind::Normal))
            },
        forall|k1: int, k2: int|
            0 <= k1 < k2 < components(s).len() ==> #[trigger] components(s)[k1].2
                <= #[trigger] components(s)[k2].1,
{
    lemma_scan_bounds(s, body_start(s), body_start(s));
}

/// Computes the component triple of the piece `s[a..b]`, if it is one.
fn piece_exec(s: &Vec<char>, a: usize, b: usize) -> (r: Option<Comp>)
    requires
        a <= b <= s.len(),
    ensures
        match r {
            Some(c) => piece(s@, a as int, b as int) == seq![cview(c)],
            None => piece(s@, a as int, b as int) == Seq::<(CompKind, int, int)>::empty(),
        },
{
    if b - a == 0 || (b - a == 1 && s[a] == '.') {
        None
    } else if b - a == 2 && s[a] == '.' && s[a + 1] == '.' {
        Some(Comp { kind: CompKind::Parent, start: a, end: b })
    } else {
        Some(Comp { kind: CompKind::Normal, start: a, end: b })
    }
}

/// The components of a path (`Path::components`).
pub fn path_components(s: &Vec<char>) -> (r: Vec<Comp>)
    ensures
        cviews(r@) == components(s@),
{
    let mut r: Vec<Comp> = Vec::new();
    let mut b: usize = 0;
    if s.len() > 0 && s[0] == '/' {
        r.push(Comp { kind: CompKind::Root, start: 0, end: 1 });
        b = 1;
    } else if s.len() > 0 && s[0] == '.' && (s.len() == 1 || s[1] == '/') {
        r.push(Comp { kind: CompKind::Cur, start: 0, end: 1 });
        b = 1;
    }
    assert(b == body_start(s@));
    let mut start: usize = b;
    let mut i: usize = b;
    assert(cviews(r@) + scan(s@, start as int, i as int) =~= components(s@));
    while i < s.len()
        invariant
            start <= i <= s.len(),
            cviews(r@) + scan(s@, start as int, i as int) == components(s@),
        decreases s.len() - i,
    {
        if s[i] == '/' {
            let ghost before = cviews(r@);
            let p = piece_exec(s, start, i);
            match p {
                Some(c) => {
                    r.push(c);
                    assert(cviews(r@) =~= before + seq![cview(c)]);
                },
                None => {},
            }
            assert(cviews(r@) + scan(s@, i + 1, i + 1) =~= before + scan(
                s@,
                start as int,
                i as int,
            ));
            start = i + 1;
        }
        i = i + 1;
    }
    let ghost before = cviews(r@);
    let p = piece_exec(s, start, s.len());
    match p {
        Some(c) => {
            r.push(c);
            assert(cviews(r@) =~= before + seq![cview(c)]);
        },
        None => {},
    }
    assert(cviews(r@) =~= before + scan(s@, start as int, i as int));
    r
}

/// `Path::file_name`.
pub fn path_file_name(s: &Vec<char>) -> (r: Option<Vec<char>>)
    ensures
        match r {
            Some(v) => file_name(s@) == Some(v@),
            None => file_name(s@) is None,
        },
{
    let c = path_components(s);
    proof {
        lemma_components_wf(s@);
    }
    if c.len() > 0 && c[c.len() - 1].kind == CompKind::Normal {
        let last = c[c.len() - 1];
        assert(cview(last) == components(s@).last());
        Some(slice_vec(s, last.start, last.end))
    } else {
        assert(c.len() > 0 ==> cview(c@[c.len() - 1]) == components(s@).last());
        None
    }
}

/// `Path::parent`.
pub fn path_parent(s: &Vec<char>) -> (r: Option<Vec<char>>)
    ensures
        match r {
            Some(v) => parent(s@) == Some(v@),
            None => parent(s@) is None,
        },
{
    let c = path_components(s);
    proof {
        lemma_components_wf(s@);
    }
    let n = c.len();
    if n == 0 {
        return None;
    }
    assert(cview(c@[n - 1]) == components(s@).last());
    if c[n - 1].kind == CompKind::Root {
        None
    } else if n == 1 {
        Some(Vec::new())
    } else {
        assert(cview(c@[n - 2]) == components(s@)[n - 2]);
        Some(slice_vec(s, 0, c[n - 2].end))
    }
}

/// `Path::join` of one path text onto another.
pub fn path_join(base: &Vec<char>, p: &Vec<char>) -> (r: Vec<char>)
    ensures
        r@ == join(base@, p@),
{
    if p.len() > 0 && p[0] == '/' {
        return slice_vec(p, 0, p.len());
    }
    let mut r = slice_vec(base, 0, base.len());
    if base.len() > 0 && base[base.len() - 1] != '/' {
        r.push('/');
    }
    append_chars(&mut r, p);
    assert(base@.subrange(0, base.len() as int) =~= base@);
    r
}

} // verus!

verus! {

/// Whether component `i` of `a` equals component `j` of `b` in kind and text.
fn comp_eq(a: &Vec<char>, ca: Comp, b: &Vec<char>, cb: Comp) -> (r: bool)
    requires
        ca.start <= ca.end <= a.len(),
        cb.start <= cb.end <= b.len(),
    ensures
        r == (ca.kind == cb.kind && a@.subrange(ca.start as int, ca.end as int) == b@.subrange(
            cb.start as int,
            cb.end as int,
        )),
{
    if ca.kind != cb.kind {
        return false;
    }
    let ta = slice_vec(a, ca.start, ca.end);
    let tb = slice_vec(b, cb.start, cb.end);
    chars_eq(&ta, &tb)
}

/// Compares the first `k` components of two paths.
fn comps_prefix_eq(a: &Vec<char>, ca: &Vec<Comp>, b: &Vec<char>, cb: &Vec<Comp>, k: usize) -> (r:
    bool)
    requires
        k <= ca.len(),
        k <= cb.len(),
        cviews(ca@) == components(a@),
        cviews(cb@) == components(b@),
    ensures
        r == (comp_texts(a@).take(k as int) == comp_texts(b@).take(k as int)),
{
    proof {
        lemma_components_wf(a@);
        lemma_components_wf(b@);
    }
    let mut i: usize = 0;
    while i < k
        invariant
            i <= k <= ca.len(),
            k <= cb.len(),
            cviews(ca@) == components(a@),
            cviews(cb@) == components(b@),
            forall|j: int|
                0 <= j < components(a@).len() ==> {
                    let c = #[trigger] components(a@)[j];
                    0 <= c.1 < c.2 <= a@.len()
                },
            forall|j: int|
                0 <= j < components(b@).len() ==> {
                    let c = #[trigger] components(b@)[j];
                    0 <= c.1 < c.2 <= b@.len()
                },
            forall|j: int| 0 <= j < i ==> comp_texts(a@)[j] == comp_texts(b@)[j],
        decreases k - i,
    {
        assert(cview(ca@[i as int]) == components(a@)[i as int]);
        assert(cview(cb@[i as int]) == components(b@)[i as int]);
        if !comp_eq(a, ca[i], b, cb[i]) {
            assert(comp_texts(a@).take(k as int)[i as int] != comp_texts(b@).take(k as int)[i as int]);
            return false;
        }
        i = i + 1;
    }
    assert(comp_texts(a@).take(k as int) =~= comp_texts(b@).take(k as int));
    true
}

/// Whether two paths are equal as `Path`s (component-wise).
pub fn path_eq(a: &Vec<char>, b: &Vec<char>) -> (r: bool)
    ensures
        r == same_path(a@, b@),
{
    let ca = path_components(a);
    let cb = path_components(b);
    if ca.len() != cb.len() {
        assert(comp_texts(a@).len() != comp_texts(b@).len());
        return false;
    }
    let r = comps_prefix_eq(a, &ca, b, &cb, ca.len());
    assert(comp_texts(a@).take(ca.len() as int) =~= comp_texts(a@));
    assert(comp_texts(b@).take(ca.len() as int) =~= comp_texts(b@));
    r
}

/// `Path::strip_prefix`.
pub fn path_strip_prefix(path: &Vec<char>, base: &Vec<char>) -> (r: Option<Vec<char>>)
    ensures
        match r {
            Some(v) => strip_prefix(path@, base@) == Some(v@),
            None => strip_prefix(path@, base@) is None,
        },
{
    let cp = path_components(path);
    let cb = path_components(base);
    proof {
        lemma_components_wf(path@);
    }
    if cb.len() > cp.len() {
        return None;
    }
    if !comps_prefix_eq(path, &cp, base, &cb, cb.len()) {
        assert(comp_texts(base@).take(cb.len() as int) =~= comp_texts(base@));
        return None;
    }
    assert(comp_texts(base@).take(cb.len() as int) =~= comp_texts(base@));
    if cb.len() == cp.len() {
        return Some(Vec::new());
    }
    let k = cb.len();
    let n = cp.len();
    assert(cview(cp@[k as int]) == components(path@)[k as int]);
    assert(cview(cp@[n - 1]) == components(path@).last());
    Some(slice_vec(path, cp[k].start, cp[n - 1].end))
}

/// Position of the last `c` in `s`, if any.
pub fn last_index(s: &Vec<char>, c: char) -> (r: Option<usize>)
    ensures
        match r {
            Some(i) => last_index_of(s@, c) == i as int,
            None => last_index_of(s@, c) == -1,
        },
{
    let mut j: usize = s.len();
    assert(s@.take(s.len() as int) =~= s@);
    while j > 0
        invariant
            j <= s.len(),
            last_index_of(s@, c) == last_index_of(s@.take(j as int), c),
        decreases j,
    {
        let ghost t = s@.take(j as int);
        assert(t.last() == s@[j - 1]);
        if s[j - 1] == c {
            return Some(j - 1);
        }
        assert(t.drop_last() =~= s@.take(j - 1));
        j = j - 1;
    }
    assert(s@.take(0) =~= Seq::<char>::empty());
    None
}

proof fn lemma_last_index_bounds(s: Seq<char>, c: char)
    ensures
        -1 <= last_index_of(s, c) < s.len(),
        last_index_of(s, c) >= 0 ==> s[last_index_of(s, c)] == c,
    decreases s.len(),
{
    if s.len() > 0 && s.last() != c {
        lemma_last_index_bounds(s.drop_last(), c);
    }
}

/// The stem of a file name (see [`stem_of`]).
pub fn name_stem(name: &Vec<char>) -> (r: Vec<char>)
    ensures
        r@ == stem_of(name@),
{
    proof {
        lemma_last_index_bounds(name@, '.');
    }
    match last_index(name, '.') {
        Some(d) if d > 0 => slice_vec(name, 0, d),
        _ => slice_vec(name, 0, name.len()),
    }
}

/// The extension of a file name (see [`ext_of`]).
pub fn name_ext(name: &Vec<char>) -> (r: Option<Vec<char>>)
    ensures
        match r {
            Some(v) => ext_of(name@) == Some(v@),
            None => ext_of(name@) is None,
        },
{
    proof {
        lemma_last_index_bounds(name@, '.');
    }
    match last_index(name, '.') {
        Some(d) if d > 0 => {
            assert(d < name.len());
            Some(slice_vec(name, d + 1, name.len()))
        },
        _ => None,
    }
}

/// `Path::file_stem`.
pub fn path_file_stem(s: &Vec<char>) -> (r: Option<Vec<char>>)
    ensures
        match r {
            Some(v) => file_stem(s@) == Some(v@),
            None => file_stem(s@) is None,
        },
{
    match path_file_name(s) {
        Some(n) => Some(name_stem(&n)),
        None => None,
    }
}

/// `Path::extension`.
pub fn path_extension(s: &Vec<char>) -> (r: Option<Vec<char>>)
    ensures
        match r {
            Some(v) => extension(s@) == Some(v@),
            None => extension(s@) is None,
        },
{
    match path_file_name(s) {
        Some(n) => name_ext(&n),
        None => None,
    }
}

} // verus!
