//! The folder that several paths share.
use crate::clipboard::texts;
use crate::model::FileItem;
use crate::path::{components, lemma_components_wf, parent, path_eq, path_parent, same_path};
use crate::sidebar::lies_in;
use crate::text::{chars_of, string_of};
use vstd::prelude::*;

verus! {

/// A path's parent is shorter than the path.
pub proof fn lemma_parent_shorter(p: Seq<char>)
    ensures
        parent(p) matches Some(q) ==> q.len() < p.len(),
{
    lemma_components_wf(p);
    let c = components(p);
    if c.len() >= 2 {
        assert(c[c.len() - 2].2 <= c[c.len() - 1].1);
        assert(c[c.len() - 1].1 < c[c.len() - 1].2);
    } else if c.len() == 1 {
        assert(0 <= c[0].1 < c[0].2 <= p.len());
    }
}

/// The parent of `p` is `dir`, as a path.
pub open spec fn parent_is(p: Seq<char>, dir: Seq<char>) -> bool {
    match parent(p) {
        Some(q) => same_path(q, dir),
        None => false,
    }
}

/// The common parent of all paths: the parent of the first, when every
/// path has that same parent (as a path).
pub open spec fn common_parent_of(paths: Seq<Seq<char>>) -> Option<Seq<char>> {
    if paths.len() == 0 {
        None
    } else {
        match parent(paths[0]) {
            None => None,
            Some(first) => if forall|i: int|
                0 <= i < paths.len() ==> #[trigger] parent_is(paths[i], first) {
                Some(first)
            } else {
                None
            },
        }
    }
}

/// The folder all `paths` are directly in, if there is one.
pub fn common_parent(paths: &Vec<String>) -> (r: Option<String>)
    ensures
        crate::text::opt_text(r) == common_parent_of(texts(paths@)),
{
    let ghost ps = texts(paths@);
    if paths.len() == 0 {
        return None;
    }
    assert(ps[0] == paths@[0]@);
    let first = match path_parent(&chars_of(paths[0].as_str())) {
        Some(f) => f,
        None => {
            return None;
        },
    };
    let mut i: usize = 0;
    while i < paths.len()
        invariant
            i <= paths@.len(),
            ps == texts(paths@),
            parent(ps[0]) == Some(first@),
            forall|k: int|
                0 <= k < i ==> #[trigger] parent_is(ps[k], first@),
        decreases paths.len() - i,
    {
        assert(ps[i as int] == paths@[i as int]@);
        match path_parent(&chars_of(paths[i].as_str())) {
            Some(q) => {
                if !path_eq(&q, &first) {
                    assert(!parent_is(ps[i as int], first@));
                    return None;
                }
            },
            None => {
                assert(!parent_is(ps[i as int], first@));
                return None;
            },
        }
        i = i + 1;
    }
    Some(string_of(&first))
}

/// Widening `p` until it holds `q`: `p` itself when `q` lies in it, else
/// its parents in turn; nothing when none holds `q`.
pub open spec fn widen_to(p: Seq<char>, q: Seq<char>) -> Option<Seq<char>>
    decreases p.len(),
{
    if lies_in(q, p) {
        Some(p)
    } else {
        match parent(p) {
            Some(pp) => {
                proof {
                    lemma_parent_shorter(p);
                }
                widen_to(pp, q)
            },
            None => None,
        }
    }
}

/// The folder holding all items, starting from the first item's parent and
/// widening for each further item's parent; nothing when an item has no
/// parent or no folder holds them all.
pub open spec fn common_parent_items(paths: Seq<Seq<char>>, n: int) -> Option<Seq<char>>
    decreases n,
{
    if n <= 0 || paths.len() == 0 {
        None
    } else if n == 1 {
        parent(paths[0])
    } else {
        match common_parent_items(paths, n - 1) {
            None => None,
            Some(p) => match parent(paths[n - 1]) {
                None => None,
                Some(q) => widen_to(p, q),
            },
        }
    }
}

proof fn lemma_none_sticks(ps: Seq<Seq<char>>, a: int, b: int)
    requires
        1 <= a <= b,
        common_parent_items(ps, a) is None,
    ensures
        common_parent_items(ps, b) is None,
    decreases b - a,
{
    if a < b {
        lemma_none_sticks(ps, a, b - 1);
    }
}

fn widen_exec(p: Vec<char>, q: &Vec<char>) -> (r: Option<Vec<char>>)
    ensures
        match r {
            Some(v) => widen_to(p@, q@) == Some(v@),
            None => widen_to(p@, q@) is None,
        },
    decreases p@.len(),
{
    if crate::path::path_strip_prefix(q, &p).is_some() {
        return Some(p);
    }
    match path_parent(&p) {
        Some(pp) => {
            proof {
                lemma_parent_shorter(p@);
            }
            widen_exec(pp, q)
        },
        None => None,
    }
}

/// The folder that holds all the items (`None` for no items).
pub fn common_parent_for_items(items: &Vec<FileItem>) -> (r: Option<String>)
    ensures
        crate::text::opt_text(r) == common_parent_items(
            items@.map_values(|it: FileItem| it.path@),
            items@.len() as int,
        ),
{
    let ghost ps = items@.map_values(|it: FileItem| it.path@);
    if items.len() == 0 {
        return None;
    }
    assert(ps[0] == items@[0].path@);
    let mut acc = match path_parent(&chars_of(items[0].path.as_str())) {
        Some(p) => p,
        None => {
            proof {
                lemma_none_sticks(ps, 1, items@.len() as int);
            }
            return None;
        },
    };
    let mut i: usize = 1;
    while i < items.len()
        invariant
            1 <= i <= items@.len(),
            ps == items@.map_values(|it: FileItem| it.path@),
            common_parent_items(ps, i as int) == Some(acc@),
        decreases items.len() - i,
    {
        assert(ps[i as int] == items@[i as int].path@);
        match path_parent(&chars_of(items[i].path.as_str())) {
            None => {
                proof {
                    lemma_none_sticks(ps, i + 1, items@.len() as int);
                }
                return None;
            },
            Some(q) => match widen_exec(acc, &q) {
                None => {
                    proof {
                        lemma_none_sticks(ps, i + 1, items@.len() as int);
                    }
                    return None;
                },
                Some(w) => {
                    acc = w;
                },
            },
        }
        i = i + 1;
    }
    Some(string_of(&acc))
}

} // verus!
