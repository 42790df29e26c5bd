//! The file clipboard (cut/copy and paste) and the holding tray.
use crate::model::FileItem;
use crate::path::{path_eq, same_path};
use crate::text::chars_of;
use vstd::prelude::*;

verus! {

/// Whether a clipboard copies or moves its paths on paste.
#[derive(Clone, Copy, Debug, PartialEq, Eq, Structural)]
pub enum ClipboardMode {
    Copy,
    Cut,
}

/// Paths waiting to be pasted; never empty.
#[derive(Clone, Debug)]
pub struct FileClipboardState {
    pub paths: Vec<String>,
    pub mode: ClipboardMode,
}

/// The texts of a sequence of strings.
pub open spec fn texts(v: Seq<String>) -> Seq<Seq<char>> {
    v.map_values(|s: String| s@)
}

/// Whether `p` is, as a path, one of `ps`.
pub open spec fn path_in(p: Seq<char>, ps: Seq<Seq<char>>) -> bool {
    exists|i: int| 0 <= i < ps.len() && same_path(#[trigger] ps[i], p)
}

/// The paths of a cut clipboard that remain after a paste that moved
/// `moved`: those that were not moved, in order.
pub open spec fn remaining_after(paths: Seq<Seq<char>>, moved: Seq<Seq<char>>) -> Seq<Seq<char>> {
    paths.filter(|p: Seq<char>| !path_in(p, moved))
}

/// A copy of a vector of strings.
pub fn clone_strings(v: &Vec<String>) -> (r: Vec<String>)
    ensures
        r@ == v@,
{
    let mut r: Vec<String> = Vec::new();
    let mut i: usize = 0;
    while i < v.len()
        invariant
            i <= v.len(),
            r@ == v@.take(i as int),
        decreases v.len() - i,
    {
        r.push(v[i].clone());
        assert(v@.take(i + 1) =~= v@.take(i as int).push(v@[i as int]));
        i = i + 1;
    }
    assert(v@.take(v.len() as int) =~= v@);
    r
}

pub(crate) fn path_in_exec(p: &Vec<char>, ps: &Vec<String>) -> (r: bool)
    ensures
        r == path_in(p@, texts(ps@)),
{
    let mut i: usize = 0;
    while i < ps.len()
        invariant
            i <= ps.len(),
            forall|j: int| 0 <= j < i ==> !same_path(#[trigger] texts(ps@)[j], p@),
        decreases ps.len() - i,
    {
        let q = chars_of(ps[i].as_str());
        assert(texts(ps@)[i as int] == q@);
        if path_eq(&q, p) {
            return true;
        }
        i = i + 1;
    }
    false
}

impl FileClipboardState {
    /// A clipboard holding `paths`, or nothing when there are none.
    pub fn new(paths: Vec<String>, mode: ClipboardMode) -> (r: Option<Self>)
        ensures
            r is Some == (paths@.len() > 0),
            r matches Some(c) ==> c.paths@ == paths@ && c.mode == mode,
    {
        if paths.len() > 0 {
            Some(FileClipboardState { paths, mode })
        } else {
            None
        }
    }

    /// Whether a paste copies rather than moves.
    pub fn is_copy(&self) -> (r: bool)
        ensures
            r == (self.mode == ClipboardMode::Copy),
    {
        match self.mode {
            ClipboardMode::Copy => true,
            ClipboardMode::Cut => false,
        }
    }

    /// The clipboard after a paste completed: a copy clipboard stays as it
    /// was; a cut clipboard keeps only the paths that were not moved (the
    /// failures) and empties when all were moved.
    pub fn after_completed_paste(&self, moved_sources: &Vec<String>) -> (r: Option<Self>)
        ensures
            self.mode == ClipboardMode::Copy ==> (r matches Some(c) && c.paths@ == self.paths@
                && c.mode == self.mode),
            self.mode == ClipboardMode::Cut ==> {
                let rest = remaining_after(texts(self.paths@), texts(moved_sources@));
                &&& r is Some == (rest.len() > 0)
                &&& r matches Some(c) ==> texts(c.paths@) == rest && c.mode == ClipboardMode::Cut
            },
    {
        match self.mode {
            ClipboardMode::Copy => {
                return Some(FileClipboardState { paths: clone_strings(&self.paths), mode: self.mode });
            },
            ClipboardMode::Cut => {},
        }
        let ghost all = texts(self.paths@);
        let ghost moved = texts(moved_sources@);
        let mut remaining: Vec<String> = Vec::new();
        let mut i: usize = 0;
        while i < self.paths.len()
            invariant
                i <= self.paths.len(),
                all == texts(self.paths@),
                moved == texts(moved_sources@),
                texts(remaining@) == remaining_after(all.take(i as int), moved),
            decreases self.paths.len() - i,
        {
            let p = chars_of(self.paths[i].as_str());
            proof {
                reveal_with_fuel(Seq::<_>::filter, 1);
                assert(all.take(i + 1).drop_last() =~= all.take(i as int));
                assert(all.take(i + 1).last() == p@);
            }
            if !path_in_exec(&p, moved_sources) {
                let ghost before = remaining@;
                remaining.push(self.paths[i].clone());
                assert(texts(remaining@) =~= texts(before).push(p@));
            }
            i = i + 1;
        }
        assert(all.take(self.paths.len() as int) =~= all);
        FileClipboardState::new(remaining, ClipboardMode::Cut)
    }
}

/// A paste into a cut clipboard never brings back a moved path, keeps every
/// path that was not moved, and pasting the same result again changes
/// nothing further.
pub proof fn lemma_cut_paste(paths: Seq<Seq<char>>, moved: Seq<Seq<char>>)
    ensures
        forall|p: Seq<char>| #[trigger]
            remaining_after(paths, moved).contains(p) <==> (paths.contains(p) && !path_in(p, moved)),
        remaining_after(remaining_after(paths, moved), moved) == remaining_after(paths, moved),
        remaining_after(paths, moved).len() <= paths.len(),
{
    let pred = |p: Seq<char>| !path_in(p, moved);
    let r = remaining_after(paths, moved);
    assert forall|p: Seq<char>| #[trigger] r.contains(p) <==> (paths.contains(p) && !path_in(p, moved)) by {
        if r.contains(p) {
            paths.lemma_filter_contains_rev(pred, p);
            let k = choose|k: int| 0 <= k < r.len() && r[k] == p;
            paths.lemma_filter_pred(pred, k);
        }
        if paths.contains(p) && !path_in(p, moved) {
            let k = choose|k: int| 0 <= k < paths.len() && paths[k] == p;
            paths.lemma_filter_contains(pred, k);
        }
    }
    paths.lemma_filter_len(pred);
    assert forall|k: int| 0 <= k < r.len() implies pred(#[trigger] r[k]) by {
        paths.lemma_filter_pred(pred, k);
    }
    lemma_filter_all_true(r, pred);
}

proof fn lemma_filter_all_true(s: Seq<Seq<char>>, pred: spec_fn(Seq<char>) -> bool)
    requires
        forall|k: int| 0 <= k < s.len() ==> pred(#[trigger] s[k]),
    ensures
        s.filter(pred) == s,
    decreases s.len(),
{
    reveal_with_fuel(Seq::<_>::filter, 1);
    if s.len() > 0 {
        lemma_filter_all_true(s.drop_last(), pred);
        assert(s.drop_last().push(s.last()) =~= s);
    }
}

} // verus!

verus! {

/// Whether some item of `items` has, as a path, the path `p`.
pub open spec fn has_path(items: Seq<FileItem>, p: Seq<char>) -> bool {
    exists|i: int| 0 <= i < items.len() && same_path(#[trigger] items[i].path@, p)
}

/// The tray after offering it `incoming` in order: each item is appended
/// unless an item with the same path is already there.
pub open spec fn tray_fold(tray: Seq<FileItem>, incoming: Seq<FileItem>) -> Seq<FileItem>
    decreases incoming.len(),
{
    if incoming.len() == 0 {
        tray
    } else {
        let x = incoming[0];
        let next = if has_path(tray, x.path@) {
            tray
        } else {
            tray.push(x)
        };
        tray_fold(next, incoming.drop_first())
    }
}

/// No two items share a path.
pub open spec fn distinct_paths(items: Seq<FileItem>) -> bool {
    forall|i: int, j: int|
        0 <= i < j < items.len() ==> !same_path(#[trigger] items[i].path@, #[trigger] items[j].path@)
}

fn has_path_exec(items: &Vec<FileItem>, p: &Vec<char>) -> (r: bool)
    ensures
        r == has_path(items@, p@),
{
    let mut i: usize = 0;
    while i < items.len()
        invariant
            i <= items.len(),
            forall|j: int| 0 <= j < i ==> !same_path(#[trigger] items@[j].path@, p@),
        decreases items.len() - i,
    {
        let q = chars_of(items[i].path.as_str());
        if path_eq(&q, p) {
            return true;
        }
        i = i + 1;
    }
    false
}

/// Adds to the holding tray the incoming items whose paths it does not
/// hold yet, in order, and returns how many were added.
pub fn add_unique_tray_items(existing: &mut Vec<FileItem>, incoming: Vec<FileItem>) -> (added: usize)
    ensures
        final(existing)@ == tray_fold(old(existing)@, incoming@),
        added == final(existing)@.len() - old(existing)@.len(),
{
    let mut rest = incoming;
    let mut added: usize = 0;
    let ghost start = existing@;
    assert(tray_fold(start, rest@) == tray_fold(existing@, rest@));
    while rest.len() > 0
        invariant
            tray_fold(start, incoming@) == tray_fold(existing@, rest@),
            existing@.len() == start.len() + added,
            rest@.len() <= incoming@.len(),
            start == old(existing)@,
        decreases rest.len(),
    {
        let ghost before = rest@;
        let x = rest.remove(0);
        assert(rest@ =~= before.drop_first());
        let p = chars_of(x.path.as_str());
        if !has_path_exec(existing, &p) {
            existing.push(x);
            assert(existing@.len() == start.len() + added + 1);
            assert(existing.len() <= usize::MAX);
            added = added + 1;
        }
    }
    added
}

/// Offering items to a tray with no repeated paths leaves it with no
/// repeated paths, and every offered path ends up in the tray.
pub proof fn lemma_tray_fold_distinct(tray: Seq<FileItem>, incoming: Seq<FileItem>)
    requires
        distinct_paths(tray),
    ensures
        distinct_paths(tray_fold(tray, incoming)),
        forall|k: int| 0 <= k < incoming.len() ==> has_path(tray_fold(tray, incoming), #[trigger] incoming[k].path@),
        forall|k: int| 0 <= k < tray.len() ==> tray_fold(tray, incoming)[k] == tray[k],
        tray.len() <= tray_fold(tray, incoming).len(),
    decreases incoming.len(),
{
    if incoming.len() > 0 {
        let x = incoming[0];
        let next = if has_path(tray, x.path@) {
            tray
        } else {
            tray.push(x)
        };
        if !has_path(tray, x.path@) {
            assert forall|i: int, j: int| 0 <= i < j < next.len() implies !same_path(
                #[trigger] next[i].path@,
                #[trigger] next[j].path@,
            ) by {
                if j == tray.len() {
                    if same_path(next[i].path@, x.path@) {
                        assert(same_path(tray[i].path@, x.path@));
                    }
                }
            }
        }
        lemma_tray_fold_distinct(next, incoming.drop_first());
        let result = tray_fold(next, incoming.drop_first());
        assert(result == tray_fold(tray, incoming));
        assert forall|k: int| 0 <= k < tray.len() implies result[k] == tray[k] by {
            assert(next[k] == tray[k]);
        }
        assert forall|k: int| 0 <= k < incoming.len() implies has_path(result, #[trigger] incoming[k].path@) by {
            if k > 0 {
                assert(incoming.drop_first()[k - 1] == incoming[k]);
            } else if has_path(tray, x.path@) {
                let i = choose|i: int| 0 <= i < tray.len() && same_path(#[trigger] tray[i].path@, x.path@);
                assert(result[i] == tray[i]);
            } else {
                assert(next[tray.len() as int] == x);
                assert(result[tray.len() as int] == next[tray.len() as int]);
                assert(same_path(x.path@, x.path@));
            }
        }
    }
}

/// What a tray-to-palette transfer does with the files.
#[derive(Clone, Copy, Debug, PartialEq, Eq, Structural)]
pub enum ProjectTransferKind {
    Copy,
    Move,
}

/// The tray action that sends the staged files to a palette.
#[derive(Clone, Copy, Debug, PartialEq, Eq, Structural)]
pub enum TrayProjectAction {
    Copy,
    Move,
}

impl TrayProjectAction {
    /// The transfer the action performs.
    pub fn transfer_kind(self) -> (r: ProjectTransferKind)
        ensures
            r == match self {
                TrayProjectAction::Copy => ProjectTransferKind::Copy,
                TrayProjectAction::Move => ProjectTransferKind::Move,
            },
    {
        match self {
            TrayProjectAction::Copy => ProjectTransferKind::Copy,
            TrayProjectAction::Move => ProjectTransferKind::Move,
        }
    }

    /// The title of the action's dialog.
    pub fn title(self) -> (r: &'static str)
        ensures
            r@ == match self {
                TrayProjectAction::Copy => "Copy Tray to Palette"@,
                TrayProjectAction::Move => "Move Tray to Palette"@,
            },
    {
        match self {
            TrayProjectAction::Copy => "Copy Tray to Palette",
            TrayProjectAction::Move => "Move Tray to Palette",
        }
    }
}

} // verus!
