//! User-defined actions and the planning of copies and moves.
use crate::clipboard::texts;
use crate::keys::{eq_lit, CustomActionConfig};
use crate::model::FileItem;
use crate::views::PaneView;
use crate::number::{decimal, push_decimal};
use crate::naming::{free_name, free_name_for};
use crate::path::{
    file_name, join, parent, path_eq, path_file_name, path_join, path_parent, path_strip_prefix, same_path,
    strip_prefix,
};
use crate::text::{chars_of, push_str, replace_all, replace_chars, string_of};
use vstd::prelude::*;

verus! {

/// The command line of an action argument: `{paths}` becomes every path,
/// `{path}` the first path (nothing when there is none), `{cwd}` the
/// folder; any other argument has `{cwd}` and then, when there is a path,
/// `{path}` replaced inside it.
pub open spec fn expand_arg(arg: Seq<char>, paths: Seq<Seq<char>>, cwd: Seq<char>) -> Seq<Seq<char>> {
    if arg == "{paths}"@ {
        paths
    } else if arg == "{path}"@ {
        if paths.len() > 0 {
            seq![paths[0]]
        } else {
            seq![]
        }
    } else if arg == "{cwd}"@ {
        seq![cwd]
    } else {
        let a = replace_all(arg, "{cwd}"@, cwd);
        seq![
            if paths.len() > 0 {
                replace_all(a, "{path}"@, paths[0])
            } else {
                a
            },
        ]
    }
}

/// The expansion of all arguments, in order.
pub open spec fn expand_args(args: Seq<Seq<char>>, paths: Seq<Seq<char>>, cwd: Seq<char>) -> Seq<
    Seq<char>,
>
    decreases args.len(),
{
    if args.len() == 0 {
        seq![]
    } else {
        expand_args(args.drop_last(), paths, cwd) + expand_arg(args.last(), paths, cwd)
    }
}

/// The command line of a custom action run on `paths` in `cwd`; nothing
/// when it expands to no argument at all.
pub fn expand_custom_action_argv(action: &CustomActionConfig, paths: &Vec<String>, cwd: &str) -> (r:
    Option<Vec<String>>)
    ensures
        match r {
            Some(v) => texts(v@) == expand_args(texts(action.argv@), texts(paths@), cwd@) && v@.len()
                > 0,
            None => expand_args(texts(action.argv@), texts(paths@), cwd@).len() == 0,
        },
{
    let ghost args = texts(action.argv@);
    let ghost ps = texts(paths@);
    let mut out: Vec<String> = Vec::new();
    let cwd_tag = chars_of("{cwd}");
    let path_tag = chars_of("{path}");
    let cwd_chars = chars_of(cwd);
    proof {
        reveal_strlit("{cwd}");
        reveal_strlit("{path}");
    }
    let mut i: usize = 0;
    while i < action.argv.len()
        invariant
            i <= action.argv@.len(),
            args == texts(action.argv@),
            ps == texts(paths@),
            cwd_tag@ == "{cwd}"@,
            path_tag@ == "{path}"@,
            cwd_chars@ == cwd@,
            cwd_tag@.len() > 0,
            path_tag@.len() > 0,
            texts(out@) == expand_args(args.take(i as int), ps, cwd@),
        decreases action.argv.len() - i,
    {
        assert(args.take(i + 1).drop_last() =~= args.take(i as int));
        assert(args.take(i + 1).last() == action.argv@[i as int]@);
        let ghost before = texts(out@);
        let arg = chars_of(action.argv[i].as_str());
        if eq_lit(&arg, "{paths}") {
            let mut j: usize = 0;
            while j < paths.len()
                invariant
                    j <= paths@.len(),
                    ps == texts(paths@),
                    texts(out@) == before + ps.take(j as int),
                decreases paths.len() - j,
            {
                let ghost mid = texts(out@);
                let c = paths[j].clone();
                out.push(c);
                assert(texts(out@) =~= mid.push(c@));
                assert(ps[j as int] == paths@[j as int]@);
                assert(ps.take(j + 1) =~= ps.take(j as int).push(ps[j as int]));
                assert(texts(out@) =~= before + ps.take(j + 1));
                j = j + 1;
            }
            assert(ps.take(paths@.len() as int) =~= ps);
        } else if eq_lit(&arg, "{path}") {
            if paths.len() > 0 {
                out.push(paths[0].clone());
                assert(texts(out@) =~= before + seq![ps[0]]);
            } else {
                assert(texts(out@) =~= before + Seq::<Seq<char>>::empty());
            }
        } else if eq_lit(&arg, "{cwd}") {
            out.push(String::from_str(cwd));
            assert(texts(out@) =~= before + seq![cwd@]);
        } else {
            let a = replace_chars(&arg, &cwd_tag, &cwd_chars);
            let b = if paths.len() > 0 {
                replace_chars(&a, &path_tag, &chars_of(paths[0].as_str()))
            } else {
                a
            };
            let s = string_of(&b);
            out.push(s);
            assert(texts(out@) =~= before + expand_arg(arg@, ps, cwd@));
        }
        i = i + 1;
    }
    assert(args.take(action.argv@.len() as int) =~= args);
    if out.len() == 0 {
        None
    } else {
        Some(out)
    }
}

/// The copies or moves planned for dropping `sources` into a folder whose
/// names are `taken`, with the names taken once they are planned: each
/// source with a file name goes to a name in `dest_dir` that does not exist
/// yet (its own name, or "name (2)", "name (3)", ... when that is taken), in
/// order.
pub open spec fn planned_transfers(sources: Seq<Seq<char>>, dest_dir: Seq<char>, taken: Seq<Seq<char>>) -> (
    Seq<(Seq<char>, Seq<char>)>,
    Seq<Seq<char>>,
)
    decreases sources.len(),
{
    if sources.len() == 0 {
        (seq![], taken)
    } else {
        let (prev, now_taken) = planned_transfers(sources.drop_last(), dest_dir, taken);
        match file_name(sources.last()) {
            Some(n) => {
                let m = free_name_for(n, now_taken);
                (prev.push((sources.last(), join(dest_dir, m))), now_taken.push(m))
            },
            None => (prev, now_taken),
        }
    }
}

/// The plain values of planned transfers.
pub open spec fn transfer_texts(v: Seq<(String, String)>) -> Seq<(Seq<char>, Seq<char>)> {
    v.map_values(|p: (String, String)| (p.0@, p.1@))
}

/// Plans copying or moving `sources` into `dest_dir`, whose entries are
/// named `taken`: source and destination for each source that has a file
/// name, the destination being a path in the folder that does not exist
/// yet (the name itself, or with " (2)", " (3)", ... added).
pub fn plan_copy_move_items(sources: &Vec<String>, dest_dir: &str, taken: &Vec<String>) -> (r: Vec<
    (String, String),
>)
    ensures
        transfer_texts(r@) == planned_transfers(texts(sources@), dest_dir@, texts(taken@)).0,
{
    let ghost ss = texts(sources@);
    let d = chars_of(dest_dir);
    let mut used: Vec<String> = crate::clipboard::clone_strings(taken);
    let mut out: Vec<(String, String)> = Vec::new();
    let mut i: usize = 0;
    assert(ss.take(0) =~= Seq::<Seq<char>>::empty());
    while i < sources.len()
        invariant
            i <= sources@.len(),
            ss == texts(sources@),
            d@ == dest_dir@,
            transfer_texts(out@) == planned_transfers(ss.take(i as int), dest_dir@, texts(taken@)).0,
            texts(used@) == planned_transfers(ss.take(i as int), dest_dir@, texts(taken@)).1,
        decreases sources.len() - i,
    {
        assert(ss.take(i + 1).drop_last() =~= ss.take(i as int));
        assert(ss.take(i + 1).last() == sources@[i as int]@);
        let ghost before = transfer_texts(out@);
        let ghost used_before = texts(used@);
        match path_file_name(&chars_of(sources[i].as_str())) {
            Some(n) => {
                let m = free_name(&n, &used);
                let dest = string_of(&path_join(&d, &m));
                out.push((sources[i].clone(), dest));
                let ms = string_of(&m);
                used.push(ms);
                assert(transfer_texts(out@) =~= before.push((sources@[i as int]@, join(dest_dir@, m@))));
                assert(texts(used@) =~= used_before.push(m@));
            },
            None => {},
        }
        i = i + 1;
    }
    assert(ss.take(sources@.len() as int) =~= ss);
    out
}

/// The transfers that start without asking: each source with a file name
/// that is not among `conflicts` (the names that already exist in the
/// folder) goes to that name in `dest_dir`, in order.
pub open spec fn unconflicted(sources: Seq<Seq<char>>, dest_dir: Seq<char>, conflicts: Seq<Seq<char>>) -> Seq<
    (Seq<char>, Seq<char>),
>
    decreases sources.len(),
{
    if sources.len() == 0 {
        seq![]
    } else {
        let prev = unconflicted(sources.drop_last(), dest_dir, conflicts);
        match file_name(sources.last()) {
            Some(n) => if conflicts.contains(n) {
                prev
            } else {
                prev.push((sources.last(), join(dest_dir, n)))
            },
            None => prev,
        }
    }
}

/// The copies or moves into `dest_dir` that have no name conflict.
pub fn non_conflicting_transfers(sources: &Vec<String>, dest_dir: &str, conflicts: &Vec<String>) -> (r: Vec<
    (String, String),
>)
    ensures
        transfer_texts(r@) == unconflicted(texts(sources@), dest_dir@, texts(conflicts@)),
{
    let ghost ss = texts(sources@);
    let d = chars_of(dest_dir);
    let mut out: Vec<(String, String)> = Vec::new();
    let mut i: usize = 0;
    while i < sources.len()
        invariant
            i <= sources@.len(),
            ss == texts(sources@),
            d@ == dest_dir@,
            transfer_texts(out@) == unconflicted(ss.take(i as int), dest_dir@, texts(conflicts@)),
        decreases sources.len() - i,
    {
        assert(ss.take(i + 1).drop_last() =~= ss.take(i as int));
        assert(ss.take(i + 1).last() == sources@[i as int]@);
        let ghost before = transfer_texts(out@);
        match path_file_name(&chars_of(sources[i].as_str())) {
            Some(n) => {
                if !crate::naming::is_taken(&n, conflicts) {
                    let dest = string_of(&path_join(&d, &n));
                    out.push((sources[i].clone(), dest));
                    assert(transfer_texts(out@) =~= before.push((sources@[i as int]@, join(dest_dir@, n@))));
                }
            },
            None => {},
        }
        i = i + 1;
    }
    assert(ss.take(sources@.len() as int) =~= ss);
    out
}

/// The label of a copy or move started without conflicts: the hint when
/// one is given, else "Copy 3 item(s) → Pictures" ("destination" for a
/// folder without a name).
pub open spec fn copy_move_label_text(is_copy: bool, n: nat, dest_dir: Seq<char>, hint: Seq<char>) -> Seq<char> {
    if hint.len() > 0 {
        hint
    } else {
        (if is_copy {
            "Copy "@
        } else {
            "Move "@
        }) + decimal(n) + " item(s) \u{2192} "@ + crate::naming::or_text(file_name(dest_dir), "destination"@)
    }
}

/// The operations-panel label of a copy or move.
pub fn copy_move_label(is_copy: bool, n: usize, dest_dir: &str, hint: &str) -> (r: String)
    ensures
        r@ == copy_move_label_text(is_copy, n as nat, dest_dir@, hint@),
{
    let h = chars_of(hint);
    if h.len() > 0 {
        return String::from_str(hint);
    }
    let mut out: Vec<char> = Vec::new();
    if is_copy {
        push_str(&mut out, "Copy ");
    } else {
        push_str(&mut out, "Move ");
    }
    push_decimal(&mut out, n as u128);
    push_str(&mut out, " item(s) \u{2192} ");
    match path_file_name(&chars_of(dest_dir)) {
        Some(name) => crate::text::append_chars(&mut out, &name),
        None => push_str(&mut out, "destination"),
    }
    assert(out@ =~= copy_move_label_text(is_copy, n as nat, dest_dir@, hint@));
    string_of(&out)
}

/// A dragged path is dropped into `dest_dir` unless it already lies
/// directly in that folder or the folder is the path itself or lies inside
/// it.
pub open spec fn drop_keeps(src: Seq<char>, dest_dir: Seq<char>) -> bool {
    let already_there = match parent(src) {
        Some(p) => same_path(p, dest_dir),
        None => false,
    };
    let into_self = strip_prefix(dest_dir, src) is Some;
    !already_there && !into_self
}

/// The dragged paths that a drop into `dest_dir` moves or copies, in order.
pub fn droppable_sources(sources: &Vec<String>, dest_dir: &str) -> (r: Vec<String>)
    ensures
        texts(r@) == texts(sources@).filter(|p: Seq<char>| drop_keeps(p, dest_dir@)),
{
    let ghost ss = texts(sources@);
    let ghost keep = |p: Seq<char>| drop_keeps(p, dest_dir@);
    let d = chars_of(dest_dir);
    let mut out: Vec<String> = Vec::new();
    let mut i: usize = 0;
    assert(ss.take(0) =~= Seq::<Seq<char>>::empty());
    while i < sources.len()
        invariant
            i <= sources@.len(),
            ss == texts(sources@),
            d@ == dest_dir@,
            keep == (|p: Seq<char>| drop_keeps(p, dest_dir@)),
            texts(out@) == ss.take(i as int).filter(keep),
        decreases sources.len() - i,
    {
        proof {
            reveal_with_fuel(Seq::<_>::filter, 1);
            assert(ss.take(i + 1).drop_last() =~= ss.take(i as int));
            assert(ss.take(i + 1).last() == sources@[i as int]@);
        }
        let c = chars_of(sources[i].as_str());
        let already_there = match path_parent(&c) {
            Some(p) => path_eq(&p, &d),
            None => false,
        };
        let into_self = path_strip_prefix(&d, &c).is_some();
        if !already_there && !into_self {
            let ghost before = texts(out@);
            out.push(sources[i].clone());
            assert(texts(out@) =~= before.push(sources@[i as int]@));
        }
        i = i + 1;
    }
    assert(ss.take(sources@.len() as int) =~= ss);
    out
}

/// The paths of the selected items, in selection order, skipping indices
/// that name no item.
pub open spec fn selected_paths(items: Seq<FileItem>, selected: Seq<i32>) -> Seq<Seq<char>>
    decreases selected.len(),
{
    if selected.len() == 0 {
        seq![]
    } else {
        let prev = selected_paths(items, selected.drop_last());
        let s = selected.last() as int;
        if 0 <= s < items.len() {
            prev.push(items[s].path@)
        } else {
            prev
        }
    }
}

/// What dragging item `idx` carries: the whole selection when the item is
/// selected, otherwise the item alone (nothing when there is no such item).
pub open spec fn dragged_paths(items: Seq<FileItem>, selected: Seq<i32>, idx: int) -> Seq<Seq<char>> {
    if selected.contains(idx as i32) {
        selected_paths(items, selected)
    } else if 0 <= idx < items.len() {
        seq![items[idx].path@]
    } else {
        seq![]
    }
}

/// The paths a drag started on item `idx` carries, given the listing and
/// the selected indices.
pub fn drag_paths(items: &Vec<FileItem>, selected: &Vec<i32>, idx: usize) -> (r: Vec<String>)
    requires
        idx <= i32::MAX,
    ensures
        texts(r@) == dragged_paths(items@, selected@, idx as int),
{
    let mut hit = false;
    let mut k: usize = 0;
    while k < selected.len()
        invariant
            k <= selected@.len(),
            idx <= i32::MAX,
            hit == (exists|m: int| 0 <= m < k && selected@[m] == idx as i32),
        decreases selected.len() - k,
    {
        if selected[k] == idx as i32 {
            hit = true;
        }
        k = k + 1;
    }
    assert(hit == selected@.contains(idx as i32));
    let mut out: Vec<String> = Vec::new();
    if hit {
        let mut i: usize = 0;
        assert(selected@.take(0) =~= Seq::<i32>::empty());
        while i < selected.len()
            invariant
                i <= selected@.len(),
                texts(out@) == selected_paths(items@, selected@.take(i as int)),
            decreases selected.len() - i,
        {
            assert(selected@.take(i + 1).drop_last() =~= selected@.take(i as int));
            assert(selected@.take(i + 1).last() == selected@[i as int]);
            let s = selected[i];
            if s >= 0 && (s as usize) < items.len() {
                let ghost before = texts(out@);
                out.push(items[s as usize].path.clone());
                assert(texts(out@) =~= before.push(items@[s as int].path@));
            }
            i = i + 1;
        }
        assert(selected@.take(selected@.len() as int) =~= selected@);
    } else if idx < items.len() {
        out.push(items[idx].path.clone());
        assert(texts(out@) =~= seq![items@[idx as int].path@]);
    } else {
        assert(texts(out@) =~= seq![]);
    }
    out
}

/// A folder card takes drops unless its view is not a folder listing (the
/// trash, the drives, recent items or search results).
pub open spec fn accepts_drop(is_dir: bool, view: PaneView) -> bool {
    is_dir && !(view is Trash || view is SystemDrives || view is Recent || view is Search)
}

/// Whether a card takes dropped files.
pub fn folder_accepts_drop(is_dir: bool, view: &PaneView) -> (r: bool)
    ensures
        r == accepts_drop(is_dir, *view),
{
    is_dir && !matches!(view, PaneView::Trash | PaneView::SystemDrives | PaneView::Recent | PaneView::Search(_))
}

/// What a drop does.
#[derive(Clone, Copy, Debug, PartialEq, Eq, Structural)]
pub enum DropAction {
    Copy,
    Move,
}

/// A drop copies while Ctrl is held, and moves otherwise.
pub fn drop_action(ctrl_held: bool) -> (r: DropAction)
    ensures
        r == (if ctrl_held {
            DropAction::Copy
        } else {
            DropAction::Move
        }),
{
    if ctrl_held {
        DropAction::Copy
    } else {
        DropAction::Move
    }
}

/// The title of the preview shown while dragging: the item's name, or the
/// count when several are dragged.
pub open spec fn drag_title_text(name: Seq<char>, count: nat) -> Seq<char> {
    if count > 1 {
        decimal(count) + " items"@
    } else {
        name
    }
}

/// The title of the drag preview.
pub fn drag_preview_title(name: &str, count: usize) -> (r: String)
    ensures
        r@ == drag_title_text(name@, count as nat),
{
    if count > 1 {
        let mut out: Vec<char> = Vec::new();
        push_decimal(&mut out, count as u128);
        push_str(&mut out, " items");
        string_of(&out)
    } else {
        String::from_str(name)
    }
}

} // verus!
