//! The built-in file and folder picker: its modes, listing order,
//! navigation history and what confirming returns.
use crate::model::FileKind;
use crate::path::{join, parent, path_eq, path_join, path_parent, same_path};
use crate::sort::{
    lemma_filter_insert, lemma_filter_single, lemma_filter_split, lemma_text_order_antisym,
    lemma_text_order_trans, text_order, text_order_exec,
};
use crate::text::{chars_of, has_prefix, lower_ascii, lower_ascii_vec, string_of, trim, trim_vec};
use vstd::prelude::*;

verus! {

/// What the picker is used for.
#[derive(Clone, Debug)]
pub enum PickerMode {
    /// One existing folder.
    OpenFolder,
    /// One existing file.
    OpenFile,
    /// One or more existing files.
    OpenFiles,
    /// A folder and a name to save under.
    SaveFile { suggested_name: String },
}

/// A picker's mode, starting folder and whether hidden entries show.
#[derive(Clone, Debug)]
pub struct PickerConfig {
    pub mode: PickerMode,
    pub initial_dir: String,
    pub show_hidden: bool,
}

impl PickerConfig {
    /// A picker for one folder.
    pub fn open_folder(initial_dir: String) -> (r: Self)
        ensures
            r.mode is OpenFolder,
            r.initial_dir == initial_dir,
            !r.show_hidden,
    {
        PickerConfig { mode: PickerMode::OpenFolder, initial_dir, show_hidden: false }
    }

    /// A picker for one file.
    pub fn open_file(initial_dir: String) -> (r: Self)
        ensures
            r.mode is OpenFile,
            r.initial_dir == initial_dir,
            !r.show_hidden,
    {
        PickerConfig { mode: PickerMode::OpenFile, initial_dir, show_hidden: false }
    }

    /// A picker for several files.
    pub fn open_files(initial_dir: String) -> (r: Self)
        ensures
            r.mode is OpenFiles,
            r.initial_dir == initial_dir,
            !r.show_hidden,
    {
        PickerConfig { mode: PickerMode::OpenFiles, initial_dir, show_hidden: false }
    }

    /// A picker for saving, offering a name.
    pub fn save_file(initial_dir: String, suggested_name: &str) -> (r: Self)
        ensures
            r.mode matches PickerMode::SaveFile { suggested_name: n } && n@ == suggested_name@,
            r.initial_dir == initial_dir,
            !r.show_hidden,
    {
        PickerConfig {
            mode: PickerMode::SaveFile { suggested_name: String::from_str(suggested_name) },
            initial_dir,
            show_hidden: false,
        }
    }
}

/// What confirming the picker gives.
#[derive(Clone, Debug)]
pub enum PickerResult {
    Single(String),
    Multiple(Vec<String>),
}

/// An entry of the picker's listing.
#[derive(Clone, Debug)]
pub struct PickerEntry {
    pub name: String,
    pub path: String,
    pub kind: FileKind,
    pub is_dir: bool,
    pub size_bytes: Option<u64>,
}

/// Whether confirming is possible before anything is chosen: always for a
/// folder, for saving when a name is offered.
pub fn initial_confirm_sensitive(mode: &PickerMode) -> (r: bool)
    ensures
        r == match mode {
            PickerMode::OpenFolder => true,
            PickerMode::SaveFile { suggested_name } => suggested_name@.len() > 0,
            _ => false,
        },
{
    match mode {
        PickerMode::OpenFolder => true,
        PickerMode::SaveFile { suggested_name } => suggested_name.as_str().unicode_len() > 0,
        _ => false,
    }
}

/// The window title for a mode.
pub fn picker_title_str(mode: &PickerMode) -> (r: &'static str)
    ensures
        r@ == match mode {
            PickerMode::OpenFolder => "Choose Folder"@,
            PickerMode::OpenFile => "Open File"@,
            PickerMode::OpenFiles => "Open Files"@,
            PickerMode::SaveFile { .. } => "Save File"@,
        },
{
    match mode {
        PickerMode::OpenFolder => "Choose Folder",
        PickerMode::OpenFile => "Open File",
        PickerMode::OpenFiles => "Open Files",
        PickerMode::SaveFile { .. } => "Save File",
    }
}

/// The confirm button's label for a mode.
pub fn confirm_label_str(mode: &PickerMode) -> (r: &'static str)
    ensures
        r@ == match mode {
            PickerMode::OpenFolder => "Select Folder"@,
            PickerMode::OpenFile => "Open"@,
            PickerMode::OpenFiles => "Open"@,
            PickerMode::SaveFile { .. } => "Save"@,
        },
{
    match mode {
        PickerMode::OpenFolder => "Select Folder",
        PickerMode::OpenFile => "Open",
        PickerMode::OpenFiles => "Open",
        PickerMode::SaveFile { .. } => "Save",
    }
}

/// The picker's place: current folder and the folders to go back and
/// forward to (most recent last).
#[derive(Clone, Debug)]
pub struct PickerNav {
    pub current_dir: String,
    pub back_stack: Vec<String>,
    pub forward_stack: Vec<String>,
}

/// The texts of a navigation state: current, back, forward.
pub open spec fn nav_view(n: PickerNav) -> (Seq<char>, Seq<Seq<char>>, Seq<Seq<char>>) {
    (
        n.current_dir@,
        crate::clipboard::texts(n.back_stack@),
        crate::clipboard::texts(n.forward_stack@),
    )
}

/// The place after going to `dir`: the current folder is pushed on the back
/// history and the forward history is cleared.
pub open spec fn navigated(v: (Seq<char>, Seq<Seq<char>>, Seq<Seq<char>>), dir: Seq<char>) -> (
    Seq<char>,
    Seq<Seq<char>>,
    Seq<Seq<char>>,
) {
    (dir, v.1.push(v.0), Seq::empty())
}

/// The place after going back: the last folder of the back history becomes
/// current and the current one goes on the forward history.
pub open spec fn went_back(v: (Seq<char>, Seq<Seq<char>>, Seq<Seq<char>>)) -> (
    Seq<char>,
    Seq<Seq<char>>,
    Seq<Seq<char>>,
) {
    (v.1.last(), v.1.drop_last(), v.2.push(v.0))
}

/// The place after going forward: the last folder of the forward history
/// becomes current and the current one goes on the back history.
pub open spec fn went_forward(v: (Seq<char>, Seq<Seq<char>>, Seq<Seq<char>>)) -> (
    Seq<char>,
    Seq<Seq<char>>,
    Seq<Seq<char>>,
) {
    (v.2.last(), v.1.push(v.0), v.2.drop_last())
}

impl PickerNav {
    /// Starts at a folder with no history.
    pub fn new(dir: String) -> (r: Self)
        ensures
            nav_view(r) == (dir@, Seq::<Seq<char>>::empty(), Seq::<Seq<char>>::empty()),
    {
        let r = PickerNav { current_dir: dir, back_stack: Vec::new(), forward_stack: Vec::new() };
        assert(crate::clipboard::texts(r.back_stack@) =~= Seq::<Seq<char>>::empty());
        assert(crate::clipboard::texts(r.forward_stack@) =~= Seq::<Seq<char>>::empty());
        r
    }

    /// Goes to a folder: nothing happens when it is the current one (as a
    /// path); otherwise the current folder is pushed on the back history
    /// and the forward history is cleared. Returns whether it moved.
    pub fn navigate(&mut self, new_dir: String) -> (moved: bool)
        ensures
            moved == !same_path(old(self).current_dir@, new_dir@),
            !moved ==> nav_view(*final(self)) == nav_view(*old(self)),
            moved ==> nav_view(*final(self)) == navigated(nav_view(*old(self)), new_dir@),
    {
        let cur = chars_of(self.current_dir.as_str());
        if path_eq(&cur, &chars_of(new_dir.as_str())) {
            return false;
        }
        let ghost back0 = crate::clipboard::texts(self.back_stack@);
        let mut prev = new_dir;
        std::mem::swap(&mut self.current_dir, &mut prev);
        self.back_stack.push(prev);
        self.forward_stack.clear();
        assert(crate::clipboard::texts(self.back_stack@) =~= back0.push(old(self).current_dir@));
        assert(crate::clipboard::texts(self.forward_stack@) =~= Seq::<Seq<char>>::empty());
        true
    }

    /// Goes back one step, if there is one: the current folder goes on the
    /// forward history. Returns whether it moved.
    pub fn go_back(&mut self) -> (moved: bool)
        ensures
            moved == (old(self).back_stack@.len() > 0),
            !moved ==> nav_view(*final(self)) == nav_view(*old(self)),
            moved ==> nav_view(*final(self)) == went_back(nav_view(*old(self))),
    {
        let ghost v0 = nav_view(*self);
        match self.back_stack.pop() {
            Some(prev) => {
                let mut cur = prev;
                std::mem::swap(&mut self.current_dir, &mut cur);
                self.forward_stack.push(cur);
                assert(crate::clipboard::texts(self.back_stack@) =~= v0.1.drop_last());
                assert(crate::clipboard::texts(self.forward_stack@) =~= v0.2.push(v0.0));
                true
            },
            None => false,
        }
    }

    /// Goes forward one step, if there is one: the current folder goes on
    /// the back history. Returns whether it moved.
    pub fn go_forward(&mut self) -> (moved: bool)
        ensures
            moved == (old(self).forward_stack@.len() > 0),
            !moved ==> nav_view(*final(self)) == nav_view(*old(self)),
            moved ==> nav_view(*final(self)) == went_forward(nav_view(*old(self))),
    {
        let ghost v0 = nav_view(*self);
        match self.forward_stack.pop() {
            Some(next) => {
                let mut cur = next;
                std::mem::swap(&mut self.current_dir, &mut cur);
                self.back_stack.push(cur);
                assert(crate::clipboard::texts(self.back_stack@) =~= v0.1.push(v0.0));
                assert(crate::clipboard::texts(self.forward_stack@) =~= v0.2.drop_last());
                true
            },
            None => false,
        }
    }

    /// Whether going up is possible: the folder has a parent that is not
    /// itself.
    pub fn can_go_up(&self) -> (r: bool)
        ensures
            r == match parent(self.current_dir@) {
                Some(p) => !same_path(p, self.current_dir@),
                None => false,
            },
    {
        let cur = chars_of(self.current_dir.as_str());
        match path_parent(&cur) {
            Some(p) => !path_eq(&p, &cur),
            None => false,
        }
    }
}

/// Going to another folder and then back returns to where the picker was,
/// with that folder alone on the forward history.
pub proof fn lemma_navigate_then_back(start: (Seq<char>, Seq<Seq<char>>, Seq<Seq<char>>), dir: Seq<char>)
    ensures
        went_back(navigated(start, dir)) == (start.0, start.1, seq![dir]),
{
    assert(start.1.push(start.0).drop_last() =~= start.1);
    assert(Seq::<Seq<char>>::empty().push(dir) =~= seq![dir]);
}

/// Going back and then forward restores the place and both histories, and
/// so does going forward and then back.
pub proof fn lemma_back_then_forward(start: (Seq<char>, Seq<Seq<char>>, Seq<Seq<char>>))
    ensures
        start.1.len() > 0 ==> went_forward(went_back(start)) == start,
        start.2.len() > 0 ==> went_back(went_forward(start)) == start,
{
    if start.1.len() > 0 {
        assert(start.1.drop_last().push(start.1.last()) =~= start.1);
        assert(start.2.push(start.0).drop_last() =~= start.2);
    }
    if start.2.len() > 0 {
        assert(start.2.drop_last().push(start.2.last()) =~= start.2);
        assert(start.1.push(start.0).drop_last() =~= start.1);
    }
}

} // verus!

verus! {

/// Whether an element's key is `k`.
pub open spec fn keyed<T>(key: spec_fn(T) -> Seq<char>, k: Seq<char>) -> spec_fn(T) -> bool {
    |y: T| key(y) == k
}

/// `r` is `s` ordered by text key, stably.
pub open spec fn text_sorted<T>(r: Seq<T>, s: Seq<T>, key: spec_fn(T) -> Seq<char>) -> bool {
    &&& r.to_multiset() == s.to_multiset()
    &&& forall|a: int, b: int|
        0 <= a < b < r.len() ==> text_order(key(#[trigger] r[a]), key(#[trigger] r[b])) <= 0
    &&& forall|k: Seq<char>| #[trigger] r.filter(keyed(key, k)) == s.filter(keyed(key, k))
}

/// Sorts by a text key, stably; `keys` holds each element's key.
fn sort_by_text_key<T>(v: Vec<T>, keys: Vec<Vec<char>>, Ghost(key): Ghost<spec_fn(T) -> Seq<char>>) -> (r:
    Vec<T>)
    requires
        keys@.len() == v@.len(),
        forall|i: int| 0 <= i < v@.len() ==> keys@[i]@ == key(#[trigger] v@[i]),
    ensures
        text_sorted(r@, v@, key),
{
    let mut input = v;
    let mut ks = keys;
    let ghost orig = input@;
    let mut out: Vec<T> = Vec::new();
    let mut okeys: Vec<Vec<char>> = Vec::new();
    let ghost mut done: int = 0;
    assert(orig.skip(0) =~= orig);
    assert(orig.take(0) =~= out@);
    while input.len() > 0
        invariant
            0 <= done <= orig.len(),
            input@ == orig.skip(done),
            ks@.len() == input@.len(),
            forall|i: int| 0 <= i < input@.len() ==> ks@[i]@ == key(#[trigger] input@[i]),
            out@.len() == done,
            okeys@.len() == out@.len(),
            forall|t: int| 0 <= t < out@.len() ==> okeys@[t]@ == key(#[trigger] out@[t]),
            out@.to_multiset() == orig.take(done).to_multiset(),
            forall|a: int, b: int|
                0 <= a < b < out@.len() ==> text_order(key(#[trigger] out@[a]), key(#[trigger] out@[b]))
                    <= 0,
            forall|k: Seq<char>| #[trigger]
                out@.filter(keyed(key, k)) == orig.take(done).filter(keyed(key, k)),
        decreases input.len(),
    {
        assert(ks@[0]@ == key(input@[0]));
        let ghost in0 = input@;
        let ghost ks0 = ks@;
        let x = input.remove(0);
        let kx = ks.remove(0);
        assert(x == orig[done]);
        assert(input@ =~= orig.skip(done + 1));
        assert forall|i: int| 0 <= i < input@.len() implies ks@[i]@ == key(#[trigger] input@[i]) by {
            assert(input@[i] == in0[i + 1]);
            assert(ks@[i] == ks0[i + 1]);
            assert(ks0[i + 1]@ == key(in0[i + 1]));
        }
        let ghost xk = key(x);
        let mut j: usize = 0;
        while j < out.len() && text_order_exec(&okeys[j], &kx) <= 0
            invariant
                j <= out@.len(),
                okeys@.len() == out@.len(),
                forall|t: int| 0 <= t < out@.len() ==> okeys@[t]@ == key(#[trigger] out@[t]),
                kx@ == xk,
                xk == key(x),
                forall|t: int| 0 <= t < j ==> text_order(key(#[trigger] out@[t]), xk) <= 0,
            decreases out.len() - j,
        {
            assert(okeys@[j as int]@ == key(out@[j as int]));
            j = j + 1;
        }
        let ghost old_out = out@;
        let ghost old_keys = okeys@;
        proof {
            if j < out@.len() {
                assert(okeys@[j as int]@ == key(out@[j as int]));
            }
            assert forall|t: int| j <= t < old_out.len() implies text_order(
                key(#[trigger] old_out[t]),
                xk,
            ) > 0 && text_order(xk, key(old_out[t])) < 0 by {
                let kj = key(old_out[j as int]);
                let kt = key(old_out[t]);
                lemma_text_order_antisym(kj, xk);
                lemma_text_order_antisym(kt, xk);
                if t > j {
                    assert(text_order(kj, kt) <= 0);
                    if text_order(kt, xk) <= 0 {
                        lemma_text_order_trans(kj, kt, xk);
                    }
                }
            }
        }
        out.insert(j, x);
        okeys.insert(j, kx);
        proof {
            let newo = out@;
            assert(newo == old_out.insert(j as int, x));
            assert forall|t: int| 0 <= t < newo.len() implies okeys@[t]@ == key(#[trigger] newo[t]) by {
                if t < j {
                    assert(okeys@[t] == old_keys[t]);
                } else if t > j {
                    assert(okeys@[t] == old_keys[t - 1]);
                    assert(newo[t] == old_out[t - 1]);
                }
            }
            vstd::seq_lib::to_multiset_insert(old_out, j as int, x);
            assert(orig.take(done + 1) =~= orig.take(done).push(x));
            vstd::seq_lib::to_multiset_build(orig.take(done), x);
            assert forall|a: int, b: int| 0 <= a < b < newo.len() implies text_order(
                key(#[trigger] newo[a]),
                key(#[trigger] newo[b]),
            ) <= 0 by {
                if b < j {
                    assert(text_order(key(old_out[a]), key(old_out[b])) <= 0);
                } else if b == j {
                    assert(text_order(key(old_out[a]), xk) <= 0);
                } else if a < j {
                    assert(text_order(key(old_out[a]), xk) <= 0);
                    assert(text_order(xk, key(old_out[b - 1])) < 0);
                    lemma_text_order_trans(key(old_out[a]), xk, key(old_out[b - 1]));
                } else if a == j {
                    assert(text_order(xk, key(old_out[b - 1])) < 0);
                } else {
                    assert(text_order(key(old_out[a - 1]), key(old_out[b - 1])) <= 0);
                }
            }
            assert forall|k: Seq<char>| #[trigger]
                newo.filter(keyed(key, k)) == orig.take(done + 1).filter(keyed(key, k)) by {
                let p = keyed(key, k);
                let prev = orig.take(done);
                assert(old_out.filter(p) == prev.filter(p));
                lemma_filter_insert(old_out, j as int, x, p);
                lemma_filter_split(old_out, j as int, p);
                lemma_filter_single(x, p);
                let a = old_out.take(j as int).filter(p);
                let rest = old_out.skip(j as int);
                assert(orig.take(done + 1).filter(p) == (if p(x) {
                    prev.filter(p).push(x)
                } else {
                    prev.filter(p)
                })) by {
                    reveal_with_fuel(Seq::<_>::filter, 1);
                    assert(orig.take(done + 1).drop_last() =~= prev);
                    assert(orig.take(done + 1).last() == x);
                }
                if p(x) {
                    assert forall|t: int| 0 <= t < rest.len() implies !p(#[trigger] rest[t]) by {
                        assert(rest[t] == old_out[j + t]);
                        lemma_text_order_antisym(xk, xk);
                    }
                    rest.lemma_all_neg_filter_empty(p);
                    assert(rest.filter(p) =~= Seq::<T>::empty());
                    assert(newo.filter(p) =~= a + seq![x]);
                    assert(prev.filter(p) =~= a);
                } else {
                    assert(newo.filter(p) =~= a + rest.filter(p));
                }
            }
        }
        proof {
            done = done + 1;
        }
    }
    assert(orig.take(done) =~= orig);
    out
}

} // verus!

verus! {

/// The entry is shown: hidden entries (name starting with ".") only when
/// asked for.
pub open spec fn shown_entry(e: PickerEntry, show_hidden: bool) -> bool {
    show_hidden || !has_prefix(e.name@, "."@)
}

/// Whether an entry of that name is listed: names starting with "." only
/// when hidden entries are asked for.
pub fn is_shown_name(name: &str, show_hidden: bool) -> (r: bool)
    ensures
        r == (show_hidden || !has_prefix(name@, "."@)),
{
    show_hidden || !crate::text::starts_with(&chars_of(name), &chars_of("."))
}

/// The key by which entries are ordered: the ASCII lower-case name.
pub open spec fn name_key(e: PickerEntry) -> Seq<char> {
    lower_ascii(e.name@)
}

/// `s` holds the shown entries ordered by lower-case name, stably.
pub open spec fn names_sorted(s: Seq<PickerEntry>, es: Seq<PickerEntry>, show_hidden: bool) -> bool {
    text_sorted(s, es.filter(|e: PickerEntry| shown_entry(e, show_hidden)), |e: PickerEntry| name_key(e))
}

/// The picker's listing of a folder's entries: hidden ones left out unless
/// asked for, folders first, each group ordered by lower-case name (equal
/// names keep their order).
pub open spec fn picker_listing_of(r: Seq<PickerEntry>, es: Seq<PickerEntry>, show_hidden: bool) -> bool {
    exists|s: Seq<PickerEntry>|
        #[trigger] names_sorted(s, es, show_hidden) && r == s.filter(|e: PickerEntry| e.is_dir) + s.filter(|e: PickerEntry| !e.is_dir)
}

/// Orders a folder's entries for the picker.
pub fn picker_listing(entries: Vec<PickerEntry>, show_hidden: bool) -> (r: Vec<PickerEntry>)
    ensures
        picker_listing_of(r@, entries@, show_hidden),
{
    let ghost es = entries@;
    let ghost vis = |e: PickerEntry| shown_entry(e, show_hidden);
    let mut kept: Vec<PickerEntry> = Vec::new();
    let mut keys: Vec<Vec<char>> = Vec::new();
    let mut input = entries;
    let ghost mut i: int = 0;
    let dot = chars_of(".");
    assert(es.skip(0) =~= es);
    while input.len() > 0
        invariant
            0 <= i <= es.len(),
            input@ == es.skip(i),
            dot@ == "."@,
            vis == (|e: PickerEntry| shown_entry(e, show_hidden)),
            kept@ == es.take(i).filter(vis),
            keys@.len() == kept@.len(),
            forall|t: int| 0 <= t < kept@.len() ==> keys@[t]@ == name_key(#[trigger] kept@[t]),
        decreases input.len(),
    {
        proof {
            reveal_with_fuel(Seq::<_>::filter, 1);
            assert(es.take(i + 1).drop_last() =~= es.take(i));
            assert(es.take(i + 1).last() == es[i]);
        }
        let e = input.remove(0);
        assert(e == es[i]);
        assert(input@ =~= es.skip(i + 1));
        let name = chars_of(e.name.as_str());
        if show_hidden || !crate::text::starts_with(&name, &dot) {
            keys.push(lower_ascii_vec(&name));
            kept.push(e);
        }
        proof {
            i = i + 1;
        }
    }
    assert(es.take(es.len() as int) =~= es);
    let sorted = sort_by_text_key(kept, keys, Ghost(|e: PickerEntry| name_key(e)));
    let ghost s = sorted@;
    let ghost isdir = |e: PickerEntry| e.is_dir;
    let ghost isfile = |e: PickerEntry| !e.is_dir;
    let mut dirs: Vec<PickerEntry> = Vec::new();
    let mut files: Vec<PickerEntry> = Vec::new();
    let mut rest = sorted;
    let ghost mut j: int = 0;
    assert(s.skip(0) =~= s);
    while rest.len() > 0
        invariant
            0 <= j <= s.len(),
            rest@ == s.skip(j),
            isdir == (|e: PickerEntry| e.is_dir),
            isfile == (|e: PickerEntry| !e.is_dir),
            dirs@ == s.take(j).filter(isdir),
            files@ == s.take(j).filter(isfile),
        decreases rest.len(),
    {
        proof {
            reveal_with_fuel(Seq::<_>::filter, 1);
            assert(s.take(j + 1).drop_last() =~= s.take(j));
            assert(s.take(j + 1).last() == s[j]);
        }
        let e = rest.remove(0);
        assert(e == s[j]);
        assert(rest@ =~= s.skip(j + 1));
        if e.is_dir {
            dirs.push(e);
        } else {
            files.push(e);
        }
        proof {
            j = j + 1;
        }
    }
    assert(s.take(s.len() as int) =~= s);
    let ghost d = dirs@;
    dirs.append(&mut files);
    assert(dirs@ == d + s.filter(isfile));
    assert(names_sorted(s, es, show_hidden));
    dirs
}

} // verus!

verus! {

/// The selected entries, in selection order; indices past the listing are
/// ignored.
pub open spec fn selected(indices: Seq<usize>, items: Seq<PickerEntry>) -> Seq<PickerEntry>
    decreases indices.len(),
{
    if indices.len() == 0 {
        seq![]
    } else {
        let prev = selected(indices.drop_last(), items);
        let i = indices.last();
        if i < items.len() {
            prev.push(items[i as int])
        } else {
            prev
        }
    }
}

/// The paths of the selected entries that are (or are not) folders.
pub open spec fn selected_paths(indices: Seq<usize>, items: Seq<PickerEntry>, dirs: bool) -> Seq<Seq<char>> {
    selected(indices, items).filter(|e: PickerEntry| e.is_dir == dirs).map_values(
        |e: PickerEntry| e.path@,
    )
}

/// Whether confirming is possible: always for a folder; for files when a
/// file is selected; for saving when the name is not blank.
pub open spec fn confirm_possible(
    mode: PickerMode,
    indices: Seq<usize>,
    items: Seq<PickerEntry>,
    save_text: Seq<char>,
) -> bool {
    match mode {
        PickerMode::OpenFolder => true,
        PickerMode::OpenFile => selected_paths(indices, items, false).len() > 0,
        PickerMode::OpenFiles => selected_paths(indices, items, false).len() > 0,
        PickerMode::SaveFile { .. } => trim(save_text).len() > 0,
    }
}

/// What confirming gives, as plain values: one path, or several.
pub open spec fn confirm_result(
    mode: PickerMode,
    dir: Seq<char>,
    indices: Seq<usize>,
    items: Seq<PickerEntry>,
    save_text: Seq<char>,
) -> Option<(bool, Seq<Seq<char>>)> {
    let dirs = selected_paths(indices, items, true);
    let files = selected_paths(indices, items, false);
    match mode {
        PickerMode::OpenFolder => Some(
            (
                false,
                seq![
                    if dirs.len() > 0 {
                        dirs[0]
                    } else {
                        dir
                    },
                ],
            ),
        ),
        PickerMode::OpenFile => if files.len() > 0 {
            Some((false, seq![files[0]]))
        } else {
            None
        },
        PickerMode::OpenFiles => if files.len() > 0 {
            Some((true, files))
        } else {
            None
        },
        PickerMode::SaveFile { .. } => if trim(save_text).len() > 0 {
            Some((false, seq![join(dir, trim(save_text))]))
        } else {
            None
        },
    }
}

/// The plain values of a picker result.
pub open spec fn result_view(r: Option<PickerResult>) -> Option<(bool, Seq<Seq<char>>)> {
    match r {
        Some(PickerResult::Single(p)) => Some((false, seq![p@])),
        Some(PickerResult::Multiple(ps)) => Some((true, crate::clipboard::texts(ps@))),
        None => None,
    }
}

/// The paths of the selected folders and files, in selection order.
fn selected_split(indices: &Vec<usize>, items: &Vec<PickerEntry>) -> (r: (Vec<String>, Vec<String>))
    ensures
        crate::clipboard::texts(r.0@) == selected_paths(indices@, items@, true),
        crate::clipboard::texts(r.1@) == selected_paths(indices@, items@, false),
{
    let ghost pd = |e: PickerEntry| e.is_dir == true;
    let ghost pf = |e: PickerEntry| e.is_dir == false;
    let ghost pv = |e: PickerEntry| e.path@;
    let mut dirs: Vec<String> = Vec::new();
    let mut files: Vec<String> = Vec::new();
    let mut k: usize = 0;
    while k < indices.len()
        invariant
            k <= indices@.len(),
            pd == (|e: PickerEntry| e.is_dir == true),
            pf == (|e: PickerEntry| e.is_dir == false),
            pv == (|e: PickerEntry| e.path@),
            crate::clipboard::texts(dirs@) == selected(indices@.take(k as int), items@).filter(pd).map_values(pv),
            crate::clipboard::texts(files@) == selected(indices@.take(k as int), items@).filter(pf).map_values(pv),
        decreases indices.len() - k,
    {
        let ghost sel0 = selected(indices@.take(k as int), items@);
        assert(indices@.take(k + 1).drop_last() =~= indices@.take(k as int));
        assert(indices@.take(k + 1).last() == indices@[k as int]);
        let i = indices[k];
        if i < items.len() {
            let e = &items[i];
            let ghost sel1 = sel0.push(items@[i as int]);
            assert(selected(indices@.take(k + 1), items@) == sel1);
            proof {
                reveal_with_fuel(Seq::<_>::filter, 1);
                assert(sel1.drop_last() =~= sel0);
            }
            let ghost d0 = crate::clipboard::texts(dirs@);
            let ghost f0 = crate::clipboard::texts(files@);
            if e.is_dir {
                dirs.push(e.path.clone());
                assert(crate::clipboard::texts(dirs@) =~= d0.push(e.path@));
                assert(sel1.filter(pd) == sel0.filter(pd).push(*e));
                assert(sel1.filter(pf) == sel0.filter(pf));
                assert(sel1.filter(pd).map_values(pv) =~= sel0.filter(pd).map_values(pv).push(e.path@));
            } else {
                files.push(e.path.clone());
                assert(crate::clipboard::texts(files@) =~= f0.push(e.path@));
                assert(sel1.filter(pf) == sel0.filter(pf).push(*e));
                assert(sel1.filter(pd) == sel0.filter(pd));
                assert(sel1.filter(pf).map_values(pv) =~= sel0.filter(pf).map_values(pv).push(e.path@));
            }
        }
        k = k + 1;
    }
    assert(indices@.take(indices@.len() as int) =~= indices@);
    (dirs, files)
}

/// Whether the picker's confirm button is enabled.
pub fn update_confirm_sensitivity(
    mode: &PickerMode,
    indices: &Vec<usize>,
    items: &Vec<PickerEntry>,
    save_text: &str,
) -> (r: bool)
    ensures
        r == confirm_possible(*mode, indices@, items@, save_text@),
{
    match mode {
        PickerMode::OpenFolder => true,
        PickerMode::OpenFile | PickerMode::OpenFiles => {
            let (_dirs, files) = selected_split(indices, items);
            files.len() > 0
        },
        PickerMode::SaveFile { .. } => trim_vec(&chars_of(save_text)).len() > 0,
    }
}

/// What confirming the picker returns, from the current folder, the
/// selection and the typed name; nothing when it cannot confirm.
pub fn fire_confirm(
    mode: &PickerMode,
    dir: &str,
    indices: &Vec<usize>,
    items: &Vec<PickerEntry>,
    save_text: &str,
) -> (r: Option<PickerResult>)
    ensures
        result_view(r) == confirm_result(*mode, dir@, indices@, items@, save_text@),
{
    let (dirs, files) = selected_split(indices, items);
    match mode {
        PickerMode::OpenFolder => {
            if dirs.len() > 0 {
                Some(PickerResult::Single(dirs[0].clone()))
            } else {
                Some(PickerResult::Single(String::from_str(dir)))
            }
        },
        PickerMode::OpenFile => {
            if files.len() > 0 {
                Some(PickerResult::Single(files[0].clone()))
            } else {
                None
            }
        },
        PickerMode::OpenFiles => {
            if files.len() > 0 {
                Some(PickerResult::Multiple(files))
            } else {
                None
            }
        },
        PickerMode::SaveFile { .. } => {
            let name = trim_vec(&chars_of(save_text));
            if name.len() == 0 {
                None
            } else {
                Some(PickerResult::Single(string_of(&path_join(&chars_of(dir), &name))))
            }
        },
    }
}

} // verus!
