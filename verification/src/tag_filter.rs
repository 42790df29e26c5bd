//! Filtering a listing by tags, mark tints and mark shapes.
use crate::model::{FileItem, Shape, TagRecord, TintRecord};
use crate::number::{decimal, push_decimal};
use crate::text::{push_str, string_of};
use vstd::prelude::*;

verus! {

/// How several selected tags combine: every one, or any one.
#[derive(Clone, Copy, Debug, PartialEq, Eq, Structural)]
pub enum CombineMode {
    And,
    Or,
}

impl CombineMode {
    /// The text of the mode switch.
    pub fn label(self) -> (r: &'static str)
        ensures
            r@ == (if self == CombineMode::And {
                "All match"@
            } else {
                "Any match"@
            }),
    {
        match self {
            CombineMode::And => "All match",
            CombineMode::Or => "Any match",
        }
    }

    /// The other mode.
    pub fn toggled(self) -> (r: Self)
        ensures
            r == other_mode(self),
    {
        match self {
            CombineMode::And => CombineMode::Or,
            CombineMode::Or => CombineMode::And,
        }
    }
}

/// The mode that toggling switches to.
pub open spec fn other_mode(m: CombineMode) -> CombineMode {
    if m == CombineMode::And {
        CombineMode::Or
    } else {
        CombineMode::And
    }
}

/// Toggling changes the mode, and toggling twice gives it back.
pub proof fn lemma_toggle_twice(m: CombineMode)
    ensures
        other_mode(m) != m,
        other_mode(other_mode(m)) == m,
{
}

/// The selected tags (with how they combine), tints and shapes.
#[derive(Clone, Debug)]
pub struct TagFilterSpec {
    pub active_ids: Vec<i64>,
    pub mode: CombineMode,
    pub active_tint_ids: Vec<i64>,
    pub active_shapes: Vec<Shape>,
}

/// The item carries the tag `id`.
pub open spec fn has_tag(item: FileItem, id: i64) -> bool {
    exists|j: int| 0 <= j < item.tags@.len() && (#[trigger] item.tags@[j]).id == id
}

/// An item passes the filter: it has all (or any, by mode) of the selected
/// tags, its tint is one of the selected tints, and its shape one of the
/// selected shapes; an empty selection of a kind lets every item through.
pub open spec fn filter_matches(spec: TagFilterSpec, item: FileItem) -> bool {
    let ids = spec.active_ids@;
    let tag_ok = ids.len() == 0 || match spec.mode {
        CombineMode::And => forall|i: int| 0 <= i < ids.len() ==> has_tag(item, #[trigger] ids[i]),
        CombineMode::Or => exists|i: int| 0 <= i < ids.len() && has_tag(item, #[trigger] ids[i]),
    };
    let tint_ok = spec.active_tint_ids@.len() == 0 || spec.active_tint_ids@.contains(
        item.mark_tint_id,
    );
    let shape_ok = spec.active_shapes@.len() == 0 || spec.active_shapes@.contains(item.mark_shape);
    tag_ok && tint_ok && shape_ok
}

fn item_has_tag(item: &FileItem, id: i64) -> (r: bool)
    ensures
        r == has_tag(*item, id),
{
    let mut j: usize = 0;
    while j < item.tags.len()
        invariant
            j <= item.tags@.len(),
            forall|k: int| 0 <= k < j ==> (#[trigger] item.tags@[k]).id != id,
        decreases item.tags.len() - j,
    {
        if item.tags[j].id == id {
            return true;
        }
        j = j + 1;
    }
    false
}

fn contains_id(v: &Vec<i64>, x: i64) -> (r: bool)
    ensures
        r == v@.contains(x),
{
    let mut i: usize = 0;
    while i < v.len()
        invariant
            i <= v@.len(),
            forall|k: int| 0 <= k < i ==> v@[k] != x,
        decreases v.len() - i,
    {
        if v[i] == x {
            assert(v@[i as int] == x);
            return true;
        }
        i = i + 1;
    }
    false
}

fn contains_shape(v: &Vec<Shape>, x: Shape) -> (r: bool)
    ensures
        r == v@.contains(x),
{
    let mut i: usize = 0;
    while i < v.len()
        invariant
            i <= v@.len(),
            forall|k: int| 0 <= k < i ==> v@[k] != x,
        decreases v.len() - i,
    {
        if v[i] == x {
            assert(v@[i as int] == x);
            return true;
        }
        i = i + 1;
    }
    false
}

impl TagFilterSpec {
    /// A filter with nothing selected, combining tags with And.
    pub fn empty() -> (r: Self)
        ensures
            r.active_ids@.len() == 0,
            r.active_tint_ids@.len() == 0,
            r.active_shapes@.len() == 0,
            r.mode == CombineMode::And,
    {
        TagFilterSpec {
            active_ids: Vec::new(),
            mode: CombineMode::And,
            active_tint_ids: Vec::new(),
            active_shapes: Vec::new(),
        }
    }

    /// Nothing is selected.
    pub fn is_empty(&self) -> (r: bool)
        ensures
            r == (self.active_ids@.len() == 0 && self.active_tint_ids@.len() == 0
                && self.active_shapes@.len() == 0),
    {
        self.active_ids.len() == 0 && self.active_tint_ids.len() == 0 && self.active_shapes.len()
            == 0
    }

    /// How many tags, tints and shapes are selected.
    pub fn active_count(&self) -> (r: usize)
        requires
            self.active_ids@.len() + self.active_tint_ids@.len() + self.active_shapes@.len()
                <= usize::MAX,
        ensures
            r == self.active_ids@.len() + self.active_tint_ids@.len() + self.active_shapes@.len(),
    {
        self.active_ids.len() + self.active_tint_ids.len() + self.active_shapes.len()
    }

    /// Whether the item passes the filter.
    pub fn matches(&self, item: &FileItem) -> (r: bool)
        ensures
            r == filter_matches(*self, *item),
    {
        if self.active_ids.len() > 0 {
            let tag_match = match self.mode {
                CombineMode::And => {
                    let mut i: usize = 0;
                    let mut all = true;
                    while i < self.active_ids.len()
                        invariant
                            i <= self.active_ids@.len(),
                            all == (forall|k: int|
                                0 <= k < i ==> has_tag(*item, #[trigger] self.active_ids@[k])),
                        decreases self.active_ids.len() - i,
                    {
                        if !item_has_tag(item, self.active_ids[i]) {
                            all = false;
                        }
                        i = i + 1;
                    }
                    all
                },
                CombineMode::Or => {
                    let mut i: usize = 0;
                    let mut any = false;
                    while i < self.active_ids.len()
                        invariant
                            i <= self.active_ids@.len(),
                            any == (exists|k: int|
                                0 <= k < i && has_tag(*item, #[trigger] self.active_ids@[k])),
                        decreases self.active_ids.len() - i,
                    {
                        if item_has_tag(item, self.active_ids[i]) {
                            any = true;
                        }
                        i = i + 1;
                    }
                    any
                },
            };
            if !tag_match {
                return false;
            }
        }
        if self.active_tint_ids.len() > 0 && !contains_id(&self.active_tint_ids, item.mark_tint_id) {
            return false;
        }
        if self.active_shapes.len() > 0 && !contains_shape(&self.active_shapes, item.mark_shape) {
            return false;
        }
        true
    }

    /// Deselects everything, keeping the mode.
    pub fn clear(&mut self)
        ensures
            final(self).active_ids@.len() == 0,
            final(self).active_tint_ids@.len() == 0,
            final(self).active_shapes@.len() == 0,
            final(self).mode == old(self).mode,
    {
        self.active_ids.clear();
        self.active_tint_ids.clear();
        self.active_shapes.clear();
    }
}

/// A filter with nothing selected lets every item through.
pub proof fn lemma_empty_filter_matches_all(spec: TagFilterSpec, item: FileItem)
    requires
        spec.active_ids@.len() == 0,
        spec.active_tint_ids@.len() == 0,
        spec.active_shapes@.len() == 0,
    ensures
        filter_matches(spec, item),
{
}

/// The header of the filter panel for a number of active selections.
pub open spec fn filter_header_text(total: nat) -> Seq<char> {
    if total == 0 {
        "\u{1f3f7}  Filter by Marks & Tags"@
    } else {
        "\u{1f3f7}  Filter  \u{b7}  "@ + decimal(total) + " active"@
    }
}

/// The header text of the filter panel.
pub fn filter_header_label(total: usize) -> (r: String)
    ensures
        r@ == filter_header_text(total as nat),
{
    let mut out: Vec<char> = Vec::new();
    if total == 0 {
        push_str(&mut out, "\u{1f3f7}  Filter by Marks & Tags");
    } else {
        push_str(&mut out, "\u{1f3f7}  Filter  \u{b7}  ");
        push_decimal(&mut out, total as u128);
        push_str(&mut out, " active");
    }
    assert(out@ =~= filter_header_text(total as nat));
    string_of(&out)
}

/// The And/Or switch is offered only when at least two tags are selected.
pub fn mode_switch_visible(spec: &TagFilterSpec) -> (r: bool)
    ensures
        r == (spec.active_ids@.len() >= 2),
{
    spec.active_ids.len() >= 2
}

/// The label of a shape in the shape chips and menus.
pub open spec fn shape_label(s: Shape) -> Seq<char> {
    match s {
        Shape::Circle => "\u{25cf} Circle"@,
        Shape::Square => "\u{25a0} Square"@,
        Shape::Triangle => "\u{25b2} Triangle"@,
        Shape::Pentagon => "\u{2b20} Pentagon"@,
        Shape::Hexagon => "\u{2b21} Hexagon"@,
        Shape::Octagon => "\u{2bc3} Octagon"@,
        Shape::Trapezoid => "\u{23e2} Trapezoid"@,
    }
}

/// The label of a shape, with its symbol.
pub fn shape_label_text(shape: Shape) -> (r: &'static str)
    ensures
        r@ == shape_label(shape),
{
    match shape {
        Shape::Circle => "\u{25cf} Circle",
        Shape::Square => "\u{25a0} Square",
        Shape::Triangle => "\u{25b2} Triangle",
        Shape::Pentagon => "\u{2b20} Pentagon",
        Shape::Hexagon => "\u{2b21} Hexagon",
        Shape::Octagon => "\u{2bc3} Octagon",
        Shape::Trapezoid => "\u{23e2} Trapezoid",
    }
}

/// The first tag with the given id.
pub open spec fn tag_with_id(ts: Seq<TagRecord>, id: i64) -> Option<TagRecord>
    decreases ts.len(),
{
    if ts.len() == 0 {
        None
    } else if ts[0].id == id {
        Some(ts[0])
    } else {
        tag_with_id(ts.drop_first(), id)
    }
}

fn find_tag(ts: &Vec<TagRecord>, id: i64) -> (r: Option<usize>)
    ensures
        match r {
            Some(i) => i < ts@.len() && tag_with_id(ts@, id) == Some(ts@[i as int]),
            None => tag_with_id(ts@, id) is None,
        },
{
    let mut i: usize = 0;
    assert(ts@.subrange(0, ts@.len() as int) =~= ts@);
    while i < ts.len()
        invariant
            i <= ts@.len(),
            tag_with_id(ts@, id) == tag_with_id(ts@.subrange(i as int, ts@.len() as int), id),
        decreases ts.len() - i,
    {
        let ghost rest = ts@.subrange(i as int, ts@.len() as int);
        assert(rest.drop_first() =~= ts@.subrange(i + 1, ts@.len() as int));
        if ts[i].id == id {
            return Some(i);
        }
        i = i + 1;
    }
    assert(ts@.subrange(i as int, ts@.len() as int).len() == 0);
    None
}

/// The chips of the active selection: `#name` for each selected tag that
/// exists, `● name` for each selected tint that exists, then the shape
/// labels, each group in selection order.
pub open spec fn active_chip_texts(
    spec: TagFilterSpec,
    tags: Seq<TagRecord>,
    tints: Seq<TintRecord>,
) -> Seq<Seq<char>> {
    tag_chips(spec.active_ids@, tags) + tint_chips(spec.active_tint_ids@, tints) + spec.active_shapes@.map_values(
        |s: Shape| shape_label(s),
    )
}

/// `#name` for each id that names a tag.
pub open spec fn tag_chips(ids: Seq<i64>, tags: Seq<TagRecord>) -> Seq<Seq<char>>
    decreases ids.len(),
{
    if ids.len() == 0 {
        seq![]
    } else {
        let prev = tag_chips(ids.drop_last(), tags);
        match tag_with_id(tags, ids.last()) {
            Some(t) => prev.push("#"@ + t.name@),
            None => prev,
        }
    }
}

/// `● name` for each id that names a tint.
pub open spec fn tint_chips(ids: Seq<i64>, tints: Seq<TintRecord>) -> Seq<Seq<char>>
    decreases ids.len(),
{
    if ids.len() == 0 {
        seq![]
    } else {
        let prev = tint_chips(ids.drop_last(), tints);
        match crate::format::tint_with_id(tints, ids.last()) {
            Some(t) => prev.push("\u{25cf} "@ + t.name@),
            None => prev,
        }
    }
}

/// The texts of the chips that show the active selection.
pub fn active_chip_labels(spec: &TagFilterSpec, tags: &Vec<TagRecord>, tints: &[TintRecord]) -> (r:
    Vec<String>)
    ensures
        crate::clipboard::texts(r@) == active_chip_texts(*spec, tags@, tints@),
{
    let ghost out_texts = |v: Seq<String>| crate::clipboard::texts(v);
    let mut out: Vec<String> = Vec::new();
    let mut i: usize = 0;
    while i < spec.active_ids.len()
        invariant
            i <= spec.active_ids@.len(),
            crate::clipboard::texts(out@) == tag_chips(spec.active_ids@.take(i as int), tags@),
        decreases spec.active_ids.len() - i,
    {
        assert(spec.active_ids@.take(i + 1).drop_last() =~= spec.active_ids@.take(i as int));
        match find_tag(tags, spec.active_ids[i]) {
            Some(j) => {
                let mut c: Vec<char> = Vec::new();
                c.push('#');
                push_str(&mut c, tags[j].name.as_str());
                let s = string_of(&c);
                let ghost before = crate::clipboard::texts(out@);
                out.push(s);
                assert(crate::clipboard::texts(out@) =~= before.push("#"@ + tags@[j as int].name@))
                    by {
                    reveal_strlit("#");
                    assert(c@ =~= "#"@ + tags@[j as int].name@);
                }
            },
            None => {},
        }
        i = i + 1;
    }
    assert(spec.active_ids@.take(spec.active_ids@.len() as int) =~= spec.active_ids@);
    let ghost tag_part = crate::clipboard::texts(out@);
    let mut i: usize = 0;
    while i < spec.active_tint_ids.len()
        invariant
            i <= spec.active_tint_ids@.len(),
            crate::clipboard::texts(out@) == tag_part + tint_chips(
                spec.active_tint_ids@.take(i as int),
                tints@,
            ),
        decreases spec.active_tint_ids.len() - i,
    {
        assert(spec.active_tint_ids@.take(i + 1).drop_last() =~= spec.active_tint_ids@.take(
            i as int,
        ));
        match crate::format::find_tint_with_id(tints, spec.active_tint_ids[i]) {
            Some(j) => {
                let mut c: Vec<char> = Vec::new();
                push_str(&mut c, "\u{25cf} ");
                push_str(&mut c, tints[j].name.as_str());
                let s = string_of(&c);
                let ghost before = crate::clipboard::texts(out@);
                out.push(s);
                assert(crate::clipboard::texts(out@) =~= before.push(
                    "\u{25cf} "@ + tints@[j as int].name@,
                ));
            },
            None => {},
        }
        i = i + 1;
    }
    assert(spec.active_tint_ids@.take(spec.active_tint_ids@.len() as int)
        =~= spec.active_tint_ids@);
    let ghost both = crate::clipboard::texts(out@);
    let mut i: usize = 0;
    while i < spec.active_shapes.len()
        invariant
            i <= spec.active_shapes@.len(),
            crate::clipboard::texts(out@) == both + spec.active_shapes@.take(i as int).map_values(
                |s: Shape| shape_label(s),
            ),
        decreases spec.active_shapes.len() - i,
    {
        let ghost before = crate::clipboard::texts(out@);
        let lbl = String::from_str(shape_label_text(spec.active_shapes[i]));
        assert(lbl@ == shape_label(spec.active_shapes@[i as int]));
        out.push(lbl);
        assert(crate::clipboard::texts(out@) =~= before.push(lbl@));
        assert(crate::clipboard::texts(out@) =~= both + spec.active_shapes@.take(i + 1).map_values(
            |s: Shape| shape_label(s),
        )) by {
            assert(spec.active_shapes@.take(i + 1).map_values(|s: Shape| shape_label(s))
                =~= spec.active_shapes@.take(i as int).map_values(|s: Shape| shape_label(s)).push(
                shape_label(spec.active_shapes@[i as int]),
            ));
        }
        i = i + 1;
    }
    assert(spec.active_shapes@.take(spec.active_shapes@.len() as int) =~= spec.active_shapes@);
    out
}


/// What the filter lets through, in terms of the item's own tags, tint and
/// shape: with tags selected, in "All match" mode the item must carry every
/// selected tag and in "Any match" mode one of them (wherever it stands in
/// the selection) suffices; with tints selected the item's tint must be one
/// of them; with shapes selected its shape must be one of them.
pub proof fn lemma_filter_meaning(spec: TagFilterSpec, item: FileItem)
    ensures
        filter_matches(spec, item) <==> {
            &&& (spec.active_ids@.len() == 0 || (spec.mode == CombineMode::And && forall|i: int|
                0 <= i < spec.active_ids@.len() ==> has_tag(item, #[trigger] spec.active_ids@[i])) || (spec.mode
                == CombineMode::Or && exists|i: int|
                0 <= i < spec.active_ids@.len() && has_tag(item, #[trigger] spec.active_ids@[i])))
            &&& (spec.active_tint_ids@.len() == 0 || exists|k: int|
                0 <= k < spec.active_tint_ids@.len() && #[trigger] spec.active_tint_ids@[k] == item.mark_tint_id)
            &&& (spec.active_shapes@.len() == 0 || exists|k: int|
                0 <= k < spec.active_shapes@.len() && #[trigger] spec.active_shapes@[k] == item.mark_shape)
        },
{
    let tints = spec.active_tint_ids@;
    let shapes = spec.active_shapes@;
    assert(tints.contains(item.mark_tint_id) == (exists|k: int|
        0 <= k < tints.len() && #[trigger] tints[k] == item.mark_tint_id));
    assert(shapes.contains(item.mark_shape) == (exists|k: int|
        0 <= k < shapes.len() && #[trigger] shapes[k] == item.mark_shape));
}

/// In "Any match" mode, an item carrying any one of the selected tags, at
/// any position in the selection, passes the tag part of the filter.
pub proof fn lemma_any_match_takes_any_tag(spec: TagFilterSpec, item: FileItem, i: int, j: int)
    requires
        spec.mode == CombineMode::Or,
        0 <= i < spec.active_ids@.len(),
        0 <= j < item.tags@.len(),
        item.tags@[j].id == spec.active_ids@[i],
        spec.active_tint_ids@.len() == 0,
        spec.active_shapes@.len() == 0,
    ensures
        filter_matches(spec, item),
{
    lemma_filter_meaning(spec, item);
    assert(has_tag(item, spec.active_ids@[i]));
}


/// In "All match" mode, an item missing any one of the selected tags is
/// filtered out; in "Any match" mode, an item carrying none of them is.
pub proof fn lemma_missing_tags_filtered(spec: TagFilterSpec, item: FileItem, i: int)
    requires
        0 <= i < spec.active_ids@.len(),
        spec.mode == CombineMode::And ==> forall|j: int|
            0 <= j < item.tags@.len() ==> (#[trigger] item.tags@[j]).id != spec.active_ids@[i],
        spec.mode == CombineMode::Or ==> forall|k: int, j: int|
            0 <= k < spec.active_ids@.len() && 0 <= j < item.tags@.len() ==> (#[trigger] item.tags@[j]).id
                != #[trigger] spec.active_ids@[k],
    ensures
        !filter_matches(spec, item),
{
    lemma_filter_meaning(spec, item);
    if spec.mode == CombineMode::And {
        assert(!has_tag(item, spec.active_ids@[i]));
    } else {
        assert forall|k: int| 0 <= k < spec.active_ids@.len() implies !has_tag(item, #[trigger] spec.active_ids@[k]) by {
            if has_tag(item, spec.active_ids@[k]) {
                let j = choose|j: int| 0 <= j < item.tags@.len() && (#[trigger] item.tags@[j]).id == spec.active_ids@[k];
                assert(item.tags@[j].id != spec.active_ids@[k]);
            }
        }
    }
}

} // verus!
