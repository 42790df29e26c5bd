//! The texts of the preview pane: the item's mark and tags, counts, and the
//! Watercolor context rows.
use crate::clipboard::texts;
use crate::labels::{join_limited, join_limited_text};
use crate::model::{Shape, TagRecord};
use crate::number::{decimal, push_decimal};
use crate::text::{push_str, string_of};
use vstd::prelude::*;

verus! {

/// How many tags the preview shows before summarising the rest.
pub const PREVIEW_VISIBLE_TAGS: usize = 3;

/// The name of a shape.
pub open spec fn shape_name(s: Shape) -> Seq<char> {
    match s {
        Shape::Circle => "Circle"@,
        Shape::Square => "Square"@,
        Shape::Triangle => "Triangle"@,
        Shape::Pentagon => "Pentagon"@,
        Shape::Hexagon => "Hexagon"@,
        Shape::Octagon => "Octagon"@,
        Shape::Trapezoid => "Trapezoid"@,
    }
}

/// The name of a shape.
pub fn shape_display_name(s: Shape) -> (r: &'static str)
    ensures
        r@ == shape_name(s),
{
    match s {
        Shape::Circle => "Circle",
        Shape::Square => "Square",
        Shape::Triangle => "Triangle",
        Shape::Pentagon => "Pentagon",
        Shape::Hexagon => "Hexagon",
        Shape::Octagon => "Octagon",
        Shape::Trapezoid => "Trapezoid",
    }
}

/// The mark line of the preview: tint name and shape name.
pub fn identity_label(tint_name: &str, shape: Shape) -> (r: String)
    ensures
        r@ == tint_name@ + seq![' '] + shape_name(shape),
{
    let mut out: Vec<char> = Vec::new();
    push_str(&mut out, tint_name);
    out.push(' ');
    push_str(&mut out, shape_display_name(shape));
    string_of(&out)
}

/// The tag chips of the preview: `#name` for the first few tags, then
/// `+n` for the rest.
pub open spec fn tag_chip_texts(tags: Seq<TagRecord>) -> Seq<Seq<char>> {
    let n = PREVIEW_VISIBLE_TAGS as int;
    let shown = if tags.len() <= n {
        tags
    } else {
        tags.take(n)
    };
    let chips = shown.map_values(|t: TagRecord| "#"@ + t.name@);
    if tags.len() > n {
        chips.push("+"@ + decimal((tags.len() - n) as nat))
    } else {
        chips
    }
}

/// The tag chips shown in the preview.
pub fn preview_tag_chips(tags: &Vec<TagRecord>) -> (r: Vec<String>)
    ensures
        texts(r@) == tag_chip_texts(tags@),
{
    let n = if tags.len() <= PREVIEW_VISIBLE_TAGS {
        tags.len()
    } else {
        PREVIEW_VISIBLE_TAGS
    };
    let ghost shown = if tags@.len() <= PREVIEW_VISIBLE_TAGS {
        tags@
    } else {
        tags@.take(PREVIEW_VISIBLE_TAGS as int)
    };
    let mut out: Vec<String> = Vec::new();
    let mut i: usize = 0;
    while i < n
        invariant
            i <= n,
            n == shown.len(),
            n <= tags@.len(),
            forall|k: int| 0 <= k < n ==> shown[k] == tags@[k],
            texts(out@) == shown.take(i as int).map_values(|t: TagRecord| "#"@ + t.name@),
        decreases n - i,
    {
        let mut c: Vec<char> = Vec::new();
        c.push('#');
        push_str(&mut c, tags[i].name.as_str());
        proof {
            reveal_strlit("#");
        }
        assert(c@ =~= "#"@ + tags@[i as int].name@);
        let s = string_of(&c);
        let ghost before = texts(out@);
        out.push(s);
        proof {
            reveal_strlit("#");
            assert(texts(out@) =~= before.push("#"@ + tags@[i as int].name@));
            assert(shown.take(i + 1).map_values(|t: TagRecord| "#"@ + t.name@) =~= shown.take(
                i as int,
            ).map_values(|t: TagRecord| "#"@ + t.name@).push("#"@ + shown[i as int].name@));
        }
        i = i + 1;
    }
    assert(shown.take(n as int) =~= shown);
    if tags.len() > PREVIEW_VISIBLE_TAGS {
        let mut c: Vec<char> = Vec::new();
        c.push('+');
        push_decimal(&mut c, (tags.len() - PREVIEW_VISIBLE_TAGS) as u128);
        proof {
            reveal_strlit("+");
        }
        assert(c@ =~= "+"@ + decimal((tags@.len() - PREVIEW_VISIBLE_TAGS) as nat));
        let ghost before = texts(out@);
        out.push(string_of(&c));
        proof {
            assert(texts(out@) =~= before.push(
                "+"@ + decimal((tags@.len() - PREVIEW_VISIBLE_TAGS) as nat),
            ));
        }
    }
    out
}

/// "n item(s) loaded." for a folder's item count.
pub fn items_loaded_label(count: usize) -> (r: String)
    ensures
        r@ == decimal(count as nat) + " item(s) loaded."@,
{
    let mut out: Vec<char> = Vec::new();
    push_decimal(&mut out, count as u128);
    push_str(&mut out, " item(s) loaded.");
    string_of(&out)
}

/// The note shown when several items are selected.
pub fn multi_selection_note(count: usize) -> (r: String)
    ensures
        r@ == decimal(count as nat) + " items selected. Select one item to inspect its preview."@,
{
    let mut out: Vec<char> = Vec::new();
    push_decimal(&mut out, count as u128);
    push_str(&mut out, " items selected. Select one item to inspect its preview.");
    string_of(&out)
}

/// An object of a Watercolor workspace that refers to the item.
#[derive(Clone, Debug)]
pub struct WatercolorObject {
    pub title: String,
    pub object_type: String,
}

/// What Watercolor knows about the previewed path: the workspaces and
/// palettes it belongs to, the objects referring to it, how many references
/// point at it, and whether the reference is broken.
#[derive(Clone, Debug)]
pub struct WatercolorContext {
    pub workspace_names: Vec<String>,
    pub palette_names: Vec<String>,
    pub objects: Vec<WatercolorObject>,
    pub ref_count: usize,
    pub broken: bool,
    pub health: Option<String>,
}

/// The rows of the Watercolor section, each shown when present:
/// workspaces (at most three named), palettes and referring objects (at
/// most four), and the broken-reference warning.
#[derive(Clone, Debug)]
pub struct WatercolorRows {
    pub workspaces: Option<String>,
    pub palettes: Option<String>,
    pub objects: Option<String>,
    pub health: Option<String>,
}

/// The label of a referring object: "title (type)", "object" when untyped.
pub open spec fn object_label_text(o: WatercolorObject) -> Seq<char> {
    o.title@ + " ("@ + (if o.object_type@.len() == 0 {
        "object"@
    } else {
        o.object_type@
    }) + ")"@
}

/// The warning of a broken reference.
pub open spec fn broken_reference_text() -> Seq<char> {
    "Broken reference: .water mentions this path, but Terroir reports a missing target."@
}

/// The Watercolor section is empty when nothing refers to the path.
pub open spec fn context_empty(c: WatercolorContext) -> bool {
    c.workspace_names@.len() == 0 && c.palette_names@.len() == 0 && c.objects@.len() == 0
        && c.ref_count == 0
}

/// The Watercolor rows of the preview for a path's context.
pub fn watercolor_rows(c: &WatercolorContext) -> (r: WatercolorRows)
    ensures
        context_empty(*c) ==> r.workspaces is None && r.palettes is None && r.objects is None
            && r.health is None,
        !context_empty(*c) ==> {
            &&& crate::text::opt_text(r.workspaces) == (if c.workspace_names@.len() > 0 {
                Some(join_limited_text(texts(c.workspace_names@), 3))
            } else {
                None
            })
            &&& crate::text::opt_text(r.palettes) == (if c.palette_names@.len() > 0 {
                Some(join_limited_text(texts(c.palette_names@), 4))
            } else {
                None
            })
            &&& crate::text::opt_text(r.objects) == (if c.objects@.len() > 0 {
                Some(
                    join_limited_text(
                        c.objects@.map_values(|o: WatercolorObject| object_label_text(o)),
                        4,
                    ),
                )
            } else {
                None
            })
            &&& crate::text::opt_text(r.health) == (if c.broken || crate::text::opt_text(c.health)
                == Some("broken"@) {
                Some(broken_reference_text())
            } else {
                None
            })
        },
{
    if c.workspace_names.len() == 0 && c.palette_names.len() == 0 && c.objects.len() == 0
        && c.ref_count == 0 {
        return WatercolorRows { workspaces: None, palettes: None, objects: None, health: None };
    }
    let workspaces = if c.workspace_names.len() > 0 {
        Some(join_limited(&c.workspace_names, 3))
    } else {
        None
    };
    let palettes = if c.palette_names.len() > 0 {
        Some(join_limited(&c.palette_names, 4))
    } else {
        None
    };
    let objects = if c.objects.len() > 0 {
        let mut labels: Vec<String> = Vec::new();
        let mut i: usize = 0;
        while i < c.objects.len()
            invariant
                i <= c.objects@.len(),
                texts(labels@) == c.objects@.take(i as int).map_values(
                    |o: WatercolorObject| object_label_text(o),
                ),
            decreases c.objects.len() - i,
        {
            let o = &c.objects[i];
            let mut out: Vec<char> = Vec::new();
            push_str(&mut out, o.title.as_str());
            push_str(&mut out, " (");
            if o.object_type.as_str().unicode_len() == 0 {
                push_str(&mut out, "object");
            } else {
                push_str(&mut out, o.object_type.as_str());
            }
            push_str(&mut out, ")");
            let s = string_of(&out);
            assert(s@ == object_label_text(*o));
            let ghost before = texts(labels@);
            labels.push(s);
            assert(texts(labels@) =~= before.push(s@));
            assert(c.objects@.take(i + 1).map_values(|o: WatercolorObject| object_label_text(o))
                =~= c.objects@.take(i as int).map_values(
                |o: WatercolorObject| object_label_text(o),
            ).push(object_label_text(c.objects@[i as int])));
            i = i + 1;
        }
        assert(c.objects@.take(c.objects@.len() as int) =~= c.objects@);
        Some(join_limited(&labels, 4))
    } else {
        None
    };
    let broken_health = match &c.health {
        Some(h) => crate::keys::eq_lit(&crate::text::chars_of(h.as_str()), "broken"),
        None => false,
    };
    let health = if c.broken || broken_health {
        Some(
            String::from_str(
                "Broken reference: .water mentions this path, but Terroir reports a missing target.",
            ),
        )
    } else {
        None
    };
    WatercolorRows { workspaces, palettes, objects, health }
}

} // verus!
