//! Texts and switches of the smaller panels: the status bar, the preview's
//! lists, palette cards, the action queue and the operations panel.
use crate::media::plural;
use crate::number::{decimal, push_decimal};
use crate::path::{file_name, path_file_name};
use crate::text::{
    chars_of, join_chars, join_sep, push_str, string_of, trim, trim_vec, views,
};
use vstd::prelude::*;

verus! {

/// The counts line of the status bar.
pub open spec fn status_counts_text(items: nat, selected: nat) -> Seq<char> {
    decimal(items) + " item(s) \u{b7} "@ + decimal(selected) + " selected"@
}

/// The counts line of the status bar.
pub fn status_counts(item_count: usize, selected_count: usize) -> (r: String)
    ensures
        r@ == status_counts_text(item_count as nat, selected_count as nat),
{
    let mut out: Vec<char> = Vec::new();
    push_decimal(&mut out, item_count as u128);
    push_str(&mut out, " item(s) \u{b7} ");
    push_decimal(&mut out, selected_count as u128);
    push_str(&mut out, " selected");
    string_of(&out)
}

/// The non-empty values, in order.
pub open spec fn non_empty(vs: Seq<Seq<char>>) -> Seq<Seq<char>> {
    vs.filter(|v: Seq<char>| v.len() > 0)
}

/// At most `limit` values joined by ", ", followed by ", +n" when `n` more
/// were left out; empty values are skipped.
pub open spec fn join_limited_text(vs: Seq<Seq<char>>, limit: nat) -> Seq<char> {
    let kept = non_empty(vs);
    if kept.len() > limit {
        join_sep(kept.take(limit as int), ", "@) + ", +"@ + decimal((kept.len() - limit) as nat)
    } else {
        join_sep(kept, ", "@)
    }
}

/// A short list of values for the preview ("a, b, c, +2").
pub fn join_limited(values: &Vec<String>, limit: usize) -> (r: String)
    ensures
        r@ == join_limited_text(crate::clipboard::texts(values@), limit as nat),
{
    let ghost vs = crate::clipboard::texts(values@);
    let ghost p = |v: Seq<char>| v.len() > 0;
    let mut kept: Vec<Vec<char>> = Vec::new();
    let mut i: usize = 0;
    while i < values.len()
        invariant
            i <= values@.len(),
            vs == crate::clipboard::texts(values@),
            p == (|v: Seq<char>| v.len() > 0),
            views(kept@) == vs.take(i as int).filter(p),
            kept@.len() <= i,
        decreases values.len() - i,
    {
        proof {
            reveal_with_fuel(Seq::<_>::filter, 1);
            assert(vs.take(i + 1).drop_last() =~= vs.take(i as int));
            assert(vs.take(i + 1).last() == values@[i as int]@);
        }
        let c = chars_of(values[i].as_str());
        if c.len() > 0 {
            let ghost before = views(kept@);
            kept.push(c);
            assert(views(kept@) =~= before.push(c@));
        }
        i = i + 1;
    }
    assert(vs.take(values@.len() as int) =~= vs);
    let n = kept.len();
    if n > limit {
        let mut shown: Vec<Vec<char>> = Vec::new();
        let mut j: usize = 0;
        while j < limit
            invariant
                j <= limit < kept@.len(),
                views(shown@) == views(kept@).take(j as int),
            decreases limit - j,
        {
            let ghost before = views(shown@);
            let c = crate::text::slice_vec(&kept[j], 0, kept[j].len());
            assert(c@ =~= kept@[j as int]@);
            shown.push(c);
            assert(views(shown@) =~= before.push(c@));
            assert(views(kept@)[j as int] == kept@[j as int]@);
            assert(before.push(c@) =~= views(kept@).take(j + 1));
            j = j + 1;
        }
        let mut out = join_chars(&shown, ", ");
        push_str(&mut out, ", +");
        push_decimal(&mut out, (n - limit) as u128);
        string_of(&out)
    } else {
        string_of(&join_chars(&kept, ", "))
    }
}

/// A card placed on a palette board.
#[derive(Clone, Debug)]
pub struct PaletteItemRecord {
    pub id: i64,
    pub item_type: String,
    pub title: Option<String>,
    pub path: Option<String>,
    pub body: Option<String>,
    pub tint_id: Option<i64>,
}

/// The name on a card: its title when not blank, else the file name of its
/// path (the path itself when it has none), else a name for its type.
pub open spec fn card_name_text(item: PaletteItemRecord) -> Seq<char> {
    let titled = match item.title {
        Some(t) => trim(t@).len() > 0,
        None => false,
    };
    if titled {
        item.title.unwrap()@
    } else {
        match item.path {
            Some(p) => match file_name(p@) {
                Some(n) => n,
                None => p@,
            },
            None => if item.item_type@ == "note"@ {
                "Untitled Note"@
            } else if item.item_type@ == "folder"@ {
                "Folder"@
            } else {
                "File"@
            },
        }
    }
}

/// The name shown on a palette card.
pub fn card_display_name(item: &PaletteItemRecord) -> (r: String)
    ensures
        r@ == card_name_text(*item),
{
    match &item.title {
        Some(t) => {
            if trim_vec(&chars_of(t.as_str())).len() > 0 {
                return t.clone();
            }
        },
        None => {},
    }
    match &item.path {
        Some(p) => match path_file_name(&chars_of(p.as_str())) {
            Some(n) => string_of(&n),
            None => p.clone(),
        },
        None => {
            let ty = chars_of(item.item_type.as_str());
            if crate::keys::eq_lit(&ty, "note") {
                String::from_str("Untitled Note")
            } else if crate::keys::eq_lit(&ty, "folder") {
                String::from_str("Folder")
            } else {
                String::from_str("File")
            }
        },
    }
}

/// The icon of a card by its type.
pub open spec fn card_icon_text(item_type: Seq<char>) -> Seq<char> {
    if item_type == "folder"@ {
        "\u{1f4c1}"@
    } else if item_type == "note"@ {
        "\u{1f4dd}"@
    } else {
        "\u{1f4c4}"@
    }
}

/// The icon of a card.
pub fn card_type_icon(item_type: &str) -> (r: &'static str)
    ensures
        r@ == card_icon_text(item_type@),
{
    let ty = chars_of(item_type);
    if crate::keys::eq_lit(&ty, "folder") {
        "\u{1f4c1}"
    } else if crate::keys::eq_lit(&ty, "note") {
        "\u{1f4dd}"
    } else {
        "\u{1f4c4}"
    }
}

/// The title kept for a note card: nothing when it is blank.
pub fn note_title_value(text: &str) -> (r: Option<String>)
    ensures
        match r {
            Some(s) => trim(text@).len() > 0 && s@ == text@,
            None => trim(text@).len() == 0,
        },
{
    if trim_vec(&chars_of(text)).len() == 0 {
        None
    } else {
        Some(String::from_str(text))
    }
}

/// The kinds of queued actions.
#[derive(Clone, Copy, Debug, PartialEq, Eq, Structural)]
pub enum OpKind {
    Copy,
    Move,
    Trash,
    PermanentDelete,
    Rename,
    BulkRename,
    Duplicate,
    NewFolder,
    NewFile,
    SendToProject { project_id: i64 },
}

/// The icon of a queued action.
pub open spec fn op_icon_text(kind: OpKind) -> Seq<char> {
    match kind {
        OpKind::Copy => "\u{1f4cb}"@,
        OpKind::Move => "\u{2197}"@,
        OpKind::Trash => "\u{1f5d1}"@,
        OpKind::PermanentDelete => "\u{2717}"@,
        OpKind::Rename => "\u{270f}"@,
        OpKind::BulkRename => "\u{270f}"@,
        OpKind::Duplicate => "\u{1f4cb}"@,
        OpKind::NewFolder => "\u{1f4c1}"@,
        OpKind::NewFile => "\u{1f4c4}"@,
        OpKind::SendToProject { .. } => "\u{1f5c2}"@,
    }
}

/// The icon of a queued action.
pub fn kind_icon(kind: &OpKind) -> (r: &'static str)
    ensures
        r@ == op_icon_text(*kind),
{
    match kind {
        OpKind::Copy => "\u{1f4cb}",
        OpKind::Move => "\u{2197}",
        OpKind::Trash => "\u{1f5d1}",
        OpKind::PermanentDelete => "\u{2717}",
        OpKind::Rename => "\u{270f}",
        OpKind::BulkRename => "\u{270f}",
        OpKind::Duplicate => "\u{1f4cb}",
        OpKind::NewFolder => "\u{1f4c1}",
        OpKind::NewFile => "\u{1f4c4}",
        OpKind::SendToProject { .. } => "\u{1f5c2}",
    }
}

/// The header of the action queue.
pub open spec fn queue_count_text(n: nat) -> Seq<char> {
    if n > 0 {
        decimal(n) + " action"@ + plural(n) + " queued"@
    } else {
        "No actions queued"@
    }
}

/// The header of the action queue for `n` queued actions.
pub fn queue_count_label(n: usize) -> (r: String)
    ensures
        r@ == queue_count_text(n as nat),
{
    let mut out: Vec<char> = Vec::new();
    if n > 0 {
        push_decimal(&mut out, n as u128);
        push_str(&mut out, " action");
        if n != 1 {
            out.push('s');
        }
        push_str(&mut out, " queued");
        assert(out@ =~= queue_count_text(n as nat));
    } else {
        push_str(&mut out, "No actions queued");
    }
    string_of(&out)
}

/// The look of a button in a modal dialog.
#[derive(Clone, Copy, Debug, PartialEq, Eq, Structural)]
pub enum ButtonKind {
    Primary,
    Danger,
    Secondary,
}

/// The style class of each kind of modal button.
pub open spec fn button_class(kind: ButtonKind) -> Seq<char> {
    match kind {
        ButtonKind::Primary => "modal-primary-button"@,
        ButtonKind::Danger => "modal-danger-button"@,
        ButtonKind::Secondary => "modal-secondary-button"@,
    }
}

impl ButtonKind {
    /// The style class a modal button of this kind carries.
    pub fn css_class(&self) -> (r: &'static str)
        ensures
            r@ == button_class(*self),
    {
        match self {
            ButtonKind::Primary => "modal-primary-button",
            ButtonKind::Danger => "modal-danger-button",
            ButtonKind::Secondary => "modal-secondary-button",
        }
    }
}

/// The tools of the painting toolbar.
#[derive(Clone, Copy, Debug, PartialEq, Eq, Structural, Default)]
pub enum PaintTool {
    #[default]
    Brush,
    Eraser,
    Eyedropper,
    FillSelection,
}

/// What a row of the plan queue asks for: move the plan at an index up or
/// down, or take it out of the queue.
#[derive(Clone, Copy, Debug, PartialEq, Eq, Structural)]
pub enum QueueAction {
    MoveUp(usize),
    MoveDown(usize),
    Remove(usize),
}

/// Which reorder buttons of a queue row are enabled: up unless first,
/// down unless last.
pub fn reorder_enabled(index: usize, total: usize) -> (r: (bool, bool))
    requires
        index < total,
    ensures
        r == (index > 0, index + 1 < total),
{
    (index > 0, index + 1 < total)
}

/// How a finished operation is shown: "Done" and dismissed by itself, or
/// "Dismiss" with the errors, one per line.
#[derive(Clone, Debug)]
pub struct OpFinish {
    pub button_label: String,
    pub detail: Option<String>,
    pub auto_dismiss: bool,
}

/// How a finished operation with these errors is shown.
pub fn op_finish_view(errors: &Vec<String>) -> (r: OpFinish)
    ensures
        errors@.len() == 0 ==> r.button_label@ == "Done"@ && r.detail is None && r.auto_dismiss,
        errors@.len() > 0 ==> r.button_label@ == "Dismiss"@ && !r.auto_dismiss && (r.detail matches Some(
            d,
        ) && d@ == join_sep(crate::clipboard::texts(errors@), "\n"@)),
{
    if errors.len() == 0 {
        return OpFinish { button_label: String::from_str("Done"), detail: None, auto_dismiss: true };
    }
    let mut parts: Vec<Vec<char>> = Vec::new();
    let mut i: usize = 0;
    while i < errors.len()
        invariant
            i <= errors@.len(),
            views(parts@) == crate::clipboard::texts(errors@).take(i as int),
        decreases errors.len() - i,
    {
        let ghost before = views(parts@);
        let c = chars_of(errors[i].as_str());
        assert(crate::clipboard::texts(errors@)[i as int] == c@);
        parts.push(c);
        assert(views(parts@) =~= before.push(c@));
        assert(before.push(c@) =~= crate::clipboard::texts(errors@).take(i + 1));
        i = i + 1;
    }
    assert(crate::clipboard::texts(errors@).take(errors@.len() as int) =~= crate::clipboard::texts(
        errors@,
    ));
    let d = join_chars(&parts, "\n");
    OpFinish {
        button_label: String::from_str("Dismiss"),
        detail: Some(string_of(&d)),
        auto_dismiss: false,
    }
}

} // verus!

verus! {

/// The name typed for a new tag or palette, trimmed; nothing when blank.
pub fn created_name(text: &str) -> (r: Option<String>)
    ensures
        crate::text::opt_text(r) == (if trim(text@).len() > 0 {
            Some(trim(text@))
        } else {
            None
        }),
{
    let t = trim_vec(&chars_of(text));
    if t.len() == 0 {
        None
    } else {
        Some(string_of(&t))
    }
}

/// The new name typed when renaming, trimmed; nothing when blank or
/// unchanged.
pub fn renamed_name(text: &str, original: &str) -> (r: Option<String>)
    ensures
        crate::text::opt_text(r) == (if trim(text@).len() > 0 && trim(text@) != original@ {
            Some(trim(text@))
        } else {
            None
        }),
{
    let t = trim_vec(&chars_of(text));
    if t.len() == 0 || crate::text::chars_eq(&t, &chars_of(original)) {
        None
    } else {
        Some(string_of(&t))
    }
}

/// "1 file" or "n files".
pub fn file_count_label(count: usize) -> (r: String)
    ensures
        r@ == decimal(count as nat) + (if count == 1 {
            " file"@
        } else {
            " files"@
        }),
{
    let mut out: Vec<char> = Vec::new();
    push_decimal(&mut out, count as u128);
    if count == 1 {
        push_str(&mut out, " file");
    } else {
        push_str(&mut out, " files");
    }
    string_of(&out)
}

} // verus!
