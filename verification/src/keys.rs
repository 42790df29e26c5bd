//! Keyboard shortcuts: parsing binding texts such as "Ctrl+Shift+N",
//! matching them against key presses, and dispatching window commands.
use crate::text::{
    chars_eq, chars_of, has_prefix, lower_ascii, starts_with, string_of_range, lower_ascii_vec, remove_char, split_char, split_on,
    to_ascii_lower, trim, trim_vec, views, ascii_lower, without, is_ws, trim_start, trim_end,
};
use vstd::prelude::*;

verus! {

/// A command of the browser window.
#[derive(Clone, Debug, PartialEq, Eq)]
pub enum WindowCommand {
    CopySelection,
    CutSelection,
    PasteClipboard,
    CopyPathText,
    NewFolder,
    NewTextDocument,
    RenameSelection,
    TrashSelection,
    OpenSearch,
    ToggleFilter,
    FocusPath,
    Refresh,
    ToggleHidden,
    ToggleShapeBadges,
    SortOrder,
    ToggleSidebar,
    TogglePreview,
    ToggleHoldingTray,
    TrayAddSelection,
    TrayMoveToProject,
    TrayCopyToProject,
    TrayTag,
    TrayTrash,
    TrayCopyPaths,
    TrayClear,
    NewTab,
    CloseTab,
    ToggleSplit,
    PreviousTab,
    NextTab,
    GoBack,
    GoForward,
    GoUp,
    CyclePane,
    Escape,
    OpenHome,
    OpenSystemDrives,
    OpenRecent,
    OpenTrash,
    OpenPalettes,
    OpenTintsTags,
    OpenSpaceViewer,
    OpenTriage,
    OpenBulkNaming,
    OpenConvert,
    OpenActivityLog,
    SetViewIcons,
    SetViewList,
    TogglePlanMode,
    TogglePaintMode,
    PaintCursor,
    PaintBrush,
    PaintEraser,
    PaintEyedropper,
    PaintFill,
    PaintUndo,
    PaintRedo,
    PaintToggleContents,
    EmptyTrash,
    TrayAddByTint,
    TrayAddByShape,
    TrayApplyMark,
    TrayResetMark,
    PlanExecute,
    PlanClear,
    ConvertStart,
    ConvertCancel,
    ConvertRetryFailed,
    ConvertOpenOutput,
    ConvertDismiss,
    CustomAction(String),
}

/// A command as a mathematical value: built-in, or a custom action's id.
pub enum CommandView {
    Builtin(WindowCommand),
    Custom(Seq<char>),
}

/// The mathematical value of a command.
pub open spec fn command_view(c: WindowCommand) -> CommandView {
    match c {
        WindowCommand::CustomAction(id) => CommandView::Custom(id@),
        _ => CommandView::Builtin(c),
    }
}

/// Whether `v` holds exactly the characters of the literal `lit`.
pub fn eq_lit(v: &Vec<char>, lit: &str) -> (r: bool)
    ensures
        r == (v@ == lit@),
{
    let l = chars_of(lit);
    chars_eq(v, &l)
}

/// The built-in command bound to an action id of the configuration.
pub open spec fn builtin_command_of(id: Seq<char>) -> Option<WindowCommand> {
    if id == "copy_selection"@ {
        Some(WindowCommand::CopySelection)
    } else if id == "cut_selection"@ {
        Some(WindowCommand::CutSelection)
    } else if id == "paste_clipboard"@ {
        Some(WindowCommand::PasteClipboard)
    } else if id == "copy_path"@ {
        Some(WindowCommand::CopyPathText)
    } else if id == "new_folder"@ {
        Some(WindowCommand::NewFolder)
    } else if id == "new_text_document"@ {
        Some(WindowCommand::NewTextDocument)
    } else if id == "rename"@ {
        Some(WindowCommand::RenameSelection)
    } else if id == "trash"@ {
        Some(WindowCommand::TrashSelection)
    } else if id == "search"@ {
        Some(WindowCommand::OpenSearch)
    } else if id == "filter_tags"@ {
        Some(WindowCommand::ToggleFilter)
    } else if id == "focus_path"@ {
        Some(WindowCommand::FocusPath)
    } else if id == "refresh"@ {
        Some(WindowCommand::Refresh)
    } else if id == "show_hidden"@ {
        Some(WindowCommand::ToggleHidden)
    } else if id == "toggle_shape_badges"@ {
        Some(WindowCommand::ToggleShapeBadges)
    } else if id == "sort_order"@ {
        Some(WindowCommand::SortOrder)
    } else if id == "toggle_sidebar"@ {
        Some(WindowCommand::ToggleSidebar)
    } else if id == "toggle_preview"@ {
        Some(WindowCommand::TogglePreview)
    } else if id == "toggle_holding_tray"@ {
        Some(WindowCommand::ToggleHoldingTray)
    } else if id == "tray_add_selection"@ {
        Some(WindowCommand::TrayAddSelection)
    } else if id == "tray_move_to_project"@ {
        Some(WindowCommand::TrayMoveToProject)
    } else if id == "tray_copy_to_project"@ {
        Some(WindowCommand::TrayCopyToProject)
    } else if id == "tray_tag"@ {
        Some(WindowCommand::TrayTag)
    } else if id == "tray_trash"@ {
        Some(WindowCommand::TrayTrash)
    } else if id == "tray_copy_paths"@ {
        Some(WindowCommand::TrayCopyPaths)
    } else if id == "tray_clear"@ {
        Some(WindowCommand::TrayClear)
    } else if id == "new_tab"@ {
        Some(WindowCommand::NewTab)
    } else if id == "close_tab"@ {
        Some(WindowCommand::CloseTab)
    } else if id == "toggle_split"@ {
        Some(WindowCommand::ToggleSplit)
    } else if id == "previous_tab"@ {
        Some(WindowCommand::PreviousTab)
    } else if id == "next_tab"@ {
        Some(WindowCommand::NextTab)
    } else if id == "back"@ {
        Some(WindowCommand::GoBack)
    } else if id == "forward"@ {
        Some(WindowCommand::GoForward)
    } else if id == "up"@ {
        Some(WindowCommand::GoUp)
    } else if id == "cycle_pane"@ {
        Some(WindowCommand::CyclePane)
    } else if id == "escape"@ {
        Some(WindowCommand::Escape)
    } else if id == "open_home"@ {
        Some(WindowCommand::OpenHome)
    } else if id == "open_system_drives"@ {
        Some(WindowCommand::OpenSystemDrives)
    } else if id == "open_recent"@ {
        Some(WindowCommand::OpenRecent)
    } else if id == "open_trash"@ {
        Some(WindowCommand::OpenTrash)
    } else if id == "open_palettes"@ {
        Some(WindowCommand::OpenPalettes)
    } else if id == "open_tints_tags"@ {
        Some(WindowCommand::OpenTintsTags)
    } else if id == "open_space_viewer"@ {
        Some(WindowCommand::OpenSpaceViewer)
    } else if id == "open_triage"@ {
        Some(WindowCommand::OpenTriage)
    } else if id == "open_bulk_naming"@ {
        Some(WindowCommand::OpenBulkNaming)
    } else if id == "open_convert"@ {
        Some(WindowCommand::OpenConvert)
    } else if id == "open_activity_log"@ {
        Some(WindowCommand::OpenActivityLog)
    } else if id == "view_icons"@ {
        Some(WindowCommand::SetViewIcons)
    } else if id == "view_list"@ {
        Some(WindowCommand::SetViewList)
    } else if id == "toggle_plan_mode"@ {
        Some(WindowCommand::TogglePlanMode)
    } else if id == "toggle_paint_mode"@ {
        Some(WindowCommand::TogglePaintMode)
    } else if id == "paint_cursor"@ {
        Some(WindowCommand::PaintCursor)
    } else if id == "paint_brush"@ {
        Some(WindowCommand::PaintBrush)
    } else if id == "paint_eraser"@ {
        Some(WindowCommand::PaintEraser)
    } else if id == "paint_eyedropper"@ {
        Some(WindowCommand::PaintEyedropper)
    } else if id == "paint_fill"@ {
        Some(WindowCommand::PaintFill)
    } else if id == "paint_undo"@ {
        Some(WindowCommand::PaintUndo)
    } else if id == "paint_redo"@ {
        Some(WindowCommand::PaintRedo)
    } else if id == "paint_toggle_contents"@ {
        Some(WindowCommand::PaintToggleContents)
    } else if id == "empty_trash"@ {
        Some(WindowCommand::EmptyTrash)
    } else if id == "tray_add_by_tint"@ {
        Some(WindowCommand::TrayAddByTint)
    } else if id == "tray_add_by_shape"@ {
        Some(WindowCommand::TrayAddByShape)
    } else if id == "tray_apply_mark"@ {
        Some(WindowCommand::TrayApplyMark)
    } else if id == "tray_reset_mark"@ {
        Some(WindowCommand::TrayResetMark)
    } else if id == "plan_execute"@ {
        Some(WindowCommand::PlanExecute)
    } else if id == "plan_clear"@ {
        Some(WindowCommand::PlanClear)
    } else if id == "convert_start"@ {
        Some(WindowCommand::ConvertStart)
    } else if id == "convert_cancel"@ {
        Some(WindowCommand::ConvertCancel)
    } else if id == "convert_retry_failed"@ {
        Some(WindowCommand::ConvertRetryFailed)
    } else if id == "convert_open_output"@ {
        Some(WindowCommand::ConvertOpenOutput)
    } else if id == "convert_dismiss"@ {
        Some(WindowCommand::ConvertDismiss)
    } else {
        None
    }
}

/// The built-in command for a configured action id, if the id is known.
pub fn builtin_command(action_id: &str) -> (r: Option<WindowCommand>)
    ensures
        r == builtin_command_of(action_id@),
{
    let id = chars_of(action_id);
    if eq_lit(&id, "copy_selection") {
        Some(WindowCommand::CopySelection)
    } else if eq_lit(&id, "cut_selection") {
        Some(WindowCommand::CutSelection)
    } else if eq_lit(&id, "paste_clipboard") {
        Some(WindowCommand::PasteClipboard)
    } else if eq_lit(&id, "copy_path") {
        Some(WindowCommand::CopyPathText)
    } else if eq_lit(&id, "new_folder") {
        Some(WindowCommand::NewFolder)
    } else if eq_lit(&id, "new_text_document") {
        Some(WindowCommand::NewTextDocument)
    } else if eq_lit(&id, "rename") {
        Some(WindowCommand::RenameSelection)
    } else if eq_lit(&id, "trash") {
        Some(WindowCommand::TrashSelection)
    } else if eq_lit(&id, "search") {
        Some(WindowCommand::OpenSearch)
    } else if eq_lit(&id, "filter_tags") {
        Some(WindowCommand::ToggleFilter)
    } else if eq_lit(&id, "focus_path") {
        Some(WindowCommand::FocusPath)
    } else if eq_lit(&id, "refresh") {
        Some(WindowCommand::Refresh)
    } else if eq_lit(&id, "show_hidden") {
        Some(WindowCommand::ToggleHidden)
    } else if eq_lit(&id, "toggle_shape_badges") {
        Some(WindowCommand::ToggleShapeBadges)
    } else if eq_lit(&id, "sort_order") {
        Some(WindowCommand::SortOrder)
    } else if eq_lit(&id, "toggle_sidebar") {
        Some(WindowCommand::ToggleSidebar)
    } else if eq_lit(&id, "toggle_preview") {
        Some(WindowCommand::TogglePreview)
    } else if eq_lit(&id, "toggle_holding_tray") {
        Some(WindowCommand::ToggleHoldingTray)
    } else if eq_lit(&id, "tray_add_selection") {
        Some(WindowCommand::TrayAddSelection)
    } else if eq_lit(&id, "tray_move_to_project") {
        Some(WindowCommand::TrayMoveToProject)
    } else if eq_lit(&id, "tray_copy_to_project") {
        Some(WindowCommand::TrayCopyToProject)
    } else if eq_lit(&id, "tray_tag") {
        Some(WindowCommand::TrayTag)
    } else if eq_lit(&id, "tray_trash") {
        Some(WindowCommand::TrayTrash)
    } else if eq_lit(&id, "tray_copy_paths") {
        Some(WindowCommand::TrayCopyPaths)
    } else if eq_lit(&id, "tray_clear") {
        Some(WindowCommand::TrayClear)
    } else if eq_lit(&id, "new_tab") {
        Some(WindowCommand::NewTab)
    } else if eq_lit(&id, "close_tab") {
        Some(WindowCommand::CloseTab)
    } else if eq_lit(&id, "toggle_split") {
        Some(WindowCommand::ToggleSplit)
    } else if eq_lit(&id, "previous_tab") {
        Some(WindowCommand::PreviousTab)
    } else if eq_lit(&id, "next_tab") {
        Some(WindowCommand::NextTab)
    } else if eq_lit(&id, "back") {
        Some(WindowCommand::GoBack)
    } else if eq_lit(&id, "forward") {
        Some(WindowCommand::GoForward)
    } else if eq_lit(&id, "up") {
        Some(WindowCommand::GoUp)
    } else if eq_lit(&id, "cycle_pane") {
        Some(WindowCommand::CyclePane)
    } else if eq_lit(&id, "escape") {
        Some(WindowCommand::Escape)
    } else if eq_lit(&id, "open_home") {
        Some(WindowCommand::OpenHome)
    } else if eq_lit(&id, "open_system_drives") {
        Some(WindowCommand::OpenSystemDrives)
    } else if eq_lit(&id, "open_recent") {
        Some(WindowCommand::OpenRecent)
    } else if eq_lit(&id, "open_trash") {
        Some(WindowCommand::OpenTrash)
    } else if eq_lit(&id, "open_palettes") {
        Some(WindowCommand::OpenPalettes)
    } else if eq_lit(&id, "open_tints_tags") {
        Some(WindowCommand::OpenTintsTags)
    } else if eq_lit(&id, "open_space_viewer") {
        Some(WindowCommand::OpenSpaceViewer)
    } else if eq_lit(&id, "open_triage") {
        Some(WindowCommand::OpenTriage)
    } else if eq_lit(&id, "open_bulk_naming") {
        Some(WindowCommand::OpenBulkNaming)
    } else if eq_lit(&id, "open_convert") {
        Some(WindowCommand::OpenConvert)
    } else if eq_lit(&id, "open_activity_log") {
        Some(WindowCommand::OpenActivityLog)
    } else if eq_lit(&id, "view_icons") {
        Some(WindowCommand::SetViewIcons)
    } else if eq_lit(&id, "view_list") {
        Some(WindowCommand::SetViewList)
    } else if eq_lit(&id, "toggle_plan_mode") {
        Some(WindowCommand::TogglePlanMode)
    } else if eq_lit(&id, "toggle_paint_mode") {
        Some(WindowCommand::TogglePaintMode)
    } else if eq_lit(&id, "paint_cursor") {
        Some(WindowCommand::PaintCursor)
    } else if eq_lit(&id, "paint_brush") {
        Some(WindowCommand::PaintBrush)
    } else if eq_lit(&id, "paint_eraser") {
        Some(WindowCommand::PaintEraser)
    } else if eq_lit(&id, "paint_eyedropper") {
        Some(WindowCommand::PaintEyedropper)
    } else if eq_lit(&id, "paint_fill") {
        Some(WindowCommand::PaintFill)
    } else if eq_lit(&id, "paint_undo") {
        Some(WindowCommand::PaintUndo)
    } else if eq_lit(&id, "paint_redo") {
        Some(WindowCommand::PaintRedo)
    } else if eq_lit(&id, "paint_toggle_contents") {
        Some(WindowCommand::PaintToggleContents)
    } else if eq_lit(&id, "empty_trash") {
        Some(WindowCommand::EmptyTrash)
    } else if eq_lit(&id, "tray_add_by_tint") {
        Some(WindowCommand::TrayAddByTint)
    } else if eq_lit(&id, "tray_add_by_shape") {
        Some(WindowCommand::TrayAddByShape)
    } else if eq_lit(&id, "tray_apply_mark") {
        Some(WindowCommand::TrayApplyMark)
    } else if eq_lit(&id, "tray_reset_mark") {
        Some(WindowCommand::TrayResetMark)
    } else if eq_lit(&id, "plan_execute") {
        Some(WindowCommand::PlanExecute)
    } else if eq_lit(&id, "plan_clear") {
        Some(WindowCommand::PlanClear)
    } else if eq_lit(&id, "convert_start") {
        Some(WindowCommand::ConvertStart)
    } else if eq_lit(&id, "convert_cancel") {
        Some(WindowCommand::ConvertCancel)
    } else if eq_lit(&id, "convert_retry_failed") {
        Some(WindowCommand::ConvertRetryFailed)
    } else if eq_lit(&id, "convert_open_output") {
        Some(WindowCommand::ConvertOpenOutput)
    } else if eq_lit(&id, "convert_dismiss") {
        Some(WindowCommand::ConvertDismiss)
    } else {
        None
    }
}

} // verus!

verus! {

/// A non-character key that a binding can name.
#[derive(Clone, Copy, Debug, PartialEq, Eq, Structural)]
pub enum NamedKey {
    Escape,
    Delete,
    Backspace,
    Enter,
    Home,
    End,
    Left,
    Right,
    Up,
    Down,
    PageUp,
    PageDown,
    F1,
    F2,
    F3,
    F4,
    F5,
    F6,
    F7,
    F8,
    F9,
    F10,
    F11,
    F12,
}

/// The key part of a binding.
#[derive(Clone, Copy, Debug, PartialEq, Eq, Structural)]
pub enum BindingKey {
    Char(char),
    Named(NamedKey),
}

/// A parsed shortcut: modifiers and a key.
#[derive(Clone, Copy, Debug, PartialEq, Eq, Structural)]
pub struct KeyBinding {
    pub ctrl: bool,
    pub shift: bool,
    pub alt: bool,
    pub key: BindingKey,
}

/// Modifiers and key gathered while reading a binding's parts.
pub struct BindingAcc {
    pub ctrl: bool,
    pub shift: bool,
    pub alt: bool,
    pub key: Option<BindingKey>,
}

/// A part of a binding after trimming, ASCII lower-casing and removing `_`.
pub open spec fn normalize_part(p: Seq<char>) -> Seq<char> {
    without(lower_ascii(trim(p)), '_')
}

/// The named key spelled by a normalized part, other than the function keys.
pub open spec fn named_part(n: Seq<char>) -> Option<BindingKey> {
    if n == "esc"@ || n == "escape"@ {
        Some(BindingKey::Named(NamedKey::Escape))
    } else if n == "delete"@ || n == "del"@ {
        Some(BindingKey::Named(NamedKey::Delete))
    } else if n == "backspace"@ {
        Some(BindingKey::Named(NamedKey::Backspace))
    } else if n == "enter"@ || n == "return"@ {
        Some(BindingKey::Named(NamedKey::Enter))
    } else if n == "home"@ {
        Some(BindingKey::Named(NamedKey::Home))
    } else if n == "end"@ {
        Some(BindingKey::Named(NamedKey::End))
    } else if n == "left"@ {
        Some(BindingKey::Named(NamedKey::Left))
    } else if n == "right"@ {
        Some(BindingKey::Named(NamedKey::Right))
    } else if n == "up"@ {
        Some(BindingKey::Named(NamedKey::Up))
    } else if n == "down"@ {
        Some(BindingKey::Named(NamedKey::Down))
    } else if n == "pageup"@ {
        Some(BindingKey::Named(NamedKey::PageUp))
    } else if n == "pagedown"@ {
        Some(BindingKey::Named(NamedKey::PageDown))
    } else if n == "backslash"@ {
        Some(BindingKey::Char('\\'))
    } else {
        None
    }
}

/// The function key spelled by a normalized part (`f1` .. `f12`).
pub open spec fn function_part(n: Seq<char>) -> Option<NamedKey> {
    if n == "f1"@ {
        Some(NamedKey::F1)
    } else if n == "f2"@ {
        Some(NamedKey::F2)
    } else if n == "f3"@ {
        Some(NamedKey::F3)
    } else if n == "f4"@ {
        Some(NamedKey::F4)
    } else if n == "f5"@ {
        Some(NamedKey::F5)
    } else if n == "f6"@ {
        Some(NamedKey::F6)
    } else if n == "f7"@ {
        Some(NamedKey::F7)
    } else if n == "f8"@ {
        Some(NamedKey::F8)
    } else if n == "f9"@ {
        Some(NamedKey::F9)
    } else if n == "f10"@ {
        Some(NamedKey::F10)
    } else if n == "f11"@ {
        Some(NamedKey::F11)
    } else if n == "f12"@ {
        Some(NamedKey::F12)
    } else {
        None
    }
}

/// Reads one normalized part into the accumulated binding; `None` when the
/// part makes the whole shortcut invalid.
pub open spec fn parse_part(n: Seq<char>, acc: BindingAcc) -> Option<BindingAcc> {
    if n == "ctrl"@ || n == "control"@ {
        Some(BindingAcc { ctrl: true, ..acc })
    } else if n == "shift"@ {
        Some(BindingAcc { shift: true, ..acc })
    } else if n == "alt"@ {
        Some(BindingAcc { alt: true, ..acc })
    } else if named_part(n) is Some {
        Some(BindingAcc { key: named_part(n), ..acc })
    } else if n.len() > 1 && n[0] == 'f' {
        match function_part(n) {
            Some(k) => Some(BindingAcc { key: Some(BindingKey::Named(k)), ..acc }),
            None => None,
        }
    } else if n.len() == 1 {
        Some(BindingAcc { key: Some(BindingKey::Char(ascii_lower(n[0]))), ..acc })
    } else {
        None
    }
}

/// Reads all parts in order.
pub open spec fn parse_parts(parts: Seq<Seq<char>>, acc: BindingAcc) -> Option<BindingAcc>
    decreases parts.len(),
{
    if parts.len() == 0 {
        Some(acc)
    } else {
        match parse_part(normalize_part(parts[0]), acc) {
            Some(a) => parse_parts(parts.drop_first(), a),
            None => None,
        }
    }
}

/// The binding written by a shortcut text: the trimmed text split at `+`,
/// each part read in turn; there must be a key.
pub open spec fn binding_of(s: Seq<char>) -> Option<KeyBinding> {
    let t = trim(s);
    if t.len() == 0 {
        None
    } else {
        match parse_parts(
            split_on(t, '+'),
            BindingAcc { ctrl: false, shift: false, alt: false, key: None },
        ) {
            Some(acc) => match acc.key {
                Some(k) => Some(KeyBinding { ctrl: acc.ctrl, shift: acc.shift, alt: acc.alt, key: k }),
                None => None,
            },
            None => None,
        }
    }
}

/// Whether a normalized part names the key (rather than a modifier).
pub open spec fn names_key(n: Seq<char>) -> bool {
    !(n == "ctrl"@ || n == "control"@ || n == "shift"@ || n == "alt"@)
}

/// Reading two parts in either order gives the same binding, unless both
/// name the key (the later key wins): the order of a shortcut's parts does
/// not matter when it has one key.
pub proof fn lemma_parts_swap(parts: Seq<Seq<char>>, i: int, acc: BindingAcc)
    requires
        0 <= i,
        i + 1 < parts.len(),
        !(names_key(normalize_part(parts[i])) && names_key(normalize_part(parts[i + 1]))),
    ensures
        parse_parts(parts, acc) == parse_parts(parts.update(i, parts[i + 1]).update(i + 1, parts[i]), acc),
    decreases i,
{
    let q = parts.update(i, parts[i + 1]).update(i + 1, parts[i]);
    if i == 0 {
        reveal_with_fuel(parse_parts, 3);
        let a = normalize_part(parts[0]);
        let b = normalize_part(parts[1]);
        let rest = parts.drop_first().drop_first();
        assert(q.drop_first().drop_first() =~= rest);
        assert(parts.drop_first()[0] == parts[1]);
        assert(q.drop_first()[0] == parts[0]);
        match parse_part(a, acc) {
            Some(x) => match parse_part(b, acc) {
                Some(y) => {
                    assert(parse_part(b, x) == parse_part(a, y));
                },
                None => {
                    assert(parse_part(b, x) is None);
                },
            },
            None => match parse_part(b, acc) {
                Some(y) => {
                    assert(parse_part(a, y) is None);
                },
                None => {},
            },
        }
    } else {
        assert(q[0] == parts[0]);
        assert(q.drop_first() =~= parts.drop_first().update(i - 1, parts[i + 1]).update(i, parts[i]));
        match parse_part(normalize_part(parts[0]), acc) {
            Some(x) => {
                lemma_parts_swap(parts.drop_first(), i - 1, x);
            },
            None => {},
        }
    }
}

proof fn lemma_lower_without(x: Seq<char>)
    ensures
        without(lower_ascii(x), '_') == lower_ascii(without(x, '_')),
    decreases x.len(),
{
    reveal_with_fuel(Seq::<_>::filter, 1);
    if x.len() > 0 {
        lemma_lower_without(x.drop_last());
        assert(lower_ascii(x).drop_last() =~= lower_ascii(x.drop_last()));
        let c = x.last();
        if c == '_' {
            assert(without(lower_ascii(x), '_') =~= without(lower_ascii(x.drop_last()), '_'));
            assert(without(x, '_') =~= without(x.drop_last(), '_'));
        } else {
            assert(ascii_lower(c) != '_');
            assert(without(lower_ascii(x), '_') =~= without(lower_ascii(x.drop_last()), '_').push(ascii_lower(c)));
            assert(without(x, '_') =~= without(x.drop_last(), '_').push(c));
            assert(lower_ascii(without(x.drop_last(), '_').push(c)) =~= lower_ascii(without(x.drop_last(), '_')).push(
                ascii_lower(c),
            ));
        }
    } else {
        assert(without(lower_ascii(x), '_') =~= lower_ascii(without(x, '_')));
    }
}

/// The parts of a shortcut after normalizing each.
pub open spec fn normed(parts: Seq<Seq<char>>) -> Seq<Seq<char>> {
    parts.map_values(|p: Seq<char>| normalize_part(p))
}

/// At most one normalized part names the key.
pub open spec fn one_key(ns: Seq<Seq<char>>) -> bool {
    forall|i: int, j: int|
        0 <= i < j < ns.len() ==> !(names_key(#[trigger] ns[i]) && names_key(#[trigger] ns[j]))
}

proof fn lemma_parse_push(parts: Seq<Seq<char>>, x: Seq<char>, acc: BindingAcc)
    ensures
        parse_parts(parts.push(x), acc) == (match parse_parts(parts, acc) {
            Some(a) => parse_part(normalize_part(x), a),
            None => None,
        }),
    decreases parts.len(),
{
    if parts.len() == 0 {
        reveal_with_fuel(parse_parts, 2);
        assert(parts.push(x).drop_first() =~= Seq::<Seq<char>>::empty());
    } else {
        assert(parts.push(x)[0] == parts[0]);
        assert(parts.push(x).drop_first() =~= parts.drop_first().push(x));
        match parse_part(normalize_part(parts[0]), acc) {
            Some(a) => lemma_parse_push(parts.drop_first(), x, a),
            None => {},
        }
    }
}

proof fn lemma_move_to_end(b: Seq<Seq<char>>, j: int, acc: BindingAcc)
    requires
        0 <= j < b.len(),
        forall|k: int|
            j < k < b.len() ==> !(names_key(normalize_part(b[j])) && names_key(normalize_part(#[trigger] b[k]))),
    ensures
        parse_parts(b, acc) == parse_parts(b.remove(j).push(b[j]), acc),
    decreases b.len() - j,
{
    if j == b.len() - 1 {
        assert(b.remove(j).push(b[j]) =~= b);
    } else {
        let b2 = b.update(j, b[j + 1]).update(j + 1, b[j]);
        assert(!(names_key(normalize_part(b[j])) && names_key(normalize_part(b[j + 1]))));
        lemma_parts_swap(b, j, acc);
        assert forall|k: int| j + 1 < k < b2.len() implies !(names_key(normalize_part(b2[j + 1])) && names_key(
            normalize_part(#[trigger] b2[k]),
        )) by {
            assert(b2[k] == b[k]);
        }
        lemma_move_to_end(b2, j + 1, acc);
        assert(b2.remove(j + 1).push(b2[j + 1]) =~= b.remove(j).push(b[j]));
    }
}

/// Reading the parts of a shortcut in any other order gives the same
/// binding when at most one of them names the key; parts only need to agree
/// once normalized (see [`lemma_part_spelling`] and [`lemma_part_padding`]).
pub proof fn lemma_parts_reorder(a: Seq<Seq<char>>, b: Seq<Seq<char>>, acc: BindingAcc)
    requires
        normed(a).to_multiset() == normed(b).to_multiset(),
        one_key(normed(a)),
    ensures
        parse_parts(a, acc) == parse_parts(b, acc),
    decreases a.len(),
{
    broadcast use vstd::seq_lib::group_to_multiset_ensures;

    let na = normed(a);
    let nb = normed(b);
    if a.len() == 0 {
        assert(na.to_multiset().len() == 0);
        assert(nb.len() == 0);
        assert(b.len() == 0);
    } else {
        let x = a.last();
        let nx = normalize_part(x);
        assert(na[na.len() - 1] == nx);
        assert(na.contains(nx));
        assert(na.to_multiset().count(nx) > 0);
        assert(nb.to_multiset().count(nx) > 0);
        assert(nb.contains(nx));
        let j = choose|j: int| 0 <= j < nb.len() && nb[j] == nx;
        assert(normalize_part(b[j]) == nx);
        let a1 = a.drop_last();
        let b1 = b.remove(j);
        assert(normed(a1) =~= na.drop_last());
        assert(normed(b1) =~= nb.remove(j));
        assert(na.drop_last() =~= na.remove(na.len() - 1));
        assert(normed(a1).to_multiset() == normed(b1).to_multiset());
        assert forall|i: int, k: int| 0 <= i < k < normed(a1).len() implies !(names_key(
            #[trigger] normed(a1)[i],
        ) && names_key(#[trigger] normed(a1)[k])) by {
            assert(normed(a1)[i] == na[i]);
            assert(normed(a1)[k] == na[k]);
        }
        assert forall|k: int| j < k < b.len() implies !(names_key(normalize_part(b[j])) && names_key(
            normalize_part(#[trigger] b[k]),
        )) by {
            if names_key(nx) {
                let y = nb[k];
                assert(nb.remove(j)[k - 1] == y);
                assert(nb.remove(j).contains(y));
                assert(nb.remove(j).to_multiset().count(y) > 0);
                assert(na.drop_last().to_multiset().count(y) > 0);
                assert(na.drop_last().contains(y));
                let i = choose|i: int| 0 <= i < na.drop_last().len() && na.drop_last()[i] == y;
                assert(na[i] == y);
                assert(!(names_key(na[i]) && names_key(na[na.len() - 1])));
            }
        }
        lemma_move_to_end(b, j, acc);
        lemma_parse_push(a1, x, acc);
        assert(a1.push(x) =~= a);
        lemma_parse_push(b1, b[j], acc);
        lemma_parts_reorder(a1, b1, acc);
    }
}

proof fn lemma_empty_part_invalid(acc: BindingAcc)
    ensures
        parse_part(Seq::<char>::empty(), acc) is None,
{
    let e = Seq::<char>::empty();
    reveal_strlit("ctrl");
    assert("ctrl"@.len() > 0);
    assert(e != "ctrl"@);
    reveal_strlit("control");
    assert("control"@.len() > 0);
    assert(e != "control"@);
    reveal_strlit("shift");
    assert("shift"@.len() > 0);
    assert(e != "shift"@);
    reveal_strlit("alt");
    assert("alt"@.len() > 0);
    assert(e != "alt"@);
    reveal_strlit("esc");
    assert("esc"@.len() > 0);
    assert(e != "esc"@);
    reveal_strlit("escape");
    assert("escape"@.len() > 0);
    assert(e != "escape"@);
    reveal_strlit("delete");
    assert("delete"@.len() > 0);
    assert(e != "delete"@);
    reveal_strlit("del");
    assert("del"@.len() > 0);
    assert(e != "del"@);
    reveal_strlit("backspace");
    assert("backspace"@.len() > 0);
    assert(e != "backspace"@);
    reveal_strlit("enter");
    assert("enter"@.len() > 0);
    assert(e != "enter"@);
    reveal_strlit("return");
    assert("return"@.len() > 0);
    assert(e != "return"@);
    reveal_strlit("home");
    assert("home"@.len() > 0);
    assert(e != "home"@);
    reveal_strlit("end");
    assert("end"@.len() > 0);
    assert(e != "end"@);
    reveal_strlit("left");
    assert("left"@.len() > 0);
    assert(e != "left"@);
    reveal_strlit("right");
    assert("right"@.len() > 0);
    assert(e != "right"@);
    reveal_strlit("up");
    assert("up"@.len() > 0);
    assert(e != "up"@);
    reveal_strlit("down");
    assert("down"@.len() > 0);
    assert(e != "down"@);
    reveal_strlit("pageup");
    assert("pageup"@.len() > 0);
    assert(e != "pageup"@);
    reveal_strlit("pagedown");
    assert("pagedown"@.len() > 0);
    assert(e != "pagedown"@);
    reveal_strlit("backslash");
    assert("backslash"@.len() > 0);
    assert(e != "backslash"@);
    assert(named_part(e) is None);
}

/// The binding of a shortcut does not depend on the order of its
/// `+`-separated parts, their letter case, underscores inside them or spaces
/// around them: two shortcuts whose parts agree once normalized, up to
/// order, have the same binding, when at most one part names the key.
pub proof fn lemma_binding_reorder(s1: Seq<char>, s2: Seq<char>)
    requires
        normed(split_on(trim(s1), '+')).to_multiset() == normed(split_on(trim(s2), '+')).to_multiset(),
        one_key(normed(split_on(trim(s1), '+'))),
    ensures
        binding_of(s1) == binding_of(s2),
{
    let init = BindingAcc { ctrl: false, shift: false, alt: false, key: None };
    let p1 = split_on(trim(s1), '+');
    let p2 = split_on(trim(s2), '+');
    lemma_parts_reorder(p1, p2, init);
    let e = Seq::<char>::empty();
    assert(normalize_part(e) =~= e) by {
        reveal_with_fuel(Seq::<_>::filter, 1);
        assert(trim(e) =~= e);
        assert(lower_ascii(e) =~= e);
    }
    lemma_empty_part_invalid(init);
    assert(parse_parts(seq![e], init) is None) by {
        reveal_with_fuel(parse_parts, 2);
        assert(seq![e][0] == e);
    }
    if trim(s1).len() == 0 {
        assert(p1 =~= seq![e]) by {
            assert(trim(s1).subrange(0, 0) =~= e);
        }
    }
    if trim(s2).len() == 0 {
        assert(p2 =~= seq![e]) by {
            assert(trim(s2).subrange(0, 0) =~= e);
        }
    }
}

/// How a part is spelled beyond its letters does not matter: two parts
/// that differ only in ASCII letter case and in underscores (once trimmed)
/// are read alike.
pub proof fn lemma_part_spelling(p: Seq<char>, q: Seq<char>)
    requires
        lower_ascii(without(trim(p), '_')) == lower_ascii(without(trim(q), '_')),
    ensures
        normalize_part(p) == normalize_part(q),
{
    lemma_lower_without(trim(p));
    lemma_lower_without(trim(q));
}

/// All characters of `w` are whitespace.
pub open spec fn all_ws(w: Seq<char>) -> bool {
    forall|i: int| 0 <= i < w.len() ==> is_ws(#[trigger] w[i])
}

proof fn lemma_trim_start_skips_ws(w: Seq<char>, x: Seq<char>)
    requires
        all_ws(w),
    ensures
        trim_start(w + x) == trim_start(x),
    decreases w.len(),
{
    if w.len() > 0 {
        assert((w + x)[0] == w[0]);
        assert((w + x).drop_first() =~= w.drop_first() + x);
        lemma_trim_start_skips_ws(w.drop_first(), x);
    } else {
        assert(w + x =~= x);
    }
}

proof fn lemma_trim_end_skips_ws(x: Seq<char>, w: Seq<char>)
    requires
        all_ws(w),
    ensures
        trim_end(x + w) == trim_end(x),
    decreases w.len(),
{
    if w.len() > 0 {
        assert((x + w).last() == w.last());
        assert((x + w).drop_last() =~= x + w.drop_last());
        lemma_trim_end_skips_ws(x, w.drop_last());
    } else {
        assert(x + w =~= x);
    }
}

proof fn lemma_trim_start_append(x: Seq<char>, y: Seq<char>)
    ensures
        trim_start(x + y) == (if trim_start(x).len() > 0 {
            trim_start(x) + y
        } else {
            trim_start(y)
        }),
    decreases x.len(),
{
    if x.len() > 0 {
        assert((x + y)[0] == x[0]);
        if is_ws(x[0]) {
            assert((x + y).drop_first() =~= x.drop_first() + y);
            lemma_trim_start_append(x.drop_first(), y);
        }
    } else {
        assert(x + y =~= y);
    }
}

/// Spaces around a part do not matter.
pub proof fn lemma_part_padding(w1: Seq<char>, p: Seq<char>, w2: Seq<char>)
    requires
        all_ws(w1),
        all_ws(w2),
    ensures
        normalize_part(w1 + p + w2) == normalize_part(p),
{
    assert(w1 + p + w2 =~= w1 + (p + w2));
    lemma_trim_start_skips_ws(w1, p + w2);
    lemma_trim_start_append(p, w2);
    if trim_start(p).len() > 0 {
        lemma_trim_end_skips_ws(trim_start(p), w2);
    } else {
        assert(w2 + Seq::<char>::empty() =~= w2);
        lemma_trim_start_skips_ws(w2, Seq::<char>::empty());
        assert(trim_start(Seq::<char>::empty()) == Seq::<char>::empty());
    }
    assert(trim(w1 + p + w2) == trim(p));
}

/// The key of an accumulated binding is a lower-case character or a named
/// key.
pub open spec fn key_lower(k: Option<BindingKey>) -> bool {
    match k {
        Some(BindingKey::Char(c)) => ascii_lower(c) == c,
        _ => true,
    }
}

proof fn lemma_parts_keep_lower(parts: Seq<Seq<char>>, acc: BindingAcc)
    requires
        key_lower(acc.key),
    ensures
        parse_parts(parts, acc) matches Some(a) ==> key_lower(a.key),
    decreases parts.len(),
{
    if parts.len() > 0 {
        match parse_part(normalize_part(parts[0]), acc) {
            Some(x) => lemma_parts_keep_lower(parts.drop_first(), x),
            None => {},
        }
    }
}

/// A parsed shortcut's key is a character in lower case (letters are
/// lower-cased) or a named key.
pub proof fn lemma_binding_key_lower(s: Seq<char>)
    ensures
        binding_of(s) matches Some(b) ==> key_lower(Some(b.key)),
{
    lemma_parts_keep_lower(
        split_on(trim(s), '+'),
        BindingAcc { ctrl: false, shift: false, alt: false, key: None },
    );
}

fn named_part_exec(n: &Vec<char>) -> (r: Option<BindingKey>)
    ensures
        r == named_part(n@),
{
    if eq_lit(n, "esc") || eq_lit(n, "escape") {
        Some(BindingKey::Named(NamedKey::Escape))
    } else if eq_lit(n, "delete") || eq_lit(n, "del") {
        Some(BindingKey::Named(NamedKey::Delete))
    } else if eq_lit(n, "backspace") {
        Some(BindingKey::Named(NamedKey::Backspace))
    } else if eq_lit(n, "enter") || eq_lit(n, "return") {
        Some(BindingKey::Named(NamedKey::Enter))
    } else if eq_lit(n, "home") {
        Some(BindingKey::Named(NamedKey::Home))
    } else if eq_lit(n, "end") {
        Some(BindingKey::Named(NamedKey::End))
    } else if eq_lit(n, "left") {
        Some(BindingKey::Named(NamedKey::Left))
    } else if eq_lit(n, "right") {
        Some(BindingKey::Named(NamedKey::Right))
    } else if eq_lit(n, "up") {
        Some(BindingKey::Named(NamedKey::Up))
    } else if eq_lit(n, "down") {
        Some(BindingKey::Named(NamedKey::Down))
    } else if eq_lit(n, "pageup") {
        Some(BindingKey::Named(NamedKey::PageUp))
    } else if eq_lit(n, "pagedown") {
        Some(BindingKey::Named(NamedKey::PageDown))
    } else if eq_lit(n, "backslash") {
        Some(BindingKey::Char('\\'))
    } else {
        None
    }
}

fn function_part_exec(n: &Vec<char>) -> (r: Option<NamedKey>)
    ensures
        r == function_part(n@),
{
    if eq_lit(n, "f1") {
        Some(NamedKey::F1)
    } else if eq_lit(n, "f2") {
        Some(NamedKey::F2)
    } else if eq_lit(n, "f3") {
        Some(NamedKey::F3)
    } else if eq_lit(n, "f4") {
        Some(NamedKey::F4)
    } else if eq_lit(n, "f5") {
        Some(NamedKey::F5)
    } else if eq_lit(n, "f6") {
        Some(NamedKey::F6)
    } else if eq_lit(n, "f7") {
        Some(NamedKey::F7)
    } else if eq_lit(n, "f8") {
        Some(NamedKey::F8)
    } else if eq_lit(n, "f9") {
        Some(NamedKey::F9)
    } else if eq_lit(n, "f10") {
        Some(NamedKey::F10)
    } else if eq_lit(n, "f11") {
        Some(NamedKey::F11)
    } else if eq_lit(n, "f12") {
        Some(NamedKey::F12)
    } else {
        None
    }
}

fn parse_part_exec(n: &Vec<char>, acc: BindingAcc) -> (r: Option<BindingAcc>)
    ensures
        r == parse_part(n@, acc),
{
    if eq_lit(n, "ctrl") || eq_lit(n, "control") {
        Some(BindingAcc { ctrl: true, ..acc })
    } else if eq_lit(n, "shift") {
        Some(BindingAcc { shift: true, ..acc })
    } else if eq_lit(n, "alt") {
        Some(BindingAcc { alt: true, ..acc })
    } else {
        let named = named_part_exec(n);
        if named.is_some() {
            Some(BindingAcc { key: named, ..acc })
        } else if n.len() > 1 && n[0] == 'f' {
            match function_part_exec(n) {
                Some(k) => Some(BindingAcc { key: Some(BindingKey::Named(k)), ..acc }),
                None => None,
            }
        } else if n.len() == 1 {
            Some(BindingAcc { key: Some(BindingKey::Char(to_ascii_lower(n[0]))), ..acc })
        } else {
            None
        }
    }
}

/// Parses a shortcut text such as "Ctrl+Shift+N" or "Ctrl+Page_Down".
pub fn parse_key_binding(shortcut: &str) -> (r: Option<KeyBinding>)
    ensures
        r == binding_of(shortcut@),
{
    let s = chars_of(shortcut);
    let t = trim_vec(&s);
    if t.len() == 0 {
        return None;
    }
    let parts = split_char(&t, '+');
    let mut acc = BindingAcc { ctrl: false, shift: false, alt: false, key: None };
    let mut i: usize = 0;
    let ghost all = views(parts@);
    assert(all.skip(0) =~= all);
    while i < parts.len()
        invariant
            i <= parts.len(),
            all == views(parts@),
            all == split_on(t@, '+'),
            t@ == trim(shortcut@),
            t@.len() > 0,
            parse_parts(all, BindingAcc { ctrl: false, shift: false, alt: false, key: None })
                == parse_parts(all.skip(i as int), acc),
        decreases parts.len() - i,
    {
        let trimmed = trim_vec(&parts[i]);
        let lowered = lower_ascii_vec(&trimmed);
        let n = remove_char(&lowered, '_');
        assert(n@ == normalize_part(all[i as int]));
        assert(all[i as int] == parts@[i as int]@);
        assert(all.skip(i as int)[0] == all[i as int]);
        assert(all.skip(i as int).drop_first() =~= all.skip(i + 1));
        match parse_part_exec(&n, acc) {
            Some(a) => {
                acc = a;
            },
            None => {
                assert(all.skip(i as int).len() > 0);
                assert(parse_parts(all.skip(i as int), acc) is None);
                return None;
            },
        }
        i = i + 1;
    }
    match acc.key {
        Some(k) => Some(KeyBinding { ctrl: acc.ctrl, shift: acc.shift, alt: acc.alt, key: k }),
        None => None,
    }
}

} // verus!

verus! {

/// The identity of a pressed key, as far as bindings distinguish keys.
#[derive(Clone, Copy, Debug, PartialEq, Eq, Structural)]
pub enum PressedKey {
    Escape,
    Delete,
    BackSpace,
    Return,
    KpEnter,
    Home,
    End,
    Left,
    Right,
    Up,
    Down,
    PageUp,
    PageDown,
    F1,
    F2,
    F3,
    F4,
    F5,
    F6,
    F7,
    F8,
    F9,
    F10,
    F11,
    F12,
    Other,
}

/// A key press: the key and the character it produces, if any.
#[derive(Clone, Copy, Debug, PartialEq, Eq, Structural)]
pub struct KeyPress {
    pub key: PressedKey,
    pub unicode: Option<char>,
}

/// The Ctrl, Shift and Alt modifiers held during a press.
#[derive(Clone, Copy, Debug, PartialEq, Eq, Structural)]
pub struct Modifiers {
    pub ctrl: bool,
    pub shift: bool,
    pub alt: bool,
}

/// The character of a press, ASCII lower-cased.
pub open spec fn key_char_of(p: KeyPress) -> Option<char> {
    match p.unicode {
        Some(c) => Some(ascii_lower(c)),
        None => None,
    }
}

/// The character of a press, ASCII lower-cased.
pub fn key_char(p: KeyPress) -> (r: Option<char>)
    ensures
        r == key_char_of(p),
{
    match p.unicode {
        Some(c) => Some(to_ascii_lower(c)),
        None => None,
    }
}

/// Whether a pressed key is the named key of a binding (Enter covers the
/// keypad Enter too).
pub open spec fn named_matches(n: NamedKey, k: PressedKey) -> bool {
    match n {
        NamedKey::Escape => k == PressedKey::Escape,
        NamedKey::Delete => k == PressedKey::Delete,
        NamedKey::Backspace => k == PressedKey::BackSpace,
        NamedKey::Enter => k == PressedKey::Return || k == PressedKey::KpEnter,
        NamedKey::Home => k == PressedKey::Home,
        NamedKey::End => k == PressedKey::End,
        NamedKey::Left => k == PressedKey::Left,
        NamedKey::Right => k == PressedKey::Right,
        NamedKey::Up => k == PressedKey::Up,
        NamedKey::Down => k == PressedKey::Down,
        NamedKey::PageUp => k == PressedKey::PageUp,
        NamedKey::PageDown => k == PressedKey::PageDown,
        NamedKey::F1 => k == PressedKey::F1,
        NamedKey::F2 => k == PressedKey::F2,
        NamedKey::F3 => k == PressedKey::F3,
        NamedKey::F4 => k == PressedKey::F4,
        NamedKey::F5 => k == PressedKey::F5,
        NamedKey::F6 => k == PressedKey::F6,
        NamedKey::F7 => k == PressedKey::F7,
        NamedKey::F8 => k == PressedKey::F8,
        NamedKey::F9 => k == PressedKey::F9,
        NamedKey::F10 => k == PressedKey::F10,
        NamedKey::F11 => k == PressedKey::F11,
        NamedKey::F12 => k == PressedKey::F12,
    }
}

/// A binding matches a press when the modifiers are exactly those of the
/// binding and the key is the binding's key.
pub open spec fn binding_matches(b: KeyBinding, p: KeyPress, m: Modifiers) -> bool {
    &&& b.ctrl == m.ctrl
    &&& b.shift == m.shift
    &&& b.alt == m.alt
    &&& match b.key {
        BindingKey::Char(c) => key_char_of(p) == Some(c),
        BindingKey::Named(n) => named_matches(n, p.key),
    }
}

impl KeyBinding {
    /// Whether this binding is what the press with these modifiers means.
    pub fn matches(&self, p: KeyPress, m: Modifiers) -> (r: bool)
        ensures
            r == binding_matches(*self, p, m),
    {
        if self.ctrl != m.ctrl || self.shift != m.shift || self.alt != m.alt {
            return false;
        }
        match self.key {
            BindingKey::Char(c) => match key_char(p) {
                Some(k) => k == c,
                None => false,
            },
            BindingKey::Named(n) => match n {
                NamedKey::Escape => p.key == PressedKey::Escape,
                NamedKey::Delete => p.key == PressedKey::Delete,
                NamedKey::Backspace => p.key == PressedKey::BackSpace,
                NamedKey::Enter => p.key == PressedKey::Return || p.key == PressedKey::KpEnter,
                NamedKey::Home => p.key == PressedKey::Home,
                NamedKey::End => p.key == PressedKey::End,
                NamedKey::Left => p.key == PressedKey::Left,
                NamedKey::Right => p.key == PressedKey::Right,
                NamedKey::Up => p.key == PressedKey::Up,
                NamedKey::Down => p.key == PressedKey::Down,
                NamedKey::PageUp => p.key == PressedKey::PageUp,
                NamedKey::PageDown => p.key == PressedKey::PageDown,
                NamedKey::F1 => p.key == PressedKey::F1,
                NamedKey::F2 => p.key == PressedKey::F2,
                NamedKey::F3 => p.key == PressedKey::F3,
                NamedKey::F4 => p.key == PressedKey::F4,
                NamedKey::F5 => p.key == PressedKey::F5,
                NamedKey::F6 => p.key == PressedKey::F6,
                NamedKey::F7 => p.key == PressedKey::F7,
                NamedKey::F8 => p.key == PressedKey::F8,
                NamedKey::F9 => p.key == PressedKey::F9,
                NamedKey::F10 => p.key == PressedKey::F10,
                NamedKey::F11 => p.key == PressedKey::F11,
                NamedKey::F12 => p.key == PressedKey::F12,
            },
        }
    }
}

/// A user-defined action that can be bound to a shortcut.
#[derive(Clone, Debug)]
pub struct CustomActionConfig {
    pub id: String,
    pub label: String,
    pub argv: Vec<String>,
    pub shortcut: Option<String>,
}

/// The shortcut configuration: action ids with their shortcut texts, in the
/// order the configuration lists them, and the custom actions.
#[derive(Clone, Debug)]
pub struct AppConfig {
    pub shortcuts: Vec<(String, String)>,
    pub custom_actions: Vec<CustomActionConfig>,
}

/// The command of the first configured shortcut that matches the press: a
/// `custom.` id names a custom action, a known id a built-in command; a
/// matching entry with an unknown id is passed over.
pub open spec fn dispatch_shortcuts(list: Seq<(String, String)>, p: KeyPress, m: Modifiers) -> Option<
    CommandView,
>
    decreases list.len(),
{
    if list.len() == 0 {
        None
    } else {
        let id = list[0].0@;
        let rest = dispatch_shortcuts(list.drop_first(), p, m);
        match binding_of(list[0].1@) {
            Some(b) => if binding_matches(b, p, m) {
                if has_prefix(id, "custom."@) {
                    Some(CommandView::Custom(id.skip(7)))
                } else {
                    match builtin_command_of(id) {
                        Some(c) => Some(CommandView::Builtin(c)),
                        None => rest,
                    }
                }
            } else {
                rest
            },
            None => rest,
        }
    }
}

/// The first custom action whose own shortcut matches the press.
pub open spec fn dispatch_custom(list: Seq<CustomActionConfig>, p: KeyPress, m: Modifiers) -> Option<
    CommandView,
>
    decreases list.len(),
{
    if list.len() == 0 {
        None
    } else {
        let rest = dispatch_custom(list.drop_first(), p, m);
        match list[0].shortcut {
            Some(s) => match binding_of(s@) {
                Some(b) => if binding_matches(b, p, m) {
                    Some(CommandView::Custom(list[0].id@))
                } else {
                    rest
                },
                None => rest,
            },
            None => rest,
        }
    }
}

/// The command a press dispatches under a configuration: configured
/// shortcuts first, then custom actions' own shortcuts.
pub open spec fn dispatch(c: AppConfig, p: KeyPress, m: Modifiers) -> Option<CommandView> {
    match dispatch_shortcuts(c.shortcuts@, p, m) {
        Some(v) => Some(v),
        None => dispatch_custom(c.custom_actions@, p, m),
    }
}

/// The view of an optional command.
pub open spec fn opt_command_view(c: Option<WindowCommand>) -> Option<CommandView> {
    match c {
        Some(w) => Some(command_view(w)),
        None => None,
    }
}

/// The window command that a key press triggers under the configuration.
pub fn configured_window_command_from_key(config: &AppConfig, press: KeyPress, mods: Modifiers) -> (r:
    Option<WindowCommand>)
    ensures
        opt_command_view(r) == dispatch(*config, press, mods),
{
    let mut i: usize = 0;
    let ghost list = config.shortcuts@;
    assert(list.skip(0) =~= list);
    while i < config.shortcuts.len()
        invariant
            i <= list.len(),
            list == config.shortcuts@,
            dispatch_shortcuts(list, press, mods) == dispatch_shortcuts(list.skip(i as int), press, mods),
        decreases list.len() - i,
    {
        let entry = &config.shortcuts[i];
        assert(list.skip(i as int)[0] == list[i as int]);
        assert(list.skip(i as int).drop_first() =~= list.skip(i + 1));
        let action_id = chars_of(entry.0.as_str());
        if let Some(binding) = parse_key_binding(entry.1.as_str()) {
            if binding.matches(press, mods) {
                let prefix = chars_of("custom.");
                proof {
                    reveal_strlit("custom.");
                }
                if starts_with(&action_id, &prefix) {
                    let custom = string_of_range(&action_id, 7, action_id.len());
                    assert(custom@ =~= action_id@.skip(7));
                    return Some(WindowCommand::CustomAction(custom));
                }
                let builtin = builtin_command(entry.0.as_str());
                if builtin.is_some() {
                    return builtin;
                }
            }
        }
        i = i + 1;
    }
    let ghost actions = config.custom_actions@;
    let mut j: usize = 0;
    assert(actions.skip(0) =~= actions);
    while j < config.custom_actions.len()
        invariant
            j <= actions.len(),
            actions == config.custom_actions@,
            dispatch_shortcuts(config.shortcuts@, press, mods) is None,
            dispatch_custom(actions, press, mods) == dispatch_custom(actions.skip(j as int), press, mods),
        decreases actions.len() - j,
    {
        let action = &config.custom_actions[j];
        assert(actions.skip(j as int)[0] == actions[j as int]);
        assert(actions.skip(j as int).drop_first() =~= actions.skip(j + 1));
        if let Some(shortcut) = &action.shortcut {
            if let Some(binding) = parse_key_binding(shortcut.as_str()) {
                if binding.matches(press, mods) {
                    return Some(WindowCommand::CustomAction(action.id.clone()));
                }
            }
        }
        j = j + 1;
    }
    None
}


/// The built-in actions and their default shortcuts, in the order the
/// default configuration lists them.
pub open spec fn builtin_shortcut_table() -> Seq<(Seq<char>, Seq<char>)> {
    seq![
        ("copy_selection"@, "Ctrl+C"@),
        ("cut_selection"@, "Ctrl+X"@),
        ("paste_clipboard"@, "Ctrl+V"@),
        ("copy_path"@, "Ctrl+Shift+C"@),
        ("new_folder"@, "Ctrl+N"@),
        ("new_text_document"@, "Ctrl+Shift+N"@),
        ("toggle_sidebar"@, "Ctrl+B"@),
        ("toggle_holding_tray"@, "Ctrl+Alt+H"@),
        ("tray_add_selection"@, "Ctrl+Alt+A"@),
        ("tray_move_to_project"@, "Ctrl+Alt+M"@),
        ("tray_copy_to_project"@, "Ctrl+Alt+C"@),
        ("tray_tag"@, "Ctrl+Alt+T"@),
        ("tray_trash"@, "Ctrl+Alt+Delete"@),
        ("tray_copy_paths"@, "Ctrl+Alt+P"@),
        ("tray_clear"@, "Ctrl+Alt+K"@),
        ("new_tab"@, "Ctrl+T"@),
        ("close_tab"@, "Ctrl+W"@),
        ("toggle_split"@, "Ctrl+Backslash"@),
        ("previous_tab"@, "Ctrl+Page_Up"@),
        ("next_tab"@, "Ctrl+Page_Down"@),
        ("cycle_pane"@, "F6"@),
        ("trash"@, "Delete"@),
        ("empty_trash"@, "Ctrl+Shift+Delete"@),
        ("rename"@, "F2"@),
    ]
}

/// The plain values of a shortcut list.
pub open spec fn shortcut_texts(v: Seq<(String, String)>) -> Seq<(Seq<char>, Seq<char>)> {
    v.map_values(|p: (String, String)| (p.0@, p.1@))
}

/// The built-in actions with their default shortcuts.
pub fn builtin_shortcut_actions() -> (r: Vec<(String, String)>)
    ensures
        shortcut_texts(r@) == builtin_shortcut_table(),
{
    let mut r: Vec<(String, String)> = Vec::new();
    r.push(("copy_selection".to_string(), "Ctrl+C".to_string()));
    r.push(("cut_selection".to_string(), "Ctrl+X".to_string()));
    r.push(("paste_clipboard".to_string(), "Ctrl+V".to_string()));
    r.push(("copy_path".to_string(), "Ctrl+Shift+C".to_string()));
    r.push(("new_folder".to_string(), "Ctrl+N".to_string()));
    r.push(("new_text_document".to_string(), "Ctrl+Shift+N".to_string()));
    r.push(("toggle_sidebar".to_string(), "Ctrl+B".to_string()));
    r.push(("toggle_holding_tray".to_string(), "Ctrl+Alt+H".to_string()));
    r.push(("tray_add_selection".to_string(), "Ctrl+Alt+A".to_string()));
    r.push(("tray_move_to_project".to_string(), "Ctrl+Alt+M".to_string()));
    r.push(("tray_copy_to_project".to_string(), "Ctrl+Alt+C".to_string()));
    r.push(("tray_tag".to_string(), "Ctrl+Alt+T".to_string()));
    r.push(("tray_trash".to_string(), "Ctrl+Alt+Delete".to_string()));
    r.push(("tray_copy_paths".to_string(), "Ctrl+Alt+P".to_string()));
    r.push(("tray_clear".to_string(), "Ctrl+Alt+K".to_string()));
    r.push(("new_tab".to_string(), "Ctrl+T".to_string()));
    r.push(("close_tab".to_string(), "Ctrl+W".to_string()));
    r.push(("toggle_split".to_string(), "Ctrl+Backslash".to_string()));
    r.push(("previous_tab".to_string(), "Ctrl+Page_Up".to_string()));
    r.push(("next_tab".to_string(), "Ctrl+Page_Down".to_string()));
    r.push(("cycle_pane".to_string(), "F6".to_string()));
    r.push(("trash".to_string(), "Delete".to_string()));
    r.push(("empty_trash".to_string(), "Ctrl+Shift+Delete".to_string()));
    r.push(("rename".to_string(), "F2".to_string()));
    assert(shortcut_texts(r@) =~= builtin_shortcut_table());
    r
}

proof fn lemma_builtin_row_0(j: int)
    requires
        0 < j < 24,
    ensures
        builtin_shortcut_table()[0].0 != builtin_shortcut_table()[j].0,
{
    reveal_strlit("copy_selection");
    reveal_strlit("cut_selection");
    reveal_strlit("paste_clipboard");
    reveal_strlit("copy_path");
    reveal_strlit("new_folder");
    reveal_strlit("new_text_document");
    reveal_strlit("toggle_sidebar");
    reveal_strlit("toggle_holding_tray");
    reveal_strlit("tray_add_selection");
    reveal_strlit("tray_move_to_project");
    reveal_strlit("tray_copy_to_project");
    reveal_strlit("tray_tag");
    reveal_strlit("tray_trash");
    reveal_strlit("tray_copy_paths");
    reveal_strlit("tray_clear");
    reveal_strlit("new_tab");
    reveal_strlit("close_tab");
    reveal_strlit("toggle_split");
    reveal_strlit("previous_tab");
    reveal_strlit("next_tab");
    reveal_strlit("cycle_pane");
    reveal_strlit("trash");
    reveal_strlit("empty_trash");
    reveal_strlit("rename");
    let t = builtin_shortcut_table();
    assert(t[0].0 == "copy_selection"@);
    if j == 1 {
        assert(t[1].0 == "cut_selection"@);
        assert("copy_selection"@.len() != "cut_selection"@.len());
    } else if j == 2 {
        assert(t[2].0 == "paste_clipboard"@);
        assert("copy_selection"@.len() != "paste_clipboard"@.len());
    } else if j == 3 {
        assert(t[3].0 == "copy_path"@);
        assert("copy_selection"@.len() != "copy_path"@.len());
    } else if j == 4 {
        assert(t[4].0 == "new_folder"@);
        assert("copy_selection"@.len() != "new_folder"@.len());
    } else if j == 5 {
        assert(t[5].0 == "new_text_document"@);
        assert("copy_selection"@.len() != "new_text_document"@.len());
    } else if j == 6 {
        assert(t[6].0 == "toggle_sidebar"@);
        assert("copy_selection"@[0] != "toggle_sidebar"@[0]);
    } else if j == 7 {
        assert(t[7].0 == "toggle_holding_tray"@);
        assert("copy_selection"@.len() != "toggle_holding_tray"@.len());
    } else if j == 8 {
        assert(t[8].0 == "tray_add_selection"@);
        assert("copy_selection"@.len() != "tray_add_selection"@.len());
    } else if j == 9 {
        assert(t[9].0 == "tray_move_to_project"@);
        assert("copy_selection"@.len() != "tray_move_to_project"@.len());
    } else if j == 10 {
        assert(t[10].0 == "tray_copy_to_project"@);
        assert("copy_selection"@.len() != "tray_copy_to_project"@.len());
    } else if j == 11 {
        assert(t[11].0 == "tray_tag"@);
        assert("copy_selection"@.len() != "tray_tag"@.len());
    } else if j == 12 {
        assert(t[12].0 == "tray_trash"@);
        assert("copy_selection"@.len() != "tray_trash"@.len());
    } else if j == 13 {
        assert(t[13].0 == "tray_copy_paths"@);
        assert("copy_selection"@.len() != "tray_copy_paths"@.len());
    } else if j == 14 {
        assert(t[14].0 == "tray_clear"@);
        assert("copy_selection"@.len() != "tray_clear"@.len());
    } else if j == 15 {
        assert(t[15].0 == "new_tab"@);
        assert("copy_selection"@.len() != "new_tab"@.len());
    } else if j == 16 {
        assert(t[16].0 == "close_tab"@);
        assert("copy_selection"@.len() != "close_tab"@.len());
    } else if j == 17 {
        assert(t[17].0 == "toggle_split"@);
        assert("copy_selection"@.len() != "toggle_split"@.len());
    } else if j == 18 {
        assert(t[18].0 == "previous_tab"@);
        assert("copy_selection"@.len() != "previous_tab"@.len());
    } else if j == 19 {
        assert(t[19].0 == "next_tab"@);
        assert("copy_selection"@.len() != "next_tab"@.len());
    } else if j == 20 {
        assert(t[20].0 == "cycle_pane"@);
        assert("copy_selection"@.len() != "cycle_pane"@.len());
    } else if j == 21 {
        assert(t[21].0 == "trash"@);
        assert("copy_selection"@.len() != "trash"@.len());
    } else if j == 22 {
        assert(t[22].0 == "empty_trash"@);
        assert("copy_selection"@.len() != "empty_trash"@.len());
    } else if j == 23 {
        assert(t[23].0 == "rename"@);
        assert("copy_selection"@.len() != "rename"@.len());
    } else {
    }
}

proof fn lemma_builtin_row_1(j: int)
    requires
        1 < j < 24,
    ensures
        builtin_shortcut_table()[1].0 != builtin_shortcut_table()[j].0,
{
    reveal_strlit("cut_selection");
    reveal_strlit("paste_clipboard");
    reveal_strlit("copy_path");
    reveal_strlit("new_folder");
    reveal_strlit("new_text_document");
    reveal_strlit("toggle_sidebar");
    reveal_strlit("toggle_holding_tray");
    reveal_strlit("tray_add_selection");
    reveal_strlit("tray_move_to_project");
    reveal_strlit("tray_copy_to_project");
    reveal_strlit("tray_tag");
    reveal_strlit("tray_trash");
    reveal_strlit("tray_copy_paths");
    reveal_strlit("tray_clear");
    reveal_strlit("new_tab");
    reveal_strlit("close_tab");
    reveal_strlit("toggle_split");
    reveal_strlit("previous_tab");
    reveal_strlit("next_tab");
    reveal_strlit("cycle_pane");
    reveal_strlit("trash");
    reveal_strlit("empty_trash");
    reveal_strlit("rename");
    let t = builtin_shortcut_table();
    assert(t[1].0 == "cut_selection"@);
    if j == 2 {
        assert(t[2].0 == "paste_clipboard"@);
        assert("cut_selection"@.len() != "paste_clipboard"@.len());
    } else if j == 3 {
        assert(t[3].0 == "copy_path"@);
        assert("cut_selection"@.len() != "copy_path"@.len());
    } else if j == 4 {
        assert(t[4].0 == "new_folder"@);
        assert("cut_selection"@.len() != "new_folder"@.len());
    } else if j == 5 {
        assert(t[5].0 == "new_text_document"@);
        assert("cut_selection"@.len() != "new_text_document"@.len());
    } else if j == 6 {
        assert(t[6].0 == "toggle_sidebar"@);
        assert("cut_selection"@.len() != "toggle_sidebar"@.len());
    } else if j == 7 {
        assert(t[7].0 == "toggle_holding_tray"@);
        assert("cut_selection"@.len() != "toggle_holding_tray"@.len());
    } else if j == 8 {
        assert(t[8].0 == "tray_add_selection"@);
        assert("cut_selection"@.len() != "tray_add_selection"@.len());
    } else if j == 9 {
        assert(t[9].0 == "tray_move_to_project"@);
        assert("cut_selection"@.len() != "tray_move_to_project"@.len());
    } else if j == 10 {
        assert(t[10].0 == "tray_copy_to_project"@);
        assert("cut_selection"@.len() != "tray_copy_to_project"@.len());
    } else if j == 11 {
        assert(t[11].0 == "tray_tag"@);
        assert("cut_selection"@.len() != "tray_tag"@.len());
    } else if j == 12 {
        assert(t[12].0 == "tray_trash"@);
        assert("cut_selection"@.len() != "tray_trash"@.len());
    } else if j == 13 {
        assert(t[13].0 == "tray_copy_paths"@);
        assert("cut_selection"@.len() != "tray_copy_paths"@.len());
    } else if j == 14 {
        assert(t[14].0 == "tray_clear"@);
        assert("cut_selection"@.len() != "tray_clear"@.len());
    } else if j == 15 {
        assert(t[15].0 == "new_tab"@);
        assert("cut_selection"@.len() != "new_tab"@.len());
    } else if j == 16 {
        assert(t[16].0 == "close_tab"@);
        assert("cut_selection"@.len() != "close_tab"@.len());
    } else if j == 17 {
        assert(t[17].0 == "toggle_split"@);
        assert("cut_selection"@.len() != "toggle_split"@.len());
    } else if j == 18 {
        assert(t[18].0 == "previous_tab"@);
        assert("cut_selection"@.len() != "previous_tab"@.len());
    } else if j == 19 {
        assert(t[19].0 == "next_tab"@);
        assert("cut_selection"@.len() != "next_tab"@.len());
    } else if j == 20 {
        assert(t[20].0 == "cycle_pane"@);
        assert("cut_selection"@.len() != "cycle_pane"@.len());
    } else if j == 21 {
        assert(t[21].0 == "trash"@);
        assert("cut_selection"@.len() != "trash"@.len());
    } else if j == 22 {
        assert(t[22].0 == "empty_trash"@);
        assert("cut_selection"@.len() != "empty_trash"@.len());
    } else if j == 23 {
        assert(t[23].0 == "rename"@);
        assert("cut_selection"@.len() != "rename"@.len());
    } else {
    }
}

proof fn lemma_builtin_row_2(j: int)
    requires
        2 < j < 24,
    ensures
        builtin_shortcut_table()[2].0 != builtin_shortcut_table()[j].0,
{
    reveal_strlit("paste_clipboard");
    reveal_strlit("copy_path");
    reveal_strlit("new_folder");
    reveal_strlit("new_text_document");
    reveal_strlit("toggle_sidebar");
    reveal_strlit("toggle_holding_tray");
    reveal_strlit("tray_add_selection");
    reveal_strlit("tray_move_to_project");
    reveal_strlit("tray_copy_to_project");
    reveal_strlit("tray_tag");
    reveal_strlit("tray_trash");
    reveal_strlit("tray_copy_paths");
    reveal_strlit("tray_clear");
    reveal_strlit("new_tab");
    reveal_strlit("close_tab");
    reveal_strlit("toggle_split");
    reveal_strlit("previous_tab");
    reveal_strlit("next_tab");
    reveal_strlit("cycle_pane");
    reveal_strlit("trash");
    reveal_strlit("empty_trash");
    reveal_strlit("rename");
    let t = builtin_shortcut_table();
    assert(t[2].0 == "paste_clipboard"@);
    if j == 3 {
        assert(t[3].0 == "copy_path"@);
        assert("paste_clipboard"@.len() != "copy_path"@.len());
    } else if j == 4 {
        assert(t[4].0 == "new_folder"@);
        assert("paste_clipboard"@.len() != "new_folder"@.len());
    } else if j == 5 {
        assert(t[5].0 == "new_text_document"@);
        assert("paste_clipboard"@.len() != "new_text_document"@.len());
    } else if j == 6 {
        assert(t[6].0 == "toggle_sidebar"@);
        assert("paste_clipboard"@.len() != "toggle_sidebar"@.len());
    } else if j == 7 {
        assert(t[7].0 == "toggle_holding_tray"@);
        assert("paste_clipboard"@.len() != "toggle_holding_tray"@.len());
    } else if j == 8 {
        assert(t[8].0 == "tray_add_selection"@);
        assert("paste_clipboard"@.len() != "tray_add_selection"@.len());
    } else if j == 9 {
        assert(t[9].0 == "tray_move_to_project"@);
        assert("paste_clipboard"@.len() != "tray_move_to_project"@.len());
    } else if j == 10 {
        assert(t[10].0 == "tray_copy_to_project"@);
        assert("paste_clipboard"@.len() != "tray_copy_to_project"@.len());
    } else if j == 11 {
        assert(t[11].0 == "tray_tag"@);
        assert("paste_clipboard"@.len() != "tray_tag"@.len());
    } else if j == 12 {
        assert(t[12].0 == "tray_trash"@);
        assert("paste_clipboard"@.len() != "tray_trash"@.len());
    } else if j == 13 {
        assert(t[13].0 == "tray_copy_paths"@);
        assert("paste_clipboard"@[0] != "tray_copy_paths"@[0]);
    } else if j == 14 {
        assert(t[14].0 == "tray_clear"@);
        assert("paste_clipboard"@.len() != "tray_clear"@.len());
    } else if j == 15 {
        assert(t[15].0 == "new_tab"@);
        assert("paste_clipboard"@.len() != "new_tab"@.len());
    } else if j == 16 {
        assert(t[16].0 == "close_tab"@);
        assert("paste_clipboard"@.len() != "close_tab"@.len());
    } else if j == 17 {
        assert(t[17].0 == "toggle_split"@);
        assert("paste_clipboard"@.len() != "toggle_split"@.len());
    } else if j == 18 {
        assert(t[18].0 == "previous_tab"@);
        assert("paste_clipboard"@.len() != "previous_tab"@.len());
    } else if j == 19 {
        assert(t[19].0 == "next_tab"@);
        assert("paste_clipboard"@.len() != "next_tab"@.len());
    } else if j == 20 {
        assert(t[20].0 == "cycle_pane"@);
        assert("paste_clipboard"@.len() != "cycle_pane"@.len());
    } else if j == 21 {
        assert(t[21].0 == "trash"@);
        assert("paste_clipboard"@.len() != "trash"@.len());
    } else if j == 22 {
        assert(t[22].0 == "empty_trash"@);
        assert("paste_clipboard"@.len() != "empty_trash"@.len());
    } else if j == 23 {
        assert(t[23].0 == "rename"@);
        assert("paste_clipboard"@.len() != "rename"@.len());
    } else {
    }
}

proof fn lemma_builtin_row_3(j: int)
    requires
        3 < j < 24,
    ensures
        builtin_shortcut_table()[3].0 != builtin_shortcut_table()[j].0,
{
    reveal_strlit("copy_path");
    reveal_strlit("new_folder");
    reveal_strlit("new_text_document");
    reveal_strlit("toggle_sidebar");
    reveal_strlit("toggle_holding_tray");
    reveal_strlit("tray_add_selection");
    reveal_strlit("tray_move_to_project");
    reveal_strlit("tray_copy_to_project");
    reveal_strlit("tray_tag");
    reveal_strlit("tray_trash");
    reveal_strlit("tray_copy_paths");
    reveal_strlit("tray_clear");
    reveal_strlit("new_tab");
    reveal_strlit("close_tab");
    reveal_strlit("toggle_split");
    reveal_strlit("previous_tab");
    reveal_strlit("next_tab");
    reveal_strlit("cycle_pane");
    reveal_strlit("trash");
    reveal_strlit("empty_trash");
    reveal_strlit("rename");
    let t = builtin_shortcut_table();
    assert(t[3].0 == "copy_path"@);
    if j == 4 {
        assert(t[4].0 == "new_folder"@);
        assert("copy_path"@.len() != "new_folder"@.len());
    } else if j == 5 {
        assert(t[5].0 == "new_text_document"@);
        assert("copy_path"@.len() != "new_text_document"@.len());
    } else if j == 6 {
        assert(t[6].0 == "toggle_sidebar"@);
        assert("copy_path"@.len() != "toggle_sidebar"@.len());
    } else if j == 7 {
        assert(t[7].0 == "toggle_holding_tray"@);
        assert("copy_path"@.len() != "toggle_holding_tray"@.len());
    } else if j == 8 {
        assert(t[8].0 == "tray_add_selection"@);
        assert("copy_path"@.len() != "tray_add_selection"@.len());
    } else if j == 9 {
        assert(t[9].0 == "tray_move_to_project"@);
        assert("copy_path"@.len() != "tray_move_to_project"@.len());
    } else if j == 10 {
        assert(t[10].0 == "tray_copy_to_project"@);
        assert("copy_path"@.len() != "tray_copy_to_project"@.len());
    } else if j == 11 {
        assert(t[11].0 == "tray_tag"@);
        assert("copy_path"@.len() != "tray_tag"@.len());
    } else if j == 12 {
        assert(t[12].0 == "tray_trash"@);
        assert("copy_path"@.len() != "tray_trash"@.len());
    } else if j == 13 {
        assert(t[13].0 == "tray_copy_paths"@);
        assert("copy_path"@.len() != "tray_copy_paths"@.len());
    } else if j == 14 {
        assert(t[14].0 == "tray_clear"@);
        assert("copy_path"@.len() != "tray_clear"@.len());
    } else if j == 15 {
        assert(t[15].0 == "new_tab"@);
        assert("copy_path"@.len() != "new_tab"@.len());
    } else if j == 16 {
        assert(t[16].0 == "close_tab"@);
        assert("copy_path"@[1] != "close_tab"@[1]);
    } else if j == 17 {
        assert(t[17].0 == "toggle_split"@);
        assert("copy_path"@.len() != "toggle_split"@.len());
    } else if j == 18 {
        assert(t[18].0 == "previous_tab"@);
        assert("copy_path"@.len() != "previous_tab"@.len());
    } else if j == 19 {
        assert(t[19].0 == "next_tab"@);
        assert("copy_path"@.len() != "next_tab"@.len());
    } else if j == 20 {
        assert(t[20].0 == "cycle_pane"@);
        assert("copy_path"@.len() != "cycle_pane"@.len());
    } else if j == 21 {
        assert(t[21].0 == "trash"@);
        assert("copy_path"@.len() != "trash"@.len());
    } else if j == 22 {
        assert(t[22].0 == "empty_trash"@);
        assert("copy_path"@.len() != "empty_trash"@.len());
    } else if j == 23 {
        assert(t[23].0 == "rename"@);
        assert("copy_path"@.len() != "rename"@.len());
    } else {
    }
}

proof fn lemma_builtin_row_4(j: int)
    requires
        4 < j < 24,
    ensures
        builtin_shortcut_table()[4].0 != builtin_shortcut_table()[j].0,
{
    reveal_strlit("new_folder");
    reveal_strlit("new_text_document");
    reveal_strlit("toggle_sidebar");
    reveal_strlit("toggle_holding_tray");
    reveal_strlit("tray_add_selection");
    reveal_strlit("tray_move_to_project");
    reveal_strlit("tray_copy_to_project");
    reveal_strlit("tray_tag");
    reveal_strlit("tray_trash");
    reveal_strlit("tray_copy_paths");
    reveal_strlit("tray_clear");
    reveal_strlit("new_tab");
    reveal_strlit("close_tab");
    reveal_strlit("toggle_split");
    reveal_strlit("previous_tab");
    reveal_strlit("next_tab");
    reveal_strlit("cycle_pane");
    reveal_strlit("trash");
    reveal_strlit("empty_trash");
    reveal_strlit("rename");
    let t = builtin_shortcut_table();
    assert(t[4].0 == "new_folder"@);
    if j == 5 {
        assert(t[5].0 == "new_text_document"@);
        assert("new_folder"@.len() != "new_text_document"@.len());
    } else if j == 6 {
        assert(t[6].0 == "toggle_sidebar"@);
        assert("new_folder"@.len() != "toggle_sidebar"@.len());
    } else if j == 7 {
        assert(t[7].0 == "toggle_holding_tray"@);
        assert("new_folder"@.len() != "toggle_holding_tray"@.len());
    } else if j == 8 {
        assert(t[8].0 == "tray_add_selection"@);
        assert("new_folder"@.len() != "tray_add_selection"@.len());
    } else if j == 9 {
        assert(t[9].0 == "tray_move_to_project"@);
        assert("new_folder"@.len() != "tray_move_to_project"@.len());
    } else if j == 10 {
        assert(t[10].0 == "tray_copy_to_project"@);
        assert("new_folder"@.len() != "tray_copy_to_project"@.len());
    } else if j == 11 {
        assert(t[11].0 == "tray_tag"@);
        assert("new_folder"@.len() != "tray_tag"@.len());
    } else if j == 12 {
        assert(t[12].0 == "tray_trash"@);
        assert("new_folder"@[0] != "tray_trash"@[0]);
    } else if j == 13 {
        assert(t[13].0 == "tray_copy_paths"@);
        assert("new_folder"@.len() != "tray_copy_paths"@.len());
    } else if j == 14 {
        assert(t[14].0 == "tray_clear"@);
        assert("new_folder"@[0] != "tray_clear"@[0]);
    } else if j == 15 {
        assert(t[15].0 == "new_tab"@);
        assert("new_folder"@.len() != "new_tab"@.len());
    } else if j == 16 {
        assert(t[16].0 == "close_tab"@);
        assert("new_folder"@.len() != "close_tab"@.len());
    } else if j == 17 {
        assert(t[17].0 == "toggle_split"@);
        assert("new_folder"@.len() != "toggle_split"@.len());
    } else if j == 18 {
        assert(t[18].0 == "previous_tab"@);
        assert("new_folder"@.len() != "previous_tab"@.len());
    } else if j == 19 {
        assert(t[19].0 == "next_tab"@);
        assert("new_folder"@.len() != "next_tab"@.len());
    } else if j == 20 {
        assert(t[20].0 == "cycle_pane"@);
        assert("new_folder"@[0] != "cycle_pane"@[0]);
    } else if j == 21 {
        assert(t[21].0 == "trash"@);
        assert("new_folder"@.len() != "trash"@.len());
    } else if j == 22 {
        assert(t[22].0 == "empty_trash"@);
        assert("new_folder"@.len() != "empty_trash"@.len());
    } else if j == 23 {
        assert(t[23].0 == "rename"@);
        assert("new_folder"@.len() != "rename"@.len());
    } else {
    }
}

proof fn lemma_builtin_row_5(j: int)
    requires
        5 < j < 24,
    ensures
        builtin_shortcut_table()[5].0 != builtin_shortcut_table()[j].0,
{
    reveal_strlit("new_text_document");
    reveal_strlit("toggle_sidebar");
    reveal_strlit("toggle_holding_tray");
    reveal_strlit("tray_add_selection");
    reveal_strlit("tray_move_to_project");
    reveal_strlit("tray_copy_to_project");
    reveal_strlit("tray_tag");
    reveal_strlit("tray_trash");
    reveal_strlit("tray_copy_paths");
    reveal_strlit("tray_clear");
    reveal_strlit("new_tab");
    reveal_strlit("close_tab");
    reveal_strlit("toggle_split");
    reveal_strlit("previous_tab");
    reveal_strlit("next_tab");
    reveal_strlit("cycle_pane");
    reveal_strlit("trash");
    reveal_strlit("empty_trash");
    reveal_strlit("rename");
    let t = builtin_shortcut_table();
    assert(t[5].0 == "new_text_document"@);
    if j == 6 {
        assert(t[6].0 == "toggle_sidebar"@);
        assert("new_text_document"@.len() != "toggle_sidebar"@.len());
    } else if j == 7 {
        assert(t[7].0 == "toggle_holding_tray"@);
        assert("new_text_document"@.len() != "toggle_holding_tray"@.len());
    } else if j == 8 {
        assert(t[8].0 == "tray_add_selection"@);
        assert("new_text_document"@.len() != "tray_add_selection"@.len());
    } else if j == 9 {
        assert(t[9].0 == "tray_move_to_project"@);
        assert("new_text_document"@.len() != "tray_move_to_project"@.len());
    } else if j == 10 {
        assert(t[10].0 == "tray_copy_to_project"@);
        assert("new_text_document"@.len() != "tray_copy_to_project"@.len());
    } else if j == 11 {
        assert(t[11].0 == "tray_tag"@);
        assert("new_text_document"@.len() != "tray_tag"@.len());
    } else if j == 12 {
        assert(t[12].0 == "tray_trash"@);
        assert("new_text_document"@.len() != "tray_trash"@.len());
    } else if j == 13 {
        assert(t[13].0 == "tray_copy_paths"@);
        assert("new_text_document"@.len() != "tray_copy_paths"@.len());
    } else if j == 14 {
        assert(t[14].0 == "tray_clear"@);
        assert("new_text_document"@.len() != "tray_clear"@.len());
    } else if j == 15 {
        assert(t[15].0 == "new_tab"@);
        assert("new_text_document"@.len() != "new_tab"@.len());
    } else if j == 16 {
        assert(t[16].0 == "close_tab"@);
        assert("new_text_document"@.len() != "close_tab"@.len());
    } else if j == 17 {
        assert(t[17].0 == "toggle_split"@);
        assert("new_text_document"@.len() != "toggle_split"@.len());
    } else if j == 18 {
        assert(t[18].0 == "previous_tab"@);
        assert("new_text_document"@.len() != "previous_tab"@.len());
    } else if j == 19 {
        assert(t[19].0 == "next_tab"@);
        assert("new_text_document"@.len() != "next_tab"@.len());
    } else if j == 20 {
        assert(t[20].0 == "cycle_pane"@);
        assert("new_text_document"@.len() != "cycle_pane"@.len());
    } else if j == 21 {
        assert(t[21].0 == "trash"@);
        assert("new_text_document"@.len() != "trash"@.len());
    } else if j == 22 {
        assert(t[22].0 == "empty_trash"@);
        assert("new_text_document"@.len() != "empty_trash"@.len());
    } else if j == 23 {
        assert(t[23].0 == "rename"@);
        assert("new_text_document"@.len() != "rename"@.len());
    } else {
    }
}

proof fn lemma_builtin_row_6(j: int)
    requires
        6 < j < 24,
    ensures
        builtin_shortcut_table()[6].0 != builtin_shortcut_table()[j].0,
{
    reveal_strlit("toggle_sidebar");
    reveal_strlit("toggle_holding_tray");
    reveal_strlit("tray_add_selection");
    reveal_strlit("tray_move_to_project");
    reveal_strlit("tray_copy_to_project");
    reveal_strlit("tray_tag");
    reveal_strlit("tray_trash");
    reveal_strlit("tray_copy_paths");
    reveal_strlit("tray_clear");
    reveal_strlit("new_tab");
    reveal_strlit("close_tab");
    reveal_strlit("toggle_split");
    reveal_strlit("previous_tab");
    reveal_strlit("next_tab");
    reveal_strlit("cycle_pane");
    reveal_strlit("trash");
    reveal_strlit("empty_trash");
    reveal_strlit("rename");
    let t = builtin_shortcut_table();
    assert(t[6].0 == "toggle_sidebar"@);
    if j == 7 {
        assert(t[7].0 == "toggle_holding_tray"@);
        assert("toggle_sidebar"@.len() != "toggle_holding_tray"@.len());
    } else if j == 8 {
        assert(t[8].0 == "tray_add_selection"@);
        assert("toggle_sidebar"@.len() != "tray_add_selection"@.len());
    } else if j == 9 {
        assert(t[9].0 == "tray_move_to_project"@);
        assert("toggle_sidebar"@.len() != "tray_move_to_project"@.len());
    } else if j == 10 {
        assert(t[10].0 == "tray_copy_to_project"@);
        assert("toggle_sidebar"@.len() != "tray_copy_to_project"@.len());
    } else if j == 11 {
        assert(t[11].0 == "tray_tag"@);
        assert("toggle_sidebar"@.len() != "tray_tag"@.len());
    } else if j == 12 {
        assert(t[12].0 == "tray_trash"@);
        assert("toggle_sidebar"@.len() != "tray_trash"@.len());
    } else if j == 13 {
        assert(t[13].0 == "tray_copy_paths"@);
        assert("toggle_sidebar"@.len() != "tray_copy_paths"@.len());
    } else if j == 14 {
        assert(t[14].0 == "tray_clear"@);
        assert("toggle_sidebar"@.len() != "tray_clear"@.len());
    } else if j == 15 {
        assert(t[15].0 == "new_tab"@);
        assert("toggle_sidebar"@.len() != "new_tab"@.len());
    } else if j == 16 {
        assert(t[16].0 == "close_tab"@);
        assert("toggle_sidebar"@.len() != "close_tab"@.len());
    } else if j == 17 {
        assert(t[17].0 == "toggle_split"@);
        assert("toggle_sidebar"@.len() != "toggle_split"@.len());
    } else if j == 18 {
        assert(t[18].0 == "previous_tab"@);
        assert("toggle_sidebar"@.len() != "previous_tab"@.len());
    } else if j == 19 {
        assert(t[19].0 == "next_tab"@);
        assert("toggle_sidebar"@.len() != "next_tab"@.len());
    } else if j == 20 {
        assert(t[20].0 == "cycle_pane"@);
        assert("toggle_sidebar"@.len() != "cycle_pane"@.len());
    } else if j == 21 {
        assert(t[21].0 == "trash"@);
        assert("toggle_sidebar"@.len() != "trash"@.len());
    } else if j == 22 {
        assert(t[22].0 == "empty_trash"@);
        assert("toggle_sidebar"@.len() != "empty_trash"@.len());
    } else if j == 23 {
        assert(t[23].0 == "rename"@);
        assert("toggle_sidebar"@.len() != "rename"@.len());
    } else {
    }
}

proof fn lemma_builtin_row_7(j: int)
    requires
        7 < j < 24,
    ensures
        builtin_shortcut_table()[7].0 != builtin_shortcut_table()[j].0,
{
    reveal_strlit("toggle_holding_tray");
    reveal_strlit("tray_add_selection");
    reveal_strlit("tray_move_to_project");
    reveal_strlit("tray_copy_to_project");
    reveal_strlit("tray_tag");
    reveal_strlit("tray_trash");
    reveal_strlit("tray_copy_paths");
    reveal_strlit("tray_clear");
    reveal_strlit("new_tab");
    reveal_strlit("close_tab");
    reveal_strlit("toggle_split");
    reveal_strlit("previous_tab");
    reveal_strlit("next_tab");
    reveal_strlit("cycle_pane");
    reveal_strlit("trash");
    reveal_strlit("empty_trash");
    reveal_strlit("rename");
    let t = builtin_shortcut_table();
    assert(t[7].0 == "toggle_holding_tray"@);
    if j == 8 {
        assert(t[8].0 == "tray_add_selection"@);
        assert("toggle_holding_tray"@.len() != "tray_add_selection"@.len());
    } else if j == 9 {
        assert(t[9].0 == "tray_move_to_project"@);
        assert("toggle_holding_tray"@.len() != "tray_move_to_project"@.len());
    } else if j == 10 {
        assert(t[10].0 == "tray_copy_to_project"@);
        assert("toggle_holding_tray"@.len() != "tray_copy_to_project"@.len());
    } else if j == 11 {
        assert(t[11].0 == "tray_tag"@);
        assert("toggle_holding_tray"@.len() != "tray_tag"@.len());
    } else if j == 12 {
        assert(t[12].0 == "tray_trash"@);
        assert("toggle_holding_tray"@.len() != "tray_trash"@.len());
    } else if j == 13 {
        assert(t[13].0 == "tray_copy_paths"@);
        assert("toggle_holding_tray"@.len() != "tray_copy_paths"@.len());
    } else if j == 14 {
        assert(t[14].0 == "tray_clear"@);
        assert("toggle_holding_tray"@.len() != "tray_clear"@.len());
    } else if j == 15 {
        assert(t[15].0 == "new_tab"@);
        assert("toggle_holding_tray"@.len() != "new_tab"@.len());
    } else if j == 16 {
        assert(t[16].0 == "close_tab"@);
        assert("toggle_holding_tray"@.len() != "close_tab"@.len());
    } else if j == 17 {
        assert(t[17].0 == "toggle_split"@);
        assert("toggle_holding_tray"@.len() != "toggle_split"@.len());
    } else if j == 18 {
        assert(t[18].0 == "previous_tab"@);
        assert("toggle_holding_tray"@.len() != "previous_tab"@.len());
    } else if j == 19 {
        assert(t[19].0 == "next_tab"@);
        assert("toggle_holding_tray"@.len() != "next_tab"@.len());
    } else if j == 20 {
        assert(t[20].0 == "cycle_pane"@);
        assert("toggle_holding_tray"@.len() != "cycle_pane"@.len());
    } else if j == 21 {
        assert(t[21].0 == "trash"@);
        assert("toggle_holding_tray"@.len() != "trash"@.len());
    } else if j == 22 {
        assert(t[22].0 == "empty_trash"@);
        assert("toggle_holding_tray"@.len() != "empty_trash"@.len());
    } else if j == 23 {
        assert(t[23].0 == "rename"@);
        assert("toggle_holding_tray"@.len() != "rename"@.len());
    } else {
    }
}

proof fn lemma_builtin_row_8(j: int)
    requires
        8 < j < 24,
    ensures
        builtin_shortcut_table()[8].0 != builtin_shortcut_table()[j].0,
{
    reveal_strlit("tray_add_selection");
    reveal_strlit("tray_move_to_project");
    reveal_strlit("tray_copy_to_project");
    reveal_strlit("tray_tag");
    reveal_strlit("tray_trash");
    reveal_strlit("tray_copy_paths");
    reveal_strlit("tray_clear");
    reveal_strlit("new_tab");
    reveal_strlit("close_tab");
    reveal_strlit("toggle_split");
    reveal_strlit("previous_tab");
    reveal_strlit("next_tab");
    reveal_strlit("cycle_pane");
    reveal_strlit("trash");
    reveal_strlit("empty_trash");
    reveal_strlit("rename");
    let t = builtin_shortcut_table();
    assert(t[8].0 == "tray_add_selection"@);
    if j == 9 {
        assert(t[9].0 == "tray_move_to_project"@);
        assert("tray_add_selection"@.len() != "tray_move_to_project"@.len());
    } else if j == 10 {
        assert(t[10].0 == "tray_copy_to_project"@);
        assert("tray_add_selection"@.len() != "tray_copy_to_project"@.len());
    } else if j == 11 {
        assert(t[11].0 == "tray_tag"@);
        assert("tray_add_selection"@.len() != "tray_tag"@.len());
    } else if j == 12 {
        assert(t[12].0 == "tray_trash"@);
        assert("tray_add_selection"@.len() != "tray_trash"@.len());
    } else if j == 13 {
        assert(t[13].0 == "tray_copy_paths"@);
        assert("tray_add_selection"@.len() != "tray_copy_paths"@.len());
    } else if j == 14 {
        assert(t[14].0 == "tray_clear"@);
        assert("tray_add_selection"@.len() != "tray_clear"@.len());
    } else if j == 15 {
        assert(t[15].0 == "new_tab"@);
        assert("tray_add_selection"@.len() != "new_tab"@.len());
    } else if j == 16 {
        assert(t[16].0 == "close_tab"@);
        assert("tray_add_selection"@.len() != "close_tab"@.len());
    } else if j == 17 {
        assert(t[17].0 == "toggle_split"@);
        assert("tray_add_selection"@.len() != "toggle_split"@.len());
    } else if j == 18 {
        assert(t[18].0 == "previous_tab"@);
        assert("tray_add_selection"@.len() != "previous_tab"@.len());
    } else if j == 19 {
        assert(t[19].0 == "next_tab"@);
        assert("tray_add_selection"@.len() != "next_tab"@.len());
    } else if j == 20 {
        assert(t[20].0 == "cycle_pane"@);
        assert("tray_add_selection"@.len() != "cycle_pane"@.len());
    } else if j == 21 {
        assert(t[21].0 == "trash"@);
        assert("tray_add_selection"@.len() != "trash"@.len());
    } else if j == 22 {
        assert(t[22].0 == "empty_trash"@);
        assert("tray_add_selection"@.len() != "empty_trash"@.len());
    } else if j == 23 {
        assert(t[23].0 == "rename"@);
        assert("tray_add_selection"@.len() != "rename"@.len());
    } else {
    }
}

proof fn lemma_builtin_row_9(j: int)
    requires
        9 < j < 24,
    ensures
        builtin_shortcut_table()[9].0 != builtin_shortcut_table()[j].0,
{
    reveal_strlit("tray_move_to_project");
    reveal_strlit("tray_copy_to_project");
    reveal_strlit("tray_tag");
    reveal_strlit("tray_trash");
    reveal_strlit("tray_copy_paths");
    reveal_strlit("tray_clear");
    reveal_strlit("new_tab");
    reveal_strlit("close_tab");
    reveal_strlit("toggle_split");
    reveal_strlit("previous_tab");
    reveal_strlit("next_tab");
    reveal_strlit("cycle_pane");
    reveal_strlit("trash");
    reveal_strlit("empty_trash");
    reveal_strlit("rename");
    let t = builtin_shortcut_table();
    assert(t[9].0 == "tray_move_to_project"@);
    if j == 10 {
        assert(t[10].0 == "tray_copy_to_project"@);
        assert("tray_move_to_project"@[5] != "tray_copy_to_project"@[5]);
    } else if j == 11 {
        assert(t[11].0 == "tray_tag"@);
        assert("tray_move_to_project"@.len() != "tray_tag"@.len());
    } else if j == 12 {
        assert(t[12].0 == "tray_trash"@);
        assert("tray_move_to_project"@.len() != "tray_trash"@.len());
    } else if j == 13 {
        assert(t[13].0 == "tray_copy_paths"@);
        assert("tray_move_to_project"@.len() != "tray_copy_paths"@.len());
    } else if j == 14 {
        assert(t[14].0 == "tray_clear"@);
        assert("tray_move_to_project"@.len() != "tray_clear"@.len());
    } else if j == 15 {
        assert(t[15].0 == "new_tab"@);
        assert("tray_move_to_project"@.len() != "new_tab"@.len());
    } else if j == 16 {
        assert(t[16].0 == "close_tab"@);
        assert("tray_move_to_project"@.len() != "close_tab"@.len());
    } else if j == 17 {
        assert(t[17].0 == "toggle_split"@);
        assert("tray_move_to_project"@.len() != "toggle_split"@.len());
    } else if j == 18 {
        assert(t[18].0 == "previous_tab"@);
        assert("tray_move_to_project"@.len() != "previous_tab"@.len());
    } else if j == 19 {
        assert(t[19].0 == "next_tab"@);
        assert("tray_move_to_project"@.len() != "next_tab"@.len());
    } else if j == 20 {
        assert(t[20].0 == "cycle_pane"@);
        assert("tray_move_to_project"@.len() != "cycle_pane"@.len());
    } else if j == 21 {
        assert(t[21].0 == "trash"@);
        assert("tray_move_to_project"@.len() != "trash"@.len());
    } else if j == 22 {
        assert(t[22].0 == "empty_trash"@);
        assert("tray_move_to_project"@.len() != "empty_trash"@.len());
    } else if j == 23 {
        assert(t[23].0 == "rename"@);
        assert("tray_move_to_project"@.len() != "rename"@.len());
    } else {
    }
}

proof fn lemma_builtin_row_10(j: int)
    requires
        10 < j < 24,
    ensures
        builtin_shortcut_table()[10].0 != builtin_shortcut_table()[j].0,
{
    reveal_strlit("tray_copy_to_project");
    reveal_strlit("tray_tag");
    reveal_strlit("tray_trash");
    reveal_strlit("tray_copy_paths");
    reveal_strlit("tray_clear");
    reveal_strlit("new_tab");
    reveal_strlit("close_tab");
    reveal_strlit("toggle_split");
    reveal_strlit("previous_tab");
    reveal_strlit("next_tab");
    reveal_strlit("cycle_pane");
    reveal_strlit("trash");
    reveal_strlit("empty_trash");
    reveal_strlit("rename");
    let t = builtin_shortcut_table();
    assert(t[10].0 == "tray_copy_to_project"@);
    if j == 11 {
        assert(t[11].0 == "tray_tag"@);
        assert("tray_copy_to_project"@.len() != "tray_tag"@.len());
    } else if j == 12 {
        assert(t[12].0 == "tray_trash"@);
        assert("tray_copy_to_project"@.len() != "tray_trash"@.len());
    } else if j == 13 {
        assert(t[13].0 == "tray_copy_paths"@);
        assert("tray_copy_to_project"@.len() != "tray_copy_paths"@.len());
    } else if j == 14 {
        assert(t[14].0 == "tray_clear"@);
        assert("tray_copy_to_project"@.len() != "tray_clear"@.len());
    } else if j == 15 {
        assert(t[15].0 == "new_tab"@);
        assert("tray_copy_to_project"@.len() != "new_tab"@.len());
    } else if j == 16 {
        assert(t[16].0 == "close_tab"@);
        assert("tray_copy_to_project"@.len() != "close_tab"@.len());
    } else if j == 17 {
        assert(t[17].0 == "toggle_split"@);
        assert("tray_copy_to_project"@.len() != "toggle_split"@.len());
    } else if j == 18 {
        assert(t[18].0 == "previous_tab"@);
        assert("tray_copy_to_project"@.len() != "previous_tab"@.len());
    } else if j == 19 {
        assert(t[19].0 == "next_tab"@);
        assert("tray_copy_to_project"@.len() != "next_tab"@.len());
    } else if j == 20 {
        assert(t[20].0 == "cycle_pane"@);
        assert("tray_copy_to_project"@.len() != "cycle_pane"@.len());
    } else if j == 21 {
        assert(t[21].0 == "trash"@);
        assert("tray_copy_to_project"@.len() != "trash"@.len());
    } else if j == 22 {
        assert(t[22].0 == "empty_trash"@);
        assert("tray_copy_to_project"@.len() != "empty_trash"@.len());
    } else if j == 23 {
        assert(t[23].0 == "rename"@);
        assert("tray_copy_to_project"@.len() != "rename"@.len());
    } else {
    }
}

proof fn lemma_builtin_row_11(j: int)
    requires
        11 < j < 24,
    ensures
        builtin_shortcut_table()[11].0 != builtin_shortcut_table()[j].0,
{
    reveal_strlit("tray_tag");
    reveal_strlit("tray_trash");
    reveal_strlit("tray_copy_paths");
    reveal_strlit("tray_clear");
    reveal_strlit("new_tab");
    reveal_strlit("close_tab");
    reveal_strlit("toggle_split");
    reveal_strlit("previous_tab");
    reveal_strlit("next_tab");
    reveal_strlit("cycle_pane");
    reveal_strlit("trash");
    reveal_strlit("empty_trash");
    reveal_strlit("rename");
    let t = builtin_shortcut_table();
    assert(t[11].0 == "tray_tag"@);
    if j == 12 {
        assert(t[12].0 == "tray_trash"@);
        assert("tray_tag"@.len() != "tray_trash"@.len());
    } else if j == 13 {
        assert(t[13].0 == "tray_copy_paths"@);
        assert("tray_tag"@.len() != "tray_copy_paths"@.len());
    } else if j == 14 {
        assert(t[14].0 == "tray_clear"@);
        assert("tray_tag"@.len() != "tray_clear"@.len());
    } else if j == 15 {
        assert(t[15].0 == "new_tab"@);
        assert("tray_tag"@.len() != "new_tab"@.len());
    } else if j == 16 {
        assert(t[16].0 == "close_tab"@);
        assert("tray_tag"@.len() != "close_tab"@.len());
    } else if j == 17 {
        assert(t[17].0 == "toggle_split"@);
        assert("tray_tag"@.len() != "toggle_split"@.len());
    } else if j == 18 {
        assert(t[18].0 == "previous_tab"@);
        assert("tray_tag"@.len() != "previous_tab"@.len());
    } else if j == 19 {
        assert(t[19].0 == "next_tab"@);
        assert("tray_tag"@[0] != "next_tab"@[0]);
    } else if j == 20 {
        assert(t[20].0 == "cycle_pane"@);
        assert("tray_tag"@.len() != "cycle_pane"@.len());
    } else if j == 21 {
        assert(t[21].0 == "trash"@);
        assert("tray_tag"@.len() != "trash"@.len());
    } else if j == 22 {
        assert(t[22].0 == "empty_trash"@);
        assert("tray_tag"@.len() != "empty_trash"@.len());
    } else if j == 23 {
        assert(t[23].0 == "rename"@);
        assert("tray_tag"@.len() != "rename"@.len());
    } else {
    }
}

proof fn lemma_builtin_row_12(j: int)
    requires
        12 < j < 24,
    ensures
        builtin_shortcut_table()[12].0 != builtin_shortcut_table()[j].0,
{
    reveal_strlit("tray_trash");
    reveal_strlit("tray_copy_paths");
    reveal_strlit("tray_clear");
    reveal_strlit("new_tab");
    reveal_strlit("close_tab");
    reveal_strlit("toggle_split");
    reveal_strlit("previous_tab");
    reveal_strlit("next_tab");
    reveal_strlit("cycle_pane");
    reveal_strlit("trash");
    reveal_strlit("empty_trash");
    reveal_strlit("rename");
    let t = builtin_shortcut_table();
    assert(t[12].0 == "tray_trash"@);
    if j == 13 {
        assert(t[13].0 == "tray_copy_paths"@);
        assert("tray_trash"@.len() != "tray_copy_paths"@.len());
    } else if j == 14 {
        assert(t[14].0 == "tray_clear"@);
        assert("tray_trash"@[5] != "tray_clear"@[5]);
    } else if j == 15 {
        assert(t[15].0 == "new_tab"@);
        assert("tray_trash"@.len() != "new_tab"@.len());
    } else if j == 16 {
        assert(t[16].0 == "close_tab"@);
        assert("tray_trash"@.len() != "close_tab"@.len());
    } else if j == 17 {
        assert(t[17].0 == "toggle_split"@);
        assert("tray_trash"@.len() != "toggle_split"@.len());
    } else if j == 18 {
        assert(t[18].0 == "previous_tab"@);
        assert("tray_trash"@.len() != "previous_tab"@.len());
    } else if j == 19 {
        assert(t[19].0 == "next_tab"@);
        assert("tray_trash"@.len() != "next_tab"@.len());
    } else if j == 20 {
        assert(t[20].0 == "cycle_pane"@);
        assert("tray_trash"@[0] != "cycle_pane"@[0]);
    } else if j == 21 {
        assert(t[21].0 == "trash"@);
        assert("tray_trash"@.len() != "trash"@.len());
    } else if j == 22 {
        assert(t[22].0 == "empty_trash"@);
        assert("tray_trash"@.len() != "empty_trash"@.len());
    } else if j == 23 {
        assert(t[23].0 == "rename"@);
        assert("tray_trash"@.len() != "rename"@.len());
    } else {
    }
}

proof fn lemma_builtin_row_13(j: int)
    requires
        13 < j < 24,
    ensures
        builtin_shortcut_table()[13].0 != builtin_shortcut_table()[j].0,
{
    reveal_strlit("tray_copy_paths");
    reveal_strlit("tray_clear");
    reveal_strlit("new_tab");
    reveal_strlit("close_tab");
    reveal_strlit("toggle_split");
    reveal_strlit("previous_tab");
    reveal_strlit("next_tab");
    reveal_strlit("cycle_pane");
    reveal_strlit("trash");
    reveal_strlit("empty_trash");
    reveal_strlit("rename");
    let t = builtin_shortcut_table();
    assert(t[13].0 == "tray_copy_paths"@);
    if j == 14 {
        assert(t[14].0 == "tray_clear"@);
        assert("tray_copy_paths"@.len() != "tray_clear"@.len());
    } else if j == 15 {
        assert(t[15].0 == "new_tab"@);
        assert("tray_copy_paths"@.len() != "new_tab"@.len());
    } else if j == 16 {
        assert(t[16].0 == "close_tab"@);
        assert("tray_copy_paths"@.len() != "close_tab"@.len());
    } else if j == 17 {
        assert(t[17].0 == "toggle_split"@);
        assert("tray_copy_paths"@.len() != "toggle_split"@.len());
    } else if j == 18 {
        assert(t[18].0 == "previous_tab"@);
        assert("tray_copy_paths"@.len() != "previous_tab"@.len());
    } else if j == 19 {
        assert(t[19].0 == "next_tab"@);
        assert("tray_copy_paths"@.len() != "next_tab"@.len());
    } else if j == 20 {
        assert(t[20].0 == "cycle_pane"@);
        assert("tray_copy_paths"@.len() != "cycle_pane"@.len());
    } else if j == 21 {
        assert(t[21].0 == "trash"@);
        assert("tray_copy_paths"@.len() != "trash"@.len());
    } else if j == 22 {
        assert(t[22].0 == "empty_trash"@);
        assert("tray_copy_paths"@.len() != "empty_trash"@.len());
    } else if j == 23 {
        assert(t[23].0 == "rename"@);
        assert("tray_copy_paths"@.len() != "rename"@.len());
    } else {
    }
}

proof fn lemma_builtin_row_14(j: int)
    requires
        14 < j < 24,
    ensures
        builtin_shortcut_table()[14].0 != builtin_shortcut_table()[j].0,
{
    reveal_strlit("tray_clear");
    reveal_strlit("new_tab");
    reveal_strlit("close_tab");
    reveal_strlit("toggle_split");
    reveal_strlit("previous_tab");
    reveal_strlit("next_tab");
    reveal_strlit("cycle_pane");
    reveal_strlit("trash");
    reveal_strlit("empty_trash");
    reveal_strlit("rename");
    let t = builtin_shortcut_table();
    assert(t[14].0 == "tray_clear"@);
    if j == 15 {
        assert(t[15].0 == "new_tab"@);
        assert("tray_clear"@.len() != "new_tab"@.len());
    } else if j == 16 {
        assert(t[16].0 == "close_tab"@);
        assert("tray_clear"@.len() != "close_tab"@.len());
    } else if j == 17 {
        assert(t[17].0 == "toggle_split"@);
        assert("tray_clear"@.len() != "toggle_split"@.len());
    } else if j == 18 {
        assert(t[18].0 == "previous_tab"@);
        assert("tray_clear"@.len() != "previous_tab"@.len());
    } else if j == 19 {
        assert(t[19].0 == "next_tab"@);
        assert("tray_clear"@.len() != "next_tab"@.len());
    } else if j == 20 {
        assert(t[20].0 == "cycle_pane"@);
        assert("tray_clear"@[0] != "cycle_pane"@[0]);
    } else if j == 21 {
        assert(t[21].0 == "trash"@);
        assert("tray_clear"@.len() != "trash"@.len());
    } else if j == 22 {
        assert(t[22].0 == "empty_trash"@);
        assert("tray_clear"@.len() != "empty_trash"@.len());
    } else if j == 23 {
        assert(t[23].0 == "rename"@);
        assert("tray_clear"@.len() != "rename"@.len());
    } else {
    }
}

proof fn lemma_builtin_row_15(j: int)
    requires
        15 < j < 24,
    ensures
        builtin_shortcut_table()[15].0 != builtin_shortcut_table()[j].0,
{
    reveal_strlit("new_tab");
    reveal_strlit("close_tab");
    reveal_strlit("toggle_split");
    reveal_strlit("previous_tab");
    reveal_strlit("next_tab");
    reveal_strlit("cycle_pane");
    reveal_strlit("trash");
    reveal_strlit("empty_trash");
    reveal_strlit("rename");
    let t = builtin_shortcut_table();
    assert(t[15].0 == "new_tab"@);
    if j == 16 {
        assert(t[16].0 == "close_tab"@);
        assert("new_tab"@.len() != "close_tab"@.len());
    } else if j == 17 {
        assert(t[17].0 == "toggle_split"@);
        assert("new_tab"@.len() != "toggle_split"@.len());
    } else if j == 18 {
        assert(t[18].0 == "previous_tab"@);
        assert("new_tab"@.len() != "previous_tab"@.len());
    } else if j == 19 {
        assert(t[19].0 == "next_tab"@);
        assert("new_tab"@.len() != "next_tab"@.len());
    } else if j == 20 {
        assert(t[20].0 == "cycle_pane"@);
        assert("new_tab"@.len() != "cycle_pane"@.len());
    } else if j == 21 {
        assert(t[21].0 == "trash"@);
        assert("new_tab"@.len() != "trash"@.len());
    } else if j == 22 {
        assert(t[22].0 == "empty_trash"@);
        assert("new_tab"@.len() != "empty_trash"@.len());
    } else if j == 23 {
        assert(t[23].0 == "rename"@);
        assert("new_tab"@.len() != "rename"@.len());
    } else {
    }
}

proof fn lemma_builtin_row_16(j: int)
    requires
        16 < j < 24,
    ensures
        builtin_shortcut_table()[16].0 != builtin_shortcut_table()[j].0,
{
    reveal_strlit("close_tab");
    reveal_strlit("toggle_split");
    reveal_strlit("previous_tab");
    reveal_strlit("next_tab");
    reveal_strlit("cycle_pane");
    reveal_strlit("trash");
    reveal_strlit("empty_trash");
    reveal_strlit("rename");
    let t = builtin_shortcut_table();
    assert(t[16].0 == "close_tab"@);
    if j == 17 {
        assert(t[17].0 == "toggle_split"@);
        assert("close_tab"@.len() != "toggle_split"@.len());
    } else if j == 18 {
        assert(t[18].0 == "previous_tab"@);
        assert("close_tab"@.len() != "previous_tab"@.len());
    } else if j == 19 {
        assert(t[19].0 == "next_tab"@);
        assert("close_tab"@.len() != "next_tab"@.len());
    } else if j == 20 {
        assert(t[20].0 == "cycle_pane"@);
        assert("close_tab"@.len() != "cycle_pane"@.len());
    } else if j == 21 {
        assert(t[21].0 == "trash"@);
        assert("close_tab"@.len() != "trash"@.len());
    } else if j == 22 {
        assert(t[22].0 == "empty_trash"@);
        assert("close_tab"@.len() != "empty_trash"@.len());
    } else if j == 23 {
        assert(t[23].0 == "rename"@);
        assert("close_tab"@.len() != "rename"@.len());
    } else {
    }
}

proof fn lemma_builtin_row_17(j: int)
    requires
        17 < j < 24,
    ensures
        builtin_shortcut_table()[17].0 != builtin_shortcut_table()[j].0,
{
    reveal_strlit("toggle_split");
    reveal_strlit("previous_tab");
    reveal_strlit("next_tab");
    reveal_strlit("cycle_pane");
    reveal_strlit("trash");
    reveal_strlit("empty_trash");
    reveal_strlit("rename");
    let t = builtin_shortcut_table();
    assert(t[17].0 == "toggle_split"@);
    if j == 18 {
        assert(t[18].0 == "previous_tab"@);
        assert("toggle_split"@[0] != "previous_tab"@[0]);
    } else if j == 19 {
        assert(t[19].0 == "next_tab"@);
        assert("toggle_split"@.len() != "next_tab"@.len());
    } else if j == 20 {
        assert(t[20].0 == "cycle_pane"@);
        assert("toggle_split"@.len() != "cycle_pane"@.len());
    } else if j == 21 {
        assert(t[21].0 == "trash"@);
        assert("toggle_split"@.len() != "trash"@.len());
    } else if j == 22 {
        assert(t[22].0 == "empty_trash"@);
        assert("toggle_split"@.len() != "empty_trash"@.len());
    } else if j == 23 {
        assert(t[23].0 == "rename"@);
        assert("toggle_split"@.len() != "rename"@.len());
    } else {
    }
}

proof fn lemma_builtin_row_18(j: int)
    requires
        18 < j < 24,
    ensures
        builtin_shortcut_table()[18].0 != builtin_shortcut_table()[j].0,
{
    reveal_strlit("previous_tab");
    reveal_strlit("next_tab");
    reveal_strlit("cycle_pane");
    reveal_strlit("trash");
    reveal_strlit("empty_trash");
    reveal_strlit("rename");
    let t = builtin_shortcut_table();
    assert(t[18].0 == "previous_tab"@);
    if j == 19 {
        assert(t[19].0 == "next_tab"@);
        assert("previous_tab"@.len() != "next_tab"@.len());
    } else if j == 20 {
        assert(t[20].0 == "cycle_pane"@);
        assert("previous_tab"@.len() != "cycle_pane"@.len());
    } else if j == 21 {
        assert(t[21].0 == "trash"@);
        assert("previous_tab"@.len() != "trash"@.len());
    } else if j == 22 {
        assert(t[22].0 == "empty_trash"@);
        assert("previous_tab"@.len() != "empty_trash"@.len());
    } else if j == 23 {
        assert(t[23].0 == "rename"@);
        assert("previous_tab"@.len() != "rename"@.len());
    } else {
    }
}

proof fn lemma_builtin_row_19(j: int)
    requires
        19 < j < 24,
    ensures
        builtin_shortcut_table()[19].0 != builtin_shortcut_table()[j].0,
{
    reveal_strlit("next_tab");
    reveal_strlit("cycle_pane");
    reveal_strlit("trash");
    reveal_strlit("empty_trash");
    reveal_strlit("rename");
    let t = builtin_shortcut_table();
    assert(t[19].0 == "next_tab"@);
    if j == 20 {
        assert(t[20].0 == "cycle_pane"@);
        assert("next_tab"@.len() != "cycle_pane"@.len());
    } else if j == 21 {
        assert(t[21].0 == "trash"@);
        assert("next_tab"@.len() != "trash"@.len());
    } else if j == 22 {
        assert(t[22].0 == "empty_trash"@);
        assert("next_tab"@.len() != "empty_trash"@.len());
    } else if j == 23 {
        assert(t[23].0 == "rename"@);
        assert("next_tab"@.len() != "rename"@.len());
    } else {
    }
}

proof fn lemma_builtin_row_20(j: int)
    requires
        20 < j < 24,
    ensures
        builtin_shortcut_table()[20].0 != builtin_shortcut_table()[j].0,
{
    reveal_strlit("cycle_pane");
    reveal_strlit("trash");
    reveal_strlit("empty_trash");
    reveal_strlit("rename");
    let t = builtin_shortcut_table();
    assert(t[20].0 == "cycle_pane"@);
    if j == 21 {
        assert(t[21].0 == "trash"@);
        assert("cycle_pane"@.len() != "trash"@.len());
    } else if j == 22 {
        assert(t[22].0 == "empty_trash"@);
        assert("cycle_pane"@.len() != "empty_trash"@.len());
    } else if j == 23 {
        assert(t[23].0 == "rename"@);
        assert("cycle_pane"@.len() != "rename"@.len());
    } else {
    }
}

proof fn lemma_builtin_row_21(j: int)
    requires
        21 < j < 24,
    ensures
        builtin_shortcut_table()[21].0 != builtin_shortcut_table()[j].0,
{
    reveal_strlit("trash");
    reveal_strlit("empty_trash");
    reveal_strlit("rename");
    let t = builtin_shortcut_table();
    assert(t[21].0 == "trash"@);
    if j == 22 {
        assert(t[22].0 == "empty_trash"@);
        assert("trash"@.len() != "empty_trash"@.len());
    } else if j == 23 {
        assert(t[23].0 == "rename"@);
        assert("trash"@.len() != "rename"@.len());
    } else {
    }
}

proof fn lemma_builtin_row_22(j: int)
    requires
        22 < j < 24,
    ensures
        builtin_shortcut_table()[22].0 != builtin_shortcut_table()[j].0,
{
    reveal_strlit("empty_trash");
    reveal_strlit("rename");
    let t = builtin_shortcut_table();
    assert(t[22].0 == "empty_trash"@);
    if j == 23 {
        assert(t[23].0 == "rename"@);
        assert("empty_trash"@.len() != "rename"@.len());
    } else {
    }
}

/// No built-in action is listed twice.
pub proof fn lemma_builtin_ids_distinct()
    ensures
        ids_distinct(builtin_shortcut_table()),
{
    let t = builtin_shortcut_table();
    assert forall|i: int, j: int| 0 <= i < j < t.len() implies (#[trigger] t[i]).0 != (#[trigger] t[j]).0 by {
        if i == 0 {
            lemma_builtin_row_0(j);
        } else if i == 1 {
            lemma_builtin_row_1(j);
        } else if i == 2 {
            lemma_builtin_row_2(j);
        } else if i == 3 {
            lemma_builtin_row_3(j);
        } else if i == 4 {
            lemma_builtin_row_4(j);
        } else if i == 5 {
            lemma_builtin_row_5(j);
        } else if i == 6 {
            lemma_builtin_row_6(j);
        } else if i == 7 {
            lemma_builtin_row_7(j);
        } else if i == 8 {
            lemma_builtin_row_8(j);
        } else if i == 9 {
            lemma_builtin_row_9(j);
        } else if i == 10 {
            lemma_builtin_row_10(j);
        } else if i == 11 {
            lemma_builtin_row_11(j);
        } else if i == 12 {
            lemma_builtin_row_12(j);
        } else if i == 13 {
            lemma_builtin_row_13(j);
        } else if i == 14 {
            lemma_builtin_row_14(j);
        } else if i == 15 {
            lemma_builtin_row_15(j);
        } else if i == 16 {
            lemma_builtin_row_16(j);
        } else if i == 17 {
            lemma_builtin_row_17(j);
        } else if i == 18 {
            lemma_builtin_row_18(j);
        } else if i == 19 {
            lemma_builtin_row_19(j);
        } else if i == 20 {
            lemma_builtin_row_20(j);
        } else if i == 21 {
            lemma_builtin_row_21(j);
        } else if i == 22 {
            lemma_builtin_row_22(j);
        } else {
        }
    }
}

/// The default configuration: the built-in shortcuts and no custom action.
pub fn default_app_config() -> (c: AppConfig)
    ensures
        shortcut_texts(c.shortcuts@) == builtin_shortcut_table(),
        c.custom_actions@.len() == 0,
        c.wf(),
{
    proof {
        lemma_builtin_ids_distinct();
    }
    AppConfig { shortcuts: builtin_shortcut_actions(), custom_actions: Vec::new() }
}


/// No action id is bound twice.
pub open spec fn ids_distinct(sc: Seq<(Seq<char>, Seq<char>)>) -> bool {
    forall|i: int, j: int| 0 <= i < j < sc.len() ==> (#[trigger] sc[i]).0 != (#[trigger] sc[j]).0
}

/// The first position at or after `i` where `id` is bound, or -1.
pub open spec fn id_index(sc: Seq<(Seq<char>, Seq<char>)>, id: Seq<char>, i: int) -> int
    decreases sc.len() - i,
{
    if i < 0 || i >= sc.len() {
        -1
    } else if sc[i].0 == id {
        i
    } else {
        id_index(sc, id, i + 1)
    }
}

/// The shortcuts after binding `id` to `shortcut`: its binding replaced
/// where it has one, otherwise added at the end.
pub open spec fn rebound(sc: Seq<(Seq<char>, Seq<char>)>, id: Seq<char>, shortcut: Seq<char>) -> Seq<
    (Seq<char>, Seq<char>),
> {
    let k = id_index(sc, id, 0);
    if k >= 0 {
        sc.update(k, (id, shortcut))
    } else {
        sc.push((id, shortcut))
    }
}

proof fn lemma_id_index(sc: Seq<(Seq<char>, Seq<char>)>, id: Seq<char>, i: int)
    requires
        0 <= i,
    ensures
        id_index(sc, id, i) >= 0 ==> i <= id_index(sc, id, i) < sc.len() && sc[id_index(sc, id, i)].0 == id,
        id_index(sc, id, i) < 0 ==> forall|k: int| i <= k < sc.len() ==> (#[trigger] sc[k]).0 != id,
        id_index(sc, id, i) >= -1,
    decreases sc.len() - i,
{
    if i < sc.len() && sc[i].0 != id {
        lemma_id_index(sc, id, i + 1);
    }
}

impl AppConfig {
    /// The configuration binds each action id at most once.
    pub open spec fn wf(&self) -> bool {
        ids_distinct(shortcut_texts(self.shortcuts@))
    }

    /// Binds the action `id` to `shortcut`, replacing its binding or adding
    /// one at the end.
    pub fn set_shortcut(&mut self, id: &str, shortcut: &str)
        requires
            old(self).wf(),
        ensures
            final(self).wf(),
            shortcut_texts(final(self).shortcuts@) == rebound(shortcut_texts(old(self).shortcuts@), id@, shortcut@),
            final(self).custom_actions@ == old(self).custom_actions@,
    {
        let ghost sc = shortcut_texts(self.shortcuts@);
        proof {
            lemma_id_index(sc, id@, 0);
        }
        let target = chars_of(id);
        let mut i: usize = 0;
        while i < self.shortcuts.len()
            invariant
                i <= self.shortcuts@.len(),
                sc == shortcut_texts(self.shortcuts@),
                target@ == id@,
                id_index(sc, id@, 0) == id_index(sc, id@, i as int),
                ids_distinct(sc),
                sc == shortcut_texts(old(self).shortcuts@),
                self.custom_actions@ == old(self).custom_actions@,
            decreases self.shortcuts.len() - i,
        {
            let cur = chars_of(self.shortcuts[i].0.as_str());
            assert(sc[i as int].0 == cur@);
            if chars_eq(&cur, &target) {
                assert(id_index(sc, id@, i as int) == i as int);
                let pair = (String::from_str(id), String::from_str(shortcut));
                assert(pair.0@ == id@ && pair.1@ == shortcut@);
                self.shortcuts.set(i, pair);
                proof {
                    assert(shortcut_texts(self.shortcuts@) =~= sc.update(i as int, (id@, shortcut@)));
                    let n = shortcut_texts(self.shortcuts@);
                    assert forall|a: int, b: int| 0 <= a < b < n.len() implies (#[trigger] n[a]).0 != (
                    #[trigger] n[b]).0 by {
                        assert(sc[a].0 != sc[b].0);
                    }
                }
                return;
            }
            i = i + 1;
        }
        proof {
            lemma_id_index(sc, id@, i as int);
        }
        self.shortcuts.push((String::from_str(id), String::from_str(shortcut)));
        proof {
            assert(shortcut_texts(self.shortcuts@) =~= sc.push((id@, shortcut@)));
            lemma_id_index(sc, id@, 0);
            let n = shortcut_texts(self.shortcuts@);
            assert forall|a: int, b: int| 0 <= a < b < n.len() implies (#[trigger] n[a]).0 != (#[trigger] n[b]).0 by {
                if b < sc.len() {
                    assert(sc[a].0 != sc[b].0);
                } else {
                    assert(sc[a].0 != id@);
                }
            }
        }
    }

    /// Unbinds the action `id`, so that no shortcut triggers it.
    pub fn remove_shortcut(&mut self, id: &str)
        requires
            old(self).wf(),
        ensures
            final(self).wf(),
            shortcut_texts(final(self).shortcuts@) == shortcut_texts(old(self).shortcuts@).filter(
                |p: (Seq<char>, Seq<char>)| p.0 != id@,
            ),
            final(self).custom_actions@ == old(self).custom_actions@,
    {
        let ghost sc = shortcut_texts(self.shortcuts@);
        let ghost keep = |p: (Seq<char>, Seq<char>)| p.0 != id@;
        let target = chars_of(id);
        let mut kept: Vec<(String, String)> = Vec::new();
        let mut i: usize = 0;
        assert(sc.take(0) =~= Seq::<(Seq<char>, Seq<char>)>::empty());
        while i < self.shortcuts.len()
            invariant
                i <= self.shortcuts@.len(),
                sc == shortcut_texts(self.shortcuts@),
                target@ == id@,
                keep == (|p: (Seq<char>, Seq<char>)| p.0 != id@),
                shortcut_texts(kept@) == sc.take(i as int).filter(keep),
            decreases self.shortcuts.len() - i,
        {
            proof {
                reveal_with_fuel(Seq::<_>::filter, 1);
                assert(sc.take(i + 1).drop_last() =~= sc.take(i as int));
                assert(sc.take(i + 1).last() == sc[i as int]);
            }
            let cur = chars_of(self.shortcuts[i].0.as_str());
            assert(sc[i as int].0 == cur@);
            if !chars_eq(&cur, &target) {
                let ghost before = shortcut_texts(kept@);
                kept.push((self.shortcuts[i].0.clone(), self.shortcuts[i].1.clone()));
                assert(shortcut_texts(kept@) =~= before.push(sc[i as int]));
            }
            i = i + 1;
        }
        assert(sc.take(sc.len() as int) =~= sc);
        proof {
            let f = sc.filter(keep);
            assert forall|a: int, b: int| 0 <= a < b < f.len() implies (#[trigger] f[a]).0 != (#[trigger] f[b]).0 by {
                lemma_filter_keeps_distinct(sc, keep, a, b);
            }
        }
        self.shortcuts = kept;
    }
}

proof fn lemma_filter_keeps_distinct(
    sc: Seq<(Seq<char>, Seq<char>)>,
    keep: spec_fn((Seq<char>, Seq<char>)) -> bool,
    a: int,
    b: int,
)
    requires
        ids_distinct(sc),
        0 <= a < b < sc.filter(keep).len(),
    ensures
        sc.filter(keep)[a].0 != sc.filter(keep)[b].0,
    decreases sc.len(),
{
    reveal_with_fuel(Seq::<_>::filter, 1);
    let f = sc.filter(keep);
    let g = sc.drop_last().filter(keep);
    assert(ids_distinct(sc.drop_last())) by {
        assert forall|i: int, j: int| 0 <= i < j < sc.drop_last().len() implies (#[trigger] sc.drop_last()[i]).0 != (
        #[trigger] sc.drop_last()[j]).0 by {
            assert(sc.drop_last()[i] == sc[i]);
            assert(sc.drop_last()[j] == sc[j]);
        }
    }
    if keep(sc.last()) && b == f.len() - 1 {
        assert(f == g.push(sc.last()));
        assert(f[a] == g[a]);
        assert(g.contains(g[a]));
        sc.drop_last().lemma_filter_contains_rev(keep, g[a]);
        let k = choose|k: int| 0 <= k < sc.drop_last().len() && sc.drop_last()[k] == g[a];
        assert(sc[k] == g[a]);
        assert(sc[k].0 != sc[sc.len() - 1].0);
    } else if keep(sc.last()) {
        assert(f == g.push(sc.last()));
        lemma_filter_keeps_distinct(sc.drop_last(), keep, a, b);
    } else {
        assert(f == g);
        lemma_filter_keeps_distinct(sc.drop_last(), keep, a, b);
    }
}


proof fn lemma_shortcuts_same_char(list: Seq<(String, String)>, p1: KeyPress, p2: KeyPress, m: Modifiers)
    requires
        p1.key == p2.key,
        key_char_of(p1) == key_char_of(p2),
    ensures
        dispatch_shortcuts(list, p1, m) == dispatch_shortcuts(list, p2, m),
    decreases list.len(),
{
    if list.len() > 0 {
        lemma_shortcuts_same_char(list.drop_first(), p1, p2, m);
    }
}

proof fn lemma_custom_same_char(list: Seq<CustomActionConfig>, p1: KeyPress, p2: KeyPress, m: Modifiers)
    requires
        p1.key == p2.key,
        key_char_of(p1) == key_char_of(p2),
    ensures
        dispatch_custom(list, p1, m) == dispatch_custom(list, p2, m),
    decreases list.len(),
{
    if list.len() > 0 {
        lemma_custom_same_char(list.drop_first(), p1, p2, m);
    }
}

/// Letter case of the pressed character does not matter: a press that
/// reports an upper-case letter (as one with Shift or Caps Lock does)
/// dispatches exactly as the same press reporting the lower-case letter,
/// under every configuration; and the character a press stands for is the
/// lower-case letter.
pub proof fn lemma_press_case_insensitive(c: AppConfig, key: PressedKey, upper: char, lower: char, m: Modifiers)
    requires
        'A' <= upper <= 'Z',
        lower as u32 == upper as u32 + 32,
    ensures
        dispatch(c, KeyPress { key, unicode: Some(upper) }, m) == dispatch(c, KeyPress { key, unicode: Some(lower) }, m),
        key_char_of(KeyPress { key, unicode: Some(upper) }) == Some(lower),
        key_char_of(KeyPress { key, unicode: Some(lower) }) == Some(lower),
{
    let p1 = KeyPress { key, unicode: Some(upper) };
    let p2 = KeyPress { key, unicode: Some(lower) };
    assert('a' <= lower <= 'z');
    assert(ascii_lower(upper) == lower);
    assert(ascii_lower(lower) == lower);
    lemma_shortcuts_same_char(c.shortcuts@, p1, p2, m);
    lemma_custom_same_char(c.custom_actions@, p1, p2, m);
}

} // verus!
