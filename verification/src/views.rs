//! What a pane shows, how panes are laid out, and the titles and labels of
//! the views.
use crate::model::TagRecord;
use crate::path::{
    file_name, path_eq, path_file_name, path_strip_prefix, same_path, strip_prefix,
};
use crate::search::SearchQuery;
use crate::text::{append_chars, chars_of, push_str, string_of};
use vstd::prelude::*;

verus! {

/// One of the three browser panes.
#[derive(Clone, Copy, Debug, PartialEq, Eq, Structural)]
pub enum PaneSlot {
    Primary,
    Secondary,
    Tertiary,
}

/// How many panes are shown side by side.
#[derive(Clone, Copy, Debug, PartialEq, Eq, Structural)]
pub enum PaneLayout {
    Single,
    Two,
    Three,
}

impl PaneLayout {
    /// The next layout in the cycle single → two → three → single.
    pub fn next(self) -> (r: Self)
        ensures
            r == next_layout(self),
    {
        match self {
            PaneLayout::Single => PaneLayout::Two,
            PaneLayout::Two => PaneLayout::Three,
            PaneLayout::Three => PaneLayout::Single,
        }
    }

    /// The number of visible panes.
    pub fn pane_count(self) -> (r: usize)
        ensures
            r == pane_count_of(self),
    {
        match self {
            PaneLayout::Single => 1,
            PaneLayout::Two => 2,
            PaneLayout::Three => 3,
        }
    }

    /// Whether the layout shows the pane in `slot`.
    pub fn includes(self, slot: PaneSlot) -> (r: bool)
        ensures
            r == layout_includes(self, slot),
    {
        match slot {
            PaneSlot::Primary => true,
            PaneSlot::Secondary => self.pane_count() >= 2,
            PaneSlot::Tertiary => self.pane_count() >= 3,
        }
    }
}

/// The number of panes of a layout.
pub open spec fn pane_count_of(l: PaneLayout) -> nat {
    match l {
        PaneLayout::Single => 1,
        PaneLayout::Two => 2,
        PaneLayout::Three => 3,
    }
}

/// The position of a slot, counting from one.
pub open spec fn slot_rank(s: PaneSlot) -> nat {
    match s {
        PaneSlot::Primary => 1,
        PaneSlot::Secondary => 2,
        PaneSlot::Tertiary => 3,
    }
}

/// A layout shows the slots up to its pane count.
pub open spec fn layout_includes(l: PaneLayout, s: PaneSlot) -> bool {
    slot_rank(s) <= pane_count_of(l)
}

/// Cycling the layout three times returns to the start, each step shows one
/// more pane except the wrap back to a single pane, and the primary pane is
/// always shown.
pub proof fn lemma_layout_cycle(l: PaneLayout)
    ensures
        next_layout(next_layout(next_layout(l))) == l,
        pane_count_of(next_layout(l)) == (if l == PaneLayout::Three {
            1
        } else {
            pane_count_of(l) + 1
        }),
        layout_includes(l, PaneSlot::Primary),
        forall|s: PaneSlot| layout_includes(l, s) ==> layout_includes(next_layout(l), s) || l
            == PaneLayout::Three,
{
}

/// The layout after `l` in the cycle.
pub open spec fn next_layout(l: PaneLayout) -> PaneLayout {
    match l {
        PaneLayout::Single => PaneLayout::Two,
        PaneLayout::Two => PaneLayout::Three,
        PaneLayout::Three => PaneLayout::Single,
    }
}

/// The filters of the triage view.
#[derive(Clone, Copy, Debug, PartialEq, Eq, Structural)]
pub enum TriageFilter {
    All,
    Today,
    ThisWeek,
    ThisMonth,
    OlderThanOneMonth,
    Images,
    Videos,
    Archives,
    Documents,
    LargeFiles,
    Audio,
    Executables,
    Empty,
    Duplicates,
}

/// The button label of a triage filter.
pub open spec fn triage_label(f: TriageFilter) -> Seq<char> {
    match f {
        TriageFilter::All => "All"@,
        TriageFilter::Today => "Today"@,
        TriageFilter::ThisWeek => "This Week"@,
        TriageFilter::ThisMonth => "This Month"@,
        TriageFilter::OlderThanOneMonth => "Older Than 1 Month"@,
        TriageFilter::Images => "Images"@,
        TriageFilter::Videos => "Videos"@,
        TriageFilter::Archives => "Archives"@,
        TriageFilter::Documents => "Documents"@,
        TriageFilter::LargeFiles => "Large Files"@,
        TriageFilter::Audio => "Audio"@,
        TriageFilter::Executables => "Executables"@,
        TriageFilter::Empty => "Empty Files"@,
        TriageFilter::Duplicates => "Duplicates"@,
    }
}

impl TriageFilter {
    /// The button label of the filter.
    pub fn label(&self) -> (r: &'static str)
        ensures
            r@ == triage_label(*self),
    {
        match self {
            TriageFilter::All => "All",
            TriageFilter::Today => "Today",
            TriageFilter::ThisWeek => "This Week",
            TriageFilter::ThisMonth => "This Month",
            TriageFilter::OlderThanOneMonth => "Older Than 1 Month",
            TriageFilter::Images => "Images",
            TriageFilter::Videos => "Videos",
            TriageFilter::Archives => "Archives",
            TriageFilter::Documents => "Documents",
            TriageFilter::LargeFiles => "Large Files",
            TriageFilter::Audio => "Audio",
            TriageFilter::Executables => "Executables",
            TriageFilter::Empty => "Empty Files",
            TriageFilter::Duplicates => "Duplicates",
        }
    }

    /// Every triage filter, in the order of the filter strip.
    pub fn all() -> (r: Vec<TriageFilter>)
        ensures
            r@ == seq![
                TriageFilter::All,
                TriageFilter::Today,
                TriageFilter::ThisWeek,
                TriageFilter::ThisMonth,
                TriageFilter::OlderThanOneMonth,
                TriageFilter::Images,
                TriageFilter::Videos,
                TriageFilter::Archives,
                TriageFilter::Documents,
                TriageFilter::LargeFiles,
                TriageFilter::Audio,
                TriageFilter::Executables,
                TriageFilter::Empty,
                TriageFilter::Duplicates,
            ],
    {
        let mut v: Vec<TriageFilter> = Vec::new();
        v.push(TriageFilter::All);
        v.push(TriageFilter::Today);
        v.push(TriageFilter::ThisWeek);
        v.push(TriageFilter::ThisMonth);
        v.push(TriageFilter::OlderThanOneMonth);
        v.push(TriageFilter::Images);
        v.push(TriageFilter::Videos);
        v.push(TriageFilter::Archives);
        v.push(TriageFilter::Documents);
        v.push(TriageFilter::LargeFiles);
        v.push(TriageFilter::Audio);
        v.push(TriageFilter::Executables);
        v.push(TriageFilter::Empty);
        v.push(TriageFilter::Duplicates);
        assert(v@ =~= seq![
            TriageFilter::All,
            TriageFilter::Today,
            TriageFilter::ThisWeek,
            TriageFilter::ThisMonth,
            TriageFilter::OlderThanOneMonth,
            TriageFilter::Images,
            TriageFilter::Videos,
            TriageFilter::Archives,
            TriageFilter::Documents,
            TriageFilter::LargeFiles,
            TriageFilter::Audio,
            TriageFilter::Executables,
            TriageFilter::Empty,
            TriageFilter::Duplicates,
        ]);
        v
    }
}

/// The sub-views of the Watercolor integration.
#[derive(Clone, Copy, Debug, PartialEq, Eq, Structural)]
pub enum WatercolorView {
    Status,
    Workspaces,
    Palettes,
    BrokenRefs,
}

/// The tab title of a Watercolor view.
pub open spec fn watercolor_title(v: WatercolorView) -> Seq<char> {
    match v {
        WatercolorView::Status => "Watercolor"@,
        WatercolorView::Workspaces => "Watercolor Workspaces"@,
        WatercolorView::Palettes => "Watercolor Palettes"@,
        WatercolorView::BrokenRefs => "Broken References"@,
    }
}

/// The location label of a Watercolor view.
pub open spec fn watercolor_label(v: WatercolorView) -> Seq<char> {
    match v {
        WatercolorView::Status => "Watercolor Context"@,
        WatercolorView::Workspaces => "Watercolor Workspaces"@,
        WatercolorView::Palettes => "Watercolor Palettes"@,
        WatercolorView::BrokenRefs => "Broken Watercolor References"@,
    }
}

/// The tab title of a Watercolor view.
pub fn watercolor_tab_title(v: &WatercolorView) -> (r: &'static str)
    ensures
        r@ == watercolor_title(*v),
{
    match v {
        WatercolorView::Status => "Watercolor",
        WatercolorView::Workspaces => "Watercolor Workspaces",
        WatercolorView::Palettes => "Watercolor Palettes",
        WatercolorView::BrokenRefs => "Broken References",
    }
}

/// The location label of a Watercolor view.
pub fn watercolor_display_label(v: &WatercolorView) -> (r: &'static str)
    ensures
        r@ == watercolor_label(*v),
{
    match v {
        WatercolorView::Status => "Watercolor Context",
        WatercolorView::Workspaces => "Watercolor Workspaces",
        WatercolorView::Palettes => "Watercolor Palettes",
        WatercolorView::BrokenRefs => "Broken Watercolor References",
    }
}

/// What a pane shows.
#[derive(Clone, Debug)]
pub enum PaneView {
    Directory(String),
    Tag(TagRecord),
    Triage { root: String, filter: TriageFilter },
    SystemDrives,
    Recent,
    Trash,
    Search(SearchQuery),
    BulkNaming { root: String },
    SpaceViewer { root: String },
    MediaConvert { from_dir: String },
    ActivityLog,
    ProjectLanding(i64),
    CloudLanding(i64),
    ProjectManager,
    TagManager,
    Watercolor(WatercolorView),
}

/// A path shown relative to the home folder: `~` for home itself, `~/rest`
/// inside it, the path unchanged elsewhere.
pub open spec fn format_path_text(path: Seq<char>, home: Seq<char>) -> Seq<char> {
    match strip_prefix(path, home) {
        Some(rel) => if rel.len() == 0 {
            seq!['~']
        } else {
            seq!['~', '/'] + rel
        },
        None => path,
    }
}

/// Shows a path relative to the home folder (`~/Documents`).
pub fn format_path(path: &str, home: &str) -> (r: String)
    ensures
        r@ == format_path_text(path@, home@),
{
    let p = chars_of(path);
    let h = chars_of(home);
    let mut out: Vec<char> = Vec::new();
    match path_strip_prefix(&p, &h) {
        Some(rel) => {
            out.push('~');
            if rel.len() > 0 {
                out.push('/');
                append_chars(&mut out, &rel);
            }
            assert(out@ =~= format_path_text(path@, home@));
        },
        None => {
            append_chars(&mut out, &p);
            assert(out@ =~= format_path_text(path@, home@));
        },
    }
    string_of(&out)
}

/// The tab title for a folder: its name, `/` for the root, the whole path
/// when it has no name.
pub open spec fn path_title(path: Seq<char>) -> Seq<char> {
    match file_name(path) {
        Some(n) => if n.len() > 0 {
            n
        } else if same_path(path, seq!['/']) {
            seq!['/']
        } else {
            path
        },
        None => if same_path(path, seq!['/']) {
            seq!['/']
        } else {
            path
        },
    }
}

/// The tab title for a folder path.
pub fn tab_title_for_path(path: &str) -> (r: String)
    ensures
        r@ == path_title(path@),
{
    let p = chars_of(path);
    if let Some(n) = path_file_name(&p) {
        if n.len() > 0 {
            return string_of(&n);
        }
    }
    let mut root: Vec<char> = Vec::new();
    root.push('/');
    if path_eq(&p, &root) {
        assert(root@ =~= seq!['/']);
        string_of(&root)
    } else {
        string_of(&p)
    }
}

} // verus!

verus! {

/// A folder's name, or its whole path when it has none.
pub open spec fn name_or_path(p: Seq<char>) -> Seq<char> {
    match file_name(p) {
        Some(n) => n,
        None => p,
    }
}

fn name_or_path_exec(p: &Vec<char>) -> (r: Vec<char>)
    ensures
        r@ == name_or_path(p@),
{
    match path_file_name(p) {
        Some(n) => n,
        None => {
            let mut r: Vec<char> = Vec::new();
            append_chars(&mut r, p);
            assert(r@ =~= p@);
            r
        },
    }
}

/// The title of the tab whose active pane shows `view`, `path` being the
/// pane's folder.
pub open spec fn view_title(view: PaneView, path: Seq<char>) -> Seq<char> {
    match view {
        PaneView::Directory(_) => path_title(path),
        PaneView::Tag(tag) => seq!['#'] + tag.name@,
        PaneView::Triage { root, filter } => "Triage: "@ + name_or_path(root@) + " / "@
            + triage_label(filter),
        PaneView::SystemDrives => "Drives"@,
        PaneView::Recent => "Recent"@,
        PaneView::Trash => "Trash"@,
        PaneView::Search(q) => if q.name@.len() == 0 {
            "Search"@
        } else {
            "Search \u{201c}"@ + q.name@ + "\u{201d}"@
        },
        PaneView::BulkNaming { .. } => "Bulk Naming"@,
        PaneView::ActivityLog => "Activity Log"@,
        PaneView::ProjectLanding(_) => "Palette"@,
        PaneView::CloudLanding(_) => "Cloud Drive"@,
        PaneView::ProjectManager => "Palettes"@,
        PaneView::TagManager => "Tints & Tags"@,
        PaneView::SpaceViewer { root } => "Space: "@ + match file_name(root@) {
            Some(n) => n,
            None => "Space Viewer"@,
        },
        PaneView::MediaConvert { .. } => "Convert"@,
        PaneView::Watercolor(v) => watercolor_title(v),
    }
}

/// The title of a tab showing `view` with folder `path`.
pub fn tab_title_for_view(view: &PaneView, path: &str) -> (r: String)
    ensures
        r@ == view_title(*view, path@),
{
    let mut out: Vec<char> = Vec::new();
    match view {
        PaneView::Directory(_) => {
            return tab_title_for_path(path);
        },
        PaneView::Tag(tag) => {
            out.push('#');
            push_str(&mut out, tag.name.as_str());
        },
        PaneView::Triage { root, filter } => {
            push_str(&mut out, "Triage: ");
            let r = chars_of(root.as_str());
            let folder = name_or_path_exec(&r);
            append_chars(&mut out, &folder);
            push_str(&mut out, " / ");
            push_str(&mut out, filter.label());
        },
        PaneView::SystemDrives => push_str(&mut out, "Drives"),
        PaneView::Recent => push_str(&mut out, "Recent"),
        PaneView::Trash => push_str(&mut out, "Trash"),
        PaneView::Search(q) => {
            if q.name.as_str().unicode_len() == 0 {
                push_str(&mut out, "Search");
            } else {
                push_str(&mut out, "Search \u{201c}");
                push_str(&mut out, q.name.as_str());
                push_str(&mut out, "\u{201d}");
            }
        },
        PaneView::BulkNaming { .. } => push_str(&mut out, "Bulk Naming"),
        PaneView::ActivityLog => push_str(&mut out, "Activity Log"),
        PaneView::ProjectLanding(_) => push_str(&mut out, "Palette"),
        PaneView::CloudLanding(_) => push_str(&mut out, "Cloud Drive"),
        PaneView::ProjectManager => push_str(&mut out, "Palettes"),
        PaneView::TagManager => push_str(&mut out, "Tints & Tags"),
        PaneView::SpaceViewer { root } => {
            push_str(&mut out, "Space: ");
            let r = chars_of(root.as_str());
            match path_file_name(&r) {
                Some(n) => append_chars(&mut out, &n),
                None => push_str(&mut out, "Space Viewer"),
            }
        },
        PaneView::MediaConvert { .. } => push_str(&mut out, "Convert"),
        PaneView::Watercolor(v) => push_str(&mut out, watercolor_tab_title(v)),
    }
    assert(out@ =~= view_title(*view, path@));
    string_of(&out)
}

/// The location label of a view, paths shown relative to `home`.
pub open spec fn view_label(view: PaneView, home: Seq<char>) -> Seq<char> {
    match view {
        PaneView::Directory(p) => format_path_text(p@, home),
        PaneView::Tag(tag) => "Tag / #"@ + tag.name@,
        PaneView::Triage { root, filter } => "Triage: "@ + format_path_text(root@, home) + " / "@
            + triage_label(filter),
        PaneView::SystemDrives => "System Drives"@,
        PaneView::Recent => "Recent"@,
        PaneView::Trash => "Trash"@,
        PaneView::Search(q) => if q.name@.len() == 0 {
            "Search in "@ + format_path_text(q.scope_dir@, home)
        } else {
            "Search \u{201c}"@ + q.name@ + "\u{201d} in "@ + format_path_text(q.scope_dir@, home)
        },
        PaneView::BulkNaming { root } => "Bulk Naming in "@ + format_path_text(root@, home),
        PaneView::ActivityLog => "Activity Log"@,
        PaneView::ProjectLanding(_) => "Palette"@,
        PaneView::CloudLanding(_) => "Cloud Drive"@,
        PaneView::ProjectManager => "Palettes"@,
        PaneView::TagManager => "Tints & Tags"@,
        PaneView::SpaceViewer { root } => "Space: "@ + format_path_text(root@, home),
        PaneView::MediaConvert { from_dir } => "Convert \u{b7} "@ + format_path_text(from_dir@, home),
        PaneView::Watercolor(v) => watercolor_label(v),
    }
}

fn push_formatted(out: &mut Vec<char>, path: &String, home: &str)
    ensures
        final(out)@ == old(out)@ + format_path_text(path@, home@),
{
    let f = format_path(path.as_str(), home);
    push_str(out, f.as_str());
}

/// The location label shown for a view.
pub fn view_display_label(view: &PaneView, home: &str) -> (r: String)
    ensures
        r@ == view_label(*view, home@),
{
    let mut out: Vec<char> = Vec::new();
    match view {
        PaneView::Directory(p) => {
            return format_path(p.as_str(), home);
        },
        PaneView::Tag(tag) => {
            push_str(&mut out, "Tag / #");
            push_str(&mut out, tag.name.as_str());
        },
        PaneView::Triage { root, filter } => {
            push_str(&mut out, "Triage: ");
            push_formatted(&mut out, root, home);
            push_str(&mut out, " / ");
            push_str(&mut out, filter.label());
        },
        PaneView::SystemDrives => push_str(&mut out, "System Drives"),
        PaneView::Recent => push_str(&mut out, "Recent"),
        PaneView::Trash => push_str(&mut out, "Trash"),
        PaneView::Search(q) => {
            if q.name.as_str().unicode_len() == 0 {
                push_str(&mut out, "Search in ");
            } else {
                push_str(&mut out, "Search \u{201c}");
                push_str(&mut out, q.name.as_str());
                push_str(&mut out, "\u{201d} in ");
            }
            push_formatted(&mut out, &q.scope_dir, home);
        },
        PaneView::BulkNaming { root } => {
            push_str(&mut out, "Bulk Naming in ");
            push_formatted(&mut out, root, home);
        },
        PaneView::ActivityLog => push_str(&mut out, "Activity Log"),
        PaneView::ProjectLanding(_) => push_str(&mut out, "Palette"),
        PaneView::CloudLanding(_) => push_str(&mut out, "Cloud Drive"),
        PaneView::ProjectManager => push_str(&mut out, "Palettes"),
        PaneView::TagManager => push_str(&mut out, "Tints & Tags"),
        PaneView::SpaceViewer { root } => {
            push_str(&mut out, "Space: ");
            push_formatted(&mut out, root, home);
        },
        PaneView::MediaConvert { from_dir } => {
            push_str(&mut out, "Convert \u{b7} ");
            push_formatted(&mut out, from_dir, home);
        },
        PaneView::Watercolor(v) => push_str(&mut out, watercolor_display_label(v)),
    }
    assert(out@ =~= view_label(*view, home@));
    string_of(&out)
}

/// The views that list files and so show the file-grid controls.
pub open spec fn uses_file_grid(view: PaneView) -> bool {
    match view {
        PaneView::Directory(_) | PaneView::Tag(_) | PaneView::Triage { .. }
        | PaneView::SystemDrives | PaneView::Recent | PaneView::Trash | PaneView::Search(_) => true,
        _ => false,
    }
}

/// Whether the view shows the file-grid controls (filter, hidden files, sort).
pub fn pane_view_uses_file_grid_controls(view: &PaneView) -> (r: bool)
    ensures
        r == uses_file_grid(*view),
{
    match view {
        PaneView::Directory(_) | PaneView::Tag(_) | PaneView::Triage { .. }
        | PaneView::SystemDrives | PaneView::Recent | PaneView::Trash | PaneView::Search(_) => true,
        _ => false,
    }
}

/// The folder a view is about, for the views backed by a folder.
pub open spec fn scope_dir_of(view: PaneView) -> Option<Seq<char>> {
    match view {
        PaneView::Directory(p) => Some(p@),
        PaneView::Triage { root, .. } => Some(root@),
        PaneView::Search(q) => Some(q.scope_dir@),
        PaneView::BulkNaming { root } => Some(root@),
        PaneView::SpaceViewer { root } => Some(root@),
        PaneView::MediaConvert { from_dir } => Some(from_dir@),
        _ => None,
    }
}

/// The folder a view is about, if it is backed by one.
pub fn pane_view_scope_dir(view: &PaneView) -> (r: Option<String>)
    ensures
        match r {
            Some(s) => scope_dir_of(*view) == Some(s@),
            None => scope_dir_of(*view) is None,
        },
{
    match view {
        PaneView::Directory(p) => Some(p.clone()),
        PaneView::Triage { root, .. } => Some(root.clone()),
        PaneView::Search(q) => Some(q.scope_dir.clone()),
        PaneView::BulkNaming { root } => Some(root.clone()),
        PaneView::SpaceViewer { root } => Some(root.clone()),
        PaneView::MediaConvert { from_dir } => Some(from_dir.clone()),
        _ => None,
    }
}

/// The folder a tool (space viewer, bulk naming, conversion) opens on: the
/// view's folder, else the pane's current folder when it is usable, else
/// home. `current_dir_usable` tells whether the current folder is an
/// existing directory.
pub fn resolve_tool_scope_dir(view: &PaneView, current_dir: &str, current_dir_usable: bool, home: &str) -> (r:
    String)
    ensures
        r@ == match scope_dir_of(*view) {
            Some(d) => d,
            None => if current_dir_usable {
                current_dir@
            } else {
                home@
            },
        },
{
    match pane_view_scope_dir(view) {
        Some(d) => d,
        None => if current_dir_usable {
            current_dir.to_owned()
        } else {
            home.to_owned()
        },
    }
}

/// The folder a paste goes to: the folder of a directory view, the pane's
/// current folder in triage, nothing elsewhere.
pub fn paste_destination(view: &PaneView, current_dir: &str) -> (r: Option<String>)
    ensures
        match r {
            Some(d) => match *view {
                PaneView::Directory(p) => d@ == p@,
                PaneView::Triage { .. } => d@ == current_dir@,
                _ => false,
            },
            None => !(*view is Directory) && !(*view is Triage),
        },
{
    match view {
        PaneView::Directory(p) => Some(p.clone()),
        PaneView::Triage { .. } => Some(current_dir.to_owned()),
        _ => None,
    }
}

/// Which file actions the toolbar and menus offer.
#[derive(Clone, Copy, Debug, PartialEq, Eq, Structural)]
pub struct ActionAvailability {
    pub can_copy_files: bool,
    pub can_cut_files: bool,
    pub can_paste_files: bool,
    pub can_copy_paths: bool,
    pub can_rename: bool,
    pub can_trash: bool,
    pub can_new_folder: bool,
}

/// Views whose items cannot be moved, renamed or trashed from there.
pub open spec fn read_only_view(view: PaneView) -> bool {
    match view {
        PaneView::Trash | PaneView::SystemDrives | PaneView::Recent | PaneView::Search(_)
        | PaneView::BulkNaming { .. } | PaneView::ActivityLog | PaneView::CloudLanding(_)
        | PaneView::SpaceViewer { .. } | PaneView::MediaConvert { .. } | PaneView::Watercolor(_) => true,
        _ => false,
    }
}

/// Views that are a real folder one can create items or paste in.
pub open spec fn folder_view(view: PaneView) -> bool {
    view is Directory || view is Triage
}

/// The actions available in a view with `selected_count` items selected.
pub open spec fn availability(view: PaneView, selected_count: nat, has_file_clipboard: bool) -> ActionAvailability {
    ActionAvailability {
        can_copy_files: selected_count > 0,
        can_cut_files: selected_count > 0 && !read_only_view(view),
        can_paste_files: has_file_clipboard && folder_view(view),
        can_copy_paths: selected_count > 0 || !(view is SystemDrives),
        can_rename: selected_count > 0 && !read_only_view(view),
        can_trash: selected_count > 0 && !read_only_view(view),
        can_new_folder: folder_view(view),
    }
}

/// Which actions apply in the view given the selection and clipboard.
pub fn action_availability(view: &PaneView, selected_count: usize, has_file_clipboard: bool) -> (r:
    ActionAvailability)
    ensures
        r == availability(*view, selected_count as nat, has_file_clipboard),
{
    let read_only = match view {
        PaneView::Trash | PaneView::SystemDrives | PaneView::Recent | PaneView::Search(_)
        | PaneView::BulkNaming { .. } | PaneView::ActivityLog | PaneView::CloudLanding(_)
        | PaneView::SpaceViewer { .. } | PaneView::MediaConvert { .. } | PaneView::Watercolor(_) => true,
        _ => false,
    };
    let folder = match view {
        PaneView::Directory(_) | PaneView::Triage { .. } => true,
        _ => false,
    };
    let drives = match view {
        PaneView::SystemDrives => true,
        _ => false,
    };
    ActionAvailability {
        can_copy_files: selected_count > 0,
        can_cut_files: selected_count > 0 && !read_only,
        can_paste_files: has_file_clipboard && folder,
        can_copy_paths: selected_count > 0 || !drives,
        can_rename: selected_count > 0 && !read_only,
        can_trash: selected_count > 0 && !read_only,
        can_new_folder: folder,
    }
}

/// Pasting is offered exactly where a paste has a destination folder, and
/// moving (cut, rename, trash) is only offered where copying is.
pub proof fn lemma_availability_consistent(view: PaneView, n: nat, clip: bool)
    ensures
        availability(view, n, clip).can_paste_files ==> folder_view(view),
        availability(view, n, clip).can_paste_files ==> availability(view, n, clip).can_new_folder,
        availability(view, n, clip).can_cut_files ==> availability(view, n, clip).can_copy_files,
        availability(view, n, clip).can_trash == availability(view, n, clip).can_rename,
        n == 0 ==> !availability(view, n, clip).can_cut_files && !availability(
            view,
            n,
            clip,
        ).can_trash,
{
}

/// Whether new file actions are queued in the plan instead of run: plan mode
/// is on and the queue is not being executed.
pub fn should_queue_actions_state(plan_mode_active: bool, executing_plan_queue: bool) -> (r: bool)
    ensures
        r == (plan_mode_active && !executing_plan_queue),
{
    plan_mode_active && !executing_plan_queue
}

/// Where keyboard focus is.
#[derive(Clone, Copy, Debug, PartialEq, Eq, Structural)]
pub enum FocusedContext {
    PathEntry,
    SearchEntry,
    EditableText,
    Sidebar,
    FileGrid,
    HoldingTray,
    TabStrip,
    Window,
}

impl FocusedContext {
    /// Whether the focus is in a text field, where shortcuts must not steal keys.
    pub fn is_editable(self) -> (r: bool)
        ensures
            r == (self == FocusedContext::PathEntry || self == FocusedContext::SearchEntry || self
                == FocusedContext::EditableText),
    {
        match self {
            FocusedContext::PathEntry | FocusedContext::SearchEntry | FocusedContext::EditableText => true,
            _ => false,
        }
    }
}

} // verus!
