//! Which sidebar entry is highlighted for the view a pane shows.
use crate::path::{path_strip_prefix, strip_prefix};
use crate::text::chars_of;
use crate::views::{PaneView, WatercolorView};
use vstd::prelude::*;

verus! {

/// An entry of the sidebar.
#[derive(Clone, Debug)]
pub enum SidebarTarget {
    Home,
    Place(i64),
    Cloud(i64),
    Drive(String),
    Search,
    BulkNaming,
    SpaceViewer,
    Triage,
    ActivityLog,
    Tags,
    Projects,
    SystemDrives,
    Recent,
    Trash,
    Convert,
    WatercolorStatus,
    WatercolorWorkspaces,
    WatercolorPalettes,
    WatercolorBrokenRefs,
}

/// A pinned place: its id and folder.
#[derive(Clone, Debug)]
pub struct PlaceRecord {
    pub id: i64,
    pub name: String,
    pub folder_path: String,
}

/// A sidebar entry as plain values: its variant's position and its id or
/// path, where it has one.
pub type TargetView = (nat, int, Seq<char>);

/// The plain values of a sidebar entry.
pub open spec fn target_view(t: SidebarTarget) -> TargetView {
    match t {
        SidebarTarget::Home => (0, 0, seq![]),
        SidebarTarget::Place(id) => (1, id as int, seq![]),
        SidebarTarget::Cloud(id) => (2, id as int, seq![]),
        SidebarTarget::Drive(p) => (3, 0, p@),
        SidebarTarget::Search => (4, 0, seq![]),
        SidebarTarget::BulkNaming => (5, 0, seq![]),
        SidebarTarget::SpaceViewer => (6, 0, seq![]),
        SidebarTarget::Triage => (7, 0, seq![]),
        SidebarTarget::ActivityLog => (8, 0, seq![]),
        SidebarTarget::Tags => (9, 0, seq![]),
        SidebarTarget::Projects => (10, 0, seq![]),
        SidebarTarget::SystemDrives => (11, 0, seq![]),
        SidebarTarget::Recent => (12, 0, seq![]),
        SidebarTarget::Trash => (13, 0, seq![]),
        SidebarTarget::Convert => (14, 0, seq![]),
        SidebarTarget::WatercolorStatus => (15, 0, seq![]),
        SidebarTarget::WatercolorWorkspaces => (16, 0, seq![]),
        SidebarTarget::WatercolorPalettes => (17, 0, seq![]),
        SidebarTarget::WatercolorBrokenRefs => (18, 0, seq![]),
    }
}

/// `path` lies in `base` (`Path::starts_with`).
pub open spec fn lies_in(path: Seq<char>, base: Seq<char>) -> bool {
    strip_prefix(path, base) is Some
}

/// The first place whose folder holds `dir`.
pub open spec fn place_for(places: Seq<PlaceRecord>, dir: Seq<char>) -> Option<i64>
    decreases places.len(),
{
    if places.len() == 0 {
        None
    } else if lies_in(dir, places[0].folder_path@) {
        Some(places[0].id)
    } else {
        place_for(places.drop_first(), dir)
    }
}

/// The first drive path that holds `dir`.
pub open spec fn drive_for(drives: Seq<Option<String>>, dir: Seq<char>) -> Option<Seq<char>>
    decreases drives.len(),
{
    if drives.len() == 0 {
        None
    } else {
        match drives[0] {
            Some(p) => if lies_in(dir, p@) {
                Some(p@)
            } else {
                drive_for(drives.drop_first(), dir)
            },
            None => drive_for(drives.drop_first(), dir),
        }
    }
}

/// The highlighted entry for a view: the tool or section it belongs to; for
/// a folder, the first place holding it, else the first drive holding it,
/// else home when it is inside home, else none.
pub open spec fn sidebar_target_of(
    view: PaneView,
    dir: Seq<char>,
    places: Seq<PlaceRecord>,
    drives: Seq<Option<String>>,
    home: Seq<char>,
) -> Option<TargetView> {
    match view {
        PaneView::Tag(_) => Some((9, 0, seq![])),
        PaneView::TagManager => Some((9, 0, seq![])),
        PaneView::ProjectLanding(_) => Some((10, 0, seq![])),
        PaneView::ProjectManager => Some((10, 0, seq![])),
        PaneView::CloudLanding(id) => Some((2, id as int, seq![])),
        PaneView::Triage { .. } => Some((7, 0, seq![])),
        PaneView::SystemDrives => Some((11, 0, seq![])),
        PaneView::Recent => Some((12, 0, seq![])),
        PaneView::Trash => Some((13, 0, seq![])),
        PaneView::ActivityLog => Some((8, 0, seq![])),
        PaneView::Search(_) => Some((4, 0, seq![])),
        PaneView::BulkNaming { .. } => Some((5, 0, seq![])),
        PaneView::SpaceViewer { .. } => Some((6, 0, seq![])),
        PaneView::MediaConvert { .. } => Some((14, 0, seq![])),
        PaneView::Watercolor(w) => Some(
            match w {
                WatercolorView::Status => (15, 0, seq![]),
                WatercolorView::Workspaces => (16, 0, seq![]),
                WatercolorView::Palettes => (17, 0, seq![]),
                WatercolorView::BrokenRefs => (18, 0, seq![]),
            },
        ),
        PaneView::Directory(_) => match place_for(places, dir) {
            Some(id) => Some((1, id as int, seq![])),
            None => match drive_for(drives, dir) {
                Some(p) => Some((3, 0, p)),
                None => if lies_in(dir, home) {
                    Some((0, 0, seq![]))
                } else {
                    None
                },
            },
        },
    }
}

fn in_folder(dir: &Vec<char>, base: &str) -> (r: bool)
    ensures
        r == lies_in(dir@, base@),
{
    path_strip_prefix(dir, &chars_of(base)).is_some()
}

fn find_place(places: &Vec<PlaceRecord>, dir: &Vec<char>) -> (r: Option<i64>)
    ensures
        r == place_for(places@, dir@),
{
    let mut i: usize = 0;
    assert(places@.subrange(0, places@.len() as int) =~= places@);
    while i < places.len()
        invariant
            i <= places@.len(),
            place_for(places@, dir@) == place_for(places@.subrange(i as int, places@.len() as int), dir@),
        decreases places.len() - i,
    {
        let ghost rest = places@.subrange(i as int, places@.len() as int);
        assert(rest.drop_first() =~= places@.subrange(i + 1, places@.len() as int));
        if in_folder(dir, places[i].folder_path.as_str()) {
            return Some(places[i].id);
        }
        i = i + 1;
    }
    assert(places@.subrange(i as int, places@.len() as int).len() == 0);
    None
}

fn find_drive(drives: &Vec<Option<String>>, dir: &Vec<char>) -> (r: Option<String>)
    ensures
        crate::text::opt_text(r) == drive_for(drives@, dir@),
{
    let mut i: usize = 0;
    assert(drives@.subrange(0, drives@.len() as int) =~= drives@);
    while i < drives.len()
        invariant
            i <= drives@.len(),
            drive_for(drives@, dir@) == drive_for(drives@.subrange(i as int, drives@.len() as int), dir@),
        decreases drives.len() - i,
    {
        let ghost rest = drives@.subrange(i as int, drives@.len() as int);
        assert(rest.drop_first() =~= drives@.subrange(i + 1, drives@.len() as int));
        match &drives[i] {
            Some(p) => {
                if in_folder(dir, p.as_str()) {
                    return Some(p.clone());
                }
            },
            None => {},
        }
        i = i + 1;
    }
    assert(drives@.subrange(i as int, drives@.len() as int).len() == 0);
    None
}

/// The sidebar entry to highlight for the view of the active pane, whose
/// folder is `current_dir`; `drives` are the paths of the removable drives
/// (none for an unmounted one).
pub fn sidebar_target(
    view: &PaneView,
    current_dir: &str,
    places: &Vec<PlaceRecord>,
    drives: &Vec<Option<String>>,
    home: &str,
) -> (r: Option<SidebarTarget>)
    ensures
        match r {
            Some(t) => sidebar_target_of(*view, current_dir@, places@, drives@, home@) == Some(
                target_view(t),
            ),
            None => sidebar_target_of(*view, current_dir@, places@, drives@, home@) is None,
        },
{
    match view {
        PaneView::Tag(_) => Some(SidebarTarget::Tags),
        PaneView::TagManager => Some(SidebarTarget::Tags),
        PaneView::ProjectLanding(_) => Some(SidebarTarget::Projects),
        PaneView::ProjectManager => Some(SidebarTarget::Projects),
        PaneView::CloudLanding(id) => Some(SidebarTarget::Cloud(*id)),
        PaneView::Triage { .. } => Some(SidebarTarget::Triage),
        PaneView::SystemDrives => Some(SidebarTarget::SystemDrives),
        PaneView::Recent => Some(SidebarTarget::Recent),
        PaneView::Trash => Some(SidebarTarget::Trash),
        PaneView::ActivityLog => Some(SidebarTarget::ActivityLog),
        PaneView::Search(_) => Some(SidebarTarget::Search),
        PaneView::BulkNaming { .. } => Some(SidebarTarget::BulkNaming),
        PaneView::SpaceViewer { .. } => Some(SidebarTarget::SpaceViewer),
        PaneView::MediaConvert { .. } => Some(SidebarTarget::Convert),
        PaneView::Watercolor(w) => Some(
            match w {
                WatercolorView::Status => SidebarTarget::WatercolorStatus,
                WatercolorView::Workspaces => SidebarTarget::WatercolorWorkspaces,
                WatercolorView::Palettes => SidebarTarget::WatercolorPalettes,
                WatercolorView::BrokenRefs => SidebarTarget::WatercolorBrokenRefs,
            },
        ),
        PaneView::Directory(_) => {
            let d = chars_of(current_dir);
            match find_place(places, &d) {
                Some(id) => Some(SidebarTarget::Place(id)),
                None => match find_drive(drives, &d) {
                    Some(p) => Some(SidebarTarget::Drive(p)),
                    None => if in_folder(&d, home) {
                        Some(SidebarTarget::Home)
                    } else {
                        None
                    },
                },
            }
        },
    }
}

} // verus!
