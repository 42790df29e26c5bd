//! The state of a browser tab: three panes, each with a folder, a view,
//! navigation history and display settings.
use crate::keys::eq_lit;
use crate::launch::{resolve_launch, LaunchConfig, Places, ProjectRecord};
use crate::sort::{SortDirection, SortField};
use crate::text::chars_of;
use crate::views::{tab_title_for_view, view_title, PaneLayout, PaneSlot, PaneView};
use vstd::prelude::*;

verus! {

/// How a file listing is laid out.
#[derive(Clone, Copy, Debug, PartialEq, Eq, Structural)]
pub enum ViewMode {
    Icons,
    List,
}

/// The saved display preferences, as stored: the view mode ("list" or
/// anything else for icons), the sort field ("modified", "size", "kind" or
/// anything else for name), the direction ("descending" or anything else
/// for ascending), and two switches.
#[derive(Clone, Debug)]
pub struct ViewPrefs {
    pub view_mode: String,
    pub sort_field: String,
    pub sort_direction: String,
    pub show_hidden: bool,
    pub show_shape_badges: bool,
}

/// The view mode a stored name stands for.
pub open spec fn view_mode_named(s: Seq<char>) -> ViewMode {
    if s == "list"@ {
        ViewMode::List
    } else {
        ViewMode::Icons
    }
}

/// The sort field a stored name stands for.
pub open spec fn sort_field_named(s: Seq<char>) -> SortField {
    if s == "modified"@ {
        SortField::Modified
    } else if s == "size"@ {
        SortField::Size
    } else if s == "kind"@ {
        SortField::Kind
    } else {
        SortField::Name
    }
}

/// The sort direction a stored name stands for.
pub open spec fn sort_direction_named(s: Seq<char>) -> SortDirection {
    if s == "descending"@ {
        SortDirection::Descending
    } else {
        SortDirection::Ascending
    }
}

/// Reads a stored view mode.
pub fn parse_view_mode(s: &str) -> (r: ViewMode)
    ensures
        r == view_mode_named(s@),
{
    if eq_lit(&chars_of(s), "list") {
        ViewMode::List
    } else {
        ViewMode::Icons
    }
}

/// Reads a stored sort field.
pub fn parse_sort_field(s: &str) -> (r: SortField)
    ensures
        r == sort_field_named(s@),
{
    let c = chars_of(s);
    if eq_lit(&c, "modified") {
        SortField::Modified
    } else if eq_lit(&c, "size") {
        SortField::Size
    } else if eq_lit(&c, "kind") {
        SortField::Kind
    } else {
        SortField::Name
    }
}

/// Reads a stored sort direction.
pub fn parse_sort_direction(s: &str) -> (r: SortDirection)
    ensures
        r == sort_direction_named(s@),
{
    if eq_lit(&chars_of(s), "descending") {
        SortDirection::Descending
    } else {
        SortDirection::Ascending
    }
}

/// A tab: for each of the three panes, its folder, back and forward
/// history, view and display settings; the layout and the active pane.
#[derive(Clone, Debug)]
pub struct TabState {
    pub title: String,
    pub primary_dir: String,
    pub primary_back_history: Vec<String>,
    pub primary_forward_history: Vec<String>,
    pub primary_view: PaneView,
    pub secondary_dir: String,
    pub secondary_back_history: Vec<String>,
    pub secondary_forward_history: Vec<String>,
    pub secondary_view: PaneView,
    pub tertiary_dir: String,
    pub tertiary_back_history: Vec<String>,
    pub tertiary_forward_history: Vec<String>,
    pub tertiary_view: PaneView,
    pub pane_layout: PaneLayout,
    pub active_pane: PaneSlot,
    pub primary_view_mode: ViewMode,
    pub secondary_view_mode: ViewMode,
    pub tertiary_view_mode: ViewMode,
    pub primary_show_hidden: bool,
    pub secondary_show_hidden: bool,
    pub tertiary_show_hidden: bool,
    pub primary_show_shape_badges: bool,
    pub secondary_show_shape_badges: bool,
    pub tertiary_show_shape_badges: bool,
    pub primary_sort_field: SortField,
    pub primary_sort_direction: SortDirection,
    pub secondary_sort_field: SortField,
    pub secondary_sort_direction: SortDirection,
    pub tertiary_sort_field: SortField,
    pub tertiary_sort_direction: SortDirection,
}

/// A fresh tab: empty histories, the primary pane active, and every pane
/// shown with the saved preferences.
pub open spec fn fresh_settings(t: TabState, prefs: ViewPrefs) -> bool {
    let vm = view_mode_named(prefs.view_mode@);
    let sf = sort_field_named(prefs.sort_field@);
    let sd = sort_direction_named(prefs.sort_direction@);
    &&& t.primary_back_history@.len() == 0
    &&& t.primary_forward_history@.len() == 0
    &&& t.secondary_back_history@.len() == 0
    &&& t.secondary_forward_history@.len() == 0
    &&& t.tertiary_back_history@.len() == 0
    &&& t.tertiary_forward_history@.len() == 0
    &&& t.active_pane == PaneSlot::Primary
    &&& t.primary_view_mode == vm
    &&& t.secondary_view_mode == vm
    &&& t.tertiary_view_mode == vm
    &&& t.primary_show_hidden == prefs.show_hidden
    &&& t.secondary_show_hidden == prefs.show_hidden
    &&& t.tertiary_show_hidden == prefs.show_hidden
    &&& t.primary_show_shape_badges == prefs.show_shape_badges
    &&& t.secondary_show_shape_badges == prefs.show_shape_badges
    &&& t.tertiary_show_shape_badges == prefs.show_shape_badges
    &&& t.primary_sort_field == sf
    &&& t.secondary_sort_field == sf
    &&& t.tertiary_sort_field == sf
    &&& t.primary_sort_direction == sd
    &&& t.secondary_sort_direction == sd
    &&& t.tertiary_sort_direction == sd
}

/// Builds a tab with fresh settings from its folders, views and layout.
fn fresh_tab(
    primary_dir: String,
    primary_view: PaneView,
    secondary_dir: String,
    tertiary_dir: String,
    pane_layout: PaneLayout,
    prefs: &ViewPrefs,
) -> (t: TabState)
    ensures
        fresh_settings(t, *prefs),
        t.title@ == view_title(primary_view, primary_dir@),
        t.primary_dir@ == primary_dir@,
        t.primary_view == primary_view,
        t.secondary_dir@ == secondary_dir@,
        t.secondary_view == PaneView::Directory(secondary_dir),
        t.tertiary_dir@ == tertiary_dir@,
        t.tertiary_view == PaneView::Directory(tertiary_dir),
        t.pane_layout == pane_layout,
{
    let title = tab_title_for_view(&primary_view, primary_dir.as_str());
    let vm = parse_view_mode(prefs.view_mode.as_str());
    let sf = parse_sort_field(prefs.sort_field.as_str());
    let sd = parse_sort_direction(prefs.sort_direction.as_str());
    let secondary_view = PaneView::Directory(secondary_dir.clone());
    let tertiary_view = PaneView::Directory(tertiary_dir.clone());
    TabState {
        title,
        primary_dir,
        primary_back_history: Vec::new(),
        primary_forward_history: Vec::new(),
        primary_view,
        secondary_dir,
        secondary_back_history: Vec::new(),
        secondary_forward_history: Vec::new(),
        secondary_view,
        tertiary_dir,
        tertiary_back_history: Vec::new(),
        tertiary_forward_history: Vec::new(),
        tertiary_view,
        pane_layout,
        active_pane: PaneSlot::Primary,
        primary_view_mode: vm,
        secondary_view_mode: vm,
        tertiary_view_mode: vm,
        primary_show_hidden: prefs.show_hidden,
        secondary_show_hidden: prefs.show_hidden,
        tertiary_show_hidden: prefs.show_hidden,
        primary_show_shape_badges: prefs.show_shape_badges,
        secondary_show_shape_badges: prefs.show_shape_badges,
        tertiary_show_shape_badges: prefs.show_shape_badges,
        primary_sort_field: sf,
        primary_sort_direction: sd,
        secondary_sort_field: sf,
        secondary_sort_direction: sd,
        tertiary_sort_field: sf,
        tertiary_sort_direction: sd,
    }
}

impl TabState {
    /// A tab showing `path` in every pane, one pane visible.
    pub fn new(path: String, prefs: &ViewPrefs) -> (t: TabState)
        ensures
            fresh_settings(t, *prefs),
            t.title@ == view_title(PaneView::Directory(path), path@),
            t.primary_dir@ == path@,
            t.secondary_dir@ == path@,
            t.tertiary_dir@ == path@,
            t.primary_view matches PaneView::Directory(p) && p@ == path@,
            t.secondary_view matches PaneView::Directory(p) && p@ == path@,
            t.tertiary_view matches PaneView::Directory(p) && p@ == path@,
            t.pane_layout == PaneLayout::Single,
    {
        let view = PaneView::Directory(path.clone());
        let t = fresh_tab(path.clone(), view, path.clone(), path, PaneLayout::Single, prefs);
        t
    }

    /// The first tab for a start-up request (see
    /// [`resolve_launch`](crate::launch::resolve_launch)), with its notice.
    pub fn for_launch(
        launch: &LaunchConfig,
        places: &Places,
        usable: &Vec<String>,
        projects: &Vec<ProjectRecord>,
        prefs: &ViewPrefs,
    ) -> (r: (TabState, Option<String>))
        requires
            launch.split matches Some(sp) ==> sp@.len() >= 2,
        ensures
            ({
                let res = crate::launch::launch_plan(
                    crate::text::opt_text(launch.path),
                    crate::launch::split_texts(launch.split),
                    launch.downloads,
                    crate::text::opt_text(launch.project),
                    places.home@,
                    places.downloads@,
                    crate::clipboard::texts(usable@),
                    projects@,
                );
                &&& fresh_settings(r.0, *prefs)
                &&& crate::launch::start_view_of(r.0.primary_view) == Some(res.primary_view)
                &&& r.0.title@ == view_title(r.0.primary_view, res.primary_dir)
                &&& r.0.primary_dir@ == res.primary_dir
                &&& r.0.secondary_dir@ == res.secondary_dir
                &&& r.0.tertiary_dir@ == res.tertiary_dir
                &&& r.0.secondary_view matches PaneView::Directory(p) && p@ == res.secondary_dir
                &&& r.0.tertiary_view matches PaneView::Directory(p) && p@ == res.tertiary_dir
                &&& r.0.pane_layout == res.pane_layout
                &&& crate::text::opt_text(r.1) == res.notice
            }),
    {
        let res = resolve_launch(launch, places, usable, projects);
        let t = fresh_tab(
            res.primary_dir,
            res.primary_view,
            res.secondary_dir,
            res.tertiary_dir,
            res.pane_layout,
            prefs,
        );
        (t, res.notice)
    }
}

} // verus!
