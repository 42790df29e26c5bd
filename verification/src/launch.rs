//! What the first tab shows when the browser starts: the folders and view
//! chosen on the command line, with a notice for each that could not be
//! opened.
use crate::clipboard::texts;
use crate::naming::is_taken;
use crate::text::{chars_eq, chars_of, lower_ascii, lower_ascii_vec, opt_text, push_str, string_of};
use crate::views::{PaneLayout, PaneView, TriageFilter};
use vstd::prelude::*;

verus! {

/// The start-up request: a folder, a split of two or three folders, the
/// Downloads triage, or a palette by name.
#[derive(Clone, Debug)]
pub struct LaunchConfig {
    pub path: Option<String>,
    pub split: Option<Vec<String>>,
    pub downloads: bool,
    pub project: Option<String>,
}

/// The user's home and Downloads folders.
#[derive(Clone, Debug)]
pub struct Places {
    pub home: String,
    pub downloads: String,
}

/// A palette as listed by the metadata store.
#[derive(Clone, Debug)]
pub struct ProjectRecord {
    pub id: i64,
    pub name: String,
}

/// Where the first tab starts.
#[derive(Clone, Debug)]
pub struct LaunchResolution {
    pub primary_dir: String,
    pub primary_view: PaneView,
    pub secondary_dir: String,
    pub tertiary_dir: String,
    pub pane_layout: PaneLayout,
    pub notice: Option<String>,
}

/// The first view of the primary pane, as plain values.
pub enum StartView {
    Directory(Seq<char>),
    Triage(Seq<char>),
    ProjectLanding(i64),
}

/// The plain values of a start-up resolution: primary folder and view,
/// secondary and tertiary folders, layout and notice.
pub struct LaunchPlan {
    pub primary_dir: Seq<char>,
    pub primary_view: StartView,
    pub secondary_dir: Seq<char>,
    pub tertiary_dir: Seq<char>,
    pub pane_layout: PaneLayout,
    pub notice: Option<Seq<char>>,
}

/// The primary view of a resolution, if it is one a launch can produce.
pub open spec fn start_view_of(v: PaneView) -> Option<StartView> {
    match v {
        PaneView::Directory(p) => Some(StartView::Directory(p@)),
        PaneView::Triage { root, filter } => if filter == TriageFilter::All {
            Some(StartView::Triage(root@))
        } else {
            None
        },
        PaneView::ProjectLanding(id) => Some(StartView::ProjectLanding(id)),
        _ => None,
    }
}

/// The plain values of a resolution.
pub open spec fn plan_of(r: LaunchResolution) -> Option<LaunchPlan> {
    match start_view_of(r.primary_view) {
        Some(v) => Some(
            LaunchPlan {
                primary_dir: r.primary_dir@,
                primary_view: v,
                secondary_dir: r.secondary_dir@,
                tertiary_dir: r.tertiary_dir@,
                pane_layout: r.pane_layout,
                notice: opt_text(r.notice),
            },
        ),
        None => None,
    }
}

/// A requested folder when it can be opened, otherwise home with a notice
/// naming it.
pub open spec fn checked_dir(candidate: Seq<char>, home: Seq<char>, label: Seq<char>, usable: Seq<Seq<char>>) -> (
    Seq<char>,
    Option<Seq<char>>,
) {
    if usable.contains(candidate) {
        (candidate, None)
    } else {
        (home, Some(label + " '"@ + candidate + "' is not a readable folder. Opened Home instead."@))
    }
}

/// The requested folder, or home with a notice when it is not a readable
/// folder; `usable` lists the requested folders that are.
pub fn validate_launch_directory(candidate: &str, home: &str, label: &str, usable: &Vec<String>) -> (r: (
    String,
    Option<String>,
))
    ensures
        (r.0@, opt_text(r.1)) == checked_dir(candidate@, home@, label@, texts(usable@)),
{
    let c = chars_of(candidate);
    if is_taken(&c, usable) {
        (String::from_str(candidate), None)
    } else {
        let mut out: Vec<char> = Vec::new();
        push_str(&mut out, label);
        push_str(&mut out, " '");
        push_str(&mut out, candidate);
        push_str(&mut out, "' is not a readable folder. Opened Home instead.");
        (String::from_str(home), Some(string_of(&out)))
    }
}

/// The notices that are present, in order.
pub open spec fn present(ns: Seq<Option<Seq<char>>>) -> Seq<Seq<char>>
    decreases ns.len(),
{
    if ns.len() == 0 {
        seq![]
    } else {
        match ns.last() {
            Some(n) => present(ns.drop_last()).push(n),
            None => present(ns.drop_last()),
        }
    }
}

/// Texts joined with single spaces.
pub open spec fn joined(ts: Seq<Seq<char>>) -> Seq<char>
    decreases ts.len(),
{
    if ts.len() == 0 {
        seq![]
    } else if ts.len() == 1 {
        ts[0]
    } else {
        joined(ts.drop_last()) + seq![' '] + ts.last()
    }
}

/// The notices that are present joined by spaces, or nothing when none is.
pub open spec fn combined(ns: Seq<Option<Seq<char>>>) -> Option<Seq<char>> {
    if present(ns).len() == 0 {
        None
    } else {
        Some(joined(present(ns)))
    }
}

/// The texts of optional strings.
pub open spec fn opt_texts(v: Seq<Option<String>>) -> Seq<Option<Seq<char>>> {
    v.map_values(|o: Option<String>| opt_text(o))
}

/// One notice made of those given, separated by spaces.
pub fn combine_launch_notices(notices: Vec<Option<String>>) -> (r: Option<String>)
    ensures
        opt_text(r) == combined(opt_texts(notices@)),
{
    let ghost ns = opt_texts(notices@);
    let mut out: Vec<char> = Vec::new();
    let mut count: usize = 0;
    let mut i: usize = 0;
    while i < notices.len()
        invariant
            i <= notices.len(),
            ns == opt_texts(notices@),
            count == present(ns.take(i as int)).len(),
            out@ == joined(present(ns.take(i as int))),
            count <= i,
        decreases notices.len() - i,
    {
        assert(ns.take(i + 1).drop_last() =~= ns.take(i as int));
        assert(ns.take(i + 1).last() == opt_text(notices@[i as int]));
        match &notices[i] {
            Some(n) => {
                if count > 0 {
                    out.push(' ');
                }
                let ghost before = out@;
                push_str(&mut out, n.as_str());
                count = count + 1;
                proof {
                    let p = present(ns.take(i + 1));
                    assert(p == present(ns.take(i as int)).push(n@));
                    if p.len() == 1 {
                        assert(present(ns.take(i as int)).len() == 0);
                        assert(out@ =~= n@);
                    } else {
                        assert(p.drop_last() =~= present(ns.take(i as int)));
                        assert(out@ =~= before + n@);
                    }
                }
            },
            None => {},
        }
        i = i + 1;
    }
    assert(ns.take(notices.len() as int) =~= ns);
    if count == 0 {
        None
    } else {
        Some(string_of(&out))
    }
}

/// The first palette whose name matches `name` ignoring ASCII case.
pub open spec fn project_named(ps: Seq<ProjectRecord>, name: Seq<char>) -> Option<i64>
    decreases ps.len(),
{
    if ps.len() == 0 {
        None
    } else if lower_ascii(ps[0].name@) == lower_ascii(name) {
        Some(ps[0].id)
    } else {
        project_named(ps.drop_first(), name)
    }
}

fn find_project(ps: &Vec<ProjectRecord>, name: &str) -> (r: Option<i64>)
    ensures
        r == project_named(ps@, name@),
{
    let want = lower_ascii_vec(&chars_of(name));
    let mut i: usize = 0;
    assert(ps@.subrange(0, ps@.len() as int) =~= ps@);
    while i < ps.len()
        invariant
            i <= ps@.len(),
            want@ == lower_ascii(name@),
            project_named(ps@, name@) == project_named(ps@.subrange(i as int, ps@.len() as int), name@),
        decreases ps.len() - i,
    {
        let ghost rest = ps@.subrange(i as int, ps@.len() as int);
        assert(rest.drop_first() =~= ps@.subrange(i + 1, ps@.len() as int));
        let have = lower_ascii_vec(&chars_of(ps[i].name.as_str()));
        if chars_eq(&have, &want) {
            return Some(ps[i].id);
        }
        i = i + 1;
    }
    assert(ps@.subrange(i as int, ps@.len() as int).len() == 0);
    None
}

/// A resolution that opens home in a single pane, with the given primary
/// view and notice.
pub open spec fn home_plan(home: Seq<char>, view: StartView, notice: Option<Seq<char>>) -> LaunchPlan {
    LaunchPlan {
        primary_dir: home,
        primary_view: view,
        secondary_dir: home,
        tertiary_dir: home,
        pane_layout: PaneLayout::Single,
        notice,
    }
}

/// Where the first tab starts for a request, given the requested folders
/// that are readable (`usable`) and the palettes:
/// a split opens its folders side by side (two or three panes), each
/// unreadable one replaced by home with a notice; a folder opens alone;
/// the Downloads request opens its triage, or home with a notice; a palette
/// name opens that palette (matched ignoring ASCII case), or home with a
/// notice; otherwise home.
pub open spec fn launch_plan(
    path: Option<Seq<char>>,
    split: Option<Seq<Seq<char>>>,
    downloads: bool,
    project: Option<Seq<char>>,
    home: Seq<char>,
    downloads_dir: Seq<char>,
    usable: Seq<Seq<char>>,
    projects: Seq<ProjectRecord>,
) -> LaunchPlan {
    match split {
        Some(sp) => {
            let left = checked_dir(sp[0], home, "Left split path"@, usable);
            let right = checked_dir(sp[1], home, "Middle split path"@, usable);
            let third = if sp.len() > 2 {
                checked_dir(sp[2], home, "Right split path"@, usable)
            } else {
                (home, None)
            };
            LaunchPlan {
                primary_dir: left.0,
                primary_view: StartView::Directory(left.0),
                secondary_dir: right.0,
                tertiary_dir: third.0,
                pane_layout: if sp.len() > 2 {
                    PaneLayout::Three
                } else {
                    PaneLayout::Two
                },
                notice: combined(seq![left.1, right.1, third.1]),
            }
        },
        None => match path {
            Some(p) => {
                let (dir, notice) = checked_dir(p, home, "Launch path"@, usable);
                LaunchPlan {
                    primary_dir: dir,
                    primary_view: StartView::Directory(dir),
                    secondary_dir: home,
                    tertiary_dir: home,
                    pane_layout: PaneLayout::Single,
                    notice,
                }
            },
            None => if downloads {
                if usable.contains(downloads_dir) {
                    LaunchPlan {
                        primary_dir: downloads_dir,
                        primary_view: StartView::Triage(downloads_dir),
                        secondary_dir: home,
                        tertiary_dir: home,
                        pane_layout: PaneLayout::Single,
                        notice: None,
                    }
                } else {
                    home_plan(
                        home,
                        StartView::Directory(home),
                        Some("Downloads folder is unavailable. Opened Home instead."@),
                    )
                }
            } else {
                match project {
                    Some(name) => match project_named(projects, name) {
                        Some(id) => home_plan(home, StartView::ProjectLanding(id), None),
                        None => home_plan(
                            home,
                            StartView::Directory(home),
                            Some("Palette '"@ + name + "' was not found. Opened Home instead."@),
                        ),
                    },
                    None => home_plan(home, StartView::Directory(home), None),
                }
            },
        },
    }
}

/// The plain values of a split request.
pub open spec fn split_texts(s: Option<Vec<String>>) -> Option<Seq<Seq<char>>> {
    match s {
        Some(v) => Some(texts(v@)),
        None => None,
    }
}

fn home_resolution(places: &Places, view: PaneView, notice: Option<String>) -> (r: LaunchResolution)
    ensures
        r.primary_dir@ == places.home@,
        r.secondary_dir@ == places.home@,
        r.tertiary_dir@ == places.home@,
        r.primary_view == view,
        r.pane_layout == PaneLayout::Single,
        opt_text(r.notice) == opt_text(notice),
{
    LaunchResolution {
        primary_dir: places.home.clone(),
        primary_view: view,
        secondary_dir: places.home.clone(),
        tertiary_dir: places.home.clone(),
        pane_layout: PaneLayout::Single,
        notice,
    }
}

/// Resolves the start-up request against the folders found readable
/// (`usable`, among those the request names) and the palettes.
pub fn resolve_launch(
    launch: &LaunchConfig,
    places: &Places,
    usable: &Vec<String>,
    projects: &Vec<ProjectRecord>,
) -> (r: LaunchResolution)
    requires
        launch.split matches Some(sp) ==> sp@.len() >= 2,
    ensures
        plan_of(r) == Some(
            launch_plan(
                opt_text(launch.path),
                split_texts(launch.split),
                launch.downloads,
                opt_text(launch.project),
                places.home@,
                places.downloads@,
                texts(usable@),
                projects@,
            ),
        ),
{
    let home = places.home.as_str();
    match &launch.split {
        Some(sp) => {
            let ghost ts = texts(sp@);
            assert(ts[0] == sp@[0]@);
            assert(ts[1] == sp@[1]@);
            let (left_path, left_notice) = validate_launch_directory(
                sp[0].as_str(),
                home,
                "Left split path",
                usable,
            );
            let (right_path, right_notice) = validate_launch_directory(
                sp[1].as_str(),
                home,
                "Middle split path",
                usable,
            );
            let three = sp.len() > 2;
            let (third_path, third_notice) = if three {
                assert(ts[2] == sp@[2]@);
                validate_launch_directory(sp[2].as_str(), home, "Right split path", usable)
            } else {
                (places.home.clone(), None)
            };
            let mut notices: Vec<Option<String>> = Vec::new();
            notices.push(left_notice);
            notices.push(right_notice);
            notices.push(third_notice);
            let ghost nv = opt_texts(notices@);
            let notice = combine_launch_notices(notices);
            assert(nv =~= seq![opt_text(left_notice), opt_text(right_notice), opt_text(third_notice)]);
            let primary = left_path.clone();
            LaunchResolution {
                primary_dir: primary,
                primary_view: PaneView::Directory(left_path),
                secondary_dir: right_path,
                tertiary_dir: third_path,
                pane_layout: if three {
                    PaneLayout::Three
                } else {
                    PaneLayout::Two
                },
                notice,
            }
        },
        None => match &launch.path {
            Some(p) => {
                let (dir, notice) = validate_launch_directory(p.as_str(), home, "Launch path", usable);
                LaunchResolution {
                    primary_dir: dir.clone(),
                    primary_view: PaneView::Directory(dir),
                    secondary_dir: places.home.clone(),
                    tertiary_dir: places.home.clone(),
                    pane_layout: PaneLayout::Single,
                    notice,
                }
            },
            None => {
                if launch.downloads {
                    let d = chars_of(places.downloads.as_str());
                    if is_taken(&d, usable) {
                        LaunchResolution {
                            primary_dir: places.downloads.clone(),
                            primary_view: PaneView::Triage {
                                root: places.downloads.clone(),
                                filter: TriageFilter::All,
                            },
                            secondary_dir: places.home.clone(),
                            tertiary_dir: places.home.clone(),
                            pane_layout: PaneLayout::Single,
                            notice: None,
                        }
                    } else {
                        home_resolution(
                            places,
                            PaneView::Directory(places.home.clone()),
                            Some(String::from_str("Downloads folder is unavailable. Opened Home instead.")),
                        )
                    }
                } else {
                    match &launch.project {
                        Some(name) => match find_project(projects, name.as_str()) {
                            Some(id) => home_resolution(places, PaneView::ProjectLanding(id), None),
                            None => {
                                let mut out: Vec<char> = Vec::new();
                                push_str(&mut out, "Palette '");
                                push_str(&mut out, name.as_str());
                                push_str(&mut out, "' was not found. Opened Home instead.");
                                home_resolution(
                                    places,
                                    PaneView::Directory(places.home.clone()),
                                    Some(string_of(&out)),
                                )
                            },
                        },
                        None => home_resolution(places, PaneView::Directory(places.home.clone()), None),
                    }
                }
            },
        },
    }
}

} // verus!
