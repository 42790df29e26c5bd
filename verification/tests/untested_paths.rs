use lattice::clipboard::{ProjectTransferKind, TrayProjectAction};
use lattice::launch::{LaunchConfig, Places, ProjectRecord};
use lattice::model::{read_explicit_mark_from_item, FileItem, FileKind, Shape};
use lattice::picker::{PickerConfig, PickerMode};
use lattice::sort::{SortDirection, SortField};
use lattice::tabs::{TabState, ViewMode, ViewPrefs};
use lattice::triage::{filter_triage_items, is_executable, TriageClock, TriageFacts};
use lattice::views::{paste_destination, view_display_label, FocusedContext, PaneLayout, PaneView, TriageFilter};

fn file(path: &str, kind: FileKind, size: Option<u64>, is_dir: bool) -> FileItem {
    FileItem {
        name: path.rsplit('/').next().unwrap_or("").to_string(),
        path: path.to_string(),
        kind,
        is_dir,
        is_openable: true,
        detail: None,
        size_bytes: size,
        modified_unix: Some(1_000),
        tags: Vec::new(),
        mark_tint_id: 0,
        mark_tint_color: None,
        mark_shape: Shape::Circle,
        original_path: None,
    }
}

fn facts(executable: bool) -> TriageFacts {
    TriageFacts { day: Some("2024-05-17".to_string()), month: Some("2024-05".to_string()), executable }
}

fn clock() -> TriageClock {
    TriageClock { now_unix: Some(1_000 + 3_600), today: Some("2024-05-17".to_string()), this_month: Some("2024-05".to_string()) }
}

#[test]
fn executable_bits_are_any_of_user_group_other() {
    assert!(is_executable(Some(0o755)));
    assert!(is_executable(Some(0o100)));
    assert!(is_executable(Some(0o001)));
    assert!(!is_executable(Some(0o644)));
    assert!(!is_executable(None));
}

#[test]
fn triage_filter_keeps_matching_items_in_order() {
    let items = vec![
        file("/d/a.png", FileKind::Image, Some(10), false),
        file("/d/b.txt", FileKind::Text, Some(0), false),
        file("/d/c.png", FileKind::Image, Some(20), false),
        file("/d/sub", FileKind::Folder, None, true),
    ];
    let fs = vec![facts(false), facts(true), facts(false), facts(false)];
    let images = filter_triage_items(items.clone(), &fs, TriageFilter::Images, &clock(), None);
    assert_eq!(images.iter().map(|i| i.path.as_str()).collect::<Vec<_>>(), vec!["/d/a.png", "/d/c.png"]);
    let empty = filter_triage_items(items.clone(), &fs, TriageFilter::Empty, &clock(), None);
    assert_eq!(empty.iter().map(|i| i.path.as_str()).collect::<Vec<_>>(), vec!["/d/b.txt"]);
    let exec = filter_triage_items(items.clone(), &fs, TriageFilter::Executables, &clock(), None);
    assert_eq!(exec.iter().map(|i| i.path.as_str()).collect::<Vec<_>>(), vec!["/d/b.txt"]);
    let dups = vec!["/d/c.png".to_string()];
    let dup = filter_triage_items(items.clone(), &fs, TriageFilter::Duplicates, &clock(), Some(&dups));
    assert_eq!(dup.iter().map(|i| i.path.as_str()).collect::<Vec<_>>(), vec!["/d/c.png"]);
    let today = filter_triage_items(items.clone(), &fs, TriageFilter::Today, &clock(), None);
    assert_eq!(today.len(), 4);
    let old = filter_triage_items(items, &fs, TriageFilter::OlderThanOneMonth, &clock(), None);
    assert!(old.is_empty());
}

#[test]
fn explicit_marks_need_a_tint() {
    let mut it = file("/d/a.png", FileKind::Image, Some(1), false);
    assert_eq!(read_explicit_mark_from_item(&it), None);
    it.mark_tint_id = 4;
    it.mark_shape = Shape::Hexagon;
    assert_eq!(read_explicit_mark_from_item(&it), Some((4, Shape::Hexagon)));
}

#[test]
fn tray_actions_map_to_transfer_kinds() {
    assert_eq!(TrayProjectAction::Copy.transfer_kind(), ProjectTransferKind::Copy);
    assert_eq!(TrayProjectAction::Move.transfer_kind(), ProjectTransferKind::Move);
}

#[test]
fn picker_configs_start_without_hidden_entries() {
    let f = PickerConfig::open_folder("/home/me".to_string());
    assert!(matches!(f.mode, PickerMode::OpenFolder));
    assert_eq!(f.initial_dir, "/home/me");
    assert!(!f.show_hidden);
    let one = PickerConfig::open_file("/tmp".to_string());
    assert!(matches!(one.mode, PickerMode::OpenFile));
    let many = PickerConfig::open_files("/tmp".to_string());
    assert!(matches!(many.mode, PickerMode::OpenFiles));
    assert!(!many.show_hidden);
}

#[test]
fn focused_text_fields_are_editable() {
    assert!(FocusedContext::PathEntry.is_editable());
    assert!(FocusedContext::SearchEntry.is_editable());
    assert!(FocusedContext::EditableText.is_editable());
    assert!(!FocusedContext::FileGrid.is_editable());
    assert!(!FocusedContext::Window.is_editable());
}

#[test]
fn paste_goes_into_folders_and_triage_roots_only() {
    assert_eq!(paste_destination(&PaneView::Directory("/a/b".to_string()), "/x"), Some("/a/b".to_string()));
    assert_eq!(
        paste_destination(&PaneView::Triage { root: "/dl".to_string(), filter: TriageFilter::All }, "/cur"),
        Some("/cur".to_string())
    );
    assert_eq!(paste_destination(&PaneView::Recent, "/cur"), None);
    assert_eq!(paste_destination(&PaneView::Trash, "/cur"), None);
}

#[test]
fn view_labels_show_paths_relative_to_home() {
    assert_eq!(view_display_label(&PaneView::Directory("/home/me/Music".to_string()), "/home/me"), "~/Music");
    assert_eq!(view_display_label(&PaneView::Directory("/etc".to_string()), "/home/me"), "/etc");
    assert_eq!(view_display_label(&PaneView::BulkNaming { root: "/home/me".to_string() }, "/home/me"), "Bulk Naming in ~");
}

#[test]
fn launch_tab_follows_the_resolution() {
    let places = Places { home: "/home/me".to_string(), downloads: "/home/me/Downloads".to_string() };
    let prefs = ViewPrefs {
        view_mode: "list".to_string(),
        sort_field: "size".to_string(),
        sort_direction: "descending".to_string(),
        show_hidden: true,
        show_shape_badges: false,
    };
    let launch = LaunchConfig { path: Some("/srv/data".to_string()), split: None, downloads: false, project: None };
    let usable = vec!["/srv/data".to_string()];
    let projects: Vec<ProjectRecord> = Vec::new();
    let (tab, notice) = TabState::for_launch(&launch, &places, &usable, &projects, &prefs);
    assert_eq!(notice, None);
    assert_eq!(tab.primary_dir, "/srv/data");
    assert_eq!(tab.secondary_dir, "/home/me");
    assert_eq!(tab.pane_layout, PaneLayout::Single);
    assert_eq!(tab.primary_view_mode, ViewMode::List);
    assert_eq!(tab.primary_sort_field, SortField::Size);
    assert_eq!(tab.primary_sort_direction, SortDirection::Descending);
    assert!(tab.primary_show_hidden);
    assert!(!tab.primary_show_shape_badges);
    assert!(tab.primary_back_history.is_empty());
}
