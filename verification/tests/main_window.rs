use lattice::clipboard::{add_unique_tray_items, ClipboardMode, FileClipboardState};
use lattice::completion::{
    path_completion_display, path_completion_query, PathCompletionMode,
};
use lattice::keys::{
    builtin_shortcut_actions, default_app_config,
    builtin_command, configured_window_command_from_key, AppConfig, KeyPress, Modifiers, PressedKey,
    WindowCommand,
};
use lattice::dedup::{duplicate_candidates, duplicates_from_hashes, fnv1a_continue, SizedEntry, FNV_OFFSET_BASIS};
use lattice::launch::{resolve_launch, LaunchConfig, Places, ProjectRecord};
use lattice::model::{FileItem, FileKind, Shape, TagRecord};
use lattice::naming::next_new_text_document_path;
use lattice::parents::common_parent;
use lattice::search::SearchQuery;
use lattice::views::{
    action_availability, pane_view_scope_dir, pane_view_uses_file_grid_controls,
    resolve_tool_scope_dir, should_queue_actions_state, PaneLayout, PaneSlot, PaneView, TriageFilter,
};

fn test_places() -> Places {
    Places { home: "/tmp/lattice-places/home".to_string(), downloads: "/tmp/lattice-places/downloads".to_string() }
}

fn test_tag() -> TagRecord {
    TagRecord { id: 7, name: "Focus".to_string(), color: None, associated_tint_id: None, associated_shape: None }
}

fn test_item(path: &str) -> FileItem {
    let name = path.rsplit('/').next().unwrap_or("item").to_string();
    FileItem {
        name,
        path: path.to_string(),
        kind: FileKind::Text,
        is_dir: false,
        is_openable: true,
        detail: None,
        size_bytes: None,
        modified_unix: None,
        tags: Vec::new(),
        mark_tint_id: 0,
        mark_tint_color: None,
        mark_shape: Shape::Circle,
        original_path: None,
    }
}

fn press(c: char) -> KeyPress {
    KeyPress { key: PressedKey::Other, unicode: Some(c) }
}

fn named(k: PressedKey) -> KeyPress {
    KeyPress { key: k, unicode: None }
}

const NONE: Modifiers = Modifiers { ctrl: false, shift: false, alt: false };
const CTRL: Modifiers = Modifiers { ctrl: true, shift: false, alt: false };
const CTRL_SHIFT: Modifiers = Modifiers { ctrl: true, shift: true, alt: false };
const CTRL_ALT: Modifiers = Modifiers { ctrl: true, shift: false, alt: true };

/// The standard bindings, as the default configuration lists them.
fn default_config() -> AppConfig {
    default_app_config()
}


#[test]
fn queue_guard_disables_queueing_while_executing_plan_queue() {
    assert!(!should_queue_actions_state(false, false));
    assert!(should_queue_actions_state(true, false));
    assert!(!should_queue_actions_state(true, true));
}

#[test]
fn holding_tray_deduplicates_items_by_path() {
    let mut existing = vec![test_item("/tmp/a.txt")];
    let added = add_unique_tray_items(&mut existing, vec![test_item("/tmp/a.txt"), test_item("/tmp/b.txt")]);

    assert_eq!(added, 1);
    assert_eq!(
        existing.iter().map(|item| item.path.clone()).collect::<Vec<_>>(),
        vec!["/tmp/a.txt".to_string(), "/tmp/b.txt".to_string()]
    );
}

#[test]
fn path_completion_query_supports_home_absolute_and_relative_inputs() {
    let current_dir = "/home/tester/Downloads";
    let home = "/home/tester";

    let q = path_completion_query("~/Doc", current_dir, home).unwrap();
    assert_eq!(q.query, "/home/tester/Doc");
    assert_eq!(q.mode, PathCompletionMode::Home);
    let q = path_completion_query("/var/lo", current_dir, home).unwrap();
    assert_eq!(q.query, "/var/lo");
    assert_eq!(q.mode, PathCompletionMode::Absolute);
    let q = path_completion_query("Pho", current_dir, home).unwrap();
    assert_eq!(q.query, "/home/tester/Downloads/Pho");
    assert_eq!(q.mode, PathCompletionMode::Relative);
    assert!(path_completion_query("", current_dir, home).is_none());
    assert!(path_completion_query("file:///home/tester", current_dir, home).is_none());
}

#[test]
fn path_completion_display_preserves_user_facing_prefix_style() {
    let current_dir = "/home/tester/Downloads";
    let home = "/home/tester";

    assert_eq!(
        path_completion_display("/home/tester/Documents", PathCompletionMode::Home, current_dir, home),
        Some("~/Documents".to_string())
    );
    assert_eq!(
        path_completion_display("/home/tester/Downloads/Photos", PathCompletionMode::Relative, current_dir, home),
        Some("Photos".to_string())
    );
    assert_eq!(
        path_completion_display("/var/log", PathCompletionMode::Absolute, current_dir, home),
        Some("/var/log".to_string())
    );
}

#[test]
fn archive_destination_names_are_safe_and_predictable() {
    assert_eq!(
        common_parent(&vec!["/tmp/a.txt".to_string(), "/tmp/b.txt".to_string()]),
        Some("/tmp".to_string())
    );
    assert_eq!(common_parent(&vec!["/tmp/a.txt".to_string(), "/var/b.txt".to_string()]), None);
}

#[test]
fn clipboard_cut_clears_moved_sources_and_keeps_failures() {
    let clipboard = FileClipboardState::new(
        vec!["/tmp/one".to_string(), "/tmp/two".to_string(), "/tmp/three".to_string()],
        ClipboardMode::Cut,
    )
    .unwrap();

    let updated = clipboard
        .after_completed_paste(&vec!["/tmp/one".to_string(), "/tmp/three".to_string()])
        .unwrap();

    assert_eq!(updated.mode, ClipboardMode::Cut);
    assert_eq!(updated.paths, vec!["/tmp/two".to_string()]);
}

#[test]
fn clipboard_copy_survives_paste() {
    let clipboard = FileClipboardState::new(vec!["/tmp/alpha".to_string()], ClipboardMode::Copy).unwrap();

    let updated = clipboard.after_completed_paste(&vec!["/tmp/alpha".to_string()]).unwrap();

    assert_eq!(updated.paths, clipboard.paths);
    assert_eq!(updated.mode, clipboard.mode);
}

#[test]
fn action_availability_blocks_paste_in_virtual_views() {
    let tag = test_tag();

    let search_actions = action_availability(&PaneView::Search(SearchQuery::new("/tmp".to_string())), 1, true);
    assert!(!search_actions.can_paste_files);
    assert!(!search_actions.can_trash);
    assert!(!search_actions.can_new_folder);

    let recent_actions = action_availability(&PaneView::Recent, 1, true);
    assert!(!recent_actions.can_paste_files);
    assert!(!recent_actions.can_cut_files);
    assert!(!recent_actions.can_new_folder);

    let tag_actions = action_availability(&PaneView::Tag(tag), 1, true);
    assert!(!tag_actions.can_paste_files);
    assert!(tag_actions.can_trash);
    assert!(!tag_actions.can_new_folder);

    let triage_actions = action_availability(
        &PaneView::Triage { root: "/tmp/triage".to_string(), filter: TriageFilter::All },
        0,
        true,
    );
    assert!(triage_actions.can_new_folder);
    assert!(triage_actions.can_paste_files);
}

#[test]
fn next_new_text_document_path_skips_existing_extensionless_names() {
    let root = "/tmp/lattice-new-text-document";
    let taken = vec!["Untitled".to_string(), "Untitled 2".to_string()];

    assert_eq!(next_new_text_document_path(root, &taken), format!("{root}/Untitled 3"));
}

#[test]
fn pane_layout_cycles_and_reports_visible_slots() {
    assert_eq!(PaneLayout::Single.next(), PaneLayout::Two);
    assert_eq!(PaneLayout::Two.next(), PaneLayout::Three);
    assert_eq!(PaneLayout::Three.next(), PaneLayout::Single);
    assert!(PaneLayout::Single.includes(PaneSlot::Primary));
    assert!(!PaneLayout::Single.includes(PaneSlot::Secondary));
    assert!(PaneLayout::Two.includes(PaneSlot::Secondary));
    assert!(!PaneLayout::Two.includes(PaneSlot::Tertiary));
    assert!(PaneLayout::Three.includes(PaneSlot::Tertiary));
}

#[test]
fn file_grid_controls_are_hidden_for_full_panel_tools() {
    let tag = TagRecord { id: 1, name: "Work".to_string(), color: None, associated_tint_id: None, associated_shape: None };

    assert!(pane_view_uses_file_grid_controls(&PaneView::Directory("/tmp".to_string())));
    assert!(pane_view_uses_file_grid_controls(&PaneView::Tag(tag)));
    assert!(pane_view_uses_file_grid_controls(&PaneView::Triage {
        root: "/tmp".to_string(),
        filter: TriageFilter::Images,
    }));
    assert!(pane_view_uses_file_grid_controls(&PaneView::Search(SearchQuery::new("/tmp".to_string()))));
    assert!(pane_view_uses_file_grid_controls(&PaneView::Trash));

    assert!(!pane_view_uses_file_grid_controls(&PaneView::ActivityLog));
    assert!(!pane_view_uses_file_grid_controls(&PaneView::BulkNaming { root: "/tmp".to_string() }));
    assert!(!pane_view_uses_file_grid_controls(&PaneView::SpaceViewer { root: "/tmp".to_string() }));
    assert!(!pane_view_uses_file_grid_controls(&PaneView::MediaConvert { from_dir: "/tmp".to_string() }));
    assert!(!pane_view_uses_file_grid_controls(&PaneView::ProjectManager));
    assert!(!pane_view_uses_file_grid_controls(&PaneView::TagManager));
    assert!(!pane_view_uses_file_grid_controls(&PaneView::ProjectLanding(1)));
    assert!(!pane_view_uses_file_grid_controls(&PaneView::CloudLanding(1)));
}

#[test]
fn tool_scope_uses_folder_backed_view_scope() {
    let dir = "/tmp/folder".to_string();
    let triage = "/tmp/triage".to_string();
    let search = "/tmp/search".to_string();
    let bulk = "/tmp/bulk".to_string();
    let space = "/tmp/space".to_string();
    let convert = "/tmp/convert".to_string();

    assert_eq!(pane_view_scope_dir(&PaneView::Directory(dir.clone())), Some(dir));
    assert_eq!(
        pane_view_scope_dir(&PaneView::Triage { root: triage.clone(), filter: TriageFilter::All }),
        Some(triage)
    );
    assert_eq!(pane_view_scope_dir(&PaneView::Search(SearchQuery::new(search.clone()))), Some(search));
    assert_eq!(pane_view_scope_dir(&PaneView::BulkNaming { root: bulk.clone() }), Some(bulk));
    assert_eq!(pane_view_scope_dir(&PaneView::SpaceViewer { root: space.clone() }), Some(space));
    assert_eq!(pane_view_scope_dir(&PaneView::MediaConvert { from_dir: convert.clone() }), Some(convert));
}

#[test]
fn tool_scope_falls_back_to_last_usable_folder_for_special_views() {
    let places = test_places();
    let current = places.downloads.clone();
    let tag = test_tag();
    let special_views = vec![
        PaneView::Tag(tag),
        PaneView::SystemDrives,
        PaneView::Recent,
        PaneView::Trash,
        PaneView::ActivityLog,
        PaneView::ProjectLanding(1),
        PaneView::CloudLanding(1),
        PaneView::ProjectManager,
        PaneView::TagManager,
    ];

    for view in special_views {
        assert_eq!(resolve_tool_scope_dir(&view, &current, true, &places.home), current);
    }
}

#[test]
fn tool_scope_falls_back_home_when_last_folder_is_unusable() {
    let places = test_places();
    let missing = format!("{}/missing", places.downloads);

    assert_eq!(resolve_tool_scope_dir(&PaneView::Recent, &missing, false, &places.home), places.home);
}

#[test]
fn window_shortcuts_dispatch_standard_commands() {
    let config = default_config();
    let cmd = |p: KeyPress, m: Modifiers| configured_window_command_from_key(&config, p, m);

    assert_eq!(cmd(press('c'), CTRL), Some(WindowCommand::CopySelection));
    assert_eq!(cmd(press('x'), CTRL), Some(WindowCommand::CutSelection));
    assert_eq!(cmd(press('v'), CTRL), Some(WindowCommand::PasteClipboard));
    assert_eq!(cmd(press('c'), CTRL_SHIFT), Some(WindowCommand::CopyPathText));
    assert_eq!(cmd(press('n'), CTRL), Some(WindowCommand::NewFolder));
    assert_eq!(cmd(press('n'), CTRL_SHIFT), Some(WindowCommand::NewTextDocument));
    assert_eq!(cmd(press('b'), CTRL), Some(WindowCommand::ToggleSidebar));
    assert_eq!(cmd(press('h'), CTRL_ALT), Some(WindowCommand::ToggleHoldingTray));
    assert_eq!(cmd(press('a'), CTRL_ALT), Some(WindowCommand::TrayAddSelection));
    assert_eq!(cmd(press('m'), CTRL_ALT), Some(WindowCommand::TrayMoveToProject));
    assert_eq!(cmd(press('c'), CTRL_ALT), Some(WindowCommand::TrayCopyToProject));
    assert_eq!(cmd(press('t'), CTRL_ALT), Some(WindowCommand::TrayTag));
    assert_eq!(cmd(named(PressedKey::Delete), CTRL_ALT), Some(WindowCommand::TrayTrash));
    assert_eq!(cmd(press('p'), CTRL_ALT), Some(WindowCommand::TrayCopyPaths));
    assert_eq!(cmd(press('k'), CTRL_ALT), Some(WindowCommand::TrayClear));
    assert_eq!(cmd(press('t'), CTRL), Some(WindowCommand::NewTab));
    assert_eq!(cmd(press('w'), CTRL), Some(WindowCommand::CloseTab));
    assert_eq!(cmd(press('\\'), CTRL), Some(WindowCommand::ToggleSplit));
    assert_eq!(cmd(named(PressedKey::PageUp), CTRL), Some(WindowCommand::PreviousTab));
    assert_eq!(cmd(named(PressedKey::PageDown), CTRL), Some(WindowCommand::NextTab));
    assert_eq!(cmd(named(PressedKey::F6), NONE), Some(WindowCommand::CyclePane));
    assert_eq!(cmd(named(PressedKey::Delete), NONE), Some(WindowCommand::TrashSelection));
    assert_eq!(cmd(named(PressedKey::Delete), CTRL_SHIFT), Some(WindowCommand::EmptyTrash));
    assert_eq!(cmd(named(PressedKey::F2), NONE), Some(WindowCommand::RenameSelection));
}

#[test]
fn configured_shortcuts_override_builtin_and_dispatch_custom_actions() {
    let mut config = default_config();
    config.set_shortcut("new_folder", "Ctrl+Alt+N");
    config.set_shortcut("custom.open_in_gimp", "Ctrl+Alt+G");

    assert_eq!(configured_window_command_from_key(&config, press('n'), CTRL), None);
    assert_eq!(configured_window_command_from_key(&config, press('n'), CTRL_ALT), Some(WindowCommand::NewFolder));
    assert_eq!(
        configured_window_command_from_key(&config, press('g'), CTRL_ALT),
        Some(WindowCommand::CustomAction("open_in_gimp".to_string()))
    );
}

#[test]
fn configured_shortcuts_dispatch_extended_commands() {
    let mut config = default_config();
    config.set_shortcut("open_convert", "Ctrl+Alt+F");
    config.set_shortcut("open_activity_log", "Ctrl+Alt+J");
    config.set_shortcut("plan_execute", "Ctrl+Alt+Enter");
    config.set_shortcut("toggle_shape_badges", "Ctrl+Alt+B");

    assert_eq!(configured_window_command_from_key(&config, press('f'), CTRL_ALT), Some(WindowCommand::OpenConvert));
    assert_eq!(
        configured_window_command_from_key(&config, press('j'), CTRL_ALT),
        Some(WindowCommand::OpenActivityLog)
    );
    assert_eq!(
        configured_window_command_from_key(&config, named(PressedKey::Return), CTRL_ALT),
        Some(WindowCommand::PlanExecute)
    );
    assert_eq!(
        configured_window_command_from_key(&config, press('b'), CTRL_ALT),
        Some(WindowCommand::ToggleShapeBadges)
    );
}

#[test]
fn configured_shortcuts_can_disable_defaults() {
    let mut config = default_config();
    config.remove_shortcut("new_folder");

    assert_eq!(configured_window_command_from_key(&config, press('n'), CTRL), None);
}

#[test]
fn all_documented_builtin_shortcut_ids_dispatch() {
    for (action_id, _) in builtin_shortcut_actions() {
        assert!(builtin_command(&action_id).is_some(), "documented shortcut action does not dispatch: {action_id}");
    }
}

#[test]
fn resolve_launch_falls_back_for_invalid_path() {
    let places = test_places();
    let invalid = format!("{}/missing-folder", places.home);
    let launch = LaunchConfig { path: Some(invalid), split: None, downloads: false, project: None };
    let usable = vec![places.home.clone(), places.downloads.clone()];

    let resolution = resolve_launch(&launch, &places, &usable, &Vec::new());
    assert_eq!(resolution.primary_dir, places.home);
    assert!(matches!(resolution.primary_view, PaneView::Directory(_)));
    assert!(resolution.notice.unwrap().contains("Opened Home instead."));
}

#[test]
fn resolve_launch_uses_existing_project_case_insensitively() {
    let places = test_places();
    let projects = vec![ProjectRecord { id: 1, name: "Alpha".to_string() }];
    let launch = LaunchConfig { path: None, split: None, downloads: false, project: Some("alpha".to_string()) };

    let resolution = resolve_launch(&launch, &places, &Vec::new(), &projects);
    assert_eq!(resolution.primary_dir, places.home);
    assert!(matches!(resolution.primary_view, PaneView::ProjectLanding(1)));
    assert!(resolution.notice.is_none());
}

#[test]
fn resolve_launch_split_preserves_valid_side_and_falls_back_invalid_side() {
    let places = test_places();
    let valid_left = places.downloads.clone();
    let invalid_right = format!("{}/missing-right", places.home);
    let launch = LaunchConfig {
        path: None,
        split: Some(vec![valid_left.clone(), invalid_right]),
        downloads: false,
        project: None,
    };
    let usable = vec![places.home.clone(), places.downloads.clone()];

    let resolution = resolve_launch(&launch, &places, &usable, &Vec::new());
    assert_eq!(resolution.pane_layout, PaneLayout::Two);
    assert_eq!(resolution.primary_dir, valid_left);
    assert_eq!(resolution.secondary_dir, places.home);
    assert!(resolution.notice.unwrap().contains("Middle split path"));
}

#[test]
fn resolve_launch_three_pane_split_preserves_valid_sides_and_falls_back_invalid_side() {
    let places = test_places();
    let valid_left = places.downloads.clone();
    let valid_middle = format!("{}/documents", places.home);
    let invalid_right = format!("{}/missing-right", places.home);
    let launch = LaunchConfig {
        path: None,
        split: Some(vec![valid_left.clone(), valid_middle.clone(), invalid_right]),
        downloads: false,
        project: None,
    };
    let usable = vec![places.home.clone(), places.downloads.clone(), valid_middle.clone()];

    let resolution = resolve_launch(&launch, &places, &usable, &Vec::new());
    assert_eq!(resolution.pane_layout, PaneLayout::Three);
    assert_eq!(resolution.primary_dir, valid_left);
    assert_eq!(resolution.secondary_dir, valid_middle);
    assert_eq!(resolution.tertiary_dir, places.home);
    assert!(resolution.notice.unwrap().contains("Right split path"));
}

fn content_hash(bytes: &[u8]) -> u64 {
    let mut hash = FNV_OFFSET_BASIS;
    for chunk in bytes.chunks(65_536) {
        hash = fnv1a_continue(hash, chunk);
    }
    hash
}

#[test]
fn duplicate_detection_requires_full_file_match() {
    let root = "/tmp/lattice-tests/duplicates";
    let same_prefix_a = format!("{root}/same-prefix-a.bin");
    let same_prefix_b = format!("{root}/same-prefix-b.bin");
    let duplicate_a = format!("{root}/duplicate-a.bin");
    let duplicate_b = format!("{root}/duplicate-b.bin");

    let mut first = vec![b'a'; 65_536];
    first.extend_from_slice(b"tail-a");
    let mut second = vec![b'a'; 65_536];
    second.extend_from_slice(b"tail-b");
    let files: Vec<(String, Vec<u8>)> = vec![
        (same_prefix_a.clone(), first),
        (same_prefix_b.clone(), second),
        (duplicate_a.clone(), b"identical full contents".to_vec()),
        (duplicate_b.clone(), b"identical full contents".to_vec()),
    ];
    let entries: Vec<SizedEntry> = files
        .iter()
        .map(|(path, bytes)| SizedEntry { path: path.clone(), is_dir: false, size: bytes.len() as u64 })
        .collect();
    let mut hashes: Vec<Option<u64>> = vec![None; entries.len()];
    for i in duplicate_candidates(&entries) {
        hashes[i] = Some(content_hash(&files[i].1));
    }
    let duplicates: Vec<String> =
        duplicates_from_hashes(&entries, &hashes).into_iter().map(|i| entries[i].path.clone()).collect();
    assert!(!duplicates.contains(&same_prefix_a));
    assert!(!duplicates.contains(&same_prefix_b));
    assert!(duplicates.contains(&duplicate_a));
    assert!(duplicates.contains(&duplicate_b));
}
