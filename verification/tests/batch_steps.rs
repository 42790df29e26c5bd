use lattice::actions::{
    copy_move_label, drag_paths, drop_action, droppable_sources, folder_accepts_drop, non_conflicting_transfers, DropAction,
};
use lattice::search::{match_entry_lowered, SearchAgeFilter, SearchEntry, SearchQuery};
use lattice::views::PaneView;
use lattice::batch::{project_transfer_failure, trash_tray_receipt, tray_paths_to_clear, FileBatch, TransferOutcome};
use lattice::format::IoErrorKind;
use lattice::model::FileKind;
use lattice::space::{
    folder_visit, scan_entry_action, scan_goes_on, FolderVisit, ScanAction, ScanDepth, ScanEntry, SpaceTally,
};

fn strings(v: &[&str]) -> Vec<String> {
    v.iter().map(|s| s.to_string()).collect()
}

#[test]
fn moves_record_their_sources_and_copies_do_not() {
    let mut b = FileBatch::new(3);
    b.record_transfer("/a/one", false, &TransferOutcome::Done);
    b.record_transfer("/a/two", true, &TransferOutcome::Done);
    b.record_transfer(
        "/a/three",
        false,
        &TransferOutcome::Failed { message: "Permission denied".to_string(), cancelled: false },
    );
    assert_eq!(b.index, 3);
    assert_eq!(b.successes, strings(&["/a/one"]));
    assert_eq!(b.errors, strings(&["/a/three: Permission denied"]));
}

#[test]
fn cancelled_transfers_leave_no_error_line() {
    let mut b = FileBatch::new(1);
    b.record_transfer("/a/one", false, &TransferOutcome::Failed { message: "Cancelled".to_string(), cancelled: true });
    assert!(b.errors.is_empty());
    assert!(b.successes.is_empty());
    assert_eq!(b.index, 1);
}

#[test]
fn the_tray_is_cleared_only_after_requested_moves() {
    let moved = strings(&["/t/a", "/t/b"]);
    assert_eq!(tray_paths_to_clear(true, false, &moved), moved);
    assert!(tray_paths_to_clear(true, true, &moved).is_empty());
    assert!(tray_paths_to_clear(false, false, &moved).is_empty());
}

#[test]
fn drops_skip_items_already_there_and_folders_into_themselves() {
    let sources = strings(&["/dest/a.txt", "/src/b.txt", "/dest", "/", "/src/c"]);
    assert_eq!(droppable_sources(&sources, "/dest"), strings(&["/src/b.txt", "/src/c"]));
    assert_eq!(droppable_sources(&strings(&["/src/dir"]), "/src/dir/inner"), Vec::<String>::new());
    assert_eq!(droppable_sources(&strings(&["/src/dir"]), "/src/dirty"), strings(&["/src/dir"]));
}

#[test]
fn scan_entries_count_as_the_original_walk_does() {
    assert_eq!(scan_entry_action(ScanEntry::Unreadable, true), ScanAction::CountError);
    assert_eq!(scan_entry_action(ScanEntry::Link { target_file_size: Some(7) }, false), ScanAction::CountFile(7));
    assert_eq!(scan_entry_action(ScanEntry::Link { target_file_size: None }, true), ScanAction::Skip);
    assert_eq!(scan_entry_action(ScanEntry::Folder, true), ScanAction::EnterFolder);
    assert_eq!(scan_entry_action(ScanEntry::Folder, false), ScanAction::Skip);
    assert_eq!(scan_entry_action(ScanEntry::File { size: 3 }, false), ScanAction::CountFile(3));
    assert_eq!(scan_entry_action(ScanEntry::Special { size: 4 }, true), ScanAction::CountFile(4));
    assert_eq!(scan_entry_action(ScanEntry::Special { size: 4 }, false), ScanAction::Skip);
}

#[test]
fn folders_are_visited_by_scan_depth() {
    assert_eq!(folder_visit(ScanDepth::FolderOnly, 0), FolderVisit::ListUnsized);
    assert_eq!(folder_visit(ScanDepth::OneLevelDeep, 0), FolderVisit::SumOneLevel);
    assert_eq!(folder_visit(ScanDepth::FullRecursive, 0), FolderVisit::Recurse { listed: true });
    assert_eq!(folder_visit(ScanDepth::FullRecursive, 2), FolderVisit::Recurse { listed: false });
    assert!(scan_goes_on(ScanDepth::OneLevelDeep, true));
    assert!(!scan_goes_on(ScanDepth::FullRecursive, true));
    assert!(scan_goes_on(ScanDepth::FullRecursive, false));
}

#[test]
fn kind_totals_add_up_to_the_scan_totals() {
    let mut t = SpaceTally::new();
    t.add_file("/r/a.png".to_string(), 100, FileKind::Image);
    t.add_file("/r/b.txt".to_string(), 5, FileKind::Text);
    t.add_file("/r/c.png".to_string(), 50, FileKind::Image);
    t.add_folder();
    let r = t.finish("/r".to_string(), ScanDepth::FolderOnly, false);
    assert_eq!(r.by_category.iter().map(|c| c.bytes).sum::<u64>(), r.total_bytes);
    assert_eq!(r.by_category.iter().map(|c| c.count).sum::<u64>(), r.file_count);
    assert_eq!(r.total_bytes, 155);
    assert_eq!(r.by_category[0].kind, FileKind::Image);
    assert_eq!(r.by_category[0].count, 2);
}

#[test]
fn conflicting_names_wait_for_a_decision() {
    let sources = strings(&["/a/x.txt", "/a/y.txt", "/", "/b/z"]);
    assert_eq!(
        non_conflicting_transfers(&sources, "/dest", &strings(&["y.txt"])),
        vec![
            ("/a/x.txt".to_string(), "/dest/x.txt".to_string()),
            ("/b/z".to_string(), "/dest/z".to_string()),
        ]
    );
}

#[test]
fn copy_move_labels_name_the_destination() {
    assert_eq!(copy_move_label(true, 3, "/home/me/Pictures", ""), "Copy 3 item(s) \u{2192} Pictures");
    assert_eq!(copy_move_label(false, 1, "/", ""), "Move 1 item(s) \u{2192} destination");
    assert_eq!(copy_move_label(false, 1, "/x", "Paste into x"), "Paste into x");
}

#[test]
fn trash_receipts_count_a_cancellation_as_one_failure() {
    let trashed = strings(&["/t/a"]);
    assert_eq!(trash_tray_receipt(false, &trashed, 2, true), (1, 2, trashed.clone()));
    assert_eq!(trash_tray_receipt(true, &trashed, 0, false), (1, 1, Vec::new()));
}

#[test]
fn project_transfer_failures_name_both_ends() {
    assert_eq!(
        project_transfer_failure("/a/x", "/p/x", IoErrorKind::Exists, "exists"),
        "/a/x \u{2192} /p/x: Name Conflict: An item with that name already exists in this location."
    );
    assert_eq!(
        project_transfer_failure("/a/x", "/p/x", IoErrorKind::Other, "disk full"),
        "/a/x \u{2192} /p/x: Operation Failed: disk full"
    );
}

fn listing_item(path: &str, is_dir: bool) -> lattice::model::FileItem {
    lattice::model::FileItem {
        name: path.rsplit('/').next().unwrap_or("").to_string(),
        path: path.to_string(),
        kind: if is_dir { FileKind::Folder } else { FileKind::Text },
        is_dir,
        is_openable: true,
        detail: None,
        size_bytes: None,
        modified_unix: None,
        tags: Vec::new(),
        mark_tint_id: 0,
        mark_tint_color: None,
        mark_shape: lattice::model::Shape::Circle,
        original_path: None,
    }
}

#[test]
fn a_drag_carries_the_selection_or_the_item() {
    let items = vec![listing_item("/d/a", false), listing_item("/d/b", false), listing_item("/d/c", true)];
    assert_eq!(drag_paths(&items, &vec![2, 0], 0), strings(&["/d/c", "/d/a"]));
    assert_eq!(drag_paths(&items, &vec![2, 0], 1), strings(&["/d/b"]));
    assert_eq!(drag_paths(&items, &vec![1, 7, -1], 1), strings(&["/d/b"]));
    assert_eq!(drag_paths(&items, &Vec::new(), 5), Vec::<String>::new());
}

#[test]
fn folders_take_drops_outside_virtual_views_and_ctrl_copies() {
    assert!(folder_accepts_drop(true, &PaneView::Directory("/d".to_string())));
    assert!(!folder_accepts_drop(false, &PaneView::Directory("/d".to_string())));
    assert!(!folder_accepts_drop(true, &PaneView::Trash));
    assert!(!folder_accepts_drop(true, &PaneView::Recent));
    assert!(!folder_accepts_drop(true, &PaneView::SystemDrives));
    assert_eq!(drop_action(true), DropAction::Copy);
    assert_eq!(drop_action(false), DropAction::Move);
}

#[test]
fn search_matches_on_a_given_lowered_name() {
    let e = SearchEntry {
        path: "/d/Ärger.TXT".to_string(),
        fname: "Ärger.TXT".to_string(),
        is_dir: false,
        size: 10,
        modified_secs: i64::MIN,
    };
    let q = SearchQuery::new("/d".to_string());
    assert!(match_entry_lowered(&e, "ärger.txt", FileKind::Text, &q, "ärg", i64::MAX).is_some());
    assert!(match_entry_lowered(&e, "ärger.txt", FileKind::Text, &q, "xyz", i64::MAX).is_none());
    let mut old = q.clone();
    old.age = SearchAgeFilter::Older;
    let aged = SearchEntry { modified_secs: 0, ..e.clone() };
    assert!(match_entry_lowered(&aged, "ärger.txt", FileKind::Text, &old, "", 30 * 86_400).is_some());
    assert!(match_entry_lowered(&aged, "ärger.txt", FileKind::Text, &old, "", 30 * 86_400 - 1).is_none());
}
