use lattice::actions::{drag_preview_title, expand_custom_action_argv, plan_copy_move_items};
use lattice::batch::{
    bulk_rename_label, bulk_rename_status, bulk_rename_summary, cloud_trash_message, failure_line, has_mount_error,
    rename_check, rename_target, transfer_summary, trash_op_label, trash_summary, BatchStep, FileBatch, RenameCheck,
};
use lattice::keys::CustomActionConfig;
use lattice::labels::{
    card_display_name, card_type_icon, created_name, file_count_label, join_limited, kind_icon, note_title_value,
    op_finish_view, queue_count_label, renamed_name, reorder_enabled, status_counts, OpKind, PaletteItemRecord,
};
use lattice::media::{
    best_preset_idx_for, convert_enabled, convert_summary, dest_column, dest_preview_name, dominant_kind, kind_badge,
    more_files_label, source_name, tool_warning, ConvertItem, MediaKind, OutputLocationMode, PresetInfo,
};
use lattice::model::{FileKind, Shape, TagRecord};
use lattice::picker::{
    confirm_label_str, fire_confirm, initial_confirm_sensitive, picker_listing, picker_title_str,
    update_confirm_sensitivity, PickerConfig, PickerEntry, PickerMode, PickerNav, PickerResult,
};
use lattice::preview::{
    identity_label, items_loaded_label, multi_selection_note, preview_tag_chips, watercolor_rows, WatercolorContext,
    WatercolorObject,
};
use lattice::sidebar::{sidebar_target, PlaceRecord, SidebarTarget};
use lattice::views::{PaneView, WatercolorView};

fn strings(v: &[&str]) -> Vec<String> {
    v.iter().map(|s| s.to_string()).collect()
}

fn convert_item(path: &str, kind: MediaKind) -> ConvertItem {
    ConvertItem { path: path.to_string(), kind }
}

fn picker_entry(name: &str, is_dir: bool) -> PickerEntry {
    PickerEntry {
        name: name.to_string(),
        path: format!("/p/{name}"),
        kind: if is_dir { FileKind::Folder } else { FileKind::Text },
        is_dir,
        size_bytes: if is_dir { None } else { Some(1) },
    }
}

fn tag(id: i64, name: &str) -> TagRecord {
    TagRecord { id, name: name.to_string(), color: None, associated_tint_id: None, associated_shape: None }
}

#[test]
fn media_panel_names_and_counts() {
    assert_eq!(kind_badge(MediaKind::Video), "\u{1f3ac}");
    assert_eq!(dest_preview_name("/m/song.flac", "mp3", &OutputLocationMode::NextToSource), "song.mp3");
    assert_eq!(
        dest_preview_name("/m/song.flac", "mp3", &OutputLocationMode::Subfolder("converted".to_string())),
        "converted/song.mp3"
    );
    assert_eq!(
        dest_preview_name("/m/clip", "mp4", &OutputLocationMode::ChosenFolder("/out".to_string())),
        "/out/clip.mp4"
    );
    let items = vec![
        convert_item("/a.png", MediaKind::Image),
        convert_item("/b.mp3", MediaKind::Audio),
        convert_item("/c.mp3", MediaKind::Audio),
        convert_item("/d.mkv", MediaKind::Video),
    ];
    assert_eq!(dominant_kind(&items), Some(MediaKind::Audio));
    assert_eq!(dominant_kind(&items[..1]), Some(MediaKind::Image));
    assert_eq!(dominant_kind(&[convert_item("/x", MediaKind::Unknown)]), None);
    let tie = vec![convert_item("/b.mp3", MediaKind::Audio), convert_item("/d.mkv", MediaKind::Video)];
    assert_eq!(dominant_kind(&tie), Some(MediaKind::Audio));

    let presets = vec![
        PresetInfo { kind: MediaKind::Image, ext: "webp".to_string() },
        PresetInfo { kind: MediaKind::Video, ext: "mp4".to_string() },
        PresetInfo { kind: MediaKind::Audio, ext: "mp3".to_string() },
        PresetInfo { kind: MediaKind::Audio, ext: "ogg".to_string() },
    ];
    assert_eq!(best_preset_idx_for(Some(MediaKind::Audio), &presets), 2);
    assert_eq!(best_preset_idx_for(Some(MediaKind::Unknown), &presets), 0);
    assert_eq!(best_preset_idx_for(None, &presets), 0);

    assert_eq!(convert_summary(0, 0), "No files selected.");
    assert_eq!(convert_summary(1, 0), "None of the 1 selected file match this preset \u{2014} choose a different preset.");
    assert_eq!(
        convert_summary(5, 3),
        "3 files will convert; 2 skipped (wrong type for this preset). Originals are never modified."
    );
    assert_eq!(convert_summary(1, 1), "1 file ready to convert. Originals are never modified.");
    assert_eq!(more_files_label(200), None);
    assert_eq!(more_files_label(201).as_deref(), Some("\u{2026}and 1 more file not shown"));
    assert_eq!(more_files_label(250).as_deref(), Some("\u{2026}and 50 more files not shown"));
    let audio = &presets[2];
    assert_eq!(dest_column(&items[1], Some(audio), &OutputLocationMode::NextToSource), "b.mp3");
    assert_eq!(dest_column(&items[0], Some(audio), &OutputLocationMode::NextToSource), "(skipped)");
    assert_eq!(dest_column(&items[0], None, &OutputLocationMode::NextToSource), "\u{2014}");
    assert_eq!(source_name(&items[3]), "d.mkv");
    assert_eq!(tool_warning("ffmpeg", "Install it."), "ffmpeg not found \u{2014} conversion unavailable.\nInstall it.");
    assert!(convert_enabled(2, true) && !convert_enabled(0, true) && !convert_enabled(2, false));
}

#[test]
fn small_panel_texts() {
    assert_eq!(status_counts(12, 1), "12 item(s) \u{b7} 1 selected");
    assert_eq!(join_limited(&strings(&["a", "", "b", "c", "d"]), 3), "a, b, c, +1");
    assert_eq!(join_limited(&strings(&["a", "b"]), 3), "a, b");
    assert_eq!(join_limited(&Vec::new(), 3), "");
    assert_eq!(queue_count_label(0), "No actions queued");
    assert_eq!(queue_count_label(1), "1 action queued");
    assert_eq!(queue_count_label(4), "4 actions queued");
    assert_eq!(reorder_enabled(0, 3), (false, true));
    assert_eq!(reorder_enabled(2, 3), (true, false));
    assert_eq!(kind_icon(&OpKind::Move), "\u{2197}");
    assert_eq!(kind_icon(&OpKind::SendToProject { project_id: 3 }), "\u{1f5c2}");
    let ok = op_finish_view(&Vec::new());
    assert_eq!(ok.button_label, "Done");
    assert!(ok.auto_dismiss && ok.detail.is_none());
    let failed = op_finish_view(&strings(&["a: denied", "b: gone"]));
    assert_eq!(failed.button_label, "Dismiss");
    assert_eq!(failed.detail.as_deref(), Some("a: denied\nb: gone"));
    assert_eq!(created_name("  Focus \n"), Some("Focus".to_string()));
    assert_eq!(created_name("   "), None);
    assert_eq!(renamed_name(" Work ", "Work"), None);
    assert_eq!(renamed_name(" Play ", "Work"), Some("Play".to_string()));
    assert_eq!(file_count_label(1), "1 file");
    assert_eq!(file_count_label(0), "0 files");
}

#[test]
fn palette_cards_are_named_by_title_path_or_type() {
    let card = |title: Option<&str>, path: Option<&str>, ty: &str| PaletteItemRecord {
        id: 1,
        item_type: ty.to_string(),
        title: title.map(|t| t.to_string()),
        path: path.map(|p| p.to_string()),
        body: None,
        tint_id: None,
    };
    assert_eq!(card_display_name(&card(Some("Plan"), Some("/a/b.txt"), "file")), "Plan");
    assert_eq!(card_display_name(&card(Some("  "), Some("/a/b.txt"), "file")), "b.txt");
    assert_eq!(card_display_name(&card(None, Some("/"), "folder")), "/");
    assert_eq!(card_display_name(&card(None, None, "note")), "Untitled Note");
    assert_eq!(card_display_name(&card(None, None, "folder")), "Folder");
    assert_eq!(card_display_name(&card(None, None, "link")), "File");
    assert_eq!(card_type_icon("note"), "\u{1f4dd}");
    assert_eq!(card_type_icon("image"), "\u{1f4c4}");
    assert_eq!(note_title_value(" \t"), None);
    assert_eq!(note_title_value(" Idea"), Some(" Idea".to_string()));
}

#[test]
fn picker_lists_folders_first_by_name() {
    let entries = vec![
        picker_entry("zeta.txt", false),
        picker_entry("Beta", true),
        picker_entry(".hidden", true),
        picker_entry("alpha.txt", false),
        picker_entry("apple", true),
    ];
    let listed = picker_listing(entries.clone(), false);
    let names: Vec<&str> = listed.iter().map(|e| e.name.as_str()).collect();
    assert_eq!(names, vec!["apple", "Beta", "alpha.txt", "zeta.txt"]);
    let all = picker_listing(entries, true);
    let names: Vec<&str> = all.iter().map(|e| e.name.as_str()).collect();
    assert_eq!(names, vec![".hidden", "apple", "Beta", "alpha.txt", "zeta.txt"]);
}

#[test]
fn picker_confirm_depends_on_mode_and_selection() {
    let items = vec![picker_entry("docs", true), picker_entry("a.txt", false), picker_entry("b.txt", false)];
    let folder = PickerMode::OpenFolder;
    let file = PickerMode::OpenFile;
    let files = PickerMode::OpenFiles;
    let save = PickerConfig::save_file("/p".to_string(), "out.txt").mode;

    assert!(initial_confirm_sensitive(&folder));
    assert!(!initial_confirm_sensitive(&file));
    assert!(initial_confirm_sensitive(&save));
    assert_eq!(picker_title_str(&files), "Open Files");
    assert_eq!(confirm_label_str(&folder), "Select Folder");

    assert!(!update_confirm_sensitivity(&file, &vec![0], &items, ""));
    assert!(update_confirm_sensitivity(&file, &vec![0, 2], &items, ""));
    assert!(!update_confirm_sensitivity(&save, &vec![], &items, "   "));

    match fire_confirm(&folder, "/p", &vec![], &items, "") {
        Some(PickerResult::Single(p)) => assert_eq!(p, "/p"),
        _ => panic!("expected the current folder"),
    }
    match fire_confirm(&folder, "/p", &vec![1, 0], &items, "") {
        Some(PickerResult::Single(p)) => assert_eq!(p, "/p/docs"),
        _ => panic!("expected the selected folder"),
    }
    assert!(fire_confirm(&file, "/p", &vec![0, 7], &items, "").is_none());
    match fire_confirm(&files, "/p", &vec![2, 0, 1], &items, "") {
        Some(PickerResult::Multiple(ps)) => assert_eq!(ps, strings(&["/p/b.txt", "/p/a.txt"])),
        _ => panic!("expected the selected files"),
    }
    match fire_confirm(&save, "/p", &vec![], &items, "  new.txt ") {
        Some(PickerResult::Single(p)) => assert_eq!(p, "/p/new.txt"),
        _ => panic!("expected the save path"),
    }
    assert!(fire_confirm(&save, "/p", &vec![], &items, " ").is_none());
}

#[test]
fn picker_history_goes_back_and_forward() {
    let mut nav = PickerNav::new("/home".to_string());
    assert!(!nav.navigate("/home/".to_string()));
    assert!(nav.navigate("/tmp".to_string()));
    assert!(nav.navigate("/var".to_string()));
    assert!(nav.go_back());
    assert_eq!(nav.current_dir, "/tmp");
    assert!(nav.go_back());
    assert_eq!(nav.current_dir, "/home");
    assert!(!nav.go_back());
    assert!(nav.go_forward());
    assert_eq!(nav.current_dir, "/tmp");
    assert!(nav.navigate("/opt".to_string()));
    assert!(!nav.go_forward());
    assert_eq!(nav.back_stack, strings(&["/home", "/tmp"]));
    assert!(nav.can_go_up());
    assert!(!PickerNav::new("/".to_string()).can_go_up());
}

#[test]
fn batches_step_through_items() {
    let mut batch = FileBatch::new(2);
    assert_eq!(batch.next_step(false), BatchStep::Process(0));
    assert_eq!(batch.next_step(true), BatchStep::Cancelled);
    batch.record(Some("/a".to_string()), None);
    assert_eq!(batch.next_step(false), BatchStep::Process(1));
    batch.record(None, failure_line("/b", "denied", false));
    assert_eq!(batch.next_step(true), BatchStep::Finished);
    assert_eq!(batch.successes, strings(&["/a"]));
    assert_eq!(batch.errors, strings(&["/b: denied"]));
    assert_eq!(failure_line("/c", "x", true), None);
}

#[test]
fn batch_texts() {
    assert_eq!(transfer_summary(None, true, 3, "/home/u/Pictures/a.png"), "Copied 3 files to Pictures");
    assert_eq!(transfer_summary(Some("duplicate"), true, 1, "/x/y/z"), "Duplicated 1 file to y");
    assert_eq!(transfer_summary(None, false, 2, "/a"), "Moved 2 files to destination");
    assert_eq!(trash_op_label(&strings(&["/a/b.txt"])), "Trash: b.txt");
    assert_eq!(trash_op_label(&strings(&["/"])), "Trash: item");
    assert_eq!(trash_op_label(&strings(&["/a", "/b"])), "Trash: 2 items");
    assert_eq!(trash_summary(&strings(&["/a/b.txt"])), "Trashed \"b.txt\"");
    assert_eq!(trash_summary(&strings(&["/a", "/b", "/c"])), "Trashed 3 files");
    assert!(has_mount_error(&strings(&["x", "/a: Operation not supported"])));
    assert!(!has_mount_error(&strings(&["/a: Permission denied"])));
    assert!(cloud_trash_message("Drive").starts_with("'Drive' does not support Trash.\n\n"));
    assert_eq!(rename_target("/a/b.txt", "c.txt"), "/a/c.txt");
    assert_eq!(rename_target("/", "x"), "x");
    assert!(matches!(rename_check("/a/b.txt", ""), RenameCheck::Invalid));
    assert!(matches!(rename_check("/a/b.txt", "b.txt"), RenameCheck::Unchanged));
    match rename_check("/a/b.txt", "c.txt") {
        RenameCheck::Proceed(p) => assert_eq!(p, "/a/c.txt"),
        _ => panic!("expected a rename"),
    }
    assert_eq!(bulk_rename_label(1), "Renaming 1 file\u{2026}");
    assert_eq!(bulk_rename_summary(3), "Renamed 3 files");
    assert_eq!(bulk_rename_status(0), None);
    assert_eq!(bulk_rename_status(2).as_deref(), Some("Renamed 2 files."));
}

#[test]
fn custom_actions_expand_placeholders() {
    let action = CustomActionConfig {
        id: "open_in_gimp".to_string(),
        label: "GIMP".to_string(),
        argv: strings(&["gimp", "{paths}", "--dir={cwd}", "{path}", "{cwd}", "--first={path}"]),
        shortcut: None,
    };
    let paths = strings(&["/a/x.png", "/a/y.png"]);
    assert_eq!(
        expand_custom_action_argv(&action, &paths, "/a").unwrap(),
        strings(&["gimp", "/a/x.png", "/a/y.png", "--dir=/a", "/a/x.png", "/a", "--first=/a/x.png"])
    );
    assert_eq!(
        expand_custom_action_argv(&action, &Vec::new(), "/w").unwrap(),
        strings(&["gimp", "--dir=/w", "/w", "--first={path}"])
    );
    let empty = CustomActionConfig { id: "e".to_string(), label: "E".to_string(), argv: strings(&["{paths}"]), shortcut: None };
    assert_eq!(expand_custom_action_argv(&empty, &Vec::new(), "/w"), None);
}

#[test]
fn copy_plans_and_drag_titles() {
    assert_eq!(
        plan_copy_move_items(&strings(&["/a/x.txt", "/", "/b/y"]), "/dest", &Vec::new()),
        vec![
            ("/a/x.txt".to_string(), "/dest/x.txt".to_string()),
            ("/b/y".to_string(), "/dest/y".to_string()),
        ]
    );
    assert_eq!(
        plan_copy_move_items(
            &strings(&["/a/x.txt", "/b/x.txt", "/c/notes", "/d/archive.tar.gz"]),
            "/dest",
            &strings(&["x.txt", "x (2).txt", "notes", "archive.tar.gz"]),
        ),
        vec![
            ("/a/x.txt".to_string(), "/dest/x (3).txt".to_string()),
            ("/b/x.txt".to_string(), "/dest/x (4).txt".to_string()),
            ("/c/notes".to_string(), "/dest/notes (2)".to_string()),
            ("/d/archive.tar.gz".to_string(), "/dest/archive.tar (2).gz".to_string()),
        ]
    );
    assert_eq!(drag_preview_title("x.txt", 1), "x.txt");
    assert_eq!(drag_preview_title("x.txt", 4), "4 items");
}

#[test]
fn sidebar_highlights_the_view_section() {
    let places = vec![
        PlaceRecord { id: 4, name: "Work".to_string(), folder_path: "/home/u/work".to_string() },
        PlaceRecord { id: 5, name: "Home".to_string(), folder_path: "/home/u".to_string() },
    ];
    let drives = vec![None, Some("/media/usb".to_string())];
    let dir = PaneView::Directory(String::new());
    assert!(matches!(
        sidebar_target(&dir, "/home/u/work/x", &places, &drives, "/home/u"),
        Some(SidebarTarget::Place(4))
    ));
    assert!(matches!(sidebar_target(&dir, "/home/u/music", &places, &drives, "/home/u"), Some(SidebarTarget::Place(5))));
    match sidebar_target(&dir, "/media/usb/photos", &places, &drives, "/home/u") {
        Some(SidebarTarget::Drive(p)) => assert_eq!(p, "/media/usb"),
        _ => panic!("expected the drive"),
    }
    assert!(matches!(sidebar_target(&dir, "/srv", &places, &drives, "/"), Some(SidebarTarget::Home)));
    assert!(sidebar_target(&dir, "/srv", &places, &drives, "/home/u").is_none());
    assert!(matches!(sidebar_target(&PaneView::TagManager, "/", &places, &drives, "/"), Some(SidebarTarget::Tags)));
    assert!(matches!(
        sidebar_target(&PaneView::Watercolor(WatercolorView::BrokenRefs), "/", &places, &drives, "/"),
        Some(SidebarTarget::WatercolorBrokenRefs)
    ));
}

#[test]
fn preview_texts() {
    assert_eq!(identity_label("Rose", Shape::Hexagon), "Rose Hexagon");
    let tags = vec![tag(1, "a"), tag(2, "b"), tag(3, "c"), tag(4, "d"), tag(5, "e")];
    assert_eq!(preview_tag_chips(&tags), strings(&["#a", "#b", "#c", "+2"]));
    assert_eq!(preview_tag_chips(&tags[..2].to_vec()), strings(&["#a", "#b"]));
    assert_eq!(items_loaded_label(3), "3 item(s) loaded.");
    assert_eq!(multi_selection_note(2), "2 items selected. Select one item to inspect its preview.");

    let empty = WatercolorContext {
        workspace_names: Vec::new(),
        palette_names: Vec::new(),
        objects: Vec::new(),
        ref_count: 0,
        broken: true,
        health: None,
    };
    let rows = watercolor_rows(&empty);
    assert!(rows.workspaces.is_none() && rows.health.is_none());
    let ctx = WatercolorContext {
        workspace_names: strings(&["w1", "w2", "w3", "w4"]),
        palette_names: Vec::new(),
        objects: vec![
            WatercolorObject { title: "Spec".to_string(), object_type: "doc".to_string() },
            WatercolorObject { title: "Misc".to_string(), object_type: String::new() },
        ],
        ref_count: 1,
        broken: false,
        health: Some("broken".to_string()),
    };
    let rows = watercolor_rows(&ctx);
    assert_eq!(rows.workspaces.as_deref(), Some("w1, w2, w3, +1"));
    assert_eq!(rows.palettes, None);
    assert_eq!(rows.objects.as_deref(), Some("Spec (doc), Misc (object)"));
    assert!(rows.health.unwrap().starts_with("Broken reference:"));
}
