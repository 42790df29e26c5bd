use lattice::completion::{rank_path_completions, PathCompletionMode, MAX_PATH_COMPLETIONS};
use lattice::model::{FileItem, FileKind, Shape};
use lattice::naming::{
    duplicate_dest_name, next_available_path, next_copy_path, next_new_folder_path, next_new_text_document_path,
};
use lattice::parents::{common_parent, common_parent_for_items};
use lattice::views::{format_path, tab_title_for_path};

fn strings(v: &[&str]) -> Vec<String> {
    v.iter().map(|s| s.to_string()).collect()
}

fn item(path: &str) -> FileItem {
    FileItem {
        name: path.rsplit('/').next().unwrap_or("").to_string(),
        path: path.to_string(),
        kind: FileKind::Text,
        is_dir: false,
        is_openable: true,
        detail: None,
        size_bytes: None,
        modified_unix: None,
        tags: Vec::new(),
        mark_tint_id: 0,
        mark_tint_color: None,
        mark_shape: Shape::Circle,
        original_path: None,
    }
}

#[test]
fn new_folder_takes_first_free_number() {
    assert_eq!(next_new_folder_path("/tmp/x", &Vec::new()), "/tmp/x/New Folder");
    assert_eq!(
        next_new_folder_path("/tmp/x", &strings(&["New Folder", "New Folder 2"])),
        "/tmp/x/New Folder 3"
    );
    assert_eq!(next_new_folder_path("/tmp/x", &strings(&["New Folder 2"])), "/tmp/x/New Folder");
    assert_eq!(next_new_folder_path("/tmp/x/", &strings(&["New Folder"])), "/tmp/x/New Folder 2");
}

#[test]
fn new_text_document_numbers_from_two() {
    assert_eq!(next_new_text_document_path("/d", &strings(&["Untitled"])), "/d/Untitled 2");
    let many: Vec<String> = (1..=12).map(|n| if n == 1 { "Untitled".to_string() } else { format!("Untitled {n}") }).collect();
    assert_eq!(next_new_text_document_path("/d", &many), "/d/Untitled 13");
}

#[test]
fn copy_path_keeps_extension_after_counter() {
    assert_eq!(next_copy_path("/home/a/notes.txt", &Vec::new()), "/home/a/notes copy.txt");
    assert_eq!(next_copy_path("/home/a/notes.txt", &strings(&["notes copy.txt"])), "/home/a/notes copy 2.txt");
    assert_eq!(next_copy_path("/home/a/README", &Vec::new()), "/home/a/README copy");
    assert_eq!(next_copy_path("/home/a/.bashrc", &Vec::new()), "/home/a/.bashrc copy");
}

#[test]
fn duplicate_names_follow_stem_copy_extension() {
    assert_eq!(duplicate_dest_name("/src/photo.jpg", "/dst", &Vec::new()), "/dst/photo copy.jpg");
    assert_eq!(
        duplicate_dest_name("/src/photo.jpg", "/dst", &strings(&["photo copy.jpg", "photo copy 2.jpg"])),
        "/dst/photo copy 3.jpg"
    );
    assert_eq!(duplicate_dest_name("/src/file.", "/dst", &Vec::new()), "/dst/file copy.");
    assert_eq!(duplicate_dest_name("/src/archive.tar.gz", "/dst", &Vec::new()), "/dst/archive.tar copy.gz");
}

#[test]
fn available_path_numbers_in_parentheses() {
    assert_eq!(next_available_path("/out/Archive.zip", false, &Vec::new()), "/out/Archive.zip");
    assert_eq!(
        next_available_path("/out/Archive.zip", true, &strings(&["Archive.zip", "Archive (2).zip"])),
        "/out/Archive (3).zip"
    );
    assert_eq!(next_available_path("/out/folder", true, &strings(&["folder"])), "/out/folder (2)");
}

#[test]
fn completions_are_shown_deduplicated_sorted_and_capped() {
    let raw = strings(&["/home/t/Zeta", "/home/t/alpha", "/home/t/Beta", "/home/t/alpha", "/elsewhere/x"]);
    let ranked = rank_path_completions(&raw, "~/", PathCompletionMode::Home, "/home/t/Downloads", "/home/t");
    assert_eq!(ranked, strings(&["~/alpha", "~/Beta", "~/Zeta"]));

    let typed = strings(&["/home/t/Doc", "/home/t/Documents"]);
    let ranked = rank_path_completions(&typed, "~/Doc", PathCompletionMode::Home, "/x", "/home/t");
    assert_eq!(ranked, strings(&["~/Documents"]));

    let many: Vec<String> = (0..30).map(|i| format!("/d/f{:02}", 29 - i)).collect();
    let ranked = rank_path_completions(&many, "f", PathCompletionMode::Relative, "/d", "/home");
    assert_eq!(ranked.len(), MAX_PATH_COMPLETIONS);
    assert_eq!(ranked[0], "f00");
    assert_eq!(ranked[23], "f23");
}

#[test]
fn completion_sort_is_stable_for_case_variants() {
    let raw = strings(&["/a/README", "/a/Readme", "/a/readme"]);
    let ranked = rank_path_completions(&raw, "", PathCompletionMode::Absolute, "/", "/home");
    assert_eq!(ranked, strings(&["/a/README", "/a/Readme", "/a/readme"]));
}

#[test]
fn common_parent_needs_the_same_parent() {
    assert_eq!(common_parent(&Vec::new()), None);
    assert_eq!(common_parent(&strings(&["/"])), None);
    assert_eq!(common_parent(&strings(&["/tmp/a", "/tmp//b"])), Some("/tmp".to_string()));
}

#[test]
fn common_parent_for_items_widens_to_shared_folder() {
    let items = vec![item("/home/u/docs/a.txt"), item("/home/u/pics/b.png"), item("/home/u/docs/deep/c.txt")];
    assert_eq!(common_parent_for_items(&items), Some("/home/u".to_string()));
    let items = vec![item("/home/u/a.txt"), item("relative.txt")];
    assert_eq!(common_parent_for_items(&items), None);
    assert_eq!(common_parent_for_items(&Vec::new()), None);
    let items = vec![item("/a/b/c.txt"), item("/x/y.txt")];
    assert_eq!(common_parent_for_items(&items), Some("/".to_string()));
}

#[test]
fn paths_are_shown_relative_to_home() {
    assert_eq!(format_path("/home/u", "/home/u"), "~");
    assert_eq!(format_path("/home/u/Music", "/home/u"), "~/Music");
    assert_eq!(format_path("/var/log", "/home/u"), "/var/log");
    assert_eq!(tab_title_for_path("/"), "/");
    assert_eq!(tab_title_for_path("/home/u/Music"), "Music");
}
