use lattice::batch::{copy_step, CopyStep, MAX_BULK_NAMING_RECURSION_DEPTH};

#[test]
fn cancelled_copy_stops_first() {
    assert_eq!(copy_step(true, true, true, false, true), CopyStep::Cancelled);
    assert_eq!(copy_step(true, false, false, false, false), CopyStep::Cancelled);
}

#[test]
fn files_are_copied_with_the_overwrite_choice() {
    assert_eq!(copy_step(false, false, true, true, true), CopyStep::CopyFile { overwrite: true });
    assert_eq!(copy_step(false, false, false, false, false), CopyStep::CopyFile { overwrite: false });
}

#[test]
fn a_folder_never_replaces_a_file() {
    assert_eq!(
        copy_step(false, true, true, false, true),
        CopyStep::Conflict("Cannot safely replace a file with a folder.".to_string())
    );
    assert_eq!(copy_step(false, true, true, false, false), CopyStep::Conflict("Destination already exists.".to_string()));
}

#[test]
fn folders_are_created_or_merged() {
    assert_eq!(copy_step(false, true, false, false, false), CopyStep::CreateFolder);
    assert_eq!(copy_step(false, true, true, true, false), CopyStep::MergeIntoFolder);
    assert_eq!(copy_step(false, true, true, true, true), CopyStep::MergeIntoFolder);
}

#[test]
fn bulk_naming_descends_a_bounded_depth() {
    assert_eq!(MAX_BULK_NAMING_RECURSION_DEPTH, 32);
}
