use lattice::drives::{
    build_mounted_volume_listing, collect_recent_folder_items, collect_removable_drives, drive_listing_status_message,
    fallback_mount_bases, DriveInfo, DriveSource, FallbackBase, FallbackEntry, FallbackScan, MountInfo,
    MountedVolumeListing, RemovableMount, RemovableVolume, VolumeInfo,
};
use lattice::model::FileKind;
use lattice::space::{
    category_detail, category_percent, scan_summary_labels, scan_warning, ScanDepth, SpaceTally, SpaceView,
};

fn entry(name: &str, display: &str, hidden: bool, dir: bool) -> FallbackEntry {
    FallbackEntry { name: name.to_string(), display_name: display.to_string(), is_hidden: hidden, is_dir: dir }
}

#[test]
fn drives_view_lists_mounts_volumes_drives_and_locations() {
    let mounts = vec![
        MountInfo { name: "USB".to_string(), path: Some("/media/u/USB".to_string()) },
        MountInfo { name: "Phone".to_string(), path: None },
        MountInfo { name: "USB again".to_string(), path: Some("/media/u//USB/".to_string()) },
    ];
    let volumes = vec![
        VolumeInfo { name: "USB vol".to_string(), mount_name: Some("USB".to_string()) },
        VolumeInfo { name: "Backup".to_string(), mount_name: None },
        VolumeInfo { name: "Backup".to_string(), mount_name: None },
    ];
    let drives = vec![
        DriveInfo { name: "Card Reader".to_string(), has_volumes: false, has_media: false },
        DriveInfo { name: "Backup".to_string(), has_volumes: false, has_media: true },
        DriveInfo { name: "Disk".to_string(), has_volumes: true, has_media: true },
    ];
    let bases = vec![
        FallbackBase { base: "/run/media/u".to_string(), scan: FallbackScan::Missing },
        FallbackBase { base: "/media".to_string(), scan: FallbackScan::Unreadable },
        FallbackBase {
            base: "/mnt".to_string(),
            scan: FallbackScan::Listed(
                vec![
                    entry("data", "Data", false, true),
                    entry(".hidden", ".hidden", true, true),
                    entry("file.txt", "file.txt", false, false),
                ],
                true,
            ),
        },
        FallbackBase {
            base: "/media/u".to_string(),
            scan: FallbackScan::Listed(vec![entry("USB", "USB twice", false, true)], false),
        },
    ];

    let listing = build_mounted_volume_listing(&mounts, &volumes, &drives, &bases);
    let names: Vec<&str> = listing.items.iter().map(|i| i.name.as_str()).collect();
    assert_eq!(names, vec!["Data", "USB", "Backup", "Card Reader"]);
    assert_eq!(listing.items[0].path, "/mnt/data");
    assert_eq!(listing.items[0].detail.as_deref(), Some("Mounted Locations: /mnt/data"));
    assert_eq!(listing.items[1].detail.as_deref(), Some("Mounted: /media/u/USB"));
    assert_eq!(listing.items[2].detail.as_deref(), Some("Unmounted volume (mounting not implemented)"));
    assert_eq!(listing.items[3].detail.as_deref(), Some("Drive detected (no media mounted)"));
    assert!(!listing.items[3].is_openable);
    assert_eq!(listing.items[3].kind, FileKind::Folder);
    assert_eq!(listing.gio_mounts, 1);
    assert_eq!(listing.unmounted_volumes, 1);
    assert_eq!(listing.detected_drives, 1);
    assert_eq!(listing.fallback_mounts, 1);
    assert_eq!(listing.skipped_inaccessible, 2);
    assert_eq!(listing.skipped_non_local, 1);

    assert_eq!(
        drive_listing_status_message(&listing).unwrap(),
        "1 GIO mount(s); 1 unmounted volume(s); mounting is not implemented; 1 fallback mounted location(s); \
         1 drive(s) detected without mounted volumes; 1 non-local mount(s) skipped; \
         2 mounted-location folder(s) inaccessible"
    );
}

#[test]
fn empty_drive_listing_has_no_status() {
    let listing = MountedVolumeListing {
        items: Vec::new(),
        gio_mounts: 0,
        unmounted_volumes: 0,
        detected_drives: 0,
        fallback_mounts: 0,
        skipped_inaccessible: 0,
        skipped_non_local: 0,
    };
    assert_eq!(drive_listing_status_message(&listing), None);
    assert_eq!(
        fallback_mount_bases("ana"),
        vec!["/run/media/ana".to_string(), "/media".to_string(), "/mnt".to_string()]
    );
}

#[test]
fn removable_drives_list_mounts_then_new_volumes() {
    let mounts = vec![
        RemovableMount { name: "Stick".to_string(), path: Some("/media/Stick".to_string()), removable: true },
        RemovableMount { name: "Root".to_string(), path: Some("/".to_string()), removable: false },
        RemovableMount { name: "Net".to_string(), path: None, removable: true },
    ];
    let volumes = vec![
        RemovableVolume { name: "Stick".to_string(), mounted: false, removable: true },
        RemovableVolume { name: "Card".to_string(), mounted: false, removable: true },
        RemovableVolume { name: "Card".to_string(), mounted: false, removable: true },
        RemovableVolume { name: "Internal".to_string(), mounted: false, removable: false },
    ];
    let drives = collect_removable_drives(&mounts, &volumes);
    assert_eq!(drives.len(), 2);
    assert_eq!(drives[0].entry.name, "Stick");
    assert_eq!(drives[0].entry.path.as_deref(), Some("/media/Stick"));
    assert!(drives[0].entry.is_mounted);
    assert_eq!(drives[0].source, DriveSource::Mount(0));
    assert_eq!(drives[1].entry.name, "Card");
    assert_eq!(drives[1].entry.path, None);
    assert_eq!(drives[1].source, DriveSource::Volume(1));
}

#[test]
fn recent_folders_drop_missing_ones() {
    let recent = vec!["/home/u/Music".to_string(), "/gone".to_string(), "/".to_string()];
    let (listing, stale) = collect_recent_folder_items(&recent, &vec![true, false, true]);
    let names: Vec<&str> = listing.items.iter().map(|i| i.name.as_str()).collect();
    assert_eq!(names, vec!["Music", "/"]);
    assert_eq!(listing.skipped_missing, 1);
    assert_eq!(stale, vec!["/gone".to_string()]);
}

#[test]
fn space_tally_keeps_the_largest_files() {
    let mut tally = SpaceTally::new();
    for size in [7u64, 25, 3, 18, 1, 22, 9, 14, 11, 20, 2, 24, 5, 16, 12, 23, 8, 19, 4, 21, 6, 17, 10, 15, 13] {
        tally.add_file(format!("/d/f{size}"), size, if size % 2 == 0 { FileKind::Image } else { FileKind::Text });
    }
    tally.add_folder();
    tally.add_dir("/d/sub".to_string(), 40);
    tally.add_dir("/d/small".to_string(), 2);
    tally.add_error();
    let result = tally.finish("/d".to_string(), ScanDepth::OneLevelDeep, false);

    assert_eq!(result.total_bytes, 325);
    assert_eq!(result.file_count, 25);
    assert_eq!(result.folder_count, 1);
    assert_eq!(result.error_count, 1);
    let sizes: Vec<u64> = result.largest_files.iter().map(|f| f.bytes).collect();
    assert_eq!(sizes, (11..=25).rev().collect::<Vec<u64>>());
    assert_eq!(result.largest_files[0].path, "/d/f25");
    assert_eq!(result.largest_dirs.len(), 2);
    assert_eq!(result.largest_dirs[0].path, "/d/sub");
    assert_eq!(result.by_category.len(), 2);
    assert_eq!(result.by_category[0].kind, FileKind::Text);
    assert_eq!(result.by_category[0].bytes, 169);
    assert_eq!(result.by_category[0].count, 13);
    assert_eq!(result.by_category[1].bytes, 156);
}

#[test]
fn space_tally_keeps_equal_sizes_in_order() {
    let mut tally = SpaceTally::new();
    tally.add_file("/a".to_string(), 5, FileKind::Text);
    tally.add_file("/b".to_string(), 9, FileKind::Text);
    tally.add_file("/c".to_string(), 5, FileKind::Text);
    let result = tally.finish("/".to_string(), ScanDepth::FolderOnly, true);
    let paths: Vec<&str> = result.largest_files.iter().map(|f| f.path.as_str()).collect();
    assert_eq!(paths, vec!["/b", "/a", "/c"]);
    assert!(result.cancelled);
    assert_eq!(scan_warning(&result).as_deref(), Some("\u{26a0} Scan cancelled."));
}

#[test]
fn space_texts() {
    let mut tally = SpaceTally::new();
    tally.add_file("/a".to_string(), 2048, FileKind::Audio);
    tally.add_folder();
    tally.add_error();
    tally.add_error();
    let result = tally.finish("/".to_string(), ScanDepth::FullRecursive, false);
    let (total, items, files, folders) = scan_summary_labels(&result);
    assert_eq!(total, "Total: 2.0 KB");
    assert_eq!(items, "2  items");
    assert_eq!(files, "1  files");
    assert_eq!(folders, "1  folders");
    assert_eq!(scan_warning(&result).as_deref(), Some("\u{26a0} 2 items skipped (permission denied)"));
    assert_eq!(category_percent(1, 3), 33);
    assert_eq!(category_percent(5, 0), 0);
    assert_eq!(category_detail(0, 1), "0 B  \u{b7}  1 file");
    assert_eq!(category_detail(1536, 4), "1.5 KB  \u{b7}  4 files");
    assert_eq!(SpaceView::TopItems.label(), "TOP ITEMS");
    assert_eq!(SpaceView::Categories.stack_name(), "categories");
}
