//! The drives view: mounted volumes, unmounted volumes, drives without
//! volumes and folders found under the usual mount locations, from what the
//! volume monitor and the file system report.
use crate::clipboard::{path_in, path_in_exec, texts};
use crate::model::{FileItem, FileKind, Shape};
use crate::naming::is_taken;
use crate::number::{decimal, push_decimal};
use crate::path::{join, path_join};
use crate::sort::{sort_items, stably_sorted, SortField};
use crate::text::{append_chars, chars_of, push_str, string_of};
use vstd::prelude::*;

verus! {

/// A mount reported by the volume monitor: its name and, for a local one,
/// the path of its root.
#[derive(Clone, Debug)]
pub struct MountInfo {
    pub name: String,
    pub path: Option<String>,
}

/// A volume: its name, and the name of its mount when it is mounted.
#[derive(Clone, Debug)]
pub struct VolumeInfo {
    pub name: String,
    pub mount_name: Option<String>,
}

/// A connected drive: its name, whether it has volumes, whether media is in.
#[derive(Clone, Debug)]
pub struct DriveInfo {
    pub name: String,
    pub has_volumes: bool,
    pub has_media: bool,
}

/// A folder entry under a mount location.
#[derive(Clone, Debug)]
pub struct FallbackEntry {
    pub name: String,
    pub display_name: String,
    pub is_hidden: bool,
    pub is_dir: bool,
}

/// What listing a mount location gave.
#[derive(Clone, Debug)]
pub enum FallbackScan {
    /// The location does not exist.
    Missing,
    /// The location could not be listed.
    Unreadable,
    /// The entries read, and whether reading stopped on an error.
    Listed(Vec<FallbackEntry>, bool),
}

/// A mount location and what listing it gave.
#[derive(Clone, Debug)]
pub struct FallbackBase {
    pub base: String,
    pub scan: FallbackScan,
}

/// The drives view and the counts behind its status line.
#[derive(Clone, Debug)]
pub struct MountedVolumeListing {
    pub items: Vec<FileItem>,
    pub gio_mounts: usize,
    pub unmounted_volumes: usize,
    pub detected_drives: usize,
    pub fallback_mounts: usize,
    pub skipped_inaccessible: usize,
    pub skipped_non_local: usize,
}

/// An entry of the drives view as plain values: name, path, whether it is a
/// folder that opens, and its detail line.
pub struct EntryView {
    pub name: Seq<char>,
    pub path: Seq<char>,
    pub openable: bool,
    pub detail: Seq<char>,
}

/// The item is the drives-view entry `v`: a folder-kind item, a directory
/// and openable exactly when `v` is, with `v`'s detail and nothing else set.
pub open spec fn is_entry(it: FileItem, v: EntryView) -> bool {
    &&& it.name@ == v.name
    &&& it.path@ == v.path
    &&& it.kind == FileKind::Folder
    &&& it.is_dir == v.openable
    &&& it.is_openable == v.openable
    &&& it.detail matches Some(d) && d@ == v.detail
    &&& it.size_bytes is None
    &&& it.modified_unix is None
    &&& it.tags@.len() == 0
    &&& it.mark_tint_id == 0
    &&& it.mark_tint_color is None
    &&& it.mark_shape == Shape::Circle
    &&& it.original_path is None
}

/// The state of a scan: entries so far, paths and volume names seen, and
/// the counts.
pub struct DriveScan {
    pub items: Seq<EntryView>,
    pub paths: Seq<Seq<char>>,
    pub names: Seq<Seq<char>>,
    pub gio_mounts: nat,
    pub unmounted: nat,
    pub detected: nat,
    pub fallback: nat,
    pub inaccessible: nat,
    pub non_local: nat,
}

/// The scan before anything is reported.
pub open spec fn empty_scan() -> DriveScan {
    DriveScan {
        items: seq![],
        paths: seq![],
        names: seq![],
        gio_mounts: 0,
        unmounted: 0,
        detected: 0,
        fallback: 0,
        inaccessible: 0,
        non_local: 0,
    }
}

/// One mount: a non-local one is counted and skipped; a local one whose root
/// was already seen is skipped; otherwise it is listed as "Mounted: path".
pub open spec fn scan_mount(s: DriveScan, m: MountInfo) -> DriveScan {
    match m.path {
        None => DriveScan { non_local: s.non_local + 1, ..s },
        Some(p) => if path_in(p@, s.paths) {
            s
        } else {
            DriveScan {
                items: s.items.push(
                    EntryView { name: m.name@, path: p@, openable: true, detail: "Mounted: "@ + p@ },
                ),
                paths: s.paths.push(p@),
                names: s.names.push(m.name@),
                gio_mounts: s.gio_mounts + 1,
                ..s
            }
        },
    }
}

/// One volume: a mounted one only marks its mount's name as seen; an
/// unmounted one not seen by name is listed as an unmounted volume.
pub open spec fn scan_volume(s: DriveScan, v: VolumeInfo) -> DriveScan {
    match v.mount_name {
        Some(n) => DriveScan { names: s.names.push(n@), ..s },
        None => if s.names.contains(v.name@) {
            s
        } else {
            DriveScan {
                items: s.items.push(
                    EntryView {
                        name: v.name@,
                        path: seq![],
                        openable: false,
                        detail: "Unmounted volume (mounting not implemented)"@,
                    },
                ),
                names: s.names.push(v.name@),
                unmounted: s.unmounted + 1,
                ..s
            }
        },
    }
}

/// One drive: one without volumes and not seen by name is listed as
/// detected, with or without media.
pub open spec fn scan_drive(s: DriveScan, d: DriveInfo) -> DriveScan {
    if !d.has_volumes && !s.names.contains(d.name@) {
        DriveScan {
            items: s.items.push(
                EntryView {
                    name: d.name@,
                    path: seq![],
                    openable: false,
                    detail: if d.has_media {
                        "Drive detected (no mounted volume)"@
                    } else {
                        "Drive detected (no media mounted)"@
                    },
                },
            ),
            names: s.names.push(d.name@),
            detected: s.detected + 1,
            ..s
        }
    } else {
        s
    }
}

/// One entry under a mount location: a visible folder whose path was not
/// seen is listed as "Mounted Locations: path".
pub open spec fn scan_entry(s: DriveScan, base: Seq<char>, e: FallbackEntry) -> DriveScan {
    let p = join(base, e.name@);
    if e.is_hidden || !e.is_dir || path_in(p, s.paths) {
        s
    } else {
        DriveScan {
            items: s.items.push(
                EntryView {
                    name: e.display_name@,
                    path: p,
                    openable: true,
                    detail: "Mounted Locations: "@ + p,
                },
            ),
            paths: s.paths.push(p),
            fallback: s.fallback + 1,
            ..s
        }
    }
}

/// A sequence of reports applied in order.
pub open spec fn scan_mounts(s: DriveScan, ms: Seq<MountInfo>) -> DriveScan
    decreases ms.len(),
{
    if ms.len() == 0 {
        s
    } else {
        scan_mount(scan_mounts(s, ms.drop_last()), ms.last())
    }
}

/// Volumes applied in order.
pub open spec fn scan_volumes(s: DriveScan, vs: Seq<VolumeInfo>) -> DriveScan
    decreases vs.len(),
{
    if vs.len() == 0 {
        s
    } else {
        scan_volume(scan_volumes(s, vs.drop_last()), vs.last())
    }
}

/// Drives applied in order.
pub open spec fn scan_drives(s: DriveScan, ds: Seq<DriveInfo>) -> DriveScan
    decreases ds.len(),
{
    if ds.len() == 0 {
        s
    } else {
        scan_drive(scan_drives(s, ds.drop_last()), ds.last())
    }
}

/// Entries of one mount location applied in order.
pub open spec fn scan_entries(s: DriveScan, base: Seq<char>, es: Seq<FallbackEntry>) -> DriveScan
    decreases es.len(),
{
    if es.len() == 0 {
        s
    } else {
        scan_entry(scan_entries(s, base, es.drop_last()), base, es.last())
    }
}

/// One mount location: a missing one is skipped, an unreadable one
/// counted; a listed one adds its entries, and is counted when reading
/// stopped on an error.
pub open spec fn scan_base(s: DriveScan, b: FallbackBase) -> DriveScan {
    match b.scan {
        FallbackScan::Missing => s,
        FallbackScan::Unreadable => DriveScan { inaccessible: s.inaccessible + 1, ..s },
        FallbackScan::Listed(es, failed) => {
            let t = scan_entries(s, b.base@, es@);
            if failed {
                DriveScan { inaccessible: t.inaccessible + 1, ..t }
            } else {
                t
            }
        },
    }
}

/// Mount locations applied in order.
pub open spec fn scan_bases(s: DriveScan, bs: Seq<FallbackBase>) -> DriveScan
    decreases bs.len(),
{
    if bs.len() == 0 {
        s
    } else {
        scan_base(scan_bases(s, bs.drop_last()), bs.last())
    }
}

/// The whole scan: mounts, then volumes, then drives, then mount locations.
pub open spec fn drive_scan(
    ms: Seq<MountInfo>,
    vs: Seq<VolumeInfo>,
    ds: Seq<DriveInfo>,
    bs: Seq<FallbackBase>,
) -> DriveScan {
    scan_bases(scan_drives(scan_volumes(scan_mounts(empty_scan(), ms), vs), ds), bs)
}

/// The listing holds the scan's entries sorted by name, folders first,
/// and its counts.
pub open spec fn listing_of(r: MountedVolumeListing, s: DriveScan) -> bool {
    &&& exists|coll: Seq<FileItem>|
        coll.len() == s.items.len() && (forall|i: int|
            0 <= i < coll.len() ==> is_entry(#[trigger] coll[i], s.items[i])) && stably_sorted(
            r.items@,
            coll,
            SortField::Name,
            false,
        )
    &&& r.gio_mounts == s.gio_mounts
    &&& r.unmounted_volumes == s.unmounted
    &&& r.detected_drives == s.detected
    &&& r.fallback_mounts == s.fallback
    &&& r.skipped_inaccessible == s.inaccessible
    &&& r.skipped_non_local == s.non_local
}

fn entry_item(name: String, path: String, openable: bool, detail: String) -> (it: FileItem)
    ensures
        is_entry(it, EntryView { name: name@, path: path@, openable, detail: detail@ }),
{
    FileItem {
        name,
        path,
        kind: FileKind::Folder,
        is_dir: openable,
        is_openable: openable,
        detail: Some(detail),
        size_bytes: None,
        modified_unix: None,
        tags: Vec::new(),
        mark_tint_id: 0,
        mark_tint_color: None,
        mark_shape: Shape::Circle,
        original_path: None,
    }
}

fn prefixed(prefix: &str, s: &Vec<char>) -> (r: String)
    ensures
        r@ == prefix@ + s@,
{
    let mut out: Vec<char> = Vec::new();
    push_str(&mut out, prefix);
    append_chars(&mut out, s);
    string_of(&out)
}

/// The running state of a scan in executable form.
struct ScanState {
    items: Vec<FileItem>,
    paths: Vec<String>,
    names: Vec<String>,
    gio_mounts: usize,
    unmounted: usize,
    detected: usize,
    fallback: usize,
    inaccessible: usize,
    non_local: usize,
}

/// The executable state stands for the scan `s`, with room left to count
/// `room` more reports.
spec fn state_is(st: ScanState, s: DriveScan) -> bool {
    &&& st.items@.len() == s.items.len()
    &&& forall|i: int| 0 <= i < st.items@.len() ==> is_entry(#[trigger] st.items@[i], s.items[i])
    &&& texts(st.paths@) == s.paths
    &&& texts(st.names@) == s.names
    &&& st.gio_mounts == s.gio_mounts
    &&& st.unmounted == s.unmounted
    &&& st.detected == s.detected
    &&& st.fallback == s.fallback
    &&& st.inaccessible == s.inaccessible
    &&& st.non_local == s.non_local
}

/// Each listed entry was counted once.
spec fn counted(st: ScanState) -> bool {
    st.gio_mounts + st.unmounted + st.detected + st.fallback == st.items@.len()
}

fn push_entry(st: &mut ScanState, it: FileItem, Ghost(v): Ghost<EntryView>, Ghost(s): Ghost<DriveScan>)
    requires
        state_is(*old(st), s),
        is_entry(it, v),
    ensures
        state_is(*final(st), DriveScan { items: s.items.push(v), ..s }),
        final(st).paths@ == old(st).paths@,
        final(st).names@ == old(st).names@,
        final(st).gio_mounts == old(st).gio_mounts,
        final(st).unmounted == old(st).unmounted,
        final(st).detected == old(st).detected,
        final(st).fallback == old(st).fallback,
        final(st).inaccessible == old(st).inaccessible,
        final(st).non_local == old(st).non_local,
        final(st).items@.len() == old(st).items@.len() + 1,
        final(st).items@.len() <= usize::MAX,
{
    st.items.push(it);
    let _n = st.items.len();
}

/// Builds the drives view from what the volume monitor reported (mounts,
/// volumes, connected drives, in its order) and from listing the usual
/// mount locations; the entries are sorted by name, folders first.
pub fn build_mounted_volume_listing(
    mounts: &Vec<MountInfo>,
    volumes: &Vec<VolumeInfo>,
    drives: &Vec<DriveInfo>,
    bases: &Vec<FallbackBase>,
) -> (r: MountedVolumeListing)
    ensures
        listing_of(r, drive_scan(mounts@, volumes@, drives@, bases@)),
{
    let mut st = ScanState {
        items: Vec::new(),
        paths: Vec::new(),
        names: Vec::new(),
        gio_mounts: 0,
        unmounted: 0,
        detected: 0,
        fallback: 0,
        inaccessible: 0,
        non_local: 0,
    };
    assert(texts(st.paths@) =~= Seq::<Seq<char>>::empty());
    assert(texts(st.names@) =~= Seq::<Seq<char>>::empty());
    let mut i: usize = 0;
    while i < mounts.len()
        invariant
            i <= mounts@.len(),
            state_is(st, scan_mounts(empty_scan(), mounts@.take(i as int))),
            counted(st),
            st.non_local <= i,
            st.inaccessible == 0,
        decreases mounts.len() - i,
    {
        let ghost s = scan_mounts(empty_scan(), mounts@.take(i as int));
        assert(mounts@.take(i + 1).drop_last() =~= mounts@.take(i as int));
        let m = &mounts[i];
        match &m.path {
            None => {
                st.non_local = st.non_local + 1;
            },
            Some(p) => {
                let pc = chars_of(p.as_str());
                if !path_in_exec(&pc, &st.paths) {
                    let detail = prefixed("Mounted: ", &pc);
                    let it = entry_item(m.name.clone(), p.clone(), true, detail);
                    push_entry(
                        &mut st,
                        it,
                        Ghost(
                            EntryView {
                                name: m.name@,
                                path: p@,
                                openable: true,
                                detail: "Mounted: "@ + p@,
                            },
                        ),
                        Ghost(s),
                    );
                    st.paths.push(p.clone());
                    st.names.push(m.name.clone());
                    st.gio_mounts = st.gio_mounts + 1;
                    assert(texts(st.paths@) =~= s.paths.push(p@));
                    assert(texts(st.names@) =~= s.names.push(m.name@));
                }
            },
        }
        i = i + 1;
    }
    assert(mounts@.take(mounts@.len() as int) =~= mounts@);
    let ghost s1 = scan_mounts(empty_scan(), mounts@);
    let mut i: usize = 0;
    while i < volumes.len()
        invariant
            i <= volumes@.len(),
            state_is(st, scan_volumes(s1, volumes@.take(i as int))),
            counted(st),
            st.inaccessible == 0,
        decreases volumes.len() - i,
    {
        let ghost s = scan_volumes(s1, volumes@.take(i as int));
        assert(volumes@.take(i + 1).drop_last() =~= volumes@.take(i as int));
        let v = &volumes[i];
        match &v.mount_name {
            Some(n) => {
                st.names.push(n.clone());
                assert(texts(st.names@) =~= s.names.push(n@));
            },
            None => {
                let nc = chars_of(v.name.as_str());
                if !is_taken(&nc, &st.names) {
                    let it = entry_item(
                        v.name.clone(),
                        String::new(),
                        false,
                        String::from_str("Unmounted volume (mounting not implemented)"),
                    );
                    proof {
                        reveal_strlit("");
                    }
                    push_entry(
                        &mut st,
                        it,
                        Ghost(
                            EntryView {
                                name: v.name@,
                                path: seq![],
                                openable: false,
                                detail: "Unmounted volume (mounting not implemented)"@,
                            },
                        ),
                        Ghost(s),
                    );
                    st.names.push(v.name.clone());
                    st.unmounted = st.unmounted + 1;
                    assert(texts(st.names@) =~= s.names.push(v.name@));
                }
            },
        }
        i = i + 1;
    }
    assert(volumes@.take(volumes@.len() as int) =~= volumes@);
    let ghost s2 = scan_volumes(s1, volumes@);
    let mut i: usize = 0;
    while i < drives.len()
        invariant
            i <= drives@.len(),
            state_is(st, scan_drives(s2, drives@.take(i as int))),
            counted(st),
            st.inaccessible == 0,
        decreases drives.len() - i,
    {
        let ghost s = scan_drives(s2, drives@.take(i as int));
        assert(drives@.take(i + 1).drop_last() =~= drives@.take(i as int));
        let d = &drives[i];
        let nc = chars_of(d.name.as_str());
        if !d.has_volumes && !is_taken(&nc, &st.names) {
            let state: &str = if d.has_media {
                "Drive detected (no mounted volume)"
            } else {
                "Drive detected (no media mounted)"
            };
            let it = entry_item(d.name.clone(), String::new(), false, String::from_str(state));
            proof {
                reveal_strlit("");
            }
            push_entry(
                &mut st,
                it,
                Ghost(
                    EntryView {
                        name: d.name@,
                        path: seq![],
                        openable: false,
                        detail: if d.has_media {
                            "Drive detected (no mounted volume)"@
                        } else {
                            "Drive detected (no media mounted)"@
                        },
                    },
                ),
                Ghost(s),
            );
            st.names.push(d.name.clone());
            st.detected = st.detected + 1;
            assert(texts(st.names@) =~= s.names.push(d.name@));
        }
        i = i + 1;
    }
    assert(drives@.take(drives@.len() as int) =~= drives@);
    let ghost s3 = scan_drives(s2, drives@);
    let mut i: usize = 0;
    while i < bases.len()
        invariant
            i <= bases@.len(),
            state_is(st, scan_bases(s3, bases@.take(i as int))),
            counted(st),
            st.inaccessible <= i,
        decreases bases.len() - i,
    {
        let ghost s = scan_bases(s3, bases@.take(i as int));
        assert(bases@.take(i + 1).drop_last() =~= bases@.take(i as int));
        let b = &bases[i];
        match &b.scan {
            FallbackScan::Missing => {},
            FallbackScan::Unreadable => {
                st.inaccessible = st.inaccessible + 1;
            },
            FallbackScan::Listed(es, failed) => {
                let bc = chars_of(b.base.as_str());
                let mut j: usize = 0;
                while j < es.len()
                    invariant
                        j <= es@.len(),
                        bc@ == b.base@,
                        state_is(st, scan_entries(s, b.base@, es@.take(j as int))),
                        counted(st),
                        st.inaccessible <= i,
                        scan_entries(s, b.base@, es@.take(j as int)).inaccessible == s.inaccessible,
                    decreases es.len() - j,
                {
                    let ghost t = scan_entries(s, b.base@, es@.take(j as int));
                    assert(es@.take(j + 1).drop_last() =~= es@.take(j as int));
                    let e = &es[j];
                    if !e.is_hidden && e.is_dir {
                        let p = path_join(&bc, &chars_of(e.name.as_str()));
                        if !path_in_exec(&p, &st.paths) {
                            let ps = string_of(&p);
                            let detail = prefixed("Mounted Locations: ", &p);
                            let it = entry_item(e.display_name.clone(), ps, true, detail);
                            push_entry(
                                &mut st,
                                it,
                                Ghost(
                                    EntryView {
                                        name: e.display_name@,
                                        path: p@,
                                        openable: true,
                                        detail: "Mounted Locations: "@ + p@,
                                    },
                                ),
                                Ghost(t),
                            );
                            st.paths.push(string_of(&p));
                            st.fallback = st.fallback + 1;
                            assert(texts(st.paths@) =~= t.paths.push(p@));
                        }
                    }
                    j = j + 1;
                }
                assert(es@.take(es@.len() as int) =~= es@);
                if *failed {
                    st.inaccessible = st.inaccessible + 1;
                }
            },
        }
        i = i + 1;
    }
    assert(bases@.take(bases@.len() as int) =~= bases@);
    let ghost coll = st.items@;
    let ghost fin = drive_scan(mounts@, volumes@, drives@, bases@);
    assert(state_is(st, fin));
    sort_items(&mut st.items);
    let r = MountedVolumeListing {
        items: st.items,
        gio_mounts: st.gio_mounts,
        unmounted_volumes: st.unmounted,
        detected_drives: st.detected,
        fallback_mounts: st.fallback,
        skipped_inaccessible: st.inaccessible,
        skipped_non_local: st.non_local,
    };
    assert(coll.len() == fin.items.len() && (forall|i: int|
        0 <= i < coll.len() ==> is_entry(#[trigger] coll[i], fin.items[i])) && stably_sorted(
        r.items@,
        coll,
        SortField::Name,
        false,
    ));
    r
}

} // verus!

verus! {

/// One part of the status line when its count is not zero.
pub open spec fn count_part(n: nat, text: Seq<char>) -> Seq<Seq<char>> {
    if n > 0 {
        seq![decimal(n) + text]
    } else {
        seq![]
    }
}

/// The parts of the drives-view status line, in order.
pub open spec fn status_parts(r: MountedVolumeListing) -> Seq<Seq<char>> {
    count_part(r.gio_mounts as nat, " GIO mount(s)"@) + count_part(
        r.unmounted_volumes as nat,
        " unmounted volume(s); mounting is not implemented"@,
    ) + count_part(r.fallback_mounts as nat, " fallback mounted location(s)"@) + count_part(
        r.detected_drives as nat,
        " drive(s) detected without mounted volumes"@,
    ) + count_part(r.skipped_non_local as nat, " non-local mount(s) skipped"@) + count_part(
        r.skipped_inaccessible as nat,
        " mounted-location folder(s) inaccessible"@,
    )
}

fn push_count_part(parts: &mut Vec<Vec<char>>, n: usize, text: &str)
    ensures
        crate::text::views(final(parts)@) == crate::text::views(old(parts)@) + count_part(
            n as nat,
            text@,
        ),
{
    let ghost before = crate::text::views(parts@);
    if n > 0 {
        let mut p: Vec<char> = Vec::new();
        push_decimal(&mut p, n as u128);
        push_str(&mut p, text);
        parts.push(p);
        assert(crate::text::views(parts@) =~= before + count_part(n as nat, text@));
    } else {
        assert(crate::text::views(parts@) =~= before + count_part(n as nat, text@));
    }
}

/// The status line of the drives view: each non-zero count with what it
/// counts, joined by "; "; nothing when all are zero.
pub fn drive_listing_status_message(listing: &MountedVolumeListing) -> (r: Option<String>)
    ensures
        match r {
            Some(s) => status_parts(*listing).len() > 0 && s@ == crate::text::join_sep(
                status_parts(*listing),
                "; "@,
            ),
            None => status_parts(*listing).len() == 0,
        },
{
    let mut parts: Vec<Vec<char>> = Vec::new();
    assert(crate::text::views(parts@) =~= Seq::<Seq<char>>::empty());
    push_count_part(&mut parts, listing.gio_mounts, " GIO mount(s)");
    push_count_part(
        &mut parts,
        listing.unmounted_volumes,
        " unmounted volume(s); mounting is not implemented",
    );
    push_count_part(&mut parts, listing.fallback_mounts, " fallback mounted location(s)");
    push_count_part(&mut parts, listing.detected_drives, " drive(s) detected without mounted volumes");
    push_count_part(&mut parts, listing.skipped_non_local, " non-local mount(s) skipped");
    push_count_part(&mut parts, listing.skipped_inaccessible, " mounted-location folder(s) inaccessible");
    assert(crate::text::views(parts@) =~= status_parts(*listing));
    if parts.len() == 0 {
        None
    } else {
        let joined = crate::text::join_chars(&parts, "; ");
        Some(string_of(&joined))
    }
}

/// The usual places where removable media is mounted, for a user.
pub open spec fn mount_bases(user_name: Seq<char>) -> Seq<Seq<char>> {
    seq![join("/run/media"@, user_name), "/media"@, "/mnt"@]
}

/// The folders listed for mounted locations the monitor does not report.
pub fn fallback_mount_bases(user_name: &str) -> (r: Vec<String>)
    ensures
        texts(r@) == mount_bases(user_name@),
{
    let mut r: Vec<String> = Vec::new();
    r.push(string_of(&path_join(&chars_of("/run/media"), &chars_of(user_name))));
    r.push(String::from_str("/media"));
    r.push(String::from_str("/mnt"));
    assert(texts(r@) =~= mount_bases(user_name@));
    r
}

/// A drive shown in the sidebar.
#[derive(Clone, Debug)]
pub struct DriveEntry {
    pub name: String,
    pub path: Option<String>,
    pub is_removable: bool,
    pub is_mounted: bool,
}

/// A mount for the sidebar's drive list: its name, root path when local,
/// and whether its drive is removable.
#[derive(Clone, Debug)]
pub struct RemovableMount {
    pub name: String,
    pub path: Option<String>,
    pub removable: bool,
}

/// A volume for the sidebar's drive list: its name, whether it is mounted
/// and whether its drive is removable.
#[derive(Clone, Debug)]
pub struct RemovableVolume {
    pub name: String,
    pub mounted: bool,
    pub removable: bool,
}

/// Where a sidebar drive came from: the index of its mount or of its volume.
#[derive(Clone, Copy, Debug, PartialEq, Eq, Structural)]
pub enum DriveSource {
    Mount(usize),
    Volume(usize),
}

/// A sidebar drive as plain values: name, path, mounted, source.
pub type DriveView = (Seq<char>, Option<Seq<char>>, bool, DriveSource);

/// The removable drives in the sidebar: first each mounted local one on a
/// removable drive, then each unmounted volume of a removable drive whose
/// name was not listed yet.
pub open spec fn removable_drives(ms: Seq<RemovableMount>, vs: Seq<RemovableVolume>) -> Seq<DriveView> {
    removable_volumes(removable_mounts(ms), vs, vs.len() as int)
}

/// The mounted part of the list, for the first `ms.len()` mounts.
pub open spec fn removable_mounts(ms: Seq<RemovableMount>) -> Seq<DriveView>
    decreases ms.len(),
{
    if ms.len() == 0 {
        seq![]
    } else {
        let prev = removable_mounts(ms.drop_last());
        let m = ms.last();
        match m.path {
            Some(p) => if m.removable {
                prev.push((m.name@, Some(p@), true, DriveSource::Mount((ms.len() - 1) as usize)))
            } else {
                prev
            },
            None => prev,
        }
    }
}

/// Whether a name is already listed.
pub open spec fn drive_named(ds: Seq<DriveView>, name: Seq<char>) -> bool {
    exists|i: int| 0 <= i < ds.len() && (#[trigger] ds[i]).0 == name
}

/// The list after the first `n` volumes.
pub open spec fn removable_volumes(start: Seq<DriveView>, vs: Seq<RemovableVolume>, n: int) -> Seq<
    DriveView,
>
    decreases n,
{
    if n <= 0 {
        start
    } else {
        let prev = removable_volumes(start, vs, n - 1);
        let v = vs[n - 1];
        if !v.mounted && v.removable && !drive_named(prev, v.name@) {
            prev.push((v.name@, None, false, DriveSource::Volume((n - 1) as usize)))
        } else {
            prev
        }
    }
}

/// A sidebar drive together with where it came from.
#[derive(Clone, Debug)]
pub struct RemovableDrive {
    pub entry: DriveEntry,
    pub source: DriveSource,
}

/// The plain values of a sidebar drive.
pub open spec fn drive_view(d: RemovableDrive) -> DriveView {
    (d.entry.name@, crate::text::opt_text(d.entry.path), d.entry.is_mounted, d.source)
}

fn drive_listed(ds: &Vec<RemovableDrive>, name: &Vec<char>) -> (r: bool)
    ensures
        r == drive_named(ds@.map_values(|d: RemovableDrive| drive_view(d)), name@),
{
    let ghost dv = ds@.map_values(|d: RemovableDrive| drive_view(d));
    let mut i: usize = 0;
    while i < ds.len()
        invariant
            i <= ds@.len(),
            dv == ds@.map_values(|d: RemovableDrive| drive_view(d)),
            forall|k: int| 0 <= k < i ==> (#[trigger] dv[k]).0 != name@,
        decreases ds.len() - i,
    {
        let c = chars_of(ds[i].entry.name.as_str());
        assert(dv[i as int].0 == c@);
        if crate::text::chars_eq(&c, name) {
            return true;
        }
        i = i + 1;
    }
    false
}

/// The removable drives for the sidebar, from the monitor's mounts and
/// volumes, each with the index it came from.
pub fn collect_removable_drives(mounts: &Vec<RemovableMount>, volumes: &Vec<RemovableVolume>) -> (r:
    Vec<RemovableDrive>)
    ensures
        r@.map_values(|d: RemovableDrive| drive_view(d)) == removable_drives(mounts@, volumes@),
        forall|i: int| 0 <= i < r@.len() ==> (#[trigger] r@[i]).entry.is_removable,
{
    let mut out: Vec<RemovableDrive> = Vec::new();
    let mut i: usize = 0;
    while i < mounts.len()
        invariant
            i <= mounts@.len(),
            out@.map_values(|d: RemovableDrive| drive_view(d)) == removable_mounts(
                mounts@.take(i as int),
            ),
            forall|k: int| 0 <= k < out@.len() ==> (#[trigger] out@[k]).entry.is_removable,
        decreases mounts.len() - i,
    {
        assert(mounts@.take(i + 1).drop_last() =~= mounts@.take(i as int));
        let m = &mounts[i];
        match &m.path {
            Some(p) => {
                if m.removable {
                    let ghost before = out@.map_values(|d: RemovableDrive| drive_view(d));
                    out.push(
                        RemovableDrive {
                            entry: DriveEntry {
                                name: m.name.clone(),
                                path: Some(p.clone()),
                                is_removable: true,
                                is_mounted: true,
                            },
                            source: DriveSource::Mount(i),
                        },
                    );
                    assert(out@.map_values(|d: RemovableDrive| drive_view(d)) =~= before.push(
                        (m.name@, Some(p@), true, DriveSource::Mount(i)),
                    ));
                }
            },
            None => {},
        }
        i = i + 1;
    }
    assert(mounts@.take(mounts@.len() as int) =~= mounts@);
    let ghost start = removable_mounts(mounts@);
    let mut i: usize = 0;
    while i < volumes.len()
        invariant
            i <= volumes@.len(),
            start == removable_mounts(mounts@),
            out@.map_values(|d: RemovableDrive| drive_view(d)) == removable_volumes(
                start,
                volumes@,
                i as int,
            ),
            forall|k: int| 0 <= k < out@.len() ==> (#[trigger] out@[k]).entry.is_removable,
        decreases volumes.len() - i,
    {
        let v = &volumes[i];
        let nc = chars_of(v.name.as_str());
        if !v.mounted && v.removable && !drive_listed(&out, &nc) {
            let ghost before = out@.map_values(|d: RemovableDrive| drive_view(d));
            out.push(
                RemovableDrive {
                    entry: DriveEntry {
                        name: v.name.clone(),
                        path: None,
                        is_removable: true,
                        is_mounted: false,
                    },
                    source: DriveSource::Volume(i),
                },
            );
            assert(out@.map_values(|d: RemovableDrive| drive_view(d)) =~= before.push(
                (v.name@, None, false, DriveSource::Volume(i)),
            ));
        }
        i = i + 1;
    }
    out
}

/// Recent folders that still exist, and how many were dropped.
#[derive(Clone, Debug)]
pub struct RecentFolderListing {
    pub items: Vec<FileItem>,
    pub skipped_missing: usize,
}

/// The item for a recent folder: named like its tab, a folder that opens.
pub open spec fn is_recent_item(it: FileItem, path: Seq<char>) -> bool {
    &&& it.name@ == crate::views::path_title(path)
    &&& it.path@ == path
    &&& it.kind == FileKind::Folder
    &&& it.is_dir
    &&& it.is_openable
    &&& it.detail is None
    &&& it.size_bytes is None
    &&& it.modified_unix is None
    &&& it.tags@.len() == 0
    &&& it.mark_tint_id == 0
    &&& it.mark_tint_color is None
    &&& it.mark_shape == Shape::Circle
    &&& it.original_path is None
}

/// The recent folders that are still folders, as items in the same order,
/// and the paths that are gone (to forget them); `is_dir` tells for each
/// recent path whether it is still a folder.
pub fn collect_recent_folder_items(recent: &Vec<String>, is_dir: &Vec<bool>) -> (r: (
    RecentFolderListing,
    Vec<String>,
))
    requires
        is_dir@.len() == recent@.len(),
    ensures
        texts(r.1@) == dropped_paths(texts(recent@), is_dir@),
        r.0.skipped_missing == r.1@.len(),
        r.0.items@.len() + r.1@.len() == recent@.len(),
        r.0.items@.len() == kept_paths(texts(recent@), is_dir@).len(),
        forall|i: int|
            0 <= i < r.0.items@.len() ==> is_recent_item(
                #[trigger] r.0.items@[i],
                kept_paths(texts(recent@), is_dir@)[i],
            ),
{
    let mut items: Vec<FileItem> = Vec::new();
    let mut stale: Vec<String> = Vec::new();
    let ghost ps = texts(recent@);
    let mut i: usize = 0;
    while i < recent.len()
        invariant
            i <= recent@.len(),
            is_dir@.len() == recent@.len(),
            ps == texts(recent@),
            items@.len() == kept_paths(ps.take(i as int), is_dir@.take(i as int)).len(),
            forall|k: int|
                0 <= k < items@.len() ==> is_recent_item(
                    #[trigger] items@[k],
                    kept_paths(ps.take(i as int), is_dir@.take(i as int))[k],
                ),
            texts(stale@) == dropped_paths(ps.take(i as int), is_dir@.take(i as int)),
            items@.len() + stale@.len() == i,
        decreases recent.len() - i,
    {
        assert(ps.take(i + 1).drop_last() =~= ps.take(i as int));
        assert(is_dir@.take(i + 1).drop_last() =~= is_dir@.take(i as int));
        assert(ps.take(i + 1).last() == recent@[i as int]@);
        let ghost before = texts(stale@);
        if is_dir[i] {
            let it = FileItem {
                name: crate::views::tab_title_for_path(recent[i].as_str()),
                path: recent[i].clone(),
                kind: FileKind::Folder,
                is_dir: true,
                is_openable: true,
                detail: None,
                size_bytes: None,
                modified_unix: None,
                tags: Vec::new(),
                mark_tint_id: 0,
                mark_tint_color: None,
                mark_shape: Shape::Circle,
                original_path: None,
            };
            items.push(it);
        } else {
            stale.push(recent[i].clone());
            assert(texts(stale@) =~= before.push(recent@[i as int]@));
        }
        i = i + 1;
    }
    assert(ps.take(recent@.len() as int) =~= ps);
    assert(is_dir@.take(recent@.len() as int) =~= is_dir@);
    let n = stale.len();
    (RecentFolderListing { items, skipped_missing: n }, stale)
}

/// The paths whose flag is set, in order.
pub open spec fn kept_paths(ps: Seq<Seq<char>>, flags: Seq<bool>) -> Seq<Seq<char>>
    decreases ps.len(),
{
    if ps.len() == 0 || flags.len() != ps.len() {
        seq![]
    } else {
        let prev = kept_paths(ps.drop_last(), flags.drop_last());
        if flags.last() {
            prev.push(ps.last())
        } else {
            prev
        }
    }
}

/// The paths whose flag is not set, in order.
pub open spec fn dropped_paths(ps: Seq<Seq<char>>, flags: Seq<bool>) -> Seq<Seq<char>>
    decreases ps.len(),
{
    if ps.len() == 0 || flags.len() != ps.len() {
        seq![]
    } else {
        let prev = dropped_paths(ps.drop_last(), flags.drop_last());
        if flags.last() {
            prev
        } else {
            prev.push(ps.last())
        }
    }
}

} // verus!
