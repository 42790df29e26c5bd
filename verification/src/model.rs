//! The records the browser works on: file items, kinds, marks, tags and tints.
use vstd::prelude::*;

verus! {

/// The broad category of a file.
#[derive(Clone, Copy, Debug, PartialEq, Eq, Structural)]
pub enum FileKind {
    Folder,
    Image,
    Video,
    Audio,
    Document,
    Text,
    Archive,
    ConfigCode,
    Unknown,
}

/// The rank of a kind when files are sorted by kind.
pub open spec fn kind_rank(k: FileKind) -> nat {
    match k {
        FileKind::Folder => 0,
        FileKind::Image => 1,
        FileKind::Video => 2,
        FileKind::Audio => 3,
        FileKind::Document => 4,
        FileKind::Text => 5,
        FileKind::Archive => 6,
        FileKind::ConfigCode => 7,
        FileKind::Unknown => 8,
    }
}

/// The display name of a kind.
pub open spec fn kind_label(k: FileKind) -> Seq<char> {
    match k {
        FileKind::Folder => "Folder"@,
        FileKind::Image => "Image"@,
        FileKind::Video => "Video"@,
        FileKind::Audio => "Audio"@,
        FileKind::Document => "Document"@,
        FileKind::Text => "Text"@,
        FileKind::Archive => "Archive"@,
        FileKind::ConfigCode => "Code"@,
        FileKind::Unknown => "File"@,
    }
}

impl FileKind {
    /// The rank used when sorting by kind.
    pub fn sort_key(&self) -> (r: u8)
        ensures
            r as nat == kind_rank(*self),
    {
        match self {
            FileKind::Folder => 0,
            FileKind::Image => 1,
            FileKind::Video => 2,
            FileKind::Audio => 3,
            FileKind::Document => 4,
            FileKind::Text => 5,
            FileKind::Archive => 6,
            FileKind::ConfigCode => 7,
            FileKind::Unknown => 8,
        }
    }

    /// The display name of the kind.
    pub fn label(&self) -> (r: &'static str)
        ensures
            r@ == kind_label(*self),
    {
        match self {
            FileKind::Folder => "Folder",
            FileKind::Image => "Image",
            FileKind::Video => "Video",
            FileKind::Audio => "Audio",
            FileKind::Document => "Document",
            FileKind::Text => "Text",
            FileKind::Archive => "Archive",
            FileKind::ConfigCode => "Code",
            FileKind::Unknown => "File",
        }
    }
}

/// The shape of a mark.
#[derive(Clone, Copy, Debug, PartialEq, Eq, Structural)]
pub enum Shape {
    Circle,
    Square,
    Triangle,
    Pentagon,
    Hexagon,
    Octagon,
    Trapezoid,
}

/// A tag as stored in the metadata database.
#[derive(Clone, Debug)]
pub struct TagRecord {
    pub id: i64,
    pub name: String,
    pub color: Option<String>,
    pub associated_tint_id: Option<i64>,
    pub associated_shape: Option<Shape>,
}

/// A tint (mark colour) as stored in the metadata database.
#[derive(Clone, Debug)]
pub struct TintRecord {
    pub id: i64,
    pub name: String,
    pub color: Option<String>,
    pub is_default: bool,
}

/// One entry of a file listing.
#[derive(Clone, Debug)]
pub struct FileItem {
    pub name: String,
    pub path: String,
    pub kind: FileKind,
    pub is_dir: bool,
    pub is_openable: bool,
    pub detail: Option<String>,
    pub size_bytes: Option<u64>,
    pub modified_unix: Option<i64>,
    pub tags: Vec<TagRecord>,
    pub mark_tint_id: i64,
    pub mark_tint_color: Option<String>,
    pub mark_shape: Shape,
    pub original_path: Option<String>,
}

/// The explicit mark of an item: its tint and shape, when a tint is set.
pub fn read_explicit_mark_from_item(item: &FileItem) -> (r: Option<(i64, Shape)>)
    ensures
        r == (if item.mark_tint_id != 0 {
            Some((item.mark_tint_id, item.mark_shape))
        } else {
            None
        }),
{
    if item.mark_tint_id != 0 {
        Some((item.mark_tint_id, item.mark_shape))
    } else {
        None
    }
}

} // verus!
