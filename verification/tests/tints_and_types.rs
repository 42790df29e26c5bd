use lattice::format::{
    friendly_error, friendly_error_detail, mime_to_friendly_type, preview_type_label, tint_name_and_color,
    trash_operation_error_detail, IoErrorKind, TRASH_GVFS_DIAGNOSTIC,
};
use lattice::model::{FileItem, FileKind, Shape, TagRecord, TintRecord};
use lattice::tag_filter::{
    active_chip_labels, filter_header_label, mode_switch_visible, shape_label_text, CombineMode, TagFilterSpec,
};
use lattice::tint::{generate_tint_css, hex_rgb, parse_hex_rgb, resolve_tint_color, rgb_to_hex, DEFAULT_TINT_COLOR};

fn tint(id: i64, name: &str, color: Option<&str>, is_default: bool) -> TintRecord {
    TintRecord { id, name: name.to_string(), color: color.map(|c| c.to_string()), is_default }
}

fn tag(id: i64, name: &str) -> TagRecord {
    TagRecord { id, name: name.to_string(), color: None, associated_tint_id: None, associated_shape: None }
}

fn item(kind: FileKind, tags: Vec<TagRecord>, tint_id: i64, shape: Shape) -> FileItem {
    FileItem {
        name: "x".to_string(),
        path: "/x".to_string(),
        kind,
        is_dir: false,
        is_openable: true,
        detail: None,
        size_bytes: None,
        modified_unix: None,
        tags,
        mark_tint_id: tint_id,
        mark_tint_color: None,
        mark_shape: shape,
        original_path: None,
    }
}

fn reference_css(tints: &[TintRecord]) -> String {
    let mut css = String::new();
    for tint in tints {
        let color = tint.color.as_deref().unwrap_or("#806040");
        let (hover_ring_a, hover_glow_a) = if tint.is_default { ("28", "14") } else { ("58", "44") };
        css.push_str(&format!(
            ".file-card-shell:hover > .file-card.mark-tint-{id} {{ box-shadow: 0 0 0 1.5px {c}{hover_ring}, 0 4px 18px 0 {c}{hover_glow}; }}\n",
            id = tint.id, c = color, hover_ring = hover_ring_a, hover_glow = hover_glow_a,
        ));
        css.push_str(&format!(
            "flowboxchild:selected > .file-card-shell > .file-card.mark-tint-{id} {{ box-shadow: 0 0 0 1.5px {c}{hover_ring}, 0 4px 18px 0 {c}{hover_glow}; }}\n",
            id = tint.id, c = color, hover_ring = hover_ring_a, hover_glow = hover_glow_a,
        ));
        let list_a = if tint.is_default { "22" } else { "58" };
        css.push_str(&format!(
            ".file-list > row.mark-tint-{id} > .file-list-row-inner {{ border-left-color: {c}{list_a}; }}\n",
            id = tint.id, c = color, list_a = list_a,
        ));
    }
    css
}

#[test]
fn hex_colours_parse_and_print() {
    assert_eq!(parse_hex_rgb("#1a2B3c"), (26, 43, 60));
    assert_eq!(parse_hex_rgb("  ##ffffff "), (255, 255, 255));
    assert_eq!(parse_hex_rgb("xyz"), (128, 96, 64));
    assert_eq!(parse_hex_rgb("#12345g"), (128, 96, 64));
    assert_eq!(hex_rgb("#12345"), None);
    assert_eq!(hex_rgb("000000"), Some((0, 0, 0)));
    assert_eq!(rgb_to_hex((255, 0, 171)), "#ff00ab");
    assert_eq!(rgb_to_hex((8, 96, 64)), "#086040");
}

#[test]
fn hex_colours_round_trip() {
    for r in [0u8, 1, 15, 16, 127, 128, 200, 255] {
        for g in [0u8, 9, 10, 99, 250] {
            for b in [0u8, 64, 255] {
                assert_eq!(hex_rgb(&rgb_to_hex((r, g, b))), Some((r, g, b)));
            }
        }
    }
}

#[test]
fn tint_css_matches_rules_per_tint() {
    let tints = vec![
        tint(3, "Sky", Some("#112233"), false),
        tint(-4, "Beige", None, true),
        tint(12345678901, "Moss", Some("#00ff00"), false),
    ];
    assert_eq!(generate_tint_css(&tints), reference_css(&tints));
    assert_eq!(generate_tint_css(&[]), "");
    let one = generate_tint_css(&tints[..1]);
    assert!(one.starts_with(".file-card-shell:hover > .file-card.mark-tint-3 { box-shadow: 0 0 0 1.5px #11223358"));
}

#[test]
fn card_tint_colour_falls_back_to_beige() {
    let tints = vec![tint(1, "A", Some("#aaaaaa"), false), tint(2, "B", None, false)];
    assert_eq!(resolve_tint_color(Some(1), &tints), "#aaaaaa");
    assert_eq!(resolve_tint_color(Some(2), &tints), DEFAULT_TINT_COLOR);
    assert_eq!(resolve_tint_color(Some(9), &tints), "#806040");
    assert_eq!(resolve_tint_color(None, &tints), "#806040");
}

#[test]
fn mime_types_have_friendly_names() {
    assert_eq!(mime_to_friendly_type("image/png"), Some("PNG Image"));
    assert_eq!(mime_to_friendly_type("image/jpg"), Some("JPEG Image"));
    assert_eq!(mime_to_friendly_type("audio/x-vorbis+ogg"), Some("OGG Audio"));
    assert_eq!(
        mime_to_friendly_type("application/vnd.openxmlformats-officedocument.spreadsheetml.sheet"),
        Some("Excel Spreadsheet")
    );
    assert_eq!(mime_to_friendly_type("text/markdown"), Some("Markdown Text"));
    assert_eq!(mime_to_friendly_type("IMAGE/PNG"), None);
    assert_eq!(mime_to_friendly_type("application/octet-stream"), None);
}

#[test]
fn preview_type_lowercases_and_falls_back() {
    let unknown = item(FileKind::Unknown, Vec::new(), 0, Shape::Circle);
    assert_eq!(preview_type_label(&unknown, "IMAGE/PNG"), "PNG Image");
    assert_eq!(preview_type_label(&unknown, "audio/x-something"), "Audio");
    assert_eq!(preview_type_label(&unknown, "video/x-unheard"), "File");
    let doc = item(FileKind::Document, Vec::new(), 0, Shape::Circle);
    assert_eq!(preview_type_label(&doc, "audio/x-something"), "Document");
}

#[test]
fn tint_names_prefer_id_then_default_then_beige() {
    let tints = vec![tint(1, "Rose", Some("#ff0000"), false), tint(2, "Sand", Some("#eeddcc"), true)];
    assert_eq!(tint_name_and_color(&tints, 1, None), ("Rose".to_string(), Some("#ff0000".to_string())));
    assert_eq!(
        tint_name_and_color(&tints, 1, Some("#000000".to_string())),
        ("Rose".to_string(), Some("#000000".to_string()))
    );
    assert_eq!(tint_name_and_color(&tints, 7, None), ("Sand".to_string(), Some("#eeddcc".to_string())));
    assert_eq!(tint_name_and_color(&[], 7, None), ("Beige".to_string(), None));
}

#[test]
fn error_texts_depend_on_kind() {
    assert_eq!(
        friendly_error(IoErrorKind::NotFound, "gone"),
        ("File Not Found", "The selected file or folder no longer exists.".to_string())
    );
    assert_eq!(friendly_error(IoErrorKind::Other, "disk on fire"), ("Operation Failed", "disk on fire".to_string()));
    assert_eq!(
        friendly_error_detail(IoErrorKind::Exists, "x"),
        "Name Conflict: An item with that name already exists in this location."
    );
    assert_eq!(
        trash_operation_error_detail(IoErrorKind::NotMounted, "m"),
        "Operation Failed: m. The mount may have disappeared or is not available."
    );
    assert_eq!(
        trash_operation_error_detail(IoErrorKind::PermissionDenied, "p"),
        "Permission Denied: Lattice does not have permission to complete this operation.. Check mount permissions or GVfs/portal access."
    );
    assert_eq!(
        trash_operation_error_detail(IoErrorKind::Other, "boom"),
        format!("Operation Failed: boom. {TRASH_GVFS_DIAGNOSTIC}")
    );
    assert!(trash_operation_error_detail(IoErrorKind::NotSupported, "n")
        .ends_with("Permanent Delete is available only through the explicit confirmation flow."));
}

#[test]
fn tag_filter_combines_tags_tints_and_shapes() {
    let a = tag(1, "work");
    let b = tag(2, "urgent");
    let both = item(FileKind::Text, vec![a.clone(), b.clone()], 5, Shape::Square);
    let only_a = item(FileKind::Text, vec![a.clone()], 6, Shape::Circle);

    let mut spec = TagFilterSpec::empty();
    assert!(spec.is_empty());
    assert!(spec.matches(&both) && spec.matches(&only_a));

    spec.active_ids = vec![1, 2];
    assert!(spec.matches(&both));
    assert!(!spec.matches(&only_a));
    spec.mode = CombineMode::Or;
    assert!(spec.matches(&only_a));
    assert_eq!(spec.active_count(), 2);
    assert!(mode_switch_visible(&spec));

    spec.active_tint_ids = vec![5];
    assert!(spec.matches(&both));
    assert!(!spec.matches(&only_a));

    spec.active_shapes = vec![Shape::Circle];
    assert!(!spec.matches(&both));
    assert_eq!(spec.active_count(), 4);

    spec.clear();
    assert!(spec.is_empty());
    assert_eq!(spec.mode, CombineMode::Or);
}

#[test]
fn tag_filter_texts() {
    assert_eq!(CombineMode::And.label(), "All match");
    assert_eq!(CombineMode::And.toggled(), CombineMode::Or);
    assert_eq!(CombineMode::Or.toggled().toggled(), CombineMode::Or);
    assert_eq!(filter_header_label(0), "\u{1f3f7}  Filter by Marks & Tags");
    assert_eq!(filter_header_label(3), "\u{1f3f7}  Filter  \u{b7}  3 active");
    assert_eq!(shape_label_text(Shape::Hexagon), "\u{2b21} Hexagon");

    let spec = TagFilterSpec {
        active_ids: vec![2, 99, 1],
        mode: CombineMode::And,
        active_tint_ids: vec![7],
        active_shapes: vec![Shape::Triangle],
    };
    let tags = vec![tag(1, "work"), tag(2, "home")];
    let tints = vec![tint(7, "Rose", None, false)];
    assert_eq!(
        active_chip_labels(&spec, &tags, &tints),
        vec!["#home".to_string(), "#work".to_string(), "\u{25cf} Rose".to_string(), "\u{25b2} Triangle".to_string()]
    );
}
