use lattice::completion::{path_completion_display, path_completion_query};
use lattice::keys::{default_app_config, parse_key_binding, BindingKey};
use lattice::sort::{sort_named_items, SortDirection, SortField};

#[test]
fn shortcut_parts_read_alike_in_any_order_case_and_spacing() {
    let base = parse_key_binding("Ctrl+Shift+N");
    assert!(base.is_some());
    assert_eq!(parse_key_binding("shift+CTRL+n"), base);
    assert_eq!(parse_key_binding("N+Shift+Ctrl"), base);
    assert_eq!(parse_key_binding("  ctrl +  shift+ N "), base);
    assert_eq!(parse_key_binding("Ctrl+Page_Up"), parse_key_binding("ctrl+pageup"));
    assert_eq!(parse_key_binding("Ctrl+PAGE_UP"), parse_key_binding("Page_up+Ctrl"));
}

#[test]
fn parsed_character_keys_are_lower_case() {
    match parse_key_binding("Ctrl+Q").map(|b| b.key) {
        Some(BindingKey::Char(c)) => assert_eq!(c, 'q'),
        other => panic!("unexpected {other:?}"),
    }
    match parse_key_binding("Ctrl+Backslash").map(|b| b.key) {
        Some(BindingKey::Char(c)) => assert_eq!(c, '\\'),
        other => panic!("unexpected {other:?}"),
    }
}

#[test]
fn completion_queries_show_back_the_typed_text() {
    let cur = "/home/tester/Downloads";
    let home = "/home/tester";
    for typed in ["~", "~/Doc", "~/", "/var/lo", "Pho", "a/b"] {
        let q = path_completion_query(typed, cur, home).expect("query");
        assert_eq!(path_completion_display(&q.query, q.mode, cur, home), Some(typed.to_string()), "{typed}");
    }
}

#[test]
fn completions_outside_the_folder_are_hidden() {
    let cur = "/home/tester/Downloads";
    let home = "/home/tester";
    let q = path_completion_query("Pho", cur, home).expect("query");
    assert_eq!(path_completion_display("/home/tester/Downloads2/x", q.mode, cur, home), None);
}

#[test]
fn respelled_and_reordered_shortcuts_bind_alike() {
    let base = parse_key_binding("Ctrl+Alt+Delete");
    assert_eq!(parse_key_binding(" DELETE + alt+C_trl "), base);
    assert_eq!(parse_key_binding("alt+del+ctrl"), base);
    assert_eq!(parse_key_binding("Shift+F_1"), parse_key_binding("f1+shift"));
}

#[test]
fn config_rebinding_keeps_one_binding_per_action() {
    let mut config = default_app_config();
    let n = config.shortcuts.len();
    config.set_shortcut("new_folder", "Ctrl+Alt+N");
    assert_eq!(config.shortcuts.len(), n);
    assert_eq!(config.shortcuts.iter().filter(|(id, _)| id == "new_folder").count(), 1);
    config.set_shortcut("open_convert", "Ctrl+Alt+F");
    assert_eq!(config.shortcuts.len(), n + 1);
    assert_eq!(config.shortcuts.last().unwrap(), &("open_convert".to_string(), "Ctrl+Alt+F".to_string()));
    config.remove_shortcut("new_folder");
    assert!(config.shortcuts.iter().all(|(id, _)| id != "new_folder"));
    assert_eq!(config.shortcuts.len(), n);
}

fn named(name: &str, is_dir: bool) -> (lattice::model::FileItem, String) {
    (
        lattice::model::FileItem {
            name: name.to_string(),
            path: format!("/d/{name}"),
            kind: if is_dir { lattice::model::FileKind::Folder } else { lattice::model::FileKind::Text },
            is_dir,
            is_openable: true,
            detail: None,
            size_bytes: None,
            modified_unix: None,
            tags: Vec::new(),
            mark_tint_id: 0,
            mark_tint_color: None,
            mark_shape: lattice::model::Shape::Circle,
            original_path: None,
        },
        name.to_lowercase(),
    )
}

#[test]
fn named_sort_puts_folders_first_then_lowered_names() {
    let entries = vec![named("b", false), named("A", false), named("Zeta", true)];
    let sorted = sort_named_items(entries.clone(), SortField::Name, SortDirection::Ascending);
    assert_eq!(sorted.iter().map(|p| p.0.name.as_str()).collect::<Vec<_>>(), vec!["Zeta", "A", "b"]);
    let down = sort_named_items(entries, SortField::Name, SortDirection::Descending);
    assert_eq!(down.iter().map(|p| p.0.name.as_str()).collect::<Vec<_>>(), vec!["Zeta", "b", "A"]);
}
