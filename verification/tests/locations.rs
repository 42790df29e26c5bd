use lattice::labels::{ButtonKind, PaintTool, QueueAction};
use lattice::locations::{
    detect_terminal_command, find_text, is_gio_uri, looks_like_explicit_path, resolve_path_input, split_words,
    suggested_project_name, terminal_candidates, PathInput,
};
use lattice::picker::is_shown_name;
use lattice::search::{search_enters_folder, search_takes_entry, MAX_SEARCH_DEPTH, MAX_SEARCH_RESULTS};
use lattice::media::ConvertSourceMode;

fn chars(s: &str) -> Vec<char> {
    s.chars().collect()
}

#[test]
fn remote_schemes_are_gio_uris() {
    for uri in ["sftp://host/dir", "ftp://h", "smb://server/share", "dav://x", "davs://x", "nfs://n", "ssh://me@h", "afp://mac"] {
        assert!(is_gio_uri(uri), "{uri}");
    }
}

#[test]
fn local_and_plain_texts_are_not_gio_uris() {
    assert!(!is_gio_uri("file:///home/me"));
    assert!(!is_gio_uri("trash:///"));
    assert!(!is_gio_uri("sftp"));
    assert!(!is_gio_uri("sftp:/host"));
    assert!(!is_gio_uri(""));
    assert!(!is_gio_uri("SFTP://host"));
}

#[test]
fn scheme_is_cut_at_the_first_separator() {
    assert!(!is_gio_uri("x://sftp://host"));
    assert!(is_gio_uri("smb://a://b"));
}

#[test]
fn explicit_paths_are_recognised() {
    assert!(looks_like_explicit_path("/usr/share"));
    assert!(looks_like_explicit_path("~"));
    assert!(looks_like_explicit_path("~/Documents"));
    assert!(looks_like_explicit_path("Documents/notes"));
    assert!(looks_like_explicit_path("sftp://host"));
    assert!(!looks_like_explicit_path("report"));
    assert!(!looks_like_explicit_path("my report.txt"));
    assert!(!looks_like_explicit_path(""));
}

#[test]
fn find_text_gives_the_first_occurrence() {
    assert_eq!(find_text(&chars("a://b://c"), &chars("://")), Some(1));
    assert_eq!(find_text(&chars("abc"), &chars("://")), None);
    assert_eq!(find_text(&chars("ab"), &chars("")), Some(0));
}

#[test]
fn project_names_come_from_the_folder_name() {
    assert_eq!(suggested_project_name("/home/me/Projects/alpha", "/home/me"), "alpha");
    assert_eq!(suggested_project_name("/home/me", "/home/me"), "me");
    assert_eq!(suggested_project_name("/", "/home/me"), "/");
}

#[test]
fn words_are_split_at_whitespace() {
    assert_eq!(split_words("  foot  -e\tbash \n"), vec!["foot", "-e", "bash"]);
    assert!(split_words(" \t ").is_empty());
    assert_eq!(split_words("kitty"), vec!["kitty"]);
}

#[test]
fn configured_terminal_wins() {
    let installed = vec![true; terminal_candidates().len()];
    assert_eq!(
        detect_terminal_command(Some("wezterm start --cwd ."), &installed),
        Some(vec!["wezterm".to_string(), "start".to_string(), "--cwd".to_string(), ".".to_string()])
    );
}

#[test]
fn blank_setting_falls_back_to_the_first_installed_candidate() {
    let mut installed = vec![false; terminal_candidates().len()];
    installed[2] = true;
    installed[5] = true;
    assert_eq!(detect_terminal_command(Some("   "), &installed), Some(vec!["ptyxis".to_string()]));
    assert_eq!(detect_terminal_command(None, &installed), Some(vec!["ptyxis".to_string()]));
}

#[test]
fn no_terminal_when_nothing_is_installed() {
    let installed = vec![false; terminal_candidates().len()];
    assert_eq!(detect_terminal_command(None, &installed), None);
}

#[test]
fn candidates_start_with_kitty_and_end_with_xterm() {
    let c = terminal_candidates();
    assert_eq!(c.len(), 11);
    assert_eq!(c[0], "kitty");
    assert_eq!(c[10], "xterm");
}

#[test]
fn small_enums_compare_by_variant() {
    assert_eq!(ConvertSourceMode::default(), ConvertSourceMode::Auto);
    assert_ne!(QueueAction::MoveUp(1), QueueAction::MoveDown(1));
    assert_eq!(QueueAction::Remove(3), QueueAction::Remove(3));
    assert_eq!(PaintTool::default(), PaintTool::Brush);
}

#[test]
fn modal_buttons_carry_their_style_class() {
    assert_eq!(ButtonKind::Primary.css_class(), "modal-primary-button");
    assert_eq!(ButtonKind::Danger.css_class(), "modal-danger-button");
    assert_eq!(ButtonKind::Secondary.css_class(), "modal-secondary-button");
}

fn as_path(r: PathInput) -> Option<String> {
    match r {
        PathInput::Path(p) => Some(p),
        PathInput::Uri(_) => None,
    }
}

fn as_uri(r: PathInput) -> Option<String> {
    match r {
        PathInput::Uri(u) => Some(u),
        PathInput::Path(_) => None,
    }
}

#[test]
fn typed_uris_are_kept_as_they_are() {
    assert_eq!(as_uri(resolve_path_input("file:///etc", "/home/me", "/tmp")), Some("file:///etc".to_string()));
    assert_eq!(as_uri(resolve_path_input("smb://nas/share", "/home/me", "/tmp")), Some("smb://nas/share".to_string()));
    assert_eq!(as_uri(resolve_path_input("trash:///", "/home/me", "/tmp")), None);
}

#[test]
fn typed_paths_resolve_against_home_and_the_current_folder() {
    assert_eq!(as_path(resolve_path_input("~", "/home/me", "/tmp")), Some("/home/me".to_string()));
    assert_eq!(as_path(resolve_path_input("~/Music", "/home/me", "/tmp")), Some("/home/me/Music".to_string()));
    assert_eq!(as_path(resolve_path_input("/etc/fstab", "/home/me", "/tmp")), Some("/etc/fstab".to_string()));
    assert_eq!(as_path(resolve_path_input("notes", "/home/me", "/tmp/work")), Some("/tmp/work/notes".to_string()));
    assert_eq!(as_path(resolve_path_input("~x", "/home/me", "/srv/")), Some("/srv/~x".to_string()));
}

#[test]
fn hidden_names_are_listed_only_on_request() {
    assert!(!is_shown_name(".cache", false));
    assert!(is_shown_name(".cache", true));
    assert!(is_shown_name("cache", false));
}

#[test]
fn search_stops_when_deep_full_or_cancelled() {
    assert!(search_enters_folder(false, 0, 0));
    assert!(search_enters_folder(false, MAX_SEARCH_DEPTH, MAX_SEARCH_RESULTS - 1));
    assert!(!search_enters_folder(false, MAX_SEARCH_DEPTH + 1, 0));
    assert!(!search_enters_folder(false, 0, MAX_SEARCH_RESULTS));
    assert!(!search_enters_folder(true, 0, 0));
    assert!(search_takes_entry(false, 1999));
    assert!(!search_takes_entry(false, 2000));
    assert!(!search_takes_entry(true, 0));
}
