//! Telling typed locations apart (remote URIs, explicit paths), the name
//! offered for a new project, and the terminal a user configured.
use crate::clipboard::texts;
use crate::path::{file_name, is_absolute, join, path_file_name, path_join};
use crate::text::{
    chars_eq, chars_of, contains_chars, has_prefix, is_whitespace, is_ws, occurs_at, slice_vec, starts_with,
    string_of,
};
use crate::views::{format_path, format_path_text};
use vstd::prelude::*;

verus! {

/// The first position at or after `i` where `p` occurs in `s`.
pub open spec fn find_from(s: Seq<char>, p: Seq<char>, i: int) -> Option<int>
    decreases s.len() - i,
{
    if i < 0 || i + p.len() > s.len() {
        None
    } else if s.subrange(i, i + p.len()) == p {
        Some(i)
    } else if i >= s.len() {
        None
    } else {
        find_from(s, p, i + 1)
    }
}

/// A position [`find_from`] gives back holds `p`, and none before it does.
pub proof fn lemma_find_from(s: Seq<char>, p: Seq<char>, i: int)
    requires
        0 <= i,
    ensures
        match find_from(s, p, i) {
            Some(k) => i <= k && k + p.len() <= s.len() && s.subrange(k, k + p.len()) == p
                && forall|j: int| i <= j < k ==> #[trigger] s.subrange(j, j + p.len()) != p,
            None => forall|j: int|
                i <= j && j + p.len() <= s.len() ==> #[trigger] s.subrange(j, j + p.len()) != p,
        },
    decreases s.len() - i,
{
    if i + p.len() > s.len() {
    } else if s.subrange(i, i + p.len()) == p {
    } else if i >= s.len() {
    } else {
        lemma_find_from(s, p, i + 1);
    }
}

/// The first position where `p` occurs in `s` (`str::find`).
pub fn find_text(s: &Vec<char>, p: &Vec<char>) -> (r: Option<usize>)
    ensures
        match r {
            Some(i) => find_from(s@, p@, 0) == Some(i as int),
            None => find_from(s@, p@, 0) is None,
        },
{
    if p.len() > s.len() {
        return None;
    }
    let n = s.len() - p.len();
    let mut i: usize = 0;
    loop
        invariant
            p.len() <= s.len(),
            n == s.len() - p.len(),
            i <= n,
            find_from(s@, p@, 0) == find_from(s@, p@, i as int),
        decreases n - i,
    {
        if occurs_at(s, p, i) {
            return Some(i);
        }
        if i == n {
            assert(find_from(s@, p@, i + 1) is None);
            return None;
        }
        i = i + 1;
    }
}

/// What stands before the first `://` of a URI; empty where there is none.
pub open spec fn uri_scheme(s: Seq<char>) -> Seq<char> {
    match find_from(s, "://"@, 0) {
        Some(i) => s.subrange(0, i),
        None => Seq::empty(),
    }
}

/// The schemes that GIO serves through a remote (GVfs) backend.
pub open spec fn is_remote_scheme(t: Seq<char>) -> bool {
    ||| t == "sftp"@
    ||| t == "ftp"@
    ||| t == "smb"@
    ||| t == "dav"@
    ||| t == "davs"@
    ||| t == "nfs"@
    ||| t == "ssh"@
    ||| t == "afp"@
}

/// Whether a location is a remote URI (`sftp://`, `smb://`, ...); `file://`,
/// `trash://` and other local backends are not.
pub open spec fn gio_uri(s: Seq<char>) -> bool {
    is_remote_scheme(uri_scheme(s))
}

/// Returns true for GIO/GVfs remote URI schemes (sftp, ftp, smb, dav, davs, nfs,
/// ssh, afp); `file://`, `trash://` and other virtual backends do not count.
pub fn is_gio_uri(s: &str) -> (r: bool)
    ensures
        r == gio_uri(s@),
{
    let cs = chars_of(s);
    let sep = chars_of("://");
    proof {
        lemma_find_from(cs@, sep@, 0);
    }
    let scheme: Vec<char> = match find_text(&cs, &sep) {
        Some(i) => slice_vec(&cs, 0, i),
        None => Vec::new(),
    };
    assert(scheme@ =~= uri_scheme(s@));
    chars_eq(&scheme, &chars_of("sftp")) || chars_eq(&scheme, &chars_of("ftp")) || chars_eq(
        &scheme,
        &chars_of("smb"),
    ) || chars_eq(&scheme, &chars_of("dav")) || chars_eq(&scheme, &chars_of("davs"))
        || chars_eq(&scheme, &chars_of("nfs")) || chars_eq(&scheme, &chars_of("ssh"))
        || chars_eq(&scheme, &chars_of("afp"))
}

proof fn lemma_find_skips(s: Seq<char>, p: Seq<char>, i: int, k: int)
    requires
        0 <= i <= k,
        k + p.len() <= s.len(),
        p.len() > 0,
        forall|j: int| i <= j < k ==> s[j] != p[0],
    ensures
        find_from(s, p, i) == find_from(s, p, k),
    decreases k - i,
{
    if i < k {
        assert(s.subrange(i, i + p.len())[0] == s[i]);
        lemma_find_skips(s, p, i + 1, k);
    }
}

/// The scheme of `scheme://rest` is `scheme` when it holds no colon; so such
/// a text is a remote URI exactly when its scheme is a remote one.
pub proof fn lemma_scheme_of_uri(t: Seq<char>, rest: Seq<char>)
    requires
        !t.contains(':'),
    ensures
        uri_scheme(t + "://"@ + rest) == t,
        gio_uri(t + "://"@ + rest) == is_remote_scheme(t),
{
    reveal_strlit("://");
    let s = t + "://"@ + rest;
    let sep = "://"@;
    assert forall|j: int| 0 <= j < t.len() implies s[j] != sep[0] by {
        assert(s[j] == t[j]);
    }
    lemma_find_skips(s, sep, 0, t.len() as int);
    assert(s.subrange(t.len() as int, t.len() + 3int) =~= sep);
    assert(s.subrange(0, t.len() as int) =~= t);
}

/// Local locations (`file://...`, `trash://...`) are never taken for remote
/// URIs.
pub proof fn lemma_local_schemes_not_remote(s: Seq<char>)
    requires
        has_prefix(s, "file://"@) || has_prefix(s, "trash://"@),
    ensures
        !gio_uri(s),
{
    reveal_strlit("file://");
    reveal_strlit("trash://");
    reveal_strlit("://");
    reveal_strlit("sftp");
    reveal_strlit("ftp");
    reveal_strlit("smb");
    reveal_strlit("dav");
    reveal_strlit("davs");
    reveal_strlit("nfs");
    reveal_strlit("ssh");
    reveal_strlit("afp");
    let sep = "://"@;
    let k: int = if has_prefix(s, "file://"@) { 4 } else { 5 };
    assert forall|j: int| 0 <= j < k implies s[j] != sep[0] by {
        if has_prefix(s, "file://"@) {
            assert(s.subrange(0, 7)[j] == s[j]);
        } else {
            assert(s.subrange(0, 8)[j] == s[j]);
        }
    }
    lemma_find_skips(s, sep, 0, k);
    reveal_strlit("file");
    reveal_strlit("trash");
    if has_prefix(s, "file://"@) {
        let pre = "file://"@;
        assert forall|j: int| 0 <= j < 7 implies s[j] == pre[j] by {
            assert(s.subrange(0, 7)[j] == s[j]);
        }
        assert(s.subrange(4, 7) =~= sep);
        assert(find_from(s, sep, 4) == Some(4int));
        assert(uri_scheme(s) =~= "file"@);
    } else {
        let pre = "trash://"@;
        assert forall|j: int| 0 <= j < 8 implies s[j] == pre[j] by {
            assert(s.subrange(0, 8)[j] == s[j]);
        }
        assert(s.subrange(5, 8) =~= sep);
        assert(find_from(s, sep, 5) == Some(5int));
        assert(uri_scheme(s) =~= "trash"@);
    }
    assert(uri_scheme(s) != "sftp"@ && uri_scheme(s) != "ftp"@ && uri_scheme(s) != "smb"@ && uri_scheme(s)
        != "dav"@) by {
        if uri_scheme(s).len() == 4 {
            assert(uri_scheme(s)[0] == 'f');
        }
    }
}

/// Text typed in the location bar names a place rather than a search: it
/// starts at the root or at home, holds a slash, or is a remote URI.
pub open spec fn explicit_path(s: Seq<char>) -> bool {
    ||| (s.len() > 0 && s[0] == '/')
    ||| (s.len() > 0 && s[0] == '~')
    ||| s.contains('/')
    ||| gio_uri(s)
}

/// Whether typed text is a location (see [`explicit_path`]).
pub fn looks_like_explicit_path(input: &str) -> (r: bool)
    ensures
        r == explicit_path(input@),
{
    let cs = chars_of(input);
    let starts_root = cs.len() > 0 && cs[0] == '/';
    let starts_home = cs.len() > 0 && cs[0] == '~';
    let slash = chars_of("/");
    proof {
        reveal_strlit("/");
    }
    let has_slash = contains_chars(&cs, &slash);
    proof {
        if has_slash {
            let i = choose|i: int|
                0 <= i && i + slash@.len() <= cs@.len() && #[trigger] cs@.subrange(i, i + slash@.len()) == slash@;
            assert(cs@.subrange(i, i + 1)[0] == cs@[i]);
            assert(cs@[i] == '/');
        }
        if cs@.contains('/') {
            let i = choose|i: int| 0 <= i < cs@.len() && cs@[i] == '/';
            assert(cs@.subrange(i, i + 1) =~= slash@);
        }
    }
    starts_root || starts_home || has_slash || is_gio_uri(input)
}

/// What typed location text stands for: a URI that GIO opens as it is, or a
/// local path.
#[derive(Clone, Debug)]
pub enum PathInput {
    Uri(String),
    Path(String),
}

/// Typed text that is opened as a URI: a `file://` URI or a remote one.
pub open spec fn uri_input(input: Seq<char>) -> bool {
    has_prefix(input, "file://"@) || gio_uri(input)
}

/// The local path typed text names: home for `~`, below home for `~/...`,
/// the text itself when absolute, else below the current folder.
pub open spec fn local_target(input: Seq<char>, home: Seq<char>, current: Seq<char>) -> Seq<char> {
    if input == "~"@ {
        home
    } else if has_prefix(input, "~/"@) {
        join(home, input.skip(2))
    } else if is_absolute(input) {
        input
    } else {
        join(current, input)
    }
}

/// Resolves text typed in the location bar against the home folder and the
/// active pane's folder.
pub fn resolve_path_input(input: &str, home: &str, current_dir: &str) -> (r: PathInput)
    ensures
        match r {
            PathInput::Uri(u) => uri_input(input@) && u@ == input@,
            PathInput::Path(p) => !uri_input(input@) && p@ == local_target(input@, home@, current_dir@),
        },
{
    let cs = chars_of(input);
    let file_scheme = chars_of("file://");
    if starts_with(&cs, &file_scheme) || is_gio_uri(input) {
        return PathInput::Uri(String::from_str(input));
    }
    let tilde = chars_of("~");
    if chars_eq(&cs, &tilde) {
        return PathInput::Path(String::from_str(home));
    }
    let tilde_slash = chars_of("~/");
    proof {
        reveal_strlit("~/");
    }
    if starts_with(&cs, &tilde_slash) {
        let rest = slice_vec(&cs, 2, cs.len());
        assert(rest@ =~= input@.skip(2));
        return PathInput::Path(string_of(&path_join(&chars_of(home), &rest)));
    }
    if cs.len() > 0 && cs[0] == '/' {
        return PathInput::Path(String::from_str(input));
    }
    PathInput::Path(string_of(&path_join(&chars_of(current_dir), &cs)))
}

/// The name offered for a new project made from a folder: the folder's name,
/// or the folder shown relative to home where it has none (the root).
pub open spec fn project_name_for(path: Seq<char>, home: Seq<char>) -> Seq<char> {
    match file_name(path) {
        Some(n) => if n.len() > 0 {
            n
        } else {
            format_path_text(path, home)
        },
        None => format_path_text(path, home),
    }
}

/// The name suggested for a project made from `path`.
pub fn suggested_project_name(path: &str, home: &str) -> (r: String)
    ensures
        r@ == project_name_for(path@, home@),
{
    let p = chars_of(path);
    match path_file_name(&p) {
        Some(n) => {
            if n.len() > 0 {
                string_of(&n)
            } else {
                format_path(path, home)
            }
        },
        None => format_path(path, home),
    }
}

/// The whitespace-separated words of `s[i..]`, the word being read so far
/// being `cur` (`str::split_whitespace`).
pub open spec fn words_from(s: Seq<char>, i: int, cur: Seq<char>) -> Seq<Seq<char>>
    decreases s.len() - i,
{
    if i < 0 || i >= s.len() {
        if cur.len() > 0 {
            seq![cur]
        } else {
            Seq::empty()
        }
    } else if is_ws(s[i]) {
        (if cur.len() > 0 {
            seq![cur]
        } else {
            Seq::empty()
        }) + words_from(s, i + 1, Seq::empty())
    } else {
        words_from(s, i + 1, cur.push(s[i]))
    }
}

/// The words of `s`.
pub open spec fn words(s: Seq<char>) -> Seq<Seq<char>> {
    words_from(s, 0, Seq::empty())
}

/// Splits text at whitespace into its words.
pub fn split_words(s: &str) -> (r: Vec<String>)
    ensures
        texts(r@) == words(s@),
{
    let cs = chars_of(s);
    let mut out: Vec<String> = Vec::new();
    let mut cur: Vec<char> = Vec::new();
    let mut i: usize = 0;
    while i < cs.len()
        invariant
            cs@ == s@,
            i <= cs.len(),
            texts(out@) + words_from(cs@, i as int, cur@) == words(s@),
        decreases cs.len() - i,
    {
        let c = cs[i];
        if is_whitespace(c) {
            if cur.len() > 0 {
                let w = string_of(&cur);
                proof {
                    assert(texts(out@.push(w)) =~= texts(out@) + seq![cur@]);
                    assert(texts(out@.push(w)) + words_from(cs@, i + 1, Seq::empty()) =~= texts(out@)
                        + words_from(cs@, i as int, cur@));
                }
                out.push(w);
            } else {
                assert(texts(out@) + words_from(cs@, i + 1, Seq::empty()) =~= texts(out@)
                    + words_from(cs@, i as int, cur@));
            }
            cur = Vec::new();
        } else {
            cur.push(c);
        }
        i = i + 1;
    }
    if cur.len() > 0 {
        let w = string_of(&cur);
        proof {
            assert(texts(out@.push(w)) =~= texts(out@) + words_from(cs@, i as int, cur@));
        }
        out.push(w);
    } else {
        assert(texts(out@) =~= texts(out@) + words_from(cs@, i as int, cur@));
    }
    out
}

/// The terminals tried in order when none is configured.
pub open spec fn terminal_candidates_spec() -> Seq<Seq<char>> {
    seq![
        "kitty"@,
        "x-terminal-emulator"@,
        "ptyxis"@,
        "kgx"@,
        "gnome-terminal"@,
        "konsole"@,
        "xfce4-terminal"@,
        "foot"@,
        "alacritty"@,
        "wezterm"@,
        "xterm"@,
    ]
}

/// The terminals tried in order when none is configured: Debian's
/// alternatives link, Fedora's and GNOME's defaults, the common desktop
/// terminals, and `xterm` last.
pub fn terminal_candidates() -> (r: Vec<String>)
    ensures
        texts(r@) == terminal_candidates_spec(),
{
    let r: Vec<String> = vec![
        "kitty".to_string(),
        "x-terminal-emulator".to_string(),
        "ptyxis".to_string(),
        "kgx".to_string(),
        "gnome-terminal".to_string(),
        "konsole".to_string(),
        "xfce4-terminal".to_string(),
        "foot".to_string(),
        "alacritty".to_string(),
        "wezterm".to_string(),
        "xterm".to_string(),
    ];
    assert(texts(r@) =~= terminal_candidates_spec());
    r
}

/// The index of the first installed candidate.
pub open spec fn first_installed(installed: Seq<bool>, i: int) -> Option<int>
    decreases installed.len() - i,
{
    if i < 0 || i >= installed.len() {
        None
    } else if installed[i] {
        Some(i)
    } else {
        first_installed(installed, i + 1)
    }
}

/// The terminal command: the words of the configured value where it has
/// any, else the first installed candidate alone, else none.
pub open spec fn terminal_command(configured: Option<Seq<char>>, installed: Seq<bool>) -> Option<
    Seq<Seq<char>>,
> {
    match configured {
        Some(v) if words(v).len() > 0 => Some(words(v)),
        _ => match first_installed(installed, 0) {
            Some(i) => Some(seq![terminal_candidates_spec()[i]]),
            None => None,
        },
    }
}

/// Picks the terminal to open: `configured` is the value of the terminal
/// setting where one is set, `installed[i]` whether candidate `i` of
/// [`terminal_candidates`] is on the search path.
pub fn detect_terminal_command(configured: Option<&str>, installed: &Vec<bool>) -> (r: Option<
    Vec<String>,
>)
    requires
        installed.len() == terminal_candidates_spec().len(),
    ensures
        match r {
            Some(v) => terminal_command(
                match configured {
                    Some(c) => Some(c@),
                    None => None,
                },
                installed@,
            ) == Some(texts(v@)),
            None => terminal_command(
                match configured {
                    Some(c) => Some(c@),
                    None => None,
                },
                installed@,
            ) is None,
        },
{
    if let Some(value) = configured {
        let parts = split_words(value);
        if parts.len() > 0 {
            return Some(parts);
        }
    }
    let candidates = terminal_candidates();
    let mut i: usize = 0;
    while i < installed.len()
        invariant
            installed.len() == candidates.len(),
            texts(candidates@) == terminal_candidates_spec(),
            i <= installed.len(),
            first_installed(installed@, 0) == first_installed(installed@, i as int),
            match configured {
                Some(c) => words(c@).len() == 0,
                None => true,
            },
        decreases installed.len() - i,
    {
        if installed[i] {
            let chosen = candidates[i].clone();
            let r: Vec<String> = vec![chosen];
            proof {
                assert(texts(candidates@)[i as int] == candidates@[i as int]@);
                assert(texts(r@) =~= seq![terminal_candidates_spec()[i as int]]);
            }
            return Some(r);
        }
        i = i + 1;
    }
    None
}

} // verus!
