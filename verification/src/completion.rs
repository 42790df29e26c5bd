//! Completion of folder and file names typed into the path entry.
use crate::clipboard::texts;
use crate::naming::is_taken;
use crate::path::{is_absolute, join, path_join};
use crate::sort::{
    lemma_filter_insert, lemma_filter_single, lemma_filter_split, lemma_text_order_antisym,
    lemma_text_order_trans, text_order, text_order_exec,
};
use crate::text::{
    after_prefix, append_chars, chars_eq, chars_of, has_prefix, lower_ascii, lower_ascii_vec,
    starts_with, string_of,
    strip_text_prefix, trim_start, trim_start_vec,
};
use vstd::prelude::*;

verus! {

/// How the typed text refers to a location, which decides how completions
/// are shown back.
#[derive(Clone, Copy, Debug, PartialEq, Eq, Structural)]
pub enum PathCompletionMode {
    Absolute,
    Home,
    Relative,
}

/// The absolute text to complete, and how it was typed.
#[derive(Clone, Debug)]
pub struct PathCompletionQuery {
    pub query: String,
    pub mode: PathCompletionMode,
}

/// The query for the typed text, after leading whitespace: nothing for an
/// empty text or a `file://` URI; the home folder for `~`; a path under home
/// for `~/...`; the text itself when absolute; otherwise a path under the
/// current folder.
pub open spec fn completion_query(input: Seq<char>, current_dir: Seq<char>, home: Seq<char>) -> Option<
    (Seq<char>, PathCompletionMode),
> {
    let t = trim_start(input);
    if t.len() == 0 || has_prefix(t, "file://"@) {
        None
    } else if t == "~"@ {
        Some((home, PathCompletionMode::Home))
    } else if has_prefix(t, "~/"@) {
        Some((join(home, t.subrange(2, t.len() as int)), PathCompletionMode::Home))
    } else if is_absolute(t) {
        Some((t, PathCompletionMode::Absolute))
    } else {
        Some((join(current_dir, t), PathCompletionMode::Relative))
    }
}

/// The query as plain values.
pub open spec fn query_view(q: Option<PathCompletionQuery>) -> Option<(Seq<char>, PathCompletionMode)> {
    match q {
        Some(v) => Some((v.query@, v.mode)),
        None => None,
    }
}

/// What to ask the file-name completer for the text typed in the path entry.
pub fn path_completion_query(input: &str, current_dir: &str, home: &str) -> (r: Option<
    PathCompletionQuery,
>)
    ensures
        query_view(r) == completion_query(input@, current_dir@, home@),
{
    let t = trim_start_vec(&chars_of(input));
    let uri = chars_of("file://");
    if t.len() == 0 || starts_with(&t, &uri) {
        return None;
    }
    let tilde = chars_of("~");
    if chars_eq(&t, &tilde) {
        return Some(PathCompletionQuery { query: String::from_str(home), mode: PathCompletionMode::Home });
    }
    let under_home = chars_of("~/");
    match strip_text_prefix(&t, &under_home) {
        Some(rest) => {
            proof {
                reveal_strlit("~/");
            }
            let q = path_join(&chars_of(home), &rest);
            return Some(PathCompletionQuery { query: string_of(&q), mode: PathCompletionMode::Home });
        },
        None => {},
    }
    if t[0] == '/' {
        Some(PathCompletionQuery { query: string_of(&t), mode: PathCompletionMode::Absolute })
    } else {
        let q = path_join(&chars_of(current_dir), &t);
        Some(PathCompletionQuery { query: string_of(&q), mode: PathCompletionMode::Relative })
    }
}

/// How a completion under `root` is shown: `prefix` for the root itself,
/// `prefix/rest` (or just `rest` with no prefix) for a path below it, and
/// nothing for a path elsewhere.
pub open spec fn display_under_root(completion: Seq<char>, root: Seq<char>, prefix: Seq<char>) -> Option<
    Seq<char>,
> {
    if completion == root {
        Some(prefix)
    } else {
        match after_prefix(completion, root + seq!['/']) {
            None => None,
            Some(rest) => if prefix.len() == 0 {
                Some(rest)
            } else {
                Some(prefix + seq!['/'] + rest)
            },
        }
    }
}

/// The text shown for a completion in the given mode.
pub open spec fn completion_display(
    completion: Seq<char>,
    mode: PathCompletionMode,
    current_dir: Seq<char>,
    home: Seq<char>,
) -> Option<Seq<char>> {
    match mode {
        PathCompletionMode::Absolute => Some(completion),
        PathCompletionMode::Home => display_under_root(completion, home, "~"@),
        PathCompletionMode::Relative => display_under_root(completion, current_dir, seq![]),
    }
}

/// Showing the query of typed text gives the text back: for text without
/// leading whitespace that is not a `file://` URI (and, after `~/`, does not
/// start with another `/`), with the current and home folders absolute and
/// not ending in `/`. A completion that is neither the folder a mode
/// completes under nor below it is not shown.
pub proof fn lemma_completion_round_trip(s: Seq<char>, cur: Seq<char>, home: Seq<char>)
    requires
        s.len() > 0,
        !crate::text::is_ws(s[0]),
        !has_prefix(s, "file://"@),
        has_prefix(s, "~/"@) ==> !(s.len() > 2 && s[2] == '/'),
        is_absolute(cur),
        cur.last() != '/',
        is_absolute(home),
        home.last() != '/',
    ensures
        completion_query(s, cur, home) matches Some((q, m)) && completion_display(q, m, cur, home) == Some(s),
{
    reveal_strlit("~");
    reveal_strlit("~/");
    assert(trim_start(s) == s);
    if s == "~"@ {
    } else if has_prefix(s, "~/"@) {
        let rest = s.subrange(2, s.len() as int);
        let q = join(home, rest);
        assert(q =~= home + seq!['/'] + rest);
        assert(q != home);
        assert(q.subrange(0, home.len() + 1int) =~= home + seq!['/']);
        assert(after_prefix(q, home + seq!['/']) == Some(rest)) by {
            assert(q.subrange(home.len() + 1int, q.len() as int) =~= rest);
        }
        assert(s.subrange(0, 2) =~= seq!['~', '/']);
        assert("~"@ + seq!['/'] + rest =~= s);
    } else if is_absolute(s) {
    } else {
        let q = join(cur, s);
        assert(q =~= cur + seq!['/'] + s);
        assert(q != cur);
        assert(q.subrange(0, cur.len() + 1int) =~= cur + seq!['/']);
        assert(q.subrange(cur.len() + 1int, q.len() as int) =~= s);
    }
}

/// In the home and relative modes a completion outside the folder they
/// complete under is not shown.
pub proof fn lemma_outside_completions_hidden(c: Seq<char>, root: Seq<char>, prefix: Seq<char>)
    requires
        c != root,
        !has_prefix(c, root + seq!['/']),
    ensures
        display_under_root(c, root, prefix) is None,
{
}

/// The text of an optional `String`.
pub open spec fn shown(o: Option<String>) -> Option<Seq<char>> {
    match o {
        Some(s) => Some(s@),
        None => None,
    }
}

fn display_completion_under_root(completion: &Vec<char>, root: &str, prefix: &str) -> (r: Option<
    String,
>)
    ensures
        shown(r) == display_under_root(completion@, root@, prefix@),
{
    let rt = chars_of(root);
    if chars_eq(completion, &rt) {
        return Some(String::from_str(prefix));
    }
    let mut with_slash = rt;
    with_slash.push('/');
    assert(with_slash@ =~= root@ + seq!['/']);
    match strip_text_prefix(completion, &with_slash) {
        None => None,
        Some(rest) => {
            let pre = chars_of(prefix);
            let mut out: Vec<char> = Vec::new();
            if pre.len() == 0 {
                append_chars(&mut out, &rest);
                assert(out@ =~= rest@);
            } else {
                append_chars(&mut out, &pre);
                out.push('/');
                append_chars(&mut out, &rest);
                assert(out@ =~= prefix@ + seq!['/'] + rest@);
            }
            Some(string_of(&out))
        },
    }
}

/// How a completion returned by the completer is shown in the entry, in the
/// style the user typed: absolute as is, `~/...` under home, relative to
/// the current folder.
pub fn path_completion_display(
    completion: &str,
    mode: PathCompletionMode,
    current_dir: &str,
    home: &str,
) -> (r: Option<String>)
    ensures
        shown(r) == completion_display(completion@, mode, current_dir@, home@),
{
    let c = chars_of(completion);
    match mode {
        PathCompletionMode::Absolute => Some(String::from_str(completion)),
        PathCompletionMode::Home => display_completion_under_root(&c, home, "~"),
        PathCompletionMode::Relative => {
            let r = display_completion_under_root(&c, current_dir, "");
            proof {
                reveal_strlit("");
            }
            r
        },
    }
}

} // verus!

verus! {

/// The completions worth showing, in the completer's order: each shown
/// form once, at its first appearance, leaving out the text already typed.
pub open spec fn completion_list(
    cs: Seq<Seq<char>>,
    mode: PathCompletionMode,
    current_dir: Seq<char>,
    home: Seq<char>,
    input: Seq<char>,
) -> Seq<Seq<char>>
    decreases cs.len(),
{
    if cs.len() == 0 {
        seq![]
    } else {
        let prev = completion_list(cs.drop_last(), mode, current_dir, home, input);
        match completion_display(cs.last(), mode, current_dir, home) {
            Some(d) => if d != input && !prev.contains(d) {
                prev.push(d)
            } else {
                prev
            },
            None => prev,
        }
    }
}

/// `a` may come before `b` when texts are ordered by their ASCII
/// lower-case form.
pub open spec fn lower_le(a: Seq<char>, b: Seq<char>) -> bool {
    text_order(lower_ascii(a), lower_ascii(b)) <= 0
}

/// Whether a text's lower-case form is `k`.
pub open spec fn lower_is(k: Seq<char>) -> spec_fn(Seq<char>) -> bool {
    |y: Seq<char>| lower_ascii(y) == k
}

/// `r` is `s` sorted stably by ASCII lower-case form: a permutation, in
/// order, with texts of equal lower-case form in their original order.
pub open spec fn sorted_by_lower(r: Seq<Seq<char>>, s: Seq<Seq<char>>) -> bool {
    &&& r.to_multiset() == s.to_multiset()
    &&& forall|a: int, b: int| 0 <= a < b < r.len() ==> lower_le(#[trigger] r[a], #[trigger] r[b])
    &&& forall|k: Seq<char>| #[trigger] r.filter(lower_is(k)) == s.filter(lower_is(k))
}

/// The first `n` texts, or all of them when there are fewer.
pub open spec fn at_most(s: Seq<Seq<char>>, n: nat) -> Seq<Seq<char>> {
    if s.len() <= n {
        s
    } else {
        s.take(n as int)
    }
}

/// The most completions the entry offers at once.
pub const MAX_PATH_COMPLETIONS: usize = 24;

proof fn lemma_lower_le_props(a: Seq<char>, b: Seq<char>, c: Seq<char>)
    ensures
        lower_le(a, b) || lower_le(b, a),
        lower_le(a, b) && lower_le(b, a) ==> lower_ascii(a) == lower_ascii(b),
        lower_le(a, b) && lower_le(b, c) ==> lower_le(a, c),
        lower_ascii(a) == lower_ascii(b) ==> lower_le(a, b),
{
    lemma_text_order_antisym(lower_ascii(a), lower_ascii(b));
    lemma_text_order_antisym(lower_ascii(a), lower_ascii(a));
    if lower_le(a, b) && lower_le(b, c) {
        lemma_text_order_trans(lower_ascii(a), lower_ascii(b), lower_ascii(c));
    }
}

/// Sorts texts stably by their ASCII lower-case form.
fn sort_by_lower(input: Vec<String>) -> (r: Vec<String>)
    ensures
        sorted_by_lower(texts(r@), texts(input@)),
{
    let ghost orig = texts(input@);
    let mut out: Vec<String> = Vec::new();
    let mut keys: Vec<Vec<char>> = Vec::new();
    let mut i: usize = 0;
    assert(texts(out@) =~= orig.take(0));
    while i < input.len()
        invariant
            i <= input.len(),
            orig == texts(input@),
            out.len() == i,
            keys.len() == out.len(),
            forall|t: int| 0 <= t < out.len() ==> (#[trigger] keys@[t])@ == lower_ascii(
                texts(out@)[t],
            ),
            texts(out@).to_multiset() == orig.take(i as int).to_multiset(),
            forall|a: int, b: int|
                0 <= a < b < out.len() ==> lower_le(
                    #[trigger] texts(out@)[a],
                    #[trigger] texts(out@)[b],
                ),
            forall|k: Seq<char>| #[trigger]
                texts(out@).filter(lower_is(k)) == orig.take(i as int).filter(lower_is(k)),
        decreases input.len() - i,
    {
        let x = input[i].clone();
        let ghost xs = x@;
        assert(xs == orig[i as int]);
        let kx = lower_ascii_vec(&chars_of(x.as_str()));
        let ghost old_out = texts(out@);
        let mut j: usize = 0;
        while j < out.len() && text_order_exec(&keys[j], &kx) <= 0
            invariant
                j <= out.len(),
                keys.len() == out.len(),
                old_out == texts(out@),
                forall|t: int| 0 <= t < out.len() ==> (#[trigger] keys@[t])@ == lower_ascii(
                    texts(out@)[t],
                ),
                kx@ == lower_ascii(xs),
                forall|t: int| 0 <= t < j ==> lower_le(#[trigger] old_out[t], xs),
            decreases out.len() - j,
        {
            assert(keys@[j as int]@ == lower_ascii(old_out[j as int]));
            j = j + 1;
        }
        proof {
            if j < out.len() {
                assert(keys@[j as int]@ == lower_ascii(old_out[j as int]));
            }
            assert forall|t: int| j <= t < old_out.len() implies !lower_le(#[trigger] old_out[t], xs)
                && lower_le(xs, old_out[t]) by {
                lemma_lower_le_props(old_out[j as int], old_out[t], xs);
                lemma_lower_le_props(xs, old_out[j as int], old_out[t]);
                lemma_lower_le_props(old_out[t], xs, old_out[t]);
                lemma_text_order_antisym(lower_ascii(old_out[j as int]), lower_ascii(xs));
                if t > j {
                    assert(lower_le(old_out[j as int], old_out[t]));
                }
            }
        }
        let ghost old_keys = keys@;
        let ghost old_strings = out@;
        out.insert(j, x);
        keys.insert(j, kx);
        proof {
            let newo = texts(out@);
            assert(newo =~= old_out.insert(j as int, xs));
            assert forall|t: int| 0 <= t < newo.len() implies (#[trigger] keys@[t])@ == lower_ascii(
                newo[t],
            ) by {
                if t < j {
                    assert(keys@[t] == old_keys[t]);
                } else if t == j {
                } else {
                    assert(keys@[t] == old_keys[t - 1]);
                    assert(newo[t] == old_out[t - 1]);
                }
            }
            vstd::seq_lib::to_multiset_insert(old_out, j as int, xs);
            assert(orig.take(i + 1) =~= orig.take(i as int).push(xs));
            vstd::seq_lib::to_multiset_build(orig.take(i as int), xs);
            assert forall|a: int, b: int| 0 <= a < b < newo.len() implies lower_le(
                #[trigger] newo[a],
                #[trigger] newo[b],
            ) by {
                if b < j {
                    assert(lower_le(old_out[a], old_out[b]));
                } else if b == j {
                    assert(lower_le(old_out[a], xs));
                } else if a < j {
                    lemma_lower_le_props(old_out[a], xs, old_out[b - 1]);
                    assert(lower_le(old_out[a], xs));
                    assert(lower_le(xs, old_out[b - 1]));
                } else if a == j {
                    assert(lower_le(xs, old_out[b - 1]));
                } else {
                    assert(lower_le(old_out[a - 1], old_out[b - 1]));
                }
            }
            assert forall|k: Seq<char>| #[trigger]
                newo.filter(lower_is(k)) == orig.take(i + 1).filter(lower_is(k)) by {
                let p = lower_is(k);
                let prev = orig.take(i as int);
                assert(old_out.filter(p) == prev.filter(p));
                lemma_filter_insert(old_out, j as int, xs, p);
                lemma_filter_split(old_out, j as int, p);
                lemma_filter_single(xs, p);
                let a = old_out.take(j as int).filter(p);
                let rest = old_out.skip(j as int);
                assert(orig.take(i + 1).filter(p) == (if p(xs) {
                    prev.filter(p).push(xs)
                } else {
                    prev.filter(p)
                })) by {
                    reveal_with_fuel(Seq::<_>::filter, 1);
                    assert(orig.take(i + 1).drop_last() =~= prev);
                    assert(orig.take(i + 1).last() == xs);
                }
                if p(xs) {
                    assert forall|t: int| 0 <= t < rest.len() implies !p(#[trigger] rest[t]) by {
                        assert(rest[t] == old_out[j + t]);
                        assert(!lower_le(old_out[j + t], xs));
                        lemma_lower_le_props(old_out[j + t], xs, xs);
                    }
                    rest.lemma_all_neg_filter_empty(p);
                    assert(rest.filter(p) =~= Seq::<Seq<char>>::empty());
                    assert(newo.filter(p) =~= a + seq![xs]);
                    assert(prev.filter(p) =~= a);
                } else {
                    assert(newo.filter(p) =~= a + rest.filter(p));
                }
            }
        }
        i = i + 1;
    }
    assert(orig.take(input.len() as int) =~= orig);
    out
}

} // verus!

verus! {

/// The completions offered for the typed text, from what the file-name
/// completer returned: shown in the typed style, without the typed text
/// itself and without repeats, sorted by ASCII lower-case form (stably),
/// at most [`MAX_PATH_COMPLETIONS`] of them.
pub fn rank_path_completions(
    completions: &Vec<String>,
    input: &str,
    mode: PathCompletionMode,
    current_dir: &str,
    home: &str,
) -> (r: Vec<String>)
    ensures
        exists|s: Seq<Seq<char>>|
            sorted_by_lower(s, completion_list(texts(completions@), mode, current_dir@, home@, input@))
                && texts(r@) == at_most(s, MAX_PATH_COMPLETIONS as nat),
{
    let typed = chars_of(input);
    let ghost cs = texts(completions@);
    let mut out: Vec<String> = Vec::new();
    let mut i: usize = 0;
    while i < completions.len()
        invariant
            i <= completions.len(),
            cs == texts(completions@),
            typed@ == input@,
            texts(out@) == completion_list(cs.take(i as int), mode, current_dir@, home@, input@),
        decreases completions.len() - i,
    {
        let ghost prefix = cs.take(i + 1);
        assert(prefix.drop_last() =~= cs.take(i as int));
        assert(prefix.last() == completions@[i as int]@);
        let shown_form = path_completion_display(completions[i].as_str(), mode, current_dir, home);
        match shown_form {
            Some(d) => {
                let dc = chars_of(d.as_str());
                if !chars_eq(&dc, &typed) && !is_taken(&dc, &out) {
                    out.push(d);
                    assert(texts(out@) =~= completion_list(
                        cs.take(i as int),
                        mode,
                        current_dir@,
                        home@,
                        input@,
                    ).push(dc@));
                }
            },
            None => {},
        }
        i = i + 1;
    }
    assert(cs.take(completions.len() as int) =~= cs);
    let mut sorted = sort_by_lower(out);
    let ghost full = texts(sorted@);
    if sorted.len() > MAX_PATH_COMPLETIONS {
        sorted.truncate(MAX_PATH_COMPLETIONS);
        assert(texts(sorted@) =~= full.take(MAX_PATH_COMPLETIONS as int));
    }
    assert(sorted_by_lower(full, completion_list(cs, mode, current_dir@, home@, input@)));
    assert(texts(sorted@) == at_most(full, MAX_PATH_COMPLETIONS as nat));
    sorted
}

} // verus!
