//! The media conversion panel: which files a preset converts, where the
//! results go, and the texts that summarise a batch.
use crate::naming::or_text;
use crate::number::{decimal, push_decimal};
use crate::path::{file_name, file_stem, path_file_name, path_file_stem};
use crate::text::{append_chars, chars_of, push_str, string_of};
use vstd::prelude::*;

verus! {

/// The kind of a media file.
#[derive(Clone, Copy, Debug, PartialEq, Eq, Structural)]
pub enum MediaKind {
    Image,
    Audio,
    Video,
    Unknown,
}

/// A file offered for conversion.
#[derive(Clone, Debug)]
pub struct ConvertItem {
    pub path: String,
    pub kind: MediaKind,
}

/// A conversion preset: the kind of file it takes and the extension it
/// writes.
#[derive(Clone, Debug)]
pub struct PresetInfo {
    pub kind: MediaKind,
    pub ext: String,
}

/// Which files the convert panel works on: chosen by itself, those in the
/// holding tray, or the selection.
#[derive(Clone, Copy, Debug, PartialEq, Eq, Structural, Default)]
pub enum ConvertSourceMode {
    #[default]
    Auto,
    Tray,
    Selection,
}

/// Where converted files are written.
#[derive(Clone, Debug)]
pub enum OutputLocationMode {
    NextToSource,
    Subfolder(String),
    ChosenFolder(String),
}

/// The badge shown before a file of a kind.
pub open spec fn kind_badge_text(kind: MediaKind) -> Seq<char> {
    match kind {
        MediaKind::Image => "\u{1f5bc}"@,
        MediaKind::Audio => "\u{1f3b5}"@,
        MediaKind::Video => "\u{1f3ac}"@,
        MediaKind::Unknown => "\u{2753}"@,
    }
}

/// The badge of a media kind.
pub fn kind_badge(kind: MediaKind) -> (r: &'static str)
    ensures
        r@ == kind_badge_text(kind),
{
    match kind {
        MediaKind::Image => "\u{1f5bc}",
        MediaKind::Audio => "\u{1f3b5}",
        MediaKind::Video => "\u{1f3ac}",
        MediaKind::Unknown => "\u{2753}",
    }
}

/// The name a converted file gets: the source's stem with the preset's
/// extension, under the subfolder or chosen folder when there is one.
pub open spec fn dest_preview_text(source: Seq<char>, ext: Seq<char>, mode: OutputLocationMode) -> Seq<
    char,
> {
    let filename = or_text(file_stem(source), seq![]) + seq!['.'] + ext;
    match mode {
        OutputLocationMode::NextToSource => filename,
        OutputLocationMode::Subfolder(name) => name@ + seq!['/'] + filename,
        OutputLocationMode::ChosenFolder(path) => path@ + seq!['/'] + filename,
    }
}

/// The destination shown for a file converted with a preset.
pub fn dest_preview_name(source: &str, ext: &str, output_mode: &OutputLocationMode) -> (r: String)
    ensures
        r@ == dest_preview_text(source@, ext@, *output_mode),
{
    let mut filename: Vec<char> = Vec::new();
    match path_file_stem(&chars_of(source)) {
        Some(s) => append_chars(&mut filename, &s),
        None => {},
    }
    filename.push('.');
    push_str(&mut filename, ext);
    assert(filename@ =~= or_text(file_stem(source@), seq![]) + seq!['.'] + ext@);
    let mut out: Vec<char> = Vec::new();
    match output_mode {
        OutputLocationMode::NextToSource => {},
        OutputLocationMode::Subfolder(name) => {
            push_str(&mut out, name.as_str());
            out.push('/');
        },
        OutputLocationMode::ChosenFolder(path) => {
            push_str(&mut out, path.as_str());
            out.push('/');
        },
    }
    append_chars(&mut out, &filename);
    assert(out@ =~= dest_preview_text(source@, ext@, *output_mode));
    string_of(&out)
}

/// How many items are of the kind.
pub open spec fn kind_count(items: Seq<ConvertItem>, k: MediaKind) -> nat {
    items.filter(|i: ConvertItem| i.kind == k).len()
}

fn count_kind(items: &[ConvertItem], k: MediaKind) -> (n: usize)
    ensures
        n == kind_count(items@, k),
{
    let ghost p = |i: ConvertItem| i.kind == k;
    let mut n: usize = 0;
    let mut i: usize = 0;
    while i < items.len()
        invariant
            i <= items@.len(),
            n == items@.take(i as int).filter(p).len(),
            n <= i,
            p == (|i: ConvertItem| i.kind == k),
        decreases items.len() - i,
    {
        proof {
            reveal_with_fuel(Seq::<_>::filter, 1);
            assert(items@.take(i + 1).drop_last() =~= items@.take(i as int));
        }
        if items[i].kind == k {
            n = n + 1;
        }
        i = i + 1;
    }
    assert(items@.take(items@.len() as int) =~= items@);
    n
}

/// The kind most of the files have: images, then audio, then video win
/// ties; nothing when there is no image, audio or video file.
pub open spec fn dominant_kind_of(items: Seq<ConvertItem>) -> Option<MediaKind> {
    let images = kind_count(items, MediaKind::Image);
    let audio = kind_count(items, MediaKind::Audio);
    let video = kind_count(items, MediaKind::Video);
    if images == 0 && audio == 0 && video == 0 {
        None
    } else if images >= audio && images >= video {
        Some(MediaKind::Image)
    } else if audio >= video {
        Some(MediaKind::Audio)
    } else {
        Some(MediaKind::Video)
    }
}

/// The kind most of the files have.
pub fn dominant_kind(items: &[ConvertItem]) -> (r: Option<MediaKind>)
    ensures
        r == dominant_kind_of(items@),
{
    let images = count_kind(items, MediaKind::Image);
    let audio = count_kind(items, MediaKind::Audio);
    let video = count_kind(items, MediaKind::Video);
    if images == 0 && audio == 0 && video == 0 {
        None
    } else if images >= audio && images >= video {
        Some(MediaKind::Image)
    } else if audio >= video {
        Some(MediaKind::Audio)
    } else {
        Some(MediaKind::Video)
    }
}

/// The position of the first preset for kind `k`, or -1.
pub open spec fn first_of_kind(ps: Seq<PresetInfo>, k: MediaKind) -> int
    decreases ps.len(),
{
    if ps.len() == 0 {
        -1
    } else if ps[0].kind == k {
        0
    } else {
        let r = first_of_kind(ps.drop_first(), k);
        if r < 0 {
            -1
        } else {
            r + 1
        }
    }
}

/// The position of the first preset for the kind, or the first preset.
pub open spec fn best_preset_for(presets: Seq<PresetInfo>, kind: Option<MediaKind>) -> nat {
    match kind {
        Some(k) => if first_of_kind(presets, k) >= 0 {
            first_of_kind(presets, k) as nat
        } else {
            0
        },
        None => 0,
    }
}

proof fn lemma_first_of_kind(ps: Seq<PresetInfo>, k: MediaKind, i: int)
    requires
        0 <= i <= ps.len(),
        forall|j: int| 0 <= j < i ==> (#[trigger] ps[j]).kind != k,
        i < ps.len() ==> ps[i].kind == k,
    ensures
        first_of_kind(ps, k) == (if i < ps.len() {
            i
        } else {
            -1
        }),
    decreases i,
{
    if i > 0 {
        assert forall|j: int| 0 <= j < i - 1 implies (#[trigger] ps.drop_first()[j]).kind != k by {
            assert(ps.drop_first()[j] == ps[j + 1]);
        }
        lemma_first_of_kind(ps.drop_first(), k, i - 1);
        assert(ps[0].kind != k);
    }
}

/// The preset picked for a kind: the first that converts it, else the first.
pub fn best_preset_idx_for(kind: Option<MediaKind>, presets: &Vec<PresetInfo>) -> (r: usize)
    ensures
        r == best_preset_for(presets@, kind),
{
    match kind {
        Some(k) => {
            let mut i: usize = 0;
            while i < presets.len()
                invariant
                    i <= presets@.len(),
                    kind == Some(k),
                    forall|j: int| 0 <= j < i ==> (#[trigger] presets@[j]).kind != k,
                decreases presets.len() - i,
            {
                if presets[i].kind == k {
                    proof {
                        lemma_first_of_kind(presets@, k, i as int);
                    }
                    return i;
                }
                i = i + 1;
            }
            proof {
                lemma_first_of_kind(presets@, k, i as int);
            }
            0
        },
        None => 0,
    }
}

/// The summary under the file list: how many files will convert and how
/// many are skipped for the wrong type, or that none match.
pub open spec fn convert_summary_text(total: nat, compatible: nat) -> Seq<char> {
    let skipped = total - compatible;
    if compatible == 0 {
        if skipped > 0 {
            "None of the "@ + decimal(skipped as nat) + " selected file"@ + plural(skipped as nat)
                + " match this preset \u{2014} choose a different preset."@
        } else {
            "No files selected."@
        }
    } else if skipped > 0 {
        decimal(compatible) + " file"@ + plural(compatible) + " will convert; "@ + decimal(
            skipped as nat,
        ) + " skipped (wrong type for this preset). Originals are never modified."@
    } else {
        decimal(compatible) + " file"@ + plural(compatible)
            + " ready to convert. Originals are never modified."@
    }
}

/// "s" unless the count is one.
pub open spec fn plural(n: nat) -> Seq<char> {
    if n == 1 {
        seq![]
    } else {
        seq!['s']
    }
}

fn push_plural(out: &mut Vec<char>, n: usize)
    ensures
        final(out)@ == old(out)@ + plural(n as nat),
{
    if n != 1 {
        out.push('s');
    }
    assert(final(out)@ =~= old(out)@ + plural(n as nat));
}

/// The summary of a batch of `total` files of which `compatible` match the
/// preset.
pub fn convert_summary(total: usize, compatible: usize) -> (r: String)
    requires
        compatible <= total,
    ensures
        r@ == convert_summary_text(total as nat, compatible as nat),
{
    let skipped = total - compatible;
    let mut out: Vec<char> = Vec::new();
    if compatible == 0 {
        if skipped > 0 {
            push_str(&mut out, "None of the ");
            push_decimal(&mut out, skipped as u128);
            push_str(&mut out, " selected file");
            push_plural(&mut out, skipped);
            push_str(&mut out, " match this preset \u{2014} choose a different preset.");
        } else {
            push_str(&mut out, "No files selected.");
        }
    } else if skipped > 0 {
        push_decimal(&mut out, compatible as u128);
        push_str(&mut out, " file");
        push_plural(&mut out, compatible);
        push_str(&mut out, " will convert; ");
        push_decimal(&mut out, skipped as u128);
        push_str(&mut out, " skipped (wrong type for this preset). Originals are never modified.");
    } else {
        push_decimal(&mut out, compatible as u128);
        push_str(&mut out, " file");
        push_plural(&mut out, compatible);
        push_str(&mut out, " ready to convert. Originals are never modified.");
    }
    assert(out@ =~= convert_summary_text(total as nat, compatible as nat));
    string_of(&out)
}

/// The most files the preview lists.
pub const PREVIEW_LIMIT: usize = 200;

/// The line under a cut preview: how many files are not shown.
pub open spec fn more_files_text(hidden: nat) -> Seq<char> {
    "\u{2026}and "@ + decimal(hidden) + " more file"@ + plural(hidden) + " not shown"@
}

/// The line under the preview when files were left out of it.
pub fn more_files_label(total: usize) -> (r: Option<String>)
    ensures
        match r {
            Some(s) => total > PREVIEW_LIMIT && s@ == more_files_text((total - PREVIEW_LIMIT) as nat),
            None => total <= PREVIEW_LIMIT,
        },
{
    if total <= PREVIEW_LIMIT {
        return None;
    }
    let hidden = total - PREVIEW_LIMIT;
    let mut out: Vec<char> = Vec::new();
    push_str(&mut out, "\u{2026}and ");
    push_decimal(&mut out, hidden as u128);
    push_str(&mut out, " more file");
    push_plural(&mut out, hidden);
    push_str(&mut out, " not shown");
    assert(out@ =~= more_files_text(hidden as nat));
    Some(string_of(&out))
}

/// The destination column of a preview row: the converted name when the
/// preset takes the file's kind, "(skipped)" when it does not, a dash when
/// no preset is chosen.
pub open spec fn dest_column_text(item: ConvertItem, preset: Option<PresetInfo>, mode: OutputLocationMode) -> Seq<
    char,
> {
    match preset {
        Some(p) => if item.kind == p.kind {
            dest_preview_text(item.path@, p.ext@, mode)
        } else {
            "(skipped)"@
        },
        None => "\u{2014}"@,
    }
}

/// The destination column of a preview row.
pub fn dest_column(item: &ConvertItem, preset: Option<&PresetInfo>, output_mode: &OutputLocationMode) -> (r:
    String)
    ensures
        r@ == dest_column_text(
            *item,
            match preset {
                Some(p) => Some(*p),
                None => None,
            },
            *output_mode,
        ),
{
    match preset {
        Some(p) => if item.kind == p.kind {
            dest_preview_name(item.path.as_str(), p.ext.as_str(), output_mode)
        } else {
            String::from_str("(skipped)")
        },
        None => String::from_str("\u{2014}"),
    }
}

/// The name column of a preview row: the source's file name.
pub fn source_name(item: &ConvertItem) -> (r: String)
    ensures
        r@ == or_text(file_name(item.path@), seq![]),
{
    match path_file_name(&chars_of(item.path.as_str())) {
        Some(n) => string_of(&n),
        None => {
            proof {
                reveal_strlit("");
            }
            String::new()
        },
    }
}

/// The warning shown when a preset's tool is missing.
pub open spec fn tool_warning_text(name: Seq<char>, hint: Seq<char>) -> Seq<char> {
    name + " not found \u{2014} conversion unavailable.\n"@ + hint
}

/// The warning for a missing conversion tool, from its name and install
/// hint.
pub fn tool_warning(name: &str, hint: &str) -> (r: String)
    ensures
        r@ == tool_warning_text(name@, hint@),
{
    let mut out: Vec<char> = Vec::new();
    push_str(&mut out, name);
    push_str(&mut out, " not found \u{2014} conversion unavailable.\n");
    push_str(&mut out, hint);
    string_of(&out)
}

/// The convert button is enabled when some file matches and the tool is
/// there.
pub fn convert_enabled(compatible: usize, tool_ok: bool) -> (r: bool)
    ensures
        r == (compatible > 0 && tool_ok),
{
    compatible > 0 && tool_ok
}

} // verus!
