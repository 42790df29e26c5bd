//! Human-readable sizes, MIME type names and error texts.
use crate::number::{
    decimal, digit, digit_char, f64_value, f64_value_exec, push_decimal, round_half_even,
    round_half_even_exec,
};
use crate::keys::eq_lit;
use crate::model::{kind_label, FileItem, FileKind, TintRecord};
use crate::text::{
    chars_of, clone_opt_text, has_prefix, lower_ascii, lower_ascii_vec, opt_text, push_str,
    starts_with, string_of,
};
use vstd::prelude::*;

verus! {

/// Binary unit names: B, KB, MB, GB, TB.
pub open spec fn unit_name(u: nat) -> Seq<char> {
    if u == 0 {
        seq!['B']
    } else if u == 1 {
        seq!['K', 'B']
    } else if u == 2 {
        seq!['M', 'B']
    } else if u == 3 {
        seq!['G', 'B']
    } else {
        seq!['T', 'B']
    }
}

/// The unit reached by dividing `f` by 1024 while it stays at least 1024,
/// at most up to TB, with the divisor used: `(unit, 1024^unit)`.
pub open spec fn unit_for(f: nat, u: nat, d: nat) -> (nat, nat)
    decreases 4 - u,
{
    if u < 4 && f >= d * 1024 {
        unit_for(f, u + 1, d * 1024)
    } else {
        (u, d)
    }
}

/// A count of tenths printed with one decimal (`{:.1}`).
pub open spec fn tenths_text(t: nat) -> Seq<char> {
    decimal(t / 10) + seq!['.', digit(t % 10)]
}

/// The text of `format_file_size(b)`: whole bytes below 1 KB, otherwise the
/// double value of `b` divided by the unit and rounded to one decimal, ties
/// to even.
pub open spec fn file_size_text(b: nat) -> Seq<char> {
    let f = f64_value(b);
    let (u, d) = unit_for(f, 0, 1);
    if u == 0 {
        decimal(b) + seq![' ', 'B']
    } else {
        tenths_text(round_half_even(10 * f, d)) + seq![' '] + unit_name(u)
    }
}

fn push_unit(out: &mut Vec<char>, u: u8)
    ensures
        final(out)@ == old(out)@ + unit_name(u as nat),
{
    if u == 1 {
        out.push('K');
    } else if u == 2 {
        out.push('M');
    } else if u == 3 {
        out.push('G');
    } else if u >= 4 {
        out.push('T');
    }
    out.push('B');
    proof {
        assert(final(out)@ =~= old(out)@ + unit_name(u as nat));
    }
}

fn push_tenths(out: &mut Vec<char>, t: u128)
    ensures
        final(out)@ == old(out)@ + tenths_text(t as nat),
{
    push_decimal(out, t / 10);
    out.push('.');
    out.push(digit_char((t % 10) as u8));
    assert(final(out)@ =~= old(out)@ + tenths_text(t as nat));
}

/// Renders a size with one decimal in a fixed binary unit, from the double
/// value `f` of the size and the divisor `d` of that unit.
fn push_scaled(out: &mut Vec<char>, f: u128, d: u128, u: u8)
    requires
        d >= 1,
        f <= 18446744073709555712u128,
    ensures
        final(out)@ == old(out)@ + tenths_text(round_half_even(10 * f as nat, d as nat)) + seq![
            ' ',
        ] + unit_name(u as nat),
{
    let t = round_half_even_exec(10 * f, d);
    push_tenths(out, t);
    out.push(' ');
    push_unit(out, u);
    assert(final(out)@ =~= old(out)@ + tenths_text(round_half_even(10 * f as nat, d as nat))
        + seq![' '] + unit_name(u as nat));
}

/// A file size in binary units, as shown in the file grid and preview
/// ("512 B", "1.5 KB", "3.2 GB").
pub fn format_file_size(bytes: u64) -> (r: String)
    ensures
        r@ == file_size_text(bytes as nat),
{
    let f = f64_value_exec(bytes);
    let mut u: u8 = 0;
    let mut d: u128 = 1;
    while u < 4 && f >= d * 1024
        invariant
            u <= 4,
            1 <= d <= 1099511627776u128,
            d == 1 || u > 0,
            u == 0 ==> d == 1,
            u == 1 ==> d == 1024,
            u == 2 ==> d == 1048576,
            u == 3 ==> d == 1073741824,
            u == 4 ==> d == 1099511627776u128,
            unit_for(f as nat, 0, 1) == unit_for(f as nat, u as nat, d as nat),
        decreases 4 - u,
    {
        d = d * 1024;
        u = u + 1;
    }
    let mut out: Vec<char> = Vec::new();
    if u == 0 {
        push_decimal(&mut out, bytes as u128);
        out.push(' ');
        out.push('B');
        assert(out@ =~= decimal(bytes as nat) + seq![' ', 'B']);
    } else {
        push_scaled(&mut out, f, d, u);
        assert(out@ =~= tenths_text(round_half_even(10 * f as nat, d as nat)) + seq![' ']
            + unit_name(u as nat));
    }
    string_of(&out)
}

/// The size label of the space viewer; the same text as
/// [`format_file_size`], with zero written as "0 B".
pub fn format_size(bytes: u64) -> (r: String)
    ensures
        r@ == file_size_text(bytes as nat),
{
    if bytes == 0 {
        let mut out: Vec<char> = Vec::new();
        out.push('0');
        out.push(' ');
        out.push('B');
        proof {
            assert(f64_value(0) == 0) by {
                assert(crate::number::scale(0) == 1);
            }
            assert(unit_for(0, 0, 1) == (0nat, 1nat));
            assert(decimal(0) == seq![digit(0)]);
            assert(out@ =~= file_size_text(0));
        }
        return string_of(&out);
    }
    format_file_size(bytes)
}

/// The size column of the picker: empty for folders, whole bytes below 1 KB,
/// then KB, MB or GB (never TB) with one decimal of the double value.
pub open spec fn picker_size_text(bytes: Option<u64>) -> Seq<char> {
    match bytes {
        None => seq![],
        Some(b) => if b < 1024 {
            decimal(b as nat) + seq![' ', 'B']
        } else if b < 1048576 {
            tenths_text(round_half_even(10 * f64_value(b as nat), 1024)) + seq![' ', 'K', 'B']
        } else if b < 1073741824 {
            tenths_text(round_half_even(10 * f64_value(b as nat), 1048576)) + seq![' ', 'M', 'B']
        } else {
            tenths_text(round_half_even(10 * f64_value(b as nat), 1073741824)) + seq![
                ' ',
                'G',
                'B',
            ]
        },
    }
}

/// The picker's size column for an entry (`None` for folders).
pub fn picker_size_label(bytes: Option<u64>) -> (r: String)
    ensures
        r@ == picker_size_text(bytes),
{
    let mut out: Vec<char> = Vec::new();
    match bytes {
        None => {},
        Some(b) => {
            if b < 1024 {
                push_decimal(&mut out, b as u128);
                out.push(' ');
                out.push('B');
            } else {
                let f = f64_value_exec(b);
                if b < 1048576 {
                    push_scaled(&mut out, f, 1024, 1);
                } else if b < 1073741824 {
                    push_scaled(&mut out, f, 1048576, 2);
                } else {
                    push_scaled(&mut out, f, 1073741824, 3);
                }
            }
        },
    }
    assert(out@ =~= picker_size_text(bytes));
    string_of(&out)
}

} // verus!

verus! {

/// The friendly name of a (lower-case) MIME type, for the types the
/// preview knows by name.
pub open spec fn friendly_type_of(m: Seq<char>) -> Option<Seq<char>> {
    if m == "image/jpeg"@ || m == "image/jpg"@ {
        Some("JPEG Image"@)
    } else if m == "image/png"@ {
        Some("PNG Image"@)
    } else if m == "image/gif"@ {
        Some("GIF Image"@)
    } else if m == "image/webp"@ {
        Some("WebP Image"@)
    } else if m == "image/bmp"@ || m == "image/x-bmp"@ {
        Some("Bitmap Image"@)
    } else if m == "image/tiff"@ || m == "image/x-tiff"@ {
        Some("TIFF Image"@)
    } else if m == "image/svg+xml"@ {
        Some("SVG Image"@)
    } else if m == "image/avif"@ {
        Some("AVIF Image"@)
    } else if m == "image/heic"@ || m == "image/heif"@ {
        Some("HEIC Image"@)
    } else if m == "image/vnd.microsoft.icon"@ || m == "image/ico"@ || m == "image/x-icon"@ {
        Some("ICO Image"@)
    } else if m == "video/mp4"@ || m == "video/x-m4v"@ {
        Some("MPEG-4 Video"@)
    } else if m == "video/x-matroska"@ {
        Some("Matroska Video"@)
    } else if m == "video/quicktime"@ {
        Some("QuickTime Video"@)
    } else if m == "video/x-msvideo"@ {
        Some("AVI Video"@)
    } else if m == "video/webm"@ {
        Some("WebM Video"@)
    } else if m == "video/mpeg"@ || m == "video/x-mpeg"@ {
        Some("MPEG Video"@)
    } else if m == "video/ogg"@ || m == "video/x-ogm+ogg"@ {
        Some("OGG Video"@)
    } else if m == "video/x-ms-wmv"@ {
        Some("WMV Video"@)
    } else if m == "audio/mpeg"@ || m == "audio/mp3"@ || m == "audio/x-mp3"@ {
        Some("MP3 Audio"@)
    } else if m == "audio/flac"@ || m == "audio/x-flac"@ {
        Some("FLAC Audio"@)
    } else if m == "audio/wav"@ || m == "audio/x-wav"@ {
        Some("WAV Audio"@)
    } else if m == "audio/ogg"@ || m == "audio/vorbis"@ || m == "audio/x-vorbis+ogg"@ {
        Some("OGG Audio"@)
    } else if m == "audio/opus"@ || m == "audio/x-opus+ogg"@ {
        Some("Opus Audio"@)
    } else if m == "audio/aac"@ || m == "audio/x-aac"@ || m == "audio/mp4"@ {
        Some("AAC Audio"@)
    } else if m == "audio/x-m4a"@ {
        Some("M4A Audio"@)
    } else if m == "audio/x-ms-wma"@ {
        Some("WMA Audio"@)
    } else if m == "application/pdf"@ {
        Some("PDF Document"@)
    } else if m == "application/msword"@ {
        Some("Word Document"@)
    } else if m == "application/vnd.openxmlformats-officedocument.wordprocessingml.document"@ {
        Some("Word Document"@)
    } else if m == "application/vnd.oasis.opendocument.text"@ {
        Some("ODF Text"@)
    } else if m == "application/vnd.ms-excel"@ {
        Some("Excel Spreadsheet"@)
    } else if m == "application/vnd.openxmlformats-officedocument.spreadsheetml.sheet"@ {
        Some("Excel Spreadsheet"@)
    } else if m == "application/epub+zip"@ {
        Some("EPUB E-Book"@)
    } else if m == "application/zip"@ || m == "application/x-zip-compressed"@ {
        Some("ZIP Archive"@)
    } else if m == "application/x-tar"@ {
        Some("TAR Archive"@)
    } else if m == "application/gzip"@ || m == "application/x-gzip"@ {
        Some("GZip Archive"@)
    } else if m == "application/x-bzip2"@ {
        Some("BZip2 Archive"@)
    } else if m == "application/x-7z-compressed"@ {
        Some("7-Zip Archive"@)
    } else if m == "application/vnd.rar"@ || m == "application/x-rar-compressed"@ {
        Some("RAR Archive"@)
    } else if m == "application/java-archive"@ {
        Some("JAR Archive"@)
    } else if m == "text/plain"@ {
        Some("Plain Text"@)
    } else if m == "text/html"@ || m == "text/xhtml"@ || m == "application/xhtml+xml"@ {
        Some("HTML Document"@)
    } else if m == "text/css"@ {
        Some("CSS Stylesheet"@)
    } else if m == "text/javascript"@ || m == "application/javascript"@ {
        Some("JavaScript Source"@)
    } else if m == "application/json"@ {
        Some("JSON Data"@)
    } else if m == "application/xml"@ || m == "text/xml"@ {
        Some("XML Document"@)
    } else if m == "text/x-python"@ || m == "application/x-python"@ {
        Some("Python Source"@)
    } else if m == "text/x-rust"@ || m == "application/x-rust"@ {
        Some("Rust Source"@)
    } else if m == "text/x-csrc"@ || m == "text/x-c"@ {
        Some("C Source"@)
    } else if m == "text/x-c++src"@ {
        Some("C++ Source"@)
    } else if m == "text/x-shellscript"@ || m == "application/x-shellscript"@ {
        Some("Shell Script"@)
    } else if m == "text/markdown"@ {
        Some("Markdown Text"@)
    } else {
        None
    }
}

/// The text of an optional string slice.
pub open spec fn opt_str(o: Option<&str>) -> Option<Seq<char>> {
    match o {
        Some(s) => Some(s@),
        None => None,
    }
}

/// The friendly name of a MIME type ("image/png" is "PNG Image"), if it is
/// one of the known types; the type is compared as given.
pub fn mime_to_friendly_type(mime: &str) -> (r: Option<&'static str>)
    ensures
        opt_str(r) == friendly_type_of(mime@),
{
    let m = chars_of(mime);
    if eq_lit(&m, "image/jpeg") || eq_lit(&m, "image/jpg") {
        Some("JPEG Image")
    } else if eq_lit(&m, "image/png") {
        Some("PNG Image")
    } else if eq_lit(&m, "image/gif") {
        Some("GIF Image")
    } else if eq_lit(&m, "image/webp") {
        Some("WebP Image")
    } else if eq_lit(&m, "image/bmp") || eq_lit(&m, "image/x-bmp") {
        Some("Bitmap Image")
    } else if eq_lit(&m, "image/tiff") || eq_lit(&m, "image/x-tiff") {
        Some("TIFF Image")
    } else if eq_lit(&m, "image/svg+xml") {
        Some("SVG Image")
    } else if eq_lit(&m, "image/avif") {
        Some("AVIF Image")
    } else if eq_lit(&m, "image/heic") || eq_lit(&m, "image/heif") {
        Some("HEIC Image")
    } else if eq_lit(&m, "image/vnd.microsoft.icon") || eq_lit(&m, "image/ico") || eq_lit(&m, "image/x-icon") {
        Some("ICO Image")
    } else if eq_lit(&m, "video/mp4") || eq_lit(&m, "video/x-m4v") {
        Some("MPEG-4 Video")
    } else if eq_lit(&m, "video/x-matroska") {
        Some("Matroska Video")
    } else if eq_lit(&m, "video/quicktime") {
        Some("QuickTime Video")
    } else if eq_lit(&m, "video/x-msvideo") {
        Some("AVI Video")
    } else if eq_lit(&m, "video/webm") {
        Some("WebM Video")
    } else if eq_lit(&m, "video/mpeg") || eq_lit(&m, "video/x-mpeg") {
        Some("MPEG Video")
    } else if eq_lit(&m, "video/ogg") || eq_lit(&m, "video/x-ogm+ogg") {
        Some("OGG Video")
    } else if eq_lit(&m, "video/x-ms-wmv") {
        Some("WMV Video")
    } else if eq_lit(&m, "audio/mpeg") || eq_lit(&m, "audio/mp3") || eq_lit(&m, "audio/x-mp3") {
        Some("MP3 Audio")
    } else if eq_lit(&m, "audio/flac") || eq_lit(&m, "audio/x-flac") {
        Some("FLAC Audio")
    } else if eq_lit(&m, "audio/wav") || eq_lit(&m, "audio/x-wav") {
        Some("WAV Audio")
    } else if eq_lit(&m, "audio/ogg") || eq_lit(&m, "audio/vorbis") || eq_lit(&m, "audio/x-vorbis+ogg") {
        Some("OGG Audio")
    } else if eq_lit(&m, "audio/opus") || eq_lit(&m, "audio/x-opus+ogg") {
        Some("Opus Audio")
    } else if eq_lit(&m, "audio/aac") || eq_lit(&m, "audio/x-aac") || eq_lit(&m, "audio/mp4") {
        Some("AAC Audio")
    } else if eq_lit(&m, "audio/x-m4a") {
        Some("M4A Audio")
    } else if eq_lit(&m, "audio/x-ms-wma") {
        Some("WMA Audio")
    } else if eq_lit(&m, "application/pdf") {
        Some("PDF Document")
    } else if eq_lit(&m, "application/msword") {
        Some("Word Document")
    } else if eq_lit(&m, "application/vnd.openxmlformats-officedocument.wordprocessingml.document") {
        Some("Word Document")
    } else if eq_lit(&m, "application/vnd.oasis.opendocument.text") {
        Some("ODF Text")
    } else if eq_lit(&m, "application/vnd.ms-excel") {
        Some("Excel Spreadsheet")
    } else if eq_lit(&m, "application/vnd.openxmlformats-officedocument.spreadsheetml.sheet") {
        Some("Excel Spreadsheet")
    } else if eq_lit(&m, "application/epub+zip") {
        Some("EPUB E-Book")
    } else if eq_lit(&m, "application/zip") || eq_lit(&m, "application/x-zip-compressed") {
        Some("ZIP Archive")
    } else if eq_lit(&m, "application/x-tar") {
        Some("TAR Archive")
    } else if eq_lit(&m, "application/gzip") || eq_lit(&m, "application/x-gzip") {
        Some("GZip Archive")
    } else if eq_lit(&m, "application/x-bzip2") {
        Some("BZip2 Archive")
    } else if eq_lit(&m, "application/x-7z-compressed") {
        Some("7-Zip Archive")
    } else if eq_lit(&m, "application/vnd.rar") || eq_lit(&m, "application/x-rar-compressed") {
        Some("RAR Archive")
    } else if eq_lit(&m, "application/java-archive") {
        Some("JAR Archive")
    } else if eq_lit(&m, "text/plain") {
        Some("Plain Text")
    } else if eq_lit(&m, "text/html") || eq_lit(&m, "text/xhtml") || eq_lit(&m, "application/xhtml+xml") {
        Some("HTML Document")
    } else if eq_lit(&m, "text/css") {
        Some("CSS Stylesheet")
    } else if eq_lit(&m, "text/javascript") || eq_lit(&m, "application/javascript") {
        Some("JavaScript Source")
    } else if eq_lit(&m, "application/json") {
        Some("JSON Data")
    } else if eq_lit(&m, "application/xml") || eq_lit(&m, "text/xml") {
        Some("XML Document")
    } else if eq_lit(&m, "text/x-python") || eq_lit(&m, "application/x-python") {
        Some("Python Source")
    } else if eq_lit(&m, "text/x-rust") || eq_lit(&m, "application/x-rust") {
        Some("Rust Source")
    } else if eq_lit(&m, "text/x-csrc") || eq_lit(&m, "text/x-c") {
        Some("C Source")
    } else if eq_lit(&m, "text/x-c++src") {
        Some("C++ Source")
    } else if eq_lit(&m, "text/x-shellscript") || eq_lit(&m, "application/x-shellscript") {
        Some("Shell Script")
    } else if eq_lit(&m, "text/markdown") {
        Some("Markdown Text")
    } else {
        None
    }
}

/// The type line of the preview pane: the friendly name of the
/// lower-cased MIME type when it is known; "Audio" for an unknown kind of
/// file with an `audio/` type; otherwise the label of the item's kind.
pub open spec fn preview_label_of(kind: FileKind, mime: Seq<char>) -> Seq<char> {
    let low = lower_ascii(mime);
    match friendly_type_of(low) {
        Some(f) => f,
        None => if kind == FileKind::Unknown && has_prefix(low, "audio/"@) {
            "Audio"@
        } else {
            kind_label(kind)
        },
    }
}

/// The type shown for an item in the preview pane.
pub fn preview_type_label(item: &FileItem, mime: &str) -> (r: String)
    ensures
        r@ == preview_label_of(item.kind, mime@),
{
    let low = lower_ascii_vec(&chars_of(mime));
    let lows = string_of(&low);
    match mime_to_friendly_type(lows.as_str()) {
        Some(f) => String::from_str(f),
        None => {
            let audio = chars_of("audio/");
            if item.kind == FileKind::Unknown && starts_with(&low, &audio) {
                String::from_str("Audio")
            } else {
                String::from_str(item.kind.label())
            }
        },
    }
}

/// The first tint of the list with the given id.
pub open spec fn tint_with_id(ts: Seq<TintRecord>, id: i64) -> Option<TintRecord>
    decreases ts.len(),
{
    if ts.len() == 0 {
        None
    } else if ts[0].id == id {
        Some(ts[0])
    } else {
        tint_with_id(ts.drop_first(), id)
    }
}

/// The first tint of the list marked as the default.
pub open spec fn default_tint(ts: Seq<TintRecord>) -> Option<TintRecord>
    decreases ts.len(),
{
    if ts.len() == 0 {
        None
    } else if ts[0].is_default {
        Some(ts[0])
    } else {
        default_tint(ts.drop_first())
    }
}

/// The name and colour shown for a mark: the tint with the mark's id, else
/// the default tint, else "Beige"; the colour given by the caller wins over
/// the tint's own.
pub open spec fn tint_display(ts: Seq<TintRecord>, id: i64, fallback: Option<Seq<char>>) -> (
    Seq<char>,
    Option<Seq<char>>,
) {
    let pick = |t: TintRecord|
        (t.name@, if fallback is Some {
            fallback
        } else {
            opt_text(t.color)
        });
    match tint_with_id(ts, id) {
        Some(t) => pick(t),
        None => match default_tint(ts) {
            Some(t) => pick(t),
            None => ("Beige"@, fallback),
        },
    }
}

pub(crate) fn find_tint_with_id(ts: &[TintRecord], id: i64) -> (r: Option<usize>)
    ensures
        match r {
            Some(i) => i < ts@.len() && tint_with_id(ts@, id) == Some(ts@[i as int]),
            None => tint_with_id(ts@, id) is None,
        },
{
    let mut i: usize = 0;
    assert(ts@.subrange(0, ts@.len() as int) =~= ts@);
    while i < ts.len()
        invariant
            i <= ts@.len(),
            tint_with_id(ts@, id) == tint_with_id(ts@.subrange(i as int, ts@.len() as int), id),
        decreases ts.len() - i,
    {
        let ghost rest = ts@.subrange(i as int, ts@.len() as int);
        assert(rest.drop_first() =~= ts@.subrange(i + 1, ts@.len() as int));
        if ts[i].id == id {
            return Some(i);
        }
        i = i + 1;
    }
    assert(ts@.subrange(i as int, ts@.len() as int).len() == 0);
    None
}

fn find_default_tint(ts: &[TintRecord]) -> (r: Option<usize>)
    ensures
        match r {
            Some(i) => i < ts@.len() && default_tint(ts@) == Some(ts@[i as int]),
            None => default_tint(ts@) is None,
        },
{
    let mut i: usize = 0;
    assert(ts@.subrange(0, ts@.len() as int) =~= ts@);
    while i < ts.len()
        invariant
            i <= ts@.len(),
            default_tint(ts@) == default_tint(ts@.subrange(i as int, ts@.len() as int)),
        decreases ts.len() - i,
    {
        let ghost rest = ts@.subrange(i as int, ts@.len() as int);
        assert(rest.drop_first() =~= ts@.subrange(i + 1, ts@.len() as int));
        if ts[i].is_default {
            return Some(i);
        }
        i = i + 1;
    }
    assert(ts@.subrange(i as int, ts@.len() as int).len() == 0);
    None
}

fn name_and_color(t: &TintRecord, fallback: Option<String>) -> (r: (String, Option<String>))
    ensures
        (r.0@, opt_text(r.1)) == (t.name@, if fallback is Some {
            opt_text(fallback)
        } else {
            opt_text(t.color)
        }),
{
    let color = match fallback {
        Some(c) => Some(c),
        None => clone_opt_text(&t.color),
    };
    (t.name.clone(), color)
}

/// The name and colour shown for a mark with tint `tint_id`.
pub fn tint_name_and_color(tints: &[TintRecord], tint_id: i64, fallback_color: Option<String>) -> (r: (
    String,
    Option<String>,
))
    ensures
        (r.0@, opt_text(r.1)) == tint_display(tints@, tint_id, opt_text(fallback_color)),
{
    match find_tint_with_id(tints, tint_id) {
        Some(i) => name_and_color(&tints[i], fallback_color),
        None => match find_default_tint(tints) {
            Some(i) => name_and_color(&tints[i], fallback_color),
            None => (String::from_str("Beige"), fallback_color),
        },
    }
}

} // verus!

verus! {

/// The advice shown when the trash cannot be reached, naming the services
/// it depends on.
pub const TRASH_GVFS_DIAGNOSTIC: &'static str = "Trash support may require GVfs. Install gvfs, udisks2, and polkit, then log out/in or reboot.\n\nUbuntu/Pop!_OS: sudo apt install gvfs udisks2 polkitd\nArch/CachyOS:   sudo pacman -Syu --needed gvfs udisks2 polkit\nFedora:         sudo dnf install gvfs udisks2 polkit\nVoid:           sudo xbps-install gvfs udisks2 polkit dbus\n\nTroubleshooting:\ngio list trash:///\ngio trash --list\ngio mount -l";

/// The kind of a failed file operation, as reported by the I/O layer;
/// `Other` covers every other kind and errors outside the I/O domain.
#[derive(Clone, Copy, Debug, PartialEq, Eq, Structural)]
pub enum IoErrorKind {
    PermissionDenied,
    NotFound,
    Exists,
    NotSupported,
    NotMounted,
    Other,
}

/// The title and explanation shown for a failed operation; for a kind
/// without its own text, the error's own message.
pub open spec fn friendly_error_text(kind: IoErrorKind, message: Seq<char>) -> (Seq<char>, Seq<char>) {
    match kind {
        IoErrorKind::PermissionDenied => (
            "Permission Denied"@,
            "Lattice does not have permission to complete this operation."@,
        ),
        IoErrorKind::NotFound => ("File Not Found"@, "The selected file or folder no longer exists."@),
        IoErrorKind::Exists => (
            "Name Conflict"@,
            "An item with that name already exists in this location."@,
        ),
        _ => ("Operation Failed"@, message),
    }
}

/// The title and explanation for a failed operation.
pub fn friendly_error(kind: IoErrorKind, message: &str) -> (r: (&'static str, String))
    ensures
        (r.0@, r.1@) == friendly_error_text(kind, message@),
{
    match kind {
        IoErrorKind::PermissionDenied => (
            "Permission Denied",
            String::from_str("Lattice does not have permission to complete this operation."),
        ),
        IoErrorKind::NotFound => (
            "File Not Found",
            String::from_str("The selected file or folder no longer exists."),
        ),
        IoErrorKind::Exists => (
            "Name Conflict",
            String::from_str("An item with that name already exists in this location."),
        ),
        _ => ("Operation Failed", String::from_str(message)),
    }
}

/// "title: explanation" for a failed operation.
pub open spec fn error_detail_text(kind: IoErrorKind, message: Seq<char>) -> Seq<char> {
    let (title, detail) = friendly_error_text(kind, message);
    title + ": "@ + detail
}

/// The one-line description of a failed operation.
pub fn friendly_error_detail(kind: IoErrorKind, message: &str) -> (r: String)
    ensures
        r@ == error_detail_text(kind, message@),
{
    let (title, detail) = friendly_error(kind, message);
    let mut out: Vec<char> = Vec::new();
    push_str(&mut out, title);
    push_str(&mut out, ": ");
    push_str(&mut out, detail.as_str());
    string_of(&out)
}

/// The description of a failed move to the trash: the one-line description
/// followed by advice that depends on the kind of failure.
pub open spec fn trash_error_text(kind: IoErrorKind, message: Seq<char>) -> Seq<char> {
    let base = error_detail_text(kind, message);
    match kind {
        IoErrorKind::NotSupported => base
            + ". This filesystem or mount may not support Trash. Permanent Delete is available only through the explicit confirmation flow."@,
        IoErrorKind::NotMounted => base + ". The mount may have disappeared or is not available."@,
        IoErrorKind::PermissionDenied => base + ". Check mount permissions or GVfs/portal access."@,
        _ => base + ". "@ + TRASH_GVFS_DIAGNOSTIC@,
    }
}

/// The description shown when moving items to the trash failed.
pub fn trash_operation_error_detail(kind: IoErrorKind, message: &str) -> (r: String)
    ensures
        r@ == trash_error_text(kind, message@),
{
    let base = friendly_error_detail(kind, message);
    let mut out: Vec<char> = chars_of(base.as_str());
    match kind {
        IoErrorKind::NotSupported => push_str(
            &mut out,
            ". This filesystem or mount may not support Trash. Permanent Delete is available only through the explicit confirmation flow.",
        ),
        IoErrorKind::NotMounted => push_str(
            &mut out,
            ". The mount may have disappeared or is not available.",
        ),
        IoErrorKind::PermissionDenied => push_str(
            &mut out,
            ". Check mount permissions or GVfs/portal access.",
        ),
        _ => {
            push_str(&mut out, ". ");
            push_str(&mut out, TRASH_GVFS_DIAGNOSTIC);
        },
    }
    string_of(&out)
}

} // verus!
