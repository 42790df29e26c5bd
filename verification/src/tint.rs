//! Tint colours: `#rrggbb` texts, their channels, and the style rules that
//! show a mark's tint on cards and list rows.
use crate::model::TintRecord;
use crate::number::{decimal, push_decimal};
use crate::text::{chars_of, is_ws, push_str, string_of, trim, trim_vec};
use vstd::prelude::*;

verus! {

/// The colour used when a tint has none.
pub const DEFAULT_TINT_COLOR: &'static str = "#806040";

/// The value of a hexadecimal digit, either case.
pub open spec fn hex_value(c: char) -> Option<nat> {
    if '0' <= c && c <= '9' {
        Some((c as nat - '0' as nat) as nat)
    } else if 'a' <= c && c <= 'f' {
        Some((c as nat - 'a' as nat + 10) as nat)
    } else if 'A' <= c && c <= 'F' {
        Some((c as nat - 'A' as nat + 10) as nat)
    } else {
        None
    }
}

/// The lower-case hexadecimal digit for `d < 16`.
pub open spec fn hex_digit(d: nat) -> char {
    if d < 10 {
        (('0' as nat) + d) as char
    } else {
        (('a' as nat) + d - 10) as char
    }
}

/// `s` without its leading `#` characters (`trim_start_matches('#')`).
pub open spec fn drop_hashes(s: Seq<char>) -> Seq<char>
    decreases s.len(),
{
    if s.len() > 0 && s[0] == '#' {
        drop_hashes(s.drop_first())
    } else {
        s
    }
}

/// The byte made of two hexadecimal digits.
pub open spec fn byte_of(hi: char, lo: char) -> nat {
    hex_value(hi).unwrap() * 16 + hex_value(lo).unwrap()
}

/// The channels of a colour written `#rrggbb` (surrounding whitespace and
/// any number of leading `#` allowed, digits in either case); nothing for
/// any other text.
pub open spec fn hex_rgb_of(hex: Seq<char>) -> Option<(u8, u8, u8)> {
    let s = drop_hashes(trim(hex));
    if s.len() == 6 && forall|i: int| 0 <= i < 6 ==> #[trigger] hex_value(s[i]) is Some {
        Some((byte_of(s[0], s[1]) as u8, byte_of(s[2], s[3]) as u8, byte_of(s[4], s[5]) as u8))
    } else {
        None
    }
}

/// The `#rrggbb` text of a colour, lower-case digits.
pub open spec fn rgb_hex_text(rgb: (u8, u8, u8)) -> Seq<char> {
    seq![
        '#',
        hex_digit(rgb.0 as nat / 16),
        hex_digit(rgb.0 as nat % 16),
        hex_digit(rgb.1 as nat / 16),
        hex_digit(rgb.1 as nat % 16),
        hex_digit(rgb.2 as nat / 16),
        hex_digit(rgb.2 as nat % 16),
    ]
}

fn hex_value_exec(c: char) -> (r: Option<u8>)
    ensures
        match r {
            Some(v) => hex_value(c) == Some(v as nat),
            None => hex_value(c) is None,
        },
{
    if '0' <= c && c <= '9' {
        Some((c as u8) - 48)
    } else if 'a' <= c && c <= 'f' {
        Some((c as u8) - 87)
    } else if 'A' <= c && c <= 'F' {
        Some((c as u8) - 55)
    } else {
        None
    }
}

fn hex_digit_exec(d: u8) -> (c: char)
    requires
        d < 16,
    ensures
        c == hex_digit(d as nat),
{
    if d < 10 {
        (48u8 + d) as char
    } else {
        (87u8 + d) as char
    }
}

proof fn lemma_drop_hashes_skip(s: Seq<char>, i: int)
    requires
        0 <= i <= s.len(),
        forall|k: int| 0 <= k < i ==> s[k] == '#',
    ensures
        drop_hashes(s) == drop_hashes(s.subrange(i, s.len() as int)),
    decreases i,
{
    if i > 0 {
        lemma_drop_hashes_skip(s.drop_first(), i - 1);
        assert(s.drop_first().subrange(i - 1, s.drop_first().len() as int) =~= s.subrange(
            i,
            s.len() as int,
        ));
    } else {
        assert(s.subrange(0, s.len() as int) =~= s);
    }
}

/// The channels of a `#rrggbb` colour, if the text is one.
pub fn hex_rgb(hex: &str) -> (r: Option<(u8, u8, u8)>)
    ensures
        r == hex_rgb_of(hex@),
{
    let t = trim_vec(&chars_of(hex));
    let mut a: usize = 0;
    while a < t.len() && t[a] == '#'
        invariant
            a <= t.len(),
            forall|k: int| 0 <= k < a ==> t@[k] == '#',
        decreases t.len() - a,
    {
        a = a + 1;
    }
    proof {
        lemma_drop_hashes_skip(t@, a as int);
    }
    let ghost s = t@.subrange(a as int, t@.len() as int);
    assert(drop_hashes(s) == s) by {
        if s.len() > 0 {
            assert(s[0] == t@[a as int]);
        }
    }
    if t.len() - a != 6 {
        return None;
    }
    let mut v: Vec<u8> = Vec::new();
    let mut i: usize = 0;
    while i < 6
        invariant
            i <= 6,
            a + 6 == t.len(),
            s == t@.subrange(a as int, t@.len() as int),
            s == drop_hashes(trim(hex@)),
            v@.len() == i,
            forall|k: int| 0 <= k < i ==> hex_value(#[trigger] s[k]) == Some(v@[k] as nat),
        decreases 6 - i,
    {
        assert(s[i as int] == t@[a + i]);
        match hex_value_exec(t[a + i]) {
            Some(d) => v.push(d),
            None => {
                assert(hex_value(s[i as int]) is None);
                return None;
            },
        }
        i = i + 1;
    }
    assert(forall|k: int| 0 <= k < 6 ==> #[trigger] hex_value(s[k]) is Some);
    assert(forall|k: int| 0 <= k < 6 ==> v@[k] < 16) by {
        assert forall|k: int| 0 <= k < 6 implies v@[k] < 16 by {
            assert(hex_value(s[k]) == Some(v@[k] as nat));
        }
    }
    let r = v[0] * 16 + v[1];
    let g = v[2] * 16 + v[3];
    let b = v[4] * 16 + v[5];
    assert(hex_value(s[0]) == Some(v@[0] as nat));
    assert(hex_value(s[1]) == Some(v@[1] as nat));
    assert(hex_value(s[2]) == Some(v@[2] as nat));
    assert(hex_value(s[3]) == Some(v@[3] as nat));
    assert(hex_value(s[4]) == Some(v@[4] as nat));
    assert(hex_value(s[5]) == Some(v@[5] as nat));
    Some((r, g, b))
}

/// The channels of a tint colour, brown (128, 96, 64) when the text is not
/// a `#rrggbb` colour.
pub fn parse_hex_rgb(hex: &str) -> (r: (u8, u8, u8))
    ensures
        r == match hex_rgb_of(hex@) {
            Some(c) => c,
            None => (128u8, 96u8, 64u8),
        },
{
    match hex_rgb(hex) {
        Some(c) => c,
        None => (128, 96, 64),
    }
}

/// The `#rrggbb` text of a colour.
pub fn rgb_to_hex(rgb: (u8, u8, u8)) -> (r: String)
    ensures
        r@ == rgb_hex_text(rgb),
{
    let mut out: Vec<char> = Vec::new();
    out.push('#');
    out.push(hex_digit_exec(rgb.0 / 16));
    out.push(hex_digit_exec(rgb.0 % 16));
    out.push(hex_digit_exec(rgb.1 / 16));
    out.push(hex_digit_exec(rgb.1 % 16));
    out.push(hex_digit_exec(rgb.2 / 16));
    out.push(hex_digit_exec(rgb.2 % 16));
    assert(out@ =~= rgb_hex_text(rgb));
    string_of(&out)
}

proof fn lemma_hex_digit_value(d: nat)
    requires
        d < 16,
    ensures
        hex_value(hex_digit(d)) == Some(d),
        hex_digit(d) != '#',
        !is_ws(hex_digit(d)),
{
}

/// Reading back the text of a colour gives the colour.
pub proof fn lemma_hex_roundtrip(rgb: (u8, u8, u8))
    ensures
        hex_rgb_of(rgb_hex_text(rgb)) == Some(rgb),
{
    let t = rgb_hex_text(rgb);
    let ds = seq![
        rgb.0 as nat / 16,
        rgb.0 as nat % 16,
        rgb.1 as nat / 16,
        rgb.1 as nat % 16,
        rgb.2 as nat / 16,
        rgb.2 as nat % 16,
    ];
    assert forall|i: int| 0 <= i < 6 implies hex_value(#[trigger] t[i + 1]) == Some(ds[i])
        && t[i + 1] != '#' && !is_ws(t[i + 1]) by {
        lemma_hex_digit_value(ds[i]);
    }
    assert(trim(t) == t) by {
        assert(!is_ws(t[0]));
        assert(!is_ws(t.last()));
        reveal_with_fuel(crate::text::trim_start, 2);
        reveal_with_fuel(crate::text::trim_end, 2);
    }
    let s = t.drop_first();
    assert(drop_hashes(t) == drop_hashes(s));
    assert(s[0] != '#');
    assert(drop_hashes(s) == s);
    assert forall|i: int| 0 <= i < 6 implies #[trigger] hex_value(s[i]) is Some by {
        assert(s[i] == t[i + 1]);
    }
    assert(byte_of(s[0], s[1]) == rgb.0);
    assert(byte_of(s[2], s[3]) == rgb.1);
    assert(byte_of(s[4], s[5]) == rgb.2);
}

/// A tint's colour, or [`DEFAULT_TINT_COLOR`].
pub open spec fn tint_color(t: TintRecord) -> Seq<char> {
    match t.color {
        Some(c) => c@,
        None => DEFAULT_TINT_COLOR@,
    }
}

/// An integer as `{}` prints it.
pub open spec fn int_text(i: int) -> Seq<char> {
    if i < 0 {
        seq!['-'] + decimal((-i) as nat)
    } else {
        decimal(i as nat)
    }
}

fn push_int(out: &mut Vec<char>, i: i64)
    ensures
        final(out)@ == old(out)@ + int_text(i as int),
{
    if i < 0 {
        out.push('-');
        let m: i128 = -(i as i128);
        push_decimal(out, m as u128);
        assert(final(out)@ =~= old(out)@ + int_text(i as int));
    } else {
        push_decimal(out, i as u128);
    }
}

/// The three style rules of one tint: a hover ring and glow on icon cards,
/// the same for selected cards, and a left accent on list rows; the default
/// tint is drawn fainter.
pub open spec fn tint_rules(t: TintRecord) -> Seq<char> {
    let id = int_text(t.id as int);
    let c = tint_color(t);
    let ring: Seq<char> = if t.is_default {
        "28"@
    } else {
        "58"@
    };
    let glow: Seq<char> = if t.is_default {
        "14"@
    } else {
        "44"@
    };
    let list: Seq<char> = if t.is_default {
        "22"@
    } else {
        "58"@
    };
    let shadow = " { box-shadow: 0 0 0 1.5px "@ + c + ring + ", 0 4px 18px 0 "@ + c + glow + "; }\n"@;
    ".file-card-shell:hover > .file-card.mark-tint-"@ + id + shadow
        + "flowboxchild:selected > .file-card-shell > .file-card.mark-tint-"@ + id + shadow
        + ".file-list > row.mark-tint-"@ + id + " > .file-list-row-inner { border-left-color: "@ + c
        + list + "; }\n"@
}

/// The style rules of all tints, in order.
pub open spec fn tint_css(ts: Seq<TintRecord>) -> Seq<char>
    decreases ts.len(),
{
    if ts.len() == 0 {
        seq![]
    } else {
        tint_css(ts.drop_last()) + tint_rules(ts.last())
    }
}

fn push_tint_rules(out: &mut Vec<char>, t: &TintRecord)
    ensures
        final(out)@ == old(out)@ + tint_rules(*t),
{
    let c: &str = match &t.color {
        Some(c) => c.as_str(),
        None => DEFAULT_TINT_COLOR,
    };
    let (ring, glow, list) = if t.is_default {
        ("28", "14", "22")
    } else {
        ("58", "44", "58")
    };
    let ghost id = int_text(t.id as int);
    let ghost shadow = " { box-shadow: 0 0 0 1.5px "@ + c@ + ring@ + ", 0 4px 18px 0 "@ + c@ + glow@
        + "; }\n"@;
    let mut sh: Vec<char> = Vec::new();
    push_str(&mut sh, " { box-shadow: 0 0 0 1.5px ");
    push_str(&mut sh, c);
    push_str(&mut sh, ring);
    push_str(&mut sh, ", 0 4px 18px 0 ");
    push_str(&mut sh, c);
    push_str(&mut sh, glow);
    push_str(&mut sh, "; }\n");
    assert(sh@ =~= shadow);
    push_str(out, ".file-card-shell:hover > .file-card.mark-tint-");
    push_int(out, t.id);
    crate::text::append_chars(out, &sh);
    push_str(out, "flowboxchild:selected > .file-card-shell > .file-card.mark-tint-");
    push_int(out, t.id);
    crate::text::append_chars(out, &sh);
    push_str(out, ".file-list > row.mark-tint-");
    push_int(out, t.id);
    push_str(out, " > .file-list-row-inner { border-left-color: ");
    push_str(out, c);
    push_str(out, list);
    push_str(out, "; }\n");
    assert(final(out)@ =~= old(out)@ + tint_rules(*t));
}

/// The style sheet that shows every tint on the cards and rows it marks.
pub fn generate_tint_css(tints: &[TintRecord]) -> (r: String)
    ensures
        r@ == tint_css(tints@),
{
    let mut out: Vec<char> = Vec::new();
    let mut i: usize = 0;
    while i < tints.len()
        invariant
            i <= tints@.len(),
            out@ == tint_css(tints@.take(i as int)),
        decreases tints.len() - i,
    {
        assert(tints@.take(i + 1).drop_last() =~= tints@.take(i as int));
        push_tint_rules(&mut out, &tints[i]);
        i = i + 1;
    }
    assert(tints@.take(tints@.len() as int) =~= tints@);
    string_of(&out)
}

/// The colour of a palette card's tint: the tint with that id, when it
/// has a colour, else [`DEFAULT_TINT_COLOR`].
pub open spec fn card_tint_color(tint_id: Option<i64>, ts: Seq<TintRecord>) -> Seq<char> {
    match tint_id {
        Some(id) => match crate::format::tint_with_id(ts, id) {
            Some(t) => match t.color {
                Some(c) => c@,
                None => DEFAULT_TINT_COLOR@,
            },
            None => DEFAULT_TINT_COLOR@,
        },
        None => DEFAULT_TINT_COLOR@,
    }
}

/// The colour shown for a palette card's tint.
pub fn resolve_tint_color(tint_id: Option<i64>, tints: &[TintRecord]) -> (r: String)
    ensures
        r@ == card_tint_color(tint_id, tints@),
{
    match tint_id {
        Some(id) => match crate::format::find_tint_with_id(tints, id) {
            Some(i) => match &tints[i].color {
                Some(c) => c.clone(),
                None => String::from_str(DEFAULT_TINT_COLOR),
            },
            None => String::from_str(DEFAULT_TINT_COLOR),
        },
        None => String::from_str(DEFAULT_TINT_COLOR),
    }
}

} // verus!
