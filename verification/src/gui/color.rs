//! Project colours: `#RRGGBB` text, and the colour generated for a project name.
use vstd::prelude::*;
use vstd::string::StringSliceAdditionalSpecFns;

use crate::text::{
    byte_len, byte_len_capped, chars_of, is_white, lemma_trim_end_at, lemma_trim_start_at,
    push_char, trim, trim_chars, trim_end, trim_start,
};

verus! {

/// An opaque RGB colour.
#[derive(Debug, Clone, Copy, PartialEq, Eq, Structural)]
pub struct Rgb {
    pub r: u8,
    pub g: u8,
    pub b: u8,
}

// ---------------------------------------------------------------------------
// Parsing
// ---------------------------------------------------------------------------

/// `s` without all its leading `#` characters (`trim_start_matches('#')`).
pub open spec fn strip_hashes(s: Seq<char>) -> Seq<char>
    decreases s.len(),
{
    if s.len() > 0 && s[0] == '#' {
        strip_hashes(s.drop_first())
    } else {
        s
    }
}

/// The body of a colour text: trimmed, without leading `#`s.
pub open spec fn hex_body(hex: Seq<char>) -> Seq<char> {
    strip_hashes(trim(hex))
}

pub open spec fn is_ascii_char(c: char) -> bool {
    (c as u32) < 0x80
}

pub open spec fn hex_digit(c: char) -> Option<nat> {
    if '0' <= c <= '9' {
        Some(((c as u32) - ('0' as u32)) as nat)
    } else if 'a' <= c <= 'f' {
        Some(((c as u32) - ('a' as u32) + 10) as nat)
    } else if 'A' <= c <= 'F' {
        Some(((c as u32) - ('A' as u32) + 10) as nat)
    } else {
        None
    }
}

/// `u8::from_str_radix(p, 16)` for a two-character `p`: two hexadecimal digits,
/// or `+` and one.
pub open spec fn hex_pair(a: char, b: char) -> Option<u8> {
    if a == '+' {
        match hex_digit(b) {
            Some(v) => Some(v as u8),
            None => None,
        }
    } else {
        match (hex_digit(a), hex_digit(b)) {
            (Some(x), Some(y)) => Some((x * 16 + y) as u8),
            _ => None,
        }
    }
}

/// Whether some prefix of `raw` is `n` bytes long (a character boundary at byte `n`).
pub open spec fn boundary_at(raw: Seq<char>, n: int) -> bool {
    exists|k: int| 0 <= k <= raw.len() && byte_len(#[trigger] raw.take(k)) == n
}

/// Whether the first two bytes of the body are a readable pair: two ASCII
/// characters that `u8::from_str_radix(.., 16)` accepts.
pub open spec fn first_pair_reads(raw: Seq<char>) -> bool {
    raw.len() >= 2 && is_ascii_char(raw[0]) && is_ascii_char(raw[1]) && hex_pair(raw[0], raw[1]) is Some
}

/// Whether reading the text never cuts inside a character: a six-byte body is
/// cut at byte 2, and, once its first pair reads, at byte 4. Cutting elsewhere
/// would not be on a character boundary, and the text cannot be read at all.
pub open spec fn hex_body_splittable(hex: Seq<char>) -> bool {
    let raw = hex_body(hex);
    byte_len(raw) == 6 ==> boundary_at(raw, 2) && (first_pair_reads(raw) ==> boundary_at(raw, 4))
}

/// The colour of a `#RRGGBB` text: a body of exactly six bytes, all ASCII, read
/// as three pairs of hexadecimal digits (each may instead be `+` and one digit).
pub open spec fn parsed_hex_color(hex: Seq<char>) -> Option<Rgb> {
    let raw = hex_body(hex);
    if byte_len(raw) != 6 || !(forall|i: int| 0 <= i < raw.len() ==> is_ascii_char(#[trigger] raw[i])) {
        None
    } else {
        match (hex_pair(raw[0], raw[1]), hex_pair(raw[2], raw[3]), hex_pair(raw[4], raw[5])) {
            (Some(r), Some(g), Some(b)) => Some(Rgb { r, g, b }),
            _ => None,
        }
    }
}

pub proof fn lemma_ascii_byte_len(s: Seq<char>)
    requires
        forall|i: int| 0 <= i < s.len() ==> is_ascii_char(#[trigger] s[i]),
    ensures
        byte_len(s) == s.len(),
    decreases s.len(),
{
    if s.len() > 0 {
        assert forall|i: int| 0 <= i < s.drop_last().len() implies is_ascii_char(
            #[trigger] s.drop_last()[i],
        ) by {
            assert(s.drop_last()[i] == s[i]);
        }
        lemma_ascii_byte_len(s.drop_last());
        assert(is_ascii_char(s[s.len() - 1]));
    }
}

fn hex_digit_of(c: char) -> (r: Option<u32>)
    ensures
        r matches Some(v) ==> hex_digit(c) == Some(v as nat) && v < 16,
        r is None ==> hex_digit(c) is None,
{
    if '0' <= c && c <= '9' {
        Some(c as u32 - '0' as u32)
    } else if 'a' <= c && c <= 'f' {
        Some(c as u32 - 'a' as u32 + 10)
    } else if 'A' <= c && c <= 'F' {
        Some(c as u32 - 'A' as u32 + 10)
    } else {
        None
    }
}

fn hex_pair_of(a: char, b: char) -> (r: Option<u8>)
    ensures
        r == hex_pair(a, b),
{
    if a == '+' {
        match hex_digit_of(b) {
            Some(v) => Some(v as u8),
            None => None,
        }
    } else {
        match (hex_digit_of(a), hex_digit_of(b)) {
            (Some(x), Some(y)) => Some((x * 16 + y) as u8),
            _ => None,
        }
    }
}

/// Reads a `#RRGGBB` colour (leading `#`s and surrounding white space ignored).
pub fn color32_from_hex(hex: &str) -> (r: Option<Rgb>)
    requires
        hex_body_splittable(hex@),
    ensures
        r == parsed_hex_color(hex@),
{
    let t = trim_chars(&chars_of(hex));
    let mut i: usize = 0;
    assert(t@.skip(0) =~= t@);
    while i < t.len() && t[i] == '#'
        invariant
            i <= t.len(),
            strip_hashes(t@) == strip_hashes(t@.skip(i as int)),
        decreases t.len() - i,
    {
        assert(t@.skip(i as int).drop_first() =~= t@.skip(i + 1));
        i = i + 1;
    }
    let raw = crate::text::sub_chars(&t, i, t.len());
    assert(raw@ =~= t@.skip(i as int));
    assert(strip_hashes(raw@) == raw@);
    assert(raw@ == hex_body(hex@));
    if byte_len_capped(&raw, 6) != 6 {
        return None;
    }
    let mut k: usize = 0;
    while k < raw.len()
        invariant
            k <= raw.len(),
            byte_len(raw@) == 6,
            raw@ == hex_body(hex@),
            forall|m: int| 0 <= m < k ==> is_ascii_char(#[trigger] raw@[m]),
        decreases raw.len() - k,
    {
        if raw[k] as u32 >= 0x80 {
            assert(!is_ascii_char(raw@[k as int]));
            return None;
        }
        k = k + 1;
    }
    proof {
        lemma_ascii_byte_len(raw@);
    }
    let r = hex_pair_of(raw[0], raw[1]);
    let g = hex_pair_of(raw[2], raw[3]);
    let b = hex_pair_of(raw[4], raw[5]);
    match (r, g, b) {
        (Some(r), Some(g), Some(b)) => Some(Rgb { r, g, b }),
        _ => None,
    }
}

// ---------------------------------------------------------------------------
// Formatting
// ---------------------------------------------------------------------------

/// Upper-case hexadecimal digit of `d < 16`.
pub open spec fn hex_char(d: nat) -> char {
    if d < 10 {
        (('0' as u32) + d) as char
    } else {
        (('A' as u32) + d - 10) as char
    }
}

/// Two upper-case hexadecimal digits of a byte (`{:02X}`).
pub open spec fn hex2(v: u8) -> Seq<char> {
    seq![hex_char((v / 16) as nat), hex_char((v % 16) as nat)]
}

/// `#RRGGBB` with upper-case digits.
pub open spec fn hex_color_text(r: u8, g: u8, b: u8) -> Seq<char> {
    seq!['#'] + hex2(r) + hex2(g) + hex2(b)
}

fn hex_char_of(d: u8) -> (c: char)
    requires
        d < 16,
    ensures
        c == hex_char(d as nat),
{
    if d < 10 {
        (48 + d) as char
    } else {
        (55 + d) as char
    }
}

fn push_hex2(s: &mut String, v: u8)
    ensures
        final(s)@ == old(s)@ + hex2(v),
{
    push_char(s, hex_char_of(v / 16));
    push_char(s, hex_char_of(v % 16));
    assert(s@ =~= old(s)@ + hex2(v));
}

fn hex_text(r: u8, g: u8, b: u8) -> (s: String)
    ensures
        s@ == hex_color_text(r, g, b),
{
    let mut s = String::new();
    push_char(&mut s, '#');
    push_hex2(&mut s, r);
    push_hex2(&mut s, g);
    push_hex2(&mut s, b);
    assert(s@ =~= hex_color_text(r, g, b));
    s
}

/// `#RRGGBB` text of a colour, with upper-case digits.
pub fn hex_from_color32(col: Rgb) -> (s: String)
    ensures
        s@ == hex_color_text(col.r, col.g, col.b),
{
    hex_text(col.r, col.g, col.b)
}

// ---------------------------------------------------------------------------
// Round trip
// ---------------------------------------------------------------------------

proof fn lemma_hex_char_digit(d: nat)
    requires
        d < 16,
    ensures
        hex_digit(hex_char(d)) == Some(d),
        hex_char(d) != '+',
        hex_char(d) != '#',
        !is_white(hex_char(d)),
        is_ascii_char(hex_char(d)),
{
}

/// Formatting a colour as `#RRGGBB` and reading the text back gives the colour.
pub proof fn lemma_hex_roundtrip(c: Rgb)
    ensures
        hex_body_splittable(hex_color_text(c.r, c.g, c.b)),
        parsed_hex_color(hex_color_text(c.r, c.g, c.b)) == Some(c),
{
    let t = hex_color_text(c.r, c.g, c.b);
    let ds = seq![
        (c.r / 16) as nat,
        (c.r % 16) as nat,
        (c.g / 16) as nat,
        (c.g % 16) as nat,
        (c.b / 16) as nat,
        (c.b % 16) as nat,
    ];
    assert forall|i: int| 0 <= i < 6 implies #[trigger] t[i + 1] == hex_char(ds[i]) by {}
    assert forall|i: int| 0 <= i < 6 implies hex_digit(#[trigger] hex_char(ds[i])) == Some(ds[i])
        && hex_char(ds[i]) != '+' && hex_char(ds[i]) != '#' && !is_white(hex_char(ds[i]))
        && is_ascii_char(hex_char(ds[i])) by {
        lemma_hex_char_digit(ds[i]);
    }
    assert(t.len() == 7);
    lemma_trim_start_at(t, 0);
    assert(t.skip(0) =~= t);
    assert(t[6] == hex_char(ds[5]));
    lemma_trim_end_at(t, 7);
    assert(t.take(7) =~= t);
    assert(trim(t) == t);
    let raw = t.drop_first();
    assert(raw[0] == t[1]);
    assert(strip_hashes(raw) == raw);
    assert(strip_hashes(t) == raw);
    assert(hex_body(t) == raw);
    assert forall|i: int| 0 <= i < raw.len() implies is_ascii_char(#[trigger] raw[i]) by {
        assert(raw[i] == t[i + 1]);
    }
    lemma_ascii_byte_len(raw);
    assert forall|k: int| 0 <= k <= raw.len() implies byte_len(#[trigger] raw.take(k)) == k by {
        assert forall|i: int| 0 <= i < raw.take(k).len() implies is_ascii_char(
            #[trigger] raw.take(k)[i],
        ) by {
            assert(raw.take(k)[i] == raw[i]);
        }
        lemma_ascii_byte_len(raw.take(k));
    }
    assert(byte_len(raw.take(2)) == 2);
    assert(byte_len(raw.take(4)) == 4);
    assert(raw[0] == hex_char(ds[0]) && raw[1] == hex_char(ds[1]));
    assert(raw[2] == hex_char(ds[2]) && raw[3] == hex_char(ds[3]));
    assert(raw[4] == hex_char(ds[4]) && raw[5] == hex_char(ds[5]));
    assert(hex_pair(raw[0], raw[1]) == Some(c.r));
    assert(hex_pair(raw[2], raw[3]) == Some(c.g));
    assert(hex_pair(raw[4], raw[5]) == Some(c.b));
}

// ---------------------------------------------------------------------------
// Generated colours
// ---------------------------------------------------------------------------

/// 32-bit FNV-1a hash of `bytes`, continuing from `h`.
pub open spec fn fnv1a_from(h: u32, bytes: Seq<u8>) -> u32
    decreases bytes.len(),
{
    if bytes.len() == 0 {
        h
    } else {
        fnv1a_from(
            (((h ^ (bytes[0] as u32)) as nat * 0x01000193nat) % 0x1_0000_0000nat) as u32,
            bytes.skip(1),
        )
    }
}

/// 32-bit FNV-1a hash of `bytes`.
pub open spec fn fnv1a(bytes: Seq<u8>) -> u32 {
    fnv1a_from(0x811C9DC5, bytes)
}

/// Distance of hue `h` (degrees) from the nearest multiple of 120, in 0..=60.
pub open spec fn hue_ramp(h: nat) -> nat {
    let r = h % 120;
    if r <= 60 {
        r
    } else {
        (120 - r) as nat
    }
}

/// The varying channel of the colour of hue `h` at saturation 0.6 and lightness
/// 0.5: 255 * (0.2 + 0.01 * ramp) rounded half up, except at hues 110, 170, 190,
/// 250 and 350, where the value falls exactly on a half and the single-precision
/// computation rounds it down.
pub open spec fn hue_mid_channel(h: nat) -> nat {
    let k = hue_ramp(h);
    let base = (5100 + 255 * k + 50) / 100;
    if h == 110 || h == 170 || h == 190 || h == 250 || h == 350 {
        (base - 1) as nat
    } else {
        base
    }
}

/// RGB of hue `h` (0 <= h < 360) at saturation 0.6 and lightness 0.5: the
/// strongest channel is 204, the weakest 51, the third `hue_mid_channel(h)`.
pub open spec fn hue_rgb(h: nat) -> (u8, u8, u8) {
    let x = hue_mid_channel(h) as u8;
    let s = h / 60;
    if s == 0 {
        (204, x, 51)
    } else if s == 1 {
        (x, 204, 51)
    } else if s == 2 {
        (51, 204, x)
    } else if s == 3 {
        (51, x, 204)
    } else if s == 4 {
        (x, 51, 204)
    } else {
        (204, 51, x)
    }
}

/// The colour generated for a project name: its hue is the FNV-1a hash of the
/// name's UTF-8 bytes modulo 360.
pub open spec fn generated_color(name_bytes: Seq<u8>) -> Seq<char> {
    let rgb = hue_rgb((fnv1a(name_bytes) % 360) as nat);
    hex_color_text(rgb.0, rgb.1, rgb.2)
}

fn hue_to_rgb(h: u32) -> (r: (u8, u8, u8))
    requires
        h < 360,
    ensures
        r == hue_rgb(h as nat),
{
    let rem = h % 120;
    let k = if rem <= 60 {
        rem
    } else {
        120 - rem
    };
    let base = (5100 + 255 * k + 50) / 100;
    let x32 = if h == 110 || h == 170 || h == 190 || h == 250 || h == 350 {
        base - 1
    } else {
        base
    };
    assert(x32 <= 204);
    let x = x32 as u8;
    let s = h / 60;
    if s == 0 {
        (204, x, 51)
    } else if s == 1 {
        (x, 204, 51)
    } else if s == 2 {
        (51, 204, x)
    } else if s == 3 {
        (51, x, 204)
    } else if s == 4 {
        (x, 51, 204)
    } else {
        (204, 51, x)
    }
}

/// The `#RRGGBB` colour given to a project that has none.
pub fn generate_color_for_name(name: &str) -> (r: String)
    ensures
        r@ == generated_color(name.spec_bytes()),
{
    let bytes = name.as_bytes();
    let mut hash: u32 = 0x811C9DC5;
    let mut i: usize = 0;
    assert(bytes@.skip(0) =~= bytes@);
    while i < bytes.len()
        invariant
            i <= bytes.len(),
            bytes@ == name.spec_bytes(),
            fnv1a(bytes@) == fnv1a_from(hash, bytes@.skip(i as int)),
        decreases bytes.len() - i,
    {
        assert(bytes@.skip(i as int).skip(1) =~= bytes@.skip(i + 1));
        hash = hash ^ (bytes[i] as u32);
        hash = hash.wrapping_mul(0x01000193);
        i = i + 1;
    }
    assert(bytes@.skip(i as int) =~= Seq::<u8>::empty());
    let (r, g, b) = hue_to_rgb(hash % 360);
    hex_text(r, g, b)
}

} // verus!
