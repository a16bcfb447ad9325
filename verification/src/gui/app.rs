//! The GUI shell: header icon cropping, the title's duration text, view modes,
//! keyboard shortcuts, theme choice and the toast message.
use vstd::prelude::*;
use vstd::string::StringExecFns;

use crate::config::ThemePreference;
use crate::text::{chars_of, push_char, push_decimal, push_signed_decimal, push_str, signed_dec_str, dec_str, trim, trim_str};

verus! {

// ---------------------------------------------------------------------------
// Header icon
// ---------------------------------------------------------------------------

/// An icon as decoded from a PNG: `width * height` pixels of 4 bytes (RGBA),
/// row by row.
pub struct IconImage {
    pub rgba: Vec<u8>,
    pub width: u32,
    pub height: u32,
}

/// An RGBA image (unmultiplied alpha), row by row.
pub struct RgbaImage {
    pub width: usize,
    pub height: usize,
    pub rgba: Vec<u8>,
}

/// Byte offset of channel `c` of pixel `(x, y)` in an image `w` pixels wide.
pub open spec fn px(w: int, x: int, y: int, c: int) -> int {
    (y * w + x) * 4 + c
}

/// Pixel `(x, y)` lies inside the icon and is not fully transparent.
pub open spec fn opaque(img: IconImage, x: int, y: int) -> bool {
    &&& 0 <= x < img.width
    &&& 0 <= y < img.height
    &&& img.rgba@[px(img.width as int, x, y, 3)] > 0
}

/// `[x0, x1] x [y0, y1]` is the smallest box holding every opaque pixel.
pub open spec fn tight_box(img: IconImage, x0: int, y0: int, x1: int, y1: int) -> bool {
    &&& 0 <= x0 <= x1 < img.width
    &&& 0 <= y0 <= y1 < img.height
    &&& forall|x: int, y: int| #[trigger] opaque(img, x, y) ==> x0 <= x <= x1 && y0 <= y <= y1
    &&& exists|y: int| #[trigger] opaque(img, x0, y)
    &&& exists|y: int| #[trigger] opaque(img, x1, y)
    &&& exists|x: int| #[trigger] opaque(img, x, y0)
    &&& exists|x: int| #[trigger] opaque(img, x, y1)
}

/// `out` holds the pixels of `img` in the `out.width x out.height` box at `(x0, y0)`.
pub open spec fn is_crop(img: IconImage, x0: int, y0: int, out: RgbaImage) -> bool {
    let cw = out.width as int;
    let ch = out.height as int;
    &&& out.rgba@.len() == cw * ch * 4
    &&& forall|x: int, y: int, c: int|
        0 <= x < cw && 0 <= y < ch && 0 <= c < 4 ==> out.rgba@[#[trigger] px(cw, x, y, c)]
            == img.rgba@[px(img.width as int, x0 + x, y0 + y, c)]
}

pub proof fn lemma_px_bound(w: int, h: int, x: int, y: int, c: int)
    requires
        0 <= x < w,
        0 <= y < h,
        0 <= c < 4,
    ensures
        0 <= px(w, x, y, c) < w * h * 4,
        px(w, x, y, c) == (w * 4) * y + (4 * x + c),
        0 <= y * w,
        y * w + x < w * h,
{
    assert(y * w + x < h * w) by (nonlinear_arith)
        requires
            0 <= x < w,
            0 <= y < h,
    ;
    assert(0 <= y * w) by (nonlinear_arith)
        requires
            0 <= y,
            0 <= w,
    ;
    assert(h * w == w * h) by (nonlinear_arith);
    assert((y * w + x) * 4 + c == (w * 4) * y + (4 * x + c)) by (nonlinear_arith);
}

pub proof fn lemma_px_split(cw: int, x: int, y: int, c: int)
    requires
        0 <= x < cw,
        0 <= y,
        0 <= c < 4,
    ensures
        px(cw, x, y, c) / (cw * 4) == y,
        (px(cw, x, y, c) % (cw * 4)) / 4 == x,
        (px(cw, x, y, c) % (cw * 4)) % 4 == c,
{
    let j = px(cw, x, y, c);
    assert((y * cw + x) * 4 + c == y * (cw * 4) + (4 * x + c)) by (nonlinear_arith);
    vstd::arithmetic::div_mod::lemma_fundamental_div_mod_converse(j, cw * 4, y, 4 * x + c);
    vstd::arithmetic::div_mod::lemma_fundamental_div_mod_converse(4 * x + c, 4, x, c);
}

/// Source offset, in `img`, of byte `j` of the crop of width `cw` at `(x0, y0)`.
pub open spec fn crop_source(w: int, cw: int, x0: int, y0: int, j: int) -> int {
    px(w, x0 + (j % (cw * 4)) / 4, y0 + j / (cw * 4), (j % (cw * 4)) % 4)
}

/// Copies the `cw x ch` box at `(x0, y0)` out of `rgba`.
fn copy_box(
    rgba: &Vec<u8>,
    w: usize,
    x0: usize,
    y0: usize,
    cw: usize,
    ch: usize,
) -> (out: Vec<u8>)
    requires
        cw >= 1,
        ch >= 1,
        forall|x: int, y: int|
            x0 <= x < x0 + cw && y0 <= y < y0 + ch ==> #[trigger] px(w as int, x, y, 3)
                < rgba.len(),
        x0 + cw <= usize::MAX,
        y0 + ch <= usize::MAX,
    ensures
        out@.len() == cw * ch * 4,
        forall|x: int, y: int, c: int|
            0 <= x < cw && 0 <= y < ch && 0 <= c < 4 ==> out@[#[trigger] px(cw as int, x, y, c)]
                == rgba@[px(w as int, x0 + x, y0 + y, c)],
{
    let mut out: Vec<u8> = Vec::new();
    let mut y: usize = 0;
    while y < ch
        invariant
            y <= ch,
            cw >= 1,
            forall|x: int, y: int|
                x0 <= x < x0 + cw && y0 <= y < y0 + ch ==> #[trigger] px(w as int, x, y, 3)
                    < rgba.len(),
            x0 + cw <= usize::MAX,
            y0 + ch <= usize::MAX,
            out@.len() == px(cw as int, 0, y as int, 0),
            forall|j: int|
                0 <= j < out@.len() ==> #[trigger] out@[j] == rgba@[crop_source(
                    w as int,
                    cw as int,
                    x0 as int,
                    y0 as int,
                    j,
                )],
        decreases ch - y,
    {
        let mut x: usize = 0;
        while x < cw
            invariant
                y < ch,
                x <= cw,
                cw >= 1,
                forall|x: int, y: int|
                    x0 <= x < x0 + cw && y0 <= y < y0 + ch ==> #[trigger] px(w as int, x, y, 3)
                        < rgba.len(),
                x0 + cw <= usize::MAX,
                y0 + ch <= usize::MAX,
                out@.len() == px(cw as int, x as int, y as int, 0),
                forall|j: int|
                    0 <= j < out@.len() ==> #[trigger] out@[j] == rgba@[crop_source(
                        w as int,
                        cw as int,
                        x0 as int,
                        y0 as int,
                        j,
                    )],
            decreases cw - x,
        {
            let sx = x0 + x;
            let sy = y0 + y;
            assert(px(w as int, sx as int, sy as int, 3) < rgba.len());
            assert(px(w as int, sx as int, sy as int, 3) >= 0) by (nonlinear_arith)
                requires
                    sx >= 0,
                    sy >= 0,
                    w >= 0,
            ;
            let src = (sy * w + sx) * 4;
            let mut c: usize = 0;
            while c < 4
                invariant
                    y < ch,
                    x < cw,
                    c <= 4,
                    cw >= 1,
                    sx == x0 + x,
                    sy == y0 + y,
                    src == px(w as int, sx as int, sy as int, 0),
                    src + 3 < rgba.len(),
                    out@.len() == px(cw as int, x as int, y as int, c as int),
                    forall|j: int|
                        0 <= j < out@.len() ==> #[trigger] out@[j] == rgba@[crop_source(
                            w as int,
                            cw as int,
                            x0 as int,
                            y0 as int,
                            j,
                        )],
                decreases 4 - c,
            {
                proof {
                    lemma_px_split(cw as int, x as int, y as int, c as int);
                }
                out.push(rgba[src + c]);
                c = c + 1;
            }
            assert(px(cw as int, x as int, y as int, 4) == px(cw as int, x + 1, y as int, 0));
            x = x + 1;
        }
        assert(px(cw as int, cw as int, y as int, 0) == px(cw as int, 0, y + 1, 0)) by (
        nonlinear_arith);
        y = y + 1;
    }
    assert(px(cw as int, 0, ch as int, 0) == cw * ch * 4) by (nonlinear_arith);
    assert forall|x: int, y: int, c: int|
        0 <= x < cw && 0 <= y < ch && 0 <= c < 4 implies out@[#[trigger] px(cw as int, x, y, c)]
        == rgba@[px(w as int, x0 + x, y0 + y, c)] by {
        lemma_px_split(cw as int, x, y, c);
        lemma_px_bound(cw as int, ch as int, x, y, c);
    }
    out
}

/// Crops the fully transparent margins off an icon. An icon with no opaque pixel
/// is kept whole (an icon of no pixels at all gives its first four bytes as a
/// one-pixel image).
pub fn crop_transparent_edges(icon: &IconImage) -> (r: RgbaImage)
    requires
        icon.rgba@.len() >= icon.width * icon.height * 4,
        icon.width > 0 || icon.height > 0 || icon.rgba@.len() >= 4,
    ensures
        (exists|x: int, y: int| opaque(*icon, x, y)) ==> exists|x0: int, y0: int, x1: int, y1: int|
            #[trigger] tight_box(*icon, x0, y0, x1, y1) && r.width == x1 - x0 + 1 && r.height == y1
                - y0 + 1 && is_crop(*icon, x0, y0, r),
        !(exists|x: int, y: int| opaque(*icon, x, y)) && (icon.width > 0 || icon.height > 0) ==> r.width
            == icon.width && r.height == icon.height && r.rgba@ == icon.rgba@,
        icon.width == 0 && icon.height == 0 ==> r.width == 1 && r.height == 1 && is_crop(*icon, 0, 0, r),
{
    let width = icon.width as usize;
    let height = icon.height as usize;
    let ghost img = *icon;
    let mut min_x = width;
    let mut min_y = height;
    let mut max_x: usize = 0;
    let mut max_y: usize = 0;
    let ghost mut found = false;
    let ghost mut wy_min_x: int = 0;
    let ghost mut wy_max_x: int = 0;
    let ghost mut wx_min_y: int = 0;
    let ghost mut wx_max_y: int = 0;
    let mut y: usize = 0;
    while y < height
        invariant
            img == *icon,
            width == icon.width,
            height == icon.height,
            y <= height,
            icon.rgba@.len() >= icon.width * icon.height * 4,
            !found ==> min_x == width && min_y == height && max_x == 0 && max_y == 0,
            !found ==> forall|xx: int, yy: int| yy < y ==> !#[trigger] opaque(img, xx, yy),
            found ==> min_x <= max_x < width && min_y <= max_y < height,
            found ==> opaque(img, min_x as int, wy_min_x) && opaque(img, max_x as int, wy_max_x)
                && opaque(img, wx_min_y, min_y as int) && opaque(img, wx_max_y, max_y as int),
            found ==> forall|xx: int, yy: int|
                yy < y && #[trigger] opaque(img, xx, yy) ==> min_x <= xx <= max_x && min_y <= yy
                    <= max_y,
        decreases height - y,
    {
        let mut x: usize = 0;
        while x < width
            invariant
                img == *icon,
                width == icon.width,
                height == icon.height,
                y < height,
                x <= width,
                icon.rgba@.len() >= icon.width * icon.height * 4,
                !found ==> min_x == width && min_y == height && max_x == 0 && max_y == 0,
                !found ==> forall|xx: int, yy: int|
                    (yy < y || (yy == y && xx < x)) ==> !#[trigger] opaque(img, xx, yy),
                found ==> min_x <= max_x < width && min_y <= max_y < height,
                found ==> opaque(img, min_x as int, wy_min_x) && opaque(img, max_x as int, wy_max_x)
                    && opaque(img, wx_min_y, min_y as int) && opaque(img, wx_max_y, max_y as int),
                found ==> forall|xx: int, yy: int|
                    (yy < y || (yy == y && xx < x)) && #[trigger] opaque(img, xx, yy) ==> min_x
                        <= xx <= max_x && min_y <= yy <= max_y,
            decreases width - x,
        {
            proof {
                lemma_px_bound(width as int, height as int, x as int, y as int, 3);
                assert(icon.rgba@.len() == icon.rgba.len());
                assert(width as int * height as int * 4 <= icon.rgba.len());
                assert((y * width + x) * 4 + 3 < icon.rgba.len());
            }
            let alpha = icon.rgba[(y * width + x) * 4 + 3];
            if alpha > 0 {
                assert(opaque(img, x as int, y as int));
                let ghost old_found = found;
                let ghost old_max_x = max_x;
                let ghost old_max_y = max_y;
                if x < min_x {
                    min_x = x;
                    proof {
                        wy_min_x = y as int;
                    }
                }
                if y < min_y {
                    min_y = y;
                    proof {
                        wx_min_y = x as int;
                    }
                }
                if x > max_x {
                    max_x = x;
                }
                if y > max_y {
                    max_y = y;
                }
                proof {
                    if !old_found || x > old_max_x {
                        wy_max_x = y as int;
                    }
                    if !old_found || y > old_max_y {
                        wx_max_y = x as int;
                    }
                    found = true;
                }
            }
            x = x + 1;
        }
        y = y + 1;
    }
    if min_x > max_x || min_y > max_y {
        proof {
            assert(!found);
        }
        return RgbaImage { width, height, rgba: icon.rgba.clone() };
    }
    let cropped_w = max_x - min_x + 1;
    let cropped_h = max_y - min_y + 1;
    proof {
        if !found {
            assert(width == 0 && height == 0);
        }
        assert forall|xx: int, yy: int|
            min_x <= xx < min_x + cropped_w && min_y <= yy < min_y + cropped_h implies #[trigger] px(
            width as int,
            xx,
            yy,
            3,
        ) < icon.rgba.len() by {
            if found {
                lemma_px_bound(width as int, height as int, xx, yy, 3);
            }
        }
    }
    let rgba = copy_box(&icon.rgba, width, min_x, min_y, cropped_w, cropped_h);
    let r = RgbaImage { width: cropped_w, height: cropped_h, rgba };
    proof {
        if found {
            assert(tight_box(img, min_x as int, min_y as int, max_x as int, max_y as int));
        }
    }
    r
}


// ---------------------------------------------------------------------------
// Durations in the title
// ---------------------------------------------------------------------------

/// Quotient of `a / b` rounded toward zero (Rust's `/` on integers), for `b > 0`.
pub open spec fn trunc_div(a: int, b: int) -> int {
    if a >= 0 {
        a / b
    } else {
        -((-a) / b)
    }
}

/// Remainder of `a / b` with the sign of `a` (Rust's `%` on integers), for `b > 0`.
pub open spec fn trunc_rem(a: int, b: int) -> int {
    a - trunc_div(a, b) * b
}

/// A number as `{:02}` formats it: at least two characters, zero-padded.
pub open spec fn pad2(v: int) -> Seq<char> {
    if 0 <= v < 10 {
        seq!['0'] + dec_str(v as nat)
    } else {
        signed_dec_str(v)
    }
}

/// `H:MM` text of a number of seconds (hours not bounded).
pub open spec fn duration_hm(secs: int) -> Seq<char> {
    signed_dec_str(trunc_div(secs, 3600)) + seq![':'] + pad2(trunc_div(trunc_rem(secs, 3600), 60))
}

/// Formats seconds as `H:MM`, as shown in the window title.
pub fn format_duration_hm(secs: i64) -> (r: String)
    ensures
        r@ == duration_hm(secs as int),
{
    let neg = secs < 0;
    let a: u64 = if secs == i64::MIN {
        9223372036854775808u64
    } else if neg {
        (-secs) as u64
    } else {
        secs as u64
    };
    let hours = a / 3600;
    let minutes = (a % 3600) / 60;
    let mut r = String::new();
    if neg && hours > 0 {
        push_char(&mut r, '-');
    }
    push_decimal(&mut r, hours);
    push_char(&mut r, ':');
    if neg && minutes > 0 {
        push_char(&mut r, '-');
        push_decimal(&mut r, minutes);
    } else {
        if minutes < 10 {
            push_char(&mut r, '0');
        }
        push_decimal(&mut r, minutes);
    }
    proof {
        let s = secs as int;
        let h = trunc_div(s, 3600);
        let m = trunc_div(trunc_rem(s, 3600), 60);
        assert(a == if s >= 0 { s } else { -s });
        if s >= 0 {
            assert(h == hours);
            assert(trunc_rem(s, 3600) == a % 3600);
            assert(m == minutes);
        } else {
            assert(h == -(hours as int));
            assert(trunc_rem(s, 3600) == -((a % 3600) as int));
            assert(m == -(minutes as int));
        }
        assert(r@ =~= duration_hm(s));
    }
    r
}

/// Total tracked seconds of a day: for each tracking with a known start, the time
/// up to its end (or to `now` where it has none), counting negative spans as 0.
pub open spec fn tracked_total(spans: Seq<(Option<i64>, Option<i64>)>, now: i64) -> int
    decreases spans.len(),
{
    if spans.len() == 0 {
        0
    } else {
        let last = spans.last();
        let rest = tracked_total(spans.drop_last(), now);
        match last.0 {
            None => rest,
            Some(s) => {
                let e = match last.1 {
                    Some(e) => e,
                    None => now,
                };
                rest + if e - s > 0 {
                    e - s
                } else {
                    0
                }
            },
        }
    }
}

proof fn lemma_tracked_total_prefix(spans: Seq<(Option<i64>, Option<i64>)>, now: i64, k: int)
    requires
        0 <= k <= spans.len(),
    ensures
        0 <= tracked_total(spans.take(k), now) <= tracked_total(spans, now),
    decreases spans.len(),
{
    if k < spans.len() {
        assert(spans.drop_last().take(k) =~= spans.take(k));
        lemma_tracked_total_prefix(spans.drop_last(), now, k);
    } else {
        assert(spans.take(k) =~= spans);
        if spans.len() > 0 {
            lemma_tracked_total_prefix(spans.drop_last(), now, spans.len() - 1);
        }
    }
}

/// Sums the tracked seconds of the day's trackings (`(start, end)` as Unix
/// seconds; a start that could not be read is `None`).
pub fn tracked_seconds(spans: &Vec<(Option<i64>, Option<i64>)>, now: i64) -> (r: i64)
    requires
        tracked_total(spans@, now) <= i64::MAX,
    ensures
        r == tracked_total(spans@, now),
{
    let mut acc: i64 = 0;
    let mut i: usize = 0;
    while i < spans.len()
        invariant
            i <= spans.len(),
            tracked_total(spans@, now) <= i64::MAX,
            acc == tracked_total(spans@.take(i as int), now),
        decreases spans.len() - i,
    {
        proof {
            lemma_tracked_total_prefix(spans@, now, i + 1);
            assert(spans@.take(i + 1).drop_last() =~= spans@.take(i as int));
            assert(spans@.take(i + 1).last() == spans@[i as int]);
        }
        let (start, end) = spans[i];
        assert(start == spans@[i as int].0 && end == spans@[i as int].1);
        if let Some(s) = start {
            let e = match end {
                Some(e) => e,
                None => now,
            };
            let span: i128 = e as i128 - s as i128;
            assert(span == e - s);
            if span > 0 {
                assert(acc + span == tracked_total(spans@.take(i + 1), now));
                assert(acc + span <= i64::MAX);
                proof {
                    lemma_tracked_total_prefix(spans@, now, i as int);
                }
                assert(0 < span <= i64::MAX);
                let step = span as i64;
                acc = acc + step;
            } else {
                assert(acc == tracked_total(spans@.take(i + 1), now));
            }
        } else {
            assert(acc == tracked_total(spans@.take(i + 1), now));
        }
        i = i + 1;
    }
    assert(spans@.take(spans.len() as int) =~= spans@);
    acc
}

/// Title text while a project is tracked (`"<project> <H:MM> | <H:MM>"`) or not
/// (`"(none) 0:00 | <H:MM>"`).
pub open spec fn title_text(active: Option<(Seq<char>, int)>, total: int) -> Seq<char> {
    match active {
        Some((name, secs)) => name + seq![' '] + duration_hm(secs) + " | "@ + duration_hm(total),
        None => "(none) 0:00 | "@ + duration_hm(total),
    }
}

/// The window title's tracking text: the active project with its running time,
/// and the day's total.
pub fn title_tracking_text(active: Option<(&str, i64)>, total_secs: i64) -> (r: String)
    ensures
        r@ == title_text(
            match active {
                Some((n, s)) => Some((n@, s as int)),
                None => None,
            },
            total_secs as int,
        ),
{
    let total_text = format_duration_hm(total_secs);
    match active {
        Some((name, secs)) => {
            let mut r = String::from_str(name);
            push_char(&mut r, ' ');
            push_str(&mut r, format_duration_hm(secs).as_str());
            push_str(&mut r, " | ");
            push_str(&mut r, total_text.as_str());
            r
        },
        None => {
            let mut r = String::from_str("(none) 0:00 | ");
            push_str(&mut r, total_text.as_str());
            r
        },
    }
}

/// Seconds a tracking started at `start` (if its start could be read) has run at
/// `now`, counting a start in the future as 0.
pub open spec fn running_secs(start: Option<i64>, now: i64) -> int {
    match start {
        Some(s) => if now - s > 0 {
            now - s
        } else {
            0
        },
        None => 0,
    }
}

/// The window title's tracking text, from what the database gave: `"(none) 0:00 | 0:00"`
/// when it could not be opened; otherwise the active tracking (its project and
/// parsed start, if any) with its running time, and the total of the day's
/// trackings (0 when they could not be listed).
pub open spec fn window_title_text(
    db_open: bool,
    active: Option<(Seq<char>, Option<i64>)>,
    spans: Option<Seq<(Option<i64>, Option<i64>)>>,
    now: i64,
) -> Seq<char> {
    if !db_open {
        "(none) 0:00 | 0:00"@
    } else {
        let total = match spans {
            Some(sp) => tracked_total(sp, now),
            None => 0,
        };
        match active {
            Some((name, start)) => title_text(Some((name, running_secs(start, now))), total),
            None => title_text(None, total),
        }
    }
}

/// Builds the window title's tracking text at `now` (Unix seconds) from what the
/// database gave: whether it opened, the active tracking (project and parsed
/// start), and the day's trackings (`None` when they could not be listed).
pub fn window_title(
    db_open: bool,
    active: Option<(&str, Option<i64>)>,
    spans: Option<&Vec<(Option<i64>, Option<i64>)>>,
    now: i64,
) -> (r: String)
    requires
        spans matches Some(sp) ==> tracked_total(sp@, now) <= i64::MAX,
        active matches Some((_, Some(s))) ==> now - s <= i64::MAX,
    ensures
        r@ == window_title_text(
            db_open,
            match active {
                Some((n, s)) => Some((n@, s)),
                None => None,
            },
            match spans {
                Some(sp) => Some(sp@),
                None => None,
            },
            now,
        ),
{
    if !db_open {
        return String::from_str("(none) 0:00 | 0:00");
    }
    let total = match spans {
        Some(sp) => tracked_seconds(sp, now),
        None => 0,
    };
    match active {
        Some((name, start)) => {
            let secs: i64 = match start {
                Some(s) => {
                    let d: i128 = now as i128 - s as i128;
                    if d > 0 {
                        d as i64
                    } else {
                        0
                    }
                },
                None => 0,
            };
            assert(secs == running_secs(start, now));
            title_tracking_text(Some((name, secs)), total)
        },
        None => title_tracking_text(None, total),
    }
}

/// What one frame of the GUI does.
#[derive(Debug, Clone, Copy, PartialEq, Eq, Structural)]
pub struct FrameSteps {
    /// Show only the onboarding panel (and the toast).
    pub onboarding: bool,
    /// Handle the global keyboard shortcuts.
    pub shortcuts: bool,
    /// Poll the daemon panel (log lines, child exit, restarts).
    pub poll_daemon: bool,
    /// Draw the header, sidebar, status bar and the current view.
    pub main_view: bool,
}

/// The steps of a frame: until onboarding is done only the onboarding panel is
/// shown, with no shortcuts and no daemon polling; afterwards the main view.
pub fn frame_steps(onboarding_done: bool) -> (r: FrameSteps)
    ensures
        r.onboarding == !onboarding_done,
        r.shortcuts == onboarding_done,
        r.poll_daemon == onboarding_done,
        r.main_view == onboarding_done,
{
    FrameSteps {
        onboarding: !onboarding_done,
        shortcuts: onboarding_done,
        poll_daemon: onboarding_done,
        main_view: onboarding_done,
    }
}

/// The right-hand text of the status bar: `"backend: <name> | daemon: <state>"`.
pub fn status_bar_text(backend_name: &str, daemon_state: &str) -> (r: String)
    ensures
        r@ == "backend: "@ + backend_name@ + " | daemon: "@ + daemon_state@,
{
    let mut r = String::from_str("backend: ");
    push_str(&mut r, backend_name);
    push_str(&mut r, " | daemon: ");
    push_str(&mut r, daemon_state);
    r
}

// ---------------------------------------------------------------------------
// View modes and shortcuts
// ---------------------------------------------------------------------------

/// The views of the GUI.
#[derive(Debug, Clone, Copy, PartialEq, Eq, Structural)]
pub enum ViewMode {
    Current,
    Trackings,
    VisualDay,
    Projects,
    Jira,
    Daemon,
    Settings,
}

/// The views whose edits can be undone.
#[derive(Debug, Clone, Copy, PartialEq, Eq, Structural)]
pub enum UndoDomain {
    Trackings,
    VisualDay,
    Projects,
}

/// The undo history a view uses, if it has one.
pub open spec fn undo_domain_of(mode: ViewMode) -> Option<UndoDomain> {
    match mode {
        ViewMode::Trackings => Some(UndoDomain::Trackings),
        ViewMode::VisualDay => Some(UndoDomain::VisualDay),
        ViewMode::Projects => Some(UndoDomain::Projects),
        _ => None,
    }
}

/// The undo history of the current view.
pub fn current_undo_domain(mode: ViewMode) -> (r: Option<UndoDomain>)
    ensures
        r == undo_domain_of(mode),
{
    match mode {
        ViewMode::Trackings => Some(UndoDomain::Trackings),
        ViewMode::VisualDay => Some(UndoDomain::VisualDay),
        ViewMode::Projects => Some(UndoDomain::Projects),
        _ => None,
    }
}

/// The shortcut keys pressed during one frame.
#[derive(Debug, Clone, Copy, PartialEq, Eq, Structural)]
pub struct ShortcutKeys {
    pub ctrl_z: bool,
    pub c: bool,
    pub t: bool,
    pub v: bool,
    pub p: bool,
    pub j: bool,
    pub o: bool,
    pub x: bool,
    pub q: bool,
}

/// What the shortcuts of a frame ask for.
#[derive(Debug, Clone, Copy, PartialEq, Eq, Structural)]
pub enum ShortcutAction {
    /// A text field has the keyboard: nothing.
    Nothing,
    /// Undo the last change of this history.
    Undo(UndoDomain),
    /// Show `mode` (the current one if no view key was pressed), and close the
    /// window if asked.
    Navigate { mode: ViewMode, close: bool },
}

/// The mode chosen by the view keys of a frame (the last one in the order
/// C, T, V, P, J, O, X wins).
pub open spec fn mode_after_keys(mode: ViewMode, k: ShortcutKeys) -> ViewMode {
    if k.x {
        ViewMode::Settings
    } else if k.o {
        ViewMode::Daemon
    } else if k.j {
        ViewMode::Jira
    } else if k.p {
        ViewMode::Projects
    } else if k.v {
        ViewMode::VisualDay
    } else if k.t {
        ViewMode::Trackings
    } else if k.c {
        ViewMode::Current
    } else {
        mode
    }
}

/// What the global shortcuts of a frame do: nothing while a text field takes the
/// keyboard; Ctrl+Z undoes in a view with an undo history; otherwise view keys
/// switch the view and Q closes the window.
pub open spec fn shortcut_action(wants_keyboard: bool, mode: ViewMode, k: ShortcutKeys) -> ShortcutAction {
    if wants_keyboard {
        ShortcutAction::Nothing
    } else if k.ctrl_z && undo_domain_of(mode) is Some {
        ShortcutAction::Undo(undo_domain_of(mode)->0)
    } else {
        ShortcutAction::Navigate { mode: mode_after_keys(mode, k), close: k.q }
    }
}

/// Decides what the global shortcuts of a frame do.
pub fn handle_global_shortcuts(wants_keyboard: bool, mode: ViewMode, keys: ShortcutKeys) -> (r:
    ShortcutAction)
    ensures
        r == shortcut_action(wants_keyboard, mode, keys),
{
    if wants_keyboard {
        return ShortcutAction::Nothing;
    }
    if keys.ctrl_z {
        if let Some(domain) = current_undo_domain(mode) {
            return ShortcutAction::Undo(domain);
        }
    }
    let mut next = mode;
    if keys.c {
        next = ViewMode::Current;
    }
    if keys.t {
        next = ViewMode::Trackings;
    }
    if keys.v {
        next = ViewMode::VisualDay;
    }
    if keys.p {
        next = ViewMode::Projects;
    }
    if keys.j {
        next = ViewMode::Jira;
    }
    if keys.o {
        next = ViewMode::Daemon;
    }
    if keys.x {
        next = ViewMode::Settings;
    }
    ShortcutAction::Navigate { mode: next, close: keys.q }
}

/// The toast shown after an undo: the undo's own message, `nothing to undo`, or
/// `error: <reason>`.
pub fn undo_message(result: Result<Option<String>, String>) -> (r: String)
    ensures
        match result {
            Ok(Some(m)) => r@ == m@,
            Ok(None) => r@ == "nothing to undo"@,
            Err(e) => r@ == "error: "@ + e@,
        },
{
    match result {
        Ok(Some(m)) => m,
        Ok(None) => String::from_str("nothing to undo"),
        Err(e) => {
            let mut r = String::from_str("error: ");
            push_str(&mut r, e.as_str());
            r
        },
    }
}

// ---------------------------------------------------------------------------
// Theme
// ---------------------------------------------------------------------------

/// The theme setting handed to the GUI toolkit.
#[derive(Debug, Clone, Copy, PartialEq, Eq, Structural)]
pub enum ToolkitTheme {
    System,
    Light,
    Dark,
}

/// The toolkit theme for a preference: `Auto` follows the system.
pub fn toolkit_theme(pref: &ThemePreference) -> (r: ToolkitTheme)
    ensures
        r == match *pref {
            ThemePreference::Auto => ToolkitTheme::System,
            ThemePreference::Light => ToolkitTheme::Light,
            ThemePreference::Dark => ToolkitTheme::Dark,
        },
{
    match pref {
        ThemePreference::Auto => ToolkitTheme::System,
        ThemePreference::Light => ToolkitTheme::Light,
        ThemePreference::Dark => ToolkitTheme::Dark,
    }
}

// ---------------------------------------------------------------------------
// Toast
// ---------------------------------------------------------------------------

/// How long a toast stays, in milliseconds.
pub const TOAST_LIFETIME_MS: u64 = 5000;

/// A message shown in the corner of the window since `created_at_ms`.
pub struct Toast {
    pub text: String,
    pub created_at_ms: u64,
}

/// The toast slot of the window.
pub struct ToastSlot {
    pub toast: Option<Toast>,
}

impl ToastSlot {
    pub fn new() -> (r: Self)
        ensures
            r.toast is None,
    {
        ToastSlot { toast: None }
    }

    /// Shows `text` from `now_ms` on, replacing any toast; blank text is ignored.
    pub fn push_toast(&mut self, text: String, now_ms: u64)
        ensures
            trim(text@).len() == 0 ==> final(self).toast == old(self).toast,
            trim(text@).len() != 0 ==> final(self).toast == Some(
                Toast { text, created_at_ms: now_ms },
            ),
    {
        let t = trim_str(text.as_str());
        if t.as_str().is_empty() {
            return;
        }
        self.toast = Some(Toast { text, created_at_ms: now_ms });
    }

    /// The toast to draw at `now_ms`: a toast is dropped once it is 5 seconds old
    /// (or if the clock went back past its creation).
    pub fn expire(&mut self, now_ms: u64)
        ensures
            match old(self).toast {
                Some(t) => if now_ms >= t.created_at_ms && now_ms - t.created_at_ms
                    < TOAST_LIFETIME_MS {
                    final(self).toast == old(self).toast
                } else {
                    final(self).toast is None
                },
                None => final(self).toast is None,
            },
    {
        let expired = match &self.toast {
            Some(t) => now_ms < t.created_at_ms || now_ms - t.created_at_ms >= TOAST_LIFETIME_MS,
            None => false,
        };
        if expired {
            self.toast = None;
        }
    }

    /// Removes the toast (it was clicked).
    pub fn dismiss(&mut self)
        ensures
            final(self).toast is None,
    {
        self.toast = None;
    }
}

} // verus!
