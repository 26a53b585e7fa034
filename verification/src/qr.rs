//! The QR code of the access URL: its text rendering (two module rows per
//! text line, drawn with block characters), and the pixels of the QR window.
use vstd::prelude::*;
use crate::paste::opt_view;
use crate::text::string_from_chars;
use qrcode::render::unicode::Dense1x2;

verus! {

/// The text that `qrcode` renders for `data` with its `Dense1x2` renderer
/// (dark modules dark, light modules light), with or without the quiet zone;
/// `None` where the data does not fit in a QR code.
pub uninterp spec fn qr_text(data: Seq<char>, quiet_zone: bool) -> Option<Seq<char>>;

/// Renders `data` as a QR code in text; calls `qrcode::QrCode::new` and its
/// `render::<Dense1x2>()` builder. The result is named by [`qr_text`]: it
/// depends on `data` and `quiet_zone` alone.
#[verifier::external_body]
fn render_dense(data: &str, quiet_zone: bool) -> (r: Option<String>)
    ensures
        opt_view(r) == qr_text(data@, quiet_zone),
{
    match qrcode::QrCode::new(data) {
        Ok(code) => Some(
            code.render::<Dense1x2>().dark_color(Dense1x2::Dark).light_color(
                Dense1x2::Light,
            ).quiet_zone(quiet_zone).build(),
        ),
        Err(_) => None,
    }
}

/// The QR code of `url` as text, with its quiet zone (as printed in the
/// terminal); `None` where the URL does not fit in a QR code.
pub fn qr_code_text(url: &str) -> (r: Option<String>)
    ensures
        opt_view(r) == qr_text(url@, true),
{
    render_dense(url, true)
}

/// The lines of `t` from the line that began at `start`, the scan being at
/// `i`: the pieces between newlines, where a final newline ends the last
/// line rather than starting an empty one (as `str::lines` splits text
/// without carriage returns).
pub open spec fn lines_from(t: Seq<char>, start: int, i: int) -> Seq<Seq<char>>
    decreases t.len() - i,
{
    if i < 0 || start < 0 || start > i {
        seq![]
    } else if i >= t.len() {
        if start < t.len() {
            seq![t.subrange(start, t.len() as int)]
        } else {
            seq![]
        }
    } else if t[i] == '\n' {
        seq![t.subrange(start, i)] + lines_from(t, i + 1, i + 1)
    } else {
        lines_from(t, start, i + 1)
    }
}

/// The lines of `t`.
pub open spec fn text_lines(t: Seq<char>) -> Seq<Seq<char>> {
    lines_from(t, 0, 0)
}

/// The models of a list of character vectors.
pub open spec fn rows_model(v: Seq<Vec<char>>) -> Seq<Seq<char>> {
    v.map_values(|r: Vec<char>| r@)
}

/// Splits `t` into its lines.
pub fn split_lines(t: &Vec<char>) -> (out: Vec<Vec<char>>)
    ensures
        rows_model(out@) == text_lines(t@),
{
    let n = t.len();
    let mut out: Vec<Vec<char>> = Vec::new();
    let mut cur: Vec<char> = Vec::new();
    let mut start: usize = 0;
    let mut i: usize = 0;
    while i < n
        invariant
            n == t@.len(),
            start <= i <= n,
            cur@ == t@.subrange(start as int, i as int),
            rows_model(out@) + lines_from(t@, start as int, i as int) == text_lines(t@),
        decreases n - i,
    {
        if t[i] == '\n' {
            let ghost before = out@;
            out.push(cur);
            cur = Vec::new();
            proof {
                assert(rows_model(out@) =~= rows_model(before).push(t@.subrange(start as int, i as int)));
                assert(rows_model(out@) + lines_from(t@, i + 1, i + 1) =~= rows_model(before) + lines_from(
                    t@,
                    start as int,
                    i as int,
                ));
            }
            start = i + 1;
        } else {
            cur.push(t[i]);
            assert(cur@ =~= t@.subrange(start as int, i + 1));
        }
        i = i + 1;
    }
    if start < n {
        let ghost before = out@;
        out.push(cur);
        assert(rows_model(out@) =~= rows_model(before) + lines_from(t@, start as int, i as int));
    } else {
        assert(rows_model(out@) =~= rows_model(out@) + lines_from(t@, start as int, i as int));
    }
    out
}

/// The lines of the QR code of `url` (with its quiet zone), as shown in the
/// tray menu; `None` where the URL does not fit in a QR code.
pub fn qr_lines(url: &str) -> (r: Option<Vec<String>>)
    ensures
        match r {
            Some(ls) => qr_text(url@, true) matches Some(t) && ls@.map_values(|s: String| s@)
                == text_lines(t),
            None => qr_text(url@, true) is None,
        },
{
    match render_dense(url, true) {
        Some(text) => {
            let chars = crate::text::chars_of(text.as_str());
            let rows = split_lines(&chars);
            let mut out: Vec<String> = Vec::new();
            let n = rows.len();
            for i in 0..n
                invariant
                    n == rows@.len(),
                    out@.len() == i,
                    forall|j: int| 0 <= j < i ==> #[trigger] out@[j]@ == rows@[j]@,
            {
                out.push(string_from_chars(&rows[i]));
            }
            proof {
                assert(out@.map_values(|s: String| s@) =~= rows_model(rows@));
            }
            Some(out)
        },
        None => None,
    }
}

/// Opaque black.
pub const BLACK: u32 = 0xFF000000;

/// Opaque white.
pub const WHITE: u32 = 0xFFFFFFFF;

/// Whether the upper module of a text cell is dark (`█` or `▀`).
pub open spec fn dark_top(c: char) -> bool {
    c == '\u{2588}' || c == '\u{2580}'
}

/// Whether the lower module of a text cell is dark (`█` or `▄`).
pub open spec fn dark_bottom(c: char) -> bool {
    c == '\u{2588}' || c == '\u{2584}'
}

/// Whether the rows all have the length of the first.
pub open spec fn uniform(rows: Seq<Seq<char>>) -> bool {
    forall|i: int| 0 <= i < rows.len() ==> #[trigger] rows[i].len() == rows[0].len()
}

/// The pixel width of the rows at `scale` pixels per module.
pub open spec fn pixel_width(rows: Seq<Seq<char>>, scale: int) -> int {
    if rows.len() > 0 {
        rows[0].len() * scale
    } else {
        0
    }
}

/// The pixel height of the rows: two modules per row, `scale` pixels each.
pub open spec fn pixel_height(rows: Seq<Seq<char>>, scale: int) -> int {
    rows.len() * 2 * scale
}

/// Whether the rows can be drawn at `scale`: they all have one length, and
/// the picture's sizes and pixel count fit in 32 bits.
pub open spec fn drawable(rows: Seq<Seq<char>>, scale: int) -> bool {
    &&& uniform(rows)
    &&& pixel_width(rows, scale) <= u32::MAX
    &&& pixel_height(rows, scale) <= u32::MAX
    &&& pixel_width(rows, scale) * pixel_height(rows, scale) <= u32::MAX
}

/// Pixel `i` (row by row, `pw` to a row) of the rows drawn at `scale`:
/// black where its module is dark, white otherwise.
pub open spec fn qr_pixel(rows: Seq<Seq<char>>, scale: int, pw: int, i: int) -> u32 {
    let py = i / pw;
    let px = i % pw;
    let c = rows[py / (2 * scale)][px / scale];
    let dark = if py % (2 * scale) < scale {
        dark_top(c)
    } else {
        dark_bottom(c)
    };
    if dark {
        BLACK
    } else {
        WHITE
    }
}

proof fn lemma_div_mod_of(py: int, pw: int, px: int)
    requires
        pw > 0,
        0 <= px < pw,
        py >= 0,
    ensures
        (py * pw + px) / pw == py,
        (py * pw + px) % pw == px,
{
    vstd::arithmetic::div_mod::lemma_fundamental_div_mod_converse(py * pw + px, pw, py, px);
}

proof fn lemma_cell_bounds(py: int, px: int, s: int, rows: int, cols: int)
    requires
        s > 0,
        0 <= py < rows * 2 * s,
        0 <= px < cols * s,
    ensures
        0 <= py / (2 * s) < rows,
        0 <= px / s < cols,
{
    assert(0 <= py / (2 * s) < rows) by (nonlinear_arith)
        requires
            s > 0,
            0 <= py < rows * 2 * s,
    {
        assert(py / (2 * s) * (2 * s) <= py) by {
            vstd::arithmetic::div_mod::lemma_fundamental_div_mod(py, 2 * s);
        }
    }
    assert(0 <= px / s < cols) by (nonlinear_arith)
        requires
            s > 0,
            0 <= px < cols * s,
    {
        assert(px / s * s <= px) by {
            vstd::arithmetic::div_mod::lemma_fundamental_div_mod(px, s);
        }
    }
}

/// Draws text rows of a QR code as pixels, `scale` pixels per module; returns
/// the width, the height and the pixels, row by row.
pub fn pixels_from_rows(rows: &Vec<Vec<char>>, scale: u32) -> (r: (u32, u32, Vec<u32>))
    requires
        drawable(rows_model(rows@), scale as int),
    ensures
        r.0 == pixel_width(rows_model(rows@), scale as int),
        r.1 == pixel_height(rows_model(rows@), scale as int),
        r.2@.len() == r.0 * r.1,
        forall|i: int|
            0 <= i < r.2@.len() ==> #[trigger] r.2@[i] == qr_pixel(
                rows_model(rows@),
                scale as int,
                r.0 as int,
                i,
            ),
{
    let ghost m = rows_model(rows@);
    if scale == 0 {
        proof {
            assert(pixel_width(m, 0) == 0);
            assert(m.len() * 2 * 0 == 0) by (nonlinear_arith);
            assert(pixel_height(m, 0) == 0);
        }
        return (0, 0, Vec::new());
    }
    let ch = rows.len();
    let cw: usize = if ch > 0 { rows[0].len() } else { 0 };
    proof {
        assert(ch == m.len());
        if ch > 0 {
            assert(m[0] == rows@[0]@);
        }
        assert(cw * scale <= u32::MAX);
        assert(ch * 2 * scale <= u32::MAX);
        assert(cw <= cw * scale && ch * 2 <= ch * 2 * scale) by (nonlinear_arith)
            requires
                scale >= 1,
        ;
    }
    let pw: u32 = (cw as u64 * scale as u64) as u32;
    let ph: u32 = (ch as u64 * 2 * scale as u64) as u32;
    let two_s: u32 = if ch > 0 {
        proof {
            assert(2 * scale <= ch * 2 * scale) by (nonlinear_arith)
                requires
                    ch >= 1,
                    scale >= 1,
            ;
        }
        2 * scale
    } else {
        0
    };
    let mut out: Vec<u32> = Vec::new();
    let mut py: u32 = 0;
    while py < ph
        invariant
            m == rows_model(rows@),
            drawable(m, scale as int),
            ch == m.len(),
            pw == pixel_width(m, scale as int),
            ph == pixel_height(m, scale as int),
            cw == (if ch > 0 { m[0].len() } else { 0 }),
            scale >= 1,
            ch > 0 ==> two_s == 2 * scale,
            py <= ph,
            out@.len() == py * pw,
            forall|i: int|
                0 <= i < out@.len() ==> #[trigger] out@[i] == qr_pixel(m, scale as int, pw as int, i),
        decreases ph - py,
    {
        let mut px: u32 = 0;
        while px < pw
            invariant
                m == rows_model(rows@),
                drawable(m, scale as int),
                ch == m.len(),
                pw == pixel_width(m, scale as int),
                ph == pixel_height(m, scale as int),
                cw == (if ch > 0 { m[0].len() } else { 0 }),
                scale >= 1,
                ch > 0 ==> two_s == 2 * scale,
                py < ph,
                px <= pw,
                out@.len() == py * pw + px,
                forall|i: int|
                    0 <= i < out@.len() ==> #[trigger] out@[i] == qr_pixel(
                        m,
                        scale as int,
                        pw as int,
                        i,
                    ),
            decreases pw - px,
        {
            proof {
                assert(scale > 0 && ch > 0) by (nonlinear_arith)
                    requires
                        0 <= py < ph,
                        ph == ch * 2 * scale,
                ;
                lemma_cell_bounds(py as int, px as int, scale as int, ch as int, cw as int);
                assert(py * pw + px < pw * ph) by (nonlinear_arith)
                    requires
                        py < ph,
                        px < pw,
                ;
            }
            let row = (py / two_s) as usize;
            let col = (px / scale) as usize;
            proof {
                assert(m[row as int] == rows@[row as int]@);
                assert(m[row as int].len() == m[0].len());
            }
            let c = rows[row][col];
            let dark = if py % two_s < scale {
                c == '\u{2588}' || c == '\u{2580}'
            } else {
                c == '\u{2588}' || c == '\u{2584}'
            };
            let ghost i = out@.len() as int;
            out.push(if dark { BLACK } else { WHITE });
            proof {
                lemma_div_mod_of(py as int, pw as int, px as int);
                assert(m[row as int] == rows@[row as int]@);
                assert(m[row as int].len() == m[0].len());
                assert(out@[i] == qr_pixel(m, scale as int, pw as int, i));
            }
            px = px + 1;
        }
        proof {
            assert((py + 1) * pw == py * pw + pw) by (nonlinear_arith);
        }
        py = py + 1;
    }
    proof {
        assert(ph * pw == pw * ph) by (nonlinear_arith);
    }
    (pw, ph, out)
}

/// Checks that text rows can be drawn at `scale`.
pub fn can_draw(rows: &Vec<Vec<char>>, scale: u32) -> (ok: bool)
    ensures
        ok == drawable(rows_model(rows@), scale as int),
{
    let ghost m = rows_model(rows@);
    let ch = rows.len();
    if ch == 0 {
        proof {
            assert(pixel_height(m, scale as int) == 0) by (nonlinear_arith)
                requires
                    m.len() == 0,
                    pixel_height(m, scale as int) == m.len() * 2 * scale,
            ;
            assert(pixel_width(m, scale as int) * pixel_height(m, scale as int) == 0) by (nonlinear_arith)
                requires
                    pixel_height(m, scale as int) == 0,
            ;
        }
        return true;
    }
    let cw = rows[0].len();
    for i in 0..ch
        invariant
            ch == rows@.len(),
            m == rows_model(rows@),
            ch > 0,
            cw == m[0].len(),
            forall|j: int| 0 <= j < i ==> #[trigger] m[j].len() == m[0].len(),
    {
        if rows[i].len() != cw {
            assert(m[i as int].len() != m[0].len());
            return false;
        }
    }
    proof {
        assert(cw * scale <= u128::MAX && ch * 2 * scale <= u128::MAX) by (nonlinear_arith)
            requires
                cw <= u64::MAX,
                ch <= u64::MAX,
                scale <= u32::MAX,
        ;
    }
    let w: u128 = cw as u128 * scale as u128;
    let h: u128 = ch as u128 * 2 * scale as u128;
    if w > 0xFFFF_FFFF || h > 0xFFFF_FFFF {
        return false;
    }
    proof {
        assert(w * h <= 0xFFFF_FFFF * 0xFFFF_FFFF) by (nonlinear_arith)
            requires
                w <= 0xFFFF_FFFF,
                h <= 0xFFFF_FFFF,
        ;
    }
    w * h <= 0xFFFF_FFFF
}

/// The pixels of the QR window: the QR code of `url` without quiet zone,
/// `scale` pixels per module. `None` where the URL does not fit in a QR code
/// or the picture would not fit in 32-bit sizes.
pub fn qr_pixels(url: &str, scale: u32) -> (r: Option<(u32, u32, Vec<u32>)>)
    ensures
        match r {
            Some((pw, ph, px)) => qr_text(url@, false) matches Some(t) && {
                let rows = text_lines(t);
                &&& drawable(rows, scale as int)
                &&& pw == pixel_width(rows, scale as int)
                &&& ph == pixel_height(rows, scale as int)
                &&& px@.len() == pw * ph
                &&& forall|i: int|
                    0 <= i < px@.len() ==> #[trigger] px@[i] == qr_pixel(
                        rows,
                        scale as int,
                        pw as int,
                        i,
                    )
            },
            None => match qr_text(url@, false) {
                Some(t) => !drawable(text_lines(t), scale as int),
                None => true,
            },
        },
{
    match render_dense(url, false) {
        Some(text) => {
            let chars = crate::text::chars_of(text.as_str());
            let rows = split_lines(&chars);
            if can_draw(&rows, scale) {
                Some(pixels_from_rows(&rows, scale))
            } else {
                None
            }
        },
        None => None,
    }
}

/// Padding around the QR code in the window, in logical pixels.
pub const QR_PAD: u32 = 28;

/// Logical pixels per QR module.
pub const QR_SCALE: u32 = 6;

/// The size of a window showing a `pw`×`ph` picture with `pad` pixels on
/// every side; `None` where it does not fit in 32 bits.
pub fn frame_size(pw: u32, ph: u32, pad: u32) -> (r: Option<(u32, u32)>)
    ensures
        match r {
            Some((ww, wh)) => ww == pw + 2 * pad && wh == ph + 2 * pad,
            None => pw + 2 * pad > u32::MAX || ph + 2 * pad > u32::MAX,
        },
{
    let w: u64 = pw as u64 + 2 * pad as u64;
    let h: u64 = ph as u64 + 2 * pad as u64;
    if w > 0xFFFF_FFFF || h > 0xFFFF_FFFF {
        None
    } else {
        Some((w as u32, h as u32))
    }
}

/// The left edge that centres a window `ww` pixels wide on a screen
/// `screen_width` pixels wide, never left of the screen's edge.
pub fn window_left(screen_width: u32, ww: u32) -> (x: u32)
    ensures
        x == (if screen_width > ww {
            (screen_width - ww) / 2
        } else {
            0
        }),
{
    if screen_width > ww {
        (screen_width - ww) / 2
    } else {
        0
    }
}

/// Pixel `i` of a window buffer of `len` pixels, `ww` to a row, showing the
/// `pw`×`ph` picture `qr` at offset `pad`: a picture row is drawn only where
/// it fits in the buffer whole; everything else is white.
pub open spec fn frame_pixel(qr: Seq<u32>, pw: int, ph: int, pad: int, ww: int, len: int, i: int) -> u32 {
    if ww == 0 {
        WHITE
    } else {
        let y = i / ww;
        let x = i % ww;
        if pad <= y < pad + ph && pad <= x < pad + pw && y * ww + pad + pw <= len {
            qr[(y - pad) * pw + (x - pad)]
        } else {
            WHITE
        }
    }
}

/// The content of the QR window's pixel buffer (`len` pixels, `pw` + 2·`pad`
/// to a row): white, with the picture in the middle.
pub fn compose_frame(qr: &Vec<u32>, pw: u32, ph: u32, pad: u32, len: usize) -> (out: Vec<u32>)
    requires
        qr@.len() == pw * ph,
        pw + 2 * pad <= u32::MAX,
    ensures
        out@.len() == len,
        forall|i: int|
            0 <= i < len ==> #[trigger] out@[i] == frame_pixel(
                qr@,
                pw as int,
                ph as int,
                pad as int,
                pw + 2 * pad,
                len as int,
                i,
            ),
{
    let ww: usize = pw as usize + 2 * pad as usize;
    let qlen = qr.len();
    let mut out: Vec<u32> = Vec::new();
    let mut i: usize = 0;
    while i < len
        invariant
            ww == pw + 2 * pad,
            qr@.len() == pw * ph,
            qlen == qr@.len(),
            i <= len,
            out@.len() == i,
            forall|j: int|
                0 <= j < i ==> #[trigger] out@[j] == frame_pixel(
                    qr@,
                    pw as int,
                    ph as int,
                    pad as int,
                    ww as int,
                    len as int,
                    j,
                ),
        decreases len - i,
    {
        let mut v: u32 = WHITE;
        if ww > 0 {
            let y = i / ww;
            let x = i % ww;
            proof {
                vstd::arithmetic::div_mod::lemma_fundamental_div_mod(i as int, ww as int);
                assert(y * ww + x == i) by (nonlinear_arith)
                    requires
                        ww * y + x == i,
                ;
            }
            if pad as usize <= y && y - (pad as usize) < ph as usize && pad as usize <= x && x - (
            pad as usize) < pw as usize {
                let start = i - x;
                if pad as usize + pw as usize <= len - start {
                    let r = y - pad as usize;
                    let c = x - pad as usize;
                    proof {
                        assert(r * pw + c < pw * ph) by (nonlinear_arith)
                            requires
                                r < ph,
                                c < pw,
                        ;
                        assert(r * pw + c < qr@.len());
                    }
                    v = qr[r * pw as usize + c];
                }
            }
        }
        out.push(v);
        i = i + 1;
    }
    out
}

/// Each module of the QR code is a `scale`×`scale` square: pixel row `k`
/// (of `2·scale`) and column `j` (of `scale`) of the cell in text row `r`,
/// column `c` is black exactly when the module it falls in is dark: the upper
/// one for the first `scale` pixel rows (`█` or `▀`), the lower one for the
/// last `scale` (`█` or `▄`).
pub proof fn qr_modules_are_square(rows: Seq<Seq<char>>, scale: int, r: int, c: int, k: int, j: int)
    requires
        scale >= 1,
        uniform(rows),
        0 <= r < rows.len(),
        0 <= c < rows[0].len(),
        0 <= k < 2 * scale,
        0 <= j < scale,
    ensures
        ({
            let pw = pixel_width(rows, scale);
            let ch = rows[r][c];
            let dark = if k < scale {
                ch == '\u{2588}' || ch == '\u{2580}'
            } else {
                ch == '\u{2588}' || ch == '\u{2584}'
            };
            &&& 0 <= (r * 2 * scale + k) * pw + c * scale + j < pw * pixel_height(rows, scale)
            &&& qr_pixel(rows, scale, pw, (r * 2 * scale + k) * pw + c * scale + j) == (if dark {
                BLACK
            } else {
                WHITE
            })
        }),
{
    let pw = pixel_width(rows, scale);
    let cols = rows[0].len() as int;
    let py = r * 2 * scale + k;
    let px = c * scale + j;
    assert(pw == cols * scale);
    assert(px < pw) by (nonlinear_arith)
        requires
            px == c * scale + j,
            0 <= c < cols,
            0 <= j < scale,
            pw == cols * scale,
    ;
    assert(py < rows.len() * 2 * scale) by (nonlinear_arith)
        requires
            py == r * 2 * scale + k,
            0 <= r < rows.len(),
            0 <= k < 2 * scale,
    ;
    assert(0 <= py * pw + px < pw * pixel_height(rows, scale)) by (nonlinear_arith)
        requires
            0 <= py < rows.len() * 2 * scale,
            0 <= px < pw,
            pixel_height(rows, scale) == rows.len() * 2 * scale,
    ;
    lemma_div_mod_of(py, pw, px);
    assert(py == r * (2 * scale) + k) by (nonlinear_arith)
        requires
            py == r * 2 * scale + k,
    ;
    vstd::arithmetic::div_mod::lemma_fundamental_div_mod_converse(py, 2 * scale, r, k);
    vstd::arithmetic::div_mod::lemma_fundamental_div_mod_converse(px, scale, c, j);
    assert(rows[r].len() == rows[0].len());
}

/// The window shows the whole picture, padded by `pad` on every side: picture
/// pixel (`r`, `c`) is at buffer row `r + pad`, column `c + pad`, whenever the
/// buffer holds that picture row whole; buffer pixels left or above the
/// padding, or right of or below the picture, are white.
pub proof fn frame_shows_picture(qr: Seq<u32>, pw: int, ph: int, pad: int, len: int, r: int, c: int)
    requires
        qr.len() == pw * ph,
        pad >= 0,
        0 <= r < ph,
        0 <= c < pw,
        (r + pad) * (pw + 2 * pad) + pad + pw <= len,
    ensures
        frame_pixel(qr, pw, ph, pad, pw + 2 * pad, len, (r + pad) * (pw + 2 * pad) + (c + pad))
            == qr[r * pw + c],
        0 <= r * pw + c < qr.len(),
        forall|y: int, x: int|
            0 <= y && 0 <= x < pw + 2 * pad && (y < pad || y >= pad + ph || x < pad || x >= pad + pw)
                ==> #[trigger] frame_pixel(qr, pw, ph, pad, pw + 2 * pad, len, y * (pw + 2 * pad) + x)
                == WHITE,
{
    let ww = pw + 2 * pad;
    lemma_div_mod_of(r + pad, ww, c + pad);
    assert(0 <= r * pw + c < qr.len()) by (nonlinear_arith)
        requires
            0 <= r < ph,
            0 <= c < pw,
            qr.len() == pw * ph,
    ;
    assert forall|y: int, x: int|
        0 <= y && 0 <= x < pw + 2 * pad && (y < pad || y >= pad + ph || x < pad || x >= pad + pw)
            implies #[trigger] frame_pixel(qr, pw, ph, pad, pw + 2 * pad, len, y * (pw + 2 * pad) + x)
            == WHITE by {
        lemma_div_mod_of(y, ww, x);
    }
}

} // verus!
