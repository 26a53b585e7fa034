//! The tray icon's picture: a rounded key cap inside a ring, 32×32 RGBA
//! pixels, green while typing is on and red while it is paused.
//!
//! The picture is drawn on whole-pixel coordinates with distances compared
//! through their squares, which decides every pixel as comparing the square
//! roots would.
use vstd::prelude::*;

verus! {

/// The picture's width and height, in pixels.
pub const ICON_SIZE: usize = 32;

/// The colour of the icon: green while typing is on, red while paused.
pub open spec fn icon_color_spec(active: bool) -> [u8; 4] {
    if active {
        [0u8, 220u8, 100u8, 255u8]
    } else {
        [220u8, 80u8, 80u8, 255u8]
    }
}

/// The colour of the icon.
pub fn icon_color(active: bool) -> (c: [u8; 4])
    ensures
        c == icon_color_spec(active),
{
    if active {
        [0u8, 220u8, 100u8, 255u8]
    } else {
        [220u8, 80u8, 80u8, 255u8]
    }
}

/// Whether pixel (x, y) lies within distance 3 of the corner centre (cx, cy).
pub open spec fn near(x: int, y: int, cx: int, cy: int) -> bool {
    (x - cx) * (x - cx) + (y - cy) * (y - cy) <= 9
}

/// Whether pixel (x, y) lies on the key cap: the rectangle from (6, 12) to
/// (26, 24) with corners rounded to radius 3.
pub open spec fn on_key(x: int, y: int) -> bool {
    ||| (9 <= x <= 23 && 12 <= y <= 24)
    ||| (6 <= x <= 26 && 15 <= y <= 21)
    ||| near(x, y, 9, 15)
    ||| near(x, y, 23, 15)
    ||| near(x, y, 9, 21)
    ||| near(x, y, 23, 21)
}

/// Whether pixel (x, y) lies on the ring around the centre (16, 16): farther
/// than 6 and nearer than 14.
pub open spec fn on_ring(x: int, y: int) -> bool {
    let d = (x - 16) * (x - 16) + (y - 16) * (y - 16);
    36 < d < 196
}

/// Whether pixel (x, y) is painted.
pub open spec fn painted(x: int, y: int) -> bool {
    on_key(x, y) || on_ring(x, y)
}

/// Byte `i` of the picture: channel `i % 4` of pixel `i / 4`, pixels going
/// row by row; painted pixels take `color`, the others are transparent black.
pub open spec fn icon_byte(color: [u8; 4], i: int) -> u8 {
    let p = i / 4;
    if painted(p % 32, p / 32) {
        color[i % 4]
    } else {
        0
    }
}

fn square(d: i32) -> (r: i32)
    requires
        -32 < d < 32,
    ensures
        r == d * d,
        0 <= r < 1024,
{
    assert(0 <= d * d < 1024) by (nonlinear_arith)
        requires
            -32 < d < 32,
    ;
    d * d
}

fn is_painted(x: i32, y: i32) -> (r: bool)
    requires
        0 <= x < 32,
        0 <= y < 32,
    ensures
        r == painted(x as int, y as int),
{
    let key = (9 <= x && x <= 23 && 12 <= y && y <= 24) || (6 <= x && x <= 26 && 15 <= y && y
        <= 21) || square(x - 9) + square(y - 15) <= 9 || square(x - 23) + square(y - 15) <= 9
        || square(x - 9) + square(y - 21) <= 9 || square(x - 23) + square(y - 21) <= 9;
    let d = square(x - 16) + square(y - 16);
    key || (36 < d && d < 196)
}

/// The RGBA bytes of the icon picture in `color`.
pub fn make_icon_rgba(color: [u8; 4]) -> (out: Vec<u8>)
    ensures
        out@.len() == 32 * 32 * 4,
        forall|i: int| 0 <= i < 32 * 32 * 4 ==> #[trigger] out@[i] == icon_byte(color, i),
{
    let mut out: Vec<u8> = Vec::new();
    let mut y: i32 = 0;
    while y < 32
        invariant
            0 <= y <= 32,
            out@.len() == 128 * y,
            forall|i: int| 0 <= i < out@.len() ==> #[trigger] out@[i] == icon_byte(color, i),
        decreases 32 - y,
    {
        let mut x: i32 = 0;
        while x < 32
            invariant
                0 <= y < 32,
                0 <= x <= 32,
                out@.len() == 128 * y + 4 * x,
                forall|i: int| 0 <= i < out@.len() ==> #[trigger] out@[i] == icon_byte(color, i),
            decreases 32 - x,
        {
            let paint = is_painted(x, y);
            let base = out.len();
            let mut k: usize = 0;
            while k < 4
                invariant
                    0 <= k <= 4,
                    0 <= x < 32,
                    0 <= y < 32,
                    base == 128 * y + 4 * x,
                    paint == painted(x as int, y as int),
                    out@.len() == base + k,
                    forall|i: int| 0 <= i < out@.len() ==> #[trigger] out@[i] == icon_byte(color, i),
                decreases 4 - k,
            {
                let b: u8 = if paint { color[k] } else { 0 };
                proof {
                    let i = base + k;
                    assert(i / 4 == 32 * y + x);
                    assert(i % 4 == k);
                    assert((32 * y + x) % 32 == x);
                    assert((32 * y + x) / 32 == y);
                }
                out.push(b);
                k = k + 1;
            }
            x = x + 1;
        }
        y = y + 1;
    }
    out
}

} // verus!
