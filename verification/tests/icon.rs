use type_bridge::icon::{icon_color, make_icon_rgba};

/// The picture computed with floating point, pixel by pixel, as distances.
fn float_picture(color: [u8; 4]) -> Vec<u8> {
    let size = 32u32;
    let mut pixels = vec![0u8; (size * size * 4) as usize];
    let center = size as f64 / 2.0;
    for y in 0..size {
        for x in 0..size {
            let dx = x as f64 - center;
            let dy = y as f64 - center;
            let dist = (dx * dx + dy * dy).sqrt();
            let idx = ((y * size + x) * 4) as usize;
            let (cx, cy) = (x as f64, y as f64);
            let in_rect = (cx >= 9.0 && cx <= 23.0 && cy >= 12.0 && cy <= 24.0)
                || (cx >= 6.0 && cx <= 26.0 && cy >= 15.0 && cy <= 21.0);
            let corners = [(9.0, 15.0), (23.0, 15.0), (9.0, 21.0), (23.0, 21.0)];
            let in_corner = corners.iter().any(|(px, py): &(f64, f64)| {
                let ddx = cx - px;
                let ddy = cy - py;
                (ddx * ddx + ddy * ddy).sqrt() <= 3.0
            });
            if in_rect || in_corner || (dist < 14.0 && dist > 6.0) {
                pixels[idx..idx + 4].copy_from_slice(&color);
            }
        }
    }
    pixels
}

#[test]
fn icon_has_32_by_32_rgba_pixels() {
    assert_eq!(make_icon_rgba([1, 2, 3, 4]).len(), 32 * 32 * 4);
}

#[test]
fn integer_picture_matches_distance_picture() {
    for active in [true, false] {
        let color = icon_color(active);
        assert_eq!(make_icon_rgba(color), float_picture(color));
    }
}

#[test]
fn icon_pixels_at_known_places() {
    let p = make_icon_rgba([10, 20, 30, 40]);
    let at = |x: usize, y: usize| &p[(y * 32 + x) * 4..(y * 32 + x) * 4 + 4];
    assert_eq!(at(16, 16), &[10, 20, 30, 40]); // on the key cap
    assert_eq!(at(16, 4), &[10, 20, 30, 40]); // on the ring
    assert_eq!(at(0, 0), &[0, 0, 0, 0]); // outside
    assert_eq!(at(16, 1), &[0, 0, 0, 0]); // beyond the ring
}

#[test]
fn icon_colors() {
    assert_eq!(icon_color(true), [0, 220, 100, 255]);
    assert_eq!(icon_color(false), [220, 80, 80, 255]);
}
