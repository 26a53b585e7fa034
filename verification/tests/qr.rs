use type_bridge::qr::{
    compose_frame, frame_size, pixels_from_rows, qr_code_text, qr_lines, qr_pixels, split_lines,
    BLACK, WHITE,
};
use type_bridge::qr::window_left;

#[test]
fn qr_text_and_lines_agree() {
    let url = "http://192.168.1.42:12345/?token=abc";
    let text = qr_code_text(url).unwrap();
    let lines = qr_lines(url).unwrap();
    let expected: Vec<String> = text.lines().map(|l| l.to_string()).collect();
    assert_eq!(lines, expected);
    assert!(lines.len() > 10);
    assert!(lines.iter().all(|l| l.chars().count() == lines[0].chars().count()));
}

#[test]
fn too_long_data_has_no_qr_code() {
    let long = "x".repeat(8000);
    assert!(qr_code_text(&long).is_none());
    assert!(qr_lines(&long).is_none());
    assert!(qr_pixels(&long, 6).is_none());
}

#[test]
fn split_lines_like_str_lines() {
    let cases = ["", "a", "a\nb", "a\n", "\n", "ab\n\ncd", "x\ny\n"];
    for c in cases {
        let chars: Vec<char> = c.chars().collect();
        let got: Vec<String> = split_lines(&chars).iter().map(|r| r.iter().collect()).collect();
        let want: Vec<String> = c.lines().map(|l| l.to_string()).collect();
        assert_eq!(got, want, "case {c:?}");
    }
}

#[test]
fn pixels_follow_the_block_characters() {
    let rows: Vec<Vec<char>> = vec![
        vec!['\u{2588}', '\u{2580}'],
        vec!['\u{2584}', ' '],
    ];
    let (w, h, px) = pixels_from_rows(&rows, 2);
    assert_eq!((w, h), (4, 8));
    assert_eq!(px.len(), 32);
    let at = |x: usize, y: usize| px[y * 4 + x];
    // cell (0,0) full block: all dark
    assert_eq!(at(0, 0), BLACK);
    assert_eq!(at(1, 3), BLACK);
    // cell (1,0) upper half: top dark, bottom light
    assert_eq!(at(2, 0), BLACK);
    assert_eq!(at(3, 2), WHITE);
    // cell (0,1) lower half
    assert_eq!(at(0, 4), WHITE);
    assert_eq!(at(1, 7), BLACK);
    // cell (1,1) blank
    assert_eq!(at(3, 7), WHITE);
}

#[test]
fn qr_pixels_size_matches_text() {
    let url = "http://10.0.0.2:12345/?token=t";
    let (w, h, px) = qr_pixels(url, 3).unwrap();
    assert_eq!(px.len() as u32, w * h);
    assert_eq!(w % 3, 0);
    assert_eq!(h % 6, 0);
}

#[test]
fn frame_places_picture_with_padding() {
    let qr = vec![1u32, 2, 3, 4, 5, 6]; // 3 wide, 2 high
    assert_eq!(frame_size(3, 2, 1), Some((5, 4)));
    assert_eq!(frame_size(u32::MAX, 2, 1), None);
    let f = compose_frame(&qr, 3, 2, 1, 20);
    let w = WHITE;
    assert_eq!(
        f,
        vec![w, w, w, w, w, w, 1, 2, 3, w, w, 4, 5, 6, w, w, w, w, w, w]
    );
    // a buffer too short for the second row leaves it out
    let g = compose_frame(&qr, 3, 2, 1, 13);
    assert_eq!(g, vec![w, w, w, w, w, w, 1, 2, 3, w, w, w, w]);
}

#[test]
fn window_is_centred_and_kept_on_screen() {
    assert_eq!(window_left(1920, 320), 800);
    assert_eq!(window_left(1921, 320), 800);
    assert_eq!(window_left(200, 320), 0);
    assert_eq!(window_left(320, 320), 0);
}
