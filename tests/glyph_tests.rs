use ascii_player::frame::{PlaybackError, RawFrame};
use ascii_player::glyph::{glyph_index, palette_glyph, render_pixels};
use ascii_player::render::image_to_ascii;

fn frame(width: u32, height: u32, pixels: &[(u8, u8, u8)]) -> RawFrame {
    let mut bytes = Vec::new();
    for &(r, g, b) in pixels {
        bytes.push(r);
        bytes.push(g);
        bytes.push(b);
    }
    RawFrame::from_raw(width, height, bytes).unwrap()
}

#[test]
fn black_is_blank_and_white_is_at_sign() {
    assert_eq!(glyph_index(0, 0, 0), 0);
    assert_eq!(palette_glyph(glyph_index(0, 0, 0)), ' ');
    assert_eq!(glyph_index(255, 255, 255), 6);
    assert_eq!(palette_glyph(glyph_index(255, 255, 255)), '@');
}

#[test]
fn mid_grey_and_bucket_edges() {
    assert_eq!(glyph_index(128, 128, 128), 3);
    assert_eq!(glyph_index(19, 19, 19), 0);
    assert_eq!(glyph_index(22, 22, 22), 1);
    assert_eq!(glyph_index(255, 0, 0), 2);
    assert_eq!(glyph_index(0, 255, 0), 4);
    assert_eq!(glyph_index(0, 0, 255), 1);
}

#[test]
fn brightening_a_channel_never_darkens_the_glyph() {
    let samples: [u8; 6] = [0, 30, 90, 128, 200, 255];
    for &r in &samples {
        for &g in &samples {
            for &b in &samples {
                let base = glyph_index(r, g, b);
                assert!(glyph_index(r.saturating_add(40), g, b) >= base);
                assert!(glyph_index(r, g.saturating_add(40), b) >= base);
                assert!(glyph_index(r, g, b.saturating_add(40)) >= base);
            }
        }
    }
}

#[test]
fn palette_in_order() {
    let glyphs: Vec<char> = (0..7).map(palette_glyph).collect();
    assert_eq!(glyphs, vec![' ', '.', '/', '*', '#', '$', '@']);
}

#[test]
fn two_by_two_checkerboard_without_resize() {
    let f = frame(2, 2, &[(0, 0, 0), (255, 255, 255), (255, 255, 255), (0, 0, 0)]);
    let art = image_to_ascii(&f, 1).unwrap();
    assert_eq!(art, "  @ \n@   ");
}

#[test]
fn render_pixels_lays_out_rows() {
    let bytes = vec![0, 0, 0, 255, 255, 255, 128, 128, 128, 255, 255, 255, 0, 0, 0, 128, 128, 128];
    assert_eq!(render_pixels(&bytes, 3, 2), "  @ * \n@   * ");
    assert_eq!(render_pixels(&Vec::new(), 0, 0), "");
}

#[test]
fn resize_samples_each_half() {
    // Left half black, right half white; halving keeps one pixel of each.
    let mut pixels = Vec::new();
    for _ in 0..2 {
        pixels.extend_from_slice(&[(0, 0, 0), (0, 0, 0), (255, 255, 255), (255, 255, 255)]);
    }
    let f = frame(4, 2, &pixels);
    assert_eq!(image_to_ascii(&f, 2).unwrap(), "  @ ");
}

#[test]
fn rows_and_columns_follow_the_divisor() {
    let pixels = vec![(200u8, 200u8, 200u8); 45 * 61];
    let f = frame(45, 61, &pixels);
    let art = image_to_ascii(&f, 20).unwrap();
    let rows: Vec<&str> = art.split('\n').collect();
    assert_eq!(rows.len(), 3);
    for row in rows {
        assert_eq!(row, "$ $ ");
    }
}

#[test]
fn divisor_larger_than_a_side_is_degenerate() {
    let f = frame(30, 10, &vec![(0, 0, 0); 300]);
    assert!(matches!(image_to_ascii(&f, 20), Err(PlaybackError::DegenerateResize)));
    let f = frame(10, 30, &vec![(0, 0, 0); 300]);
    assert!(matches!(image_to_ascii(&f, 20), Err(PlaybackError::DegenerateResize)));
}

#[test]
fn raw_frame_needs_exact_length() {
    assert!(RawFrame::from_raw(2, 2, vec![0; 12]).is_some());
    assert!(RawFrame::from_raw(2, 2, vec![0; 11]).is_none());
    assert!(RawFrame::from_raw(2, 2, vec![0; 13]).is_none());
    assert!(RawFrame::from_raw(0, 2, vec![]).is_none());
    let f = RawFrame::from_raw(2, 1, vec![1, 2, 3, 4, 5, 6]).unwrap();
    assert_eq!((f.width(), f.height()), (2, 1));
    assert_eq!(f.bytes(), &vec![1, 2, 3, 4, 5, 6]);
}
