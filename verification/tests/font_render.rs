use jp2_viewer::buffer::PixelBuffer;
use jp2_viewer::buffer::Rgb;
use jp2_viewer::buffer::Rgba;
use jp2_viewer::font::draw_glyph;
use jp2_viewer::font::draw_text;
use jp2_viewer::font::fill_rect;
use jp2_viewer::glyph::glyph_for;

const INK: Rgb = Rgb { r: 30, g: 60, b: 90 };
const PAINT: Rgba = Rgba { r: 30, g: 60, b: 90, a: 255 };
const CLEAR: Rgba = Rgba { r: 0, g: 0, b: 0, a: 0 };

/// The image as text, one string per row: `#` where the pixel holds the
/// paint, `.` where it is still clear.
fn ink_map(buf: &PixelBuffer) -> Vec<String> {
    let mut rows = Vec::new();
    for y in 0..buf.height {
        let mut line = String::new();
        for x in 0..buf.width {
            let p = buf.get_pixel(x, y).unwrap();
            if p == PAINT {
                line.push('#');
            } else {
                assert_eq!(p, CLEAR);
                line.push('.');
            }
        }
        rows.push(line);
    }
    rows
}

fn count_ink(buf: &PixelBuffer) -> usize {
    ink_map(buf).iter().map(|row| row.matches('#').count()).sum()
}

#[test]
fn fill_rect_paints_the_rectangle_only() {
    let mut buf = PixelBuffer::new(6, 4).unwrap();
    fill_rect(&mut buf, 1, 1, 3, 2, PAINT);
    assert_eq!(ink_map(&buf), vec!["......", ".###..", ".###..", "......"]);
}

#[test]
fn fill_rect_is_clipped_to_the_image() {
    let mut buf = PixelBuffer::new(4, 3).unwrap();
    fill_rect(&mut buf, -2, -1, 4, 3, PAINT);
    assert_eq!(ink_map(&buf), vec!["##..", "##..", "...."]);
    fill_rect(&mut buf, 3, 2, 50, 50, PAINT);
    assert_eq!(ink_map(&buf), vec!["##..", "##..", "...#"]);
}

#[test]
fn fill_rect_takes_extreme_arguments() {
    let mut buf = PixelBuffer::new(4, 3).unwrap();
    fill_rect(&mut buf, i128::MIN, i128::MIN, usize::MAX, usize::MAX, PAINT);
    fill_rect(&mut buf, i128::MAX, i128::MAX, usize::MAX, usize::MAX, PAINT);
    fill_rect(&mut buf, 4, 0, usize::MAX, usize::MAX, PAINT);
    fill_rect(&mut buf, 0, 3, usize::MAX, usize::MAX, PAINT);
    fill_rect(&mut buf, 1, 1, 0, 5, PAINT);
    fill_rect(&mut buf, 1, 1, 5, 0, PAINT);
    assert_eq!(count_ink(&buf), 0);
    fill_rect(&mut buf, -5, -5, usize::MAX, usize::MAX, PAINT);
    assert_eq!(count_ink(&buf), 12);
}

#[test]
fn draw_glyph_blows_each_cell_up() {
    let mut buf = PixelBuffer::new(11, 6).unwrap();
    draw_glyph(&mut buf, glyph_for('T'), 0, 0, 2, 1, PAINT);
    assert_eq!(
        ink_map(&buf),
        vec![
            "##########.",
            "....##.....",
            "....##.....",
            "....##.....",
            "....##.....",
            "...........",
        ]
    );
}

#[test]
fn draw_glyph_with_an_empty_cell_paints_nothing() {
    let mut buf = PixelBuffer::new(11, 6).unwrap();
    draw_glyph(&mut buf, glyph_for('T'), 0, 0, 0, 3, PAINT);
    draw_glyph(&mut buf, glyph_for('T'), 0, 0, 3, 0, PAINT);
    assert_eq!(count_ink(&buf), 0);
}

#[test]
fn draw_text_places_each_character() {
    let mut buf = PixelBuffer::new(12, 8).unwrap();
    draw_text(&mut buf, "I-", 1, 2, 5, 5, 1, INK);
    assert_eq!(
        ink_map(&buf),
        vec![
            "............",
            "............",
            "..###.......",
            "...#........",
            "...#...#####",
            "...#........",
            "..###.......",
            "............",
        ]
    );
}

#[test]
fn draw_text_scales_by_a_fifth_of_the_cell_rounded_down() {
    let mut buf = PixelBuffer::new(40, 45).unwrap();
    draw_text(&mut buf, "C", 0, 0, 32, 40, 4, INK);
    // cells of 6 × 8 pixels: the top row of `C` inks columns 1 to 3
    assert_eq!(buf.get_pixel(5, 0), Some(CLEAR));
    assert_eq!(buf.get_pixel(6, 0), Some(PAINT));
    assert_eq!(buf.get_pixel(23, 7), Some(PAINT));
    assert_eq!(buf.get_pixel(24, 0), Some(CLEAR));
    assert_eq!(buf.get_pixel(0, 7), Some(CLEAR));
    assert_eq!(buf.get_pixel(0, 8), Some(PAINT));
    assert_eq!(buf.get_pixel(5, 31), Some(PAINT));
    assert_eq!(buf.get_pixel(6, 31), Some(CLEAR));
    assert_eq!(buf.get_pixel(6, 32), Some(PAINT));
    assert_eq!(buf.get_pixel(6, 39), Some(PAINT));
    assert_eq!(buf.get_pixel(6, 40), Some(CLEAR));
    // nine ink cells of 48 pixels each
    assert_eq!(count_ink(&buf), 9 * 48);
}

#[test]
fn draw_text_steps_by_cell_width_plus_padding() {
    let mut buf = PixelBuffer::new(30, 5).unwrap();
    draw_text(&mut buf, "II", 0, 0, 5, 5, 3, INK);
    assert_eq!(
        ink_map(&buf),
        vec![
            ".###.....###..................",
            "..#.......#...................",
            "..#.......#...................",
            "..#.......#...................",
            ".###.....###..................",
        ]
    );
    let mut wide = PixelBuffer::new(30, 5).unwrap();
    draw_text(&mut wide, "II", 0, 0, 9, 5, 0, INK);
    assert_eq!(ink_map(&wide)[1], "..#........#..................");
}

#[test]
fn draw_text_paints_opaque_pixels_and_keeps_the_rest() {
    let mut buf = PixelBuffer::new(6, 6).unwrap();
    let ground = Rgba { r: 7, g: 8, b: 9, a: 10 };
    fill_rect(&mut buf, 0, 0, 6, 6, ground);
    draw_text(&mut buf, "L", 0, 0, 5, 5, 0, Rgb { r: 200, g: 100, b: 50 });
    assert_eq!(buf.get_pixel(0, 0), Some(Rgba { r: 200, g: 100, b: 50, a: 255 }));
    assert_eq!(buf.get_pixel(4, 4), Some(Rgba { r: 200, g: 100, b: 50, a: 255 }));
    assert_eq!(buf.get_pixel(1, 0), Some(ground));
    assert_eq!(buf.get_pixel(5, 5), Some(ground));
}

#[test]
fn draw_text_partly_off_the_image_is_clipped() {
    let mut big = PixelBuffer::new(60, 30).unwrap();
    draw_text(&mut big, "SPAN-42.", 10, 10, 10, 10, 2, INK);
    let mut small = PixelBuffer::new(20, 8).unwrap();
    // the window of `big` that starts at (25, 13)
    draw_text(&mut small, "SPAN-42.", -15, -3, 10, 10, 2, INK);
    assert!(count_ink(&small) > 0);
    for y in 0..8 {
        for x in 0..20 {
            assert_eq!(small.get_pixel(x, y), big.get_pixel(x + 25, y + 13), "at {},{}", x, y);
        }
    }
}

#[test]
fn draw_text_far_off_the_image_paints_nothing() {
    let mut buf = PixelBuffer::new(20, 10).unwrap();
    let long = "CODE ".repeat(200);
    draw_text(&mut buf, &long, i128::MAX, 0, 10, 10, 2, INK);
    draw_text(&mut buf, &long, 0, i128::MAX, 10, 10, 2, INK);
    draw_text(&mut buf, &long, i128::MIN, i128::MIN, 10, 10, 2, INK);
    draw_text(&mut buf, &long, 20, 0, 10, 10, 2, INK);
    draw_text(&mut buf, &long, 0, 10, 10, 10, 2, INK);
    draw_text(&mut buf, &long, 0, -10, 10, 10, 2, INK);
    draw_text(&mut buf, &long, -12_000, 0, 10, 10, 2, INK);
    // the first column of `I` is empty, and its second lies far to the right
    draw_text(&mut buf, "III", 19, 0, usize::MAX, 10, usize::MAX, INK);
    assert_eq!(count_ink(&buf), 0);
    // the first column of `C` is inked in its three middle rows
    draw_text(&mut buf, &long, 19, 0, usize::MAX, 10, usize::MAX, INK);
    assert_eq!(count_ink(&buf), 6);
}

#[test]
fn draw_text_takes_the_largest_cells() {
    let mut buf = PixelBuffer::new(20, 10).unwrap();
    draw_text(&mut buf, "LL", 0, 0, usize::MAX, usize::MAX, usize::MAX, INK);
    // the first column of `L` is one huge block over the whole image
    assert_eq!(count_ink(&buf), 200);
}

#[test]
fn draw_text_in_cells_under_five_pixels_paints_nothing() {
    let mut buf = PixelBuffer::new(20, 10).unwrap();
    draw_text(&mut buf, "EEE", 0, 0, 4, 10, 1, INK);
    draw_text(&mut buf, "EEE", 0, 0, 10, 4, 1, INK);
    draw_text(&mut buf, "EEE", 0, 0, 0, 0, 0, INK);
    assert_eq!(count_ink(&buf), 0);
}

#[test]
fn draw_text_of_nothing_paints_nothing() {
    let mut buf = PixelBuffer::new(20, 10).unwrap();
    draw_text(&mut buf, "", 0, 0, 10, 10, 1, INK);
    assert_eq!(count_ink(&buf), 0);
}

#[test]
fn lower_case_and_unknown_characters_are_drawn_as_spaces() {
    let mut spaced = PixelBuffer::new(60, 12).unwrap();
    draw_text(&mut spaced, "A  B ", 1, 1, 10, 10, 1, INK);
    for text in ["Aa?B!", "Ax_Bé", "A\u{1F600}hBz"] {
        let mut buf = PixelBuffer::new(60, 12).unwrap();
        draw_text(&mut buf, text, 1, 1, 10, 10, 1, INK);
        assert_eq!(buf, spaced, "text {:?}", text);
    }
    let mut empty = PixelBuffer::new(60, 12).unwrap();
    draw_text(&mut empty, "coming soon", 1, 1, 10, 10, 1, INK);
    assert_eq!(count_ink(&empty), 0);
}

#[test]
fn characters_are_counted_not_bytes() {
    let mut plain = PixelBuffer::new(60, 12).unwrap();
    draw_text(&mut plain, " T", 0, 0, 10, 10, 0, INK);
    let mut accented = PixelBuffer::new(60, 12).unwrap();
    draw_text(&mut accented, "éT", 0, 0, 10, 10, 0, INK);
    assert_eq!(accented, plain);
    assert_eq!(accented.get_pixel(10, 0), Some(PAINT));
}
