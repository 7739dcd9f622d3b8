use jp2_viewer::buffer::Rgba;
use jp2_viewer::pattern::generate;
use jp2_viewer::pattern::PatternType;
use jp2_viewer::renderer::ImageRenderer;

fn text(s: &str) -> Option<String> {
    Some(String::from(s))
}

#[test]
fn a_new_renderer_starts_at_unit_zoom_without_pan() {
    let r = ImageRenderer::new(PatternType::Gradient, 80, 60);
    assert_eq!(r.zoom(), 1000);
    assert_eq!(r.pan(), (0, 0));
    assert_eq!(r.pattern_type(), PatternType::Gradient);
    assert_eq!(r.source_size(), (80, 60));
    assert_eq!(r.get_viewport_size(), (80, 60));
    assert!(r.is_ready());
    assert_eq!(r.source(), generate(PatternType::Gradient, 80, 60, &None, &None).as_ref());
    assert_eq!(r.render(), generate(PatternType::Gradient, 80, 60, &None, &None));
}

#[test]
fn set_zoom_clamps_to_a_tenth_and_to_ten() {
    let mut r = ImageRenderer::new(PatternType::Checkerboard, 80, 60);
    r.set_zoom(2000);
    assert_eq!(r.zoom(), 2000);
    r.set_zoom(15_000);
    assert_eq!(r.zoom(), 10_000);
    r.set_zoom(0);
    assert_eq!(r.zoom(), 100);
    r.set_zoom(99);
    assert_eq!(r.zoom(), 100);
    r.set_zoom(100);
    assert_eq!(r.zoom(), 100);
    r.set_zoom(10_001);
    assert_eq!(r.zoom(), 10_000);
    r.set_zoom(u32::MAX);
    assert_eq!(r.zoom(), 10_000);
    r.set_zoom(5000);
    assert_eq!(r.zoom(), 5000);
}

#[test]
fn a_zoom_of_fifteen_is_clamped_to_ten_before_the_viewport_is_sized() {
    let mut r = ImageRenderer::new(PatternType::Gradient, 800, 600);
    r.set_zoom(15_000);
    assert_eq!(r.zoom(), 10_000);
    assert_eq!(r.get_viewport_size(), (8000, 6000));
    let mut small = ImageRenderer::new(PatternType::Gradient, 8, 6);
    small.set_zoom(15_000);
    let out = small.render().unwrap();
    assert_eq!((out.width, out.height), (80, 60));
}

#[test]
fn viewport_size_follows_the_zoom() {
    let mut r = ImageRenderer::new(PatternType::Checkerboard, 800, 600);
    for (zoom, size) in [
        (100u32, (80usize, 60usize)),
        (500, (400, 300)),
        (1000, (800, 600)),
        (1234, (987, 740)),
        (2000, (1600, 1200)),
        (10_000, (8000, 6000)),
    ] {
        r.set_zoom(zoom);
        assert_eq!(r.get_viewport_size(), size, "zoom {}", zoom);
    }
    let mut shown = ImageRenderer::new(PatternType::Checkerboard, 81, 59);
    for zoom in [100u32, 333, 1000, 1501, 4999] {
        shown.set_zoom(zoom);
        let out = shown.render().unwrap();
        assert_eq!((out.width, out.height), shown.get_viewport_size());
        assert_eq!(out.width, 81 * zoom as usize / 1000);
        assert_eq!(out.height, 59 * zoom as usize / 1000);
    }
}

#[test]
fn viewport_size_stops_at_the_largest_number() {
    let mut r = ImageRenderer::new(PatternType::Checkerboard, usize::MAX / 4, 0);
    assert!(r.is_ready());
    assert_eq!(r.get_viewport_size(), (usize::MAX / 4, 0));
    r.set_zoom(10_000);
    assert_eq!(r.get_viewport_size(), (usize::MAX, 0));
    assert_eq!(r.render(), None);
    r.set_zoom(1000);
    assert!(r.render().is_some());
}

#[test]
fn set_pan_stores_the_values_as_they_are() {
    let mut r = ImageRenderer::new(PatternType::Checkerboard, 80, 60);
    r.set_pan(1500, -2500);
    assert_eq!(r.pan(), (1500, -2500));
    r.set_pan(i64::MAX, i64::MIN);
    assert_eq!(r.pan(), (i64::MAX, i64::MIN));
    assert!(r.render().is_some());
    r.set_pan(0, 0);
    assert_eq!(r.pan(), (0, 0));
}

#[test]
fn gradient_at_double_zoom_through_the_renderer() {
    let mut r = ImageRenderer::new(PatternType::Gradient, 800, 600);
    r.set_zoom(2000);
    r.set_pan(0, 0);
    assert_eq!(r.get_viewport_size(), (1600, 1200));
    let out = r.render().unwrap();
    assert_eq!((out.width, out.height, out.bytes_per_row), (1600, 1200, 6400));
    assert_eq!(out.get_pixel(400, 300), Some(Rgba { r: 63, g: 63, b: 200, a: 255 }));
    assert_eq!(r.source().unwrap().get_pixel(200, 150), Some(Rgba { r: 63, g: 63, b: 200, a: 255 }));
}

#[test]
fn render_is_repeatable() {
    let mut r = ImageRenderer::new(PatternType::Text, 300, 200);
    r.set_text(text("SCAN 12"), text("scan-12.jp2"));
    r.set_zoom(1700);
    r.set_pan(-12_000, 30_500);
    let first = r.render();
    let second = r.render();
    assert!(first.is_some());
    assert_eq!(first, second);
    assert_eq!(r.zoom(), 1700);
    assert_eq!(r.pan(), (-12_000, 30_500));
}

#[test]
fn render_clamps_to_the_edge_of_the_source() {
    let mut r = ImageRenderer::new(PatternType::Gradient, 64, 48);
    r.set_pan(-5000, 7_000_000);
    let out = r.render().unwrap();
    let src = r.source().unwrap();
    for dy in 0..48 {
        for dx in 0..64 {
            assert_eq!(out.get_pixel(dx, dy), src.get_pixel(dx.saturating_sub(5), 47));
        }
    }
    assert_eq!(out.get_pixel(0, 0), Some(Rgba { r: 0, g: 0, b: 255, a: 255 }));
}

#[test]
fn change_pattern_type_rebuilds_the_source_at_once() {
    let mut r = ImageRenderer::new(PatternType::Checkerboard, 100, 80);
    r.set_zoom(3000);
    r.set_pan(700, -900);
    for kind in [PatternType::Gradient, PatternType::Text, PatternType::Checkerboard] {
        r.change_pattern_type(kind);
        assert_eq!(r.pattern_type(), kind);
        assert!(r.is_ready());
        assert_eq!(r.source(), generate(kind, 100, 80, &None, &None).as_ref());
        assert_eq!(r.zoom(), 3000);
        assert_eq!(r.pan(), (700, -900));
        assert_eq!(r.source_size(), (100, 80));
    }
}

#[test]
fn set_text_rebuilds_the_source_in_text_mode() {
    let mut r = ImageRenderer::new(PatternType::Text, 500, 300);
    assert_eq!(r.source(), generate(PatternType::Text, 500, 300, &None, &None).as_ref());
    r.set_text(text("SCAN"), text("a.jp2"));
    let expected = generate(PatternType::Text, 500, 300, &text("SCAN"), &text("a.jp2"));
    assert_eq!(r.source(), expected.as_ref());
    assert_ne!(r.source(), generate(PatternType::Text, 500, 300, &None, &None).as_ref());
    r.set_text(None, None);
    assert_eq!(r.source(), generate(PatternType::Text, 500, 300, &None, &None).as_ref());
}

#[test]
fn set_text_outside_text_mode_keeps_the_source_and_the_text() {
    let mut r = ImageRenderer::new(PatternType::Gradient, 500, 300);
    let before = r.source().cloned();
    r.set_text(text("SCAN"), text("a.jp2"));
    assert_eq!(r.source().cloned(), before);
    assert_eq!(r.pattern_type(), PatternType::Gradient);
    // the text set meanwhile shows as soon as the pattern is switched
    r.change_pattern_type(PatternType::Text);
    let expected = generate(PatternType::Text, 500, 300, &text("SCAN"), &text("a.jp2"));
    assert_eq!(r.source(), expected.as_ref());
}

#[test]
fn generate_source_pattern_rebuilds_the_same_image() {
    let mut r = ImageRenderer::new(PatternType::Text, 200, 100);
    r.set_text(None, text("x.jp2"));
    let before = r.source().cloned();
    r.generate_source_pattern();
    assert_eq!(r.source().cloned(), before);
    assert!(r.is_ready());
}

#[test]
fn a_renderer_beyond_memory_stays_without_a_source() {
    let mut r = ImageRenderer::new(PatternType::Gradient, usize::MAX, 2);
    assert!(!r.is_ready());
    assert!(r.source().is_none());
    assert_eq!(r.render(), None);
    assert_eq!(r.source_size(), (usize::MAX, 2));
    r.set_zoom(100);
    r.set_pan(5, 5);
    r.set_text(text("A"), None);
    r.change_pattern_type(PatternType::Text);
    r.set_text(text("B"), text("C"));
    r.generate_source_pattern();
    assert!(!r.is_ready());
    assert_eq!(r.render(), None);
    assert_eq!(r.get_viewport_size(), (usize::MAX / 10, 0));
}

#[test]
fn a_ready_renderer_stays_ready() {
    let mut r = ImageRenderer::new(PatternType::Checkerboard, 30, 20);
    assert!(r.is_ready());
    r.set_zoom(0);
    assert!(r.is_ready());
    r.set_pan(i64::MIN, i64::MAX);
    assert!(r.is_ready());
    r.set_text(text("A"), text("B"));
    assert!(r.is_ready());
    r.change_pattern_type(PatternType::Text);
    assert!(r.is_ready());
    r.set_text(None, text("a name of more than thirty characters.jp2"));
    assert!(r.is_ready());
    r.change_pattern_type(PatternType::Gradient);
    assert!(r.is_ready());
    assert!(r.render().is_some());
}

#[test]
fn an_empty_renderer_is_ready_and_renders_nothing_visible() {
    let r = ImageRenderer::new(PatternType::Text, 0, 0);
    assert!(r.is_ready());
    let out = r.render().unwrap();
    assert_eq!((out.width, out.height), (0, 0));
    assert!(out.buffer.is_empty());
}
