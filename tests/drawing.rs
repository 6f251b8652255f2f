use pix_paint::{plan_frame, Canvas, Color, FrameAction, Painter, Vec2};

#[test]
fn canvas_starts_black() {
    let c = Canvas::new(3, 2);
    assert_eq!(c.get_width(), 3);
    assert_eq!(c.get_height(), 2);
    for y in 0..2 {
        for x in 0..3 {
            assert_eq!(c.get(x, y), Color::Black);
        }
    }
}

#[test]
fn paint_overwrites_one_cell() {
    let mut c = Canvas::new(3, 2);
    assert!(c.paint(2, 1, Color::Cyan));
    assert!(c.paint(2, 1, Color::Blue));
    for y in 0..2 {
        for x in 0..3 {
            let expected = if (x, y) == (2, 1) { Color::Blue } else { Color::Black };
            assert_eq!(c.get(x, y), expected);
        }
    }
}

#[test]
fn paint_off_canvas_is_ignored() {
    let mut c = Canvas::new(2, 2);
    assert!(!c.paint(2, 0, Color::Red));
    assert!(!c.paint(0, 2, Color::Red));
    for y in 0..2 {
        for x in 0..2 {
            assert_eq!(c.get(x, y), Color::Black);
        }
    }
}

#[test]
fn export_has_one_pixel_per_cell() {
    let mut c = Canvas::new(3, 2);
    c.paint(0, 0, Color::Yellow);
    c.paint(2, 1, Color::Purple);
    let img = c.export();
    assert_eq!(img.get_width(), 3);
    assert_eq!(img.get_height(), 2);
    for y in 0..2u32 {
        for x in 0..3u32 {
            let p = img.get_pixel(x, y);
            let expected = c.get(x as usize, y as usize).get_rgb();
            assert_eq!((p.r, p.g, p.b), expected);
        }
    }
    let p = img.get_pixel(2, 1);
    assert_eq!((p.r, p.g, p.b), (255, 0, 255));
}

#[test]
fn paint_then_export_changes_only_that_pixel() {
    let mut c = Canvas::new(4, 3);
    c.paint(1, 1, Color::Green);
    let before = c.export();
    c.paint(3, 2, Color::Red);
    let after = c.export();
    for y in 0..3u32 {
        for x in 0..4u32 {
            let p = after.get_pixel(x, y);
            if (x, y) == (3, 2) {
                assert_eq!((p.r, p.g, p.b), (255, 0, 0));
            } else {
                assert_eq!(p, before.get_pixel(x, y));
            }
        }
    }
}

#[test]
fn plan_frame_sleeps_out_the_interval() {
    assert_eq!(plan_frame(true, 4_000, 16_000), FrameAction { sleep_ns: 12_000, push: true });
    assert_eq!(plan_frame(false, 4_000, 16_000), FrameAction { sleep_ns: 12_000, push: false });
    assert_eq!(plan_frame(true, 20_000, 16_000), FrameAction { sleep_ns: 0, push: true });
    assert_eq!(plan_frame(false, 16_000, 16_000), FrameAction { sleep_ns: 0, push: false });
}

fn small_painter() -> Painter {
    Painter::new(Vec2::new(2, 2), Vec2::new(10, 10), 4)
}

fn pixel(p: &Painter, x: usize, y: usize) -> u32 {
    let w = p.window_size().x;
    p.buffer().get_buffer()[y * w + x]
}

#[test]
fn painter_starts_black_with_white_strip() {
    let p = small_painter();
    assert_eq!(p.window_size(), Vec2::new(24, 20));
    assert_eq!(p.brush(), Color::White);
    assert!(p.is_dirty());
    for y in 0..20 {
        for x in 0..24 {
            let expected = if x >= 20 { 0x00ffffff } else { 0 };
            assert_eq!(pixel(&p, x, y), expected);
        }
    }
}

#[test]
fn end_frame_clears_pending_push() {
    let mut p = small_painter();
    assert_eq!(p.end_frame(1_000, 16_000), FrameAction { sleep_ns: 15_000, push: true });
    assert!(!p.is_dirty());
    assert_eq!(p.end_frame(1_000, 16_000), FrameAction { sleep_ns: 15_000, push: false });
}

#[test]
fn click_then_export_scenario() {
    let mut p = small_painter();
    p.scroll(2, 0);
    assert_eq!(p.brush(), Color::Red);
    p.end_frame(0, 0);
    assert!(p.click(Vec2::new(15, 5)));
    assert!(p.is_dirty());
    assert_eq!(p.canvas().get(1, 0), Color::Red);
    for y in 0..20 {
        for x in 0..20 {
            let expected = if (10..20).contains(&x) && y < 10 { 0x00ff0000 } else { 0 };
            assert_eq!(pixel(&p, x, y), expected);
        }
    }
    let img = p.export();
    for y in 0..2u32 {
        for x in 0..2u32 {
            let px = img.get_pixel(x, y);
            let expected = if (x, y) == (1, 0) { (255, 0, 0) } else { (0, 0, 0) };
            assert_eq!((px.r, px.g, px.b), expected);
        }
    }
}

#[test]
fn click_on_strip_or_outside_paints_nothing() {
    let mut p = small_painter();
    p.end_frame(0, 0);
    assert!(!p.click(Vec2::new(21, 3)));
    assert!(!p.click(Vec2::new(3, 25)));
    assert!(!p.is_dirty());
    for y in 0..2 {
        for x in 0..2 {
            assert_eq!(p.canvas().get(x, y), Color::Black);
        }
    }
}

#[test]
fn scroll_of_six_turns_white_to_green() {
    let mut p = small_painter();
    p.scroll(4, 2);
    assert_eq!(p.brush(), Color::Green);
    for y in 0..20 {
        for x in 20..24 {
            assert_eq!(pixel(&p, x, y), 0x0000ff00);
        }
    }
}

#[test]
fn scroll_rounds_toward_zero() {
    let mut p = small_painter();
    p.scroll(-3, 0);
    assert_eq!(p.brush(), Color::Black);
    p.scroll(0, 1);
    assert_eq!(p.brush(), Color::Black);
    assert!(p.is_dirty());
}

#[test]
fn zero_scroll_changes_nothing() {
    let mut p = small_painter();
    p.end_frame(0, 0);
    p.scroll(3, -3);
    assert_eq!(p.brush(), Color::White);
    assert!(!p.is_dirty());
}

#[test]
fn extreme_scroll_deltas() {
    let mut p = small_painter();
    p.scroll(i32::MAX, i32::MAX);
    assert_eq!(p.brush(), Color::Black);
    p.scroll(i32::MIN, i32::MIN);
    assert_eq!(p.brush(), Color::Black);
}
