use pix_paint::{map_pointer, PixelBuffer, Vec2};

#[test]
fn new_buffer_is_black() {
    let b = PixelBuffer::new(Vec2::new(4, 3));
    assert_eq!(b.get_buffer().len(), 12);
    assert!(b.get_buffer().iter().all(|&p| p == 0));
    assert_eq!(b.size(), Vec2::new(4, 3));
}

#[test]
fn rectangle_fills_exactly() {
    let mut b = PixelBuffer::new(Vec2::new(5, 4));
    b.rectangle(Vec2::new(1, 1), Vec2::new(3, 2), 0xabcdef);
    let px = b.get_buffer();
    for y in 0..4 {
        for x in 0..5 {
            let inside = (1..4).contains(&x) && (1..3).contains(&y);
            let expected = if inside { 0xabcdef } else { 0 };
            assert_eq!(px[y * 5 + x], expected, "pixel ({}, {})", x, y);
        }
    }
}

#[test]
fn rectangle_of_zero_size_changes_nothing() {
    let mut b = PixelBuffer::new(Vec2::new(3, 3));
    b.rectangle(Vec2::new(1, 1), Vec2::new(0, 2), 7);
    assert!(b.get_buffer().iter().all(|&p| p == 0));
}

#[test]
fn rectangle_over_whole_buffer_and_overwrite() {
    let mut b = PixelBuffer::new(Vec2::new(3, 2));
    b.rectangle(Vec2::new(0, 0), Vec2::new(3, 2), 5);
    b.rectangle(Vec2::new(2, 1), Vec2::new(1, 1), 9);
    assert_eq!(b.get_buffer(), &vec![5, 5, 5, 5, 5, 9]);
}

#[test]
fn map_pointer_floors() {
    assert_eq!(map_pointer(Vec2::new(15, 5), Vec2::new(10, 10)), Vec2::new(1, 0));
    assert_eq!(map_pointer(Vec2::new(9, 19), Vec2::new(10, 10)), Vec2::new(0, 1));
    assert_eq!(map_pointer(Vec2::new(7, 7), Vec2::new(5, 3)), Vec2::new(1, 2));
}

#[test]
fn map_pointer_inverts_scaling() {
    let mag = Vec2::new(5, 7);
    for x in 0..20 {
        for y in 0..20 {
            let p = Vec2::new(mag.x * x, mag.y * y);
            assert_eq!(map_pointer(p, mag), Vec2::new(x, y));
            assert_eq!(map_pointer(p, mag), map_pointer(p, mag));
        }
    }
}
