use pix_paint::Color;

const ALL: [Color; 8] = [
    Color::Black,
    Color::White,
    Color::Red,
    Color::Yellow,
    Color::Green,
    Color::Cyan,
    Color::Blue,
    Color::Purple,
];

fn rotated(c: Color, steps: i32) -> Color {
    let mut r = c;
    r.rotate_color(steps);
    r
}

#[test]
fn hex_values() {
    assert_eq!(Color::Black.get_hex(), 0x00000000);
    assert_eq!(Color::White.get_hex(), 0x00ffffff);
    assert_eq!(Color::Red.get_hex(), 0x00ff0000);
    assert_eq!(Color::Yellow.get_hex(), 0x00ffff00);
    assert_eq!(Color::Green.get_hex(), 0x0000ff00);
    assert_eq!(Color::Cyan.get_hex(), 0x0000ffff);
    assert_eq!(Color::Blue.get_hex(), 0x000000ff);
    assert_eq!(Color::Purple.get_hex(), 0x00ff00ff);
}

#[test]
fn rgb_values() {
    assert_eq!(Color::Black.get_rgb(), (0, 0, 0));
    assert_eq!(Color::White.get_rgb(), (255, 255, 255));
    assert_eq!(Color::Red.get_rgb(), (255, 0, 0));
    assert_eq!(Color::Yellow.get_rgb(), (255, 255, 0));
    assert_eq!(Color::Green.get_rgb(), (0, 255, 0));
    assert_eq!(Color::Cyan.get_rgb(), (0, 255, 255));
    assert_eq!(Color::Blue.get_rgb(), (0, 0, 255));
    assert_eq!(Color::Purple.get_rgb(), (255, 0, 255));
}

#[test]
fn hex_is_packed_rgb_for_every_color() {
    for c in ALL {
        let (r, g, b) = c.get_rgb();
        assert_eq!(c.get_hex(), ((r as u32) << 16) | ((g as u32) << 8) | (b as u32));
    }
}

#[test]
fn rotate_forward_one_step_each() {
    for i in 0..8 {
        assert_eq!(rotated(ALL[i], 1), ALL[(i + 1) % 8]);
    }
    assert_eq!(rotated(Color::Purple, 1), Color::Black);
}

#[test]
fn rotate_backward_wraps() {
    assert_eq!(rotated(Color::Black, -1), Color::Purple);
    assert_eq!(rotated(Color::White, -1), Color::Black);
    assert_eq!(rotated(Color::Red, -3), Color::Purple);
}

#[test]
fn rotate_white_by_three_is_green() {
    assert_eq!(rotated(Color::White, 3), Color::Green);
}

#[test]
fn rotate_zero_and_full_turn_are_identity() {
    for c in ALL {
        assert_eq!(rotated(c, 0), c);
        assert_eq!(rotated(c, 8), c);
        assert_eq!(rotated(c, -8), c);
        assert_eq!(rotated(c, 800), c);
    }
}

#[test]
fn rotate_back_one_equals_forward_seven() {
    for c in ALL {
        assert_eq!(rotated(c, -1), rotated(c, 7));
    }
}

#[test]
fn rotate_composes_additively() {
    let steps = [-17, -9, -8, -3, -1, 0, 1, 2, 5, 8, 13, 100];
    for c in ALL {
        for &a in steps.iter() {
            for &b in steps.iter() {
                assert_eq!(rotated(rotated(c, a), b), rotated(c, a + b));
            }
        }
    }
}

#[test]
fn rotate_extreme_steps() {
    // i32::MAX = 8 * 268435455 + 7, i32::MIN = -8 * 268435456.
    assert_eq!(rotated(Color::Black, i32::MAX), Color::Purple);
    assert_eq!(rotated(Color::Black, i32::MIN), Color::Black);
    assert_eq!(rotated(Color::White, i32::MIN + 1), Color::Red);
}

#[test]
fn positions_follow_cycle() {
    for i in 0..8u8 {
        assert_eq!(ALL[i as usize].position(), i);
        assert_eq!(Color::from_position(i), ALL[i as usize]);
    }
}
