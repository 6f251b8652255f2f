use vstd::prelude::*;

verus! {

/// The eight brush colors, in their cyclic order.
#[derive(Clone, Copy, Debug, PartialEq, Eq, Structural)]
pub enum Color {
    Black,
    White,
    Red,
    Yellow,
    Green,
    Cyan,
    Blue,
    Purple,
}

/// Number of colors in the palette cycle.
pub const PALETTE_LEN: u8 = 8;

impl Color {
    /// Position of the color in the cycle, 0 to 7.
    pub open spec fn index(self) -> int {
        match self {
            Color::Black => 0,
            Color::White => 1,
            Color::Red => 2,
            Color::Yellow => 3,
            Color::Green => 4,
            Color::Cyan => 5,
            Color::Blue => 6,
            Color::Purple => 7,
        }
    }

    /// The color at position `i` of the cycle, for `0 <= i < 8`.
    pub open spec fn at_index(i: int) -> Color {
        if i == 0 {
            Color::Black
        } else if i == 1 {
            Color::White
        } else if i == 2 {
            Color::Red
        } else if i == 3 {
            Color::Yellow
        } else if i == 4 {
            Color::Green
        } else if i == 5 {
            Color::Cyan
        } else if i == 6 {
            Color::Blue
        } else {
            Color::Purple
        }
    }

    /// The color reached after `steps` moves along the cycle (backwards when negative).
    pub open spec fn rotated(self, steps: int) -> Color {
        Color::at_index((self.index() + steps) % (PALETTE_LEN as int))
    }

    /// The (red, green, blue) bytes of the color.
    pub open spec fn rgb(self) -> (u8, u8, u8) {
        match self {
            Color::Black => (0, 0, 0),
            Color::White => (255, 255, 255),
            Color::Red => (255, 0, 0),
            Color::Yellow => (255, 255, 0),
            Color::Green => (0, 255, 0),
            Color::Cyan => (0, 255, 255),
            Color::Blue => (0, 0, 255),
            Color::Purple => (255, 0, 255),
        }
    }

    /// The packed 0x00RRGGBB framebuffer value of the color.
    pub open spec fn hex(self) -> u32 {
        match self {
            Color::Black => 0x00000000,
            Color::White => 0x00ffffff,
            Color::Red => 0x00ff0000,
            Color::Yellow => 0x00ffff00,
            Color::Green => 0x0000ff00,
            Color::Cyan => 0x0000ffff,
            Color::Blue => 0x000000ff,
            Color::Purple => 0x00ff00ff,
        }
    }

    pub fn get_hex(&self) -> (r: u32)
        ensures
            r == self.hex(),
    {
        match self {
            Color::Black => 0x00000000,
            Color::White => 0x00ffffff,
            Color::Red => 0x00ff0000,
            Color::Yellow => 0x00ffff00,
            Color::Green => 0x0000ff00,
            Color::Cyan => 0x0000ffff,
            Color::Blue => 0x000000ff,
            Color::Purple => 0x00ff00ff,
        }
    }

    pub fn get_rgb(&self) -> (r: (u8, u8, u8))
        ensures
            r == self.rgb(),
    {
        match self {
            Color::Black => (0, 0, 0),
            Color::White => (255, 255, 255),
            Color::Red => (255, 0, 0),
            Color::Yellow => (255, 255, 0),
            Color::Green => (0, 255, 0),
            Color::Cyan => (0, 255, 255),
            Color::Blue => (0, 0, 255),
            Color::Purple => (255, 0, 255),
        }
    }

    /// Position of the color in the cycle.
    pub fn position(&self) -> (r: u8)
        ensures
            r as int == self.index(),
            r < PALETTE_LEN,
    {
        match self {
            Color::Black => 0,
            Color::White => 1,
            Color::Red => 2,
            Color::Yellow => 3,
            Color::Green => 4,
            Color::Cyan => 5,
            Color::Blue => 6,
            Color::Purple => 7,
        }
    }

    /// The color at position `i` of the cycle.
    pub fn from_position(i: u8) -> (r: Color)
        requires
            i < PALETTE_LEN,
        ensures
            r == Color::at_index(i as int),
            r.index() == i as int,
    {
        if i == 0 {
            Color::Black
        } else if i == 1 {
            Color::White
        } else if i == 2 {
            Color::Red
        } else if i == 3 {
            Color::Yellow
        } else if i == 4 {
            Color::Green
        } else if i == 5 {
            Color::Cyan
        } else if i == 6 {
            Color::Blue
        } else {
            Color::Purple
        }
    }

    /// Moves the color `advance` steps along the cycle: forwards when positive,
    /// backwards when negative. Computed as one modular jump.
    pub fn rotate_color(&mut self, advance: i32)
        ensures
            *final(self) == old(self).rotated(advance as int),
    {
        // Forward distance in 0..8 equivalent to `advance` modulo the cycle length.
        let offset: i32 = if advance >= 0 {
            advance % (PALETTE_LEN as i32)
        } else {
            let back: i32 = -(advance + 1);
            (PALETTE_LEN as i32 - 1) - back % (PALETTE_LEN as i32)
        };
        let start: i32 = self.position() as i32;
        let next: i32 = (start + offset) % (PALETTE_LEN as i32);
        proof {
            let a = advance as int;
            let s = start as int;
            if a >= 0 {
                assert((s + a) % 8 == (s + a % 8) % 8) by (nonlinear_arith)
                    requires
                        a >= 0,
                        0 <= s < 8,
                {}
            } else {
                let b = -(a + 1);
                assert((s + a) % 8 == (s + (7 - b % 8)) % 8) by (nonlinear_arith)
                    requires
                        b >= 0,
                        a == -b - 1,
                        0 <= s < 8,
                {}
            }
        }
        *self = Color::from_position(next as u8);
    }
}


/// Rotation is an action of the integers on the eight-color cycle: rotating by `a`
/// then by `b` is rotating by `a + b`; rotating by 0 or by a full turn changes
/// nothing; one step back is seven steps forward.
pub proof fn lemma_rotation_is_cyclic(c: Color, a: int, b: int)
    ensures
        c.rotated(a).rotated(b) == c.rotated(a + b),
        c.rotated(0) == c,
        c.rotated(PALETTE_LEN as int) == c,
        c.rotated(-1) == c.rotated(7),
{
    let i = c.index();
    let j = (i + a) % 8;
    assert(0 <= j < 8);
    assert(Color::at_index(j).index() == j);
    assert((j + b) % 8 == (i + a + b) % 8) by (nonlinear_arith)
        requires
            j == (i + a) % 8,
    {}
    assert(i % 8 == i);
    assert((i + 8) % 8 == i);
    assert((i - 1) % 8 == (i + 7) % 8);
}

/// The packed framebuffer value of every color is 0x00RRGGBB built from its
/// (red, green, blue) bytes.
pub proof fn lemma_hex_matches_rgb(c: Color)
    ensures
        c.hex() as int == c.rgb().0 as int * 0x10000 + c.rgb().1 as int * 0x100 + c.rgb().2 as int,
{
}

} // verus!
