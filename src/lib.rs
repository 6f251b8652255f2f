//! A small pixel-art painter: a grid of colored cells, a framebuffer kept in
//! step with it, a cyclic brush palette and the per-frame decisions of the
//! drawing loop.

pub mod bitmap;
pub mod canvas;
pub mod color;
pub mod framebuffer;
pub mod geometry;
pub mod painter;

pub use bitmap::MAX_IMAGE_SIDE;
pub use canvas::Canvas;
pub use color::{Color, PALETTE_LEN};
pub use framebuffer::PixelBuffer;
pub use geometry::{map_pointer, Vec2};
pub use painter::{plan_frame, FrameAction, Painter};
