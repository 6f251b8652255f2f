use vstd::prelude::*;

verus! {

#[verifier::external_type_specification]
#[verifier::external_body]
pub struct ExImage(bmp::Image);

/// Largest width or height handed to the bitmap encoder: below it the encoder's
/// size arithmetic on `u32` cannot overflow.
pub const MAX_IMAGE_SIDE: u32 = 16384;

/// The pixels of a bitmap, keyed by `(x, y)` with `(0, 0)` at the top left, as
/// (red, green, blue).
pub uninterp spec fn image_pixels(img: bmp::Image) -> Map<(int, int), (u8, u8, u8)>;

/// The `(width, height)` of a bitmap.
pub uninterp spec fn image_size(img: bmp::Image) -> (int, int);

/// Relies on bmp::Image::new: an image of the given size with every pixel black.
/// It multiplies the sides in `u32`, hence the bound.
#[verifier::external_body]
pub(crate) fn new_image(width: u32, height: u32) -> (r: bmp::Image)
    requires
        width <= MAX_IMAGE_SIDE,
        height <= MAX_IMAGE_SIDE,
    ensures
        image_size(r) == (width as int, height as int),
        forall|x: int, y: int|
            0 <= x < width && 0 <= y < height ==> #[trigger] image_pixels(r).contains_key((x, y)),
        forall|x: int, y: int|
            0 <= x < width && 0 <= y < height ==> #[trigger] image_pixels(r)[(x, y)] == (
            0u8,
            0u8,
            0u8,
        ),
{
    bmp::Image::new(width, height)
}

/// Relies on bmp::Image::set_pixel with bmp::Pixel::new: pixel `(x, y)` becomes
/// `(r, g, b)` and no other pixel changes. It indexes its rows from the bottom,
/// so the position must lie inside the image.
#[verifier::external_body]
pub(crate) fn set_pixel(img: &mut bmp::Image, x: u32, y: u32, rgb: (u8, u8, u8))
    requires
        (x as int) < image_size(*old(img)).0,
        (y as int) < image_size(*old(img)).1,
    ensures
        image_size(*final(img)) == image_size(*old(img)),
        image_pixels(*final(img)) == image_pixels(*old(img)).insert((x as int, y as int), rgb),
{
    img.set_pixel(x, y, bmp::Pixel::new(rgb.0, rgb.1, rgb.2))
}

} // verus!
