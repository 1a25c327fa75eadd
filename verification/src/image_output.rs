//! A renderer output that paints into an image of eight-bit red, green and blue.

use crate::color::Color;
use crate::defs::Point2Int;
use crate::fixed::Fixed;
use crate::renderer::output::RendererOutput;
use image::DynamicImage;
use vstd::prelude::*;

verus! {

#[verifier::external_type_specification]
#[verifier::external_body]
pub struct ExDynamicImage(image::DynamicImage);

/// The pixels of an image: for every position within its width and height, the
/// red, green and blue that the image shows there.
pub uninterp spec fn image_pixels(image: DynamicImage) -> Map<(u32, u32), (u8, u8, u8)>;

/// Whether an image keeps eight-bit red, green and blue for each pixel, and
/// nothing else.
pub uninterp spec fn image_is_rgb8(image: DynamicImage) -> bool;

/// `image::DynamicImage::new_rgb8`: an image of the given width and height that
/// keeps eight-bit red, green and blue, all of them zero. The outside function
/// panics where three times the number of pixels does not fit a `usize`.
#[verifier::external_body]
fn new_rgb8_image(width: u32, height: u32) -> (image: DynamicImage)
    requires
        3 * width * height <= usize::MAX,
    ensures
        image_is_rgb8(image),
        image_pixels(image) == Map::new(
            |at: (u32, u32)| at.0 < width && at.1 < height,
            |at: (u32, u32)| (0u8, 0u8, 0u8),
        ),
{
    DynamicImage::new_rgb8(width, height)
}

/// `image::GenericImageView::dimensions` of a `DynamicImage`: the width and the
/// height, within which exactly the image has pixels.
#[verifier::external_body]
fn image_dimensions(image: &DynamicImage) -> (size: (u32, u32))
    ensures
        forall|x: u32, y: u32| #[trigger]
            image_pixels(*image).contains_key((x, y)) <==> x < size.0 && y < size.1,
{
    image::GenericImageView::dimensions(image)
}

/// `image::GenericImage::put_pixel` of a `DynamicImage`, with an opaque pixel of
/// the given red, green and blue: in an image that keeps eight-bit red, green and
/// blue, the pixel at `(x, y)` takes exactly these and all others stay. The
/// outside function panics where `(x, y)` lies outside the image.
#[verifier::external_body]
fn put_rgb8_pixel(image: &mut DynamicImage, x: u32, y: u32, red: u8, green: u8, blue: u8)
    requires
        image_is_rgb8(*old(image)),
        image_pixels(*old(image)).contains_key((x, y)),
    ensures
        image_is_rgb8(*final(image)),
        image_pixels(*final(image)) == image_pixels(*old(image)).insert((x, y), (red, green, blue)),
{
    image::GenericImage::put_pixel(image, x, y, image::Rgba([red, green, blue, u8::MAX]))
}

/// The eight-bit value of a channel: the channel is cut off at one and
/// multiplied by 255; of the product the whole part counts, and nothing below
/// zero.
pub open spec fn spec_byte(channel: Fixed) -> u8 {
    let whole = channel.min(Fixed::one()).times(Fixed::from_int(255)).whole();
    if whole < 0 {
        0
    } else if whole > 255 {
        255
    } else {
        whole as u8
    }
}

/// The eight-bit red, green and blue of a colour.
pub open spec fn spec_rgb8(color: Color) -> (u8, u8, u8) {
    (spec_byte(color.r), spec_byte(color.g), spec_byte(color.b))
}

/// The eight-bit red, green and blue of a colour.
pub fn rgb8(color: Color) -> (bytes: (u8, u8, u8))
    ensures
        bytes == spec_rgb8(color),
{
    let (r, g, b) = color.normalized().mul_scalar(&Fixed::from_int(255)).get();
    (byte(r), byte(g), byte(b))
}

/// The whole part of a channel value as a byte, cut off at 0 and at 255.
fn byte(scaled: Fixed) -> (value: u8)
    ensures
        value == (if scaled.whole() < 0 {
            0
        } else if scaled.whole() > 255 {
            255
        } else {
            scaled.whole() as u8
        }),
{
    let whole = scaled.whole();
    if whole < 0 {
        0
    } else if whole > 255 {
        255
    } else {
        whole as u8
    }
}

/// An image that takes the colours of a rendering.
pub struct ImageRendererOutput {
    image: DynamicImage,
    written: Ghost<Map<Point2Int, Color>>,
}

impl ImageRendererOutput {
    /// The image as it stands.
    pub closed spec fn spec_image(&self) -> DynamicImage {
        self.image
    }

    /// The colours that the image has taken, by pixel.
    pub closed spec fn spec_colors(&self) -> Map<Point2Int, Color> {
        self.written@
    }

    /// The image keeps eight-bit red, green and blue, and every pixel for
    /// which it has taken a colour shows the eight-bit value of that colour.
    pub open spec fn spec_well_formed(&self) -> bool {
        &&& image_is_rgb8(self.spec_image())
        &&& forall|coord: Point2Int| #[trigger]
            self.spec_colors().contains_key(coord) ==> {
                &&& image_pixels(self.spec_image()).contains_key((coord.x, coord.y))
                &&& image_pixels(self.spec_image())[(coord.x, coord.y)] == spec_rgb8(
                    self.spec_colors()[coord],
                )
            }
    }

    /// A black image of the given width and height that has taken no colour
    /// yet.
    pub fn new(width: u32, height: u32) -> (output: Self)
        requires
            3 * width * height <= usize::MAX,
        ensures
            output.spec_well_formed(),
            output.spec_colors() == Map::<Point2Int, Color>::empty(),
            image_pixels(output.spec_image()) == Map::new(
                |at: (u32, u32)| at.0 < width && at.1 < height,
                |at: (u32, u32)| (0u8, 0u8, 0u8),
            ),
    {
        Self { image: new_rgb8_image(width, height), written: Ghost(Map::empty()) }
    }

    pub fn get_image(&self) -> (image: &DynamicImage)
        ensures
            *image == self.spec_image(),
    {
        &self.image
    }
}

impl RendererOutput for ImageRendererOutput {
    open spec fn spec_valid(&self) -> bool {
        self.spec_well_formed()
    }

    open spec fn spec_accepts(&self, coord: Point2Int) -> bool {
        image_pixels(self.spec_image()).contains_key((coord.x, coord.y))
    }

    open spec fn spec_written(&self) -> Map<Point2Int, Color> {
        self.spec_colors()
    }

    /// Paints the pixel at `coord` with the eight-bit value of `color`;
    /// refuses a pixel outside the image.
    fn set_output(&mut self, coord: Point2Int, color: Color) -> (accepted: bool) {
        let (width, height) = image_dimensions(&self.image);
        if coord.x < width && coord.y < height {
            let (red, green, blue) = rgb8(color);
            put_rgb8_pixel(&mut self.image, coord.x, coord.y, red, green, blue);
            self.written = Ghost(self.written@.insert(coord, color));
            proof {
                assert(image_pixels(self.spec_image()).dom() =~= image_pixels(
                    old(self).spec_image(),
                ).dom());
                assert forall|other: Point2Int| #[trigger]
                    self.spec_colors().contains_key(other) implies image_pixels(
                    self.spec_image(),
                ).contains_key((other.x, other.y)) && image_pixels(self.spec_image())[(
                    other.x,
                    other.y,
                )] == spec_rgb8(self.spec_colors()[other]) by {
                    if other != coord {
                        assert(old(self).spec_colors().contains_key(other));
                        assert((other.x, other.y) != (coord.x, coord.y));
                    }
                }
            }
            true
        } else {
            false
        }
    }
}

} // verus!
