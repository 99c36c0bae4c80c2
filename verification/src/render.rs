//! From the colour of every pixel to the picture.
//!
//! The colours come in rows, from the top, each row from the left. Every one
//! becomes three bytes in an image buffer of the `image` crate, which the
//! caller may then encode and store.

use crate::color::Color;
use crate::scene::{fits_memory, Scene};
use vstd::prelude::*;

verus! {

/// A picture: an image buffer of the `image` crate with three bytes to the
/// pixel. Contracts speak of it through `picture_pixels` and `picture_width`;
/// its height is the number of its pixels over its width.
#[verifier::external_body]
pub struct Picture {
    pub buffer: image::ImageBuffer<image::Rgb<u8>, Vec<u8>>,
}

/// The pixels that a picture holds, in rows from the top, each row from the
/// left, as red, green and blue.
pub uninterp spec fn picture_pixels(p: Picture) -> Seq<(u8, u8, u8)>;

/// The width that a picture was made with.
pub uninterp spec fn picture_width(p: Picture) -> nat;

/// `image::ImageBuffer::new`: a buffer of the given size in which every
/// channel of every pixel is zero. It panics where the bytes of the buffer
/// cannot be counted or allocated as one vector, which `requires` leaves out.
#[verifier::external_body]
fn new_picture(width: u32, height: u32) -> (img: Picture)
    requires
        fits_memory(width, height),
    ensures
        picture_width(img) == width,
        picture_pixels(img) == Seq::new((width * height) as nat, |i: int| (0u8, 0u8, 0u8)),
{
    Picture { buffer: image::ImageBuffer::new(width, height) }
}

/// `image::ImageBuffer::put_pixel`: replaces the pixel in column `x` of row
/// `y` and leaves every other pixel, and the width, as they were. It panics
/// where `(x, y)` lies outside the buffer, which `requires` leaves out: the
/// column is one of the buffer's, and so is the pixel's place.
#[verifier::external_body]
fn put_pixel(img: &mut Picture, x: u32, y: u32, rgb: [u8; 3])
    requires
        x < picture_width(*old(img)),
        y * picture_width(*old(img)) + x < picture_pixels(*old(img)).len(),
    ensures
        picture_width(*final(img)) == picture_width(*old(img)),
        picture_pixels(*final(img)) == picture_pixels(*old(img)).update(
            y * picture_width(*old(img)) + x,
            (rgb[0], rgb[1], rgb[2]),
        ),
{
    img.buffer.put_pixel(x, y, image::Rgb(rgb))
}

/// The pixel that a colour becomes.
pub open spec fn pixel_of(c: Color) -> (u8, u8, u8) {
    (c.0.channel() as u8, c.1.channel() as u8, c.2.channel() as u8)
}

/// The picture is that of these colours: it has the given width and
/// `width * height` pixels, and the pixel in column `x` of row `y` is what the
/// colour at place `y * width + x` becomes.
pub open spec fn is_picture_of(img: Picture, width: u32, height: u32, colors: Seq<Color>) -> bool {
    &&& picture_width(img) == width
    &&& picture_pixels(img) == Seq::new((width * height) as nat, |i: int| pixel_of(colors[i]))
}

impl Scene {
    /// Makes the picture of the scene from the colour of each of its pixels.
    pub fn render(&self, colors: &[Color]) -> (img: Picture)
        requires
            fits_memory(self.imgx, self.imgy),
            colors@.len() == self.imgx * self.imgy,
        ensures
            is_picture_of(img, self.imgx, self.imgy, colors@),
    {
        let width: u32 = self.imgx;
        let height: u32 = self.imgy;
        let mut img = new_picture(width, height);
        let mut place: usize = 0;
        let mut y: u32 = 0;
        while y < height
            invariant
                y <= height,
                place == y * width,
                colors@.len() == width * height,
                picture_width(img) == width,
                picture_pixels(img) == Seq::new(
                    (width * height) as nat,
                    |i: int| if i < place { pixel_of(colors@[i]) } else { (0u8, 0u8, 0u8) },
                ),
            decreases height - y,
        {
            let mut x: u32 = 0;
            while x < width
                invariant
                    y < height,
                    x <= width,
                    place == y * width + x,
                    colors@.len() == width * height,
                    picture_width(img) == width,
                    picture_pixels(img) == Seq::new(
                        (width * height) as nat,
                        |i: int| if i < place { pixel_of(colors@[i]) } else { (0u8, 0u8, 0u8) },
                    ),
                decreases width - x,
            {
                assert(y * width + x < width * height) by (nonlinear_arith)
                    requires
                        x < width,
                        y < height,
                ;
                let rgb: [u8; 3] = colors[place].to_rgb();
                put_pixel(&mut img, x, y, rgb);
                assert(picture_pixels(img) =~= Seq::new(
                    (width * height) as nat,
                    |i: int| if i < place + 1 { pixel_of(colors@[i]) } else { (0u8, 0u8, 0u8) },
                ));
                assert(place < colors.len());
                place = place + 1;
                x = x + 1;
            }
            assert(y * width + width == (y + 1) * width) by (nonlinear_arith);
            y = y + 1;
        }
        assert(picture_pixels(img) =~= Seq::new(
            (width * height) as nat,
            |i: int| pixel_of(colors@[i]),
        )) by {
            assert(height * width == width * height) by (nonlinear_arith);
        }
        img
    }
}

/// The picture is a function of the colours: two buffers that are both the
/// picture of the same colours hold the same pixels.
pub proof fn lemma_picture_is_determined(
    a: Picture,
    b: Picture,
    width: u32,
    height: u32,
    colors: Seq<Color>,
)
    requires
        is_picture_of(a, width, height, colors),
        is_picture_of(b, width, height, colors),
    ensures
        picture_width(a) == picture_width(b),
        picture_pixels(a) == picture_pixels(b),
{
}

} // verus!
