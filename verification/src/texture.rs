//! Texture data for the renderer.
//!
//! A texture is a width, a height and the pixels, four bytes each: red,
//! green, blue, alpha. It is made from an image that the `image` crate has
//! decoded; bringing the image's pixels to four bytes each is that crate's
//! work, and what this module adds is the test that the sizes agree.

use vstd::prelude::*;

verus! {

/// A decoded image of the `image` crate, whatever its pixel format.
#[verifier::external_type_specification]
#[verifier::external_body]
pub struct ExDynamicImage(image::DynamicImage);

/// The width and the height that an image holds.
pub uninterp spec fn image_size(image: image::DynamicImage) -> (u32, u32);

/// The bytes of an image's pixels once they are brought to red, green, blue
/// and alpha of eight bits each, row by row.
pub uninterp spec fn rgba_bytes(image: image::DynamicImage) -> Seq<u8>;

/// Calls `image::GenericImage::dimensions` on the image, which hands out the
/// width and the height that the image's buffer was made with.
#[verifier::external_body]
fn image_dimensions(decoded: &image::DynamicImage) -> (r: (u32, u32))
    ensures
        r == image_size(*decoded),
{
    image::GenericImage::dimensions(decoded)
}

/// Calls `image::DynamicImage::to_rgba` and gives up the copy for its bytes.
/// The copy is a new buffer of width times height times four bytes, filled
/// pixel by pixel from the image alone. The size is computed in sixty-four
/// bits there and a vector holds no more than `isize::MAX` bytes, so images
/// whose four-byte size is beyond that are left out.
#[verifier::external_body]
fn rgba_pixels(decoded: &image::DynamicImage) -> (r: Vec<u8>)
    requires
        4 * image_size(*decoded).0 * image_size(*decoded).1 <= isize::MAX,
    ensures
        r@ == rgba_bytes(*decoded),
        r@.len() == 4 * image_size(*decoded).0 * image_size(*decoded).1,
{
    decoded.to_rgba().into_vec()
}

/// Whether pixels of four bytes each fill a width and a height exactly.
pub open spec fn fills(width: u32, height: u32, bytes: nat) -> bool {
    bytes == 4 * width * height
}

/// How many bytes pixels of four bytes each take for a width and a height.
pub fn byte_count(width: u32, height: u32) -> (bytes: u128)
    ensures
        bytes == 4 * width * height,
{
    assert(0 <= (width as int) * (height as int) <= 0xFFFF_FFFF * 0xFFFF_FFFF) by (nonlinear_arith)
        requires
            0 <= width <= 0xFFFF_FFFF,
            0 <= height <= 0xFFFF_FFFF,
    ;
    assert(4 * ((width as int) * (height as int)) == 4 * width * height) by (nonlinear_arith);
    let area: u128 = (width as u128) * (height as u128);
    4 * area
}

/// A texture: its width and height in pixels, then its pixels with four
/// bytes each. The pixels fill the width and the height exactly.
#[derive(Debug, PartialEq, Eq)]
pub struct PngTextureLoader(u32, u32, Vec<u8>);

impl PngTextureLoader {
    #[verifier::type_invariant]
    spec fn pixels_fill(self) -> bool {
        fills(self.0, self.1, self.2@.len())
    }

    /// Width, height and pixel bytes.
    pub closed spec fn view(&self) -> (u32, u32, Seq<u8>) {
        (self.0, self.1, self.2@)
    }

    /// Keeps pixels that were decoded elsewhere, if they fill the width and
    /// the height exactly.
    pub fn from_pixels(width: u32, height: u32, pixels: Vec<u8>) -> (r: Option<PngTextureLoader>)
        ensures
            r is Some <==> fills(width, height, pixels@.len()),
            r matches Some(t) ==> t@ == (width, height, pixels@),
    {
        let wanted: u128 = byte_count(width, height);
        if pixels.len() as u128 == wanted {
            Some(PngTextureLoader(width, height, pixels))
        } else {
            None
        }
    }

    /// Makes a texture of a decoded image. There is one exactly where a
    /// vector can hold four bytes for each pixel of the image; its width and
    /// height are the image's, and its pixels are the image's pixels brought
    /// to four bytes each.
    pub fn from_image(decoded: &image::DynamicImage) -> (r: Option<PngTextureLoader>)
        ensures
            r is Some <==> 4 * image_size(*decoded).0 * image_size(*decoded).1 <= isize::MAX,
            r matches Some(t) ==> {
                &&& t@ == (image_size(*decoded).0, image_size(*decoded).1, rgba_bytes(*decoded))
                &&& fills(t@.0, t@.1, t@.2.len())
            },
    {
        let (width, height) = image_dimensions(decoded);
        let wanted: u128 = byte_count(width, height);
        if wanted > isize::MAX as u128 {
            return None;
        }
        let pixels = rgba_pixels(decoded);
        Some(PngTextureLoader(width, height, pixels))
    }

    pub fn width(&self) -> (w: u32)
        ensures
            w == self@.0,
    {
        self.0
    }

    pub fn height(&self) -> (h: u32)
        ensures
            h == self@.1,
    {
        self.1
    }

    /// The pixels, four bytes each.
    pub fn pixels(&self) -> (p: &Vec<u8>)
        ensures
            p@ == self@.2,
            fills(self@.0, self@.1, p@.len()),
    {
        proof {
            use_type_invariant(self);
        }
        &self.2
    }

    /// Gives up the texture for its parts.
    pub fn into_parts(self) -> (r: (u32, u32, Vec<u8>))
        ensures
            (r.0, r.1, r.2@) == self@,
            fills(r.0, r.1, r.2@.len()),
    {
        proof {
            use_type_invariant(&self);
        }
        (self.0, self.1, self.2)
    }
}

} // verus!
