//! RGBA images of the `image` crate, as used for captured monitors and
//! exported selections.
use vstd::prelude::*;

verus! {

/// An `image::RgbaImage`: `width x height` pixels of four bytes (red,
/// green, blue, alpha) in row-major order.
#[verifier::external_body]
pub struct PixelImage {
    image: image::RgbaImage,
}

/// The pixels of an image in row-major order (what `pixels()` yields).
pub uninterp spec fn image_pixels(image: PixelImage) -> Seq<[u8; 4]>;

/// `(width, height)` of an image, as it was created with.
pub uninterp spec fn image_dims(image: PixelImage) -> (u32, u32);

/// Row-major position of pixel `(x, y)` in an image of width `width`.
pub open spec fn image_index(width: u32, x: int, y: int) -> int {
    y * width + x
}

/// The raw bytes `data` read as consecutive RGBA pixels.
pub open spec fn pixels_of_bytes(data: Seq<u8>, count: nat) -> Seq<[u8; 4]> {
    Seq::new(
        count,
        |i: int| [data[4 * i], data[4 * i + 1], data[4 * i + 2], data[4 * i + 3]],
    )
}

impl PixelImage {
    /// `ImageBuffer::dimensions`: the width and height the image holds. Every
    /// image buffer holds exactly `width * height` pixels, and was made by
    /// `new`, `from_raw` or `clone`, the first two of which check that
    /// `4 * width` and then `4 * width * height` fit in `usize`.
    #[verifier::external_body]
    pub fn dimensions(&self) -> (r: (u32, u32))
        ensures
            r == image_dims(*self),
            image_pixels(*self).len() == r.0 * r.1,
            4 * r.0 <= usize::MAX,
            4 * r.0 * r.1 <= usize::MAX,
    {
        self.image.dimensions()
    }

    /// `ImageBuffer::get_pixel`: the pixel at `(x, y)`; it panics outside the
    /// image.
    #[verifier::external_body]
    pub fn get_pixel(&self, x: u32, y: u32) -> (r: [u8; 4])
        requires
            x < image_dims(*self).0,
            y < image_dims(*self).1,
        ensures
            r == image_pixels(*self)[image_index(image_dims(*self).0, x as int, y as int)],
    {
        self.image.get_pixel(x, y).0
    }

    /// `ImageBuffer::put_pixel`: overwrites the pixel at `(x, y)`; it panics
    /// outside the image.
    #[verifier::external_body]
    pub fn put_pixel(&mut self, x: u32, y: u32, pixel: [u8; 4])
        requires
            x < image_dims(*old(self)).0,
            y < image_dims(*old(self)).1,
        ensures
            image_dims(*final(self)) == image_dims(*old(self)),
            image_pixels(*final(self)) == image_pixels(*old(self)).update(
                image_index(image_dims(*old(self)).0, x as int, y as int),
                pixel,
            ),
    {
        self.image.put_pixel(x, y, image::Rgba(pixel))
    }

    /// `ImageBuffer::from_pixel`: a `width x height` image filled with
    /// `pixel`. It panics when the byte length, computed as `4 * width` and
    /// then times `height`, overflows `usize`, or when the bytes do not fit
    /// in one allocation.
    #[verifier::external_body]
    pub fn from_pixel(width: u32, height: u32, pixel: [u8; 4]) -> (r: Self)
        requires
            4 * width <= usize::MAX,
            4 * width * height <= isize::MAX,
        ensures
            image_dims(r) == (width, height),
            image_pixels(r) == Seq::new((width * height) as nat, |i: int| pixel),
    {
        PixelImage { image: image::RgbaImage::from_pixel(width, height, image::Rgba(pixel)) }
    }

    /// `ImageBuffer::from_raw`: an image over the bytes `data` (four per
    /// pixel, row-major), or `None` when the byte length, computed as
    /// `4 * width` and then times `height`, overflows `usize` at either step,
    /// or when `data` is shorter than that length.
    #[verifier::external_body]
    pub fn from_raw(width: u32, height: u32, data: Vec<u8>) -> (r: Option<Self>)
        ensures
            r.is_some() == (4 * width <= usize::MAX && 4 * width * height <= usize::MAX && 4
                * width * height <= data@.len()),
            r.is_some() ==> image_dims(r.unwrap()) == (width, height),
            r.is_some() ==> image_pixels(r.unwrap()) == pixels_of_bytes(
                data@,
                (width * height) as nat,
            ),
    {
        image::RgbaImage::from_raw(width, height, data).map(|image| PixelImage { image })
    }

    /// `ImageBuffer::clone`: a new buffer with a copy of the bytes and the
    /// same width and height.
    #[verifier::external_body]
    pub(crate) fn clone_image(&self) -> (r: Self)
        ensures
            image_dims(r) == image_dims(*self),
            image_pixels(r) == image_pixels(*self),
    {
        PixelImage { image: self.image.clone() }
    }

    /// `ImageBuffer::as_raw`: the underlying bytes, which hold the pixels,
    /// four bytes each, in row-major order.
    #[verifier::external_body]
    pub fn as_raw(&self) -> (r: &[u8])
        ensures
            4 * image_dims(*self).0 * image_dims(*self).1 <= r@.len(),
            pixels_of_bytes(r@, (image_dims(*self).0 * image_dims(*self).1) as nat)
                == image_pixels(*self),
    {
        self.image.as_raw().as_slice()
    }
}

/// The pixels `imageops::resize` computes with the Catmull-Rom filter for
/// an image of `dims` with `pixels`, scaled to `width x height`.
pub uninterp spec fn catmull_rom_resized(
    pixels: Seq<[u8; 4]>,
    dims: (u32, u32),
    width: u32,
    height: u32,
) -> Seq<[u8; 4]>;

/// `image::imageops::resize` with `FilterType::CatmullRom`: a
/// `width x height` image whose pixels depend only on the source's pixels,
/// its size and the target size. It samples the source, so the source must
/// not be empty, and it allocates a floating-point copy of `source width x
/// height` pixels.
#[verifier::external_body]
pub(crate) fn resize_catmull_rom(image: &PixelImage, width: u32, height: u32) -> (r: PixelImage)
    requires
        width > 0,
        height > 0,
        image_dims(*image).0 > 0,
        image_dims(*image).1 > 0,
        16 * image_dims(*image).0 * height <= isize::MAX,
        4 * width * height <= isize::MAX,
    ensures
        image_dims(r) == (width, height),
        image_pixels(r) == catmull_rom_resized(image_pixels(*image), image_dims(*image), width, height),
{
    PixelImage {
        image: image::imageops::resize(&image.image, width, height, image::imageops::FilterType::CatmullRom),
    }
}

} // verus!
