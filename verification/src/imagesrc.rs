//! The image source boundary. Decoding happens outside; from a decoded
//! grayscale image the external image-processing collaborator produces the
//! resized luminance samples, and the verified grid builder quantizes them.

use vstd::prelude::*;
use crate::grid::CharGrid;
use crate::grid::build_grid;
use crate::quantize::quantize_spec;

verus! {

/// A decoded grayscale image, held opaquely for the resize collaborator.
#[verifier::external_body]
pub struct LumaImage {
    img: image::ImageBuffer<image::Luma<u8>, Vec<u8>>,
}

impl LumaImage {
    /// Relies on `image::load_from_memory` to decode an encoded image from
    /// its bytes, and on `DynamicImage::into_luma8` to reduce it to 8-bit
    /// luminance. Bytes that decode as no supported format give `None`.
    #[verifier::external_body]
    pub fn from_bytes(bytes: &Vec<u8>) -> Option<LumaImage> {
        match image::load_from_memory(bytes) {
            Ok(img) => Some(LumaImage { img: img.into_luma8() }),
            Err(_) => None,
        }
    }
}

/// What the external resize collaborator produces for a decoded grayscale
/// image: its luminance samples resized to `w` by `h`, in row-major order —
/// a function of the image and the dimensions alone.
pub uninterp spec fn resized_of(img: LumaImage, w: int, h: int) -> Seq<u8>;

/// Relies on `image::imageops::resize`, which returns an image of exactly
/// the requested dimensions, and on `ImageBuffer::pixels`, which yields one
/// pixel per cell with x running fastest from the top left: the resized
/// luminance samples in row-major order.
#[verifier::external_body]
fn resize_to_samples(img: &LumaImage, width: u32, height: u32) -> (r: Vec<u8>)
    ensures
        r@.len() == width * height,
        r@ == resized_of(*img, width as int, height as int),
{
    let resized = image::imageops::resize(&img.img, width, height, image::imageops::FilterType::Gaussian);
    resized.pixels().map(|p| p.0[0]).collect()
}

/// Build the character grid for a decoded grayscale image: the external
/// collaborator resizes it to `width` by `height` with Gaussian smoothing,
/// and each resized sample is quantized into its cell in row-major order.
pub fn grid_from_image(img: &LumaImage, width: usize, height: usize) -> (g: CharGrid)
    requires
        1 <= width <= 1024,
        1 <= height <= 1024,
    ensures
        g.wf(),
        g.width == width,
        g.height == height,
        forall|k: int|
            0 <= k < width * height ==> g.cells@[k] == quantize_spec(
                resized_of(*img, width as int, height as int)[k] as int,
            ),
{
    let samples = resize_to_samples(img, width as u32, height as u32);
    let g = build_grid(&samples, width, height);
    proof {
        assert(samples@ == resized_of(*img, width as int, height as int));
    }
    g
}

} // verus!
