//! Assembly of the rendered grids into grayscale image buffers.
//!
//! The pixel buffer type of the image crate cannot be declared to the
//! verifier (its struct carries a trait bound of that crate), so a frame
//! here is a struct of this library holding the buffer in a field the
//! verifier does not see. The two named spec functions stand for the
//! pixel container and the dimensions the frame was built with, and
//! every contract speaks through them.

use vstd::prelude::*;
use crate::geometry::in_building;
use crate::footprint::build_footprint_index;
use crate::footprint::lemma_covering_scan_complete;
use crate::perimeter::in_perimeter;
use crate::raster::building_grid;
use crate::raster::building_grid_spec;
use crate::raster::perimeter_grid;
use crate::raster::pixel_on;

verus! {

/// A finished grayscale raster: a grayscale image buffer of the image
/// crate, one byte per pixel, row-major.
#[verifier::external_body]
pub struct GrayFrame {
    /// The underlying image buffer, for encoding and saving.
    pub buf: image::GrayImage,
}

/// The pixel container a frame holds, row-major.
pub uninterp spec fn frame_pixels(img: GrayFrame) -> Seq<u8>;

/// The width and height a frame was built with.
pub uninterp spec fn frame_dims(img: GrayFrame) -> (u32, u32);

/// Relies on image::ImageBuffer::from_vec: handed exactly width * height
/// one-byte luma samples it returns Some, wrapping the container
/// unchanged, row-major as given.
#[verifier::external_body]
fn gray_frame_from_pixels(width: u32, height: u32, pixels: Vec<u8>)
    -> (img: GrayFrame)
    requires
        pixels@.len() == width * height,
    ensures
        frame_pixels(img) == pixels@,
        frame_dims(img) == (width, height),
{
    GrayFrame {
        buf: image::GrayImage::from_vec(width, height, pixels)
            .expect("width * height samples always fit"),
    }
}

/// Renders one horizontal slice of the structure at height y, over the
/// fixed 300-by-300 rectangle starting at x = 4200, z = -4300. The pixel
/// at row-major position (z + 4300) * 300 + (x - 4200) is 255 exactly
/// when (x, y, z) is contained, and 0 otherwise.
pub fn building_image(y: i16) -> (img: GrayFrame)
    ensures
        frame_pixels(img) == building_grid_spec(y as int, 4200, -4300, 300, 300),
        frame_dims(img) == (300u32, 300u32),
{
    let g = building_grid(y, 4200, 4500, -4300, -4000);
    gray_frame_from_pixels(300, 300, g)
}

/// Renders the perimeter over the fixed 700-by-700 rectangle starting at
/// x = 4000, z = -4500: the footprint index of that rectangle (which
/// covers the whole structure) is precomputed in full, then every pixel
/// is evaluated against it in parallel. The pixel at row-major position
/// (z + 4500) * 700 + (x - 4000) is 255 exactly when (x, z) is in the
/// perimeter, and 0 otherwise.
pub fn perimeter_image() -> (img: GrayFrame)
    ensures
        frame_pixels(img).len() == 490000,
        forall|k: int| 0 <= k < 490000 ==> frame_pixels(img)[k]
            == pixel_on(in_perimeter(4000 + k % 700, -4500 + k / 700)),
        frame_dims(img) == (700u32, 700u32),
{
    let idx = build_footprint_index(4000, 4700, -4500, -3800);
    proof {
        lemma_covering_scan_complete(idx, 4000, 4700, -4500, -3800);
    }
    let g = perimeter_grid(&idx, 4000, 4700, -4500, -3800);
    gray_frame_from_pixels(700, 700, g)
}

} // verus!
