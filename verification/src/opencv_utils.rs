//! Pictures in the pixel order of the vision library.

use vstd::prelude::*;
use vstd::string::*;

use crate::frame::RgbFrame;

verus! {

/// A picture as the vision library takes it: rows from the top, each pixel
/// blue, green, red.
pub struct BgrMat {
    /// Number of rows.
    pub rows: u32,
    /// Pixels in a row.
    pub cols: u32,
    /// The pixels.
    pub pixels: Vec<[u8; 3]>,
}

/// The pixels of a buffer of red, green, blue bytes, each in reverse.
pub open spec fn reversed_pixels(data: Seq<u8>) -> Seq<Seq<u8>> {
    Seq::new(
        data.len() / 3,
        |i: int| seq![data[3 * i + 2], data[3 * i + 1], data[3 * i]],
    )
}

/// Builds a picture from its pixels, which have to be as many as its
/// dimensions call for.
pub fn bgr_vec_to_mat(width: u32, height: u32, bgr: Vec<[u8; 3]>) -> (r: Result<BgrMat, String>)
    ensures
        match r {
            Ok(mat) => {
                &&& bgr@.len() == width * height
                &&& mat.rows == height
                &&& mat.cols == width
                &&& mat.pixels == bgr
            },
            Err(text) => {
                &&& bgr@.len() != width * height
                &&& text@ == "failed to build Mat from frame"@
            },
        },
{
    assert(width * height <= u32::MAX * u32::MAX) by (nonlinear_arith)
        requires
            0 <= width <= u32::MAX,
            0 <= height <= u32::MAX,
    ;
    if bgr.len() as u64 == width as u64 * height as u64 {
        Ok(BgrMat { rows: height, cols: width, pixels: bgr })
    } else {
        Err("failed to build Mat from frame".to_owned())
    }
}

/// Converts a frame to the vision library's pixel order.
pub fn rgb_image_to_bgr_mat(image: &RgbFrame) -> (r: Result<BgrMat, String>)
    ensures
        r is Ok,
        r->Ok_0.rows == image@.height,
        r->Ok_0.cols == image@.width,
        r->Ok_0.pixels@.map_values(|p: [u8; 3]| p@) == reversed_pixels(image@.pixels),
{
    let mut bgr: Vec<[u8; 3]> = Vec::new();
    let (width, height) = image.dimensions();
    let data: &Vec<u8> = image.as_raw();
    let ghost count = width * height;
    assert(data@.len() == 3 * count && data@.len() / 3 == count);
    let len: usize = data.len();
    let mut i: usize = 0;
    while i < len
        invariant
            len == data@.len(),
            len == 3 * count,
            i == 3 * bgr@.len(),
            i <= len,
            forall|k: int|
                0 <= k < bgr@.len() ==> (#[trigger] bgr@[k])@ == seq![
                    data@[3 * k + 2],
                    data@[3 * k + 1],
                    data@[3 * k],
                ],
        decreases len - i,
    {
        let pixel: [u8; 3] = [data[i + 2], data[i + 1], data[i]];
        assert(pixel@ =~= seq![pixel[0], pixel[1], pixel[2]]);
        bgr.push(pixel);
        i = i + 3;
    }
    assert(bgr@.map_values(|p: [u8; 3]| p@) =~= reversed_pixels(image@.pixels));
    bgr_vec_to_mat(width, height, bgr)
}

/// The colours of a pixel change places end for end, and the pixels keep
/// theirs.
pub proof fn colours_change_places(data: Seq<u8>, i: int, channel: int)
    requires
        0 <= i < data.len() / 3,
        0 <= channel < 3,
    ensures
        reversed_pixels(data).len() == data.len() / 3,
        reversed_pixels(data)[i].len() == 3,
        reversed_pixels(data)[i][channel] == data[3 * i + (2 - channel)],
{
}

} // verus!
