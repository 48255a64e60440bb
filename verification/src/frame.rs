//! Decoded video frames as plain pixel buffers.

use vstd::prelude::*;

verus! {

/// What a frame shows.
pub struct Picture {
    /// Pixels in a row.
    pub width: u32,
    /// Number of rows.
    pub height: u32,
    /// Rows from the top, pixels from the left, three bytes (red, green, blue)
    /// a pixel.
    pub pixels: Seq<u8>,
}

impl Picture {
    /// There are exactly the pixels that the dimensions call for.
    pub open spec fn wf(self) -> bool {
        self.pixels.len() == self.width * self.height * 3
    }
}

/// A decoded frame. Its buffer always has the size that its dimensions call
/// for.
pub struct RgbFrame {
    /// Pixels in a row.
    width: u32,
    /// Number of rows.
    height: u32,
    /// The pixel bytes.
    data: Vec<u8>,
}

impl View for RgbFrame {
    type V = Picture;

    closed spec fn view(&self) -> Picture {
        Picture { width: self.width, height: self.height, pixels: self.data@ }
    }
}

impl RgbFrame {
    /// The buffer fits the dimensions.
    #[verifier::type_invariant]
    spec fn sized(self) -> bool {
        self.data@.len() == self.width * self.height * 3
    }

    /// A frame over an existing pixel buffer, if the buffer has the size that
    /// the dimensions call for.
    pub fn from_raw(width: u32, height: u32, data: Vec<u8>) -> (r: Option<RgbFrame>)
        ensures
            match r {
                Some(frame) => {
                    &&& frame@.wf()
                    &&& frame@.width == width
                    &&& frame@.height == height
                    &&& frame@.pixels == data@
                },
                None => data@.len() != width * height * 3,
            },
    {
        assert(width * height <= u32::MAX * u32::MAX) by (nonlinear_arith)
            requires
                0 <= width <= u32::MAX,
                0 <= height <= u32::MAX,
        ;
        let wanted: u128 = width as u128 * height as u128 * 3;
        if data.len() as u128 == wanted {
            Some(RgbFrame { width, height, data })
        } else {
            None
        }
    }

    /// Width and height in pixels.
    pub fn dimensions(&self) -> (r: (u32, u32))
        ensures
            r == (self@.width, self@.height),
            self@.wf(),
    {
        proof {
            use_type_invariant(self);
        }
        (self.width, self.height)
    }

    /// The pixel bytes.
    pub fn as_raw(&self) -> (r: &Vec<u8>)
        ensures
            r@ == self@.pixels,
            self@.wf(),
    {
        proof {
            use_type_invariant(self);
        }
        &self.data
    }
}

} // verus!
