//! The live preview window, which only ever shows frames.

use vstd::prelude::*;

verus! {

/// Title of the preview window.
pub const WINDOW_NAME: &'static str = "motioncap preview";

/// How much larger than the camera's picture the window is.
pub const PREVIEW_SCALE: i32 = 2;

/// How long the window waits for events on each frame, in milliseconds.
pub const WAIT_KEY_MILLIS: i32 = 1;

/// The preview window: whether it has been sized yet, which takes a first
/// frame.
pub struct PreviewWindow {
    /// Whether the window has been sized to a frame.
    pub resized: bool,
}

/// A length scaled up for the window, as far as the number goes.
pub open spec fn scaled(length: i32) -> int {
    if length * PREVIEW_SCALE > i32::MAX {
        i32::MAX as int
    } else if length * PREVIEW_SCALE < i32::MIN {
        i32::MIN as int
    } else {
        length * PREVIEW_SCALE
    }
}

/// A length scaled up for the window.
fn scale(length: i32) -> (r: i32)
    ensures
        r == scaled(length),
{
    let wide: i64 = length as i64 * PREVIEW_SCALE as i64;
    if wide > i32::MAX as i64 {
        i32::MAX
    } else if wide < i32::MIN as i64 {
        i32::MIN
    } else {
        wide as i32
    }
}

impl PreviewWindow {
    /// A window that was just opened.
    pub fn open() -> (r: PreviewWindow)
        ensures
            !r.resized,
    {
        PreviewWindow { resized: false }
    }

    /// The size to give the window before a frame of `cols` by `rows` pixels
    /// is shown, if it has not been sized yet.
    pub fn pending_size(&self, cols: i32, rows: i32) -> (r: Option<(i32, i32)>)
        ensures
            match r {
                Some((width, height)) => !self.resized && width == scaled(cols) && height == scaled(
                    rows,
                ),
                None => self.resized,
            },
    {
        if self.resized {
            None
        } else {
            Some((scale(cols), scale(rows)))
        }
    }

    /// Takes note that the window has been sized, which is not done again.
    pub fn mark_resized(&mut self)
        ensures
            final(self).resized,
    {
        self.resized = true;
    }
}

/// The window is twice as large as the picture, as far as lengths go.
pub proof fn window_is_twice_the_picture(length: i32)
    ensures
        -0x4000_0000 <= length < 0x4000_0000 ==> scaled(length) == length + length,
        length >= 0x4000_0000 ==> scaled(length) == i32::MAX,
        length < -0x4000_0000 ==> scaled(length) == i32::MIN,
{
}

} // verus!
