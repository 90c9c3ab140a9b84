//! Keeping the last lines of a list that fit an area.
use vstd::prelude::*;

verus! {

/// The template helper that passes on only the last lines of a list, as
/// many as the area is rows high.
#[derive(Clone, Copy)]
pub struct HeightBufferHelper;

impl HeightBufferHelper {
    /// Where the kept lines start among `len` lines, for an area `height`
    /// rows high.
    pub fn window_start(&self, len: usize, height: u16) -> (r: usize)
        ensures
            r == (if len > height as usize {
                len - height as usize
            } else {
                0
            }),
    {
        let h = height as usize;
        if len > h {
            len - h
        } else {
            0
        }
    }
}

} // verus!
