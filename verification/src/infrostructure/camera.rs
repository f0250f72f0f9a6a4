use vstd::prelude::*;

verus! {

/// The size of the camera frames, in pixels.
#[derive(Debug, Clone, Copy, PartialEq, Eq, Structural)]
pub struct CameraResolution {
    pub width: usize,
    pub height: usize,
}

impl Default for CameraResolution {
    /// No pixel at all.
    fn default() -> (res: Self)
        ensures
            res == (CameraResolution { width: 0, height: 0 }),
    {
        CameraResolution { width: 0, height: 0 }
    }
}

} // verus!
