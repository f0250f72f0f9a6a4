use vstd::prelude::*;

verus! {

/// The part of a frame that the cropping keeps.
#[derive(Debug, Clone, Copy, PartialEq, Eq, Structural)]
pub struct CroppingConf {
    /// The new left edge.
    pub x: i32,
    /// The new width.
    pub width: i32,
    /// The new top edge.
    pub y: i32,
    /// The new height.
    pub height: i32,
}

impl CroppingConf {
    /// The cropping given by the configured values; each is cut to its low 32 bits.
    pub fn new(x: i64, width: i64, y: i64, height: i64) -> (res: Self)
        ensures
            res.x == x as i32,
            res.width == width as i32,
            res.y == y as i32,
            res.height == height as i32,
    {
        CroppingConf {
            x: x as i32,
            width: width as i32,
            y: y as i32,
            height: height as i32,
        }
    }
}

impl Default for CroppingConf {
    /// The whole frame of the default camera: 1920 by 1200 from the top left corner.
    fn default() -> (res: Self)
        ensures
            res == (CroppingConf { x: 0, width: 1920, y: 0, height: 1200 }),
    {
        CroppingConf { x: 0, width: 1920, y: 0, height: 1200 }
    }
}

/// The settings of the bitwise AND of two frames; it has none.
#[derive(Debug, Clone, Copy, PartialEq, Eq, Structural)]
pub struct BitwiseAndConf {}

impl BitwiseAndConf {
    /// The settings.
    pub fn new() -> (res: Self)
        ensures
            res == (BitwiseAndConf {}),
    {
        BitwiseAndConf {}
    }
}

impl Default for BitwiseAndConf {
    /// The settings.
    fn default() -> (res: Self)
        ensures
            res == (BitwiseAndConf {}),
    {
        BitwiseAndConf {}
    }
}

} // verus!
