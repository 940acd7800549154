//! User supplied wiring description of the matrix.

use vstd::prelude::*;

verus! {

/// Number of channels (bytes) one pixel occupies on the wire.
#[derive(Clone, Copy, Debug, PartialEq, Eq, Structural)]
pub enum ColorMode {
    RGBA,
    RGB,
}

impl ColorMode {
    /// Bytes per pixel for this color mode.
    pub open spec fn spec_pixel_size(self) -> int {
        match self {
            ColorMode::RGBA => 4,
            ColorMode::RGB => 3,
        }
    }

    /// Bytes per pixel for this color mode.
    pub fn pixel_size(self) -> (r: usize)
        ensures
            r == self.spec_pixel_size(),
    {
        match self {
            ColorMode::RGBA => 4,
            ColorMode::RGB => 3,
        }
    }
}

/// Which corner of a tile holds the first addressed pixel.
#[derive(Clone, Copy, Debug, PartialEq, Eq, Structural)]
pub enum Orientation {
    TopLeft,
    BottomLeft,
    TopRight,
    BottomRight,
}

/// Whether consecutive strips of a tile reverse direction (serpentine
/// wiring) or all run the same way.
#[derive(Clone, Copy, Debug, PartialEq, Eq, Structural)]
pub enum Displacement {
    Snake,
    Raster,
}

/// Scan axis of the wiring description, carried for collaborators.
#[derive(Clone, Copy, Debug, PartialEq, Eq, Structural)]
pub enum Direction {
    Horizontal,
    Vertical,
}

/// Declarative description of how the led matrix is wired.
#[derive(Clone, Copy, Debug, PartialEq, Eq, Structural)]
pub struct MappingOpt {
    /// Channel budget: maximum payload bytes per universe, e.g. 512.
    pub dmx_size: usize,
    /// Matrix width in pixels.
    pub width: usize,
    /// Matrix height in pixels.
    pub height: usize,
    /// Height in pixels of the tile handled by one universe.
    pub univer_height: usize,
    /// Color mode; the number of channels per pixel derives from it.
    pub color_mode: ColorMode,
    pub displacement: Displacement,
    pub direction: Direction,
    pub orientation: Orientation,
}

} // verus!
