//! Raw DMX payload packet with per-pixel write access, for tooling that
//! builds universe payloads pixel by pixel rather than through the frame
//! encoder.

use vstd::prelude::*;

verus! {

/// One four-channel pixel value, written to the wire in this field
/// order.
#[derive(Clone, Copy, Debug, PartialEq, Eq, Structural)]
pub struct RGBW {
    pub red: u8,
    pub green: u8,
    pub blue: u8,
    pub white: u8,
}

/// A raw DMX channel payload: a flat buffer of channel bytes in which
/// four-channel pixels can be set by pixel index.
#[derive(Clone, Debug)]
pub struct DXMPacket(pub Vec<u8>);

impl DXMPacket {
    /// Writes the four channels of `pixel` at pixel index `idx`: the
    /// bytes `red, green, blue, white` land at offsets `4 * idx` through
    /// `4 * idx + 3`, and no other byte changes.
    pub fn set_pixel(&mut self, idx: usize, pixel: RGBW)
        requires
            idx * 4 + 4 <= old(self).0@.len(),
        ensures
            final(self).0@ == old(self).0@.update(idx * 4, pixel.red).update(
                idx * 4 + 1,
                pixel.green,
            ).update(idx * 4 + 2, pixel.blue).update(idx * 4 + 3, pixel.white),
    {
        // Reading the length reminds the verifier that the buffer, and
        // with it `idx * 4`, fits in `usize`.
        let _len = self.0.len();
        let idx = idx * 4;
        self.0[idx] = pixel.red;
        self.0[idx + 1] = pixel.green;
        self.0[idx + 2] = pixel.blue;
        self.0[idx + 3] = pixel.white;
    }
}

} // verus!
