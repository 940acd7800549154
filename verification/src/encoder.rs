//! The encoder interface: anything that can turn an address table plus a
//! flat pixel buffer into the per-universe protocol frames.

use vstd::prelude::*;
use crate::dmx::ArtDmx;
use crate::matrix::{AddrMap, MappingOptExt};
use crate::GError;

pub mod artnet;

verus! {

/// An encoder owns one frame per universe and refills the frames from a
/// pixel buffer once per displayed frame, guided by an address table.
pub trait Encoder: Sized {
    /// The geometry the encoder was built for.
    spec fn geometry(self) -> MappingOptExt;

    /// Internal consistency of the encoder's state.
    spec fn wf(self) -> bool;

    /// The frame set as last filled, one frame per universe.
    spec fn frames_seq(self) -> Seq<ArtDmx>;

    /// How one successful encode relates the new frame set to the old
    /// one, the address table and the pixel buffer.
    spec fn encode_post(pre: Self, post: Self, matrix: AddrMap, buffer: Seq<u8>) -> bool;

    /// Re-encodes `buffer` into the per-universe frames in place.
    ///
    /// The buffer must hold exactly `width * height * pixel_size` bytes;
    /// any other length is a caller bug and is reported as
    /// `BufferSizeMismatch`, leaving the frames untouched.
    fn encode(&mut self, matrix: &AddrMap, buffer: &[u8]) -> (r: Result<(), GError>)
        requires
            old(self).wf(),
            matrix.wf(),
            matrix.opt == old(self).geometry(),
        ensures
            final(self).wf(),
            final(self).geometry() == old(self).geometry(),
            r is Ok <==> buffer@.len() == old(self).geometry().buffer_len(),
            r is Ok ==> Self::encode_post(*old(self), *final(self), *matrix, buffer@),
            r is Err ==> r == Err::<(), GError>(GError::BufferSizeMismatch) && *final(self)
                == *old(self),
    ;

    /// Read access to the encoded frames, ordered by universe index.
    fn frames(&self) -> (f: &Vec<ArtDmx>)
        ensures
            f@ == self.frames_seq(),
    ;
}

} // verus!
