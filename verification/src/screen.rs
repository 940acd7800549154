//! The per-frame orchestrator: owns the address table, a persistent copy
//! of the pixel buffer, the frame encoder and a frame-rate counter, and
//! exposes the single per-frame entry point.

use vstd::prelude::*;
use crate::dmx::ArtDmx;
use crate::encoder::Encoder;
use crate::matrix::AddrMap;
use crate::GError;

verus! {

#[verifier::external_type_specification]
#[verifier::external_body]
pub struct ExFPSCounter(fps_counter::FPSCounter);

/// Relies on `fps_counter::FPSCounter::new`: a fresh frame counter with
/// no recorded frames.
#[verifier::external_body]
fn fps_new() -> fps_counter::FPSCounter {
    fps_counter::FPSCounter::new()
}

/// Relies on `fps_counter::FPSCounter::tick`: records that a frame was
/// produced now and returns how many frames fell within the last
/// wall-clock second.  The result depends on the clock, so nothing is
/// stated about it.
#[verifier::external_body]
fn fps_tick(counter: &mut fps_counter::FPSCounter) -> usize {
    counter.tick()
}

/// Orchestrator owning the address table, an internal pixel-buffer copy,
/// the output encoder and the frame-rate counter.  Constructed once per
/// run; [`Screen::apply`] is the per-frame entry point.
pub struct Screen<T: Encoder> {
    pub matrix: AddrMap,
    /// Internal copy of the last applied pixel buffer, always sized to
    /// the matrix.
    pub buffer: Vec<u8>,
    pub output_encoder: T,
    /// Wall-clock frame counter behind [`Screen::apply`]'s rate figure.
    pub fps: fps_counter::FPSCounter,
}

impl<T: Encoder> Screen<T> {
    /// The screen's pieces agree on one geometry and the internal buffer
    /// is sized to it.
    pub open spec fn wf(self) -> bool {
        &&& self.matrix.wf()
        &&& self.output_encoder.wf()
        &&& self.output_encoder.geometry() == self.matrix.opt
        &&& self.buffer@.len() == self.matrix.opt.buffer_len()
    }

    /// Builds a screen from an address table and an encoder made for the
    /// same geometry, with a zeroed internal buffer.
    #[verifier::loop_isolation(false)]
    pub fn new(matrix: AddrMap, output_encoder: T) -> (r: Screen<T>)
        requires
            matrix.wf(),
            output_encoder.wf(),
            output_encoder.geometry() == matrix.opt,
        ensures
            r.wf(),
            r.matrix == matrix,
            r.output_encoder == output_encoder,
            forall|i: int| 0 <= i < r.buffer@.len() ==> r.buffer@[i] == 0,
    {
        let len = matrix.opt.width * matrix.opt.height * matrix.opt.pixel_size;
        let mut buffer: Vec<u8> = Vec::new();
        let mut i: usize = 0;
        while i < len
            invariant
                i <= len,
                buffer@.len() == i,
                forall|j: int| 0 <= j < i ==> buffer@[j] == 0,
            decreases len - i,
        {
            buffer.push(0);
            i = i + 1;
        }
        Screen { matrix, buffer, output_encoder, fps: fps_new() }
    }

    /// Applies one animation frame: copies the caller's pixel buffer
    /// into the screen's own buffer, re-encodes every universe frame,
    /// and returns the measured frame rate.
    ///
    /// The buffer must have exactly the length of the internal buffer
    /// (`width * height * pixel_size`); any other length is rejected
    /// with `BufferSizeMismatch` and nothing changes.
    #[verifier::loop_isolation(false)]
    pub fn apply(&mut self, buffer: &[u8]) -> (r: Result<usize, GError>)
        requires
            old(self).wf(),
        ensures
            final(self).wf(),
            final(self).matrix == old(self).matrix,
            r is Ok <==> buffer@.len() == old(self).buffer@.len(),
            r is Ok ==> final(self).buffer@ == buffer@ && T::encode_post(
                old(self).output_encoder,
                final(self).output_encoder,
                old(self).matrix,
                buffer@,
            ),
            r is Err ==> r == Err::<usize, GError>(GError::BufferSizeMismatch)
                && final(self).buffer == old(self).buffer
                && final(self).output_encoder == old(self).output_encoder,
    {
        if buffer.len() != self.buffer.len() {
            return Err(GError::BufferSizeMismatch);
        }
        self.buffer.clear();
        let mut i: usize = 0;
        while i < buffer.len()
            invariant
                i <= buffer@.len(),
                self.buffer@ == buffer@.subrange(0, i as int),
                self.matrix == old(self).matrix,
                self.output_encoder == old(self).output_encoder,
            decreases buffer@.len() - i,
        {
            let b = buffer[i];
            self.buffer.push(b);
            proof {
                assert(self.buffer@ =~= buffer@.subrange(0, i + 1));
            }
            i = i + 1;
        }
        proof {
            assert(self.buffer@ =~= buffer@);
        }
        let fps = fps_tick(&mut self.fps);
        let res = self.output_encoder.encode(&self.matrix, self.buffer.as_slice());
        match res {
            Ok(_) => Ok(fps),
            Err(_) => {
                proof {
                    // The internal buffer always has the expected length,
                    // so the encoder cannot refuse it.
                    assert(false);
                }
                Err(GError::BufferSizeMismatch)
            },
        }
    }

    /// Read access to the encoded frames, ordered by universe index.
    pub fn frames(&self) -> (f: &Vec<ArtDmx>)
        ensures
            f@ == self.output_encoder.frames_seq(),
    {
        self.output_encoder.frames()
    }
}

} // verus!
