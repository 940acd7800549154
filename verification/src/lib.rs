//! Mapping and encoding core for LED matrices driven over the Art-Net
//! lighting protocol.
//!
//! The library turns a declarative wiring description of a matrix into a
//! per-pixel address table (which universe, which channel offset), offers the
//! inverse table for visualisation tooling, and re-encodes flat pixel buffers
//! into protocol-correct binary frames once per displayed frame.

use vstd::prelude::*;

pub mod client;
pub mod dmx;
pub mod encoder;
pub mod matrix;
pub mod options;
pub mod screen;

use crate::encoder::artnet::ArtnetEncoder;
use crate::matrix::{
    spec_resolved, spec_tile_too_large, spec_zero_dimension, AddrMap, MappingOptExt,
};
use crate::options::MappingOpt;
use crate::screen::Screen;

verus! {

/// Errors returned by the library.
///
/// `ZeroDimension` and `TileTooLarge` reject impossible geometry before any
/// frame is processed; `BufferSizeMismatch` reports a pixel buffer whose
/// length does not match the configured matrix.
#[derive(Clone, Copy, Debug, PartialEq, Eq, Structural)]
pub enum GError {
    /// The matrix width, height or universe height is zero.
    ZeroDimension,
    /// One column of pixels of the requested universe height does not fit
    /// into the channel budget, so no usable tile exists.
    TileTooLarge,
    /// A pixel buffer of the wrong length was handed to the encoder.
    BufferSizeMismatch,
}

/// Builds a ready-to-use Art-Net screen from a wiring description:
/// resolves the geometry, lays out the address table, allocates the
/// per-universe frames and wraps them in a [`Screen`].
///
/// Rejects the description exactly as [`MappingOptExt::resolve`] does;
/// on success the screen's geometry is the resolved one.
pub fn init_arnet_screen(opt: MappingOpt) -> (r: Result<Screen<ArtnetEncoder>, GError>)
    requires
        opt.width * opt.height * opt.color_mode.spec_pixel_size() <= usize::MAX,
        opt.dmx_size <= 512,
        spec_resolved(opt).n_univers() <= 0x8000,
    ensures
        spec_zero_dimension(opt) ==> r == Err::<Screen<ArtnetEncoder>, GError>(
            GError::ZeroDimension,
        ),
        !spec_zero_dimension(opt) && spec_tile_too_large(opt) ==> r == Err::<
            Screen<ArtnetEncoder>,
            GError,
        >(GError::TileTooLarge),
        !spec_zero_dimension(opt) && !spec_tile_too_large(opt) ==> r is Ok,
        r matches Ok(screen) ==> {
            &&& screen.wf()
            &&& screen.matrix.opt == spec_resolved(opt)
            &&& screen.output_encoder.opt == spec_resolved(opt)
        },
{
    let ext = match MappingOptExt::resolve(opt) {
        Ok(ext) => ext,
        Err(e) => {
            return Err(e);
        },
    };
    let map = AddrMap::from_mapping(ext);
    let encoder = ArtnetEncoder::new(ext);
    Ok(Screen::new(map, encoder))
}

} // verus!
