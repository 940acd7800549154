//! The ArtDmx frame: the fixed binary layout that carries one universe's
//! channel payload over the Art-Net lighting protocol.

use vstd::prelude::*;
use crate::matrix::MappingOptExt;

verus! {

/// The protocol identifier that opens every frame: the ASCII bytes of
/// `"Art-Net"` followed by a terminating zero.
pub open spec fn spec_artnet_id() -> Seq<u8> {
    seq![0x41u8, 0x72u8, 0x74u8, 0x2du8, 0x4eu8, 0x65u8, 0x74u8, 0x00u8]
}

/// One binary ArtDmx frame.  The field order matches the wire layout of
/// the protocol's ArtDmx packet; all header fields are fixed at
/// construction except `sequence`, and only the payload in `data` changes
/// from frame to frame.
#[derive(Clone, Debug)]
pub struct ArtDmx {
    /// Eight bytes holding the null-terminated ASCII string `Art-Net`.
    pub id: [u8; 8],
    /// Packet type, transmitted low byte first: `0x5000` is output data.
    pub op_code: u16,
    /// Protocol revision, transmitted high byte first.
    pub proto_ver: [u8; 2],
    /// Packet order within a port address, 1 to 255 rolling; 0 means
    /// sequencing is not used.  This encoder leaves sequencing disabled.
    pub sequence: u8,
    /// Informational tag of the physical port that produced the frame.
    pub physical: u8,
    /// Low 8 bits of the 15-bit port address.
    pub sub_uni: u8,
    /// High 7 bits of the 15-bit port address.
    pub net: u8,
    /// Payload length in bytes, transmitted high byte first.
    pub length: u16,
    /// Channel payload, sized to the channel budget.
    pub data: Vec<u8>,
}

/// Both frames carry the same header: every field but the payload agrees.
pub open spec fn headers_equal(a: ArtDmx, b: ArtDmx) -> bool {
    &&& a.id@ == b.id@
    &&& a.op_code == b.op_code
    &&& a.proto_ver@ == b.proto_ver@
    &&& a.sequence == b.sequence
    &&& a.physical == b.physical
    &&& a.sub_uni == b.sub_uni
    &&& a.net == b.net
    &&& a.length == b.length
}

/// The header a fresh frame for universe `univer` of geometry `opt`
/// carries, together with a payload sized to the channel budget.
pub open spec fn frame_wf(f: ArtDmx, opt: MappingOptExt, univer: int) -> bool {
    &&& f.id@ == spec_artnet_id()
    &&& f.op_code == 0x5000
    &&& f.proto_ver@ == seq![0u8, 14u8]
    &&& f.sequence == 0
    &&& f.physical == 0
    &&& f.sub_uni == univer % 256
    &&& f.net == univer / 256
    &&& f.length == opt.univer_size()
    &&& f.data@.len() == opt.dmx_size
}

impl ArtDmx {
    /// A fresh frame for one universe: protocol header filled in, the
    /// 15-bit port address set to the universe index, payload length
    /// fixed to one full tile's channels, and the payload zeroed.
    pub fn new(opt: &MappingOptExt, univer: usize) -> (r: ArtDmx)
        requires
            opt.wf(),
            opt.dmx_size <= 512,
            univer < 0x8000,
        ensures
            frame_wf(r, *opt, univer as int),
            forall|i: int| 0 <= i < r.data@.len() ==> r.data@[i] == 0,
    {
        proof {
            assert(opt.univer_width * opt.univer_height * opt.pixel_size <= opt.dmx_size);
            assert(opt.univer_width * opt.univer_height <= opt.univer_width * opt.univer_height
                * opt.pixel_size) by (nonlinear_arith)
                requires
                    opt.univer_width * opt.univer_height >= 0,
                    opt.pixel_size >= 1,
            ;
        }
        let length = (opt.univer_width * opt.univer_height * opt.pixel_size) as u16;
        let mut data: Vec<u8> = Vec::new();
        let mut i: usize = 0;
        while i < opt.dmx_size
            invariant
                i <= opt.dmx_size,
                data@.len() == i,
                forall|j: int| 0 <= j < i ==> data@[j] == 0,
            decreases opt.dmx_size - i,
        {
            data.push(0);
            i = i + 1;
        }
        ArtDmx {
            id: [0x41u8, 0x72u8, 0x74u8, 0x2du8, 0x4eu8, 0x65u8, 0x74u8, 0x00u8],
            op_code: 0x5000,
            proto_ver: [0u8, 14u8],
            sequence: 0,
            physical: 0,
            sub_uni: (univer % 256) as u8,
            net: (univer / 256) as u8,
            length,
            data,
        }
    }
}

} // verus!
