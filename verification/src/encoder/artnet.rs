//! The Art-Net encoder: one ArtDmx frame per universe, refilled in place
//! from a flat pixel buffer through the address table.

use vstd::prelude::*;
use vstd::arithmetic::div_mod::*;
use crate::dmx::{frame_wf, headers_equal, ArtDmx};
use crate::encoder::Encoder;
use crate::matrix::{
    lemma_addr_at_bounds, lemma_div_ceil_mul, lemma_n_univers_bound, lemma_slot_template_round_trip,
    lemma_template_round_trip, lemma_tile_slot_bounds, AddrMap, MappingOptExt,
};
use crate::GError;

verus! {

/// The byte at payload position `c` of universe `u` after encoding
/// `buffer`: channels wired to a matrix pixel hold that pixel's byte
/// (straight copy, no reordering), all other channels keep their old
/// value.
pub open spec fn encoded_byte(
    opt: MappingOptExt,
    old_data: Seq<u8>,
    buffer: Seq<u8>,
    u: int,
    c: int,
) -> u8 {
    let ps = opt.pixel_size as int;
    let slot = c / ps;
    let k = c % ps;
    let px = opt.pixel_of(u, slot).0;
    let py = opt.pixel_of(u, slot).1;
    if slot < opt.univer_width * opt.univer_height && 0 <= px < opt.width && 0 <= py
        < opt.height {
        buffer[(py * opt.width + px) * ps + k]
    } else {
        old_data[c]
    }
}

/// The whole payload of universe `u` after encoding `buffer`.
pub open spec fn encoded_payload(
    opt: MappingOptExt,
    old_data: Seq<u8>,
    buffer: Seq<u8>,
    u: int,
) -> Seq<u8> {
    Seq::new(old_data.len(), |c: int| encoded_byte(opt, old_data, buffer, u, c))
}

/// The byte at payload position `c` of universe `u` while the tile's
/// cells are still being copied, column-major: cells before `(xi, yi)`
/// have been written, the rest still hold their old value.
spec fn partial_byte(
    opt: MappingOptExt,
    old_data: Seq<u8>,
    buffer: Seq<u8>,
    u: int,
    c: int,
    xi: int,
    yi: int,
) -> u8 {
    let ps = opt.pixel_size as int;
    let slot = c / ps;
    let k = c % ps;
    let cxi = opt.slot_col(slot);
    let cyi = opt.slot_cell(slot);
    let px = opt.pixel_of(u, slot).0;
    let py = opt.pixel_of(u, slot).1;
    if slot < opt.univer_width * opt.univer_height && 0 <= px < opt.width && 0 <= py < opt.height
        && (cxi < xi || (cxi == xi && cyi < yi)) {
        buffer[(py * opt.width + px) * ps + k]
    } else {
        old_data[c]
    }
}

/// Copies the pixels of universe `u`'s tile from `buffer` into the
/// frame's payload, walking the tile column-major and dropping cells
/// that the tile overhangs past the matrix edge.
#[verifier::loop_isolation(false)]
fn fill_frame(frame: ArtDmx, matrix: &AddrMap, buffer: &[u8], u: usize) -> (r: ArtDmx)
    requires
        matrix.wf(),
        frame.data@.len() == matrix.opt.dmx_size,
        buffer@.len() == matrix.opt.buffer_len(),
        u < matrix.opt.n_univers(),
    ensures
        headers_equal(r, frame),
        r.data@ == encoded_payload(matrix.opt, frame.data@, buffer@, u as int),
{
    let opt = matrix.opt;
    let w = opt.width;
    let h = opt.height;
    let tw = opt.univer_width;
    let uh = opt.univer_height;
    let ps = opt.pixel_size;
    let tpr = opt.tiles_per_row;
    let ghost orig = frame;
    let ghost data0 = frame.data@;
    let mut f = frame;
    proof {
        lemma_n_univers_bound(opt);
        lemma_div_ceil_mul(w as int, tw as int);
        lemma_div_ceil_mul(h as int, uh as int);
        lemma_mod_pos_bound(u as int, tpr as int);
        lemma_div_pos_is_pos(u as int, tpr as int);
        assert(u < tpr * opt.tiles_per_column);
        lemma_multiply_divide_lt(u as int, tpr as int, opt.tiles_per_column as int);
        // A tile may be taller than the matrix; its height is still
        // bounded by the channel budget.
        assert(uh * ps <= tw * uh * ps) by (nonlinear_arith)
            requires
                1 <= tw,
                0 <= uh * ps,
        ;
        assert(3 * uh <= uh * ps) by (nonlinear_arith)
            requires
                3 <= ps,
                0 <= uh,
        ;
    }
    let tc = u % tpr;
    let tr = u / tpr;
    proof {
        assert forall|c: int| 0 <= c < opt.dmx_size implies #[trigger] f.data@[c] == partial_byte(
            opt,
            data0,
            buffer@,
            u as int,
            c,
            0,
            0,
        ) by {
            let slot = c / ps as int;
            if 0 <= slot < tw * uh {
                lemma_slot_template_round_trip(opt, slot);
            }
        }
    }
    let mut xi: usize = 0;
    while xi < tw
        invariant
            xi <= tw,
            headers_equal(f, orig),
            f.data@.len() == opt.dmx_size,
            forall|c: int|
                0 <= c < opt.dmx_size ==> #[trigger] f.data@[c] == partial_byte(
                    opt,
                    data0,
                    buffer@,
                    u as int,
                    c,
                    xi as int,
                    0,
                ),
        decreases tw - xi,
    {
        let mut yi: usize = 0;
        while yi < uh
            invariant
                xi < tw,
                yi <= uh,
                headers_equal(f, orig),
                f.data@.len() == opt.dmx_size,
                forall|c: int|
                    0 <= c < opt.dmx_size ==> #[trigger] f.data@[c] == partial_byte(
                        opt,
                        data0,
                        buffer@,
                        u as int,
                        c,
                        xi as int,
                        yi as int,
                    ),
            decreases uh - yi,
        {
            let ghost slot0 = opt.tile_slot(xi as int, yi as int);
            proof {
                lemma_tile_slot_bounds(opt, xi as int, yi as int);
                lemma_template_round_trip(opt, xi as int, yi as int);
                // The projected coordinates stay within one tile of the
                // matrix edge, so they fit in `usize`.
                assert(tc * tw + tw <= tpr * tw) by (nonlinear_arith)
                    requires
                        tc + 1 <= tpr,
                        tw >= 0,
                ;
                assert(tr * uh + uh <= opt.tiles_per_column * uh) by (nonlinear_arith)
                    requires
                        tr + 1 <= opt.tiles_per_column,
                        uh >= 0,
                ;
            }
            let x = tc * tw + xi;
            let y = tr * uh + yi;
            proof {
                lemma_fundamental_div_mod(u as int, tpr as int);
                assert(opt.pixel_of(u as int, slot0) == (x as int, y as int));
            }
            if x < w && y < h {
                proof {
                    lemma_fundamental_div_mod_converse(x as int, tw as int, tc as int, xi as int);
                    lemma_fundamental_div_mod_converse(y as int, uh as int, tr as int, yi as int);
                    assert(opt.univer_at(x as int, y as int) == tr * tpr + tc);
                    assert(tr * tpr + tc == u) by (nonlinear_arith)
                        requires
                            u == tpr * tr + tc,
                    ;
                    assert(opt.addr_at(x as int, y as int) == slot0 * ps);
                    lemma_addr_at_bounds(opt, x as int, y as int);
                    assert(y * w + x < w * h) by (nonlinear_arith)
                        requires
                            0 <= x < w,
                            0 <= y < h,
                            1 <= w,
                    ;
                    assert((y * w + x) * ps + ps <= w * h * ps) by (nonlinear_arith)
                        requires
                            y * w + x < w * h,
                            1 <= ps,
                    ;
                }
                let a_px = matrix.addr[x][y];
                let addr0 = a_px.address;
                let off = (y * w + x) * ps;
                proof {
                    assert(addr0 + ps <= opt.dmx_size);
                }
                let mut k: usize = 0;
                while k < ps
                    invariant
                        k <= ps,
                        addr0 == slot0 * ps,
                        addr0 + ps <= opt.dmx_size,
                        off == (y * w + x) * ps,
                        off + ps <= buffer@.len(),
                        headers_equal(f, orig),
                        f.data@.len() == opt.dmx_size,
                        forall|c: int|
                            0 <= c < opt.dmx_size ==> #[trigger] f.data@[c] == (if addr0 <= c
                                < addr0 + k {
                                buffer@[off + (c - addr0)]
                            } else {
                                partial_byte(
                                    opt,
                                    data0,
                                    buffer@,
                                    u as int,
                                    c,
                                    xi as int,
                                    yi as int,
                                )
                            }),
                    decreases ps - k,
                {
                    let b = buffer[off + k];
                    f.data[addr0 + k] = b;
                    k = k + 1;
                }
                proof {
                    assert forall|c: int| 0 <= c < opt.dmx_size implies #[trigger] f.data@[c]
                        == partial_byte(
                        opt,
                        data0,
                        buffer@,
                        u as int,
                        c,
                        xi as int,
                        yi + 1,
                    ) by {
                        let slot = c / ps as int;
                        if addr0 <= c < addr0 + ps {
                            lemma_fundamental_div_mod_converse(
                                c,
                                ps as int,
                                slot0,
                                c - addr0,
                            );
                        } else {
                            if 0 <= slot < tw * uh {
                                lemma_slot_template_round_trip(opt, slot);
                                lemma_fundamental_div_mod(c, ps as int);
                            } else {
                                lemma_div_pos_is_pos(c, ps as int);
                            }
                        }
                    }
                }
            } else {
                proof {
                    // The projected cell overhangs the matrix: nothing is
                    // copied, and no slot's state changes either.
                    assert forall|c: int| 0 <= c < opt.dmx_size implies #[trigger] f.data@[c]
                        == partial_byte(
                        opt,
                        data0,
                        buffer@,
                        u as int,
                        c,
                        xi as int,
                        yi + 1,
                    ) by {
                        let slot = c / ps as int;
                        if 0 <= slot < tw * uh {
                            lemma_slot_template_round_trip(opt, slot);
                        }
                    }
                }
            }
            yi = yi + 1;
        }
        proof {
            assert forall|c: int| 0 <= c < opt.dmx_size implies #[trigger] f.data@[c]
                == partial_byte(opt, data0, buffer@, u as int, c, xi + 1, 0) by {
                let slot = c / ps as int;
                if 0 <= slot < tw * uh {
                    lemma_slot_template_round_trip(opt, slot);
                }
            }
        }
        xi = xi + 1;
    }
    proof {
        assert forall|c: int| 0 <= c < opt.dmx_size implies #[trigger] f.data@[c] == encoded_byte(
            opt,
            data0,
            buffer@,
            u as int,
            c,
        ) by {
            let slot = c / ps as int;
            if 0 <= slot < tw * uh {
                lemma_slot_template_round_trip(opt, slot);
            }
        }
        assert(f.data@ =~= encoded_payload(opt, data0, buffer@, u as int));
    }
    f
}

/// Stateful Art-Net encoder: owns one frame per universe, allocated once
/// at construction and refilled in place by every [`Encoder::encode`]
/// call.
#[derive(Debug)]
pub struct ArtnetEncoder {
    pub opt: MappingOptExt,
    /// One frame per universe, ordered by universe index.
    pub univers: Vec<ArtDmx>,
}

impl ArtnetEncoder {
    /// Internal consistency: one well-formed frame per universe of the
    /// geometry the encoder was built for.
    pub open spec fn spec_wf(self) -> bool {
        &&& self.opt.wf()
        &&& self.opt.dmx_size <= 512
        &&& self.univers@.len() == self.opt.n_univers()
        &&& forall|u: int|
            0 <= u < self.univers@.len() ==> frame_wf(#[trigger] self.univers@[u], self.opt, u)
    }

    /// Allocates the per-universe frames for a resolved geometry, headers
    /// filled in and payloads zeroed.  The channel budget may not exceed
    /// the protocol's 512-byte payload ceiling, and the universe count
    /// must fit the protocol's 15-bit port address space.
    #[verifier::loop_isolation(false)]
    pub fn new(opt: MappingOptExt) -> (r: ArtnetEncoder)
        requires
            opt.wf(),
            opt.dmx_size <= 512,
            opt.n_univers() <= 0x8000,
        ensures
            r.spec_wf(),
            r.opt == opt,
            forall|u: int, i: int|
                0 <= u < r.univers@.len() && 0 <= i < r.univers@[u].data@.len()
                    ==> #[trigger] r.univers@[u].data@[i] == 0,
    {
        proof {
            lemma_n_univers_bound(opt);
        }
        let nu = opt.tiles_per_row * opt.tiles_per_column;
        let mut univers: Vec<ArtDmx> = Vec::new();
        let mut u: usize = 0;
        while u < nu
            invariant
                u <= nu,
                univers@.len() == u,
                forall|v: int|
                    0 <= v < u ==> frame_wf(#[trigger] univers@[v], opt, v),
                forall|v: int, i: int|
                    0 <= v < u && 0 <= i < univers@[v].data@.len()
                        ==> #[trigger] univers@[v].data@[i] == 0,
            decreases nu - u,
        {
            let frame = ArtDmx::new(&opt, u);
            univers.push(frame);
            u = u + 1;
        }
        ArtnetEncoder { opt, univers }
    }
}

impl Encoder for ArtnetEncoder {
    open spec fn geometry(self) -> MappingOptExt {
        self.opt
    }

    open spec fn wf(self) -> bool {
        self.spec_wf()
    }

    open spec fn frames_seq(self) -> Seq<ArtDmx> {
        self.univers@
    }

    open spec fn encode_post(
        pre: ArtnetEncoder,
        post: ArtnetEncoder,
        matrix: AddrMap,
        buffer: Seq<u8>,
    ) -> bool {
        &&& post.opt == pre.opt
        &&& post.univers@.len() == pre.univers@.len()
        &&& forall|u: int|
            0 <= u < post.univers@.len() ==> {
                &&& headers_equal(#[trigger] post.univers@[u], pre.univers@[u])
                &&& post.univers@[u].data@ == encoded_payload(
                    pre.opt,
                    pre.univers@[u].data@,
                    buffer,
                    u,
                )
            }
    }

    #[verifier::loop_isolation(false)]
    fn encode(&mut self, matrix: &AddrMap, buffer: &[u8]) -> (r: Result<(), GError>) {
        let opt = self.opt;
        proof {
            lemma_n_univers_bound(opt);
        }
        let expected = opt.width * opt.height * opt.pixel_size;
        if buffer.len() != expected {
            return Err(GError::BufferSizeMismatch);
        }
        let nu = opt.tiles_per_row * opt.tiles_per_column;
        let mut u: usize = 0;
        while u < nu
            invariant
                u <= nu,
                buffer@.len() == opt.buffer_len(),
                self.opt == opt,
                self.univers@.len() == nu,
                forall|v: int|
                    0 <= v < u ==> headers_equal(
                        #[trigger] self.univers@[v],
                        old(self).univers@[v],
                    ) && self.univers@[v].data@ == encoded_payload(
                        opt,
                        old(self).univers@[v].data@,
                        buffer@,
                        v,
                    ),
                forall|v: int| u <= v < nu ==> #[trigger] self.univers@[v] == old(self).univers@[v],
            decreases nu - u,
        {
            let ghost at_start = self.univers@;
            let frame = self.univers.remove(u);
            let filled = fill_frame(frame, matrix, buffer, u);
            self.univers.insert(u, filled);
            proof {
                assert(self.univers@ =~= at_start.update(u as int, filled));
            }
            u = u + 1;
        }
        proof {
            assert forall|v: int| 0 <= v < nu implies frame_wf(
                #[trigger] self.univers@[v],
                opt,
                v,
            ) by {
                assert(frame_wf(old(self).univers@[v], opt, v));
            }
        }
        Ok(())
    }

    fn frames(&self) -> (f: &Vec<ArtDmx>) {
        &self.univers
    }
}

/// Encoding the same pixel buffer twice is idempotent at the payload
/// level: the second pass overwrites every wired channel with the same
/// byte and leaves unwired channels untouched.
pub proof fn lemma_encode_idempotent(
    opt: MappingOptExt,
    data0: Seq<u8>,
    buffer: Seq<u8>,
    u: int,
)
    ensures
        encoded_payload(opt, encoded_payload(opt, data0, buffer, u), buffer, u) == encoded_payload(
            opt,
            data0,
            buffer,
            u,
        ),
{
    let once = encoded_payload(opt, data0, buffer, u);
    let twice = encoded_payload(opt, once, buffer, u);
    assert(twice =~= once);
}

/// Calling `encode` twice with the same address table and pixel buffer
/// produces byte-identical payloads: the frame set after the second call
/// equals the one after the first, payload for payload.
pub proof fn lemma_encode_twice_identical(
    pre: ArtnetEncoder,
    mid: ArtnetEncoder,
    post: ArtnetEncoder,
    matrix: AddrMap,
    buffer: Seq<u8>,
)
    requires
        ArtnetEncoder::encode_post(pre, mid, matrix, buffer),
        ArtnetEncoder::encode_post(mid, post, matrix, buffer),
    ensures
        forall|u: int|
            0 <= u < post.univers@.len() ==> (#[trigger] post.univers@[u]).data@
                == mid.univers@[u].data@,
{
    assert forall|u: int| 0 <= u < post.univers@.len() implies (#[trigger] post.univers@[u]).data@
        == mid.univers@[u].data@ by {
        lemma_encode_idempotent(pre.opt, pre.univers@[u].data@, buffer, u);
    }
}

} // verus!
