//! Topology resolution: from a wiring description to a per-pixel address
//! table and its inverse.
//!
//! The matrix is covered by tiles, one universe per tile.  A tile is
//! `univer_width` pixels wide and `univer_height` pixels tall; its wiring
//! order is laid out once as a template (column-major strips, optionally
//! serpentine, transformed for the start corner) and then stamped across the
//! matrix row-major over tiles.

use vstd::prelude::*;
use vstd::arithmetic::div_mod::*;
use crate::options::{ColorMode, Direction, Displacement, MappingOpt, Orientation};
use crate::GError;

verus! {

/// Ceiling division for non-negative `a` and positive `b`.
pub open spec fn div_ceil(a: int, b: int) -> int {
    a / b + if a % b == 0 {
        0int
    } else {
        1int
    }
}

/// Derived geometry: the wiring description plus every size computed from
/// it, fixed once by [`MappingOptExt::resolve`].
#[derive(Clone, Copy, Debug, PartialEq, Eq, Structural)]
pub struct MappingOptExt {
    /// Matrix width in pixels.
    pub width: usize,
    /// Matrix height in pixels.
    pub height: usize,
    /// Tile width in pixels: the largest width whose channels fit the
    /// channel budget, capped at the matrix width.
    pub univer_width: usize,
    /// Tile height in pixels, straight from the wiring description.
    pub univer_height: usize,
    /// Number of tiles needed to cover one row of the matrix.
    pub tiles_per_row: usize,
    /// Number of tiles needed to cover one column of the matrix.
    pub tiles_per_column: usize,
    pub color_mode: ColorMode,
    pub displacement: Displacement,
    pub direction: Direction,
    pub orientation: Orientation,
    /// Channels (bytes) per pixel, derived from the color mode.
    pub pixel_size: usize,
    /// Channel budget: maximum payload bytes per universe.
    pub dmx_size: usize,
}

impl MappingOptExt {
    /// Internal consistency of a resolved geometry.
    pub open spec fn wf(self) -> bool {
        &&& self.width >= 1
        &&& self.height >= 1
        &&& self.univer_width >= 1
        &&& self.univer_height >= 1
        &&& self.univer_width <= self.width
        &&& self.pixel_size == self.color_mode.spec_pixel_size()
        &&& self.univer_width * self.univer_height * self.pixel_size <= self.dmx_size
        &&& self.tiles_per_row == div_ceil(self.width as int, self.univer_width as int)
        &&& self.tiles_per_column == div_ceil(self.height as int, self.univer_height as int)
        &&& self.width * self.height * self.pixel_size <= usize::MAX
    }

    /// Number of universes (tiles) that cover the matrix.
    pub open spec fn n_univers(self) -> int {
        self.tiles_per_row * self.tiles_per_column
    }

    /// Payload bytes used by one full tile.
    pub open spec fn univer_size(self) -> int {
        self.univer_width * self.univer_height * self.pixel_size
    }

    /// Byte length of a pixel buffer for the whole matrix.
    pub open spec fn buffer_len(self) -> int {
        self.width * self.height * self.pixel_size
    }

    /// Whether the last row of tiles addresses fewer pixels than it has
    /// channel capacity (the matrix height is not a multiple of the tile
    /// height).  A documented, non-fatal condition: the excess template
    /// cells are dropped when the tiles are projected onto the matrix.
    pub open spec fn spec_tail_advisory(self) -> bool {
        self.height as int % self.univer_height as int != 0
    }

    /// Reports the non-fatal geometry advisory of [`Self::spec_tail_advisory`],
    /// so that callers can surface the warning.
    pub fn tail_advisory(&self) -> (r: bool)
        requires
            self.univer_height >= 1,
        ensures
            r == self.spec_tail_advisory(),
    {
        self.height % self.univer_height != 0
    }
}

impl MappingOptExt {
    /// Column of tiles containing pixel column `x`.
    pub open spec fn tile_col(self, x: int) -> int {
        x / self.univer_width as int
    }

    /// Row of tiles containing pixel row `y`.
    pub open spec fn tile_row(self, y: int) -> int {
        y / self.univer_height as int
    }

    /// Linear universe index of the tile containing pixel `(x, y)`,
    /// row-major over tiles.
    pub open spec fn univer_at(self, x: int, y: int) -> int {
        self.tile_row(y) * self.tiles_per_row + self.tile_col(x)
    }

    /// Template column that tile cell column `xi` reads after the
    /// start-corner transform (right-side corners mirror the columns).
    pub open spec fn corner_col(self, xi: int) -> int {
        match self.orientation {
            Orientation::TopRight | Orientation::BottomRight => self.univer_width - 1 - xi,
            _ => xi,
        }
    }

    /// Position within a column that tile cell row `yi` reads after the
    /// start-corner transform (bottom corners flip each column).
    pub open spec fn corner_cell(self, yi: int) -> int {
        match self.orientation {
            Orientation::BottomLeft | Orientation::BottomRight => self.univer_height - 1 - yi,
            _ => yi,
        }
    }

    /// Position within template column `sx` after the serpentine step:
    /// with snake displacement every odd column runs backwards.
    pub open spec fn snake_cell(self, sx: int, yi: int) -> int {
        if self.displacement is Snake && sx % 2 == 1 {
            self.univer_height - 1 - yi
        } else {
            yi
        }
    }

    /// Channel slot (in pixels) wired to tile cell `(xi, yi)`: the strips
    /// run column-major, transformed by start corner and displacement.
    pub open spec fn tile_slot(self, xi: int, yi: int) -> int {
        let sx = self.corner_col(xi);
        self.snake_cell(sx, self.corner_cell(yi)) + self.univer_height * sx
    }

    /// Channel slot (in pixels) of matrix pixel `(x, y)` within its tile.
    pub open spec fn pixel_slot(self, x: int, y: int) -> int {
        self.tile_slot(x % self.univer_width as int, y % self.univer_height as int)
    }

    /// Channel offset (in bytes) of matrix pixel `(x, y)` within its
    /// universe's payload.
    pub open spec fn addr_at(self, x: int, y: int) -> int {
        self.pixel_slot(x, y) * self.pixel_size
    }

    /// Tile cell column wired to channel slot `slot` (inverts the column
    /// part of [`Self::tile_slot`]).
    pub open spec fn slot_col(self, slot: int) -> int {
        self.corner_col(slot / self.univer_height as int)
    }

    /// Tile cell row wired to channel slot `slot` (inverts the row part
    /// of [`Self::tile_slot`]).
    pub open spec fn slot_cell(self, slot: int) -> int {
        self.corner_cell(
            self.snake_cell(slot / self.univer_height as int, slot % self.univer_height as int),
        )
    }

    /// Matrix pixel addressed by universe `u` at channel slot `slot`,
    /// before truncation: the result may lie outside the matrix when the
    /// last tiles overhang it.
    pub open spec fn pixel_of(self, u: int, slot: int) -> (int, int) {
        (
            (u % self.tiles_per_row as int) * self.univer_width + self.slot_col(slot),
            (u / self.tiles_per_row as int) * self.univer_height + self.slot_cell(slot),
        )
    }
}

/// The slot wired to a tile cell lies within the tile's channel
/// capacity.
pub proof fn lemma_tile_slot_bounds(opt: MappingOptExt, xi: int, yi: int)
    requires
        opt.wf(),
        0 <= xi < opt.univer_width,
        0 <= yi < opt.univer_height,
    ensures
        0 <= opt.tile_slot(xi, yi) < opt.univer_width * opt.univer_height,
{
    let tw = opt.univer_width as int;
    let uh = opt.univer_height as int;
    let sx = opt.corner_col(xi);
    let cell = opt.snake_cell(sx, opt.corner_cell(yi));
    assert(0 <= sx < tw);
    assert(0 <= cell < uh);
    assert(0 <= cell + uh * sx < tw * uh) by (nonlinear_arith)
        requires
            0 <= cell < uh,
            0 <= sx < tw,
            1 <= uh,
            1 <= tw,
    ;
}

/// For a height of `h` covered by strides of `uh`, the stride holding
/// the last index is exactly the last of `ceil(h / uh)` strides.
proof fn lemma_last_index_stride(h: int, uh: int)
    requires
        1 <= h,
        1 <= uh,
    ensures
        (h - 1) / uh + 1 == div_ceil(h, uh),
{
    let q = h / uh;
    let r = h % uh;
    lemma_fundamental_div_mod(h, uh);
    lemma_mod_pos_bound(h, uh);
    if r == 0 {
        assert(h - 1 == (q - 1) * uh + (uh - 1)) by (nonlinear_arith)
            requires
                h == uh * q + r,
                r == 0,
        ;
        lemma_fundamental_div_mod_converse(h - 1, uh, q - 1, uh - 1);
    } else {
        assert(h - 1 == q * uh + (r - 1)) by (nonlinear_arith)
            requires
                h == uh * q + r,
        ;
        lemma_fundamental_div_mod_converse(h - 1, uh, q, r - 1);
    }
}

/// Every matrix pixel is addressed inside its universe's capacity: the
/// universe index is one of the `n_univers` tiles and the channel offset
/// leaves room for a whole pixel within the channel budget.
pub proof fn lemma_addr_at_bounds(opt: MappingOptExt, x: int, y: int)
    requires
        opt.wf(),
        0 <= x < opt.width,
        0 <= y < opt.height,
    ensures
        0 <= opt.pixel_slot(x, y) < opt.univer_width * opt.univer_height,
        opt.addr_at(x, y) == opt.pixel_slot(x, y) * opt.pixel_size,
        0 <= opt.addr_at(x, y),
        opt.addr_at(x, y) + opt.pixel_size <= opt.univer_size() <= opt.dmx_size,
        opt.addr_at(x, y) / opt.pixel_size as int == opt.pixel_slot(x, y),
        opt.addr_at(x, y) % opt.pixel_size as int == 0,
        0 <= opt.univer_at(x, y) < opt.n_univers(),
        0 <= opt.tile_col(x) < opt.tiles_per_row,
        0 <= opt.tile_row(y) < opt.tiles_per_column,
{
    let tw = opt.univer_width as int;
    let uh = opt.univer_height as int;
    let ps = opt.pixel_size as int;
    let tpr = opt.tiles_per_row as int;
    let tpc = opt.tiles_per_column as int;
    lemma_mod_pos_bound(x, tw);
    lemma_mod_pos_bound(y, uh);
    lemma_tile_slot_bounds(opt, x % tw, y % uh);
    let slot = opt.pixel_slot(x, y);
    assert((slot + 1) * ps <= (tw * uh) * ps) by (nonlinear_arith)
        requires
            slot + 1 <= tw * uh,
            ps >= 1,
    ;
    assert((slot + 1) * ps == slot * ps + ps) by (nonlinear_arith);
    lemma_fundamental_div_mod_converse(slot * ps, ps, slot, 0);
    // Tile indices of the pixel lie within the tile grid.
    lemma_div_pos_is_pos(x, tw);
    lemma_div_pos_is_pos(y, uh);
    lemma_div_is_ordered(x, opt.width - 1, tw);
    lemma_div_is_ordered(y, opt.height - 1, uh);
    lemma_last_index_stride(opt.width as int, tw);
    lemma_last_index_stride(opt.height as int, uh);
    assert(0 <= opt.tile_row(y) * tpr + opt.tile_col(x) < tpc * tpr) by (nonlinear_arith)
        requires
            0 <= opt.tile_col(x) < tpr,
            0 <= opt.tile_row(y) < tpc,
    ;
    assert(tpc * tpr == tpr * tpc) by (nonlinear_arith);
}

/// Forward round trip: the universe and slot assigned to a pixel lead
/// back to that pixel.
pub proof fn lemma_pixel_round_trip(opt: MappingOptExt, x: int, y: int)
    requires
        opt.wf(),
        0 <= x < opt.width,
        0 <= y < opt.height,
    ensures
        opt.pixel_of(opt.univer_at(x, y), opt.pixel_slot(x, y)) == (x, y),
{
    let tw = opt.univer_width as int;
    let uh = opt.univer_height as int;
    let tpr = opt.tiles_per_row as int;
    let tc = opt.tile_col(x);
    let tr = opt.tile_row(y);
    let xi = x % tw;
    let yi = y % uh;
    lemma_addr_at_bounds(opt, x, y);
    lemma_mod_pos_bound(x, tw);
    lemma_mod_pos_bound(y, uh);
    let sx = opt.corner_col(xi);
    let cell = opt.snake_cell(sx, opt.corner_cell(yi));
    let slot = opt.tile_slot(xi, yi);
    // Recover the template coordinates from the slot.
    assert(slot == sx * uh + cell) by (nonlinear_arith)
        requires
            slot == cell + uh * sx,
    ;
    lemma_fundamental_div_mod_converse(slot, uh, sx, cell);
    assert(opt.slot_col(slot) == xi);
    assert(opt.slot_cell(slot) == yi);
    // Recover the tile indices from the universe index.
    let u = opt.univer_at(x, y);
    lemma_fundamental_div_mod_converse(u, tpr, tr, tc);
    // Recombine tile index and in-tile coordinate into the pixel.
    lemma_fundamental_div_mod(x, tw);
    lemma_fundamental_div_mod(y, uh);
    assert(tc * tw + xi == x) by (nonlinear_arith)
        requires
            x == tw * tc + xi,
    ;
    assert(tr * uh + yi == y) by (nonlinear_arith)
        requires
            y == uh * tr + yi,
    ;
}

/// Backward round trip: a universe and channel slot whose addressed
/// pixel lies inside the matrix is exactly the address of that pixel.
/// Slots whose pixel falls outside the matrix belong to the truncated
/// tail of an overhanging tile and address no pixel at all.
pub proof fn lemma_slot_round_trip(opt: MappingOptExt, u: int, slot: int)
    requires
        opt.wf(),
        0 <= u < opt.n_univers(),
        0 <= slot < opt.univer_width * opt.univer_height,
    ensures
        0 <= opt.pixel_of(u, slot).0,
        0 <= opt.pixel_of(u, slot).1,
        opt.pixel_of(u, slot).0 < opt.width && opt.pixel_of(u, slot).1 < opt.height ==> {
            let (x, y) = opt.pixel_of(u, slot);
            &&& opt.univer_at(x, y) == u
            &&& opt.pixel_slot(x, y) == slot
            &&& opt.addr_at(x, y) == slot * opt.pixel_size
        },
{
    let tw = opt.univer_width as int;
    let uh = opt.univer_height as int;
    let tpr = opt.tiles_per_row as int;
    let tpc = opt.tiles_per_column as int;
    let tc = u % tpr;
    let tr = u / tpr;
    lemma_mod_pos_bound(u, tpr);
    lemma_div_pos_is_pos(u, tpr);
    lemma_multiply_divide_lt(u, tpr, tpc);
    let sx = slot / uh;
    let cy = slot % uh;
    lemma_mod_pos_bound(slot, uh);
    lemma_div_pos_is_pos(slot, uh);
    assert(slot < uh * tw) by (nonlinear_arith)
        requires
            slot < tw * uh,
    ;
    lemma_multiply_divide_lt(slot, uh, tw);
    let xi = opt.corner_col(sx);
    let yi = opt.corner_cell(opt.snake_cell(sx, cy));
    assert(0 <= xi < tw);
    assert(0 <= yi < uh);
    let x = tc * tw + xi;
    let y = tr * uh + yi;
    assert(0 <= x && 0 <= y) by (nonlinear_arith)
        requires
            x == tc * tw + xi,
            y == tr * uh + yi,
            0 <= tc,
            0 <= tr,
            0 <= xi,
            0 <= yi,
            1 <= tw,
            1 <= uh,
    ;
    assert(opt.pixel_of(u, slot) == (x, y));
    if x < opt.width && y < opt.height {
        // The pixel's tile and in-tile coordinates are the ones we came from.
        assert(x == tc * tw + xi);
        lemma_fundamental_div_mod_converse(x, tw, tc, xi);
        lemma_fundamental_div_mod_converse(y, uh, tr, yi);
        // The template transform is an involution.
        assert(opt.corner_col(xi) == sx);
        assert(opt.snake_cell(sx, opt.corner_cell(yi)) == cy);
        assert(opt.pixel_slot(x, y) == cy + uh * sx);
        assert(cy + uh * sx == slot) by {
            lemma_fundamental_div_mod(slot, uh);
        }
        // And so is the tiling.
        lemma_fundamental_div_mod(u, tpr);
        assert(opt.univer_at(x, y) == tr * tpr + tc);
        assert(tr * tpr + tc == u) by (nonlinear_arith)
            requires
                u == tpr * tr + tc,
        ;
    }
}

/// The tile width that the channel budget of `opt` allows: the largest
/// width whose full tile payload fits `dmx_size`, capped at the matrix
/// width.
pub open spec fn spec_tile_width(opt: MappingOpt) -> int {
    let cap = opt.dmx_size as int / (opt.univer_height * opt.color_mode.spec_pixel_size());
    if cap <= opt.width {
        cap
    } else {
        opt.width as int
    }
}

/// The geometry that [`MappingOptExt::resolve`] derives from a valid
/// wiring description.
pub open spec fn spec_resolved(opt: MappingOpt) -> MappingOptExt {
    let tw = spec_tile_width(opt);
    MappingOptExt {
        width: opt.width,
        height: opt.height,
        univer_width: tw as usize,
        univer_height: opt.univer_height,
        tiles_per_row: div_ceil(opt.width as int, tw) as usize,
        tiles_per_column: div_ceil(opt.height as int, opt.univer_height as int) as usize,
        color_mode: opt.color_mode,
        displacement: opt.displacement,
        direction: opt.direction,
        orientation: opt.orientation,
        pixel_size: opt.color_mode.spec_pixel_size() as usize,
        dmx_size: opt.dmx_size,
    }
}

/// A wiring description is rejected outright when a dimension is zero, or
/// when one column of pixels of the requested tile height already
/// overflows the channel budget.
pub open spec fn spec_zero_dimension(opt: MappingOpt) -> bool {
    opt.width == 0 || opt.height == 0 || opt.univer_height == 0
}

pub open spec fn spec_tile_too_large(opt: MappingOpt) -> bool {
    opt.univer_height * opt.color_mode.spec_pixel_size() > opt.dmx_size
}

impl MappingOptExt {
    /// Derives the concrete geometry from a wiring description.
    ///
    /// Fails with `ZeroDimension` when the matrix or tile height is empty,
    /// and with `TileTooLarge` when not even one pixel column of the
    /// requested tile height fits the channel budget; otherwise the
    /// resolved geometry is exactly [`spec_resolved`].
    pub fn resolve(opt: MappingOpt) -> (r: Result<MappingOptExt, GError>)
        requires
            opt.width * opt.height * opt.color_mode.spec_pixel_size() <= usize::MAX,
        ensures
            spec_zero_dimension(opt) ==> r == Err::<MappingOptExt, GError>(GError::ZeroDimension),
            !spec_zero_dimension(opt) && spec_tile_too_large(opt) ==> r == Err::<
                MappingOptExt,
                GError,
            >(GError::TileTooLarge),
            !spec_zero_dimension(opt) && !spec_tile_too_large(opt) ==> r == Ok::<
                MappingOptExt,
                GError,
            >(spec_resolved(opt)) && spec_resolved(opt).wf(),
    {
        let ps = opt.color_mode.pixel_size();
        if opt.width == 0 || opt.height == 0 || opt.univer_height == 0 {
            return Err(GError::ZeroDimension);
        }
        let leds_per_univer = opt.dmx_size / ps;
        if opt.univer_height > leds_per_univer {
            proof {
                lemma_tile_budget_test(opt.dmx_size as int, opt.univer_height as int, ps as int);
            }
            return Err(GError::TileTooLarge);
        }
        proof {
            lemma_tile_budget_test(opt.dmx_size as int, opt.univer_height as int, ps as int);
        }
        let cap = leds_per_univer / opt.univer_height;
        proof {
            lemma_div_denominator(opt.dmx_size as int, ps as int, opt.univer_height as int);
            assert(opt.univer_height * ps == ps * opt.univer_height) by (nonlinear_arith);
            lemma_div_non_zero(leds_per_univer as int, opt.univer_height as int);
        }
        let univer_width = if cap <= opt.width {
            cap
        } else {
            opt.width
        };
        proof {
            lemma_resolved_dims(opt);
        }
        let tiles_per_row = opt.width / univer_width + if opt.width % univer_width != 0 {
            1
        } else {
            0
        };
        let tiles_per_column = opt.height / opt.univer_height + if opt.height % opt.univer_height
            != 0 {
            1
        } else {
            0
        };
        let ext = MappingOptExt {
            width: opt.width,
            height: opt.height,
            univer_width,
            univer_height: opt.univer_height,
            tiles_per_row,
            tiles_per_column,
            color_mode: opt.color_mode,
            displacement: opt.displacement,
            direction: opt.direction,
            orientation: opt.orientation,
            pixel_size: ps,
            dmx_size: opt.dmx_size,
        };
        proof {
            lemma_resolve_ok(opt, ext);
        }
        Ok(ext)
    }
}

/// One pixel column of the requested tile height fits the channel budget
/// exactly when the height is at most `dmx_size / pixel_size`.
proof fn lemma_tile_budget_test(dmx: int, uh: int, ps: int)
    requires
        0 <= dmx,
        1 <= uh,
        1 <= ps,
    ensures
        uh > dmx / ps <==> uh * ps > dmx,
{
    lemma_fundamental_div_mod(dmx, ps);
    lemma_mod_pos_bound(dmx, ps);
    let q = dmx / ps;
    if uh > q {
        assert(uh * ps > dmx) by (nonlinear_arith)
            requires
                uh >= q + 1,
                ps >= 1,
                dmx == ps * q + dmx % ps,
                dmx % ps < ps,
        ;
    } else {
        assert(uh * ps <= dmx) by (nonlinear_arith)
            requires
                uh <= q,
                ps >= 1,
                dmx == ps * q + dmx % ps,
                dmx % ps >= 0,
        ;
    }
}

/// Bounds on the resolved tile width and tile counts, used to show that
/// the arithmetic of `resolve` stays within `usize`.
proof fn lemma_resolved_dims(opt: MappingOpt)
    requires
        opt.width * opt.height * opt.color_mode.spec_pixel_size() <= usize::MAX,
        !spec_zero_dimension(opt),
        !spec_tile_too_large(opt),
    ensures
        1 <= spec_tile_width(opt) <= opt.width,
        div_ceil(opt.width as int, spec_tile_width(opt)) <= opt.width,
        div_ceil(opt.height as int, opt.univer_height as int) <= opt.height,
        3 * opt.width <= usize::MAX,
        3 * opt.height <= usize::MAX,
{
    let ps = opt.color_mode.spec_pixel_size();
    let uh = opt.univer_height as int;
    let dmx = opt.dmx_size as int;
    assert(ps * uh == uh * ps) by (nonlinear_arith);
    lemma_div_denominator(dmx, ps, uh);
    assert(dmx / ps >= uh) by {
        lemma_tile_budget_test(dmx, uh, ps);
    }
    lemma_div_non_zero(dmx / ps, uh);
    assert(3 * opt.width <= opt.width * opt.height * ps) by (nonlinear_arith)
        requires
            opt.height >= 1,
            ps >= 3,
            opt.width >= 0,
    ;
    assert(3 * opt.height <= opt.width * opt.height * ps) by (nonlinear_arith)
        requires
            opt.width >= 1,
            ps >= 3,
            opt.height >= 0,
    ;
    lemma_div_ceil_le(opt.width as int, spec_tile_width(opt));
    lemma_div_ceil_le(opt.height as int, uh);
}

/// For positive `a` and `b`, `ceil(a / b)` is at least 1 and at most `a`.
proof fn lemma_div_ceil_le(a: int, b: int)
    requires
        1 <= a,
        1 <= b,
    ensures
        1 <= div_ceil(a, b) <= a,
{
    lemma_fundamental_div_mod(a, b);
    lemma_mod_pos_bound(a, b);
    lemma_div_nonincreasing(a, b);
    lemma_div_pos_is_pos(a, b);
    if a % b == 0 {
        assert(a / b >= 1) by (nonlinear_arith)
            requires
                a == b * (a / b) + a % b,
                a % b == 0,
                a >= 1,
                b >= 1,
        ;
    } else {
        // `b` cannot be 1 here, since everything divides evenly by 1,
        // so the quotient is at most half of `a`.
        assert(b >= 2);
        lemma_div_is_ordered_by_denominator(a, 2, b);
    }
}

/// The geometry built by `resolve` equals the specification-level
/// resolution and is well formed.
proof fn lemma_resolve_ok(opt: MappingOpt, ext: MappingOptExt)
    requires
        opt.width * opt.height * opt.color_mode.spec_pixel_size() <= usize::MAX,
        !spec_zero_dimension(opt),
        !spec_tile_too_large(opt),
        ext.width == opt.width,
        ext.height == opt.height,
        ext.univer_width == spec_tile_width(opt),
        ext.univer_height == opt.univer_height,
        ext.tiles_per_row == div_ceil(opt.width as int, spec_tile_width(opt)),
        ext.tiles_per_column == div_ceil(opt.height as int, opt.univer_height as int),
        ext.color_mode == opt.color_mode,
        ext.displacement == opt.displacement,
        ext.direction == opt.direction,
        ext.orientation == opt.orientation,
        ext.pixel_size == opt.color_mode.spec_pixel_size(),
        ext.dmx_size == opt.dmx_size,
    ensures
        ext == spec_resolved(opt),
        ext.wf(),
{
    lemma_resolved_dims(opt);
    let ps = opt.color_mode.spec_pixel_size();
    let uh = opt.univer_height as int;
    let dmx = opt.dmx_size as int;
    let tw = spec_tile_width(opt);
    let d = uh * ps;
    assert(d >= 1) by (nonlinear_arith)
        requires
            uh >= 1,
            ps >= 1,
            d == uh * ps,
    ;
    let cap = dmx / d;
    lemma_fundamental_div_mod(dmx, d);
    lemma_mod_pos_bound(dmx, d);
    assert(tw * uh * ps <= dmx) by (nonlinear_arith)
        requires
            tw <= cap,
            uh >= 1,
            ps >= 1,
            d == uh * ps,
            dmx == d * cap + dmx % d,
            dmx % d >= 0,
    ;
    assert(ext.wf());
    assert(ext == spec_resolved(opt));
}

/// Covering `a` with strides of `b` uses `ceil(a / b)` strides: together
/// they reach `a`, and overhang it by less than one stride.
pub proof fn lemma_div_ceil_mul(a: int, b: int)
    requires
        1 <= a,
        1 <= b,
    ensures
        a <= div_ceil(a, b) * b <= a + b - 1,
{
    let q = a / b;
    let r = a % b;
    lemma_fundamental_div_mod(a, b);
    lemma_mod_pos_bound(a, b);
    if r == 0 {
        assert(q * b == a) by (nonlinear_arith)
            requires
                a == b * q + r,
                r == 0,
        ;
    } else {
        assert((q + 1) * b == a - r + b) by (nonlinear_arith)
            requires
                a == b * q + r,
        ;
    }
}

/// The template transform maps a tile cell to its channel slot and back.
pub proof fn lemma_template_round_trip(opt: MappingOptExt, xi: int, yi: int)
    requires
        opt.wf(),
        0 <= xi < opt.univer_width,
        0 <= yi < opt.univer_height,
    ensures
        opt.slot_col(opt.tile_slot(xi, yi)) == xi,
        opt.slot_cell(opt.tile_slot(xi, yi)) == yi,
{
    let uh = opt.univer_height as int;
    let sx = opt.corner_col(xi);
    let cell = opt.snake_cell(sx, opt.corner_cell(yi));
    let slot = opt.tile_slot(xi, yi);
    assert(slot == sx * uh + cell) by (nonlinear_arith)
        requires
            slot == cell + uh * sx,
    ;
    lemma_fundamental_div_mod_converse(slot, uh, sx, cell);
}

/// A channel slot maps to a tile cell whose slot it is: the inverse
/// direction of [`lemma_template_round_trip`].
pub proof fn lemma_slot_template_round_trip(opt: MappingOptExt, slot: int)
    requires
        opt.wf(),
        0 <= slot < opt.univer_width * opt.univer_height,
    ensures
        0 <= opt.slot_col(slot) < opt.univer_width,
        0 <= opt.slot_cell(slot) < opt.univer_height,
        opt.tile_slot(opt.slot_col(slot), opt.slot_cell(slot)) == slot,
{
    let tw = opt.univer_width as int;
    let uh = opt.univer_height as int;
    let sx = slot / uh;
    let cy = slot % uh;
    lemma_mod_pos_bound(slot, uh);
    lemma_div_pos_is_pos(slot, uh);
    assert(slot < uh * tw) by (nonlinear_arith)
        requires
            slot < tw * uh,
    ;
    lemma_multiply_divide_lt(slot, uh, tw);
    let xi = opt.corner_col(sx);
    let yi = opt.corner_cell(opt.snake_cell(sx, cy));
    assert(opt.corner_col(xi) == sx);
    assert(opt.snake_cell(sx, opt.corner_cell(yi)) == cy);
    assert(opt.tile_slot(xi, yi) == cy + uh * sx);
    assert(cy + uh * sx == slot) by {
        lemma_fundamental_div_mod(slot, uh);
    }
}

/// Tile counts never exceed the matrix dimensions, so the number of
/// universes is bounded by the pixel count.
pub proof fn lemma_n_univers_bound(opt: MappingOptExt)
    requires
        opt.wf(),
    ensures
        opt.tiles_per_row <= opt.width,
        opt.tiles_per_column <= opt.height,
        opt.n_univers() <= opt.width * opt.height,
        opt.width * opt.height <= usize::MAX,
        3 * opt.width <= usize::MAX,
        3 * opt.height <= usize::MAX,
{
    lemma_div_ceil_le(opt.width as int, opt.univer_width as int);
    lemma_div_ceil_le(opt.height as int, opt.univer_height as int);
    assert(3 * opt.width <= opt.width * opt.height * opt.pixel_size) by (nonlinear_arith)
        requires
            opt.height >= 1,
            opt.pixel_size >= 3,
            opt.width >= 0,
    ;
    assert(3 * opt.height <= opt.width * opt.height * opt.pixel_size) by (nonlinear_arith)
        requires
            opt.width >= 1,
            opt.pixel_size >= 3,
            opt.height >= 0,
    ;
    assert(opt.n_univers() <= opt.width * opt.height) by (nonlinear_arith)
        requires
            0 <= opt.tiles_per_row <= opt.width,
            0 <= opt.tiles_per_column <= opt.height,
            opt.n_univers() == opt.tiles_per_row * opt.tiles_per_column,
    ;
    assert(opt.width * opt.height <= opt.width * opt.height * opt.pixel_size) by (nonlinear_arith)
        requires
            opt.width * opt.height >= 0,
            opt.pixel_size >= 1,
    ;
}

/// Art-Net universe and channel offset of one pixel.  A pixel occupies
/// `pixel_size` consecutive channels starting at `address` within the
/// payload of universe `univer`.
#[derive(Clone, Copy, Debug, PartialEq, Eq, Structural)]
pub struct PixelAddr {
    pub univer: usize,
    pub address: usize,
}

impl PixelAddr {
    /// The placeholder address: universe 0, offset 0.
    pub fn empty() -> (r: Self)
        ensures
            r.univer == 0,
            r.address == 0,
    {
        Self { univer: 0, address: 0 }
    }
}

/// Intermediate three-dimensional table indexed by universe, then column
/// and row within the tile.  Displacement and start corner are easiest to
/// apply on one tile template, so the template is built first and then
/// stamped once per universe; projection onto the flat matrix comes last.
struct PreMapping(Vec<Vec<Vec<PixelAddr>>>, MappingOptExt);

/// Well-formedness of the intermediate table: one full-size tile per
/// universe, every cell wired according to the tile template.
spec fn pre_wf(pre: PreMapping) -> bool {
    let opt = pre.1;
    &&& opt.wf()
    &&& pre.0@.len() == opt.n_univers()
    &&& forall|u: int|
        0 <= u < pre.0@.len() ==> (#[trigger] pre.0@[u])@.len() == opt.univer_width
    &&& forall|u: int, x: int|
        0 <= u < pre.0@.len() && 0 <= x < opt.univer_width ==> (#[trigger] pre.0@[u]@[x])@.len()
            == opt.univer_height
    &&& forall|u: int, x: int, y: int|
        0 <= u < pre.0@.len() && 0 <= x < opt.univer_width && 0 <= y < opt.univer_height ==> {
            &&& (#[trigger] pre.0@[u]@[x]@[y]).univer == u
            &&& pre.0@[u]@[x]@[y].address == opt.tile_slot(x, y) * opt.pixel_size
        }
}

impl PreMapping {
    /// One tile template in plain column-major order: cell `(x, y)` is
    /// the `y`-th pixel of the `x`-th strip, before displacement and
    /// start-corner transforms.
    #[verifier::loop_isolation(false)]
    fn base_chunk(opt: &MappingOptExt) -> (chunk: Vec<Vec<PixelAddr>>)
        requires
            opt.wf(),
        ensures
            chunk@.len() == opt.univer_width,
            forall|x: int|
                0 <= x < opt.univer_width ==> (#[trigger] chunk@[x])@.len() == opt.univer_height,
            forall|x: int, y: int|
                0 <= x < opt.univer_width && 0 <= y < opt.univer_height ==> {
                    &&& (#[trigger] chunk@[x]@[y]).univer == 0
                    &&& chunk@[x]@[y].address == (y + opt.univer_height * x) * opt.pixel_size
                },
    {
        let tw = opt.univer_width;
        let uh = opt.univer_height;
        let ps = opt.pixel_size;
        let mut chunk: Vec<Vec<PixelAddr>> = Vec::new();
        let mut x: usize = 0;
        while x < tw
            invariant
                x <= tw,
                chunk@.len() == x,
                forall|i: int| 0 <= i < x ==> (#[trigger] chunk@[i])@.len() == uh,
                forall|i: int, j: int|
                    0 <= i < x && 0 <= j < uh ==> {
                        &&& (#[trigger] chunk@[i]@[j]).univer == 0
                        &&& chunk@[i]@[j].address == (j + uh * i) * ps
                    },
            decreases tw - x,
        {
            let mut col: Vec<PixelAddr> = Vec::new();
            let mut y: usize = 0;
            while y < uh
                invariant
                    x < tw,
                    y <= uh,
                    col@.len() == y,
                    forall|j: int|
                        0 <= j < y ==> {
                            &&& (#[trigger] col@[j]).univer == 0
                            &&& col@[j].address == (j + uh * x) * ps
                        },
                decreases uh - y,
            {
                proof {
                    assert(y + uh * x < tw * uh) by (nonlinear_arith)
                        requires
                            0 <= y < uh,
                            0 <= x < tw,
                            1 <= uh,
                    ;
                    assert((y + uh * x) * ps + ps <= tw * uh * ps) by (nonlinear_arith)
                        requires
                            y + uh * x < tw * uh,
                            1 <= ps,
                    ;
                    assert(tw * uh <= tw * uh * ps) by (nonlinear_arith)
                        requires
                            0 <= tw * uh,
                            1 <= ps,
                    ;
                }
                let address = (y + uh * x) * ps;
                col.push(PixelAddr { univer: 0, address });
                y = y + 1;
            }
            chunk.push(col);
            x = x + 1;
        }
        chunk
    }

    /// Serpentine displacement: every odd strip of the template runs
    /// backwards, so its cells are reversed.
    #[verifier::loop_isolation(false)]
    fn displacement_zig_zag(chunk: Vec<Vec<PixelAddr>>, opt: &MappingOptExt) -> (r: Vec<
        Vec<PixelAddr>,
    >)
        requires
            opt.wf(),
            opt.displacement is Snake,
            chunk@.len() == opt.univer_width,
            forall|x: int|
                0 <= x < opt.univer_width ==> (#[trigger] chunk@[x])@.len() == opt.univer_height,
        ensures
            r@.len() == opt.univer_width,
            forall|x: int|
                0 <= x < opt.univer_width ==> (#[trigger] r@[x])@.len() == opt.univer_height,
            forall|x: int, y: int|
                0 <= x < opt.univer_width && 0 <= y < opt.univer_height ==> (#[trigger] r@[x]@[y])
                    == chunk@[x]@[opt.snake_cell(x, y)],
    {
        let tw = opt.univer_width;
        let uh = opt.univer_height;
        let mut r: Vec<Vec<PixelAddr>> = Vec::new();
        let mut x: usize = 0;
        while x < tw
            invariant
                x <= tw,
                r@.len() == x,
                forall|i: int| 0 <= i < x ==> (#[trigger] r@[i])@.len() == uh,
                forall|i: int, j: int|
                    0 <= i < x && 0 <= j < uh ==> (#[trigger] r@[i]@[j]) == chunk@[i]@[opt.snake_cell(
                        i,
                        j,
                    )],
            decreases tw - x,
        {
            let mut col: Vec<PixelAddr> = Vec::new();
            let mut y: usize = 0;
            while y < uh
                invariant
                    x < tw,
                    y <= uh,
                    col@.len() == y,
                    forall|j: int|
                        0 <= j < y ==> (#[trigger] col@[j]) == chunk@[x as int]@[opt.snake_cell(
                            x as int,
                            j,
                        )],
                decreases uh - y,
            {
                let sy = if x % 2 == 1 {
                    uh - 1 - y
                } else {
                    y
                };
                col.push(chunk[x][sy]);
                y = y + 1;
            }
            r.push(col);
            x = x + 1;
        }
        r
    }

    /// Start-corner transform: right-side corners mirror the strip
    /// order, bottom corners flip each strip.
    #[verifier::loop_isolation(false)]
    fn orientation(chunk: Vec<Vec<PixelAddr>>, opt: &MappingOptExt) -> (r: Vec<Vec<PixelAddr>>)
        requires
            opt.wf(),
            chunk@.len() == opt.univer_width,
            forall|x: int|
                0 <= x < opt.univer_width ==> (#[trigger] chunk@[x])@.len() == opt.univer_height,
        ensures
            r@.len() == opt.univer_width,
            forall|x: int|
                0 <= x < opt.univer_width ==> (#[trigger] r@[x])@.len() == opt.univer_height,
            forall|x: int, y: int|
                0 <= x < opt.univer_width && 0 <= y < opt.univer_height ==> (#[trigger] r@[x]@[y])
                    == chunk@[opt.corner_col(x)]@[opt.corner_cell(y)],
    {
        let tw = opt.univer_width;
        let uh = opt.univer_height;
        let mut r: Vec<Vec<PixelAddr>> = Vec::new();
        let mut x: usize = 0;
        while x < tw
            invariant
                x <= tw,
                r@.len() == x,
                forall|i: int| 0 <= i < x ==> (#[trigger] r@[i])@.len() == uh,
                forall|i: int, j: int|
                    0 <= i < x && 0 <= j < uh ==> (#[trigger] r@[i]@[j]) == chunk@[opt.corner_col(
                        i,
                    )]@[opt.corner_cell(j)],
            decreases tw - x,
        {
            let sx = match opt.orientation {
                Orientation::TopRight | Orientation::BottomRight => tw - 1 - x,
                _ => x,
            };
            let mut col: Vec<PixelAddr> = Vec::new();
            let mut y: usize = 0;
            while y < uh
                invariant
                    x < tw,
                    sx == opt.corner_col(x as int),
                    y <= uh,
                    col@.len() == y,
                    forall|j: int|
                        0 <= j < y ==> (#[trigger] col@[j]) == chunk@[opt.corner_col(
                            x as int,
                        )]@[opt.corner_cell(j)],
                decreases uh - y,
            {
                let sy = match opt.orientation {
                    Orientation::BottomLeft | Orientation::BottomRight => uh - 1 - y,
                    _ => y,
                };
                col.push(chunk[sx][sy]);
                y = y + 1;
            }
            r.push(col);
            x = x + 1;
        }
        r
    }

    /// Builds the intermediate table: lay out one tile template
    /// (column-major strips, then displacement, then start corner) and
    /// stamp it once per universe.
    #[verifier::loop_isolation(false)]
    fn new(opt: MappingOptExt) -> (pre: PreMapping)
        requires
            opt.wf(),
        ensures
            pre_wf(pre),
            pre.1 == opt,
    {
        let chunk = Self::base_chunk(&opt);
        let chunk = match opt.displacement {
            Displacement::Snake => Self::displacement_zig_zag(chunk, &opt),
            Displacement::Raster => chunk,
        };
        let chunk = Self::orientation(chunk, &opt);
        let tw = opt.univer_width;
        let uh = opt.univer_height;
        proof {
            lemma_n_univers_bound(opt);
            assert forall|x: int, y: int| 0 <= x < tw && 0 <= y < uh implies {
                &&& (#[trigger] chunk@[x]@[y]).univer == 0
                &&& chunk@[x]@[y].address == opt.tile_slot(x, y) * opt.pixel_size
            } by {
                assert(0 <= opt.corner_col(x) < tw);
                assert(0 <= opt.corner_cell(y) < uh);
            }
        }
        let nu = opt.tiles_per_row * opt.tiles_per_column;
        let mut mapping: Vec<Vec<Vec<PixelAddr>>> = Vec::new();
        let mut u: usize = 0;
        while u < nu
            invariant
                u <= nu,
                mapping@.len() == u,
                forall|i: int| 0 <= i < u ==> (#[trigger] mapping@[i])@.len() == tw,
                forall|i: int, x: int|
                    0 <= i < u && 0 <= x < tw ==> (#[trigger] mapping@[i]@[x])@.len() == uh,
                forall|i: int, x: int, y: int|
                    0 <= i < u && 0 <= x < tw && 0 <= y < uh ==> {
                        &&& (#[trigger] mapping@[i]@[x]@[y]).univer == i
                        &&& mapping@[i]@[x]@[y].address == opt.tile_slot(x, y) * opt.pixel_size
                    },
            decreases nu - u,
        {
            let mut tile: Vec<Vec<PixelAddr>> = Vec::new();
            let mut x: usize = 0;
            while x < tw
                invariant
                    u < nu,
                    x <= tw,
                    tile@.len() == x,
                    forall|i: int| 0 <= i < x ==> (#[trigger] tile@[i])@.len() == uh,
                    forall|i: int, j: int|
                        0 <= i < x && 0 <= j < uh ==> {
                            &&& (#[trigger] tile@[i]@[j]).univer == u
                            &&& tile@[i]@[j].address == opt.tile_slot(i, j) * opt.pixel_size
                        },
                decreases tw - x,
            {
                let mut col: Vec<PixelAddr> = Vec::new();
                let mut y: usize = 0;
                while y < uh
                    invariant
                        u < nu,
                        x < tw,
                        y <= uh,
                        col@.len() == y,
                        forall|j: int|
                            0 <= j < y ==> {
                                &&& (#[trigger] col@[j]).univer == u
                                &&& col@[j].address == opt.tile_slot(x as int, j) * opt.pixel_size
                            },
                    decreases uh - y,
                {
                    col.push(PixelAddr { univer: u, address: chunk[x][y].address });
                    y = y + 1;
                }
                tile.push(col);
                x = x + 1;
            }
            mapping.push(tile);
            u = u + 1;
        }
        PreMapping(mapping, opt)
    }

    /// Projects the per-universe tiles onto the flat matrix: each tile is
    /// shifted by its tile offsets, and template cells whose projected
    /// coordinate falls outside the matrix are dropped here — overhanging
    /// tiles are truncated at projection time, never by shrinking the
    /// template.
    #[verifier::loop_isolation(false)]
    fn project(self) -> (mapping: Vec<Vec<PixelAddr>>)
        requires
            pre_wf(self),
        ensures
            mapping@.len() == self.1.width,
            forall|x: int|
                0 <= x < self.1.width ==> (#[trigger] mapping@[x])@.len() == self.1.height,
            forall|x: int, y: int|
                0 <= x < self.1.width && 0 <= y < self.1.height ==> {
                    &&& (#[trigger] mapping@[x]@[y]).univer == self.1.univer_at(x, y)
                    &&& mapping@[x]@[y].address == self.1.addr_at(x, y)
                },
    {
        let opt = self.1;
        let w = opt.width;
        let h = opt.height;
        let uw = opt.univer_width;
        let uh = opt.univer_height;
        let tpr = opt.tiles_per_row;
        let mut mapping: Vec<Vec<PixelAddr>> = Vec::new();
        let mut x: usize = 0;
        while x < w
            invariant
                x <= w,
                mapping@.len() == x,
                forall|i: int| 0 <= i < x ==> (#[trigger] mapping@[i])@.len() == h,
                forall|i: int, j: int|
                    0 <= i < x && 0 <= j < h ==> {
                        &&& (#[trigger] mapping@[i]@[j]).univer == opt.univer_at(i, j)
                        &&& mapping@[i]@[j].address == opt.addr_at(i, j)
                    },
            decreases w - x,
        {
            let mut col: Vec<PixelAddr> = Vec::new();
            let mut y: usize = 0;
            while y < h
                invariant
                    x < w,
                    y <= h,
                    col@.len() == y,
                    forall|j: int|
                        0 <= j < y ==> {
                            &&& (#[trigger] col@[j]).univer == opt.univer_at(x as int, j)
                            &&& col@[j].address == opt.addr_at(x as int, j)
                        },
                decreases h - y,
            {
                proof {
                    lemma_addr_at_bounds(opt, x as int, y as int);
                    lemma_n_univers_bound(opt);
                }
                let tc = x / uw;
                let tr = y / uh;
                proof {
                    assert(tr * tpr + tc == opt.univer_at(x as int, y as int));
                    assert(opt.univer_at(x as int, y as int) <= usize::MAX);
                }
                let uid = tr * tpr + tc;
                let xi = x % uw;
                let yi = y % uh;
                col.push(self.0[uid][xi][yi]);
                y = y + 1;
            }
            mapping.push(col);
            x = x + 1;
        }
        mapping
    }
}

/// The per-pixel address table: for every matrix pixel the universe and
/// channel offset that drive it, together with the geometry it was built
/// from.  Immutable once built; encoding and visualisation both read it.
#[derive(Clone, Debug)]
pub struct AddrMap {
    pub opt: MappingOptExt,
    /// Indexed `addr[x][y]`: outer index is the pixel column.
    pub addr: Vec<Vec<PixelAddr>>,
}

impl AddrMap {
    /// A complete address table: one address per matrix cell, each equal
    /// to the address the wiring model assigns.
    pub open spec fn wf(self) -> bool {
        &&& self.opt.wf()
        &&& self.addr@.len() == self.opt.width
        &&& forall|x: int|
            0 <= x < self.opt.width ==> (#[trigger] self.addr@[x])@.len() == self.opt.height
        &&& forall|x: int, y: int|
            0 <= x < self.opt.width && 0 <= y < self.opt.height ==> {
                &&& (#[trigger] self.addr@[x]@[y]).univer == self.opt.univer_at(x, y)
                &&& self.addr@[x]@[y].address == self.opt.addr_at(x, y)
            }
    }

    /// Builds the address table for a resolved geometry.
    ///
    /// The table holds exactly `width * height` addresses; every address
    /// names one of the geometry's universes and a channel offset that
    /// leaves room for a whole pixel inside the channel budget.
    pub fn from_mapping(opt: MappingOptExt) -> (m: AddrMap)
        requires
            opt.wf(),
        ensures
            m.wf(),
            m.opt == opt,
            forall|x: int, y: int|
                0 <= x < opt.width && 0 <= y < opt.height ==> 0 <= #[trigger] opt.univer_at(x, y)
                    < opt.n_univers(),
            forall|x: int, y: int|
                0 <= x < opt.width && 0 <= y < opt.height ==> #[trigger] opt.addr_at(x, y)
                    + opt.pixel_size <= opt.dmx_size,
    {
        let pre = PreMapping::new(opt);
        let addr = pre.project();
        proof {
            assert forall|x: int, y: int|
                0 <= x < opt.width && 0 <= y < opt.height implies 0 <= #[trigger] opt.univer_at(
                x,
                y,
            ) < opt.n_univers() by {
                lemma_addr_at_bounds(opt, x, y);
            }
            assert forall|x: int, y: int|
                0 <= x < opt.width && 0 <= y < opt.height implies #[trigger] opt.addr_at(x, y)
                + opt.pixel_size <= opt.dmx_size by {
                lemma_addr_at_bounds(opt, x, y);
            }
        }
        AddrMap { opt, addr }
    }

    /// Number of universes the table addresses, for tooling that walks
    /// them in order.
    pub fn univer_count(&self) -> (n: usize)
        requires
            self.wf(),
        ensures
            n == self.opt.n_univers(),
    {
        proof {
            lemma_n_univers_bound(self.opt);
        }
        self.opt.tiles_per_row * self.opt.tiles_per_column
    }

    /// The address that drives pixel `(x, y)`.
    pub fn address_at(&self, x: usize, y: usize) -> (a: PixelAddr)
        requires
            self.wf(),
            x < self.opt.width,
            y < self.opt.height,
        ensures
            a.univer == self.opt.univer_at(x as int, y as int),
            a.address == self.opt.addr_at(x as int, y as int),
    {
        self.addr[x][y]
    }
}

/// Marker stored in a [`RevAddrMap`] for channel slots that drive no
/// pixel: the slots in the truncated tail of an overhanging tile.
pub const UNMAPPED: usize = usize::MAX;

/// The value a reverse map holds for universe `u` at channel slot `s`:
/// the linear index (`y * width + x`) of the pixel wired there, or
/// [`UNMAPPED`] when the slot's projected pixel falls outside the matrix.
pub open spec fn spec_rev_entry(opt: MappingOptExt, u: int, s: int) -> int {
    let px = opt.pixel_of(u, s).0;
    let py = opt.pixel_of(u, s).1;
    if 0 <= px < opt.width && 0 <= py < opt.height {
        py * opt.width + px
    } else {
        UNMAPPED as int
    }
}

/// Inverse of an [`AddrMap`]: per universe, an array of
/// `univer_width * univer_height` channel slots, each holding the linear
/// pixel index wired to that slot ([`UNMAPPED`] for slots that drive no
/// pixel).  Built on demand for visualisation and debug tooling.
#[derive(Debug)]
pub struct RevAddrMap {
    /// Indexed `offset[univer][channel_slot]`.
    pub offset: Vec<Vec<usize>>,
}

impl RevAddrMap {
    /// A complete inverse of the address table for geometry `opt`.
    pub open spec fn wf(self, opt: MappingOptExt) -> bool {
        &&& self.offset@.len() == opt.n_univers()
        &&& forall|u: int|
            0 <= u < opt.n_univers() ==> (#[trigger] self.offset@[u])@.len() == opt.univer_width
                * opt.univer_height
        &&& forall|u: int, s: int|
            0 <= u < opt.n_univers() && 0 <= s < opt.univer_width * opt.univer_height
                ==> #[trigger] self.offset@[u]@[s] == spec_rev_entry(opt, u, s)
    }

    /// Inverts an address table.
    ///
    /// For every pixel the entry at its universe and channel slot is its
    /// linear index, so following a pixel's address through the reverse
    /// map leads back to the pixel; slots that no pixel is wired to hold
    /// [`UNMAPPED`].
    #[verifier::loop_isolation(false)]
    pub fn invert(map: &AddrMap) -> (r: RevAddrMap)
        requires
            map.wf(),
        ensures
            r.wf(map.opt),
            forall|x: int, y: int|
                0 <= x < map.opt.width && 0 <= y < map.opt.height ==> r.offset@[#[trigger] map.opt.univer_at(
                    x,
                    y,
                )]@[map.opt.addr_at(x, y) / map.opt.pixel_size as int] == y * map.opt.width + x,
    {
        let opt = map.opt;
        let w = opt.width;
        let h = opt.height;
        let ps = opt.pixel_size;
        proof {
            lemma_n_univers_bound(opt);
            assert(opt.univer_width * opt.univer_height <= opt.univer_width * opt.univer_height
                * opt.pixel_size) by (nonlinear_arith)
                requires
                    opt.univer_width * opt.univer_height >= 0,
                    opt.pixel_size >= 1,
            ;
        }
        let nu = opt.tiles_per_row * opt.tiles_per_column;
        let slots = opt.univer_width * opt.univer_height;
        let mut offset: Vec<Vec<usize>> = Vec::new();
        let mut u: usize = 0;
        while u < nu
            invariant
                u <= nu,
                offset@.len() == u,
                forall|i: int| 0 <= i < u ==> (#[trigger] offset@[i])@.len() == slots,
                forall|i: int, s: int|
                    0 <= i < u && 0 <= s < slots ==> #[trigger] offset@[i]@[s] == UNMAPPED,
            decreases nu - u,
        {
            let mut row: Vec<usize> = Vec::new();
            let mut s: usize = 0;
            while s < slots
                invariant
                    s <= slots,
                    row@.len() == s,
                    forall|j: int| 0 <= j < s ==> #[trigger] row@[j] == UNMAPPED,
                decreases slots - s,
            {
                row.push(UNMAPPED);
                s = s + 1;
            }
            offset.push(row);
            u = u + 1;
        }
        let mut x: usize = 0;
        while x < w
            invariant
                x <= w,
                offset@.len() == nu,
                forall|i: int| 0 <= i < nu ==> (#[trigger] offset@[i])@.len() == slots,
                forall|i: int, s: int|
                    0 <= i < nu && 0 <= s < slots ==> #[trigger] offset@[i]@[s] == rev_entry_partial(
                        opt,
                        i,
                        s,
                        x as int,
                        0,
                    ),
            decreases w - x,
        {
            let mut y: usize = 0;
            while y < h
                invariant
                    x < w,
                    y <= h,
                    offset@.len() == nu,
                    forall|i: int| 0 <= i < nu ==> (#[trigger] offset@[i])@.len() == slots,
                    forall|i: int, s: int|
                        0 <= i < nu && 0 <= s < slots ==> #[trigger] offset@[i]@[s]
                            == rev_entry_partial(opt, i, s, x as int, y as int),
                decreases h - y,
            {
                proof {
                    lemma_addr_at_bounds(opt, x as int, y as int);
                    lemma_pixel_round_trip(opt, x as int, y as int);
                    assert(y * w + x < w * h) by (nonlinear_arith)
                        requires
                            0 <= x < w,
                            0 <= y < h,
                            1 <= w,
                    ;
                }
                let a = map.addr[x][y];
                let slot = a.address / ps;
                let ghost before = offset@;
                offset[a.univer][slot] = y * w + x;
                proof {
                    assert forall|i: int, s: int| 0 <= i < nu && 0 <= s < slots implies #[trigger] offset@[i]@[s]
                        == rev_entry_partial(opt, i, s, x as int, y + 1) by {
                        lemma_slot_round_trip(opt, i, s);
                        if i == a.univer && s == slot {
                        } else {
                            assert(offset@[i]@[s] == before[i]@[s]);
                        }
                    }
                }
                y = y + 1;
            }
            x = x + 1;
        }
        proof {
            assert forall|i: int, s: int| 0 <= i < nu && 0 <= s < slots implies #[trigger] offset@[i]@[s]
                == spec_rev_entry(opt, i, s) by {
                lemma_slot_round_trip(opt, i, s);
            }
            assert forall|x: int, y: int| 0 <= x < w && 0 <= y < h implies offset@[#[trigger] opt.univer_at(
                x,
                y,
            )]@[opt.addr_at(x, y) / opt.pixel_size as int] == y * opt.width + x by {
                lemma_addr_at_bounds(opt, x, y);
                lemma_pixel_round_trip(opt, x, y);
            }
        }
        RevAddrMap { offset }
    }
}

/// The reverse-map entry for `(u, s)` while pixels are still being
/// filled in: pixels before `(px, py)` in column-major fill order have
/// been recorded, all other slots still hold [`UNMAPPED`].
pub open spec fn rev_entry_partial(opt: MappingOptExt, u: int, s: int, x: int, y: int) -> int {
    let px = opt.pixel_of(u, s).0;
    let py = opt.pixel_of(u, s).1;
    if 0 <= px < opt.width && 0 <= py < opt.height && (px < x || (px == x && py < y)) {
        py * opt.width + px
    } else {
        UNMAPPED as int
    }
}

} // verus!
