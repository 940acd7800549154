//! Tests of geometry resolution, the address table and its inverse.

use glola::matrix::{AddrMap, MappingOptExt, RevAddrMap, UNMAPPED};
use glola::options::{ColorMode, Direction, Displacement, MappingOpt, Orientation};
use glola::GError;

fn opt(
    dmx_size: usize,
    width: usize,
    height: usize,
    univer_height: usize,
    color_mode: ColorMode,
    displacement: Displacement,
    orientation: Orientation,
) -> MappingOpt {
    MappingOpt {
        dmx_size,
        width,
        height,
        univer_height,
        color_mode,
        displacement,
        direction: Direction::Vertical,
        orientation,
    }
}

#[test]
fn resolve_end_to_end_geometry() {
    // 4x4 RGBA matrix, 16-byte universes of two rows: tiles are 2 pixels
    // wide, four universes cover the matrix.
    let ext = MappingOptExt::resolve(opt(
        16,
        4,
        4,
        2,
        ColorMode::RGBA,
        Displacement::Raster,
        Orientation::TopLeft,
    ))
    .unwrap();
    assert_eq!(ext.pixel_size, 4);
    assert_eq!(ext.univer_width, 2);
    assert_eq!(ext.tiles_per_row, 2);
    assert_eq!(ext.tiles_per_column, 2);
}

#[test]
fn resolve_rejects_zero_dimension() {
    let r = MappingOptExt::resolve(opt(
        512,
        0,
        4,
        2,
        ColorMode::RGB,
        Displacement::Raster,
        Orientation::TopLeft,
    ));
    assert_eq!(r, Err(GError::ZeroDimension));
    let r = MappingOptExt::resolve(opt(
        512,
        4,
        4,
        0,
        ColorMode::RGB,
        Displacement::Raster,
        Orientation::TopLeft,
    ));
    assert_eq!(r, Err(GError::ZeroDimension));
}

#[test]
fn resolve_rejects_oversized_tile() {
    // One pixel column of 200 RGB pixels needs 600 channels and cannot
    // fit a 512-byte universe.
    let r = MappingOptExt::resolve(opt(
        512,
        4,
        400,
        200,
        ColorMode::RGB,
        Displacement::Raster,
        Orientation::TopLeft,
    ));
    assert_eq!(r, Err(GError::TileTooLarge));
}

#[test]
fn resolve_reports_tail_advisory() {
    let uneven = MappingOptExt::resolve(opt(
        512,
        1,
        10,
        3,
        ColorMode::RGB,
        Displacement::Raster,
        Orientation::TopLeft,
    ))
    .unwrap();
    assert!(uneven.tail_advisory());
    let even = MappingOptExt::resolve(opt(
        512,
        1,
        9,
        3,
        ColorMode::RGB,
        Displacement::Raster,
        Orientation::TopLeft,
    ))
    .unwrap();
    assert!(!even.tail_advisory());
}

#[test]
fn end_to_end_addresses() {
    // The end-to-end scenario: 4x4 RGBA, 16-byte universes, raster,
    // top-left.  Within a tile the strips run column-major, so the pixel
    // below the origin sits one pixel (4 channels) further on.
    let ext = MappingOptExt::resolve(opt(
        16,
        4,
        4,
        2,
        ColorMode::RGBA,
        Displacement::Raster,
        Orientation::TopLeft,
    ))
    .unwrap();
    assert_eq!(ext.univer_width, 2);
    assert_eq!(ext.tiles_per_row * ext.tiles_per_column, 4);
    let map = AddrMap::from_mapping(ext);
    let a = map.address_at(0, 0);
    assert_eq!((a.univer, a.address), (0, 0));
    let a = map.address_at(0, 1);
    assert_eq!((a.univer, a.address), (0, 4));
}

#[test]
fn tiling_is_row_major_over_tiles() {
    let ext = MappingOptExt::resolve(opt(
        16,
        4,
        4,
        2,
        ColorMode::RGBA,
        Displacement::Raster,
        Orientation::TopLeft,
    ))
    .unwrap();
    let map = AddrMap::from_mapping(ext);
    assert_eq!(map.address_at(2, 0).univer, 1);
    assert_eq!(map.address_at(2, 0).address, 0);
    assert_eq!(map.address_at(0, 2).univer, 2);
    assert_eq!(map.address_at(0, 2).address, 0);
    assert_eq!(map.address_at(2, 2).univer, 3);
    assert_eq!(map.address_at(3, 3).univer, 3);
}

#[test]
fn address_map_covers_every_pixel_within_budget() {
    // A geometry with a truncated last row of tiles: every pixel still
    // gets an address, and every address leaves room for a whole pixel
    // within the channel budget.
    let ext = MappingOptExt::resolve(opt(
        64,
        5,
        10,
        3,
        ColorMode::RGB,
        Displacement::Snake,
        Orientation::BottomLeft,
    ))
    .unwrap();
    let map = AddrMap::from_mapping(ext);
    let n_univers = ext.tiles_per_row * ext.tiles_per_column;
    assert_eq!(map.addr.len(), 5);
    for x in 0..5 {
        assert_eq!(map.addr[x].len(), 10);
        for y in 0..10 {
            let a = map.address_at(x, y);
            assert!(a.univer < n_univers);
            assert!(a.address + ext.pixel_size <= ext.dmx_size);
        }
    }
}

#[test]
fn snake_single_tile_column_order() {
    // One 2-wide, 4-tall snake tile, top-left start: strip 0 runs top to
    // bottom through slots 0..=3, strip 1 runs bottom to top, so slots
    // 4..=7 land on rows 3, 2, 1, 0.
    let ext = MappingOptExt::resolve(opt(
        24,
        2,
        4,
        4,
        ColorMode::RGB,
        Displacement::Snake,
        Orientation::TopLeft,
    ))
    .unwrap();
    assert_eq!(ext.univer_width, 2);
    assert_eq!(ext.tiles_per_row * ext.tiles_per_column, 1);
    let map = AddrMap::from_mapping(ext);
    for y in 0..4 {
        assert_eq!(map.address_at(0, y).address, y * 3);
        assert_eq!(map.address_at(1, y).address, (7 - y) * 3);
    }
}

#[test]
fn raster_single_tile_column_order() {
    // The same tile wired raster: both strips run top to bottom.
    let ext = MappingOptExt::resolve(opt(
        24,
        2,
        4,
        4,
        ColorMode::RGB,
        Displacement::Raster,
        Orientation::TopLeft,
    ))
    .unwrap();
    let map = AddrMap::from_mapping(ext);
    for y in 0..4 {
        assert_eq!(map.address_at(0, y).address, y * 3);
        assert_eq!(map.address_at(1, y).address, (4 + y) * 3);
    }
}

#[test]
fn start_corner_transforms() {
    // A single 2x2 RGBA tile under each start corner.  Raster wiring, so
    // the base slots are (x, y) -> y + 2 * x, and each corner transform
    // permutes them.
    let cases = [
        (Orientation::TopLeft, [[0usize, 1], [2, 3]]),
        (Orientation::TopRight, [[2, 3], [0, 1]]),
        (Orientation::BottomLeft, [[1, 0], [3, 2]]),
        (Orientation::BottomRight, [[3, 2], [1, 0]]),
    ];
    for (orientation, expected) in cases {
        let ext = MappingOptExt::resolve(opt(
            16,
            2,
            2,
            2,
            ColorMode::RGBA,
            Displacement::Raster,
            orientation,
        ))
        .unwrap();
        let map = AddrMap::from_mapping(ext);
        for x in 0..2 {
            for y in 0..2 {
                assert_eq!(map.address_at(x, y).address, expected[x][y] * 4);
            }
        }
    }
}

#[test]
fn reverse_map_round_trip() {
    // Following a pixel's address through the reverse map leads back to
    // the pixel's linear index, also with snake wiring and a truncated
    // last row of tiles.
    let ext = MappingOptExt::resolve(opt(
        64,
        5,
        10,
        3,
        ColorMode::RGB,
        Displacement::Snake,
        Orientation::TopLeft,
    ))
    .unwrap();
    let map = AddrMap::from_mapping(ext);
    let rev = RevAddrMap::invert(&map);
    for x in 0..5 {
        for y in 0..10 {
            let a = map.address_at(x, y);
            assert_eq!(rev.offset[a.univer][a.address / ext.pixel_size], y * 5 + x);
        }
    }
}

#[test]
fn boundary_tail_tile_is_truncated() {
    // Height 10 with 3-row universes needs four rows of tiles, not
    // three; the fourth tile drives only row 9, and its two unused slots
    // stay unmapped rather than erroring.
    let ext = MappingOptExt::resolve(opt(
        512,
        1,
        10,
        3,
        ColorMode::RGB,
        Displacement::Raster,
        Orientation::TopLeft,
    ))
    .unwrap();
    assert_eq!(ext.tiles_per_column, 4);
    let map = AddrMap::from_mapping(ext);
    let last = map.address_at(0, 9);
    assert_eq!(last.univer, 3);
    assert_eq!(last.address, 0);
    let rev = RevAddrMap::invert(&map);
    assert_eq!(rev.offset[3].len(), 3);
    assert_eq!(rev.offset[3][0], 9);
    assert_eq!(rev.offset[3][1], UNMAPPED);
    assert_eq!(rev.offset[3][2], UNMAPPED);
}

#[test]
fn univer_count_matches_tiling() {
    let ext = MappingOptExt::resolve(opt(
        16,
        4,
        4,
        2,
        ColorMode::RGBA,
        Displacement::Raster,
        Orientation::TopLeft,
    ))
    .unwrap();
    let map = AddrMap::from_mapping(ext);
    assert_eq!(map.univer_count(), 4);
}
