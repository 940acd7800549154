//! Tests of the frame encoder, the raw packet helper and the screen.

use glola::client::{DXMPacket, RGBW};
use glola::encoder::artnet::ArtnetEncoder;
use glola::encoder::Encoder;
use glola::init_arnet_screen;
use glola::matrix::{AddrMap, MappingOptExt};
use glola::options::{ColorMode, Direction, Displacement, MappingOpt, Orientation};
use glola::GError;

fn small_opt() -> MappingOpt {
    // 4x4 RGBA matrix, 16-byte universes of two rows: four 2x2 tiles.
    MappingOpt {
        dmx_size: 16,
        width: 4,
        height: 4,
        univer_height: 2,
        color_mode: ColorMode::RGBA,
        displacement: Displacement::Raster,
        direction: Direction::Vertical,
        orientation: Orientation::TopLeft,
    }
}

/// A buffer in which pixel `(x, y)` holds the bytes
/// `4 * (y * width + x) + 0..4`, so every byte is identifiable.
fn counting_buffer(len: usize) -> Vec<u8> {
    (0..len).map(|i| i as u8).collect()
}

#[test]
fn artdmx_header_fields() {
    let ext = MappingOptExt::resolve(small_opt()).unwrap();
    let enc = ArtnetEncoder::new(ext);
    assert_eq!(enc.univers.len(), 4);
    for (u, frame) in enc.univers.iter().enumerate() {
        assert_eq!(frame.id, *b"Art-Net\0");
        assert_eq!(frame.op_code, 0x5000);
        assert_eq!(frame.proto_ver, [0, 14]);
        assert_eq!(frame.sequence, 0);
        assert_eq!(frame.physical, 0);
        assert_eq!(frame.sub_uni, u as u8);
        assert_eq!(frame.net, 0);
        assert_eq!(frame.length, 16);
        assert_eq!(frame.data.len(), 16);
        assert!(frame.data.iter().all(|&b| b == 0));
    }
}

#[test]
fn encode_places_pixel_bytes() {
    let ext = MappingOptExt::resolve(small_opt()).unwrap();
    let map = AddrMap::from_mapping(ext);
    let mut enc = ArtnetEncoder::new(ext);
    let buffer = counting_buffer(64);
    enc.encode(&map, &buffer).unwrap();
    // Universe 0 covers columns 0..2, rows 0..2; its strips run
    // column-major, so its payload is the pixels (0,0), (0,1), (1,0),
    // (1,1) in order.
    let by_pixel = |x: usize, y: usize| (4 * (y * 4 + x)) as u8;
    let u0 = &enc.univers[0].data;
    assert_eq!(u0[0], by_pixel(0, 0));
    assert_eq!(u0[3], by_pixel(0, 0) + 3);
    assert_eq!(u0[4], by_pixel(0, 1));
    assert_eq!(u0[8], by_pixel(1, 0));
    assert_eq!(u0[12], by_pixel(1, 1));
    // Universe 1 is the tile to the right, universe 2 the tile below.
    assert_eq!(enc.univers[1].data[0], by_pixel(2, 0));
    assert_eq!(enc.univers[2].data[0], by_pixel(0, 2));
    assert_eq!(enc.univers[3].data[0], by_pixel(2, 2));
}

#[test]
fn encode_rejects_short_buffer() {
    let ext = MappingOptExt::resolve(small_opt()).unwrap();
    let map = AddrMap::from_mapping(ext);
    let mut enc = ArtnetEncoder::new(ext);
    // One byte short of width * height * pixel_size.
    let buffer = counting_buffer(63);
    assert_eq!(enc.encode(&map, &buffer), Err(GError::BufferSizeMismatch));
    // The frames are left untouched.
    assert!(enc.univers.iter().all(|f| f.data.iter().all(|&b| b == 0)));
}

#[test]
fn encode_is_idempotent() {
    let ext = MappingOptExt::resolve(small_opt()).unwrap();
    let map = AddrMap::from_mapping(ext);
    let mut enc = ArtnetEncoder::new(ext);
    let buffer = counting_buffer(64);
    enc.encode(&map, &buffer).unwrap();
    let first: Vec<Vec<u8>> = enc.univers.iter().map(|f| f.data.clone()).collect();
    enc.encode(&map, &buffer).unwrap();
    let second: Vec<Vec<u8>> = enc.univers.iter().map(|f| f.data.clone()).collect();
    assert_eq!(first, second);
}

#[test]
fn encode_with_truncated_tail_tile() {
    // Height 10 with 3-row universes: the fourth tile drives only one
    // row; encoding fills its one wired pixel and leaves the rest zero.
    let opt = MappingOpt {
        dmx_size: 512,
        width: 1,
        height: 10,
        univer_height: 3,
        color_mode: ColorMode::RGB,
        displacement: Displacement::Raster,
        direction: Direction::Vertical,
        orientation: Orientation::TopLeft,
    };
    let ext = MappingOptExt::resolve(opt).unwrap();
    let map = AddrMap::from_mapping(ext);
    let mut enc = ArtnetEncoder::new(ext);
    let buffer = counting_buffer(30);
    enc.encode(&map, &buffer).unwrap();
    // Row 9 is pixel index 9, bytes 27, 28, 29.
    assert_eq!(&enc.univers[3].data[0..3], &[27, 28, 29]);
    assert!(enc.univers[3].data[3..].iter().all(|&b| b == 0));
}

#[test]
fn screen_apply_end_to_end() {
    let mut screen = init_arnet_screen(small_opt()).unwrap();
    let buffer = counting_buffer(64);
    let fps = screen.apply(&buffer).unwrap();
    // The rate counter has seen exactly one frame so far.
    assert_eq!(fps, 1);
    let frames = screen.frames();
    assert_eq!(frames.len(), 4);
    assert_eq!(frames[0].data[0], 0);
    assert_eq!(frames[1].data[0], 8);
    assert_eq!(frames[2].data[0], 32);
    assert_eq!(frames[3].data[0], 40);
}

#[test]
fn screen_apply_rejects_mismatched_buffer() {
    let mut screen = init_arnet_screen(small_opt()).unwrap();
    let buffer = counting_buffer(65);
    assert_eq!(screen.apply(&buffer), Err(GError::BufferSizeMismatch));
}

#[test]
fn init_arnet_screen_rejects_bad_geometry() {
    let mut opt = small_opt();
    opt.height = 0;
    assert!(matches!(init_arnet_screen(opt), Err(GError::ZeroDimension)));
    let mut opt = small_opt();
    opt.univer_height = 5;
    // Five RGBA rows need 20 bytes and cannot fit a 16-byte universe.
    assert!(matches!(init_arnet_screen(opt), Err(GError::TileTooLarge)));
}

#[test]
fn set_pixel_writes_four_channels() {
    let mut packet = DXMPacket(vec![0; 16]);
    packet.set_pixel(1, RGBW { red: 1, green: 2, blue: 3, white: 4 });
    assert_eq!(packet.0, vec![0, 0, 0, 0, 1, 2, 3, 4, 0, 0, 0, 0, 0, 0, 0, 0]);
}
