//! Byte-level checks of the emitted APNG stream: chunk framing, CRCs,
//! sequence numbering, filter round trips, and decoding with a real
//! PNG decoder.

use std::io::Read;
use image::AnimationDecoder;

use apng_encoder::apng::encoder::{Encoder, Filter};
use apng_encoder::apng::errors::ApngError;
use apng_encoder::apng::{Color, Delay, Frame, Meta};

const SIGNATURE: [u8; 8] = [0x89, 0x50, 0x4e, 0x47, 0x0d, 0x0a, 0x1a, 0x0a];

/// An independent PNG CRC-32: ISO-3309 polynomial, reflected, initial
/// and final value `0xFFFFFFFF`, computed bit by bit.
fn reference_crc32(data: &[u8]) -> u32 {
    let mut crc: u32 = 0xffff_ffff;
    for &byte in data {
        crc ^= byte as u32;
        for _ in 0..8 {
            if crc & 1 != 0 {
                crc = (crc >> 1) ^ 0xedb8_8320;
            } else {
                crc >>= 1;
            }
        }
    }
    crc ^ 0xffff_ffff
}

struct Chunk {
    ctype: [u8; 4],
    data: Vec<u8>,
}

/// Splits a finished stream into chunks, checking the signature and
/// every chunk's CRC against the independent implementation.
fn parse_chunks(stream: &[u8]) -> Vec<Chunk> {
    assert_eq!(&stream[0..8], &SIGNATURE);
    let mut pos = 8;
    let mut chunks = vec![];
    while pos < stream.len() {
        let len = u32::from_be_bytes(stream[pos..pos + 4].try_into().unwrap()) as usize;
        let ctype: [u8; 4] = stream[pos + 4..pos + 8].try_into().unwrap();
        let data = stream[pos + 8..pos + 8 + len].to_vec();
        let crc = u32::from_be_bytes(stream[pos + 8 + len..pos + 12 + len].try_into().unwrap());
        let mut type_and_data = ctype.to_vec();
        type_and_data.extend_from_slice(&data);
        assert_eq!(crc, reference_crc32(&type_and_data), "CRC mismatch in {:?}", ctype);
        chunks.push(Chunk { ctype, data });
        pos += 12 + len;
    }
    chunks
}

fn chunk_names(chunks: &[Chunk]) -> Vec<String> {
    chunks.iter().map(|c| String::from_utf8(c.ctype.to_vec()).unwrap()).collect()
}

/// The sequence numbers embedded in `fcTL` and `fdAT` chunks, in order.
fn sequence_numbers(chunks: &[Chunk]) -> Vec<u32> {
    chunks
        .iter()
        .filter(|c| &c.ctype == b"fcTL" || &c.ctype == b"fdAT")
        .map(|c| u32::from_be_bytes(c.data[0..4].try_into().unwrap()))
        .collect()
}

fn inflate(data: &[u8]) -> Vec<u8> {
    let mut out = vec![];
    flate2::read::ZlibDecoder::new(data).read_to_end(&mut out).unwrap();
    out
}

/// The PNG reconstruction: undoes any of the five filters, scanline by
/// scanline, using the tag byte before each line.
fn unfilter(filtered: &[u8], stride: usize, bpp: usize) -> Vec<u8> {
    let mut out: Vec<u8> = vec![];
    let rows = filtered.len() / (stride + 1);
    assert_eq!(filtered.len(), rows * (stride + 1));
    for k in 0..rows {
        let tag = filtered[k * (stride + 1)];
        let line = &filtered[k * (stride + 1) + 1..(k + 1) * (stride + 1)];
        let row_base = k * stride;
        for i in 0..stride {
            let a = if i >= bpp { out[row_base + i - bpp] } else { 0 };
            let b = if k > 0 { out[row_base - stride + i] } else { 0 };
            let c = if k > 0 && i >= bpp { out[row_base - stride + i - bpp] } else { 0 };
            let x = line[i];
            let value = match tag {
                0 => x,
                1 => x.wrapping_add(a),
                2 => x.wrapping_add(b),
                3 => x.wrapping_add(((a as u16 + b as u16) / 2) as u8),
                4 => {
                    let p = a as i16 + b as i16 - c as i16;
                    let da = (p - a as i16).abs();
                    let db = (p - b as i16).abs();
                    let dc = (p - c as i16).abs();
                    let predictor = if da <= db && da <= dc {
                        a
                    } else if db <= dc {
                        b
                    } else {
                        c
                    };
                    x.wrapping_add(predictor)
                },
                _ => panic!("unknown filter tag {}", tag),
            };
            out.push(value);
        }
    }
    out
}

fn four_rgb_frames() -> Vec<Vec<u8>> {
    vec![
        // RED   GREEN / BLACK BLUE
        vec![0xFF, 0x00, 0x00, 0x00, 0xFF, 0x00, 0x00, 0x00, 0x00, 0x00, 0x00, 0xFF],
        // BLACK RED / BLUE  GREEN
        vec![0x00, 0x00, 0x00, 0xFF, 0x00, 0x00, 0x00, 0x00, 0xFF, 0x00, 0xFF, 0x00],
        // BLUE  BLACK / GREEN RED
        vec![0x00, 0x00, 0xFF, 0x00, 0x00, 0x00, 0x00, 0xFF, 0x00, 0xFF, 0x00, 0x00],
        // GREEN BLUE / RED   BLACK
        vec![0x00, 0xFF, 0x00, 0x00, 0x00, 0xFF, 0xFF, 0x00, 0x00, 0x00, 0x00, 0x00],
    ]
}

/// 2x2 RGB, 4 frames, delay 1/2 s, infinite loop, no separate default
/// image: the whole wire format, chunk by chunk.
#[test]
fn test_two_by_two_four_frames_stream() {
    let meta = Meta { width: 2, height: 2, color: Color::RGB(8), frames: 4, plays: None };
    let frame = Frame { delay: Some(Delay::new(1, 2)), ..Default::default() };
    let sources = four_rgb_frames();
    let mut encoder = Encoder::create(meta).unwrap();
    for source in &sources {
        encoder.write_frame(source, Some(&frame), None, None).unwrap();
    }
    let bytes = encoder.finish().unwrap();

    let chunks = parse_chunks(&bytes);
    assert_eq!(
        chunk_names(&chunks),
        vec!["IHDR", "acTL", "fcTL", "IDAT", "fcTL", "fdAT", "fcTL", "fdAT", "fcTL", "fdAT", "IEND"],
    );
    // IHDR(2,2,8,2,0,0,0)
    assert_eq!(chunks[0].data, vec![0, 0, 0, 2, 0, 0, 0, 2, 8, 2, 0, 0, 0]);
    // acTL(4, 0): four frames, infinite loop
    assert_eq!(chunks[1].data, vec![0, 0, 0, 4, 0, 0, 0, 0]);
    // fcTL(seq=0, 2,2,0,0, 1,2, 0,0)
    assert_eq!(
        chunks[2].data,
        vec![0, 0, 0, 0, 0, 0, 0, 2, 0, 0, 0, 2, 0, 0, 0, 0, 0, 0, 0, 0, 0, 1, 0, 2, 0, 0],
    );
    // Sequence numbers are exactly 0..=6.
    assert_eq!(sequence_numbers(&chunks), vec![0, 1, 2, 3, 4, 5, 6]);
    // Every frame's pixels survive the zlib and filter round trip.
    let decoded0 = unfilter(&inflate(&chunks[3].data), 6, 3);
    assert_eq!(decoded0, sources[0]);
    for (i, chunk_index) in [5usize, 7, 9].iter().enumerate() {
        let payload = &chunks[*chunk_index].data[4..];
        let decoded = unfilter(&inflate(payload), 6, 3);
        assert_eq!(decoded, sources[i + 1]);
    }
    // IEND is empty and its CRC is the published constant.
    assert_eq!(chunks[10].data.len(), 0);
    let tail: [u8; 12] = bytes[bytes.len() - 12..].try_into().unwrap();
    assert_eq!(tail, [0, 0, 0, 0, 0x49, 0x45, 0x4e, 0x44, 0xae, 0x42, 0x60, 0x82]);
}

/// frames=3 with a separate default image: exactly one IDAT first, then
/// three fcTL/fdAT pairs with sequences 0..=5.
#[test]
fn test_default_image_then_frames_stream() {
    let meta = Meta { width: 2, height: 2, color: Color::RGB(8), frames: 3, plays: None };
    let sources = four_rgb_frames();
    let mut encoder = Encoder::create(meta).unwrap();
    encoder.write_default_image(&sources[0], None, None).unwrap();
    for source in &sources[1..4] {
        encoder.write_frame(source, None, None, None).unwrap();
    }
    let bytes = encoder.finish().unwrap();

    let chunks = parse_chunks(&bytes);
    assert_eq!(
        chunk_names(&chunks),
        vec!["IHDR", "acTL", "IDAT", "fcTL", "fdAT", "fcTL", "fdAT", "fcTL", "fdAT", "IEND"],
    );
    assert_eq!(sequence_numbers(&chunks), vec![0, 1, 2, 3, 4, 5]);
    // The default image has no sequence number and decodes back.
    let decoded = unfilter(&inflate(&chunks[2].data), 6, 3);
    assert_eq!(decoded, sources[0]);
}

/// A frame with x=1 after a prior full-canvas frame, with a buffer sized
/// for the full canvas, is rejected as too large, and the rejected call
/// writes nothing.
#[test]
fn test_bad_rectangle_writes_nothing() {
    let meta = Meta { width: 2, height: 2, color: Color::RGB(8), frames: 2, plays: None };
    let sources = four_rgb_frames();
    let mut encoder = Encoder::create(meta).unwrap();
    encoder.write_frame(&sources[0], None, None, None).unwrap();
    let length_before = encoder.written().len();
    let frame = Frame { x: Some(1), ..Default::default() };
    let result = encoder.write_frame(&sources[1], Some(&frame), None, None);
    assert_eq!(result, Err(ApngError::TooLargeImage));
    assert_eq!(encoder.written().len(), length_before);
}

/// A second write past the declared frame count reports the declared and
/// attempted counts and writes nothing.
#[test]
fn test_too_many_frames_writes_nothing() {
    let meta = Meta { width: 2, height: 2, color: Color::RGB(8), frames: 1, plays: None };
    let sources = four_rgb_frames();
    let mut encoder = Encoder::create(meta).unwrap();
    encoder.write_frame(&sources[0], None, None, None).unwrap();
    let length_before = encoder.written().len();
    let result = encoder.write_frame(&sources[1], None, None, None);
    assert_eq!(result, Err(ApngError::TooManyFrames(1, 2)));
    assert_eq!(encoder.written().len(), length_before);
}

/// `finish` before all declared frames reports the declared and actual
/// counts.
#[test]
fn test_not_enough_frames_value() {
    let meta = Meta { width: 2, height: 2, color: Color::RGB(8), frames: 2, plays: None };
    let sources = four_rgb_frames();
    let mut encoder = Encoder::create(meta).unwrap();
    encoder.write_frame(&sources[0], None, None, None).unwrap();
    assert_eq!(encoder.finish(), Err(ApngError::NotEnoughFrames(2, 1)));
}

/// An illegal color is rejected at construction.
#[test]
fn test_invalid_color_value() {
    let meta = Meta { width: 2, height: 2, color: Color::RGB(17), frames: 2, plays: None };
    assert!(matches!(Encoder::create(meta), Err(ApngError::InvalidColor)));
    let gray = Meta { width: 2, height: 2, color: Color::Grayscale(3), frames: 1, plays: None };
    assert!(matches!(Encoder::create(gray), Err(ApngError::InvalidColor)));
}

/// A buffer of exactly `height * row_stride` bytes is accepted; smaller
/// is too small; complete rows past the rectangle bottom are too large.
#[test]
fn test_rectangle_bounds_sizes() {
    let meta = Meta { width: 2, height: 2, color: Color::RGB(8), frames: 1, plays: None };
    // Exact size: accepted.
    let mut encoder = Encoder::create(meta.clone()).unwrap();
    assert!(encoder.write_frame(&[0u8; 12], None, None, None).is_ok());
    // One byte short: too small.
    let mut encoder = Encoder::create(meta.clone()).unwrap();
    assert_eq!(
        encoder.write_frame(&[0u8; 11], None, None, None),
        Err(ApngError::TooSmallImage),
    );
    // A full extra row beyond the bottom edge: too large.
    let mut encoder = Encoder::create(meta).unwrap();
    assert_eq!(
        encoder.write_frame(&[0u8; 18], None, None, None),
        Err(ApngError::TooLargeImage),
    );
}

/// A 1x1 image with each legal color variant, including every 16-bit
/// variant and the sub-byte grayscale depths.
#[test]
fn test_one_by_one_each_color() {
    let cases: Vec<(Color, usize)> = vec![
        (Color::Grayscale(1), 1),
        (Color::Grayscale(2), 1),
        (Color::Grayscale(4), 1),
        (Color::Grayscale(8), 1),
        (Color::Grayscale(16), 2),
        (Color::GrayscaleA(8), 2),
        (Color::GrayscaleA(16), 4),
        (Color::RGB(8), 3),
        (Color::RGB(16), 6),
        (Color::RGBA(8), 4),
        (Color::RGBA(16), 8),
    ];
    for (color, pixel_bytes) in cases {
        let meta = Meta { width: 1, height: 1, color, frames: 1, plays: None };
        let buffer = vec![0x5a; pixel_bytes];
        let mut encoder = Encoder::create(meta).unwrap();
        encoder.write_frame(&buffer, None, None, None).unwrap();
        let bytes = encoder.finish().unwrap();
        let chunks = parse_chunks(&bytes);
        assert_eq!(chunk_names(&chunks), vec!["IHDR", "acTL", "fcTL", "IDAT", "IEND"]);
        let decoded = unfilter(&inflate(&chunks[3].data), pixel_bytes, pixel_bytes);
        assert_eq!(decoded, buffer);
    }
}

/// Sequence numbering at small frame counts: 1, 4 and 10 frames leave
/// no gaps and no repeats.
#[test]
fn test_sequence_numbers_small_counts() {
    for frames in [1u32, 4, 10] {
        let meta = Meta { width: 2, height: 2, color: Color::Grayscale(8), frames, plays: None };
        let mut encoder = Encoder::create(meta).unwrap();
        for i in 0..frames {
            let buffer = vec![i as u8; 4];
            encoder.write_frame(&buffer, None, None, None).unwrap();
        }
        let bytes = encoder.finish().unwrap();
        let chunks = parse_chunks(&bytes);
        let expected: Vec<u32> = (0..2 * frames - 1).collect();
        assert_eq!(sequence_numbers(&chunks), expected);
        let control_count = chunks.iter().filter(|c| &c.ctype == b"fcTL").count();
        assert_eq!(control_count, frames as usize);
        let image_data_count = chunks.iter().filter(|c| &c.ctype == b"IDAT").count();
        assert_eq!(image_data_count, 1);
    }
}

/// Each of the five filters is undone exactly by the PNG reconstruction,
/// including the top row and the leftmost pixel bytes.
#[test]
fn test_filter_round_trip_concrete() {
    let data: Vec<u8> = vec![
        10, 200, 30, 255, 0, 127, //
        90, 80, 70, 1, 2, 3, //
        0, 255, 0, 255, 0, 255,
    ];
    for filter in [Filter::NoFilter, Filter::Sub, Filter::Up, Filter::Average, Filter::Paeth] {
        let filtered = filter.apply(&data, 6, 3);
        assert_eq!(filtered.len(), 3 * 7);
        assert_eq!(unfilter(&filtered, 6, 3), data, "{:?}", filter);
    }
}

/// The filtered stream of the identity filter is each row prefixed with
/// a zero tag; Sub really subtracts the left neighbor.
#[test]
fn test_filter_bytes_exact() {
    let data: Vec<u8> = vec![1, 2, 3, 4, 5, 6];
    let plain = Filter::NoFilter.apply(&data, 3, 1);
    assert_eq!(plain, vec![0, 1, 2, 3, 0, 4, 5, 6]);
    let sub = Filter::Sub.apply(&data, 3, 1);
    assert_eq!(sub, vec![1, 1, 1, 1, 1, 4, 1, 1]);
    let up = Filter::Up.apply(&data, 3, 1);
    assert_eq!(up, vec![2, 1, 2, 3, 2, 3, 3, 3]);
}

/// An image taller than fifty lines exercises the sampled filter
/// inference and still decodes back exactly.
#[test]
fn test_inferred_filter_tall_image() {
    let width = 4u32;
    let height = 60u32;
    let meta = Meta { width, height, color: Color::Grayscale(8), frames: 1, plays: None };
    let buffer: Vec<u8> = (0..width * height).map(|i| (i % 251) as u8).collect();
    let mut encoder = Encoder::create(meta).unwrap();
    encoder.write_frame(&buffer, None, None, None).unwrap();
    let bytes = encoder.finish().unwrap();
    let chunks = parse_chunks(&bytes);
    let decoded = unfilter(&inflate(&chunks[3].data), width as usize, 1);
    assert_eq!(decoded, buffer);
}

/// A stream produced by the encoder is accepted by a conformant PNG
/// decoder, which hands the default image's pixels back.
#[test]
fn test_decoder_round_trip_default_image() {
    let meta = Meta { width: 2, height: 2, color: Color::RGB(8), frames: 4, plays: None };
    let frame = Frame { delay: Some(Delay::new(1, 2)), ..Default::default() };
    let sources = four_rgb_frames();
    let mut encoder = Encoder::create(meta).unwrap();
    for source in &sources {
        encoder.write_frame(source, Some(&frame), None, None).unwrap();
    }
    let bytes = encoder.finish().unwrap();
    let decoded = image::load_from_memory(&bytes).unwrap().to_rgb8();
    assert_eq!(decoded.width(), 2);
    assert_eq!(decoded.height(), 2);
    assert_eq!(decoded.into_raw(), sources[0]);
}

/// A conformant APNG decoder yields back every frame's pixel data.
#[test]
fn test_decoder_round_trip_all_frames() {
    let meta = Meta { width: 2, height: 2, color: Color::RGB(8), frames: 4, plays: None };
    let frame = Frame { delay: Some(Delay::new(1, 2)), ..Default::default() };
    let sources = four_rgb_frames();
    let mut encoder = Encoder::create(meta).unwrap();
    for source in &sources {
        encoder.write_frame(source, Some(&frame), None, None).unwrap();
    }
    let bytes = encoder.finish().unwrap();

    let cursor = std::io::Cursor::new(bytes);
    let decoder = image::codecs::png::PngDecoder::new(cursor).unwrap().apng().unwrap();
    let frames = decoder.into_frames().collect_frames().unwrap();
    assert_eq!(frames.len(), 4);
    for (decoded, source) in frames.iter().zip(&sources) {
        let rgba = decoded.buffer();
        assert_eq!(rgba.width(), 2);
        assert_eq!(rgba.height(), 2);
        let rgb: Vec<u8> = rgba
            .pixels()
            .flat_map(|p| [p.0[0], p.0[1], p.0[2]])
            .collect();
        assert_eq!(&rgb, source);
    }
}
