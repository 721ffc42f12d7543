use apng_encoder::apng::encoder::{Encoder, Filter};
use apng_encoder::apng::{Color, Delay, Frame, Meta};

const FOUR: [u8; 12] = [
    // (x=0,y=0)            (x=1,y=0)
    0xFF, 0x00, 0x00, 0x00, 0xFF, 0x00,
    // (x=0,y=1)            (x=1,y=1)
    0x00, 0x00, 0x00, 0x00, 0x00, 0xFF,
];

fn gradient_frame(width: usize, height: usize, seed: u8) -> Vec<u8> {
    let mut data = Vec::with_capacity(width * height * 3);
    for y in 0..height {
        for x in 0..width {
            data.push(((x * 3 + y + seed as usize) % 256) as u8);
            data.push(((x + y * 5 + seed as usize * 2) % 256) as u8);
            data.push(((x * x + y + seed as usize * 3) % 256) as u8);
        }
    }
    data
}

fn generate_png(sources: &[Vec<u8>], meta: Meta, filter: Option<Filter>) -> Vec<u8> {
    // Delay = 1/10 seconds
    let frame = Frame {
        delay: Some(Delay::new(1, 10)),
        ..Default::default()
    };
    let mut encoder = Encoder::create(meta).unwrap();
    for source in sources {
        encoder.write_frame(source, Some(&frame), filter, None).unwrap();
    }
    encoder.finish().unwrap()
}

fn test_generate_png(filter: Option<Filter>) -> Vec<u8> {
    let meta = Meta {
        width: 32,
        height: 32,
        color: Color::RGB(8),
        frames: 4,
        plays: None, // Infinite loop
    };
    let sources: Vec<Vec<u8>> = (0..4).map(|i| gradient_frame(32, 32, i * 40)).collect();
    let bytes = generate_png(&sources, meta, filter);
    assert_eq!(
        &bytes[0..8],
        &[0x89, 0x50, 0x4e, 0x47, 0x0d, 0x0a, 0x1a, 0x0a]
    );
    bytes
}

#[test]
#[should_panic(expected = "TooManyFrames(1, 2)")]
fn test_many_frames_validation() {
    let meta = Meta { width: 2, height: 2, color: Color::RGB(8), frames: 1, plays: None };
    let mut encoder = Encoder::create(meta).unwrap();
    encoder.write_frame(&FOUR, None, None, None).unwrap();
    encoder.write_frame(&FOUR, None, None, None).unwrap();
}

#[test]
#[should_panic(expected = "NotEnoughFrames(2, 1)")]
fn test_not_enough_frames_validation() {
    let meta = Meta { width: 2, height: 2, color: Color::RGB(8), frames: 2, plays: None };
    let mut encoder = Encoder::create(meta).unwrap();
    encoder.write_frame(&FOUR, None, None, None).unwrap();
    encoder.finish().unwrap();
}

#[test]
#[should_panic(expected = "TooLargeImage")]
fn test_too_large_validation() {
    let meta = Meta { width: 2, height: 2, color: Color::RGB(8), frames: 1, plays: None };
    let mut encoder = Encoder::create(meta).unwrap();
    let mut image_data = vec![];
    image_data.resize(1000, 0);
    encoder.write_frame(&image_data, None, None, None).unwrap();
}

#[test]
#[should_panic(expected = "TooSmallImage")]
fn test_too_small_validation() {
    let meta = Meta { width: 2, height: 2, color: Color::RGB(8), frames: 1, plays: None };
    let mut encoder = Encoder::create(meta).unwrap();
    encoder.write_frame(&[0x00], None, None, None).unwrap();
}

#[test]
#[should_panic(expected = "TooLargeImage")]
fn test_too_large_validation_with_offset_x() {
    let meta = Meta { width: 2, height: 2, color: Color::RGB(8), frames: 2, plays: None };
    let mut encoder = Encoder::create(meta).unwrap();
    let frame = Frame { x: Some(1), ..Default::default() };
    encoder.write_frame(&FOUR, None, None, None).unwrap();
    encoder.write_frame(&FOUR, Some(&frame), None, None).unwrap();
}

#[test]
#[should_panic(expected = "TooLargeImage")]
fn test_too_large_validation_with_offset_y() {
    let meta = Meta { width: 2, height: 2, color: Color::RGB(8), frames: 2, plays: None };
    let mut encoder = Encoder::create(meta).unwrap();
    let frame = Frame { y: Some(1), ..Default::default() };
    encoder.write_frame(&FOUR, None, None, None).unwrap();
    encoder.write_frame(&FOUR, Some(&frame), None, None).unwrap();
}

#[test]
#[should_panic(expected = "InvalidDefaultImageRectangle")]
fn test_default_image_offset_validation() {
    let meta = Meta { width: 2, height: 2, color: Color::RGB(8), frames: 1, plays: None };
    let mut encoder = Encoder::create(meta).unwrap();
    let frame = Frame { x: Some(1), ..Default::default() };
    encoder.write_frame(&FOUR, Some(&frame), None, None).unwrap();
}

#[test]
fn test_default_image_offset_validation_ok() {
    let meta = Meta { width: 2, height: 2, color: Color::RGB(8), frames: 1, plays: None };
    let mut encoder = Encoder::create(meta).unwrap();
    let frame = Frame { y: Some(0), ..Default::default() };
    encoder.write_frame(&FOUR, Some(&frame), None, None).unwrap();
}

#[test]
#[should_panic(expected = "InvalidDefaultImageRectangle")]
fn test_default_image_size_validation() {
    let meta = Meta { width: 2, height: 2, color: Color::RGB(8), frames: 1, plays: None };
    let mut encoder = Encoder::create(meta).unwrap();
    let frame = Frame { width: Some(1), ..Default::default() };
    encoder.write_frame(&FOUR, Some(&frame), None, None).unwrap();
}

#[test]
fn test_default_image_size_validation_ok() {
    let meta = Meta { width: 2, height: 2, color: Color::RGB(8), frames: 1, plays: None };
    let mut encoder = Encoder::create(meta).unwrap();
    let frame = Frame { height: Some(2), ..Default::default() };
    encoder.write_frame(&FOUR, Some(&frame), None, None).unwrap();
}

#[test]
#[should_panic(expected = "InvalidColor")]
fn test_color_validation() {
    let meta = Meta { width: 2, height: 2, color: Color::RGB(17), frames: 2, plays: None };
    let _ = Encoder::create(meta).unwrap();
}

#[test]
#[should_panic(expected = "DefaultImageNotAtFirst")]
fn test_default_image_position_validation() {
    let meta = Meta { width: 2, height: 2, color: Color::RGB(8), frames: 1, plays: None };
    let mut encoder = Encoder::create(meta).unwrap();
    encoder.write_frame(&FOUR, None, None, None).unwrap();
    encoder.write_default_image(&FOUR, None, None).unwrap();
}

#[test]
#[should_panic(expected = "MulitiDefaultImage")]
fn test_default_image_count_validation() {
    let meta = Meta { width: 2, height: 2, color: Color::RGB(8), frames: 1, plays: None };
    let mut encoder = Encoder::create(meta).unwrap();
    encoder.write_default_image(&FOUR, None, None).unwrap();
    encoder.write_default_image(&FOUR, None, None).unwrap();
}

#[test]
fn test_generate_png_without_filter() {
    test_generate_png(Some(Filter::NoFilter));
}

#[test]
fn test_generate_png_with_sub_filter() {
    test_generate_png(Some(Filter::Sub));
}

#[test]
fn test_generate_png_with_up_filter() {
    test_generate_png(Some(Filter::Up));
}

#[test]
fn test_generate_png_with_average_filter() {
    test_generate_png(Some(Filter::Average));
}

#[test]
fn test_generate_png_with_paeth_filter() {
    test_generate_png(Some(Filter::Paeth));
}

#[test]
fn test_generate_png_with_inferred_filter() {
    test_generate_png(None);
}

#[test]
fn test_generate_offset() {
    const WIDTH: u32 = 200;
    const HEIGHT: u32 = 100;

    let frames = 5;
    let meta = Meta {
        width: WIDTH,
        height: HEIGHT,
        color: Color::Grayscale(8),
        frames,
        plays: None, // Infinite loop
    };
    let mut encoder = Encoder::create(meta).unwrap();

    let mut buffer = vec![];
    buffer.resize((WIDTH * HEIGHT) as usize, 0);
    let frame = Frame { delay: Some(Delay::new(1, 1)), ..Default::default() };
    encoder.write_frame(&buffer, Some(&frame), None, None).unwrap();

    for i in 1..frames {
        let (width, height) = (WIDTH / (frames - 1) * i, HEIGHT / (frames - 1) * i);
        let mut buffer = vec![];
        buffer.resize((height * width) as usize, 0xff);
        let frame = Frame {
            height: Some(height),
            width: Some(width),
            x: Some((WIDTH - width) / 2),
            y: Some((HEIGHT - height) / 2),
            delay: Some(Delay::new(1, 1)),
            ..Default::default()
        };
        encoder.write_frame(&buffer, Some(&frame), None, None).unwrap();
    }
    encoder.finish().unwrap();
}

#[test]
fn test_generate_shida() {
    const WIDTH: usize = 200;
    const HEIGHT: usize = 200;
    const PX: usize = 2;

    // A deterministic speckle pattern over a 16-bit grayscale canvas.
    fn speckle(buffer: &mut [u8], mut state: u32) {
        for _ in 0..5000 {
            state = state.wrapping_mul(1664525).wrapping_add(1013904223);
            let x = (state >> 16) as usize % WIDTH;
            let y = (state >> 4) as usize % HEIGHT;
            let base = y * WIDTH * PX + x * PX;
            for i in 0..PX {
                buffer[base + i] = 0xff;
            }
        }
    }

    let frames = 3;
    let meta = Meta {
        width: WIDTH as u32,
        height: HEIGHT as u32,
        color: Color::Grayscale(16),
        frames,
        plays: None, // Infinite loop
    };
    let frame = Frame { delay: Some(Delay::new(1, 1)), ..Default::default() };
    let mut encoder = Encoder::create(meta).unwrap();
    for i in 0..frames {
        let mut buffer = vec![];
        buffer.resize(WIDTH * HEIGHT * PX, 0);
        speckle(buffer.as_mut_slice(), 10 + i * 5);
        encoder.write_frame(&buffer, Some(&frame), None, None).unwrap();
    }
    encoder.finish().unwrap();
}

#[test]
fn test_generate_default_image() {
    const WIDTH: u32 = 10;
    const HEIGHT: u32 = 10;

    let frames = 3;
    let meta = Meta {
        width: WIDTH,
        height: HEIGHT,
        color: Color::Grayscale(8),
        frames,
        plays: None, // Infinite loop
    };
    let mut encoder = Encoder::create(meta).unwrap();

    let mut buffer = vec![];
    buffer.resize((WIDTH * HEIGHT) as usize, 0);
    encoder.write_default_image(&buffer, None, None).unwrap();
    for i in 0..frames as usize {
        for (index, it) in buffer.iter_mut().enumerate() {
            if index % 3 == i {
                *it = 0xff;
            } else {
                *it = 0x00;
            }
        }
        encoder.write_frame(&buffer, None, None, None).unwrap();
    }
    encoder.finish().unwrap();
}
