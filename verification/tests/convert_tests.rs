use rawriser::convert::{convert_raw_bytes, develop, FileFailure};
use rawriser::encode::{encode, MAX_JPEG_DIMENSION};
use rawriser::raw::{DecodedRaw, SampleData};
use rawriser::transform::EncodedImage;

/// Packs eight 12-bit samples the way the ARRI format stores them.
fn pack_eight(o: [u16; 8]) -> [u8; 12] {
    let mut g = [0u8; 12];
    g[3] = (o[0] >> 4) as u8;
    g[2] = (((o[0] & 0x0f) << 4) | (o[1] >> 8)) as u8;
    g[1] = (o[1] & 0xff) as u8;
    g[0] = (o[2] >> 4) as u8;
    g[7] = (((o[2] & 0x0f) << 4) | (o[3] >> 8)) as u8;
    g[6] = (o[3] & 0xff) as u8;
    g[5] = (o[4] >> 4) as u8;
    g[4] = (((o[4] & 0x0f) << 4) | (o[5] >> 8)) as u8;
    g[11] = (o[5] & 0xff) as u8;
    g[10] = (o[6] >> 4) as u8;
    g[9] = (((o[6] & 0x0f) << 4) | (o[7] >> 8)) as u8;
    g[8] = (o[7] & 0xff) as u8;
    g
}

/// The bytes of an ARRI ALEXA file of the given size over the given samples.
fn arri_file(width: u32, height: u32, samples: &[u16]) -> Vec<u8> {
    let offset: u32 = 4096;
    let mut file = vec![0u8; offset as usize];
    file[0..4].copy_from_slice(b"ARRI");
    file[8..12].copy_from_slice(&offset.to_le_bytes());
    file[20..24].copy_from_slice(&width.to_le_bytes());
    file[24..28].copy_from_slice(&height.to_le_bytes());
    file[100..104].copy_from_slice(&1.0f32.to_le_bytes());
    file[104..108].copy_from_slice(&1.0f32.to_le_bytes());
    file[108..112].copy_from_slice(&1.0f32.to_le_bytes());
    file[668..673].copy_from_slice(b"ALEXA");
    for eight in samples.chunks(8) {
        let mut group = [0u16; 8];
        group[..eight.len()].copy_from_slice(eight);
        file.extend_from_slice(&pack_eight(group));
    }
    file
}

/// Sixteen by eight samples: the left half black, the right half white.
fn half_black_half_white() -> Vec<u8> {
    let mut samples = Vec::new();
    for _row in 0..8 {
        samples.extend_from_slice(&[0u16; 8]);
        samples.extend_from_slice(&[4095u16; 8]);
    }
    arri_file(16, 8, &samples)
}

#[test]
fn raw_file_becomes_a_jpeg_file() {
    let jpeg = convert_raw_bytes(&half_black_half_white()).unwrap();
    assert_eq!(&jpeg[..3], &[0xff, 0xd8, 0xff]);
    assert_eq!(&jpeg[jpeg.len() - 2..], &[0xff, 0xd9]);
    let decoded = image::load_from_memory(&jpeg).unwrap().to_rgb8();
    assert_eq!(decoded.dimensions(), (16, 8));
}

#[test]
fn jpeg_shows_the_samples_of_the_raw_file() {
    let jpeg = convert_raw_bytes(&half_black_half_white()).unwrap();
    let decoded = image::load_from_memory(&jpeg).unwrap().to_rgb8();
    for y in 0..8 {
        for x in 0..6 {
            let pixel = decoded.get_pixel(x, y);
            assert!(pixel.0.iter().all(|&c| c < 48), "{:?} at {},{}", pixel, x, y);
        }
        for x in 10..16 {
            let pixel = decoded.get_pixel(x, y);
            assert!(pixel.0.iter().all(|&c| c > 207), "{:?} at {},{}", pixel, x, y);
        }
    }
}

#[test]
fn conversion_gives_the_same_bytes_each_time() {
    let file = half_black_half_white();
    assert_eq!(convert_raw_bytes(&file), convert_raw_bytes(&file));
}

#[test]
fn bytes_that_are_no_raw_file_fail_at_decoding() {
    assert_eq!(convert_raw_bytes(b"this is not a raw file"), Err(FileFailure::Decode));
    assert_eq!(convert_raw_bytes(&[]), Err(FileFailure::Decode));
    assert_eq!(convert_raw_bytes(&[0u8; 4096]), Err(FileFailure::Decode));
}

#[test]
fn raw_file_of_an_unknown_camera_fails_at_decoding() {
    let mut file = half_black_half_white();
    file[668..673].copy_from_slice(b"OTHER");
    assert_eq!(convert_raw_bytes(&file), Err(FileFailure::Decode));
}

#[test]
fn truncated_raw_file_fails_at_decoding() {
    let file = half_black_half_white();
    assert_eq!(convert_raw_bytes(&file[..600]), Err(FileFailure::Decode));
}

#[test]
fn raw_file_without_pixels_fails_at_encoding() {
    assert_eq!(convert_raw_bytes(&arri_file(0, 0, &[])), Err(FileFailure::Encode));
    assert_eq!(convert_raw_bytes(&arri_file(8, 0, &[])), Err(FileFailure::Encode));
}

#[test]
fn image_is_encoded_as_jpeg() {
    let image = EncodedImage::new(2, 1, vec![0, 0, 0, 255, 255, 255]).unwrap();
    let jpeg = encode(&image).unwrap();
    assert_ne!(&jpeg, image.pixel_bytes());
    assert_eq!(&jpeg[..3], &[0xff, 0xd8, 0xff]);
    let decoded = image::load_from_memory_with_format(&jpeg, image::ImageFormat::Jpeg).unwrap();
    assert_eq!((decoded.width(), decoded.height()), (2, 1));
}

#[test]
fn encoding_keeps_a_flat_image_flat() {
    let image = EncodedImage::new(8, 8, vec![186; 192]).unwrap();
    let jpeg = encode(&image).unwrap();
    let decoded = image::load_from_memory(&jpeg).unwrap().to_rgb8();
    assert_eq!(decoded.dimensions(), (8, 8));
    for pixel in decoded.pixels() {
        for channel in pixel.0 {
            assert!((channel as i32 - 186).abs() <= 3, "{:?}", pixel);
        }
    }
}

#[test]
fn image_without_pixels_has_no_encoding() {
    assert_eq!(encode(&EncodedImage::new(0, 0, vec![]).unwrap()), None);
    assert_eq!(encode(&EncodedImage::new(0, 4, vec![]).unwrap()), None);
    assert_eq!(encode(&EncodedImage::new(4, 0, vec![]).unwrap()), None);
}

#[test]
fn image_beyond_jpeg_dimensions_has_no_encoding() {
    assert_eq!(MAX_JPEG_DIMENSION, 65535);
    let wide = EncodedImage::new(65536, 1, vec![0; 3 * 65536]).unwrap();
    assert_eq!(encode(&wide), None);
    let tall = EncodedImage::new(1, 65536, vec![0; 3 * 65536]).unwrap();
    assert_eq!(encode(&tall), None);
}

#[test]
fn image_at_the_jpeg_limit_is_encoded() {
    let widest = EncodedImage::new(65535, 1, vec![128; 3 * 65535]).unwrap();
    let jpeg = encode(&widest).unwrap();
    assert_eq!(&jpeg[..2], &[0xff, 0xd8]);
}

#[test]
fn decoded_grid_develops_into_a_jpeg_file() {
    let jpeg = develop(&DecodedRaw::new(2, 1, vec![0, 4095], 4095)).unwrap();
    assert_eq!(&jpeg[..3], &[0xff, 0xd8, 0xff]);
    let decoded = image::load_from_memory(&jpeg).unwrap();
    assert_eq!((decoded.width(), decoded.height()), (2, 1));
}

#[test]
fn development_is_transform_then_encode() {
    let raw = DecodedRaw::new(4, 2, vec![0, 100, 200, 300, 1000, 2000, 3000, 4095], 4095);
    let image = rawriser::transform::transform(&raw).unwrap();
    assert_eq!(develop(&raw).ok(), encode(&image));
}

#[test]
fn grid_that_cannot_be_transformed_fails_at_the_transform() {
    let float =
        DecodedRaw { width: 2, height: 1, samples: SampleData::Float, channel_white_level: 1 };
    assert_eq!(develop(&float), Err(FileFailure::Transform));
    assert_eq!(develop(&DecodedRaw::new(2, 2, vec![1, 2, 3], 4095)), Err(FileFailure::Transform));
}

#[test]
fn grid_that_jpeg_cannot_record_fails_at_encoding() {
    assert_eq!(develop(&DecodedRaw::new(0, 0, vec![], 4095)), Err(FileFailure::Encode));
    assert_eq!(develop(&DecodedRaw::new(65536, 1, vec![0; 65536], 4095)), Err(FileFailure::Encode));
}
