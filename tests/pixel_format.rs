use image::ImageEncoder;
use nokhwa_core::error::NokhwaError;
use nokhwa_core::frame_format::FrameFormat;
use nokhwa_core::pixel_format::{
    bgra_to_i420, convert_yuyv_to_i420_direct, nv12_to_i420, yuv_pixel, I420Format, LumaAFormat,
    LumaFormat, OutputLayout, RgbAFormat, RgbFormat,
};
use nokhwa_core::types::Resolution;

fn assert_i420_equal_with_epsilon(
    epsilon_y: u8,
    epsilon_u: u8,
    epsilon_v: u8,
    actual: &[u8],
    expected: &[u8],
    width: usize,
    height: usize,
) {
    assert_eq!(actual.len(), expected.len());
    let (actual_y, actual_uv) = actual.split_at(width * height);
    let (actual_u, actual_v) = actual_uv.split_at(actual_uv.len() / 2);
    let (expected_y, expected_uv) = expected.split_at(width * height);
    let (expected_u, expected_v) = expected_uv.split_at(expected_uv.len() / 2);
    let planes = [
        (actual_y, expected_y, epsilon_y, "Y"),
        (actual_u, expected_u, epsilon_u, "U"),
        (actual_v, expected_v, epsilon_v, "V"),
    ];
    for (a, e, eps, name) in planes {
        for (i, (&x, &y)) in a.iter().zip(e.iter()).enumerate() {
            assert!(
                (x as i32 - y as i32).abs() <= eps as i32,
                "{} plane mismatch at index {}: actual = {}, expected = {}",
                name,
                i,
                x,
                y
            );
        }
    }
}

/// A deterministic test pattern standing in for a captured frame.
fn pattern(len: usize, seed: u32) -> Vec<u8> {
    let mut state = seed;
    (0..len)
        .map(|_| {
            state = state.wrapping_mul(1_664_525).wrapping_add(1_013_904_223);
            (state >> 24) as u8
        })
        .collect()
}

#[test]
fn test_yuyv_to_i420() {
    let width = 1280;
    let height = 680;
    let yuyv = pattern(width * height * 2, 7);
    let mut expected = vec![0u8; width * height * 3 / 2];
    let (ey, euv) = expected.split_at_mut(width * height);
    let (eu, ev) = euv.split_at_mut(width * height / 4);
    for y in 0..height {
        for x in (0..width).step_by(2) {
            let base = (y * width + x) * 2;
            ey[y * width + x] = yuyv[base];
            ey[y * width + x + 1] = yuyv[base + 2];
            if y % 2 == 0 {
                eu[y / 2 * (width / 2) + x / 2] = yuyv[base + 1];
                ev[y / 2 * (width / 2) + x / 2] = yuyv[base + 3];
            }
        }
    }
    let mut actual = vec![0u8; width * height * 3 / 2];
    convert_yuyv_to_i420_direct(&yuyv, width, height, &mut actual).unwrap();
    assert_i420_equal_with_epsilon(0, 5, 5, &actual, &expected, width, height);
}

#[test]
fn test_bgra_to_i420() {
    let width = 1280;
    let height = 680;
    let bgra = pattern(width * height * 4, 11);
    let mut expected = vec![0u8; width * height * 3 / 2];
    let (ey, euv) = expected.split_at_mut(width * height);
    let (eu, ev) = euv.split_at_mut(width * height / 4);
    for y in 0..height {
        for x in 0..width {
            let i = (y * width + x) * 4;
            let b = bgra[i] as f32;
            let g = bgra[i + 1] as f32;
            let r = bgra[i + 2] as f32;
            ey[y * width + x] = (0.257 * r + 0.504 * g + 0.098 * b + 16.0).round() as u8;
            if y % 2 == 0 && x % 2 == 0 {
                let j = (y / 2) * (width / 2) + x / 2;
                eu[j] = (-0.148 * r - 0.291 * g + 0.439 * b + 128.0).round() as u8;
                ev[j] = (0.439 * r - 0.368 * g - 0.071 * b + 128.0).round() as u8;
            }
        }
    }
    let mut actual = vec![0u8; width * height * 3 / 2];
    bgra_to_i420(&bgra, width, height, &mut actual).unwrap();
    assert_i420_equal_with_epsilon(1, 6, 6, &actual, &expected, width, height);
}

#[test]
fn test_nv12_to_i420() {
    let width = 1280;
    let height = 680;
    let nv12 = pattern(width * height * 3 / 2, 13);
    let mut expected = nv12[..width * height].to_vec();
    let uv = &nv12[width * height..];
    let us: Vec<u8> = uv.iter().step_by(2).copied().collect();
    let vs: Vec<u8> = uv.iter().skip(1).step_by(2).copied().collect();
    expected.extend_from_slice(&us);
    expected.extend_from_slice(&vs);
    let mut actual = vec![0u8; width * height * 3 / 2];
    nv12_to_i420(&nv12, width, height, &mut actual).unwrap();
    assert_i420_equal_with_epsilon(0, 0, 0, &actual, &expected, width, height);
}

#[test]
fn predicted_sizes_of_a_four_by_two_frame() {
    let res = Resolution::new(4, 2);
    assert_eq!(RgbFormat::predicted_size(res), Some(24));
    assert_eq!(RgbAFormat::predicted_size(res), Some(32));
    assert_eq!(LumaFormat::predicted_size(res), Some(8));
    assert_eq!(LumaAFormat::predicted_size(res), Some(16));
    assert_eq!(I420Format::predicted_size(res), Some(12));
}

#[test]
fn planar_size_needs_even_dimensions() {
    assert_eq!(I420Format::predicted_size(Resolution::new(3, 2)), None);
    assert_eq!(RgbFormat::predicted_size(Resolution::new(3, 3)), Some(27));
}

#[test]
fn gray_to_rgba_is_opaque_replication() {
    let data: Vec<u8> = (0..=255u8).collect();
    let out = RgbAFormat::write_output(FrameFormat::Luma8, Resolution::new(16, 16), &data).unwrap();
    assert_eq!(out.len(), 256 * 4);
    for v in 0..256usize {
        assert_eq!(&out[4 * v..4 * v + 4], &[v as u8, v as u8, v as u8, 255]);
    }
}

#[test]
fn gray_to_rgb_and_luma_alpha() {
    let data = [10u8, 200];
    let rgb = RgbFormat::write_output(FrameFormat::Luma8, Resolution::new(2, 1), &data).unwrap();
    assert_eq!(rgb, vec![10, 10, 10, 200, 200, 200]);
    let la = LumaAFormat::write_output(FrameFormat::Luma8, Resolution::new(2, 1), &data).unwrap();
    assert_eq!(la, vec![10, 255, 200, 255]);
    let l = LumaFormat::write_output(FrameFormat::Luma8, Resolution::new(2, 1), &data).unwrap();
    assert_eq!(l, vec![10, 200]);
}

#[test]
fn bgra_to_rgb_short_destination_is_untouched() {
    let bgra = [1u8, 2, 3, 4, 5, 6, 7, 8];
    let mut dest = [0xAAu8; 5];
    let r = RgbFormat::write_output_buffer(FrameFormat::ARgb8888, Resolution::new(2, 1), &bgra, &mut dest);
    assert!(matches!(r, Err(NokhwaError::SizeMismatch { expected: 6, actual: 5 })));
    assert_eq!(dest, [0xAAu8; 5]);
}

#[test]
fn bgra_channel_reordering() {
    let bgra = [1u8, 2, 3, 4, 5, 6, 7, 8];
    let res = Resolution::new(2, 1);
    let mut rgb = [0u8; 6];
    RgbFormat::write_output_buffer(FrameFormat::ARgb8888, res, &bgra, &mut rgb).unwrap();
    assert_eq!(rgb, [3, 2, 1, 7, 6, 5]);
    let rgba = RgbAFormat::write_output(FrameFormat::ARgb8888, res, &bgra).unwrap();
    assert_eq!(rgba, vec![3, 2, 1, 4, 7, 6, 5, 8]);
    let luma = LumaFormat::write_output(FrameFormat::ARgb8888, res, &bgra).unwrap();
    assert_eq!(luma, vec![2, 6]);
    let la = LumaAFormat::write_output(FrameFormat::ARgb8888, res, &bgra).unwrap();
    assert_eq!(la, vec![2, 4, 6, 8]);
}

#[test]
fn raw_rgb_conversions() {
    let rgb = [10u8, 20, 30, 1, 2, 4];
    let res = Resolution::new(2, 1);
    assert_eq!(RgbFormat::write_output(FrameFormat::Rgb888, res, &rgb).unwrap(), rgb.to_vec());
    assert_eq!(
        RgbAFormat::write_output(FrameFormat::Rgb888, res, &rgb).unwrap(),
        vec![10, 20, 30, 255, 1, 2, 4, 255]
    );
    assert_eq!(LumaFormat::write_output(FrameFormat::Rgb888, res, &rgb).unwrap(), vec![20, 2]);
    assert!(matches!(
        LumaAFormat::write_output(FrameFormat::Rgb888, res, &rgb),
        Err(NokhwaError::UnsupportedFormat { src: FrameFormat::Rgb888, destination: OutputLayout::LumaA })
    ));
}

#[test]
fn yuyv_to_i420_drops_odd_row_chroma() {
    // row0 = [Y0,U0,Y1,V0, Y2,U2,Y3,V2], row1 = [Y4,U4,Y5,V4, Y6,U6,Y7,V6]
    let src = [
        10u8, 100, 11, 150, 12, 101, 13, 151, //
        14, 200, 15, 250, 16, 201, 17, 251,
    ];
    let mut dest = [0u8; 12];
    convert_yuyv_to_i420_direct(&src, 4, 2, &mut dest).unwrap();
    assert_eq!(dest, [10, 11, 12, 13, 14, 15, 16, 17, 100, 101, 150, 151]);
    let via_layout = I420Format::write_output(FrameFormat::Yuyv422, Resolution::new(4, 2), &src).unwrap();
    assert_eq!(via_layout, dest.to_vec());
}

#[test]
fn nv12_to_i420_splits_chroma() {
    let src = [1u8, 2, 3, 4, 5, 6, 7, 8, 50, 60, 51, 61];
    let mut dest = [0u8; 12];
    nv12_to_i420(&src, 4, 2, &mut dest).unwrap();
    assert_eq!(dest, [1, 2, 3, 4, 5, 6, 7, 8, 50, 51, 60, 61]);
}

#[test]
fn bgra_to_i420_known_colors() {
    // white and black pixels, 2x2 with white in the sampled corner
    let src = [
        255u8, 255, 255, 255, 0, 0, 0, 255, //
        0, 0, 0, 255, 0, 0, 0, 255,
    ];
    let mut dest = [0u8; 6];
    bgra_to_i420(&src, 2, 2, &mut dest).unwrap();
    assert_eq!(dest, [235, 16, 16, 16, 128, 128]);
    // pure red: Y = round(0.257*255 + 16) = 82, U = round(-0.148*255 + 128) = 90, V = round(0.439*255 + 128) = 240
    let red = [0u8, 0, 255, 255, 0, 0, 255, 255, 0, 0, 255, 255, 0, 0, 255, 255];
    bgra_to_i420(&red, 2, 2, &mut dest).unwrap();
    assert_eq!(dest, [82, 82, 82, 82, 90, 240]);
}

#[test]
fn yuv_expansion_values() {
    assert_eq!(yuv_pixel(16, 128, 128), (0, 0, 0));
    assert_eq!(yuv_pixel(235, 128, 128), (255, 255, 255));
    assert_eq!(yuv_pixel(81, 90, 240), (255, 0, 0));
    assert_eq!(yuv_pixel(126, 128, 128), (128, 128, 128));
}

#[test]
fn yuyv_and_nv12_to_rgb() {
    let yuyv = [16u8, 128, 235, 128];
    let rgb = RgbFormat::write_output(FrameFormat::Yuyv422, Resolution::new(2, 1), &yuyv).unwrap();
    assert_eq!(rgb, vec![0, 0, 0, 255, 255, 255]);
    let luma = LumaFormat::write_output(FrameFormat::Yuyv422, Resolution::new(2, 1), &yuyv).unwrap();
    assert_eq!(luma, vec![0, 255]);
    let nv12 = [16u8, 235, 16, 235, 128, 128];
    let rgba = RgbAFormat::write_output(FrameFormat::Nv12, Resolution::new(2, 2), &nv12).unwrap();
    assert_eq!(rgba, vec![0, 0, 0, 255, 255, 255, 255, 255, 0, 0, 0, 255, 255, 255, 255, 255]);
}

#[test]
fn error_variants() {
    let res = Resolution::new(2, 2);
    assert!(matches!(
        I420Format::write_output(FrameFormat::Luma8, res, &[0u8; 4]),
        Err(NokhwaError::UnsupportedFormat { src: FrameFormat::Luma8, destination: OutputLayout::I420 })
    ));
    assert!(matches!(
        I420Format::write_output(FrameFormat::Nv12, Resolution::new(3, 2), &[0u8; 9]),
        Err(NokhwaError::InvalidDimensions { width: 3, height: 2 })
    ));
    assert!(matches!(
        RgbFormat::write_output(FrameFormat::Rgb888, res, &[0u8; 11]),
        Err(NokhwaError::MalformedInput { required: 12, actual: 11 })
    ));
    assert!(matches!(
        RgbFormat::write_output(FrameFormat::MJpeg, res, &[1u8, 2, 3]),
        Err(NokhwaError::DecodeFailed { src: FrameFormat::MJpeg })
    ));
    let mut dest = [7u8; 11];
    assert!(matches!(
        convert_yuyv_to_i420_direct(&[0u8; 16], 4, 2, &mut dest),
        Err(NokhwaError::SizeMismatch { expected: 12, actual: 11 })
    ));
    assert_eq!(dest, [7u8; 11]);
}

#[test]
fn jpeg_frames_go_through_the_decoder() {
    let (w, h) = (8u32, 8u32);
    let pixels: Vec<u8> = (0..w * h).flat_map(|_| [200u8, 30, 60]).collect();
    let mut jpeg = Vec::new();
    image::codecs::jpeg::JpegEncoder::new_with_quality(&mut jpeg, 100)
        .write_image(&pixels, w, h, image::ExtendedColorType::Rgb8)
        .unwrap();
    let res = Resolution::new(w, h);
    let rgb = RgbFormat::write_output(FrameFormat::MJpeg, res, &jpeg).unwrap();
    assert_eq!(rgb.len(), 8 * 8 * 3);
    assert!((rgb[0] as i32 - 200).abs() <= 8 && (rgb[1] as i32 - 30).abs() <= 8);
    let rgba = RgbAFormat::write_output(FrameFormat::MJpeg, res, &jpeg).unwrap();
    assert_eq!(rgba.len(), 8 * 8 * 4);
    assert_eq!(rgba[3], 255);
    let luma = LumaFormat::write_output(FrameFormat::MJpeg, res, &jpeg).unwrap();
    assert_eq!(luma[0], ((rgb[0] as u16 + rgb[1] as u16 + rgb[2] as u16) / 3) as u8);
    assert!(matches!(
        RgbFormat::write_output(FrameFormat::MJpeg, Resolution::new(4, 4), &jpeg),
        Err(NokhwaError::MalformedInput { required: 48, actual: 192 })
    ));
}

#[test]
fn accepted_formats_per_layout() {
    let f = I420Format::formats();
    assert_eq!(f.len(), 3);
    assert!(f.contains(&FrameFormat::Yuyv422) && f.contains(&FrameFormat::Nv12) && f.contains(&FrameFormat::ARgb8888));
    assert_eq!(RgbFormat::formats().len(), 6);
    assert!(!LumaAFormat::formats().contains(&FrameFormat::Rgb888));
}
