use image::ImageEncoder;
use capture_archive::capture::{
    best_resolution, crop_encoded, frame_has_size, process_frame, publish_frame, stream_config,
    FrameError, FrameOutcome, Resolutions,
};

fn frame(width: u32, height: u32) -> Vec<u8> {
    let mut pixels = Vec::new();
    for y in 0..height {
        for x in 0..width {
            pixels.push((x * 7 % 256) as u8);
            pixels.push((y * 11 % 256) as u8);
            pixels.push(((x + y) % 256) as u8);
        }
    }
    pixels
}

fn size_of(jpeg: &[u8]) -> (u32, u32) {
    let decoded = image::load_from_memory(jpeg).unwrap();
    (decoded.width(), decoded.height())
}

#[test]
fn largest_stepwise_resolution_is_preferred() {
    let info = Resolutions::Stepwise { min: (160, 120), max: (1280, 720), step: (8, 8) };
    assert_eq!(best_resolution(&info), (1280, 720));
}

#[test]
fn discrete_resolutions_fall_back_to_full_hd() {
    assert_eq!(best_resolution(&Resolutions::Discretes(vec![(640, 480), (3840, 2160)])), (1920, 1080));
    assert_eq!(best_resolution(&Resolutions::Discretes(Vec::new())), (1920, 1080));
}

#[test]
fn stream_runs_at_fifteen_frames_of_rgb3() {
    let info = Resolutions::Stepwise { min: (160, 120), max: (1280, 720), step: (8, 8) };
    let config = stream_config(&info);
    assert_eq!(config.interval, (1, 15));
    assert_eq!(config.resolution, (1280, 720));
    assert_eq!(&config.format, b"RGB3");
}

#[test]
fn frame_size_is_three_bytes_a_pixel() {
    assert!(frame_has_size(1920 * 1080 * 3, 1920, 1080));
    assert!(!frame_has_size(1920 * 1080 * 3 - 1, 1920, 1080));
    assert!(!frame_has_size(1920 * 1080 * 4, 1920, 1080));
    assert!(frame_has_size(0, 0, 1080));
    assert!(!frame_has_size(0, u32::MAX, u32::MAX));
    assert!(!frame_has_size(usize::MAX, u32::MAX, u32::MAX));
}

#[test]
fn frame_without_a_signal_is_discarded() {
    assert_eq!(process_frame(false, &frame(4, 2), 4, 2), FrameOutcome::Discarded);
    assert_eq!(process_frame(false, &[], 4, 2), FrameOutcome::Discarded);
}

#[test]
fn landscape_frame_is_published_as_a_square() {
    match process_frame(true, &frame(48, 32), 48, 32) {
        FrameOutcome::Published(bytes) => assert_eq!(size_of(&bytes), (32, 32)),
        other => panic!("not published: {:?}", other),
    }
}

#[test]
fn portrait_frame_is_published_as_a_square() {
    match publish_frame(&frame(16, 40), 16, 40) {
        FrameOutcome::Published(bytes) => assert_eq!(size_of(&bytes), (16, 16)),
        other => panic!("not published: {:?}", other),
    }
}

#[test]
fn published_snapshot_is_a_jpeg_file() {
    match publish_frame(&frame(24, 24), 24, 24) {
        FrameOutcome::Published(bytes) => {
            assert_eq!(&bytes[0..2], &[0xFF, 0xD8]);
            assert_eq!(image::guess_format(&bytes).unwrap(), image::ImageFormat::Jpeg);
            assert_eq!(size_of(&bytes), (24, 24));
        }
        other => panic!("not published: {:?}", other),
    }
}

#[test]
fn published_snapshot_is_what_the_image_crate_encodes() {
    let pixels = frame(20, 12);
    let mut encoded = Vec::new();
    image::codecs::jpeg::JpegEncoder::new(&mut encoded)
        .write_image(&pixels, 20, 12, image::ColorType::Rgb8)
        .unwrap();
    let mut decoded = image::load_from_memory(&encoded).unwrap();
    let cropped = decoded.crop(4, 0, 12, 12);
    let mut saved = Vec::new();
    image::codecs::jpeg::JpegEncoder::new(&mut saved)
        .write_image(cropped.as_bytes(), cropped.width(), cropped.height(), cropped.color())
        .unwrap();
    assert_eq!(publish_frame(&pixels, 20, 12), FrameOutcome::Published(saved));
}

#[test]
fn frame_of_the_wrong_size_is_refused() {
    assert_eq!(publish_frame(&frame(4, 2), 4, 3), FrameOutcome::Failed(FrameError::BadFrame));
    assert_eq!(process_frame(true, &[], 1, 1), FrameOutcome::Failed(FrameError::BadFrame));
}

#[test]
fn frame_too_large_for_jpeg_is_not_encoded() {
    let pixels = vec![0u8; 70000 * 3];
    assert_eq!(publish_frame(&pixels, 70000, 1), FrameOutcome::Failed(FrameError::Encode));
}

#[test]
fn encoded_frame_is_cropped_by_the_size_given() {
    let mut encoded = Vec::new();
    image::codecs::jpeg::JpegEncoder::new(&mut encoded)
        .write_image(&frame(30, 10), 30, 10, image::ColorType::Rgb8)
        .unwrap();
    match crop_encoded(&encoded, 30, 10) {
        FrameOutcome::Published(bytes) => assert_eq!(size_of(&bytes), (10, 10)),
        other => panic!("not published: {:?}", other),
    }
}

#[test]
fn frame_without_pixels_is_encoded_but_not_cropped() {
    assert_eq!(publish_frame(&[], 0, 5), FrameOutcome::Failed(FrameError::Crop));
}
