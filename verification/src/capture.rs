//! The capture loop: what is done with each frame that the camera hands
//! over, and how a frame becomes the published snapshot.
//!
//! The loop itself, the camera and the snapshot file belong to the caller.
//! Once per iteration it asks [`process_frame`] what to do with the frame it
//! has just captured: without a pending signal the frame is discarded, with
//! one it is encoded, cropped to a centred square and encoded again, and the
//! caller overwrites the snapshot with the bytes it gets back. Which
//! pixels the codec reads back is left to it; the library says when a
//! frame is refused, when it is not encoded, and that what is published
//! is the encoding of a frame no larger than the centred square.

use vstd::prelude::*;
use image::ImageEncoder;
use crate::crop::{get_crop_pixels, square_side};

verus! {

/// The error type of the `image` crate, `image::ImageError`, taken as
/// opaque: nothing is claimed of what an error holds.
#[verifier::external_type_specification]
#[verifier::external_body]
pub struct ExImageError(image::ImageError);

/// The resolutions that a camera offers for one pixel format.
#[derive(Debug, PartialEq, Eq)]
pub enum Resolutions {
    /// A list of resolutions, each as `(width, height)`.
    Discretes(Vec<(u32, u32)>),
    /// Every resolution from `min` to `max` in steps of `step`.
    Stepwise { min: (u32, u32), max: (u32, u32), step: (u32, u32) },
}

/// How the camera's stream is configured.
#[derive(Debug, PartialEq, Eq)]
pub struct StreamConfig {
    /// The time between two frames, in seconds, as a fraction.
    pub interval: (u32, u32),
    /// The size of each frame, as `(width, height)`.
    pub resolution: (u32, u32),
    /// The four-character code of the pixel format.
    pub format: [u8; 4],
}

/// The resolution used where the camera names no largest one.
pub open spec fn fallback_resolution() -> (u32, u32) {
    (1920u32, 1080u32)
}

/// The resolution to capture at: the largest of a stepwise range,
/// otherwise the fallback.
pub open spec fn preferred_resolution(info: Resolutions) -> (u32, u32) {
    match info {
        Resolutions::Stepwise { min, max, step } => max,
        Resolutions::Discretes(_) => fallback_resolution(),
    }
}

/// The code `RGB3`: three bytes for each pixel, red first.
pub open spec fn rgb3() -> Seq<u8> {
    seq![0x52u8, 0x47u8, 0x42u8, 0x33u8]
}

/// Picks the resolution to capture at.
pub fn best_resolution(info: &Resolutions) -> (best: (u32, u32))
    ensures
        best == preferred_resolution(*info),
{
    match info {
        Resolutions::Stepwise { min: _, max, step: _ } => *max,
        Resolutions::Discretes(_) => (1920, 1080),
    }
}

/// The stream to start on a camera that offers `info`: fifteen frames a
/// second of RGB3 at the preferred resolution.
pub fn stream_config(info: &Resolutions) -> (config: StreamConfig)
    ensures
        config.interval == (1u32, 15u32),
        config.resolution == preferred_resolution(*info),
        config.format@ == rgb3(),
{
    let format: [u8; 4] = [0x52, 0x47, 0x42, 0x33];
    assert(format@ =~= rgb3());
    StreamConfig { interval: (1, 15), resolution: best_resolution(info), format }
}

/// Why a frame could not be published.
#[derive(Debug, Clone, Copy, PartialEq, Eq, Structural)]
pub enum FrameError {
    /// The frame does not hold three bytes for each pixel of its
    /// resolution.
    BadFrame,
    /// The frame could not be encoded.
    Encode,
    /// The encoded frame could not be read back, cropped or encoded again.
    Crop,
}

/// What became of one captured frame.
#[derive(Debug, PartialEq, Eq)]
pub enum FrameOutcome {
    /// No signal was pending: the frame only kept the stream alive.
    Discarded,
    /// The bytes to overwrite the snapshot with.
    Published(Vec<u8>),
    /// A signal was pending and the frame could not be published.
    Failed(FrameError),
}

/// The model of a [`FrameOutcome`].
pub enum FrameOutcomeView {
    Discarded,
    Published(Seq<u8>),
    Failed(FrameError),
}

impl View for FrameOutcome {
    type V = FrameOutcomeView;

    open spec fn view(&self) -> FrameOutcomeView {
        match self {
            FrameOutcome::Discarded => FrameOutcomeView::Discarded,
            FrameOutcome::Published(bytes) => FrameOutcomeView::Published(bytes@),
            FrameOutcome::Failed(error) => FrameOutcomeView::Failed(*error),
        }
    }
}

/// The JPEG file that the encoder of the `image` crate writes for a raw
/// RGB frame of the given size, at its default quality; `None` where it
/// reports an error.
pub uninterp spec fn jpeg_encoding(pixels: Seq<u8>, width: u32, height: u32) -> Option<Seq<u8>>;

/// Whether `len` bytes hold three bytes for each pixel of a frame.
pub open spec fn frame_fits(len: nat, width: u32, height: u32) -> bool {
    len == width * height * 3
}

/// Whether `encoded` is what the encoder writes for some frame of the
/// given size.
pub open spec fn is_encoded_frame(encoded: Seq<u8>, width: u32, height: u32) -> bool {
    exists|pixels: Seq<u8>|
        frame_fits(pixels.len(), width, height) && #[trigger] jpeg_encoding(pixels, width, height)
            == Some(encoded)
}

/// Whether `bytes` are what the encoder writes for some frame that is no
/// wider and no higher than the centred square of a `width` x `height`
/// frame.
pub open spec fn is_square_snapshot(bytes: Seq<u8>, width: u32, height: u32) -> bool {
    exists|pixels: Seq<u8>, w: u32, h: u32|
        w <= square_side(width as int, height as int) && h <= square_side(
            width as int,
            height as int,
        ) && frame_fits(pixels.len(), w, h) && #[trigger] jpeg_encoding(pixels, w, h) == Some(
            bytes,
        )
}

/// Whether `outcome` is one that cropping an encoded frame of the given
/// size can have: a snapshot of its centred square, or the failure to
/// crop.
pub open spec fn is_crop_outcome(outcome: FrameOutcomeView, width: u32, height: u32) -> bool {
    match outcome {
        FrameOutcomeView::Published(bytes) => is_square_snapshot(bytes, width, height),
        FrameOutcomeView::Failed(error) => error == FrameError::Crop,
        FrameOutcomeView::Discarded => false,
    }
}

/// Whether `outcome` is one that publishing a raw frame can have. A frame
/// of the wrong size is refused, and no other; a frame that the encoder
/// reports an error on is not encoded, and no other; every other frame is
/// cropped.
pub open spec fn is_publish_outcome(
    outcome: FrameOutcomeView,
    pixels: Seq<u8>,
    width: u32,
    height: u32,
) -> bool {
    if !frame_fits(pixels.len(), width, height) {
        outcome == FrameOutcomeView::Failed(FrameError::BadFrame)
    } else if jpeg_encoding(pixels, width, height) is None {
        outcome == FrameOutcomeView::Failed(FrameError::Encode)
    } else {
        is_crop_outcome(outcome, width, height)
    }
}

/// Encodes a raw RGB frame as JPEG.
///
/// Trusted: calls `JpegEncoder::new` and `ImageEncoder::write_image` of the
/// `image` crate with the colour type `Rgb8`, writing into memory. The
/// encoder panics unless the buffer holds three bytes for each pixel, which
/// the precondition rules out. The contract claims only that the result is
/// a function of the frame and its size, named [`jpeg_encoding`].
#[verifier::external_body]
fn encode_jpeg(pixels: &[u8], width: u32, height: u32) -> (r: Result<Vec<u8>, image::ImageError>)
    requires
        frame_fits(pixels@.len(), width, height),
    ensures
        match r {
            Ok(bytes) => jpeg_encoding(pixels@, width, height) == Some(bytes@),
            Err(_) => jpeg_encoding(pixels@, width, height) is None,
        },
{
    let mut out = Vec::new();
    image::codecs::jpeg::JpegEncoder::new(&mut out).write_image(
        pixels,
        width,
        height,
        image::ColorType::Rgb8,
    )?;
    Ok(out)
}

/// Cuts a rectangle out of an encoded frame, as raw RGB pixels with their
/// width and height.
///
/// Trusted: calls `load_from_memory`, `DynamicImage::crop` and
/// `DynamicImage::into_rgb8` of the `image` crate, and reads the result
/// with `width`, `height` and `into_raw`. `crop` clips the rectangle to the
/// image, so what comes back is no larger than what was asked for, and an
/// RGB image holds three bytes for each pixel. Nothing is claimed of the
/// pixels themselves: the decoder chooses its routines by the processor it
/// runs on, and they differ in the last bit. The precondition admits only
/// what the encoder of the same crate has written, since nothing shows
/// that the decoder returns on every other input.
#[verifier::external_body]
fn cut_pixels(
    encoded: &[u8],
    left: u32,
    top: u32,
    width: u32,
    height: u32,
) -> (r: Result<(Vec<u8>, u32, u32), image::ImageError>)
    requires
        exists|w: u32, h: u32| is_encoded_frame(encoded@, w, h),
    ensures
        r matches Ok((pixels, w, h)) ==> w <= width && h <= height && frame_fits(
            pixels@.len(),
            w,
            h,
        ),
{
    let mut decoded = image::load_from_memory(encoded)?;
    let cut = decoded.crop(left, top, width, height).into_rgb8();
    let (w, h) = (cut.width(), cut.height());
    Ok((cut.into_raw(), w, h))
}

/// Decides whether `len` bytes hold three bytes for each pixel of a frame.
pub fn frame_has_size(len: usize, width: u32, height: u32) -> (fits: bool)
    ensures
        fits == frame_fits(len as nat, width, height),
{
    let pixels: u64 = match (width as u64).checked_mul(height as u64) {
        Some(pixels) => pixels,
        None => {
            return false;
        },
    };
    match pixels.checked_mul(3) {
        Some(bytes) => bytes == len as u64,
        None => false,
    }
}

/// Crops an encoded frame of the given size to its centred square and
/// encodes the square as JPEG, as a file with the extension `.jpg` is
/// encoded. The frame has to be one that the encoder has written for that
/// size.
pub fn crop_encoded(encoded: &[u8], width: u32, height: u32) -> (outcome: FrameOutcome)
    requires
        is_encoded_frame(encoded@, width, height),
    ensures
        is_crop_outcome(outcome@, width, height),
{
    let (left, top, w, h) = get_crop_pixels(width, height);
    let (pixels, cut_width, cut_height) = match cut_pixels(encoded, left, top, w, h) {
        Ok(cut) => cut,
        Err(_) => {
            return FrameOutcome::Failed(FrameError::Crop);
        },
    };
    match encode_jpeg(pixels.as_slice(), cut_width, cut_height) {
        Ok(bytes) => {
            assert(jpeg_encoding(pixels@, cut_width, cut_height) == Some(bytes@));
            FrameOutcome::Published(bytes)
        },
        Err(_) => FrameOutcome::Failed(FrameError::Crop),
    }
}

/// Turns a raw RGB frame into the bytes of the snapshot.
pub fn publish_frame(pixels: &[u8], width: u32, height: u32) -> (outcome: FrameOutcome)
    ensures
        is_publish_outcome(outcome@, pixels@, width, height),
        outcome@ !is Discarded,
{
    if !frame_has_size(pixels.len(), width, height) {
        return FrameOutcome::Failed(FrameError::BadFrame);
    }
    match encode_jpeg(pixels, width, height) {
        Ok(encoded) => {
            assert(is_encoded_frame(encoded@, width, height));
            crop_encoded(encoded.as_slice(), width, height)
        },
        Err(_) => FrameOutcome::Failed(FrameError::Encode),
    }
}

/// One iteration of the capture loop: a frame captured while no signal is
/// pending is discarded, one captured with a signal pending is published.
pub fn process_frame(
    signal_pending: bool,
    pixels: &[u8],
    width: u32,
    height: u32,
) -> (outcome: FrameOutcome)
    ensures
        signal_pending ==> is_publish_outcome(outcome@, pixels@, width, height),
        !signal_pending <==> outcome@ is Discarded,
{
    if signal_pending {
        publish_frame(pixels, width, height)
    } else {
        FrameOutcome::Discarded
    }
}

/// Publishing a frame never comes to nothing, each failure has its own
/// cause (the size of the frame, the encoder, or the crop), and what is
/// published is a snapshot of the centred square.
pub proof fn lemma_publish_outcomes(
    outcome: FrameOutcomeView,
    pixels: Seq<u8>,
    width: u32,
    height: u32,
)
    requires
        is_publish_outcome(outcome, pixels, width, height),
    ensures
        !(outcome is Discarded),
        outcome == FrameOutcomeView::Failed(FrameError::BadFrame) <==> !frame_fits(
            pixels.len(),
            width,
            height,
        ),
        outcome == FrameOutcomeView::Failed(FrameError::Encode) <==> frame_fits(
            pixels.len(),
            width,
            height,
        ) && jpeg_encoding(pixels, width, height) is None,
        (outcome matches FrameOutcomeView::Published(bytes) ==> is_square_snapshot(
            bytes,
            width,
            height,
        )),
{
}

} // verus!
