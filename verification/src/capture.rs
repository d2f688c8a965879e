//! From the bytes of a capture to pixel samples.

use vstd::prelude::*;
use crate::colors::RgbColor;
use crate::errors::PipelineError;

verus! {

/// How many bits a channel of a decoded frame has.
#[derive(Clone, Copy, Debug, PartialEq, Eq, Structural)]
pub enum FrameDepth {
    One,
    Two,
    Four,
    Eight,
    Sixteen,
}

/// How the channels of a pixel of a decoded frame are laid out.
#[derive(Clone, Copy, Debug, PartialEq, Eq, Structural)]
pub enum FrameLayout {
    Grayscale,
    /// Red, green and blue.
    Rgb,
    Indexed,
    GrayscaleAlpha,
    /// Red, green, blue and alpha.
    Rgba,
}

/// A decoded frame: its bytes, pixel after pixel, the bits of a channel and
/// the layout of a pixel.
pub struct Frame {
    pub data: Vec<u8>,
    pub depth: FrameDepth,
    pub layout: FrameLayout,
}

#[verifier::external_type_specification]
#[verifier::external_body]
pub struct ExDecodingError(png::DecodingError);

/// The first frame that the decoder of the `png` crate reads from an image:
/// its bytes, the bits of a channel and the layout of a pixel; `None` where
/// the decoder reports an error.
pub uninterp spec fn decoded_png(image: Seq<u8>) -> Option<(Seq<u8>, FrameDepth, FrameLayout)>;

/// Decodes the first frame of a PNG image with the `png` crate:
/// `Decoder::new`, `read_info` and `next_frame` on a buffer of the size that
/// `output_buffer_size` gives, cut to what `OutputInfo::buffer_size` says was
/// filled.
///
/// The decoder reads nothing but the image, so the frame is a function of
/// the bytes; it is named, not spelled out. The buffer is as large as the
/// header of the image says the frame is.
#[verifier::external_body]
fn decode_png(image: &Vec<u8>) -> (r: Result<Frame, png::DecodingError>)
    ensures
        match r {
            Ok(frame) => decoded_png(image@) == Some((frame.data@, frame.depth, frame.layout)),
            Err(_) => decoded_png(image@) is None,
        },
{
    let mut reader = png::Decoder::new(image.as_slice()).read_info()?;
    let mut data = vec![0u8; reader.output_buffer_size()];
    let info = reader.next_frame(&mut data)?;
    data.truncate(info.buffer_size());
    let depth = match info.bit_depth {
        png::BitDepth::One => FrameDepth::One, png::BitDepth::Two => FrameDepth::Two,
        png::BitDepth::Four => FrameDepth::Four, png::BitDepth::Eight => FrameDepth::Eight,
        png::BitDepth::Sixteen => FrameDepth::Sixteen,
    };
    let layout = match info.color_type {
        png::ColorType::Grayscale => FrameLayout::Grayscale, png::ColorType::Rgb => FrameLayout::Rgb,
        png::ColorType::Indexed => FrameLayout::Indexed, png::ColorType::Rgba => FrameLayout::Rgba,
        png::ColorType::GrayscaleAlpha => FrameLayout::GrayscaleAlpha,
    };
    Ok(Frame { data, depth, layout })
}

/// One sample for each whole pixel of `stride` bytes, in the order of the
/// frame: the first three bytes of the pixel as red, green and blue.
pub open spec fn samples(data: Seq<u8>, stride: nat) -> Seq<RgbColor>
    recommends
        stride >= 3,
{
    Seq::new(
        data.len() / stride,
        |i: int|
            RgbColor {
                red: data[stride * i],
                green: data[stride * i + 1],
                blue: data[stride * i + 2],
            },
    )
}

/// The pixel samples of a frame: one for each pixel, in the order of the
/// frame, alpha dropped. Only frames of eight bits a channel, laid out as
/// red, green and blue with or without alpha, have any.
pub open spec fn frame_pixels(data: Seq<u8>, depth: FrameDepth, layout: FrameLayout) -> Result<
    Seq<RgbColor>,
    PipelineError,
> {
    if depth != FrameDepth::Eight {
        Err(PipelineError::CaptureFailed)
    } else {
        match layout {
            FrameLayout::Rgb => Ok(samples(data, 3)),
            FrameLayout::Rgba => Ok(samples(data, 4)),
            _ => Err(PipelineError::CaptureFailed),
        }
    }
}

/// The pixel samples of an image.
pub open spec fn image_pixels(image: Seq<u8>) -> Result<Seq<RgbColor>, PipelineError> {
    match decoded_png(image) {
        Some((data, depth, layout)) => frame_pixels(data, depth, layout),
        None => Err(PipelineError::CaptureFailed),
    }
}

/// The result of reading pixels with the pixels taken as a sequence.
pub open spec fn pixels_view(r: Result<Vec<RgbColor>, PipelineError>) -> Result<
    Seq<RgbColor>,
    PipelineError,
> {
    match r {
        Ok(pixels) => Ok(pixels@),
        Err(e) => Err(e),
    }
}

/// Makes one sample of the first three bytes of every whole pixel of
/// `stride` bytes.
pub fn read_samples(data: &Vec<u8>, stride: usize) -> (r: Vec<RgbColor>)
    requires
        3 <= stride <= 4,
    ensures
        r@ == samples(data@, stride as nat),
{
    let count: usize = data.len() / stride;
    let mut out: Vec<RgbColor> = Vec::new();
    let mut i: usize = 0;
    while i < count
        invariant
            i <= count,
            3 <= stride <= 4,
            count == data.len() / stride,
            out@.len() == i,
            forall|j: int| 0 <= j < i ==> out@[j] == samples(data@, stride as nat)[j],
        decreases count - i,
    {
        assert(stride * i + stride <= data.len()) by (nonlinear_arith)
            requires
                i < count,
                count == data.len() / stride,
                stride > 0,
        ;
        let at: usize = stride * i;
        out.push(RgbColor { red: data[at], green: data[at + 1], blue: data[at + 2] });
        i += 1;
    }
    assert(out@ =~= samples(data@, stride as nat));
    out
}

/// Reads the pixel samples of a decoded frame.
pub fn pixels_from_frame(frame: &Frame) -> (r: Result<Vec<RgbColor>, PipelineError>)
    ensures
        pixels_view(r) == frame_pixels(frame.data@, frame.depth, frame.layout),
{
    match frame.depth {
        FrameDepth::Eight => {},
        _ => {
            return Err(PipelineError::CaptureFailed);
        },
    }
    match frame.layout {
        FrameLayout::Rgb => Ok(read_samples(&frame.data, 3)),
        FrameLayout::Rgba => Ok(read_samples(&frame.data, 4)),
        _ => Err(PipelineError::CaptureFailed),
    }
}

/// Reads the pixel samples of a captured image.
pub fn capture_pixels(image: &Vec<u8>) -> (r: Result<Vec<RgbColor>, PipelineError>)
    ensures
        pixels_view(r) == image_pixels(image@),
{
    match decode_png(image) {
        Ok(frame) => pixels_from_frame(&frame),
        Err(_) => Err(PipelineError::CaptureFailed),
    }
}

} // verus!
