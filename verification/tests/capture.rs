use desktop_dye::capture::{
    capture_pixels, pixels_from_frame, read_samples, Frame, FrameDepth, FrameLayout,
};
use desktop_dye::colors::RgbColor;
use desktop_dye::errors::PipelineError;

fn png_image(width: u32, height: u32, color: png::ColorType, depth: png::BitDepth, data: &[u8]) -> Vec<u8> {
    let mut image = Vec::new();
    {
        let mut encoder = png::Encoder::new(&mut image, width, height);
        encoder.set_color(color);
        encoder.set_depth(depth);
        let mut writer = encoder.write_header().unwrap();
        writer.write_image_data(data).unwrap();
    }
    image
}

fn four_pixels() -> Vec<RgbColor> {
    vec![
        RgbColor::new(10, 11, 12),
        RgbColor::new(20, 21, 22),
        RgbColor::new(30, 31, 32),
        RgbColor::new(40, 41, 42),
    ]
}

#[test]
fn one_sample_for_each_pixel_of_three_bytes() {
    assert_eq!(
        read_samples(&vec![1, 2, 3, 4, 5, 6, 7, 8, 9], 3),
        vec![RgbColor::new(1, 2, 3), RgbColor::new(4, 5, 6), RgbColor::new(7, 8, 9)]
    );
    assert_eq!(read_samples(&vec![1, 2, 3, 4, 5], 3), vec![RgbColor::new(1, 2, 3)]);
    assert_eq!(read_samples(&vec![1, 2], 3), Vec::<RgbColor>::new());
    assert_eq!(read_samples(&Vec::new(), 3), Vec::<RgbColor>::new());
}

#[test]
fn one_sample_for_each_pixel_of_four_bytes() {
    assert_eq!(
        read_samples(&vec![1, 2, 3, 255, 4, 5, 6, 0], 4),
        vec![RgbColor::new(1, 2, 3), RgbColor::new(4, 5, 6)]
    );
    assert_eq!(read_samples(&vec![1, 2, 3, 255, 4, 5, 6], 4), vec![RgbColor::new(1, 2, 3)]);
    assert_eq!(read_samples(&vec![1, 2, 3], 4), Vec::<RgbColor>::new());
    assert_eq!(read_samples(&Vec::new(), 4), Vec::<RgbColor>::new());
}

#[test]
fn frame_with_alpha() {
    let frame = Frame {
        data: vec![10, 11, 12, 255, 20, 21, 22, 255, 30, 31, 32, 255, 40, 41, 42, 255],
        depth: FrameDepth::Eight,
        layout: FrameLayout::Rgba,
    };
    assert_eq!(pixels_from_frame(&frame), Ok(four_pixels()));
}

#[test]
fn frame_of_one_pixel_with_alpha() {
    let frame =
        Frame { data: vec![10, 11, 12, 0], depth: FrameDepth::Eight, layout: FrameLayout::Rgba };
    assert_eq!(pixels_from_frame(&frame), Ok(vec![RgbColor::new(10, 11, 12)]));
}

#[test]
fn frame_without_alpha() {
    let frame = Frame {
        data: vec![10, 11, 12, 20, 21, 22, 30, 31, 32, 40, 41, 42],
        depth: FrameDepth::Eight,
        layout: FrameLayout::Rgb,
    };
    assert_eq!(pixels_from_frame(&frame), Ok(four_pixels()));
}

#[test]
fn frames_of_another_kind_are_refused() {
    for depth in [FrameDepth::One, FrameDepth::Two, FrameDepth::Four, FrameDepth::Sixteen] {
        for layout in [FrameLayout::Rgb, FrameLayout::Rgba] {
            let frame = Frame { data: vec![1, 2, 3, 4], depth, layout };
            assert_eq!(pixels_from_frame(&frame), Err(PipelineError::CaptureFailed));
        }
    }
    for layout in [FrameLayout::Grayscale, FrameLayout::Indexed, FrameLayout::GrayscaleAlpha] {
        let frame = Frame { data: vec![1, 2, 3, 4], depth: FrameDepth::Eight, layout };
        assert_eq!(pixels_from_frame(&frame), Err(PipelineError::CaptureFailed));
    }
}

#[test]
fn image_with_alpha_is_decoded() {
    let data = [10, 11, 12, 255, 20, 21, 22, 255, 30, 31, 32, 255, 40, 41, 42, 255];
    let image = png_image(2, 2, png::ColorType::Rgba, png::BitDepth::Eight, &data);
    assert_eq!(capture_pixels(&image), Ok(four_pixels()));
}

#[test]
fn image_without_alpha_is_decoded() {
    let data = [10, 11, 12, 20, 21, 22, 30, 31, 32, 40, 41, 42];
    let image = png_image(4, 1, png::ColorType::Rgb, png::BitDepth::Eight, &data);
    assert_eq!(capture_pixels(&image), Ok(four_pixels()));
}

#[test]
fn image_of_another_kind_is_refused() {
    let image = png_image(2, 1, png::ColorType::Grayscale, png::BitDepth::Eight, &[1, 2]);
    assert_eq!(capture_pixels(&image), Err(PipelineError::CaptureFailed));
    let image = png_image(2, 1, png::ColorType::GrayscaleAlpha, png::BitDepth::Eight, &[1, 2, 3, 4]);
    assert_eq!(capture_pixels(&image), Err(PipelineError::CaptureFailed));
    let data = [0, 1, 0, 2, 0, 3, 0, 4, 0, 5, 0, 6];
    let image = png_image(2, 1, png::ColorType::Rgb, png::BitDepth::Sixteen, &data);
    assert_eq!(capture_pixels(&image), Err(PipelineError::CaptureFailed));
}

#[test]
fn bytes_that_are_no_image_are_refused() {
    assert_eq!(capture_pixels(&Vec::new()), Err(PipelineError::CaptureFailed));
    assert_eq!(capture_pixels(&vec![1, 2, 3, 4, 5]), Err(PipelineError::CaptureFailed));
    let data = [10, 11, 12, 20, 21, 22];
    let mut image = png_image(2, 1, png::ColorType::Rgb, png::BitDepth::Eight, &data);
    image.truncate(image.len() / 2);
    assert_eq!(capture_pixels(&image), Err(PipelineError::CaptureFailed));
}
