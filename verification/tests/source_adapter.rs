use mnist_classifier::error::PipelineError;
use mnist_classifier::grid::{gray, IntensityGrid};

fn canvas(width: u32, height: u32, pixel: [u8; 4]) -> Vec<u8> {
    let mut bytes = Vec::new();
    for _ in 0..(width * height) {
        bytes.extend_from_slice(&pixel);
    }
    bytes
}

#[test]
fn rgba_buffer_one_byte_short_is_invalid() {
    let mut bytes = canvas(3, 2, [0, 0, 0, 255]);
    bytes.pop();
    assert_eq!(bytes.len(), 3 * 2 * 4 - 1);
    assert_eq!(IntensityGrid::from_rgba(&bytes, 3, 2), Err(PipelineError::InvalidBufferSize));
}

#[test]
fn rgba_buffer_one_byte_long_is_invalid() {
    let mut bytes = canvas(3, 2, [0, 0, 0, 255]);
    bytes.push(0);
    assert_eq!(IntensityGrid::from_rgba(&bytes, 3, 2), Err(PipelineError::InvalidBufferSize));
}

#[test]
fn rgba_buffer_with_swapped_pixel_count_is_invalid() {
    let bytes = canvas(3, 2, [0, 0, 0, 255]);
    assert_eq!(IntensityGrid::from_rgba(&bytes, 3, 3), Err(PipelineError::InvalidBufferSize));
    assert_eq!(IntensityGrid::from_rgba(&bytes, 0, 2), Err(PipelineError::InvalidBufferSize));
}

#[test]
fn rgba_buffer_of_exact_length_is_accepted() {
    let bytes = canvas(3, 2, [9, 9, 9, 255]);
    let grid = IntensityGrid::from_rgba(&bytes, 3, 2).unwrap();
    assert_eq!(grid.width(), 3);
    assert_eq!(grid.height(), 2);
    assert_eq!(grid.pixels(), &vec![9u8; 6]);
}

#[test]
fn transparent_canvas_is_all_black() {
    let bytes = canvas(4, 3, [200, 17, 255, 0]);
    let grid = IntensityGrid::from_rgba(&bytes, 4, 3).unwrap();
    assert_eq!(grid.pixels(), &vec![0u8; 12]);
}

#[test]
fn canvas_without_pixels_is_empty() {
    assert_eq!(IntensityGrid::from_rgba(&[], 0, 0), Err(PipelineError::EmptyCanvas));
    assert_eq!(IntensityGrid::from_rgba(&[], 0, 5), Err(PipelineError::EmptyCanvas));
    assert_eq!(IntensityGrid::from_rgba(&[], 7, 0), Err(PipelineError::EmptyCanvas));
}

#[test]
fn opaque_pixel_is_mean_of_channels() {
    assert_eq!(gray(30, 60, 90, 255), 60);
    assert_eq!(gray(255, 255, 255, 255), 255);
    assert_eq!(gray(0, 0, 0, 255), 0);
    assert_eq!(gray(1, 1, 0, 255), 0);
    assert_eq!(gray(255, 255, 254, 255), 254);
}

#[test]
fn alpha_scales_brightness() {
    // 128 * (200 + 100 + 50) / 765 = 58.56...
    assert_eq!(gray(200, 100, 50, 128), 58);
    // 63 * (136 + 51 + 68) / 765 = 21 exactly
    assert_eq!(gray(136, 51, 68, 63), 21);
    assert_eq!(gray(255, 255, 255, 1), 1);
    assert_eq!(gray(255, 255, 254, 1), 0);
    assert_eq!(gray(255, 255, 255, 0), 0);
}

#[test]
fn rgba_pixels_are_converted_in_order() {
    let bytes = vec![
        255, 255, 255, 255, // white
        0, 0, 0, 255, // black
        30, 60, 90, 255, // mean 60
        200, 100, 50, 128, // half transparent
        255, 0, 0, 0, // transparent red
        10, 20, 33, 255, // mean 21
    ];
    let grid = IntensityGrid::from_rgba(&bytes, 3, 2).unwrap();
    assert_eq!(grid.pixels(), &vec![255, 0, 60, 58, 0, 21]);
    assert_eq!(grid.get(0, 0), Some(255));
    assert_eq!(grid.get(2, 0), Some(60));
    assert_eq!(grid.get(0, 1), Some(58));
    assert_eq!(grid.get(2, 1), Some(21));
    assert_eq!(grid.get(3, 0), None);
    assert_eq!(grid.get(0, 2), None);
}

#[test]
fn luminance_data_is_taken_as_it_is() {
    let grid = IntensityGrid::from_luma(vec![1, 2, 3, 4, 5, 6], 2, 3).unwrap();
    assert_eq!(grid.width(), 2);
    assert_eq!(grid.height(), 3);
    assert_eq!(grid.pixels(), &vec![1, 2, 3, 4, 5, 6]);
    assert_eq!(grid.get(1, 2), Some(6));
}

#[test]
fn luminance_data_of_wrong_length_is_invalid() {
    assert_eq!(IntensityGrid::from_luma(vec![1, 2, 3, 4, 5], 2, 3), Err(PipelineError::InvalidBufferSize));
    assert_eq!(IntensityGrid::from_luma(vec![1], 0, 3), Err(PipelineError::InvalidBufferSize));
    assert_eq!(IntensityGrid::from_luma(Vec::new(), 0, 3), Err(PipelineError::EmptyCanvas));
}

#[test]
fn both_sources_give_the_same_grid() {
    let bytes = canvas(2, 2, [80, 80, 80, 255]);
    let from_canvas = IntensityGrid::from_rgba(&bytes, 2, 2).unwrap();
    let from_file = IntensityGrid::from_luma(vec![80; 4], 2, 2).unwrap();
    assert_eq!(from_canvas, from_file);
}
