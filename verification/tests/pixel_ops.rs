//! Buffer-level behavior of the pointwise transforms.

use rsw_cv::PixelBuffer;

fn buffer(width: usize, height: usize, data: Vec<u8>) -> PixelBuffer {
    PixelBuffer::new(width, height, data).expect("valid buffer")
}

#[test]
fn invert_single_black_pixel() {
    let b = buffer(1, 1, vec![0, 0, 0, 255]);
    let inverted = b.invert();
    assert_eq!(inverted.data, vec![255, 255, 255, 255]);
    assert_eq!(inverted.width, 1);
    assert_eq!(inverted.height, 1);
}

#[test]
fn invert_keeps_alpha() {
    let b = buffer(1, 1, vec![10, 20, 30, 40]);
    let inverted = b.invert();
    assert_eq!(inverted.data, vec![245, 235, 225, 40]);
}

#[test]
fn invert_twice_restores_channels() {
    let data = vec![1u8, 2, 3, 4, 250, 100, 0, 255];
    let b = buffer(2, 1, data.clone());
    let twice = b.invert().invert();
    assert_eq!(twice.data, data);
}

#[test]
fn flip_two_pixel_row() {
    let b = buffer(2, 1, vec![10, 20, 30, 255, 200, 100, 50, 255]);
    let flipped = b.flip_horizontal();
    assert_eq!(flipped.data, vec![200, 100, 50, 255, 10, 20, 30, 255]);
    assert_eq!(flipped.width, 2);
    assert_eq!(flipped.height, 1);
}

#[test]
fn flip_twice_restores_buffer() {
    let data: Vec<u8> = (0u8..24).collect();
    let b = buffer(3, 2, data.clone());
    let twice = b.flip_horizontal().flip_horizontal();
    assert_eq!(twice.data, data);
}

#[test]
fn flip_keeps_rows_apart() {
    let b = buffer(2, 2, vec![1, 1, 1, 1, 2, 2, 2, 2, 3, 3, 3, 3, 4, 4, 4, 4]);
    let flipped = b.flip_horizontal();
    assert_eq!(flipped.data, vec![2, 2, 2, 2, 1, 1, 1, 1, 4, 4, 4, 4, 3, 3, 3, 3]);
}

#[test]
fn buffer_new_rejects_length_mismatch() {
    assert!(PixelBuffer::new(2, 2, vec![0u8; 15]).is_none());
    assert!(PixelBuffer::new(2, 2, vec![0u8; 16]).is_some());
    assert!(PixelBuffer::new(0, 5, vec![0u8; 4]).is_none());
    assert!(PixelBuffer::new(0, 0, Vec::new()).is_some());
}
