//! Kernel construction and convolution behavior.

use rsw_cv::FilterError;
use rsw_cv::Kernel;
use rsw_cv::PixelBuffer;
use rsw_cv::WEIGHT_SCALE;
use rsw_cv::convolve;

/// Raw fixed-point Gaussian weights, side = ceil(6 * sigma), weight at
/// (x, y) = exp(-((x - side/2)^2 + (y - side/2)^2) / (2 * sigma^2)).
fn gaussian_raw(sigma: f32) -> (usize, Vec<u32>) {
    let side = (6.0 * sigma).ceil() as usize;
    let norm = 2.0 * sigma * sigma;
    let mut raw: Vec<u32> = Vec::new();
    for y in 0..side {
        for x in 0..side {
            let x_dist = (x as f32 - side as f32 / 2.0).powi(2);
            let y_dist = (y as f32 - side as f32 / 2.0).powi(2);
            let weight = (-1.0 * (x_dist + y_dist) / norm).exp();
            raw.push((weight * 1_073_741_824.0).round() as u32);
        }
    }
    (side, raw)
}

fn gaussian_kernel(sigma: f32) -> Kernel {
    let (side, raw) = gaussian_raw(sigma);
    Kernel::from_raw_weights(side, &raw).expect("valid kernel")
}

#[test]
fn gaussian_kernel_weights_sum_to_scale() {
    let k = gaussian_kernel(5.0);
    assert_eq!(k.side, 30);
    let total: u64 = k.weights.iter().sum();
    assert_eq!(total, WEIGHT_SCALE);
}

#[test]
fn small_gaussian_kernel_weights_sum_to_scale() {
    let k = gaussian_kernel(0.5);
    assert_eq!(k.side, 3);
    let total: u64 = k.weights.iter().sum();
    assert_eq!(total, WEIGHT_SCALE);
}

#[test]
fn identity_kernel_preserves_image() {
    let k = Kernel::from_raw_weights(1, &vec![7]).expect("valid kernel");
    assert_eq!(k.weights, vec![WEIGHT_SCALE]);
    let data: Vec<u8> = (0u8..16).collect();
    let b = PixelBuffer::new(2, 2, data.clone()).unwrap();
    let out = convolve(&b, &k);
    assert_eq!(out.data, data);
}

#[test]
fn box_kernel_exact_values() {
    // A 3x3 box kernel: each entry becomes 1048576 / 9 = 116508 and the
    // center absorbs the remainder 4.
    let k = Kernel::from_raw_weights(3, &vec![1; 9]).expect("valid kernel");
    let total: u64 = k.weights.iter().sum();
    assert_eq!(total, WEIGHT_SCALE);
    assert_eq!(k.weights[0], 116508);
    assert_eq!(k.weights[4], 116512);

    // A uniform 3x3 image of value 100: the interior pixel keeps its value,
    // a corner sums only the four in-image terms:
    // (100 * (116512 + 3 * 116508) + 524288) / 1048576 = 44.
    let b = PixelBuffer::new(3, 3, vec![100u8; 36]).unwrap();
    let out = convolve(&b, &k);
    let center = 4 * (1 * 3 + 1);
    for c in 0..4 {
        assert_eq!(out.data[center + c], 100);
    }
    for c in 0..4 {
        assert_eq!(out.data[c], 44);
    }
}

#[test]
fn white_4x4_corner_darkens() {
    let k = gaussian_kernel(5.0);
    let b = PixelBuffer::new(4, 4, vec![255u8; 64]).unwrap();
    let out = convolve(&b, &k);
    assert_eq!(out.width, 4);
    assert_eq!(out.height, 4);
    assert!(out.data[0] < 255);
}

#[test]
fn uniform_interior_is_preserved_corner_darkens() {
    // 9x9 uniform image, sigma small enough that the 3x3 window fits fully
    // around the center pixel: the interior keeps its value, the corner
    // loses the skipped mass.
    let k = gaussian_kernel(0.5);
    let b = PixelBuffer::new(9, 9, vec![200u8; 4 * 81]).unwrap();
    let out = convolve(&b, &k);
    let center = 4 * (4 * 9 + 4);
    for c in 0..4 {
        assert_eq!(out.data[center + c], 200);
    }
    assert!(out.data[0] < 200);
}

#[test]
fn blur_preserves_dimensions() {
    let k = gaussian_kernel(1.0);
    let data: Vec<u8> = (0..(4 * 7 * 2)).map(|n| (n * 13 % 256) as u8).collect();
    let b = PixelBuffer::new(7, 2, data).unwrap();
    let out = convolve(&b, &k);
    assert_eq!(out.width, 7);
    assert_eq!(out.height, 2);
    assert_eq!(out.data.len(), 4 * 7 * 2);
}

#[test]
fn kernel_rejects_zero_side() {
    assert!(matches!(
        Kernel::from_raw_weights(0, &Vec::new()),
        Err(FilterError::InvalidParameterError)
    ));
}

#[test]
fn kernel_rejects_length_mismatch() {
    assert!(matches!(
        Kernel::from_raw_weights(2, &vec![1, 2, 3]),
        Err(FilterError::InvalidParameterError)
    ));
}

#[test]
fn kernel_rejects_zero_mass() {
    assert!(matches!(
        Kernel::from_raw_weights(2, &vec![0, 0, 0, 0]),
        Err(FilterError::InvalidParameterError)
    ));
}
