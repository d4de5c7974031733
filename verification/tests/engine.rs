use convolution_engine::engine::EmulationEngine;

fn varied_buffer(len: usize) -> Vec<u8> {
    let mut out: Vec<u8> = Vec::new();
    for i in 0..len {
        out.push(((i * 37 + 11) % 256) as u8);
    }
    out
}

#[test]
fn new_stores_dimensions_verbatim() {
    let engine = EmulationEngine::new(7, 9);
    assert_eq!(engine.width, 7);
    assert_eq!(engine.height, 9);
}

#[test]
fn uniform_three_by_three_keeps_every_byte() {
    // single interior pixel at (1, 1); all neighbours equal, so the weighted
    // average of weights summing to one leaves 100 in place
    let engine = EmulationEngine::new(3, 3);
    let mut data: Vec<u8> = Vec::new();
    for _ in 0..9 {
        data.extend_from_slice(&[100, 100, 100, 255]);
    }
    let original = data.clone();
    engine.apply_blur_naive(&mut data);
    assert_eq!(data[(1 * 3 + 1) * 4], 100);
    assert_eq!(data[(1 * 3 + 1) * 4 + 1], 100);
    assert_eq!(data[(1 * 3 + 1) * 4 + 2], 100);
    assert_eq!(data[(1 * 3 + 1) * 4 + 3], 255);
    assert_eq!(data, original);
}

#[test]
fn interior_pixel_gets_truncated_weighted_average() {
    // red channel 10..90 by rows, green uniform 8, blue uniform 0:
    // red sum = 10+2*20+30 + 2*40+4*50+2*60 + 70+2*80+90 = 800, /16 = 50
    let engine = EmulationEngine::new(3, 3);
    let reds = [10u8, 20, 30, 40, 50, 60, 70, 80, 90];
    let mut data: Vec<u8> = Vec::new();
    for r in reds {
        data.extend_from_slice(&[r, 8, 0, 255]);
    }
    let original = data.clone();
    engine.apply_blur_naive(&mut data);
    let center = (1 * 3 + 1) * 4;
    assert_eq!(data[center], 50);
    assert_eq!(data[center + 1], 8);
    assert_eq!(data[center + 2], 0);
    assert_eq!(data[center + 3], 255);
    // the eight border pixels are untouched
    for p in [0usize, 1, 2, 3, 5, 6, 7, 8] {
        for c in 0..4 {
            assert_eq!(data[p * 4 + c], original[p * 4 + c]);
        }
    }
}

#[test]
fn center_spike_is_spread_by_center_weight() {
    // all zero but the center red sample: 160 * 4 / 16 = 40
    let engine = EmulationEngine::new(3, 3);
    let mut data = vec![0u8; 36];
    data[(1 * 3 + 1) * 4] = 160;
    engine.apply_blur_naive(&mut data);
    assert_eq!(data[(1 * 3 + 1) * 4], 40);
}

#[test]
fn both_passes_agree_byte_for_byte() {
    let engine = EmulationEngine::new(6, 5);
    let input = varied_buffer(6 * 5 * 4);
    let mut reference = input.clone();
    let mut fast = input.clone();
    engine.apply_blur_naive(&mut reference);
    engine.apply_blur_simd(&mut fast);
    assert_eq!(reference, fast);
    assert_ne!(reference, input);
}

#[test]
fn border_ring_is_unchanged() {
    let engine = EmulationEngine::new(5, 4);
    let input = varied_buffer(5 * 4 * 4);
    let mut reference = input.clone();
    let mut fast = input.clone();
    engine.apply_blur_naive(&mut reference);
    engine.apply_blur_simd(&mut fast);
    for y in 0..4usize {
        for x in 0..5usize {
            if y == 0 || y == 3 || x == 0 || x == 4 {
                for c in 0..4 {
                    let i = (y * 5 + x) * 4 + c;
                    assert_eq!(reference[i], input[i]);
                    assert_eq!(fast[i], input[i]);
                }
            }
        }
    }
}

#[test]
fn alpha_channel_is_unchanged_everywhere() {
    let engine = EmulationEngine::new(5, 5);
    let input = varied_buffer(5 * 5 * 4);
    let mut reference = input.clone();
    let mut fast = input.clone();
    engine.apply_blur_naive(&mut reference);
    engine.apply_blur_simd(&mut fast);
    for p in 0..25usize {
        assert_eq!(reference[p * 4 + 3], input[p * 4 + 3]);
        assert_eq!(fast[p * 4 + 3], input[p * 4 + 3]);
    }
}

#[test]
fn undersized_buffer_is_a_silent_no_op() {
    let engine = EmulationEngine::new(4, 4);
    let input = varied_buffer(10);
    let mut reference = input.clone();
    let mut fast = input.clone();
    engine.apply_blur_naive(&mut reference);
    engine.apply_blur_simd(&mut fast);
    assert_eq!(reference, input);
    assert_eq!(fast, input);
}

#[test]
fn no_interior_pixels_means_no_change() {
    // width 2 and height 2 leave no interior pixel, so the whole buffer
    // passes through unchanged
    let narrow = EmulationEngine::new(2, 7);
    let input = varied_buffer(2 * 7 * 4);
    let mut data = input.clone();
    narrow.apply_blur_naive(&mut data);
    assert_eq!(data, input);
    let mut data = input.clone();
    narrow.apply_blur_simd(&mut data);
    assert_eq!(data, input);

    let flat = EmulationEngine::new(7, 2);
    let input = varied_buffer(7 * 2 * 4);
    let mut data = input.clone();
    flat.apply_blur_naive(&mut data);
    assert_eq!(data, input);
    let mut data = input.clone();
    flat.apply_blur_simd(&mut data);
    assert_eq!(data, input);
}

#[test]
fn zero_dimensions_are_accepted() {
    let engine = EmulationEngine::new(0, 0);
    let mut data = varied_buffer(8);
    let original = data.clone();
    engine.apply_blur_naive(&mut data);
    assert_eq!(data, original);
    engine.apply_blur_simd(&mut data);
    assert_eq!(data, original);
    let grain = engine.synthesize_grain(9);
    assert_eq!(grain.len(), 0);
}

#[test]
fn trailing_bytes_past_the_grid_are_kept() {
    let engine = EmulationEngine::new(3, 3);
    let mut data = varied_buffer(36 + 4);
    let original = data.clone();
    engine.apply_blur_naive(&mut data);
    assert_eq!(data.len(), original.len());
    assert_eq!(&data[36..], &original[36..]);
}

#[test]
fn grain_is_one_uniform_fill() {
    let engine = EmulationEngine::new(3, 2);
    let grain = engine.synthesize_grain(77);
    assert_eq!(grain.len(), 3 * 2 * 4);
    assert!(grain.iter().all(|&b| b == 77));
}

#[test]
fn grain_full_and_zero_intensity() {
    // the host converts a floating-point intensity by truncation toward zero
    let engine = EmulationEngine::new(2, 2);
    let full = engine.synthesize_grain((1.0f32 * 255.0) as u8);
    assert_eq!(full.len(), 16);
    assert!(full.iter().all(|&b| b == 255));
    let zero = engine.synthesize_grain((0.0f32 * 255.0) as u8);
    assert_eq!(zero.len(), 16);
    assert!(zero.iter().all(|&b| b == 0));
}
