use motion_detector::frame::{absdiff, dilate, threshold, Frame};
use motion_detector::pipeline::step;
use motion_detector::region::mask_has_blob;

fn frame_of(width: usize, height: usize, pixels: Vec<u8>) -> Frame {
    Frame::from_pixels(width, height, pixels).expect("pixel buffer must match dimensions")
}

#[test]
fn absdiff_is_exact_per_pixel() {
    let a = frame_of(3, 1, vec![10, 200, 30]);
    let b = frame_of(3, 1, vec![40, 180, 30]);
    let d = absdiff(&a, &b);
    assert_eq!(d.pixels, vec![30, 20, 0]);
}

#[test]
fn threshold_keeps_only_strictly_above_25() {
    let d = frame_of(4, 1, vec![0, 25, 26, 255]);
    let m = threshold(&d);
    assert_eq!(m.pixels, vec![0, 0, 255, 255]);
}

#[test]
fn dilate_grows_a_single_pixel_into_a_block() {
    let mut pixels = vec![0u8; 25];
    pixels[2 * 5 + 2] = 255;
    let m = frame_of(5, 5, pixels);
    let out = dilate(&m);
    for r in 0..5usize {
        for c in 0..5usize {
            let expected = (1..=3).contains(&r) && (1..=3).contains(&c);
            assert_eq!(out.pixels[r * 5 + c] == 255, expected, "at ({r}, {c})");
        }
    }
}

#[test]
fn blob_gate_is_strict() {
    // A 2x2 region has area 4: it passes a gate of 3 and fails a gate of 4.
    let mut pixels = vec![0u8; 16];
    for r in 1..3usize {
        for c in 1..3usize {
            pixels[r * 4 + c] = 255;
        }
    }
    let m = frame_of(4, 4, pixels);
    assert!(mask_has_blob(&m, 3));
    assert!(!mask_has_blob(&m, 4));
}

#[test]
fn diagonal_cells_form_one_region() {
    // Two diagonal pixels touch under 8-connectivity: one region of 2.
    let mut pixels = vec![0u8; 9];
    pixels[0] = 255;
    pixels[4] = 255;
    let m = frame_of(3, 3, pixels);
    assert!(mask_has_blob(&m, 1));
    assert!(!mask_has_blob(&m, 2));
}

#[test]
fn separate_regions_are_not_pooled() {
    // Two single pixels far apart: no region exceeds 1.
    let mut pixels = vec![0u8; 25];
    pixels[0] = 255;
    pixels[24] = 255;
    let m = frame_of(5, 5, pixels);
    assert!(!mask_has_blob(&m, 1));
    assert!(mask_has_blob(&m, 0));
}

#[test]
fn identical_frames_yield_no_motion() {
    let reference = frame_of(8, 8, vec![77; 64]);
    let same = frame_of(8, 8, vec![77; 64]);
    let (motion, new_reference) = step(&reference, same, 1);
    assert!(!motion);
    assert_eq!(new_reference.pixels, vec![77; 64]);
}

#[test]
fn raising_min_area_only_turns_motion_off() {
    // A bright 4x4 block on a dark background; dilation twice grows it to
    // 8x8 = 64 cells.
    let reference = frame_of(16, 16, vec![0; 256]);
    let mut pixels = vec![0u8; 256];
    for r in 6..10usize {
        for c in 6..10usize {
            pixels[r * 16 + c] = 200;
        }
    }
    let (low_gate, _) = step(&reference, frame_of(16, 16, pixels.clone()), 10);
    let (exact_gate, _) = step(&reference, frame_of(16, 16, pixels.clone()), 63);
    let (high_gate, _) = step(&reference, frame_of(16, 16, pixels), 64);
    assert!(low_gate);
    assert!(exact_gate);
    assert!(!high_gate);
}

#[test]
fn empty_mask_has_no_region() {
    let m = frame_of(0, 0, vec![]);
    assert!(!mask_has_blob(&m, 0));
    let n = frame_of(4, 4, vec![0; 16]);
    assert!(!mask_has_blob(&n, 0));
}

#[test]
fn dilation_clips_at_the_border() {
    let mut pixels = vec![0u8; 9];
    pixels[0] = 255;
    let m = frame_of(3, 3, pixels);
    let out = dilate(&m);
    for r in 0..3usize {
        for c in 0..3usize {
            let expected = r <= 1 && c <= 1;
            assert_eq!(out.pixels[r * 3 + c] == 255, expected, "at ({r}, {c})");
        }
    }
}

#[test]
fn from_pixels_rejects_wrong_length() {
    assert!(Frame::from_pixels(4, 4, vec![0; 15]).is_none());
    assert!(Frame::from_pixels(4, 4, vec![0; 16]).is_some());
    assert!(Frame::from_pixels(0, 4, vec![]).is_some());
    assert!(Frame::from_pixels(0, 4, vec![1]).is_none());
}
