use braille_art::braille::{encode_with_threshold, next_multiple_ge_x, to_unicode};
use braille_art::options::{Args, ThresholdMethod};
use braille_art::phase::State;
use braille_art::raster::{resize_to_width, SourceImage};

fn image(width: u32, height: u32, pixels: Vec<u8>) -> SourceImage {
    SourceImage::new(width, height, pixels).unwrap()
}

fn uniform(width: u32, height: u32, value: u8) -> SourceImage {
    image(width, height, vec![value; (width * height) as usize])
}

#[test]
fn single_ink_pixel_top_left() {
    let mut pixels = vec![0u8; 8];
    pixels[0] = 255;
    let out = to_unicode(&image(2, 4, pixels), ThresholdMethod::Fixed(100));
    assert_eq!(out, "\u{2808}\n");
}

#[test]
fn blank_cell_is_u2800() {
    let out = to_unicode(&uniform(2, 4, 0), ThresholdMethod::Fixed(200));
    assert_eq!(out, "\u{2800}\n");
}

#[test]
fn full_cell_is_u28ff() {
    let out = to_unicode(&uniform(2, 4, 255), ThresholdMethod::Fixed(100));
    assert_eq!(out, "\u{28FF}\n");
}

#[test]
fn intensity_equal_to_threshold_is_not_ink() {
    assert_eq!(to_unicode(&uniform(2, 4, 100), ThresholdMethod::Fixed(100)), "\u{2800}\n");
    assert_eq!(to_unicode(&uniform(2, 4, 101), ThresholdMethod::Fixed(100)), "\u{28FF}\n");
}

#[test]
fn each_pixel_has_its_dot() {
    let expected: [u32; 8] = [0x08, 0x01, 0x10, 0x02, 0x20, 0x04, 0x80, 0x40];
    for i in 0..8 {
        let mut pixels = vec![0u8; 8];
        pixels[i] = 200;
        let codes = encode_with_threshold(&image(2, 4, pixels), 127);
        assert_eq!(codes, vec![0x2800 + expected[i], 10]);
    }
}

#[test]
fn odd_width_pads_like_a_zero_column() {
    let narrow: Vec<u8> = vec![200, 0, 200, 0, 200, 0, 0, 0, 200, 200, 200, 200];
    let mut wide: Vec<u8> = Vec::new();
    for row in narrow.chunks(3) {
        wide.extend_from_slice(row);
        wide.push(0);
    }
    let a = to_unicode(&image(3, 4, narrow), ThresholdMethod::Fixed(127));
    let b = to_unicode(&image(4, 4, wide), ThresholdMethod::Fixed(127));
    assert_eq!(a, b);
    assert_eq!(a, "\u{28CA}\u{28A8}\n");
}

#[test]
fn even_sizes_give_full_lines() {
    let out = to_unicode(&uniform(6, 8, 255), ThresholdMethod::Fixed(0));
    let lines: Vec<&str> = out.split_terminator('\n').collect();
    assert_eq!(lines.len(), 2);
    for line in lines {
        assert_eq!(line, "\u{28FF}\u{28FF}\u{28FF}");
    }
    assert!(out.ends_with('\n'));
}

#[test]
fn short_last_line_is_padded() {
    let out = to_unicode(&uniform(2, 5, 255), ThresholdMethod::Fixed(0));
    assert_eq!(out, "\u{28FF}\n\u{2809}\n");
}

#[test]
fn encoding_twice_gives_the_same_text() {
    let pixels: Vec<u8> = (0..40u32).map(|i| (i * 37 % 256) as u8).collect();
    let img = image(5, 8, pixels);
    let a = to_unicode(&img, ThresholdMethod::Fixed(90));
    let b = to_unicode(&img, ThresholdMethod::Fixed(90));
    assert_eq!(a, b);
    let c = to_unicode(&img, ThresholdMethod::Adaptive(2));
    let d = to_unicode(&img, ThresholdMethod::Adaptive(2));
    assert_eq!(c, d);
}

#[test]
fn adaptive_marks_locally_bright_pixels() {
    let pixels: Vec<u8> = vec![140, 0, 140, 0, 140, 0, 140, 0];
    let img = image(2, 4, pixels);
    assert_eq!(to_unicode(&img, ThresholdMethod::Adaptive(1)), "\u{28B8}\n");
    assert_eq!(to_unicode(&img, ThresholdMethod::Fixed(150)), "\u{2800}\n");
}

#[test]
fn adaptive_flat_field_is_all_at_its_local_mean() {
    let out = to_unicode(&uniform(4, 4, 90), ThresholdMethod::Adaptive(1));
    assert_eq!(out, "\u{28FF}\u{28FF}\n");
}

#[test]
fn next_multiple_rounds_up() {
    assert_eq!(next_multiple_ge_x(3, 2), 4);
    assert_eq!(next_multiple_ge_x(4, 2), 4);
    assert_eq!(next_multiple_ge_x(5, 4), 8);
    assert_eq!(next_multiple_ge_x(0, 4), 0);
}

#[test]
fn phase_cycles_through_four_rows() {
    assert_eq!(State::S0.next_state(), State::S1);
    assert_eq!(State::S1.next_state(), State::S2);
    assert_eq!(State::S2.next_state(), State::S3);
    assert_eq!(State::S3.next_state(), State::S0);
}

#[test]
fn image_needs_one_intensity_per_pixel() {
    assert!(SourceImage::new(2, 2, vec![0; 3]).is_none());
    assert!(SourceImage::new(2, 2, vec![0; 4]).is_some());
}

#[test]
fn method_follows_the_arguments() {
    let mut args = Args { path: String::from("a.png"), width: None, threshold: None, block_radius: None };
    assert_eq!(args.threshold_method(), ThresholdMethod::Fixed(127));
    args.threshold = Some(40);
    assert_eq!(args.threshold_method(), ThresholdMethod::Fixed(40));
    args.threshold = None;
    args.block_radius = Some(3);
    assert_eq!(args.threshold_method(), ThresholdMethod::Adaptive(3));
}

#[test]
fn resize_scales_to_the_width() {
    let img = uniform(4, 4, 200);
    let small = resize_to_width(img, Some(2));
    assert_eq!((small.width, small.height), (2, 2));
    assert_eq!(small.pixels.len(), 4);
    let same = resize_to_width(uniform(3, 1, 7), None);
    assert_eq!(same, uniform(3, 1, 7));
}
