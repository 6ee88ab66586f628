use trezor_canvas::canvas::bluralgo::{BlurAlgorithm, Rgb, MAX_RADIUS, MAX_WIDTH};

fn push_pop_uniform(color: u16, radius: usize, width: usize) -> Vec<u16> {
    let mut blur = BlurAlgorithm::new(width, radius).unwrap();
    let row = vec![color; width];
    for _ in 0..(2 * radius + 1) {
        blur.push(&row);
    }
    let mut out = vec![0u16; width];
    blur.pop(&mut out);
    out
}

#[test]
fn new_refuses_what_does_not_fit() {
    assert!(BlurAlgorithm::new(MAX_WIDTH, MAX_RADIUS).is_some());
    assert!(BlurAlgorithm::new(MAX_WIDTH + 1, 1).is_none());
    assert!(BlurAlgorithm::new(100, MAX_RADIUS + 1).is_none());
    // rows without pixels fit a kernel of one pixel, and no other
    assert!(BlurAlgorithm::new(0, 0).is_some());
    assert!(BlurAlgorithm::new(0, 1).is_none());
    // width <= 2 * radius - 1: the kernel does not fit
    assert!(BlurAlgorithm::new(5, 3).is_none());
    assert!(BlurAlgorithm::new(6, 3).is_some());
    assert!(BlurAlgorithm::new(1, 0).is_some());
    assert!(BlurAlgorithm::new(1, 1).is_none());
}

#[test]
fn uniform_rows_are_a_fixed_point_for_a_kernel_of_one_pixel() {
    for color in [0x0000u16, 0xF800, 0x07E0, 0x001F, 0xFFFF, 0x6410, 0x1234] {
        assert_eq!(push_pop_uniform(color, 0, 8), vec![color; 8]);
    }
}

#[test]
fn uniform_rows_are_a_fixed_point_for_every_kernel() {
    for radius in 0..=MAX_RADIUS {
        for color in [0x0000u16, 0xF800, 0x07E0, 0x001F, 0xFFFF, 0x6410, 0x1234, 0x0821] {
            assert_eq!(push_pop_uniform(color, radius, 16), vec![color; 16]);
        }
    }
    assert_eq!(push_pop_uniform(0xFFFF, 1, 4), vec![0xFFFFu16; 4]);
}

#[test]
fn every_color_is_a_fixed_point_of_a_kernel_of_three() {
    for color in 0..=0xFFFFu16 {
        if color % 37 == 0 || color > 0xFFF0 {
            assert_eq!(push_pop_uniform(color, 1, 3), vec![color; 3]);
        }
    }
}

#[test]
fn no_channel_falls_below_the_least_that_went_in() {
    // every input has green 252: so has the output
    let mut blur = BlurAlgorithm::new(4, 1).unwrap();
    blur.push(&[0xFFFFu16; 4]);
    blur.push(&[0xFFE0u16; 4]);
    blur.push(&[0xFFFFu16; 4]);
    let mut out = vec![0u16; 4];
    blur.pop(&mut out);
    assert_eq!(out, vec![0xFFF4u16; 4]);
    for px in out {
        assert_eq!((px >> 3) & 0xFC, 252);
        assert_eq!((px >> 8) & 0xF8, 248);
        assert!((px << 3) & 0xF8 <= 248);
    }
}

#[test]
fn a_bright_row_among_dark_rows_is_spread_without_overshoot() {
    let mut blur = BlurAlgorithm::new(6, 1).unwrap();
    blur.push(&[0u16; 6]);
    blur.push(&[0xFFFFu16; 6]);
    blur.push(&[0u16; 6]);
    let mut out = vec![0u16; 6];
    blur.pop(&mut out);
    // (248 * 341 + 512) >> 10 = 83, (252 * 341 + 512) >> 10 = 84, packed
    assert_eq!(out, vec![0x52AAu16; 6]);
    for px in out {
        assert!(px <= 0xFFFF);
        assert!((px >> 11) <= 31 && ((px >> 5) & 63) <= 63);
    }
}

#[test]
fn a_bright_column_is_spread_over_its_neighbours() {
    let mut blur = BlurAlgorithm::new(6, 1).unwrap();
    let row = [0u16, 0, 0xFFFF, 0, 0, 0];
    for _ in 0..3 {
        blur.push(&row);
    }
    let mut out = vec![0u16; 6];
    blur.pop(&mut out);
    assert_eq!(out, vec![0x0, 0x52AA, 0x52AA, 0x52AA, 0x0, 0x0]);
}

#[test]
fn the_window_slides_row_by_row() {
    let mut blur = BlurAlgorithm::new(4, 1).unwrap();
    blur.push(&[0xFFFFu16; 4]);
    blur.push(&[0xFFFFu16; 4]);
    blur.push(&[0xFFFFu16; 4]);
    // three black rows push the white ones out again
    blur.push(&[0u16; 4]);
    blur.push(&[0u16; 4]);
    blur.push(&[0u16; 4]);
    let mut out = vec![0xAAAAu16; 4];
    blur.pop(&mut out);
    assert_eq!(out, vec![0u16; 4]);
}

#[test]
fn pop_fills_a_shorter_buffer_with_the_beginning_of_the_row() {
    let mut blur = BlurAlgorithm::new(4, 0).unwrap();
    blur.push(&[0x0800u16, 0x1000, 0x1800, 0x2000]);
    let mut out = vec![0u16; 2];
    blur.pop(&mut out);
    assert_eq!(out, vec![0x0800u16, 0x1000]);
}

#[test]
fn channels_of_a_pixel() {
    let c = Rgb::<u16>::from_pixel(0x6410);
    assert_eq!((c.r, c.g, c.b), (96, 128, 128));
    assert_eq!(Rgb { r: 96u8, g: 128u8, b: 128u8 }.to_pixel(), 0x6410);
    // to the nearest: (744 * 341 + 512) >> 10, (3 * 341 + 512) >> 10
    let m = Rgb { r: 744u16, g: 0u16, b: 3u16 }.mulshift(341, 10);
    assert_eq!((m.r, m.g, m.b), (248, 0, 1));
    let plain = Rgb { r: 7u16, g: 0u16, b: 255u16 }.mulshift(1, 0);
    assert_eq!((plain.r, plain.g, plain.b), (7, 0, 255));
}

#[test]
fn a_filter_for_rows_without_pixels_yields_rows_without_pixels() {
    let mut blur = BlurAlgorithm::new(0, 0).unwrap();
    blur.push(&[]);
    let mut out: Vec<u16> = Vec::new();
    blur.pop(&mut out);
    assert_eq!(out, Vec::<u16>::new());
}
