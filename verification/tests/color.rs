use trezor_canvas::display::{
    clamp_coords, get_color_table, icon_rect, interpolate_colors, rect_rounded2_pixel,
    rounded_radius_ok,
    text_center_start, text_right_start, text_top_left_baseline, Color, Font, Glyph,
};
use trezor_canvas::geometry::{Offset, Point, Rect};

#[test]
fn rgb_packs_to_565() {
    assert_eq!(Color::rgb(96, 128, 128).to_u16(), 0x6410);
    assert_eq!(Color::rgb(255, 255, 255), Color::white());
    assert_eq!(Color::rgb(0, 0, 0), Color::black());
    assert_eq!(Color::rgb(128, 0, 192).to_u16(), 0x8018);
    assert_eq!(Color::from_u16(0x1234).to_u16(), 0x1234);
}

#[test]
fn channels_come_back_on_the_8_bit_scale() {
    let c = Color::rgb(96, 128, 200);
    assert_eq!(c.r(), 96);
    assert_eq!(c.g(), 128);
    assert_eq!(c.b(), 200);
    let w = Color::white();
    assert_eq!((w.r(), w.g(), w.b()), (0xF8, 0xFC, 0xF8));
}

#[test]
fn negate_flips_every_bit() {
    assert_eq!(Color::from_u16(0x0F0F).negate().to_u16(), 0xF0F0);
    assert_eq!(Color::black().negate(), Color::white());
}

#[test]
fn blend_weights_the_565_fields() {
    assert_eq!(Color::from_u16(0x0000).blend(Color::from_u16(0xFFFF), 128).to_u16(), 0x7BEF);
    assert_eq!(Color::from_u16(0xF800).blend(Color::from_u16(0x001F), 64).to_u16(), 0xB807);
    assert_eq!(Color::from_u16(0x1234).blend(Color::from_u16(0xABCD), 200).to_u16(), 0x836E);
}

#[test]
fn blend_at_the_ends_gives_foreground_or_background() {
    let bg = Color::from_u16(0x1234);
    let fg = Color::from_u16(0xABCD);
    assert_eq!(bg.blend(fg, 255), fg);
    assert_eq!(bg.blend(fg, 0), bg);
}

#[test]
fn rgba_blends_on_a_scale_of_256() {
    assert_eq!(Color::rgba(Color::black(), 255, 255, 255, 128).to_u16(), 0x7BEF);
    assert_eq!(Color::rgba(Color::white(), 0, 0, 0, 64).to_u16(), 0xBDF7);
    assert_eq!(Color::rgba(Color::from_u16(0x1234), 8, 16, 24, 256), Color::rgb(8, 16, 24));
    assert_eq!(Color::rgba(Color::rgb(8, 16, 24), 200, 100, 50, 0), Color::rgb(8, 16, 24));
}

#[test]
fn color_table_runs_from_background_to_foreground() {
    let t = get_color_table(Color::white(), Color::black());
    let expected: [u16; 16] = [
        0x0, 0x1082, 0x2104, 0x3186, 0x4208, 0x52aa, 0x632c, 0x73ae, 0x8430, 0x94b2, 0xa554,
        0xb5d6, 0xc658, 0xd6da, 0xe75c, 0xffff,
    ];
    for i in 0..16 {
        assert_eq!(t[i].to_u16(), expected[i]);
        assert_eq!(t[i], interpolate_colors(Color::white(), Color::black(), i as u16));
    }
}

#[test]
fn clamp_coords_cuts_to_the_panel() {
    assert_eq!(
        clamp_coords(Point::new(-5, 230), Offset::new(20, 20)),
        Rect { x0: 0, y0: 230, x1: 15, y1: 240 }
    );
    assert_eq!(
        clamp_coords(Point::new(10, 10), Offset::new(20, 30)),
        Rect { x0: 10, y0: 10, x1: 30, y1: 40 }
    );
}

#[test]
fn fonts_are_identifiers() {
    assert_eq!(Font::new(-2), Font::bold());
    assert_eq!(Font::normal().id(), -1);
    assert_eq!(Font::mono().id(), -3);
}

#[test]
fn corner_radii_of_a_rounded_bar() {
    for radius in 0..=255u8 {
        assert_eq!(rounded_radius_ok(radius), [2, 4, 8, 16].contains(&radius));
    }
}

#[test]
fn texts_are_placed_from_a_point_of_their_baseline() {
    assert_eq!(text_center_start(Point::new(100, 50), 31), Point::new(85, 50));
    assert_eq!(text_center_start(Point::new(0, 0), 0), Point::new(0, 0));
    assert_eq!(text_right_start(Point::new(100, 50), 31), Point::new(69, 50));
    assert_eq!(text_top_left_baseline(Point::new(3, 4), 12), Point::new(3, 16));
}

#[test]
fn a_progress_bar_has_rounded_corners_a_border_and_a_filled_part() {
    let fg = Color::from_u16(0xFFFF);
    let bg = Color::from_u16(0x0000);
    let px = |x, y, on_text| rect_rounded2_pixel(x, y, 10, 6, 0, 4, on_text, fg, bg);
    // the corner blocks: three pixels out, the inner one drawn
    assert_eq!(px(0, 0, false), bg);
    assert_eq!(px(1, 0, false), bg);
    assert_eq!(px(0, 1, false), bg);
    assert_eq!(px(1, 1, false), fg);
    assert_eq!(px(9, 5, false), bg);
    assert_eq!(px(8, 4, false), fg);
    assert_eq!(px(8, 1, false), fg);
    assert_eq!(px(1, 4, false), fg);
    // the border
    assert_eq!(px(5, 0, false), fg);
    assert_eq!(px(0, 3, false), fg);
    assert_eq!(px(9, 2, false), fg);
    // inside: filled up to column 4, empty after it
    assert_eq!(px(3, 2, false), fg);
    assert_eq!(px(4, 2, false), fg);
    assert_eq!(px(5, 2, false), bg);
    // under the text the color is flipped
    assert_eq!(px(3, 2, true), bg);
    assert_eq!(px(5, 2, true), fg);
    // a filled part that goes round the end of the bar
    let round = |x| rect_rounded2_pixel(x, 2, 10, 6, 6, 3, false, fg, bg);
    assert_eq!((round(2), round(4), round(7)), (fg, bg, fg));
}

#[test]
fn a_glyph_covers_its_box_on_the_panel() {
    let data = [0u8; 8];
    let g = Glyph::new(4, 4, 5, 1, 3, &data);
    assert_eq!(g.window(Point::new(10, 20)), Rect { x0: 11, y0: 17, x1: 15, y1: 21 });
    // cut to the panel
    assert_eq!(g.window(Point::new(-2, 1)), Rect { x0: 0, y0: 0, x1: 3, y1: 2 });
    assert_eq!(g.window(Point::new(238, 241)), Rect { x0: 239, y0: 238, x1: 240, y1: 240 });
}

#[test]
fn an_icon_is_placed_around_its_center() {
    assert_eq!(icon_rect(Point::new(10, 20), Offset::new(4, 6)), Rect { x0: 8, y0: 17, x1: 12, y1: 23 });
    assert_eq!(icon_rect(Point::new(10, 20), Offset::new(5, 7)), Rect { x0: 8, y0: 17, x1: 13, y1: 24 });
    assert_eq!(icon_rect(Point::new(0, 0), Offset::new(0, 0)), Rect { x0: 0, y0: 0, x1: 0, y1: 0 });
}
