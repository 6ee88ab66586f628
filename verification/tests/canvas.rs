use trezor_canvas::canvas::display;
use trezor_canvas::canvas::mono::MonoCanvas;
use trezor_canvas::canvas::mono1;
use trezor_canvas::canvas::mono4;
use trezor_canvas::canvas::rgb::{RgbCanvas, RgbCanvasEx, TextAttr};
use trezor_canvas::canvas::rgb565::Canvas;
use trezor_canvas::canvas::rgba8888;
use trezor_canvas::display::{Color, Font};
use trezor_canvas::gdc::{
    AllocError, GdcBitmap, GdcBitmapRef, GdcBuffer, GdcFormat, GdcTextAttr, PixelData,
};
use trezor_canvas::geometry::{Offset, Point, Rect};
use trezor_canvas::viewport::Viewport;

fn dump(c: &Canvas) -> Vec<Vec<u16>> {
    let h = c.size().y;
    (0..h).map(|y| c.row(y).unwrap().to_vec()).collect()
}

fn rows(px: &[&[u16]]) -> Vec<Vec<u16>> {
    px.iter().map(|r| r.to_vec()).collect()
}

const W: u16 = 0xFFFF;

#[test]
fn new_refuses_an_invalid_size() {
    assert!(matches!(Canvas::new(Offset::new(0, 5)), Err(AllocError::InvalidSize)));
    assert!(matches!(Canvas::new(Offset::new(5, -1)), Err(AllocError::InvalidSize)));
    assert!(matches!(mono1::Canvas::new(Offset::new(0, 0)), Err(AllocError::InvalidSize)));
    assert!(matches!(mono4::MonoCanvas::new(Offset::new(-3, 4)), Err(AllocError::InvalidSize)));
    assert!(display::Canvas::acquire(Offset::new(0, 240)).is_none());
    let c = Canvas::new(Offset::new(4, 3)).unwrap();
    assert_eq!(c.size(), Offset::new(4, 3));
    assert_eq!(c.bounds(), Rect { x0: 0, y0: 0, x1: 4, y1: 3 });
    assert_eq!(c.witdh(), 4);
    assert_eq!(c.height(), 3);
    assert_eq!(c.viewport(), Viewport::from_size(Offset::new(4, 3)));
    assert_eq!(dump(&c), vec![vec![0u16; 4]; 3]);
}

#[test]
fn an_empty_backing_store_is_refused() {
    assert!(GdcBuffer::<u8>::allocate(0).is_none());
    assert!(GdcBuffer::<u16>::allocate(0).is_none());
    assert!(GdcBuffer::<u32>::allocate(0).is_none());
    assert_eq!(GdcBuffer::<u16>::allocate(3).unwrap().data, vec![0u16; 3]);
    assert_eq!(GdcBuffer::<u8>::allocate(2).unwrap().data, vec![0u8; 2]);
    assert_eq!(GdcBuffer::<u32>::allocate(1).unwrap().data, vec![0u32; 1]);
    // a store that no allocator can hand out
    assert!(GdcBuffer::<u32>::allocate(usize::MAX / 2).is_none());
}

#[test]
fn row_is_bounds_checked() {
    let c = Canvas::new(Offset::new(4, 3)).unwrap();
    assert!(c.row(-1).is_none());
    assert!(c.row(3).is_none());
    assert_eq!(c.row(2).unwrap().len(), 4);
}

#[test]
fn fill_rect_is_cut_to_the_clip() {
    let mut c = Canvas::new(Offset::new(6, 4)).unwrap();
    c.fill_rect(Rect { x0: -3, y0: 1, x1: 2, y1: 10 }, Color::from_u16(7));
    assert_eq!(
        dump(&c),
        rows(&[&[0, 0, 0, 0, 0, 0], &[7, 7, 0, 0, 0, 0], &[7, 7, 0, 0, 0, 0], &[7, 7, 0, 0, 0, 0]])
    );
    // wholly clipped away: a silent no-op
    c.fill_rect(Rect { x0: 10, y0: 10, x1: 20, y1: 20 }, Color::from_u16(9));
    c.fill_rect(Rect { x0: 3, y0: 3, x1: 3, y1: 4 }, Color::from_u16(9));
    assert_eq!(
        dump(&c),
        rows(&[&[0, 0, 0, 0, 0, 0], &[7, 7, 0, 0, 0, 0], &[7, 7, 0, 0, 0, 0], &[7, 7, 0, 0, 0, 0]])
    );
}

#[test]
fn the_viewport_moves_and_clips() {
    let mut c = Canvas::new(Offset::new(6, 4)).unwrap();
    let before = c.set_window(Rect { x0: 2, y0: 1, x1: 5, y1: 3 });
    assert_eq!(before, Viewport::from_size(Offset::new(6, 4)));
    assert_eq!(c.viewport().clip, Rect { x0: 2, y0: 1, x1: 5, y1: 3 });
    assert_eq!(c.viewport().origin, Offset::new(2, 1));
    c.fill_rect(Rect { x0: 0, y0: 0, x1: 100, y1: 100 }, Color::from_u16(5));
    c.draw_pixel(Point::new(1, 1), Color::from_u16(6));
    c.draw_pixel(Point::new(-1, 0), Color::from_u16(6));
    assert_eq!(
        dump(&c),
        rows(&[&[0, 0, 0, 0, 0, 0], &[0, 0, 5, 5, 5, 0], &[0, 0, 5, 6, 5, 0], &[0, 0, 0, 0, 0, 0]])
    );
}

#[test]
fn set_viewport_cannot_widen_the_clip_beyond_the_surface() {
    let mut c = Canvas::new(Offset::new(6, 4)).unwrap();
    c.set_viewport(Viewport::new(Rect { x0: -10, y0: -10, x1: 100, y1: 100 }));
    assert_eq!(c.viewport().clip, Rect { x0: 0, y0: 0, x1: 6, y1: 4 });
    let before = c.set_clip(Rect { x0: 1, y0: 1, x1: 3, y1: 9 });
    assert_eq!(before.clip, Rect { x0: 0, y0: 0, x1: 6, y1: 4 });
    assert_eq!(c.viewport().clip, Rect { x0: 1, y0: 1, x1: 3, y1: 4 });
    assert_eq!(c.viewport().origin, Offset::new(0, 0));
}

#[test]
fn fill_background_fills_the_clip() {
    let mut c = Canvas::new(Offset::new(4, 3)).unwrap();
    c.set_viewport(Viewport::new(Rect { x0: 1, y0: 0, x1: 3, y1: 2 }));
    c.fill_background(Color::from_u16(3));
    assert_eq!(dump(&c), rows(&[&[0, 3, 3, 0], &[0, 3, 3, 0], &[0, 0, 0, 0]]));
}

#[test]
fn blend_pixel_composites_into_the_pixel() {
    let mut c = Canvas::new(Offset::new(3, 1)).unwrap();
    c.fill_rect(Rect { x0: 0, y0: 0, x1: 3, y1: 1 }, Color::from_u16(0xF800));
    c.blend_pixel(Point::new(0, 0), Color::from_u16(0x001F), 64);
    c.blend_pixel(Point::new(1, 0), Color::from_u16(0x001F), 255);
    c.blend_pixel(Point::new(2, 0), Color::from_u16(0x001F), 0);
    c.blend_pixel(Point::new(3, 0), Color::from_u16(0x001F), 255);
    assert_eq!(dump(&c), rows(&[&[0xB807, 0x001F, 0xF800]]));
}

#[test]
fn fill_circle_paints_the_disc() {
    let mut c = Canvas::new(Offset::new(9, 9)).unwrap();
    c.fill_circle(Point::new(4, 4), 3, Color::white());
    assert_eq!(
        dump(&c),
        rows(&[
            &[0, 0, 0, 0, 0, 0, 0, 0, 0],
            &[0, 0, 0, W, W, W, 0, 0, 0],
            &[0, 0, W, W, W, W, W, 0, 0],
            &[0, W, W, W, W, W, W, W, 0],
            &[0, W, W, W, W, W, W, W, 0],
            &[0, W, W, W, W, W, W, W, 0],
            &[0, 0, W, W, W, W, W, 0, 0],
            &[0, 0, 0, W, W, W, 0, 0, 0],
            &[0, 0, 0, 0, 0, 0, 0, 0, 0],
        ])
    );
}

#[test]
fn draw_circle_paints_the_outline() {
    let mut c = Canvas::new(Offset::new(9, 9)).unwrap();
    c.draw_circle(Point::new(4, 4), 3, Color::white());
    assert_eq!(
        dump(&c),
        rows(&[
            &[0, 0, 0, 0, 0, 0, 0, 0, 0],
            &[0, 0, 0, W, W, W, 0, 0, 0],
            &[0, 0, W, 0, 0, 0, W, 0, 0],
            &[0, W, 0, 0, 0, 0, 0, W, 0],
            &[0, W, 0, 0, 0, 0, 0, W, 0],
            &[0, W, 0, 0, 0, 0, 0, W, 0],
            &[0, 0, W, 0, 0, 0, W, 0, 0],
            &[0, 0, 0, W, W, W, 0, 0, 0],
            &[0, 0, 0, 0, 0, 0, 0, 0, 0],
        ])
    );
}

#[test]
fn fill_circle_aa_blends_the_edge() {
    let mut c = Canvas::new(Offset::new(9, 9)).unwrap();
    c.fill_circle_aa(Point::new(4, 4), 3, Color::white());
    let a = 0xA554;
    assert_eq!(
        dump(&c),
        rows(&[
            &[0, 0, 0, 0, 0, 0, 0, 0, 0],
            &[0, 0, 0, a, W, a, 0, 0, 0],
            &[0, 0, W, W, W, W, W, 0, 0],
            &[0, a, W, W, W, W, W, a, 0],
            &[0, W, W, W, W, W, W, W, 0],
            &[0, a, W, W, W, W, W, a, 0],
            &[0, 0, W, W, W, W, W, 0, 0],
            &[0, 0, 0, a, W, a, 0, 0, 0],
            &[0, 0, 0, 0, 0, 0, 0, 0, 0],
        ])
    );
}

#[test]
fn draw_circle_aa_blends_outline_and_inner_neighbour() {
    let mut c = Canvas::new(Offset::new(9, 9)).unwrap();
    c.draw_circle_aa(Point::new(4, 4), 3, Color::white());
    let a = 0xA554;
    let b = 0x52AA;
    assert_eq!(
        dump(&c),
        rows(&[
            &[0, 0, 0, 0, 0, 0, 0, 0, 0],
            &[0, 0, 0, a, W, a, 0, 0, 0],
            &[0, 0, W, b, 0, b, W, 0, 0],
            &[0, a, b, 0, 0, 0, b, a, 0],
            &[0, W, 0, 0, 0, 0, 0, W, 0],
            &[0, a, b, 0, 0, 0, b, a, 0],
            &[0, 0, W, b, 0, b, W, 0, 0],
            &[0, 0, 0, a, W, a, 0, 0, 0],
            &[0, 0, 0, 0, 0, 0, 0, 0, 0],
        ])
    );
}

#[test]
fn round_rects_fill_outline_and_smooth() {
    let r = Rect { x0: 1, y0: 1, x1: 11, y1: 9 };
    let mut c = Canvas::new(Offset::new(12, 10)).unwrap();
    c.fill_round_rect(r, 2, Color::from_u16(0xF800));
    let f = 0xF800;
    let mut expected = vec![vec![0u16; 12]; 10];
    for y in 1..9 {
        for x in 1..11 {
            expected[y][x] = f;
        }
    }
    for (x, y) in [(1, 1), (10, 1), (1, 8), (10, 8)] {
        expected[y][x] = 0;
    }
    assert_eq!(dump(&c), expected);

    let mut c = Canvas::new(Offset::new(12, 10)).unwrap();
    c.draw_round_rect(r, 2, Color::from_u16(0x07E0));
    let mut expected = vec![vec![0u16; 12]; 10];
    for x in 2..10 {
        expected[1][x] = 0x07E0;
        expected[8][x] = 0x07E0;
    }
    for y in 2..8 {
        expected[y][1] = 0x07E0;
        expected[y][10] = 0x07E0;
    }
    assert_eq!(dump(&c), expected);

    let mut c = Canvas::new(Offset::new(12, 10)).unwrap();
    c.fill_round_rect_aa(r, 2, Color::from_u16(0x001F));
    let mut expected = vec![vec![0u16; 12]; 10];
    for y in 1..9 {
        for x in 1..11 {
            expected[y][x] = 0x001F;
        }
    }
    for (x, y) in [(1, 1), (10, 1), (1, 8), (10, 8)] {
        expected[y][x] = 0;
    }
    for (x, y) in [(2, 1), (9, 1), (1, 2), (10, 2), (1, 7), (10, 7), (2, 8), (9, 8)] {
        expected[y][x] = 0x000F;
    }
    assert_eq!(dump(&c), expected);
}

#[test]
fn a_band_that_is_not_wholly_visible_is_left_out() {
    // the two upper bands of the disc reach above the surface and are left out
    let mut c = Canvas::new(Offset::new(9, 9)).unwrap();
    c.fill_circle(Point::new(4, 1), 3, Color::white());
    assert_eq!(
        dump(&c),
        rows(&[
            &[0, 0, 0, 0, 0, 0, 0, 0, 0],
            &[0, W, W, W, W, W, W, W, 0],
            &[0, W, W, W, W, W, W, W, 0],
            &[0, 0, W, W, W, W, W, 0, 0],
            &[0, 0, 0, W, W, W, 0, 0, 0],
            &[0, 0, 0, 0, 0, 0, 0, 0, 0],
            &[0, 0, 0, 0, 0, 0, 0, 0, 0],
            &[0, 0, 0, 0, 0, 0, 0, 0, 0],
            &[0, 0, 0, 0, 0, 0, 0, 0, 0],
        ])
    );
}

#[test]
fn draw_bitmap_copies_from_another_surface() {
    let mut src = Canvas::new(Offset::new(3, 2)).unwrap();
    for y in 0..2i16 {
        for x in 0..3i16 {
            src.draw_pixel(Point::new(x, y), Color::from_u16((10 * y + x + 1) as u16));
        }
    }
    let mut dst = Canvas::new(Offset::new(5, 4)).unwrap();
    dst.draw_bitmap(Rect { x0: 1, y0: 1, x1: 4, y1: 3 }, &src.bitmap());
    assert_eq!(
        dump(&dst),
        rows(&[&[0, 0, 0, 0, 0], &[0, 1, 2, 3, 0], &[0, 11, 12, 13, 0], &[0, 0, 0, 0, 0]])
    );
    // clipped on the left and top: the source is cut, not moved
    let mut dst = Canvas::new(Offset::new(5, 4)).unwrap();
    dst.draw_bitmap(Rect { x0: -1, y0: -1, x1: 2, y1: 1 }, &src.bitmap());
    assert_eq!(dump(&dst)[0], vec![12, 13, 0, 0, 0]);
    assert_eq!(dump(&dst)[1], vec![0u16; 5]);
    // a rectangle larger than the bitmap leaves what the bitmap does not reach
    let mut dst = Canvas::new(Offset::new(5, 4)).unwrap();
    dst.fill_rect(Rect { x0: 0, y0: 0, x1: 5, y1: 4 }, Color::from_u16(9));
    dst.draw_bitmap(Rect { x0: 0, y0: 0, x1: 5, y1: 4 }, &src.bitmap().with_offset(Offset::new(1, 0)));
    assert_eq!(
        dump(&dst),
        rows(&[&[2, 3, 9, 9, 9], &[12, 13, 9, 9, 9], &[9, 9, 9, 9, 9], &[9, 9, 9, 9, 9]])
    );
}

#[test]
fn mono4_bitmaps_are_tinted() {
    // two rows of four pixels: nibbles 0, 15, 8, 4 | 15, 15, 0, 0 (even pixel in the low half)
    let data: [u8; 4] = [0xF0, 0x48, 0xFF, 0x00];
    let bitmap = GdcBitmap::new_mono4(&data, 2, Offset::new(4, 2));
    assert_eq!(bitmap.format(), GdcFormat::MONO4);
    assert_eq!((bitmap.width(), bitmap.height(), bitmap.stride()), (4, 2, 2));
    assert_eq!(bitmap.size(), Offset::new(4, 2));
    let r = GdcBitmapRef::new(&bitmap).with_fg(Color::white()).with_bg(Color::black());
    assert_eq!((r.width(), r.height()), (4, 2));
    assert_eq!(r.size(), Offset::new(4, 2));
    let mut dst = Canvas::new(Offset::new(4, 2)).unwrap();
    dst.draw_bitmap(Rect { x0: 0, y0: 0, x1: 4, y1: 2 }, &r);
    // alpha = nibble * 17; white over black
    let g8 = Color::black().blend(Color::white(), 8 * 17).to_u16();
    let g4 = Color::black().blend(Color::white(), 4 * 17).to_u16();
    assert_eq!(dump(&dst), rows(&[&[0, W, g8, g4], &[W, W, 0, 0]]));
    // blended over what is there
    let mut dst = Canvas::new(Offset::new(4, 2)).unwrap();
    dst.fill_rect(Rect { x0: 0, y0: 0, x1: 4, y1: 2 }, Color::from_u16(0xF800));
    dst.blend_bitmap(Rect { x0: 0, y0: 0, x1: 4, y1: 2 }, &r.with_fg(Color::from_u16(0x001F)));
    let b8 = Color::from_u16(0xF800).blend(Color::from_u16(0x001F), 8 * 17).to_u16();
    let b4 = Color::from_u16(0xF800).blend(Color::from_u16(0x001F), 4 * 17).to_u16();
    assert_eq!(dump(&dst), rows(&[&[0xF800, 0x001F, b8, b4], &[0x001F, 0x001F, 0xF800, 0xF800]]));
}

#[test]
fn draw_blended_puts_the_foreground_over_a_background_bitmap() {
    let mut bg = Canvas::new(Offset::new(2, 1)).unwrap();
    bg.fill_rect(Rect { x0: 0, y0: 0, x1: 2, y1: 1 }, Color::from_u16(0x07E0));
    let mask: [u8; 1] = [0xF0];
    let fg = GdcBitmap::new_mono4(&mask, 1, Offset::new(2, 1));
    let fg_ref = GdcBitmapRef::new(&fg).with_fg(Color::from_u16(0xF800));
    let mut dst = Canvas::new(Offset::new(3, 1)).unwrap();
    dst.draw_blended(Rect { x0: 0, y0: 0, x1: 3, y1: 1 }, &fg_ref, &bg.bitmap());
    assert_eq!(dump(&dst), rows(&[&[0x07E0, 0xF800, 0]]));
}

#[test]
fn mono1_bitmaps_draw_foreground_or_background() {
    let data: [u8; 1] = [0b1010_0000];
    let bitmap = GdcBitmap::new_mono1(&data, 1, Offset::new(4, 1));
    let r = GdcBitmapRef::new(&bitmap).with_fg(Color::from_u16(5)).with_bg(Color::from_u16(9));
    let mut dst = Canvas::new(Offset::new(4, 1)).unwrap();
    dst.draw_bitmap(Rect { x0: 0, y0: 0, x1: 4, y1: 1 }, &r);
    assert_eq!(dump(&dst), rows(&[&[5, 9, 5, 9]]));
}

#[test]
fn rgba8888_bitmaps_are_cut_to_565() {
    let data: [u32; 2] = [0xFF60_8080, 0x00FF_FFFF];
    let bitmap = GdcBitmap::new_rgba8888(&data, 8, Offset::new(2, 1));
    let r = GdcBitmapRef::new(&bitmap).with_bg(Color::from_u16(0));
    let mut dst = Canvas::new(Offset::new(2, 1)).unwrap();
    dst.draw_bitmap(Rect { x0: 0, y0: 0, x1: 2, y1: 1 }, &r);
    // opaque color; fully transparent white over the black background color
    assert_eq!(dump(&dst), rows(&[&[0x6410, 0]]));
}

#[test]
fn text_is_handed_on_clipped() {
    let mut c = Canvas::new(Offset::new(20, 10)).unwrap();
    let attr = TextAttr::new().with_fg(Color::from_u16(3)).with_font(Font::bold());
    c.draw_opaque_text(Rect { x0: -5, y0: 2, x1: 10, y1: 30 }, "abc", &attr);
    c.draw_text(Rect { x0: 1, y0: 1, x1: 5, y1: 5 }, "xy", &attr);
    // wholly clipped: nothing is handed on
    c.draw_opaque_text(Rect { x0: 30, y0: 2, x1: 40, y1: 5 }, "gone", &attr);
    let t = c.texts();
    assert_eq!(t.len(), 2);
    assert_eq!(t[0].rect, Rect { x0: 0, y0: 2, x1: 10, y1: 10 });
    assert_eq!(t[0].text, "abc");
    assert_eq!(t[0].attr.offset, Offset::new(5, 0));
    assert_eq!(t[0].attr.font, Font::bold());
    assert_eq!(t[0].attr.fg_color, Color::from_u16(3));
    assert!(!t[0].blended);
    assert_eq!(t[1].rect, Rect { x0: 1, y0: 1, x1: 5, y1: 5 });
    assert_eq!(t[1].attr.offset, Offset::new(0, 0));
    assert!(t[1].blended);
    assert_eq!(dump(&c), vec![vec![0u16; 20]; 10]);
    let taken = c.take_texts();
    assert_eq!(taken.len(), 2);
    assert_eq!(c.texts().len(), 0);
}

#[test]
fn text_attributes_build_up() {
    let a = GdcTextAttr::new();
    assert_eq!(a.font, Font::normal());
    assert_eq!(a.fg_color, Color::white());
    assert_eq!(a.bg_color, Color::black());
    assert_eq!(a.offset, Offset::zero());
    let b = a.with_bg(Color::from_u16(2)).with_offset(Offset::new(1, 2)).with_offset(Offset::new(3, 4));
    assert_eq!(b.bg_color, Color::from_u16(2));
    assert_eq!(b.offset, Offset::new(4, 6));
}

#[test]
fn blur_rect_blurs_in_place() {
    let mut c = Canvas::new(Offset::new(6, 5)).unwrap();
    c.fill_rect(Rect { x0: 0, y0: 2, x1: 6, y1: 3 }, Color::white());
    c.blur_rect(Rect { x0: 0, y0: 0, x1: 6, y1: 5 }, 1);
    // rows 1 to 3 see the white row once among their three rows; 0 and 4 see it not at all
    assert_eq!(
        dump(&c),
        rows(&[
            &[0; 6],
            &[0x52AA; 6],
            &[0x52AA; 6],
            &[0x52AA; 6],
            &[0; 6],
        ])
    );
}

#[test]
fn blur_rect_leaves_what_it_cannot_blur() {
    let mut c = Canvas::new(Offset::new(6, 5)).unwrap();
    c.fill_rect(Rect { x0: 0, y0: 2, x1: 6, y1: 3 }, Color::white());
    let before = dump(&c);
    // the kernel does not fit into the rectangle
    c.blur_rect(Rect { x0: 0, y0: 0, x1: 3, y1: 5 }, 2);
    assert_eq!(dump(&c), before);
    // the radius is above the filter's limit
    c.blur_rect(Rect { x0: 0, y0: 0, x1: 6, y1: 5 }, 5);
    assert_eq!(dump(&c), before);
    // a kernel of one pixel changes nothing
    c.blur_rect(Rect { x0: 0, y0: 0, x1: 6, y1: 5 }, 0);
    assert_eq!(dump(&c), before);
}

#[test]
fn mono_surfaces_hold_rows_of_bytes() {
    let mut m = mono4::MonoCanvas::new(Offset::new(5, 3)).unwrap();
    assert_eq!(m.size(), Offset::new(5, 3));
    assert_eq!((m.width(), m.height()), (5, 3));
    assert_eq!(m.bounds(), Rect { x0: 0, y0: 0, x1: 5, y1: 3 });
    // three bytes to a row
    assert_eq!(m.row(0).unwrap().len(), 3);
    assert!(m.row(3).is_none());
    assert!(m.row(-1).is_none());
    assert_eq!(m.row_bytes(1, 2).unwrap().len(), 6);
    assert!(m.row_bytes(1, 3).is_none());
    assert!(m.row_bytes(0, 0).is_none());
    assert!(m.row_bytes(-1, 1).is_none());
    assert!(m.load(1, &[1, 2, 3, 4, 5, 6]));
    assert_eq!(m.row(0).unwrap(), &[0, 0, 0]);
    assert_eq!(m.row(1).unwrap(), &[1, 2, 3]);
    assert_eq!(m.row_bytes(1, 2).unwrap(), &[1, 2, 3, 4, 5, 6]);
    // too long, or outside: refused and nothing changes
    assert!(!m.load(2, &[9, 9, 9, 9]));
    assert!(!m.load(3, &[9]));
    assert!(!m.load(0, &[]));
    assert_eq!(m.row(2).unwrap(), &[4, 5, 6]);
    let b = m.bitmap();
    assert_eq!(b.size(), Offset::new(5, 3));

    let mut m1 = mono1::Canvas::new(Offset::new(9, 2)).unwrap();
    assert_eq!(m1.row(1).unwrap().len(), 2);
    assert!(m1.load(0, &[0x80, 0x00, 0xFF, 0x80]));
    assert_eq!(m1.row_bytes(0, 2).unwrap(), &[0x80, 0x00, 0xFF, 0x80]);
    let mut dst = Canvas::new(Offset::new(9, 2)).unwrap();
    dst.draw_bitmap(
        Rect { x0: 0, y0: 0, x1: 9, y1: 2 },
        &m1.bitmap().with_fg(Color::from_u16(1)).with_bg(Color::from_u16(2)),
    );
    assert_eq!(dump(&dst), rows(&[&[1, 2, 2, 2, 2, 2, 2, 2, 2], &[1, 1, 1, 1, 1, 1, 1, 1, 1]]));
}

#[test]
fn the_display_surface_draws_like_any_other() {
    let mut d = display::Canvas::acquire(Offset::new(4, 2)).unwrap();
    d.fill_rect(Rect { x0: 1, y0: 0, x1: 3, y1: 5 }, Color::from_u16(4));
    d.draw_opaque_text(Rect { x0: 0, y0: 0, x1: 4, y1: 2 }, "hi", &TextAttr::new());
    assert_eq!(d.row(0).unwrap(), &[0, 4, 4, 0]);
    assert_eq!(d.row(1).unwrap(), &[0, 4, 4, 0]);
    assert!(d.row(2).is_none());
    assert_eq!(d.texts().len(), 1);
    assert_eq!(d.size(), Offset::new(4, 2));
}

#[test]
fn rgba8888_surface_shows_565_colors_at_full_opacity() {
    assert!(matches!(rgba8888::Canvas::new(Offset::new(0, 1)), Err(AllocError::InvalidSize)));
    let mut c = rgba8888::Canvas::new(Offset::new(3, 2)).unwrap();
    assert_eq!(c.row(0).unwrap(), &[0xFF00_0000u32; 3]);
    assert!(c.row(2).is_none());
    c.fill_rect(Rect { x0: 1, y0: 0, x1: 5, y1: 1 }, Color::rgb(96, 128, 128));
    c.draw_pixel(Point::new(0, 1), Color::white());
    assert_eq!(c.row(0).unwrap(), &[0xFF00_0000, 0xFF60_8080, 0xFF60_8080]);
    assert_eq!(c.row(1).unwrap(), &[0xFFF8_FCF8, 0xFF00_0000, 0xFF00_0000]);
    assert_eq!(c.pixel(1, 0), Color::rgb(96, 128, 128));
    // blending goes through the 565 fields, as on the 16-bit surface
    c.blend_pixel(Point::new(2, 1), Color::white(), 128);
    assert_eq!(c.pixel(2, 1), Color::from_u16(0x7BEF));
    assert_eq!(rgba8888::pixel_color(0x1260_8080), Color::rgb(96, 128, 128));
    assert_eq!(rgba8888::color_pixel(Color::from_u16(0x7BEF)), 0xFF78_7C78);
    // other surfaces can draw from it
    let mut dst = Canvas::new(Offset::new(3, 2)).unwrap();
    dst.draw_bitmap(Rect { x0: 0, y0: 0, x1: 3, y1: 2 }, &c.bitmap());
    assert_eq!(dump(&dst), rows(&[&[0, 0x6410, 0x6410], &[0xFFFF, 0, 0x7BEF]]));
}

#[test]
fn rgba8888_surface_draws_shapes_like_the_16_bit_one() {
    let mut a = rgba8888::Canvas::new(Offset::new(12, 10)).unwrap();
    let mut b = Canvas::new(Offset::new(12, 10)).unwrap();
    a.fill_round_rect_aa(Rect { x0: 1, y0: 1, x1: 11, y1: 9 }, 2, Color::from_u16(0x001F));
    b.fill_round_rect_aa(Rect { x0: 1, y0: 1, x1: 11, y1: 9 }, 2, Color::from_u16(0x001F));
    a.draw_circle_aa(Point::new(5, 5), 3, Color::white());
    b.draw_circle_aa(Point::new(5, 5), 3, Color::white());
    a.blur_rect(Rect { x0: 0, y0: 0, x1: 12, y1: 10 }, 1);
    b.blur_rect(Rect { x0: 0, y0: 0, x1: 12, y1: 10 }, 1);
    for y in 0..10i16 {
        for x in 0..12i16 {
            assert_eq!(a.pixel(x, y), b.pixel(x, y));
        }
    }
}

#[test]
fn a_store_is_filled_once_room_is_granted() {
    assert_eq!(GdcBuffer::<u8>::filled(Vec::new(), 3, true).unwrap().data, vec![0u8; 3]);
    assert_eq!(GdcBuffer::<u16>::filled(Vec::new(), 2, true).unwrap().data, vec![0u16; 2]);
    assert_eq!(GdcBuffer::<u32>::filled(Vec::new(), 1, true).unwrap().data, vec![0u32; 1]);
    assert!(GdcBuffer::<u8>::filled(Vec::new(), 3, false).is_none());
    assert!(GdcBuffer::<u16>::filled(Vec::new(), 2, false).is_none());
    assert!(GdcBuffer::<u32>::filled(Vec::new(), 1, false).is_none());
}

#[test]
fn the_panel_follows_its_frame() {
    let d = display::Canvas::of_frame(Canvas::new(Offset::new(3, 2))).unwrap();
    assert_eq!(d.size(), Offset::new(3, 2));
    assert_eq!(d.row(1).unwrap(), &[0u16, 0, 0][..]);
    assert!(display::Canvas::of_frame(Err(AllocError::OutOfMemory)).is_none());
    assert!(display::Canvas::of_frame(Canvas::new(Offset::new(0, 2))).is_none());
}

#[test]
fn mono_surfaces_allocate_packed_rows() {
    // 4 bits per pixel: 4 by 2 pixels take 2 bytes a row, 4 in all
    let m = mono4::MonoCanvas::new(Offset::new(4, 2)).unwrap();
    let view = m.bitmap_view();
    assert_eq!(view.stride, 2);
    match view.data {
        PixelData::Mono4(d) => assert_eq!(d, &[0u8; 4]),
        _ => panic!("a surface of four bits per pixel has such a bitmap"),
    }
    assert_eq!(m.row_bytes(0, 2).unwrap().len(), 4);
    // 1 bit per pixel: 9 by 3 pixels take 2 bytes a row, 6 in all
    let m1 = mono1::Canvas::new(Offset::new(9, 3)).unwrap();
    let view = m1.bitmap_view();
    assert_eq!(view.stride, 2);
    match view.data {
        PixelData::Mono1(d) => assert_eq!(d, &[0u8; 6]),
        _ => panic!("a surface of one bit per pixel has such a bitmap"),
    }
    assert_eq!(m1.row(2).unwrap().len(), 2);
    assert_eq!(m1.row_bytes(1, 2).unwrap().len(), 4);
}

#[test]
fn rgb_surfaces_tell_their_stride() {
    let c = Canvas::new(Offset::new(5, 2)).unwrap();
    assert_eq!(c.bitmap_view().stride, 10);
    let a = rgba8888::Canvas::new(Offset::new(5, 2)).unwrap();
    assert_eq!(a.bitmap_view().stride, 20);
}
