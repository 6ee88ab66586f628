use trezor_canvas::canvas::rgb::{RgbCanvas, RgbCanvasEx};
use trezor_canvas::canvas::rgb565::Canvas;
use trezor_canvas::display::{Color, Font};
use trezor_canvas::geometry::{Offset, Point, Rect};
use trezor_canvas::shape::context::{DrawingContext, JpegError, Recorded};
use trezor_canvas::shape::jpeg::JpegFnOutput;
use trezor_canvas::shape::toif::{image_clip, pixels_from_le};
use trezor_canvas::shape::{Bar, Blurring, Circle, JpegImage, Shape, Text, ToifImage};
use trezor_canvas::toif::{bytes_eq, read_le16, Toif, ToifFormat};
use trezor_canvas::viewport::Viewport;

/// Decoders that hand out prepared data.
struct FakeContext {
    /// Decompressed bytes of the icon.
    icon: Vec<u8>,
    /// Bytes of one row of the icon.
    stride: usize,
    jpeg_size: Result<Offset, JpegError>,
    /// Blocks of the image: origin, size, pixels.
    blocks: Vec<((u32, u32), (u32, u32), Vec<u16>)>,
    /// Number of blocks handed out.
    delivered: usize,
    /// Rows asked of the icon decoder.
    asked_rows: Vec<i16>,
}

impl FakeContext {
    fn new() -> Self {
        FakeContext {
            icon: Vec::new(),
            stride: 0,
            jpeg_size: Err(JpegError::InvalidData),
            blocks: Vec::new(),
            delivered: 0,
            asked_rows: Vec::new(),
        }
    }
}

impl DrawingContext for FakeContext {
    fn deflate_toif(&mut self, _toif: Toif, from_row: i16, dest_buf: &mut Vec<u8>) {
        self.asked_rows.push(from_row);
        let start = self.stride * from_row as usize;
        for (i, b) in dest_buf.iter_mut().enumerate() {
            *b = if start + i < self.icon.len() { self.icon[start + i] } else { 0 };
        }
    }

    fn get_jpeg_size(&mut self, _jpeg: &'static [u8]) -> Result<Offset, JpegError> {
        self.jpeg_size
    }

    fn decompress_jpeg<C: RgbCanvas>(
        &mut self,
        _jpeg: &'static [u8],
        _offset: Point,
        output: &JpegFnOutput,
        canvas: &mut C,
    ) -> Result<(), JpegError> {
        for (origin, size, pixels) in self.blocks.iter() {
            self.delivered += 1;
            if !output.write(canvas, *origin, *size, pixels) {
                return Err(JpegError::Interrupted);
            }
        }
        Ok(())
    }
}

fn dump(c: &Canvas) -> Vec<Vec<u16>> {
    let h = c.size().y;
    (0..h).map(|y| c.row(y).unwrap().to_vec()).collect()
}

const GRAY_ICON: &[u8] = b"TOIg\x04\x00\x03\x00\x02\x00\x00\x00zz";
const COLOR_ICON: &[u8] = b"TOIF\x02\x00\x02\x00\x01\x00\x00\x00z";
const JPEG: &[u8] = b"\xFF\xD8jpeg";

/// A viewport of 8 by 120 pixels with the given origin.
fn under(origin: Offset) -> Viewport {
    Viewport::new(Rect { x0: 0, y0: 0, x1: 8, y1: 120 }).with_origin(origin)
}

#[test]
fn toif_header_is_parsed() {
    let t = Toif::new(GRAY_ICON).unwrap();
    assert!(t.is_valid());
    assert_eq!(t.width(), 4);
    assert_eq!(t.height(), 3);
    assert_eq!(t.format(), ToifFormat::GrayScaleOH);
    assert!(t.is_grayscale());
    assert_eq!(t.stride(), 2);
    assert_eq!(t.zdata(), b"zz");
    let c = Toif::new(COLOR_ICON).unwrap();
    assert_eq!(c.format(), ToifFormat::FullColorLE);
    assert!(!c.is_grayscale());
    assert_eq!(c.stride(), 4);
    assert_eq!(c.zdata(), b"z");
    assert_eq!(Toif::new(b"TOIf\x01\x00\x01\x00\x00\x00\x00\x00").unwrap().format(), ToifFormat::FullColorBE);
    assert_eq!(Toif::new(b"TOIG\x01\x00\x01\x00\x00\x00\x00\x00").unwrap().format(), ToifFormat::GrayScaleEH);
}

#[test]
fn malformed_toif_is_refused() {
    // too short
    assert!(Toif::new(b"TOIg\x04\x00\x03\x00\x02\x00\x00").is_none());
    // wrong magic
    assert!(Toif::new(b"TOJg\x04\x00\x03\x00\x02\x00\x00\x00zz").is_none());
    // unknown format letter
    assert!(Toif::new(b"TOIx\x04\x00\x03\x00\x02\x00\x00\x00zz").is_none());
    // the data is shorter or longer than the header says
    assert!(Toif::new(b"TOIg\x04\x00\x03\x00\x03\x00\x00\x00zz").is_none());
    assert!(Toif::new(b"TOIg\x04\x00\x03\x00\x01\x00\x00\x00zz").is_none());
}

#[test]
fn byte_helpers() {
    assert!(bytes_eq(b"abc", b"abc"));
    assert!(!bytes_eq(b"abc", b"abd"));
    assert!(!bytes_eq(b"abc", b"ab"));
    assert!(bytes_eq(b"", b""));
    assert_eq!(read_le16(b"\x34\x12\xFF", 0), 0x1234);
    assert_eq!(pixels_from_le(b"\x34\x12\xCD\xAB\x07"), vec![0x1234, 0xABCD]);
}

#[test]
fn bar_with_sharp_corners_draws_outline_and_fill() {
    let mut c = Canvas::new(Offset::new(8, 6)).unwrap();
    let bar = Bar::new(Rect { x0: 1, y0: 1, x1: 7, y1: 5 })
        .with_fg(Color::from_u16(1))
        .with_bg(Color::from_u16(2));
    assert!(bar.is_drawable());
    assert_eq!(bar.bounds(), Rect { x0: 1, y0: 1, x1: 7, y1: 5 });
    bar.draw(&mut c);
    assert_eq!(
        dump(&c),
        vec![
            vec![0, 0, 0, 0, 0, 0, 0, 0],
            vec![0, 1, 1, 1, 1, 1, 1, 0],
            vec![0, 1, 2, 2, 2, 2, 1, 0],
            vec![0, 1, 2, 2, 2, 2, 1, 0],
            vec![0, 1, 1, 1, 1, 1, 1, 0],
            vec![0, 0, 0, 0, 0, 0, 0, 0],
        ]
    );
}

#[test]
fn bar_outline_has_its_thickness() {
    let mut c = Canvas::new(Offset::new(8, 7)).unwrap();
    Bar::new(Rect { x0: 0, y0: 0, x1: 8, y1: 7 })
        .with_fg(Color::from_u16(1))
        .with_thickness(2)
        .draw(&mut c);
    assert_eq!(dump(&c)[1], vec![1; 8]);
    assert_eq!(dump(&c)[2], vec![1, 1, 0, 0, 0, 0, 1, 1]);
    assert_eq!(dump(&c)[4], vec![1, 1, 0, 0, 0, 0, 1, 1]);
    assert_eq!(dump(&c)[5], vec![1; 8]);
    // without an outline color nothing is drawn, and the fill takes the whole area
    let mut c = Canvas::new(Offset::new(4, 2)).unwrap();
    Bar::new(Rect { x0: 0, y0: 0, x1: 4, y1: 2 }).with_thickness(1).draw(&mut c);
    assert_eq!(dump(&c), vec![vec![0; 4]; 2]);
    Bar::new(Rect { x0: 0, y0: 0, x1: 4, y1: 2 }).with_thickness(1).with_bg(Color::from_u16(3)).draw(&mut c);
    assert_eq!(dump(&c), vec![vec![3; 4]; 2]);
}

#[test]
fn rounded_bar_matches_the_rounded_rectangles() {
    let area = Rect { x0: 1, y0: 1, x1: 11, y1: 9 };
    let mut a = Canvas::new(Offset::new(12, 10)).unwrap();
    Bar::new(area).with_radius(2).with_bg(Color::from_u16(0x001F)).draw(&mut a);
    let mut b = Canvas::new(Offset::new(12, 10)).unwrap();
    b.fill_round_rect_aa(area, 2, Color::from_u16(0x001F));
    assert_eq!(dump(&a), dump(&b));
    assert_eq!(dump(&a)[1][2], 0x000F);

    let mut a = Canvas::new(Offset::new(14, 12)).unwrap();
    Bar::new(Rect { x0: 0, y0: 0, x1: 14, y1: 12 })
        .with_radius(2)
        .with_fg(Color::from_u16(0xF800))
        .with_bg(Color::from_u16(0x001F))
        .with_thickness(1)
        .draw(&mut a);
    let mut b = Canvas::new(Offset::new(14, 12)).unwrap();
    b.fill_round_rect(Rect { x0: 0, y0: 0, x1: 14, y1: 12 }, 2, Color::from_u16(0xF800));
    b.fill_round_rect_aa(Rect { x0: 1, y0: 1, x1: 13, y1: 11 }, 2, Color::from_u16(0x001F));
    assert_eq!(dump(&a), dump(&b));
}

#[test]
fn bar_that_does_not_fit_is_not_drawable() {
    assert!(!Bar::new(Rect { x0: 0, y0: 0, x1: 10, y1: 10 }).with_radius(-1).is_drawable());
    // the area inside the outline has to be representable where it is dealt with
    let wide = Rect { x0: -32768, y0: 0, x1: 32767, y1: 5 };
    assert!(Bar::new(wide).is_drawable());
    assert!(Bar::new(wide).with_fg(Color::white()).is_drawable());
    assert!(!Bar::new(wide).with_fg(Color::white()).with_thickness(-1).is_drawable());
    assert!(Bar::new(Rect { x0: -20000, y0: -20000, x1: 20000, y1: 20000 }).is_drawable());
}

#[test]
fn a_bar_far_from_zero_is_drawn_where_the_origin_moves_it() {
    // local row 5000 under an origin of -4900 is row 100 of the surface
    let bar = Bar::new(Rect { x0: 2, y0: 5000, x1: 6, y1: 5003 }).with_bg(Color::from_u16(7));
    let mut c = Canvas::new(Offset::new(8, 120)).unwrap();
    c.set_viewport(Viewport::new(Rect { x0: 0, y0: 0, x1: 8, y1: 120 }).with_origin(Offset::new(0, -4900)));
    assert!(bar.is_drawable());
    assert!(bar.lands_at(under(Offset::new(0, -4900))));
    bar.draw(&mut c);
    assert_eq!(dump(&c)[99], vec![0; 8]);
    assert_eq!(dump(&c)[100], vec![0, 0, 7, 7, 7, 7, 0, 0]);
    assert_eq!(dump(&c)[102], vec![0, 0, 7, 7, 7, 7, 0, 0]);
    assert_eq!(dump(&c)[103], vec![0; 8]);
    // a rounded bar and a circle alike
    let round = Bar::new(Rect { x0: 0, y0: 20000, x1: 8, y1: 20008 })
        .with_radius(2)
        .with_fg(Color::from_u16(3));
    let origin = Offset::new(0, -19990);
    assert!(round.is_drawable() && round.lands_at(under(origin)));
    c.set_viewport(Viewport::new(Rect { x0: 0, y0: 0, x1: 8, y1: 120 }).with_origin(origin));
    round.draw(&mut c);
    assert_eq!(dump(&c)[13], vec![3; 8]);
    let circle = Circle::new(Point::new(4, 20050), 3).with_bg(Color::from_u16(5));
    assert!(circle.is_drawable() && circle.lands_at(under(origin)));
    circle.draw(&mut c);
    assert_eq!(dump(&c)[60][4], 5);
    // what the origin moves out of the 16-bit range does not land
    assert!(!bar.lands_at(under(Offset::new(0, 30000))));
    assert!(!circle.lands_at(under(Offset::new(0, 20000))));
    assert!(!Circle::new(Point::new(0, 0), 16384).lands_at(under(Offset::new(0, 0))));
    assert!(Circle::new(Point::new(0, 0), 16383).is_drawable());
    assert!(!Circle::new(Point::new(30000, 0), 3000).is_drawable());
}

#[test]
fn the_bounds_of_a_large_jpeg_image_are_its_size() {
    let mut ctx = FakeContext::new();
    ctx.jpeg_size = Ok(Offset::new(5000, 100));
    let mut ctx = Recorded::new(ctx);
    let image = JpegImage::new(Point::new(0, 0), JPEG);
    assert_eq!(image.bounds(&mut ctx), Rect { x0: 0, y0: 0, x1: 5000, y1: 100 });
    assert_eq!(image.bounds_for(Ok(Offset::new(32767, 1))), Rect { x0: 0, y0: 0, x1: 32767, y1: 1 });
    // a size whose sum with the position is no 16-bit number has no rectangle
    let far = JpegImage::new(Point::new(30000, 0), JPEG);
    assert_eq!(far.bounds_for(Ok(Offset::new(5000, 100))), Rect { x0: 30000, y0: 0, x1: 30000, y1: 0 });
    assert_eq!(far.bounds_for(Ok(Offset::new(2767, 100))), Rect { x0: 30000, y0: 0, x1: 32767, y1: 100 });
}

#[test]
fn circle_draws_fill_then_outline() {
    let mut a = Canvas::new(Offset::new(9, 9)).unwrap();
    let circle = Circle::new(Point::new(4, 4), 3)
        .with_bg(Color::from_u16(0x001F))
        .with_fg(Color::white());
    assert!(circle.is_drawable());
    assert_eq!(circle.bounds(), Rect { x0: 1, y0: 1, x1: 8, y1: 8 });
    circle.draw(&mut a);
    let mut b = Canvas::new(Offset::new(9, 9)).unwrap();
    b.fill_circle_aa(Point::new(4, 4), 3, Color::from_u16(0x001F));
    b.draw_circle_aa(Point::new(4, 4), 3, Color::white());
    assert_eq!(dump(&a), dump(&b));
    assert_eq!(dump(&a)[4][1], 0xFFFF);
    assert_eq!(dump(&a)[4][4], 0x001F);
}

#[test]
fn thick_circle_is_a_disc_in_a_disc() {
    let mut a = Canvas::new(Offset::new(13, 13)).unwrap();
    Circle::new(Point::new(6, 6), 5)
        .with_bg(Color::black())
        .with_fg(Color::white())
        .with_thickness(2)
        .draw(&mut a);
    let mut b = Canvas::new(Offset::new(13, 13)).unwrap();
    b.fill_circle_aa(Point::new(6, 6), 5, Color::white());
    b.fill_circle_aa(Point::new(6, 6), 3, Color::black());
    assert_eq!(dump(&a), dump(&b));
    assert_eq!(dump(&a)[6][1], 0xFFFF);
    assert_eq!(dump(&a)[6][6], 0);
}

#[test]
fn a_ring_without_fill_is_not_supported() {
    assert!(!Circle::new(Point::new(6, 6), 5).with_fg(Color::white()).with_thickness(2).is_drawable());
    assert!(Circle::new(Point::new(6, 6), 5).with_fg(Color::white()).is_drawable());
    // the inner disc would have a negative radius
    assert!(!Circle::new(Point::new(6, 6), 2)
        .with_fg(Color::white())
        .with_bg(Color::black())
        .with_thickness(3)
        .is_drawable());
    assert!(!Circle::new(Point::new(6, 6), -1).is_drawable());
}

#[test]
fn text_is_handed_to_the_text_provider() {
    let mut c = Canvas::new(Offset::new(20, 10)).unwrap();
    let text = Text::new(Rect { x0: 2, y0: 3, x1: 30, y1: 8 }, "Installing")
        .with_fg(Color::from_u16(7))
        .with_font(Font::mono());
    assert!(text.is_drawable());
    assert_eq!(text.bounds(), Rect { x0: 2, y0: 3, x1: 30, y1: 8 });
    text.draw(&mut c);
    let t = c.texts();
    assert_eq!(t.len(), 1);
    assert_eq!(t[0].text, "Installing");
    assert_eq!(t[0].rect, Rect { x0: 2, y0: 3, x1: 20, y1: 8 });
    assert_eq!(t[0].attr.fg_color, Color::from_u16(7));
    assert_eq!(t[0].attr.font, Font::mono());
    assert!(t[0].blended);
}

#[test]
fn blurring_blurs_its_area() {
    let mut a = Canvas::new(Offset::new(6, 5)).unwrap();
    a.fill_rect(Rect { x0: 0, y0: 2, x1: 6, y1: 3 }, Color::white());
    let b = Blurring::new(Rect { x0: 0, y0: 0, x1: 6, y1: 5 }, 1);
    assert!(Shape::Blurring(Blurring::new(Rect { x0: 0, y0: 0, x1: 6, y1: 5 }, 1)).is_drawable());
    assert_eq!(b.bounds(), Rect { x0: 0, y0: 0, x1: 6, y1: 5 });
    b.draw(&mut a);
    assert_eq!(dump(&a)[0], vec![0; 6]);
    assert_eq!(dump(&a)[2], vec![0x52AA; 6]);
}

#[test]
fn image_clip_is_the_visible_part_in_image_coordinates() {
    let vp = Viewport::new(Rect { x0: 5, y0: 5, x1: 20, y1: 12 }).with_origin(Offset::new(2, 3));
    // image of 10 x 10 at local (1, 1): absolute (3,4)-(13,14)
    assert_eq!(
        image_clip(vp, Point::new(1, 1), Offset::new(10, 10)),
        Rect { x0: 2, y0: 1, x1: 10, y1: 8 }
    );
    assert!(image_clip(vp, Point::new(100, 1), Offset::new(10, 10)).is_empty());
    assert!(image_clip(vp, Point::new(1, 1), Offset::new(0, 10)).is_empty());
}

#[test]
fn grayscale_icon_is_drawn_in_slices() {
    let toif = Toif::new(GRAY_ICON).unwrap();
    let mut ctx = FakeContext::new();
    // 4 x 3 pixels, two bytes to a row, even pixel in the low half
    ctx.icon = vec![0xF0, 0x0F, 0xFF, 0xFF, 0x00, 0xF0];
    ctx.stride = 2;
    let mut ctx = Recorded::new(ctx);
    let mut c = Canvas::new(Offset::new(6, 5)).unwrap();
    let image = ToifImage::new(Point::new(1, 1), toif)
        .with_fg(Color::from_u16(0xF800))
        .with_bg(Color::from_u16(0x001F));
    assert!(image.is_drawable());
    assert_eq!(image.bounds(), Rect { x0: 1, y0: 1, x1: 5, y1: 4 });
    image.draw(&mut c, &mut ctx);
    let f = 0xF800;
    let b = 0x001F;
    assert_eq!(
        dump(&c),
        vec![
            vec![0, 0, 0, 0, 0, 0],
            vec![0, b, f, f, b, 0],
            vec![0, f, f, f, f, 0],
            vec![0, b, b, b, f, 0],
            vec![0, 0, 0, 0, 0, 0],
        ]
    );
    assert_eq!(ctx.inner().asked_rows, vec![0]);
}

#[test]
fn grayscale_icon_without_background_is_blended() {
    let toif = Toif::new(GRAY_ICON).unwrap();
    let mut ctx = FakeContext::new();
    ctx.icon = vec![0xF0, 0x0F, 0xFF, 0xFF, 0x00, 0xF0];
    ctx.stride = 2;
    let mut ctx = Recorded::new(ctx);
    let mut c = Canvas::new(Offset::new(6, 5)).unwrap();
    c.fill_rect(Rect { x0: 0, y0: 0, x1: 6, y1: 5 }, Color::from_u16(0x07E0));
    ToifImage::new(Point::new(1, 1), toif).draw(&mut c, &mut ctx);
    let g = 0x07E0;
    let w = 0xFFFF;
    assert_eq!(
        dump(&c),
        vec![
            vec![g, g, g, g, g, g],
            vec![g, g, w, w, g, g],
            vec![g, w, w, w, w, g],
            vec![g, g, g, g, w, g],
            vec![g, g, g, g, g, g],
        ]
    );
}

#[test]
fn clipped_icon_starts_at_its_first_visible_row() {
    let toif = Toif::new(GRAY_ICON).unwrap();
    let mut ctx = FakeContext::new();
    ctx.icon = vec![0xF0, 0x0F, 0xFF, 0xFF, 0x00, 0xF0];
    ctx.stride = 2;
    let mut ctx = Recorded::new(ctx);
    let mut c = Canvas::new(Offset::new(6, 5)).unwrap();
    // the image's first row and first column lie outside
    ToifImage::new(Point::new(-1, -1), toif)
        .with_fg(Color::from_u16(0xF800))
        .with_bg(Color::from_u16(0x001F))
        .draw(&mut c, &mut ctx);
    let f = 0xF800;
    let b = 0x001F;
    assert_eq!(dump(&c)[0], vec![f, f, f, 0, 0, 0]);
    assert_eq!(dump(&c)[1], vec![b, b, f, 0, 0, 0]);
    assert_eq!(dump(&c)[2], vec![0; 6]);
    assert_eq!(ctx.inner().asked_rows, vec![1]);
}

#[test]
fn color_icon_is_drawn_from_little_endian_pixels() {
    let toif = Toif::new(COLOR_ICON).unwrap();
    let mut ctx = FakeContext::new();
    ctx.icon = vec![0x34, 0x12, 0xCD, 0xAB, 0x01, 0x00, 0x02, 0x00];
    ctx.stride = 4;
    let mut ctx = Recorded::new(ctx);
    let mut c = Canvas::new(Offset::new(4, 3)).unwrap();
    ToifImage::new(Point::new(1, 0), toif).draw(&mut c, &mut ctx);
    assert_eq!(
        dump(&c),
        vec![vec![0, 0x1234, 0xABCD, 0], vec![0, 1, 2, 0], vec![0, 0, 0, 0]]
    );
}

#[test]
fn tall_icon_takes_several_slices() {
    // 2 x 40 gray icon: rows of one byte
    const TALL: &[u8] = b"TOIg\x02\x00\x28\x00\x01\x00\x00\x00z";
    let toif = Toif::new(TALL).unwrap();
    let mut ctx = FakeContext::new();
    ctx.icon = (0..40).map(|y| if y % 2 == 0 { 0xFF } else { 0x00 }).collect();
    ctx.stride = 1;
    let mut ctx = Recorded::new(ctx);
    let mut c = Canvas::new(Offset::new(2, 40)).unwrap();
    ToifImage::new(Point::new(0, 0), toif)
        .with_fg(Color::from_u16(1))
        .with_bg(Color::from_u16(2))
        .draw(&mut c, &mut ctx);
    for y in 0..40 {
        let v = if y % 2 == 0 { 1 } else { 2 };
        assert_eq!(dump(&c)[y], vec![v, v]);
    }
    assert_eq!(ctx.inner().asked_rows, vec![0, 32]);
}

#[test]
fn jpeg_blocks_are_drawn_until_the_visible_part_is_done() {
    let mut ctx = FakeContext::new();
    ctx.jpeg_size = Ok(Offset::new(4, 4));
    // four blocks of 2 x 2
    for (i, origin) in [(0u32, 0u32), (2, 0), (0, 2), (2, 2)].iter().enumerate() {
        ctx.blocks.push((*origin, (2, 2), vec![(i + 1) as u16; 4]));
    }
    let mut ctx = Recorded::new(ctx);
    let image = JpegImage::new(Point::new(1, 1), JPEG).with_blur(0);
    assert_eq!(image.bounds(&mut ctx), Rect { x0: 1, y0: 1, x1: 5, y1: 5 });
    let mut c = Canvas::new(Offset::new(6, 6)).unwrap();
    image.draw(&mut c, &mut ctx);
    assert_eq!(
        dump(&c),
        vec![
            vec![0, 0, 0, 0, 0, 0],
            vec![0, 1, 1, 2, 2, 0],
            vec![0, 1, 1, 2, 2, 0],
            vec![0, 3, 3, 4, 4, 0],
            vec![0, 3, 3, 4, 4, 0],
            vec![0, 0, 0, 0, 0, 0],
        ]
    );
    assert_eq!(ctx.inner().delivered, 4);

    // only the upper left block is visible: the decoder is stopped after it
    let mut ctx2 = FakeContext::new();
    ctx2.jpeg_size = Ok(Offset::new(4, 4));
    ctx2.blocks = ctx.inner().blocks.clone();
    let mut ctx2 = Recorded::new(ctx2);
    let mut c = Canvas::new(Offset::new(3, 3)).unwrap();
    image.draw(&mut c, &mut ctx2);
    assert_eq!(dump(&c), vec![vec![0, 0, 0], vec![0, 1, 1], vec![0, 1, 1]]);
    assert_eq!(ctx2.inner().delivered, 1);
}

#[test]
fn jpeg_receiver_answers_for_each_block() {
    let out = JpegFnOutput::new(Point::new(0, 0), Rect { x0: 0, y0: 0, x1: 4, y1: 2 });
    let mut c = Canvas::new(Offset::new(4, 2)).unwrap();
    assert!(out.write(&mut c, (0, 0), (2, 2), &[5; 4]));
    assert!(!out.write(&mut c, (2, 0), (2, 2), &[6; 4]));
    assert_eq!(dump(&c), vec![vec![5, 5, 6, 6], vec![5, 5, 6, 6]]);
    // a block without all its pixels, or an empty one, stops the decoder and draws nothing
    assert!(!out.write(&mut c, (0, 0), (2, 2), &[9; 3]));
    assert!(!out.write(&mut c, (0, 0), (0, 2), &[9; 4]));
    assert!(!out.write(&mut c, (32766, 0), (2, 2), &[9; 4]));
    assert_eq!(dump(&c), vec![vec![5, 5, 6, 6], vec![5, 5, 6, 6]]);
    // a block far to the right is taken, though nothing of it shows
    let wide = JpegFnOutput::new(Point::new(0, 0), Rect { x0: 0, y0: 0, x1: 6000, y1: 2 });
    assert!(wide.write(&mut c, (5000, 0), (2, 2), &[9; 4]));
    assert_eq!(dump(&c), vec![vec![5, 5, 6, 6], vec![5, 5, 6, 6]]);
}

#[test]
fn jpeg_without_size_has_empty_bounds() {
    let mut ctx = FakeContext::new();
    ctx.jpeg_size = Err(JpegError::InvalidData);
    let mut ctx = Recorded::new(ctx);
    let image = JpegImage::new(Point::new(3, 4), JPEG);
    assert!(image.bounds(&mut ctx).is_empty());
    assert_eq!(image.bounds_for(Ok(Offset::new(-1, 5))), Rect { x0: 3, y0: 4, x1: 3, y1: 4 });
    assert_eq!(image.bounds_for(Ok(Offset::new(10, 5))), Rect { x0: 3, y0: 4, x1: 13, y1: 9 });
    let mut c = Canvas::new(Offset::new(6, 6)).unwrap();
    image.draw(&mut c, &mut ctx);
    assert_eq!(dump(&c), vec![vec![0; 6]; 6]);
    assert_eq!(ctx.inner().delivered, 0);
}

#[test]
fn shapes_share_one_contract() {
    let mut ctx = Recorded::new(FakeContext::new());
    let mut c = Canvas::new(Offset::new(8, 6)).unwrap();
    let shapes = vec![
        Shape::Bar(Bar::new(Rect { x0: 0, y0: 0, x1: 8, y1: 6 }).with_bg(Color::from_u16(1))),
        Shape::Circle(Circle::new(Point::new(3, 3), 2).with_bg(Color::from_u16(2))),
        Shape::Text(Text::new(Rect { x0: 0, y0: 0, x1: 8, y1: 6 }, "t")),
        Shape::Blurring(Blurring::new(Rect { x0: 0, y0: 0, x1: 8, y1: 6 }, 0)),
    ];
    let bounds: Vec<Rect> = shapes.iter().map(|s| s.bounds(&mut ctx)).collect();
    assert_eq!(
        bounds,
        vec![
            Rect { x0: 0, y0: 0, x1: 8, y1: 6 },
            Rect { x0: 1, y0: 1, x1: 6, y1: 6 },
            Rect { x0: 0, y0: 0, x1: 8, y1: 6 },
            Rect { x0: 0, y0: 0, x1: 8, y1: 6 },
        ]
    );
    for s in shapes.iter() {
        assert!(s.is_drawable());
        s.draw(&mut c, &mut ctx);
        s.cleanup(&mut ctx);
    }
    assert_eq!(dump(&c)[3][3], 2);
    assert_eq!(dump(&c)[0][0], 1);
    assert_eq!(c.texts().len(), 1);
}

#[test]
fn recorded_decoders_take_the_requests_and_are_handed_back() {
    let mut fake = FakeContext::new();
    fake.icon = vec![0x21, 0x43, 0x65, 0x87];
    fake.stride = 2;
    fake.jpeg_size = Ok(Offset::new(7, 9));
    let mut ctx = Recorded::new(fake);
    let toif = Toif::new(GRAY_ICON).unwrap();
    let mut buf = vec![0u8; 2];
    ctx.deflate_toif(toif, 1, &mut buf);
    assert_eq!(buf, vec![0x65, 0x87]);
    assert_eq!(ctx.get_jpeg_size(JPEG), Ok(Offset::new(7, 9)));
    assert_eq!(ctx.inner().asked_rows, vec![1]);
    let out = JpegFnOutput::new(Point::new(0, 0), Rect { x0: 0, y0: 0, x1: 2, y1: 2 });
    let mut c = Canvas::new(Offset::new(2, 2)).unwrap();
    assert_eq!(ctx.decompress_jpeg(JPEG, Point::new(0, 0), &out, &mut c), Ok(()));
    let fake = ctx.into_inner();
    assert_eq!(fake.asked_rows, vec![1]);
}

#[test]
fn blocks_before_the_first_wanted_pixel_are_passed_over() {
    let out = JpegFnOutput::new(Point::new(0, 0), Rect { x0: 2, y0: 2, x1: 4, y1: 4 });
    let mut c = Canvas::new(Offset::new(4, 4)).unwrap();
    let start = Point::new(2, 2);
    // above the row of the start, and left of it on its row: passed over, the decoder goes on
    assert!(out.write_from(&mut c, start, (0, 0), (2, 2), &[5; 4]));
    assert!(out.write_from(&mut c, start, (2, 0), (2, 2), &[5; 4]));
    assert!(out.write_from(&mut c, start, (0, 2), (2, 2), &[5; 4]));
    assert_eq!(dump(&c), vec![vec![0; 4]; 4]);
    // the block of the start is drawn, and it is the last that is wanted
    assert!(!out.write_from(&mut c, start, (2, 2), (2, 2), &[7; 4]));
    assert_eq!(dump(&c)[2], vec![0, 0, 7, 7]);
    assert_eq!(dump(&c)[3], vec![0, 0, 7, 7]);
    // a block that is not passed over must be whole
    assert!(!out.write_from(&mut c, start, (2, 2), (2, 2), &[9; 3]));
    // left of the start but lower than its row: taken, and more is wanted to its right
    assert!(out.write_from(&mut c, Point::new(2, 0), (0, 2), (2, 2), &[8; 4]));
    assert_eq!(dump(&c)[2], vec![8, 8, 7, 7]);
}

#[test]
fn a_region_lands_where_the_filter_takes_it() {
    let vp = Viewport::new(Rect { x0: 0, y0: 0, x1: 300, y1: 20 });
    // a kernel above the largest, and rows longer than the filter takes
    assert!(Blurring::new(Rect { x0: 0, y0: 0, x1: 100, y1: 20 }, 4).lands_at(vp));
    assert!(!Blurring::new(Rect { x0: 0, y0: 0, x1: 100, y1: 20 }, 5).lands_at(vp));
    assert!(Blurring::new(Rect { x0: 0, y0: 0, x1: 240, y1: 20 }, 1).lands_at(vp));
    assert!(!Blurring::new(Rect { x0: 0, y0: 0, x1: 241, y1: 20 }, 1).lands_at(vp));
    // what is clipped away does not count, and a kernel that does not fit blurs nothing
    let narrow = Viewport::new(Rect { x0: 0, y0: 0, x1: 200, y1: 20 });
    assert!(Blurring::new(Rect { x0: 0, y0: 0, x1: 241, y1: 20 }, 1).lands_at(narrow));
    assert!(Blurring::new(Rect { x0: 0, y0: 0, x1: 8, y1: 8 }, 5).lands_at(vp));
    assert!(!Blurring::new(Rect { x0: 0, y0: 0, x1: 8, y1: 8 }, 1).lands_at(vp.with_origin(Offset::new(32767, 0))));
}
