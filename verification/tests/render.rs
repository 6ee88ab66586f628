use static_alloc::Bump;
use trezor_canvas::canvas::rgb::{RgbCanvas, RgbCanvasEx};
use trezor_canvas::canvas::rgb565::Canvas;
use trezor_canvas::display::Color;
use trezor_canvas::geometry::{Offset, Point, Rect};
use trezor_canvas::shape::context::{DrawingContext, JpegError};
use trezor_canvas::shape::jpeg::JpegFnOutput;
use trezor_canvas::shape::render::{can_place_text, DirectRenderer, ProgressiveRenderer, Renderer};
use trezor_canvas::shape::{Bar, Circle, Shape, Text};
use trezor_canvas::toif::Toif;
use trezor_canvas::viewport::Viewport;

/// Decoders for scenes without images.
struct NoDecoders;

impl DrawingContext for NoDecoders {
    fn deflate_toif(&mut self, _toif: Toif, _from_row: i16, _dest_buf: &mut Vec<u8>) {}

    fn get_jpeg_size(&mut self, _jpeg: &'static [u8]) -> Result<Offset, JpegError> {
        Err(JpegError::InvalidData)
    }

    fn decompress_jpeg<C: RgbCanvas>(
        &mut self,
        _jpeg: &'static [u8],
        _offset: Point,
        _output: &JpegFnOutput,
        _canvas: &mut C,
    ) -> Result<(), JpegError> {
        Ok(())
    }
}

fn dump(c: &Canvas) -> Vec<Vec<u16>> {
    let h = c.size().y;
    (0..h).map(|y| c.row(y).unwrap().to_vec()).collect()
}

fn checksum(px: &Vec<Vec<u16>>) -> (u32, usize) {
    let mut h: u32 = 0x811C9DC5;
    let mut n = 0;
    for row in px {
        for v in row {
            h = (h ^ (*v as u32)).wrapping_mul(0x01000193);
            if *v != 0 {
                n += 1;
            }
        }
    }
    (h, n)
}

fn small_scene() -> Vec<Shape> {
    vec![
        Shape::Bar(Bar::new(Rect { x0: 2, y0: 2, x1: 30, y1: 10 }).with_bg(Color::rgb(192, 0, 0))),
        Shape::Bar(
            Bar::new(Rect { x0: 20, y0: 17, x1: 60, y1: 31 })
                .with_radius(3)
                .with_fg(Color::rgb(128, 0, 192)),
        ),
        Shape::Circle(
            Circle::new(Point::new(50, 40), 5)
                .with_bg(Color::white())
                .with_fg(Color::rgb(0, 255, 0)),
        ),
    ]
}

fn render_progressive(size: Offset, bg: Option<Color>, scene: Vec<Shape>, lines: usize) -> Canvas {
    let pool: Bump<[u64; 2048]> = Bump::uninit();
    let canvas = Canvas::new(size).unwrap();
    let mut r = ProgressiveRenderer::new(canvas, bg, NoDecoders, &pool, 30).unwrap();
    for s in scene {
        assert!(s.is_drawable());
        assert!(!r.is_full());
        r.render_shape(s);
    }
    r.render(lines).unwrap();
    r.finish().0
}

fn render_direct(size: Offset, bg: Option<Color>, scene: Vec<Shape>) -> Canvas {
    let canvas = Canvas::new(size).unwrap();
    let mut r = DirectRenderer::new(canvas, bg, NoDecoders);
    for s in scene {
        r.render_shape(s);
    }
    r.finish().0
}

#[test]
fn direct_renderer_draws_what_is_wholly_inside() {
    let canvas = Canvas::new(Offset::new(10, 10)).unwrap();
    let mut r = DirectRenderer::new(canvas, Some(Color::from_u16(9)), NoDecoders);
    assert_eq!(r.viewport(), Viewport::from_size(Offset::new(10, 10)));
    Bar::new(Rect { x0: 1, y0: 1, x1: 4, y1: 3 }).with_bg(Color::from_u16(1)).render(&mut r);
    // sticks out on the right: skipped entirely, never partially drawn
    Bar::new(Rect { x0: 7, y0: 5, x1: 12, y1: 7 }).with_bg(Color::from_u16(2)).render(&mut r);
    // outside
    Bar::new(Rect { x0: 20, y0: 5, x1: 22, y1: 7 }).with_bg(Color::from_u16(3)).render(&mut r);
    let (canvas, _) = r.finish();
    let px = dump(&canvas);
    assert_eq!(px[1], vec![9, 1, 1, 1, 9, 9, 9, 9, 9, 9]);
    assert_eq!(px[2], vec![9, 1, 1, 1, 9, 9, 9, 9, 9, 9]);
    assert_eq!(px[5], vec![9; 10]);
    assert_eq!(px[6], vec![9; 10]);
}

#[test]
fn renderer_viewport_can_be_narrowed_and_restored() {
    let canvas = Canvas::new(Offset::new(10, 10)).unwrap();
    let mut r = DirectRenderer::new(canvas, None, NoDecoders);
    let before = r.set_window(Rect { x0: 2, y0: 3, x1: 8, y1: 9 });
    assert_eq!(before, Viewport::from_size(Offset::new(10, 10)));
    assert_eq!(r.viewport().clip, Rect { x0: 2, y0: 3, x1: 8, y1: 9 });
    assert_eq!(r.viewport().origin, Offset::new(2, 3));
    Bar::new(Rect { x0: 0, y0: 0, x1: 2, y1: 2 }).with_bg(Color::from_u16(1)).render(&mut r);
    let inner = r.set_clip(Rect { x0: 0, y0: 0, x1: 3, y1: 3 });
    assert_eq!(inner.clip, Rect { x0: 2, y0: 3, x1: 8, y1: 9 });
    assert_eq!(r.viewport().clip, Rect { x0: 2, y0: 3, x1: 5, y1: 6 });
    // inside the window, outside the narrowed clip
    Bar::new(Rect { x0: 2, y0: 2, x1: 5, y1: 5 }).with_bg(Color::from_u16(2)).render(&mut r);
    r.set_viewport(before);
    assert_eq!(r.viewport(), before);
    let (canvas, _) = r.finish();
    let px = dump(&canvas);
    assert_eq!(px[3], vec![0, 0, 1, 1, 0, 0, 0, 0, 0, 0]);
    assert_eq!(px[4], vec![0, 0, 1, 1, 0, 0, 0, 0, 0, 0]);
    assert_eq!(px[5], vec![0; 10]);
}

#[test]
fn progressive_renderer_records_what_is_wholly_inside_its_viewport() {
    let pool: Bump<[u64; 2048]> = Bump::uninit();
    let canvas = Canvas::new(Offset::new(10, 10)).unwrap();
    let mut r = ProgressiveRenderer::new(canvas, None, NoDecoders, &pool, 2).unwrap();
    assert_eq!(r.len(), 0);
    assert!(r.record(Shape::Bar(Bar::new(Rect { x0: 1, y0: 1, x1: 4, y1: 3 }))));
    assert!(!r.record(Shape::Bar(Bar::new(Rect { x0: 7, y0: 5, x1: 12, y1: 7 }))));
    assert_eq!(r.len(), 1);
    assert!(!r.is_full());
    r.set_viewport(Viewport::new(Rect { x0: -5, y0: 0, x1: 100, y1: 5 }).with_origin(Offset::new(1, 1)));
    assert_eq!(r.viewport().clip, Rect { x0: 0, y0: 0, x1: 10, y1: 5 });
    assert!(r.record(Shape::Bar(Bar::new(Rect { x0: 0, y0: 0, x1: 2, y1: 2 }))));
    assert_eq!(r.len(), 2);
    assert!(r.is_full());
}

#[test]
fn progressive_renderer_needs_room_in_the_pool() {
    let pool: Bump<[u64; 4]> = Bump::uninit();
    let canvas = Canvas::new(Offset::new(10, 10)).unwrap();
    assert!(ProgressiveRenderer::new(canvas, None, NoDecoders, &pool, 1000).is_none());
}

#[test]
fn one_strip_or_many_give_the_same_pixels_for_shapes_within_one_strip() {
    let size = Offset::new(64, 64);
    let bg = Some(Color::rgb(0, 0, 48));
    let whole = dump(&render_progressive(size, bg, small_scene(), 64));
    let strips = dump(&render_progressive(size, bg, small_scene(), 16));
    let direct = dump(&render_direct(size, bg, small_scene()));
    assert_eq!(whole, strips);
    assert_eq!(whole, direct);
    assert_eq!(checksum(&whole), (0x5A96A764, 4096));
    assert_eq!(whole[5][5], Color::rgb(192, 0, 0).to_u16());
    assert_eq!(whole[40][50], 0xFFFF);
    assert_eq!(whole[0][0], Color::rgb(0, 0, 48).to_u16());
}

#[test]
fn shapes_are_painted_in_the_order_in_which_they_were_recorded() {
    let scene = || {
        vec![
            Shape::Bar(Bar::new(Rect { x0: 0, y0: 0, x1: 6, y1: 4 }).with_bg(Color::from_u16(1))),
            Shape::Bar(Bar::new(Rect { x0: 2, y0: 1, x1: 8, y1: 3 }).with_bg(Color::from_u16(2))),
        ]
    };
    let px = dump(&render_progressive(Offset::new(8, 8), Some(Color::from_u16(9)), scene(), 4));
    assert_eq!(px[0], vec![1, 1, 1, 1, 1, 1, 9, 9]);
    assert_eq!(px[1], vec![1, 1, 2, 2, 2, 2, 2, 2]);
    assert_eq!(px[3], vec![1, 1, 1, 1, 1, 1, 9, 9]);
    assert_eq!(px[4], vec![9; 8]);
}

#[test]
fn a_shape_that_spans_two_strips_is_not_drawn() {
    let scene = || vec![Shape::Bar(Bar::new(Rect { x0: 0, y0: 2, x1: 6, y1: 6 }).with_bg(Color::from_u16(1)))];
    let split = dump(&render_progressive(Offset::new(8, 8), None, scene(), 4));
    assert_eq!(split, vec![vec![0; 8]; 8]);
    let whole = dump(&render_progressive(Offset::new(8, 8), None, scene(), 8));
    assert_eq!(whole[2], vec![1, 1, 1, 1, 1, 1, 0, 0]);
    assert_eq!(whole[5], vec![1, 1, 1, 1, 1, 1, 0, 0]);
    assert_eq!(whole[6], vec![0; 8]);
}

#[test]
fn the_last_strip_is_cut_to_the_rows_that_remain() {
    let scene = || vec![Shape::Bar(Bar::new(Rect { x0: 0, y0: 6, x1: 3, y1: 7 }).with_bg(Color::from_u16(1)))];
    let px = dump(&render_progressive(Offset::new(4, 7), Some(Color::from_u16(5)), scene(), 3));
    assert_eq!(px.len(), 7);
    assert_eq!(px[0], vec![5; 4]);
    assert_eq!(px[5], vec![5; 4]);
    assert_eq!(px[6], vec![1, 1, 1, 5]);
}

#[test]
fn strips_follow_the_clip_of_the_surface() {
    let pool: Bump<[u64; 2048]> = Bump::uninit();
    let mut canvas = Canvas::new(Offset::new(8, 8)).unwrap();
    canvas.set_viewport(Viewport::new(Rect { x0: 2, y0: 2, x1: 6, y1: 6 }));
    let mut r = ProgressiveRenderer::new(canvas, Some(Color::from_u16(7)), NoDecoders, &pool, 4).unwrap();
    r.render_shape(Shape::Bar(Bar::new(Rect { x0: 3, y0: 3, x1: 5, y1: 4 }).with_bg(Color::from_u16(1))));
    r.render(2).unwrap();
    let px = dump(&r.finish().0);
    assert_eq!(px[1], vec![0; 8]);
    assert_eq!(px[2], vec![0, 0, 7, 7, 7, 7, 0, 0]);
    assert_eq!(px[3], vec![0, 0, 7, 1, 1, 7, 0, 0]);
    assert_eq!(px[5], vec![0, 0, 7, 7, 7, 7, 0, 0]);
    assert_eq!(px[6], vec![0; 8]);
}

#[test]
fn text_of_a_strip_reaches_the_surface() {
    let pool: Bump<[u64; 2048]> = Bump::uninit();
    let canvas = Canvas::new(Offset::new(20, 20)).unwrap();
    let mut r = ProgressiveRenderer::new(canvas, None, NoDecoders, &pool, 4).unwrap();
    Text::new(Rect { x0: 2, y0: 12, x1: 18, y1: 18 }, "TREZOR").render(&mut r);
    r.render(10).unwrap();
    let (canvas, _) = r.finish();
    let t = canvas.texts();
    assert_eq!(t.len(), 1);
    assert_eq!(t[0].text, "TREZOR");
    assert_eq!(t[0].rect, Rect { x0: 2, y0: 12, x1: 18, y1: 18 });
    assert!(t[0].blended);
}

#[test]
fn text_placement_is_checked() {
    assert!(can_place_text(Offset::new(0, 0), Rect { x0: 0, y0: 0, x1: 10, y1: 10 }, Offset::new(0, 0)));
    assert!(!can_place_text(Offset::new(10, 0), Rect { x0: 0, y0: 0, x1: 32760, y1: 10 }, Offset::new(0, 0)));
    assert!(!can_place_text(Offset::new(0, 0), Rect { x0: -20000, y0: 0, x1: 20000, y1: 10 }, Offset::new(0, 0)));
    assert!(!can_place_text(Offset::new(0, 0), Rect { x0: 0, y0: 0, x1: 10, y1: 10 }, Offset::new(32760, 0)));
}

#[test]
fn rounded_bar_and_circle_on_the_panel() {
    let size = Offset::new(240, 240);
    let scene = || {
        vec![
            Shape::Bar(
                Bar::new(Rect { x0: 30, y0: 120, x1: 210, y1: 180 })
                    .with_radius(16)
                    .with_bg(Color::rgb(96, 128, 128)),
            ),
            Shape::Circle(Circle::new(Point::new(120, 110), 10).with_fg(Color::white())),
        ]
    };
    let direct = dump(&render_direct(size, None, scene()));
    assert_eq!(checksum(&direct), (0x18197899, 10669));
    assert_eq!(direct[120][30], 0);
    assert_eq!(direct[120][46], 0x5BCF);
    assert_eq!(direct[120][45], 0x538E);
    assert_eq!(direct[121][46], 0x6410);
    assert_eq!(direct[150][30], 0x6410);
    assert_eq!(direct[100][120], 0xFFFF);
    assert_eq!(direct[110][110], 0xFFFF);
    // one strip as high as the panel gives the same pixels as the direct pass
    let whole = dump(&render_progressive(size, None, scene(), 240));
    assert_eq!(whole, direct);
    // in strips of 16 rows neither shape lies wholly on one strip: a shape is
    // drawn on a strip only where its bounds lie wholly on it
    let strips = dump(&render_progressive(size, None, scene(), 16));
    assert_eq!(strips, vec![vec![0u16; 240]; 240]);
}

#[test]
fn a_renderer_without_room_is_always_had() {
    let pool: Bump<[u64; 1]> = Bump::uninit();
    let canvas = Canvas::new(Offset::new(4, 4)).unwrap();
    let r = ProgressiveRenderer::new(canvas, None, NoDecoders, &pool, 0).unwrap();
    assert_eq!(r.len(), 0);
    assert!(r.is_full());
    let canvas = Canvas::new(Offset::new(4, 4)).unwrap();
    assert!(ProgressiveRenderer::around(canvas, None, NoDecoders, None).is_none());
}

#[test]
fn rendering_succeeds_on_an_empty_clip_and_follows_the_strip_otherwise() {
    let pool: Bump<[u64; 2048]> = Bump::uninit();
    let mut canvas = Canvas::new(Offset::new(10, 10)).unwrap();
    canvas.set_viewport(Viewport::new(Rect { x0: 3, y0: 3, x1: 3, y1: 8 }));
    let mut r = ProgressiveRenderer::new(canvas, Some(Color::from_u16(7)), NoDecoders, &pool, 2).unwrap();
    assert!(r.can_render(4));
    assert_eq!(r.render(4), Ok(()));
    // nothing to draw: the pass succeeds even where the strip was refused
    assert_eq!(r.render_on(4, Err(trezor_canvas::gdc::AllocError::OutOfMemory)), Ok(()));
    let (canvas, _) = r.finish();
    assert_eq!(dump(&canvas), vec![vec![0; 10]; 10]);

    let canvas = Canvas::new(Offset::new(10, 10)).unwrap();
    let mut r = ProgressiveRenderer::new(canvas, Some(Color::from_u16(7)), NoDecoders, &pool, 2).unwrap();
    assert!(r.record(Shape::Bar(Bar::new(Rect { x0: 1, y0: 1, x1: 4, y1: 3 }).with_bg(Color::from_u16(1)))));
    assert!(r.can_render(5));
    assert!(!r.can_render(0));
    assert!(!r.can_render(40000));
    // a refused strip ends the pass with nothing drawn
    assert_eq!(
        r.render_on(5, Err(trezor_canvas::gdc::AllocError::OutOfMemory)),
        Err(trezor_canvas::gdc::AllocError::OutOfMemory)
    );
    // a strip that was had is drawn on
    assert_eq!(r.render_on(5, Canvas::new(Offset::new(10, 5))), Ok(()));
    let (canvas, _) = r.finish();
    let px = dump(&canvas);
    assert_eq!(px[0], vec![7; 10]);
    assert_eq!(px[1], vec![7, 1, 1, 1, 7, 7, 7, 7, 7, 7]);
    assert_eq!(px[9], vec![7; 10]);
}

#[test]
fn a_direct_renderer_takes_what_lands() {
    let mut canvas = Canvas::new(Offset::new(8, 120)).unwrap();
    canvas.set_viewport(Viewport::new(Rect { x0: 0, y0: 0, x1: 8, y1: 120 }).with_origin(Offset::new(0, -4900)));
    let mut r = DirectRenderer::new(canvas, None, NoDecoders);
    let bar = Bar::new(Rect { x0: 2, y0: 5000, x1: 6, y1: 5003 }).with_bg(Color::from_u16(7));
    assert!(r.can_take(&Shape::Bar(bar)));
    let bar = Bar::new(Rect { x0: 2, y0: 5000, x1: 6, y1: 5003 }).with_bg(Color::from_u16(7));
    bar.render(&mut r);
    let (canvas, _) = r.finish();
    assert_eq!(dump(&canvas)[100], vec![0, 0, 7, 7, 7, 7, 0, 0]);
}
