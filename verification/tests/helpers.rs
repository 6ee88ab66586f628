use trezor_canvas::canvas::rgb::RgbCanvas;
use trezor_canvas::canvas::rgb565::Canvas;
use trezor_canvas::display::{
    dotted_line, rect_fill, rect_fill_rounded, rect_fill_rounded1, rect_stroke, set_window, Color,
    Glyph,
};
use trezor_canvas::geometry::{Offset, Point, Rect};
use trezor_canvas::shape::{Shape, Snake};
use trezor_canvas::shape::context::{DrawingContext, JpegError, Recorded};
use trezor_canvas::shape::jpeg::JpegFnOutput;
use trezor_canvas::toif::Toif;
use trezor_canvas::viewport::Viewport;

struct NoDecoders;

impl DrawingContext for NoDecoders {
    fn deflate_toif(&mut self, _toif: Toif, _from_row: i16, _dest_buf: &mut Vec<u8>) {}

    fn get_jpeg_size(&mut self, _jpeg: &'static [u8]) -> Result<Offset, JpegError> {
        Err(JpegError::InvalidData)
    }

    fn decompress_jpeg<C: RgbCanvas>(
        &mut self,
        _jpeg: &'static [u8],
        _offset: Point,
        _output: &JpegFnOutput,
        _canvas: &mut C,
    ) -> Result<(), JpegError> {
        Ok(())
    }
}

fn dump(c: &Canvas) -> Vec<Vec<u16>> {
    let h = c.size().y;
    (0..h).map(|y| c.row(y).unwrap().to_vec()).collect()
}

/// A viewport of 8 by 120 pixels with the given origin.
fn under(origin: Offset) -> Viewport {
    Viewport::new(Rect { x0: 0, y0: 0, x1: 8, y1: 120 }).with_origin(origin)
}

#[test]
fn rect_helpers_fill_and_stroke() {
    let mut c = Canvas::new(Offset::new(6, 5)).unwrap();
    rect_fill(&mut c, Rect { x0: 1, y0: 1, x1: 3, y1: 2 }, Color::from_u16(4));
    assert_eq!(dump(&c)[1], vec![0, 4, 4, 0, 0, 0]);
    let mut c = Canvas::new(Offset::new(6, 5)).unwrap();
    rect_stroke(&mut c, Rect { x0: 1, y0: 0, x1: 6, y1: 5 }, Color::from_u16(1));
    assert_eq!(
        dump(&c),
        vec![
            vec![0, 1, 1, 1, 1, 1],
            vec![0, 1, 0, 0, 0, 1],
            vec![0, 1, 0, 0, 0, 1],
            vec![0, 1, 0, 0, 0, 1],
            vec![0, 1, 1, 1, 1, 1],
        ]
    );
}

#[test]
fn rounded1_leaves_the_corner_pixels() {
    let mut c = Canvas::new(Offset::new(5, 4)).unwrap();
    rect_fill_rounded1(&mut c, Rect { x0: 0, y0: 0, x1: 5, y1: 4 }, Color::from_u16(1), Color::from_u16(2));
    assert_eq!(
        dump(&c),
        vec![vec![2, 1, 1, 1, 2], vec![1, 1, 1, 1, 1], vec![1, 1, 1, 1, 1], vec![2, 1, 1, 1, 2]]
    );
}

#[test]
fn dotted_line_sets_every_second_pixel() {
    let mut c = Canvas::new(Offset::new(8, 2)).unwrap();
    dotted_line(&mut c, Point::new(1, 1), 7, Color::from_u16(3));
    assert_eq!(dump(&c), vec![vec![0; 8], vec![0, 3, 0, 3, 0, 3, 0, 0]]);
    // nothing from a start at or beyond the end
    dotted_line(&mut c, Point::new(7, 0), 7, Color::from_u16(3));
    assert_eq!(dump(&c)[0], vec![0; 8]);
}

#[test]
fn panel_window_names_first_and_last_column_and_row() {
    assert_eq!(set_window(Rect { x0: 0, y0: 20, x1: 240, y1: 240 }), (0, 20, 239, 239));
}

#[test]
fn glyph_pixels_are_unpacked() {
    let data: [u8; 3] = [0b1010_0101, 0x3C, 0xF0];
    let g = Glyph::new(3, 2, 4, 1, 2, &data);
    assert_eq!(
        (g.get_width(), g.get_height(), g.get_advance(), g.get_bearing_x(), g.get_bearing_y()),
        (3, 2, 4, 1, 2)
    );
    assert_eq!(g.unpack_bpp1(0), 15);
    assert_eq!(g.unpack_bpp1(1), 0);
    assert_eq!(g.unpack_bpp1(7), 15);
    assert_eq!(g.unpack_bpp1(10), 15);
    assert_eq!(g.unpack_bpp2(0), 10);
    assert_eq!(g.unpack_bpp2(3), 5);
    assert_eq!(g.unpack_bpp2(5), 15);
    assert_eq!(g.unpack_bpp4(0), 0xA);
    assert_eq!(g.unpack_bpp4(1), 0x5);
    assert_eq!(g.unpack_bpp4(3), 0xC);
    assert_eq!(g.unpack_bpp8(1), 3);
    assert_eq!(g.unpack_bpp8(2), 15);
    // four bits per pixel, rows of three pixels without gaps
    assert_eq!(g.get_pixel_data(0, 0), 0xA);
    assert_eq!(g.get_pixel_data(2, 0), 0x3);
    assert_eq!(g.get_pixel_data(0, 1), 0xC);
    assert_eq!(g.get_pixel_data(2, 1), 0x0);
}

#[test]
fn snake_fills_its_cells() {
    const CELLS: &[(i16, i16)] = &[(0, 0), (1, 0), (1, 1)];
    let snake = Snake::new(Point::new(2, 2), CELLS).with_color(Color::from_u16(6));
    assert!(snake.is_drawable());
    assert_eq!(snake.cell_rect((1, 1)), Rect { x0: 3, y0: 3, x1: 5, y1: 5 });
    let mut c = Canvas::new(Offset::new(6, 6)).unwrap();
    snake.draw(&mut c);
    assert_eq!(
        dump(&c),
        vec![
            vec![0, 0, 0, 0, 0, 0],
            vec![0, 6, 6, 6, 6, 0],
            vec![0, 6, 6, 6, 6, 0],
            vec![0, 0, 0, 6, 6, 0],
            vec![0, 0, 0, 6, 6, 0],
            vec![0, 0, 0, 0, 0, 0],
        ]
    );
    // the bounds are the common part of all cells
    assert!(snake.bounds().is_empty());
    const ONE: &[(i16, i16)] = &[(1, 1)];
    let one = Snake::new(Point::new(0, 0), ONE).with_scale(4);
    assert_eq!(one.bounds(), Rect { x0: 2, y0: 2, x1: 6, y1: 6 });
    assert_eq!(Shape::Snake(one).bounds(&mut Recorded::new(NoDecoders)), Rect { x0: 2, y0: 2, x1: 6, y1: 6 });
    const NONE: &[(i16, i16)] = &[];
    assert_eq!(Snake::new(Point::new(9, 9), NONE).bounds(), Rect::zero());
    assert!(!Snake::new(Point::new(0, 0), ONE).with_scale(-1).is_drawable());
    assert!(Snake::new(Point::new(0, 0), ONE).with_scale(5000).is_drawable());
    assert!(!Snake::new(Point::new(0, 0), ONE).with_scale(30000).is_drawable());
    assert!(Snake::new(Point::new(0, 0), ONE).with_scale(5000).lands_at(under(Offset::new(0, 0))));
    assert!(!Snake::new(Point::new(0, 0), ONE).with_scale(5000).lands_at(under(Offset::new(30000, 0))));
}

#[test]
fn a_rounded_bar_shows_the_background_in_its_corners() {
    let r = Rect { x0: 1, y0: 1, x1: 13, y1: 11 };
    let mut c = Canvas::new(Offset::new(14, 12)).unwrap();
    rect_fill_rounded(&mut c, r, Color::from_u16(1), Color::from_u16(2), 4);
    let px = dump(&c);
    // outside the bar nothing, in its corners the background, in its middle the bar
    assert_eq!(px[0][0], 0);
    assert_eq!(px[1][1], 2);
    assert_eq!(px[10][12], 2);
    assert_eq!(px[6][6], 1);
    assert_eq!(px[1][6], 1);
    let mut d = Canvas::new(Offset::new(14, 12)).unwrap();
    d.fill_rect(r, Color::from_u16(2));
    d.fill_round_rect(r, 4, Color::from_u16(1));
    assert_eq!(px, dump(&d));
}
