//! Bitmaps as the drawing primitives see them: a borrowed pixel array with
//! its format, stride and size, and lightweight references that add a
//! drawing offset and the colors of a monochrome source.

use vstd::prelude::*;
use vstd::slice::slice_index_get;
use crate::display::{Color, Font};
use crate::geometry::{fits, Offset};

verus! {

/// Pixel formats of a bitmap.
#[derive(Copy, Clone, Debug, PartialEq, Eq, Structural)]
pub enum GdcFormat {
    /// One bit per pixel, most significant bit first.
    MONO1,
    /// Four bits per pixel, even pixels in the low half of a byte.
    MONO4,
    /// Sixteen bits per pixel.
    RGB565,
    /// Thirty-two bits per pixel: alpha, red, green, blue from the top byte
    /// down.
    RGBA8888,
}

/// Why a surface could not be made.
#[derive(Copy, Clone, Debug, PartialEq, Eq, Structural)]
pub enum AllocError {
    /// A dimension was zero or negative.
    InvalidSize,
    /// The backing store could not be had.
    OutOfMemory,
}

/// Backing store of a surface.
pub struct GdcBuffer<T> {
    pub data: Vec<T>,
}

impl GdcBuffer<u8> {
    /// A zeroed store of `len` bytes, or `None` when the store cannot be
    /// had. An empty store is always refused.
    pub fn allocate(len: usize) -> (r: Option<Self>)
        ensures
            len == 0 ==> r.is_none(),
            r matches Some(b) ==> b.data@ == Seq::new(len as nat, |i: int| 0u8),
    {
        if len == 0 {
            return None;
        }
        let mut data: Vec<u8> = Vec::new();
        let granted = data.try_reserve(len).is_ok();
        Self::filled(data, len, granted)
    }

    /// The store once the allocator has answered the request for room for
    /// `len` items in the empty `data`: `None` where it refused, else
    /// `data` filled with `len` zeros.
    pub fn filled(data: Vec<u8>, len: usize, granted: bool) -> (r: Option<Self>)
        requires
            data@.len() == 0,
        ensures
            r.is_some() == granted,
            r matches Some(b) ==> b.data@ == Seq::new(len as nat, |i: int| 0u8),
    {
        if granted {
            let mut data = data;
            data.resize(len, 0u8);
            assert(data@ =~= Seq::new(len as nat, |i: int| 0u8));
            Some(GdcBuffer { data })
        } else {
            None
        }
    }
}

impl GdcBuffer<u16> {
    /// A zeroed store of `len` 16-bit pixels, or `None` when the store cannot be
    /// had. An empty store is always refused.
    pub fn allocate(len: usize) -> (r: Option<Self>)
        ensures
            len == 0 ==> r.is_none(),
            r matches Some(b) ==> b.data@ == Seq::new(len as nat, |i: int| 0u16),
    {
        if len == 0 {
            return None;
        }
        let mut data: Vec<u16> = Vec::new();
        let granted = data.try_reserve(len).is_ok();
        Self::filled(data, len, granted)
    }

    /// The store once the allocator has answered the request for room for
    /// `len` items in the empty `data`: `None` where it refused, else
    /// `data` filled with `len` zeros.
    pub fn filled(data: Vec<u16>, len: usize, granted: bool) -> (r: Option<Self>)
        requires
            data@.len() == 0,
        ensures
            r.is_some() == granted,
            r matches Some(b) ==> b.data@ == Seq::new(len as nat, |i: int| 0u16),
    {
        if granted {
            let mut data = data;
            data.resize(len, 0u16);
            assert(data@ =~= Seq::new(len as nat, |i: int| 0u16));
            Some(GdcBuffer { data })
        } else {
            None
        }
    }
}

impl GdcBuffer<u32> {
    /// A zeroed store of `len` 32-bit pixels, or `None` when the store cannot be
    /// had. An empty store is always refused.
    pub fn allocate(len: usize) -> (r: Option<Self>)
        ensures
            len == 0 ==> r.is_none(),
            r matches Some(b) ==> b.data@ == Seq::new(len as nat, |i: int| 0u32),
    {
        if len == 0 {
            return None;
        }
        let mut data: Vec<u32> = Vec::new();
        let granted = data.try_reserve(len).is_ok();
        Self::filled(data, len, granted)
    }

    /// The store once the allocator has answered the request for room for
    /// `len` items in the empty `data`: `None` where it refused, else
    /// `data` filled with `len` zeros.
    pub fn filled(data: Vec<u32>, len: usize, granted: bool) -> (r: Option<Self>)
        requires
            data@.len() == 0,
        ensures
            r.is_some() == granted,
            r matches Some(b) ==> b.data@ == Seq::new(len as nat, |i: int| 0u32),
    {
        if granted {
            let mut data = data;
            data.resize(len, 0u32);
            assert(data@ =~= Seq::new(len as nat, |i: int| 0u32));
            Some(GdcBuffer { data })
        } else {
            None
        }
    }
}

/// The pixel array of a bitmap, typed by its format.
#[derive(Copy, Clone)]
pub enum PixelData<'a> {
    Mono1(&'a [u8]),
    Mono4(&'a [u8]),
    Rgb565(&'a [u16]),
    Rgba8888(&'a [u32]),
}

/// A borrowed bitmap: pixel array, bytes per row, and size in pixels.
#[derive(Copy, Clone)]
pub struct GdcBitmap<'a> {
    pub data: PixelData<'a>,
    pub stride: usize,
    pub size: Offset,
}

/// The product of two bounded factors is bounded by the product of the
/// bounds, and an in-row index is below the array's length.
pub proof fn lemma_index_in_rows(x: int, y: int, units: int, w: int, h: int, len: int)
    requires
        0 <= x < w,
        0 <= y < h,
        w <= units,
        units * h <= len,
    ensures
        0 <= y * units + x < len,
        0 <= y * units,
{
    assert(y * units + units <= h * units) by (nonlinear_arith)
        requires
            0 <= y < h,
            0 <= units,
    ;
    assert(0 <= y * units) by (nonlinear_arith)
        requires
            0 <= y,
            0 <= units,
    ;
    assert(h * units == units * h) by (nonlinear_arith);
}

impl<'a> GdcBitmap<'a> {
    /// A bitmap over 16-bit pixels.
    pub fn new_rgb565(buff: &'a [u16], stride: usize, size: Offset) -> (b: Self)
        ensures
            b.data == PixelData::Rgb565(buff),
            b.stride == stride,
            b.size == size,
    {
        GdcBitmap { data: PixelData::Rgb565(buff), stride, size }
    }

    /// A read-only bitmap over 16-bit pixels.
    pub fn from_rgb565_slice(buff: &'a [u16], stride: usize, size: Offset) -> (b: Self)
        ensures
            b.data == PixelData::Rgb565(buff),
            b.stride == stride,
            b.size == size,
    {
        GdcBitmap { data: PixelData::Rgb565(buff), stride, size }
    }

    /// A bitmap over 32-bit pixels.
    pub fn new_rgba8888(buff: &'a [u32], stride: usize, size: Offset) -> (b: Self)
        ensures
            b.data == PixelData::Rgba8888(buff),
            b.stride == stride,
            b.size == size,
    {
        GdcBitmap { data: PixelData::Rgba8888(buff), stride, size }
    }

    /// A bitmap of one bit per pixel.
    pub fn new_mono1(buff: &'a [u8], stride: usize, size: Offset) -> (b: Self)
        ensures
            b.data == PixelData::Mono1(buff),
            b.stride == stride,
            b.size == size,
    {
        GdcBitmap { data: PixelData::Mono1(buff), stride, size }
    }

    /// A bitmap of four bits per pixel.
    pub fn new_mono4(buff: &'a [u8], stride: usize, size: Offset) -> (b: Self)
        ensures
            b.data == PixelData::Mono4(buff),
            b.stride == stride,
            b.size == size,
    {
        GdcBitmap { data: PixelData::Mono4(buff), stride, size }
    }

    /// The format of the pixel array.
    pub open spec fn spec_format(self) -> GdcFormat {
        match self.data {
            PixelData::Mono1(_) => GdcFormat::MONO1,
            PixelData::Mono4(_) => GdcFormat::MONO4,
            PixelData::Rgb565(_) => GdcFormat::RGB565,
            PixelData::Rgba8888(_) => GdcFormat::RGBA8888,
        }
    }

    pub fn format(&self) -> (f: GdcFormat)
        ensures
            f == self.spec_format(),
    {
        match self.data {
            PixelData::Mono1(_) => GdcFormat::MONO1,
            PixelData::Mono4(_) => GdcFormat::MONO4,
            PixelData::Rgb565(_) => GdcFormat::RGB565,
            PixelData::Rgba8888(_) => GdcFormat::RGBA8888,
        }
    }

    /// Array elements per row: the stride in units of the element type.
    pub open spec fn units(self) -> int {
        match self.data {
            PixelData::Mono1(_) => self.stride as int,
            PixelData::Mono4(_) => self.stride as int,
            PixelData::Rgb565(_) => self.stride as int / 2,
            PixelData::Rgba8888(_) => self.stride as int / 4,
        }
    }

    /// Array elements that one row of pixels occupies.
    pub open spec fn row_units(self) -> int {
        match self.data {
            PixelData::Mono1(_) => (self.size.x + 7) / 8,
            PixelData::Mono4(_) => (self.size.x + 1) / 2,
            PixelData::Rgb565(_) => self.size.x as int,
            PixelData::Rgba8888(_) => self.size.x as int,
        }
    }

    /// Length of the pixel array.
    pub open spec fn data_len(self) -> int {
        match self.data {
            PixelData::Mono1(d) => d@.len() as int,
            PixelData::Mono4(d) => d@.len() as int,
            PixelData::Rgb565(d) => d@.len() as int,
            PixelData::Rgba8888(d) => d@.len() as int,
        }
    }

    /// The bitmap is consistent: a positive size, rows that fit the stride,
    /// and an array that holds all rows.
    pub open spec fn wf(self) -> bool {
        &&& self.size.x > 0
        &&& self.size.y > 0
        &&& self.row_units() <= self.units()
        &&& self.units() * self.size.y <= self.data_len()
    }

    /// True when `(x, y)` is a pixel of the bitmap.
    pub open spec fn has(self, x: int, y: int) -> bool {
        0 <= x < self.size.x && 0 <= y < self.size.y
    }

    /// Color of the source pixel `(x, y)` before any tinting: the stored
    /// color of a color bitmap, white for a monochrome one.
    pub open spec fn source_color(self, x: int, y: int) -> Color {
        match self.data {
            PixelData::Mono1(d) => Color(0xFFFF),
            PixelData::Mono4(d) => Color(0xFFFF),
            PixelData::Rgb565(d) => Color(d@[y * self.units() + x]),
            PixelData::Rgba8888(d) => {
                let p = d@[y * self.units() + x];
                Color::of_rgb((p >> 16) as u8, (p >> 8) as u8, p as u8)
            },
        }
    }

    /// Opacity of the source pixel `(x, y)` on a scale of 0 to 255.
    pub open spec fn source_alpha(self, x: int, y: int) -> u8 {
        match self.data {
            PixelData::Mono1(d) => (((d@[y * self.units() + x / 8] >> ((7 - x % 8) as u8)) & 1)
                * 255) as u8,
            PixelData::Mono4(d) => (((d@[y * self.units() + x / 2] >> ((4 * (x % 2)) as u8)) & 15)
                * 17) as u8,
            PixelData::Rgb565(d) => 255,
            PixelData::Rgba8888(d) => (d@[y * self.units() + x] >> 24) as u8,
        }
    }

    /// Reads the color and the opacity of the pixel `(x, y)`.
    pub fn pixel(&self, x: i16, y: i16) -> (r: (Color, u8))
        requires
            self.wf(),
            self.has(x as int, y as int),
        ensures
            r.0 == self.source_color(x as int, y as int),
            r.1 == self.source_alpha(x as int, y as int),
    {
        let xs: usize = x as usize;
        let ys: usize = y as usize;
        match self.data {
            PixelData::Mono1(d) => {
                let n: usize = d.len();
                proof {
                    lemma_index_in_rows(
                        (xs / 8) as int,
                        ys as int,
                        self.stride as int,
                        self.row_units(),
                        self.size.y as int,
                        d@.len() as int,
                    );
                }
                let byte: u8 = *slice_index_get(d, ys * self.stride + xs / 8);
                let sh: u8 = (7 - xs % 8) as u8;
                let bit: u8 = (byte >> sh) & 1;
                assert(bit <= 1) by (bit_vector)
                    requires
                        bit == (byte >> sh) & 1,
                ;
                (Color(0xFFFF), bit * 255)
            },
            PixelData::Mono4(d) => {
                let n: usize = d.len();
                proof {
                    lemma_index_in_rows(
                        (xs / 2) as int,
                        ys as int,
                        self.stride as int,
                        self.row_units(),
                        self.size.y as int,
                        d@.len() as int,
                    );
                }
                let byte: u8 = *slice_index_get(d, ys * self.stride + xs / 2);
                let sh: u8 = (4 * (xs % 2)) as u8;
                let nib: u8 = (byte >> sh) & 15;
                assert(nib <= 15) by (bit_vector)
                    requires
                        nib == (byte >> sh) & 15,
                ;
                (Color(0xFFFF), nib * 17)
            },
            PixelData::Rgb565(d) => {
                let n: usize = d.len();
                proof {
                    lemma_index_in_rows(
                        xs as int,
                        ys as int,
                        (self.stride / 2) as int,
                        self.row_units(),
                        self.size.y as int,
                        d@.len() as int,
                    );
                }
                let px: u16 = *slice_index_get(d, ys * (self.stride / 2) + xs);
                (Color(px), 255)
            },
            PixelData::Rgba8888(d) => {
                let n: usize = d.len();
                proof {
                    lemma_index_in_rows(
                        xs as int,
                        ys as int,
                        (self.stride / 4) as int,
                        self.row_units(),
                        self.size.y as int,
                        d@.len() as int,
                    );
                }
                let p: u32 = *slice_index_get(d, ys * (self.stride / 4) + xs);
                (
                    Color::rgb(
                        #[verifier::truncate]
                        ((p >> 16) as u8),
                        #[verifier::truncate]
                        ((p >> 8) as u8),
                        #[verifier::truncate]
                        (p as u8),
                    ),
                    #[verifier::truncate]
                    ((p >> 24) as u8),
                )
            },
        }
    }

    pub fn width(&self) -> (w: i16)
        ensures
            w == self.size.x,
    {
        self.size.x
    }

    pub fn height(&self) -> (h: i16)
        ensures
            h == self.size.y,
    {
        self.size.y
    }

    pub fn size(&self) -> (s: Offset)
        ensures
            s == self.size,
    {
        self.size
    }

    /// Bytes per row.
    pub fn stride(&self) -> (s: usize)
        ensures
            s == self.stride,
    {
        self.stride
    }
}

/// A reference to a bitmap with a drawing offset and the colors used for a
/// monochrome source.
#[derive(Copy, Clone)]
pub struct GdcBitmapRef<'a> {
    pub bitmap: GdcBitmap<'a>,
    pub offset: Offset,
    pub fg_color: Color,
    pub bg_color: Color,
}

impl<'a> GdcBitmapRef<'a> {
    /// A reference with no offset and both colors black.
    pub fn new(bitmap: &GdcBitmap<'a>) -> (r: Self)
        ensures
            r.bitmap == *bitmap,
            r.offset == (Offset { x: 0, y: 0 }),
            r.fg_color == Color(0),
            r.bg_color == Color(0),
    {
        GdcBitmapRef {
            bitmap: *bitmap,
            offset: Offset::zero(),
            fg_color: Color(0),
            bg_color: Color(0),
        }
    }

    /// Adds `offset` to the drawing offset.
    pub fn with_offset(self, offset: Offset) -> (r: Self)
        requires
            offset.can_add(self.offset),
        ensures
            r.bitmap == self.bitmap,
            r.offset.x == self.offset.x + offset.x,
            r.offset.y == self.offset.y + offset.y,
            r.fg_color == self.fg_color,
            r.bg_color == self.bg_color,
    {
        GdcBitmapRef {
            bitmap: self.bitmap,
            offset: offset.add_offset(self.offset),
            fg_color: self.fg_color,
            bg_color: self.bg_color,
        }
    }

    /// Sets the color that a monochrome source draws with.
    pub fn with_fg(self, fg_color: Color) -> (r: Self)
        ensures
            r.bitmap == self.bitmap,
            r.offset == self.offset,
            r.fg_color == fg_color,
            r.bg_color == self.bg_color,
    {
        GdcBitmapRef {
            bitmap: self.bitmap,
            offset: self.offset,
            fg_color,
            bg_color: self.bg_color,
        }
    }

    /// Sets the color behind a monochrome source.
    pub fn with_bg(self, bg_color: Color) -> (r: Self)
        ensures
            r.bitmap == self.bitmap,
            r.offset == self.offset,
            r.fg_color == self.fg_color,
            r.bg_color == bg_color,
    {
        GdcBitmapRef {
            bitmap: self.bitmap,
            offset: self.offset,
            fg_color: self.fg_color,
            bg_color,
        }
    }

    pub fn size(&self) -> (s: Offset)
        ensures
            s == self.bitmap.size,
    {
        self.bitmap.size
    }

    pub fn width(&self) -> (w: i16)
        ensures
            w == self.bitmap.size.x,
    {
        self.bitmap.size.x
    }

    pub fn height(&self) -> (h: i16)
        ensures
            h == self.bitmap.size.y,
    {
        self.bitmap.size.y
    }

    /// True for a source of one or four bits per pixel.
    pub open spec fn is_mono(self) -> bool {
        self.bitmap.data is Mono1 || self.bitmap.data is Mono4
    }

    /// The color that the source pixel `(x, y)` contributes: the foreground
    /// color of a monochrome source, the stored color of a color source.
    pub open spec fn ink(self, x: int, y: int) -> Color {
        if self.is_mono() {
            self.fg_color
        } else {
            self.bitmap.source_color(x, y)
        }
    }

    /// The color of the source pixel `(x, y)` drawn opaquely: its ink over
    /// the background color, weighted by its opacity.
    pub open spec fn opaque(self, x: int, y: int) -> Color {
        self.bg_color.blended(self.ink(x, y), self.bitmap.source_alpha(x, y))
    }

    /// Reads the ink and the opacity of the source pixel `(x, y)`.
    pub fn sample(&self, x: i16, y: i16) -> (r: (Color, u8))
        requires
            self.bitmap.wf(),
            self.bitmap.has(x as int, y as int),
        ensures
            r.0 == self.ink(x as int, y as int),
            r.1 == self.bitmap.source_alpha(x as int, y as int),
    {
        let (c, a) = self.bitmap.pixel(x, y);
        match self.bitmap.data {
            PixelData::Mono1(_) => (self.fg_color, a),
            PixelData::Mono4(_) => (self.fg_color, a),
            PixelData::Rgb565(_) => (c, a),
            PixelData::Rgba8888(_) => (c, a),
        }
    }
}

/// Attributes of a run of text: font, colors and drawing offset.
#[derive(Copy, Clone, Debug, PartialEq, Eq, Structural)]
pub struct GdcTextAttr {
    pub font: Font,
    pub fg_color: Color,
    pub bg_color: Color,
    pub offset: Offset,
}

impl GdcTextAttr {
    /// The regular font, white on black, no offset.
    pub fn new() -> (a: Self)
        ensures
            a == (GdcTextAttr {
                font: Font(-1i32),
                fg_color: Color(0xFFFF),
                bg_color: Color(0),
                offset: Offset { x: 0, y: 0 },
            }),
    {
        GdcTextAttr {
            font: Font::normal(),
            fg_color: Color::white(),
            bg_color: Color::black(),
            offset: Offset::zero(),
        }
    }

    pub fn with_font(self, font: Font) -> (a: Self)
        ensures
            a == (GdcTextAttr { font, ..self }),
    {
        GdcTextAttr { font, ..self }
    }

    pub fn with_fg(self, fg_color: Color) -> (a: Self)
        ensures
            a == (GdcTextAttr { fg_color, ..self }),
    {
        GdcTextAttr { fg_color, ..self }
    }

    pub fn with_bg(self, bg_color: Color) -> (a: Self)
        ensures
            a == (GdcTextAttr { bg_color, ..self }),
    {
        GdcTextAttr { bg_color, ..self }
    }

    /// Adds `offset` to the drawing offset.
    pub fn with_offset(self, offset: Offset) -> (a: Self)
        requires
            offset.can_add(self.offset),
        ensures
            a.font == self.font,
            a.fg_color == self.fg_color,
            a.bg_color == self.bg_color,
            a.offset.x == self.offset.x + offset.x,
            a.offset.y == self.offset.y + offset.y,
    {
        GdcTextAttr { offset: offset.add_offset(self.offset), ..self }
    }
}

} // verus!
