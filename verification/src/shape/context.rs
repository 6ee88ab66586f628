//! What the shapes ask of the decoders: rows of a compressed icon, the
//! size of a JPEG image, and its blocks of pixels.

use vstd::prelude::*;
use static_alloc::Bump;
use crate::canvas::rgb::RgbCanvas;
use crate::shape::jpeg_cache::JpegCache;
use crate::shape::zlib_cache::{ZlibCache, ZlibStep};
use crate::geometry::{Offset, Point};
use crate::shape::base::Shape;
use crate::shape::jpeg::JpegFnOutput;
use crate::toif::Toif;

verus! {

/// Why a JPEG image could not be decoded.
#[derive(Copy, Clone, Debug, PartialEq, Eq, Structural)]
pub enum JpegError {
    /// The receiver of the blocks asked to stop.
    Interrupted,
    /// The input ended early or could not be read.
    Input,
    /// The decoder's workspace is too small for the image.
    MemoryPool,
    /// The decoder's input buffer is too small.
    MemoryInput,
    /// A parameter was out of range.
    Parameter,
    /// The data is malformed.
    InvalidData,
    /// The image uses a feature that the decoder lacks.
    UnsupportedJpeg,
}

/// One request to the decoders with the answer that came back.
pub enum Exchange {
    /// Decompressed bytes of an icon from the row `from_row` on were asked
    /// for, as many as `out` is long, and `out` came back.
    Rows { toif: Toif, from_row: i16, out: Seq<u8> },
    /// The size of a JPEG image was asked for.
    Size { jpeg: Seq<u8>, size: Result<Offset, JpegError> },
    /// The blocks of a JPEG image from the pixel `offset` on were asked
    /// for, to be handed to `output`; `shown` is the surface as the
    /// decoder left it.
    Blocks {
        jpeg: Seq<u8>,
        offset: Point,
        output: JpegFnOutput,
        answer: Result<(), JpegError>,
        shown: crate::canvas::raster::Raster,
    },
}

/// The decoders behind a render pass. What they produce is theirs to
/// decide; the contracts say only what holds of every outcome.
pub trait DrawingContext {
    /// Fills `dest_buf` with the decompressed bytes of the icon from the
    /// row `from_row` on.
    fn deflate_toif(&mut self, toif: Toif, from_row: i16, dest_buf: &mut Vec<u8>)
        requires
            toif.wf(),
            from_row >= 0,
        ensures
            final(dest_buf)@.len() == old(dest_buf)@.len(),
    ;

    /// The size of a JPEG image.
    fn get_jpeg_size(&mut self, jpeg: &'static [u8]) -> (r: Result<Offset, JpegError>)
    ;

    /// Decodes the image from the block that holds `offset` on and hands
    /// every block to `output`, which draws it on `canvas`, until `output`
    /// returns false, the image ends or the data proves malformed.
    fn decompress_jpeg<C: RgbCanvas>(
        &mut self,
        jpeg: &'static [u8],
        offset: Point,
        output: &JpegFnOutput,
        canvas: &mut C,
    ) -> (r: Result<(), JpegError>)
        requires
            old(canvas).model().wf(),
        ensures
            final(canvas).model().wf(),
            final(canvas).model().same_frame(old(canvas).model()),
    ;
}

/// The decoders of a render pass together with the record of what was asked
/// of them and what they answered, and of the shapes that were released.
/// The shapes reach the decoders through it, so that what a shape draws
/// can be stated from the answers.
pub struct Recorded<D: DrawingContext> {
    inner: D,
    log: Ghost<Seq<Exchange>>,
    freed: Ghost<Seq<Shape>>,
}

impl<D: DrawingContext> Recorded<D> {
    /// The requests made so far with their answers, oldest first.
    pub closed spec fn exchanges(&self) -> Seq<Exchange> {
        self.log@
    }

    /// The shapes that were released so far, oldest first: those that
    /// were drawn and will not be drawn again.
    pub closed spec fn releases(&self) -> Seq<Shape> {
        self.freed@
    }

    /// The decoders themselves.
    pub closed spec fn decoders(&self) -> D {
        self.inner
    }

    /// Notes that `shape` was drawn for the last time and holds nothing in
    /// the decoders any more.
    pub fn release(&mut self, shape: &Shape)
        ensures
            final(self).releases() == old(self).releases().push(*shape),
            final(self).exchanges() == old(self).exchanges(),
            final(self).decoders() == old(self).decoders(),
    {
        proof {
            self.freed@ = self.freed@.push(*shape);
        }
    }

    /// The decoders with an empty record.
    pub fn new(inner: D) -> (r: Self)
        ensures
            r.decoders() == inner,
            r.exchanges() == Seq::<Exchange>::empty(),
            r.releases() == Seq::<Shape>::empty(),
    {
        Recorded { inner, log: Ghost(Seq::empty()), freed: Ghost(Seq::empty()) }
    }

    /// A look at the decoders.
    pub fn inner(&self) -> (d: &D)
        ensures
            *d == self.decoders(),
    {
        &self.inner
    }

    /// The decoders, without the record.
    pub fn into_inner(self) -> (d: D)
        ensures
            d == self.decoders(),
    {
        self.inner
    }

    /// Fills `dest_buf` with the decompressed bytes of the icon from the
    /// row `from_row` on, and notes the request with the bytes that came.
    pub fn deflate_toif(&mut self, toif: Toif, from_row: i16, dest_buf: &mut Vec<u8>)
        requires
            toif.wf(),
            from_row >= 0,
        ensures
            final(dest_buf)@.len() == old(dest_buf)@.len(),
            final(self).exchanges() == old(self).exchanges().push(
                Exchange::Rows { toif, from_row, out: final(dest_buf)@ },
            ),
            final(self).releases() == old(self).releases(),
    {
        self.inner.deflate_toif(toif, from_row, dest_buf);
        proof {
            self.log@ = self.log@.push(Exchange::Rows { toif, from_row, out: dest_buf@ });
        }
    }

    /// Asks for the size of a JPEG image, and notes the request with the
    /// answer.
    pub fn get_jpeg_size(&mut self, jpeg: &'static [u8]) -> (r: Result<Offset, JpegError>)
        ensures
            final(self).exchanges() == old(self).exchanges().push(
                Exchange::Size { jpeg: jpeg@, size: r },
            ),
            final(self).releases() == old(self).releases(),
    {
        let r = self.inner.get_jpeg_size(jpeg);
        proof {
            self.log@ = self.log@.push(Exchange::Size { jpeg: jpeg@, size: r });
        }
        r
    }

    /// Has the image decoded from the block that holds `offset` on, every
    /// block handed to `output`, and notes the request with the answer.
    pub fn decompress_jpeg<C: RgbCanvas>(
        &mut self,
        jpeg: &'static [u8],
        offset: Point,
        output: &JpegFnOutput,
        canvas: &mut C,
    ) -> (r: Result<(), JpegError>)
        requires
            old(canvas).model().wf(),
        ensures
            final(canvas).model().wf(),
            final(canvas).model().same_frame(old(canvas).model()),
            final(self).exchanges() == old(self).exchanges().push(
                Exchange::Blocks {
                    jpeg: jpeg@,
                    offset,
                    output: *output,
                    answer: r,
                    shown: final(canvas).model(),
                },
            ),
            final(self).releases() == old(self).releases(),
    {
        let r = self.inner.decompress_jpeg(jpeg, offset, output, canvas);
        proof {
            self.log@ = self.log@.push(
                Exchange::Blocks {
                    jpeg: jpeg@,
                    offset,
                    output: *output,
                    answer: r,
                    shown: canvas.model(),
                },
            );
        }
        r
    }
}

/// Scratch memory for bitmaps that are drawn more than once. Nothing is
/// cached yet.
pub struct BitmapCache {
    pub used: usize,
}

impl BitmapCache {
    pub fn new() -> (c: Self)
        ensures
            c.used == 0,
    {
        BitmapCache { used: 0 }
    }
}

/// Scratch memory for blurring. Nothing is cached yet.
pub struct BlurCache {
    pub used: usize,
}

impl BlurCache {
    pub fn new() -> (c: Self)
        ensures
            c.used == 0,
    {
        BlurCache { used: 0 }
    }
}

/// Number of decompressors of icons in a render pass.
pub const ZLIB_SLOTS: usize = 4;

/// Number of JPEG decoders in a render pass.
pub const JPEG_SLOTS: usize = 1;

/// The caches of one render pass.
pub struct DrawingContextImpl<'p> {
    pub zlib_cache: ZlibCache<'p>,
    pub jpeg_cache: JpegCache<'p>,
    pub blur_cache: BlurCache,
    pub bitmap_cache: BitmapCache,
}

impl<'p> DrawingContextImpl<'p> {
    /// The caches of a render pass, with four decompressors of icons and
    /// one JPEG decoder, their lists carved from the first pool; `None`
    /// when the pool cannot hold them.
    pub fn new<T>(pool_a: &'p Bump<T>, pool_b: &'p Bump<T>) -> (r: Option<Self>)
        ensures
            r matches Some(c) ==> c.zlib_cache.wf() && c.zlib_cache@.len() == ZLIB_SLOTS
                && c.zlib_cache.waiting().is_none() && c.jpeg_cache@.len() == JPEG_SLOTS,
    {
        let zlib = ZlibCache::new(pool_a, ZLIB_SLOTS);
        let jpeg = JpegCache::new(pool_a, JPEG_SLOTS);
        Self::around(zlib, jpeg)
    }

    /// The caches of a render pass around what the pool gave: `None` where
    /// it gave no decompressors or no JPEG decoder, else these two with
    /// the empty scratch caches.
    pub fn around(zlib: Option<ZlibCache<'p>>, jpeg: Option<JpegCache<'p>>) -> (r: Option<Self>)
        ensures
            r.is_some() == (zlib.is_some() && jpeg.is_some()),
            r matches Some(c) ==> zlib == Some(c.zlib_cache) && jpeg == Some(c.jpeg_cache)
                && c.blur_cache.used == 0 && c.bitmap_cache.used == 0,
    {
        match zlib {
            Some(zlib_cache) => match jpeg {
                Some(jpeg_cache) => Some(
                    DrawingContextImpl {
                        zlib_cache,
                        jpeg_cache,
                        blur_cache: BlurCache::new(),
                        bitmap_cache: BitmapCache::new(),
                    },
                ),
                None => None,
            },
            None => None,
        }
    }

    /// Offset of the row `from_row` in the decompressed pixels of an icon.
    pub open spec fn row_offset(toif: Toif, from_row: i16) -> int {
        toif.spec_stride() * from_row
    }

    /// Begins the decompression of `dest_len` bytes of an icon from the row
    /// `from_row` on: the request goes to the cache of decompressors at the
    /// offset of that row.
    pub fn deflate_toif(&mut self, toif: Toif, from_row: i16, dest_len: usize) -> (step: ZlibStep)
        requires
            old(self).zlib_cache.wf(),
            toif.wf(),
            from_row >= 0,
            Self::row_offset(toif, from_row) + dest_len <= usize::MAX,
        ensures
            final(self).zlib_cache.wf(),
            step == crate::shape::zlib_cache::begin_step(
                old(self).zlib_cache@,
                toif.spec_zdata(),
                Self::row_offset(toif, from_row) as usize,
                dest_len,
            ),
            final(self).zlib_cache@ == crate::shape::zlib_cache::begin_slots(
                old(self).zlib_cache@,
                toif.spec_zdata(),
                Self::row_offset(toif, from_row) as usize,
            ),
    {
        let stride = toif.stride();
        assert(stride * (from_row as usize) == toif.spec_stride() * from_row) by (nonlinear_arith)
            requires
                stride == toif.spec_stride(),
                from_row >= 0,
        ;
        assert(0 <= toif.spec_stride() * from_row) by (nonlinear_arith)
            requires
                toif.spec_stride() >= 0,
                from_row >= 0,
        ;
        let from_offset = stride * (from_row as usize);
        self.zlib_cache.uncompress(toif.zdata(), from_offset, dest_len)
    }
}

} // verus!
