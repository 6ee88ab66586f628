//! The monochrome surface of one bit per pixel.

use vstd::prelude::*;
use vstd::slice::slice_subrange;
use crate::canvas::mono::{lemma_rows_inside, BitmapRef, MonoCanvas};
use crate::gdc::{AllocError, GdcBitmap, GdcBitmapRef, GdcBuffer};
use crate::geometry::Offset;

verus! {

/// Bytes that a row of `width` pixels occupies.
pub open spec fn row_bytes_of(width: int) -> int {
    (width + 7) / 8
}

/// A surface of one bit per pixel, eight pixels to a byte, the leftmost
/// pixel in the highest bit.
pub struct Canvas {
    buff: GdcBuffer<u8>,
    stride: usize,
    size: Offset,
}

impl Canvas {
    /// The bytes of the backing store.
    pub closed spec fn bytes(&self) -> Seq<u8> {
        self.buff.data@
    }

    /// Bytes from one row to the next.
    pub closed spec fn spec_stride(&self) -> int {
        self.stride as int
    }

    /// A zeroed surface of the given size, its backing store as many rows
    /// of packed bytes as the surface is high. A size with a dimension of
    /// zero or less is refused as invalid; for any other size the only
    /// failure is that the backing store cannot be had.
    pub fn new(size: Offset) -> (r: Result<Self, AllocError>)
        ensures
            size.x <= 0 || size.y <= 0 <==> r == Err::<Self, AllocError>(AllocError::InvalidSize),
            r matches Err(e) ==> e == AllocError::InvalidSize || e == AllocError::OutOfMemory,
            r matches Ok(c) ==> c.wf() && c.spec_size() == size && c.spec_stride() == row_bytes_of(
                size.x as int,
            ) && c.bytes() == Seq::new(
                (size.y * row_bytes_of(size.x as int)) as nat,
                |i: int| 0u8,
            ),
    {
        if size.x > 0 && size.y > 0 {
            let width: usize = size.x as usize;
            let height: usize = size.y as usize;
            let stride: usize = (width + 7) / 8;
            proof {
                lemma_rows_inside(0, size.y as int, size.y as int, stride as int, size.x as int);
                assert(height * stride == size.y * row_bytes_of(size.x as int)) by (nonlinear_arith)
                    requires
                        stride == row_bytes_of(size.x as int),
                        height == size.y,
                ;
                assert(stride * size.y == height * stride) by (nonlinear_arith)
                    requires
                        height == size.y,
                ;
                assert(height * stride > 0) by (nonlinear_arith)
                    requires
                        stride > 0,
                        height > 0,
                ;
            }
            match GdcBuffer::<u8>::allocate(height * stride) {
                Some(buff) => Ok(Canvas { buff, stride, size }),
                None => Err(AllocError::OutOfMemory),
            }
        } else {
            Err(AllocError::InvalidSize)
        }
    }

    /// The bytes of one row, or `None` for a row outside the surface.
    pub fn row(&self, row: i16) -> (r: Option<&[u8]>)
        requires
            self.wf(),
        ensures
            r.is_some() <==> 0 <= row < self.spec_size().y,
            r matches Some(s) ==> s@ == self.bytes().subrange(
                self.spec_stride() * row,
                self.spec_stride() * row + row_bytes_of(self.spec_size().x as int),
            ) && s@.len() == row_bytes_of(self.spec_size().x as int),
    {
        if row >= 0 && row < self.size.y {
            proof {
                lemma_rows_inside(
                    row as int,
                    1,
                    self.size.y as int,
                    self.stride as int,
                    self.size.x as int,
                );
            }
            let offset: usize = self.stride * (row as usize);
            let len: usize = self.stride;
            Some(slice_subrange(self.buff.data.as_slice(), offset, offset + len))
        } else {
            None
        }
    }

    /// The bytes of `height` rows from `row` on, or `None` unless these are
    /// one or more rows of the surface.
    pub fn row_bytes(&self, row: i16, height: i16) -> (r: Option<&[u8]>)
        requires
            self.wf(),
        ensures
            r.is_some() <==> 0 <= row && 0 < height && row + height <= self.spec_size().y,
            r matches Some(s) ==> s@ == self.bytes().subrange(
                self.spec_stride() * row,
                self.spec_stride() * row + self.spec_stride() * height,
            ) && s@.len() == row_bytes_of(self.spec_size().x as int) * height,
    {
        if row >= 0 && height > 0 && row < self.size.y && row as i32 + height as i32
            <= self.size.y as i32 {
            proof {
                lemma_rows_inside(
                    row as int,
                    height as int,
                    self.size.y as int,
                    self.stride as int,
                    self.size.x as int,
                );
            }
            let offset: usize = self.stride * (row as usize);
            let len: usize = self.stride * (height as usize);
            Some(slice_subrange(self.buff.data.as_slice(), offset, offset + len))
        } else {
            None
        }
    }

    /// Copies `src` over the bytes of the rows from `row` on. Returns
    /// false, and changes nothing, unless `row` is a row of the surface
    /// and `src` is not empty and no longer than the bytes from that row
    /// to the end of the surface.
    pub fn load(&mut self, row: i16, src: &[u8]) -> (ok: bool)
        requires
            old(self).wf(),
        ensures
            final(self).wf(),
            final(self).spec_size() == old(self).spec_size(),
            final(self).spec_stride() == old(self).spec_stride(),
            ok <==> 0 <= row && src@.len() > 0 && old(self).spec_stride() * row + src@.len()
                <= old(self).spec_stride() * old(self).spec_size().y,
            !ok ==> final(self).bytes() == old(self).bytes(),
            ok ==> final(self).bytes() == old(self).bytes().subrange(
                0,
                old(self).spec_stride() * row,
            ) + src@ + old(self).bytes().subrange(
                old(self).spec_stride() * row + src@.len(),
                old(self).bytes().len() as int,
            ),
    {
        let n = src.len();
        if row < 0 || n == 0 {
            return false;
        }
        proof {
            lemma_rows_inside(
                0,
                self.size.y as int,
                self.size.y as int,
                self.stride as int,
                self.size.x as int,
            );
            if row < self.size.y {
                lemma_rows_inside(
                    row as int,
                    0,
                    self.size.y as int,
                    self.stride as int,
                    self.size.x as int,
                );
            } else {
                assert(self.stride * row >= self.stride * self.size.y) by (nonlinear_arith)
                    requires
                        row >= self.size.y,
                        self.stride >= 0,
                ;
            }
        }
        if row >= self.size.y {
            return false;
        }
        let offset: usize = self.stride * (row as usize);
        let limit: usize = self.stride * (self.size.y as usize);
        if n > limit - offset {
            return false;
        }
        let ghost before = self.buff.data@;
        let mut i: usize = 0;
        while i < n
            invariant
                i <= n,
                n == src@.len(),
                offset + n <= limit,
                limit <= before.len(),
                self.buff.data@.len() == before.len(),
                self.stride == old(self).stride,
                self.size == old(self).size,
                forall|j: int| 0 <= j < offset ==> #[trigger] self.buff.data@[j] == before[j],
                forall|j: int| offset <= j < offset + i ==> #[trigger] self.buff.data@[j] == src@[j - offset],
                forall|j: int| offset + i <= j < before.len() ==> #[trigger] self.buff.data@[j] == before[j],
            decreases n - i,
        {
            self.buff.data.set(offset + i, src[i]);
            i += 1;
        }
        proof {
            assert(self.buff.data@ =~= before.subrange(0, offset as int) + src@ + before.subrange(
                offset + n,
                before.len() as int,
            ));
        }
        true
    }

    /// The surface as a borrowed bitmap.
    pub fn bitmap_view(&self) -> (b: GdcBitmap<'_>)
        requires
            self.wf(),
        ensures
            b.wf(),
            b.size == self.spec_size(),
            b.data matches crate::gdc::PixelData::Mono1(d) && d@ == self.bytes(),
            b.stride == self.spec_stride(),
    {
        proof {
            lemma_rows_inside(
                0,
                self.size.y as int,
                self.size.y as int,
                self.stride as int,
                self.size.x as int,
            );
        }
        GdcBitmap::new_mono1(self.buff.data.as_slice(), self.stride, self.size)
    }
}

impl MonoCanvas for Canvas {
    closed spec fn spec_size(&self) -> Offset {
        self.size
    }

    /// A size with pixels, rows of packed bytes one after the other, and a
    /// backing store that holds just the rows.
    open spec fn wf(&self) -> bool {
        &&& self.spec_size().x > 0
        &&& self.spec_size().y > 0
        &&& self.spec_stride() == row_bytes_of(self.spec_size().x as int)
        &&& self.bytes().len() == self.spec_stride() * self.spec_size().y
    }

    fn size(&self) -> Offset {
        self.size
    }

    fn bitmap<'a>(&'a self) -> BitmapRef<'a> {
        let b = self.bitmap_view();
        GdcBitmapRef::new(&b)
    }
}

} // verus!
