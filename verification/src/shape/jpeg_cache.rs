//! Bookkeeping of the one streaming JPEG decoder: which stream it is
//! bound to, how far it has come, and whether a request can go on from
//! there or has to start the stream anew. The decoder reads forward only.

use vstd::prelude::*;
use static_alloc::Bump;
use without_alloc::alloc::LocalAllocLeakExt;
use without_alloc::FixedVec;
use crate::geometry::{Offset, Point};
use crate::shape::context::JpegError;
use crate::toif::bytes_eq;

verus! {

/// Size of the decoder's workspace: above the 10336 bytes that its
/// tables, buffers and input window take for the usual images.
pub const JPEG_DECODER_POOL_SIZE: usize = 10500;

/// What the decoder reads in the headers of a stream.
#[derive(Copy, Clone, Debug, PartialEq, Eq, Structural)]
pub struct JpegHeader {
    pub width: i16,
    pub height: i16,
    /// Height of the stream's blocks in pixels, 8 or 16.
    pub mcu_height: i16,
}

/// What a request asks of the decoder.
#[derive(Copy, Clone, Debug, PartialEq, Eq, Structural)]
pub enum JpegPlan {
    /// Go on from the block that comes next.
    Continue,
    /// Drop the decoder and bind a new one to the start of the stream.
    Restart,
}

/// The slot of the decoder, as a value.
#[derive(Copy, Clone)]
pub struct JpegCacheSlot {
    /// The stream that the slot is bound to.
    pub jpeg: &'static [u8],
    /// True when a decoder is bound to the slot.
    pub bound: bool,
    /// The header of the stream; of meaning while a decoder is bound.
    pub header: JpegHeader,
    /// Top-left corner of the block that the decoder delivers next.
    pub next_mcu: Offset,
}

impl JpegCacheSlot {
    /// The slot without stream or decoder.
    pub open spec fn empty() -> JpegCacheSlot {
        JpegCacheSlot {
            jpeg: &[],
            bound: false,
            header: JpegHeader { width: 0, height: 0, mcu_height: 0 },
            next_mcu: Offset { x: 0, y: 0 },
        }
    }

    /// True when a decoder is bound to the stream `jpeg`.
    pub open spec fn serves(self, jpeg: Seq<u8>) -> bool {
        self.jpeg@ == jpeg && self.bound
    }

    /// True when the block that holds `offset` is already behind the
    /// decoder: it lies in a row of blocks above the next block, or in its
    /// row and left of it.
    pub open spec fn passed(self, offset: Point) -> bool {
        offset.y < self.next_mcu.y || (offset.x < self.next_mcu.x && offset.y < self.next_mcu.y
            + self.header.mcu_height)
    }

    /// The slot after an attempt to bind a new decoder to `jpeg`, given
    /// what came of reading the headers. The old decoder is dropped first.
    /// An empty stream leaves the slot without decoder; so does a failure,
    /// which also leaves the slot's stream as it was.
    pub open spec fn rebound(self, jpeg: &'static [u8], parsed: Result<JpegHeader, JpegError>)
        -> JpegCacheSlot {
        if jpeg@.len() > 0 {
            match parsed {
                Ok(h) => JpegCacheSlot {
                    jpeg,
                    bound: true,
                    header: h,
                    next_mcu: Offset { x: 0, y: 0 },
                },
                Err(_) => JpegCacheSlot { bound: false, ..self },
            }
        } else {
            JpegCacheSlot { jpeg, bound: false, ..self }
        }
    }

    /// The corner of the block after the one at `origin` of width `width`,
    /// in the order of the scan: right of it, or at the start of the next
    /// row of blocks.
    pub open spec fn after_block(self, origin: (u32, u32), width: u32) -> (int, int) {
        if origin.0 + width >= self.header.width {
            (0, origin.1 + self.header.mcu_height)
        } else {
            (origin.0 + width, origin.1 as int)
        }
    }

    /// A slot without stream or decoder.
    pub fn new() -> (s: Self)
        ensures
            s == JpegCacheSlot::empty(),
    {
        JpegCacheSlot {
            jpeg: &[],
            bound: false,
            header: JpegHeader { width: 0, height: 0, mcu_height: 0 },
            next_mcu: Offset { x: 0, y: 0 },
        }
    }

    /// Records an attempt to bind a new decoder to `jpeg`: `parsed` is what
    /// came of reading the headers, and is not looked at for an empty
    /// stream.
    pub fn reset(&mut self, jpeg: &'static [u8], parsed: Result<JpegHeader, JpegError>) -> (r:
        Result<(), JpegError>)
        ensures
            *final(self) == old(self).rebound(jpeg, parsed),
            r.is_err() <==> jpeg@.len() > 0 && parsed.is_err(),
            r matches Err(e) ==> parsed == Err::<JpegHeader, JpegError>(e),
    {
        self.bound = false;
        if jpeg.len() > 0 {
            match parsed {
                Ok(h) => {
                    self.bound = true;
                    self.header = h;
                    self.next_mcu = Offset::zero();
                },
                Err(e) => {
                    return Err(e);
                },
            }
        }
        self.jpeg = jpeg;
        Ok(())
    }

    /// Tells whether a decoder is bound to the stream `jpeg`.
    pub fn is_for(&self, jpeg: &[u8]) -> (b: bool)
        ensures
            b == self.serves(jpeg@),
    {
        bytes_eq(jpeg, self.jpeg) && self.bound
    }

    /// The size of the image `jpeg`, known once a decoder is bound to it.
    pub fn get_size(&self, jpeg: &[u8]) -> (r: Option<Offset>)
        ensures
            r.is_some() <==> self.serves(jpeg@),
            r matches Some(s) ==> s == (Offset { x: self.header.width, y: self.header.height }),
    {
        if self.is_for(jpeg) {
            Some(Offset::new(self.header.width, self.header.height))
        } else {
            None
        }
    }

    /// Decides how a request for the image `jpeg` from the pixel `offset`
    /// on is served: from where the decoder stands if it is bound to the
    /// stream and has not passed the block of `offset`, else from the start
    /// of the stream with a new decoder.
    pub fn decompress(&self, jpeg: &[u8], offset: Point) -> (plan: JpegPlan)
        ensures
            plan == (if self.serves(jpeg@) && !self.passed(offset) {
                JpegPlan::Continue
            } else {
                JpegPlan::Restart
            }),
    {
        if !self.is_for(jpeg) {
            return JpegPlan::Restart;
        }
        let below: i32 = self.next_mcu.y as i32 + self.header.mcu_height as i32;
        if offset.y < self.next_mcu.y || (offset.x < self.next_mcu.x && (offset.y as i32) < below) {
            JpegPlan::Restart
        } else {
            JpegPlan::Continue
        }
    }

    /// Records that the decoder has delivered the block at `origin` of
    /// width `width`: the next block is the one after it in the order of
    /// the scan. A position beyond 16-bit coordinates is kept at the
    /// largest one.
    pub fn advance(&mut self, origin: (u32, u32), width: u32)
        requires
            old(self).header.mcu_height >= 0,
        ensures
            final(self).jpeg == old(self).jpeg,
            final(self).bound == old(self).bound,
            final(self).header == old(self).header,
            final(self).next_mcu.x == crate::geometry::min_int(
                old(self).after_block(origin, width).0,
                i16::MAX as int,
            ),
            final(self).next_mcu.y == crate::geometry::min_int(
                old(self).after_block(origin, width).1,
                i16::MAX as int,
            ),
    {
        let right: u64 = origin.0 as u64 + width as u64;
        let (nx, ny): (u64, u64) = if self.header.width < 0 || right >= self.header.width as u64 {
            (0, origin.1 as u64 + self.header.mcu_height as u64)
        } else {
            (right, origin.1 as u64)
        };
        let x: i16 = if nx > 32767 {
            32767
        } else {
            nx as i16
        };
        let y: i16 = if ny > 32767 {
            32767
        } else {
            ny as i16
        };
        self.next_mcu = Offset { x, y };
    }

    /// What a request returns, given what the decoder returned: a stop
    /// that the receiver of the blocks asked for is a normal pause, no
    /// failure.
    pub fn finish(outcome: Result<(), JpegError>) -> (r: Result<(), JpegError>)
        ensures
            r == match outcome {
                Ok(_) => Ok::<(), JpegError>(()),
                Err(JpegError::Interrupted) => Ok::<(), JpegError>(()),
                Err(e) => Err::<(), JpegError>(e),
            },
    {
        match outcome {
            Ok(_) => Ok(()),
            Err(JpegError::Interrupted) => Ok(()),
            Err(e) => Err(e),
        }
    }
}

/// The slots in a list, in their order.
pub uninterp spec fn jpeg_slots_of(list: FixedVec<JpegCacheSlot>) -> Seq<JpegCacheSlot>;

/// The number of slots that a list was made for.
pub uninterp spec fn jpeg_slot_room(list: FixedVec<JpegCacheSlot>) -> nat;

/// `LocalAllocLeakExt::fixed_vec` on a `Bump`: an empty list with room for
/// `capacity` slots, or `None` when the arena cannot hold it. A list
/// without room takes nothing from the arena and is always had.
#[verifier::external_body]
pub(crate) fn new_jpeg_slot_list<'p, T>(pool: &'p Bump<T>, capacity: usize) -> (r: Option<
    FixedVec<'p, JpegCacheSlot>,
>)
    ensures
        r matches Some(list) ==> jpeg_slots_of(list).len() == 0 && jpeg_slot_room(list) == capacity,
        capacity == 0 ==> r.is_some(),
{
    pool.fixed_vec(capacity)
}

/// `FixedVec::push`: the slot is appended while there is room, else the
/// list stays as it is and the slot comes back.
#[verifier::external_body]
pub(crate) fn push_jpeg_slot(list: &mut FixedVec<JpegCacheSlot>, slot: JpegCacheSlot) -> (rejected:
    Option<JpegCacheSlot>)
    ensures
        jpeg_slot_room(*final(list)) == jpeg_slot_room(*old(list)),
        jpeg_slots_of(*old(list)).len() < jpeg_slot_room(*old(list)) ==> rejected.is_none()
            && jpeg_slots_of(*final(list)) == jpeg_slots_of(*old(list)).push(slot),
        jpeg_slots_of(*old(list)).len() >= jpeg_slot_room(*old(list)) ==> rejected == Some(slot)
            && jpeg_slots_of(*final(list)) == jpeg_slots_of(*old(list)),
{
    list.push(slot).err()
}

/// `FixedVec::len`: the number of slots in the list, never above its room.
#[verifier::external_body]
pub(crate) fn jpeg_slot_count(list: &FixedVec<JpegCacheSlot>) -> (n: usize)
    ensures
        n == jpeg_slots_of(*list).len(),
        n <= jpeg_slot_room(*list),
{
    list.len()
}

/// Indexing of a `FixedVec`: the slot at position `i`.
#[verifier::external_body]
pub(crate) fn jpeg_slot_at(list: &FixedVec<JpegCacheSlot>, i: usize) -> (s: JpegCacheSlot)
    requires
        i < jpeg_slots_of(*list).len(),
    ensures
        s == jpeg_slots_of(*list)[i as int],
{
    list[i]
}

/// Assignment through the mutable indexing of a `FixedVec`: the slot at
/// position `i` is replaced, the others stay.
#[verifier::external_body]
pub(crate) fn put_jpeg_slot(list: &mut FixedVec<JpegCacheSlot>, i: usize, slot: JpegCacheSlot)
    requires
        i < jpeg_slots_of(*old(list)).len(),
    ensures
        jpeg_slot_room(*final(list)) == jpeg_slot_room(*old(list)),
        jpeg_slots_of(*final(list)) == jpeg_slots_of(*old(list)).update(i as int, slot),
{
    list[i] = slot;
}

/// The cache of JPEG decoders: one slot, or none, in a list carved from
/// the pool of the render pass.
pub struct JpegCache<'p> {
    slots: FixedVec<'p, JpegCacheSlot>,
}

impl<'p> JpegCache<'p> {
    /// The slots, as a value.
    pub closed spec fn view(&self) -> Seq<JpegCacheSlot> {
        jpeg_slots_of(self.slots)
    }

    /// A cache of `slot_count` empty slots in a list carved from `pool`;
    /// `None` when the pool cannot hold the list. One decoder is all that
    /// is supported. A cache without slot takes nothing from the pool and
    /// is always had.
    pub fn new<T>(pool: &'p Bump<T>, slot_count: usize) -> (r: Option<Self>)
        requires
            slot_count <= 1,
        ensures
            r matches Some(c) ==> c@ == Seq::new(slot_count as nat, |i: int| JpegCacheSlot::empty()),
            slot_count == 0 ==> r.is_some(),
    {
        Self::around(new_jpeg_slot_list(pool, slot_count), slot_count)
    }

    /// The cache around the list that the pool gave: `None` where it gave
    /// none, else the cache that fills the empty list with `slot_count`
    /// empty slots.
    pub fn around(list: Option<FixedVec<'p, JpegCacheSlot>>, slot_count: usize) -> (r: Option<Self>)
        requires
            slot_count <= 1,
            list matches Some(l) ==> jpeg_slots_of(l).len() == 0 && jpeg_slot_room(l) == slot_count,
        ensures
            r.is_some() == list.is_some(),
            r matches Some(c) ==> c@ == Seq::new(slot_count as nat, |i: int| JpegCacheSlot::empty()),
    {
        let mut slots = match list {
            Some(s) => s,
            None => {
                return None;
            },
        };
        if slot_count == 1 {
            let rejected = push_jpeg_slot(&mut slots, JpegCacheSlot::new());
        }
        let c = JpegCache { slots };
        proof {
            assert(c@ =~= Seq::new(slot_count as nat, |i: int| JpegCacheSlot::empty()));
        }
        Some(c)
    }

    /// The size of the image `jpeg`: `Ok(None)` when no decoder is bound to
    /// it yet, an error for a cache without slot.
    pub fn get_size(&self, jpeg: &[u8]) -> (r: Result<Option<Offset>, JpegError>)
        ensures
            self@.len() == 0 <==> r == Err::<Option<Offset>, JpegError>(JpegError::MemoryPool),
            self@.len() > 0 ==> r.is_ok() && (r.unwrap().is_some() <==> self@[0].serves(jpeg@))
                && (r.unwrap() matches Some(s) ==> s == (Offset {
                x: self@[0].header.width,
                y: self@[0].header.height,
            })),
    {
        if jpeg_slot_count(&self.slots) > 0 {
            Ok(jpeg_slot_at(&self.slots, 0).get_size(jpeg))
        } else {
            Err(JpegError::MemoryPool)
        }
    }

    /// Decides how a request is served; an error for a cache without
    /// slot.
    pub fn decompress(&self, jpeg: &[u8], offset: Point) -> (r: Result<JpegPlan, JpegError>)
        ensures
            self@.len() == 0 <==> r == Err::<JpegPlan, JpegError>(JpegError::MemoryPool),
            self@.len() > 0 ==> r == Ok::<JpegPlan, JpegError>(
                if self@[0].serves(jpeg@) && !self@[0].passed(offset) {
                    JpegPlan::Continue
                } else {
                    JpegPlan::Restart
                },
            ),
    {
        if jpeg_slot_count(&self.slots) > 0 {
            Ok(jpeg_slot_at(&self.slots, 0).decompress(jpeg, offset))
        } else {
            Err(JpegError::MemoryPool)
        }
    }

    /// Records an attempt to bind a new decoder in the slot.
    pub fn reset(&mut self, jpeg: &'static [u8], parsed: Result<JpegHeader, JpegError>) -> (r:
        Result<(), JpegError>)
        ensures
            final(self)@.len() == old(self)@.len(),
            old(self)@.len() == 0 ==> r == Err::<(), JpegError>(JpegError::MemoryPool),
            old(self)@.len() > 0 ==> final(self)@[0] == old(self)@[0].rebound(jpeg, parsed) && (
            r.is_err() <==> jpeg@.len() > 0 && parsed.is_err()),
    {
        if jpeg_slot_count(&self.slots) > 0 {
            let mut slot = jpeg_slot_at(&self.slots, 0);
            let r = slot.reset(jpeg, parsed);
            put_jpeg_slot(&mut self.slots, 0, slot);
            r
        } else {
            Err(JpegError::MemoryPool)
        }
    }

    /// Records a delivered block in the slot.
    pub fn advance(&mut self, origin: (u32, u32), width: u32)
        requires
            old(self)@.len() > 0,
            old(self)@[0].header.mcu_height >= 0,
        ensures
            final(self)@.len() == old(self)@.len(),
            final(self)@[0].jpeg == old(self)@[0].jpeg,
            final(self)@[0].bound == old(self)@[0].bound,
            final(self)@[0].header == old(self)@[0].header,
            final(self)@[0].next_mcu.x == crate::geometry::min_int(
                old(self)@[0].after_block(origin, width).0,
                i16::MAX as int,
            ),
            final(self)@[0].next_mcu.y == crate::geometry::min_int(
                old(self)@[0].after_block(origin, width).1,
                i16::MAX as int,
            ),
    {
        let mut slot = jpeg_slot_at(&self.slots, 0);
        slot.advance(origin, width);
        put_jpeg_slot(&mut self.slots, 0, slot);
    }
}

/// A request for a block that the decoder has passed starts the stream
/// anew, and a request for the next block or a later one goes on: the
/// decoder never moves back.
pub proof fn lemma_forward_only(slot: JpegCacheSlot, offset: Point)
    requires
        slot.bound,
        slot.header.mcu_height >= 0,
    ensures
        offset.y < slot.next_mcu.y ==> slot.passed(offset),
        offset.y >= slot.next_mcu.y + slot.header.mcu_height ==> !slot.passed(offset),
        offset.y >= slot.next_mcu.y && offset.x >= slot.next_mcu.x ==> !slot.passed(offset),
{
}

} // verus!
