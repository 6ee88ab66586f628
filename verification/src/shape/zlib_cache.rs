//! Bookkeeping of the streaming decompressors of compressed icons: a
//! fixed pool of slots, each bound to one source and one offset in its
//! decompressed data. The cache decides which slot serves a request and
//! what its decoder is asked; whoever owns the decoders asks them and
//! reports their answers back.

use vstd::prelude::*;
use static_alloc::Bump;
use without_alloc::alloc::LocalAllocLeakExt;
use without_alloc::FixedVec;
use crate::toif::bytes_eq;

verus! {

/// Size of a decoder's window.
pub const UZLIB_WINDOW_SIZE: usize = 1024;

/// Largest number of bytes that are skipped in one request to a decoder.
pub const SKIP_CHUNK: usize = 256;

/// One slot of the cache, as a value.
#[derive(Copy, Clone)]
pub struct ZlibCacheSlot {
    /// The compressed data that the slot is bound to; empty for a free
    /// slot.
    pub zdata: &'static [u8],
    /// Offset in the decompressed data that the decoder has reached.
    pub offset: usize,
    /// True when a decoder is bound to the slot.
    pub busy: bool,
}

impl ZlibCacheSlot {
    /// The free slot.
    pub open spec fn free() -> ZlibCacheSlot {
        ZlibCacheSlot { zdata: &[], offset: 0, busy: false }
    }

    /// A slot is sound when it has a decoder exactly if it is bound to
    /// data, and stands at the start if it has none: a slot without
    /// decoder is as good as the free slot.
    pub open spec fn sound(self) -> bool {
        &&& self.busy == (self.zdata@.len() > 0)
        &&& !self.busy ==> self.offset == 0
    }

    /// True when the slot is bound to `zdata` and stands at `offset`.
    pub open spec fn matches(self, zdata: Seq<u8>, offset: usize) -> bool {
        self.zdata@ == zdata && self.offset == offset
    }

    /// The slot after it was bound to `zdata`.
    pub open spec fn bound_to(zdata: &'static [u8]) -> ZlibCacheSlot {
        ZlibCacheSlot { zdata, offset: 0, busy: zdata@.len() > 0 }
    }

    /// The slot after its decoder answered a request for `len` bytes:
    /// at the end of the stream the slot is freed, else it moves on by
    /// `len`; an error leaves the slot as it is, and so does a request to a
    /// slot without decoder.
    pub open spec fn answered(self, len: usize, outcome: Result<bool, ()>) -> ZlibCacheSlot {
        if !self.busy {
            self
        } else {
            match outcome {
                Ok(done) => if done {
                    ZlibCacheSlot::free()
                } else {
                    ZlibCacheSlot { offset: (self.offset + len) as usize, ..self }
                },
                Err(_) => self,
            }
        }
    }

    /// What a request for `len` bytes returns, given the decoder's answer:
    /// an error for a slot without decoder, else the answer.
    pub open spec fn reply(self, outcome: Result<bool, ()>) -> Result<bool, ()> {
        if !self.busy {
            Err(())
        } else {
            outcome
        }
    }

    /// A free slot.
    pub fn new() -> (s: Self)
        ensures
            s == ZlibCacheSlot::free(),
    {
        ZlibCacheSlot { zdata: &[], offset: 0, busy: false }
    }

    /// Binds the slot to `zdata`, dropping the decoder it had. Empty data
    /// frees the slot.
    pub fn reset(&mut self, zdata: &'static [u8])
        ensures
            *final(self) == ZlibCacheSlot::bound_to(zdata),
    {
        self.busy = zdata.len() > 0;
        self.offset = 0;
        self.zdata = zdata;
    }

    /// Records the decoder's answer to a request for `len` bytes of
    /// output.
    pub fn uncompress(&mut self, len: usize, outcome: Result<bool, ()>) -> (r: Result<bool, ()>)
        requires
            old(self).offset + len <= usize::MAX,
        ensures
            *final(self) == old(self).answered(len, outcome),
            r == old(self).reply(outcome),
    {
        if self.busy {
            match outcome {
                Ok(done) => {
                    if done {
                        self.reset(&[]);
                    } else {
                        self.offset = self.offset + len;
                    }
                    Ok(done)
                },
                Err(e) => Err(e),
            }
        } else {
            Err(())
        }
    }

    /// Records the decoder's last answer to a skip over `nbytes` bytes.
    pub fn skip(&mut self, nbytes: usize, outcome: Result<bool, ()>) -> (r: Result<bool, ()>)
        requires
            old(self).offset + nbytes <= usize::MAX,
        ensures
            *final(self) == old(self).answered(nbytes, outcome),
            r == old(self).reply(outcome),
    {
        self.uncompress(nbytes, outcome)
    }

    /// Tells whether the slot is bound to `zdata` and stands at `offset`.
    pub fn is_for(&self, zdata: &[u8], offset: usize) -> (b: bool)
        ensures
            b == self.matches(zdata@, offset),
    {
        bytes_eq(self.zdata, zdata) && self.offset == offset
    }
}

/// The decoder of one compressed stream, as far as skipping goes: the
/// bytes still to skip.
#[derive(Copy, Clone, Debug, PartialEq, Eq, Structural)]
pub struct UzlibContext {
    pub to_skip: usize,
}

/// Length of the next chunk of a skip over `left` bytes.
pub open spec fn chunk_of(left: usize) -> usize {
    if left < SKIP_CHUNK {
        left
    } else {
        SKIP_CHUNK
    }
}

impl UzlibContext {
    /// A skip over `nbytes` bytes that has not begun.
    pub fn new(nbytes: usize) -> (c: Self)
        ensures
            c.to_skip == nbytes,
    {
        UzlibContext { to_skip: nbytes }
    }

    /// The next step of a skip: the number of bytes to decompress and
    /// discard next, at most `SKIP_CHUNK`, or `None` when the skip is
    /// complete.
    pub fn skip(&mut self) -> (chunk: Option<usize>)
        ensures
            old(self).to_skip == 0 ==> chunk.is_none() && final(self).to_skip == 0,
            old(self).to_skip > 0 ==> chunk == Some(chunk_of(old(self).to_skip)) && final(self).to_skip == old(self).to_skip - chunk_of(old(self).to_skip),
    {
        if self.to_skip == 0 {
            None
        } else {
            let chunk_len = if self.to_skip < SKIP_CHUNK {
                self.to_skip
            } else {
                SKIP_CHUNK
            };
            self.to_skip = self.to_skip - chunk_len;
            Some(chunk_len)
        }
    }
}

/// The slots in a list, in their order.
pub uninterp spec fn slots_of(list: FixedVec<ZlibCacheSlot>) -> Seq<ZlibCacheSlot>;

/// The number of slots that a list was made for.
pub uninterp spec fn slot_room(list: FixedVec<ZlibCacheSlot>) -> nat;

/// `LocalAllocLeakExt::fixed_vec` on a `Bump`: an empty list with room for
/// `capacity` slots, or `None` when the arena cannot hold it. A list
/// without room takes nothing from the arena and is always had.
#[verifier::external_body]
pub(crate) fn new_slot_list<'p, T>(pool: &'p Bump<T>, capacity: usize) -> (r: Option<
    FixedVec<'p, ZlibCacheSlot>,
>)
    ensures
        r matches Some(list) ==> slots_of(list).len() == 0 && slot_room(list) == capacity,
        capacity == 0 ==> r.is_some(),
{
    pool.fixed_vec(capacity)
}

/// `FixedVec::push`: the slot is appended while there is room, else the
/// list stays as it is and the slot comes back.
#[verifier::external_body]
pub(crate) fn push_slot(list: &mut FixedVec<ZlibCacheSlot>, slot: ZlibCacheSlot) -> (rejected:
    Option<ZlibCacheSlot>)
    ensures
        slot_room(*final(list)) == slot_room(*old(list)),
        slots_of(*old(list)).len() < slot_room(*old(list)) ==> rejected.is_none() && slots_of(
            *final(list),
        ) == slots_of(*old(list)).push(slot),
        slots_of(*old(list)).len() >= slot_room(*old(list)) ==> rejected == Some(slot)
            && slots_of(*final(list)) == slots_of(*old(list)),
{
    list.push(slot).err()
}

/// `FixedVec::len`: the number of slots in the list, never above its room.
#[verifier::external_body]
pub(crate) fn slot_count(list: &FixedVec<ZlibCacheSlot>) -> (n: usize)
    ensures
        n == slots_of(*list).len(),
        n <= slot_room(*list),
{
    list.len()
}

/// Indexing of a `FixedVec`: the slot at position `i`.
#[verifier::external_body]
pub(crate) fn slot_at(list: &FixedVec<ZlibCacheSlot>, i: usize) -> (s: ZlibCacheSlot)
    requires
        i < slots_of(*list).len(),
    ensures
        s == slots_of(*list)[i as int],
{
    list[i]
}

/// Assignment through the mutable indexing of a `FixedVec`: the slot at
/// position `i` is replaced, the others stay.
#[verifier::external_body]
pub(crate) fn put_slot(list: &mut FixedVec<ZlibCacheSlot>, i: usize, slot: ZlibCacheSlot)
    requires
        i < slots_of(*old(list)).len(),
    ensures
        slot_room(*final(list)) == slot_room(*old(list)),
        slots_of(*final(list)) == slots_of(*old(list)).update(i as int, slot),
{
    list[i] = slot;
}

/// What the owner of the decoders does next.
#[derive(Copy, Clone, Debug, PartialEq, Eq)]
pub enum ZlibStep {
    /// Ask the decoder of the slot `slot` for `len` bytes and report its
    /// answer. With `fresh`, first bind a new decoder to the slot's data.
    /// With `keep` the bytes are the request's result, else they are
    /// discarded.
    Decode { slot: usize, fresh: bool, len: usize, keep: bool },
    /// The request has ended with this result: `Ok(true)` at the end of
    /// the stream, `Ok(false)` before it, an error when no slot is free,
    /// the decoder failed, or the stream ended before the requested
    /// offset.
    Done(Result<bool, ()>),
}

/// A request that waits for a decoder's answer.
#[derive(Copy, Clone, Debug, PartialEq, Eq, Structural)]
pub struct ZlibPending {
    pub slot: usize,
    /// Bytes to skip in all.
    pub skip_total: usize,
    /// Bytes still to skip after the chunk that was asked for.
    pub skip_left: usize,
    /// True while the answer awaited is that to a skipped chunk.
    pub skipping: bool,
    pub dest_len: usize,
}

/// Index of the first slot that satisfies `matches(zdata, offset)`, among
/// the first `n` slots.
pub open spec fn first_match(slots: Seq<ZlibCacheSlot>, zdata: Seq<u8>, offset: usize, n: int)
    -> Option<int>
    decreases n,
{
    if n <= 0 {
        None
    } else {
        match first_match(slots, zdata, offset, n - 1) {
            Some(i) => Some(i),
            None => if slots[n - 1].matches(zdata, offset) {
                Some(n - 1)
            } else {
                None
            },
        }
    }
}

/// Index of the first free slot among the first `n` slots.
pub open spec fn first_free(slots: Seq<ZlibCacheSlot>, n: int) -> Option<int>
    decreases n,
{
    if n <= 0 {
        None
    } else {
        match first_free(slots, n - 1) {
            Some(i) => Some(i),
            None => if !slots[n - 1].busy {
                Some(n - 1)
            } else {
                None
            },
        }
    }
}

/// `first_match` finds the least index that matches, if any does.
pub proof fn lemma_first_match(slots: Seq<ZlibCacheSlot>, zdata: Seq<u8>, offset: usize, n: int)
    requires
        0 <= n <= slots.len(),
    ensures
        match first_match(slots, zdata, offset, n) {
            Some(i) => 0 <= i < n && slots[i].matches(zdata, offset) && forall|j: int|
                0 <= j < i ==> !(#[trigger] slots[j]).matches(zdata, offset),
            None => forall|j: int| 0 <= j < n ==> !(#[trigger] slots[j]).matches(zdata, offset),
        },
    decreases n,
{
    if n > 0 {
        lemma_first_match(slots, zdata, offset, n - 1);
    }
}

/// `first_free` finds the least index of a free slot, if there is one.
pub proof fn lemma_first_free(slots: Seq<ZlibCacheSlot>, n: int)
    requires
        0 <= n <= slots.len(),
    ensures
        match first_free(slots, n) {
            Some(i) => 0 <= i < n && !slots[i].busy && forall|j: int|
                0 <= j < i ==> (#[trigger] slots[j]).busy,
            None => forall|j: int| 0 <= j < n ==> (#[trigger] slots[j]).busy,
        },
    decreases n,
{
    if n > 0 {
        lemma_first_free(slots, n - 1);
    }
}

/// The cache of decompressors.
pub struct ZlibCache<'p> {
    slots: FixedVec<'p, ZlibCacheSlot>,
    pending: Option<ZlibPending>,
}

impl<'p> ZlibCache<'p> {
    /// The slots, as a value.
    pub closed spec fn view(&self) -> Seq<ZlibCacheSlot> {
        slots_of(self.slots)
    }

    /// The request that waits for an answer, if any.
    pub closed spec fn waiting(&self) -> Option<ZlibPending> {
        self.pending
    }

    /// The number of slots that the cache was made for.
    pub closed spec fn room(&self) -> nat {
        slot_room(self.slots)
    }

    /// The cache is consistent: it holds all its slots, every slot is
    /// sound, and a waiting request names one of the slots and its counts
    /// agree.
    pub open spec fn wf(&self) -> bool {
        &&& self@.len() == self.room()
        &&& self@.len() <= usize::MAX
        &&& forall|i: int| 0 <= i < self@.len() ==> (#[trigger] self@[i]).sound()
        &&& self.waiting() matches Some(p) ==> {
            &&& p.slot < self@.len()
            &&& p.skip_left <= p.skip_total
            &&& self@[p.slot as int].busy
            &&& p.skipping ==> self@[p.slot as int].offset == 0 && p.skip_total + p.dest_len
                <= usize::MAX
            &&& !p.skipping ==> self@[p.slot as int].offset + p.dest_len <= usize::MAX
        }
    }

    /// A cache of `slot_count` free slots in a list carved from `pool`;
    /// `None` when the pool cannot hold the list. A cache without slots
    /// takes nothing from the pool and is always had.
    pub fn new<T>(pool: &'p Bump<T>, slot_count: usize) -> (r: Option<Self>)
        ensures
            r matches Some(c) ==> c.wf() && c.waiting().is_none() && c@ == Seq::new(
                slot_count as nat,
                |i: int| ZlibCacheSlot::free(),
            ),
            slot_count == 0 ==> r.is_some(),
    {
        Self::around(new_slot_list(pool, slot_count), slot_count)
    }

    /// The cache around the list that the pool gave: `None` where it gave
    /// none, else the cache that fills the empty list with `slot_count`
    /// free slots.
    pub fn around(list: Option<FixedVec<'p, ZlibCacheSlot>>, slot_count: usize) -> (r: Option<Self>)
        requires
            list matches Some(l) ==> slots_of(l).len() == 0 && slot_room(l) == slot_count,
        ensures
            r.is_some() == list.is_some(),
            r matches Some(c) ==> c.wf() && c.waiting().is_none() && c@ == Seq::new(
                slot_count as nat,
                |i: int| ZlibCacheSlot::free(),
            ),
    {
        let mut slots = match list {
            Some(s) => s,
            None => {
                return None;
            },
        };
        let mut i: usize = 0;
        while i < slot_count
            invariant
                i <= slot_count,
                slot_room(slots) == slot_count,
                slots_of(slots).len() == i,
                forall|j: int| 0 <= j < i ==> #[trigger] slots_of(slots)[j] == ZlibCacheSlot::free(),
            decreases slot_count - i,
        {
            let rejected = push_slot(&mut slots, ZlibCacheSlot::new());
            i += 1;
        }
        let c = ZlibCache { slots, pending: None };
        proof {
            assert(c@ =~= Seq::new(slot_count as nat, |i: int| ZlibCacheSlot::free()));
        }
        Some(c)
    }

    /// The number of slots.
    pub fn slot_count(&self) -> (n: usize)
        ensures
            n == self@.len(),
    {
        slot_count(&self.slots)
    }

    /// The slot at position `i`.
    pub fn slot(&self, i: usize) -> (s: ZlibCacheSlot)
        requires
            i < self@.len(),
        ensures
            s == self@[i as int],
    {
        slot_at(&self.slots, i)
    }

    /// Finds the first slot that is bound to `zdata` at `offset`.
    pub fn find(&self, zdata: &[u8], offset: usize) -> (r: Option<usize>)
        ensures
            r.is_some() == first_match(self@, zdata@, offset, self@.len() as int).is_some(),
            r matches Some(i) ==> first_match(self@, zdata@, offset, self@.len() as int) == Some(
                i as int,
            ) && i < self@.len(),
    {
        let n = slot_count(&self.slots);
        let mut i: usize = 0;
        while i < n
            invariant
                i <= n,
                n == self@.len(),
                first_match(self@, zdata@, offset, i as int).is_none(),
            decreases n - i,
        {
            if slot_at(&self.slots, i).is_for(zdata, offset) {
                proof {
                    lemma_grow_match(self@, zdata@, offset, i as int + 1, n as int);
                }
                return Some(i);
            }
            i += 1;
        }
        None
    }

    /// Picks the slot for a new stream: the first free one. With every
    /// slot busy the cache is exhausted; no busy slot is taken over.
    pub fn select_slot_for_reuse(&self) -> (r: Result<usize, ()>)
        ensures
            r.is_ok() == first_free(self@, self@.len() as int).is_some(),
            r matches Ok(i) ==> first_free(self@, self@.len() as int) == Some(i as int) && i
                < self@.len(),
    {
        let n = slot_count(&self.slots);
        let mut i: usize = 0;
        while i < n
            invariant
                i <= n,
                n == self@.len(),
                first_free(self@, i as int).is_none(),
            decreases n - i,
        {
            if !slot_at(&self.slots, i).busy {
                proof {
                    lemma_grow_free(self@, i as int + 1, n as int);
                }
                return Ok(i);
            }
            i += 1;
        }
        Err(())
    }

    /// Begins a request for `dest_len` bytes of the decompressed `zdata`
    /// from `offset` on. A slot that stands at this place goes on from
    /// there. Else the first free slot is bound to `zdata`, and the bytes
    /// before `offset` are skipped in chunks; with no free slot the request
    /// fails.
    pub fn uncompress(&mut self, zdata: &'static [u8], offset: usize, dest_len: usize) -> (step:
        ZlibStep)
        requires
            old(self).wf(),
            offset + dest_len <= usize::MAX,
        ensures
            final(self).wf(),
            final(self)@.len() == old(self)@.len(),
            step == begin_step(old(self)@, zdata, offset, dest_len),
            final(self)@ == begin_slots(old(self)@, zdata, offset),
            step is Done <==> final(self).waiting().is_none(),
            step matches ZlibStep::Decode { slot, fresh, len, keep } ==> final(self).waiting()
                == Some(
                ZlibPending {
                    slot,
                    skip_total: if keep {
                        0
                    } else {
                        offset
                    },
                    skip_left: if keep {
                        0
                    } else {
                        (offset - len) as usize
                    },
                    skipping: !keep,
                    dest_len,
                },
            ),
    {
        proof {
            lemma_first_match(self@, zdata@, offset, self@.len() as int);
            lemma_first_free(self@, self@.len() as int);
        }
        match self.find(zdata, offset) {
            Some(i) => {
                if slot_at(&self.slots, i).busy {
                    self.pending = Some(
                        ZlibPending { slot: i, skip_total: 0, skip_left: 0, skipping: false, dest_len },
                    );
                    ZlibStep::Decode { slot: i, fresh: false, len: dest_len, keep: true }
                } else {
                    self.pending = None;
                    ZlibStep::Done(Err(()))
                }
            },
            None => {
                match self.select_slot_for_reuse() {
                    Err(_) => {
                        self.pending = None;
                        ZlibStep::Done(Err(()))
                    },
                    Ok(i) => {
                        let mut slot = slot_at(&self.slots, i);
                        slot.reset(zdata);
                        put_slot(&mut self.slots, i, slot);
                        if !slot.busy {
                            self.pending = None;
                            ZlibStep::Done(Err(()))
                        } else if offset > 0 {
                            let mut skipper = UzlibContext::new(offset);
                            let chunk = match skipper.skip() {
                                Some(c) => c,
                                None => 0,
                            };
                            self.pending = Some(
                                ZlibPending {
                                    slot: i,
                                    skip_total: offset,
                                    skip_left: skipper.to_skip,
                                    skipping: true,
                                    dest_len,
                                },
                            );
                            ZlibStep::Decode { slot: i, fresh: true, len: chunk, keep: false }
                        } else {
                            self.pending = Some(
                                ZlibPending {
                                    slot: i,
                                    skip_total: 0,
                                    skip_left: 0,
                                    skipping: false,
                                    dest_len,
                                },
                            );
                            ZlibStep::Decode { slot: i, fresh: true, len: dest_len, keep: true }
                        }
                    },
                }
            },
        }
    }

    /// Takes the decoder's answer to the step that was handed out last and
    /// says what follows. Without a waiting request the answer is an
    /// error.
    pub fn resume(&mut self, outcome: Result<bool, ()>) -> (step: ZlibStep)
        requires
            old(self).wf(),
        ensures
            final(self).wf(),
            final(self)@.len() == old(self)@.len(),
            step == resume_step(old(self)@, old(self).waiting(), outcome),
            final(self)@ == resume_slots(old(self)@, old(self).waiting(), outcome),
            final(self).waiting() == resume_pending(old(self)@, old(self).waiting(), outcome),
    {
        let p = match self.pending {
            Some(p) => p,
            None => {
                return ZlibStep::Done(Err(()));
            },
        };
        let mut slot = slot_at(&self.slots, p.slot);
        if p.skipping {
            match outcome {
                Err(_) => {
                    self.pending = None;
                    ZlibStep::Done(Err(()))
                },
                Ok(done) => {
                    if p.skip_left > 0 {
                        let mut skipper = UzlibContext::new(p.skip_left);
                        let chunk = match skipper.skip() {
                            Some(c) => c,
                            None => 0,
                        };
                        self.pending = Some(ZlibPending { skip_left: skipper.to_skip, ..p });
                        ZlibStep::Decode { slot: p.slot, fresh: false, len: chunk, keep: false }
                    } else {
                        let r = slot.skip(p.skip_total, Ok(done));
                        put_slot(&mut self.slots, p.slot, slot);
                        if done {
                            self.pending = None;
                            ZlibStep::Done(Err(()))
                        } else {
                            self.pending = Some(ZlibPending { skipping: false, ..p });
                            ZlibStep::Decode {
                                slot: p.slot,
                                fresh: false,
                                len: p.dest_len,
                                keep: true,
                            }
                        }
                    }
                },
            }
        } else {
            let r = slot.uncompress(p.dest_len, outcome);
            put_slot(&mut self.slots, p.slot, slot);
            self.pending = None;
            ZlibStep::Done(r)
        }
    }
}

/// The first step of a request, as a function of the slots.
pub open spec fn begin_step(
    slots: Seq<ZlibCacheSlot>,
    zdata: &'static [u8],
    offset: usize,
    dest_len: usize,
) -> ZlibStep {
    match first_match(slots, zdata@, offset, slots.len() as int) {
        Some(i) => if slots[i].busy {
            ZlibStep::Decode { slot: i as usize, fresh: false, len: dest_len, keep: true }
        } else {
            ZlibStep::Done(Err(()))
        },
        None => match first_free(slots, slots.len() as int) {
            None => ZlibStep::Done(Err(())),
            Some(i) => if zdata@.len() == 0 {
                ZlibStep::Done(Err(()))
            } else if offset > 0 {
                ZlibStep::Decode { slot: i as usize, fresh: true, len: chunk_of(offset), keep: false }
            } else {
                ZlibStep::Decode { slot: i as usize, fresh: true, len: dest_len, keep: true }
            },
        },
    }
}

/// The slots after a request has begun: a slot that is taken anew is
/// bound to the data, everything else stays.
pub open spec fn begin_slots(slots: Seq<ZlibCacheSlot>, zdata: &'static [u8], offset: usize) -> Seq<
    ZlibCacheSlot,
> {
    match first_match(slots, zdata@, offset, slots.len() as int) {
        Some(_) => slots,
        None => match first_free(slots, slots.len() as int) {
            None => slots,
            Some(i) => slots.update(i, ZlibCacheSlot::bound_to(zdata)),
        },
    }
}

/// The step that follows a decoder's answer.
pub open spec fn resume_step(
    slots: Seq<ZlibCacheSlot>,
    pending: Option<ZlibPending>,
    outcome: Result<bool, ()>,
) -> ZlibStep {
    match pending {
        None => ZlibStep::Done(Err(())),
        Some(p) => if p.skipping {
            match outcome {
                Err(_) => ZlibStep::Done(Err(())),
                Ok(done) => if p.skip_left > 0 {
                    ZlibStep::Decode {
                        slot: p.slot,
                        fresh: false,
                        len: chunk_of(p.skip_left),
                        keep: false,
                    }
                } else if done {
                    ZlibStep::Done(Err(()))
                } else {
                    ZlibStep::Decode { slot: p.slot, fresh: false, len: p.dest_len, keep: true }
                },
            }
        } else {
            ZlibStep::Done(slots[p.slot as int].reply(outcome))
        },
    }
}

/// The slots after a decoder's answer: the skip as a whole is recorded
/// with the answer to its last chunk, the final read with its own.
pub open spec fn resume_slots(
    slots: Seq<ZlibCacheSlot>,
    pending: Option<ZlibPending>,
    outcome: Result<bool, ()>,
) -> Seq<ZlibCacheSlot> {
    match pending {
        None => slots,
        Some(p) => if p.skipping {
            match outcome {
                Err(_) => slots,
                Ok(done) => if p.skip_left > 0 {
                    slots
                } else {
                    slots.update(
                        p.slot as int,
                        slots[p.slot as int].answered(p.skip_total, Ok(done)),
                    )
                },
            }
        } else {
            slots.update(p.slot as int, slots[p.slot as int].answered(p.dest_len, outcome))
        },
    }
}

/// The request that waits after a decoder's answer.
pub open spec fn resume_pending(
    slots: Seq<ZlibCacheSlot>,
    pending: Option<ZlibPending>,
    outcome: Result<bool, ()>,
) -> Option<ZlibPending> {
    match pending {
        None => None,
        Some(p) => if p.skipping {
            match outcome {
                Err(_) => None,
                Ok(done) => if p.skip_left > 0 {
                    Some(
                        ZlibPending {
                            skip_left: (p.skip_left - chunk_of(p.skip_left)) as usize,
                            ..p
                        },
                    )
                } else if done {
                    None
                } else {
                    Some(ZlibPending { skipping: false, ..p })
                },
            }
        } else {
            None
        },
    }
}

/// A match among the first `n` slots is the first match among more.
pub proof fn lemma_grow_match(slots: Seq<ZlibCacheSlot>, zdata: Seq<u8>, offset: usize, n: int, m: int)
    requires
        0 <= n <= m <= slots.len(),
        first_match(slots, zdata, offset, n).is_some(),
    ensures
        first_match(slots, zdata, offset, m) == first_match(slots, zdata, offset, n),
    decreases m - n,
{
    if n < m {
        lemma_grow_match(slots, zdata, offset, n, m - 1);
    }
}

/// A free slot among the first `n` slots is the first free one among
/// more.
pub proof fn lemma_grow_free(slots: Seq<ZlibCacheSlot>, n: int, m: int)
    requires
        0 <= n <= m <= slots.len(),
        first_free(slots, n).is_some(),
    ensures
        first_free(slots, m) == first_free(slots, n),
    decreases m - n,
{
    if n < m {
        lemma_grow_free(slots, n, m - 1);
    }
}

/// Reading on where the last read ended needs no new decoder: a slot that
/// served `len` bytes at `offset` without reaching the end stands at
/// `offset + len`, so that the request for that place finds it and goes on
/// with its decoder.
pub proof fn lemma_sequential_read_reuses_slot(
    slots: Seq<ZlibCacheSlot>,
    i: int,
    zdata: &'static [u8],
    offset: usize,
    len: usize,
    next_len: usize,
)
    requires
        0 <= i < slots.len() <= usize::MAX,
        offset + len <= usize::MAX,
        slots[i].busy,
        first_match(slots, zdata@, offset, slots.len() as int) == Some(i),
        forall|j: int|
            0 <= j < slots.len() && j != i ==> !(#[trigger] slots[j]).matches(
                zdata@,
                (offset + len) as usize,
            ),
    ensures
        begin_step(
            slots.update(i, slots[i].answered(len, Ok(false))),
            zdata,
            (offset + len) as usize,
            next_len,
        ) == (ZlibStep::Decode { slot: i as usize, fresh: false, len: next_len, keep: true }),
{
    let after = slots.update(i, slots[i].answered(len, Ok(false)));
    lemma_first_match(slots, zdata@, offset, slots.len() as int);
    lemma_first_match(after, zdata@, (offset + len) as usize, after.len() as int);
    assert(after[i].matches(zdata@, (offset + len) as usize));
    match first_match(after, zdata@, (offset + len) as usize, after.len() as int) {
        Some(k) => {
            if k != i {
                assert(after[k] == slots[k]);
            }
        },
        None => {
            assert(!after[i].matches(zdata@, (offset + len) as usize));
        },
    }
}

/// Reading on where the last read ended goes on with a decoder that
/// stands there, in every consistent cache: after a slot has served `len`
/// bytes at `offset` without reaching the end, the request for the place
/// `offset + len` binds no new decoder and skips nothing. Its step reads
/// the requested bytes from a slot that stands at that place, and no slot
/// changes.
pub proof fn lemma_reading_on_needs_no_new_decoder(
    slots: Seq<ZlibCacheSlot>,
    i: int,
    zdata: &'static [u8],
    offset: usize,
    len: usize,
    next_len: usize,
)
    requires
        0 <= i < slots.len() <= usize::MAX,
        offset + len <= usize::MAX,
        forall|j: int| 0 <= j < slots.len() ==> (#[trigger] slots[j]).sound(),
        slots[i].busy,
        slots[i].matches(zdata@, offset),
    ensures
        begin_step(
            slots.update(i, slots[i].answered(len, Ok(false))),
            zdata,
            (offset + len) as usize,
            next_len,
        ) matches ZlibStep::Decode { slot, fresh, len: asked, keep } && !fresh && keep && asked
            == next_len && slot < slots.len() && slots.update(
            i,
            slots[i].answered(len, Ok(false)),
        )[slot as int].matches(zdata@, (offset + len) as usize),
        begin_slots(
            slots.update(i, slots[i].answered(len, Ok(false))),
            zdata,
            (offset + len) as usize,
        ) == slots.update(i, slots[i].answered(len, Ok(false))),
{
    let after = slots.update(i, slots[i].answered(len, Ok(false)));
    let place = (offset + len) as usize;
    lemma_first_match(after, zdata@, place, after.len() as int);
    assert(after[i].matches(zdata@, place));
    assert(slots[i].sound());
    match first_match(after, zdata@, place, after.len() as int) {
        Some(k) => {
            if k != i {
                assert(after[k] == slots[k]);
                assert(slots[k].sound());
            }
        },
        None => {
            assert(!after[i].matches(zdata@, place));
        },
    }
}

/// The request that waits when a first step reads at once.
pub open spec fn reading(slot: usize, dest_len: usize) -> ZlibPending {
    ZlibPending { slot, skip_total: 0, skip_left: 0, skipping: false, dest_len }
}

/// Two reads one after the other share a decoder, in every consistent
/// cache: when a request for `len` bytes at `offset` reads at once and its
/// decoder answers that the stream has not ended, the request ends with
/// that answer, and the request for the place `offset + len` that follows
/// binds no new decoder and skips nothing.
pub proof fn lemma_sequential_reads_share_a_decoder(
    slots: Seq<ZlibCacheSlot>,
    zdata: &'static [u8],
    offset: usize,
    len: usize,
    next_len: usize,
)
    requires
        slots.len() <= usize::MAX,
        offset + len <= usize::MAX,
        forall|j: int| 0 <= j < slots.len() ==> (#[trigger] slots[j]).sound(),
        begin_step(slots, zdata, offset, len) matches ZlibStep::Decode { slot, fresh, len: asked, keep }
            && keep,
    ensures
        ({
            let slot = begin_step(slots, zdata, offset, len)->slot;
            let begun = begin_slots(slots, zdata, offset);
            let served = resume_slots(begun, Some(reading(slot, len)), Ok(false));
            &&& resume_step(begun, Some(reading(slot, len)), Ok(false)) == ZlibStep::Done(Ok(false))
            &&& begin_step(served, zdata, (offset + len) as usize, next_len) matches ZlibStep::Decode {
                slot: again,
                fresh,
                len: asked,
                keep,
            } && !fresh && keep && asked == next_len
            &&& begin_slots(served, zdata, (offset + len) as usize) == served
        }),
{
    let slot = begin_step(slots, zdata, offset, len)->slot;
    let begun = begin_slots(slots, zdata, offset);
    lemma_first_match(slots, zdata@, offset, slots.len() as int);
    lemma_first_free(slots, slots.len() as int);
    assert(begun.len() == slots.len());
    assert(0 <= slot < begun.len());
    assert(begun[slot as int].busy);
    assert(begun[slot as int].matches(zdata@, offset));
    assert forall|j: int| 0 <= j < begun.len() implies (#[trigger] begun[j]).sound() by {
        if j != slot {
            assert(begun[j] == slots[j]);
        }
    }
    lemma_reading_on_needs_no_new_decoder(begun, slot as int, zdata, offset, len, next_len);
}

/// A request for a place that no slot stands at, such as one before the
/// place that the stream's slot has reached, takes a free slot, binds a new
/// decoder to the data and skips from the start: its first step is fresh,
/// and discards the first chunk of the bytes before `offset`.
pub proof fn lemma_other_offset_restarts(
    slots: Seq<ZlibCacheSlot>,
    zdata: &'static [u8],
    offset: usize,
    dest_len: usize,
)
    requires
        slots.len() <= usize::MAX,
        zdata@.len() > 0,
        offset > 0,
        forall|j: int| 0 <= j < slots.len() ==> !(#[trigger] slots[j]).matches(zdata@, offset),
        exists|j: int| 0 <= j < slots.len() && !(#[trigger] slots[j]).busy,
    ensures
        begin_step(slots, zdata, offset, dest_len) matches ZlibStep::Decode { slot, fresh, len, keep }
            && fresh && !keep && len == chunk_of(offset) && !slots[slot as int].busy
            && begin_slots(slots, zdata, offset)[slot as int] == ZlibCacheSlot::bound_to(zdata),
{
    lemma_first_match(slots, zdata@, offset, slots.len() as int);
    lemma_first_free(slots, slots.len() as int);
}

/// A slot that stands beyond `offset` in a stream does not serve a request
/// for `offset`.
pub proof fn lemma_earlier_offset_misses(slot: ZlibCacheSlot, zdata: Seq<u8>, offset: usize)
    requires
        offset < slot.offset,
    ensures
        !slot.matches(zdata, offset),
{
}

/// A stream that was read to its end frees its slot: the slot no longer
/// serves the stream at any offset.
pub proof fn lemma_complete_read_frees_slot(
    slot: ZlibCacheSlot,
    len: usize,
    zdata: Seq<u8>,
    offset: usize,
)
    requires
        slot.busy,
        zdata.len() > 0,
    ensures
        slot.answered(len, Ok(true)) == ZlibCacheSlot::free(),
        !slot.answered(len, Ok(true)).busy,
        !slot.answered(len, Ok(true)).matches(zdata, offset),
{
    let e: &'static [u8] = &[];
    assert(e@.len() == 0);
}

} // verus!
