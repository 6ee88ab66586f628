use static_alloc::Bump;
use trezor_canvas::geometry::{Offset, Point};
use trezor_canvas::shape::context::{BitmapCache, BlurCache, DrawingContextImpl, JpegError};
use trezor_canvas::shape::jpeg_cache::{JpegCache, JpegCacheSlot, JpegHeader, JpegPlan};
use trezor_canvas::shape::zlib_cache::{UzlibContext, ZlibCache, ZlibCacheSlot, ZlibStep};
use trezor_canvas::toif::Toif;

const ICON_A: &[u8] = b"compressed icon A";
const ICON_B: &[u8] = b"compressed icon B";

/// A stand-in for the decompressors: every stream decompresses to the
/// bytes 0, 1, 2, ... of the given length.
struct Decoders {
    length: usize,
    position: Vec<usize>,
    /// Number of decoders that were bound.
    bound: usize,
}

impl Decoders {
    fn new(slots: usize, length: usize) -> Self {
        Decoders { length, position: vec![0; slots], bound: 0 }
    }

    fn read(&mut self, cache: &mut ZlibCache, zdata: &'static [u8], offset: usize, len: usize) -> (Result<bool, ()>, Vec<u8>) {
        let mut out = Vec::new();
        let mut step = cache.uncompress(zdata, offset, len);
        loop {
            match step {
                ZlibStep::Done(r) => return (r, out),
                ZlibStep::Decode { slot, fresh, len, keep } => {
                    if fresh {
                        self.position[slot] = 0;
                        self.bound += 1;
                    }
                    let from = self.position[slot];
                    let to = (from + len).min(self.length);
                    if keep {
                        out = (from..to).map(|i| i as u8).collect();
                    }
                    self.position[slot] = from + len;
                    step = cache.resume(Ok(to >= self.length));
                }
            }
        }
    }
}

#[test]
fn slot_follows_the_decoder() {
    let mut s = ZlibCacheSlot::new();
    assert!(!s.busy);
    assert!(s.is_for(b"", 0));
    assert_eq!(s.uncompress(10, Ok(false)), Err(()));
    s.reset(ICON_A);
    assert!(s.busy);
    assert!(s.is_for(ICON_A, 0));
    assert!(!s.is_for(ICON_B, 0));
    assert_eq!(s.uncompress(10, Ok(false)), Ok(false));
    assert!(s.is_for(ICON_A, 10));
    assert!(!s.is_for(ICON_A, 0));
    assert_eq!(s.skip(5, Ok(false)), Ok(false));
    assert!(s.is_for(ICON_A, 15));
    // an error leaves the slot where it was
    assert_eq!(s.uncompress(10, Err(())), Err(()));
    assert!(s.is_for(ICON_A, 15));
    // the end of the stream frees the slot
    assert_eq!(s.uncompress(10, Ok(true)), Ok(true));
    assert!(!s.busy);
    assert!(!s.is_for(ICON_A, 25));
    assert!(!s.is_for(ICON_A, 0));
    // empty data frees the slot too
    s.reset(ICON_A);
    s.reset(b"");
    assert!(!s.busy);
}

#[test]
fn skips_go_in_chunks_of_256() {
    let mut c = UzlibContext::new(600);
    assert_eq!(c.skip(), Some(256));
    assert_eq!(c.skip(), Some(256));
    assert_eq!(c.skip(), Some(88));
    assert_eq!(c.skip(), None);
    assert_eq!(UzlibContext::new(0).skip(), None);
    assert_eq!(UzlibContext::new(256).skip(), Some(256));
}

#[test]
fn sequential_reads_reuse_the_decoder() {
    let pool: Bump<[u64; 64]> = Bump::uninit();
    let mut cache = ZlibCache::new(&pool, 4).unwrap();
    assert_eq!(cache.slot_count(), 4);
    let mut d = Decoders::new(4, 100);
    let (r, out) = d.read(&mut cache, ICON_A, 0, 30);
    assert_eq!(r, Ok(false));
    assert_eq!(out, (0..30).collect::<Vec<u8>>());
    assert_eq!(d.bound, 1);
    // on from where the stream stands: the same slot, no new decoder
    assert_eq!(cache.find(ICON_A, 30), Some(0));
    assert_eq!(
        cache.uncompress(ICON_A, 30, 30),
        ZlibStep::Decode { slot: 0, fresh: false, len: 30, keep: true }
    );
    assert_eq!(cache.resume(Ok(false)), ZlibStep::Done(Ok(false)));
    assert!(cache.slot(0).is_for(ICON_A, 60));
    assert_eq!(d.bound, 1);
}

#[test]
fn an_earlier_offset_takes_a_new_decoder_and_skips() {
    let pool: Bump<[u64; 64]> = Bump::uninit();
    let mut cache = ZlibCache::new(&pool, 4).unwrap();
    let mut d = Decoders::new(4, 1000);
    let _ = d.read(&mut cache, ICON_A, 0, 600);
    assert!(cache.slot(0).is_for(ICON_A, 600));
    // offset 300 lies behind: no slot stands there
    assert_eq!(cache.find(ICON_A, 300), None);
    assert_eq!(
        cache.uncompress(ICON_A, 300, 10),
        ZlibStep::Decode { slot: 1, fresh: true, len: 256, keep: false }
    );
    assert_eq!(cache.resume(Ok(false)), ZlibStep::Decode { slot: 1, fresh: false, len: 44, keep: false });
    assert_eq!(cache.resume(Ok(false)), ZlibStep::Decode { slot: 1, fresh: false, len: 10, keep: true });
    assert_eq!(cache.resume(Ok(false)), ZlibStep::Done(Ok(false)));
    assert!(cache.slot(1).is_for(ICON_A, 310));
    assert!(cache.slot(0).is_for(ICON_A, 600));
    // the bytes are those at the offset
    let (r, out) = d.read(&mut cache, ICON_A, 100, 4);
    assert_eq!(r, Ok(false));
    assert_eq!(out, vec![100, 101, 102, 103]);
}

#[test]
fn reading_to_the_end_frees_the_slot() {
    let pool: Bump<[u64; 64]> = Bump::uninit();
    let mut cache = ZlibCache::new(&pool, 1).unwrap();
    let mut d = Decoders::new(1, 50);
    let (r, first) = d.read(&mut cache, ICON_A, 0, 50);
    assert_eq!(r, Ok(true));
    assert!(!cache.slot(0).busy);
    assert!(!cache.slot(0).is_for(ICON_A, 50));
    assert!(!cache.slot(0).is_for(ICON_A, 0));
    assert_eq!(cache.select_slot_for_reuse(), Ok(0));
    // the same icon again from the start: the one slot is free, the bytes are the same
    let (r, second) = d.read(&mut cache, ICON_A, 0, 50);
    assert_eq!(r, Ok(true));
    assert_eq!(first, second);
    assert_eq!(first, (0..50).collect::<Vec<u8>>());
    assert_eq!(d.bound, 2);
}

#[test]
fn a_full_cache_refuses_a_new_stream() {
    let pool: Bump<[u64; 64]> = Bump::uninit();
    let mut cache = ZlibCache::new(&pool, 1).unwrap();
    let mut d = Decoders::new(1, 100);
    assert_eq!(d.read(&mut cache, ICON_A, 0, 10).0, Ok(false));
    assert_eq!(cache.select_slot_for_reuse(), Err(()));
    // no busy slot is taken over
    assert_eq!(cache.uncompress(ICON_B, 0, 10), ZlibStep::Done(Err(())));
    assert!(cache.slot(0).is_for(ICON_A, 10));
    assert_eq!(cache.uncompress(ICON_A, 5, 10), ZlibStep::Done(Err(())));
    // a cache without slots refuses everything
    let mut none = ZlibCache::new(&pool, 0).unwrap();
    assert_eq!(none.uncompress(ICON_A, 0, 10), ZlibStep::Done(Err(())));
    assert_eq!(none.resume(Ok(false)), ZlibStep::Done(Err(())));
}

#[test]
fn failures_of_the_decoder_end_the_request() {
    let pool: Bump<[u64; 64]> = Bump::uninit();
    let mut cache = ZlibCache::new(&pool, 2).unwrap();
    assert_eq!(
        cache.uncompress(ICON_A, 300, 10),
        ZlibStep::Decode { slot: 0, fresh: true, len: 256, keep: false }
    );
    assert_eq!(cache.resume(Err(())), ZlibStep::Done(Err(())));
    // the stream ends while it is skipped: the slot is freed and the request fails
    assert_eq!(
        cache.uncompress(ICON_B, 10, 10),
        ZlibStep::Decode { slot: 1, fresh: true, len: 10, keep: false }
    );
    assert_eq!(cache.resume(Ok(true)), ZlibStep::Done(Err(())));
    assert!(!cache.slot(1).busy);
    // empty data cannot be decompressed
    assert_eq!(cache.uncompress(b"", 4, 10), ZlibStep::Done(Err(())));
}

#[test]
fn the_pool_bounds_the_number_of_slots() {
    let pool: Bump<[u64; 4]> = Bump::uninit();
    assert!(ZlibCache::new(&pool, 1000).is_none());
}

#[test]
fn drawing_context_asks_for_the_offset_of_the_row() {
    const ICON: &[u8] = b"TOIg\x08\x00\x04\x00\x02\x00\x00\x00zz";
    let pool_a: Bump<[u64; 64]> = Bump::uninit();
    let pool_b: Bump<[u64; 64]> = Bump::uninit();
    let mut ctx = DrawingContextImpl::new(&pool_a, &pool_b).unwrap();
    assert_eq!(ctx.zlib_cache.slot_count(), 4);
    let toif = Toif::new(ICON).unwrap();
    assert_eq!(
        ctx.deflate_toif(toif, 0, 8),
        ZlibStep::Decode { slot: 0, fresh: true, len: 8, keep: true }
    );
    assert_eq!(ctx.zlib_cache.resume(Ok(false)), ZlibStep::Done(Ok(false)));
    // row 2 of an icon with rows of four bytes
    assert_eq!(
        ctx.deflate_toif(toif, 2, 8),
        ZlibStep::Decode { slot: 0, fresh: false, len: 8, keep: true }
    );
    assert_eq!(ctx.zlib_cache.resume(Ok(true)), ZlibStep::Done(Ok(true)));
    assert_eq!(BitmapCache::new().used, 0);
    assert_eq!(BlurCache::new().used, 0);
}

#[test]
fn jpeg_slot_binds_and_moves_forward_only() {
    const JPEG: &[u8] = b"\xFF\xD8jpeg";
    const OTHER: &[u8] = b"\xFF\xD8other";
    let header = JpegHeader { width: 32, height: 32, mcu_height: 16 };
    let mut s = JpegCacheSlot::new();
    assert!(!s.is_for(JPEG));
    assert_eq!(s.get_size(JPEG), None);
    assert_eq!(s.decompress(JPEG, Point::new(0, 0)), JpegPlan::Restart);
    assert_eq!(s.reset(JPEG, Ok(header)), Ok(()));
    assert!(s.is_for(JPEG));
    assert!(!s.is_for(OTHER));
    assert_eq!(s.get_size(JPEG), Some(Offset::new(32, 32)));
    assert_eq!(s.decompress(JPEG, Point::new(0, 0)), JpegPlan::Continue);
    assert_eq!(s.decompress(OTHER, Point::new(0, 0)), JpegPlan::Restart);
    // the first block of 16 x 16 was delivered
    s.advance((0, 0), 16);
    assert_eq!(s.next_mcu, Offset::new(16, 0));
    assert_eq!(s.decompress(JPEG, Point::new(0, 0)), JpegPlan::Restart);
    assert_eq!(s.decompress(JPEG, Point::new(16, 0)), JpegPlan::Continue);
    assert_eq!(s.decompress(JPEG, Point::new(0, 16)), JpegPlan::Continue);
    // the second block ends the row of blocks
    s.advance((16, 0), 16);
    assert_eq!(s.next_mcu, Offset::new(0, 16));
    assert_eq!(s.decompress(JPEG, Point::new(16, 15)), JpegPlan::Restart);
    assert_eq!(s.decompress(JPEG, Point::new(0, 16)), JpegPlan::Continue);
    // a failed attempt leaves the slot without decoder, bound to the old stream
    assert_eq!(s.reset(OTHER, Err(JpegError::InvalidData)), Err(JpegError::InvalidData));
    assert!(!s.is_for(JPEG));
    assert!(!s.is_for(OTHER));
    assert!(!s.bound);
    // an empty stream unbinds without looking at the headers
    assert_eq!(s.reset(JPEG, Ok(header)), Ok(()));
    assert_eq!(s.reset(b"", Err(JpegError::Input)), Ok(()));
    assert!(!s.bound);
}

#[test]
fn interrupted_is_a_pause_not_a_failure() {
    assert_eq!(JpegCacheSlot::finish(Ok(())), Ok(()));
    assert_eq!(JpegCacheSlot::finish(Err(JpegError::Interrupted)), Ok(()));
    for e in [
        JpegError::Input,
        JpegError::MemoryPool,
        JpegError::MemoryInput,
        JpegError::Parameter,
        JpegError::InvalidData,
        JpegError::UnsupportedJpeg,
    ] {
        assert_eq!(JpegCacheSlot::finish(Err(e)), Err(e));
    }
}

#[test]
fn jpeg_cache_has_one_slot_or_none() {
    const JPEG: &[u8] = b"\xFF\xD8jpeg";
    let header = JpegHeader { width: 24, height: 8, mcu_height: 8 };
    let pool: Bump<[u64; 64]> = Bump::uninit();
    let mut none = JpegCache::new(&pool, 0).unwrap();
    assert_eq!(none.get_size(JPEG), Err(JpegError::MemoryPool));
    assert_eq!(none.decompress(JPEG, Point::new(0, 0)), Err(JpegError::MemoryPool));
    assert_eq!(none.reset(JPEG, Ok(header)), Err(JpegError::MemoryPool));
    let mut one = JpegCache::new(&pool, 1).unwrap();
    assert_eq!(one.get_size(JPEG), Ok(None));
    assert_eq!(one.decompress(JPEG, Point::new(0, 0)), Ok(JpegPlan::Restart));
    assert_eq!(one.reset(JPEG, Ok(header)), Ok(()));
    assert_eq!(one.get_size(JPEG), Ok(Some(Offset::new(24, 8))));
    assert_eq!(one.decompress(JPEG, Point::new(8, 0)), Ok(JpegPlan::Continue));
    one.advance((0, 0), 8);
    one.advance((8, 0), 8);
    assert_eq!(one.decompress(JPEG, Point::new(8, 0)), Ok(JpegPlan::Restart));
    assert_eq!(one.decompress(JPEG, Point::new(16, 0)), Ok(JpegPlan::Continue));
}

#[test]
fn a_cache_without_slots_is_always_had() {
    let pool: Bump<[u64; 1]> = Bump::uninit();
    let cache = ZlibCache::new(&pool, 0).unwrap();
    assert_eq!(cache.slot_count(), 0);
    assert!(ZlibCache::new(&pool, 64).is_none());
}

#[test]
fn the_caches_follow_what_the_pool_gave() {
    let pool: Bump<[u64; 64]> = Bump::uninit();
    assert!(ZlibCache::around(None, 4).is_none());
    assert!(DrawingContextImpl::around(None, None).is_none());
    assert!(DrawingContextImpl::around(ZlibCache::new(&pool, 1), None).is_none());
    assert!(DrawingContextImpl::around(None, JpegCache::new(&pool, 1)).is_none());
    let mut ctx =
        DrawingContextImpl::around(ZlibCache::new(&pool, 2), JpegCache::new(&pool, 1)).unwrap();
    assert_eq!(ctx.zlib_cache.slot_count(), 2);
    assert_eq!(ctx.jpeg_cache.get_size(b"\xFF\xD8jpeg"), Ok(None));
    assert_eq!(ctx.blur_cache.used, 0);
    assert_eq!(ctx.bitmap_cache.used, 0);
}

#[test]
fn the_jpeg_cache_takes_its_slot_from_the_pool() {
    let small: Bump<[u64; 1]> = Bump::uninit();
    assert!(JpegCache::new(&small, 1).is_none());
    assert!(JpegCache::new(&small, 0).is_some());
    assert!(JpegCache::around(None, 1).is_none());
    let pool: Bump<[u64; 64]> = Bump::uninit();
    let cache = JpegCache::new(&pool, 1).unwrap();
    assert_eq!(cache.get_size(b"\xFF\xD8jpeg"), Ok(None));
}
