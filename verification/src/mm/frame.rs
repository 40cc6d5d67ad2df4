//! Physical frame allocator.
//!
//! Manages physical memory frames (4 KiB pages) with a bitmap: bit `n % 64`
//! of word `n / 64` is set when frame `n` is allocated.

use vstd::prelude::*;
use super::{MemoryRegion, MemoryRegionType};

verus! {

/// Size of a frame in bytes.
pub const FRAME_SIZE: u64 = 4096;

/// Maximum number of frames tracked (4 TiB of RAM).
pub const MAX_FRAMES: usize = 1048576;

/// Number of 64-bit words of the bitmap.
pub const BITMAP_WORDS: usize = 16384;

/// Whether bit `b` of `w` is set.
pub open spec fn word_bit(w: u64, b: u64) -> bool {
    w & (1u64 << b) != 0
}

/// Whether frame `n` is marked in the bitmap `bm`.
pub open spec fn bitmap_bit(bm: Seq<u64>, n: int) -> bool {
    word_bit(bm[n / 64], (n % 64) as u64)
}

/// Number of frames that the usable regions of `regions` cover.
pub open spec fn usable_frames(regions: Seq<MemoryRegion>) -> int
    decreases regions.len(),
{
    if regions.len() == 0 {
        0
    } else {
        let r = regions.last();
        usable_frames(regions.drop_last()) + if r.region_type == MemoryRegionType::Usable {
            (r.end / 4096) - (r.start / 4096)
        } else {
            0
        }
    }
}

/// Whether every usable region of `regions` ends at or after its start frame.
pub open spec fn regions_well_ordered(regions: Seq<MemoryRegion>) -> bool {
    forall|i: int|
        0 <= i < regions.len() && #[trigger] regions[i].region_type == MemoryRegionType::Usable
            ==> regions[i].start / 4096 <= regions[i].end / 4096
}

/// What `allocate` does: on `Some(addr)`, `addr` starts the lowest free
/// frame, which lies below the total and is now marked, and the count grows
/// by one; on `None`, no frame below the total was free and every frame is
/// now marked.  The total never changes.
pub open spec fn allocate_post(pre: FrameAllocator, post: FrameAllocator, r: Option<u64>) -> bool {
    &&& post.total() == pre.total()
    &&& match r {
        Some(addr) => exists|n: int|
            {
                &&& 0 <= n < pre.total()
                &&& addr == n * 4096
                &&& !pre.is_allocated(n)
                &&& (forall|m: int| 0 <= m < n ==> pre.is_allocated(m))
                &&& (forall|m: int|
                    0 <= m < MAX_FRAMES ==> #[trigger] post.is_allocated(m) == (m == n
                        || pre.is_allocated(m)))
                &&& post.allocated() == pre.allocated() + 1
            },
        None => {
            &&& (forall|m: int|
                0 <= m < MAX_FRAMES && !pre.is_allocated(m) ==> m >= pre.total())
            &&& (forall|m: int| 0 <= m < MAX_FRAMES ==> #[trigger] post.is_allocated(m))
            &&& post.allocated() == pre.allocated()
        },
    }
}

/// What `deallocate(frame)` does: a frame within the bitmap is unmarked and
/// the count drops by one; a frame beyond it changes nothing.
pub open spec fn deallocate_post(pre: FrameAllocator, post: FrameAllocator, frame: u64) -> bool {
    &&& post.total() == pre.total()
    &&& frame / 4096 < MAX_FRAMES ==> {
        &&& post.allocated() == pre.allocated() - 1
        &&& forall|m: int|
            0 <= m < MAX_FRAMES ==> #[trigger] post.is_allocated(m) == (m != frame / 4096
                && pre.is_allocated(m))
    }
    &&& frame / 4096 >= MAX_FRAMES ==> {
        &&& post.allocated() == pre.allocated()
        &&& forall|m: int| #[trigger] post.is_allocated(m) == pre.is_allocated(m)
    }
}

/// Releasing the frame that `allocate` has just handed out gives back the
/// allocator's earlier state: the same frames marked, the same count and
/// the same total.
pub proof fn lemma_deallocate_undoes_allocate(
    a: FrameAllocator,
    b: FrameAllocator,
    c: FrameAllocator,
    addr: u64,
)
    requires
        a.wf(),
        allocate_post(a, b, Some(addr)),
        deallocate_post(b, c, addr),
    ensures
        c.total() == a.total(),
        c.allocated() == a.allocated(),
        forall|m: int| 0 <= m < MAX_FRAMES ==> #[trigger] c.is_allocated(m) == a.is_allocated(m),
{
    let n = choose|n: int|
        {
            &&& 0 <= n < a.total()
            &&& addr == n * 4096
            &&& !a.is_allocated(n)
            &&& (forall|m: int| 0 <= m < n ==> a.is_allocated(m))
            &&& (forall|m: int|
                0 <= m < MAX_FRAMES ==> #[trigger] b.is_allocated(m) == (m == n || a.is_allocated(
                    m,
                )))
            &&& b.allocated() == a.allocated() + 1
        };
    assert(a.total() <= MAX_FRAMES);
    assert(addr / 4096 == n);
    assert forall|m: int| 0 <= m < MAX_FRAMES implies #[trigger] c.is_allocated(m) == a.is_allocated(m) by {
        assert(c.is_allocated(m) == (m != n && b.is_allocated(m)));
        assert(b.is_allocated(m) == (m == n || a.is_allocated(m)));
    }
}

/// Bitmap-based frame allocator.
pub struct FrameAllocator {
    /// Bitmap tracking allocated frames (1 = allocated, 0 = free).
    bitmap: Vec<u64>,
    /// Total number of frames.
    total_frames: usize,
    /// Number of allocated frames.
    allocated_frames: usize,
}

/// Statistics about frame allocation.
#[derive(Debug, Clone, Copy)]
pub struct FrameStats {
    pub total_frames: usize,
    pub allocated_frames: usize,
    pub free_frames: usize,
    pub total_memory: u64,
    pub allocated_memory: u64,
}

proof fn lemma_set_bit(w: u64, b: u64, j: u64)
    requires
        b < 64,
        j < 64,
    ensures
        word_bit(w | (1u64 << b), j) == (j == b || word_bit(w, j)),
{
    assert((w | (1u64 << b)) & (1u64 << j) != 0 <==> (j == b || w & (1u64 << j) != 0))
        by (bit_vector)
        requires
            b < 64,
            j < 64,
    ;
}

proof fn lemma_clear_bit(w: u64, b: u64, j: u64)
    requires
        b < 64,
        j < 64,
    ensures
        word_bit(w & !(1u64 << b), j) == (j != b && word_bit(w, j)),
{
    assert((w & !(1u64 << b)) & (1u64 << j) != 0 <==> (j != b && w & (1u64 << j) != 0))
        by (bit_vector)
        requires
            b < 64,
            j < 64,
    ;
}

proof fn lemma_full_word(j: u64)
    requires
        j < 64,
    ensures
        word_bit(0xffff_ffff_ffff_ffffu64, j),
        !word_bit(0u64, j),
{
    assert(0xffff_ffff_ffff_ffffu64 & (1u64 << j) != 0) by (bit_vector)
        requires
            j < 64,
    ;
    assert(0u64 & (1u64 << j) == 0) by (bit_vector);
}

impl FrameAllocator {
    /// The allocator's invariant: the bitmap has its full length and the
    /// frame count is within range.
    pub closed spec fn wf(&self) -> bool {
        &&& self.bitmap@.len() == BITMAP_WORDS
        &&& self.total_frames <= MAX_FRAMES
    }

    /// Whether frame `n` is marked allocated.
    pub closed spec fn is_allocated(&self, n: int) -> bool {
        bitmap_bit(self.bitmap@, n)
    }

    /// Total number of frames that may be handed out.
    pub closed spec fn total(&self) -> nat {
        self.total_frames as nat
    }

    /// Number of frames counted as allocated.
    pub closed spec fn allocated(&self) -> nat {
        self.allocated_frames as nat
    }

    /// Create a new frame allocator: no frame marked, no frame available.
    pub fn new() -> (r: Self)
        ensures
            r.wf(),
            r.total() == 0,
            r.allocated() == 0,
            forall|n: int| 0 <= n < MAX_FRAMES ==> !#[trigger] r.is_allocated(n),
    {
        let mut bitmap: Vec<u64> = Vec::new();
        let mut i: usize = 0;
        while i < BITMAP_WORDS
            invariant
                i <= BITMAP_WORDS,
                bitmap@.len() == i,
                forall|k: int| 0 <= k < i ==> bitmap@[k] == 0u64,
            decreases BITMAP_WORDS - i,
        {
            bitmap.push(0u64);
            i = i + 1;
        }
        let r = FrameAllocator { bitmap, total_frames: 0, allocated_frames: 0 };
        assert forall|n: int| 0 <= n < MAX_FRAMES implies !#[trigger] r.is_allocated(n) by {
            lemma_full_word((n % 64) as u64);
        }
        r
    }

    /// Set the number of frames from the usable regions of the memory map,
    /// capped at `MAX_FRAMES`.
    pub fn init_from_bootinfo(&mut self, memory_map: &[MemoryRegion])
        requires
            old(self).wf(),
            regions_well_ordered(memory_map@),
            usable_frames(memory_map@) <= usize::MAX,
        ensures
            final(self).wf(),
            final(self).total() == if usable_frames(memory_map@) < MAX_FRAMES {
                usable_frames(memory_map@)
            } else {
                MAX_FRAMES as int
            },
            final(self).allocated() == old(self).allocated(),
            forall|n: int| #[trigger]
                final(self).is_allocated(n) == old(self).is_allocated(n),
    {
        let mut frame_count: usize = 0;
        let mut i: usize = 0;
        proof {
            lemma_usable_frames_monotone(memory_map@);
        }
        while i < memory_map.len()
            invariant
                i <= memory_map@.len(),
                regions_well_ordered(memory_map@),
                usable_frames(memory_map@) <= usize::MAX,
                forall|k: int|
                    0 <= k <= memory_map@.len() ==> usable_frames(#[trigger] memory_map@.subrange(0, k))
                        <= usable_frames(memory_map@),
                frame_count == usable_frames(memory_map@.subrange(0, i as int)),
            decreases memory_map@.len() - i,
        {
            let region = memory_map[i];
            assert(memory_map@.subrange(0, i + 1).drop_last() =~= memory_map@.subrange(0, i as int));
            assert(memory_map@.subrange(0, i + 1).last() == region);
            if region.region_type == MemoryRegionType::Usable {
                let start_frame = region.start / FRAME_SIZE;
                let end_frame = region.end / FRAME_SIZE;
                assert(usable_frames(memory_map@.subrange(0, i + 1)) <= usable_frames(memory_map@));
                frame_count = frame_count + (end_frame - start_frame) as usize;
            }
            i = i + 1;
        }
        assert(memory_map@.subrange(0, memory_map@.len() as int) =~= memory_map@);
        self.total_frames = if frame_count < MAX_FRAMES {
            frame_count
        } else {
            MAX_FRAMES
        };
    }

    /// Allocate the lowest free frame and return its start address.
    ///
    /// Frames at or beyond the total that the scan passes are marked too;
    /// when no frame below the total is free, every bit ends up set.
    pub fn allocate(&mut self) -> (r: Option<u64>)
        requires
            old(self).wf(),
            old(self).allocated() < usize::MAX,
        ensures
            final(self).wf(),
            allocate_post(*old(self), *final(self), r),
    {
        let total = self.total_frames;
        let ghost old_bm = self.bitmap@;
        let mut word_idx: usize = 0;
        while word_idx < BITMAP_WORDS
            invariant
                word_idx <= BITMAP_WORDS,
                self.bitmap@.len() == BITMAP_WORDS,
                old_bm.len() == BITMAP_WORDS,
                total == self.total_frames,
                self.total_frames == old(self).total_frames,
                self.total_frames <= MAX_FRAMES,
                self.allocated_frames == old(self).allocated_frames,
                self.allocated_frames < usize::MAX,
                old_bm == old(self).bitmap@,
                forall|v: int|
                    0 <= v < word_idx ==> all_bits_set(#[trigger] self.bitmap@[v])
                        && free_bits_beyond(old_bm[v], v * 64, total as int),
                forall|v: int| word_idx <= v < BITMAP_WORDS ==> #[trigger] self.bitmap@[v] == old_bm[v],
            decreases BITMAP_WORDS - word_idx,
        {
            let word = self.bitmap[word_idx];
            let ghost before = self.bitmap@;
            let (new_word, found) = claim_in_word(word, word_idx * 64, total);
            self.bitmap.set(word_idx, new_word);
            match found {
                Some(bit) => {
                    self.allocated_frames = self.allocated_frames + 1;
                    let frame_num = word_idx * 64 + bit as usize;
                    let addr = (frame_num as u64) * FRAME_SIZE;
                    proof {
                        lemma_allocate_some(
                            self.bitmap@,
                            before,
                            old_bm,
                            word_idx as int,
                            bit,
                            word,
                            total as int,
                        );
                        let n = frame_num as int;
                        assert(addr == n * 4096);
                        assert(!old(self).is_allocated(n));
                        assert(forall|m: int| 0 <= m < n ==> old(self).is_allocated(m));
                        assert(forall|m: int|
                            0 <= m < MAX_FRAMES ==> #[trigger] self.is_allocated(m) == (m == n
                                || old(self).is_allocated(m)));
                    }
                    return Some(addr);
                },
                None => {
                    assert(self.bitmap@[word_idx as int] == new_word);
                    assert forall|v: int|
                        0 <= v < word_idx + 1 implies all_bits_set(#[trigger] self.bitmap@[v])
                            && free_bits_beyond(old_bm[v], v * 64, total as int) by {
                        if v < word_idx {
                            assert(self.bitmap@[v] == before[v]);
                        }
                    }
                },
            }
            word_idx = word_idx + 1;
        }
        proof {
            assert forall|m: int| 0 <= m < MAX_FRAMES implies #[trigger] self.is_allocated(m) by {
                let v = m / 64;
                let b = (m % 64) as u64;
                assert(all_bits_set(self.bitmap@[v]));
                assert(word_bit(self.bitmap@[v], b));
            }
            assert forall|m: int|
                0 <= m < MAX_FRAMES && !old(self).is_allocated(m) implies m >= old(self).total() by {
                let v = m / 64;
                let b = (m % 64) as u64;
                assert(all_bits_set(self.bitmap@[v]));
                assert(free_bits_beyond(old_bm[v], v * 64, total as int));
                assert(!word_bit(old_bm[v], b));
            }
        }
        None
    }

    /// Release the frame that starts at `frame`.
    ///
    /// Frames beyond the bitmap are ignored; otherwise the frame's bit is
    /// cleared and the allocation count drops by one.
    pub fn deallocate(&mut self, frame: u64)
        requires
            old(self).wf(),
            frame / 4096 < MAX_FRAMES ==> old(self).allocated() > 0,
        ensures
            final(self).wf(),
            deallocate_post(*old(self), *final(self), frame),
    {
        let frame_num = frame / FRAME_SIZE;
        if frame_num < MAX_FRAMES as u64 {
            let n = frame_num as usize;
            let word_idx = n / 64;
            let bit_idx = (n % 64) as u64;
            let ghost prev = self.bitmap@;
            let w = self.bitmap[word_idx] & !(1u64 << bit_idx);
            self.bitmap.set(word_idx, w);
            self.allocated_frames = self.allocated_frames - 1;
            proof {
                assert forall|m: int|
                    0 <= m < MAX_FRAMES implies #[trigger] self.is_allocated(m) == (m != frame / 4096
                        && old(self).is_allocated(m)) by {
                    let v = m / 64;
                    let b = (m % 64) as u64;
                    if v == word_idx {
                        lemma_clear_bit(prev[v], bit_idx, b);
                    } else {
                        assert(self.bitmap@[v] == prev[v]);
                    }
                }
            }
        }
    }

    /// The number of frames managed.
    pub fn total_frames(&self) -> (r: usize)
        ensures
            r == self.total(),
    {
        self.total_frames
    }

    /// The number of frames counted as allocated.
    pub fn allocated_frames(&self) -> (r: usize)
        ensures
            r == self.allocated(),
    {
        self.allocated_frames
    }

    /// Statistics about frame usage.
    pub fn stats(&self) -> (r: FrameStats)
        requires
            self.wf(),
            self.allocated() <= self.total(),
        ensures
            r.total_frames == self.total(),
            r.allocated_frames == self.allocated(),
            r.free_frames == self.total() - self.allocated(),
            r.total_memory == self.total() * 4096,
            r.allocated_memory == self.allocated() * 4096,
    {
        FrameStats {
            total_frames: self.total_frames,
            allocated_frames: self.allocated_frames,
            free_frames: self.total_frames - self.allocated_frames,
            total_memory: self.total_frames as u64 * FRAME_SIZE,
            allocated_memory: self.allocated_frames as u64 * FRAME_SIZE,
        }
    }
}

/// Every bit of `w` is set.
pub open spec fn all_bits_set(w: u64) -> bool {
    forall|b: u64| b < 64 ==> #[trigger] word_bit(w, b)
}

/// Every clear bit of `w` belongs to a frame (`base` + bit) at or beyond `total`.
pub open spec fn free_bits_beyond(w: u64, base: int, total: int) -> bool {
    forall|b: u64| b < 64 && !#[trigger] word_bit(w, b) ==> base + b >= total
}

/// The bits of `w` below `bit` are set, the clear ones of `word` among
/// them belonging to frames at or beyond `total`; the bits from `bit` on are
/// those of `word`.
spec fn claim_progress(w: u64, word: u64, bit: u64, base: int, total: int) -> bool {
    &&& forall|b: u64|
        #![trigger word_bit(w, b)]
        b < bit ==> word_bit(w, b) && (!word_bit(word, b) ==> base + b >= total)
    &&& forall|b: u64| bit <= b < 64 ==> #[trigger] word_bit(w, b) == word_bit(word, b)
}

/// A set bit is passed over.
proof fn lemma_claim_step_kept(w: u64, word: u64, bit: u64, base: int, total: int)
    requires
        bit < 64,
        claim_progress(w, word, bit, base, total),
        word_bit(w, bit),
    ensures
        claim_progress(w, word, (bit + 1) as u64, base, total),
{
    assert(word_bit(w, bit) == word_bit(word, bit));
    assert forall|b: u64| b < bit + 1 implies #[trigger] word_bit(w, b) && (!word_bit(word, b)
        ==> base + b >= total) by {
        if b < bit {
            assert(word_bit(w, b) && (!word_bit(word, b) ==> base + b >= total));
        } else {
            assert(b == bit);
        }
    }
    assert forall|b: u64| (bit + 1) as u64 <= b < 64 implies #[trigger] word_bit(w, b) == word_bit(word, b) by {
        assert(bit <= b);
    }
}

/// A clear bit of a frame at or beyond `total` is marked and passed over.
proof fn lemma_claim_step_set(w: u64, word: u64, bit: u64, base: int, total: int)
    requires
        bit < 64,
        claim_progress(w, word, bit, base, total),
        !word_bit(w, bit),
        base + bit >= total,
    ensures
        claim_progress(w | (1u64 << bit), word, (bit + 1) as u64, base, total),
{
    let w2 = w | (1u64 << bit);
    assert forall|b: u64| b < bit + 1 implies #[trigger] word_bit(w2, b) && (!word_bit(word, b)
        ==> base + b >= total) by {
        lemma_set_bit(w, bit, b);
        if b < bit {
            assert(word_bit(w, b));
        } else {
            assert(word_bit(w, b) == word_bit(word, b));
        }
    }
    assert forall|b: u64| bit + 1 <= b < 64 implies #[trigger] word_bit(w2, b) == word_bit(word, b) by {
        lemma_set_bit(w, bit, b);
    }
}

/// A clear bit of a frame below `total` is the one claimed.
proof fn lemma_claim_found(w: u64, word: u64, bit: u64, base: int, total: int)
    requires
        bit < 64,
        claim_progress(w, word, bit, base, total),
        !word_bit(w, bit),
        base + bit < total,
    ensures
        !word_bit(word, bit),
        forall|b: u64| b < bit ==> #[trigger] word_bit(word, b),
        forall|b: u64|
            b < 64 ==> #[trigger] word_bit(w | (1u64 << bit), b) == (b == bit || word_bit(word, b)),
{
    assert(word_bit(w, bit) == word_bit(word, bit));
    assert forall|b: u64| b < bit implies #[trigger] word_bit(word, b) by {
        assert(word_bit(w, b) && (!word_bit(word, b) ==> base + b >= total));
    }
    assert forall|b: u64| b < 64 implies #[trigger] word_bit(w | (1u64 << bit), b) == (b == bit
        || word_bit(word, b)) by {
        lemma_set_bit(w, bit, b);
        if b < bit {
            assert(word_bit(w, b) && (!word_bit(word, b) ==> base + b >= total));
        } else if b > bit {
            assert(word_bit(w, b) == word_bit(word, b));
        }
    }
}

/// Claims the first free bit of `word` (the word of frames `base..base + 64`).
///
/// Free bits whose frame is at or beyond `total` are marked and passed over;
/// the first free bit whose frame is below `total` is marked and returned.
fn claim_in_word(word: u64, base: usize, total: usize) -> (r: (u64, Option<u64>))
    requires
        base + 64 <= MAX_FRAMES,
    ensures
        match r.1 {
            Some(bit) => {
                &&& bit < 64
                &&& base + bit < total
                &&& !word_bit(word, bit)
                &&& (forall|b: u64| b < bit ==> #[trigger] word_bit(word, b))
                &&& (forall|b: u64|
                    b < 64 ==> #[trigger] word_bit(r.0, b) == (b == bit || word_bit(word, b)))
            },
            None => all_bits_set(r.0) && free_bits_beyond(word, base as int, total as int),
        },
{
    if word == 0xffff_ffff_ffff_ffffu64 {
        proof {
            assert forall|b: u64| b < 64 implies #[trigger] word_bit(word, b) by {
                lemma_full_word(b);
            }
        }
        return (word, None);
    }
    let mut w = word;
    let mut bit: u64 = 0;
    while bit < 64
        invariant
            base + 64 <= MAX_FRAMES,
            bit <= 64,
            claim_progress(w, word, bit, base as int, total as int),
        decreases 64 - bit,
    {
        let ghost prev = w;
        proof {
            assert(word_bit(w, bit) == word_bit(word, bit));
        }
        if w & (1u64 << bit) == 0 {
            w = w | (1u64 << bit);
            if base + (bit as usize) < total {
                proof {
                    lemma_claim_found(prev, word, bit, base as int, total as int);
                }
                return (w, Some(bit));
            }
            proof {
                lemma_claim_step_set(prev, word, bit, base as int, total as int);
            }
        } else {
            proof {
                lemma_claim_step_kept(w, word, bit, base as int, total as int);
            }
        }
        bit = bit + 1;
    }
    proof {
        assert forall|b: u64| b < 64 implies #[trigger] word_bit(w, b) by {
            assert(word_bit(w, b) && (!word_bit(word, b) ==> base + b >= total));
        }
        assert forall|b: u64| b < 64 && !#[trigger] word_bit(word, b) implies base + b >= total by {
            assert(word_bit(w, b) && (!word_bit(word, b) ==> base + b >= total));
        }
    }
    (w, None)
}

proof fn lemma_allocate_some(
    bm: Seq<u64>,
    before: Seq<u64>,
    old_bm: Seq<u64>,
    word_idx: int,
    bit: u64,
    word: u64,
    total: int,
)
    requires
        bm.len() == BITMAP_WORDS,
        before.len() == BITMAP_WORDS,
        old_bm.len() == BITMAP_WORDS,
        0 <= word_idx < BITMAP_WORDS,
        bit < 64,
        word_idx * 64 + bit < total,
        total <= MAX_FRAMES,
        word == old_bm[word_idx],
        bm == before.update(word_idx, bm[word_idx]),
        forall|v: int| word_idx <= v < BITMAP_WORDS ==> #[trigger] before[v] == old_bm[v],
        !word_bit(word, bit),
        forall|b: u64| b < bit ==> #[trigger] word_bit(word, b),
        forall|b: u64| b < 64 ==> #[trigger] word_bit(bm[word_idx], b) == (b == bit || word_bit(word, b)),
        forall|v: int|
            0 <= v < word_idx ==> all_bits_set(#[trigger] before[v]) && free_bits_beyond(
                old_bm[v],
                v * 64,
                total,
            ),
    ensures
        ({
            let n = word_idx * 64 + bit;
            &&& !bitmap_bit(old_bm, n)
            &&& (forall|m: int| 0 <= m < n ==> bitmap_bit(old_bm, m))
            &&& (forall|m: int|
                0 <= m < MAX_FRAMES ==> #[trigger] bitmap_bit(bm, m) == (m == n || bitmap_bit(
                    old_bm,
                    m,
                )))
        }),
{
    let n = word_idx * 64 + bit;
    assert(n / 64 == word_idx);
    assert(n % 64 == bit);
    assert forall|m: int| 0 <= m < n implies bitmap_bit(old_bm, m) by {
        let v = m / 64;
        let b = (m % 64) as u64;
        if v < word_idx {
            assert(all_bits_set(before[v]));
            assert(free_bits_beyond(old_bm[v], v * 64, total));
            assert(word_bit(before[v], b));
            if !word_bit(old_bm[v], b) {
                assert(v * 64 + b >= total);
            }
        } else {
            assert(b < bit);
        }
    }
    assert forall|m: int| 0 <= m < MAX_FRAMES implies #[trigger] bitmap_bit(bm, m) == (m == n
        || bitmap_bit(old_bm, m)) by {
        let v = m / 64;
        let b = (m % 64) as u64;
        if v < word_idx {
            assert(all_bits_set(before[v]));
            assert(free_bits_beyond(old_bm[v], v * 64, total));
            assert(word_bit(before[v], b));
            assert(bm[v] == before[v]);
            if !word_bit(old_bm[v], b) {
                assert(v * 64 + b >= total);
            }
        } else if v == word_idx {
            assert(word_bit(bm[v], b) == (b == bit || word_bit(word, b)));
        } else {
            assert(bm[v] == before[v]);
        }
    }
}

proof fn lemma_usable_frames_monotone(regions: Seq<MemoryRegion>)
    requires
        regions_well_ordered(regions),
    ensures
        forall|k: int|
            0 <= k <= regions.len() ==> usable_frames(#[trigger] regions.subrange(0, k))
                <= usable_frames(regions),
    decreases regions.len(),
{
    if regions.len() > 0 {
        let d = regions.drop_last();
        assert(regions_well_ordered(d)) by {
            assert forall|i: int|
                0 <= i < d.len() && #[trigger] d[i].region_type == MemoryRegionType::Usable implies d[i].start / 4096
                    <= d[i].end / 4096 by {
                assert(d[i] == regions[i]);
            }
        }
        lemma_usable_frames_monotone(d);
        assert forall|k: int|
            0 <= k <= regions.len() implies usable_frames(#[trigger] regions.subrange(0, k))
                <= usable_frames(regions) by {
            if k < regions.len() {
                assert(regions.subrange(0, k) =~= d.subrange(0, k));
            } else {
                assert(regions.subrange(0, k) =~= regions);
            }
        }
        let r = regions.last();
        let l = regions.len() - 1;
        assert(regions[l] == r);
    }
}

/// The frames of a single region: its whole 4 KiB frames from the frame of
/// its start up to the frame of its end when it is usable, none otherwise.
pub proof fn lemma_usable_frames_single(r: MemoryRegion)
    ensures
        usable_frames(seq![r]) == if r.region_type == MemoryRegionType::Usable {
            r.end / 4096 - r.start / 4096
        } else {
            0
        },
{
    assert(seq![r].drop_last() =~= Seq::<MemoryRegion>::empty());
    assert(seq![r].last() == r);
    assert(usable_frames(Seq::<MemoryRegion>::empty()) == 0);
    assert(usable_frames(seq![r]) == usable_frames(seq![r].drop_last()) + if r.region_type
        == MemoryRegionType::Usable {
        (r.end / 4096) - (r.start / 4096)
    } else {
        0
    });
}

/// The usable frames of a memory map are summed over its regions: those of
/// two maps laid end to end are the frames of the one plus the frames of
/// the other.
pub proof fn lemma_usable_frames_additive(a: Seq<MemoryRegion>, b: Seq<MemoryRegion>)
    ensures
        usable_frames(a + b) == usable_frames(a) + usable_frames(b),
    decreases b.len(),
{
    if b.len() == 0 {
        assert(a + b =~= a);
    } else {
        lemma_usable_frames_additive(a, b.drop_last());
        assert((a + b).drop_last() =~= a + b.drop_last());
        assert((a + b).last() == b.last());
    }
}

/// Allocate a frame from the kernel's frame allocator.
pub fn allocate_frame(allocator: &mut FrameAllocator) -> (r: Option<u64>)
    requires
        old(allocator).wf(),
        old(allocator).allocated() < usize::MAX,
    ensures
        final(allocator).wf(),
        allocate_post(*old(allocator), *final(allocator), r),
{
    allocator.allocate()
}

/// Return a frame to the kernel's frame allocator.
pub fn deallocate_frame(allocator: &mut FrameAllocator, frame: u64)
    requires
        old(allocator).wf(),
        frame / 4096 < MAX_FRAMES ==> old(allocator).allocated() > 0,
    ensures
        final(allocator).wf(),
        deallocate_post(*old(allocator), *final(allocator), frame),
{
    allocator.deallocate(frame)
}

/// Statistics of the kernel's frame allocator.
pub fn get_stats(allocator: &FrameAllocator) -> (r: FrameStats)
    requires
        allocator.wf(),
        allocator.allocated() <= allocator.total(),
    ensures
        r.total_frames == allocator.total(),
        r.allocated_frames == allocator.allocated(),
        r.free_frames == allocator.total() - allocator.allocated(),
        r.total_memory == allocator.total() * 4096,
        r.allocated_memory == allocator.allocated() * 4096,
{
    allocator.stats()
}

/// Number of frames below `n` that `a` marks allocated.
pub open spec fn marked_below(a: FrameAllocator, n: int) -> nat
    decreases n,
{
    if n <= 0 {
        0
    } else {
        marked_below(a, n - 1) + if a.is_allocated(n - 1) {
            1nat
        } else {
            0nat
        }
    }
}

/// The count of allocated frames is the number of frames marked below the
/// total: what every allocator keeps that starts fresh, is sized once before
/// it hands out frames, and only ever gets back frames it handed out.
pub open spec fn counts_consistent(a: FrameAllocator) -> bool {
    a.allocated() == marked_below(a, a.total() as int)
}

proof fn lemma_marked_below_bound(a: FrameAllocator, n: int)
    requires
        n >= 0,
    ensures
        marked_below(a, n) <= n,
    decreases n,
{
    if n > 0 {
        lemma_marked_below_bound(a, n - 1);
    }
}

proof fn lemma_marked_below_same(a: FrameAllocator, b: FrameAllocator, n: int)
    requires
        forall|m: int| 0 <= m < n ==> a.is_allocated(m) == b.is_allocated(m),
    ensures
        marked_below(a, n) == marked_below(b, n),
    decreases n,
{
    if n > 0 {
        lemma_marked_below_same(a, b, n - 1);
        assert(a.is_allocated(n - 1) == b.is_allocated(n - 1));
    }
}

proof fn lemma_marked_below_change(a: FrameAllocator, b: FrameAllocator, n: int, k: int)
    requires
        0 <= k < n,
        forall|m: int| 0 <= m < n && m != k ==> a.is_allocated(m) == b.is_allocated(m),
    ensures
        marked_below(b, n) + (if a.is_allocated(k) { 1int } else { 0int }) == marked_below(a, n) + (
        if b.is_allocated(k) {
            1int
        } else {
            0int
        }),
    decreases n,
{
    if n - 1 == k {
        lemma_marked_below_same(a, b, n - 1);
    } else {
        lemma_marked_below_change(a, b, n - 1, k);
        assert(a.is_allocated(n - 1) == b.is_allocated(n - 1));
    }
}

/// A consistent allocator never counts more frames allocated than it has.
pub proof fn lemma_consistent_bounded(a: FrameAllocator)
    requires
        counts_consistent(a),
    ensures
        a.allocated() <= a.total(),
{
    lemma_marked_below_bound(a, a.total() as int);
}

/// A new allocator, sized from the memory map before it hands out any frame,
/// is consistent: `a` is what `new` gives and `b` what `init_from_bootinfo`
/// makes of it.
pub proof fn lemma_fresh_consistent(a: FrameAllocator, b: FrameAllocator)
    requires
        a.allocated() == 0,
        forall|n: int| 0 <= n < MAX_FRAMES ==> !#[trigger] a.is_allocated(n),
        b.total() <= MAX_FRAMES,
        b.allocated() == a.allocated(),
        forall|n: int| #[trigger] b.is_allocated(n) == a.is_allocated(n),
    ensures
        counts_consistent(b),
{
    let z = b.total() as int;
    assert forall|m: int| 0 <= m < z implies !b.is_allocated(m) by {
        assert(!a.is_allocated(m));
    }
    lemma_marked_below_none(b, z);
}

proof fn lemma_marked_below_none(a: FrameAllocator, n: int)
    requires
        forall|m: int| 0 <= m < n ==> !a.is_allocated(m),
    ensures
        marked_below(a, n) == 0,
    decreases n,
{
    if n > 0 {
        lemma_marked_below_none(a, n - 1);
    }
}

proof fn lemma_marked_below_all(a: FrameAllocator, n: int)
    requires
        n >= 0,
        forall|m: int| 0 <= m < n ==> a.is_allocated(m),
    ensures
        marked_below(a, n) == n,
    decreases n,
{
    if n > 0 {
        lemma_marked_below_all(a, n - 1);
    }
}

/// `allocate` keeps the count consistent: `b` is what it makes of `a`.
pub proof fn lemma_allocate_consistent(a: FrameAllocator, b: FrameAllocator, r: Option<u64>)
    requires
        a.wf(),
        counts_consistent(a),
        allocate_post(a, b, r),
    ensures
        counts_consistent(b),
{
    let t = a.total() as int;
    match r {
        Some(addr) => {
            let n = choose|n: int|
                {
                    &&& 0 <= n < a.total()
                    &&& addr == n * 4096
                    &&& !a.is_allocated(n)
                    &&& (forall|m: int| 0 <= m < n ==> a.is_allocated(m))
                    &&& (forall|m: int|
                        0 <= m < MAX_FRAMES ==> #[trigger] b.is_allocated(m) == (m == n
                            || a.is_allocated(m)))
                    &&& b.allocated() == a.allocated() + 1
                };
            assert forall|m: int| 0 <= m < t && m != n implies a.is_allocated(m) == b.is_allocated(m) by {
                assert(b.is_allocated(m) == (m == n || a.is_allocated(m)));
            }
            assert(b.is_allocated(n));
            lemma_marked_below_change(a, b, t, n);
        },
        None => {
            assert forall|m: int| 0 <= m < t implies a.is_allocated(m) by {
                assert(0 <= m < MAX_FRAMES);
            }
            assert forall|m: int| 0 <= m < t implies b.is_allocated(m) by {
                assert(0 <= m < MAX_FRAMES);
            }
            lemma_marked_below_all(a, t);
            lemma_marked_below_all(b, t);
        },
    }
}

/// `deallocate` of a frame that is marked and below the total keeps the
/// count consistent: `b` is what it makes of `a`.
pub proof fn lemma_deallocate_consistent(a: FrameAllocator, b: FrameAllocator, frame: u64)
    requires
        a.wf(),
        counts_consistent(a),
        frame / 4096 < a.total(),
        a.is_allocated((frame / 4096) as int),
        deallocate_post(a, b, frame),
    ensures
        counts_consistent(b),
{
    let t = a.total() as int;
    let k = (frame / 4096) as int;
    assert forall|m: int| 0 <= m < t && m != k implies a.is_allocated(m) == b.is_allocated(m) by {
        assert(b.is_allocated(m) == (m != frame / 4096 && a.is_allocated(m)));
    }
    assert(!b.is_allocated(k)) by {
        assert(b.is_allocated(k) == (k != frame / 4096 && a.is_allocated(k)));
    }
    lemma_marked_below_change(a, b, t, k);
}

/// A frame just handed out and given back is the next one handed out again,
/// and the counts are those of before: `b` is what `allocate` makes of `a`,
/// `c` what `deallocate` makes of `b`, and `d` what `allocate` makes of `c`.
pub proof fn lemma_realloc_same_frame(
    a: FrameAllocator,
    b: FrameAllocator,
    c: FrameAllocator,
    d: FrameAllocator,
    addr: u64,
    r: Option<u64>,
)
    requires
        a.wf(),
        allocate_post(a, b, Some(addr)),
        deallocate_post(b, c, addr),
        allocate_post(c, d, r),
    ensures
        r == Some(addr),
        c.total() == a.total(),
        c.allocated() == a.allocated(),
{
    lemma_deallocate_undoes_allocate(a, b, c, addr);
    let n = choose|n: int|
        {
            &&& 0 <= n < a.total()
            &&& addr == n * 4096
            &&& !a.is_allocated(n)
            &&& (forall|m: int| 0 <= m < n ==> a.is_allocated(m))
            &&& (forall|m: int|
                0 <= m < MAX_FRAMES ==> #[trigger] b.is_allocated(m) == (m == n || a.is_allocated(
                    m,
                )))
            &&& b.allocated() == a.allocated() + 1
        };
    assert(a.total() <= MAX_FRAMES);
    assert(!c.is_allocated(n));
    match r {
        Some(addr2) => {
            let n2 = choose|n2: int|
                {
                    &&& 0 <= n2 < c.total()
                    &&& addr2 == n2 * 4096
                    &&& !c.is_allocated(n2)
                    &&& (forall|m: int| 0 <= m < n2 ==> c.is_allocated(m))
                    &&& (forall|m: int|
                        0 <= m < MAX_FRAMES ==> #[trigger] d.is_allocated(m) == (m == n2
                            || c.is_allocated(m)))
                    &&& d.allocated() == c.allocated() + 1
                };
            if n2 < n {
                assert(a.is_allocated(n2));
                assert(c.is_allocated(n2) == a.is_allocated(n2));
            } else if n2 > n {
                assert(c.is_allocated(n));
            }
            assert(n2 == n);
        },
        None => {
            assert(!c.is_allocated(n) ==> n >= c.total());
        },
    }
}

} // verus!
