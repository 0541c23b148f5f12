//! Regions of physical memory: contiguous runs of free frames, which shrink
//! from the front as frames are handed out and split into blocks whose sizes
//! are powers of two.

use vstd::arithmetic::div_mod::{
    lemma_div_basics, lemma_div_denominator, lemma_mod_breakdown, lemma_mod_decreases,
    lemma_small_mod,
};
use vstd::arithmetic::power2::{
    lemma2_to64, lemma_pow2_pos, lemma_pow2_strictly_increases, lemma_pow2_unfold, pow2,
};
use vstd::bits::{lemma_u64_shl_is_mul, lemma_u64_shr_is_div};
use vstd::prelude::*;

verus! {

/// The size of a frame in bytes.
pub const FRAME_SIZE: u64 = 4096;

/// The number of bits in a frame count, and so the number of blocks that a
/// region splits into.
pub const INTEGER_SIZE: usize = 64;

/// A range of frame numbers; the upper bound is exclusive.
#[derive(Clone, Copy, Debug, PartialEq, Eq, Structural)]
pub struct FrameRange {
    /// The number of the first frame in the range.
    pub start_frame_number: u64,
    /// The number of the first frame behind the range.
    pub end_frame_number: u64,
}

impl FrameRange {
    /// The range from frame 0 to frame 0, which stands for "no range".
    pub open spec fn spec_invalid() -> FrameRange {
        FrameRange { start_frame_number: 0, end_frame_number: 0 }
    }

    /// The range from frame 0 to frame 0, which stands for "no range".
    #[verifier::when_used_as_spec(spec_invalid)]
    pub fn invalid() -> (range: FrameRange)
        ensures
            range == Self::spec_invalid(),
    {
        FrameRange { start_frame_number: 0, end_frame_number: 0 }
    }
}

/// The range of the frames that the bytes from `start_addr` up to, but
/// without, `end_addr` touch.
pub open spec fn frames_touched(start_addr: u64, end_addr: u64) -> FrameRange {
    FrameRange {
        start_frame_number: start_addr / FRAME_SIZE,
        end_frame_number: ((end_addr - 1) / (FRAME_SIZE as int) + 1) as u64,
    }
}

/// Calls `bootloader::bootinfo::FrameRange::new` and copies the two frame
/// numbers of its result. That function divides the start address by the
/// frame size for the first frame, and takes the frame of the last byte,
/// `end_addr - 1`, plus one for the end. It subtracts without a check, so an
/// end address of zero is left out.
#[verifier::external_body]
fn frames_of_addresses(start_addr: u64, end_addr: u64) -> (range: FrameRange)
    requires
        end_addr >= 1,
    ensures
        range == frames_touched(start_addr, end_addr),
{
    let range = bootloader::bootinfo::FrameRange::new(start_addr, end_addr);
    FrameRange {
        start_frame_number: range.start_frame_number,
        end_frame_number: range.end_frame_number,
    }
}

/// A contiguous run of free frames, with the number of its frames kept
/// beside the range.
#[derive(Debug, PartialEq, Eq, Structural)]
pub struct MemoryRegion {
    /// The range of frames that belong to the region.
    pub range: FrameRange,
    /// The number of frames inside the region.
    pub size: usize,
}

impl MemoryRegion {
    /// The kept frame count is the length of the range.
    pub open spec fn wf(&self) -> bool {
        &&& self.range.start_frame_number <= self.range.end_frame_number
        &&& self.size == self.range.end_frame_number - self.range.start_frame_number
    }

    /// The empty region: no range and no frame.
    pub open spec fn spec_default() -> MemoryRegion {
        MemoryRegion { range: FrameRange::spec_invalid(), size: 0 }
    }

    /// The region of the frames that the bytes from `start_addr` up to
    /// `end_addr` touch; the empty region where the addresses are equal or
    /// inverted, or where the number of frames does not fit a `usize`.
    pub open spec fn spec_new(start_addr: u64, end_addr: u64) -> MemoryRegion {
        let range = frames_touched(start_addr, end_addr);
        if start_addr < end_addr && range.end_frame_number - range.start_frame_number
            <= usize::MAX {
            MemoryRegion {
                range,
                size: (range.end_frame_number - range.start_frame_number) as usize,
            }
        } else {
            Self::spec_default()
        }
    }

    /// The region after the frames below `free_frame_number` are used up.
    pub open spec fn shrunk(&self, free_frame_number: u64) -> MemoryRegion {
        if free_frame_number > self.range.end_frame_number {
            Self::spec_default()
        } else if self.range.start_frame_number < free_frame_number && free_frame_number
            < self.range.end_frame_number {
            MemoryRegion {
                range: FrameRange {
                    start_frame_number: free_frame_number,
                    end_frame_number: self.range.end_frame_number,
                },
                size: (self.range.end_frame_number - free_frame_number) as usize,
            }
        } else {
            *self
        }
    }

    /// Whether bit `index` of the frame count `size` is set, that is,
    /// whether a split of `size` frames holds a block of `pow2(index)` frames.
    pub open spec fn has_block(size: nat, index: nat) -> bool {
        (size / pow2(index)) % 2 == 1
    }

    /// The number of frames in block `index` of a split of `size` frames:
    /// `pow2(index)` where the block is there, zero where it is not.
    pub open spec fn block_size(size: nat, index: nat) -> nat {
        if Self::has_block(size, index) {
            pow2(index)
        } else {
            0
        }
    }

    /// The number of frames that lie before block `index` in a split of
    /// `size` frames: the part of `size` below bit `index`.
    pub open spec fn block_offset(size: nat, index: nat) -> nat {
        size % pow2(index)
    }

    /// The number of frames in the blocks below `index` of a split of `size`
    /// frames, block by block.
    pub open spec fn blocks_before(size: nat, index: nat) -> nat
        decreases index,
    {
        if index == 0 {
            0
        } else {
            Self::blocks_before(size, (index - 1) as nat) + Self::block_size(
                size,
                (index - 1) as nat,
            )
        }
    }

    /// Block `index` of the region: where bit `index` of the frame count is
    /// set, the `pow2(index)` frames that follow the smaller blocks; the
    /// invalid range where it is not.
    pub open spec fn subregion(&self, index: nat) -> FrameRange {
        if Self::has_block(self.size as nat, index) {
            let start = self.range.start_frame_number + Self::block_offset(self.size as nat, index);
            FrameRange {
                start_frame_number: start as u64,
                end_frame_number: (start + pow2(index)) as u64,
            }
        } else {
            FrameRange::spec_invalid()
        }
    }

    /// The region of the frames that the bytes from `start_frame_address` up
    /// to, but without, `end_frame_address` touch. Always `Some`: where the
    /// two addresses are equal or inverted, the region is the empty one.
    pub fn new(start_frame_address: u64, end_frame_address: u64) -> (region: Option<MemoryRegion>)
        ensures
            region == Some(Self::spec_new(start_frame_address, end_frame_address)),
            region.unwrap().wf(),
    {
        if start_frame_address >= end_frame_address {
            return Some(MemoryRegion::default());
        }
        let range = frames_of_addresses(start_frame_address, end_frame_address);
        let count = range.end_frame_number - range.start_frame_number;
        if count > usize::MAX as u64 {
            return Some(MemoryRegion::default());
        }
        Some(MemoryRegion { range, size: count as usize })
    }

    /// Uses up the frames below `free_frame_number`. A frame number strictly
    /// inside the region becomes its new start; one beyond its end empties
    /// the region; any other leaves it as it is.
    pub fn resize_region_range(&mut self, free_frame_number: u64)
        requires
            old(self).wf(),
        ensures
            *final(self) == old(self).shrunk(free_frame_number),
            final(self).wf(),
    {
        if free_frame_number > self.range.end_frame_number {
            *self = MemoryRegion::default();
        } else if self.range.start_frame_number < free_frame_number && free_frame_number
            < self.range.end_frame_number {
            self.range.start_frame_number = free_frame_number;
            self.size = (self.range.end_frame_number - free_frame_number) as usize;
        }
    }

    /// Splits the region into blocks whose sizes are powers of two, one slot
    /// for each bit of the frame count. Slot `i` holds a block of `pow2(i)`
    /// frames where bit `i` of the count is set, and the invalid range where
    /// it is not. The blocks follow one another from the start of the
    /// region, the smallest first. They are aligned to the region's start,
    /// not to their own size.
    pub fn get_subregions(&self) -> (subregions: [FrameRange; INTEGER_SIZE])
        requires
            self.wf(),
        ensures
            forall|i: int| 0 <= i < INTEGER_SIZE ==> subregions[i] == self.subregion(i as nat),
            self.size == 0 ==> forall|i: int|
                0 <= i < INTEGER_SIZE ==> subregions[i] == FrameRange::invalid(),
    {
        let invalid = FrameRange::invalid();
        let mut subregions = [invalid;INTEGER_SIZE];
        let mut region_size: u64 = self.size as u64;
        let mut offset_frame_number: u64 = self.range.start_frame_number;
        proof {
            lemma2_to64();
            lemma_split_of_nothing();
        }
        let mut i: usize = 0;
        while i < INTEGER_SIZE
            invariant
                i <= INTEGER_SIZE,
                self.wf(),
                region_size == self.size as nat / pow2(i as nat),
                offset_frame_number == self.range.start_frame_number + Self::block_offset(
                    self.size as nat,
                    i as nat,
                ),
                forall|j: int| 0 <= j < i ==> subregions[j] == self.subregion(j as nat),
                forall|j: int| i <= j < INTEGER_SIZE ==> subregions[j] == FrameRange::invalid(),
            decreases INTEGER_SIZE - i,
        {
            let bit = region_size & 1;
            proof {
                lemma_split_step(self.size as nat, i as nat);
                lemma_shift_of_bit(region_size, i as u64);
            }
            let subregion_size = bit << (i as u64);
            region_size = region_size >> 1;
            assert(subregion_size == Self::block_size(self.size as nat, i as nat));
            if subregion_size != 0 {
                subregions[i] = FrameRange {
                    start_frame_number: offset_frame_number,
                    end_frame_number: offset_frame_number + subregion_size,
                };
                offset_frame_number = offset_frame_number + subregion_size;
            }
            assert(subregions[i as int] == self.subregion(i as nat));
            i += 1;
        }
        subregions
    }
}

impl core::default::Default for MemoryRegion {
    /// The empty region: no range and no frame.
    fn default() -> (region: MemoryRegion)
        ensures
            region == MemoryRegion::spec_default(),
            region.wf(),
    {
        MemoryRegion { range: FrameRange::invalid(), size: 0 }
    }
}

/// Shrinking by cases: a frame number beyond the end empties the region; one
/// strictly inside it becomes the new start, and the frame count becomes the
/// distance to the end; one at or before the start changes nothing, and
/// neither does the end itself.
pub proof fn lemma_shrunk_cases(region: MemoryRegion, free_frame_number: u64)
    requires
        region.wf(),
    ensures
        free_frame_number > region.range.end_frame_number ==> region.shrunk(free_frame_number)
            == MemoryRegion::spec_default(),
        region.range.start_frame_number < free_frame_number < region.range.end_frame_number ==> {
            let after = region.shrunk(free_frame_number);
            &&& after.range.start_frame_number == free_frame_number
            &&& after.range.end_frame_number == region.range.end_frame_number
            &&& after.size == region.range.end_frame_number - free_frame_number
        },
        free_frame_number <= region.range.start_frame_number ==> region.shrunk(free_frame_number)
            == region,
        free_frame_number == region.range.end_frame_number ==> region.shrunk(free_frame_number)
            == region,
        region.shrunk(free_frame_number).wf(),
{
}

/// Shrinking a region by its own start changes nothing, and shrinking twice
/// by the same frame number is shrinking once.
pub proof fn lemma_shrunk_idempotent(region: MemoryRegion, free_frame_number: u64)
    requires
        region.wf(),
    ensures
        region.shrunk(region.range.start_frame_number) == region,
        region.shrunk(free_frame_number).shrunk(free_frame_number) == region.shrunk(
            free_frame_number,
        ),
{
}

/// A split holds block `index` exactly where bit `index` of the frame count
/// is set.
pub proof fn lemma_has_block_is_bit(size: u64, index: u64)
    requires
        index < 64,
    ensures
        MemoryRegion::has_block(size as nat, index as nat) <==> (size >> index) & 1 == 1,
{
    lemma_u64_shr_is_div(size, index);
    let upper = size >> index;
    assert(upper & 1 == upper % 2) by (bit_vector);
}

/// The blocks below `index` hold, together, the part of the frame count
/// below bit `index`: each block starts where the blocks before it end.
pub proof fn lemma_blocks_before(size: nat, index: nat)
    ensures
        MemoryRegion::blocks_before(size, index) == MemoryRegion::block_offset(size, index),
        MemoryRegion::blocks_before(size, index) <= size,
    decreases index,
{
    if index == 0 {
        lemma2_to64();
    } else {
        lemma_blocks_before(size, (index - 1) as nat);
        lemma_split_step(size, (index - 1) as nat);
    }
}

/// The sizes of the 64 blocks of a region add up to its frame count.
pub proof fn lemma_blocks_cover_region(region: MemoryRegion)
    ensures
        MemoryRegion::blocks_before(region.size as nat, 64) == region.size,
{
    lemma_blocks_before(region.size as nat, 64);
    lemma2_to64();
    lemma_small_mod(region.size as nat, pow2(64));
}

/// Where bit `index` of the frame count is set, block `index` is a range of
/// `pow2(index)` frames inside the region, which starts right behind the
/// blocks below it; where the bit is not set, the slot holds the invalid
/// range.
pub proof fn lemma_subregion_layout(region: MemoryRegion, index: nat)
    requires
        region.wf(),
        index < 64,
    ensures
        MemoryRegion::has_block(region.size as nat, index) ==> {
            let block = region.subregion(index);
            &&& block.start_frame_number == region.range.start_frame_number
                + MemoryRegion::blocks_before(region.size as nat, index)
            &&& block.end_frame_number == block.start_frame_number + pow2(index)
            &&& block.end_frame_number == region.range.start_frame_number
                + MemoryRegion::blocks_before(region.size as nat, index + 1)
            &&& block.end_frame_number <= region.range.end_frame_number
        },
        !MemoryRegion::has_block(region.size as nat, index) ==> region.subregion(index)
            == FrameRange::spec_invalid(),
{
    lemma_blocks_before(region.size as nat, index);
    lemma_blocks_before(region.size as nat, index + 1);
    lemma_split_step(region.size as nat, index);
}

/// The frames before a block grow with its index, and stay the same across
/// slots that hold no block.
pub proof fn lemma_blocks_before_grows(size: nat, low: nat, high: nat)
    requires
        low <= high,
    ensures
        MemoryRegion::blocks_before(size, low) <= MemoryRegion::blocks_before(size, high),
        (forall|k: nat| low <= k < high ==> !MemoryRegion::has_block(size, k))
            ==> MemoryRegion::blocks_before(size, low) == MemoryRegion::blocks_before(size, high),
    decreases high - low,
{
    if low < high {
        lemma_blocks_before_grows(size, low, (high - 1) as nat);
        if forall|k: nat| low <= k < high ==> !MemoryRegion::has_block(size, k) {
            assert(!MemoryRegion::has_block(size, (high - 1) as nat));
            assert forall|k: nat| low <= k < (high - 1) as nat implies !MemoryRegion::has_block(
                size,
                k,
            ) by {}
        }
    }
}

/// Two blocks of a region come in the order of their sizes: the smaller one
/// ends before the larger one starts. Where no block lies between them, the
/// larger one starts exactly where the smaller one ends.
pub proof fn lemma_subregions_in_order(region: MemoryRegion, low: nat, high: nat)
    requires
        region.wf(),
        low < high < 64,
        MemoryRegion::has_block(region.size as nat, low),
        MemoryRegion::has_block(region.size as nat, high),
    ensures
        pow2(low) < pow2(high),
        region.subregion(low).end_frame_number <= region.subregion(high).start_frame_number,
        (forall|k: nat| low < k < high ==> !MemoryRegion::has_block(region.size as nat, k))
            ==> region.subregion(low).end_frame_number == region.subregion(
            high,
        ).start_frame_number,
{
    lemma_pow2_strictly_increases(low, high);
    lemma_subregion_layout(region, low);
    lemma_subregion_layout(region, high);
    lemma_blocks_before_grows(region.size as nat, low + 1, high);
    if forall|k: nat| low < k < high ==> !MemoryRegion::has_block(region.size as nat, k) {
        assert forall|k: nat| low + 1 <= k < high implies !MemoryRegion::has_block(
            region.size as nat,
            k,
        ) by {}
    }
}

/// The lowest bit of a count, moved up to place `index`, is the size of
/// block `index` of the count that `count` is the upper part of; halving
/// `count` drops that bit.
proof fn lemma_shift_of_bit(count: u64, index: u64)
    requires
        index < 64,
    ensures
        count & 1 == count % 2,
        count >> 1 == count / 2,
        (count & 1) << index == (if count % 2 == 1 {
            pow2(index as nat)
        } else {
            0
        }),
        0 < pow2(index as nat) <= u64::MAX,
{
    let bit = count & 1;
    assert(bit == count % 2 && count >> 1 == count / 2 && bit <= 1) by (bit_vector)
        requires
            bit == count & 1,
    ;
    lemma_pow2_below_limit(index as nat);
    assert(bit * pow2(index as nat) <= u64::MAX) by (nonlinear_arith)
        requires
            bit <= 1,
            pow2(index as nat) <= u64::MAX,
    ;
    lemma_u64_shl_is_mul(bit, index);
    assert(bit * pow2(index as nat) == (if bit == 1 {
        pow2(index as nat)
    } else {
        0
    })) by (nonlinear_arith)
        requires
            bit == 0 || bit == 1,
    ;
}

/// A power of two below the 64th fits a `u64`.
proof fn lemma_pow2_below_limit(index: nat)
    requires
        index < 64,
    ensures
        0 < pow2(index) <= u64::MAX,
{
    lemma_pow2_pos(index);
    lemma_pow2_strictly_increases(index, 64);
    lemma2_to64();
}

/// One step of a split: the part of `size` above bit `index + 1` is half
/// the part above bit `index`, and the frames before block `index + 1` are
/// those before block `index` together with block `index`.
pub proof fn lemma_split_step(size: nat, index: nat)
    ensures
        size / pow2(index + 1) == (size / pow2(index)) / 2,
        MemoryRegion::block_offset(size, index + 1) == MemoryRegion::block_offset(size, index)
            + MemoryRegion::block_size(size, index),
        MemoryRegion::block_size(size, index) == ((size / pow2(index)) % 2) * pow2(index),
        MemoryRegion::block_offset(size, index + 1) <= size,
{
    lemma_pow2_pos(index);
    lemma_pow2_pos(index + 1);
    lemma_pow2_unfold(index + 1);
    let p = pow2(index) as int;
    assert(pow2(index + 1) == p * 2);
    lemma_div_denominator(size as int, p, 2);
    lemma_mod_breakdown(size as int, p, 2);
    let bit = (size as int / p) % 2;
    assert(bit == 0 || bit == 1);
    assert(p * bit == MemoryRegion::block_size(size, index)) by (nonlinear_arith)
        requires
            bit == 0 || bit == 1,
            MemoryRegion::block_size(size, index) == (if bit == 1 {
                p
            } else {
                0
            }),
    ;
    assert(bit * p == p * bit) by (nonlinear_arith);
    assert(size % pow2(index + 1) <= size) by {
        lemma_mod_decreases(size, pow2(index + 1));
    }
}

/// A count of zero has no block, and nothing lies before any block.
pub proof fn lemma_split_of_nothing()
    ensures
        forall|index: nat| !MemoryRegion::has_block(0, index),
        forall|index: nat| MemoryRegion::block_offset(0, index) == 0,
{
    assert forall|index: nat| !MemoryRegion::has_block(0, index) && MemoryRegion::block_offset(
        0,
        index,
    ) == 0 by {
        lemma_pow2_pos(index);
        lemma_div_basics(pow2(index) as int);
        lemma_small_mod(0, pow2(index));
    }
}

} // verus!
