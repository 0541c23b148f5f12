//! The 64-bit entry format of 4-level paging, and tables of such entries.
//!
//! An entry packs the physical base address of a frame (bits 12 to 51)
//! together with a set of flags (bits 0 to 8 and bit 63). The two bit ranges
//! never overlap, and an entry is only ever written as a whole.

use super::frame_distributer::FrameAllocator;
use super::mapper::Mapper;
use super::types::FRAME_SIZE;
use vstd::prelude::*;

verus! {

/// Bits 12 to 51 of an entry: the physical base address of a frame.
pub const ADDRESS_MASK: u64 = 0x000f_ffff_ffff_f000;

/// Every bit that stands for a flag: bits 0 to 8 and bit 63.
pub const FLAGS_MASK: u64 = 0x8000_0000_0000_01ff;

/// One past the largest physical address that an entry can name.
pub const ADDRESS_LIMIT: u64 = 0x0010_0000_0000_0000;

/// The number of entries in a table.
pub const ENTRY_COUNT: usize = 512;

/// Bit 0: the entry maps something.
pub const PRESENT: u64 = 0x1;

/// Bit 1: writes are allowed.
pub const WRITABLE: u64 = 0x2;

/// Bit 2: user mode may access.
pub const USER: u64 = 0x4;

/// Bit 3: writes update both the cache and the frame.
pub const WRITE_THROUGH: u64 = 0x8;

/// Bit 4: the frame is not cached.
pub const DISABLE_CACHE: u64 = 0x10;

/// Bit 5: the entry was read during a translation.
pub const ACCESSED: u64 = 0x20;

/// Bit 6: the frame was written to.
pub const DIRTY: u64 = 0x40;

/// Bit 7: the entry maps a large page instead of naming a table.
pub const PAGE_SIZE: u64 = 0x80;

/// Bit 8: the translation survives an address-space switch.
pub const GLOBAL: u64 = 0x100;

/// Bit 63: instruction fetches are forbidden.
pub const NO_EXECUTE: u64 = 0x8000_0000_0000_0000;

/// Whether `addr` can be stored in an entry: frame aligned and below
/// `ADDRESS_LIMIT`, so that it occupies bits 12 to 51 only.
pub open spec fn spec_is_entry_address(addr: u64) -> bool {
    addr % FRAME_SIZE == 0 && addr < ADDRESS_LIMIT
}

/// Whether `addr` can be stored in an entry: frame aligned and below
/// `ADDRESS_LIMIT`, so that it occupies bits 12 to 51 only.
#[verifier::when_used_as_spec(spec_is_entry_address)]
pub fn is_entry_address(addr: u64) -> (fits: bool)
    ensures
        fits == spec_is_entry_address(addr),
{
    proof {
        lemma_entry_address_mask(addr);
    }
    addr == addr & ADDRESS_MASK
}

/// The address field of a raw entry.
pub open spec fn address_of(raw: u64) -> u64 {
    raw & ADDRESS_MASK
}

/// The flag bits of a raw entry; every other bit is dropped.
pub open spec fn flag_bits_of(raw: u64) -> u64 {
    raw & FLAGS_MASK
}

/// The raw entry that holds `addr` and the flag bits `flag_bits`.
pub open spec fn pack(addr: u64, flag_bits: u64) -> u64 {
    addr | flag_bits
}

/// A set of entry flags, one bit each.
#[derive(Clone, Copy, Debug, PartialEq, Eq, Structural)]
pub struct EntryFlags {
    bits: u64,
}

impl EntryFlags {
    /// Only flag bits are ever set.
    #[verifier::type_invariant]
    pub open spec fn is_valid(&self) -> bool {
        flag_bits_of(self.bits()) == self.bits()
    }

    /// The set as the bits that it occupies in an entry.
    pub closed spec fn spec_bits(&self) -> u64 {
        self.bits
    }

    /// The set whose bits are the flag bits of `bits`.
    pub closed spec fn spec_from_bits_truncate(bits: u64) -> EntryFlags {
        EntryFlags { bits: flag_bits_of(bits) }
    }

    /// Whether every flag of `other` is in `self`.
    pub open spec fn spec_contains(&self, other: EntryFlags) -> bool {
        self.bits() & other.bits() == other.bits()
    }

    /// The set that holds the flags whose bits are set in `bits`. A bit that
    /// stands for no flag is dropped.
    #[verifier::when_used_as_spec(spec_from_bits_truncate)]
    pub fn from_bits_truncate(bits: u64) -> (flags: EntryFlags)
        ensures
            flags == Self::spec_from_bits_truncate(bits),
            flags.bits() == flag_bits_of(bits),
            flags.is_valid(),
    {
        proof {
            lemma_flag_bits_idempotent(bits);
        }
        EntryFlags { bits: bits & FLAGS_MASK }
    }

    /// The set as the bits that it occupies in an entry.
    #[verifier::when_used_as_spec(spec_bits)]
    pub fn bits(&self) -> (bits: u64)
        ensures
            bits == self.spec_bits(),
            flag_bits_of(bits) == bits,
            self.is_valid(),
    {
        proof {
            use_type_invariant(self);
        }
        self.bits
    }

    /// The set without any flag.
    pub fn empty() -> (flags: EntryFlags)
        ensures
            flags.bits() == 0,
            flags.is_valid(),
    {
        proof {
            lemma_named_flags();
        }
        Self::from_bits_truncate(0)
    }

    /// The set of all ten flags.
    pub fn all() -> (flags: EntryFlags)
        ensures
            flags.bits() == FLAGS_MASK,
            flags.is_valid(),
    {
        proof {
            lemma_named_flags();
        }
        Self::from_bits_truncate(FLAGS_MASK)
    }

    /// The set that holds the present flag alone.
    pub fn present() -> (flags: EntryFlags)
        ensures
            flags.bits() == PRESENT,
            flags.is_valid(),
    {
        proof {
            lemma_named_flags();
        }
        Self::from_bits_truncate(PRESENT)
    }

    /// The set that holds the writable flag alone.
    pub fn writable() -> (flags: EntryFlags)
        ensures
            flags.bits() == WRITABLE,
            flags.is_valid(),
    {
        proof {
            lemma_named_flags();
        }
        Self::from_bits_truncate(WRITABLE)
    }

    /// The set that holds the user-accessible flag alone.
    pub fn user() -> (flags: EntryFlags)
        ensures
            flags.bits() == USER,
            flags.is_valid(),
    {
        proof {
            lemma_named_flags();
        }
        Self::from_bits_truncate(USER)
    }

    /// The set that holds the write-through flag alone.
    pub fn write_through() -> (flags: EntryFlags)
        ensures
            flags.bits() == WRITE_THROUGH,
            flags.is_valid(),
    {
        proof {
            lemma_named_flags();
        }
        Self::from_bits_truncate(WRITE_THROUGH)
    }

    /// The set that holds the cache-disabled flag alone.
    pub fn disable_cache() -> (flags: EntryFlags)
        ensures
            flags.bits() == DISABLE_CACHE,
            flags.is_valid(),
    {
        proof {
            lemma_named_flags();
        }
        Self::from_bits_truncate(DISABLE_CACHE)
    }

    /// The set that holds the accessed flag alone.
    pub fn accessed() -> (flags: EntryFlags)
        ensures
            flags.bits() == ACCESSED,
            flags.is_valid(),
    {
        proof {
            lemma_named_flags();
        }
        Self::from_bits_truncate(ACCESSED)
    }

    /// The set that holds the dirty flag alone.
    pub fn dirty() -> (flags: EntryFlags)
        ensures
            flags.bits() == DIRTY,
            flags.is_valid(),
    {
        proof {
            lemma_named_flags();
        }
        Self::from_bits_truncate(DIRTY)
    }

    /// The set that holds the page-size flag alone.
    pub fn page_size() -> (flags: EntryFlags)
        ensures
            flags.bits() == PAGE_SIZE,
            flags.is_valid(),
    {
        proof {
            lemma_named_flags();
        }
        Self::from_bits_truncate(PAGE_SIZE)
    }

    /// The set that holds the global flag alone.
    pub fn global() -> (flags: EntryFlags)
        ensures
            flags.bits() == GLOBAL,
            flags.is_valid(),
    {
        proof {
            lemma_named_flags();
        }
        Self::from_bits_truncate(GLOBAL)
    }

    /// The set that holds the no-execute flag alone.
    pub fn no_execute() -> (flags: EntryFlags)
        ensures
            flags.bits() == NO_EXECUTE,
            flags.is_valid(),
    {
        proof {
            lemma_named_flags();
        }
        Self::from_bits_truncate(NO_EXECUTE)
    }

    /// Whether no flag is set.
    pub fn is_empty(&self) -> (empty: bool)
        ensures
            empty == (self.bits() == 0),
    {
        self.bits == 0
    }

    /// Whether every flag of `other` is in `self`.
    #[verifier::when_used_as_spec(spec_contains)]
    pub fn contains(&self, other: EntryFlags) -> (found: bool)
        ensures
            found == self.spec_contains(other),
    {
        (self.bits & other.bits) == other.bits
    }

    /// The flags that are in `self`, in `other`, or in both.
    pub fn union(self, other: EntryFlags) -> (flags: EntryFlags)
        ensures
            flags.bits() == self.bits() | other.bits(),
            flags.is_valid(),
    {
        let a = self.bits();
        let b = other.bits();
        proof {
            lemma_flag_bits_union(a, b);
        }
        EntryFlags { bits: a | b }
    }
}

impl core::ops::BitOr for EntryFlags {
    type Output = EntryFlags;

    /// The union of the two sets.
    fn bitor(self, rhs: EntryFlags) -> (flags: EntryFlags)
        ensures
            flags.bits() == self.bits() | rhs.bits(),
            flags.is_valid(),
    {
        self.union(rhs)
    }
}

impl vstd::std_specs::ops::BitOrSpecImpl for EntryFlags {
    open spec fn obeys_bitor_spec() -> bool {
        true
    }

    open spec fn bitor_req(self, rhs: EntryFlags) -> bool {
        true
    }

    open spec fn bitor_spec(self, rhs: EntryFlags) -> EntryFlags {
        Self::spec_from_bits_truncate(self.bits() | rhs.bits())
    }
}

/// One slot of a table: either "not present" or the address of a frame
/// together with the flags that govern access to it. Its view is the 64-bit
/// value that the hardware reads.
#[derive(Debug)]
pub struct Entry {
    entry: u64,
}

impl View for Entry {
    type V = u64;

    closed spec fn view(&self) -> u64 {
        self.entry
    }
}

impl Entry {
    /// The address that the entry holds.
    pub open spec fn spec_addr(&self) -> u64 {
        address_of(self@)
    }

    /// The flags that the entry holds.
    pub open spec fn spec_flags(&self) -> EntryFlags {
        EntryFlags::spec_from_bits_truncate(self@)
    }

    /// Whether the present bit of the entry is set.
    pub open spec fn spec_is_present(&self) -> bool {
        self@ & PRESENT == PRESENT
    }

    /// An entry that is not present: all bits are zero.
    pub fn new() -> (entry: Entry)
        ensures
            entry@ == 0,
            entry.addr() == 0,
            entry.flags().bits() == 0,
            !entry.is_present(),
    {
        proof {
            lemma_zero_entry();
        }
        Entry { entry: 0 }
    }

    /// The physical address in bits 12 to 51.
    #[verifier::when_used_as_spec(spec_addr)]
    pub fn addr(&self) -> (addr: u64)
        ensures
            addr == self.spec_addr(),
            is_entry_address(addr),
    {
        proof {
            lemma_address_of_is_entry_address(self.entry);
        }
        self.entry & ADDRESS_MASK
    }

    /// The flags of the entry. Bits outside the address that stand for no
    /// flag are dropped.
    #[verifier::when_used_as_spec(spec_flags)]
    pub fn flags(&self) -> (flags: EntryFlags)
        ensures
            flags == self.spec_flags(),
            flags.bits() == flag_bits_of(self@),
    {
        EntryFlags::from_bits_truncate(self.entry)
    }

    /// Overwrites the entry with `addr` and `flags` together. The address
    /// must fit the address field, so that no bit of it is lost or read as a
    /// flag.
    pub fn set_entry(&mut self, addr: u64, flags: EntryFlags)
        requires
            is_entry_address(addr),
        ensures
            final(self)@ == pack(addr, flags.bits()),
            final(self).addr() == addr,
            final(self).flags() == flags,
            final(self).is_present() == (flags.bits() & PRESENT == PRESENT),
    {
        let bits = flags.bits();
        proof {
            lemma_pack_unpack(addr, bits);
            lemma_present_bit(addr | bits);
            lemma_present_bit(bits);
            lemma_named_flags();
        }
        self.entry = addr | bits;
    }

    /// Whether the present flag is set.
    #[verifier::when_used_as_spec(spec_is_present)]
    pub fn is_present(&self) -> (present: bool)
        ensures
            present == self.spec_is_present(),
    {
        proof {
            lemma_present_bit(self.entry);
            lemma_named_flags();
        }
        self.flags().contains(EntryFlags::present())
    }
}

/// One level of the translation tree: 512 entries, which fill one frame.
pub struct Table {
    pub entries: [Entry; ENTRY_COUNT],
}

/// Why a range was not mapped, or not to its end.
#[derive(Clone, Copy, Debug, PartialEq, Eq, Structural)]
pub enum MmapError {
    /// The starting address is not a multiple of the frame size.
    Misaligned,
    /// The allocator had no frame left for the page with index `mapped`; the
    /// pages before it are mapped, and their frames stay in use.
    OutOfFrames { mapped: usize },
}

/// One mapping to install: the page, the frame behind it, and the flags.
#[derive(Clone, Copy, Debug, PartialEq, Eq, Structural)]
pub struct MapRequest {
    pub page_addr: u64,
    pub physical_addr: u64,
    pub flags: EntryFlags,
}

/// The number of pages that a range of `length` bytes touches when it starts
/// at a page boundary: `length` divided by the page size, rounded up.
pub open spec fn spec_page_count(length: usize) -> usize {
    ((length + FRAME_SIZE - 1) / (FRAME_SIZE as int)) as usize
}

/// The address of page `index` of a range that starts at `linear_addr`.
pub open spec fn page_address(linear_addr: u64, index: usize) -> int {
    linear_addr + index * FRAME_SIZE
}

/// The number of pages that a range of `length` bytes touches when it starts
/// at a page boundary: `length` divided by the page size, rounded up.
#[verifier::when_used_as_spec(spec_page_count)]
pub fn page_count(length: usize) -> (count: usize)
    ensures
        count == spec_page_count(length),
        count * FRAME_SIZE >= length,
        count > 0 ==> (count - 1) * FRAME_SIZE < length,
        (count == 0) == (length == 0),
{
    let whole = length / 4096;
    if length % 4096 == 0 {
        whole
    } else {
        whole + 1
    }
}

/// What to do for page `index` of the range that starts at `linear_addr`
/// once the allocator has answered with `frame`. A frame gives the request
/// to map the page to it, present and writable and nothing else; no frame
/// ends the mapping with `OutOfFrames` after `index` pages.
pub fn plan_mapping(linear_addr: u64, index: usize, frame: Option<u64>) -> (step: Result<
    MapRequest,
    MmapError,
>)
    requires
        page_address(linear_addr, index) <= u64::MAX,
    ensures
        match frame {
            Some(physical_addr) => step matches Ok(request) && request.page_addr == page_address(
                linear_addr,
                index,
            ) && request.physical_addr == physical_addr && request.flags.bits() == PRESENT
                | WRITABLE,
            None => step == Err::<MapRequest, MmapError>(MmapError::OutOfFrames { mapped: index }),
        },
{
    match frame {
        Some(physical_addr) => Ok(
            MapRequest {
                page_addr: linear_addr + (index as u64) * FRAME_SIZE,
                physical_addr,
                flags: EntryFlags::present() | EntryFlags::writable(),
            },
        ),
        None => Err(MmapError::OutOfFrames { mapped: index }),
    }
}

/// Maps the `length` bytes from `linear_addr` on to fresh frames. The pages
/// are taken in the order of their addresses; for each, one frame is asked
/// of `frame_allocator` and handed to `mapper` as `plan_mapping` says. The
/// first page without a frame ends the call; nothing is given back. `Ok`
/// carries the number of pages mapped. A start that is not frame aligned is
/// refused before either of the two is touched.
pub fn mmap<M: Mapper, A: FrameAllocator>(
    linear_addr: u64,
    length: usize,
    mapper: &mut M,
    frame_allocator: &mut A,
) -> (result: Result<usize, MmapError>)
    requires
        linear_addr + length <= u64::MAX,
    ensures
        linear_addr % FRAME_SIZE != 0 <==> result == Err::<usize, MmapError>(MmapError::Misaligned),
        result matches Ok(mapped) ==> mapped == page_count(length),
        result matches Err(MmapError::OutOfFrames { mapped }) ==> mapped < page_count(length),
        linear_addr % FRAME_SIZE == 0 && length == 0 ==> result == Ok::<usize, MmapError>(0),
        linear_addr % FRAME_SIZE != 0 || length == 0 ==> *final(mapper) == *old(mapper)
            && *final(frame_allocator) == *old(frame_allocator),
{
    if linear_addr % FRAME_SIZE != 0 {
        return Err(MmapError::Misaligned);
    }
    let count = page_count(length);
    let mut mapped: usize = 0;
    while mapped < count
        invariant
            mapped <= count,
            count == page_count(length),
            count > 0 ==> (count - 1) * FRAME_SIZE < length,
            linear_addr + length <= u64::MAX,
            linear_addr % FRAME_SIZE == 0,
            count == 0 ==> *mapper == *old(mapper) && *frame_allocator == *old(frame_allocator),
        decreases count - mapped,
    {
        let frame = frame_allocator.allocate_frame();
        match plan_mapping(linear_addr, mapped, frame) {
            Ok(request) => {
                mapper.map(
                    request.page_addr,
                    request.physical_addr,
                    frame_allocator,
                    request.flags,
                );
            },
            Err(error) => {
                return Err(error);
            },
        }
        mapped += 1;
    }
    Ok(mapped)
}

/// The pages of a range that starts at a page boundary: each lies inside the
/// range and at a page boundary itself, and a larger index gives a larger
/// address. The last page covers the end of the range.
pub proof fn lemma_page_addresses(linear_addr: u64, length: usize, low: usize, high: usize)
    requires
        linear_addr % FRAME_SIZE == 0,
        low <= high < page_count(length),
    ensures
        linear_addr <= page_address(linear_addr, low) <= page_address(linear_addr, high)
            < linear_addr + length,
        low < high ==> page_address(linear_addr, low) + FRAME_SIZE <= page_address(
            linear_addr,
            high,
        ),
        page_address(linear_addr, high) % (FRAME_SIZE as int) == 0,
        page_address(linear_addr, (page_count(length) - 1) as usize) + FRAME_SIZE >= linear_addr
            + length,
{
}

/// An address fits the address field exactly when masking leaves it unchanged.
pub proof fn lemma_entry_address_mask(addr: u64)
    ensures
        is_entry_address(addr) <==> address_of(addr) == addr,
{
    assert((addr % 4096 == 0 && addr < 0x0010_0000_0000_0000) <==> addr & 0x000f_ffff_ffff_f000
        == addr) by (bit_vector);
}

/// What is read from the address field of any entry fits it.
pub proof fn lemma_address_of_is_entry_address(raw: u64)
    ensures
        is_entry_address(address_of(raw)),
{
    let a = raw & 0x000f_ffff_ffff_f000;
    assert(a % 4096 == 0 && a < 0x0010_0000_0000_0000) by (bit_vector)
        requires
            a == raw & 0x000f_ffff_ffff_f000,
    ;
}

/// The address field and the flag bits share no bit.
pub proof fn lemma_fields_disjoint()
    ensures
        ADDRESS_MASK & FLAGS_MASK == 0,
{
    assert(0x000f_ffff_ffff_f000u64 & 0x8000_0000_0000_01ff == 0) by (bit_vector);
}

/// Packing an address that fits with a set of flag bits loses nothing:
/// reading the address gives the address back, and reading the flags gives
/// the flags back.
pub proof fn lemma_pack_unpack(addr: u64, flag_bits: u64)
    requires
        is_entry_address(addr),
        flag_bits_of(flag_bits) == flag_bits,
    ensures
        address_of(pack(addr, flag_bits)) == addr,
        flag_bits_of(pack(addr, flag_bits)) == flag_bits,
{
    lemma_entry_address_mask(addr);
    assert((addr | flag_bits) & 0x000f_ffff_ffff_f000 == addr && (addr | flag_bits)
        & 0x8000_0000_0000_01ff == flag_bits) by (bit_vector)
        requires
            addr & 0x000f_ffff_ffff_f000 == addr,
            flag_bits & 0x8000_0000_0000_01ff == flag_bits,
    ;
}

/// An address that does not fit the address field cannot be read back: some
/// bit of it is lost or lands among the flags.
pub proof fn lemma_misfit_is_not_read_back(addr: u64, flag_bits: u64)
    requires
        !is_entry_address(addr),
    ensures
        address_of(pack(addr, flag_bits)) != addr,
{
    lemma_entry_address_mask(addr);
    assert((addr | flag_bits) & 0x000f_ffff_ffff_f000 != addr) by (bit_vector)
        requires
            addr & 0x000f_ffff_ffff_f000 != addr,
    ;
}

/// The present bit of an entry is the present bit of its flags.
pub proof fn lemma_present_bit(raw: u64)
    ensures
        (flag_bits_of(raw) & PRESENT == PRESENT) <==> (raw & PRESENT == PRESENT),
{
    assert(((raw & 0x8000_0000_0000_01ff) & 0x1 == 0x1) <==> (raw & 0x1 == 0x1)) by (bit_vector);
}

/// The all-zero entry holds address zero, no flag, and is not present.
pub proof fn lemma_zero_entry()
    ensures
        address_of(0) == 0,
        flag_bits_of(0) == 0,
        0u64 & PRESENT != PRESENT,
{
    assert(0u64 & 0x000f_ffff_ffff_f000 == 0 && 0u64 & 0x8000_0000_0000_01ff == 0 && 0u64 & 0x1
        != 0x1) by (bit_vector);
}

/// A set made from raw bits holds exactly the flag bits among them.
pub proof fn lemma_truncated_bits(bits: u64)
    ensures
        EntryFlags::from_bits_truncate(bits).bits() == flag_bits_of(bits),
        EntryFlags::from_bits_truncate(bits).is_valid(),
{
    lemma_flag_bits_idempotent(bits);
}

/// Two sets are the same set exactly when their bits are the same.
pub proof fn lemma_flags_by_bits(a: EntryFlags, b: EntryFlags)
    ensures
        a == b <==> a.bits() == b.bits(),
{
}

/// Dropping the bits that stand for no flag a second time changes nothing.
pub proof fn lemma_flag_bits_idempotent(bits: u64)
    ensures
        flag_bits_of(flag_bits_of(bits)) == flag_bits_of(bits),
{
    assert((bits & 0x8000_0000_0000_01ff) & 0x8000_0000_0000_01ff == bits & 0x8000_0000_0000_01ff)
        by (bit_vector);
}

/// The union of two sets of flag bits is a set of flag bits.
pub proof fn lemma_flag_bits_union(a: u64, b: u64)
    requires
        flag_bits_of(a) == a,
        flag_bits_of(b) == b,
    ensures
        flag_bits_of(a | b) == a | b,
{
    assert((a | b) & 0x8000_0000_0000_01ff == a | b) by (bit_vector)
        requires
            a & 0x8000_0000_0000_01ff == a,
            b & 0x8000_0000_0000_01ff == b,
    ;
}

/// Each named flag, the empty set and the full set consist of flag bits only.
pub proof fn lemma_named_flags()
    ensures
        flag_bits_of(0) == 0,
        flag_bits_of(FLAGS_MASK) == FLAGS_MASK,
        flag_bits_of(PRESENT) == PRESENT,
        flag_bits_of(WRITABLE) == WRITABLE,
        flag_bits_of(USER) == USER,
        flag_bits_of(WRITE_THROUGH) == WRITE_THROUGH,
        flag_bits_of(DISABLE_CACHE) == DISABLE_CACHE,
        flag_bits_of(ACCESSED) == ACCESSED,
        flag_bits_of(DIRTY) == DIRTY,
        flag_bits_of(PAGE_SIZE) == PAGE_SIZE,
        flag_bits_of(GLOBAL) == GLOBAL,
        flag_bits_of(NO_EXECUTE) == NO_EXECUTE,
        FLAGS_MASK == PRESENT | WRITABLE | USER | WRITE_THROUGH | DISABLE_CACHE | ACCESSED | DIRTY
            | PAGE_SIZE | GLOBAL | NO_EXECUTE,
        PRESENT | WRITABLE == 0x3,
{
    assert(0u64 & 0x8000_0000_0000_01ff == 0 && 0x8000_0000_0000_01ffu64 & 0x8000_0000_0000_01ff
        == 0x8000_0000_0000_01ff && 0x1u64 & 0x8000_0000_0000_01ff == 0x1 && 0x2u64
        & 0x8000_0000_0000_01ff == 0x2 && 0x4u64 & 0x8000_0000_0000_01ff == 0x4 && 0x8u64
        & 0x8000_0000_0000_01ff == 0x8 && 0x10u64 & 0x8000_0000_0000_01ff == 0x10 && 0x20u64
        & 0x8000_0000_0000_01ff == 0x20 && 0x40u64 & 0x8000_0000_0000_01ff == 0x40 && 0x80u64
        & 0x8000_0000_0000_01ff == 0x80 && 0x100u64 & 0x8000_0000_0000_01ff == 0x100
        && 0x8000_0000_0000_0000u64 & 0x8000_0000_0000_01ff == 0x8000_0000_0000_0000
        && 0x8000_0000_0000_01ffu64 == 0x1u64 | 0x2 | 0x4 | 0x8 | 0x10 | 0x20 | 0x40 | 0x80 | 0x100
        | 0x8000_0000_0000_0000 && 0x1u64 | 0x2 == 0x3) by (bit_vector);
}

} // verus!
