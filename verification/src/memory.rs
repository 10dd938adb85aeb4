//! The segmented guest address space: named byte segments with direction,
//! write protection and sparse backing, collected into a memory map with
//! byte/halfword/word load and store primitives.

use vstd::prelude::*;

use crate::errors::{FatalErrorType, RuntimeError};

verus! {

/// Whether a segment grows from its start address toward higher addresses
/// (`Up`) or toward lower addresses (`Down`).
#[derive(Clone, Copy, Debug, PartialEq, Eq, Structural)]
pub enum SegmentDirection {
    Up,
    Down,
}

/// The value of a big-endian halfword assembled from two bytes.
pub open spec fn halfword_of_bytes(hi: u8, lo: u8) -> u16 {
    ((hi as int) * 0x100 + lo as int) as u16
}

/// The value of a big-endian word assembled from four bytes.
pub open spec fn word_of_bytes(b1: u8, b2: u8, b3: u8, b4: u8) -> u32 {
    ((b1 as int) * 0x100_0000 + (b2 as int) * 0x1_0000 + (b3 as int) * 0x100 + b4 as int) as u32
}

/// The shifted-and-or'ed composition used by the executable loads equals the
/// arithmetic composition the specifications are written over.
proof fn lemma_halfword_compose(hi: u8, lo: u8)
    by (bit_vector)
    ensures
        ((hi as u16) << 8u16) | (lo as u16) == halfword_of_bytes(hi, lo),
{
}

/// As `lemma_halfword_compose`, for words.
proof fn lemma_word_compose(b1: u8, b2: u8, b3: u8, b4: u8)
    by (bit_vector)
    ensures
        ((b1 as u32) << 24u32) | ((b2 as u32) << 16u32) | ((b3 as u32) << 8u32) | (b4 as u32)
            == word_of_bytes(b1, b2, b3, b4),
{
}

/// Splitting a halfword into its two big-endian bytes and reassembling them
/// gives the halfword back.
proof fn lemma_halfword_split(value: u16)
    by (bit_vector)
    ensures
        halfword_of_bytes((value >> 8u16) as u8, value as u8) == value,
{
}

/// As `lemma_halfword_split`, for words.
proof fn lemma_word_split(value: u32)
    by (bit_vector)
    ensures
        word_of_bytes(
            (value >> 24u32) as u8,
            (value >> 16u32) as u8,
            (value >> 8u32) as u8,
            value as u8,
        ) == value,
{
}

/// A contiguous range of guest memory.
///
/// The guest may address up to 4 GiB, but allocating that much host memory up
/// front would mostly go to waste. A non-static segment therefore backs only
/// a prefix of its extent and grows on write; bytes that were never written
/// read as zero. A static segment materializes its full extent on creation.
pub struct MemorySegment {
    pub name: String,
    /// The address of the first byte of this segment: the lowest address when
    /// the direction is `Up`, the highest when it is `Down`.
    start_address: usize,
    size: usize,
    pub is_static: bool,
    pub direction: SegmentDirection,
    data: Vec<u8>,
    read_only: bool,
}

impl MemorySegment {
    /// The lowest address belonging to this segment.
    pub closed spec fn low(self) -> int {
        match self.direction {
            SegmentDirection::Up => self.start_address as int,
            SegmentDirection::Down => self.start_address - self.size + 1,
        }
    }

    /// The highest address belonging to this segment.
    pub closed spec fn high(self) -> int {
        match self.direction {
            SegmentDirection::Up => self.start_address + self.size - 1,
            SegmentDirection::Down => self.start_address as int,
        }
    }

    /// Whether `address` lies within this segment's closed range.
    pub open spec fn contains(self, address: int) -> bool {
        self.low() <= address <= self.high()
    }

    /// The byte this segment holds at `address`: a materialized byte of the
    /// backing, or zero beyond the backing's current extent.
    pub closed spec fn byte_at(self, address: int) -> u8 {
        if self.contains(address) && address - self.low() < self.data@.len() {
            self.data@[address - self.low()]
        } else {
            0
        }
    }

    /// The big-endian halfword at `address`.
    pub open spec fn halfword_at(self, address: int) -> u16 {
        halfword_of_bytes(self.byte_at(address), self.byte_at(address + 1))
    }

    /// The big-endian word at `address`.
    pub open spec fn word_at(self, address: int) -> u32 {
        word_of_bytes(
            self.byte_at(address),
            self.byte_at(address + 1),
            self.byte_at(address + 2),
            self.byte_at(address + 3),
        )
    }

    /// Whether the segment rejects writes.
    pub closed spec fn spec_read_only(self) -> bool {
        self.read_only
    }

    /// The segment's name, as a sequence of characters.
    pub closed spec fn spec_name(self) -> Seq<char> {
        self.name@
    }

    /// Whether the segment was created static.
    pub closed spec fn spec_is_static(self) -> bool {
        self.is_static
    }

    /// The segment's direction of growth.
    pub closed spec fn spec_direction(self) -> SegmentDirection {
        self.direction
    }

    /// The declared extent of the segment in bytes.
    pub closed spec fn spec_size(self) -> usize {
        self.size
    }

    /// The segment's start address as given at construction.
    pub closed spec fn spec_start_address(self) -> usize {
        self.start_address
    }

    /// Structural soundness: a non-empty extent whose closed address range
    /// stays within the 32-bit address space, backing no larger than the
    /// extent, and a static segment fully materialized.
    pub closed spec fn wf(self) -> bool {
        &&& self.size >= 1
        &&& self.low() >= 0
        &&& self.high() <= 0xFFFF_FFFF
        &&& self.data@.len() <= self.size
        &&& (self.is_static ==> self.data@.len() == self.size)
    }

    /// Two segments cover the same range with the same name, direction,
    /// protection and staticness; only their backing may differ.
    pub closed spec fn same_shape(self, other: MemorySegment) -> bool {
        &&& self.name@ == other.name@
        &&& self.start_address == other.start_address
        &&& self.size == other.size
        &&& self.is_static == other.is_static
        &&& self.direction == other.direction
        &&& self.read_only == other.read_only
    }

    /// What `same_shape` guarantees, spelt out for callers: everything but
    /// the stored bytes coincides.
    pub proof fn lemma_same_shape(a: MemorySegment, b: MemorySegment)
        requires
            a.same_shape(b),
        ensures
            a.low() == b.low(),
            a.high() == b.high(),
            a.spec_name() == b.spec_name(),
            a.spec_read_only() == b.spec_read_only(),
            a.spec_size() == b.spec_size(),
            a.spec_start_address() == b.spec_start_address(),
            a.spec_is_static() == b.spec_is_static(),
            a.spec_direction() == b.spec_direction(),
    {
    }

    /// Create a segment. A static segment is materialized at its full size and
    /// filled with zeros; a non-static one starts with no backing and grows as
    /// it is written. The range must be non-empty and lie within the 32-bit
    /// address space.
    pub fn new(
        name: String,
        start_address: usize,
        size: usize,
        is_static: bool,
        direction: SegmentDirection,
        read_only: bool,
    ) -> (r: MemorySegment)
        requires
            size >= 1,
            direction == SegmentDirection::Up ==> start_address + size - 1 <= 0xFFFF_FFFF,
            direction == SegmentDirection::Down ==> size - 1 <= start_address <= 0xFFFF_FFFF,
        ensures
            r.wf(),
            r.spec_name() == name@,
            r.spec_start_address() == start_address,
            r.spec_size() == size,
            r.spec_is_static() == is_static,
            r.spec_direction() == direction,
            r.spec_read_only() == read_only,
            direction == SegmentDirection::Up ==> r.low() == start_address && r.high()
                == start_address + size - 1,
            direction == SegmentDirection::Down ==> r.high() == start_address && r.low()
                == start_address - size + 1,
            forall|a: int| r.byte_at(a) == 0,
    {
        MemorySegment {
            name,
            start_address,
            size,
            is_static,
            direction,
            data: if is_static {
                vec![0u8; size]
            } else {
                Vec::new()
            },
            read_only,
        }
    }

    /// Unseal the segment so that writes succeed.
    pub fn allow_writes(&mut self)
        ensures
            !final(self).spec_read_only(),
            final(self).spec_name() == old(self).spec_name(),
            final(self).spec_start_address() == old(self).spec_start_address(),
            final(self).spec_size() == old(self).spec_size(),
            final(self).spec_is_static() == old(self).spec_is_static(),
            final(self).spec_direction() == old(self).spec_direction(),
            forall|a: int| final(self).byte_at(a) == old(self).byte_at(a),
            final(self).wf() == old(self).wf(),
    {
        self.read_only = false;
    }

    /// Seal the segment against writes.
    pub fn set_read_only(&mut self)
        ensures
            final(self).spec_read_only(),
            final(self).spec_name() == old(self).spec_name(),
            final(self).spec_start_address() == old(self).spec_start_address(),
            final(self).spec_size() == old(self).spec_size(),
            final(self).spec_is_static() == old(self).spec_is_static(),
            final(self).spec_direction() == old(self).spec_direction(),
            forall|a: int| final(self).byte_at(a) == old(self).byte_at(a),
            final(self).wf() == old(self).wf(),
    {
        self.read_only = true;
    }

    /// The offset of an in-range address within this segment.
    fn get_offset(&self, address: usize) -> (r: usize)
        requires
            self.wf(),
            self.contains(address as int),
        ensures
            r == address - self.low(),
    {
        address - self.get_low_address()
    }

    /// The byte at an in-range address; zero if it was never written.
    pub fn get_byte(&self, address: usize) -> (r: u8)
        requires
            self.wf(),
            self.contains(address as int),
        ensures
            r == self.byte_at(address as int),
    {
        let offset = self.get_offset(address);
        if offset >= self.data.len() {
            0
        } else {
            self.data[offset]
        }
    }

    /// The big-endian halfword at an address whose two-byte span is in range.
    pub fn get_halfword(&self, address: usize) -> (r: u16)
        requires
            self.wf(),
            self.contains(address as int),
            self.contains(address + 1),
        ensures
            r == self.halfword_at(address as int),
    {
        let hi = self.get_byte(address) as u16;
        let lo = self.get_byte(address + 1) as u16;
        proof {
            lemma_halfword_compose(
                self.byte_at(address as int),
                self.byte_at(address + 1),
            );
        }
        (hi << 8u16) | lo
    }

    /// The big-endian word at an address whose four-byte span is in range.
    pub fn get_word(&self, address: usize) -> (r: u32)
        requires
            self.wf(),
            self.contains(address as int),
            self.contains(address + 3),
        ensures
            r == self.word_at(address as int),
    {
        let b1 = self.get_byte(address) as u32;
        let b2 = self.get_byte(address + 1) as u32;
        let b3 = self.get_byte(address + 2) as u32;
        let b4 = self.get_byte(address + 3) as u32;
        proof {
            lemma_word_compose(
                self.byte_at(address as int),
                self.byte_at(address + 1),
                self.byte_at(address + 2),
                self.byte_at(address + 3),
            );
        }
        (b1 << 24u32) | (b2 << 16u32) | (b3 << 8u32) | b4
    }

    /// Write the byte at an in-range address. Fails on a read-only segment
    /// and changes nothing then; otherwise materializes backing up to the
    /// offset as needed and stores the byte.
    pub fn set_byte(&mut self, address: usize, value: u8) -> (r: Result<(), RuntimeError>)
        requires
            old(self).wf(),
            old(self).contains(address as int),
        ensures
            final(self).wf(),
            final(self).same_shape(*old(self)),
            r is Ok <==> !old(self).spec_read_only(),
            r is Ok ==> final(self).byte_at(address as int) == value,
            r is Ok ==> forall|a: int|
                a != address ==> final(self).byte_at(a) == old(self).byte_at(a),
            r is Err ==> *final(self) == *old(self) && (r matches Err(e)
                && e.err_type == FatalErrorType::IllegalMemoryAccess),
    {
        let offset = self.get_offset(address);

        if self.read_only {
            return Err(
                RuntimeError::new(
                    FatalErrorType::IllegalMemoryAccess,
                    "attempted to write to read-only segment".to_owned(),
                ),
            );
        }
        // A static segment is fully materialized, so an in-range offset never
        // falls beyond its backing; only non-static segments grow here.
        if offset >= self.data.len() {
            self.data.resize(offset + 1, 0);
        }
        self.data[offset] = value;

        Ok(())
    }

    /// Write the big-endian halfword at an address whose two-byte span is in
    /// range. Fails without changing anything if the address is not two-byte
    /// aligned or the segment is read-only.
    pub fn set_halfword(&mut self, address: usize, value: u16) -> (r: Result<(), RuntimeError>)
        requires
            old(self).wf(),
            old(self).contains(address as int),
            old(self).contains(address + 1),
        ensures
            final(self).wf(),
            final(self).same_shape(*old(self)),
            r is Ok <==> address % 2 == 0 && !old(self).spec_read_only(),
            r is Ok ==> final(self).halfword_at(address as int) == value,
            r is Ok ==> forall|a: int|
                a != address && a != address + 1 ==> final(self).byte_at(a) == old(self).byte_at(
                    a,
                ),
            r is Err ==> *final(self) == *old(self) && (r matches Err(e)
                && e.err_type == FatalErrorType::IllegalMemoryAccess),
    {
        if address % 2 != 0 {
            return Err(
                RuntimeError::new(
                    FatalErrorType::IllegalMemoryAccess,
                    "attempted to write halfword to unaligned address".to_owned(),
                ),
            );
        }
        if self.read_only {
            return Err(
                RuntimeError::new(
                    FatalErrorType::IllegalMemoryAccess,
                    "attempted to write to read-only segment".to_owned(),
                ),
            );
        }

        let hi = (value >> 8u16) as u8;
        let lo = value as u8;

        let _ = self.set_byte(address, hi);
        let _ = self.set_byte(address + 1, lo);

        proof {
            lemma_halfword_split(value);
        }
        Ok(())
    }

    /// Write the big-endian word at an address whose four-byte span is in
    /// range. Fails without changing anything if the address is not four-byte
    /// aligned or the segment is read-only.
    pub fn set_word(&mut self, address: usize, value: u32) -> (r: Result<(), RuntimeError>)
        requires
            old(self).wf(),
            old(self).contains(address as int),
            old(self).contains(address + 3),
        ensures
            final(self).wf(),
            final(self).same_shape(*old(self)),
            r is Ok <==> address % 4 == 0 && !old(self).spec_read_only(),
            r is Ok ==> final(self).word_at(address as int) == value,
            r is Ok ==> forall|a: int|
                !(address <= a <= address + 3) ==> final(self).byte_at(a) == old(self).byte_at(
                    a,
                ),
            r is Err ==> *final(self) == *old(self) && (r matches Err(e)
                && e.err_type == FatalErrorType::IllegalMemoryAccess),
    {
        if address % 4 != 0 {
            return Err(
                RuntimeError::new(
                    FatalErrorType::IllegalMemoryAccess,
                    "attempted to write word to unaligned address".to_owned(),
                ),
            );
        }
        if self.read_only {
            return Err(
                RuntimeError::new(
                    FatalErrorType::IllegalMemoryAccess,
                    "attempted to write to read-only segment".to_owned(),
                ),
            );
        }

        let b1 = (value >> 24u32) as u8;
        let b2 = (value >> 16u32) as u8;
        let b3 = (value >> 8u32) as u8;
        let b4 = value as u8;

        let _ = self.set_byte(address, b1);
        let _ = self.set_byte(address + 1, b2);
        let _ = self.set_byte(address + 2, b3);
        let _ = self.set_byte(address + 3, b4);

        proof {
            lemma_word_split(value);
        }
        Ok(())
    }

    /// The start address given at construction: the low end of an `Up`
    /// segment, the high end of a `Down` one.
    pub fn get_start_address(&self) -> (r: usize)
        ensures
            r == self.spec_start_address(),
    {
        self.start_address
    }

    /// The declared extent of the segment in bytes.
    pub fn get_size(&self) -> (r: usize)
        ensures
            r == self.spec_size(),
    {
        self.size
    }

    /// The highest address belonging to this segment.
    pub fn get_high_address(&self) -> (r: usize)
        requires
            self.wf(),
        ensures
            r == self.high(),
    {
        if matches!(self.direction, SegmentDirection::Up) {
            (self.size - 1) + self.start_address
        } else {
            self.start_address
        }
    }

    /// The lowest address belonging to this segment.
    pub fn get_low_address(&self) -> (r: usize)
        requires
            self.wf(),
        ensures
            r == self.low(),
    {
        if matches!(self.direction, SegmentDirection::Up) {
            self.start_address
        } else {
            self.start_address - (self.size - 1)
        }
    }
}


/// Whether the closed address ranges of two segments intersect.
pub open spec fn ranges_overlap(a: MemorySegment, b: MemorySegment) -> bool {
    a.low() <= b.high() && b.low() <= a.high()
}

/// A collection of non-overlapping segments covering parts of the guest
/// address space, with byte/halfword/word load and store primitives that
/// find the segment responsible for an address.
pub struct MemoryMap {
    segments: Vec<MemorySegment>,
}

impl MemoryMap {
    /// The segments of this map, in insertion order.
    pub closed spec fn segs(self) -> Seq<MemorySegment> {
        self.segments@
    }

    /// Every segment is well-formed and no two overlap, so every address
    /// belongs to at most one segment.
    pub open spec fn wf(self) -> bool {
        &&& forall|i: int| 0 <= i < self.segs().len() ==> (#[trigger] self.segs()[i]).wf()
        &&& forall|i: int, j: int|
            0 <= i < self.segs().len() && 0 <= j < self.segs().len() && i != j ==> !ranges_overlap(
                #[trigger] self.segs()[i],
                #[trigger] self.segs()[j],
            )
    }

    /// Whether some segment covers `address`.
    pub open spec fn has_addr(self, address: int) -> bool {
        exists|i: int| 0 <= i < self.segs().len() && (#[trigger] self.segs()[i]).contains(address)
    }

    /// The index of the segment covering `address`; meaningful only when
    /// `has_addr` holds, and then unique because segments do not overlap.
    pub open spec fn seg_index_at(self, address: int) -> int {
        choose|i: int| 0 <= i < self.segs().len() && (#[trigger] self.segs()[i]).contains(address)
    }

    /// The segment covering `address`.
    pub open spec fn seg_at(self, address: int) -> MemorySegment {
        self.segs()[self.seg_index_at(address)]
    }

    /// The byte the map holds at `address`: the covering segment's byte, or
    /// zero where no segment covers the address.
    pub open spec fn byte_at(self, address: int) -> u8 {
        if self.has_addr(address) {
            self.seg_at(address).byte_at(address)
        } else {
            0
        }
    }

    /// The big-endian halfword at `address`.
    pub open spec fn halfword_at(self, address: int) -> u16 {
        halfword_of_bytes(self.byte_at(address), self.byte_at(address + 1))
    }

    /// The big-endian word at `address`.
    pub open spec fn word_at(self, address: int) -> u32 {
        word_of_bytes(
            self.byte_at(address),
            self.byte_at(address + 1),
            self.byte_at(address + 2),
            self.byte_at(address + 3),
        )
    }

    /// Whether the `n` bytes from `address` on lie within one segment.
    pub open spec fn spans(self, address: int, n: int) -> bool {
        self.has_addr(address) && self.seg_at(address).contains(address + n - 1)
    }

    /// Whether a write of `n` bytes at `address` is admissible: the span lies
    /// within one segment and that segment accepts writes.
    pub open spec fn writable_span(self, address: int, n: int) -> bool {
        self.spans(address, n) && !self.seg_at(address).spec_read_only()
    }

    /// The maps have equally many segments and corresponding segments have
    /// the same shape; only stored bytes may differ.
    pub open spec fn same_layout(self, other: MemoryMap) -> bool {
        &&& self.segs().len() == other.segs().len()
        &&& forall|i: int|
            0 <= i < self.segs().len() ==> (#[trigger] self.segs()[i]).same_shape(other.segs()[i])
    }

    /// Whether some segment bears the name `n`.
    pub open spec fn has_name(self, n: Seq<char>) -> bool {
        exists|i: int| 0 <= i < self.segs().len() && (#[trigger] self.segs()[i]).spec_name() == n
    }

    /// The index of the first segment named `n`; meaningful only when
    /// `has_name` holds, and then uniquely determined.
    pub open spec fn first_name_index(self, n: Seq<char>) -> int {
        choose|i: int|
            0 <= i < self.segs().len() && (#[trigger] self.segs()[i]).spec_name() == n && forall|
                j: int,
            | 0 <= j < i ==> self.segs()[j].spec_name() != n
    }

    /// Any index that carries the name and is preceded by no other such index
    /// is the one `first_name_index` picks.
    proof fn lemma_first_name_index(self, n: Seq<char>, i: int)
        requires
            0 <= i < self.segs().len(),
            self.segs()[i].spec_name() == n,
            forall|j: int| 0 <= j < i ==> self.segs()[j].spec_name() != n,
        ensures
            self.has_name(n),
            self.first_name_index(n) == i,
    {
        assert(self.has_name(n));
        let c = self.first_name_index(n);
        if c != i {
            if c < i {
                assert(self.segs()[c].spec_name() != n);
            } else {
                assert(self.segs()[i].spec_name() != n);
            }
        }
    }

    /// In a well-formed map the covering segment of an address is unique, so
    /// any witness index is the one `seg_index_at` picks.
    pub proof fn lemma_seg_index_unique(self, address: int, i: int)
        requires
            self.wf(),
            0 <= i < self.segs().len(),
            self.segs()[i].contains(address),
        ensures
            self.has_addr(address),
            self.seg_index_at(address) == i,
    {
        assert(self.has_addr(address));
        let j = self.seg_index_at(address);
        if j != i {
            assert(ranges_overlap(self.segs()[i], self.segs()[j]));
        }
    }

    /// The map's byte at an address covered by segment `i` is that segment's
    /// byte.
    pub proof fn lemma_byte_at_via(self, address: int, i: int)
        requires
            self.wf(),
            0 <= i < self.segs().len(),
            self.segs()[i].contains(address),
        ensures
            self.has_addr(address),
            self.seg_index_at(address) == i,
            self.byte_at(address) == self.segs()[i].byte_at(address),
    {
        self.lemma_seg_index_unique(address, i);
    }

    /// Replacing segment `i` by one of the same shape that differs at most in
    /// the bytes of `[lo, hi]` preserves well-formedness, the layout, address
    /// coverage, and every byte outside `[lo, hi]`.
    proof fn lemma_update_preserves(oldm: MemoryMap, newm: MemoryMap, i: int, lo: int, hi: int)
        requires
            oldm.wf(),
            0 <= i < oldm.segs().len(),
            newm.segs().len() == oldm.segs().len(),
            forall|j: int|
                0 <= j < oldm.segs().len() && j != i ==> newm.segs()[j] == oldm.segs()[j],
            newm.segs()[i].wf(),
            newm.segs()[i].same_shape(oldm.segs()[i]),
            forall|a: int|
                !(lo <= a <= hi) ==> newm.segs()[i].byte_at(a) == oldm.segs()[i].byte_at(a),
        ensures
            newm.wf(),
            newm.same_layout(oldm),
            forall|a: int| newm.has_addr(a) == oldm.has_addr(a),
            forall|a: int| !(lo <= a <= hi) ==> newm.byte_at(a) == oldm.byte_at(a),
    {
        MemorySegment::lemma_same_shape(newm.segs()[i], oldm.segs()[i]);
        assert forall|a: int| newm.has_addr(a) == oldm.has_addr(a) by {
            if newm.has_addr(a) {
                let k = newm.seg_index_at(a);
                assert(oldm.segs()[k].contains(a));
                assert(oldm.has_addr(a));
            }
            if oldm.has_addr(a) {
                let k = oldm.seg_index_at(a);
                assert(newm.segs()[k].contains(a));
                assert(newm.has_addr(a));
            }
        }
        assert forall|a: int| !(lo <= a <= hi) implies newm.byte_at(a) == oldm.byte_at(a) by {
            if oldm.has_addr(a) {
                let k = oldm.seg_index_at(a);
                oldm.lemma_byte_at_via(a, k);
                newm.lemma_byte_at_via(a, k);
            }
        }
    }

    /// Maps that hold equal segment sequences hold equal bytes at every
    /// address and cover the same addresses.
    pub proof fn lemma_equal_segs_equal_bytes(a: MemoryMap, b: MemoryMap)
        requires
            a.wf(),
            b.segs() == a.segs(),
        ensures
            forall|x: int| b.has_addr(x) == a.has_addr(x),
            forall|x: int| b.byte_at(x) == a.byte_at(x),
    {
        assert forall|x: int| b.has_addr(x) == a.has_addr(x) by {
            if a.has_addr(x) {
                let i = a.seg_index_at(x);
                assert(b.segs()[i].contains(x));
            }
            if b.has_addr(x) {
                let i = b.seg_index_at(x);
                assert(a.segs()[i].contains(x));
            }
        }
        assert forall|x: int| b.byte_at(x) == a.byte_at(x) by {
            if a.has_addr(x) {
                let i = a.seg_index_at(x);
                a.lemma_byte_at_via(x, i);
                b.lemma_byte_at_via(x, i);
            }
        }
    }

    /// Maps of the same layout cover the same addresses with the same spans
    /// and the same write permissions; only their bytes may differ.
    pub proof fn lemma_same_layout_preserves(a: MemoryMap, b: MemoryMap)
        requires
            a.wf(),
            b.wf(),
            b.same_layout(a),
        ensures
            forall|x: int| b.has_addr(x) == a.has_addr(x),
            forall|x: int, n: int| b.spans(x, n) == a.spans(x, n),
            forall|x: int, n: int| b.writable_span(x, n) == a.writable_span(x, n),
    {
        assert forall|x: int| b.has_addr(x) == a.has_addr(x) by {
            if a.has_addr(x) {
                let i = a.seg_index_at(x);
                MemorySegment::lemma_same_shape(b.segs()[i], a.segs()[i]);
                assert(b.segs()[i].contains(x));
            }
            if b.has_addr(x) {
                let i = b.seg_index_at(x);
                MemorySegment::lemma_same_shape(b.segs()[i], a.segs()[i]);
                assert(a.segs()[i].contains(x));
            }
        }
        assert forall|x: int, n: int| b.spans(x, n) == a.spans(x, n) by {
            if a.has_addr(x) {
                let i = a.seg_index_at(x);
                MemorySegment::lemma_same_shape(b.segs()[i], a.segs()[i]);
                a.lemma_seg_index_unique(x, i);
                b.lemma_seg_index_unique(x, i);
            }
        }
        assert forall|x: int, n: int| b.writable_span(x, n) == a.writable_span(x, n) by {
            if a.has_addr(x) {
                let i = a.seg_index_at(x);
                MemorySegment::lemma_same_shape(b.segs()[i], a.segs()[i]);
                a.lemma_seg_index_unique(x, i);
                b.lemma_seg_index_unique(x, i);
            }
        }
    }

    /// Round trip through memory: a word store that succeeded -- which
    /// `set_word` grants exactly at four-byte-aligned addresses whose span
    /// is writable -- leaves the span covered, so a word load at the same
    /// address succeeds and returns the stored word.
    pub proof fn lemma_word_store_then_load(pre: MemoryMap, post: MemoryMap, address: usize, value: u32)
        requires
            pre.wf(),
            post.wf(),
            address % 4 == 0,
            pre.writable_span(address as int, 4),
            post.same_layout(pre),
            post.word_at(address as int) == value,
        ensures
            post.spans(address as int, 4),
            post.word_at(address as int) == value,
    {
        MemoryMap::lemma_same_layout_preserves(pre, post);
    }

    /// A misaligned word store fails and mutates nothing: `set_word` rejects
    /// any address that is not four-byte aligned, and on failure it keeps
    /// the segments -- so every byte of memory -- as they were.
    pub proof fn lemma_misaligned_store_changes_nothing(
        pre: MemoryMap,
        post: MemoryMap,
        address: usize,
    )
        requires
            pre.wf(),
            address % 4 != 0,
            post.segs() == pre.segs(),
        ensures
            !(address % 4 == 0 && pre.writable_span(address as int, 4)),
            forall|x: int| post.byte_at(x) == pre.byte_at(x),
    {
        MemoryMap::lemma_equal_segs_equal_bytes(pre, post);
    }

    /// Writes to read-only segments never mutate any byte: where the
    /// covering segment is read-only no store succeeds, and the failing
    /// store keeps the segments -- so every byte of memory -- as they were.
    pub proof fn lemma_read_only_store_changes_nothing(
        pre: MemoryMap,
        post: MemoryMap,
        address: usize,
    )
        requires
            pre.wf(),
            pre.has_addr(address as int),
            pre.seg_at(address as int).spec_read_only(),
            post.segs() == pre.segs(),
        ensures
            forall|n: int| !pre.writable_span(address as int, n),
            forall|x: int| post.byte_at(x) == pre.byte_at(x),
    {
        MemoryMap::lemma_equal_segs_equal_bytes(pre, post);
    }

    /// Create an empty map.
    pub fn new() -> (r: MemoryMap)
        ensures
            r.wf(),
            r.segs().len() == 0,
    {
        MemoryMap { segments: Vec::new() }
    }

    /// Add a segment. Fails, changing nothing, when the segment's closed
    /// address range intersects that of a segment already present.
    pub fn add_segment(&mut self, segment: MemorySegment) -> (r: Result<(), RuntimeError>)
        requires
            old(self).wf(),
            segment.wf(),
        ensures
            final(self).wf(),
            r is Ok <==> forall|i: int|
                0 <= i < old(self).segs().len() ==> !ranges_overlap(
                    #[trigger] old(self).segs()[i],
                    segment,
                ),
            r is Ok ==> final(self).segs() == old(self).segs().push(segment),
            r is Err ==> *final(self) == *old(self) && (r matches Err(e) && e.err_type
                == FatalErrorType::IllegalMemoryAccess),
    {
        let seg_low = segment.get_low_address();
        let seg_high = segment.get_high_address();

        let mut i: usize = 0;
        while i < self.segments.len()
            invariant
                self.wf(),
                segment.wf(),
                seg_low == segment.low(),
                seg_high == segment.high(),
                i <= self.segs().len(),
                forall|j: int| 0 <= j < i ==> !ranges_overlap(#[trigger] self.segs()[j], segment),
            decreases self.segs().len() - i,
        {
            let other = &self.segments[i];
            if seg_low <= other.get_high_address() && other.get_low_address() <= seg_high {
                return Err(
                    RuntimeError::new(
                        FatalErrorType::IllegalMemoryAccess,
                        "segment overlaps an existing segment".to_owned(),
                    ),
                );
            }
            i = i + 1;
        }

        self.segments.push(segment);
        Ok(())
    }

    /// The index of the segment covering `address`, if any.
    fn find_index(&self, address: usize) -> (r: Option<usize>)
        requires
            self.wf(),
        ensures
            match r {
                Some(i) => 0 <= i < self.segs().len() && self.segs()[i as int].contains(
                    address as int,
                ) && self.has_addr(address as int) && self.seg_index_at(address as int) == i,
                None => !self.has_addr(address as int),
            },
    {
        let mut i: usize = 0;
        while i < self.segments.len()
            invariant
                self.wf(),
                i <= self.segs().len(),
                forall|j: int| 0 <= j < i ==> !(#[trigger] self.segs()[j]).contains(address as int),
            decreases self.segs().len() - i,
        {
            let seg = &self.segments[i];
            if seg.get_low_address() <= address && address <= seg.get_high_address() {
                proof {
                    self.lemma_seg_index_unique(address as int, i as int);
                }
                return Some(i);
            }
            i = i + 1;
        }
        None
    }

    /// The segment covering `address`, if any.
    pub fn get_segment(&self, address: usize) -> (r: Option<&MemorySegment>)
        requires
            self.wf(),
        ensures
            r is Some <==> self.has_addr(address as int),
            r matches Some(seg) ==> *seg == self.seg_at(address as int) && seg.contains(
                address as int,
            ) && seg.wf(),
    {
        match self.find_index(address) {
            Some(i) => Some(&self.segments[i]),
            None => None,
        }
    }

    /// The segment covering `address`, if any, borrowed for mutation. The
    /// map afterwards holds whatever the caller leaves behind in the
    /// borrowed segment, with the other segments unchanged.
    pub fn get_segment_mut(&mut self, address: usize) -> (r: Option<&mut MemorySegment>)
        requires
            old(self).wf(),
        ensures
            r is Some <==> old(self).has_addr(address as int),
            r is None ==> *final(self) == *old(self),
            r matches Some(seg) ==> *seg == old(self).seg_at(address as int) && seg.contains(
                address as int,
            ) && seg.wf() && final(self).segs() == old(self).segs().update(
                old(self).seg_index_at(address as int),
                *final(seg),
            ),
    {
        match self.find_index(address) {
            Some(i) => Some(&mut self.segments[i]),
            None => None,
        }
    }

    /// Load the byte at `address`. Fails when no segment covers it.
    pub fn get_byte(&self, address: usize) -> (r: Result<u8, RuntimeError>)
        requires
            self.wf(),
        ensures
            r is Ok <==> self.has_addr(address as int),
            r matches Ok(v) ==> v == self.byte_at(address as int),
            r matches Err(e) ==> e.err_type == FatalErrorType::IllegalMemoryAccess,
    {
        match self.find_index(address) {
            Some(i) => Ok(self.segments[i].get_byte(address)),
            None => Err(RuntimeError::err_invalid_read(address)),
        }
    }

    /// Load the big-endian halfword at `address`. Fails when the address is
    /// not two-byte aligned or the two-byte span does not lie within one
    /// segment.
    pub fn get_halfword(&self, address: usize) -> (r: Result<u16, RuntimeError>)
        requires
            self.wf(),
        ensures
            r is Ok <==> address % 2 == 0 && self.spans(address as int, 2),
            r matches Ok(v) ==> v == self.halfword_at(address as int),
            r matches Err(e) ==> e.err_type == FatalErrorType::IllegalMemoryAccess,
    {
        if address % 2 != 0 {
            return Err(
                RuntimeError::new(
                    FatalErrorType::IllegalMemoryAccess,
                    "attempted to read halfword from unaligned address".to_owned(),
                ),
            );
        }
        match self.find_index(address) {
            Some(i) => {
                let seg = &self.segments[i];
                if seg.get_high_address() - address >= 1 {
                    proof {
                        self.lemma_byte_at_via(address as int, i as int);
                        self.lemma_byte_at_via(address + 1, i as int);
                    }
                    Ok(seg.get_halfword(address))
                } else {
                    Err(RuntimeError::err_invalid_read(address))
                }
            },
            None => Err(RuntimeError::err_invalid_read(address)),
        }
    }

    /// Load the big-endian word at `address`. Fails when the address is not
    /// four-byte aligned or the four-byte span does not lie within one
    /// segment.
    pub fn get_word(&self, address: usize) -> (r: Result<u32, RuntimeError>)
        requires
            self.wf(),
        ensures
            r is Ok <==> address % 4 == 0 && self.spans(address as int, 4),
            r matches Ok(v) ==> v == self.word_at(address as int),
            r matches Err(e) ==> e.err_type == FatalErrorType::IllegalMemoryAccess,
    {
        if address % 4 != 0 {
            return Err(
                RuntimeError::new(
                    FatalErrorType::IllegalMemoryAccess,
                    "attempted to read word from unaligned address".to_owned(),
                ),
            );
        }
        match self.find_index(address) {
            Some(i) => {
                let seg = &self.segments[i];
                if seg.get_high_address() - address >= 3 {
                    proof {
                        self.lemma_byte_at_via(address as int, i as int);
                        self.lemma_byte_at_via(address + 1, i as int);
                        self.lemma_byte_at_via(address + 2, i as int);
                        self.lemma_byte_at_via(address + 3, i as int);
                    }
                    Ok(seg.get_word(address))
                } else {
                    Err(RuntimeError::err_invalid_read(address))
                }
            },
            None => Err(RuntimeError::err_invalid_read(address)),
        }
    }

    /// Store the byte at `address`. Fails, changing nothing, when no segment
    /// covers the address or the covering segment is read-only.
    pub fn set_byte(&mut self, address: usize, value: u8) -> (r: Result<(), RuntimeError>)
        requires
            old(self).wf(),
        ensures
            final(self).wf(),
            r is Ok <==> old(self).writable_span(address as int, 1),
            r is Ok ==> final(self).same_layout(*old(self)) && final(self).byte_at(address as int)
                == value && forall|a: int|
                a != address ==> final(self).byte_at(a) == old(self).byte_at(a),
            r is Err ==> final(self).segs() == old(self).segs() && (r matches Err(e) && e.err_type
                == FatalErrorType::IllegalMemoryAccess),
    {
        match self.find_index(address) {
            Some(i) => {
                let ghost oldm = *self;
                let seg = &mut self.segments[i];
                let res = seg.set_byte(address, value);
                proof {
                    if res is Err {
                        assert(self.segs() =~= oldm.segs());
                    } else {
                        MemoryMap::lemma_update_preserves(
                            oldm,
                            *self,
                            i as int,
                            address as int,
                            address as int,
                        );
                        self.lemma_byte_at_via(address as int, i as int);
                    }
                }
                res
            },
            None => Err(RuntimeError::err_invalid_write(address)),
        }
    }

    /// Store the big-endian halfword at `address`. Fails, changing nothing,
    /// when the address is not two-byte aligned, the two-byte span does not
    /// lie within one segment, or the covering segment is read-only.
    pub fn set_halfword(&mut self, address: usize, value: u16) -> (r: Result<(), RuntimeError>)
        requires
            old(self).wf(),
        ensures
            final(self).wf(),
            r is Ok <==> address % 2 == 0 && old(self).writable_span(address as int, 2),
            r is Ok ==> final(self).same_layout(*old(self)) && final(self).halfword_at(
                address as int,
            ) == value && forall|a: int|
                !(address <= a <= address + 1) ==> final(self).byte_at(a) == old(self).byte_at(a),
            r is Err ==> final(self).segs() == old(self).segs() && (r matches Err(e) && e.err_type
                == FatalErrorType::IllegalMemoryAccess),
    {
        match self.find_index(address) {
            Some(i) => {
                let in_span = self.segments[i].get_high_address() - address >= 1;
                if !in_span {
                    return Err(RuntimeError::err_invalid_write(address));
                }
                let ghost oldm = *self;
                let seg = &mut self.segments[i];
                let res = seg.set_halfword(address, value);
                proof {
                    if res is Err {
                        assert(self.segs() =~= oldm.segs());
                    } else {
                        MemoryMap::lemma_update_preserves(
                            oldm,
                            *self,
                            i as int,
                            address as int,
                            address + 1,
                        );
                        self.lemma_byte_at_via(address as int, i as int);
                        self.lemma_byte_at_via(address + 1, i as int);
                    }
                }
                res
            },
            None => Err(RuntimeError::err_invalid_write(address)),
        }
    }

    /// Store the big-endian word at `address`. Fails, changing nothing, when
    /// the address is not four-byte aligned, the four-byte span does not lie
    /// within one segment, or the covering segment is read-only.
    pub fn set_word(&mut self, address: usize, value: u32) -> (r: Result<(), RuntimeError>)
        requires
            old(self).wf(),
        ensures
            final(self).wf(),
            r is Ok <==> address % 4 == 0 && old(self).writable_span(address as int, 4),
            r is Ok ==> final(self).same_layout(*old(self)) && final(self).word_at(address as int)
                == value && forall|a: int|
                !(address <= a <= address + 3) ==> final(self).byte_at(a) == old(self).byte_at(a),
            r is Err ==> final(self).segs() == old(self).segs() && (r matches Err(e) && e.err_type
                == FatalErrorType::IllegalMemoryAccess),
    {
        match self.find_index(address) {
            Some(i) => {
                let in_span = self.segments[i].get_high_address() - address >= 3;
                if !in_span {
                    return Err(RuntimeError::err_invalid_write(address));
                }
                let ghost oldm = *self;
                let seg = &mut self.segments[i];
                let res = seg.set_word(address, value);
                proof {
                    if res is Err {
                        assert(self.segs() =~= oldm.segs());
                    } else {
                        MemoryMap::lemma_update_preserves(
                            oldm,
                            *self,
                            i as int,
                            address as int,
                            address + 3,
                        );
                        self.lemma_byte_at_via(address as int, i as int);
                        self.lemma_byte_at_via(address + 1, i as int);
                        self.lemma_byte_at_via(address + 2, i as int);
                        self.lemma_byte_at_via(address + 3, i as int);
                    }
                }
                res
            },
            None => Err(RuntimeError::err_invalid_write(address)),
        }
    }

    /// All segments of the map, in insertion order.
    pub fn get_segments(&self) -> (r: &Vec<MemorySegment>)
        ensures
            r@ == self.segs(),
    {
        &self.segments
    }

    /// The first segment with the given name, if any.
    pub fn segment_by_name(&self, name: &str) -> (r: Option<&MemorySegment>)
        ensures
            r is Some <==> self.has_name(name@),
            r matches Some(seg) ==> {
                let i = self.first_name_index(name@);
                &&& 0 <= i < self.segs().len()
                &&& *seg == self.segs()[i]
                &&& seg.spec_name() == name@
            },
    {
        let target: String = name.to_owned();
        let mut i: usize = 0;
        while i < self.segments.len()
            invariant
                target@ == name@,
                i <= self.segs().len(),
                forall|j: int| 0 <= j < i ==> (#[trigger] self.segs()[j]).spec_name() != name@,
            decreases self.segs().len() - i,
        {
            if self.segments[i].name == target {
                proof {
                    self.lemma_first_name_index(name@, i as int);
                }
                return Some(&self.segments[i]);
            }
            i = i + 1;
        }
        None
    }

    /// The first segment with the given name, if any, borrowed for mutation.
    /// The map afterwards holds whatever the caller leaves behind in the
    /// borrowed segment, with the other segments unchanged.
    pub fn mut_segment_by_name(&mut self, name: &str) -> (r: Option<&mut MemorySegment>)
        ensures
            r is Some <==> old(self).has_name(name@),
            r is None ==> *final(self) == *old(self),
            r matches Some(seg) ==> {
                let i = old(self).first_name_index(name@);
                &&& 0 <= i < old(self).segs().len()
                &&& *seg == old(self).segs()[i]
                &&& seg.spec_name() == name@
                &&& final(self).segs() == old(self).segs().update(i, *final(seg))
            },
    {
        let target: String = name.to_owned();
        let mut i: usize = 0;
        while i < self.segments.len()
            invariant
                *self == *old(self),
                target@ == name@,
                i <= self.segs().len(),
                forall|j: int| 0 <= j < i ==> (#[trigger] self.segs()[j]).spec_name() != name@,
            decreases self.segs().len() - i,
        {
            if self.segments[i].name == target {
                proof {
                    self.lemma_first_name_index(name@, i as int);
                }
                return Some(&mut self.segments[i]);
            }
            i = i + 1;
        }
        None
    }

    /// The first address at or beyond `address`, moving in the given
    /// direction, whose value is a multiple of `alignment`.
    pub fn align_address(
        &self,
        address: usize,
        alignment: u8,
        direction: SegmentDirection,
    ) -> (r: usize)
        requires
            alignment >= 1,
            direction == SegmentDirection::Up ==> address + alignment - 1 <= usize::MAX,
        ensures
            r % (alignment as usize) == 0,
            direction == SegmentDirection::Up ==> address <= r < address + alignment,
            direction == SegmentDirection::Down ==> address - alignment < r <= address,
    {
        let m = alignment as usize;
        let rem = address % m;

        if rem == 0 {
            address
        } else {
            match direction {
                SegmentDirection::Up => {
                    let r = address + (m - rem);
                    proof {
                        vstd::arithmetic::div_mod::lemma_fundamental_div_mod(
                            address as int,
                            m as int,
                        );
                        vstd::arithmetic::div_mod::lemma_mod_multiples_basic(
                            address as int / m as int + 1,
                            m as int,
                        );
                        assert(r == (address as int / m as int + 1) * (m as int)) by (nonlinear_arith)
                            requires
                                address == (m as int) * (address as int / m as int) + rem,
                                r == address + (m - rem),
                        ;
                    }
                    r
                },
                SegmentDirection::Down => {
                    proof {
                        vstd::arithmetic::div_mod::lemma_mod_decreases(
                            address as nat,
                            m as nat,
                        );
                    }
                    let r = address - rem;
                    proof {
                        vstd::arithmetic::div_mod::lemma_fundamental_div_mod(
                            address as int,
                            m as int,
                        );
                        vstd::arithmetic::div_mod::lemma_mod_multiples_basic(
                            address as int / m as int,
                            m as int,
                        );
                        assert(r == (address as int / m as int) * (m as int)) by (nonlinear_arith)
                            requires
                                address == (m as int) * (address as int / m as int) + rem,
                                r == address - rem,
                        ;
                    }
                    r
                },
            }
        }
    }
}

} // verus!
