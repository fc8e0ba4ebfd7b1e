//! The 144-bit password record and its bit-addressing arithmetic.

use vstd::prelude::*;

use crate::errors::BitOutOfBoundsError;
use crate::errors::ByteOutOfBoundsError;

verus! {

/// Number of bytes in a password record.
pub const RECORD_BYTE_COUNT: usize = 18;

/// Number of addressable bits in a password record.
pub const RECORD_BIT_COUNT: usize = 144;

/// Number of leading bytes covered by the checksum (the last byte is reserved).
pub const CHECKSUM_BYTE_COUNT: usize = 17;

/// Byte index holding the given absolute bit index.
pub open spec fn spec_byte_index(bit: int) -> int {
    bit / 8
}

/// Position of the bit inside its byte; position 0 is the most-significant bit.
pub open spec fn spec_intra_byte_position(bit: int) -> int {
    bit % 8
}

/// Left-shift distance that places a 1 at the given intra-byte position.
pub open spec fn spec_shift_for_position(position: int) -> int {
    7 - position
}

/// Single-bit mask selecting the given absolute bit inside its byte.
pub open spec fn spec_bit_mask(bit: int) -> u8 {
    1u8 << (spec_shift_for_position(spec_intra_byte_position(bit)) as u8)
}

/// Whether the addressed bit is 1 in the byte sequence.
pub open spec fn spec_bit_is_set(s: Seq<u8>, bit: int) -> bool {
    s[spec_byte_index(bit)] & spec_bit_mask(bit) != 0
}

/// The byte sequence with the addressed bit set to 1 and all else unchanged.
pub open spec fn spec_with_bit_set(s: Seq<u8>, bit: int) -> Seq<u8> {
    s.update(spec_byte_index(bit), s[spec_byte_index(bit)] | spec_bit_mask(bit))
}

/// The byte sequence with the addressed bit cleared to 0 and all else unchanged.
pub open spec fn spec_with_bit_cleared(s: Seq<u8>, bit: int) -> Seq<u8> {
    s.update(spec_byte_index(bit), s[spec_byte_index(bit)] & !spec_bit_mask(bit))
}

/// Byte index holding the given absolute bit index (integer division by 8).
pub fn byte_index_of(bit_index: usize) -> (byte_index: usize)
    ensures
        byte_index == spec_byte_index(bit_index as int),
{
    bit_index / 8
}

/// Position of the bit inside its byte, in [0, 8).
pub fn intra_byte_position(bit_index: usize) -> (position: usize)
    ensures
        position == spec_intra_byte_position(bit_index as int),
        position < 8,
{
    bit_index % 8
}

/// Shift distance for an intra-byte position, in [0, 8).
pub fn shift_for_position(position: usize) -> (shift: usize)
    requires
        position < 8,
    ensures
        shift == spec_shift_for_position(position as int),
        shift < 8,
{
    7 - position
}

/// Sum of the first `count` bytes of the sequence, as an unbounded integer.
pub open spec fn spec_sum_of_prefix(s: Seq<u8>, count: int) -> int
    decreases count,
{
    if count <= 0 {
        0
    } else {
        spec_sum_of_prefix(s, count - 1) + s[count - 1]
    }
}

/// The checksum byte: the low 8 bits of the sum of the first 17 bytes.
pub open spec fn spec_checksum(s: Seq<u8>) -> u8 {
    (spec_sum_of_prefix(s, CHECKSUM_BYTE_COUNT as int) % 256) as u8
}

proof fn lemma_set_shift_effect(byte: u8, shift: u8, other_shift: u8)
    by (bit_vector)
    requires
        shift < 8,
        other_shift < 8,
    ensures
        (byte | (1u8 << shift)) & (1u8 << shift) != 0,
        other_shift != shift ==> ((byte | (1u8 << shift)) & (1u8 << other_shift)) == (byte & (1u8
            << other_shift)),
{
}

proof fn lemma_clear_shift_effect(byte: u8, shift: u8, other_shift: u8)
    by (bit_vector)
    requires
        shift < 8,
        other_shift < 8,
    ensures
        (byte & !(1u8 << shift)) & (1u8 << shift) == 0,
        other_shift != shift ==> ((byte & !(1u8 << shift)) & (1u8 << other_shift)) == (byte & (1u8
            << other_shift)),
{
}

proof fn lemma_bit_address(bit: int)
    requires
        0 <= bit < RECORD_BIT_COUNT,
    ensures
        0 <= bit / 8 < RECORD_BYTE_COUNT,
        0 <= bit % 8 < 8,
        bit == 8 * (bit / 8) + bit % 8,
{
    vstd::arithmetic::div_mod::lemma_fundamental_div_mod(bit, 8);
}

/// Law: setting a bit makes exactly that bit read 1; every other bit of the
/// record keeps its previous value.
pub proof fn lemma_set_bit_effect(s: Seq<u8>, bit: int)
    requires
        s.len() == RECORD_BYTE_COUNT,
        0 <= bit < RECORD_BIT_COUNT,
    ensures
        spec_with_bit_set(s, bit).len() == RECORD_BYTE_COUNT,
        spec_bit_is_set(spec_with_bit_set(s, bit), bit),
        forall|other: int|
            0 <= other < RECORD_BIT_COUNT && other != bit ==> spec_bit_is_set(
                spec_with_bit_set(s, bit),
                other,
            ) == spec_bit_is_set(s, other),
{
    let t = spec_with_bit_set(s, bit);
    lemma_bit_address(bit);
    let shift = (7 - bit % 8) as u8;
    lemma_set_shift_effect(s[bit / 8], shift, shift);
    assert forall|other: int|
        0 <= other < RECORD_BIT_COUNT && other != bit implies spec_bit_is_set(t, other)
        == spec_bit_is_set(s, other) by {
        lemma_bit_address(other);
        let other_shift = (7 - other % 8) as u8;
        if other / 8 == bit / 8 {
            assert(other % 8 != bit % 8);
            lemma_set_shift_effect(s[bit / 8], shift, other_shift);
        } else {
            assert(t[other / 8] == s[other / 8]);
        }
    }
}

/// Law: clearing a bit makes exactly that bit read 0; every other bit of the
/// record keeps its previous value.
pub proof fn lemma_clear_bit_effect(s: Seq<u8>, bit: int)
    requires
        s.len() == RECORD_BYTE_COUNT,
        0 <= bit < RECORD_BIT_COUNT,
    ensures
        spec_with_bit_cleared(s, bit).len() == RECORD_BYTE_COUNT,
        !spec_bit_is_set(spec_with_bit_cleared(s, bit), bit),
        forall|other: int|
            0 <= other < RECORD_BIT_COUNT && other != bit ==> spec_bit_is_set(
                spec_with_bit_cleared(s, bit),
                other,
            ) == spec_bit_is_set(s, other),
{
    let t = spec_with_bit_cleared(s, bit);
    lemma_bit_address(bit);
    let shift = (7 - bit % 8) as u8;
    lemma_clear_shift_effect(s[bit / 8], shift, shift);
    assert forall|other: int|
        0 <= other < RECORD_BIT_COUNT && other != bit implies spec_bit_is_set(t, other)
        == spec_bit_is_set(s, other) by {
        lemma_bit_address(other);
        let other_shift = (7 - other % 8) as u8;
        if other / 8 == bit / 8 {
            assert(other % 8 != bit % 8);
            lemma_clear_shift_effect(s[bit / 8], shift, other_shift);
        } else {
            assert(t[other / 8] == s[other / 8]);
        }
    }
}

/// Law: setting the same bit twice in a row leaves the same record as setting
/// it once.
pub proof fn lemma_set_bit_idempotent(s: Seq<u8>, bit: int)
    requires
        s.len() == RECORD_BYTE_COUNT,
        0 <= bit < RECORD_BIT_COUNT,
    ensures
        spec_with_bit_set(spec_with_bit_set(s, bit), bit) == spec_with_bit_set(s, bit),
{
    lemma_bit_address(bit);
    let byte = s[bit / 8];
    let mask = spec_bit_mask(bit);
    assert((byte | mask) | mask == byte | mask) by (bit_vector);
    assert(spec_with_bit_set(spec_with_bit_set(s, bit), bit) =~= spec_with_bit_set(s, bit));
}

/// Law: clearing the same bit twice in a row leaves the same record as
/// clearing it once.
pub proof fn lemma_clear_bit_idempotent(s: Seq<u8>, bit: int)
    requires
        s.len() == RECORD_BYTE_COUNT,
        0 <= bit < RECORD_BIT_COUNT,
    ensures
        spec_with_bit_cleared(spec_with_bit_cleared(s, bit), bit) == spec_with_bit_cleared(s, bit),
{
    lemma_bit_address(bit);
    let byte = s[bit / 8];
    let mask = spec_bit_mask(bit);
    assert((byte & !mask) & !mask == byte & !mask) by (bit_vector);
    assert(spec_with_bit_cleared(spec_with_bit_cleared(s, bit), bit) =~= spec_with_bit_cleared(
        s,
        bit,
    ));
}

/// A 144-bit password record: 18 bytes, mutated bit by bit or byte by byte.
pub struct Password {
    bytes: Vec<u8>,
}

impl View for Password {
    type V = Seq<u8>;

    closed spec fn view(&self) -> Seq<u8> {
        self.bytes@
    }
}

impl Password {
    /// Well-formedness: the record always holds exactly 18 bytes.
    pub open spec fn wf(&self) -> bool {
        self@.len() == RECORD_BYTE_COUNT
    }

    /// A new record with all 144 bits zeroed.
    pub fn new() -> (password: Password)
        ensures
            password.wf(),
            forall|i: int| 0 <= i < RECORD_BYTE_COUNT ==> password@[i] == 0u8,
    {
        let mut bytes: Vec<u8> = Vec::new();
        let mut i: usize = 0;
        while i < RECORD_BYTE_COUNT
            invariant
                i <= RECORD_BYTE_COUNT,
                bytes@.len() == i,
                forall|j: int| 0 <= j < i ==> bytes@[j] == 0u8,
            decreases RECORD_BYTE_COUNT - i,
        {
            bytes.push(0u8);
            i = i + 1;
        }
        Password { bytes }
    }

    /// Overwrite the whole byte at `index` with `value`.
    ///
    /// Fails with `ByteOutOfBoundsError` and leaves the record unchanged
    /// when `index` is 18 or more.
    pub fn set_byte_value(&mut self, index: usize, value: u8) -> (result: Result<
        (),
        ByteOutOfBoundsError,
    >)
        requires
            old(self).wf(),
        ensures
            final(self).wf(),
            index < RECORD_BYTE_COUNT ==> result == Ok::<(), ByteOutOfBoundsError>(())
                && final(self)@ == old(self)@.update(index as int, value),
            index >= RECORD_BYTE_COUNT ==> result == Err::<(), ByteOutOfBoundsError>(
                ByteOutOfBoundsError,
            ) && final(self)@ == old(self)@,
    {
        if index >= RECORD_BYTE_COUNT {
            return Err(ByteOutOfBoundsError);
        }
        self.bytes.set(index, value);
        Ok(())
    }

    /// Set (to 1) exactly the bit at `bit_index`, leaving all other bits as
    /// they were.
    ///
    /// Fails with `BitOutOfBoundsError` and leaves the record unchanged when
    /// `bit_index` is 144 or more.
    pub fn set_bit(&mut self, bit_index: usize) -> (result: Result<(), BitOutOfBoundsError>)
        requires
            old(self).wf(),
        ensures
            final(self).wf(),
            bit_index < RECORD_BIT_COUNT ==> result == Ok::<(), BitOutOfBoundsError>(())
                && final(self)@ == spec_with_bit_set(old(self)@, bit_index as int)
                && spec_bit_is_set(final(self)@, bit_index as int)
                && (forall|other: int|
                    0 <= other < RECORD_BIT_COUNT && other != bit_index ==> spec_bit_is_set(
                        final(self)@,
                        other,
                    ) == spec_bit_is_set(old(self)@, other)),
            bit_index >= RECORD_BIT_COUNT ==> result == Err::<(), BitOutOfBoundsError>(
                BitOutOfBoundsError,
            ) && final(self)@ == old(self)@,
    {
        if bit_index >= RECORD_BIT_COUNT {
            return Err(BitOutOfBoundsError);
        }
        proof {
            lemma_bit_address(bit_index as int);
        }
        let byte_index = byte_index_of(bit_index);
        let position = intra_byte_position(bit_index);
        let shift = shift_for_position(position) as u8;
        let current = self.bytes[byte_index];
        let updated = current | (1u8 << shift);
        self.bytes.set(byte_index, updated);
        proof {
            assert(1u8 << shift == spec_bit_mask(bit_index as int));
            lemma_set_bit_effect(old(self)@, bit_index as int);
        }
        Ok(())
    }

    /// Clear (to 0) exactly the bit at `bit_index`, leaving all other bits as
    /// they were.
    ///
    /// The mask is the bitwise negation of the single set-bit value, so it is
    /// correct for every shift, not only for shift 0.
    ///
    /// Fails with `BitOutOfBoundsError` and leaves the record unchanged when
    /// `bit_index` is 144 or more.
    pub fn clear_bit(&mut self, bit_index: usize) -> (result: Result<(), BitOutOfBoundsError>)
        requires
            old(self).wf(),
        ensures
            final(self).wf(),
            bit_index < RECORD_BIT_COUNT ==> result == Ok::<(), BitOutOfBoundsError>(())
                && final(self)@ == spec_with_bit_cleared(old(self)@, bit_index as int)
                && !spec_bit_is_set(final(self)@, bit_index as int)
                && (forall|other: int|
                    0 <= other < RECORD_BIT_COUNT && other != bit_index ==> spec_bit_is_set(
                        final(self)@,
                        other,
                    ) == spec_bit_is_set(old(self)@, other)),
            bit_index >= RECORD_BIT_COUNT ==> result == Err::<(), BitOutOfBoundsError>(
                BitOutOfBoundsError,
            ) && final(self)@ == old(self)@,
    {
        if bit_index >= RECORD_BIT_COUNT {
            return Err(BitOutOfBoundsError);
        }
        proof {
            lemma_bit_address(bit_index as int);
        }
        let byte_index = byte_index_of(bit_index);
        let position = intra_byte_position(bit_index);
        let shift = shift_for_position(position) as u8;
        let current = self.bytes[byte_index];
        let updated = current & !(1u8 << shift);
        self.bytes.set(byte_index, updated);
        proof {
            assert(1u8 << shift == spec_bit_mask(bit_index as int));
            lemma_clear_bit_effect(old(self)@, bit_index as int);
        }
        Ok(())
    }

    /// The checksum of the current buffer: the arithmetic sum of the first 17
    /// bytes (byte 17 is reserved and excluded), truncated to its low 8 bits.
    pub fn calculate_checksum(&self) -> (checksum: u8)
        requires
            self.wf(),
        ensures
            checksum == spec_checksum(self@),
    {
        let mut sum: u16 = 0;
        let mut i: usize = 0;
        while i < CHECKSUM_BYTE_COUNT
            invariant
                self.wf(),
                i <= CHECKSUM_BYTE_COUNT,
                sum == spec_sum_of_prefix(self@, i as int),
                sum <= 255 * i,
            decreases CHECKSUM_BYTE_COUNT - i,
        {
            sum = sum + self.bytes[i] as u16;
            i = i + 1;
        }
        let checksum = (sum & 0x00FF) as u8;
        proof {
            assert(sum & 0x00FF == sum % 256) by (bit_vector);
        }
        checksum
    }

    /// The raw 18-byte buffer, for reading only.
    pub fn get_raw_bytes(&self) -> (raw: &Vec<u8>)
        requires
            self.wf(),
        ensures
            raw@ == self@,
            raw@.len() == RECORD_BYTE_COUNT,
    {
        &self.bytes
    }
}

} // verus!
