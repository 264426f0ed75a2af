//! The mask that the display expects on every byte of a frame.
//!
//! The mask is four bytes long and repeats; a byte at offset `i` is XORed
//! with `MASK[i % 4]`.  [`xor_org`] does exactly that, byte by byte, and is the
//! reference.  [`xor`] works on groups of sixteen bytes against [`PATTERN`],
//! the mask written out four times, and is proved to give the same bytes.

use vstd::prelude::*;

verus! {

/// The mask, indexed by a byte's offset modulo four.
pub const MASK: [u8; 4] = [0xe7, 0xf3, 0xe7, 0xff];

/// The mask replicated four times: one lane for each byte of a group.
pub const PATTERN: [u8; 16] = [
    0xe7, 0xf3, 0xe7, 0xff, 0xe7, 0xf3, 0xe7, 0xff, 0xe7, 0xf3, 0xe7, 0xff, 0xe7, 0xf3, 0xe7, 0xff,
];

/// Bytes in one group of the wide transform.
pub const LANES: usize = 16;

/// The mask byte that belongs to the byte at `offset`.
pub open spec fn mask_byte(offset: int) -> u8 {
    MASK[offset % 4]
}

/// The lane of [`PATTERN`] that belongs to the byte at `offset`.
pub open spec fn pattern_byte(offset: int) -> u8 {
    PATTERN[offset % 16]
}

/// `bytes` with every byte XORed with the mask byte of its offset: the
/// scalar reference.
pub open spec fn masked(bytes: Seq<u8>) -> Seq<u8> {
    Seq::new(bytes.len(), |i: int| bytes[i] ^ mask_byte(i))
}

/// `bytes` with every byte XORed with its lane of the sixteen-byte pattern:
/// what the wide transform computes, whole groups and the partial last group
/// alike.
pub open spec fn masked_by_pattern(bytes: Seq<u8>) -> Seq<u8> {
    Seq::new(bytes.len(), |i: int| bytes[i] ^ pattern_byte(i))
}

/// Every lane of the pattern is the mask byte of the same offset.
pub proof fn lemma_pattern_replicates_mask(offset: int)
    requires
        0 <= offset,
    ensures
        pattern_byte(offset) == mask_byte(offset),
{
    let lane = offset % 16;
    assert(lane % 4 == offset % 4);
    assert(PATTERN[lane] == MASK[lane % 4]);
}

/// The wide transform and the scalar reference give the same bytes, for a
/// buffer of any length: empty, a whole number of groups, or with a partial
/// last group.
pub proof fn lemma_masking_equivalence(bytes: Seq<u8>)
    ensures
        masked_by_pattern(bytes) == masked(bytes),
{
    assert forall|i: int| 0 <= i < bytes.len() implies #[trigger] masked_by_pattern(bytes)[i]
        == masked(bytes)[i] by {
        lemma_pattern_replicates_mask(i);
    }
    assert(masked_by_pattern(bytes) =~= masked(bytes));
}

/// Masking twice gives the bytes back: the mask is its own inverse.
pub proof fn lemma_masking_involution(bytes: Seq<u8>)
    ensures
        masked(masked(bytes)) == bytes,
{
    assert forall|i: int| 0 <= i < bytes.len() implies #[trigger] masked(masked(bytes))[i]
        == bytes[i] by {
        let b = bytes[i];
        let m = mask_byte(i);
        assert((b ^ m) ^ m == b) by (bit_vector);
    }
    assert(masked(masked(bytes)) =~= bytes);
}

/// Masks `buffer` in place, sixteen bytes at a time; the bytes after the last
/// whole group are masked one by one against their lane of the pattern.
pub fn xor(buffer: &mut [u8])
    ensures
        final(buffer)@ == masked_by_pattern(old(buffer)@),
{
    let len = buffer.len();
    let mut i: usize = 0;
    while len - i >= LANES
        invariant
            len == buffer@.len(),
            buffer@.len() == old(buffer)@.len(),
            i <= len,
            i % 16 == 0,
            forall|j: int| 0 <= j < i ==> buffer@[j] == old(buffer)@[j] ^ pattern_byte(j),
            forall|j: int| i <= j < len ==> buffer@[j] == old(buffer)@[j],
        decreases len - i,
    {
        let mut lane: usize = 0;
        while lane < LANES
            invariant
                len == buffer@.len(),
                buffer@.len() == old(buffer)@.len(),
                i + 16 <= len,
                i % 16 == 0,
                lane <= 16,
                forall|j: int| 0 <= j < i + lane ==> buffer@[j] == old(buffer)@[j] ^ pattern_byte(j),
                forall|j: int| i + lane <= j < len ==> buffer@[j] == old(buffer)@[j],
            decreases 16 - lane,
        {
            assert((i + lane) % 16 == lane as int);
            buffer[i + lane] = buffer[i + lane] ^ PATTERN[lane];
            lane += 1;
        }
        i += LANES;
    }
    while i < len
        invariant
            len == buffer@.len(),
            buffer@.len() == old(buffer)@.len(),
            i <= len,
            forall|j: int| 0 <= j < i ==> buffer@[j] == old(buffer)@[j] ^ pattern_byte(j),
            forall|j: int| i <= j < len ==> buffer@[j] == old(buffer)@[j],
        decreases len - i,
    {
        buffer[i] = buffer[i] ^ PATTERN[i % 16];
        i += 1;
    }
    assert(buffer@ =~= masked_by_pattern(old(buffer)@));
}

/// Masks `buffer` in place, one byte at a time: the scalar reference.
pub fn xor_org(buffer: &mut [u8])
    ensures
        final(buffer)@ == masked(old(buffer)@),
{
    let len = buffer.len();
    let mut i: usize = 0;
    while i < len
        invariant
            len == buffer@.len(),
            buffer@.len() == old(buffer)@.len(),
            i <= len,
            forall|j: int| 0 <= j < i ==> buffer@[j] == old(buffer)@[j] ^ mask_byte(j),
            forall|j: int| i <= j < len ==> buffer@[j] == old(buffer)@[j],
        decreases len - i,
    {
        buffer[i] = buffer[i] ^ MASK[i % 4];
        i += 1;
    }
    assert(buffer@ =~= masked(old(buffer)@));
}

} // verus!
