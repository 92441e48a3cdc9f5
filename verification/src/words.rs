//! The 32-bit word layer of the binary module format: packing and unpacking
//! of the opcode/word-count header word, of the four bytes of a word, and of
//! 64-bit literals split across two words.

use vstd::prelude::*;

verus! {

/// First word of an instruction: the word count in the upper 16 bits, the
/// opcode in the lower 16 bits.
pub open spec fn first_word_of(word_count: u16, opcode: u16) -> u32 {
    (word_count as u32 * 0x10000 + opcode as u32) as u32
}

/// The word count carried by an instruction's first word.
pub open spec fn word_count_of(w: u32) -> u32 {
    w / 0x10000
}

/// The opcode carried by an instruction's first word.
pub open spec fn opcode_of(w: u32) -> u32 {
    w % 0x10000
}

pub proof fn lemma_first_word_roundtrip(word_count: u16, opcode: u16)
    ensures
        word_count_of(first_word_of(word_count, opcode)) == word_count,
        opcode_of(first_word_of(word_count, opcode)) == opcode,
{
    assert((word_count as u32 * 0x10000 + opcode as u32) as u32 / 0x10000 == word_count
        && (word_count as u32 * 0x10000 + opcode as u32) as u32 % 0x10000 == opcode) by (bit_vector);
}

pub fn pack_first_word(word_count: u16, opcode: u16) -> (w: u32)
    ensures
        w == first_word_of(word_count, opcode),
{
    word_count as u32 * 0x10000 + opcode as u32
}

pub fn unpack_first_word(w: u32) -> (r: (u32, u32))
    ensures
        r.0 == word_count_of(w),
        r.1 == opcode_of(w),
        r.0 <= 0xFFFF,
        r.1 <= 0xFFFF,
{
    proof {
        assert(w / 0x10000 <= 0xFFFF && w % 0x10000 <= 0xFFFF) by (bit_vector);
    }
    (w / 0x10000, w % 0x10000)
}

/// A word assembled from four bytes, least significant byte first.
pub open spec fn word_of_bytes(b0: u8, b1: u8, b2: u8, b3: u8) -> u32 {
    (b0 as u32 + b1 as u32 * 0x100 + b2 as u32 * 0x10000 + b3 as u32 * 0x1000000) as u32
}

/// Byte `k` (0 = least significant) of a word.
pub open spec fn byte_of_word(w: u32, k: int) -> u8 {
    if k == 0 {
        (w % 0x100) as u8
    } else if k == 1 {
        ((w / 0x100) % 0x100) as u8
    } else if k == 2 {
        ((w / 0x10000) % 0x100) as u8
    } else {
        ((w / 0x1000000) % 0x100) as u8
    }
}

pub proof fn lemma_word_bytes_roundtrip(b0: u8, b1: u8, b2: u8, b3: u8)
    ensures
        byte_of_word(word_of_bytes(b0, b1, b2, b3), 0) == b0,
        byte_of_word(word_of_bytes(b0, b1, b2, b3), 1) == b1,
        byte_of_word(word_of_bytes(b0, b1, b2, b3), 2) == b2,
        byte_of_word(word_of_bytes(b0, b1, b2, b3), 3) == b3,
{
    let w = (b0 as u32 + b1 as u32 * 0x100 + b2 as u32 * 0x10000 + b3 as u32 * 0x1000000) as u32;
    assert(w % 0x100 == b0 && (w / 0x100) % 0x100 == b1 && (w / 0x10000) % 0x100 == b2 && (w
        / 0x1000000) % 0x100 == b3) by (bit_vector)
        requires
            w == (b0 as u32 + b1 as u32 * 0x100 + b2 as u32 * 0x10000 + b3 as u32 * 0x1000000)
                as u32,
    ;
}

pub fn pack_word_bytes(b0: u8, b1: u8, b2: u8, b3: u8) -> (w: u32)
    ensures
        w == word_of_bytes(b0, b1, b2, b3),
{
    b0 as u32 + b1 as u32 * 0x100 + b2 as u32 * 0x10000 + b3 as u32 * 0x1000000
}

pub fn unpack_word_byte(w: u32, k: usize) -> (b: u8)
    requires
        k < 4,
    ensures
        b == byte_of_word(w, k as int),
{
    if k == 0 {
        (w % 0x100) as u8
    } else if k == 1 {
        ((w / 0x100) % 0x100) as u8
    } else if k == 2 {
        ((w / 0x10000) % 0x100) as u8
    } else {
        ((w / 0x1000000) % 0x100) as u8
    }
}

/// Low word of a 64-bit literal.
pub open spec fn low_word_of(v: u64) -> u32 {
    (v % 0x1_0000_0000) as u32
}

/// High word of a 64-bit literal.
pub open spec fn high_word_of(v: u64) -> u32 {
    (v / 0x1_0000_0000) as u32
}

/// The 64-bit literal held by a low and a high word.
pub open spec fn u64_of_words(lo: u32, hi: u32) -> u64 {
    (lo as u64 + hi as u64 * 0x1_0000_0000) as u64
}

pub proof fn lemma_u64_words_roundtrip(v: u64)
    ensures
        u64_of_words(low_word_of(v), high_word_of(v)) == v,
{
    assert(((v % 0x1_0000_0000) as u32 as u64 + (v / 0x1_0000_0000) as u32 as u64
        * 0x1_0000_0000) as u64 == v) by (bit_vector);
}

pub fn split_u64(v: u64) -> (r: (u32, u32))
    ensures
        r.0 == low_word_of(v),
        r.1 == high_word_of(v),
{
    proof {
        assert(v / 0x1_0000_0000 <= 0xFFFF_FFFF) by (bit_vector);
    }
    ((v % 0x1_0000_0000) as u32, (v / 0x1_0000_0000) as u32)
}

pub fn join_u64(lo: u32, hi: u32) -> (v: u64)
    ensures
        v == u64_of_words(lo, hi),
{
    lo as u64 + hi as u64 * 0x1_0000_0000
}

} // verus!
