//! Flag words: bits of a `u32` that tell which parts of a record are set.
//!
//! A record's flags are read bit by bit with `bit` and written by setting the
//! bits of its parts, with `with` one after the other or all at once with a
//! word built from them.
use vstd::prelude::*;

verus! {

/// Bit `i` of `x` is set.
pub open spec fn bit(x: u32, i: u32) -> bool {
    (x >> i) & 1u32 == 1u32
}

/// `x` with bit `i` set where `c` holds, and unchanged elsewhere.
pub open spec fn with(x: u32, i: u32, c: bool) -> u32 {
    if c {
        x | (1u32 << i)
    } else {
        x
    }
}

/// Setting a bit sets that bit and leaves the others.
pub broadcast proof fn lemma_bit_with(x: u32, j: u32, c: bool, i: u32)
    requires
        i < 32,
        j < 32,
    ensures
        #[trigger] bit(with(x, j, c), i) == (if i == j {
            c || bit(x, i)
        } else {
            bit(x, i)
        }),
{
    if c {
        assert(((x | (1u32 << j)) >> i) & 1u32 == 1u32 <==> (if i == j {
            true
        } else {
            (x >> i) & 1u32 == 1u32
        })) by (bit_vector)
            requires
                i < 32,
                j < 32,
        ;
    }
}

/// No bit of zero is set.
pub broadcast proof fn lemma_bit_zero(i: u32)
    requires
        i < 32,
    ensures
        !#[trigger] bit(0, i),
{
    assert((0u32 >> i) & 1u32 != 1u32) by (bit_vector);
}

/// Setting a bit below 16 in a word below `0x10000` keeps it below.
pub broadcast proof fn lemma_with_u16(x: u32, j: u32, c: bool)
    requires
        x < 0x10000,
        j < 16,
    ensures
        #[trigger] with(x, j, c) < 0x10000,
{
    if c {
        assert((x | (1u32 << j)) < 0x10000) by (bit_vector)
            requires
                x < 0x10000,
                j < 16,
        ;
    }
}

/// The facts about flag words that the records use.
pub broadcast group group_flags {
    lemma_bit_with,
    lemma_bit_zero,
    lemma_with_u16,
}

/// Bit `i` of `x` is set.
pub fn bit_exec(x: u32, i: u32) -> (r: bool)
    requires
        i < 32,
    ensures
        r == bit(x, i),
{
    (x >> i) & 1u32 == 1u32
}

/// `x` with bit `i` set where `c` holds.
pub fn with_exec(x: u32, i: u32, c: bool) -> (r: u32)
    requires
        i < 32,
    ensures
        r == with(x, i, c),
{
    if c {
        x | (1u32 << i)
    } else {
        x
    }
}

/// The flag word with bits 0 to 3 set as given.
pub open spec fn word4(b0: bool, b1: bool, b2: bool, b3: bool) -> u32 {
    (if b0 { 1u32 } else { 0u32 }) | (if b1 { 2u32 } else { 0u32 }) | (if b2 { 4u32 } else { 0u32 })
        | (if b3 { 8u32 } else { 0u32 })
}

/// The bits of a four-bit flag word are the ones it was built with, and it
/// has no other.
pub proof fn lemma_word4(b0: bool, b1: bool, b2: bool, b3: bool)
    by (bit_vector)
    ensures
        bit(word4(b0, b1, b2, b3), 0) == b0,
        bit(word4(b0, b1, b2, b3), 1) == b1,
        bit(word4(b0, b1, b2, b3), 2) == b2,
        bit(word4(b0, b1, b2, b3), 3) == b3,
        word4(b0, b1, b2, b3) < 16,
{
}

/// A flag word of the four known bits is the word of its bits.
pub proof fn lemma_word4_rebuild(x: u32)
    by (bit_vector)
    requires
        x < 16,
    ensures
        x == word4(bit(x, 0), bit(x, 1), bit(x, 2), bit(x, 3)),
{
}

/// The flag word with bits 0 to 3 set as given.
pub fn word4_exec(b0: bool, b1: bool, b2: bool, b3: bool) -> (r: u32)
    ensures
        r == word4(b0, b1, b2, b3),
{
    (if b0 { 1u32 } else { 0u32 }) | (if b1 { 2u32 } else { 0u32 }) | (if b2 { 4u32 } else { 0u32 })
        | (if b3 { 8u32 } else { 0u32 })
}

} // verus!
