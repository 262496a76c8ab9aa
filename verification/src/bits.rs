//! Single-bit access to a byte, least-significant bit first.

use vstd::prelude::*;

verus! {

/// True when bit `index` of `value` is set; bit 0 is the least significant.
pub open spec fn bit_of(value: u8, index: u8) -> bool
    recommends
        index < 8,
{
    (value >> index) & 1 == 1
}

/// The byte `value` with bit `index` forced to `bit`, written as a spec-level
/// mask operation; all other bits keep their value.
pub open spec fn with_bit(value: u8, index: u8, bit: bool) -> u8
    recommends
        index < 8,
{
    if bit {
        value | (1u8 << index)
    } else {
        value & !(1u8 << index)
    }
}

/// Forcing one bit leaves every other bit alone and sets that bit exactly.
pub proof fn lemma_with_bit_effect(value: u8, index: u8, bit: bool, j: u8)
    by (bit_vector)
    requires
        index < 8,
        j < 8,
    ensures
        bit_of(with_bit(value, index, bit), j) == if j == index {
            bit
        } else {
            bit_of(value, j)
        },
{
}

/// The zero byte has no bit set.
pub proof fn lemma_zero_bits(j: u8)
    by (bit_vector)
    requires
        j < 8,
    ensures
        !bit_of(0u8, j),
{
}

/// Two bytes that agree on all eight bits are equal.
pub proof fn lemma_byte_from_bits(a: u8, b: u8)
    by (bit_vector)
    requires
        bit_of(a, 0) == bit_of(b, 0),
        bit_of(a, 1) == bit_of(b, 1),
        bit_of(a, 2) == bit_of(b, 2),
        bit_of(a, 3) == bit_of(b, 3),
        bit_of(a, 4) == bit_of(b, 4),
        bit_of(a, 5) == bit_of(b, 5),
        bit_of(a, 6) == bit_of(b, 6),
        bit_of(a, 7) == bit_of(b, 7),
    ensures
        a == b,
{
}

/// Reads bit `index` of `value`.
pub fn get_bit(value: u8, index: u8) -> (r: bool)
    requires
        index < 8,
    ensures
        r == bit_of(value, index),
{
    (value >> index) & 1 == 1
}

/// Returns `value` with bit `index` set to `bit`.
pub fn set_bit(value: u8, index: u8, bit: bool) -> (r: u8)
    requires
        index < 8,
    ensures
        r == with_bit(value, index, bit),
        forall|j: u8|
            j < 8 ==> bit_of(r, j) == if j == index {
                bit
            } else {
                bit_of(value, j)
            },
{
    let r = if bit {
        value | (1u8 << index)
    } else {
        value & !(1u8 << index)
    };
    proof {
        assert forall|j: u8| j < 8 implies bit_of(r, j) == if j == index {
            bit
        } else {
            bit_of(value, j)
        } by {
            lemma_with_bit_effect(value, index, bit, j);
        }
    }
    r
}

} // verus!
