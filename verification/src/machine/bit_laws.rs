//! What counting and finding set bits give, and what shifts and rotations
//! keep, stated over the bits of their arguments.

use vstd::prelude::*;

use super::bitwise::{
    bit_at, bit_in_range, byte_popcount, complement_bytes, count_bits, first_set_bit, low_bit,
    rotate_bytes, shift_bytes,
};

verus! {

/// Bit `i` of a string is bit `i` of its last byte for `i < 8`, and bit
/// `i - 8` of the string without its last byte beyond.
proof fn lemma_bit_at_split(b: Seq<u8>, i: int)
    requires
        b.len() > 0,
        bit_in_range(b, i),
    ensures
        i < 8 ==> bit_at(b, i) == ((b.last() >> (i as u8)) & 1u8 == 1u8),
        i >= 8 ==> bit_at(b, i) == bit_at(b.drop_last(), i - 8),
{
    if i >= 8 {
        assert((i - 8) / 8 == i / 8 - 1);
        assert((i - 8) % 8 == i % 8);
        assert(b.drop_last()[b.drop_last().len() - 1 - (i - 8) / 8] == b[b.len() - 1 - i / 8]);
    }
}

/// Bit `t` of the byte `x`, as a test of one bit of its mask.
proof fn lemma_byte_bits(x: u8)
    ensures
        ((x >> 0u8) & 1u8 == 1u8) == (x & 1u8 != 0),
        ((x >> 1u8) & 1u8 == 1u8) == (x & 2u8 != 0),
        ((x >> 2u8) & 1u8 == 1u8) == (x & 4u8 != 0),
        ((x >> 3u8) & 1u8 == 1u8) == (x & 8u8 != 0),
        ((x >> 4u8) & 1u8 == 1u8) == (x & 16u8 != 0),
        ((x >> 5u8) & 1u8 == 1u8) == (x & 32u8 != 0),
        ((x >> 6u8) & 1u8 == 1u8) == (x & 64u8 != 0),
        ((x >> 7u8) & 1u8 == 1u8) == (x & 128u8 != 0),
        (x != 0) == (x & 1u8 != 0 || x & 2u8 != 0 || x & 4u8 != 0 || x & 8u8 != 0 || x & 16u8 != 0
            || x & 32u8 != 0 || x & 64u8 != 0 || x & 128u8 != 0),
{
    assert(((x >> 0u8) & 1u8 == 1u8) == (x & 1u8 != 0)) by (bit_vector);
    assert(((x >> 1u8) & 1u8 == 1u8) == (x & 2u8 != 0)) by (bit_vector);
    assert(((x >> 2u8) & 1u8 == 1u8) == (x & 4u8 != 0)) by (bit_vector);
    assert(((x >> 3u8) & 1u8 == 1u8) == (x & 8u8 != 0)) by (bit_vector);
    assert(((x >> 4u8) & 1u8 == 1u8) == (x & 16u8 != 0)) by (bit_vector);
    assert(((x >> 5u8) & 1u8 == 1u8) == (x & 32u8 != 0)) by (bit_vector);
    assert(((x >> 6u8) & 1u8 == 1u8) == (x & 64u8 != 0)) by (bit_vector);
    assert(((x >> 7u8) & 1u8 == 1u8) == (x & 128u8 != 0)) by (bit_vector);
    assert((x != 0) == (x & 1u8 != 0 || x & 2u8 != 0 || x & 4u8 != 0 || x & 8u8 != 0 || x & 16u8 != 0
        || x & 32u8 != 0 || x & 64u8 != 0 || x & 128u8 != 0)) by (bit_vector);
}

/// The lowest set bit of a byte is set, and the bits below it are clear;
/// a zero byte has no set bit.
proof fn lemma_low_bit(x: u8)
    ensures
        x == 0 ==> low_bit(x) == -1 && forall|t: int| 0 <= t < 8 ==> !((#[trigger] (x >> (t as u8))) & 1u8 == 1u8),
        x != 0 ==> 0 <= low_bit(x) < 8 && (x >> (low_bit(x) as u8)) & 1u8 == 1u8 && forall|t: int|
            0 <= t < low_bit(x) ==> !((#[trigger] (x >> (t as u8))) & 1u8 == 1u8),
{
    lemma_byte_bits(x);
    assert forall|t: int| 0 <= t < 8 && (x == 0 || t < low_bit(x)) implies !((#[trigger] (x >> (t as u8))) & 1u8 == 1u8) by {
        if t == 0 {
            assert((t as u8) == 0u8);
        } else if t == 1 {
            assert((t as u8) == 1u8);
        } else if t == 2 {
            assert((t as u8) == 2u8);
        } else if t == 3 {
            assert((t as u8) == 3u8);
        } else if t == 4 {
            assert((t as u8) == 4u8);
        } else if t == 5 {
            assert((t as u8) == 5u8);
        } else if t == 6 {
            assert((t as u8) == 6u8);
        } else {
            assert((t as u8) == 7u8);
        }
    }
}

/// `findFirstSetBit b` is -1 exactly when no bit of `b` is set; otherwise
/// it is the index of a set bit below which every bit is clear.
pub proof fn lemma_first_set_bit(b: Seq<u8>)
    ensures
        (first_set_bit(b) == -1) == (forall|i: int| bit_in_range(b, i) ==> !#[trigger] bit_at(b, i)),
        first_set_bit(b) != -1 ==> bit_in_range(b, first_set_bit(b)) && bit_at(b, first_set_bit(b)),
        forall|j: int| 0 <= j < first_set_bit(b) ==> !#[trigger] bit_at(b, j),
    decreases b.len(),
{
    if b.len() > 0 {
        let x = b.last();
        let p = b.drop_last();
        lemma_first_set_bit(p);
        lemma_low_bit(x);
        assert forall|i: int| bit_in_range(b, i) implies #[trigger] bit_at(b, i) == (if i < 8 {
            (x >> (i as u8)) & 1u8 == 1u8
        } else {
            bit_at(p, i - 8)
        }) by {
            lemma_bit_at_split(b, i);
        }
        if x != 0 {
            assert(bit_in_range(b, low_bit(x)));
            assert(bit_at(b, low_bit(x)));
            assert(first_set_bit(b) == low_bit(x));
            assert forall|j: int| 0 <= j < first_set_bit(b) implies !#[trigger] bit_at(b, j) by {
                assert(bit_at(b, j) == ((x >> (j as u8)) & 1u8 == 1u8));
            }
        } else {
            let r = first_set_bit(p);
            if r >= 0 {
                assert(bit_at(b, r + 8));
                assert forall|j: int| 0 <= j < r + 8 implies !#[trigger] bit_at(b, j) by {
                    if j >= 8 {
                        assert(!bit_at(p, j - 8));
                    }
                }
            } else {
                assert forall|i: int| bit_in_range(b, i) implies !#[trigger] bit_at(b, i) by {
                    if i >= 8 {
                        assert(bit_in_range(p, i - 8));
                    }
                }
            }
        }
        if first_set_bit(b) == -1 {
            assert(x == 0);
        }
    }
}

/// Counting set bits adds up over a concatenation.
pub proof fn lemma_count_bits_concat(a: Seq<u8>, b: Seq<u8>)
    ensures
        count_bits(a + b) == count_bits(a) + count_bits(b),
    decreases b.len(),
{
    if b.len() > 0 {
        lemma_count_bits_concat(a, b.drop_last());
        assert((a + b).drop_last() =~= a + b.drop_last());
    }
}

/// A byte has between 0 and 8 set bits; 0 only for the zero byte, 8 only
/// for 255; its complement has the others.
pub proof fn lemma_byte_popcount(x: u8)
    ensures
        0 <= byte_popcount(x) <= 8,
        (byte_popcount(x) == 0) == (x == 0),
        (byte_popcount(x) == 8) == (x == 255),
        byte_popcount(x) + byte_popcount(!x) == 8,
{
    assert(((x & 1u8) + ((x >> 1u8) & 1u8) + ((x >> 2u8) & 1u8) + ((x >> 3u8) & 1u8) + ((x >> 4u8) & 1u8)
        + ((x >> 5u8) & 1u8) + ((x >> 6u8) & 1u8) + ((x >> 7u8) & 1u8)) + ((!x & 1u8) + ((!x >> 1u8) & 1u8)
        + ((!x >> 2u8) & 1u8) + ((!x >> 3u8) & 1u8) + ((!x >> 4u8) & 1u8) + ((!x >> 5u8) & 1u8) + ((!x
        >> 6u8) & 1u8) + ((!x >> 7u8) & 1u8)) == 8) by (bit_vector);
    assert((((x & 1u8) + ((x >> 1u8) & 1u8) + ((x >> 2u8) & 1u8) + ((x >> 3u8) & 1u8) + ((x >> 4u8) & 1u8)
        + ((x >> 5u8) & 1u8) + ((x >> 6u8) & 1u8) + ((x >> 7u8) & 1u8)) == 0) == (x == 0)) by (bit_vector);
    assert((((x & 1u8) + ((x >> 1u8) & 1u8) + ((x >> 2u8) & 1u8) + ((x >> 3u8) & 1u8) + ((x >> 4u8) & 1u8)
        + ((x >> 5u8) & 1u8) + ((x >> 6u8) & 1u8) + ((x >> 7u8) & 1u8)) == 8) == (x == 255)) by (bit_vector);
    assert((x & 1u8) <= 1 && ((x >> 1u8) & 1u8) <= 1 && ((x >> 2u8) & 1u8) <= 1 && ((x >> 3u8) & 1u8) <= 1
        && ((x >> 4u8) & 1u8) <= 1 && ((x >> 5u8) & 1u8) <= 1 && ((x >> 6u8) & 1u8) <= 1 && ((x >> 7u8)
        & 1u8) <= 1) by (bit_vector);
}

/// `countSetBits` counts at most all bits, none only for a string of zero
/// bytes, and a string and its complement have all bits between them.
pub proof fn lemma_count_set_bits(b: Seq<u8>)
    ensures
        0 <= count_bits(b) <= 8 * b.len(),
        (count_bits(b) == 0) == (forall|i: int| 0 <= i < b.len() ==> #[trigger] b[i] == 0),
        count_bits(b) + count_bits(complement_bytes(b)) == 8 * b.len(),
    decreases b.len(),
{
    if b.len() > 0 {
        let p = b.drop_last();
        lemma_count_set_bits(p);
        lemma_byte_popcount(b.last());
        assert(complement_bytes(b).drop_last() =~= complement_bytes(p));
        assert(complement_bytes(b).last() == !b.last());
        if count_bits(b) == 0 {
            assert forall|i: int| 0 <= i < b.len() implies #[trigger] b[i] == 0 by {
                if i < b.len() - 1 {
                    assert(p[i] == b[i]);
                }
            }
        } else {
            if forall|i: int| 0 <= i < b.len() ==> #[trigger] b[i] == 0 {
                assert(b[b.len() - 1] == 0);
                assert forall|i: int| 0 <= i < p.len() implies #[trigger] p[i] == 0 by {
                    assert(b[i] == 0);
                }
            }
        }
    }
}

/// Shifts and rotations keep the length of the string.
pub proof fn lemma_shift_rotate_length(b: Seq<u8>, k: int)
    ensures
        shift_bytes(b, k).len() == b.len(),
        rotate_bytes(b, k).len() == b.len(),
{
}

} // verus!
