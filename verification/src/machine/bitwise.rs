//! Bits of byte strings: bit `i` of a byte string is bit `i mod 8` of the
//! byte `i div 8` places from its end, so that bit 0 is the lowest bit of
//! the last byte.

use vstd::prelude::*;

use crate::flat::data::{be_value, integer_from_be};
use crate::integer::{min_be_bytes, Integer};

verus! {

/// Bit `i` of `b`.
pub open spec fn bit_at(b: Seq<u8>, i: int) -> bool {
    (b[b.len() - 1 - i / 8] >> ((i % 8) as u8)) & 1u8 == 1u8
}

/// Whether `i` indexes a bit of `b`.
pub open spec fn bit_in_range(b: Seq<u8>, i: int) -> bool {
    0 <= i < 8 * b.len()
}

/// Where bit `i` of a byte string of `n` bytes lies: the position of its
/// byte from the start, and the bit within that byte; `None` outside
/// `0..8n`.
pub fn bit_position(i: &Integer, n: usize) -> (r: Option<(usize, u8)>)
    requires
        i.wf(),
    ensures
        r is Some <==> 0 <= i@ < 8 * n,
        r matches Some((p, t)) ==> p == n - 1 - i@ / 8 && t == i@ % 8 && p < n && t < 8,
{
    let zero = Integer::from_u64(0);
    if i.less_than(&zero) {
        return None;
    }
    let limit = Integer::from_u64(n as u64).multiply(&Integer::from_u64(8));
    if !i.less_than(&limit) {
        return None;
    }
    let q = i.shift_right(3);
    let back = q.shift_left(3);
    let rest = i.subtract(&back);
    proof {
        vstd::arithmetic::power2::lemma2_to64();
        assert(q@ == i@ / 8);
        assert(rest@ == i@ % 8);
    }
    let qs = match q.to_usize() {
        Some(x) => x,
        None => {
            return None;
        },
    };
    let t = match rest.to_u64() {
        Some(x) => x,
        None => {
            return None;
        },
    };
    Some((n - 1 - qs, t as u8))
}

/// Bit `t` of the byte `x`.
pub fn byte_bit(x: u8, t: u8) -> (r: bool)
    requires
        t < 8,
    ensures
        r == ((x >> t) & 1u8 == 1u8),
{
    (x >> t) & 1u8 == 1u8
}

/// The complement of every byte.
pub open spec fn complement_bytes(b: Seq<u8>) -> Seq<u8> {
    Seq::new(b.len(), |i: int| !b[i])
}

/// The complement of every byte of `b`.
pub fn complement(b: &Vec<u8>) -> (r: Vec<u8>)
    ensures
        r@ == complement_bytes(b@),
{
    let mut out: Vec<u8> = Vec::new();
    let mut i: usize = 0;
    while i < b.len()
        invariant
            i <= b@.len(),
            out@ =~= complement_bytes(b@).take(i as int),
        decreases b@.len() - i,
    {
        out.push(!b[i]);
        proof {
            assert(complement_bytes(b@).take(i + 1) =~= complement_bytes(b@).take(i as int).push(!b@[i as int]));
        }
        i = i + 1;
    }
    proof {
        assert(complement_bytes(b@).take(b@.len() as int) =~= complement_bytes(b@));
    }
    out
}

/// The number of set bits of the byte `x`.
pub open spec fn byte_popcount(x: u8) -> int {
    ((x & 1u8) + ((x >> 1u8) & 1u8) + ((x >> 2u8) & 1u8) + ((x >> 3u8) & 1u8) + ((x >> 4u8) & 1u8)
        + ((x >> 5u8) & 1u8) + ((x >> 6u8) & 1u8) + ((x >> 7u8) & 1u8)) as int
}

/// The number of set bits of `b`.
pub open spec fn count_bits(b: Seq<u8>) -> int
    decreases b.len(),
{
    if b.len() == 0 {
        0
    } else {
        count_bits(b.drop_last()) + byte_popcount(b.last())
    }
}

/// The number of set bits of `b`.
pub fn count_set_bits(b: &Vec<u8>) -> (r: Integer)
    ensures
        r@ == count_bits(b@),
        r.wf(),
{
    let mut total: i128 = 0;
    let mut i: usize = 0;
    proof {
        assert(b@.take(0) =~= Seq::<u8>::empty());
    }
    while i < b.len()
        invariant
            i <= b@.len(),
            total == count_bits(b@.take(i as int)),
            0 <= total <= 8 * i,
        decreases b@.len() - i,
    {
        let x = b[i];
        let c = ((x & 1u8) as i128) + (((x >> 1u8) & 1u8) as i128) + (((x >> 2u8) & 1u8) as i128)
            + (((x >> 3u8) & 1u8) as i128) + (((x >> 4u8) & 1u8) as i128) + (((x >> 5u8) & 1u8)
            as i128) + (((x >> 6u8) & 1u8) as i128) + (((x >> 7u8) & 1u8) as i128);
        proof {
            assert(b@.take(i + 1).drop_last() =~= b@.take(i as int));
            assert(b@.take(i + 1).last() == x);
            assert((x & 1u8) <= 1 && ((x >> 1u8) & 1u8) <= 1 && ((x >> 2u8) & 1u8) <= 1 && ((x
                >> 3u8) & 1u8) <= 1 && ((x >> 4u8) & 1u8) <= 1 && ((x >> 5u8) & 1u8) <= 1 && ((x
                >> 6u8) & 1u8) <= 1 && ((x >> 7u8) & 1u8) <= 1) by (bit_vector);
        }
        total = total + c;
        i = i + 1;
    }
    proof {
        assert(b@.take(b@.len() as int) =~= b@);
    }
    Integer::from_i128(total)
}

/// The index of the lowest set bit of the byte `x`, or -1 for zero.
pub open spec fn low_bit(x: u8) -> int {
    if x & 1u8 != 0 {
        0
    } else if x & 2u8 != 0 {
        1
    } else if x & 4u8 != 0 {
        2
    } else if x & 8u8 != 0 {
        3
    } else if x & 16u8 != 0 {
        4
    } else if x & 32u8 != 0 {
        5
    } else if x & 64u8 != 0 {
        6
    } else if x & 128u8 != 0 {
        7
    } else {
        -1
    }
}

/// The index of the lowest set bit of `b`, or -1 where no bit is set.
pub open spec fn first_set_bit(b: Seq<u8>) -> int
    decreases b.len(),
{
    if b.len() == 0 {
        -1
    } else if b.last() != 0 {
        low_bit(b.last())
    } else {
        let r = first_set_bit(b.drop_last());
        if r < 0 {
            -1
        } else {
            r + 8
        }
    }
}

/// `r` moved up by `z` whole bytes, unless it is the mark -1 of no set bit.
pub open spec fn bits_above(r: int, z: int) -> int {
    if r < 0 {
        -1
    } else {
        r + 8 * z
    }
}

/// The index of the lowest set bit of `b`, or -1 where no bit is set.
pub fn find_first_set_bit(b: &Vec<u8>) -> (r: Integer)
    ensures
        r@ == first_set_bit(b@),
        r.wf(),
{
    let n = b.len();
    let mut k = n;
    proof {
        assert(b@.take(n as int) =~= b@);
    }
    while k > 0
        invariant
            k <= n == b@.len(),
            first_set_bit(b@) == bits_above(first_set_bit(b@.take(k as int)), (n - k) as int),
        decreases k,
    {
        let x = b[k - 1];
        proof {
            assert(b@.take(k as int).drop_last() =~= b@.take(k - 1));
            assert(b@.take(k as int).last() == x);
        }
        if x != 0 {
            let t: i128 = if x & 1u8 != 0 {
                0
            } else if x & 2u8 != 0 {
                1
            } else if x & 4u8 != 0 {
                2
            } else if x & 8u8 != 0 {
                3
            } else if x & 16u8 != 0 {
                4
            } else if x & 32u8 != 0 {
                5
            } else if x & 64u8 != 0 {
                6
            } else {
                7
            };
            proof {
                assert(x != 0 ==> (x & 1u8 != 0 || x & 2u8 != 0 || x & 4u8 != 0 || x & 8u8 != 0 || x
                    & 16u8 != 0 || x & 32u8 != 0 || x & 64u8 != 0 || x & 128u8 != 0)) by (bit_vector);
            }
            return Integer::from_i128(t + 8 * ((n - k) as i128));
        }
        k = k - 1;
    }
    proof {
        assert(b@.take(0) =~= Seq::<u8>::empty());
    }
    Integer::from_i128(-1)
}

/// `b` with bit `i` set to `v`.
pub open spec fn set_bit(b: Seq<u8>, i: int, v: bool) -> Seq<u8> {
    let p = b.len() - 1 - i / 8;
    let mask = 1u8 << ((i % 8) as u8);
    b.update(p, if v { b[p] | mask } else { b[p] & !mask })
}

/// `b` with bit `i` set to `v`.
pub fn assign_bit(b: &mut Vec<u8>, p: usize, t: u8, v: bool)
    requires
        p < old(b)@.len(),
        t < 8,
    ensures
        final(b)@ == old(b)@.update(
            p as int,
            if v {
                old(b)@[p as int] | (1u8 << t)
            } else {
                old(b)@[p as int] & !(1u8 << t)
            },
        ),
{
    let x = b[p];
    let mask = 1u8 << t;
    let y = if v { x | mask } else { x & !mask };
    b.set(p, y);
}

/// `n` copies of the byte `w`.
pub open spec fn replicate_bytes(n: nat, w: u8) -> Seq<u8> {
    Seq::new(n, |i: int| w)
}

/// `n` copies of the byte `w`.
pub fn replicate(n: usize, w: u8) -> (r: Vec<u8>)
    ensures
        r@ == replicate_bytes(n as nat, w),
{
    let mut out: Vec<u8> = Vec::new();
    let mut i: usize = 0;
    while i < n
        invariant
            i <= n,
            out@ =~= replicate_bytes(i as nat, w),
        decreases n - i,
    {
        out.push(w);
        i = i + 1;
    }
    out
}

/// The shortest big-endian bytes of `n`: none for zero.
pub open spec fn integer_bytes(n: nat) -> Seq<u8> {
    if n == 0 {
        Seq::empty()
    } else {
        min_be_bytes(n)
    }
}

/// The bytes of `m`, big-endian, padded with zero bytes in front to `w`
/// bytes; reversed for little-endian order.
pub open spec fn padded_bytes(big_endian: bool, w: nat, m: Seq<u8>) -> Seq<u8> {
    let be = Seq::new((w - m.len()) as nat, |i: int| 0u8) + m;
    if big_endian {
        be
    } else {
        be.reverse()
    }
}

/// The bytes of `m` padded to `w` bytes in the given order.
pub fn pad_bytes(big_endian: bool, w: usize, m: &Vec<u8>) -> (r: Vec<u8>)
    requires
        m@.len() <= w,
    ensures
        r@ == padded_bytes(big_endian, w as nat, m@),
{
    let mut be: Vec<u8> = Vec::new();
    let zeros = w - m.len();
    let mut i: usize = 0;
    while i < zeros
        invariant
            i <= zeros,
            be@ =~= Seq::new(i as nat, |j: int| 0u8),
        decreases zeros - i,
    {
        be.push(0u8);
        i = i + 1;
    }
    let mut k: usize = 0;
    while k < m.len()
        invariant
            k <= m@.len(),
            be@ =~= Seq::new(zeros as nat, |j: int| 0u8) + m@.take(k as int),
        decreases m@.len() - k,
    {
        be.push(m[k]);
        proof {
            assert(m@.take(k + 1) =~= m@.take(k as int).push(m@[k as int]));
        }
        k = k + 1;
    }
    proof {
        assert(m@.take(m@.len() as int) =~= m@);
    }
    if big_endian {
        return be;
    }
    let mut out: Vec<u8> = Vec::new();
    let mut j = be.len();
    while j > 0
        invariant
            j <= be@.len(),
            out@ =~= be@.subrange(j as int, be@.len() as int).reverse(),
        decreases j,
    {
        out.push(be[j - 1]);
        proof {
            assert(be@.subrange(j - 1, be@.len() as int).reverse() =~= be@.subrange(
                j as int,
                be@.len() as int,
            ).reverse().push(be@[j - 1]));
        }
        j = j - 1;
    }
    proof {
        assert(be@.subrange(0, be@.len() as int) =~= be@);
    }
    out
}

/// The unsigned integer that the bytes `b` spell in the given order.
pub open spec fn bytes_integer(big_endian: bool, b: Seq<u8>) -> nat {
    if big_endian {
        be_value(b)
    } else {
        be_value(b.reverse())
    }
}

/// The unsigned integer that the bytes `b` spell in the given order.
pub fn integer_of_bytes(big_endian: bool, b: &Vec<u8>) -> (r: Integer)
    ensures
        r@ == bytes_integer(big_endian, b@),
        r.wf(),
{
    if big_endian {
        integer_from_be(b)
    } else {
        let mut rev: Vec<u8> = Vec::new();
        let mut j = b.len();
        while j > 0
            invariant
                j <= b@.len(),
                rev@ =~= b@.subrange(j as int, b@.len() as int).reverse(),
            decreases j,
        {
            rev.push(b[j - 1]);
            proof {
                assert(b@.subrange(j - 1, b@.len() as int).reverse() =~= b@.subrange(
                    j as int,
                    b@.len() as int,
                ).reverse().push(b@[j - 1]));
            }
            j = j - 1;
        }
        proof {
            assert(b@.subrange(0, b@.len() as int) =~= b@);
        }
        integer_from_be(&rev)
    }
}

/// The byte whose bit `t`, for `t < k`, is `f(base + t)`, its other bits
/// clear.
pub open spec fn byte_of_bits(f: spec_fn(int) -> bool, base: int, k: nat) -> u8
    decreases k,
{
    if k == 0 {
        0u8
    } else {
        byte_of_bits(f, base, (k - 1) as nat) | (if f(base + k - 1) {
            1u8 << ((k - 1) as u8)
        } else {
            0u8
        })
    }
}

/// The `n` bytes whose bit `i` is `f(i)`.
pub open spec fn bytes_of_bits(n: nat, f: spec_fn(int) -> bool) -> Seq<u8> {
    Seq::new(n, |p: int| byte_of_bits(f, 8 * (n - 1 - p), 8))
}

/// Bytes built from bits depend only on the bits that they hold.
pub proof fn lemma_byte_of_bits_agree(f: spec_fn(int) -> bool, g: spec_fn(int) -> bool, base: int, k: nat)
    requires
        forall|i: int| base <= i < base + k ==> #[trigger] f(i) == g(i),
    ensures
        byte_of_bits(f, base, k) == byte_of_bits(g, base, k),
    decreases k,
{
    if k > 0 {
        lemma_byte_of_bits_agree(f, g, base, (k - 1) as nat);
        assert(f(base + k - 1) == g(base + k - 1));
    }
}

/// Byte strings built from bits depend only on the bits that they hold.
pub proof fn lemma_bytes_of_bits_agree(n: nat, f: spec_fn(int) -> bool, g: spec_fn(int) -> bool)
    requires
        forall|i: int| 0 <= i < 8 * n ==> #[trigger] f(i) == g(i),
    ensures
        bytes_of_bits(n, f) == bytes_of_bits(n, g),
{
    assert forall|p: int| 0 <= p < n implies #[trigger] bytes_of_bits(n, f)[p] == bytes_of_bits(n, g)[p] by {
        let base = 8 * (n - 1 - p);
        assert forall|i: int| base <= i < base + 8 implies #[trigger] f(i) == g(i) by {}
        lemma_byte_of_bits_agree(f, g, base, 8);
    }
    assert(bytes_of_bits(n, f) =~= bytes_of_bits(n, g));
}

/// The bits of `b` moved up by `k` places (down for a negative `k`), clear
/// where they come from outside `b`.
pub open spec fn shifted_bit(b: Seq<u8>, k: int) -> spec_fn(int) -> bool {
    |i: int| bit_in_range(b, i - k) && bit_at(b, i - k)
}

/// `shiftByteString`: `b` with its bits moved up by `k` places (down for a
/// negative `k`), the length kept, vacated bits clear.
pub open spec fn shift_bytes(b: Seq<u8>, k: int) -> Seq<u8> {
    bytes_of_bits(b.len(), shifted_bit(b, k))
}

/// The bits of `b` turned up by `k` places, around its length.
pub open spec fn rotated_bit(b: Seq<u8>, k: int) -> spec_fn(int) -> bool {
    |i: int| bit_at(b, (i - k) % ((8 * b.len()) as int))
}

/// `rotateByteString`: `b` with its bits turned up by `k` places (down for
/// a negative `k`), those that leave at one end coming back at the other.
pub open spec fn rotate_bytes(b: Seq<u8>, k: int) -> Seq<u8> {
    if b.len() == 0 {
        b
    } else {
        bytes_of_bits(b.len(), rotated_bit(b, k))
    }
}

/// A value in `0..8n` as an `i128`.
fn below_bits_to_i128(a: &Integer, n: usize) -> (r: i128)
    requires
        a.wf(),
        0 <= a@ < 8 * n,
    ensures
        r == a@,
{
    let q = a.shift_right(3);
    let back = q.shift_left(3);
    let rest = a.subtract(&back);
    proof {
        vstd::arithmetic::power2::lemma2_to64();
    }
    let qs = match q.to_usize() {
        Some(x) => x,
        None => {
            proof {
                assert(false);
            }
            0
        },
    };
    let t = match rest.to_u64() {
        Some(x) => x,
        None => {
            proof {
                assert(false);
            }
            0
        },
    };
    8 * (qs as i128) + (t as i128)
}

/// The shift `k` for a byte string of `n` bytes, clamped to `-8n..=8n`,
/// which moves the same bits.
fn clamp_shift(k: &Integer, n: usize) -> (r: i128)
    requires
        k.wf(),
    ensures
        k@ >= 8 * n ==> r == 8 * n,
        k@ <= -8 * n ==> r == -8 * n,
        -8 * n < k@ < 8 * n ==> r == k@,
{
    let zero = Integer::from_u64(0);
    let limit = Integer::from_u64(n as u64).multiply(&Integer::from_u64(8));
    let eight_n: i128 = 8 * (n as i128);
    if !k.less_than(&limit) {
        return eight_n;
    }
    let neg = k.less_than(&zero);
    let a = if neg {
        zero.subtract(k)
    } else {
        k.normalize()
    };
    if !a.less_than(&limit) {
        return -eight_n;
    }
    let v = below_bits_to_i128(&a, n);
    if neg {
        -v
    } else {
        v
    }
}

/// Bit `src` of `b`, for `src` in `0..8 len`.
fn read_bit_at(b: &Vec<u8>, src: i128) -> (r: bool)
    requires
        0 <= src < 8 * b@.len(),
    ensures
        r == bit_at(b@, src as int),
{
    let n = b.len();
    let p = n - 1 - (src / 8) as usize;
    let t = (src % 8) as u8;
    byte_bit(b[p], t)
}

/// The bytes of `b` with bit `i` taken from bit `source(i)`: the exec
/// side of [`bytes_of_bits`], for shifts (`rotate` false) and rotations.
fn move_bits(b: &Vec<u8>, k: i128, rotate: bool) -> (r: Vec<u8>)
    requires
        -8 * b@.len() <= k <= 8 * b@.len(),
        rotate ==> 0 <= k < 8 * b@.len(),
    ensures
        r@.len() == b@.len(),
        !rotate ==> r@ == bytes_of_bits(b@.len(), shifted_bit(b@, k as int)),
        rotate ==> r@ == bytes_of_bits(b@.len(), rotated_bit(b@, k as int)),
{
    let n = b.len();
    let total: i128 = 8 * (n as i128);
    let ghost f = if rotate {
        rotated_bit(b@, k as int)
    } else {
        shifted_bit(b@, k as int)
    };
    let mut out: Vec<u8> = Vec::new();
    let mut p: usize = 0;
    while p < n
        invariant
            p <= n == b@.len(),
            total == 8 * n,
            -8 * n <= k <= 8 * n,
            rotate ==> 0 <= k < 8 * n,
            f == (if rotate { rotated_bit(b@, k as int) } else { shifted_bit(b@, k as int) }),
            out@ =~= bytes_of_bits(n as nat, f).take(p as int),
        decreases n - p,
    {
        let base: i128 = 8 * ((n - 1 - p) as i128);
        let mut acc: u8 = 0;
        let mut t: u8 = 0;
        while t < 8
            invariant
                p < n == b@.len(),
                total == 8 * n,
                -8 * n <= k <= 8 * n,
                rotate ==> 0 <= k < 8 * n,
                f == (if rotate { rotated_bit(b@, k as int) } else { shifted_bit(b@, k as int) }),
                base == 8 * (n - 1 - p),
                t <= 8,
                acc == byte_of_bits(f, base as int, t as nat),
            decreases 8 - t,
        {
            let i = base + (t as i128);
            let mut src = i - k;
            let bit = if rotate {
                if src < 0 {
                    src = src + total;
                }
                proof {
                    vstd::arithmetic::div_mod::lemma_mod_multiples_vanish(1, i - k, total as int);
                    vstd::arithmetic::div_mod::lemma_small_mod(src as nat, total as nat);
                }
                read_bit_at(b, src)
            } else {
                if 0 <= src && src < total {
                    read_bit_at(b, src)
                } else {
                    false
                }
            };
            let before = acc;
            if bit {
                acc = acc | (1u8 << t);
            }
            proof {
                assert(bit == f(i as int));
                assert(before | 0u8 == before) by (bit_vector);
                assert(((t + 1 - 1) as u8) == t);
                assert(byte_of_bits(f, base as int, (t + 1) as nat) == byte_of_bits(
                    f,
                    base as int,
                    t as nat,
                ) | (if f(base + t) {
                    1u8 << t
                } else {
                    0u8
                }));
            }
            t = t + 1;
        }
        out.push(acc);
        proof {
            assert(bytes_of_bits(n as nat, f).take(p + 1) =~= bytes_of_bits(n as nat, f).take(
                p as int,
            ).push(acc));
        }
        p = p + 1;
    }
    proof {
        assert(bytes_of_bits(n as nat, f).take(n as int) =~= bytes_of_bits(n as nat, f));
    }
    out
}

/// `b` with its bits moved up by `k` places (see [`shift_bytes`]).
pub fn shift(b: &Vec<u8>, k: &Integer) -> (r: Vec<u8>)
    requires
        k.wf(),
    ensures
        r@ == shift_bytes(b@, k@),
{
    let n = b.len();
    let c = clamp_shift(k, n);
    let r = move_bits(b, c, false);
    proof {
        assert forall|i: int| 0 <= i < 8 * b@.len() implies #[trigger] shifted_bit(b@, c as int)(i)
            == shifted_bit(b@, k@)(i) by {}
        lemma_bytes_of_bits_agree(b@.len(), shifted_bit(b@, c as int), shifted_bit(b@, k@));
    }
    r
}

/// `b` with its bits turned up by `k` places (see [`rotate_bytes`]).
pub fn rotate(b: &Vec<u8>, k: &Integer) -> (r: Vec<u8>)
    requires
        k.wf(),
    ensures
        r@ == rotate_bytes(b@, k@),
{
    let n = b.len();
    if n == 0 {
        return Vec::new();
    }
    let limit = Integer::from_u64(n as u64).multiply(&Integer::from_u64(8));
    let m = match k.modulo(&limit) {
        Some(m) => m,
        None => {
            return Vec::new();
        },
    };
    proof {
        vstd::arithmetic::div_mod::lemma_fundamental_div_mod(k@, limit@);
        assert(m@ == k@ % limit@);
    }
    let c = below_bits_to_i128(&m, n);
    let r = move_bits(b, c, true);
    proof {
        let total = 8 * n as int;
        assert forall|i: int| #[trigger] rotated_bit(b@, c as int)(i) == rotated_bit(b@, k@)(i) by {
            vstd::arithmetic::div_mod::lemma_fundamental_div_mod(k@, total);
            vstd::arithmetic::div_mod::lemma_mod_multiples_vanish(k@ / total, i - k@, total);
            assert(i - c == (i - k@) + total * (k@ / total));
        }
        assert(rotated_bit(b@, c as int) =~= rotated_bit(b@, k@));
    }
    r
}

/// Setting bit `s` of a byte sets that bit and keeps the others.
proof fn lemma_or_bit(x: u8, s: u8, t: u8)
    requires
        s < 8,
        t < 8,
    ensures
        ((x | (1u8 << s)) >> t) & 1u8 == (if t == s { 1u8 } else { (x >> t) & 1u8 }),
{
    assert(((x | (1u8 << s)) >> t) & 1u8 == (if t == s { 1u8 } else { (x >> t) & 1u8 })) by (bit_vector)
        requires
            s < 8,
            t < 8,
    ;
}

/// Clearing bit `s` of a byte clears that bit and keeps the others.
proof fn lemma_and_not_bit(x: u8, s: u8, t: u8)
    requires
        s < 8,
        t < 8,
    ensures
        ((x & !(1u8 << s)) >> t) & 1u8 == (if t == s { 0u8 } else { (x >> t) & 1u8 }),
{
    assert(((x & !(1u8 << s)) >> t) & 1u8 == (if t == s { 0u8 } else { (x >> t) & 1u8 })) by (bit_vector)
        requires
            s < 8,
            t < 8,
    ;
}

/// A byte built from bits up to `k` holds bit `t` as `f(base + t)` below
/// `k`, and no bit from `k` on.
proof fn lemma_byte_of_bits_bit(f: spec_fn(int) -> bool, base: int, k: nat, t: u8)
    requires
        k <= 8,
        t < 8,
    ensures
        (byte_of_bits(f, base, k) >> t) & 1u8 == (if t < k && f(base + t) { 1u8 } else { 0u8 }),
    decreases k,
{
    if k == 0 {
        assert((0u8 >> t) & 1u8 == 0u8) by (bit_vector);
    } else {
        lemma_byte_of_bits_bit(f, base, (k - 1) as nat, t);
        let x = byte_of_bits(f, base, (k - 1) as nat);
        let s = (k - 1) as u8;
        if f(base + k - 1) {
            lemma_or_bit(x, s, t);
        } else {
            assert(x | 0u8 == x) by (bit_vector);
        }
    }
}

/// Bit `i` of the bytes built from `f` is `f(i)`.
pub proof fn lemma_bit_of_bytes_of_bits(n: nat, f: spec_fn(int) -> bool, i: int)
    requires
        0 <= i < 8 * n,
    ensures
        bit_at(bytes_of_bits(n, f), i) == f(i),
{
    let p = n - 1 - i / 8;
    let t = (i % 8) as u8;
    assert(8 * (n - 1 - p) + t == i);
    lemma_byte_of_bits_bit(f, 8 * (n - 1 - p), 8, t);
}

/// A shift moves every bit by `k` places: bit `i` of the result is bit
/// `i - k` of `b`, clear where that lies outside `b`.
pub proof fn lemma_shift_bit(b: Seq<u8>, k: int, i: int)
    requires
        bit_in_range(b, i),
    ensures
        bit_at(shift_bytes(b, k), i) == (bit_in_range(b, i - k) && bit_at(b, i - k)),
{
    lemma_bit_of_bytes_of_bits(b.len(), shifted_bit(b, k), i);
}

/// A rotation turns every bit by `k` places around the length: bit `i` of
/// the result is bit `(i - k) mod 8n` of `b`.
pub proof fn lemma_rotate_bit(b: Seq<u8>, k: int, i: int)
    requires
        bit_in_range(b, i),
    ensures
        bit_at(rotate_bytes(b, k), i) == bit_at(b, (i - k) % (8 * b.len() as int)),
{
    lemma_bit_of_bytes_of_bits(b.len(), rotated_bit(b, k), i);
}

/// Reading a bit after setting it gives what was written, and the other
/// bits are as before.
pub proof fn lemma_read_after_set_bit(b: Seq<u8>, i: int, v: bool, j: int)
    requires
        bit_in_range(b, i),
        bit_in_range(b, j),
    ensures
        set_bit(b, i, v).len() == b.len(),
        bit_at(set_bit(b, i, v), j) == (if j == i { v } else { bit_at(b, j) }),
{
    let n = b.len();
    let p = n - 1 - i / 8;
    let q = n - 1 - j / 8;
    let s = (i % 8) as u8;
    let t = (j % 8) as u8;
    if p == q {
        if v {
            lemma_or_bit(b[p], s, t);
        } else {
            lemma_and_not_bit(b[p], s, t);
        }
        assert(j == i <==> t == s);
    } else {
        assert(j != i);
    }
}

/// The shortest big-endian bytes of `n` spell `n`.
pub proof fn lemma_be_value_min_be_bytes(n: nat)
    ensures
        be_value(min_be_bytes(n)) == n,
    decreases n,
{
    if n < 256 {
        assert(seq![n as u8].drop_last() =~= Seq::<u8>::empty());
        assert(be_value(Seq::<u8>::empty()) == 0);
    } else {
        lemma_be_value_min_be_bytes(n / 256);
        let s = min_be_bytes(n / 256);
        assert(s.push((n % 256) as u8).drop_last() =~= s);
        vstd::arithmetic::div_mod::lemma_fundamental_div_mod(n as int, 256);
        assert(((n % 256) as u8) as nat == n % 256);
    }
}

/// Leading zero bytes do not change a big-endian value.
pub proof fn lemma_be_value_zero_prefix(z: nat, m: Seq<u8>)
    ensures
        be_value(Seq::new(z, |i: int| 0u8) + m) == be_value(m),
    decreases m.len(), z,
{
    let zs = Seq::new(z, |i: int| 0u8);
    if m.len() == 0 {
        assert(zs + m =~= zs);
        if z > 0 {
            lemma_be_value_zero_prefix((z - 1) as nat, m);
            assert(zs.drop_last() =~= Seq::new((z - 1) as nat, |i: int| 0u8));
            assert(Seq::new((z - 1) as nat, |i: int| 0u8) + m =~= Seq::new((z - 1) as nat, |i: int| 0u8));
        }
    } else {
        lemma_be_value_zero_prefix(z, m.drop_last());
        assert((zs + m).drop_last() =~= zs + m.drop_last());
        assert((zs + m).last() == m.last());
    }
}

/// What `integerToByteString` writes, `byteStringToInteger` reads back in
/// the same byte order.
pub proof fn lemma_integer_bytes_roundtrip(big_endian: bool, w: nat, n: nat)
    requires
        integer_bytes(n).len() <= w,
    ensures
        bytes_integer(big_endian, padded_bytes(big_endian, w, integer_bytes(n))) == n,
{
    let m = integer_bytes(n);
    let be = Seq::new((w - m.len()) as nat, |i: int| 0u8) + m;
    lemma_be_value_zero_prefix((w - m.len()) as nat, m);
    if n == 0 {
        assert(be_value(Seq::<u8>::empty()) == 0);
    } else {
        lemma_be_value_min_be_bytes(n);
    }
    if !big_endian {
        assert(be.reverse().reverse() =~= be);
    }
}

} // verus!
