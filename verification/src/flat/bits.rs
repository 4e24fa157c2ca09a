//! The bit-sequence model of the Flat format: bytes are read most
//! significant bit first, and a value of `n` bits is written most
//! significant bit first.

use vstd::arithmetic::power2::{lemma2_to64, lemma_pow2_pos, lemma_pow2_unfold, pow2};
use vstd::prelude::*;

verus! {

/// The `n` low bits of `v`, most significant first.
pub open spec fn to_bits(v: nat, n: nat) -> Seq<bool>
    decreases n,
{
    if n == 0 {
        Seq::empty()
    } else {
        to_bits(v / 2, (n - 1) as nat).push(v % 2 == 1)
    }
}

/// The number whose binary digits, most significant first, are `s`.
pub open spec fn from_bits(s: Seq<bool>) -> nat
    decreases s.len(),
{
    if s.len() == 0 {
        0
    } else {
        from_bits(s.drop_last()) * 2 + if s.last() {
            1nat
        } else {
            0nat
        }
    }
}

/// The bits of a byte sequence, each byte most significant bit first.
pub open spec fn bytes_bits(b: Seq<u8>) -> Seq<bool>
    decreases b.len(),
{
    if b.len() == 0 {
        Seq::empty()
    } else {
        bytes_bits(b.drop_last()) + to_bits(b.last() as nat, 8)
    }
}

/// No bits are written in zero bits.
pub proof fn lemma_to_bits_zero(v: nat)
    ensures
        to_bits(v, 0) == Seq::<bool>::empty(),
{
}

pub proof fn lemma_to_bits_len(v: nat, n: nat)
    ensures
        #[trigger] to_bits(v, n).len() == n,
    decreases n,
{
    if n > 0 {
        lemma_to_bits_len(v / 2, (n - 1) as nat);
    }
}

pub proof fn lemma_bytes_bits_len(b: Seq<u8>)
    ensures
        #[trigger] bytes_bits(b).len() == 8 * b.len(),
    decreases b.len(),
{
    if b.len() > 0 {
        lemma_bytes_bits_len(b.drop_last());
        lemma_to_bits_len(b.last() as nat, 8);
    }
}

/// Appending a byte appends its eight bits.
pub proof fn lemma_bytes_bits_push(b: Seq<u8>, x: u8)
    ensures
        bytes_bits(b.push(x)) == bytes_bits(b) + to_bits(x as nat, 8),
{
    assert(b.push(x).drop_last() =~= b);
}

/// Writing `v` in `n` bits after `p` in `u` bits is writing `p * 2^n + v` in
/// `u + n` bits.
pub proof fn lemma_to_bits_concat(p: nat, u: nat, v: nat, n: nat)
    requires
        v < pow2(n),
    ensures
        to_bits(p * pow2(n) + v, u + n) == to_bits(p, u) + to_bits(v, n),
    decreases n,
{
    if n == 0 {
        assert(pow2(0) == 1) by {
            lemma2_to64();
        }
        assert(v == 0);
        assert(p * pow2(n) + v == p) by (nonlinear_arith)
            requires
                pow2(n) == 1,
                v == 0,
        ;
        assert(u + n == u);
        assert(to_bits(v, 0) =~= Seq::<bool>::empty());
        assert(to_bits(p, u) + to_bits(v, 0) =~= to_bits(p, u));
    } else {
        lemma_pow2_unfold(n);
        let m = (n - 1) as nat;
        let x = p * pow2(n) + v;
        assert(p * pow2(n) == (p * pow2(m)) * 2) by (nonlinear_arith)
            requires
                pow2(n) == 2 * pow2(m),
        ;
        assert(x / 2 == p * pow2(m) + v / 2);
        assert(x % 2 == v % 2);
        assert(v / 2 < pow2(m));
        lemma_to_bits_concat(p, u, v / 2, m);
        let un = u + n;
        assert((un - 1) as nat == u + m);
        assert(to_bits(x, un) == to_bits(x / 2, (un - 1) as nat).push(x % 2 == 1));
        assert(to_bits(x / 2, u + m) == to_bits(p, u) + to_bits(v / 2, m));
        assert(to_bits(v, n) == to_bits(v / 2, m).push(v % 2 == 1));
        assert(to_bits(p, u) + to_bits(v / 2, m).push(v % 2 == 1) =~= (to_bits(p, u) + to_bits(
            v / 2,
            m,
        )).push(v % 2 == 1));
    }
}

/// Reading back `n` written bits gives the value written.
pub proof fn lemma_from_to_bits(v: nat, n: nat)
    requires
        v < pow2(n),
    ensures
        from_bits(to_bits(v, n)) == v,
    decreases n,
{
    if n == 0 {
        lemma2_to64();
    } else {
        lemma_pow2_unfold(n);
        lemma_from_to_bits(v / 2, (n - 1) as nat);
        let s = to_bits(v, n);
        assert(s.drop_last() =~= to_bits(v / 2, (n - 1) as nat));
    }
}

/// The `i`-th bit, counted from the most significant, of `v` written in `n` bits.
pub proof fn lemma_to_bits_index(v: nat, n: nat, i: nat)
    requires
        i < n,
    ensures
        to_bits(v, n)[i as int] == ((v / pow2((n - 1 - i) as nat)) % 2 == 1),
    decreases n,
{
    lemma_to_bits_len(v / 2, (n - 1) as nat);
    assert(to_bits(v, n) == to_bits(v / 2, (n - 1) as nat).push(v % 2 == 1));
    if i == n - 1 {
        lemma2_to64();
        assert((n - 1 - i) as nat == 0);
        assert(v / pow2(0) == v);
    } else {
        lemma_to_bits_index(v / 2, (n - 1) as nat, i);
        let k = (n - 2 - i) as nat;
        lemma_pow2_unfold(k + 1);
        lemma_pow2_pos(k);
        assert((v / 2) / pow2(k) == v / (2 * pow2(k))) by {
            vstd::arithmetic::div_mod::lemma_div_denominator(v as int, 2, pow2(k) as int);
        }
        assert((n - 1 - i) as nat == k + 1);
        assert(((n - 1) - 1 - i) as nat == k);
        assert(to_bits(v, n)[i as int] == to_bits(v / 2, (n - 1) as nat)[i as int]);
    }
}

/// The `i`-th bit of a byte sequence is the `(i % 8)`-th bit of byte `i / 8`.
pub proof fn lemma_bytes_bits_index(b: Seq<u8>, i: int)
    requires
        0 <= i < 8 * b.len(),
    ensures
        bytes_bits(b)[i] == to_bits(b[i / 8] as nat, 8)[i % 8],
    decreases b.len(),
{
    lemma_bytes_bits_len(b.drop_last());
    lemma_to_bits_len(b.last() as nat, 8);
    if i < 8 * (b.len() - 1) {
        lemma_bytes_bits_index(b.drop_last(), i);
    } else {
        assert(i / 8 == b.len() - 1);
    }
}

/// The bits of concatenated byte sequences are the concatenated bits.
pub proof fn lemma_bytes_bits_concat(a: Seq<u8>, b: Seq<u8>)
    ensures
        bytes_bits(a + b) == bytes_bits(a) + bytes_bits(b),
    decreases b.len(),
{
    if b.len() == 0 {
        assert(a + b =~= a);
        assert(bytes_bits(b) =~= Seq::<bool>::empty());
        assert(bytes_bits(a) + bytes_bits(b) =~= bytes_bits(a));
    } else {
        lemma_bytes_bits_concat(a, b.drop_last());
        assert((a + b).drop_last() =~= a + b.drop_last());
        assert((a + b).last() == b.last());
        assert(bytes_bits(a) + bytes_bits(b) =~= bytes_bits(a) + bytes_bits(b.drop_last()) + to_bits(
            b.last() as nat,
            8,
        ));
    }
}

} // verus!
