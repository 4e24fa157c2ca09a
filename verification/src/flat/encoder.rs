//! The Flat encoder: a bit-level writer that packs bits most significant
//! first into bytes.

use vstd::arithmetic::power2::{
    lemma2_to64, lemma_pow2_adds, lemma_pow2_pos, lemma_pow2_strictly_increases,
    lemma_pow2_subtracts, lemma_pow2_unfold, pow2,
};
use vstd::bits::{lemma_u8_shl_is_mul, lemma_u8_shr_is_div};
use vstd::prelude::*;
use vstd::string::StringSliceAdditionalSpecFns;

use crate::integer::Integer;

use super::zigzag::zigzag_spec;
use super::bits::{bytes_bits, lemma_bytes_bits_concat, lemma_bytes_bits_len, lemma_bytes_bits_push, lemma_to_bits_concat, lemma_to_bits_len, to_bits};

verus! {

/// Errors of Flat encoding.
#[derive(Debug, Clone, PartialEq, Eq, Structural)]
pub enum FlatEncodeError {
    /// A tag does not fit in the bits reserved for it.
    Overflow { byte: u8, num_bits: usize },
    /// A byte array was written while the current byte was partly filled.
    BufferNotByteAligned,
}

/// The Flat encoding of a variable-length unsigned word: groups of 7 bits,
/// least significant group first, each group in one byte whose top bit tells
/// whether another group follows.
pub open spec fn enc_word(c: nat) -> Seq<bool>
    decreases c,
{
    if c / 128 == 0 {
        to_bits(c % 128, 8)
    } else {
        to_bits(c % 128 + 128, 8) + enc_word(c / 128)
    }
}

/// The chunked form of a byte array: blocks of at most 255 bytes, each
/// preceded by its length, ended by a zero length.
pub open spec fn enc_blocks(a: Seq<u8>) -> Seq<u8>
    decreases a.len(),
{
    if a.len() == 0 {
        seq![0u8]
    } else if a.len() <= 255 {
        seq![a.len() as u8] + a + seq![0u8]
    } else {
        seq![255u8] + a.subrange(0, 255) + enc_blocks(a.subrange(255, a.len() as int))
    }
}

/// The filler that pads to a byte boundary after `used` bits of the current
/// byte: zeros and a final one.
pub open spec fn enc_filler(used: nat) -> Seq<bool> {
    to_bits(1, (8 - used) as nat)
}

/// Bit-level writer for the Flat format.
pub struct Encoder {
    /// The bytes completed so far.
    pub buffer: Vec<u8>,
    /// How many bits of the current byte are written.
    pub used_bits: i64,
    /// The byte being filled, most significant bits first.
    pub current_byte: u8,
}

impl Encoder {
    /// Whether the internal state is consistent: fewer than 8 bits of the
    /// current byte are used and the unused ones are zero.
    pub closed spec fn inv(&self) -> bool {
        &&& 0 <= self.used_bits < 8
        &&& self.current_byte as nat % pow2((8 - self.used_bits) as nat) == 0
    }

    /// The number of bits of the current byte already written.
    pub closed spec fn used(&self) -> nat {
        self.used_bits as nat
    }

    /// Every bit written so far.
    pub closed spec fn written(&self) -> Seq<bool> {
        bytes_bits(self.buffer@) + to_bits(
            self.current_byte as nat / pow2((8 - self.used_bits) as nat),
            self.used_bits as nat,
        )
    }

    /// Relates the written bits to the buffer: when no bit of the current byte
    /// is used, the bits are exactly those of the buffer.
    pub proof fn lemma_aligned(&self)
        requires
            self.inv(),
            self.used() == 0,
        ensures
            self.written() == bytes_bits(self.buffer@),
    {
        let v = self.current_byte as nat / pow2((8 - self.used_bits) as nat);
        super::bits::lemma_to_bits_zero(v);
        assert(self.written() =~= bytes_bits(self.buffer@));
    }

    /// The number of bits written so far is a whole number of bytes plus the
    /// used bits of the current byte.
    pub proof fn lemma_bits_len(&self)
        requires
            self.inv(),
        ensures
            self.written().len() == 8 * self.buffer@.len() + self.used(),
    {
        lemma_bytes_bits_len(self.buffer@);
        lemma_to_bits_len(
            self.current_byte as nat / pow2((8 - self.used_bits) as nat),
            self.used_bits as nat,
        );
    }

    /// The used bits of the current byte are the number of bits written,
    /// modulo 8.
    pub proof fn lemma_used_is_offset(&self)
        requires
            self.inv(),
        ensures
            self.used() == self.written().len() % 8,
            self.used() < 8,
    {
        self.lemma_bits_len();
        let n = self.buffer@.len();
        assert((8 * n + self.used()) % 8 == self.used()) by (nonlinear_arith)
            requires
                self.used() < 8,
        ;
    }

    /// An empty encoder.
    pub fn new() -> (r: Self)
        ensures
            r.inv(),
            r.written() == Seq::<bool>::empty(),
            r.buffer@ == Seq::<u8>::empty(),
    {
        let e = Encoder { buffer: Vec::new(), used_bits: 0, current_byte: 0 };
        proof {
            lemma2_to64();
            assert(bytes_bits(e.buffer@) =~= Seq::<bool>::empty());
            assert(e.written() =~= Seq::<bool>::empty());
        }
        e
    }

    /// Completes the current byte and starts the next one.
    fn next_word(&mut self)
        ensures
            final(self).buffer@ == old(self).buffer@.push(old(self).current_byte),
            final(self).used_bits == 0,
            final(self).current_byte == 0,
    {
        self.buffer.push(self.current_byte);
        self.current_byte = 0;
        self.used_bits = 0;
    }

    proof fn lemma_reset(&self)
        requires
            self.used_bits == 0,
            self.current_byte == 0,
        ensures
            self.inv(),
            self.written() == bytes_bits(self.buffer@),
    {
        lemma2_to64();
        super::bits::lemma_to_bits_zero(0);
        assert(self.written() =~= bytes_bits(self.buffer@));
    }

    /// Writes one 0 bit.
    fn zero(&mut self)
        requires
            old(self).inv(),
        ensures
            final(self).inv(),
            final(self).written() == old(self).written().push(false),
    {
        let ghost u = self.used_bits as nat;
        let ghost c = self.current_byte as nat;
        let ghost p = c / pow2((8 - u) as nat);
        proof {
            lemma_pow2_pos((8 - u) as nat);
            lemma_pow2_pos((7 - u) as nat);
            lemma_pow2_unfold((8 - u) as nat);
            vstd::arithmetic::div_mod::lemma_fundamental_div_mod(c as int, pow2((8 - u) as nat) as int);
            assert(c == p * pow2((8 - u) as nat)) by (nonlinear_arith)
                requires
                    c == pow2((8 - u) as nat) * p + c % pow2((8 - u) as nat),
                    c % pow2((8 - u) as nat) == 0,
            ;
            assert(c == (2 * p) * pow2((7 - u) as nat)) by (nonlinear_arith)
                requires
                    c == p * pow2((8 - u) as nat),
                    pow2((8 - u) as nat) == 2 * pow2((7 - u) as nat),
            ;
            assert(c == pow2((7 - u) as nat) * (2 * p)) by (nonlinear_arith)
                requires
                    c == (2 * p) * pow2((7 - u) as nat),
            ;
            vstd::arithmetic::div_mod::lemma_div_multiples_vanish(
                (2 * p) as int,
                pow2((7 - u) as nat) as int,
            );
            vstd::arithmetic::div_mod::lemma_mod_multiples_basic(
                (2 * p) as int,
                pow2((7 - u) as nat) as int,
            );
            assert(to_bits(2 * p, u + 1) == to_bits(p, u).push(false)) by {
                assert((2 * p) / 2 == p);
                assert(((u + 1) - 1) as nat == u);
            }
        }
        if self.used_bits == 7 {
            proof {
                lemma2_to64();
                lemma_bytes_bits_push(self.buffer@, self.current_byte);
            }
            self.next_word();
            proof {
                self.lemma_reset();
                assert(c == 2 * p) by (nonlinear_arith)
                    requires
                        c == (2 * p) * pow2((7 - u) as nat),
                        pow2((7 - u) as nat) == 1,
                ;
                assert(u == 7);
                assert(bytes_bits(old(self).buffer@) + to_bits(p, u).push(false) =~= (bytes_bits(
                    old(self).buffer@,
                ) + to_bits(p, u)).push(false));
            }
        } else {
            self.used_bits = self.used_bits + 1;
            proof {
                assert((8 - self.used_bits) as nat == (7 - u) as nat);
                assert(self.current_byte as nat / pow2((8 - self.used_bits) as nat) == 2 * p);
                assert(bytes_bits(old(self).buffer@) + to_bits(p, u).push(false) =~= (bytes_bits(
                    old(self).buffer@,
                ) + to_bits(p, u)).push(false));
            }
        }
    }

    /// Writes one 1 bit.
    fn one(&mut self)
        requires
            old(self).inv(),
        ensures
            final(self).inv(),
            final(self).written() == old(self).written().push(true),
    {
        let ghost u = self.used_bits as nat;
        let ghost c = self.current_byte as nat;
        let ghost p = c / pow2((8 - u) as nat);
        proof {
            lemma2_to64();
            lemma_pow2_pos((8 - u) as nat);
            lemma_pow2_pos((7 - u) as nat);
            lemma_pow2_unfold((8 - u) as nat);
            vstd::arithmetic::div_mod::lemma_fundamental_div_mod(c as int, pow2((8 - u) as nat) as int);
            assert(c == p * pow2((8 - u) as nat)) by (nonlinear_arith)
                requires
                    c == pow2((8 - u) as nat) * p + c % pow2((8 - u) as nat),
                    c % pow2((8 - u) as nat) == 0,
            ;
            assert(c == (2 * p) * pow2((7 - u) as nat)) by (nonlinear_arith)
                requires
                    c == p * pow2((8 - u) as nat),
                    pow2((8 - u) as nat) == 2 * pow2((7 - u) as nat),
            ;
            assert(p < pow2(u)) by {
                lemma_pow2_adds(u, (8 - u) as nat);
                assert(c < 256);
                assert(p * pow2((8 - u) as nat) < pow2(u) * pow2((8 - u) as nat));
                vstd::arithmetic::mul::lemma_mul_strict_inequality_converse(
                    p as int,
                    pow2(u) as int,
                    pow2((8 - u) as nat) as int,
                );
            }
            assert(c + pow2((7 - u) as nat) == (2 * p + 1) * pow2((7 - u) as nat)) by (nonlinear_arith)
                requires
                    c == (2 * p) * pow2((7 - u) as nat),
            ;
            assert((2 * p + 1) * pow2((7 - u) as nat) < 256) by {
                lemma_pow2_adds(u + 1, (7 - u) as nat);
                lemma_pow2_unfold(u + 1);
                assert(2 * p + 1 < pow2(u + 1));
                vstd::arithmetic::mul::lemma_mul_strict_inequality(
                    (2 * p + 1) as int,
                    pow2(u + 1) as int,
                    pow2((7 - u) as nat) as int,
                );
            }
            assert(c + pow2((7 - u) as nat) == pow2((7 - u) as nat) * (2 * p + 1)) by (nonlinear_arith)
                requires
                    c + pow2((7 - u) as nat) == (2 * p + 1) * pow2((7 - u) as nat),
            ;
            vstd::arithmetic::div_mod::lemma_div_multiples_vanish(
                (2 * p + 1) as int,
                pow2((7 - u) as nat) as int,
            );
            vstd::arithmetic::div_mod::lemma_mod_multiples_basic(
                (2 * p + 1) as int,
                pow2((7 - u) as nat) as int,
            );
            assert(to_bits(2 * p + 1, u + 1) == to_bits(p, u).push(true)) by {
                assert((2 * p + 1) / 2 == p);
                assert(((u + 1) - 1) as nat == u);
            }
        }
        if self.used_bits == 7 {
            proof {
                lemma_bytes_bits_push(self.buffer@, (self.current_byte + 1) as u8);
                assert(c + 1 == 2 * p + 1) by (nonlinear_arith)
                    requires
                        c == (2 * p) * pow2((7 - u) as nat),
                        pow2((7 - u) as nat) == 1,
                ;
            }
            self.current_byte = self.current_byte + 1;
            self.next_word();
            proof {
                self.lemma_reset();
                assert(u == 7);
                assert(bytes_bits(old(self).buffer@) + to_bits(p, u).push(true) =~= (bytes_bits(
                    old(self).buffer@,
                ) + to_bits(p, u)).push(true));
            }
        } else {
            proof {
                lemma_u8_shr_is_div(128u8, self.used_bits as u8);
                lemma_pow2_subtracts(u, 7);
            }
            self.current_byte = self.current_byte + (128u8 >> (self.used_bits as u8));
            self.used_bits = self.used_bits + 1;
            proof {
                assert((8 - self.used_bits) as nat == (7 - u) as nat);
                assert(self.current_byte as nat == c + pow2((7 - u) as nat));
                assert(self.current_byte as nat / pow2((8 - self.used_bits) as nat) == 2 * p + 1);
                assert(bytes_bits(old(self).buffer@) + to_bits(p, u).push(true) =~= (bytes_bits(
                    old(self).buffer@,
                ) + to_bits(p, u)).push(true));
            }
        }
    }

    /// Writes a boolean as one bit: 1 for `true`, 0 for `false`.
    pub fn bool(&mut self, x: bool)
        requires
            old(self).inv(),
        ensures
            final(self).inv(),
            final(self).written() == old(self).written().push(x),
    {
        if x {
            self.one();
        } else {
            self.zero();
        }
    }

    /// Writes the low `num_bits` bits of `val`, most significant first.
    pub fn bits(&mut self, num_bits: i64, val: u8)
        requires
            old(self).inv(),
            1 <= num_bits <= 8,
            (val as nat) < pow2(num_bits as nat),
        ensures
            final(self).inv(),
            final(self).written() == old(self).written() + to_bits(val as nat, num_bits as nat),
    {
        proof {
            lemma2_to64();
        }
        if num_bits == 1 {
            proof {
                reveal_with_fuel(to_bits, 2);
            }
            if val == 0 {
                self.zero();
            } else {
                self.one();
            }
            proof {
                assert(old(self).written().push(val == 1) =~= old(self).written() + to_bits(val as nat, 1));
            }
        } else if num_bits == 2 {
            proof {
                reveal_with_fuel(to_bits, 3);
            }
            let ghost mid = self.written();
            if val / 2 == 0 {
                self.zero();
            } else {
                self.one();
            }
            let ghost mid = self.written();
            if val % 2 == 0 {
                self.zero();
            } else {
                self.one();
            }
            proof {
                assert(to_bits(val as nat, 2) =~= seq![val / 2 == 1, val % 2 == 1]);
                assert(old(self).written().push(val / 2 == 1).push(val % 2 == 1) =~= old(self).written()
                    + to_bits(val as nat, 2));
            }
        } else {
            self.bits_general(num_bits, val);
        }
    }

    proof fn lemma_prefix(c: nat, u: nat)
        requires
            u < 8,
            c < 256,
            c % pow2((8 - u) as nat) == 0,
        ensures
            c == (c / pow2((8 - u) as nat)) * pow2((8 - u) as nat),
            c / pow2((8 - u) as nat) < pow2(u),
    {
        lemma2_to64();
        lemma_pow2_pos((8 - u) as nat);
        vstd::arithmetic::div_mod::lemma_fundamental_div_mod(c as int, pow2((8 - u) as nat) as int);
        let p = c / pow2((8 - u) as nat);
        assert(c == p * pow2((8 - u) as nat)) by (nonlinear_arith)
            requires
                c == pow2((8 - u) as nat) * p + c % pow2((8 - u) as nat),
                c % pow2((8 - u) as nat) == 0,
        ;
        lemma_pow2_adds(u, (8 - u) as nat);
        assert(u + (8 - u) as nat == 8);
        assert(p * pow2((8 - u) as nat) < pow2(u) * pow2((8 - u) as nat));
        vstd::arithmetic::mul::lemma_mul_strict_inequality_converse(
            p as int,
            pow2(u) as int,
            pow2((8 - u) as nat) as int,
        );
    }

    fn bits_general(&mut self, num_bits: i64, val: u8)
        requires
            old(self).inv(),
            1 <= num_bits <= 8,
            (val as nat) < pow2(num_bits as nat),
        ensures
            final(self).inv(),
            final(self).written() == old(self).written() + to_bits(val as nat, num_bits as nat),
    {
        if self.used_bits + num_bits == 8 {
            self.bits_exact(num_bits, val);
        } else if self.used_bits + num_bits < 8 {
            self.bits_fit(num_bits, val);
        } else {
            self.bits_spill(num_bits, val);
        }
    }

    fn bits_exact(&mut self, num_bits: i64, val: u8)
        requires
            old(self).inv(),
            1 <= num_bits <= 8,
            (val as nat) < pow2(num_bits as nat),
            old(self).used_bits + num_bits == 8,
        ensures
            final(self).inv(),
            final(self).written() == old(self).written() + to_bits(val as nat, num_bits as nat),
    {
        let ghost u = self.used_bits as nat;
        let ghost c = self.current_byte as nat;
        let ghost n = num_bits as nat;
        let ghost p = c / pow2((8 - u) as nat);
        let ghost old_buf = self.buffer@;
        proof {
            lemma2_to64();
            Self::lemma_prefix(c, u);
            lemma_pow2_pos(n);
        }
        self.used_bits = self.used_bits + num_bits;
        let unused_bits = 8 - self.used_bits;
        proof {
            assert((8 - u) as nat == n);
            lemma_pow2_adds(u, n);
            assert(u + n == 8);
            assert(c + val < 256) by (nonlinear_arith)
                requires
                    c == p * pow2(n),
                    p < pow2(u),
                    val < pow2(n),
                    pow2(u) * pow2(n) == 256,
            {
                assert(p * pow2(n) + pow2(n) <= pow2(u) * pow2(n));
            }
            lemma_pow2_adds(u, n);
            lemma_to_bits_concat(p, u, val as nat, n);
            lemma_bytes_bits_push(old_buf, (c + val) as u8);
        }
        self.current_byte = self.current_byte + val;
        self.next_word();
        proof {
            self.lemma_reset();
            assert(u + n == 8);
            assert(bytes_bits(old_buf) + (to_bits(p, u) + to_bits(val as nat, n)) =~= (
            bytes_bits(old_buf) + to_bits(p, u)) + to_bits(val as nat, n));
        }
    }

    fn bits_fit(&mut self, num_bits: i64, val: u8)
        requires
            old(self).inv(),
            1 <= num_bits <= 8,
            (val as nat) < pow2(num_bits as nat),
            old(self).used_bits + num_bits < 8,
        ensures
            final(self).inv(),
            final(self).written() == old(self).written() + to_bits(val as nat, num_bits as nat),
    {
        let ghost u = self.used_bits as nat;
        let ghost c = self.current_byte as nat;
        let ghost n = num_bits as nat;
        let ghost p = c / pow2((8 - u) as nat);
        let ghost old_buf = self.buffer@;
        proof {
            lemma2_to64();
            Self::lemma_prefix(c, u);
            lemma_pow2_pos(n);
        }
        self.used_bits = self.used_bits + num_bits;
        let unused_bits = 8 - self.used_bits;
        let x = unused_bits as u8;
        proof {
            assert(x as nat + n + u == 8);
            lemma_pow2_adds(n, x as nat);
            lemma_pow2_adds(u, n + x as nat);
            lemma_pow2_adds(u + n, x as nat);
            lemma_pow2_adds(u, n);
            lemma_pow2_pos(x as nat);
            assert((8 - u) as nat == n + x as nat);
            assert(val * pow2(x as nat) < pow2(n) * pow2(x as nat)) by (nonlinear_arith)
                requires
                    val < pow2(n),
                    pow2(x as nat) > 0,
            ;
            assert(pow2(n) * pow2(x as nat) <= 256) by (nonlinear_arith)
                requires
                    pow2(u) * (pow2(n) * pow2(x as nat)) == 256,
                    pow2(u) >= 1,
            ;
            lemma_u8_shl_is_mul(val, x);
            assert(c + val * pow2(x as nat) == (p * pow2(n) + val) * pow2(x as nat))
                by (nonlinear_arith)
                requires
                    c == p * (pow2(n) * pow2(x as nat)),
            ;
            assert(p * pow2(n) + val < pow2(u + n)) by (nonlinear_arith)
                requires
                    p < pow2(u),
                    val < pow2(n),
                    pow2(u + n) == pow2(u) * pow2(n),
            {
                assert(p * pow2(n) + pow2(n) <= pow2(u) * pow2(n));
            }
            assert((p * pow2(n) + val) * pow2(x as nat) < 256) by (nonlinear_arith)
                requires
                    p * pow2(n) + val < pow2(u + n),
                    pow2(u + n) * pow2(x as nat) == 256,
                    pow2(x as nat) > 0,
            ;
        }
        self.current_byte = self.current_byte + (val << x);
        proof {
            let q = p * pow2(n) + val;
            assert(self.current_byte as nat == pow2(x as nat) * q) by (nonlinear_arith)
                requires
                    self.current_byte as nat == q * pow2(x as nat),
            ;
            vstd::arithmetic::div_mod::lemma_div_multiples_vanish(q as int, pow2(x as nat) as int);
            vstd::arithmetic::div_mod::lemma_mod_multiples_basic(q as int, pow2(x as nat) as int);
            assert((8 - self.used_bits) as nat == x as nat);
            lemma_to_bits_concat(p, u, val as nat, n);
            assert(bytes_bits(old_buf) + (to_bits(p, u) + to_bits(val as nat, n)) =~= (
            bytes_bits(old_buf) + to_bits(p, u)) + to_bits(val as nat, n));
        }
    }

    fn bits_spill(&mut self, num_bits: i64, val: u8)
        requires
            old(self).inv(),
            1 <= num_bits <= 8,
            (val as nat) < pow2(num_bits as nat),
            old(self).used_bits + num_bits > 8,
        ensures
            final(self).inv(),
            final(self).written() == old(self).written() + to_bits(val as nat, num_bits as nat),
    {
        let ghost u = self.used_bits as nat;
        let ghost c = self.current_byte as nat;
        let ghost n = num_bits as nat;
        let ghost p = c / pow2((8 - u) as nat);
        let ghost old_buf = self.buffer@;
        proof {
            lemma2_to64();
            Self::lemma_prefix(c, u);
            lemma_pow2_pos(n);
        }
        self.used_bits = self.used_bits + num_bits;
        let unused_bits = 8 - self.used_bits;
        let used = (-unused_bits) as u8;
        let ghost k = used as nat;
        proof {
            assert(1 <= k < 8);
            assert(u + n == 8 + k);
            lemma_u8_shr_is_div(val, used);
            lemma_pow2_pos(k);
            lemma_pow2_adds((8 - u) as nat, k);
            assert((8 - u) as nat + k == n);
            vstd::arithmetic::div_mod::lemma_fundamental_div_mod(val as int, pow2(k) as int);
            let hi = val as nat / pow2(k);
            let lo = val as nat % pow2(k);
            assert(val as nat == hi * pow2(k) + lo) by (nonlinear_arith)
                requires
                    val as nat == pow2(k) * hi + lo,
            ;
            assert(hi < pow2((8 - u) as nat)) by (nonlinear_arith)
                requires
                    val as nat == hi * pow2(k) + lo,
                    val < pow2(n),
                    pow2(n) == pow2((8 - u) as nat) * pow2(k),
                    pow2(k) > 0,
                    lo >= 0,
            {
                if hi >= pow2((8 - u) as nat) {
                    assert(hi * pow2(k) >= pow2((8 - u) as nat) * pow2(k));
                }
            }
            lemma_pow2_adds(u, (8 - u) as nat);
            assert(u + (8 - u) as nat == 8);
            assert(c + hi < 256) by (nonlinear_arith)
                requires
                    c == p * pow2((8 - u) as nat),
                    p < pow2(u),
                    hi < pow2((8 - u) as nat),
                    pow2(u) * pow2((8 - u) as nat) == 256,
            {
                assert(p * pow2((8 - u) as nat) + pow2((8 - u) as nat) <= pow2(u) * pow2(
                    (8 - u) as nat,
                ));
            }
            lemma_pow2_adds(u, (8 - u) as nat);
            assert(u + (8 - u) as nat == 8);
            lemma_to_bits_concat(p, u, hi, (8 - u) as nat);
            lemma_bytes_bits_push(old_buf, (c + hi) as u8);
            lemma_to_bits_concat(hi, (8 - u) as nat, lo, k);
        }
        self.current_byte = self.current_byte + (val >> used);
        self.next_word();
        proof {
            lemma_u8_shl_is_mul(1u8, used);
            lemma_u8_shr_is_div(val, used);
        }
        let m = 1u8 << used;
        let lo = val % m;
        proof {
            lemma_pow2_adds(k, (8 - k) as nat);
            assert(k + (8 - k) as nat == 8);
            assert(lo * pow2((8 - k) as nat) < 256) by (nonlinear_arith)
                requires
                    lo < pow2(k),
                    pow2(k) * pow2((8 - k) as nat) == 256,
                    pow2((8 - k) as nat) > 0,
            ;
            lemma_pow2_pos((8 - k) as nat);
            lemma_u8_shl_is_mul(lo, (8 - used) as u8);
        }
        self.current_byte = lo << (8 - used);
        self.used_bits = used as i64;
        proof {
            let d = pow2((8 - k) as nat);
            assert(self.current_byte as nat == d * lo) by (nonlinear_arith)
                requires
                    self.current_byte as nat == lo * d,
            ;
            vstd::arithmetic::div_mod::lemma_div_multiples_vanish(lo as int, d as int);
            vstd::arithmetic::div_mod::lemma_mod_multiples_basic(lo as int, d as int);
            assert((8 - self.used_bits) as nat == (8 - k) as nat);
            let hi = val as nat / pow2(k);
            assert(bytes_bits(old_buf.push((c + hi) as u8)) + to_bits(lo as nat, k)
                =~= bytes_bits(old_buf) + to_bits(p, u) + to_bits(val as nat, n));
        }
    }


    /// Pads the current byte with zeros and a final one, completing it.
    pub fn filler(&mut self)
        requires
            old(self).inv(),
        ensures
            final(self).inv(),
            final(self).used() == 0,
            final(self).written() == old(self).written() + enc_filler(old(self).used()),
            final(self).buffer@.len() == old(self).buffer@.len() + 1,
            final(self).buffer@.subrange(0, old(self).buffer@.len() as int) == old(self).buffer@,
    {
        let ghost u = self.used_bits as nat;
        let ghost c = self.current_byte as nat;
        let ghost p = c / pow2((8 - u) as nat);
        let ghost old_buf = self.buffer@;
        proof {
            lemma2_to64();
            Self::lemma_prefix(c, u);
            lemma_pow2_unfold((8 - u) as nat);
            lemma_pow2_pos((7 - u) as nat);
            lemma_pow2_adds(u, (8 - u) as nat);
            assert(u + (8 - u) as nat == 8);
            assert(c + 1 < 256) by (nonlinear_arith)
                requires
                    c == p * pow2((8 - u) as nat),
                    p < pow2(u),
                    pow2((8 - u) as nat) >= 2,
                    pow2(u) * pow2((8 - u) as nat) == 256,
            {
                assert(p * pow2((8 - u) as nat) + pow2((8 - u) as nat) <= pow2(u) * pow2(
                    (8 - u) as nat,
                ));
            }
            lemma_to_bits_concat(p, u, 1, (8 - u) as nat);
            lemma_bytes_bits_push(old_buf, (c + 1) as u8);
        }
        self.current_byte = self.current_byte + 1;
        self.next_word();
        proof {
            self.lemma_reset();
            assert(bytes_bits(old_buf) + (to_bits(p, u) + to_bits(1, (8 - u) as nat)) =~= (
            bytes_bits(old_buf) + to_bits(p, u)) + to_bits(1, (8 - u) as nat));
            assert(self.buffer@.subrange(0, old_buf.len() as int) =~= old_buf);
        }
    }

    /// Writes an unsigned word in groups of 7 bits, least significant group
    /// first; each group takes one byte whose top bit is set when another
    /// group follows.
    pub fn word(&mut self, c: usize)
        requires
            old(self).inv(),
        ensures
            final(self).inv(),
            final(self).written() == old(self).written() + enc_word(c as nat),
    {
        let mut d = c;
        let ghost old_bits = self.written();
        proof {
            assert(old_bits + enc_word(c as nat) =~= self.written() + enc_word(d as nat));
        }
        loop
            invariant_except_break
                self.inv(),
                self.written() + enc_word(d as nat) == old_bits + enc_word(c as nat),
            ensures
                self.inv(),
                self.written() == old_bits + enc_word(c as nat),
            decreases d,
        {
            let ghost before = self.written();
            let ghost dd = d as nat;
            let mut w = (d % 128) as u8;
            d = d / 128;
            if d != 0 {
                w = w + 128;
            }
            proof {
                lemma2_to64();
            }
            self.bits(8, w);
            if d == 0 {
                proof {
                    assert(enc_word(dd) == to_bits(dd % 128, 8));
                }
                break;
            }
            proof {
                assert(enc_word(dd) == to_bits(dd % 128 + 128, 8) + enc_word(d as nat));
                assert(before + (to_bits(dd % 128 + 128, 8) + enc_word(d as nat)) =~= self.written()
                    + enc_word(d as nat));
            }
        }
    }

    /// Writes an arbitrary-precision natural number in groups of 7 bits,
    /// least significant group first, as [`Encoder::word`] does.
    pub fn big_word(&mut self, c: &Integer)
        requires
            old(self).inv(),
            c@ >= 0,
            c.wf(),
        ensures
            final(self).inv(),
            final(self).written() == old(self).written() + enc_word(c@ as nat),
    {
        let mut d = c.shift_right(0);
        let ghost old_bits = self.written();
        let ghost start: nat = c@ as nat;
        let modulus = Integer::from_i128(128);
        proof {
            lemma2_to64();
            assert(d@ == c@);
            assert(old_bits + enc_word(start) =~= self.written() + enc_word(d@ as nat));
        }
        loop
            invariant_except_break
                self.inv(),
                d.wf(),
                d@ >= 0,
                modulus@ == 128,
                modulus.wf(),
                self.written() + enc_word(d@ as nat) == old_bits + enc_word(start),
            ensures
                self.inv(),
                self.written() == old_bits + enc_word(start),
            decreases d@,
        {
            let ghost before = self.written();
            let ghost dd = d@ as nat;
            let low = match d.modulo(&modulus) {
                Some(m) => m,
                None => {
                    proof {
                        assert(false);
                    }
                    Integer::from_i128(0)
                },
            };
            proof {
                assert(low@ == dd % 128);
            }
            let mut w: u8 = match low.to_u64() {
                Some(v) => v as u8,
                None => {
                    proof {
                        assert(false);
                    }
                    0
                },
            };
            d = d.shift_right(7);
            proof {
                lemma2_to64();
                assert(d@ == dd / 128);
            }
            let last = d.is_zero();
            if !last {
                w = w + 128;
            }
            self.bits(8, w);
            if last {
                proof {
                    assert(enc_word(dd) == to_bits(dd % 128, 8));
                }
                break;
            }
            proof {
                assert(enc_word(dd) == to_bits(dd % 128 + 128, 8) + enc_word(d@ as nat));
                assert(before + (to_bits(dd % 128 + 128, 8) + enc_word(d@ as nat)) =~= self.written()
                    + enc_word(d@ as nat));
            }
        }
    }

    /// Writes an integer: its zigzag as an arbitrary-precision word.
    pub fn integer(&mut self, i: &Integer)
        requires
            old(self).inv(),
        ensures
            final(self).inv(),
            final(self).written() == old(self).written() + enc_word(zigzag_spec(i@)),
    {
        let z = i.zigzag();
        self.big_word(&z);
    }

    /// Appends `arr` to the buffer in blocks of at most 255 bytes, each
    /// preceded by its length, followed by a zero length.
    fn write_blk(&mut self, arr: &[u8])
        requires
            old(self).inv(),
            old(self).used() == 0,
        ensures
            final(self).inv(),
            final(self).used() == 0,
            final(self).buffer@ == old(self).buffer@ + enc_blocks(arr@),
    {
        let ghost old_buf = self.buffer@;
        let len = arr.len();
        let mut i: usize = 0;
        proof {
            assert(arr@.subrange(0, len as int) =~= arr@);
            assert(old_buf + enc_blocks(arr@) == self.buffer@ + enc_blocks(arr@.subrange(0, len as int)));
        }
        while i < len
            invariant
                self.inv(),
                self.used() == 0,
                i <= len,
                len == arr@.len(),
                self.buffer@ + enc_blocks(arr@.subrange(i as int, len as int)) == old_buf + enc_blocks(
                    arr@,
                ),
            decreases len - i,
        {
            let ghost before = self.buffer@;
            let k: usize = if len - i > 255 {
                255
            } else {
                len - i
            };
            self.buffer.push(k as u8);
            let mut j: usize = 0;
            while j < k
                invariant
                    self.inv(),
                    self.used() == 0,
                    j <= k,
                    i + k <= len,
                    len == arr@.len(),
                    self.buffer@ == before.push(k as u8) + arr@.subrange(i as int, (i + j) as int),
                decreases k - j,
            {
                self.buffer.push(arr[i + j]);
                j = j + 1;
                proof {
                    assert(arr@.subrange(i as int, (i + j) as int) =~= arr@.subrange(
                        i as int,
                        (i + j - 1) as int,
                    ).push(arr@[(i + j - 1) as int]));
                    assert(self.buffer@ =~= before.push(k as u8) + arr@.subrange(
                        i as int,
                        (i + j) as int,
                    ));
                }
            }
            proof {
                let r = arr@.subrange(i as int, len as int);
                if len - i > 255 {
                    assert(r.subrange(0, 255) =~= arr@.subrange(i as int, (i + 255) as int));
                    assert(r.subrange(255, r.len() as int) =~= arr@.subrange(
                        (i + 255) as int,
                        len as int,
                    ));
                    assert(enc_blocks(r) == seq![255u8] + r.subrange(0, 255) + enc_blocks(
                        r.subrange(255, r.len() as int),
                    ));
                    assert(before + enc_blocks(r) =~= self.buffer@ + enc_blocks(
                        arr@.subrange((i + k) as int, len as int),
                    ));
                } else {
                    assert(r =~= arr@.subrange(i as int, (i + k) as int));
                    assert(arr@.subrange((i + k) as int, len as int) =~= Seq::<u8>::empty());
                    assert(enc_blocks(r) == seq![k as u8] + r + seq![0u8]);
                    assert(enc_blocks(Seq::<u8>::empty()) == seq![0u8]);
                    assert(before + enc_blocks(r) =~= self.buffer@ + enc_blocks(
                        arr@.subrange((i + k) as int, len as int),
                    ));
                }
            }
            i = i + k;
        }
        proof {
            assert(arr@.subrange(len as int, len as int) =~= Seq::<u8>::empty());
            assert(enc_blocks(Seq::<u8>::empty()) == seq![0u8]);
        }
        self.buffer.push(0u8);
        proof {
            assert(self.buffer@ =~= old_buf + enc_blocks(arr@));
        }
    }

    /// Writes a byte array; the current byte must be complete.
    pub fn byte_array(&mut self, arr: &[u8]) -> (r: Result<(), FlatEncodeError>)
        requires
            old(self).inv(),
        ensures
            final(self).inv(),
            old(self).used() != 0 ==> r == Err::<(), FlatEncodeError>(
                FlatEncodeError::BufferNotByteAligned,
            ) && *final(self) == *old(self),
            old(self).used() == 0 ==> r is Ok && final(self).used() == 0 && final(self).buffer@
                == old(self).buffer@ + enc_blocks(arr@) && final(self).written() == old(
                self,
            ).written() + bytes_bits(enc_blocks(arr@)),
    {
        if self.used_bits != 0 {
            return Err(FlatEncodeError::BufferNotByteAligned);
        }
        proof {
            self.lemma_aligned();
        }
        self.write_blk(arr);
        proof {
            self.lemma_aligned();
            lemma_bytes_bits_concat(old(self).buffer@, enc_blocks(arr@));
        }
        Ok(())
    }

    /// Pads to a byte boundary with a filler, then writes a byte array.
    pub fn bytes(&mut self, x: &[u8])
        requires
            old(self).inv(),
        ensures
            final(self).inv(),
            final(self).used() == 0,
            final(self).written() == old(self).written() + enc_filler(old(self).used()) + bytes_bits(
                enc_blocks(x@),
            ),
    {
        self.filler();
        let r = self.byte_array(x);
    }

    /// Writes a string as the byte array of its UTF-8 encoding.
    pub fn utf8(&mut self, s: &str)
        requires
            old(self).inv(),
        ensures
            final(self).inv(),
            final(self).used() == 0,
            final(self).written() == old(self).written() + enc_filler(old(self).used()) + bytes_bits(
                enc_blocks(s.spec_bytes()),
            ),
    {
        self.bytes(s.as_bytes());
    }
}

} // verus!
