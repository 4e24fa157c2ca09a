//! The Flat decoder: a bit-level reader over a byte buffer, most significant
//! bit of each byte first.

use vstd::arithmetic::power2::{lemma2_to64, lemma_pow2_pos, lemma_pow2_unfold, pow2};
use vstd::bits::lemma_u8_shr_is_div;
use vstd::prelude::*;
use vstd::string::StringSliceAdditionalSpecFns;
use vstd::utf8::valid_utf8;

use crate::integer::Integer;

use super::zigzag::unzigzag_spec;
use super::bits::{
    bytes_bits, from_bits, lemma_bytes_bits_index, lemma_bytes_bits_len, lemma_to_bits_index,
    lemma_to_bits_len, to_bits,
};

verus! {

/// Errors of Flat decoding.
#[derive(Debug, Clone, PartialEq, Eq)]
pub enum FlatDecodeError {
    /// The buffer ended where a bit was expected.
    EndOfBuffer,
    /// A byte array started in the middle of a byte.
    BufferNotByteAligned,
    /// More than 8 bits were asked for at once.
    IncorrectNumBits,
    /// Fewer bytes remain than a byte array needs.
    NotEnoughBytes(usize),
    /// Fewer bits remain than were asked for.
    NotEnoughBits(usize),
    /// A variable-length word does not fit in a machine word.
    WordTooLarge,
    /// A string is not valid UTF-8.
    DecodeUtf8,
    /// An unknown built-in tag.
    DefaultFunctionNotFound(u8),
    /// An unknown term tag.
    UnknownTermConstructor(u8),
    /// An unknown list of type tags.
    UnknownTypeTags(Vec<u8>),
    /// An empty list of type tags.
    MissingTypeTag,
    /// Constants of BLS12-381 types have no Flat form.
    BlsTypeNotSupported,
    /// A constant type that has no Flat form here.
    UnsupportedConstantType,
    /// A data constant whose CBOR form is malformed.
    DecodeCbor(crate::flat::data::CborError),
}

/// Reads `n` bits at `pos`: their value and the position after them.
pub open spec fn parse_bits(bits: Seq<bool>, pos: nat, n: nat) -> Option<(nat, nat)> {
    if pos + n <= bits.len() {
        Some((from_bits(bits.subrange(pos as int, (pos + n) as int)), pos + n))
    } else {
        None
    }
}

/// Reads a variable-length word at `pos`: groups of 8 bits whose top bit
/// says whether another group follows and whose 7 low bits are the next
/// digit in base 128, least significant first.
pub open spec fn parse_word(bits: Seq<bool>, pos: nat) -> Option<(nat, nat)>
    decreases bits.len() - pos,
{
    if pos + 8 <= bits.len() {
        let g = from_bits(bits.subrange(pos as int, (pos + 8) as int));
        if g < 128 {
            Some((g, pos + 8))
        } else {
            match parse_word(bits, pos + 8) {
                Some((v, p)) => Some((((g - 128) + 128 * v) as nat, p)),
                None => None,
            }
        }
    } else {
        None
    }
}

/// Reads a filler at `pos`: zeros up to and including the first one; the
/// position after it.
pub open spec fn parse_filler(bits: Seq<bool>, pos: nat) -> Option<nat>
    decreases bits.len() - pos,
{
    if pos < bits.len() {
        if bits[pos as int] {
            Some(pos + 1)
        } else {
            parse_filler(bits, pos + 1)
        }
    } else {
        None
    }
}

/// Reads a block-chunked byte array from bytes at byte position `i`: the
/// bytes and the byte position after the terminating zero length.
pub open spec fn parse_blocks(b: Seq<u8>, i: nat) -> Option<(Seq<u8>, nat)>
    decreases b.len() - i,
{
    if i < b.len() {
        let n = b[i as int] as nat;
        if n == 0 {
            Some((Seq::empty(), i + 1))
        } else if i + 1 + n + 1 <= b.len() {
            match parse_blocks(b, i + 1 + n) {
                Some((rest, j)) => Some((b.subrange((i + 1) as int, (i + 1 + n) as int) + rest, j)),
                None => None,
            }
        } else {
            None
        }
    } else {
        None
    }
}

/// `std::str::from_utf8`: a string exactly when the bytes are valid UTF-8,
/// and then the string whose UTF-8 encoding they are.
#[verifier::external_body]
pub(crate) fn str_from_utf8(b: &[u8]) -> (r: Option<&str>)
    ensures
        r is Some <==> valid_utf8(b@),
        r matches Some(s) ==> s.spec_bytes() == b@,
{
    std::str::from_utf8(b).ok()
}

/// Bit-level reader over a byte buffer.
pub struct Decoder<'b> {
    /// The bytes being read.
    pub buffer: &'b [u8],
    /// How many bits have been read from the start of the buffer.
    pub bit_pos: usize,
}

impl<'b> Decoder<'b> {
    /// The bits of the buffer.
    pub open spec fn all_bits(&self) -> Seq<bool> {
        bytes_bits(self.buffer@)
    }

    /// Whether the position lies within the buffer.
    pub open spec fn inv(&self) -> bool {
        &&& self.bit_pos <= 8 * self.buffer@.len()
        &&& 8 * self.buffer@.len() <= usize::MAX
    }

    /// A decoder at the start of `bytes`.
    pub fn new(bytes: &'b [u8]) -> (r: Decoder<'b>)
        requires
            8 * bytes@.len() <= usize::MAX,
        ensures
            r.buffer@ == bytes@,
            r.bit_pos == 0,
            r.inv(),
    {
        Decoder { buffer: bytes, bit_pos: 0 }
    }

    /// Reads one bit.
    pub fn bit(&mut self) -> (r: Result<bool, FlatDecodeError>)
        requires
            old(self).inv(),
        ensures
            final(self).inv(),
            final(self).buffer@ == old(self).buffer@,
            old(self).bit_pos < old(self).all_bits().len() ==> r == Ok::<bool, FlatDecodeError>(
                old(self).all_bits()[old(self).bit_pos as int],
            ) && final(self).bit_pos == old(self).bit_pos + 1,
            old(self).bit_pos >= old(self).all_bits().len() ==> r == Err::<bool, FlatDecodeError>(
                FlatDecodeError::EndOfBuffer,
            ) && final(self).bit_pos == old(self).bit_pos,
    {
        proof {
            lemma_bytes_bits_len(self.buffer@);
        }
        let i = self.bit_pos / 8;
        if i >= self.buffer.len() {
            return Err(FlatDecodeError::EndOfBuffer);
        }
        let byte = self.buffer[i];
        let k = (7 - self.bit_pos % 8) as u8;
        let b = (byte >> k) % 2 == 1;
        proof {
            lemma_bytes_bits_index(self.buffer@, self.bit_pos as int);
            lemma_to_bits_index(byte as nat, 8, (self.bit_pos % 8) as nat);
            lemma_u8_shr_is_div(byte, k);
            assert((8 - 1 - (self.bit_pos % 8)) as nat == k as nat);
        }
        self.bit_pos = self.bit_pos + 1;
        Ok(b)
    }

    /// Reads `num_bits` (at most 8) bits as a number, most significant first.
    pub fn bits8(&mut self, num_bits: usize) -> (r: Result<u8, FlatDecodeError>)
        requires
            old(self).inv(),
            num_bits <= 8,
        ensures
            final(self).inv(),
            final(self).buffer@ == old(self).buffer@,
            match parse_bits(old(self).all_bits(), old(self).bit_pos as nat, num_bits as nat) {
                Some((v, p)) => r == Ok::<u8, FlatDecodeError>(v as u8) && v < 256
                    && final(self).bit_pos == p,
                None => r == Err::<u8, FlatDecodeError>(FlatDecodeError::NotEnoughBits(num_bits))
                    && final(self).bit_pos == old(self).bit_pos,
            },
    {
        proof {
            lemma_bytes_bits_len(self.buffer@);
        }
        let avail = self.buffer.len() - self.bit_pos / 8;
        if self.bit_pos / 8 >= self.buffer.len() || (avail <= 1 && 8 - self.bit_pos % 8 < num_bits) {
            if num_bits > 0 {
                return Err(FlatDecodeError::NotEnoughBits(num_bits));
            }
        }
        let ghost start = self.bit_pos as nat;
        let ghost bits = self.all_bits();
        let mut x: u8 = 0;
        let mut i: usize = 0;
        proof {
            lemma2_to64();
            assert(bits.subrange(start as int, start as int) =~= Seq::<bool>::empty());
        }
        while i < num_bits
            invariant
                self.inv(),
                self.buffer@ == old(self).buffer@,
                bits == self.all_bits(),
                i <= num_bits <= 8,
                start + num_bits <= bits.len(),
                self.bit_pos == start + i,
                x as nat == from_bits(bits.subrange(start as int, (start + i) as int)),
                (x as nat) < pow2(i as nat),
            decreases num_bits - i,
        {
            let b = self.bit();
            let b = match b {
                Ok(b) => b,
                Err(_) => {
                    proof {
                        assert(false);
                    }
                    false
                },
            };
            proof {
                lemma2_to64();
                lemma_pow2_unfold((i + 1) as nat);
                assert(bits.subrange(start as int, (start + i + 1) as int).drop_last()
                    =~= bits.subrange(start as int, (start + i) as int));
            }
            x = x * 2 + if b {
                1u8
            } else {
                0u8
            };
            i = i + 1;
        }
        Ok(x)
    }

    /// Reads a variable-length unsigned word.
    #[verifier::spinoff_prover]
    pub fn word(&mut self) -> (r: Result<usize, FlatDecodeError>)
        requires
            old(self).inv(),
        ensures
            final(self).inv(),
            final(self).buffer@ == old(self).buffer@,
            match parse_word(old(self).all_bits(), old(self).bit_pos as nat) {
                Some((v, p)) => if v <= usize::MAX {
                    r == Ok::<usize, FlatDecodeError>(v as usize) && final(self).bit_pos == p
                } else {
                    r is Err
                },
                None => r is Err,
            },
    {
        let ghost bits = self.all_bits();
        let ghost start = self.bit_pos as nat;
        let ghost mut scale: nat = 1;
        let mut final_word: u128 = 0;
        let mut shl: usize = 0;
        let mut big = false;
        proof {
            lemma2_to64();
            vstd::arithmetic::power2::lemma2_to64_rest();
        }
        loop
            invariant
                self.inv(),
                self.buffer@ == old(self).buffer@,
                bits == self.all_bits(),
                bits == old(self).all_bits(),
                start == old(self).bit_pos,
                shl < 64,
                final_word <= usize::MAX,
                !big ==> scale == pow2(shl as nat),
                big ==> scale >= pow2(64),
                scale >= 1,
                parse_word(bits, start) is None ==> parse_word(bits, self.bit_pos as nat) is None,
                parse_word(bits, start) is Some ==> parse_word(bits, self.bit_pos as nat) is Some,
                parse_word(bits, start) is Some ==> parse_word(bits, self.bit_pos as nat).unwrap().1
                    == parse_word(bits, start).unwrap().1,
                parse_word(bits, start) is Some ==> parse_word(bits, start).unwrap().0 == final_word
                    + scale * parse_word(bits, self.bit_pos as nat).unwrap().0,
            decreases bits.len() - self.bit_pos,
        {
            let ghost pos = self.bit_pos as nat;
            let word8 = match self.bits8(8) {
                Ok(w) => w,
                Err(e) => {
                    proof {
                        assert(pos + 8 > bits.len());
                        assert(parse_word(bits, pos) is None);
                    }
                    return Err(e);
                },
            };
            let ghost g = word8 as nat;
            proof {
                assert(g == from_bits(bits.subrange(pos as int, (pos + 8) as int)));
                assert(pos + 8 <= bits.len());
                assert(parse_word(bits, pos) == (if g < 128 {
                    Some((g, pos + 8))
                } else {
                    match parse_word(bits, pos + 8) {
                        Some((v, p)) => Some((((g - 128) + 128 * v) as nat, p)),
                        None => None,
                    }
                }));
            }
            let word7 = word8 % 128;
            let ghost fw0 = final_word as nat;
            proof {
                if parse_word(bits, start) is Some {
                    let w = parse_word(bits, pos).unwrap().0;
                    if g < 128 {
                        assert(w == g);
                    } else {
                        assert(w == word7 + 128 * parse_word(bits, pos + 8).unwrap().0);
                    }
                    assert(w >= word7);
                }
            }
            if word7 != 0 {
                if big {
                    proof {
                        if parse_word(bits, start) is Some {
                            let w = parse_word(bits, pos).unwrap().0;
                            assert(scale * w >= scale) by (nonlinear_arith)
                                requires
                                    w >= 1,
                            ;
                            lemma2_to64();
                            assert(pow2(64) > usize::MAX);
                            assert(parse_word(bits, start).unwrap().0 > usize::MAX);
                        }
                    }
                    return Err(FlatDecodeError::WordTooLarge);
                }
                proof {
                    lemma2_to64();
                    vstd::arithmetic::power2::lemma_pow2_strictly_increases(shl as nat, 64);
                    vstd::bits::lemma_u64_shl_is_mul(1u64, shl as u64);
                }
                let sc: u64 = 1u64 << (shl as u64);
                proof {
                    assert((word7 as u128) * (sc as u128) <= 128 * 0x1_0000_0000_0000_0000)
                        by (nonlinear_arith)
                        requires
                            word7 < 128,
                            sc <= 0xffff_ffff_ffff_ffff,
                    ;
                }
                let add = (word7 as u128) * (sc as u128);
                proof {
                    assert(sc == scale);
                }
                proof {
                    assert(add == scale * word7) by (nonlinear_arith)
                        requires
                            add == word7 * sc,
                            sc == scale,
                    ;
                }
                if final_word + add > usize::MAX as u128 {
                    proof {
                        if parse_word(bits, start) is Some {
                            let w = parse_word(bits, pos).unwrap().0;
                            assert(scale * w >= scale * word7) by (nonlinear_arith)
                                requires
                                    w >= word7,
                            ;
                            assert(parse_word(bits, start).unwrap().0 > usize::MAX);
                        }
                    }
                    return Err(FlatDecodeError::WordTooLarge);
                }
                final_word = final_word + add;
            }
            if word8 < 128 {
                proof {
                    if parse_word(bits, start) is Some {
                        assert(parse_word(bits, pos).unwrap().0 == word7);
                        if word7 == 0 {
                            assert(scale * word7 == 0) by (nonlinear_arith)
                                requires
                                    word7 == 0,
                            ;
                        }
                        assert(parse_word(bits, start).unwrap().0 == final_word);
                        assert(parse_word(bits, start).unwrap().1 == pos + 8);
                    }
                }
                return Ok(final_word as usize);
            }
            proof {
                if word7 == 0 {
                    assert(scale * word7 == 0) by (nonlinear_arith)
                        requires
                            word7 == 0,
                    ;
                }
                assert(final_word == fw0 + scale * word7);
                if parse_word(bits, start) is Some {
                    let w = parse_word(bits, pos).unwrap().0;
                    let w2 = parse_word(bits, pos + 8).unwrap().0;
                    assert(w == word7 + 128 * w2);
                    assert(scale * (word7 + 128 * w2) == scale * word7 + (128 * scale) * w2)
                        by (nonlinear_arith);
                    assert(parse_word(bits, start).unwrap().0 == final_word + (128 * scale) * w2);
                }
            }
            proof {
                scale = 128 * scale;
            }
            if big || shl + 7 >= 64 {
                proof {
                    lemma2_to64();
                    if !big {
                        vstd::arithmetic::power2::lemma_pow2_adds(shl as nat, 7);
                        if shl + 7 > 64 {
                            vstd::arithmetic::power2::lemma_pow2_strictly_increases(
                                64,
                                (shl + 7) as nat,
                            );
                        }
                        assert(pow2(7) == 128);
                    }
                }
                big = true;
            } else {
                proof {
                    lemma2_to64();
                    vstd::arithmetic::power2::lemma_pow2_adds(shl as nat, 7);
                }
                shl = shl + 7;
            }
        }
    }

    /// Reads a variable-length natural number of any size.
    #[verifier::spinoff_prover]
    pub fn big_word(&mut self) -> (r: Result<Integer, FlatDecodeError>)
        requires
            old(self).inv(),
        ensures
            final(self).inv(),
            final(self).buffer@ == old(self).buffer@,
            match parse_word(old(self).all_bits(), old(self).bit_pos as nat) {
                Some((v, p)) => r matches Ok(x) && x@ == v && x.wf() && final(self).bit_pos == p,
                None => r is Err,
            },
    {
        let ghost bits = self.all_bits();
        let ghost start = self.bit_pos as nat;
        let mut acc = Integer::from_i128(0);
        let mut scale = Integer::from_i128(1);
        let group = Integer::from_i128(128);
        loop
            invariant
                self.inv(),
                self.buffer@ == old(self).buffer@,
                bits == self.all_bits(),
                bits == old(self).all_bits(),
                start == old(self).bit_pos,
                acc.wf(),
                scale.wf(),
                group@ == 128,
                acc@ >= 0,
                scale@ >= 1,
                parse_word(bits, start) is None ==> parse_word(bits, self.bit_pos as nat) is None,
                parse_word(bits, start) is Some ==> parse_word(bits, self.bit_pos as nat) is Some,
                parse_word(bits, start) is Some ==> parse_word(bits, self.bit_pos as nat).unwrap().1
                    == parse_word(bits, start).unwrap().1,
                parse_word(bits, start) is Some ==> parse_word(bits, start).unwrap().0 == acc@
                    + scale@ * parse_word(bits, self.bit_pos as nat).unwrap().0,
            decreases bits.len() - self.bit_pos,
        {
            let ghost pos = self.bit_pos as nat;
            let word8 = match self.bits8(8) {
                Ok(w) => w,
                Err(e) => {
                    proof {
                        assert(pos + 8 > bits.len());
                        assert(parse_word(bits, pos) is None);
                    }
                    return Err(e);
                },
            };
            let ghost g = word8 as nat;
            proof {
                assert(g == from_bits(bits.subrange(pos as int, (pos + 8) as int)));
                assert(parse_word(bits, pos) == (if g < 128 {
                    Some((g, pos + 8))
                } else {
                    match parse_word(bits, pos + 8) {
                        Some((v, p)) => Some((((g - 128) + 128 * v) as nat, p)),
                        None => None,
                    }
                }));
            }
            let word7 = word8 % 128;
            let part = Integer::from_u64(word7 as u64).multiply(&scale);
            let ghost old_acc = acc@;
            let ghost old_scale = scale@;
            acc = acc.add(&part);
            if word8 < 128 {
                proof {
                    if parse_word(bits, start) is Some {
                        assert(parse_word(bits, pos).unwrap().0 == word7);
                        assert(old_scale * word7 == word7 * old_scale) by (nonlinear_arith);
                    }
                }
                return Ok(acc);
            }
            scale = scale.multiply(&group);
            proof {
                assert(old_scale * 128 >= 1) by (nonlinear_arith)
                    requires
                        old_scale >= 1,
                ;
                assert(word7 * old_scale >= 0) by (nonlinear_arith)
                    requires
                        old_scale >= 1,
                ;
                if parse_word(bits, start) is Some {
                    let w2 = parse_word(bits, pos + 8).unwrap().0;
                    assert(old_scale * (word7 + 128 * w2) == word7 * old_scale + (old_scale * 128) * w2)
                        by (nonlinear_arith);
                }
            }
        }
    }

    /// Reads an integer: a zigzag-encoded natural number of any size.
    pub fn integer(&mut self) -> (r: Result<Integer, FlatDecodeError>)
        requires
            old(self).inv(),
        ensures
            final(self).inv(),
            final(self).buffer@ == old(self).buffer@,
            match parse_word(old(self).all_bits(), old(self).bit_pos as nat) {
                Some((v, p)) => r matches Ok(x) && x@ == unzigzag_spec(v) && x.wf()
                    && final(self).bit_pos == p,
                None => r is Err,
            },
    {
        let z = self.big_word()?;
        Ok(Integer::unzigzag(&z))
    }

    /// Reads a filler: zeros up to and including a one.
    pub fn filler(&mut self) -> (r: Result<(), FlatDecodeError>)
        requires
            old(self).inv(),
        ensures
            final(self).inv(),
            final(self).buffer@ == old(self).buffer@,
            match parse_filler(old(self).all_bits(), old(self).bit_pos as nat) {
                Some(p) => r is Ok && final(self).bit_pos == p,
                None => r == Err::<(), FlatDecodeError>(FlatDecodeError::EndOfBuffer),
            },
    {
        let ghost bits = self.all_bits();
        loop
            invariant
                self.inv(),
                self.buffer@ == old(self).buffer@,
                bits == self.all_bits(),
                bits == old(self).all_bits(),
                parse_filler(bits, old(self).bit_pos as nat) == parse_filler(bits, self.bit_pos as nat),
            decreases bits.len() - self.bit_pos,
        {
            proof {
                lemma_bytes_bits_len(self.buffer@);
            }
            let b = self.bit();
            match b {
                Ok(true) => {
                    return Ok(());
                },
                Ok(false) => {},
                Err(e) => {
                    return Err(e);
                },
            }
        }
    }

    /// Whether `required_bytes` bytes are available from byte position `pos`.
    fn ensure_bytes_at(&self, pos: usize, required_bytes: usize) -> (r: Result<(), FlatDecodeError>)
        ensures
            r is Ok <==> pos + required_bytes <= self.buffer@.len(),
            r is Err ==> r == Err::<(), FlatDecodeError>(FlatDecodeError::NotEnoughBytes(required_bytes)),
    {
        if pos > self.buffer.len() || required_bytes > self.buffer.len() - pos {
            Err(FlatDecodeError::NotEnoughBytes(required_bytes))
        } else {
            Ok(())
        }
    }

    /// Reads a block-chunked byte array; the position must be at a byte
    /// boundary.
    pub fn byte_array(&mut self) -> (r: Result<Vec<u8>, FlatDecodeError>)
        requires
            old(self).inv(),
        ensures
            final(self).inv(),
            final(self).buffer@ == old(self).buffer@,
            old(self).bit_pos % 8 != 0 ==> r == Err::<Vec<u8>, FlatDecodeError>(
                FlatDecodeError::BufferNotByteAligned,
            ),
            old(self).bit_pos % 8 == 0 ==> match parse_blocks(
                old(self).buffer@,
                (old(self).bit_pos / 8) as nat,
            ) {
                Some((a, j)) => r matches Ok(v) && v@ == a && final(self).bit_pos == 8 * j,
                None => r is Err,
            },
    {
        if self.bit_pos % 8 != 0 {
            return Err(FlatDecodeError::BufferNotByteAligned);
        }
        let ghost b = self.buffer@;
        let ghost i0 = (self.bit_pos / 8) as nat;
        let mut cur = self.bit_pos / 8;
        let mut out: Vec<u8> = Vec::new();
        proof {
            assert(out@ + parse_blocks(b, i0).unwrap().0 =~= parse_blocks(b, i0).unwrap().0);
        }
        loop
            invariant
                self.inv(),
                self.buffer@ == b,
                b == old(self).buffer@,
                i0 == old(self).bit_pos / 8,
                old(self).bit_pos % 8 == 0,
                self.bit_pos == old(self).bit_pos,
                cur <= b.len(),
                parse_blocks(b, i0) is Some <==> parse_blocks(b, cur as nat) is Some,
                parse_blocks(b, i0) is Some ==> parse_blocks(b, i0).unwrap().1 == parse_blocks(
                    b,
                    cur as nat,
                ).unwrap().1 && parse_blocks(b, i0).unwrap().0 == out@ + parse_blocks(
                    b,
                    cur as nat,
                ).unwrap().0,
            decreases b.len() - cur,
        {
            match self.ensure_bytes_at(cur, 1) {
                Ok(()) => {},
                Err(e) => {
                    return Err(e);
                },
            }
            let blk_len = self.buffer[cur] as usize;
            if blk_len == 0 {
                proof {
                    lemma_bytes_bits_len(b);
                    assert(out@ + Seq::<u8>::empty() =~= out@);
                }
                self.bit_pos = (cur + 1) * 8;
                return Ok(out);
            }
            match self.ensure_bytes_at(cur + 1, blk_len + 1) {
                Ok(()) => {},
                Err(e) => {
                    return Err(e);
                },
            }
            let ghost before = out@;
            let mut k: usize = 0;
            while k < blk_len
                invariant
                    self.inv(),
                    k <= blk_len,
                    cur + 1 + blk_len + 1 <= b.len(),
                    self.buffer@ == b,
                    out@ == before + b.subrange(cur + 1, cur + 1 + k),
                decreases blk_len - k,
            {
                out.push(self.buffer[cur + 1 + k]);
                k = k + 1;
                proof {
                    assert(b.subrange(cur + 1, cur + 1 + k) =~= b.subrange(cur + 1, cur + k).push(
                        b[cur + k],
                    ));
                }
            }
            proof {
                if parse_blocks(b, i0) is Some {
                    assert(before + (b.subrange(cur + 1, cur + 1 + blk_len) + parse_blocks(
                        b,
                        (cur + 1 + blk_len) as nat,
                    ).unwrap().0) =~= out@ + parse_blocks(b, (cur + 1 + blk_len) as nat).unwrap().0);
                }
            }
            cur = cur + 1 + blk_len;
        }
    }

    /// Reads a filler, then a block-chunked byte array.
    pub fn bytes(&mut self) -> (r: Result<Vec<u8>, FlatDecodeError>)
        requires
            old(self).inv(),
        ensures
            final(self).inv(),
            final(self).buffer@ == old(self).buffer@,
            match parse_filler(old(self).all_bits(), old(self).bit_pos as nat) {
                Some(p) => if p % 8 != 0 {
                    r == Err::<Vec<u8>, FlatDecodeError>(FlatDecodeError::BufferNotByteAligned)
                } else {
                    match parse_blocks(old(self).buffer@, p / 8) {
                        Some((a, j)) => r matches Ok(v) && v@ == a && final(self).bit_pos == 8 * j,
                        None => r is Err,
                    }
                },
                None => r is Err,
            },
    {
        match self.filler() {
            Ok(()) => {},
            Err(e) => {
                return Err(e);
            },
        }
        self.byte_array()
    }

    /// Reads a byte array and interprets it as UTF-8.
    pub fn utf8(&mut self) -> (r: Result<String, FlatDecodeError>)
        requires
            old(self).inv(),
        ensures
            final(self).inv(),
            final(self).buffer@ == old(self).buffer@,
            match parse_filler(old(self).all_bits(), old(self).bit_pos as nat) {
                Some(p) => if p % 8 != 0 {
                    r is Err
                } else {
                    match parse_blocks(old(self).buffer@, p / 8) {
                        Some((a, j)) => if valid_utf8(a) {
                            r matches Ok(s) && vstd::utf8::encode_utf8(s@) == a
                                && final(self).bit_pos == 8 * j
                        } else {
                            r == Err::<String, FlatDecodeError>(FlatDecodeError::DecodeUtf8)
                        },
                        None => r is Err,
                    }
                },
                None => r is Err,
            },
    {
        let b = match self.bytes() {
            Ok(b) => b,
            Err(e) => {
                return Err(e);
            },
        };
        match str_from_utf8(b.as_slice()) {
            Some(s) => Ok(s.to_owned()),
            None => Err(FlatDecodeError::DecodeUtf8),
        }
    }

    /// The number of bits read of the current byte.
    pub fn used_bits(&self) -> (r: usize)
        ensures
            r == self.bit_pos % 8,
    {
        self.bit_pos % 8
    }

    /// The index of the current byte.
    pub fn pos(&self) -> (r: usize)
        ensures
            r == self.bit_pos / 8,
    {
        self.bit_pos / 8
    }
}

/// After reads of `k` bits in all from a new decoder (its bit position
/// starts at 0 and each read moves it on by the bits it read, so it is then
/// `k`), the current byte is `k / 8`, within the buffer, and the bits used
/// of it are `k % 8`, fewer than 8; together they give back `k`.
pub proof fn lemma_position_after_reads(d: Decoder, k: nat)
    requires
        d.inv(),
        d.bit_pos == k,
    ensures
        d.bit_pos / 8 == k / 8,
        d.bit_pos % 8 == k % 8,
        k % 8 < 8,
        k / 8 <= d.buffer@.len(),
        8 * (k / 8) + k % 8 == k,
{
}

} // verus!
