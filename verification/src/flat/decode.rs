//! Flat decoding of constants, terms and programs.

use vstd::prelude::*;
use vstd::utf8::{decode_utf8, valid_utf8};

use crate::binder::DeBruijn;
use crate::builtin::{spec_from_tag, DefaultFunction};
use crate::constant::{
    constants_view, lemma_constants_view_push, Constant, ConstantV, PlutusData, Type,
};
use crate::program::{Program, ProgramV, Version};
use crate::term::{lemma_terms_view_push, terms_view, Term, TermV};

use super::bits::{bytes_bits, lemma_bytes_bits_len};
use super::data::parse_data;
use super::decoder::{
    parse_bits, parse_blocks, parse_filler, parse_word, Decoder, FlatDecodeError,
};
use super::zigzag::unzigzag_spec;

verus! {

/// Constant type tags.
pub const INTEGER: u8 = 0;
pub const BYTE_STRING: u8 = 1;
pub const STRING: u8 = 2;
pub const UNIT: u8 = 3;
pub const BOOL: u8 = 4;
pub const PROTO_LIST_ONE: u8 = 7;
pub const PROTO_LIST_TWO: u8 = 5;
pub const PROTO_PAIR_ONE: u8 = 7;
pub const PROTO_PAIR_TWO: u8 = 7;
pub const PROTO_PAIR_THREE: u8 = 6;
pub const DATA: u8 = 8;
pub const PROTO_ARRAY_ONE: u8 = 7;
pub const PROTO_ARRAY_TWO: u8 = 12;

/// One bit at `pos`.
pub open spec fn parse_bit(bits: Seq<bool>, pos: nat) -> Option<(bool, nat)> {
    if pos < bits.len() {
        Some((bits[pos as int], pos + 1))
    } else {
        None
    }
}

/// A byte string at bit `pos`: a filler, then its blocks.
pub open spec fn parse_bytes(buf: Seq<u8>, pos: nat) -> Option<(Seq<u8>, nat)> {
    match parse_filler(bytes_bits(buf), pos) {
        Some(p) => if p % 8 != 0 {
            None
        } else {
            match parse_blocks(buf, p / 8) {
                Some((a, j)) => Some((a, 8 * j)),
                None => None,
            }
        },
        None => None,
    }
}

/// A list of 4-bit constant type tags at `pos`.
pub open spec fn parse_type_tags(bits: Seq<bool>, pos: nat) -> Option<(Seq<u8>, nat)>
    decreases bits.len() - pos,
{
    if pos < bits.len() {
        if bits[pos as int] {
            match parse_bits(bits, pos + 1, 4) {
                Some((v, p)) => if p <= bits.len() {
                    match parse_type_tags(bits, p) {
                        Some((rest, e)) => Some((seq![v as u8] + rest, e)),
                        None => None,
                    }
                } else {
                    None
                },
                None => None,
            }
        } else {
            Some((Seq::empty(), pos + 1))
        }
    } else {
        None
    }
}

/// The type that a sequence of type tags starts with, and how many tags it
/// takes.
pub open spec fn type_of_tags(tags: Seq<u8>) -> Option<(Type, nat)>
    decreases tags.len(),
{
    if tags.len() == 0 {
        None
    } else if tags[0] == INTEGER {
        Some((Type::Integer, 1))
    } else if tags[0] == BYTE_STRING {
        Some((Type::ByteString, 1))
    } else if tags[0] == STRING {
        Some((Type::String, 1))
    } else if tags[0] == UNIT {
        Some((Type::Unit, 1))
    } else if tags[0] == BOOL {
        Some((Type::Bool, 1))
    } else if tags[0] == DATA {
        Some((Type::Data, 1))
    } else if tags.len() >= 2 && tags[0] == PROTO_LIST_ONE && tags[1] == PROTO_LIST_TWO {
        match type_of_tags(tags.subrange(2, tags.len() as int)) {
            Some((t, c)) => Some((Type::List(Box::new(t)), 2 + c)),
            None => None,
        }
    } else if tags.len() >= 2 && tags[0] == PROTO_ARRAY_ONE && tags[1] == PROTO_ARRAY_TWO {
        match type_of_tags(tags.subrange(2, tags.len() as int)) {
            Some((t, c)) => Some((Type::Array(Box::new(t)), 2 + c)),
            None => None,
        }
    } else if tags.len() >= 3 && tags[0] == PROTO_PAIR_ONE && tags[1] == PROTO_PAIR_TWO
        && tags[2] == PROTO_PAIR_THREE {
        let rest = tags.subrange(3, tags.len() as int);
        match type_of_tags(rest) {
            Some((t1, c1)) => if c1 <= rest.len() {
                match type_of_tags(rest.subrange(c1 as int, rest.len() as int)) {
                    Some((t2, c2)) => Some((Type::Pair(Box::new(t1), Box::new(t2)), 3 + c1 + c2)),
                    None => None,
                }
            } else {
                None
            },
            None => None,
        }
    } else {
        None
    }
}

/// A constant of type `ty` at bit `pos`.
pub open spec fn parse_constant_of_type(buf: Seq<u8>, pos: nat, ty: Type) -> Option<(ConstantV, nat)>
    decreases ty, 8 * buf.len() - pos,
{
    match ty {
        Type::Integer => match parse_word(bytes_bits(buf), pos) {
            Some((v, p)) => Some((ConstantV::Integer(unzigzag_spec(v)), p)),
            None => None,
        },
        Type::ByteString => match parse_bytes(buf, pos) {
            Some((b, p)) => Some((ConstantV::ByteString(b), p)),
            None => None,
        },
        Type::Bool => match parse_bit(bytes_bits(buf), pos) {
            Some((b, p)) => Some((ConstantV::Boolean(b), p)),
            None => None,
        },
        Type::String => match parse_bytes(buf, pos) {
            Some((b, p)) => if valid_utf8(b) {
                Some((ConstantV::String(decode_utf8(b)), p))
            } else {
                None
            },
            None => None,
        },
        Type::Unit => Some((ConstantV::Unit, pos)),
        Type::List(sub) => match parse_constant_items(buf, pos, *sub) {
            Some((items, p)) => Some((ConstantV::ProtoList(*sub, items), p)),
            None => None,
        },
        Type::Array(sub) => match parse_constant_items(buf, pos, *sub) {
            Some((items, p)) => Some((ConstantV::ProtoArray(*sub, items), p)),
            None => None,
        },
        Type::Pair(t1, t2) => match parse_constant_of_type(buf, pos, *t1) {
            Some((a, p)) => if p <= 8 * buf.len() {
                match parse_constant_of_type(buf, p, *t2) {
                    Some((b, q)) => Some(
                        (ConstantV::ProtoPair(*t1, *t2, Box::new(a), Box::new(b)), q),
                    ),
                    None => None,
                }
            } else {
                None
            },
            None => None,
        },
        Type::Data => match parse_bytes(buf, pos) {
            Some((cbor, p)) => match parse_data(cbor, 0) {
                Ok((d, _)) => Some((ConstantV::Data(d), p)),
                Err(_) => None,
            },
            None => None,
        },
        _ => None,
    }
}

/// A list of constants of type `ty` at bit `pos`: each after a one bit,
/// then a zero bit.
pub open spec fn parse_constant_items(buf: Seq<u8>, pos: nat, ty: Type) -> Option<(Seq<ConstantV>, nat)>
    decreases ty, 8 * buf.len() - pos,
{
    match parse_bit(bytes_bits(buf), pos) {
        Some((b, p)) => if !b {
            Some((Seq::empty(), p))
        } else if p <= 8 * buf.len() {
            match parse_constant_of_type(buf, p, ty) {
                Some((c, q)) => if pos < q <= 8 * buf.len() {
                    match parse_constant_items(buf, q, ty) {
                        Some((rest, e)) => Some((seq![c] + rest, e)),
                        None => None,
                    }
                } else {
                    None
                },
                None => None,
            }
        } else {
            None
        },
        None => None,
    }
}

/// A constant at bit `pos`: its type tags, then its value.
pub open spec fn parse_constant(buf: Seq<u8>, pos: nat) -> Option<(ConstantV, nat)> {
    match parse_type_tags(bytes_bits(buf), pos) {
        Some((tags, p)) => match type_of_tags(tags) {
            Some((ty, _)) => parse_constant_of_type(buf, p, ty),
            None => None,
        },
        None => None,
    }
}

/// A term at bit `pos`.
pub open spec fn parse_term(buf: Seq<u8>, pos: nat) -> Option<(TermV, nat)>
    decreases 8 * buf.len() - pos, 0nat,
{
    let bits = bytes_bits(buf);
    match parse_bits(bits, pos, 4) {
        Some((tag, p)) => if p <= pos || p > 8 * buf.len() {
            None
        } else if tag == 0 {
            match parse_word(bits, p) {
                Some((i, q)) => if i <= usize::MAX {
                    Some((TermV::Var(i), q))
                } else {
                    None
                },
                None => None,
            }
        } else if tag == 1 {
            match parse_term(buf, p) {
                Some((b, q)) => Some((TermV::Delay(Box::new(b)), q)),
                None => None,
            }
        } else if tag == 2 {
            match parse_term(buf, p) {
                Some((b, q)) => Some((TermV::Lambda(0, Box::new(b)), q)),
                None => None,
            }
        } else if tag == 3 {
            match parse_term(buf, p) {
                Some((f, q)) => if p < q <= 8 * buf.len() {
                    match parse_term(buf, q) {
                        Some((a, e)) => Some((TermV::Apply(Box::new(f), Box::new(a)), e)),
                        None => None,
                    }
                } else {
                    None
                },
                None => None,
            }
        } else if tag == 4 {
            match parse_constant(buf, p) {
                Some((c, q)) => Some((TermV::Constant(c), q)),
                None => None,
            }
        } else if tag == 5 {
            match parse_term(buf, p) {
                Some((b, q)) => Some((TermV::Force(Box::new(b)), q)),
                None => None,
            }
        } else if tag == 6 {
            Some((TermV::Error, p))
        } else if tag == 7 {
            match parse_bits(bits, p, 7) {
                Some((t, q)) => match spec_from_tag(t as u8) {
                    Some(f) => Some((TermV::Builtin(f), q)),
                    None => None,
                },
                None => None,
            }
        } else if tag == 8 {
            match parse_word(bits, p) {
                Some((i, q)) => if i <= usize::MAX && p < q <= 8 * buf.len() {
                    match parse_terms(buf, q) {
                        Some((fs, e)) => Some((TermV::Constr(i, fs), e)),
                        None => None,
                    }
                } else {
                    None
                },
                None => None,
            }
        } else if tag == 9 {
            match parse_term(buf, p) {
                Some((c, q)) => if p < q <= 8 * buf.len() {
                    match parse_terms(buf, q) {
                        Some((bs, e)) => Some((TermV::Case(Box::new(c), bs), e)),
                        None => None,
                    }
                } else {
                    None
                },
                None => None,
            }
        } else {
            None
        },
        None => None,
    }
}

/// A list of terms at bit `pos`: each after a one bit, then a zero bit.
pub open spec fn parse_terms(buf: Seq<u8>, pos: nat) -> Option<(Seq<TermV>, nat)>
    decreases 8 * buf.len() - pos, 1nat,
{
    match parse_bit(bytes_bits(buf), pos) {
        Some((b, p)) => if !b {
            Some((Seq::empty(), p))
        } else if p <= 8 * buf.len() {
            match parse_term(buf, p) {
                Some((t, q)) => if pos < q <= 8 * buf.len() {
                    match parse_terms(buf, q) {
                        Some((rest, e)) => Some((seq![t] + rest, e)),
                        None => None,
                    }
                } else {
                    None
                },
                None => None,
            }
        } else {
            None
        },
        None => None,
    }
}

/// A program: three version numbers, a term and a filler.
pub open spec fn parse_program(buf: Seq<u8>) -> Option<ProgramV> {
    let bits = bytes_bits(buf);
    match parse_word(bits, 0) {
        Some((major, p1)) => match parse_word(bits, p1) {
            Some((minor, p2)) => match parse_word(bits, p2) {
                Some((patch, p3)) => if major <= usize::MAX && minor <= usize::MAX && patch
                    <= usize::MAX {
                    match parse_term(buf, p3) {
                        Some((t, p4)) => match parse_filler(bits, p4) {
                            Some(_) => Some(
                                ProgramV {
                                    version: (major as usize, minor as usize, patch as usize),
                                    term: t,
                                },
                            ),
                            None => None,
                        },
                        None => None,
                    }
                } else {
                    None
                },
                None => None,
            },
            None => None,
        },
        None => None,
    }
}

/// Reads a list of 4-bit constant type tags.
fn decode_type_tags(d: &mut Decoder) -> (r: Result<Vec<u8>, FlatDecodeError>)
    requires
        old(d).inv(),
    ensures
        final(d).inv(),
        final(d).buffer@ == old(d).buffer@,
        match parse_type_tags(old(d).all_bits(), old(d).bit_pos as nat) {
            Some((tags, p)) => r matches Ok(v) && v@ == tags && final(d).bit_pos == p,
            None => r is Err,
        },
{
    let ghost bits = d.all_bits();
    let ghost start = d.bit_pos as nat;
    let mut out: Vec<u8> = Vec::new();
    proof {
        assert(parse_type_tags(bits, start) == match parse_type_tags(bits, d.bit_pos as nat) {
            Some((rest, e)) => Some((out@ + rest, e)),
            None => None,
        }) by {
            match parse_type_tags(bits, start) {
                Some((rest, e)) => {
                    assert(out@ + rest =~= rest);
                },
                None => {},
            }
        }
    }
    loop
        invariant
            d.inv(),
            d.buffer@ == old(d).buffer@,
            bits == d.all_bits(),
            start == old(d).bit_pos,
            parse_type_tags(bits, start) == match parse_type_tags(bits, d.bit_pos as nat) {
                Some((rest, e)) => Some((out@ + rest, e)),
                None => None,
            },
        decreases bits.len() - d.bit_pos,
    {
        let ghost pos = d.bit_pos as nat;
        let more = d.bit()?;
        if !more {
            proof {
                assert(out@ + Seq::<u8>::empty() =~= out@);
            }
            return Ok(out);
        }
        let v = d.bits8(4)?;
        proof {
            let ghost nxt = d.bit_pos as nat;
            match parse_type_tags(bits, nxt) {
                Some((rest, e)) => {
                    assert(out@.push(v) + rest =~= out@ + (seq![v] + rest));
                },
                None => {},
            }
        }
        out.push(v);
    }
}

/// A copy of the tags from `start` on.
fn tags_from(tags: &[u8], start: usize) -> (r: Vec<u8>)
    requires
        start <= tags@.len(),
    ensures
        r@ == tags@.subrange(start as int, tags@.len() as int),
{
    let mut out: Vec<u8> = Vec::new();
    let mut k = start;
    while k < tags.len()
        invariant
            start <= k <= tags@.len(),
            out@ == tags@.subrange(start as int, k as int),
        decreases tags@.len() - k,
    {
        out.push(tags[k]);
        k += 1;
        assert(out@ =~= tags@.subrange(start as int, k as int));
    }
    out
}

/// The type that the tags from `start` on begin with, and how many tags it
/// takes.
fn type_from_tags_at(tags: &[u8], start: usize) -> (r: Result<(Type, usize), FlatDecodeError>)
    requires
        start <= tags@.len(),
    ensures
        match type_of_tags(tags@.subrange(start as int, tags@.len() as int)) {
            Some((t, c)) => r matches Ok((x, n)) && x == t && n == c,
            None => r is Err,
        },
        start == tags@.len() ==> r == Err::<(Type, usize), FlatDecodeError>(
            FlatDecodeError::MissingTypeTag,
        ),
    decreases tags@.len() - start,
{
    let ghost rest = tags@.subrange(start as int, tags@.len() as int);
    let len = tags.len();
    if start == len {
        return Err(FlatDecodeError::MissingTypeTag);
    }
    let t0 = tags[start];
    if t0 == INTEGER {
        Ok((Type::Integer, 1))
    } else if t0 == BYTE_STRING {
        Ok((Type::ByteString, 1))
    } else if t0 == STRING {
        Ok((Type::String, 1))
    } else if t0 == UNIT {
        Ok((Type::Unit, 1))
    } else if t0 == BOOL {
        Ok((Type::Bool, 1))
    } else if t0 == DATA {
        Ok((Type::Data, 1))
    } else if len - start >= 2 && t0 == PROTO_LIST_ONE && tags[start + 1] == PROTO_LIST_TWO {
        proof {
            assert(rest.subrange(2, rest.len() as int) =~= tags@.subrange(start + 2, tags@.len() as int));
        }
        let (t, c) = type_from_tags_at(tags, start + 2)?;
        proof {
            lemma_type_of_tags_consumed(tags@.subrange(start + 2, tags@.len() as int));
        }
        Ok((Type::List(Box::new(t)), 2 + c))
    } else if len - start >= 2 && t0 == PROTO_ARRAY_ONE && tags[start + 1] == PROTO_ARRAY_TWO {
        proof {
            assert(rest.subrange(2, rest.len() as int) =~= tags@.subrange(start + 2, tags@.len() as int));
        }
        let (t, c) = type_from_tags_at(tags, start + 2)?;
        proof {
            lemma_type_of_tags_consumed(tags@.subrange(start + 2, tags@.len() as int));
        }
        Ok((Type::Array(Box::new(t)), 2 + c))
    } else if len - start >= 3 && t0 == PROTO_PAIR_ONE && tags[start + 1] == PROTO_PAIR_TWO
        && tags[start + 2] == PROTO_PAIR_THREE {
        let ghost rest3 = tags@.subrange(start + 3, tags@.len() as int);
        proof {
            assert(rest.subrange(3, rest.len() as int) =~= rest3);
        }
        let (t1, c1) = type_from_tags_at(tags, start + 3)?;
        proof {
            lemma_type_of_tags_consumed(rest3);
            assert(rest3.subrange(c1 as int, rest3.len() as int) =~= tags@.subrange(
                start + 3 + c1,
                tags@.len() as int,
            ));
        }
        let (t2, c2) = type_from_tags_at(tags, start + 3 + c1)?;
        proof {
            lemma_type_of_tags_consumed(tags@.subrange(start + 3 + c1, tags@.len() as int));
        }
        Ok((Type::Pair(Box::new(t1), Box::new(t2)), 3 + c1 + c2))
    } else {
        Err(FlatDecodeError::UnknownTypeTags(tags_from(tags, start)))
    }
}

/// A type read from tags takes at least one and at most all of them.
proof fn lemma_type_of_tags_consumed(tags: Seq<u8>)
    ensures
        type_of_tags(tags) matches Some((_, c)) ==> 1 <= c <= tags.len(),
    decreases tags.len(),
{
    if tags.len() >= 2 {
        lemma_type_of_tags_consumed(tags.subrange(2, tags.len() as int));
    }
    if tags.len() >= 3 {
        let rest = tags.subrange(3, tags.len() as int);
        lemma_type_of_tags_consumed(rest);
        if let Some((_, c1)) = type_of_tags(rest) {
            if c1 <= rest.len() {
                lemma_type_of_tags_consumed(rest.subrange(c1 as int, rest.len() as int));
            }
        }
    }
}

/// The type that a list of type tags begins with, and how many tags it
/// takes.
pub fn type_from_tags(tags: &[u8]) -> (r: Result<(Type, usize), FlatDecodeError>)
    ensures
        match type_of_tags(tags@) {
            Some((t, c)) => r matches Ok((x, n)) && x == t && n == c,
            None => r is Err,
        },
        tags@.len() == 0 ==> r == Err::<(Type, usize), FlatDecodeError>(
            FlatDecodeError::MissingTypeTag,
        ),
{
    proof {
        assert(tags@.subrange(0, tags@.len() as int) =~= tags@);
    }
    type_from_tags_at(tags, 0)
}

/// Reads a constant of type `ty`.
fn decode_constant_with_type(d: &mut Decoder, ty: &Type) -> (r: Result<Constant, FlatDecodeError>)
    requires
        old(d).inv(),
    ensures
        final(d).inv(),
        final(d).buffer@ == old(d).buffer@,
        match parse_constant_of_type(old(d).buffer@, old(d).bit_pos as nat, *ty) {
            Some((c, p)) => r matches Ok(x) && x@ == c && final(d).bit_pos == p,
            None => r is Err,
        },
    decreases *ty, 8 * old(d).buffer@.len() - old(d).bit_pos,
{
    match ty {
        Type::Integer => {
            let v = d.integer()?;
            Ok(Constant::Integer(v))
        },
        Type::ByteString => {
            let b = d.bytes()?;
            Ok(Constant::ByteString(b))
        },
        Type::Bool => {
            let v = d.bit()?;
            Ok(Constant::Boolean(v))
        },
        Type::String => {
            let s = d.utf8()?;
            proof {
                vstd::utf8::encode_utf8_decode_utf8(s@);
                vstd::utf8::encode_utf8_valid_utf8(s@);
            }
            Ok(Constant::String(s))
        },
        Type::Unit => Ok(Constant::Unit),
        Type::List(sub) => {
            let items = decode_constant_items(d, sub)?;
            Ok(Constant::ProtoList(crate::constant::copy_type(sub), items))
        },
        Type::Array(sub) => {
            let items = decode_constant_items(d, sub)?;
            Ok(Constant::ProtoArray(crate::constant::copy_type(sub), items))
        },
        Type::Pair(t1, t2) => {
            let a = decode_constant_with_type(d, t1)?;
            proof {
                d.buffer@.len();
                lemma_bytes_bits_len(d.buffer@);
            }
            let b = decode_constant_with_type(d, t2)?;
            Ok(
                Constant::ProtoPair(
                    crate::constant::copy_type(t1),
                    crate::constant::copy_type(t2),
                    Box::new(a),
                    Box::new(b),
                ),
            )
        },
        Type::Data => {
            let cbor = d.bytes()?;
            match PlutusData::from_cbor(cbor.as_slice()) {
                Ok(x) => Ok(Constant::Data(x)),
                Err(e) => Err(FlatDecodeError::DecodeCbor(e)),
            }
        },
        _ => Err(FlatDecodeError::BlsTypeNotSupported),
    }
}

/// Reads a list of constants of type `ty`: each after a one bit, then a
/// zero bit.
fn decode_constant_items(d: &mut Decoder, ty: &Type) -> (r: Result<Vec<Constant>, FlatDecodeError>)
    requires
        old(d).inv(),
    ensures
        final(d).inv(),
        final(d).buffer@ == old(d).buffer@,
        match parse_constant_items(old(d).buffer@, old(d).bit_pos as nat, *ty) {
            Some((cs, p)) => r matches Ok(v) && constants_view(v@) == cs && final(d).bit_pos == p,
            None => r is Err,
        },
    decreases *ty, 8 * old(d).buffer@.len() - old(d).bit_pos,
{
    let ghost buf = d.buffer@;
    let ghost start = d.bit_pos as nat;
    let mut out: Vec<Constant> = Vec::new();
    proof {
        lemma_bytes_bits_len(buf);
        match parse_constant_items(buf, start, *ty) {
            Some((rest, e)) => {
                assert(constants_view(out@) + rest =~= rest);
            },
            None => {},
        }
    }
    loop
        invariant
            d.inv(),
            d.buffer@ == buf,
            buf == old(d).buffer@,
            start == old(d).bit_pos,
            d.bit_pos >= start,
            bytes_bits(buf).len() == 8 * buf.len(),
            parse_constant_items(buf, start, *ty) == match parse_constant_items(buf, d.bit_pos as nat, *ty) {
                Some((rest, e)) => Some((constants_view(out@) + rest, e)),
                None => None,
            },
        decreases 8 * buf.len() - d.bit_pos,
    {
        let here = d.bit_pos;
        let more = d.bit()?;
        if !more {
            proof {
                assert(constants_view(out@) + Seq::<ConstantV>::empty() =~= constants_view(out@));
            }
            return Ok(out);
        }
        let c = decode_constant_with_type(d, ty)?;
        if d.bit_pos <= here {
            return Err(FlatDecodeError::UnsupportedConstantType);
        }
        proof {
            lemma_constants_view_push(out@, c);
            let nxt = d.bit_pos as nat;
            match parse_constant_items(buf, nxt, *ty) {
                Some((rest, e)) => {
                    assert(constants_view(out@).push(c@) + rest =~= constants_view(out@) + (seq![c@] + rest));
                },
                None => {},
            }
        }
        out.push(c);
    }
}

/// Reads a constant: its type tags, then its value.
fn decode_constant(d: &mut Decoder) -> (r: Result<Constant, FlatDecodeError>)
    requires
        old(d).inv(),
    ensures
        final(d).inv(),
        final(d).buffer@ == old(d).buffer@,
        match parse_constant(old(d).buffer@, old(d).bit_pos as nat) {
            Some((c, p)) => r matches Ok(x) && x@ == c && final(d).bit_pos == p,
            None => r is Err,
        },
{
    let tags = decode_type_tags(d)?;
    let (ty, _) = type_from_tags(tags.as_slice())?;
    decode_constant_with_type(d, &ty)
}

/// Reads a term.
fn decode_term(d: &mut Decoder) -> (r: Result<Term, FlatDecodeError>)
    requires
        old(d).inv(),
    ensures
        final(d).inv(),
        final(d).buffer@ == old(d).buffer@,
        match parse_term(old(d).buffer@, old(d).bit_pos as nat) {
            Some((t, p)) => r matches Ok(x) && x@ == t && final(d).bit_pos == p,
            None => r is Err,
        },
    decreases 8 * old(d).buffer@.len() - old(d).bit_pos, 0nat,
{
    proof {
        lemma_bytes_bits_len(d.buffer@);
    }
    let start = d.bit_pos;
    let tag = d.bits8(4)?;
    match tag {
        0 => {
            let i = d.word()?;
            Ok(Term::Var(DeBruijn(i)))
        },
        1 => {
            let body = decode_term(d)?;
            Ok(Term::Delay(Box::new(body)))
        },
        2 => {
            let body = decode_term(d)?;
            Ok(Term::Lambda { parameter: DeBruijn(0), body: Box::new(body) })
        },
        3 => {
            let here = d.bit_pos;
            let function = decode_term(d)?;
            if d.bit_pos <= here {
                return Err(FlatDecodeError::UnknownTermConstructor(tag));
            }
            let argument = decode_term(d)?;
            Ok(Term::Apply { function: Box::new(function), argument: Box::new(argument) })
        },
        4 => {
            let c = decode_constant(d)?;
            Ok(Term::Constant(c))
        },
        5 => {
            let body = decode_term(d)?;
            Ok(Term::Force(Box::new(body)))
        },
        6 => Ok(Term::Error),
        7 => {
            let t = d.bits8(7)?;
            match DefaultFunction::from_tag(t) {
                Some(f) => Ok(Term::Builtin(f)),
                None => Err(FlatDecodeError::DefaultFunctionNotFound(t)),
            }
        },
        8 => {
            let here = d.bit_pos;
            let i = d.word()?;
            if d.bit_pos <= here {
                return Err(FlatDecodeError::UnknownTermConstructor(tag));
            }
            let fields = decode_term_list(d)?;
            Ok(Term::Constr { tag: i, fields })
        },
        9 => {
            let here = d.bit_pos;
            let constr = decode_term(d)?;
            if d.bit_pos <= here {
                return Err(FlatDecodeError::UnknownTermConstructor(tag));
            }
            let branches = decode_term_list(d)?;
            Ok(Term::Case { constr: Box::new(constr), branches })
        },
        _ => Err(FlatDecodeError::UnknownTermConstructor(tag)),
    }
}

/// Reads a list of terms: each after a one bit, then a zero bit.
fn decode_term_list(d: &mut Decoder) -> (r: Result<Vec<Term>, FlatDecodeError>)
    requires
        old(d).inv(),
    ensures
        final(d).inv(),
        final(d).buffer@ == old(d).buffer@,
        match parse_terms(old(d).buffer@, old(d).bit_pos as nat) {
            Some((ts, p)) => r matches Ok(v) && terms_view(v@) == ts && final(d).bit_pos == p,
            None => r is Err,
        },
    decreases 8 * old(d).buffer@.len() - old(d).bit_pos, 1nat,
{
    let ghost buf = d.buffer@;
    let ghost start = d.bit_pos as nat;
    let mut out: Vec<Term> = Vec::new();
    proof {
        lemma_bytes_bits_len(buf);
        match parse_terms(buf, start) {
            Some((rest, e)) => {
                assert(terms_view(out@) + rest =~= rest);
            },
            None => {},
        }
    }
    loop
        invariant
            d.inv(),
            d.buffer@ == buf,
            buf == old(d).buffer@,
            start == old(d).bit_pos,
            d.bit_pos >= start,
            bytes_bits(buf).len() == 8 * buf.len(),
            parse_terms(buf, start) == match parse_terms(buf, d.bit_pos as nat) {
                Some((rest, e)) => Some((terms_view(out@) + rest, e)),
                None => None,
            },
        decreases 8 * buf.len() - d.bit_pos,
    {
        let here = d.bit_pos;
        let more = d.bit()?;
        if !more {
            proof {
                assert(terms_view(out@) + Seq::<TermV>::empty() =~= terms_view(out@));
            }
            return Ok(out);
        }
        let t = decode_term(d)?;
        if d.bit_pos <= here {
            return Err(FlatDecodeError::EndOfBuffer);
        }
        proof {
            lemma_terms_view_push(out@, t);
            let nxt = d.bit_pos as nat;
            match parse_terms(buf, nxt) {
                Some((rest, e)) => {
                    assert(terms_view(out@).push(t@) + rest =~= terms_view(out@) + (seq![t@] + rest));
                },
                None => {},
            }
        }
        out.push(t);
    }
}

/// Decodes the Flat form of a program.
pub fn decode(bytes: &[u8]) -> (r: Result<Program, FlatDecodeError>)
    requires
        8 * bytes@.len() <= usize::MAX,
    ensures
        match parse_program(bytes@) {
            Some(p) => r matches Ok(x) && x@ == p,
            None => r is Err,
        },
{
    let mut d = Decoder::new(bytes);
    let major = d.word()?;
    let minor = d.word()?;
    let patch = d.word()?;
    let version = Version::new(major, minor, patch);
    let term = decode_term(&mut d)?;
    d.filler()?;
    Ok(Program::new(version, term))
}

} // verus!
