//! Flat encoding of constants, terms and programs.

use vstd::prelude::*;
use vstd::arithmetic::power2::{lemma2_to64, pow2};
use vstd::utf8::encode_utf8;

use crate::builtin::spec_tag;
use crate::constant::{Constant, ConstantV};
use crate::program::{Program, ProgramV};
use crate::term::{lemma_terms_view_index, Term, TermV, terms_view};

use super::bits::{bytes_bits, lemma_to_bits_len, to_bits};
use super::encoder::{enc_blocks, enc_filler, enc_word, Encoder, FlatEncodeError};
use super::zigzag::zigzag_spec;

verus! {

/// The width of a term tag.
pub const TERM_TAG_WIDTH: usize = 4;

/// The width of a constant type tag.
pub const CONST_TAG_WIDTH: usize = 4;

/// The width of a built-in function tag.
pub const BUILTIN_TAG_WIDTH: usize = 7;

/// Term tags.
pub const VAR: u8 = 0;
pub const DELAY: u8 = 1;
pub const LAMBDA: u8 = 2;
pub const APPLY: u8 = 3;
pub const CONSTANT: u8 = 4;
pub const FORCE: u8 = 5;
pub const ERROR: u8 = 6;
pub const BUILTIN: u8 = 7;
pub const CONSTR: u8 = 8;
pub const CASE: u8 = 9;

/// A byte string at bit offset `pos`: a filler to the byte boundary, then
/// its blocks.
pub open spec fn enc_bytes(pos: nat, b: Seq<u8>) -> Seq<bool> {
    enc_filler(pos % 8) + bytes_bits(enc_blocks(b))
}

/// A one-element list of constant type tags holding `tag`.
pub open spec fn enc_type_tag(tag: nat) -> Seq<bool> {
    seq![true] + to_bits(tag, 4) + seq![false]
}

/// Whether a constant has a Flat form here: integers, byte strings,
/// strings, unit, booleans and data.
pub open spec fn encodable_constant(c: ConstantV) -> bool {
    match c {
        ConstantV::Integer(_) => true,
        ConstantV::ByteString(_) => true,
        ConstantV::String(_) => true,
        ConstantV::Unit => true,
        ConstantV::Boolean(_) => true,
        ConstantV::Data(_) => true,
        _ => false,
    }
}

/// The Flat form of a constant written at bit offset `pos`. A data constant
/// is written as nothing at all.
pub open spec fn enc_constant(c: ConstantV, pos: nat) -> Seq<bool> {
    match c {
        ConstantV::Integer(x) => enc_type_tag(0) + enc_word(zigzag_spec(x)),
        ConstantV::ByteString(b) => enc_type_tag(1) + enc_bytes(pos + 6, b),
        ConstantV::String(s) => enc_type_tag(2) + enc_bytes(pos + 6, encode_utf8(s)),
        ConstantV::Unit => enc_type_tag(3),
        ConstantV::Boolean(b) => enc_type_tag(4) + seq![b],
        _ => Seq::empty(),
    }
}

/// Whether every constant in a term has a Flat form.
pub open spec fn encodable_term(t: TermV) -> bool
    decreases t,
{
    match t {
        TermV::Lambda(_, b) => encodable_term(*b),
        TermV::Apply(f, a) => encodable_term(*f) && encodable_term(*a),
        TermV::Delay(b) => encodable_term(*b),
        TermV::Force(b) => encodable_term(*b),
        TermV::Case(c, bs) => encodable_term(*c) && encodable_terms(bs),
        TermV::Constr(_, fs) => encodable_terms(fs),
        TermV::Constant(c) => encodable_constant(c),
        _ => true,
    }
}

/// Whether every term of a sequence is encodable.
pub open spec fn encodable_terms(s: Seq<TermV>) -> bool
    decreases s,
{
    if s.len() == 0 {
        true
    } else {
        encodable_term(s[0]) && encodable_terms(s.subrange(1, s.len() as int))
    }
}

/// The Flat form of a term written at bit offset `pos`.
pub open spec fn enc_term(t: TermV, pos: nat) -> Seq<bool>
    decreases t,
{
    match t {
        TermV::Var(i) => to_bits(0, 4) + enc_word(i),
        TermV::Delay(b) => to_bits(1, 4) + enc_term(*b, pos + 4),
        TermV::Lambda(_, b) => to_bits(2, 4) + enc_term(*b, pos + 4),
        TermV::Apply(f, a) => {
            let ef = enc_term(*f, pos + 4);
            to_bits(3, 4) + ef + enc_term(*a, pos + 4 + ef.len())
        },
        TermV::Constant(c) => to_bits(4, 4) + enc_constant(c, pos + 4),
        TermV::Force(b) => to_bits(5, 4) + enc_term(*b, pos + 4),
        TermV::Error => to_bits(6, 4),
        TermV::Builtin(f) => to_bits(7, 4) + to_bits(spec_tag(f) as nat, 7),
        TermV::Constr(tag, fs) => {
            let et = enc_word(tag);
            to_bits(8, 4) + et + enc_terms(fs, pos + 4 + et.len())
        },
        TermV::Case(c, bs) => {
            let ec = enc_term(*c, pos + 4);
            to_bits(9, 4) + ec + enc_terms(bs, pos + 4 + ec.len())
        },
    }
}

/// The Flat form of a list of terms at bit offset `pos`: each item after a
/// one bit, then a zero bit.
pub open spec fn enc_terms(s: Seq<TermV>, pos: nat) -> Seq<bool>
    decreases s,
{
    if s.len() == 0 {
        seq![false]
    } else {
        let e0 = enc_term(s[0], pos + 1);
        seq![true] + e0 + enc_terms(s.subrange(1, s.len() as int), pos + 1 + e0.len())
    }
}

/// The Flat form of a program: the three version numbers, the term and a
/// final filler.
pub open spec fn enc_program(p: ProgramV) -> Seq<bool> {
    let head = enc_word(p.version.0 as nat) + enc_word(p.version.1 as nat) + enc_word(
        p.version.2 as nat,
    );
    let body = enc_term(p.term, head.len());
    head + body + enc_filler((head.len() + body.len()) % 8)
}

/// Writes the low `num_bits` bits of `byte`, or fails when `byte` does not
/// fit in them.
fn safe_encode_bits(e: &mut Encoder, num_bits: usize, byte: u8) -> (r: Result<(), FlatEncodeError>)
    requires
        old(e).inv(),
        1 <= num_bits < 8,
    ensures
        final(e).inv(),
        (byte as nat) < pow2(num_bits as nat) ==> r is Ok && final(e).written() == old(e).written()
            + to_bits(byte as nat, num_bits as nat),
        (byte as nat) >= pow2(num_bits as nat) ==> r == Err::<(), FlatEncodeError>(
            FlatEncodeError::Overflow { byte, num_bits },
        ) && final(e).written() == old(e).written(),
{
    proof {
        lemma2_to64();
        vstd::arithmetic::power2::lemma_pow2_strictly_increases(num_bits as nat, 8);
        vstd::bits::lemma_u8_shl_is_mul(1u8, num_bits as u8);
    }
    let limit: u8 = 1u8 << (num_bits as u8);
    if limit <= byte {
        Err(FlatEncodeError::Overflow { byte, num_bits })
    } else {
        e.bits(num_bits as i64, byte);
        Ok(())
    }
}

/// Writes a term tag.
fn encode_term_tag(e: &mut Encoder, tag: u8) -> (r: Result<(), FlatEncodeError>)
    requires
        old(e).inv(),
        tag < 16,
    ensures
        final(e).inv(),
        r is Ok,
        final(e).written() == old(e).written() + to_bits(tag as nat, 4),
{
    proof {
        lemma2_to64();
    }
    safe_encode_bits(e, TERM_TAG_WIDTH, tag)
}

/// Writes a one-element list of constant type tags.
fn encode_constant_tag(e: &mut Encoder, tag: u8) -> (r: Result<(), FlatEncodeError>)
    requires
        old(e).inv(),
        tag < 16,
    ensures
        final(e).inv(),
        r is Ok,
        final(e).written() == old(e).written() + enc_type_tag(tag as nat),
{
    proof {
        lemma2_to64();
    }
    e.bool(true);
    let r = safe_encode_bits(e, CONST_TAG_WIDTH, tag);
    e.bool(false);
    proof {
        assert(old(e).written().push(true) + to_bits(tag as nat, 4) + seq![false] =~= old(e).written()
            + enc_type_tag(tag as nat));
    }
    r
}

/// Writes a constant. Data constants are written as nothing.
fn encode_constant(e: &mut Encoder, constant: &Constant) -> (r: Result<(), FlatEncodeError>)
    requires
        old(e).inv(),
        encodable_constant(constant@),
    ensures
        final(e).inv(),
        r is Ok,
        final(e).written() == old(e).written() + enc_constant(constant@, old(e).written().len()),
{
    let ghost w0 = e.written();
    match constant {
        Constant::Integer(i) => {
            encode_constant_tag(e, 0)?;
            e.integer(i);
            proof {
                assert(w0 + enc_type_tag(0) + enc_word(zigzag_spec(i@)) =~= w0 + enc_constant(constant@, w0.len()));
            }
        },
        Constant::ByteString(b) => {
            encode_constant_tag(e, 1)?;
            let ghost w1 = e.written();
            proof {
                e.lemma_used_is_offset();
            }
            e.bytes(b.as_slice());
            proof {
                lemma_to_bits_len(1, 4);
                lemma_to_bits_len(2, 4);
                assert(w1.len() == w0.len() + 6);
                assert(w0 + enc_type_tag(1) + enc_filler(w1.len() % 8) + bytes_bits(enc_blocks(b@))
                    =~= w0 + enc_constant(constant@, w0.len()));
            }
        },
        Constant::String(s) => {
            encode_constant_tag(e, 2)?;
            let ghost w1 = e.written();
            proof {
                e.lemma_used_is_offset();
            }
            e.utf8(s.as_str());
            proof {
                lemma_to_bits_len(1, 4);
                lemma_to_bits_len(2, 4);
                assert(w1.len() == w0.len() + 6);
                assert(w0 + enc_type_tag(2) + enc_filler(w1.len() % 8) + bytes_bits(enc_blocks(encode_utf8(s@)))
                    =~= w0 + enc_constant(constant@, w0.len()));
            }
        },
        Constant::Unit => {
            encode_constant_tag(e, 3)?;
        },
        Constant::Boolean(b) => {
            encode_constant_tag(e, 4)?;
            e.bool(*b);
            proof {
                assert((w0 + enc_type_tag(4)).push(*b) =~= w0 + enc_constant(constant@, w0.len()));
            }
        },
        Constant::Data(_) => {
            proof {
                assert(w0 =~= w0 + enc_constant(constant@, w0.len()));
            }
        },
        _ => {
            proof {
                assert(false);
            }
        },
    }
    Ok(())
}

/// Writes a term.
fn encode_term(e: &mut Encoder, term: &Term) -> (r: Result<(), FlatEncodeError>)
    requires
        old(e).inv(),
        encodable_term(term@),
    ensures
        final(e).inv(),
        r is Ok,
        final(e).written() == old(e).written() + enc_term(term@, old(e).written().len()),
    decreases term, 1nat,
{
    let ghost w0 = e.written();
    let ghost p0 = w0.len();
    proof {
        lemma2_to64();
        lemma_to_bits_len(1, 4);
        lemma_to_bits_len(2, 4);
        lemma_to_bits_len(3, 4);
        lemma_to_bits_len(4, 4);
        lemma_to_bits_len(5, 4);
        lemma_to_bits_len(8, 4);
        lemma_to_bits_len(9, 4);
    }
    match term {
        Term::Var(name) => {
            encode_term_tag(e, VAR)?;
            e.word(name.0);
            proof {
                assert(w0 + to_bits(0, 4) + enc_word(name.0 as nat) =~= w0 + enc_term(term@, p0));
            }
        },
        Term::Lambda { parameter, body } => {
            encode_term_tag(e, LAMBDA)?;
            encode_term(e, body)?;
            proof {
                assert(w0 + to_bits(2, 4) + enc_term(body@, p0 + 4) =~= w0 + enc_term(term@, p0));
            }
        },
        Term::Apply { function, argument } => {
            encode_term_tag(e, APPLY)?;
            encode_term(e, function)?;
            let ghost w2 = e.written();
            encode_term(e, argument)?;
            proof {
                let ef = enc_term(function@, p0 + 4);
                assert(w2.len() == p0 + 4 + ef.len());
                assert(w0 + to_bits(3, 4) + ef + enc_term(argument@, w2.len()) =~= w0 + enc_term(term@, p0));
            }
        },
        Term::Delay(body) => {
            encode_term_tag(e, DELAY)?;
            encode_term(e, body)?;
            proof {
                assert(w0 + to_bits(1, 4) + enc_term(body@, p0 + 4) =~= w0 + enc_term(term@, p0));
            }
        },
        Term::Force(body) => {
            encode_term_tag(e, FORCE)?;
            encode_term(e, body)?;
            proof {
                assert(w0 + to_bits(5, 4) + enc_term(body@, p0 + 4) =~= w0 + enc_term(term@, p0));
            }
        },
        Term::Case { constr, branches } => {
            encode_term_tag(e, CASE)?;
            encode_term(e, constr)?;
            let ghost w2 = e.written();
            encode_term_list(e, term, branches)?;
            proof {
                let ec = enc_term(constr@, p0 + 4);
                assert(w2.len() == p0 + 4 + ec.len());
                assert(w0 + to_bits(9, 4) + ec + enc_terms(terms_view(branches@), w2.len()) =~= w0
                    + enc_term(term@, p0));
            }
        },
        Term::Constr { tag, fields } => {
            encode_term_tag(e, CONSTR)?;
            e.word(*tag);
            let ghost w2 = e.written();
            encode_term_list(e, term, fields)?;
            proof {
                let et = enc_word(*tag as nat);
                assert(w2.len() == p0 + 4 + et.len());
                assert(w0 + to_bits(8, 4) + et + enc_terms(terms_view(fields@), w2.len()) =~= w0
                    + enc_term(term@, p0));
            }
        },
        Term::Constant(c) => {
            encode_term_tag(e, CONSTANT)?;
            encode_constant(e, c)?;
            proof {
                assert(w0 + to_bits(4, 4) + enc_constant(c@, p0 + 4) =~= w0 + enc_term(term@, p0));
            }
        },
        Term::Builtin(b) => {
            encode_term_tag(e, BUILTIN)?;
            let t = b.tag();
            proof {
                crate::builtin::lemma_tag_bound(*b);
            }
            e.bits(BUILTIN_TAG_WIDTH as i64, t);
            proof {
                assert(w0 + to_bits(7, 4) + to_bits(spec_tag(*b) as nat, 7) =~= w0 + enc_term(term@, p0));
            }
        },
        Term::Error => {
            encode_term_tag(e, ERROR)?;
            proof {
                assert(w0 + to_bits(6, 4) =~= w0 + enc_term(term@, p0));
            }
        },
    }
    Ok(())
}

/// Writes a list of terms: each after a one bit, then a zero bit.
fn encode_term_list(e: &mut Encoder, parent: &Term, items: &Vec<Term>) -> (r: Result<(), FlatEncodeError>)
    requires
        old(e).inv(),
        (parent matches Term::Case { branches, .. } && branches == *items) || (parent matches Term::Constr { fields, .. } && fields == *items),
        encodable_terms(terms_view(items@)),
    ensures
        final(e).inv(),
        r is Ok,
        final(e).written() == old(e).written() + enc_terms(terms_view(items@), old(e).written().len()),
    decreases parent, 0nat,
{
    let ghost w0 = e.written();
    let ghost all = terms_view(items@);
    proof {
        lemma_terms_view_index(items@);
        assert(all.subrange(0, all.len() as int) =~= all);
    }
    let mut i: usize = 0;
    while i < items.len()
        invariant
            e.inv(),
            i <= items.len(),
            all == terms_view(items@),
            all.len() == items@.len(),
            forall|k: int| 0 <= k < items@.len() ==> #[trigger] all[k] == items@[k]@,
            encodable_terms(all),
            (parent matches Term::Case { branches, .. } && branches == *items) || (parent matches Term::Constr { fields, .. } && fields == *items),
            e.written() + enc_terms(all.subrange(i as int, all.len() as int), e.written().len()) == w0 + enc_terms(all, w0.len()),
        decreases items.len() - i,
    {
        proof {
            assert(decreases_to!(*items => items@));
            assert(decreases_to!(items@ => items@[i as int]));
            if parent is Case {
                assert(decreases_to!(*parent => (*parent)->branches));
            } else {
                assert(decreases_to!(*parent => (*parent)->fields));
            }
            lemma_encodable_terms_index(all, i as int);
        }
        let ghost before = e.written();
        e.bool(true);
        encode_term(e, &items[i])?;
        proof {
            let rest = all.subrange(i as int, all.len() as int);
            assert(rest[0] == all[i as int]);
            assert(rest.subrange(1, rest.len() as int) =~= all.subrange(i + 1, all.len() as int));
            let e0 = enc_term(all[i as int], before.len() + 1);
            assert(enc_terms(rest, before.len()) == seq![true] + e0 + enc_terms(
                all.subrange(i + 1, all.len() as int),
                before.len() + 1 + e0.len(),
            ));
            assert(e.written() == before.push(true) + e0);
            assert(e.written() + enc_terms(all.subrange(i + 1, all.len() as int), e.written().len())
                =~= before + enc_terms(rest, before.len()));
        }
        i += 1;
    }
    e.bool(false);
    proof {
        assert(all.subrange(items.len() as int, all.len() as int) =~= Seq::<TermV>::empty());
    }
    Ok(())
}

/// An item of an encodable sequence is encodable.
proof fn lemma_encodable_terms_index(s: Seq<TermV>, i: int)
    requires
        encodable_terms(s),
        0 <= i < s.len(),
    ensures
        encodable_term(s[i]),
    decreases s.len(),
{
    if i > 0 {
        lemma_encodable_terms_index(s.subrange(1, s.len() as int), i - 1);
    }
}

/// The Flat form of a program.
pub fn encode(program: &Program) -> (r: Result<Vec<u8>, FlatEncodeError>)
    requires
        encodable_term(program.term@),
    ensures
        r matches Ok(bytes) && bytes_bits(bytes@) == enc_program(program@),
{
    let mut e = Encoder::new();
    let v = program.version;
    e.word(v.0.0);
    e.word(v.0.1);
    e.word(v.0.2);
    let ghost head = e.written();
    encode_term(&mut e, &program.term)?;
    let ghost w2 = e.written();
    proof {
        e.lemma_used_is_offset();
    }
    e.filler();
    proof {
        e.lemma_aligned();
        assert(head =~= enc_word(v.0.0 as nat) + enc_word(v.0.1 as nat) + enc_word(v.0.2 as nat));
        assert(e.written() =~= enc_program(program@));
    }
    Ok(e.buffer)
}

} // verus!
