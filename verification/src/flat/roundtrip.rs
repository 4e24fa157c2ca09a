//! Reading back what the encoder writes: decoding the Flat form of a
//! program gives the program.

use vstd::arithmetic::power2::{lemma2_to64, lemma_pow2_pos, pow2};
use vstd::prelude::*;

use super::bits::{
    bytes_bits, from_bits, lemma_bytes_bits_index, lemma_bytes_bits_len, lemma_from_to_bits,
    lemma_to_bits_index, lemma_to_bits_len, to_bits,
};
use super::decoder::{parse_bits, parse_blocks, parse_filler, parse_word};
use super::decode::{
    parse_bytes, parse_constant, parse_program, parse_term, parse_terms, parse_type_tags,
};
use super::encode::{enc_bytes, enc_constant, enc_program, enc_term, enc_terms, enc_type_tag};
use crate::program::ProgramV;
use super::zigzag::{lemma_unzigzag_zigzag, zigzag_spec};
use crate::builtin::{lemma_from_tag_tag, lemma_tag_bound, spec_tag};
use crate::constant::ConstantV;
use crate::term::TermV;
use vstd::utf8::encode_utf8;
use super::encoder::{enc_blocks, enc_filler, enc_word};

verus! {

/// Whether `s` stands in `bits` at position `pos`.
pub open spec fn matches_at(bits: Seq<bool>, pos: nat, s: Seq<bool>) -> bool {
    &&& pos + s.len() <= bits.len()
    &&& bits.subrange(pos as int, (pos + s.len()) as int) == s
}

/// A concatenation stands at `pos` exactly when its parts stand one after
/// the other.
pub proof fn lemma_matches_split(bits: Seq<bool>, pos: nat, a: Seq<bool>, b: Seq<bool>)
    requires
        matches_at(bits, pos, a + b),
    ensures
        matches_at(bits, pos, a),
        matches_at(bits, pos + a.len(), b),
{
    assert(bits.subrange(pos as int, (pos + a.len()) as int) =~= (a + b).subrange(0, a.len() as int));
    assert((a + b).subrange(0, a.len() as int) =~= a);
    assert(bits.subrange((pos + a.len()) as int, (pos + a.len() + b.len()) as int) =~= (a + b).subrange(
        a.len() as int,
        (a.len() + b.len()) as int,
    ));
    assert((a + b).subrange(a.len() as int, (a.len() + b.len()) as int) =~= b);
}

/// Reading `n` bits where `v` was written in `n` bits gives `v`.
pub proof fn lemma_parse_bits(bits: Seq<bool>, pos: nat, v: nat, n: nat)
    requires
        matches_at(bits, pos, to_bits(v, n)),
        v < pow2(n),
    ensures
        parse_bits(bits, pos, n) == Some((v, pos + n)),
{
    lemma_to_bits_len(v, n);
    lemma_from_to_bits(v, n);
}

/// The Flat form of a word takes at least one byte.
pub proof fn lemma_enc_word_len(c: nat)
    ensures
        enc_word(c).len() >= 8,
        enc_word(c).len() % 8 == 0,
    decreases c,
{
    lemma_to_bits_len(c % 128, 8);
    lemma_to_bits_len(c % 128 + 128, 8);
    if c / 128 != 0 {
        lemma_enc_word_len(c / 128);
    }
}

/// Reading a word where a word was written gives it back.
pub proof fn lemma_parse_word(bits: Seq<bool>, pos: nat, c: nat)
    requires
        matches_at(bits, pos, enc_word(c)),
    ensures
        parse_word(bits, pos) == Some((c, pos + enc_word(c).len())),
    decreases c,
{
    lemma2_to64();
    lemma_to_bits_len(c % 128, 8);
    lemma_to_bits_len(c % 128 + 128, 8);
    if c / 128 == 0 {
        lemma_parse_bits(bits, pos, c % 128, 8);
        assert(bits.subrange(pos as int, (pos + 8) as int) == to_bits(c % 128, 8));
        lemma_from_to_bits(c % 128, 8);
    } else {
        lemma_matches_split(bits, pos, to_bits(c % 128 + 128, 8), enc_word(c / 128));
        lemma_from_to_bits(c % 128 + 128, 8);
        lemma_parse_word(bits, pos + 8, c / 128);
        assert(bits.subrange(pos as int, (pos + 8) as int) == to_bits(c % 128 + 128, 8));
    }
}

/// The bits of `to_bits(1, n)`: all zero but the last.
proof fn lemma_one_bits(n: nat, i: nat)
    requires
        i < n,
    ensures
        to_bits(1, n)[i as int] == (i == n - 1),
{
    lemma_to_bits_index(1, n, i);
    let k = (n - 1 - i) as nat;
    lemma_pow2_pos(k);
    if k == 0 {
        lemma2_to64();
    } else {
        vstd::arithmetic::power2::lemma_pow2_strictly_increases(0, k);
        lemma2_to64();
        assert(1nat / pow2(k) == 0) by {
            vstd::arithmetic::div_mod::lemma_basic_div(1, pow2(k) as int);
        }
    }
}

/// Reading a filler where `to_bits(1, n)` stands, from its `k`-th bit on.
proof fn lemma_parse_filler_from(bits: Seq<bool>, pos: nat, n: nat, k: nat)
    requires
        matches_at(bits, pos, to_bits(1, n)),
        k < n,
    ensures
        parse_filler(bits, pos + k) == Some(pos + n),
    decreases n - k,
{
    lemma_to_bits_len(1, n);
    lemma_one_bits(n, k);
    assert(bits[(pos + k) as int] == bits.subrange(pos as int, (pos + n) as int)[k as int]);
    if k + 1 < n {
        lemma_parse_filler_from(bits, pos, n, k + 1);
    }
}

/// Reading a filler where one was written at offset `pos % 8` ends at the
/// next byte boundary.
pub proof fn lemma_parse_filler(bits: Seq<bool>, pos: nat)
    requires
        matches_at(bits, pos, enc_filler(pos % 8)),
    ensures
        parse_filler(bits, pos) == Some((pos + (8 - pos % 8)) as nat),
        (pos + (8 - pos % 8)) % 8 == 0,
        enc_filler(pos % 8).len() == 8 - pos % 8,
{
    let n = (8 - pos % 8) as nat;
    lemma_to_bits_len(1, n);
    lemma_parse_filler_from(bits, pos, n, 0);
}

/// Reading blocks where the blocks of `a` were written gives `a`.
pub proof fn lemma_parse_blocks(b: Seq<u8>, i: nat, a: Seq<u8>)
    requires
        i + enc_blocks(a).len() <= b.len(),
        b.subrange(i as int, (i + enc_blocks(a).len()) as int) == enc_blocks(a),
    ensures
        parse_blocks(b, i) == Some((a, i + enc_blocks(a).len())),
    decreases a.len(),
{
    let e = enc_blocks(a);
    assert(b[i as int] == e[0]);
    if a.len() == 0 {
    } else if a.len() <= 255 {
        let n = a.len();
        assert(e == seq![n as u8] + a + seq![0u8]);
        assert(b[(i + 1 + n) as int] == e[(1 + n) as int]);
        assert forall|t: int| 0 <= t < n implies #[trigger] b.subrange((i + 1) as int, (i + 1 + n) as int)[t] == a[t] by {
            assert(b[i + 1 + t] == b.subrange(i as int, (i + e.len()) as int)[1 + t]);
        }
        assert(b.subrange((i + 1) as int, (i + 1 + n) as int) =~= a);
        assert(a + Seq::<u8>::empty() =~= a);
        assert(b[i as int] as nat == n);
        assert(parse_blocks(b, (i + 1 + n) as nat) == Some((Seq::<u8>::empty(), (i + 2 + n) as nat)));
        assert(e.len() == n + 2);
    } else {
        let rest = a.subrange(255, a.len() as int);
        let er = enc_blocks(rest);
        assert(e == seq![255u8] + a.subrange(0, 255) + er);
        assert(er.len() >= 1) by {
            if rest.len() > 255 {
            }
        }
        assert forall|t: int| 0 <= t < er.len() implies #[trigger] b.subrange((i + 256) as int, (i + 256 + er.len()) as int)[t] == er[t] by {
            assert(b[i + 256 + t] == b.subrange(i as int, (i + e.len()) as int)[256 + t]);
        }
        assert(b.subrange((i + 256) as int, (i + 256 + er.len()) as int) =~= er);
        lemma_parse_blocks(b, i + 256, rest);
        assert forall|t: int| 0 <= t < 255 implies #[trigger] b.subrange((i + 1) as int, (i + 256) as int)[t] == a[t] by {
            assert(b[i + 1 + t] == b.subrange(i as int, (i + e.len()) as int)[1 + t]);
        }
        assert(b.subrange((i + 1) as int, (i + 256) as int) =~= a.subrange(0, 255));
        assert(a.subrange(0, 255) + rest =~= a);
        assert(b[i as int] as nat == 255);
        assert(e.len() == 256 + er.len());
    }
}

/// Eight bits of a byte sequence at a byte boundary are that byte.
proof fn lemma_bytes_bits_byte(b: Seq<u8>, j: int)
    requires
        0 <= j < b.len(),
    ensures
        bytes_bits(b).subrange(8 * j, 8 * j + 8) == to_bits(b[j] as nat, 8),
{
    lemma_bytes_bits_len(b);
    lemma_to_bits_len(b[j] as nat, 8);
    assert forall|t: int| 0 <= t < 8 implies #[trigger] bytes_bits(b).subrange(8 * j, 8 * j + 8)[t]
        == to_bits(b[j] as nat, 8)[t] by {
        lemma_bytes_bits_index(b, 8 * j + t);
        assert((8 * j + t) / 8 == j);
        assert((8 * j + t) % 8 == t);
    }
    assert(bytes_bits(b).subrange(8 * j, 8 * j + 8) =~= to_bits(b[j] as nat, 8));
}

/// Where the bits of `x` stand at a byte boundary `8k`, the bytes of `x`
/// stand at `k`.
pub proof fn lemma_bytes_from_bits(buf: Seq<u8>, k: nat, x: Seq<u8>)
    requires
        matches_at(bytes_bits(buf), 8 * k, bytes_bits(x)),
    ensures
        k + x.len() <= buf.len(),
        buf.subrange(k as int, (k + x.len()) as int) == x,
{
    lemma_bytes_bits_len(buf);
    lemma_bytes_bits_len(x);
    lemma2_to64();
    assert forall|j: int| 0 <= j < x.len() implies #[trigger] buf.subrange(k as int, (k + x.len()) as int)[j] == x[j] by {
        lemma_bytes_bits_byte(buf, k + j);
        lemma_bytes_bits_byte(x, j);
        let bb = bytes_bits(buf);
        let bx = bytes_bits(x);
        assert(bb.subrange(8 * (k + j), 8 * (k + j) + 8) =~= bx.subrange(8 * j, 8 * j + 8)) by {
            assert forall|t: int| 0 <= t < 8 implies #[trigger] bb.subrange(8 * (k + j), 8 * (k + j) + 8)[t]
                == bx.subrange(8 * j, 8 * j + 8)[t] by {
                assert(bb[8 * (k + j) + t] == bb.subrange((8 * k) as int, (8 * k + bx.len()) as int)[8 * j + t]);
            }
        }
        lemma_from_to_bits(buf[k + j] as nat, 8);
        lemma_from_to_bits(x[j] as nat, 8);
    }
    assert(buf.subrange(k as int, (k + x.len()) as int) =~= x);
}

/// The blocks of a byte array are never empty.
proof fn lemma_enc_blocks_len(a: Seq<u8>)
    ensures
        enc_blocks(a).len() >= 1,
    decreases a.len(),
{
    if a.len() > 255 {
        lemma_enc_blocks_len(a.subrange(255, a.len() as int));
    }
}

/// Reading a byte string where one was written at `pos` gives it back.
pub proof fn lemma_parse_bytes(buf: Seq<u8>, pos: nat, a: Seq<u8>)
    requires
        matches_at(bytes_bits(buf), pos, enc_bytes(pos, a)),
    ensures
        parse_bytes(buf, pos) == Some((a, pos + enc_bytes(pos, a).len())),
{
    let bits = bytes_bits(buf);
    let f = enc_filler(pos % 8);
    let eb = enc_blocks(a);
    lemma_matches_split(bits, pos, f, bytes_bits(eb));
    lemma_parse_filler(bits, pos);
    let p = (pos + (8 - pos % 8)) as nat;
    let k = p / 8;
    assert(p == 8 * k);
    lemma_bytes_from_bits(buf, k, eb);
    lemma_parse_blocks(buf, k, a);
    lemma_bytes_bits_len(eb);
}

/// Reading a one-element list of type tags.
pub proof fn lemma_parse_type_tag(bits: Seq<bool>, pos: nat, t: nat)
    requires
        matches_at(bits, pos, enc_type_tag(t)),
        t < 16,
    ensures
        parse_type_tags(bits, pos) == Some((seq![t as u8], pos + 6)),
{
    lemma2_to64();
    lemma_to_bits_len(t, 4);
    let e = enc_type_tag(t);
    assert(e == seq![true] + to_bits(t, 4) + seq![false]);
    assert(bits[pos as int] == e[0]);
    assert(bits.subrange((pos + 1) as int, (pos + 5) as int) =~= to_bits(t, 4)) by {
        assert forall|i: int| 0 <= i < 4 implies #[trigger] bits.subrange((pos + 1) as int, (pos + 5) as int)[i] == to_bits(t, 4)[i] by {
            assert(bits[pos + 1 + i] == bits.subrange(pos as int, (pos + 6) as int)[1 + i]);
        }
    }
    lemma_parse_bits(bits, pos + 1, t, 4);
    assert(bits[(pos + 5) as int] == e[5]);
    assert(parse_type_tags(bits, pos + 5) == Some((Seq::<u8>::empty(), pos + 6)));
    assert(seq![t as u8] + Seq::<u8>::empty() =~= seq![t as u8]);
}

/// Whether a constant reads back as written: integers, byte strings,
/// strings, unit and booleans. (Data constants are written as nothing.)
pub open spec fn constant_roundtrips(c: ConstantV) -> bool {
    match c {
        ConstantV::Integer(_) => true,
        ConstantV::ByteString(_) => true,
        ConstantV::String(_) => true,
        ConstantV::Unit => true,
        ConstantV::Boolean(_) => true,
        _ => false,
    }
}

/// Whether a term reads back as written: its constants do, its lambdas
/// bind parameter 0, and its indices and tags fit in a machine word.
pub open spec fn term_roundtrips(t: TermV) -> bool
    decreases t,
{
    match t {
        TermV::Var(i) => i <= usize::MAX,
        TermV::Lambda(p, b) => p == 0 && term_roundtrips(*b),
        TermV::Apply(f, a) => term_roundtrips(*f) && term_roundtrips(*a),
        TermV::Delay(b) => term_roundtrips(*b),
        TermV::Force(b) => term_roundtrips(*b),
        TermV::Case(c, bs) => term_roundtrips(*c) && terms_roundtrip(bs),
        TermV::Constr(tag, fs) => tag <= usize::MAX && terms_roundtrip(fs),
        TermV::Constant(c) => constant_roundtrips(c),
        TermV::Builtin(_) => true,
        TermV::Error => true,
    }
}

/// Whether every term of a sequence reads back as written.
pub open spec fn terms_roundtrip(s: Seq<TermV>) -> bool
    decreases s,
{
    if s.len() == 0 {
        true
    } else {
        term_roundtrips(s[0]) && terms_roundtrip(s.subrange(1, s.len() as int))
    }
}

/// A one-element type tag list takes 6 bits.
proof fn lemma_enc_type_tag_len(t: nat)
    ensures
        enc_type_tag(t).len() == 6,
{
    lemma_to_bits_len(t, 4);
}

/// Reading a constant where it was written gives it back.
pub proof fn lemma_parse_constant(buf: Seq<u8>, pos: nat, c: ConstantV)
    requires
        constant_roundtrips(c),
        matches_at(bytes_bits(buf), pos, enc_constant(c, pos)),
    ensures
        parse_constant(buf, pos) == Some((c, pos + enc_constant(c, pos).len())),
{
    let bits = bytes_bits(buf);
    lemma_bytes_bits_len(buf);
    match c {
        ConstantV::Integer(x) => {
            lemma_enc_type_tag_len(0);
            lemma_matches_split(bits, pos, enc_type_tag(0), enc_word(zigzag_spec(x)));
            lemma_parse_type_tag(bits, pos, 0);
            lemma_parse_word(bits, pos + 6, zigzag_spec(x));
            lemma_unzigzag_zigzag(x);
        },
        ConstantV::ByteString(b) => {
            lemma_enc_type_tag_len(1);
            lemma_matches_split(bits, pos, enc_type_tag(1), enc_bytes(pos + 6, b));
            lemma_parse_type_tag(bits, pos, 1);
            lemma_parse_bytes(buf, pos + 6, b);
        },
        ConstantV::String(st) => {
            lemma_enc_type_tag_len(2);
            lemma_matches_split(bits, pos, enc_type_tag(2), enc_bytes(pos + 6, encode_utf8(st)));
            lemma_parse_type_tag(bits, pos, 2);
            lemma_parse_bytes(buf, pos + 6, encode_utf8(st));
            vstd::utf8::encode_utf8_valid_utf8(st);
            vstd::utf8::encode_utf8_decode_utf8(st);
        },
        ConstantV::Unit => {
            lemma_enc_type_tag_len(3);
            lemma_parse_type_tag(bits, pos, 3);
        },
        ConstantV::Boolean(v) => {
            lemma_enc_type_tag_len(4);
            lemma_matches_split(bits, pos, enc_type_tag(4), seq![v]);
            lemma_parse_type_tag(bits, pos, 4);
            assert(bits[(pos + 6) as int] == bits.subrange((pos + 6) as int, (pos + 7) as int)[0]);
        },
        _ => {},
    }
}

/// The Flat form of a term takes at least its 4-bit tag.
pub proof fn lemma_enc_term_len(t: TermV, pos: nat)
    ensures
        enc_term(t, pos).len() >= 4,
{
    lemma_to_bits_len(0, 4);
    lemma_to_bits_len(1, 4);
    lemma_to_bits_len(2, 4);
    lemma_to_bits_len(3, 4);
    lemma_to_bits_len(4, 4);
    lemma_to_bits_len(5, 4);
    lemma_to_bits_len(6, 4);
    lemma_to_bits_len(7, 4);
    lemma_to_bits_len(8, 4);
    lemma_to_bits_len(9, 4);
}

/// Reading a term where it was written gives it back.
#[verifier::spinoff_prover]
#[verifier::rlimit(60)]
pub proof fn lemma_parse_term(buf: Seq<u8>, pos: nat, t: TermV)
    requires
        term_roundtrips(t),
        matches_at(bytes_bits(buf), pos, enc_term(t, pos)),
    ensures
        parse_term(buf, pos) == Some((t, pos + enc_term(t, pos).len())),
    decreases t,
{
    let bits = bytes_bits(buf);
    lemma_bytes_bits_len(buf);
    lemma2_to64();
    lemma_enc_term_len(t, pos);
    match t {
        TermV::Var(i) => {
            lemma_to_bits_len(0, 4);
            lemma_matches_split(bits, pos, to_bits(0, 4), enc_word(i));
            lemma_parse_bits(bits, pos, 0, 4);
            lemma_parse_word(bits, pos + 4, i);
        },
        TermV::Delay(b) => {
            lemma_to_bits_len(1, 4);
            lemma_matches_split(bits, pos, to_bits(1, 4), enc_term(*b, pos + 4));
            lemma_parse_bits(bits, pos, 1, 4);
            lemma_parse_term(buf, pos + 4, *b);
        },
        TermV::Lambda(_, b) => {
            lemma_to_bits_len(2, 4);
            lemma_matches_split(bits, pos, to_bits(2, 4), enc_term(*b, pos + 4));
            lemma_parse_bits(bits, pos, 2, 4);
            lemma_parse_term(buf, pos + 4, *b);
        },
        TermV::Apply(f, a) => {
            let ef = enc_term(*f, pos + 4);
            let ea = enc_term(*a, pos + 4 + ef.len());
            lemma_to_bits_len(3, 4);
            lemma_matches_split(bits, pos, to_bits(3, 4) + ef, ea);
            lemma_matches_split(bits, pos, to_bits(3, 4), ef);
            lemma_parse_bits(bits, pos, 3, 4);
            lemma_parse_term(buf, pos + 4, *f);
            lemma_enc_term_len(*f, pos + 4);
            lemma_parse_term(buf, pos + 4 + ef.len(), *a);
        },
        TermV::Constant(c) => {
            lemma_to_bits_len(4, 4);
            lemma_matches_split(bits, pos, to_bits(4, 4), enc_constant(c, pos + 4));
            lemma_parse_bits(bits, pos, 4, 4);
            lemma_parse_constant(buf, pos + 4, c);
        },
        TermV::Force(b) => {
            lemma_to_bits_len(5, 4);
            lemma_matches_split(bits, pos, to_bits(5, 4), enc_term(*b, pos + 4));
            lemma_parse_bits(bits, pos, 5, 4);
            lemma_parse_term(buf, pos + 4, *b);
        },
        TermV::Error => {
            lemma_to_bits_len(6, 4);
            lemma_parse_bits(bits, pos, 6, 4);
        },
        TermV::Builtin(f) => {
            lemma_to_bits_len(7, 4);
            lemma_to_bits_len(spec_tag(f) as nat, 7);
            lemma_matches_split(bits, pos, to_bits(7, 4), to_bits(spec_tag(f) as nat, 7));
            lemma_parse_bits(bits, pos, 7, 4);
            lemma_tag_bound(f);
            lemma_parse_bits(bits, pos + 4, spec_tag(f) as nat, 7);
            lemma_from_tag_tag(f);
        },
        TermV::Constr(tag, fs) => {
            let et = enc_word(tag);
            let efs = enc_terms(fs, pos + 4 + et.len());
            lemma_to_bits_len(8, 4);
            lemma_matches_split(bits, pos, to_bits(8, 4) + et, efs);
            lemma_matches_split(bits, pos, to_bits(8, 4), et);
            lemma_parse_bits(bits, pos, 8, 4);
            lemma_parse_word(bits, pos + 4, tag);
            lemma_enc_word_len(tag);
            lemma_parse_terms(buf, pos + 4 + et.len(), fs);
        },
        TermV::Case(c, bs) => {
            let ec = enc_term(*c, pos + 4);
            let ebs = enc_terms(bs, pos + 4 + ec.len());
            lemma_to_bits_len(9, 4);
            lemma_matches_split(bits, pos, to_bits(9, 4) + ec, ebs);
            lemma_matches_split(bits, pos, to_bits(9, 4), ec);
            lemma_parse_bits(bits, pos, 9, 4);
            lemma_parse_term(buf, pos + 4, *c);
            lemma_enc_term_len(*c, pos + 4);
            lemma_parse_terms(buf, pos + 4 + ec.len(), bs);
        },
    }
}

/// Reading a list of terms where it was written gives it back.
pub proof fn lemma_parse_terms(buf: Seq<u8>, pos: nat, s: Seq<TermV>)
    requires
        terms_roundtrip(s),
        matches_at(bytes_bits(buf), pos, enc_terms(s, pos)),
    ensures
        parse_terms(buf, pos) == Some((s, pos + enc_terms(s, pos).len())),
    decreases s,
{
    let bits = bytes_bits(buf);
    lemma_bytes_bits_len(buf);
    if s.len() == 0 {
        assert(bits[pos as int] == bits.subrange(pos as int, (pos + 1) as int)[0]);
    } else {
        let rest = s.subrange(1, s.len() as int);
        let e0 = enc_term(s[0], pos + 1);
        let er = enc_terms(rest, pos + 1 + e0.len());
        lemma_matches_split(bits, pos, seq![true] + e0, er);
        lemma_matches_split(bits, pos, seq![true], e0);
        assert(bits[pos as int] == bits.subrange(pos as int, (pos + 1) as int)[0]);
        lemma_parse_term(buf, pos + 1, s[0]);
        lemma_parse_terms(buf, pos + 1 + e0.len(), rest);
        assert(seq![s[0]] + rest =~= s);
    }
}

/// Decoding the Flat form of a program gives the program back, whenever its
/// constants are integers, byte strings, strings, unit or booleans, its
/// lambdas bind parameter 0 and its indices fit in a machine word.
#[verifier::spinoff_prover]
#[verifier::rlimit(50)]
pub proof fn lemma_flat_roundtrip(p: ProgramV, buf: Seq<u8>)
    requires
        term_roundtrips(p.term),
        bytes_bits(buf) == enc_program(p),
    ensures
        parse_program(buf) == Some(p),
{
    let bits = bytes_bits(buf);
    let w1 = enc_word(p.version.0 as nat);
    let w2 = enc_word(p.version.1 as nat);
    let w3 = enc_word(p.version.2 as nat);
    let head = w1 + w2 + w3;
    let body = enc_term(p.term, head.len());
    let tail = enc_filler((head.len() + body.len()) % 8);
    assert(bits == head + body + tail);
    assert(matches_at(bits, 0, head + body + tail)) by {
        assert(bits.subrange(0, bits.len() as int) =~= bits);
    }
    lemma_matches_split(bits, 0, head + body, tail);
    lemma_matches_split(bits, 0, head, body);
    lemma_matches_split(bits, 0, w1 + w2, w3);
    lemma_matches_split(bits, 0, w1, w2);
    lemma_parse_word(bits, 0, p.version.0 as nat);
    lemma_parse_word(bits, w1.len(), p.version.1 as nat);
    lemma_parse_word(bits, w1.len() + w2.len(), p.version.2 as nat);
    lemma_parse_term(buf, head.len(), p.term);
    lemma_parse_filler(bits, head.len() + body.len());
}

} // verus!
