//! The CBOR form of [`PlutusData`], as it appears inside data constants.
//!
//! Constructors use tags 121..=127 (alternatives 0..=6), 1280..=1400
//! (alternatives 7..=127) or tag 102 around `[alternative, fields]`; big
//! integers use tags 2 and 3 around their big-endian magnitude; byte strings
//! may come in indefinite-length chunks; arrays and maps may be definite or
//! indefinite.

use vstd::prelude::*;

use crate::constant::{
    data_view, datas_view, lemma_datas_view_index, lemma_datas_view_push, lemma_pairs_view_index,
    lemma_pairs_view_push, pairs_view, DataV,
    PlutusData,
};
use crate::integer::{abs, lemma_digits64_canonical, min_be_bytes, Integer};

verus! {

/// A CBOR item that is not well-formed data.
#[derive(Debug, Clone, Copy, PartialEq, Eq, Structural)]
pub struct CborError {
    /// The position of the innermost item that is not well-formed: where
    /// its head starts, or where the input ends.
    pub position: usize,
}

/// The big-endian value of a byte sequence.
pub open spec fn be_value(s: Seq<u8>) -> nat
    decreases s.len(),
{
    if s.len() == 0 {
        0
    } else {
        be_value(s.drop_last()) * 256 + s.last() as nat
    }
}

/// The number of argument bytes that follow an initial byte whose low five
/// bits are `ai`.
pub open spec fn arg_size(ai: nat) -> nat {
    if ai == 24 {
        1
    } else if ai == 25 {
        2
    } else if ai == 26 {
        4
    } else if ai == 27 {
        8
    } else {
        0
    }
}

/// The head of the CBOR item at `i`: its major type, additional
/// information, argument (0 for an indefinite length) and the position
/// after the head.
pub open spec fn cbor_head(b: Seq<u8>, i: nat) -> Option<(nat, nat, nat, nat)> {
    if i < b.len() {
        let major = b[i as int] as nat / 32;
        let ai = b[i as int] as nat % 32;
        if ai < 24 {
            Some((major, ai, ai, i + 1))
        } else if ai <= 27 {
            let n = arg_size(ai);
            if i + 1 + n <= b.len() {
                Some((major, ai, be_value(b.subrange((i + 1) as int, (i + 1 + n) as int)), i + 1 + n))
            } else {
                None
            }
        } else if ai == 31 {
            Some((major, ai, 0, i + 1))
        } else {
            None
        }
    } else {
        None
    }
}

/// A CBOR integer (major type 0 or 1) at `i`; a failure gives `i`.
pub open spec fn parse_int(b: Seq<u8>, i: nat) -> Result<(int, nat), nat> {
    match cbor_head(b, i) {
        Some((major, ai, arg, j)) => if ai == 31 {
            Err(i)
        } else if major == 0 {
            Ok((arg as int, j))
        } else if major == 1 {
            Ok((-1 - arg, j))
        } else {
            Err(i)
        },
        None => Err(i),
    }
}

/// The chunks of an indefinite byte string from `j` up to its break byte;
/// a failure gives the position of the chunk that cannot be read.
pub open spec fn parse_chunks(b: Seq<u8>, j: nat) -> Result<(Seq<u8>, nat), nat>
    decreases b.len() - j,
{
    if j < b.len() {
        if b[j as int] == 0xff {
            Ok((Seq::empty(), j + 1))
        } else {
            match cbor_head(b, j) {
                Some((major, ai, n, k)) => if major == 2 && ai != 31 && k + n <= b.len() && k > j {
                    match parse_chunks(b, k + n) {
                        Ok((rest, e)) => Ok((b.subrange(k as int, (k + n) as int) + rest, e)),
                        Err(x) => Err(x),
                    }
                } else {
                    Err(j)
                },
                None => Err(j),
            }
        }
    } else {
        Err(j)
    }
}

/// A CBOR byte string (definite or chunked) at `i`; a failure of its head
/// or length gives `i`.
pub open spec fn parse_byte_string(b: Seq<u8>, i: nat) -> Result<(Seq<u8>, nat), nat> {
    match cbor_head(b, i) {
        Some((major, ai, n, j)) => if major != 2 {
            Err(i)
        } else if ai == 31 {
            parse_chunks(b, j)
        } else if j + n <= b.len() {
            Ok((b.subrange(j as int, (j + n) as int), j + n))
        } else {
            Err(i)
        },
        None => Err(i),
    }
}

/// The data item at `i`; a failure gives the position of the innermost
/// item that is not well-formed data.
pub open spec fn parse_data(b: Seq<u8>, i: nat) -> Result<(DataV, nat), nat>
    decreases b.len() - i, 1nat,
{
    match cbor_head(b, i) {
        Some((major, ai, arg, j)) => if j <= i || j > b.len() {
            Err(i)
        } else if major == 0 || major == 1 {
            match parse_int(b, i) {
                Ok((v, k)) => Ok((DataV::Integer(v), k)),
                Err(x) => Err(x),
            }
        } else if major == 2 {
            match parse_byte_string(b, i) {
                Ok((s, k)) => Ok((DataV::ByteString(s), k)),
                Err(x) => Err(x),
            }
        } else if major == 4 {
            match parse_data_seq(b, j, if ai == 31 { None } else { Some(arg) }) {
                Ok((items, k)) => Ok((DataV::List(items), k)),
                Err(x) => Err(x),
            }
        } else if major == 5 {
            match parse_pair_seq(b, j, if ai == 31 { None } else { Some(arg) }) {
                Ok((items, k)) => Ok((DataV::AssocList(items), k)),
                Err(x) => Err(x),
            }
        } else if major == 6 && ai != 31 {
            if 121 <= arg <= 127 {
                match parse_fields(b, j) {
                    Ok((fields, k)) => Ok((DataV::Constr((arg - 121) as u64, fields), k)),
                    Err(x) => Err(x),
                }
            } else if 1280 <= arg <= 1400 {
                match parse_fields(b, j) {
                    Ok((fields, k)) => Ok((DataV::Constr((arg - 1280 + 7) as u64, fields), k)),
                    Err(x) => Err(x),
                }
            } else if arg == 102 {
                match cbor_head(b, j) {
                    Some((m2, ai2, n2, j2)) => if m2 == 4 && ai2 != 31 && n2 == 2 && j2 > j {
                        match parse_int(b, j2) {
                            Ok((d, j3)) => if 0 <= d <= u64::MAX && j3 > j2 && j3 <= b.len() {
                                match parse_fields(b, j3) {
                                    Ok((fields, k)) => Ok((DataV::Constr(d as u64, fields), k)),
                                    Err(x) => Err(x),
                                }
                            } else {
                                Err(j2)
                            },
                            Err(x) => Err(x),
                        }
                    } else {
                        Err(j)
                    },
                    None => Err(j),
                }
            } else if arg == 2 || arg == 3 {
                match parse_byte_string(b, j) {
                    Ok((s, k)) => Ok(
                        (
                            DataV::Integer(
                                if arg == 2 {
                                    be_value(s) as int
                                } else {
                                    -(be_value(s) as int)
                                },
                            ),
                            k,
                        ),
                    ),
                    Err(x) => Err(x),
                }
            } else {
                Err(i)
            }
        } else {
            Err(i)
        },
        None => Err(i),
    }
}

/// An array of data items (definite or indefinite) at `j`, as a
/// constructor's fields.
pub open spec fn parse_fields(b: Seq<u8>, j: nat) -> Result<(Seq<DataV>, nat), nat>
    decreases b.len() - j, 3nat,
{
    match cbor_head(b, j) {
        Some((major, ai, n, k)) => if major == 4 && k > j && k <= b.len() {
            parse_data_seq(b, k, if ai == 31 { None } else { Some(n) })
        } else {
            Err(j)
        },
        None => Err(j),
    }
}

/// `count` data items from `j` (or, for `None`, items up to a break byte).
pub open spec fn parse_data_seq(b: Seq<u8>, j: nat, count: Option<nat>) -> Result<(Seq<DataV>, nat), nat>
    decreases b.len() - j, 2nat, if count is Some { count->0 } else { 0 },
{
    if count == Some(0nat) {
        Ok((Seq::empty(), j))
    } else if count is None && j < b.len() && b[j as int] == 0xff {
        Ok((Seq::empty(), j + 1))
    } else {
        match parse_data(b, j) {
            Ok((d, k)) => if j < k <= b.len() {
                match parse_data_seq(b, k, if count is Some { Some((count->0 - 1) as nat) } else { None }) {
                    Ok((rest, e)) => Ok((seq![d] + rest, e)),
                    Err(x) => Err(x),
                }
            } else {
                Err(j)
            },
            Err(x) => Err(x),
        }
    }
}

/// `count` key/value pairs from `j` (or, for `None`, pairs up to a break
/// byte).
pub open spec fn parse_pair_seq(b: Seq<u8>, j: nat, count: Option<nat>) -> Result<(Seq<(DataV, DataV)>, nat), nat>
    decreases b.len() - j, 2nat, if count is Some { count->0 } else { 0 },
{
    if count == Some(0nat) {
        Ok((Seq::empty(), j))
    } else if count is None && j < b.len() && b[j as int] == 0xff {
        Ok((Seq::empty(), j + 1))
    } else {
        match parse_data(b, j) {
            Ok((key, k)) => if j < k <= b.len() {
                match parse_data(b, k) {
                    Ok((value, m)) => if k < m <= b.len() {
                        match parse_pair_seq(
                            b,
                            m,
                            if count is Some { Some((count->0 - 1) as nat) } else { None },
                        ) {
                            Ok((rest, e)) => Ok((seq![(key, value)] + rest, e)),
                            Err(x) => Err(x),
                        }
                    } else {
                        Err(k)
                    },
                    Err(x) => Err(x),
                }
            } else {
                Err(j)
            },
            Err(x) => Err(x),
        }
    }
}

/// `256^n`.
pub open spec fn byte_pow(n: nat) -> nat
    decreases n,
{
    if n == 0 {
        1
    } else {
        256 * byte_pow((n - 1) as nat)
    }
}

/// `byte_pow` grows with its exponent.
proof fn lemma_byte_pow_mono(a: nat, b: nat)
    requires
        a <= b,
    ensures
        byte_pow(a) <= byte_pow(b),
    decreases b,
{
    if a < b {
        lemma_byte_pow_mono(a, (b - 1) as nat);
    }
}

/// The big-endian value of `s` is below `256^len`.
proof fn lemma_be_value_bound(s: Seq<u8>)
    ensures
        be_value(s) < byte_pow(s.len()),
    decreases s.len(),
{
    if s.len() > 0 {
        lemma_be_value_bound(s.drop_last());
        let p = byte_pow((s.len() - 1) as nat);
        assert(be_value(s.drop_last()) * 256 + s.last() < 256 * p) by (nonlinear_arith)
            requires
                be_value(s.drop_last()) < p,
                s.last() < 256,
        ;
    }
}

/// Reads the big-endian value of the `n` bytes at `pos`.
fn read_be(b: &[u8], pos: usize, n: usize) -> (r: u64)
    requires
        pos + n <= b@.len(),
        n <= 8,
    ensures
        r == be_value(b@.subrange(pos as int, (pos + n) as int)),
{
    let len = b.len();
    let mut v: u64 = 0;
    let mut k: usize = 0;
    proof {
        assert(b@.subrange(pos as int, pos as int) =~= Seq::<u8>::empty());
    }
    while k < n
        invariant
            k <= n <= 8,
            pos + n <= b@.len(),
            len == b@.len(),
            v == be_value(b@.subrange(pos as int, (pos + k) as int)),
        decreases n - k,
    {
        let ghost s = b@.subrange(pos as int, (pos + k + 1) as int);
        proof {
            assert(s.drop_last() =~= b@.subrange(pos as int, (pos + k) as int));
            lemma_be_value_bound(s);
            lemma_byte_pow_mono(s.len(), 8);
            assert(byte_pow(8) == 0x1_0000_0000_0000_0000) by {
                reveal_with_fuel(byte_pow, 9);
            }
            assert(s.last() == b@[pos + k]);
            assert(be_value(s) == v * 256 + b@[pos + k]);
        }
        v = v * 256 + b[pos + k] as u64;
        k += 1;
    }
    v
}

/// Reads the head of the item at `pos`.
fn read_head(b: &[u8], pos: usize) -> (r: Option<(u8, u8, u64, usize)>)
    ensures
        match cbor_head(b@, pos as nat) {
            Some((major, ai, arg, j)) => r == Some((major as u8, ai as u8, arg as u64, j as usize))
                && major < 8 && ai < 32 && arg <= u64::MAX && j <= b@.len() && j > pos,
            None => r is None,
        },
        b@.len() <= usize::MAX,
{
    if pos >= b.len() {
        return None;
    }
    let ib = b[pos];
    let major = ib / 32;
    let ai = ib % 32;
    if ai < 24 {
        Some((major, ai, ai as u64, pos + 1))
    } else if ai <= 27 {
        let n: usize = if ai == 24 {
            1
        } else if ai == 25 {
            2
        } else if ai == 26 {
            4
        } else {
            8
        };
        if n > b.len() - pos - 1 {
            return None;
        }
        let arg = read_be(b, pos + 1, n);
        Some((major, ai, arg, pos + 1 + n))
    } else if ai == 31 {
        Some((major, ai, 0, pos + 1))
    } else {
        None
    }
}

/// Reads an integer item at `pos`.
fn read_int(b: &[u8], pos: usize) -> (r: Result<(Integer, usize), usize>)
    ensures
        match parse_int(b@, pos as nat) {
            Ok((v, j)) => r matches Ok((x, k)) && x@ == v && x.wf() && k == j,
            Err(p) => r matches Err(q) && q == p,
        },
{
    match read_head(b, pos) {
        Some((major, ai, arg, j)) => {
            if ai == 31 {
                Err(pos)
            } else if major == 0 {
                Ok((Integer::from_u64(arg), j))
            } else if major == 1 {
                let minus_one = Integer::from_i128(-1);
                Ok((minus_one.subtract(&Integer::from_u64(arg)), j))
            } else {
                Err(pos)
            }
        },
        None => Err(pos),
    }
}

/// The bytes `b[from..to]`.
fn slice_bytes(b: &[u8], from: usize, to: usize) -> (r: Vec<u8>)
    requires
        from <= to <= b@.len(),
    ensures
        r@ == b@.subrange(from as int, to as int),
{
    let mut out: Vec<u8> = Vec::new();
    let mut k = from;
    while k < to
        invariant
            from <= k <= to <= b@.len(),
            out@ == b@.subrange(from as int, k as int),
        decreases to - k,
    {
        out.push(b[k]);
        k += 1;
        assert(out@ =~= b@.subrange(from as int, k as int));
    }
    out
}

/// Reads the chunks of an indefinite byte string up to its break byte.
fn read_chunks(b: &[u8], pos: usize) -> (r: Result<(Vec<u8>, usize), usize>)
    ensures
        match parse_chunks(b@, pos as nat) {
            Ok((s, e)) => r matches Ok((v, k)) && v@ == s && k == e,
            Err(p) => r matches Err(q) && q == p,
        },
    decreases b@.len() - pos,
{
    if pos >= b.len() {
        return Err(pos);
    }
    if b[pos] == 0xff {
        return Ok((Vec::new(), pos + 1));
    }
    match read_head(b, pos) {
        Some((major, ai, n, k)) => {
            if major == 2 && ai != 31 && n <= (b.len() - k) as u64 {
                let end = k + n as usize;
                let mut chunk = slice_bytes(b, k, end);
                match read_chunks(b, end) {
                    Ok((rest, e)) => {
                        let mut rest = rest;
                        chunk.append(&mut rest);
                        Ok((chunk, e))
                    },
                    Err(x) => Err(x),
                }
            } else {
                Err(pos)
            }
        },
        None => Err(pos),
    }
}

/// Reads a byte string item (definite or chunked) at `pos`.
fn read_byte_string(b: &[u8], pos: usize) -> (r: Result<(Vec<u8>, usize), usize>)
    ensures
        match parse_byte_string(b@, pos as nat) {
            Ok((s, e)) => r matches Ok((v, k)) && v@ == s && k == e,
            Err(p) => r matches Err(q) && q == p,
        },
{
    match read_head(b, pos) {
        Some((major, ai, n, j)) => {
            if major != 2 {
                Err(pos)
            } else if ai == 31 {
                read_chunks(b, j)
            } else if n <= (b.len() - j) as u64 {
                let end = j + n as usize;
                Ok((slice_bytes(b, j, end), end))
            } else {
                Err(pos)
            }
        },
        None => Err(pos),
    }
}

/// Reads the data item at `pos`.
fn read_data(b: &[u8], pos: usize) -> (r: Result<(PlutusData, usize), usize>)
    ensures
        match parse_data(b@, pos as nat) {
            Ok((d, e)) => r matches Ok((x, k)) && x@ == d && k == e,
            Err(p) => r matches Err(q) && q == p,
        },
    decreases b@.len() - pos, 1nat,
{
    let (major, ai, arg, j) = match read_head(b, pos) {
        Some(h) => h,
        None => {
            return Err(pos);
        },
    };
    if major == 0 || major == 1 {
        match read_int(b, pos) {
            Ok((v, k)) => Ok((PlutusData::Integer(v), k)),
            Err(x) => Err(x),
        }
    } else if major == 2 {
        match read_byte_string(b, pos) {
            Ok((s, k)) => Ok((PlutusData::ByteString(s), k)),
            Err(x) => Err(x),
        }
    } else if major == 4 {
        let count = if ai == 31 {
            None
        } else {
            Some(arg)
        };
        match read_data_seq(b, j, count) {
            Ok((items, k)) => Ok((PlutusData::List(items), k)),
            Err(x) => Err(x),
        }
    } else if major == 5 {
        let count = if ai == 31 {
            None
        } else {
            Some(arg)
        };
        match read_pair_seq(b, j, count) {
            Ok((items, k)) => Ok((PlutusData::AssocList(items), k)),
            Err(x) => Err(x),
        }
    } else if major == 6 && ai != 31 {
        if 121 <= arg && arg <= 127 {
            match read_fields(b, j) {
                Ok((fields, k)) => Ok((PlutusData::Constr { tag: arg - 121, fields }, k)),
                Err(x) => Err(x),
            }
        } else if 1280 <= arg && arg <= 1400 {
            match read_fields(b, j) {
                Ok((fields, k)) => Ok((PlutusData::Constr { tag: arg - 1280 + 7, fields }, k)),
                Err(x) => Err(x),
            }
        } else if arg == 102 {
            match read_head(b, j) {
                Some((m2, ai2, n2, j2)) => {
                    if m2 == 4 && ai2 != 31 && n2 == 2 {
                        match read_int(b, j2) {
                            Ok((d, j3)) => match d.to_u64() {
                                Some(tag) => match read_fields(b, j3) {
                                    Ok((fields, k)) => Ok((PlutusData::Constr { tag, fields }, k)),
                                    Err(x) => Err(x),
                                },
                                None => Err(j2),
                            },
                            Err(x) => Err(x),
                        }
                    } else {
                        Err(j)
                    }
                },
                None => Err(j),
            }
        } else if arg == 2 || arg == 3 {
            match read_byte_string(b, j) {
                Ok((s, k)) => {
                    let magnitude = integer_from_be(&s);
                    if arg == 2 {
                        Ok((PlutusData::Integer(magnitude), k))
                    } else {
                        let zero = Integer::from_i128(0);
                        Ok((PlutusData::Integer(zero.subtract(&magnitude)), k))
                    }
                },
                Err(x) => Err(x),
            }
        } else {
            Err(pos)
        }
    } else {
        Err(pos)
    }
}

/// Reads a constructor's fields: an array (definite or indefinite) at `pos`.
fn read_fields(b: &[u8], pos: usize) -> (r: Result<(Vec<PlutusData>, usize), usize>)
    ensures
        match parse_fields(b@, pos as nat) {
            Ok((s, e)) => r matches Ok((v, k)) && datas_view(v@) == s && k == e,
            Err(p) => r matches Err(q) && q == p,
        },
    decreases b@.len() - pos, 3nat,
{
    match read_head(b, pos) {
        Some((major, ai, n, k)) => {
            if major == 4 {
                read_data_seq(b, k, if ai == 31 { None } else { Some(n) })
            } else {
                Err(pos)
            }
        },
        None => Err(pos),
    }
}

/// Reads `count` data items from `pos`, or for `None` items up to a break
/// byte.
fn read_data_seq(b: &[u8], pos: usize, count: Option<u64>) -> (r: Result<(Vec<PlutusData>, usize), usize>)
    ensures
        match parse_data_seq(b@, pos as nat, if count is Some { Some(count->0 as nat) } else { None }) {
            Ok((s, e)) => r matches Ok((v, k)) && datas_view(v@) == s && k == e,
            Err(p) => r matches Err(q) && q == p,
        },
    decreases b@.len() - pos, 2nat, if count is Some { count->0 as nat } else { 0 },
{
    match count {
        Some(n) => {
            if n == 0 {
                return Ok((Vec::new(), pos));
            }
        },
        None => {
            if pos < b.len() && b[pos] == 0xff {
                return Ok((Vec::new(), pos + 1));
            }
        },
    }
    match read_data(b, pos) {
        Ok((d, k)) => {
            if pos < k && k <= b.len() {
                let next = match count {
                    Some(n) => Some(n - 1),
                    None => None,
                };
                match read_data_seq(b, k, next) {
                    Ok((rest, e)) => {
                        let mut out: Vec<PlutusData> = Vec::new();
                        out.push(d);
                        let ghost rv = rest@;
                        let mut rest = rest;
                        proof {
                            assert(out@ == seq![d]);
                            lemma_datas_view_concat(out@, rv);
                        }
                        out.append(&mut rest);
                        proof {
                            lemma_datas_view_push(Seq::<PlutusData>::empty(), d);
                            assert(Seq::<PlutusData>::empty().push(d) =~= seq![d]);
                        }
                        Ok((out, e))
                    },
                    Err(x) => Err(x),
                }
            } else {
                Err(pos)
            }
        },
        Err(x) => Err(x),
    }
}

/// Reads `count` key/value pairs from `pos`, or for `None` pairs up to a
/// break byte.
fn read_pair_seq(b: &[u8], pos: usize, count: Option<u64>) -> (r: Result<(Vec<(PlutusData, PlutusData)>, usize), usize>)
    ensures
        match parse_pair_seq(b@, pos as nat, if count is Some { Some(count->0 as nat) } else { None }) {
            Ok((s, e)) => r matches Ok((v, k)) && pairs_view(v@) == s && k == e,
            Err(p) => r matches Err(q) && q == p,
        },
    decreases b@.len() - pos, 2nat, if count is Some { count->0 as nat } else { 0 },
{
    match count {
        Some(n) => {
            if n == 0 {
                return Ok((Vec::new(), pos));
            }
        },
        None => {
            if pos < b.len() && b[pos] == 0xff {
                return Ok((Vec::new(), pos + 1));
            }
        },
    }
    let (key, k) = match read_data(b, pos) {
        Ok(x) => x,
        Err(x) => {
            return Err(x);
        },
    };
    if !(pos < k && k <= b.len()) {
        return Err(pos);
    }
    let (value, m) = match read_data(b, k) {
        Ok(x) => x,
        Err(x) => {
            return Err(x);
        },
    };
    if !(k < m && m <= b.len()) {
        return Err(k);
    }
    let next = match count {
        Some(n) => Some(n - 1),
        None => None,
    };
    match read_pair_seq(b, m, next) {
        Ok((rest, e)) => {
            let mut out: Vec<(PlutusData, PlutusData)> = Vec::new();
            out.push((key, value));
            let ghost rv = rest@;
            let ghost first = out@;
            let mut rest = rest;
            out.append(&mut rest);
            proof {
                lemma_pairs_view_concat(first, rv);
                lemma_pairs_view_push(Seq::<(PlutusData, PlutusData)>::empty(), first[0]);
                assert(Seq::<(PlutusData, PlutusData)>::empty().push(first[0]) =~= first);
                assert(pairs_view(Seq::<(PlutusData, PlutusData)>::empty()) == Seq::<(DataV, DataV)>::empty());
            }
            Ok((out, e))
        },
        Err(x) => Err(x),
    }
}

/// The view of a concatenation is the concatenation of the views.
proof fn lemma_datas_view_concat(a: Seq<PlutusData>, b: Seq<PlutusData>)
    ensures
        datas_view(a + b) == datas_view(a) + datas_view(b),
    decreases b.len(),
{
    if b.len() == 0 {
        assert(a + b =~= a);
        assert(datas_view(b) == Seq::<DataV>::empty());
        assert(datas_view(a) + datas_view(b) =~= datas_view(a));
    } else {
        lemma_datas_view_concat(a, b.drop_last());
        assert(a + b =~= (a + b.drop_last()).push(b.last()));
        assert(b =~= b.drop_last().push(b.last()));
        lemma_datas_view_push(a + b.drop_last(), b.last());
        lemma_datas_view_push(b.drop_last(), b.last());
        assert(datas_view(a) + datas_view(b) =~= (datas_view(a) + datas_view(b.drop_last())).push(data_view(b.last())));
    }
}

/// The view of a concatenation of entries is the concatenation of the views.
proof fn lemma_pairs_view_concat(a: Seq<(PlutusData, PlutusData)>, b: Seq<(PlutusData, PlutusData)>)
    ensures
        pairs_view(a + b) == pairs_view(a) + pairs_view(b),
    decreases b.len(),
{
    if b.len() == 0 {
        assert(a + b =~= a);
        assert(pairs_view(b) == Seq::<(DataV, DataV)>::empty());
        assert(pairs_view(a) + pairs_view(b) =~= pairs_view(a));
    } else {
        let x = b.last();
        lemma_pairs_view_concat(a, b.drop_last());
        assert(a + b =~= (a + b.drop_last()).push(x));
        assert(b =~= b.drop_last().push(x));
        lemma_pairs_view_push(a + b.drop_last(), x);
        lemma_pairs_view_push(b.drop_last(), x);
        assert(pairs_view(a) + pairs_view(b) =~= (pairs_view(a) + pairs_view(b.drop_last())).push(
            (data_view(x.0), data_view(x.1)),
        ));
    }
}

/// The non-negative integer whose big-endian bytes are `s`.
pub(crate) fn integer_from_be(s: &Vec<u8>) -> (r: Integer)
    ensures
        r@ == be_value(s@),
        r.wf(),
{
    let mut acc = Integer::from_i128(0);
    let base = Integer::from_i128(256);
    let mut k: usize = 0;
    proof {
        assert(s@.subrange(0, 0) =~= Seq::<u8>::empty());
    }
    while k < s.len()
        invariant
            k <= s@.len(),
            acc@ == be_value(s@.subrange(0, k as int)),
            acc.wf(),
            base@ == 256,
        decreases s@.len() - k,
    {
        proof {
            assert(s@.subrange(0, (k + 1) as int).drop_last() =~= s@.subrange(0, k as int));
        }
        acc = acc.multiply(&base).add(&Integer::from_u64(s[k] as u64));
        k += 1;
    }
    proof {
        assert(s@.subrange(0, s@.len() as int) =~= s@);
    }
    acc
}

impl PlutusData {
    /// Decodes the CBOR form of a data item; bytes after the item are
    /// ignored. An error gives the position of the innermost item that is
    /// not well-formed data.
    pub fn from_cbor(cbor: &[u8]) -> (r: Result<PlutusData, CborError>)
        ensures
            match parse_data(cbor@, 0) {
                Ok((d, _)) => r matches Ok(x) && x@ == d,
                Err(p) => r matches Err(e) && e.position == p,
            },
    {
        match read_data(cbor, 0) {
            Ok((d, _)) => Ok(d),
            Err(p) => Err(CborError { position: p }),
        }
    }
}

/// `n` as `k` big-endian bytes: its low `8 k` bits.
pub open spec fn be_bytes(n: nat, k: nat) -> Seq<u8>
    decreases k,
{
    if k == 0 {
        Seq::empty()
    } else {
        be_bytes(n / 256, (k - 1) as nat).push((n % 256) as u8)
    }
}

/// The shortest CBOR head of major type `major` with argument `n`.
pub open spec fn enc_head(major: nat, n: nat) -> Seq<u8> {
    if n < 24 {
        seq![(major * 32 + n) as u8]
    } else if n < 0x100 {
        seq![(major * 32 + 24) as u8] + be_bytes(n, 1)
    } else if n < 0x10000 {
        seq![(major * 32 + 25) as u8] + be_bytes(n, 2)
    } else if n < 0x1_0000_0000 {
        seq![(major * 32 + 26) as u8] + be_bytes(n, 4)
    } else {
        seq![(major * 32 + 27) as u8] + be_bytes(n, 8)
    }
}

/// The chunks of a long byte string: 64 bytes each, the last one shorter.
pub open spec fn enc_chunks(b: Seq<u8>) -> Seq<u8>
    decreases b.len(),
{
    if b.len() <= 64 {
        enc_head(2, b.len()) + b
    } else {
        enc_head(2, 64) + b.subrange(0, 64) + enc_chunks(b.subrange(64, b.len() as int))
    }
}

/// A byte string: definite up to 64 bytes, indefinite in chunks of 64
/// beyond.
pub open spec fn enc_byte_string(b: Seq<u8>) -> Seq<u8> {
    if b.len() <= 64 {
        enc_head(2, b.len()) + b
    } else {
        seq![0x5fu8] + enc_chunks(b) + seq![0xffu8]
    }
}

/// An integer: zero as a small integer; a magnitude that fits 64 bits as
/// an unsigned integer when positive, or as a negative integer (argument
/// `-1 - i`) when negative; a larger one as a big number (tag 2 when
/// positive, 3 when negative) around the big-endian bytes of its magnitude.
pub open spec fn enc_integer(i: int) -> Seq<u8> {
    if i == 0 {
        seq![0x00u8]
    } else if abs(i) <= u64::MAX {
        if i > 0 {
            enc_head(0, i as nat)
        } else {
            enc_head(1, (-1 - i) as nat)
        }
    } else if i > 0 {
        seq![0xc2u8] + enc_byte_string(min_be_bytes(i as nat))
    } else {
        seq![0xc3u8] + enc_byte_string(min_be_bytes((-i) as nat))
    }
}

/// The tag that opens a constructor: 121 + alternative up to 6, 1280 +
/// alternative - 7 up to 127, else tag 102 around `[alternative, ...`.
pub open spec fn enc_constr_tag(tag: u64) -> Seq<u8> {
    if tag < 7 {
        enc_head(6, (121 + tag) as nat)
    } else if tag <= 127 {
        enc_head(6, (1280 + tag - 7) as nat)
    } else {
        enc_head(6, 102) + seq![0x82u8] + enc_head(0, tag as nat)
    }
}

/// The CBOR form of a data item: constructor fields as an empty definite
/// array or an indefinite one, maps definite.
pub open spec fn enc_data(d: DataV) -> Seq<u8>
    decreases d, 1nat,
{
    match d {
        DataV::Constr(tag, fields) => enc_constr_tag(tag) + if fields.len() == 0 {
            seq![0x80u8]
        } else {
            seq![0x9fu8] + enc_datas(fields) + seq![0xffu8]
        },
        DataV::AssocList(entries) => enc_head(5, entries.len()) + enc_pairs(entries),
        DataV::Integer(i) => enc_integer(i),
        DataV::ByteString(b) => enc_byte_string(b),
        DataV::List(_) => Seq::empty(),
    }
}

/// The CBOR forms of data items, one after the other.
pub open spec fn enc_datas(s: Seq<DataV>) -> Seq<u8>
    decreases s, 0nat,
{
    if s.len() == 0 {
        Seq::empty()
    } else {
        enc_data(s[0]) + enc_datas(s.subrange(1, s.len() as int))
    }
}

/// The CBOR forms of key/value entries, key then value.
pub open spec fn enc_pairs(s: Seq<(DataV, DataV)>) -> Seq<u8>
    decreases s, 0nat,
{
    if s.len() == 0 {
        Seq::empty()
    } else {
        enc_data(s[0].0) + enc_data(s[0].1) + enc_pairs(s.subrange(1, s.len() as int))
    }
}

/// Whether a data item has a CBOR form here: it holds no list.
pub open spec fn cbor_encodable(d: DataV) -> bool
    decreases d, 1nat,
{
    match d {
        DataV::Constr(_, fields) => all_encodable(fields),
        DataV::AssocList(entries) => pairs_encodable(entries),
        DataV::List(_) => false,
        _ => true,
    }
}

/// Whether every item has a CBOR form.
pub open spec fn all_encodable(s: Seq<DataV>) -> bool
    decreases s, 0nat,
{
    s.len() > 0 ==> cbor_encodable(s[0]) && all_encodable(s.subrange(1, s.len() as int))
}

/// Whether every key and value has a CBOR form.
pub open spec fn pairs_encodable(s: Seq<(DataV, DataV)>) -> bool
    decreases s, 0nat,
{
    s.len() > 0 ==> cbor_encodable(s[0].0) && cbor_encodable(s[0].1) && pairs_encodable(
        s.subrange(1, s.len() as int),
    )
}

/// Appending one item appends its form.
proof fn lemma_enc_datas_push(s: Seq<DataV>, x: DataV)
    ensures
        enc_datas(s.push(x)) == enc_datas(s) + enc_data(x),
        all_encodable(s.push(x)) == (all_encodable(s) && cbor_encodable(x)),
    decreases s.len(),
{
    if s.len() == 0 {
        assert(s.push(x).subrange(1, 1) =~= Seq::<DataV>::empty());
        assert(enc_datas(Seq::<DataV>::empty()) =~= Seq::<u8>::empty());
        assert(all_encodable(Seq::<DataV>::empty()));
        assert(s.push(x)[0] == x);
        assert(enc_data(x) + Seq::<u8>::empty() =~= enc_data(x));
    } else {
        lemma_enc_datas_push(s.subrange(1, s.len() as int), x);
        assert(s.push(x)[0] == s[0]);
        assert(s.push(x).subrange(1, s.len() + 1int) =~= s.subrange(1, s.len() as int).push(x));
        assert(enc_data(s[0]) + (enc_datas(s.subrange(1, s.len() as int)) + enc_data(x)) =~= enc_data(s[0])
            + enc_datas(s.subrange(1, s.len() as int)) + enc_data(x));
    }
}

/// Appending one entry appends its form.
proof fn lemma_enc_pairs_push(s: Seq<(DataV, DataV)>, x: (DataV, DataV))
    ensures
        enc_pairs(s.push(x)) == enc_pairs(s) + enc_data(x.0) + enc_data(x.1),
        pairs_encodable(s.push(x)) == (pairs_encodable(s) && cbor_encodable(x.0) && cbor_encodable(x.1)),
    decreases s.len(),
{
    if s.len() == 0 {
        assert(s.push(x).subrange(1, 1) =~= Seq::<(DataV, DataV)>::empty());
        assert(enc_pairs(Seq::<(DataV, DataV)>::empty()) =~= Seq::<u8>::empty());
        assert(pairs_encodable(Seq::<(DataV, DataV)>::empty()));
        assert(s.push(x)[0] == x);
        assert(enc_data(x.0) + enc_data(x.1) + Seq::<u8>::empty() =~= Seq::<u8>::empty() + enc_data(x.0) + enc_data(x.1));
    } else {
        lemma_enc_pairs_push(s.subrange(1, s.len() as int), x);
        assert(s.push(x)[0] == s[0]);
        assert(s.push(x).subrange(1, s.len() + 1int) =~= s.subrange(1, s.len() as int).push(x));
        assert(enc_data(s[0].0) + enc_data(s[0].1) + (enc_pairs(s.subrange(1, s.len() as int)) + enc_data(x.0)
            + enc_data(x.1)) =~= enc_data(s[0].0) + enc_data(s[0].1) + enc_pairs(s.subrange(1, s.len() as int))
            + enc_data(x.0) + enc_data(x.1));
    }
}

/// Appends the `k` low bytes of `n`, most significant first.
fn write_be(out: &mut Vec<u8>, n: u64, k: usize)
    requires
        k <= 8,
    ensures
        final(out)@ == old(out)@ + be_bytes(n as nat, k as nat),
    decreases k,
{
    if k > 0 {
        write_be(out, n / 256, k - 1);
        out.push((n % 256) as u8);
        proof {
            assert(be_bytes(n as nat, k as nat) == be_bytes((n / 256) as nat, (k - 1) as nat).push((n % 256) as u8));
        }
    } else {
        assert(old(out)@ + be_bytes(n as nat, 0) =~= old(out)@);
    }
}

/// Appends the shortest head of major type `major` with argument `n`.
fn write_head(out: &mut Vec<u8>, major: u8, n: u64)
    requires
        major < 8,
    ensures
        final(out)@ == old(out)@ + enc_head(major as nat, n as nat),
{
    let m: u8 = major * 32;
    if n < 24 {
        out.push(m + n as u8);
        assert(final(out)@ =~= old(out)@ + enc_head(major as nat, n as nat));
    } else {
        let ghost start = out@;
        let k: usize = if n < 0x100 {
            out.push(m + 24);
            1
        } else if n < 0x10000 {
            out.push(m + 25);
            2
        } else if n < 0x1_0000_0000 {
            out.push(m + 26);
            4
        } else {
            out.push(m + 27);
            8
        };
        let ghost mid = out@;
        write_be(out, n, k);
        assert(out@ =~= start + enc_head(major as nat, n as nat));
    }
}

/// Appends `b[from..to]`.
fn write_slice(out: &mut Vec<u8>, b: &[u8], from: usize, to: usize)
    requires
        from <= to <= b@.len(),
    ensures
        final(out)@ == old(out)@ + b@.subrange(from as int, to as int),
{
    let ghost start = out@;
    let mut i = from;
    while i < to
        invariant
            from <= i <= to <= b@.len(),
            out@ == start + b@.subrange(from as int, i as int),
        decreases to - i,
    {
        out.push(b[i]);
        i += 1;
        assert(out@ =~= start + b@.subrange(from as int, i as int));
    }
}

/// Appends the chunks of `b[from..]`.
fn write_chunks(out: &mut Vec<u8>, b: &[u8], from: usize)
    requires
        from <= b@.len(),
    ensures
        final(out)@ == old(out)@ + enc_chunks(b@.subrange(from as int, b@.len() as int)),
    decreases b@.len() - from,
{
    let ghost rest = b@.subrange(from as int, b@.len() as int);
    let n = b.len() - from;
    if n <= 64 {
        write_head(out, 2, n as u64);
        write_slice(out, b, from, b.len());
        assert(final(out)@ =~= old(out)@ + enc_chunks(rest));
    } else {
        let ghost start = out@;
        write_head(out, 2, 64);
        write_slice(out, b, from, from + 64);
        write_chunks(out, b, from + 64);
        assert(rest.subrange(0, 64) =~= b@.subrange(from as int, from + 64));
        assert(rest.subrange(64, rest.len() as int) =~= b@.subrange(from + 64, b@.len() as int));
        assert(out@ =~= start + enc_chunks(rest));
    }
}

/// Appends the form of the byte string `b`.
fn write_byte_string(out: &mut Vec<u8>, b: &[u8])
    ensures
        final(out)@ == old(out)@ + enc_byte_string(b@),
{
    let ghost start = out@;
    assert(b@.subrange(0, b@.len() as int) =~= b@);
    if b.len() <= 64 {
        write_head(out, 2, b.len() as u64);
        write_slice(out, b, 0, b.len());
    } else {
        out.push(0x5f);
        write_chunks(out, b, 0);
        out.push(0xff);
    }
    assert(out@ =~= start + enc_byte_string(b@));
}

/// Appends the form of the integer `i`.
fn write_integer(out: &mut Vec<u8>, i: &Integer)
    ensures
        final(out)@ == old(out)@ + enc_integer(i@),
{
    let ghost start = out@;
    let digits = i.to_u64_digits();
    proof {
        lemma_digits64_canonical(digits@);
    }
    if digits.len() == 0 {
        out.push(0x00);
    } else if digits.len() == 1 {
        if i.negative {
            write_head(out, 1, digits[0] - 1);
        } else {
            write_head(out, 0, digits[0]);
        }
    } else {
        let bytes = i.to_bytes_be();
        if i.negative {
            out.push(0xc3);
        } else {
            out.push(0xc2);
        }
        write_byte_string(out, bytes.as_slice());
    }
    assert(out@ =~= start + enc_integer(i@));
}

/// Appends the tag that opens a constructor with alternative `tag`.
fn write_constr_tag(out: &mut Vec<u8>, tag: u64)
    ensures
        final(out)@ == old(out)@ + enc_constr_tag(tag),
{
    let ghost start = out@;
    if tag < 7 {
        write_head(out, 6, tag + 121);
    } else if tag <= 127 {
        write_head(out, 6, (tag - 7) + 1280);
    } else {
        write_head(out, 6, 102);
        out.push(0x82);
        write_head(out, 0, tag);
    }
    assert(out@ =~= start + enc_constr_tag(tag));
}

/// Appends the form of the data item `d`.
fn write_data(out: &mut Vec<u8>, d: &PlutusData)
    requires
        cbor_encodable(d@),
    ensures
        final(out)@ == old(out)@ + enc_data(d@),
    decreases d, 1nat,
{
    let ghost start = out@;
    match d {
        PlutusData::Constr { tag, fields } => {
            write_constr_tag(out, *tag);
            proof {
                lemma_datas_view_index(fields@);
            }
            if fields.len() == 0 {
                out.push(0x80);
            } else {
                out.push(0x9f);
                write_fields(out, d, fields);
                out.push(0xff);
            }
            assert(out@ =~= start + enc_data(d@));
        },
        PlutusData::AssocList(entries) => {
            proof {
                lemma_pairs_view_index(entries@);
            }
            write_head(out, 5, entries.len() as u64);
            let ghost mid = out@;
            let mut i: usize = 0;
            assert(entries@.subrange(0, 0) =~= Seq::<(PlutusData, PlutusData)>::empty());
            while i < entries.len()
                invariant
                    i <= entries.len(),
                    *d == PlutusData::AssocList(*entries),
                    pairs_encodable(pairs_view(entries@)),
                    pairs_view(entries@).len() == entries@.len(),
                    out@ == mid + enc_pairs(pairs_view(entries@.subrange(0, i as int))),
                    pairs_encodable(pairs_view(entries@.subrange(0, i as int))),
                decreases entries.len() - i,
            {
                proof {
                    assert(decreases_to!(*entries => entries@));
                    assert(decreases_to!(entries@ => entries@[i as int]));
                    assert(decreases_to!(*d => (*d)->AssocList_0));
                    lemma_pairs_view_index(entries@);
                    lemma_pairs_view_push(entries@.subrange(0, i as int), entries@[i as int]);
                    assert(entries@.subrange(0, i as int).push(entries@[i as int]) =~= entries@.subrange(0, i + 1));
                    lemma_enc_pairs_push(pairs_view(entries@.subrange(0, i as int)), pairs_view(entries@)[i as int]);
                    lemma_pairs_encodable_index(pairs_view(entries@), i as int);
                }
                write_data(out, &entries[i].0);
                write_data(out, &entries[i].1);
                i += 1;
            }
            assert(entries@.subrange(0, entries.len() as int) =~= entries@);
            assert(out@ =~= start + enc_data(d@));
        },
        PlutusData::Integer(i) => write_integer(out, i),
        PlutusData::ByteString(b) => write_byte_string(out, b.as_slice()),
        PlutusData::List(_) => {
            proof {
                assert(false);
            }
        },
    }
}

/// Appends the forms of the fields of the constructor `parent`.
fn write_fields(out: &mut Vec<u8>, parent: &PlutusData, fields: &Vec<PlutusData>)
    requires
        parent matches PlutusData::Constr { fields: f, .. } && f == *fields,
        cbor_encodable(parent@),
    ensures
        final(out)@ == old(out)@ + enc_datas(datas_view(fields@)),
    decreases parent, 0nat,
{
    let ghost start = out@;
    let mut i: usize = 0;
    proof {
        lemma_datas_view_index(fields@);
    }
    assert(fields@.subrange(0, 0) =~= Seq::<PlutusData>::empty());
    while i < fields.len()
        invariant
            i <= fields.len(),
            parent matches PlutusData::Constr { fields: f, .. } && f == *fields,
            all_encodable(datas_view(fields@)),
            out@ == start + enc_datas(datas_view(fields@.subrange(0, i as int))),
        decreases fields.len() - i,
    {
        proof {
            assert(decreases_to!(*fields => fields@));
            assert(decreases_to!(fields@ => fields@[i as int]));
            assert(decreases_to!(*parent => (*parent)->fields));
            lemma_datas_view_push(fields@.subrange(0, i as int), fields@[i as int]);
            assert(fields@.subrange(0, i as int).push(fields@[i as int]) =~= fields@.subrange(0, i + 1));
            lemma_datas_view_index(fields@);
            lemma_enc_datas_push(datas_view(fields@.subrange(0, i as int)), data_view(fields@[i as int]));
            lemma_all_encodable_index(datas_view(fields@), i as int);
        }
        write_data(out, &fields[i]);
        i += 1;
    }
    assert(fields@.subrange(0, fields.len() as int) =~= fields@);
}

/// Each item of an encodable sequence is encodable.
proof fn lemma_all_encodable_index(s: Seq<DataV>, i: int)
    requires
        all_encodable(s),
        0 <= i < s.len(),
    ensures
        cbor_encodable(s[i]),
    decreases s.len(),
{
    if i > 0 {
        lemma_all_encodable_index(s.subrange(1, s.len() as int), i - 1);
    }
}

/// Each entry of an encodable sequence of entries is encodable.
proof fn lemma_pairs_encodable_index(s: Seq<(DataV, DataV)>, i: int)
    requires
        pairs_encodable(s),
        0 <= i < s.len(),
    ensures
        cbor_encodable(s[i].0),
        cbor_encodable(s[i].1),
    decreases s.len(),
{
    if i > 0 {
        lemma_pairs_encodable_index(s.subrange(1, s.len() as int), i - 1);
    }
}

impl PlutusData {
    /// The CBOR form of this data item, which holds no list.
    pub fn encode(&self) -> (r: Vec<u8>)
        requires
            cbor_encodable(self@),
        ensures
            r@ == enc_data(self@),
    {
        let mut out: Vec<u8> = Vec::new();
        write_data(&mut out, self);
        assert(out@ =~= enc_data(self@));
        out
    }
}

} // verus!
