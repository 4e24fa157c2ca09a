//! Decoding the CBOR form of a data item gives the item back.

use vstd::prelude::*;

use crate::constant::DataV;
use crate::integer::{abs, min_be_bytes};
use crate::machine::bitwise::lemma_be_value_min_be_bytes;

use super::data::{
    all_encodable, be_bytes, be_value, byte_pow, cbor_encodable, cbor_head, enc_byte_string,
    enc_chunks, enc_constr_tag, enc_data, enc_datas, enc_head, enc_integer, enc_pairs,
    pairs_encodable, parse_byte_string, parse_chunks, parse_data, parse_data_seq, parse_fields,
    parse_int, parse_pair_seq,
};

verus! {

/// The bytes `s` stand in `b` from position `i`.
pub open spec fn holds_at(b: Seq<u8>, i: nat, s: Seq<u8>) -> bool {
    i + s.len() <= b.len() && b.subrange(i as int, (i + s.len()) as int) == s
}

proof fn lemma_holds_split(b: Seq<u8>, i: nat, s1: Seq<u8>, s2: Seq<u8>)
    requires
        holds_at(b, i, s1 + s2),
    ensures
        holds_at(b, i, s1),
        holds_at(b, i + s1.len(), s2),
{
    let w = b.subrange(i as int, (i + s1.len() + s2.len()) as int);
    assert(w == s1 + s2);
    assert forall|k: int| 0 <= k < s1.len() implies b.subrange(i as int, (i + s1.len()) as int)[k] == s1[k] by {
        assert(w[k] == (s1 + s2)[k]);
    }
    assert(b.subrange(i as int, (i + s1.len()) as int) =~= s1);
    assert forall|k: int| 0 <= k < s2.len() implies b.subrange((i + s1.len()) as int, (i + s1.len() + s2.len()) as int)[k] == s2[k] by {
        assert(w[s1.len() + k] == (s1 + s2)[s1.len() + k]);
    }
    assert(b.subrange((i + s1.len()) as int, (i + s1.len() + s2.len()) as int) =~= s2);
}

proof fn lemma_holds_byte(b: Seq<u8>, i: nat, s: Seq<u8>, k: int)
    requires
        holds_at(b, i, s),
        0 <= k < s.len(),
    ensures
        b[i + k] == s[k],
{
    assert(b.subrange(i as int, (i + s.len()) as int)[k] == s[k]);
}

proof fn lemma_byte_pows()
    ensures
        byte_pow(1) == 0x100,
        byte_pow(2) == 0x10000,
        byte_pow(4) == 0x1_0000_0000,
        byte_pow(8) == 0x1_0000_0000_0000_0000,
{
    reveal_with_fuel(byte_pow, 9);
}

proof fn lemma_be_bytes(n: nat, k: nat)
    requires
        n < byte_pow(k),
    ensures
        be_bytes(n, k).len() == k,
        be_value(be_bytes(n, k)) == n,
    decreases k,
{
    if k > 0 {
        assert(n / 256 < byte_pow((k - 1) as nat));
        lemma_be_bytes(n / 256, (k - 1) as nat);
        let s = be_bytes(n / 256, (k - 1) as nat);
        assert(s.push((n % 256) as u8).drop_last() =~= s);
    }
}

/// The first byte of a head: major type and additional information.
proof fn lemma_initial_byte(major: nat, ai: nat)
    requires
        major < 8,
        ai < 32,
    ensures
        ((major * 32 + ai) as u8) as nat == major * 32 + ai,
        (major * 32 + ai) / 32 == major,
        (major * 32 + ai) % 32 == ai,
{
}

/// The head written for `major` and `n` reads back as `major` and `n`.
proof fn lemma_parse_head(b: Seq<u8>, i: nat, major: nat, n: nat)
    requires
        major < 8,
        n <= u64::MAX,
        holds_at(b, i, enc_head(major, n)),
    ensures
        cbor_head(b, i) matches Some((m, ai, arg, j)) && m == major && arg == n && ai != 31 && j == i
            + enc_head(major, n).len() && (n < 24 ==> ai == n),
        enc_head(major, n).len() >= 1,
        enc_head(major, n)[0] == b[i as int],
        b[i as int] as nat / 32 == major,
{
    let h = enc_head(major, n);
    lemma_byte_pows();
    if n < 24 {
        lemma_initial_byte(major, n);
        lemma_holds_byte(b, i, h, 0);
    } else {
        let (ai, k): (nat, nat) = if n < 0x100 {
            (24, 1)
        } else if n < 0x10000 {
            (25, 2)
        } else if n < 0x1_0000_0000 {
            (26, 4)
        } else {
            (27, 8)
        };
        lemma_initial_byte(major, ai);
        lemma_be_bytes(n, k);
        let first = seq![(major * 32 + ai) as u8];
        assert(h == first + be_bytes(n, k));
        lemma_holds_split(b, i, first, be_bytes(n, k));
        lemma_holds_byte(b, i, first, 0);
    }
}

/// The chunks written for `s`, then a break byte, read back as `s`.
proof fn lemma_parse_chunks(b: Seq<u8>, j: nat, s: Seq<u8>)
    requires
        holds_at(b, j, enc_chunks(s) + seq![0xffu8]),
    ensures
        parse_chunks(b, j) == Ok::<(Seq<u8>, nat), nat>((s, j + enc_chunks(s).len() + 1)),
    decreases s.len(),
{
    let c = enc_chunks(s);
    lemma_holds_split(b, j, c, seq![0xffu8]);
    if s.len() <= 64 {
        let h = enc_head(2, s.len());
        assert(c == h + s);
        lemma_holds_split(b, j, h, s);
        lemma_parse_head(b, j, 2, s.len());
        let k = j + h.len();
        lemma_holds_byte(b, j + c.len(), seq![0xffu8], 0);
        assert(b.subrange(k as int, (k + s.len()) as int) == s);
        assert(parse_chunks(b, k + s.len()) == Ok::<(Seq<u8>, nat), nat>((Seq::empty(), k + s.len() + 1)));
        assert(s + Seq::<u8>::empty() =~= s);
    } else {
        let h = enc_head(2, 64);
        let first = s.subrange(0, 64);
        let rest = s.subrange(64, s.len() as int);
        assert(c == h + first + enc_chunks(rest));
        assert(c + seq![0xffu8] == h + first + (enc_chunks(rest) + seq![0xffu8]));
        lemma_holds_split(b, j, h + first, enc_chunks(rest) + seq![0xffu8]);
        lemma_holds_split(b, j, h, first);
        lemma_parse_head(b, j, 2, 64);
        let k = j + h.len();
        lemma_parse_chunks(b, k + 64, rest);
        assert(first + rest =~= s);
    }
}

/// The byte string written for `s` reads back as `s`.
proof fn lemma_parse_byte_string(b: Seq<u8>, i: nat, s: Seq<u8>)
    requires
        holds_at(b, i, enc_byte_string(s)),
    ensures
        parse_byte_string(b, i) == Ok::<(Seq<u8>, nat), nat>((s, i + enc_byte_string(s).len())),
        enc_byte_string(s).len() >= 1,
        b[i as int] as nat / 32 == 2,
{
    if s.len() <= 64 {
        let h = enc_head(2, s.len());
        lemma_holds_split(b, i, h, s);
        lemma_parse_head(b, i, 2, s.len());
    } else {
        let e = enc_byte_string(s);
        assert(e == seq![0x5fu8] + (enc_chunks(s) + seq![0xffu8]));
        lemma_holds_split(b, i, seq![0x5fu8], enc_chunks(s) + seq![0xffu8]);
        lemma_holds_byte(b, i, seq![0x5fu8], 0);
        lemma_initial_byte(2, 31);
        lemma_parse_chunks(b, i + 1, s);
    }
}

/// The integer written for `v` reads back as `v`.
proof fn lemma_parse_integer(b: Seq<u8>, i: nat, v: int)
    requires
        holds_at(b, i, enc_integer(v)),
    ensures
        parse_data(b, i) == Ok::<(DataV, nat), nat>((DataV::Integer(v), i + enc_integer(v).len())),
        enc_integer(v).len() >= 1,
        b[i as int] != 0xff,
{
    let e = enc_integer(v);
    if v == 0 {
        assert(e == enc_head(0, 0));
        lemma_parse_head(b, i, 0, 0);
    } else if abs(v) <= u64::MAX {
        if v > 0 {
            lemma_parse_head(b, i, 0, v as nat);
        } else {
            lemma_parse_head(b, i, 1, (-1 - v) as nat);
        }
    } else {
        let (tag_byte, m): (u8, nat) = if v > 0 {
            (0xc2u8, v as nat)
        } else {
            (0xc3u8, (-v) as nat)
        };
        let bs = min_be_bytes(m);
        assert(e == seq![tag_byte] + enc_byte_string(bs));
        lemma_holds_split(b, i, seq![tag_byte], enc_byte_string(bs));
        lemma_holds_byte(b, i, seq![tag_byte], 0);
        if v > 0 {
            lemma_initial_byte(6, 2);
        } else {
            lemma_initial_byte(6, 3);
        }
        lemma_parse_byte_string(b, i + 1, bs);
        lemma_be_value_min_be_bytes(m);
        lemma_holds_byte(b, i + 1, enc_byte_string(bs), 0);
    }
}

/// The data item written for `d` reads back as `d`, and its first byte is
/// no break byte.
proof fn lemma_parse_item(b: Seq<u8>, i: nat, d: DataV)
    requires
        b.len() <= u64::MAX,
        cbor_encodable(d),
        holds_at(b, i, enc_data(d)),
    ensures
        parse_data(b, i) == Ok::<(DataV, nat), nat>((d, i + enc_data(d).len())),
        enc_data(d).len() >= 1,
        b[i as int] != 0xff,
    decreases d, 1nat,
{
    let e = enc_data(d);
    match d {
        DataV::Integer(v) => {
            lemma_parse_integer(b, i, v);
        },
        DataV::ByteString(bs) => {
            lemma_parse_byte_string(b, i, bs);
        },
        DataV::AssocList(entries) => {
            let h = enc_head(5, entries.len());
            lemma_enc_pairs_len(entries);
            assert(e == h + enc_pairs(entries));
            lemma_holds_split(b, i, h, enc_pairs(entries));
            lemma_parse_head(b, i, 5, entries.len());
            lemma_parse_pairs(b, i + h.len(), entries);
        },
        DataV::Constr(tag, fields) => {
            let t = enc_constr_tag(tag);
            let body = if fields.len() == 0 {
                seq![0x80u8]
            } else {
                seq![0x9fu8] + enc_datas(fields) + seq![0xffu8]
            };
            assert(e == t + body);
            lemma_holds_split(b, i, t, body);
            let j = i + t.len();
            lemma_parse_fields(b, j, fields);
            if tag < 7 {
                lemma_parse_head(b, i, 6, (121 + tag) as nat);
            } else if tag <= 127 {
                lemma_parse_head(b, i, 6, (1280 + tag - 7) as nat);
            } else {
                let h = enc_head(6, 102);
                let h2 = enc_head(0, tag as nat);
                assert(t == h + (seq![0x82u8] + h2));
                lemma_holds_split(b, i, h, seq![0x82u8] + h2);
                lemma_parse_head(b, i, 6, 102);
                let j1 = i + h.len();
                lemma_holds_split(b, j1, seq![0x82u8], h2);
                lemma_holds_byte(b, j1, seq![0x82u8], 0);
                lemma_initial_byte(4, 2);
                lemma_parse_head(b, j1 + 1, 0, tag as nat);
                assert(parse_int(b, j1 + 1) == Ok::<(int, nat), nat>((tag as int, j)));
            }
        },
        DataV::List(_) => {},
    }
}

/// An item that holds no list takes at least one byte.
proof fn lemma_enc_data_nonempty(d: DataV)
    requires
        cbor_encodable(d),
    ensures
        enc_data(d).len() >= 1,
{
    match d {
        DataV::Constr(tag, _) => {
            assert(enc_constr_tag(tag).len() >= 1);
        },
        DataV::AssocList(entries) => {
            assert(enc_head(5, entries.len()).len() >= 1);
        },
        DataV::Integer(v) => {
            assert(enc_integer(v).len() >= 1) by {
                if v != 0 && abs(v) <= u64::MAX {
                    if v > 0 {
                        assert(enc_head(0, v as nat).len() >= 1);
                    } else {
                        assert(enc_head(1, (-1 - v) as nat).len() >= 1);
                    }
                }
            }
        },
        DataV::ByteString(bs) => {
            assert(enc_byte_string(bs).len() >= 1) by {
                if bs.len() <= 64 {
                    assert(enc_head(2, bs.len()).len() >= 1);
                }
            }
        },
        DataV::List(_) => {},
    }
}

/// Entries take at least two bytes each.
proof fn lemma_enc_pairs_len(s: Seq<(DataV, DataV)>)
    requires
        pairs_encodable(s),
    ensures
        enc_pairs(s).len() >= 2 * s.len(),
    decreases s.len(),
{
    if s.len() > 0 {
        lemma_enc_data_nonempty(s[0].0);
        lemma_enc_data_nonempty(s[0].1);
        lemma_enc_pairs_len(s.subrange(1, s.len() as int));
    }
}

/// A constructor's fields, written as an empty array or an indefinite one,
/// read back.
proof fn lemma_parse_fields(b: Seq<u8>, j: nat, fields: Seq<DataV>)
    requires
        b.len() <= u64::MAX,
        all_encodable(fields),
        holds_at(
            b,
            j,
            if fields.len() == 0 {
                seq![0x80u8]
            } else {
                seq![0x9fu8] + enc_datas(fields) + seq![0xffu8]
            },
        ),
    ensures
        parse_fields(b, j) == Ok::<(Seq<DataV>, nat), nat>(
            (
                fields,
                j + (if fields.len() == 0 {
                    seq![0x80u8]
                } else {
                    seq![0x9fu8] + enc_datas(fields) + seq![0xffu8]
                }).len(),
            ),
        ),
    decreases fields, 2nat,
{
    if fields.len() == 0 {
        lemma_holds_byte(b, j, seq![0x80u8], 0);
        lemma_initial_byte(4, 0);
        assert(fields =~= Seq::<DataV>::empty());
    } else {
        let rest = enc_datas(fields) + seq![0xffu8];
        assert(seq![0x9fu8] + enc_datas(fields) + seq![0xffu8] == seq![0x9fu8] + rest);
        lemma_holds_split(b, j, seq![0x9fu8], rest);
        lemma_holds_byte(b, j, seq![0x9fu8], 0);
        lemma_initial_byte(4, 31);
        lemma_parse_items(b, j + 1, fields);
    }
}

/// Items written one after the other, then a break byte, read back.
proof fn lemma_parse_items(b: Seq<u8>, j: nat, s: Seq<DataV>)
    requires
        b.len() <= u64::MAX,
        all_encodable(s),
        holds_at(b, j, enc_datas(s) + seq![0xffu8]),
    ensures
        parse_data_seq(b, j, None) == Ok::<(Seq<DataV>, nat), nat>((s, j + enc_datas(s).len() + 1)),
    decreases s, 0nat,
{
    if s.len() == 0 {
        assert(enc_datas(s) + seq![0xffu8] =~= seq![0xffu8]);
        lemma_holds_byte(b, j, seq![0xffu8], 0);
        assert(s =~= Seq::<DataV>::empty());
    } else {
        let rest = s.subrange(1, s.len() as int);
        let e0 = enc_data(s[0]);
        assert(enc_datas(s) + seq![0xffu8] == e0 + (enc_datas(rest) + seq![0xffu8]));
        lemma_holds_split(b, j, e0, enc_datas(rest) + seq![0xffu8]);
        lemma_parse_item(b, j, s[0]);
        lemma_parse_items(b, j + e0.len(), rest);
        assert(seq![s[0]] + rest =~= s);
    }
}

/// `count` key/value entries written one after the other read back.
proof fn lemma_parse_pairs(b: Seq<u8>, j: nat, s: Seq<(DataV, DataV)>)
    requires
        b.len() <= u64::MAX,
        pairs_encodable(s),
        holds_at(b, j, enc_pairs(s)),
    ensures
        parse_pair_seq(b, j, Some(s.len())) == Ok::<(Seq<(DataV, DataV)>, nat), nat>((s, j + enc_pairs(s).len())),
    decreases s, 0nat,
{
    if s.len() > 0 {
        let rest = s.subrange(1, s.len() as int);
        let ek = enc_data(s[0].0);
        let ev = enc_data(s[0].1);
        assert(enc_pairs(s) == ek + (ev + enc_pairs(rest)));
        lemma_holds_split(b, j, ek, ev + enc_pairs(rest));
        lemma_holds_split(b, j + ek.len(), ev, enc_pairs(rest));
        lemma_parse_item(b, j, s[0].0);
        lemma_parse_item(b, j + ek.len(), s[0].1);
        lemma_parse_pairs(b, j + ek.len() + ev.len(), rest);
        assert(seq![(s[0].0, s[0].1)] + rest =~= s);
    } else {
        assert(s =~= Seq::<(DataV, DataV)>::empty());
    }
}

/// Decoding the CBOR form of a data item that holds no list gives the item
/// back and reads exactly the bytes of that form (a form whose length fits
/// in 64 bits).
pub proof fn lemma_cbor_roundtrip(d: DataV)
    requires
        cbor_encodable(d),
        enc_data(d).len() <= u64::MAX,
    ensures
        parse_data(enc_data(d), 0) == Ok::<(DataV, nat), nat>((d, enc_data(d).len())),
{
    let e = enc_data(d);
    assert(e.subrange(0, e.len() as int) =~= e);
    lemma_parse_item(e, 0, d);
}

} // verus!
