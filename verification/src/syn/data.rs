//! Data items in the text form:
//! `B #hex`, `I n`, `Constr n [d, ...]`, `List [d, ...]` and
//! `Map [(k, v), ...]`.

use vstd::prelude::*;

use crate::constant::{datas_view, lemma_datas_view_push, lemma_pairs_view_push, pairs_view, DataV, PlutusData};

use super::lex::{lemma_run_end_bounds, numeral, read_numeral, skip_space, spaces, CharClass};
use super::literal::{
    at_word, char_at, hex_bytes, is_char_at, read_hex_bytes, read_signed_numeral, read_token,
    signed_numeral, starts_with, token,
};

verus! {

/// White space never runs past the text, and never backwards.
pub proof fn lemma_skip_space_bounds(s: Seq<char>, p: int)
    requires
        0 <= p <= s.len(),
    ensures
        p <= skip_space(s, p) <= s.len(),
{
    lemma_run_end_bounds(s, p, CharClass::Space);
}

/// The data item at `p` (after optional white space) and its end.
pub open spec fn data_item(s: Seq<char>, p: int) -> Result<(DataV, int), int>
    decreases s.len() - p, 0int,
{
    if !(0 <= p <= s.len()) {
        Err(p)
    } else {
        let q = skip_space(s, p);
        proof {
            lemma_skip_space_bounds(s, p);
        }
        if char_at(s, q, 'B') {
            match token(s, q + 1, '#') {
                Err(x) => Err(x),
                Ok(r) => match hex_bytes(s, r) {
                    Err(x) => Err(x),
                    Ok((b, e)) => Ok((DataV::ByteString(b), e)),
                },
            }
        } else if char_at(s, q, 'I') {
            let r = skip_space(s, q + 1);
            match signed_numeral(s, r) {
                Err(x) => Err(x),
                Ok((v, e)) => Ok((DataV::Integer(v), e)),
            }
        } else if starts_with(s, q, seq!['C', 'o', 'n', 's', 't', 'r']) {
            let r = skip_space(s, q + 6);
            proof {
                lemma_skip_space_bounds(s, q + 6);
                lemma_run_end_bounds(s, r, CharClass::Decimal);
            }
            match numeral(s, r) {
                Err(x) => Err(x),
                Ok((tag, e)) => if tag > u64::MAX {
                    Err(r)
                } else {
                    match data_list(s, e) {
                        Err(x) => Err(x),
                        Ok((items, f)) => Ok((DataV::Constr(tag as u64, items), f)),
                    }
                },
            }
        } else if starts_with(s, q, seq!['L', 'i', 's', 't']) {
            match data_list(s, q + 4) {
                Err(x) => Err(x),
                Ok((items, f)) => Ok((DataV::List(items), f)),
            }
        } else if starts_with(s, q, seq!['M', 'a', 'p']) {
            match data_map(s, q + 3) {
                Err(x) => Err(x),
                Ok((entries, f)) => Ok((DataV::AssocList(entries), f)),
            }
        } else {
            Err(q)
        }
    }
}

/// A bracketed, comma-separated list of data items at `p`.
pub open spec fn data_list(s: Seq<char>, p: int) -> Result<(Seq<DataV>, int), int>
    decreases s.len() - p, 2int,
{
    if !(0 <= p <= s.len()) {
        Err(p)
    } else {
        match token(s, p, '[') {
            Err(x) => Err(x),
            Ok(q) => {
                proof {
                    lemma_skip_space_bounds(s, p);
                }
                match token(s, q, ']') {
                    Ok(e) => Ok((Seq::empty(), e)),
                    Err(_) => data_items(s, q, Seq::empty()),
                }
            },
        }
    }
}

/// The items of a list from `p`, after the items `acc`, up to and past
/// the closing bracket. Each item must take up some text.
pub open spec fn data_items(s: Seq<char>, p: int, acc: Seq<DataV>) -> Result<(Seq<DataV>, int), int>
    decreases s.len() - p, 1int,
{
    if !(0 <= p <= s.len()) {
        Err(p)
    } else {
        match data_item(s, p) {
            Err(x) => Err(x),
            Ok((d, e)) => if e <= p || e > s.len() {
                Err(p)
            } else {
                proof {
                    lemma_skip_space_bounds(s, e);
                }
                match token(s, e, ']') {
                    Ok(f) => Ok((acc.push(d), f)),
                    Err(_) => match token(s, e, ',') {
                        Err(x) => Err(x),
                        Ok(f) => data_items(s, f, acc.push(d)),
                    },
                }
            },
        }
    }
}

/// A bracketed, comma-separated list of `(key, value)` entries at `p`.
pub open spec fn data_map(s: Seq<char>, p: int) -> Result<(Seq<(DataV, DataV)>, int), int>
    decreases s.len() - p, 2int,
{
    if !(0 <= p <= s.len()) {
        Err(p)
    } else {
        match token(s, p, '[') {
            Err(x) => Err(x),
            Ok(q) => {
                proof {
                    lemma_skip_space_bounds(s, p);
                }
                match token(s, q, ']') {
                    Ok(e) => Ok((Seq::empty(), e)),
                    Err(_) => map_entries(s, q, Seq::empty()),
                }
            },
        }
    }
}

/// The entries of a map from `p`, after the entries `acc`, up to and past
/// the closing bracket.
pub open spec fn map_entries(s: Seq<char>, p: int, acc: Seq<(DataV, DataV)>) -> Result<
    (Seq<(DataV, DataV)>, int),
    int,
>
    decreases s.len() - p, 1int,
{
    if !(0 <= p <= s.len()) {
        Err(p)
    } else {
        proof {
            lemma_skip_space_bounds(s, p);
        }
        match token(s, p, '(') {
            Err(x) => Err(x),
            Ok(a) => match data_item(s, a) {
                Err(x) => Err(x),
                Ok((k, e)) => if e <= a || e > s.len() {
                    Err(a)
                } else {
                    proof {
                        lemma_skip_space_bounds(s, e);
                    }
                    match token(s, e, ',') {
                        Err(x) => Err(x),
                        Ok(b) => match data_item(s, b) {
                            Err(x) => Err(x),
                            Ok((v, f)) => if f <= b || f > s.len() {
                                Err(b)
                            } else {
                                proof {
                                    lemma_skip_space_bounds(s, f);
                                }
                                match token(s, f, ')') {
                                    Err(x) => Err(x),
                                    Ok(g) => {
                                        proof {
                                            lemma_skip_space_bounds(s, g);
                                        }
                                        match token(s, g, ']') {
                                            Ok(h) => Ok((acc.push((k, v)), h)),
                                            Err(_) => match token(s, g, ',') {
                                                Err(x) => Err(x),
                                                Ok(h) => map_entries(s, h, acc.push((k, v))),
                                            },
                                        }
                                    },
                                }
                            },
                        },
                    }
                },
            },
        }
    }
}

/// A token that is found ends after where the search began.
proof fn lemma_token_bounds(s: Seq<char>, p: int, c: char)
    requires
        0 <= p <= s.len(),
    ensures
        token(s, p, c) matches Ok(e) ==> p < e <= s.len(),
        token(s, p, c) matches Err(e) ==> p <= e <= s.len(),
{
    lemma_skip_space_bounds(s, p);
}

/// The data item at `p` and its end.
pub fn read_data(s: &[char], p: usize) -> (r: Result<(PlutusData, usize), usize>)
    requires
        p <= s@.len(),
    ensures
        match r {
            Ok((d, e)) => data_item(s@, p as int) == Ok::<(DataV, int), int>((d@, e as int)) && e
                <= s@.len(),
            Err(x) => data_item(s@, p as int) == Err::<(DataV, int), int>(x as int),
        },
    decreases s@.len() - p, 0int,
{
    let q = spaces(s, p);
    if is_char_at(s, q, 'B') {
        match read_token(s, q + 1, '#') {
            Err(x) => Err(x),
            Ok(r) => match read_hex_bytes(s, r) {
                Err(x) => Err(x),
                Ok((b, e)) => Ok((PlutusData::ByteString(b), e)),
            },
        }
    } else if is_char_at(s, q, 'I') {
        let r = spaces(s, q + 1);
        match read_signed_numeral(s, r) {
            Err(x) => Err(x),
            Ok((v, e)) => Ok((PlutusData::Integer(v), e)),
        }
    } else if at_word(s, q, "Constr") {
        proof {
            reveal_strlit("Constr");
            assert("Constr"@ =~= seq!['C', 'o', 'n', 's', 't', 'r']);
        }
        let r = spaces(s, q + 6);
        match read_numeral(s, r) {
            Err(x) => Err(x),
            Ok((tag, e)) => match tag.to_u64() {
                None => Err(r),
                Some(t) => match read_data_list(s, e) {
                    Err(x) => Err(x),
                    Ok((items, f)) => Ok((PlutusData::Constr { tag: t, fields: items }, f)),
                },
            },
        }
    } else if at_word(s, q, "List") {
        proof {
            reveal_strlit("List");
            assert("List"@ =~= seq!['L', 'i', 's', 't']);
        }
        match read_data_list(s, q + 4) {
            Err(x) => Err(x),
            Ok((items, f)) => Ok((PlutusData::List(items), f)),
        }
    } else if at_word(s, q, "Map") {
        proof {
            reveal_strlit("Map");
            assert("Map"@ =~= seq!['M', 'a', 'p']);
        }
        match read_data_map(s, q + 3) {
            Err(x) => Err(x),
            Ok((entries, f)) => Ok((PlutusData::AssocList(entries), f)),
        }
    } else {
        proof {
            reveal_strlit("Constr");
            reveal_strlit("List");
            reveal_strlit("Map");
            assert("Constr"@ =~= seq!['C', 'o', 'n', 's', 't', 'r']);
            assert("List"@ =~= seq!['L', 'i', 's', 't']);
            assert("Map"@ =~= seq!['M', 'a', 'p']);
        }
        Err(q)
    }
}

/// A bracketed list of data items at `p`, and its end.
fn read_data_list(s: &[char], p: usize) -> (r: Result<(Vec<PlutusData>, usize), usize>)
    requires
        p <= s@.len(),
    ensures
        match r {
            Ok((v, e)) => data_list(s@, p as int) == Ok::<(Seq<DataV>, int), int>(
                (datas_view(v@), e as int),
            ) && e <= s@.len(),
            Err(x) => data_list(s@, p as int) == Err::<(Seq<DataV>, int), int>(x as int),
        },
    decreases s@.len() - p, 2int,
{
    match read_token(s, p, '[') {
        Err(x) => Err(x),
        Ok(q) => match read_token(s, q, ']') {
            Ok(e) => Ok((Vec::new(), e)),
            Err(_) => read_data_items(s, q),
        },
    }
}

/// The items of a list from `p` up to and past the closing bracket.
fn read_data_items(s: &[char], p: usize) -> (r: Result<(Vec<PlutusData>, usize), usize>)
    requires
        p <= s@.len(),
    ensures
        match r {
            Ok((v, e)) => data_items(s@, p as int, Seq::empty()) == Ok::<(Seq<DataV>, int), int>(
                (datas_view(v@), e as int),
            ) && e <= s@.len(),
            Err(x) => data_items(s@, p as int, Seq::empty()) == Err::<(Seq<DataV>, int), int>(
                x as int,
            ),
        },
    decreases s@.len() - p, 1int,
{
    let mut acc: Vec<PlutusData> = Vec::new();
    let mut i = p;
    proof {
        assert(datas_view(acc@) =~= Seq::<DataV>::empty());
    }
    loop
        invariant
            p <= i <= s@.len(),
            data_items(s@, i as int, datas_view(acc@)) == data_items(s@, p as int, Seq::empty()),
        decreases s@.len() - i,
    {
        match read_data(s, i) {
            Err(x) => {
                return Err(x);
            },
            Ok((d, e)) => {
                if e <= i {
                    return Err(i);
                }
                proof {
                    lemma_datas_view_push(acc@, d);
                }
                acc.push(d);
                match read_token(s, e, ']') {
                    Ok(f) => {
                        return Ok((acc, f));
                    },
                    Err(_) => match read_token(s, e, ',') {
                        Err(x) => {
                            return Err(x);
                        },
                        Ok(f) => {
                            i = f;
                        },
                    },
                }
            },
        }
    }
}

/// A bracketed list of entries at `p`, and its end.
fn read_data_map(s: &[char], p: usize) -> (r: Result<(Vec<(PlutusData, PlutusData)>, usize), usize>)
    requires
        p <= s@.len(),
    ensures
        match r {
            Ok((v, e)) => data_map(s@, p as int) == Ok::<(Seq<(DataV, DataV)>, int), int>(
                (pairs_view(v@), e as int),
            ) && e <= s@.len(),
            Err(x) => data_map(s@, p as int) == Err::<(Seq<(DataV, DataV)>, int), int>(x as int),
        },
    decreases s@.len() - p, 2int,
{
    match read_token(s, p, '[') {
        Err(x) => Err(x),
        Ok(q) => match read_token(s, q, ']') {
            Ok(e) => Ok((Vec::new(), e)),
            Err(_) => read_map_entries(s, q),
        },
    }
}

/// The entries of a map from `p` up to and past the closing bracket.
fn read_map_entries(s: &[char], p: usize) -> (r: Result<(Vec<(PlutusData, PlutusData)>, usize), usize>)
    requires
        p <= s@.len(),
    ensures
        match r {
            Ok((v, e)) => map_entries(s@, p as int, Seq::empty()) == Ok::<
                (Seq<(DataV, DataV)>, int),
                int,
            >((pairs_view(v@), e as int)) && e <= s@.len(),
            Err(x) => map_entries(s@, p as int, Seq::empty()) == Err::<
                (Seq<(DataV, DataV)>, int),
                int,
            >(x as int),
        },
    decreases s@.len() - p, 1int,
{
    let mut acc: Vec<(PlutusData, PlutusData)> = Vec::new();
    let mut i = p;
    proof {
        assert(pairs_view(acc@) =~= Seq::<(DataV, DataV)>::empty());
    }
    loop
        invariant
            p <= i <= s@.len(),
            map_entries(s@, i as int, pairs_view(acc@)) == map_entries(
                s@,
                p as int,
                Seq::empty(),
            ),
        decreases s@.len() - i,
    {
        let a = match read_token(s, i, '(') {
            Err(x) => {
                return Err(x);
            },
            Ok(a) => a,
        };
        let (k, e) = match read_data(s, a) {
            Err(x) => {
                return Err(x);
            },
            Ok(r) => r,
        };
        if e <= a {
            return Err(a);
        }
        let b = match read_token(s, e, ',') {
            Err(x) => {
                return Err(x);
            },
            Ok(b) => b,
        };
        let (v, f) = match read_data(s, b) {
            Err(x) => {
                return Err(x);
            },
            Ok(r) => r,
        };
        if f <= b {
            return Err(b);
        }
        let g = match read_token(s, f, ')') {
            Err(x) => {
                return Err(x);
            },
            Ok(g) => g,
        };
        proof {
            lemma_pairs_view_push(acc@, (k, v));
        }
        acc.push((k, v));
        match read_token(s, g, ']') {
            Ok(h) => {
                return Ok((acc, h));
            },
            Err(_) => match read_token(s, g, ',') {
                Err(x) => {
                    return Err(x);
                },
                Ok(h) => {
                    i = h;
                },
            },
        }
    }
}

} // verus!
