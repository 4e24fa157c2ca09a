//! Constants in the text form: `(con integer n)`, `(con bytestring #hex)`,
//! `(con string "...")`, `(con data (d))`, `(con bool True)` and
//! `(con unit ())`.

use vstd::prelude::*;

use crate::constant::{Constant, ConstantV};

use super::data::{data_item, lemma_skip_space_bounds, read_data};
use super::lex::{name, name_at, skip_space, spaces, spells};
use super::literal::{
    at_word, close, hex_bytes, read_hex_bytes, read_signed_numeral, read_string_body, read_token,
    signed_numeral, starts_with, string_body, string_of, token,
};

verus! {

/// The value written after the type word that spans `q` to `e`, and
/// where it ends.
pub open spec fn typed_value(s: Seq<char>, q: int, e: int) -> Result<(ConstantV, int), int> {
            let w = s.subrange(q, e);
            let r = skip_space(s, e);
            if w == "integer"@ {
                match signed_numeral(s, r) {
                    Err(x) => Err(x),
                    Ok((v, f)) => Ok((ConstantV::Integer(v), f)),
                }
            } else if w == "bytestring"@ {
                match token(s, e, '#') {
                    Err(x) => Err(x),
                    Ok(a) => match hex_bytes(s, a) {
                        Err(x) => Err(x),
                        Ok((b, f)) => Ok((ConstantV::ByteString(b), f)),
                    },
                }
            } else if w == "string"@ {
                match token(s, e, '"') {
                    Err(x) => Err(x),
                    Ok(a) => match string_body(s, a, Seq::empty()) {
                        Err(x) => Err(x),
                        Ok((c, f)) => Ok((ConstantV::String(c), f)),
                    },
                }
            } else if w == "data"@ {
                match token(s, e, '(') {
                    Err(x) => Err(x),
                    Ok(a) => match data_item(s, a) {
                        Err(x) => Err(x),
                        Ok((d, f)) => match close(s, f) {
                            Err(x) => Err(x),
                            Ok(g) => Ok((ConstantV::Data(d), g)),
                        },
                    },
                }
            } else if w == "bool"@ {
                if starts_with(s, r, seq!['F', 'a', 'l', 's', 'e']) {
                    Ok((ConstantV::Boolean(false), r + 5))
                } else if starts_with(s, r, seq!['T', 'r', 'u', 'e']) {
                    Ok((ConstantV::Boolean(true), r + 4))
                } else {
                    Err(r)
                }
            } else if w == "unit"@ {
                if starts_with(s, r, seq!['(', ')']) {
                    Ok((ConstantV::Unit, r + 2))
                } else {
                    Err(r)
                }
            } else {
                Err(q)
            }
}

/// The constant whose type word stands at `p` (after optional white space),
/// up to its closing parenthesis: its value and the position after it.
pub open spec fn constant_body(s: Seq<char>, p: int) -> Result<(ConstantV, int), int> {
    let q = skip_space(s, p);
    match name_at(s, q) {
        None => Err(q),
        Some(e) => match typed_value(s, q, e) {
            Err(x) => Err(x),
            Ok((c, f)) => match close(s, f) {
                Err(x) => Err(x),
                Ok(g) => Ok((c, g)),
            },
        },
    }
}

/// The constant `(con ...)` at `p` (after optional white space): its
/// value and the position after it.
pub open spec fn constant_form(s: Seq<char>, p: int) -> Result<(ConstantV, int), int> {
    match token(s, p, '(') {
        Err(x) => Err(x),
        Ok(a) => {
            let q = skip_space(s, a);
            match name_at(s, q) {
                Some(e) => if s.subrange(q, e) == "con"@ {
                    constant_body(s, e)
                } else {
                    Err(q)
                },
                None => Err(q),
            }
        },
    }
}

/// The constant whose type word stands at `p`, up to its closing
/// parenthesis, and the position after it.
pub fn read_constant_body(s: &[char], p: usize) -> (r: Result<(Constant, usize), usize>)
    requires
        p <= s@.len(),
    ensures
        match r {
            Ok((c, e)) => constant_body(s@, p as int) == Ok::<(ConstantV, int), int>((c@, e as int))
                && e <= s@.len(),
            Err(x) => constant_body(s@, p as int) == Err::<(ConstantV, int), int>(x as int),
        },
{
    let q = spaces(s, p);
    let e = match name(s, q) {
        None => {
            return Err(q);
        },
        Some(e) => e,
    };
    match read_typed_value(s, q, e) {
        Err(x) => Err(x),
        Ok((c, f)) => match read_token(s, f, ')') {
            Err(x) => Err(x),
            Ok(g) => Ok((c, g)),
        },
    }
}

/// The value written after the type word from `q` to `e`, and its end.
fn read_typed_value(s: &[char], q: usize, e: usize) -> (r: Result<(Constant, usize), usize>)
    requires
        q < e <= s@.len(),
    ensures
        match r {
            Ok((c, f)) => typed_value(s@, q as int, e as int) == Ok::<(ConstantV, int), int>(
                (c@, f as int),
            ) && f <= s@.len(),
            Err(x) => typed_value(s@, q as int, e as int) == Err::<(ConstantV, int), int>(x as int),
        },
{
    let r = spaces(s, e);
    if spells(s, q, e, "integer") {
        match read_signed_numeral(s, r) {
            Err(x) => Err(x),
            Ok((v, f)) => Ok((Constant::Integer(v), f)),
        }
    } else if spells(s, q, e, "bytestring") {
        match read_token(s, e, '#') {
            Err(x) => Err(x),
            Ok(a) => match read_hex_bytes(s, a) {
                Err(x) => Err(x),
                Ok((b, f)) => Ok((Constant::ByteString(b), f)),
            },
        }
    } else if spells(s, q, e, "string") {
        match read_token(s, e, '"') {
            Err(x) => Err(x),
            Ok(a) => match read_string_body(s, a) {
                Err(x) => Err(x),
                Ok((c, f)) => Ok((Constant::String(string_of(c.as_slice())), f)),
            },
        }
    } else if spells(s, q, e, "data") {
        match read_token(s, e, '(') {
            Err(x) => Err(x),
            Ok(a) => match read_data(s, a) {
                Err(x) => Err(x),
                Ok((d, f)) => match read_token(s, f, ')') {
                    Err(x) => Err(x),
                    Ok(g) => Ok((Constant::Data(d), g)),
                },
            },
        }
    } else if spells(s, q, e, "bool") {
        proof {
            reveal_strlit("False");
            reveal_strlit("True");
            assert("False"@ =~= seq!['F', 'a', 'l', 's', 'e']);
            assert("True"@ =~= seq!['T', 'r', 'u', 'e']);
        }
        if at_word(s, r, "False") {
            Ok((Constant::Boolean(false), r + 5))
        } else if at_word(s, r, "True") {
            Ok((Constant::Boolean(true), r + 4))
        } else {
            Err(r)
        }
    } else if spells(s, q, e, "unit") {
        proof {
            reveal_strlit("()");
            assert("()"@ =~= seq!['(', ')']);
        }
        if at_word(s, r, "()") {
            Ok((Constant::Unit, r + 2))
        } else {
            Err(r)
        }
    } else {
        Err(q)
    }
}

/// The constant `(con ...)` at `p`, and the position after it.
pub fn read_constant_form(s: &[char], p: usize) -> (r: Result<(Constant, usize), usize>)
    requires
        p <= s@.len(),
    ensures
        match r {
            Ok((c, e)) => constant_form(s@, p as int) == Ok::<(ConstantV, int), int>((c@, e as int))
                && e <= s@.len(),
            Err(x) => constant_form(s@, p as int) == Err::<(ConstantV, int), int>(x as int),
        },
{
    match read_token(s, p, '(') {
        Err(x) => Err(x),
        Ok(a) => {
            let q = spaces(s, a);
            match name(s, q) {
                Some(e) => if spells(s, q, e, "con") {
                    read_constant_body(s, e)
                } else {
                    Err(q)
                },
                None => Err(q),
            }
        },
    }
}

} // verus!
