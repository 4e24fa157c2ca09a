//! The text form of programs, terms, constants and data:
//! `(program 1.0.0 <term>)`, with terms written as
//! `x`, `(lam x t)`, `[t u ...]`, `(delay t)`, `(force t)`,
//! `(con <type> <value>)`, `(builtin <name>)` and `(error)`.

pub mod constant;
pub mod data;
pub mod lex;
pub mod literal;
pub mod names;
pub mod term;

use vstd::prelude::*;

use crate::constant::{Constant, ConstantV, DataV, PlutusData};
use crate::program::{Program, ProgramV, Version};
use crate::term::{Term, TermV};

use self::constant::{constant_form, read_constant_form};
use self::data::{data_item, read_data};
use self::lex::{chars_of, numeral, read_numeral, skip_space, spaces, name, name_at, spells};
use self::literal::{char_at, close, is_char_at, read_token, token};
use self::term::{read_term, term};

verus! {

/// Where parsing of a text failed: a position counted in characters.
#[derive(Debug, Copy, Clone, PartialEq, Eq, Structural)]
pub struct ParseError {
    pub position: usize,
}

/// The value `r` found at the start of `s`, when only white space follows
/// it; else where it failed.
pub open spec fn whole<T>(s: Seq<char>, r: Result<(T, int), int>) -> Result<T, int> {
    match r {
        Err(x) => Err(x),
        Ok((v, e)) => if skip_space(s, e) == s.len() {
            Ok(v)
        } else {
            Err(skip_space(s, e))
        },
    }
}

/// A version `major.minor.patch` at `p`, each part a numeral that fits a
/// `usize`, and where it ends.
pub open spec fn version_at(s: Seq<char>, p: int) -> Result<((usize, usize, usize), int), int> {
    match numeral(s, p) {
        Err(x) => Err(x),
        Ok((a, e)) => if a > usize::MAX {
            Err(p)
        } else if !char_at(s, e, '.') {
            Err(e)
        } else {
            match numeral(s, e + 1) {
                Err(x) => Err(x),
                Ok((b, f)) => if b > usize::MAX {
                    Err(e + 1)
                } else if !char_at(s, f, '.') {
                    Err(f)
                } else {
                    match numeral(s, f + 1) {
                        Err(x) => Err(x),
                        Ok((c, g)) => if c > usize::MAX {
                            Err(f + 1)
                        } else {
                            Ok(((a as usize, b as usize, c as usize), g))
                        },
                    }
                },
            }
        },
    }
}

/// The program `(program <version> <term>)` at the start of `s`, and where
/// it ends.
pub open spec fn program_at(s: Seq<char>) -> Result<(ProgramV, int), int> {
    match token(s, 0, '(') {
        Err(x) => Err(x),
        Ok(a) => {
            let q = skip_space(s, a);
            match name_at(s, q) {
                None => Err(q),
                Some(e) => if s.subrange(q, e) != "program"@ {
                    Err(q)
                } else {
                    match version_at(s, skip_space(s, e)) {
                        Err(x) => Err(x),
                        Ok((v, f)) => match term(s, f, Seq::empty()) {
                            Err(x) => Err(x),
                            Ok((t, g)) => match close(s, g) {
                                Err(x) => Err(x),
                                Ok(h) => Ok((ProgramV { version: v, term: t }, h)),
                            },
                        },
                    }
                },
            }
        },
    }
}

/// The version at `p`, and where it ends.
fn read_version(s: &[char], p: usize) -> (r: Result<(Version, usize), usize>)
    requires
        p <= s@.len(),
    ensures
        match r {
            Ok((v, e)) => version_at(s@, p as int) == Ok::<((usize, usize, usize), int), int>(
                (v.0, e as int),
            ) && e <= s@.len(),
            Err(x) => version_at(s@, p as int) == Err::<((usize, usize, usize), int), int>(x as int),
        },
{
    let (a, e) = match read_numeral(s, p) {
        Err(x) => {
            return Err(x);
        },
        Ok(r) => r,
    };
    let a = match a.to_usize() {
        None => {
            return Err(p);
        },
        Some(a) => a,
    };
    if !is_char_at(s, e, '.') {
        return Err(e);
    }
    let (b, f) = match read_numeral(s, e + 1) {
        Err(x) => {
            return Err(x);
        },
        Ok(r) => r,
    };
    let b = match b.to_usize() {
        None => {
            return Err(e + 1);
        },
        Some(b) => b,
    };
    if !is_char_at(s, f, '.') {
        return Err(f);
    }
    let (c, g) = match read_numeral(s, f + 1) {
        Err(x) => {
            return Err(x);
        },
        Ok(r) => r,
    };
    let c = match c.to_usize() {
        None => {
            return Err(f + 1);
        },
        Some(c) => c,
    };
    Ok((Version::new(a, b, c), g))
}

/// Where only white space follows `e`: `Ok`, else the first other
/// character's position.
fn read_end(s: &[char], e: usize) -> (r: Result<(), ParseError>)
    requires
        e <= s@.len(),
    ensures
        r is Ok <==> skip_space(s@, e as int) == s@.len(),
        r matches Err(x) ==> x.position == skip_space(s@, e as int),
{
    let q = spaces(s, e);
    if q == s.len() {
        Ok(())
    } else {
        Err(ParseError { position: q })
    }
}

/// Parses the text of a whole program, `(program <version> <term>)`,
/// with white space allowed between tokens and around the whole.
pub fn parse_program(input: &str) -> (r: Result<Program, ParseError>)
    ensures
        match r {
            Ok(p) => whole(input@, program_at(input@)) == Ok::<ProgramV, int>(p@),
            Err(x) => whole(input@, program_at(input@)) == Err::<ProgramV, int>(x.position as int),
        },
{
    let v = chars_of(input);
    let s = v.as_slice();
    let a = match read_token(s, 0, '(') {
        Err(x) => {
            return Err(ParseError { position: x });
        },
        Ok(a) => a,
    };
    let q = spaces(s, a);
    let e = match name(s, q) {
        None => {
            return Err(ParseError { position: q });
        },
        Some(e) => e,
    };
    if !spells(s, q, e, "program") {
        return Err(ParseError { position: q });
    }
    let (version, f) = match read_version(s, spaces(s, e)) {
        Err(x) => {
            return Err(ParseError { position: x });
        },
        Ok(r) => r,
    };
    let mut env: Vec<(usize, usize)> = Vec::new();
    proof {
        assert(self::term::env_names(s@, env@) =~= Seq::<Seq<char>>::empty());
    }
    let (t, g) = match read_term(s, f, &mut env) {
        Err(x) => {
            return Err(ParseError { position: x });
        },
        Ok(r) => r,
    };
    let h = match read_token(s, g, ')') {
        Err(x) => {
            return Err(ParseError { position: x });
        },
        Ok(h) => h,
    };
    match read_end(s, h) {
        Err(x) => Err(x),
        Ok(()) => Ok(Program::new(version, t)),
    }
}

/// Parses the text of a single term.
pub fn parse_term(input: &str) -> (r: Result<Term, ParseError>)
    ensures
        match r {
            Ok(t) => whole(input@, term(input@, 0, Seq::empty())) == Ok::<TermV, int>(t@),
            Err(x) => whole(input@, term(input@, 0, Seq::empty())) == Err::<TermV, int>(
                x.position as int,
            ),
        },
{
    let v = chars_of(input);
    let s = v.as_slice();
    let mut env: Vec<(usize, usize)> = Vec::new();
    proof {
        assert(self::term::env_names(s@, env@) =~= Seq::<Seq<char>>::empty());
    }
    match read_term(s, 0, &mut env) {
        Err(x) => Err(ParseError { position: x }),
        Ok((t, e)) => match read_end(s, e) {
            Err(x) => Err(x),
            Ok(()) => Ok(t),
        },
    }
}

/// Parses the text of a constant, `(con <type> <value>)`.
pub fn parse_constant(input: &str) -> (r: Result<Constant, ParseError>)
    ensures
        match r {
            Ok(c) => whole(input@, constant_form(input@, 0)) == Ok::<ConstantV, int>(c@),
            Err(x) => whole(input@, constant_form(input@, 0)) == Err::<ConstantV, int>(
                x.position as int,
            ),
        },
{
    let v = chars_of(input);
    let s = v.as_slice();
    match read_constant_form(s, 0) {
        Err(x) => Err(ParseError { position: x }),
        Ok((c, e)) => match read_end(s, e) {
            Err(x) => Err(x),
            Ok(()) => Ok(c),
        },
    }
}

/// Parses the text of a data item, such as `Constr 0 [I 1, B #ff]`.
pub fn parse_data(input: &str) -> (r: Result<PlutusData, ParseError>)
    ensures
        match r {
            Ok(d) => whole(input@, data_item(input@, 0)) == Ok::<DataV, int>(d@),
            Err(x) => whole(input@, data_item(input@, 0)) == Err::<DataV, int>(x.position as int),
        },
{
    let v = chars_of(input);
    let s = v.as_slice();
    match read_data(s, 0) {
        Err(x) => Err(ParseError { position: x }),
        Ok((d, e)) => match read_end(s, e) {
            Err(x) => Err(x),
            Ok(()) => Ok(d),
        },
    }
}

} // verus!
