//! Literals of the text form: signed numerals, hexadecimal byte strings,
//! quoted strings with escapes, and fixed words.

use vstd::prelude::*;

use crate::integer::Integer;

use super::lex::{
    digit_value, numeral, radix_integer, radix_value, read_numeral, run, run_end, skip_space,
    spaces, spells, CharClass,
};

verus! {

/// Whether `w` stands in `s` at `p`.
pub open spec fn starts_with(s: Seq<char>, p: int, w: Seq<char>) -> bool {
    0 <= p && p + w.len() <= s.len() && s.subrange(p, p + w.len()) == w
}

/// Whether `w` stands in `s` at `p`.
pub fn at_word(s: &[char], p: usize, w: &str) -> (r: bool)
    requires
        p <= s@.len(),
    ensures
        r == starts_with(s@, p as int, w@),
        s@.len() <= usize::MAX,
{
    let n = w.unicode_len();
    if n > s.len() - p {
        return false;
    }
    spells(s, p, p + n, w)
}

/// Whether the character at `p` is `c`.
pub open spec fn char_at(s: Seq<char>, p: int, c: char) -> bool {
    0 <= p < s.len() && s[p] == c
}

/// Whether the character at `p` is `c`.
pub fn is_char_at(s: &[char], p: usize, c: char) -> (r: bool)
    ensures
        r == char_at(s@, p as int, c),
        s@.len() <= usize::MAX,
{
    let n = s.len();
    p < n && s[p] == c
}

/// After optional white space, the character `c`: the position after it.
pub open spec fn token(s: Seq<char>, p: int, c: char) -> Result<int, int> {
    let q = skip_space(s, p);
    if char_at(s, q, c) {
        Ok(q + 1)
    } else {
        Err(q)
    }
}

/// After optional white space, the character `c`: the position after it.
pub fn read_token(s: &[char], p: usize, c: char) -> (r: Result<usize, usize>)
    requires
        p <= s@.len(),
    ensures
        match r {
            Ok(e) => token(s@, p as int, c) == Ok::<int, int>(e as int) && p < e <= s@.len(),
            Err(q) => token(s@, p as int, c) == Err::<int, int>(q as int),
        },
{
    let q = spaces(s, p);
    if is_char_at(s, q, c) {
        Ok(q + 1)
    } else {
        Err(q)
    }
}

/// An optionally negative decimal numeral at `p`: its value and end.
pub open spec fn signed_numeral(s: Seq<char>, p: int) -> Result<(int, int), int> {
    if char_at(s, p, '-') {
        match numeral(s, p + 1) {
            Ok((v, e)) => Ok((-v, e)),
            Err(q) => Err(q),
        }
    } else {
        numeral(s, p)
    }
}

/// An optionally negative decimal numeral at `p`: its value and end.
pub fn read_signed_numeral(s: &[char], p: usize) -> (r: Result<(Integer, usize), usize>)
    requires
        p <= s@.len(),
    ensures
        match r {
            Ok((v, e)) => signed_numeral(s@, p as int) == Ok::<(int, int), int>((v@, e as int))
                && v.wf() && p < e <= s@.len(),
            Err(q) => signed_numeral(s@, p as int) == Err::<(int, int), int>(q as int),
        },
{
    if is_char_at(s, p, '-') {
        match read_numeral(s, p + 1) {
            Ok((v, e)) => {
                let zero = Integer::from_u64(0);
                Ok((zero.subtract(&v), e))
            },
            Err(q) => Err(q),
        }
    } else {
        read_numeral(s, p)
    }
}

/// The bytes that the hexadecimal digits `d` spell, two digits a byte,
/// the high half first.
pub open spec fn hex_to_bytes(d: Seq<char>) -> Seq<u8> {
    Seq::new(
        d.len() / 2,
        |i: int| (digit_value(d[2 * i]) * 16 + digit_value(d[2 * i + 1])) as u8,
    )
}

/// The hexadecimal byte string at `p`: an even run of hexadecimal digits.
pub open spec fn hex_bytes(s: Seq<char>, p: int) -> Result<(Seq<u8>, int), int> {
    let e = run_end(s, p, CharClass::Hex);
    if (e - p) % 2 != 0 {
        Err(e)
    } else {
        Ok((hex_to_bytes(s.subrange(p, e)), e))
    }
}

/// The hexadecimal byte string at `p`, and its end.
pub fn read_hex_bytes(s: &[char], p: usize) -> (r: Result<(Vec<u8>, usize), usize>)
    requires
        p <= s@.len(),
    ensures
        match r {
            Ok((b, e)) => hex_bytes(s@, p as int) == Ok::<(Seq<u8>, int), int>((b@, e as int))
                && p <= e <= s@.len(),
            Err(q) => hex_bytes(s@, p as int) == Err::<(Seq<u8>, int), int>(q as int),
        },
{
    let e = run(s, p, CharClass::Hex);
    if (e - p) % 2 != 0 {
        return Err(e);
    }
    let ghost d = s@.subrange(p as int, e as int);
    let n = (e - p) / 2;
    let mut out: Vec<u8> = Vec::new();
    let mut i: usize = 0;
    while i < n
        invariant
            p <= e <= s@.len(),
            n == (e - p) / 2,
            (e - p) % 2 == 0,
            d == s@.subrange(p as int, e as int),
            i <= n,
            out@ =~= hex_to_bytes(d).take(i as int),
        decreases n - i,
    {
        let hi = super::lex::digit_of(s[p + 2 * i]);
        let lo = super::lex::digit_of(s[p + 2 * i + 1]);
        out.push((hi * 16 + lo) as u8);
        proof {
            assert(d[2 * i as int] == s@[p + 2 * i]);
            assert(d[2 * i + 1] == s@[p + 2 * i + 1]);
            assert(hex_to_bytes(d).take(i + 1) =~= hex_to_bytes(d).take(i as int).push(
                hex_to_bytes(d)[i as int],
            ));
        }
        i = i + 1;
    }
    proof {
        assert(hex_to_bytes(d).take(n as int) =~= hex_to_bytes(d));
    }
    Ok((out, e))
}

/// Whether `v` is a Unicode scalar value.
pub open spec fn is_scalar_value(v: int) -> bool {
    0 <= v <= 0x10FFFF && !(0xD800 <= v <= 0xDFFF)
}

/// The character whose code is `v`.
///
/// Calls `char::from_u32`, which std documents as giving `None` exactly
/// when `v` is not a Unicode scalar value, and else the character with that
/// code.
#[verifier::external_body]
fn char_from_code(v: u32) -> (r: Option<char>)
    ensures
        r is Some <==> is_scalar_value(v as int),
        r matches Some(c) ==> c as u32 == v && c == (v as int) as char,
{
    char::from_u32(v)
}

/// The character coded by the class-`k` digits at `a`, in base `radix`.
pub open spec fn code_point(s: Seq<char>, a: int, k: CharClass, radix: int) -> Result<(char, int), int> {
    let e = run_end(s, a, k);
    if e <= a {
        Err(a)
    } else if !is_scalar_value(radix_value(s.subrange(a, e), radix)) {
        Err(a)
    } else {
        Ok((radix_value(s.subrange(a, e), radix) as char, e))
    }
}

/// The character coded by the class-`k` digits at `a`, in base `radix`.
fn read_code_point(s: &[char], a: usize, k: CharClass, radix: u64) -> (r: Result<(char, usize), usize>)
    requires
        a <= s@.len(),
    ensures
        match r {
            Ok((c, e)) => code_point(s@, a as int, k, radix as int) == Ok::<(char, int), int>((c, e as int))
                && a < e <= s@.len(),
            Err(q) => code_point(s@, a as int, k, radix as int) == Err::<(char, int), int>(q as int),
        },
{
    let e = run(s, a, k);
    if e <= a {
        return Err(a);
    }
    let v = radix_integer(s, a, e, radix);
    match v.to_u64() {
        None => Err(a),
        Some(x) => {
            if x > 0x10FFFF {
                return Err(a);
            }
            match char_from_code(x as u32) {
                None => Err(a),
                Some(c) => {
                    proof {
                        assert(x as u32 == x);
                        assert(c as u32 == v@);
                        assert(c == ((c as u32) as char));
                        assert(c == ((c as int) as char));
                        assert(c == (v@ as char));
                    }
                    Ok((c, e))
                },
            }
        },
    }
}

/// The escape after a backslash at `q - 1`: the character it stands for
/// and where it ends.
pub open spec fn escape(s: Seq<char>, q: int) -> Result<(char, int), int> {
    if !(0 <= q < s.len()) {
        Err(q)
    } else {
        let c = s[q];
        if c == 'a' {
            Ok(('\x07', q + 1))
        } else if c == 'b' {
            Ok(('\x08', q + 1))
        } else if c == 'f' {
            Ok(('\x0C', q + 1))
        } else if c == 'n' {
            Ok(('\n', q + 1))
        } else if c == 'r' {
            Ok(('\r', q + 1))
        } else if c == 't' {
            Ok(('\t', q + 1))
        } else if c == 'v' {
            Ok(('\x0B', q + 1))
        } else if c == '\\' || c == '"' || c == '\'' || c == '&' {
            Ok((c, q + 1))
        } else if c == 'x' {
            code_point(s, q + 1, CharClass::Hex, 16)
        } else if c == 'o' {
            code_point(s, q + 1, CharClass::Octal, 8)
        } else if super::lex::in_class(c, CharClass::Decimal) {
            code_point(s, q, CharClass::Decimal, 10)
        } else {
            Err(q)
        }
    }
}

/// The escape after a backslash: the character it stands for and its end.
fn read_escape(s: &[char], q: usize) -> (r: Result<(char, usize), usize>)
    requires
        q <= s@.len(),
    ensures
        match r {
            Ok((c, e)) => escape(s@, q as int) == Ok::<(char, int), int>((c, e as int)) && q < e
                <= s@.len(),
            Err(x) => escape(s@, q as int) == Err::<(char, int), int>(x as int),
        },
{
    if q >= s.len() {
        return Err(q);
    }
    let c = s[q];
    if c == 'a' {
        Ok(('\x07', q + 1))
    } else if c == 'b' {
        Ok(('\x08', q + 1))
    } else if c == 'f' {
        Ok(('\x0C', q + 1))
    } else if c == 'n' {
        Ok(('\n', q + 1))
    } else if c == 'r' {
        Ok(('\r', q + 1))
    } else if c == 't' {
        Ok(('\t', q + 1))
    } else if c == 'v' {
        Ok(('\x0B', q + 1))
    } else if c == '\\' || c == '"' || c == '\'' || c == '&' {
        Ok((c, q + 1))
    } else if c == 'x' {
        read_code_point(s, q + 1, CharClass::Hex, 16)
    } else if c == 'o' {
        read_code_point(s, q + 1, CharClass::Octal, 8)
    } else if super::lex::char_in_class(c, CharClass::Decimal) {
        read_code_point(s, q, CharClass::Decimal, 10)
    } else {
        Err(q)
    }
}

/// An escape that succeeds ends after it begins, within the text.
pub proof fn lemma_escape_bounds(s: Seq<char>, q: int)
    requires
        0 <= q,
    ensures
        escape(s, q) matches Ok((_, e)) ==> q < e <= s.len(),
{
    if 0 <= q < s.len() {
        if q + 1 <= s.len() {
            super::lex::lemma_run_end_bounds(s, q + 1, CharClass::Hex);
            super::lex::lemma_run_end_bounds(s, q + 1, CharClass::Octal);
        }
        super::lex::lemma_run_end_bounds(s, q, CharClass::Decimal);
    }
}

/// The rest of a quoted string from `p`, after the characters `acc`: all
/// its characters, and the position after the closing quote.
pub open spec fn string_body(s: Seq<char>, p: int, acc: Seq<char>) -> Result<(Seq<char>, int), int>
    decreases s.len() - p,
{
    if !(0 <= p < s.len()) {
        Err(p)
    } else if s[p] == '"' {
        Ok((acc, p + 1))
    } else if s[p] == '\\' {
        match escape(s, p + 1) {
            Err(q) => Err(q),
            Ok((c, q)) => {
                proof {
                    lemma_escape_bounds(s, p + 1);
                }
                string_body(s, q, acc.push(c))
            },
        }
    } else {
        string_body(s, p + 1, acc.push(s[p]))
    }
}

/// The characters of the quoted string whose body starts at `p`, and the
/// position after its closing quote.
pub fn read_string_body(s: &[char], p: usize) -> (r: Result<(Vec<char>, usize), usize>)
    requires
        p <= s@.len(),
    ensures
        match r {
            Ok((v, e)) => string_body(s@, p as int, Seq::empty()) == Ok::<(Seq<char>, int), int>(
                (v@, e as int),
            ) && p < e <= s@.len(),
            Err(q) => string_body(s@, p as int, Seq::empty()) == Err::<(Seq<char>, int), int>(
                q as int,
            ),
        },
{
    let mut acc: Vec<char> = Vec::new();
    let mut i = p;
    loop
        invariant
            p <= i <= s@.len(),
            string_body(s@, i as int, acc@) == string_body(s@, p as int, Seq::empty()),
        decreases s@.len() - i,
    {
        if i >= s.len() {
            return Err(i);
        }
        let c = s[i];
        if c == '"' {
            return Ok((acc, i + 1));
        } else if c == '\\' {
            match read_escape(s, i + 1) {
                Err(q) => {
                    return Err(q);
                },
                Ok((x, q)) => {
                    acc.push(x);
                    i = q;
                },
            }
        } else {
            acc.push(c);
            i = i + 1;
        }
    }
}

/// The string of the characters `v`.
///
/// Collects the characters into a `String` (`FromIterator<char>`), which
/// std documents as the string of those characters in order.
#[verifier::external_body]
pub(crate) fn string_of(v: &[char]) -> (r: String)
    ensures
        r@ == v@,
{
    v.iter().collect()
}

/// After optional white space, a closing parenthesis: the position after it.
pub open spec fn close(s: Seq<char>, p: int) -> Result<int, int> {
    token(s, p, ')')
}

} // verus!
