//! Characters of the text form: white space, names, numerals and words.

use vstd::prelude::*;
use vstd::string::StrSliceExecFns;

use crate::integer::Integer;

verus! {

/// The classes of characters that the text form reads in runs.
#[derive(Copy, Clone)]
pub enum CharClass {
    /// Characters with the Unicode `White_Space` property.
    Space,
    /// ASCII letters, digits and `_`.
    NameChar,
    /// `0` to `9`.
    Decimal,
    /// `0` to `9`, `a` to `f` and `A` to `F`.
    Hex,
    /// `0` to `7`.
    Octal,
}

/// Whether `c` belongs to class `k`.
pub open spec fn in_class(c: char, k: CharClass) -> bool {
    let v = c as u32;
    match k {
        CharClass::Space => (0x09 <= v <= 0x0D) || v == 0x20 || v == 0x85 || v == 0xA0
            || v == 0x1680 || (0x2000 <= v <= 0x200A) || v == 0x2028 || v == 0x2029
            || v == 0x202F || v == 0x205F || v == 0x3000,
        CharClass::NameChar => (0x61 <= v <= 0x7A) || (0x41 <= v <= 0x5A) || v == 0x5F
            || (0x30 <= v <= 0x39),
        CharClass::Decimal => 0x30 <= v <= 0x39,
        CharClass::Hex => (0x30 <= v <= 0x39) || (0x61 <= v <= 0x66) || (0x41 <= v <= 0x46),
        CharClass::Octal => 0x30 <= v <= 0x37,
    }
}

/// Whether `c` can begin a name: an ASCII letter or `_`.
pub open spec fn is_name_start(c: char) -> bool {
    let v = c as u32;
    (0x61 <= v <= 0x7A) || (0x41 <= v <= 0x5A) || v == 0x5F
}

/// Whether `c` belongs to class `k`.
pub fn char_in_class(c: char, k: CharClass) -> (r: bool)
    ensures
        r == in_class(c, k),
{
    let v = c as u32;
    match k {
        CharClass::Space => (0x09 <= v && v <= 0x0D) || v == 0x20 || v == 0x85 || v == 0xA0
            || v == 0x1680 || (0x2000 <= v && v <= 0x200A) || v == 0x2028 || v == 0x2029
            || v == 0x202F || v == 0x205F || v == 0x3000,
        CharClass::NameChar => (0x61 <= v && v <= 0x7A) || (0x41 <= v && v <= 0x5A) || v == 0x5F
            || (0x30 <= v && v <= 0x39),
        CharClass::Decimal => 0x30 <= v && v <= 0x39,
        CharClass::Hex => (0x30 <= v && v <= 0x39) || (0x61 <= v && v <= 0x66) || (0x41 <= v
            && v <= 0x46),
        CharClass::Octal => 0x30 <= v && v <= 0x37,
    }
}

/// Whether `c` can begin a name.
pub fn char_is_name_start(c: char) -> (r: bool)
    ensures
        r == is_name_start(c),
{
    let v = c as u32;
    (0x61 <= v && v <= 0x7A) || (0x41 <= v && v <= 0x5A) || v == 0x5F
}

/// Where the run of class-`k` characters that starts at `p` ends.
pub open spec fn run_end(s: Seq<char>, p: int, k: CharClass) -> int
    decreases s.len() - p,
{
    if 0 <= p < s.len() && in_class(s[p], k) {
        run_end(s, p + 1, k)
    } else {
        p
    }
}

/// Where the white space that starts at `p` ends.
pub open spec fn skip_space(s: Seq<char>, p: int) -> int {
    run_end(s, p, CharClass::Space)
}

/// A run ends at or after its start, and within the text.
pub proof fn lemma_run_end_bounds(s: Seq<char>, p: int, k: CharClass)
    requires
        0 <= p <= s.len(),
    ensures
        p <= run_end(s, p, k) <= s.len(),
    decreases s.len() - p,
{
    if p < s.len() && in_class(s[p], k) {
        lemma_run_end_bounds(s, p + 1, k);
    }
}

/// Where the run of class-`k` characters that starts at `p` ends.
pub fn run(s: &[char], p: usize, k: CharClass) -> (r: usize)
    requires
        p <= s@.len(),
    ensures
        r as int == run_end(s@, p as int, k),
        p <= r <= s@.len(),
{
    let mut q = p;
    while q < s.len() && char_in_class(s[q], k)
        invariant
            p <= q <= s@.len(),
            run_end(s@, q as int, k) == run_end(s@, p as int, k),
        decreases s@.len() - q,
    {
        q = q + 1;
    }
    q
}

/// Where the white space that starts at `p` ends.
pub fn spaces(s: &[char], p: usize) -> (r: usize)
    requires
        p <= s@.len(),
    ensures
        r as int == skip_space(s@, p as int),
        p <= r <= s@.len(),
{
    run(s, p, CharClass::Space)
}

/// The end of the name that begins at `p`, if one does.
pub open spec fn name_at(s: Seq<char>, p: int) -> Option<int> {
    if 0 <= p < s.len() && is_name_start(s[p]) {
        Some(run_end(s, p + 1, CharClass::NameChar))
    } else {
        None
    }
}

/// The end of the name that begins at `p`, if one does.
pub fn name(s: &[char], p: usize) -> (r: Option<usize>)
    requires
        p <= s@.len(),
    ensures
        r matches Some(e) ==> name_at(s@, p as int) == Some(e as int) && p < e <= s@.len(),
        r is None ==> name_at(s@, p as int) is None,
{
    if p < s.len() && char_is_name_start(s[p]) {
        Some(run(s, p + 1, CharClass::NameChar))
    } else {
        None
    }
}

/// The value of a digit: `0`-`9`, then `a`-`f` and `A`-`F` for 10 to 15.
pub open spec fn digit_value(c: char) -> int {
    let v = c as u32;
    if 0x30 <= v <= 0x39 {
        v - 0x30
    } else if 0x61 <= v <= 0x66 {
        v - 0x61 + 10
    } else if 0x41 <= v <= 0x46 {
        v - 0x41 + 10
    } else {
        0
    }
}

/// The value of the digits `d` in base `radix`, most significant first.
pub open spec fn radix_value(d: Seq<char>, radix: int) -> int
    decreases d.len(),
{
    if d.len() == 0 {
        0
    } else {
        radix_value(d.drop_last(), radix) * radix + digit_value(d.last())
    }
}

/// Digits in a nonnegative base have a nonnegative value.
pub proof fn lemma_radix_value_nonneg(d: Seq<char>, radix: int)
    requires
        radix >= 0,
    ensures
        radix_value(d, radix) >= 0,
    decreases d.len(),
{
    if d.len() > 0 {
        lemma_radix_value_nonneg(d.drop_last(), radix);
        assert(radix_value(d.drop_last(), radix) * radix >= 0) by (nonlinear_arith)
            requires
                radix_value(d.drop_last(), radix) >= 0,
                radix >= 0,
        ;
    }
}

/// The value of a digit.
pub(crate) fn digit_of(c: char) -> (r: u64)
    ensures
        r == digit_value(c),
        r < 16,
{
    let v = c as u32;
    if 0x30 <= v && v <= 0x39 {
        (v - 0x30) as u64
    } else if 0x61 <= v && v <= 0x66 {
        (v - 0x61 + 10) as u64
    } else if 0x41 <= v && v <= 0x46 {
        (v - 0x41 + 10) as u64
    } else {
        0
    }
}

/// The value of the digits from `a` to `e` in base `radix`.
pub fn radix_integer(s: &[char], a: usize, e: usize, radix: u64) -> (r: Integer)
    requires
        a <= e <= s@.len(),
    ensures
        r@ == radix_value(s@.subrange(a as int, e as int), radix as int),
        r.wf(),
{
    let base = Integer::from_u64(radix);
    let mut acc = Integer::from_u64(0);
    let mut i = a;
    proof {
        assert(s@.subrange(a as int, a as int).len() == 0);
    }
    while i < e
        invariant
            a <= i <= e <= s@.len(),
            base@ == radix,
            acc@ == radix_value(s@.subrange(a as int, i as int), radix as int),
            acc.wf(),
        decreases e - i,
    {
        let d = Integer::from_u64(digit_of(s[i]));
        let m = acc.multiply(&base);
        acc = m.add(&d);
        proof {
            let t = s@.subrange(a as int, i + 1);
            assert(t.drop_last() =~= s@.subrange(a as int, i as int));
            assert(t.last() == s@[i as int]);
        }
        i = i + 1;
    }
    acc
}

/// A decimal numeral at `p`: its value and end. It fails where no digit
/// stands, and after a leading `0` that more digits follow.
pub open spec fn numeral(s: Seq<char>, p: int) -> Result<(int, int), int> {
    let e = run_end(s, p, CharClass::Decimal);
    if e == p {
        Err(p)
    } else if s[p] == '0' && e > p + 1 {
        Err(p + 1)
    } else {
        Ok((radix_value(s.subrange(p, e), 10), e))
    }
}

/// A decimal numeral at `p`: its value and end.
pub fn read_numeral(s: &[char], p: usize) -> (r: Result<(Integer, usize), usize>)
    requires
        p <= s@.len(),
    ensures
        match r {
            Ok((v, e)) => numeral(s@, p as int) == Ok::<(int, int), int>((v@, e as int)) && v.wf()
                && p < e <= s@.len() && v@ >= 0,
            Err(q) => numeral(s@, p as int) == Err::<(int, int), int>(q as int),
        },
{
    let e = run(s, p, CharClass::Decimal);
    if e == p {
        Err(p)
    } else if s[p] == '0' && e > p + 1 {
        Err(p + 1)
    } else {
        proof {
            lemma_radix_value_nonneg(s@.subrange(p as int, e as int), 10);
        }
        Ok((radix_integer(s, p, e, 10), e))
    }
}

/// Whether the characters from `a` to `e` spell `w`.
pub fn spells(s: &[char], a: usize, e: usize, w: &str) -> (r: bool)
    requires
        a <= e <= s@.len(),
    ensures
        r == (s@.subrange(a as int, e as int) == w@),
{
    let n = w.unicode_len();
    if e - a != n {
        return false;
    }
    let mut i: usize = 0;
    while i < n
        invariant
            e - a == n == w@.len(),
            a <= e <= s@.len(),
            i <= n,
            forall|j: int| 0 <= j < i ==> s@[a + j] == w@[j],
        decreases n - i,
    {
        if s[a + i] != w.get_char(i) {
            proof {
                assert(s@.subrange(a as int, e as int)[i as int] != w@[i as int]);
            }
            return false;
        }
        i = i + 1;
    }
    proof {
        assert(s@.subrange(a as int, e as int) =~= w@);
    }
    true
}

/// The characters of `text`.
pub fn chars_of(text: &str) -> (r: Vec<char>)
    ensures
        r@ == text@,
{
    let mut v: Vec<char> = Vec::new();
    broadcast use vstd::string::axiom_spec_iter;
    for c in it: text.chars()
        invariant
            v@ == it.seq().take(it.index() as int),
    {
        v.push(c);
    }
    v
}

} // verus!
