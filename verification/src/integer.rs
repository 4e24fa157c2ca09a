//! Arbitrary-precision integers.
//!
//! An [`Integer`] holds a sign and a magnitude in base 2^32 digits, least
//! significant first, with no trailing zero digit. The arithmetic itself is
//! done by `num-bigint`.

use num_bigint::{BigInt, Sign};
use num_integer::Integer as NumInteger;
use vstd::arithmetic::power::pow;
use vstd::prelude::*;

verus! {

/// 2^32, the base of the digits.
pub open spec fn base() -> nat {
    4294967296
}

/// `base()` raised to `k`.
pub open spec fn base_pow(k: nat) -> nat
    decreases k,
{
    if k == 0 {
        1
    } else {
        base() * base_pow((k - 1) as nat)
    }
}

/// The value of little-endian base 2^32 digits.
pub open spec fn digits_value(d: Seq<u32>) -> nat
    decreases d.len(),
{
    if d.len() == 0 {
        0
    } else {
        d[0] as nat + base() * digits_value(d.drop_first())
    }
}

/// Floor division: the quotient rounded toward negative infinity.
pub open spec fn floor_div(a: int, b: int) -> int {
    if b > 0 {
        a / b
    } else {
        (-a) / (-b)
    }
}

/// The remainder of floor division; it has the sign of `b`.
pub open spec fn floor_mod(a: int, b: int) -> int {
    a - b * floor_div(a, b)
}

/// The absolute value.
pub open spec fn abs(a: int) -> int {
    if a >= 0 {
        a
    } else {
        -a
    }
}

/// Truncated division: the quotient rounded toward zero.
pub open spec fn trunc_div(a: int, b: int) -> int {
    if (a >= 0) == (b >= 0) {
        abs(a) / abs(b)
    } else {
        -(abs(a) / abs(b))
    }
}

/// The remainder of truncated division; it has the sign of `a`.
pub open spec fn trunc_rem(a: int, b: int) -> int {
    a - b * trunc_div(a, b)
}

/// An arbitrary-precision integer.
#[derive(Debug, Clone, PartialEq, Eq)]
pub struct Integer {
    /// Whether the integer is below zero.
    pub negative: bool,
    /// The magnitude, base 2^32, least significant digit first.
    pub digits: Vec<u32>,
}

impl View for Integer {
    type V = int;

    open spec fn view(&self) -> int {
        if self.negative {
            -digits_value(self.digits@)
        } else {
            digits_value(self.digits@) as int
        }
    }
}

/// The magnitude of `x` in base 2^32 digits.
pub closed spec fn digits_of(x: nat) -> Seq<u32>
    decreases x,
{
    if x == 0 {
        Seq::empty()
    } else {
        seq![(x % base()) as u32] + digits_of(x / base())
    }
}

proof fn lemma_digits_of(x: nat)
    ensures
        digits_value(digits_of(x)) == x,
        digits_of(x).len() == 0 || digits_of(x).last() != 0,
    decreases x,
{
    if x > 0 {
        lemma_digits_of(x / base());
        let d = digits_of(x);
        assert(d.drop_first() =~= digits_of(x / base()));
    }
}

proof fn lemma_digits_push(d: Seq<u32>, x: u32)
    ensures
        digits_value(d.push(x)) == digits_value(d) + x * base_pow(d.len()),
    decreases d.len(),
{
    if d.len() == 0 {
        assert(d.push(x).drop_first() =~= Seq::<u32>::empty());
        assert(digits_value(Seq::<u32>::empty()) == 0);
        assert(digits_value(d) == 0);
        assert(base_pow(0) == 1);
    } else {
        lemma_digits_push(d.drop_first(), x);
        assert(d.push(x).drop_first() =~= d.drop_first().push(x));
        assert(d.push(x)[0] == d[0]);
        assert(base_pow(d.len()) == base() * base_pow(d.drop_first().len()));
        assert(base() * (digits_value(d.drop_first()) + x * base_pow(d.drop_first().len()))
            == base() * digits_value(d.drop_first()) + x * (base() * base_pow(
            d.drop_first().len(),
        ))) by (nonlinear_arith);
    }
}

impl Integer {
    /// Whether the representation is canonical: no trailing zero digit, and
    /// zero is never negative.
    pub open spec fn wf(&self) -> bool {
        &&& (self.digits@.len() == 0 || self.digits@.last() != 0)
        &&& (self.negative ==> self.digits@.len() > 0)
    }

    /// The integer `v`.
    pub fn from_i128(v: i128) -> (r: Integer)
        ensures
            r@ == v,
            r.wf(),
    {
        let negative = v < 0;
        let mut m: u128 = if negative {
            if v == i128::MIN {
                0x8000_0000_0000_0000_0000_0000_0000_0000u128
            } else {
                (-v) as u128
            }
        } else {
            v as u128
        };
        let ghost mag: nat = if negative {
            (-v) as nat
        } else {
            v as nat
        };
        let mut digits: Vec<u32> = Vec::new();
        assert(digits_value(digits@) == 0);
        assert(base_pow(0) == 1);
        while m > 0
            invariant
                digits_value(digits@) + m * base_pow(digits@.len()) == mag,
                m == 0 ==> (digits@.len() == 0 || digits@.last() != 0),
            decreases m,
        {
            let d = (m % 4294967296) as u32;
            proof {
                lemma_digits_push(digits@, d);
                assert(m == (m / 4294967296) * 4294967296 + d);
                assert(m * base_pow(digits@.len()) == (m / 4294967296) * base_pow(digits@.len() + 1)
                    + d * base_pow(digits@.len())) by (nonlinear_arith)
                    requires
                        m == (m / 4294967296) * 4294967296 + d,
                        base_pow(digits@.len() + 1) == 4294967296 * base_pow(digits@.len()),
                ;
            }
            let ghost old_m = m;
            digits.push(d);
            m = m / 4294967296;
            if m == 0 {
                assert(d == old_m);
            }
        }
        Integer { negative: negative && digits.len() > 0, digits }
    }
}

/// `num_bigint::BigInt` addition: the exact sum.
#[verifier::external_body]
fn big_add(a: &Integer, b: &Integer) -> (r: Integer)
    ensures
        r@ == a@ + b@,
        r.wf(),
{
    let x = BigInt::from_slice(if a.negative { Sign::Minus } else { Sign::Plus }, &a.digits);
    let y = BigInt::from_slice(if b.negative { Sign::Minus } else { Sign::Plus }, &b.digits);
    let (sign, digits) = (x + y).to_u32_digits();
    Integer { negative: sign == Sign::Minus, digits }
}

/// `num_bigint::BigInt` subtraction: the exact difference.
#[verifier::external_body]
fn big_sub(a: &Integer, b: &Integer) -> (r: Integer)
    ensures
        r@ == a@ - b@,
        r.wf(),
{
    let x = BigInt::from_slice(if a.negative { Sign::Minus } else { Sign::Plus }, &a.digits);
    let y = BigInt::from_slice(if b.negative { Sign::Minus } else { Sign::Plus }, &b.digits);
    let (sign, digits) = (x - y).to_u32_digits();
    Integer { negative: sign == Sign::Minus, digits }
}

/// `num_bigint::BigInt` multiplication: the exact product.
#[verifier::external_body]
fn big_mul(a: &Integer, b: &Integer) -> (r: Integer)
    ensures
        r@ == a@ * b@,
        r.wf(),
{
    let x = BigInt::from_slice(if a.negative { Sign::Minus } else { Sign::Plus }, &a.digits);
    let y = BigInt::from_slice(if b.negative { Sign::Minus } else { Sign::Plus }, &b.digits);
    let (sign, digits) = (x * y).to_u32_digits();
    Integer { negative: sign == Sign::Minus, digits }
}

/// `num_integer::Integer::div_floor` on `BigInt`: the quotient rounded toward negative infinity; it panics on a zero divisor.
#[verifier::external_body]
fn big_div_floor(a: &Integer, b: &Integer) -> (r: Integer)
    requires
        b@ != 0,
    ensures
        r@ == floor_div(a@, b@),
        r.wf(),
{
    let x = BigInt::from_slice(if a.negative { Sign::Minus } else { Sign::Plus }, &a.digits);
    let y = BigInt::from_slice(if b.negative { Sign::Minus } else { Sign::Plus }, &b.digits);
    let (sign, digits) = x.div_floor(&y).to_u32_digits();
    Integer { negative: sign == Sign::Minus, digits }
}

/// `num_integer::Integer::mod_floor` on `BigInt`: the remainder of floor division, with the sign of the divisor; it panics on a zero divisor.
#[verifier::external_body]
fn big_mod_floor(a: &Integer, b: &Integer) -> (r: Integer)
    requires
        b@ != 0,
    ensures
        r@ == floor_mod(a@, b@),
        r.wf(),
{
    let x = BigInt::from_slice(if a.negative { Sign::Minus } else { Sign::Plus }, &a.digits);
    let y = BigInt::from_slice(if b.negative { Sign::Minus } else { Sign::Plus }, &b.digits);
    let (sign, digits) = x.mod_floor(&y).to_u32_digits();
    Integer { negative: sign == Sign::Minus, digits }
}

/// `BigInt` `/`: the quotient rounded toward zero; it panics on a zero divisor.
#[verifier::external_body]
fn big_quot(a: &Integer, b: &Integer) -> (r: Integer)
    requires
        b@ != 0,
    ensures
        r@ == trunc_div(a@, b@),
        r.wf(),
{
    let x = BigInt::from_slice(if a.negative { Sign::Minus } else { Sign::Plus }, &a.digits);
    let y = BigInt::from_slice(if b.negative { Sign::Minus } else { Sign::Plus }, &b.digits);
    let (sign, digits) = (x / y).to_u32_digits();
    Integer { negative: sign == Sign::Minus, digits }
}

/// `BigInt` `%`: the remainder of truncated division, with the sign of the dividend; it panics on a zero divisor.
#[verifier::external_body]
fn big_rem(a: &Integer, b: &Integer) -> (r: Integer)
    requires
        b@ != 0,
    ensures
        r@ == trunc_rem(a@, b@),
        r.wf(),
{
    let x = BigInt::from_slice(if a.negative { Sign::Minus } else { Sign::Plus }, &a.digits);
    let y = BigInt::from_slice(if b.negative { Sign::Minus } else { Sign::Plus }, &b.digits);
    let (sign, digits) = (x % y).to_u32_digits();
    Integer { negative: sign == Sign::Minus, digits }
}

/// `BigInt` `<`: whether `a` is below `b`.
#[verifier::external_body]
fn big_lt(a: &Integer, b: &Integer) -> (r: bool)
    ensures
        r == (a@ < b@),
{
    let x = BigInt::from_slice(if a.negative { Sign::Minus } else { Sign::Plus }, &a.digits);
    let y = BigInt::from_slice(if b.negative { Sign::Minus } else { Sign::Plus }, &b.digits);
    x < y
}

/// `BigInt` `<=`: whether `a` is at most `b`.
#[verifier::external_body]
fn big_le(a: &Integer, b: &Integer) -> (r: bool)
    ensures
        r == (a@ <= b@),
{
    let x = BigInt::from_slice(if a.negative { Sign::Minus } else { Sign::Plus }, &a.digits);
    let y = BigInt::from_slice(if b.negative { Sign::Minus } else { Sign::Plus }, &b.digits);
    x <= y
}

/// `BigInt` `==`: whether `a` and `b` are the same number.
#[verifier::external_body]
fn big_eq(a: &Integer, b: &Integer) -> (r: bool)
    ensures
        r == (a@ == b@),
{
    let x = BigInt::from_slice(if a.negative { Sign::Minus } else { Sign::Plus }, &a.digits);
    let y = BigInt::from_slice(if b.negative { Sign::Minus } else { Sign::Plus }, &b.digits);
    x == y
}

/// `BigInt` `>>`: `a` shifted right by `n` bits, rounding toward negative infinity.
#[verifier::external_body]
fn big_shr(a: &Integer, n: usize) -> (r: Integer)
    ensures
        r@ == floor_div(a@, vstd::arithmetic::power2::pow2(n as nat) as int),
        r.wf(),
{
    let x = BigInt::from_slice(if a.negative { Sign::Minus } else { Sign::Plus }, &a.digits);
    let (sign, digits) = (x >> n).to_u32_digits();
    Integer { negative: sign == Sign::Minus, digits }
}

/// `BigInt` `<<`: `a` shifted left by `n` bits, that is `a * 2^n`.
#[verifier::external_body]
fn big_shl(a: &Integer, n: usize) -> (r: Integer)
    ensures
        r@ == a@ * vstd::arithmetic::power2::pow2(n as nat),
        r.wf(),
{
    let x = BigInt::from_slice(if a.negative { Sign::Minus } else { Sign::Plus }, &a.digits);
    let (sign, digits) = (x << n).to_u32_digits();
    Integer { negative: sign == Sign::Minus, digits }
}

/// `num_bigint::BigInt::modpow`: `a` to the power `e`, reduced modulo `m`
/// the way `mod_floor` reduces; it panics on a negative exponent or a zero
/// modulus.
#[verifier::external_body]
fn big_modpow(a: &Integer, e: &Integer, m: &Integer) -> (r: Integer)
    requires
        e@ >= 0,
        m@ != 0,
    ensures
        r@ == floor_mod(pow(a@, e@ as nat), m@),
        r.wf(),
{
    let x = BigInt::from_slice(if a.negative { Sign::Minus } else { Sign::Plus }, &a.digits);
    let y = BigInt::from_slice(if e.negative { Sign::Minus } else { Sign::Plus }, &e.digits);
    let z = BigInt::from_slice(if m.negative { Sign::Minus } else { Sign::Plus }, &m.digits);
    let (sign, digits) = x.modpow(&y, &z).to_u32_digits();
    Integer { negative: sign == Sign::Minus, digits }
}

/// Whether `x` is an inverse of `b` modulo `m`: it lies in `0..m` and
/// `b * x` leaves the remainder that 1 leaves.
pub open spec fn is_inverse_mod(b: int, x: int, m: int) -> bool {
    0 <= x < m && (b * x) % m == 1int % m
}

/// The inverse of `b` modulo `m`, where there is one.
pub open spec fn inverse_mod(b: int, m: int) -> int {
    choose|x: int| is_inverse_mod(b, x, m)
}

/// `num_bigint::BigInt::modinv` for a modulus above 1: the inverse of `a`
/// modulo `m` in `0..m` when one exists, else `None`. (For a modulus of 1
/// it gives 1 on a negative `a`, outside `0..m`, so that case is not
/// admitted; it panics on a zero modulus.)
#[verifier::external_body]
fn big_modinv(a: &Integer, m: &Integer) -> (r: Option<Integer>)
    requires
        m@ > 1,
    ensures
        r is Some <==> exists|x: int| is_inverse_mod(a@, x, m@),
        r matches Some(x) ==> is_inverse_mod(a@, x@, m@) && x.wf(),
{
    let x = BigInt::from_slice(if a.negative { Sign::Minus } else { Sign::Plus }, &a.digits);
    let z = BigInt::from_slice(if m.negative { Sign::Minus } else { Sign::Plus }, &m.digits);
    match x.modinv(&z) {
        Some(v) => {
            let (sign, digits) = v.to_u32_digits();
            Some(Integer { negative: sign == Sign::Minus, digits })
        },
        None => None,
    }
}

/// A number has at most one inverse modulo `m` in `0..m`.
pub proof fn lemma_inverse_mod_unique(b: int, x: int, y: int, m: int)
    requires
        m > 1,
        is_inverse_mod(b, x, m),
        is_inverse_mod(b, y, m),
    ensures
        x == y,
{
    vstd::arithmetic::div_mod::lemma_small_mod(1, m as nat);
    vstd::arithmetic::div_mod::lemma_small_mod(x as nat, m as nat);
    vstd::arithmetic::div_mod::lemma_small_mod(y as nat, m as nat);
    // x = x * (b * y) = (b * x) * y = y, modulo m
    vstd::arithmetic::div_mod::lemma_mul_mod_noop_right(x, b * y, m);
    vstd::arithmetic::div_mod::lemma_mul_mod_noop_left(b * x, y, m);
    vstd::arithmetic::mul::lemma_mul_is_associative(x, b, y);
    vstd::arithmetic::mul::lemma_mul_is_commutative(x, b);
    assert(x * ((b * y) % m) % m == x);
    assert(((b * x) % m) * y % m == y);
}

/// `expModInteger`: `b` to the power `e` modulo `m`, where a negative
/// power raises the inverse of `b`; nothing for a modulus below 1, or for
/// a negative power of a number with no inverse.
pub open spec fn exp_mod(b: int, e: int, m: int) -> Option<int> {
    if m <= 0 {
        None
    } else if m == 1 {
        Some(0)
    } else if e >= 0 {
        Some(pow(b, e as nat) % m)
    } else if exists|x: int| is_inverse_mod(b, x, m) {
        Some(pow(inverse_mod(b, m), (-e) as nat) % m)
    } else {
        None
    }
}

impl Integer {
    /// The sum `self + other`.
    pub fn add(&self, other: &Integer) -> (r: Integer)
        ensures
            r@ == self@ + other@,
            r.wf(),
    {
        big_add(self, other)
    }

    /// The difference `self - other`.
    pub fn subtract(&self, other: &Integer) -> (r: Integer)
        ensures
            r@ == self@ - other@,
            r.wf(),
    {
        big_sub(self, other)
    }

    /// The product `self * other`.
    pub fn multiply(&self, other: &Integer) -> (r: Integer)
        ensures
            r@ == self@ * other@,
            r.wf(),
    {
        big_mul(self, other)
    }

    /// `self / other` rounded toward negative infinity; `None` when `other` is zero.
    pub fn divide(&self, other: &Integer) -> (r: Option<Integer>)
        ensures
            r is None <==> other@ == 0,
            r matches Some(q) ==> q@ == floor_div(self@, other@) && q.wf(),
    {
        if other.normalize().is_zero() {
            None
        } else {
            Some(big_div_floor(self, other))
        }
    }

    /// `self mod other` (sign of `other`); `None` when `other` is zero.
    pub fn modulo(&self, other: &Integer) -> (r: Option<Integer>)
        ensures
            r is None <==> other@ == 0,
            r matches Some(m) ==> m@ == floor_mod(self@, other@) && m.wf(),
    {
        if other.normalize().is_zero() {
            None
        } else {
            Some(big_mod_floor(self, other))
        }
    }

    /// `self / other` rounded toward zero; `None` when `other` is zero.
    pub fn quotient(&self, other: &Integer) -> (r: Option<Integer>)
        ensures
            r is None <==> other@ == 0,
            r matches Some(q) ==> q@ == trunc_div(self@, other@) && q.wf(),
    {
        if other.normalize().is_zero() {
            None
        } else {
            Some(big_quot(self, other))
        }
    }

    /// The remainder of `self / other` rounded toward zero (sign of `self`);
    /// `None` when `other` is zero.
    pub fn remainder(&self, other: &Integer) -> (r: Option<Integer>)
        ensures
            r is None <==> other@ == 0,
            r matches Some(m) ==> m@ == trunc_rem(self@, other@) && m.wf(),
    {
        if other.normalize().is_zero() {
            None
        } else {
            Some(big_rem(self, other))
        }
    }

    /// Whether `self < other`.
    pub fn less_than(&self, other: &Integer) -> (r: bool)
        ensures
            r == (self@ < other@),
    {
        big_lt(self, other)
    }

    /// Whether `self <= other`.
    pub fn less_than_equals(&self, other: &Integer) -> (r: bool)
        ensures
            r == (self@ <= other@),
    {
        big_le(self, other)
    }

    /// Whether `self == other` as numbers.
    pub fn equals(&self, other: &Integer) -> (r: bool)
        ensures
            r == (self@ == other@),
    {
        big_eq(self, other)
    }

    /// `self` to the power `e` modulo `m` (see [`exp_mod`]).
    pub fn exp_mod(&self, e: &Integer, m: &Integer) -> (r: Option<Integer>)
        requires
            e.wf(),
            m.wf(),
        ensures
            r is Some <==> exp_mod(self@, e@, m@) is Some,
            r matches Some(v) ==> exp_mod(self@, e@, m@) == Some(v@) && v.wf(),
    {
        let zero = Integer::from_u64(0);
        let one = Integer::from_u64(1);
        if m.less_than_equals(&zero) {
            return None;
        }
        if m.equals(&one) {
            return Some(zero);
        }
        if zero.less_than_equals(e) {
            let v = big_modpow(self, e, m);
            proof {
                vstd::arithmetic::div_mod::lemma_fundamental_div_mod(pow(self@, e@ as nat), m@);
            }
            return Some(v);
        }
        match big_modinv(self, m) {
            None => None,
            Some(x) => {
                let n = zero.subtract(e);
                let v = big_modpow(&x, &n, m);
                proof {
                    let y = inverse_mod(self@, m@);
                    assert(is_inverse_mod(self@, y, m@));
                    lemma_inverse_mod_unique(self@, x@, y, m@);
                    vstd::arithmetic::div_mod::lemma_fundamental_div_mod(pow(x@, n@ as nat), m@);
                }
                Some(v)
            },
        }
    }

    /// `self` shifted right by `n` bits (rounding toward negative infinity).
    pub fn shift_right(&self, n: usize) -> (r: Integer)
        ensures
            r@ == floor_div(self@, vstd::arithmetic::power2::pow2(n as nat) as int),
            r.wf(),
    {
        big_shr(self, n)
    }

    /// `self * 2^n`.
    pub fn shift_left(&self, n: usize) -> (r: Integer)
        ensures
            r@ == self@ * vstd::arithmetic::power2::pow2(n as nat),
            r.wf(),
    {
        big_shl(self, n)
    }

    /// Whether the number is zero.
    pub fn is_zero(&self) -> (r: bool)
        requires
            self.wf(),
        ensures
            r == (self@ == 0),
    {
        proof {
            lemma_canonical_nonzero(self.digits@);
        }
        self.digits.len() == 0
    }
}

/// A canonical digit sequence is empty exactly when its value is zero.
proof fn lemma_canonical_nonzero(d: Seq<u32>)
    requires
        d.len() == 0 || d.last() != 0,
    ensures
        (digits_value(d) == 0) <==> (d.len() == 0),
    decreases d.len(),
{
    if d.len() > 0 {
        if d.len() == 1 {
            assert(d.drop_first() =~= Seq::<u32>::empty());
            assert(digits_value(d.drop_first()) == 0);
        } else {
            assert(d.drop_first().last() == d.last());
            lemma_canonical_nonzero(d.drop_first());
            assert(base() * digits_value(d.drop_first()) > 0) by (nonlinear_arith)
                requires
                    digits_value(d.drop_first()) > 0,
            ;
        }
    }
}

/// A canonical digit sequence of length `k > 0` has value at least
/// `base()^(k-1)`.
proof fn lemma_digits_lower_bound(d: Seq<u32>)
    requires
        d.len() > 0,
        d.last() != 0,
    ensures
        digits_value(d) >= base_pow((d.len() - 1) as nat),
    decreases d.len(),
{
    if d.len() == 1 {
        assert(d.drop_first() =~= Seq::<u32>::empty());
        assert(digits_value(d.drop_first()) == 0);
    } else {
        assert(d.drop_first().last() == d.last());
        lemma_digits_lower_bound(d.drop_first());
        let k = (d.len() - 2) as nat;
        assert(base_pow((k + 1) as nat) == base() * base_pow(k));
        assert(base() * digits_value(d.drop_first()) >= base() * base_pow(k)) by (nonlinear_arith)
            requires
                digits_value(d.drop_first()) >= base_pow(k),
        ;
    }
}

impl Integer {
    /// The integer `v`.
    pub fn from_u64(v: u64) -> (r: Integer)
        ensures
            r@ == v,
            r.wf(),
    {
        Integer::from_i128(v as i128)
    }

    /// The value as a `u64`, when it lies in `0..=u64::MAX`.
    pub fn to_u64(&self) -> (r: Option<u64>)
        requires
            self.wf(),
        ensures
            r is Some <==> 0 <= self@ <= u64::MAX,
            r matches Some(v) ==> v == self@,
    {
        let d = &self.digits;
        proof {
            lemma_canonical_nonzero(d@);
        }
        if self.negative {
            proof {
                assert(digits_value(d@) > 0);
            }
            return None;
        }
        if d.len() == 0 {
            return Some(0);
        }
        if d.len() == 1 {
            proof {
                assert(d@.drop_first() =~= Seq::<u32>::empty());
                assert(digits_value(d@.drop_first()) == 0);
            }
            return Some(d[0] as u64);
        }
        if d.len() == 2 {
            proof {
                assert(d@.drop_first().drop_first() =~= Seq::<u32>::empty());
                assert(digits_value(d@.drop_first().drop_first()) == 0);
                assert(digits_value(d@.drop_first()) == d@[1] as nat);
                assert(d[0] as nat + 4294967296 * (d[1] as nat) <= u64::MAX) by (nonlinear_arith)
                    requires
                        d[0] < 4294967296,
                        d[1] < 4294967296,
                ;
            }
            return Some(d[0] as u64 + 4294967296u64 * (d[1] as u64));
        }
        proof {
            lemma_digits_lower_bound(d@);
            let k = (d@.len() - 1) as nat;
            assert(base_pow(0) == 1);
            assert(base_pow(1) == base() * base_pow(0));
            assert(base_pow(2) == base() * base_pow(1));
            lemma_base_pow_mono(2, k);
            assert(base() * base() > u64::MAX);
        }
        None
    }

    /// The value as a `usize`, when it lies in `0..=usize::MAX`.
    pub fn to_usize(&self) -> (r: Option<usize>)
        requires
            self.wf(),
        ensures
            r is Some <==> 0 <= self@ <= usize::MAX,
            r matches Some(v) ==> v == self@,
    {
        match self.to_u64() {
            Some(v) => {
                if v <= usize::MAX as u64 {
                    Some(v as usize)
                } else {
                    None
                }
            },
            None => None,
        }
    }
}

/// `base_pow` grows with its exponent.
proof fn lemma_base_pow_mono(a: nat, b: nat)
    requires
        a <= b,
    ensures
        base_pow(a) <= base_pow(b),
    decreases b,
{
    if a < b {
        lemma_base_pow_mono(a, (b - 1) as nat);
        lemma_base_pow_pos((b - 1) as nat);
        assert(base_pow(b) == base() * base_pow((b - 1) as nat));
        assert(base() * base_pow((b - 1) as nat) >= base_pow((b - 1) as nat)) by (nonlinear_arith)
            requires
                base_pow((b - 1) as nat) >= 1,
        ;
    }
}

/// `base_pow` is positive.
proof fn lemma_base_pow_pos(a: nat)
    ensures
        base_pow(a) >= 1,
    decreases a,
{
    if a > 0 {
        lemma_base_pow_pos((a - 1) as nat);
        assert(base() * base_pow((a - 1) as nat) >= 1) by (nonlinear_arith)
            requires
                base_pow((a - 1) as nat) >= 1,
        ;
    }
}

/// The number of binary digits of `n`: 0 for 0.
pub open spec fn bit_length(n: nat) -> nat
    decreases n,
{
    if n == 0 {
        0
    } else {
        1 + bit_length(n / 2)
    }
}

/// `num_bigint::BigInt::bits`: the fewest bits that express the magnitude
/// of `a`, not counting the sign.
#[verifier::external_body]
fn big_bits(a: &Integer) -> (r: u64)
    ensures
        r == bit_length(abs(a@) as nat),
{
    let x = BigInt::from_slice(if a.negative { Sign::Minus } else { Sign::Plus }, &a.digits);
    x.bits()
}

impl Integer {
    /// The number of binary digits of the magnitude.
    pub fn bits(&self) -> (r: u64)
        ensures
            r == bit_length(abs(self@) as nat),
    {
        big_bits(self)
    }
}

impl Integer {
    /// The same number in canonical form: trailing zero digits dropped, and
    /// zero not negative.
    pub fn normalize(&self) -> (r: Integer)
        ensures
            r@ == self@,
            r.wf(),
    {
        let mut n = self.digits.len();
        proof {
            assert(self.digits@.subrange(0, n as int) =~= self.digits@);
        }
        while n > 0 && self.digits[n - 1] == 0
            invariant
                n <= self.digits@.len(),
                digits_value(self.digits@.subrange(0, n as int)) == digits_value(self.digits@),
            decreases n,
        {
            proof {
                let d = self.digits@.subrange(0, (n - 1) as int);
                assert(self.digits@.subrange(0, n as int) =~= d.push(0u32));
                lemma_digits_push(d, 0u32);
            }
            n -= 1;
        }
        let mut digits: Vec<u32> = Vec::new();
        let mut k: usize = 0;
        while k < n
            invariant
                k <= n <= self.digits@.len(),
                digits@ == self.digits@.subrange(0, k as int),
            decreases n - k,
        {
            digits.push(self.digits[k]);
            k += 1;
            assert(digits@ =~= self.digits@.subrange(0, k as int));
        }
        proof {
            assert(self.digits@ =~= self.digits@.subrange(0, self.digits@.len() as int));
            if n == 0 {
                assert(digits@ =~= Seq::<u32>::empty());
            }
        }
        Integer { negative: self.negative && n > 0, digits }
    }
}

/// The value of 64-bit digits, least significant first.
pub open spec fn digits64_value(s: Seq<u64>) -> nat
    decreases s.len(),
{
    if s.len() == 0 {
        0
    } else {
        s[0] as nat + 0x1_0000_0000_0000_0000 * digits64_value(s.drop_first())
    }
}

/// The shortest big-endian bytes of `n`; a single zero byte for zero.
pub open spec fn min_be_bytes(n: nat) -> Seq<u8>
    decreases n,
{
    if n < 256 {
        seq![n as u8]
    } else {
        min_be_bytes(n / 256).push((n % 256) as u8)
    }
}

/// `num_bigint::BigInt::to_u64_digits`: the magnitude of `a` in 64-bit
/// digits, least significant first, without a high zero digit (no digit at
/// all for zero).
#[verifier::external_body]
fn big_u64_digits(a: &Integer) -> (r: Vec<u64>)
    ensures
        digits64_value(r@) == abs(a@),
        r@.len() == 0 || r@.last() != 0,
{
    let x = BigInt::from_slice(if a.negative { Sign::Minus } else { Sign::Plus }, &a.digits);
    x.to_u64_digits().1
}

/// `num_bigint::BigInt::to_bytes_be`: the magnitude of `a` as big-endian
/// bytes, the shortest such, a single zero byte for zero.
#[verifier::external_body]
fn big_bytes_be(a: &Integer) -> (r: Vec<u8>)
    ensures
        r@ == min_be_bytes(abs(a@) as nat),
{
    let x = BigInt::from_slice(if a.negative { Sign::Minus } else { Sign::Plus }, &a.digits);
    x.to_bytes_be().1
}

/// Canonical 64-bit digits: none for zero, one for a magnitude below 2^64,
/// more for larger ones.
pub proof fn lemma_digits64_canonical(s: Seq<u64>)
    requires
        s.len() == 0 || s.last() != 0,
    ensures
        s.len() == 0 <==> digits64_value(s) == 0,
        s.len() == 1 ==> digits64_value(s) == s[0],
        s.len() >= 2 ==> digits64_value(s) > u64::MAX,
    decreases s.len(),
{
    if s.len() == 1 {
        assert(s.drop_first() =~= Seq::<u64>::empty());
        assert(digits64_value(s.drop_first()) == 0);
        assert(s[0] == s.last());
    } else if s.len() >= 2 {
        lemma_digits64_canonical(s.drop_first());
        assert(s.drop_first().last() == s.last());
        let v = digits64_value(s.drop_first());
        assert(0x1_0000_0000_0000_0000 * v >= 0x1_0000_0000_0000_0000) by (nonlinear_arith)
            requires
                v >= 1,
        ;
    }
}

impl Integer {
    /// The magnitude in 64-bit digits, least significant first, without a
    /// high zero digit.
    pub fn to_u64_digits(&self) -> (r: Vec<u64>)
        ensures
            digits64_value(r@) == abs(self@),
            r@.len() == 0 || r@.last() != 0,
    {
        big_u64_digits(self)
    }

    /// The magnitude as its shortest big-endian bytes; a single zero byte
    /// for zero.
    pub fn to_bytes_be(&self) -> (r: Vec<u8>)
        ensures
            r@ == min_be_bytes(abs(self@) as nat),
    {
        big_bytes_be(self)
    }
}

} // verus!
