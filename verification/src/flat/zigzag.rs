//! The zigzag map between integers and natural numbers: `0, -1, 1, -2, 2, ...`
//! go to `0, 1, 2, 3, 4, ...`.

use vstd::prelude::*;

use crate::integer::Integer;

verus! {

/// Zigzag of `x`: twice `x` for `x >= 0`, else `-2x - 1`.
pub open spec fn zigzag_spec(x: int) -> nat {
    if x >= 0 {
        (2 * x) as nat
    } else {
        (-2 * x - 1) as nat
    }
}

/// The inverse of zigzag: half of an even number, minus one less half of an
/// odd one.
pub open spec fn unzigzag_spec(n: nat) -> int {
    if n % 2 == 0 {
        (n / 2) as int
    } else {
        -((n / 2) as int) - 1
    }
}

/// Unzigzag undoes zigzag.
pub proof fn lemma_unzigzag_zigzag(x: int)
    ensures
        unzigzag_spec(zigzag_spec(x)) == x,
{
}

/// Zigzag undoes unzigzag.
pub proof fn lemma_zigzag_unzigzag(n: nat)
    ensures
        zigzag_spec(unzigzag_spec(n)) == n,
{
}

impl Integer {
    /// The zigzag of `self`.
    pub fn zigzag(&self) -> (r: Integer)
        ensures
            r@ == zigzag_spec(self@),
            r.wf(),
    {
        let zero = Integer::from_i128(0);
        let one = Integer::from_i128(1);
        let double = self.shift_left(1);
        proof {
            vstd::arithmetic::power2::lemma2_to64();
        }
        if zero.less_than_equals(self) {
            double
        } else {
            zero.subtract(&double).subtract(&one)
        }
    }

    /// The integer whose zigzag is `zag`.
    pub fn unzigzag(zag: &Integer) -> (r: Integer)
        requires
            zag@ >= 0,
            zag.wf(),
        ensures
            r@ == unzigzag_spec(zag@ as nat),
            r.wf(),
    {
        let zero = Integer::from_i128(0);
        let one = Integer::from_i128(1);
        let half = zag.shift_right(1);
        proof {
            vstd::arithmetic::power2::lemma2_to64();
            assert(crate::integer::floor_div(zag@, 2) == zag@ / 2);
        }
        let twice = half.shift_left(1);
        let low = zag.subtract(&twice);
        if low.is_zero() {
            half
        } else {
            zero.subtract(&half).subtract(&one)
        }
    }
}

} // verus!
