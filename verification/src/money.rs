use vstd::arithmetic::power::pow;
use vstd::prelude::*;

verus! {

/// The base of the limb representation: each limb is a digit in base 2^32.
pub open spec fn limb_base() -> nat {
    0x1_0000_0000
}

/// The non-negative integer denoted by a little-endian sequence of base-2^32
/// limbs.
pub open spec fn limbs_value(s: Seq<u32>) -> nat
    decreases s.len(),
{
    if s.len() == 0 {
        0
    } else {
        (s[0] + limb_base() * limbs_value(s.skip(1))) as nat
    }
}

/// An unbounded non-negative integer: currency amounts, costs, levels and
/// rates. Stored as little-endian base-2^32 limbs; the arithmetic is done by
/// `num_bigint`, which uses the same representation.
pub struct Money {
    limbs: Vec<u32>,
}

impl Money {
    /// The integer this value denotes.
    pub closed spec fn val(&self) -> nat {
        limbs_value(self.limbs@)
    }

    /// The limb representation, so that representation-level (exact) equality
    /// can be stated.
    pub closed spec fn rep(&self) -> Seq<u32> {
        self.limbs@
    }

    /// Zero.
    pub fn zero() -> (r: Money)
        ensures
            r.val() == 0,
            r.rep() == Seq::<u32>::empty(),
    {
        let limbs: Vec<u32> = Vec::new();
        proof {
            assert(limbs@ =~= Seq::<u32>::empty());
        }
        Money { limbs }
    }

    /// The value of a single machine word.
    pub fn from_u32(n: u32) -> (r: Money)
        ensures
            r.val() == n,
    {
        let mut limbs: Vec<u32> = Vec::new();
        if n != 0 {
            limbs.push(n);
            proof {
                assert(limbs@.skip(1).len() == 0);
                assert(limbs_value(limbs@.skip(1)) == 0);
                assert(limbs_value(limbs@) == n);
            }
        }
        Money { limbs }
    }

    /// A value given by its little-endian base-2^32 limbs.
    pub fn from_limbs(limbs: Vec<u32>) -> (r: Money)
        ensures
            r.rep() == limbs@,
            r.val() == limbs_value(limbs@),
    {
        Money { limbs }
    }

    /// The little-endian base-2^32 limbs of this value.
    pub fn limbs(&self) -> (r: &Vec<u32>)
        ensures
            r@ == self.rep(),
            limbs_value(r@) == self.val(),
    {
        &self.limbs
    }

    /// Relies on `num_bigint::BigUint`: `BigUint::new` reads little-endian
    /// base-2^32 digits, `+` adds the two integers, and `to_u32_digits`
    /// writes the result back as little-endian base-2^32 digits.
    #[verifier::external_body]
    pub(crate) fn plus(&self, other: &Money) -> (r: Money)
        ensures
            r.val() == self.val() + other.val(),
    {
        let a = num_bigint::BigUint::new(self.limbs.clone());
        let b = num_bigint::BigUint::new(other.limbs.clone());
        Money { limbs: (a + b).to_u32_digits() }
    }

    /// Relies on `num_bigint::BigUint`: `-` subtracts the two integers; it
    /// panics when the subtrahend is larger, which the `requires` rules out.
    #[verifier::external_body]
    pub(crate) fn minus(&self, other: &Money) -> (r: Money)
        requires
            other.val() <= self.val(),
        ensures
            r.val() == self.val() - other.val(),
    {
        let a = num_bigint::BigUint::new(self.limbs.clone());
        let b = num_bigint::BigUint::new(other.limbs.clone());
        Money { limbs: (a - b).to_u32_digits() }
    }

    /// Relies on `num_bigint::BigUint`: `*` multiplies the two integers.
    #[verifier::external_body]
    pub(crate) fn times(&self, other: &Money) -> (r: Money)
        ensures
            r.val() == self.val() * other.val(),
    {
        let a = num_bigint::BigUint::new(self.limbs.clone());
        let b = num_bigint::BigUint::new(other.limbs.clone());
        Money { limbs: (a * b).to_u32_digits() }
    }

    /// Relies on `num_bigint::BigUint`: `/` by a `u32` divides with
    /// truncation toward zero; it panics on a zero divisor, which the
    /// `requires` rules out.
    #[verifier::external_body]
    pub(crate) fn div_u32(&self, divisor: u32) -> (r: Money)
        requires
            divisor > 0,
        ensures
            r.val() == self.val() / divisor as nat,
    {
        let a = num_bigint::BigUint::new(self.limbs.clone());
        Money { limbs: (a / divisor).to_u32_digits() }
    }

    /// Relies on `num_bigint::BigUint`: `<` orders the two integers.
    #[verifier::external_body]
    pub(crate) fn lt(&self, other: &Money) -> (r: bool)
        ensures
            r == (self.val() < other.val()),
    {
        let a = num_bigint::BigUint::new(self.limbs.clone());
        let b = num_bigint::BigUint::new(other.limbs.clone());
        a < b
    }

    /// Whether this value is at most `other`.
    pub fn le(&self, other: &Money) -> (r: bool)
        ensures
            r == (self.val() <= other.val()),
    {
        !other.lt(self)
    }

    /// Whether the two values denote the same integer.
    pub fn eq_val(&self, other: &Money) -> (r: bool)
        ensures
            r == (self.val() == other.val()),
    {
        !self.lt(other) && !other.lt(self)
    }

    /// Whether this value is zero.
    pub fn is_zero(&self) -> (r: bool)
        ensures
            r == (self.val() == 0),
    {
        let zero = Money::zero();
        self.eq_val(&zero)
    }

    /// Integer exponentiation: this value raised to `exp`.
    pub fn pow(&self, exp: &Money) -> (r: Money)
        ensures
            r.val() == pow(self.val() as int, exp.val()),
    {
        let one = Money::from_u32(1);
        let mut result = Money::from_u32(1);
        let mut i = Money::zero();
        proof {
            vstd::arithmetic::power::lemma_pow0(self.val() as int);
        }
        while i.lt(exp)
            invariant
                i.val() <= exp.val(),
                result.val() == pow(self.val() as int, i.val()),
                one.val() == 1,
            decreases exp.val() - i.val(),
        {
            let ghost prev_i = i.val();
            let ghost prev_r = result.val();
            result = result.times(self);
            i = i.plus(&one);
            proof {
                reveal(pow);
                assert(i.val() == prev_i + 1);
                assert(result.val() == prev_r * self.val());
                assert((i.val() - 1) as nat == prev_i);
                assert(pow(self.val() as int, i.val()) == self.val() as int * pow(
                    self.val() as int,
                    prev_i,
                ));
                assert(result.val() == pow(self.val() as int, i.val()));
            }
        }
        result
    }
}

} // verus!
