//! Unsigned 256-bit integers as four 64-bit limbs, with the small
//! arithmetic steps the text conversions need: multiply by a digit base
//! and add a digit, divide by ten with remainder, and two's-complement
//! negation.

use vstd::prelude::*;

verus! {

/// Two to the 256th power: one more than the largest value a `U256`
/// can hold.
pub open spec fn two_pow_256() -> nat {
    0x1_0000_0000_0000_0000_0000_0000_0000_0000_0000_0000_0000_0000_0000_0000_0000_0000nat
}

/// Two to the 255th power: the magnitude bound of a two's-complement
/// signed 256-bit value.
pub open spec fn two_pow_255() -> nat {
    0x8000_0000_0000_0000_0000_0000_0000_0000_0000_0000_0000_0000_0000_0000_0000_0000nat
}

/// An unsigned 256-bit integer, least significant limb first.
#[derive(Clone, Copy, PartialEq, Eq, Structural, Debug)]
pub struct U256 {
    pub w0: u64,
    pub w1: u64,
    pub w2: u64,
    pub w3: u64,
}

impl U256 {
    /// The number this limb vector denotes.
    pub open spec fn val(self) -> nat {
        (self.w0 as nat)
            + (self.w1 as nat) * 0x1_0000_0000_0000_0000
            + (self.w2 as nat) * 0x1_0000_0000_0000_0000_0000_0000_0000_0000
            + (self.w3 as nat) * 0x1_0000_0000_0000_0000_0000_0000_0000_0000_0000_0000_0000_0000
    }

    /// Every limb vector denotes a number below 2^256.
    pub proof fn lemma_val_bound(self)
        ensures
            self.val()
                < 0x1_0000_0000_0000_0000_0000_0000_0000_0000_0000_0000_0000_0000_0000_0000_0000_0000,
    {
    }

    pub fn zero() -> (r: U256)
        ensures
            r.val() == 0,
    {
        U256 { w0: 0, w1: 0, w2: 0, w3: 0 }
    }

    pub fn from_u64(x: u64) -> (r: U256)
        ensures
            r.val() == x,
    {
        U256 { w0: x, w1: 0, w2: 0, w3: 0 }
    }

    pub fn is_zero(&self) -> (b: bool)
        ensures
            b <==> self.val() == 0,
    {
        self.w0 == 0 && self.w1 == 0 && self.w2 == 0 && self.w3 == 0
    }

    /// Whether the top bit is set, i.e. the value read as a two's
    /// complement signed number would be negative.
    pub fn is_high_bit_set(&self) -> (b: bool)
        ensures
            b <==> self.val()
                >= 0x8000_0000_0000_0000_0000_0000_0000_0000_0000_0000_0000_0000_0000_0000_0000_0000,
    {
        self.w3 >= 0x8000_0000_0000_0000
    }

    /// Whether the value is at most two to the 255th power, the largest
    /// magnitude a negative two's-complement value can carry.
    pub fn le_two_pow_255(&self) -> (b: bool)
        ensures
            b <==> self.val() <= two_pow_255(),
    {
        self.w3 < 0x8000_0000_0000_0000 || (self.w3 == 0x8000_0000_0000_0000 && self.w2 == 0
            && self.w1 == 0 && self.w0 == 0)
    }

    /// `self * base + d`, or `None` if the result would not fit in 256
    /// bits.  `base` is the digit base of a textual number, ten or
    /// sixteen.
    pub fn mul_base_add(self, base: u64, d: u64) -> (r: Option<U256>)
        requires
            base == 10 || base == 16,
            d < base,
        ensures
            r is Some <==> self.val() * base + d
                < 0x1_0000_0000_0000_0000_0000_0000_0000_0000_0000_0000_0000_0000_0000_0000_0000_0000,
            r matches Some(x) ==> x.val() == self.val() * base + d,
    {
        let t0: u128 = (self.w0 as u128) * (base as u128) + (d as u128);
        let r0: u64 = (t0 % 0x1_0000_0000_0000_0000) as u64;
        let c0: u64 = (t0 / 0x1_0000_0000_0000_0000) as u64;
        let t1: u128 = (self.w1 as u128) * (base as u128) + (c0 as u128);
        let r1: u64 = (t1 % 0x1_0000_0000_0000_0000) as u64;
        let c1: u64 = (t1 / 0x1_0000_0000_0000_0000) as u64;
        let t2: u128 = (self.w2 as u128) * (base as u128) + (c1 as u128);
        let r2: u64 = (t2 % 0x1_0000_0000_0000_0000) as u64;
        let c2: u64 = (t2 / 0x1_0000_0000_0000_0000) as u64;
        let t3: u128 = (self.w3 as u128) * (base as u128) + (c2 as u128);
        let r3: u64 = (t3 % 0x1_0000_0000_0000_0000) as u64;
        let c3: u64 = (t3 / 0x1_0000_0000_0000_0000) as u64;
        proof {
            assert(t0 == (self.w0 as int) * (base as int) + d);
            assert(t0 == (c0 as int) * 0x1_0000_0000_0000_0000 + r0);
            assert(t1 == (c1 as int) * 0x1_0000_0000_0000_0000 + r1);
            assert(t2 == (c2 as int) * 0x1_0000_0000_0000_0000 + r2);
            assert(t3 == (c3 as int) * 0x1_0000_0000_0000_0000 + r3);
            assert(self.val() * base + d == (r0 as nat)
                + (r1 as nat) * 0x1_0000_0000_0000_0000
                + (r2 as nat) * 0x1_0000_0000_0000_0000_0000_0000_0000_0000
                + (r3 as nat) * 0x1_0000_0000_0000_0000_0000_0000_0000_0000_0000_0000_0000_0000
                + (c3 as nat)
                    * 0x1_0000_0000_0000_0000_0000_0000_0000_0000_0000_0000_0000_0000_0000_0000_0000_0000) by {
                assert((self.w0 as int) * (base as int) + (self.w1 as int) * (base as int)
                    * 0x1_0000_0000_0000_0000 + (self.w2 as int) * (base as int)
                    * 0x1_0000_0000_0000_0000_0000_0000_0000_0000 + (self.w3 as int) * (base as int)
                    * 0x1_0000_0000_0000_0000_0000_0000_0000_0000_0000_0000_0000_0000
                    == self.val() * base) by (nonlinear_arith);
            };
        }
        if c3 == 0 {
            Some(U256 { w0: r0, w1: r1, w2: r2, w3: r3 })
        } else {
            None
        }
    }

    /// Quotient and remainder of division by ten.
    pub fn divmod10(self) -> (r: (U256, u64))
        ensures
            r.1 < 10,
            self.val() == r.0.val() * 10 + r.1,
            self.val() > 0 ==> r.0.val() < self.val(),
    {
        let t3: u128 = self.w3 as u128;
        let q3: u64 = (t3 / 10) as u64;
        let c3: u64 = (t3 % 10) as u64;
        let t2: u128 = (c3 as u128) * 0x1_0000_0000_0000_0000 + (self.w2 as u128);
        let q2: u64 = (t2 / 10) as u64;
        let c2: u64 = (t2 % 10) as u64;
        let t1: u128 = (c2 as u128) * 0x1_0000_0000_0000_0000 + (self.w1 as u128);
        let q1: u64 = (t1 / 10) as u64;
        let c1: u64 = (t1 % 10) as u64;
        let t0: u128 = (c1 as u128) * 0x1_0000_0000_0000_0000 + (self.w0 as u128);
        let q0: u64 = (t0 / 10) as u64;
        let c0: u64 = (t0 % 10) as u64;
        let q = U256 { w0: q0, w1: q1, w2: q2, w3: q3 };
        proof {
            assert(t3 == (q3 as int) * 10 + c3);
            assert(t2 == (q2 as int) * 10 + c2);
            assert(t1 == (q1 as int) * 10 + c1);
            assert(t0 == (q0 as int) * 10 + c0);
            assert(self.val() == q.val() * 10 + c0);
        }
        (q, c0)
    }

    /// The two's complement of the value: `2^256 - self.val()` for a
    /// nonzero value, zero for zero.
    pub fn negated(self) -> (r: U256)
        ensures
            self.val() == 0 ==> r.val() == 0,
            self.val() > 0 ==> r.val()
                == 0x1_0000_0000_0000_0000_0000_0000_0000_0000_0000_0000_0000_0000_0000_0000_0000_0000
                    - self.val(),
    {
        if self.w0 != 0 {
            U256 {
                w0: ((0x1_0000_0000_0000_0000u128 - (self.w0 as u128)) as u64),
                w1: 0xffff_ffff_ffff_ffff - self.w1,
                w2: 0xffff_ffff_ffff_ffff - self.w2,
                w3: 0xffff_ffff_ffff_ffff - self.w3,
            }
        } else if self.w1 != 0 {
            U256 {
                w0: 0,
                w1: ((0x1_0000_0000_0000_0000u128 - (self.w1 as u128)) as u64),
                w2: 0xffff_ffff_ffff_ffff - self.w2,
                w3: 0xffff_ffff_ffff_ffff - self.w3,
            }
        } else if self.w2 != 0 {
            U256 {
                w0: 0,
                w1: 0,
                w2: ((0x1_0000_0000_0000_0000u128 - (self.w2 as u128)) as u64),
                w3: 0xffff_ffff_ffff_ffff - self.w3,
            }
        } else if self.w3 != 0 {
            U256 {
                w0: 0,
                w1: 0,
                w2: 0,
                w3: ((0x1_0000_0000_0000_0000u128 - (self.w3 as u128)) as u64),
            }
        } else {
            U256 { w0: 0, w1: 0, w2: 0, w3: 0 }
        }
    }
}

} // verus!
