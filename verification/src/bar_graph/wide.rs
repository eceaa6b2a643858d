//! Natural numbers of up to 256 bits, for the products that the exact length
//! of a bar needs: a mantissa of 96 bits times a width of 64 bits times a
//! power of ten does not fit in 128.

use vstd::prelude::*;

verus! {

/// `2^64`: one limb.
pub const LIMB: u128 = 0x1_0000_0000_0000_0000;

/// `2^256`: what no [`Wide`] reaches.
pub open spec fn wide_limit() -> int {
    0x1_0000_0000_0000_0000_0000_0000_0000_0000_0000_0000_0000_0000_0000_0000_0000_0000int
}

/// A natural number below `2^256`, held as four limbs of 64 bits.
#[derive(Debug, Clone, Copy)]
pub struct Wide {
    l0: u64,
    l1: u64,
    l2: u64,
    l3: u64,
}

impl View for Wide {
    type V = int;

    closed spec fn view(&self) -> int {
        self.l0 + LIMB * (self.l1 + LIMB * (self.l2 + LIMB * self.l3))
    }
}

impl Wide {
    /// Every `Wide` is a natural number below `2^256`.
    pub proof fn lemma_range(self)
        ensures
            0 <= self@ < wide_limit(),
    {
    }

    /// The number `x`.
    pub fn from_u128(x: u128) -> (r: Wide)
        ensures
            r@ == x,
    {
        Wide { l0: (x % LIMB) as u64, l1: (x / LIMB) as u64, l2: 0, l3: 0 }
    }

    /// `self * k`.
    pub fn times(&self, k: u64) -> (r: Wide)
        requires
            self@ * k < wide_limit(),
        ensures
            r@ == self@ * k,
    {
        let ghost (p0, p1, p2, p3) = (self.l0 * k, self.l1 * k, self.l2 * k, self.l3 * k);
        proof {
            lemma_limb_product(self.l0, k);
            lemma_limb_product(self.l1, k);
            lemma_limb_product(self.l2, k);
            lemma_limb_product(self.l3, k);
            assert(self@ * k == p0 + LIMB * (p1 + LIMB * (p2 + LIMB * p3))) by (nonlinear_arith)
                requires
                    self@ == self.l0 + LIMB * (self.l1 + LIMB * (self.l2 + LIMB * self.l3)),
                    p0 == self.l0 * k,
                    p1 == self.l1 * k,
                    p2 == self.l2 * k,
                    p3 == self.l3 * k,
            ;
        }
        let t0: u128 = (self.l0 as u128) * (k as u128);
        let t1: u128 = (self.l1 as u128) * (k as u128) + t0 / LIMB;
        let t2: u128 = (self.l2 as u128) * (k as u128) + t1 / LIMB;
        let t3: u128 = (self.l3 as u128) * (k as u128) + t2 / LIMB;
        assert(t3 < LIMB);
        Wide {
            l0: (t0 % LIMB) as u64,
            l1: (t1 % LIMB) as u64,
            l2: (t2 % LIMB) as u64,
            l3: t3 as u64,
        }
    }

    /// `self + other`.
    pub fn plus(&self, other: &Wide) -> (r: Wide)
        requires
            self@ + other@ < wide_limit(),
        ensures
            r@ == self@ + other@,
    {
        let t0: u128 = (self.l0 as u128) + (other.l0 as u128);
        let t1: u128 = (self.l1 as u128) + (other.l1 as u128) + t0 / LIMB;
        let t2: u128 = (self.l2 as u128) + (other.l2 as u128) + t1 / LIMB;
        let t3: u128 = (self.l3 as u128) + (other.l3 as u128) + t2 / LIMB;
        assert(t3 < LIMB);
        Wide {
            l0: (t0 % LIMB) as u64,
            l1: (t1 % LIMB) as u64,
            l2: (t2 % LIMB) as u64,
            l3: t3 as u64,
        }
    }

    /// Whether `self <= other`.
    pub fn at_most(&self, other: &Wide) -> (r: bool)
        ensures
            r == (self@ <= other@),
    {
        if self.l3 != other.l3 {
            self.l3 < other.l3
        } else if self.l2 != other.l2 {
            self.l2 < other.l2
        } else if self.l1 != other.l1 {
            self.l1 < other.l1
        } else {
            self.l0 <= other.l0
        }
    }
}

/// The product of a limb and a `u64` fits in 128 bits with room for a carry.
proof fn lemma_limb_product(limb: u64, k: u64)
    ensures
        0 <= limb * k <= 0xFFFF_FFFF_FFFF_FFFE_0000_0000_0000_0001,
{
    assert(0 <= limb * k <= 0xFFFF_FFFF_FFFF_FFFF * 0xFFFF_FFFF_FFFF_FFFF) by (nonlinear_arith)
        requires
            0 <= limb <= 0xFFFF_FFFF_FFFF_FFFF,
            0 <= k <= 0xFFFF_FFFF_FFFF_FFFF,
    ;
}

} // verus!
