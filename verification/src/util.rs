//! Fixed-point constants shared by the whole system: the number of
//! decimals, the unit `10^decimals` that scales every price, the ceiling
//! price above which seigniorage may be minted, and an integer minimum.
use vstd::prelude::*;

verus! {

/// `10^n`.
pub open spec fn pow10(n: nat) -> nat
    decreases n,
{
    if n == 0 {
        1
    } else {
        10 * pow10((n - 1) as nat)
    }
}

pub proof fn lemma_pow10_increases(i: nat, j: nat)
    requires
        i <= j,
    ensures
        pow10(i) <= pow10(j),
    decreases j,
{
    if i < j {
        lemma_pow10_increases(i, (j - 1) as nat);
    }
}

/// A well-formed unit is a power of ten, hence at least one.
pub proof fn lemma_unit_positive(u: Util)
    requires
        u.wf(),
    ensures
        u.one_unit_with_decimal >= 1,
{
    lemma_pow10_increases(0, u.decimal as nat);
}

/// The ceiling price derived from one unit: `unit + (unit / 100) * 5`,
/// i.e. five percent above the peg, rounded down in hundredths.
pub open spec fn spec_ceiling_price(unit: u128) -> int {
    unit + (unit as int / 100) * 5
}

/// Stateless helper holding the fixed-point scale of the system.
#[derive(Clone, Copy, Debug)]
pub struct Util {
    pub decimal: u32,
    pub one_unit_with_decimal: u128,
}

impl Util {
    /// The unit is exactly `10^decimal`; this also bounds it by
    /// `10^38`, the largest power of ten a `u128` can hold.
    pub open spec fn wf(self) -> bool {
        self.one_unit_with_decimal == pow10(self.decimal as nat)
    }

    pub open spec fn spec_unit(self) -> u128 {
        self.one_unit_with_decimal
    }

    pub fn new(decimal: u32) -> (u: Util)
        requires
            pow10(decimal as nat) <= u128::MAX,
        ensures
            u.wf(),
            u.decimal == decimal,
    {
        let mut ret: u128 = 1;
        let mut i: u32 = 0;
        while i < decimal
            invariant
                i <= decimal,
                ret == pow10(i as nat),
                pow10(decimal as nat) <= u128::MAX,
            decreases decimal - i,
        {
            proof {
                lemma_pow10_increases((i + 1) as nat, decimal as nat);
            }
            ret = ret * 10;
            i = i + 1;
        }
        Util { decimal, one_unit_with_decimal: ret }
    }

    pub fn get_decimal(&self) -> (d: u32)
        ensures
            d == self.decimal,
    {
        self.decimal
    }

    pub fn get_one_unit_with_decimal(&self) -> (u: u128)
        ensures
            u == self.one_unit_with_decimal,
    {
        self.one_unit_with_decimal
    }

    /// Five percent above one unit. Never overflows: the unit is a power
    /// of ten, so it is at most `10^38`, and `1.05 * 10^38` still fits.
    pub fn get_ceiling_price(&self) -> (p: u128)
        requires
            self.wf(),
        ensures
            p == spec_ceiling_price(self.one_unit_with_decimal),
    {
        proof {
            reveal_with_fuel(pow10, 40);
            assert(pow10(39) > u128::MAX);
            if self.decimal >= 39 {
                lemma_pow10_increases(39, self.decimal as nat);
            }
            assert(self.decimal < 39);
            lemma_pow10_increases(self.decimal as nat, 38);
            assert(pow10(38) == 100000000000000000000000000000000000000);
        }
        let r: u128 = self.one_unit_with_decimal / 100;
        let r5: u128 = r * 5;
        self.one_unit_with_decimal + r5
    }

    pub fn math_min(&self, a: u128, b: u128) -> (m: u128)
        ensures
            m == if a < b {
                a
            } else {
                b
            },
    {
        if a < b {
            return a;
        }
        b
    }
}

} // verus!
