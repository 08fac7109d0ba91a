//! Unsigned 512-bit quantities: stakes, motes and gas.
//!
//! The value is held as eight 64-bit limbs, least significant first, which is the layout of
//! `casper_types::U512`. Arithmetic beyond 64 bits is done by that crate.

use vstd::prelude::*;
use casper_types::{Gas, Motes, U512};
use num_traits::AsPrimitive;

verus! {

/// Two to the power 64.
pub open spec fn limb_radix() -> int {
    0x1_0000_0000_0000_0000
}

/// Two to the power 512, written as eight factors of the limb radix.
pub open spec fn modulus() -> int {
    limb_radix() * limb_radix() * limb_radix() * limb_radix() * limb_radix() * limb_radix()
        * limb_radix() * limb_radix()
}

/// The number that eight limbs stand for, least significant limb first.
pub open spec fn limbs_value(l: Seq<u64>) -> int
    recommends
        l.len() == 8,
{
    l[0] + limb_radix() * (l[1] + limb_radix() * (l[2] + limb_radix() * (l[3] + limb_radix() * (l[4]
        + limb_radix() * (l[5] + limb_radix() * (l[6] + limb_radix() * l[7]))))))
}

/// An unsigned 512-bit number.
#[derive(Clone, Copy, Debug)]
pub struct Uint512 {
    pub limbs: [u64; 8],
}

impl Uint512 {
    /// The number this value stands for.
    pub open spec fn value(self) -> int {
        limbs_value(self.limbs@)
    }

    /// The 512-bit form of a 64-bit number.
    pub fn from_u64(x: u64) -> (r: Self)
        ensures
            r.value() == x,
            r.limbs@ == seq![x, 0u64, 0u64, 0u64, 0u64, 0u64, 0u64, 0u64],
    {
        let r = Uint512 { limbs: [x, 0, 0, 0, 0, 0, 0, 0] };
        assert(r.limbs@ =~= seq![x, 0u64, 0u64, 0u64, 0u64, 0u64, 0u64, 0u64]);
        assert(r.value() == x) by (nonlinear_arith)
            requires
                r.limbs@[0] == x,
                r.limbs@[1] == 0,
                r.limbs@[2] == 0,
                r.limbs@[3] == 0,
                r.limbs@[4] == 0,
                r.limbs@[5] == 0,
                r.limbs@[6] == 0,
                r.limbs@[7] == 0,
                r.value() == limbs_value(r.limbs@),
        {
        }
        r
    }

    /// Zero.
    pub fn zero() -> (r: Self)
        ensures
            r.value() == 0,
    {
        Uint512::from_u64(0)
    }

    /// Whether the number is zero.
    pub fn is_zero(&self) -> (r: bool)
        ensures
            r == (self.value() == 0),
    {
        let r = self.limbs[0] == 0 && self.limbs[1] == 0 && self.limbs[2] == 0 && self.limbs[3]
            == 0 && self.limbs[4] == 0 && self.limbs[5] == 0 && self.limbs[6] == 0
            && self.limbs[7] == 0;
        proof {
            lemma_value_bounds(self.limbs@);
            lemma_zero_limbs(self.limbs@);
        }
        r
    }
}

/// `Gas::from_motes` of casper-types: the motes divided by the gas price, rounded down; there is
/// no result exactly when the price is zero.
#[verifier::external_body]
pub(crate) fn gas_from_motes(motes: &Uint512, gas_price: u64) -> (r: Option<Uint512>)
    ensures
        r is None <==> gas_price == 0,
        r matches Some(gas) ==> gas.value() == motes.value() / (gas_price as int),
{
    Gas::from_motes(Motes::new(U512(motes.limbs)), gas_price).map(
        |gas: Gas| Uint512 { limbs: gas.value().0 },
    )
}

/// `Gas::checked_add` of casper-types: the sum of two gas amounts; there is no result exactly
/// when the sum does not fit in 512 bits.
#[verifier::external_body]
pub(crate) fn gas_checked_add(a: &Uint512, b: &Uint512) -> (r: Option<Uint512>)
    ensures
        r is None <==> a.value() + b.value() >= modulus(),
        r matches Some(sum) ==> sum.value() == a.value() + b.value(),
{
    Gas::new(U512(a.limbs)).checked_add(Gas::new(U512(b.limbs))).map(
        |gas: Gas| Uint512 { limbs: gas.value().0 },
    )
}

/// The order of two `Gas` amounts of casper-types, which is the order of their values: whether
/// `a` is strictly greater than `b`.
#[verifier::external_body]
pub(crate) fn gas_exceeds(a: &Uint512, b: &Uint512) -> (r: bool)
    ensures
        r == (a.value() > b.value()),
{
    Gas::new(U512(a.limbs)) > Gas::new(U512(b.limbs))
}

/// Addition of two `U512` of casper-types. The outside operator panics when the sum does not
/// fit in 512 bits, so such operands are left out.
#[verifier::external_body]
pub(crate) fn u512_add(a: &Uint512, b: &Uint512) -> (r: Uint512)
    requires
        a.value() + b.value() < modulus(),
    ensures
        r.value() == a.value() + b.value(),
{
    Uint512 { limbs: (U512(a.limbs) + U512(b.limbs)).0 }
}

/// Subtraction of two `U512` of casper-types. The outside operator panics when the difference
/// is negative, so such operands are left out.
#[verifier::external_body]
pub(crate) fn u512_sub(a: &Uint512, b: &Uint512) -> (r: Uint512)
    requires
        a.value() >= b.value(),
    ensures
        r.value() == a.value() - b.value(),
{
    Uint512 { limbs: (U512(a.limbs) - U512(b.limbs)).0 }
}

/// Division of two `U512` of casper-types, rounded down. The outside operator panics on a zero
/// divisor, so that divisor is left out.
#[verifier::external_body]
pub(crate) fn u512_div(a: &Uint512, b: &Uint512) -> (r: Uint512)
    requires
        b.value() != 0,
    ensures
        r.value() == a.value() / b.value(),
{
    Uint512 { limbs: (U512(a.limbs) / U512(b.limbs)).0 }
}

/// `AsPrimitive::<u64>::as_` of num-traits on a `U512` of casper-types: the lowest 64 bits.
#[verifier::external_body]
pub(crate) fn u512_low_u64(a: &Uint512) -> (r: u64)
    ensures
        r == a.value() % limb_radix(),
{
    AsPrimitive::<u64>::as_(U512(a.limbs))
}

/// The value of eight limbs lies in the 512-bit range.
pub proof fn lemma_value_bounds(l: Seq<u64>)
    requires
        l.len() == 8,
    ensures
        0 <= limbs_value(l) < modulus(),
{
    let b = limb_radix();
    let v7: int = l[7] as int;
    let v6: int = l[6] + b * v7;
    let v5: int = l[5] + b * v6;
    let v4: int = l[4] + b * v5;
    let v3: int = l[3] + b * v4;
    let v2: int = l[2] + b * v3;
    let v1: int = l[1] + b * v2;
    let v0: int = l[0] + b * v1;
    assert(0 <= v7 < b);
    lemma_step_bound(l[6] as int, v7, b);
    lemma_step_bound(l[5] as int, v6, b * b);
    lemma_step_bound(l[4] as int, v5, b * b * b);
    lemma_step_bound(l[3] as int, v4, b * b * b * b);
    lemma_step_bound(l[2] as int, v3, b * b * b * b * b);
    lemma_step_bound(l[1] as int, v2, b * b * b * b * b * b);
    lemma_step_bound(l[0] as int, v1, b * b * b * b * b * b * b);
    assert(v0 == limbs_value(l));
}

/// One more limb below a number under `m` keeps the whole under `m` times the radix.
proof fn lemma_step_bound(low: int, high: int, m: int)
    requires
        0 <= low < limb_radix(),
        0 <= high < m,
    ensures
        0 <= low + limb_radix() * high < m * limb_radix(),
{
    assert(0 <= low + limb_radix() * high < m * limb_radix()) by (nonlinear_arith)
        requires
            0 <= low < limb_radix(),
            0 <= high < m,
            limb_radix() > 0,
    {
    }
}

/// The value is zero exactly when every limb is zero.
proof fn lemma_zero_limbs(l: Seq<u64>)
    requires
        l.len() == 8,
    ensures
        (limbs_value(l) == 0) <==> (forall|i: int| 0 <= i < 8 ==> l[i] == 0),
{
    lemma_high_limbs(l);
    if limbs_value(l) == 0 {
        assert(l[0] == 0);
    }
    if forall|i: int| 0 <= i < 8 ==> l[i] == 0 {
        assert(l[0] == 0 && l[1] == 0 && l[2] == 0 && l[3] == 0 && l[4] == 0 && l[5] == 0 && l[6]
            == 0 && l[7] == 0);
        assert(limbs_value(l) == l[0]);
    }
}

/// The value fits in one limb exactly when the seven upper limbs are zero, and it is then the
/// lowest limb.
pub proof fn lemma_high_limbs(l: Seq<u64>)
    requires
        l.len() == 8,
    ensures
        (limbs_value(l) <= u64::MAX) <==> (forall|i: int| 1 <= i < 8 ==> l[i] == 0),
        limbs_value(l) <= u64::MAX ==> limbs_value(l) == l[0],
        limbs_value(l) % limb_radix() == l[0],
{
    let b = limb_radix();
    let v7: int = l[7] as int;
    let v6: int = l[6] + b * v7;
    let v5: int = l[5] + b * v6;
    let v4: int = l[4] + b * v5;
    let v3: int = l[3] + b * v4;
    let v2: int = l[2] + b * v3;
    let v1: int = l[1] + b * v2;
    assert(limbs_value(l) == l[0] + b * v1);
    lemma_upper_zero(l[6] as int, v7);
    lemma_upper_zero(l[5] as int, v6);
    lemma_upper_zero(l[4] as int, v5);
    lemma_upper_zero(l[3] as int, v4);
    lemma_upper_zero(l[2] as int, v3);
    lemma_upper_zero(l[1] as int, v2);
    lemma_upper_zero(l[0] as int, v1);
    assert(v1 >= 0);
    if forall|i: int| 1 <= i < 8 ==> l[i] == 0 {
        assert(l[1] == 0 && l[2] == 0 && l[3] == 0 && l[4] == 0 && l[5] == 0 && l[6] == 0 && l[7]
            == 0);
        assert(v1 == 0);
    }
    if limbs_value(l) <= u64::MAX {
        assert(v1 == 0) by (nonlinear_arith)
            requires
                l[0] + b * v1 <= u64::MAX,
                b == 0x1_0000_0000_0000_0000,
                v1 >= 0,
                l[0] >= 0,
        {
        }
        assert(l[1] == 0 && v2 == 0);
        assert(l[2] == 0 && v3 == 0);
        assert(l[3] == 0 && v4 == 0);
        assert(l[4] == 0 && v5 == 0);
        assert(l[5] == 0 && v6 == 0);
        assert(l[6] == 0 && l[7] == 0);
    }
    assert((l[0] + b * v1) % b == l[0]) by (nonlinear_arith)
        requires
            0 <= l[0] < b,
            b == 0x1_0000_0000_0000_0000,
    {
    }
}

/// A limb plus the radix times a non-negative rest is zero only if both are zero.
proof fn lemma_upper_zero(low: int, high: int)
    requires
        0 <= low < limb_radix(),
        0 <= high,
    ensures
        low + limb_radix() * high >= 0,
        (low + limb_radix() * high == 0) <==> (low == 0 && high == 0),
{
    assert(low + limb_radix() * high >= 0 && ((low + limb_radix() * high == 0) <==> (low == 0
        && high == 0))) by (nonlinear_arith)
        requires
            0 <= low,
            0 <= high,
            limb_radix() > 0,
    {
    }
}

} // verus!

verus! {

/// Two to the power 512 lies above every 64-bit number.
pub proof fn lemma_modulus_above_u64()
    ensures
        modulus() > u64::MAX,
{
    let b = limb_radix();
    assert(b * b * b * b * b * b * b * b > u64::MAX) by (nonlinear_arith)
        requires
            b == 0x1_0000_0000_0000_0000,
    {
        assert(b * b >= b);
        assert(b * b * b >= b);
        assert(b * b * b * b >= b);
        assert(b * b * b * b * b >= b);
        assert(b * b * b * b * b * b >= b);
        assert(b * b * b * b * b * b * b >= b);
        assert(b * b * b * b * b * b * b * b >= b);
    }
}

} // verus!
