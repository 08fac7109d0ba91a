//! The validators of an era, in a fixed order, each with a weight.

use vstd::prelude::*;
use crate::uint512::{modulus, Uint512};
use crate::vertex::{ValidatorId, ValidatorIndex};

verus! {

/// A validator with its weight in the era.
#[derive(Clone, Copy, Debug)]
pub struct Validator {
    pub id: ValidatorId,
    pub weight: u64,
    /// A banned validator keeps its weight and takes no part.
    pub banned: bool,
}

/// The sum of the weights of a list of validators.
pub open spec fn sum_weights(s: Seq<Validator>) -> int
    decreases s.len(),
{
    if s.len() == 0 {
        0
    } else {
        sum_weights(s.drop_last()) + s.last().weight
    }
}

/// The sum of the weights in a list of validators and weights.
pub open spec fn sum_entries(s: Seq<(ValidatorId, u64)>) -> int
    decreases s.len(),
{
    if s.len() == 0 {
        0
    } else {
        sum_entries(s.drop_last()) + s.last().1
    }
}

/// The sum of the stakes in a list of validators and stakes.
pub open spec fn sum_stakes(s: Seq<(ValidatorId, Uint512)>) -> int
    decreases s.len(),
{
    if s.len() == 0 {
        0
    } else {
        sum_stakes(s.drop_last()) + s.last().1.value()
    }
}

/// The number by which stakes are divided to give weights: the sum of the stakes divided by
/// the largest weight, rounded up.
pub open spec fn scaling_factor(sum: int) -> int {
    (sum + u64::MAX - 1) / (u64::MAX as int)
}

/// The weight that a stake gives, among stakes of the given sum.
pub open spec fn scaled_weight(stake: int, sum: int) -> int {
    stake / scaling_factor(sum)
}

/// The first place of a validator in the list, if it has one.
pub open spec fn index_of(s: Seq<Validator>, id: ValidatorId) -> Option<ValidatorIndex> {
    if exists|i: int| 0 <= i < s.len() && (#[trigger] s[i]).id == id {
        Some(first_place(s, id) as ValidatorIndex)
    } else {
        None
    }
}

/// The least index at which the validator stands.
pub open spec fn first_place(s: Seq<Validator>, id: ValidatorId) -> int {
    choose|i: int|
        0 <= i < s.len() && (#[trigger] s[i]).id == id && forall|j: int|
            0 <= j < i ==> (#[trigger] s[j]).id != id
}

/// The validators of an era.
#[derive(Debug)]
pub struct Validators {
    pub list: Vec<Validator>,
}

impl Validators {
    /// The table can be indexed by 32 bits, and the weights add up to at most 64 bits.
    pub open spec fn wf(&self) -> bool {
        &&& self.list@.len() <= u32::MAX
        &&& sum_weights(self.list@) <= u64::MAX
    }

    /// The table of the given validators, none of them banned. There is none when the table
    /// would be too long or the weights add up to more than 64 bits.
    pub fn new(entries: &Vec<(ValidatorId, u64)>) -> (r: Option<Self>)
        ensures
            r is Some <==> (entries@.len() <= u32::MAX && sum_entries(entries@) <= u64::MAX),
            r matches Some(v) ==> {
                &&& v.wf()
                &&& v.list@.len() == entries@.len()
                &&& sum_weights(v.list@) == sum_entries(entries@)
                &&& forall|i: int|
                    0 <= i < entries@.len() ==> (#[trigger] v.list@[i]) == (Validator {
                        id: entries@[i].0,
                        weight: entries@[i].1,
                        banned: false,
                    })
            },
    {
        if entries.len() > u32::MAX as usize {
            return None;
        }
        let mut list: Vec<Validator> = Vec::new();
        let mut total: u64 = 0;
        let mut i: usize = 0;
        proof {
            assert(entries@.take(0) =~= Seq::empty());
        }
        while i < entries.len()
            invariant
                i <= entries@.len(),
                list@.len() == i,
                total == sum_entries(entries@.take(i as int)),
                total == sum_weights(list@),
                forall|j: int|
                    0 <= j < i ==> (#[trigger] list@[j]) == (Validator {
                        id: entries@[j].0,
                        weight: entries@[j].1,
                        banned: false,
                    }),
            decreases entries@.len() - i,
        {
            let entry = entries[i];
            proof {
                assert(entries@.take(i + 1).drop_last() =~= entries@.take(i as int));
                lemma_sum_entries_grows(entries@, i + 1);
            }
            if entry.1 > u64::MAX - total {
                return None;
            }
            total = total + entry.1;
            let ghost before = list@;
            list.push(Validator { id: entry.0, weight: entry.1, banned: false });
            proof {
                assert(list@.drop_last() =~= before);
            }
            i = i + 1;
        }
        proof {
            assert(entries@.take(i as int) =~= entries@);
        }
        Some(Validators { list })
    }

    /// The number of validators.
    pub fn len(&self) -> (r: usize)
        ensures
            r == self.list@.len(),
    {
        self.list.len()
    }

    /// The sum of the weights of all validators, banned ones too.
    pub fn total_weight(&self) -> (r: u64)
        requires
            self.wf(),
        ensures
            r == sum_weights(self.list@),
    {
        let mut total: u64 = 0;
        let mut i: usize = 0;
        proof {
            assert(self.list@.take(0) =~= Seq::empty());
        }
        while i < self.list.len()
            invariant
                i <= self.list@.len(),
                total == sum_weights(self.list@.take(i as int)),
                sum_weights(self.list@) <= u64::MAX,
            decreases self.list@.len() - i,
        {
            proof {
                assert(self.list@.take(i + 1).drop_last() =~= self.list@.take(i as int));
                lemma_sum_weights_grows(self.list@, i + 1);
            }
            total = total + self.list[i].weight;
            i = i + 1;
        }
        proof {
            assert(self.list@.take(i as int) =~= self.list@);
        }
        total
    }

    /// The place of a validator in the table.
    pub fn get_index(&self, id: ValidatorId) -> (r: Option<ValidatorIndex>)
        requires
            self.list@.len() <= u32::MAX,
        ensures
            r == index_of(self.list@, id),
            r matches Some(index) ==> index < self.list@.len() && self.list@[index as int].id == id,
    {
        let mut i: usize = 0;
        while i < self.list.len()
            invariant
                i <= self.list@.len(),
                self.list@.len() <= u32::MAX,
                forall|j: int| 0 <= j < i ==> (#[trigger] self.list@[j]).id != id,
            decreases self.list@.len() - i,
        {
            if self.list[i].id == id {
                proof {
                    let s = self.list@;
                    let f = first_place(s, id);
                    assert(0 <= f < s.len() && s[f].id == id && forall|j: int|
                        0 <= j < f ==> (#[trigger] s[j]).id != id);
                    if f < i {
                        assert(s[f].id != id);
                    }
                    if i < f {
                        assert(s[i as int].id != id);
                    }
                }
                return Some(i as u32);
            }
            i = i + 1;
        }
        None
    }

    /// The validator at a place in the table.
    pub fn get(&self, index: ValidatorIndex) -> (r: Option<Validator>)
        ensures
            r == if index < self.list@.len() {
                Some(self.list@[index as int])
            } else {
                None
            },
    {
        if (index as usize) < self.list.len() {
            Some(self.list[index as usize])
        } else {
            None
        }
    }

    /// The identity of the validator at a place in the table.
    pub fn id(&self, index: ValidatorIndex) -> (r: Option<ValidatorId>)
        ensures
            r == if index < self.list@.len() {
                Some(self.list@[index as int].id)
            } else {
                None
            },
    {
        match self.get(index) {
            Some(validator) => Some(validator.id),
            None => None,
        }
    }

    /// Bans every entry of the given validator: it keeps its weight and its place.
    pub fn ban(&mut self, id: ValidatorId)
        ensures
            final(self).list@.len() == old(self).list@.len(),
            forall|i: int|
                0 <= i < old(self).list@.len() ==> (#[trigger] final(self).list@[i]) == (Validator {
                    banned: old(self).list@[i].banned || old(self).list@[i].id == id,
                    ..old(self).list@[i]
                }),
            sum_weights(final(self).list@) == sum_weights(old(self).list@),
            old(self).wf() ==> final(self).wf(),
    {
        let ghost before = self.list@;
        let mut i: usize = 0;
        while i < self.list.len()
            invariant
                i <= self.list@.len(),
                self.list@.len() == before.len(),
                forall|j: int|
                    0 <= j < i ==> (#[trigger] self.list@[j]) == (Validator {
                        banned: before[j].banned || before[j].id == id,
                        ..before[j]
                    }),
                forall|j: int| i <= j < before.len() ==> (#[trigger] self.list@[j]) == before[j],
            decreases self.list@.len() - i,
        {
            let validator = self.list[i];
            if validator.id == id {
                self.list.set(i, Validator { banned: true, ..validator });
            }
            i = i + 1;
        }
        proof {
            lemma_sum_weights_same(self.list@, before);
        }
    }
}

/// Lists with the same weights have the same sum.
pub proof fn lemma_sum_weights_same(a: Seq<Validator>, b: Seq<Validator>)
    requires
        a.len() == b.len(),
        forall|i: int| 0 <= i < a.len() ==> (#[trigger] a[i]).weight == b[i].weight,
    ensures
        sum_weights(a) == sum_weights(b),
    decreases a.len(),
{
    if a.len() > 0 {
        lemma_sum_weights_same(a.drop_last(), b.drop_last());
    }
}

/// The sum over a part of a list is at most the sum over all of it.
pub proof fn lemma_sum_weights_grows(s: Seq<Validator>, n: int)
    requires
        0 <= n <= s.len(),
    ensures
        0 <= sum_weights(s.take(n)) <= sum_weights(s),
    decreases s.len() - n,
{
    lemma_sum_weights_sign(s.take(n));
    if n < s.len() {
        lemma_sum_weights_grows(s, n + 1);
        assert(s.take(n + 1).drop_last() =~= s.take(n));
    } else {
        assert(s.take(n) =~= s);
    }
}

/// A sum of weights is not negative.
pub proof fn lemma_sum_weights_sign(s: Seq<Validator>)
    ensures
        0 <= sum_weights(s),
    decreases s.len(),
{
    if s.len() > 0 {
        lemma_sum_weights_sign(s.drop_last());
    }
}

/// The sum over a part of a list of entries is at most the sum over all of it.
pub proof fn lemma_sum_entries_grows(s: Seq<(ValidatorId, u64)>, n: int)
    requires
        0 <= n <= s.len(),
    ensures
        0 <= sum_entries(s.take(n)) <= sum_entries(s),
    decreases s.len() - n,
{
    lemma_sum_entries_sign(s.take(n));
    if n < s.len() {
        lemma_sum_entries_grows(s, n + 1);
        assert(s.take(n + 1).drop_last() =~= s.take(n));
    } else {
        assert(s.take(n) =~= s);
    }
}

/// A sum of entries is not negative.
pub proof fn lemma_sum_entries_sign(s: Seq<(ValidatorId, u64)>)
    ensures
        0 <= sum_entries(s),
    decreases s.len(),
{
    if s.len() > 0 {
        lemma_sum_entries_sign(s.drop_last());
    }
}

} // verus!

verus! {

/// The sum over a part of a list of stakes is at most the sum over all of it, and the sum of
/// the scaled stakes, times the factor, is at most the sum of the stakes.
pub proof fn lemma_sum_stakes_grows(s: Seq<(ValidatorId, Uint512)>, n: int)
    requires
        0 <= n <= s.len(),
    ensures
        0 <= sum_stakes(s.take(n)) <= sum_stakes(s),
    decreases s.len() - n,
{
    lemma_sum_stakes_sign(s.take(n));
    if n < s.len() {
        lemma_sum_stakes_grows(s, n + 1);
        assert(s.take(n + 1).drop_last() =~= s.take(n));
        crate::uint512::lemma_value_bounds(s[n].1.limbs@);
    } else {
        assert(s.take(n) =~= s);
    }
}

/// A sum of stakes is not negative.
pub proof fn lemma_sum_stakes_sign(s: Seq<(ValidatorId, Uint512)>)
    ensures
        0 <= sum_stakes(s),
    decreases s.len(),
{
    if s.len() > 0 {
        lemma_sum_stakes_sign(s.drop_last());
        crate::uint512::lemma_value_bounds(s.last().1.limbs@);
    }
}

/// Each stake is at most the sum of all.
pub proof fn lemma_stake_within_sum(s: Seq<(ValidatorId, Uint512)>, i: int)
    requires
        0 <= i < s.len(),
    ensures
        0 <= s[i].1.value() <= sum_stakes(s),
    decreases s.len(),
{
    crate::uint512::lemma_value_bounds(s[i].1.limbs@);
    lemma_sum_stakes_sign(s.drop_last());
    crate::uint512::lemma_value_bounds(s.last().1.limbs@);
    if i < s.len() - 1 {
        lemma_stake_within_sum(s.drop_last(), i);
    }
}

/// The factor is at least one for a sum above zero, and the sum divided by it fits in 64
/// bits.
pub proof fn lemma_scaling_factor(sum: int)
    requires
        sum > 0,
    ensures
        scaling_factor(sum) >= 1,
        sum <= scaling_factor(sum) * u64::MAX,
        sum / scaling_factor(sum) <= u64::MAX,
{
    let m = u64::MAX as int;
    let f = scaling_factor(sum);
    assert(f >= 1 && sum <= f * m) by (nonlinear_arith)
        requires
            sum > 0,
            m > 0,
            f == (sum + m - 1) / m,
    {
    }
    assert(sum / f <= m) by (nonlinear_arith)
        requires
            f >= 1,
            sum <= f * m,
            sum > 0,
    {
    }
}

/// A quotient grows with what is divided.
pub proof fn lemma_quotient_grows(a: int, b: int, f: int)
    requires
        0 <= a <= b,
        f >= 1,
    ensures
        0 <= a / f <= b / f,
{
    assert(0 <= a / f <= b / f) by (nonlinear_arith)
        requires
            0 <= a <= b,
            f >= 1,
    {
    }
}

/// The sum of the scaled weights of the first `n` stakes, times the factor, is at most the sum
/// of those stakes.
pub proof fn lemma_scaled_sum(
    stakes: Seq<(ValidatorId, Uint512)>,
    weights: Seq<(ValidatorId, u64)>,
    f: int,
    n: int,
)
    requires
        f >= 1,
        0 <= n <= stakes.len(),
        n <= weights.len(),
        forall|i: int| 0 <= i < n ==> (#[trigger] weights[i]).1 == stakes[i].1.value() / f,
    ensures
        sum_entries(weights.take(n)) * f <= sum_stakes(stakes.take(n)),
    decreases n,
{
    if n > 0 {
        lemma_scaled_sum(stakes, weights, f, n - 1);
        assert(weights.take(n).drop_last() =~= weights.take(n - 1));
        assert(stakes.take(n).drop_last() =~= stakes.take(n - 1));
        let w = weights[n - 1].1 as int;
        let s = stakes[n - 1].1.value();
        crate::uint512::lemma_value_bounds(stakes[n - 1].1.limbs@);
        let before = sum_entries(weights.take(n - 1));
        assert((before + w) * f <= sum_stakes(stakes.take(n - 1)) + s) by (nonlinear_arith)
            requires
                before * f <= sum_stakes(stakes.take(n - 1)),
                w == s / f,
                s >= 0,
                f >= 1,
        {
        }
    } else {
        assert(weights.take(0) =~= Seq::empty());
        assert(stakes.take(0) =~= Seq::empty());
    }
}

/// Turns stakes into 64-bit weights: each stake is divided by the scaling factor of their
/// sum, rounded down. The weights then add up to at most 64 bits.
///
/// The stakes must not all be zero, and their sum must leave room below 512 bits for the
/// rounding.
pub fn scale_stakes(stakes: &Vec<(ValidatorId, Uint512)>) -> (r: Vec<(ValidatorId, u64)>)
    requires
        sum_stakes(stakes@) > 0,
        sum_stakes(stakes@) + u64::MAX < modulus(),
    ensures
        r@.len() == stakes@.len(),
        forall|i: int|
            0 <= i < r@.len() ==> (#[trigger] r@[i]).0 == stakes@[i].0 && r@[i].1 == scaled_weight(
                stakes@[i].1.value(),
                sum_stakes(stakes@),
            ),
        sum_entries(r@) <= u64::MAX,
{
    let ghost total = sum_stakes(stakes@);
    let mut sum_stakes_value = Uint512::zero();
    let mut i: usize = 0;
    proof {
        assert(stakes@.take(0) =~= Seq::empty());
    }
    while i < stakes.len()
        invariant
            i <= stakes@.len(),
            sum_stakes_value.value() == sum_stakes(stakes@.take(i as int)),
            total == sum_stakes(stakes@),
            total + u64::MAX < modulus(),
        decreases stakes@.len() - i,
    {
        proof {
            assert(stakes@.take(i + 1).drop_last() =~= stakes@.take(i as int));
            lemma_sum_stakes_grows(stakes@, i + 1);
        }
        sum_stakes_value = crate::uint512::u512_add(&sum_stakes_value, &stakes[i].1);
        i = i + 1;
    }
    proof {
        assert(stakes@.take(i as int) =~= stakes@);
        lemma_scaling_factor(total);
    }
    // Scale down by the sum divided by the largest weight, rounded up: with the divisor
    // rounded up, the weights add up to no more than the largest weight.
    let largest = Uint512::from_u64(u64::MAX);
    let one = Uint512::from_u64(1);
    let raised = crate::uint512::u512_add(&sum_stakes_value, &largest);
    let lowered = crate::uint512::u512_sub(&raised, &one);
    let factor = crate::uint512::u512_div(&lowered, &largest);
    let ghost f = scaling_factor(total);
    assert(factor.value() == f);
    let mut weights: Vec<(ValidatorId, u64)> = Vec::new();
    let mut j: usize = 0;
    while j < stakes.len()
        invariant
            j <= stakes@.len(),
            weights@.len() == j,
            factor.value() == f,
            f == scaling_factor(total),
            f >= 1,
            total == sum_stakes(stakes@),
            total / f <= u64::MAX,
            forall|i: int|
                0 <= i < j ==> (#[trigger] weights@[i]).0 == stakes@[i].0 && weights@[i].1
                    == stakes@[i].1.value() / f,
        decreases stakes@.len() - j,
    {
        let scaled = crate::uint512::u512_div(&stakes[j].1, &factor);
        proof {
            lemma_stake_within_sum(stakes@, j as int);
            lemma_quotient_grows(stakes@[j as int].1.value(), total, f);
            assert(scaled.value() % crate::uint512::limb_radix() == scaled.value());
        }
        let weight = crate::uint512::u512_low_u64(&scaled);
        weights.push((stakes[j].0, weight));
        j = j + 1;
    }
    proof {
        lemma_scaled_sum(stakes@, weights@, f, stakes@.len() as int);
        assert(weights@.take(weights@.len() as int) =~= weights@);
        assert(stakes@.take(stakes@.len() as int) =~= stakes@);
        let w = sum_entries(weights@);
        lemma_sum_entries_sign(weights@);
        assert(w <= u64::MAX) by (nonlinear_arith)
            requires
                w * f <= total,
                total <= f * u64::MAX,
                f >= 1,
                w >= 0,
        {
        }
    }
    weights
}

} // verus!
