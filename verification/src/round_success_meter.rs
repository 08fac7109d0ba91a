//! Keeps track of whether rounds succeed, and proposes the round exponent to go on with.
//!
//! A round of exponent `e` lasts two to the power `e` milliseconds and starts at a multiple of
//! its length. A round succeeds when one of the blocks proposed in it has a quorum by the time
//! the round is over. After too many failures among the latest rounds the exponent goes up by
//! one; after few enough, and at a round whose index is a multiple of the acceleration
//! parameter, it goes down by one.

use vstd::prelude::*;
use vstd::arithmetic::power2::{lemma2_to64, lemma2_to64_rest, lemma_pow2_strictly_increases,
    lemma_pow2_unfold, pow2};
use crate::state::{State, StateView};
use crate::time::Timestamp;
use crate::vertex::UnitHash;

verus! {

/// The length in milliseconds of a round with the given exponent.
pub open spec fn round_length(exp: u8) -> nat {
    pow2(exp as nat)
}

/// The instant at which the round of the given exponent that holds `timestamp` starts.
pub open spec fn round_start(timestamp: Timestamp, exp: u8) -> Timestamp {
    Timestamp((timestamp.0 - (timestamp.0 as int) % (round_length(exp) as int)) as u64)
}

/// The number of rounds of the given exponent that have passed before `timestamp`.
pub open spec fn round_index(timestamp: Timestamp, exp: u8) -> int {
    timestamp.0 as int / (round_length(exp) as int)
}

/// The length of a round is a positive number of at most 63 bits.
pub proof fn lemma_round_length(exp: u8)
    requires
        exp < 64,
    ensures
        1 <= round_length(exp) <= 0x8000_0000_0000_0000,
{
    lemma2_to64();
    lemma2_to64_rest();
    vstd::arithmetic::power2::lemma_pow2_pos(exp as nat);
    if exp < 63 {
        lemma_pow2_strictly_increases(exp as nat, 63);
    }
}

/// The length in milliseconds of a round with the given exponent.
pub fn round_len(exp: u8) -> (r: u64)
    requires
        exp < 64,
    ensures
        r == round_length(exp),
        r >= 1,
{
    let mut r: u64 = 1;
    let mut i: u8 = 0;
    proof {
        lemma2_to64();
    }
    while i < exp
        invariant
            i <= exp < 64,
            r == pow2(i as nat),
        decreases exp - i,
    {
        proof {
            lemma_pow2_unfold((i + 1) as nat);
            lemma_round_length((i + 1) as u8);
        }
        r = r * 2;
        i = i + 1;
    }
    proof {
        lemma_round_length(exp);
    }
    r
}

/// The instant at which the round that holds `timestamp` starts.
pub fn round_id(timestamp: Timestamp, exp: u8) -> (r: Timestamp)
    requires
        exp < 64,
    ensures
        r == round_start(timestamp, exp),
        r.0 <= timestamp.0,
{
    let len = round_len(exp);
    proof {
        vstd::arithmetic::div_mod::lemma_mod_decreases(timestamp.0 as nat, len as nat);
    }
    Timestamp(timestamp.0 - timestamp.0 % len)
}

/// How the meter judges the latest rounds.
#[derive(Clone, Copy, Debug)]
pub struct MeterConfig {
    /// How many of the latest rounds count.
    pub num_rounds_to_consider: u64,
    /// With fewer successes than this among them, rounds get longer.
    pub num_rounds_slowdown: u64,
    /// With at least this many successes among them, rounds may get shorter.
    pub num_rounds_speedup: u64,
    /// Rounds get shorter only at a round whose index is a multiple of this.
    pub acceleration_parameter: u64,
    /// The fault tolerance threshold, as a weight, under which a proposal counts as a success.
    pub acceleration_ftt: u64,
}

impl MeterConfig {
    /// More failures than this among the latest rounds make rounds longer.
    pub open spec fn max_failed_rounds(self) -> int {
        let left = if self.num_rounds_to_consider >= self.num_rounds_slowdown {
            self.num_rounds_to_consider - self.num_rounds_slowdown
        } else {
            0
        };
        if left >= 1 {
            left - 1
        } else {
            0
        }
    }

    /// Fewer failures than this among the latest rounds let rounds get shorter.
    pub open spec fn max_failures_for_acceleration(self) -> int {
        if self.num_rounds_to_consider >= self.num_rounds_speedup {
            self.num_rounds_to_consider - self.num_rounds_speedup
        } else {
            0
        }
    }
}

/// The number of failed rounds in a record.
pub open spec fn count_failures(rounds: Seq<bool>) -> int
    decreases rounds.len(),
{
    if rounds.len() == 0 {
        0
    } else {
        count_failures(rounds.drop_last()) + if rounds.last() {
            0int
        } else {
            1int
        }
    }
}

/// The latest `keep` entries of a record.
pub open spec fn latest_rounds(rounds: Seq<bool>, keep: u64) -> Seq<bool> {
    if rounds.len() > keep {
        rounds.skip(rounds.len() - keep)
    } else {
        rounds
    }
}

/// The meter by its contents.
pub struct MeterView {
    /// Whether each of the latest rounds succeeded, the latest last.
    pub rounds: Seq<bool>,
    /// The start of the round under way.
    pub current_round_id: Timestamp,
    /// The blocks proposed in the round under way.
    pub proposals: Seq<UnitHash>,
    pub min_round_exp: u8,
    pub max_round_exp: u8,
    pub current_round_exp: u8,
    pub config: MeterConfig,
}

impl MeterView {
    /// The exponent is within its bounds, and the bounds within 64 bits.
    pub open spec fn wf(self) -> bool {
        self.min_round_exp <= self.current_round_exp <= self.max_round_exp < 64
    }

    /// The meter after a proposal was seen: it is noted unless it is of a round that is over.
    pub open spec fn proposed(self, hash: UnitHash, timestamp: Timestamp) -> Self {
        if timestamp.0 >= self.current_round_id.0 {
            MeterView { proposals: self.proposals.push(hash), ..self }
        } else {
            self
        }
    }

    /// Whether one of the first `n` blocks proposed in the round under way has a quorum.
    pub open spec fn succeeded_before(self, state: StateView, n: int) -> bool
        decreases n,
    {
        if n <= 0 {
            false
        } else {
            self.succeeded_before(state, n - 1) || state.has_quorum(
                self.proposals[n - 1],
                self.config.acceleration_ftt,
            )
        }
    }

    /// Whether the round under way is over at `now`.
    pub open spec fn round_is_over(self, now: Timestamp) -> bool {
        now.0 > self.current_round_id.0 + round_length(self.current_round_exp)
    }

    /// The record of rounds with the round under way added to it.
    pub open spec fn record_with(self, state: StateView) -> Seq<bool> {
        latest_rounds(
            self.rounds.push(self.succeeded_before(state, self.proposals.len() as int)),
            self.config.num_rounds_to_consider,
        )
    }

    /// The exponent to go on with, once the round under way is over at `now`.
    pub open spec fn exponent_after(self, state: StateView, now: Timestamp) -> u8 {
        let failures = count_failures(self.record_with(state));
        if failures > self.config.max_failed_rounds() && self.current_round_exp
            < self.max_round_exp {
            (self.current_round_exp + 1) as u8
        } else if self.config.acceleration_parameter != 0 && round_index(
            now,
            self.current_round_exp,
        ) % (self.config.acceleration_parameter as int) == 0 && self.current_round_exp
            > self.min_round_exp && failures < self.config.max_failures_for_acceleration() {
            (self.current_round_exp - 1) as u8
        } else {
            self.current_round_exp
        }
    }

    /// The meter after the exponent was calculated at `now`. While the round is under way
    /// nothing changes. Once it is over, its outcome goes into the record, the record starts
    /// anew where the exponent changes, and the round that holds `now` begins.
    pub open spec fn calculated(self, state: StateView, now: Timestamp) -> Self {
        if !self.round_is_over(now) {
            self
        } else {
            let exp = self.exponent_after(state, now);
            MeterView {
                rounds: if exp == self.current_round_exp {
                    self.record_with(state)
                } else {
                    Seq::empty()
                },
                current_round_id: round_start(now, exp),
                proposals: Seq::empty(),
                current_round_exp: exp,
                ..self
            }
        }
    }

    /// The meter for the era that starts at `era_start`: the exponent stays, the record starts
    /// anew.
    pub open spec fn next_era(self, era_start: Timestamp) -> Self {
        MeterView {
            rounds: Seq::empty(),
            current_round_id: round_start(era_start, self.current_round_exp),
            proposals: Seq::empty(),
            ..self
        }
    }
}

/// Tells whether the node keeps up with the round exponent.
#[derive(Debug)]
pub struct RoundSuccessMeter {
    pub rounds: Vec<bool>,
    pub current_round_id: Timestamp,
    pub proposals: Vec<UnitHash>,
    pub min_round_exp: u8,
    pub max_round_exp: u8,
    pub current_round_exp: u8,
    pub config: MeterConfig,
}

impl View for RoundSuccessMeter {
    type V = MeterView;

    open spec fn view(&self) -> MeterView {
        MeterView {
            rounds: self.rounds@,
            current_round_id: self.current_round_id,
            proposals: self.proposals@,
            min_round_exp: self.min_round_exp,
            max_round_exp: self.max_round_exp,
            current_round_exp: self.current_round_exp,
            config: self.config,
        }
    }
}

impl RoundSuccessMeter {
    /// A meter at the start of its record. An exponent outside the bounds is moved to the
    /// nearest bound.
    pub fn new(
        round_exp: u8,
        min_round_exp: u8,
        max_round_exp: u8,
        timestamp: Timestamp,
        config: MeterConfig,
    ) -> (r: Self)
        requires
            min_round_exp <= max_round_exp < 64,
        ensures
            r@.wf(),
            r@ == (MeterView {
                rounds: Seq::empty(),
                current_round_id: round_start(timestamp, r@.current_round_exp),
                proposals: Seq::empty(),
                min_round_exp,
                max_round_exp,
                current_round_exp: if round_exp < min_round_exp {
                    min_round_exp
                } else if round_exp > max_round_exp {
                    max_round_exp
                } else {
                    round_exp
                },
                config,
            }),
    {
        let current_round_exp = if round_exp < min_round_exp {
            min_round_exp
        } else if round_exp > max_round_exp {
            max_round_exp
        } else {
            round_exp
        };
        RoundSuccessMeter {
            rounds: Vec::new(),
            current_round_id: round_id(timestamp, current_round_exp),
            proposals: Vec::new(),
            min_round_exp,
            max_round_exp,
            current_round_exp,
            config,
        }
    }

    /// Notes that a block was proposed at `timestamp`.
    pub fn new_proposal(&mut self, proposal_hash: UnitHash, timestamp: Timestamp)
        ensures
            final(self)@ == old(self)@.proposed(proposal_hash, timestamp),
    {
        if timestamp.0 >= self.current_round_id.0 {
            self.proposals.push(proposal_hash);
        }
    }

    /// Whether one of the blocks proposed in the round under way has a quorum.
    fn check_proposals_success(&self, state: &State) -> (r: bool)
        requires
            state.wf(),
        ensures
            r == self@.succeeded_before(state@, self@.proposals.len() as int),
    {
        let mut i: usize = 0;
        let mut success = false;
        while i < self.proposals.len()
            invariant
                i <= self.proposals@.len(),
                state.wf(),
                success == self@.succeeded_before(state@, i as int),
            decreases self.proposals@.len() - i,
        {
            if state.has_quorum(self.proposals[i], self.config.acceleration_ftt) {
                success = true;
            }
            i = i + 1;
        }
        success
    }

    /// The number of failed rounds in the record.
    fn count_failures(&self) -> (r: usize)
        ensures
            r == count_failures(self.rounds@),
    {
        let mut i: usize = 0;
        let mut failures: usize = 0;
        proof {
            assert(self.rounds@.take(0) =~= Seq::empty());
        }
        while i < self.rounds.len()
            invariant
                i <= self.rounds@.len(),
                failures == count_failures(self.rounds@.take(i as int)),
                failures <= i,
            decreases self.rounds@.len() - i,
        {
            proof {
                assert(self.rounds@.take(i + 1).drop_last() =~= self.rounds@.take(i as int));
            }
            if !self.rounds[i] {
                failures = failures + 1;
            }
            i = i + 1;
        }
        proof {
            assert(self.rounds@.take(i as int) =~= self.rounds@);
        }
        failures
    }

    /// Calculates the exponent to go on with at `now`, and begins a new round once the round
    /// under way is over.
    pub fn calculate_new_exponent(&mut self, state: &State, now: Timestamp) -> (r: u8)
        requires
            old(self)@.wf(),
            state.wf(),
        ensures
            final(self)@.wf(),
            final(self)@ == old(self)@.calculated(state@, now),
            r == final(self)@.current_round_exp,
    {
        let ghost before = self@;
        let len = round_len(self.current_round_exp);
        if now.0 as u128 <= self.current_round_id.0 as u128 + len as u128 {
            return self.current_round_exp;
        }
        let success = self.check_proposals_success(state);
        self.rounds.push(success);
        while self.rounds.len() as u64 > self.config.num_rounds_to_consider
            invariant
                self.rounds@.len() <= before.rounds.len() + 1,
                latest_rounds(self.rounds@, self.config.num_rounds_to_consider) == before.record_with(
                    state@,
                ),
                self.config == before.config,
                self.proposals@ == before.proposals,
                self.current_round_exp == before.current_round_exp,
                self.min_round_exp == before.min_round_exp,
                self.max_round_exp == before.max_round_exp,
                self.current_round_id == before.current_round_id,
            decreases self.rounds@.len(),
        {
            let ghost current = self.rounds@;
            let _ = self.rounds.remove(0);
            proof {
                let keep = self.config.num_rounds_to_consider;
                assert(self.rounds@ =~= current.skip(1));
                assert(latest_rounds(current.skip(1), keep) =~= latest_rounds(current, keep));
            }
        }
        let failures = self.count_failures() as u64;
        let left = if self.config.num_rounds_to_consider >= self.config.num_rounds_slowdown {
            self.config.num_rounds_to_consider - self.config.num_rounds_slowdown
        } else {
            0
        };
        let max_failed_rounds = if left >= 1 {
            left - 1
        } else {
            0
        };
        let max_failures_for_acceleration = if self.config.num_rounds_to_consider
            >= self.config.num_rounds_speedup {
            self.config.num_rounds_to_consider - self.config.num_rounds_speedup
        } else {
            0
        };
        let current_round_index = now.0 / len;
        let mut new_exp = self.current_round_exp;
        if failures > max_failed_rounds && self.current_round_exp < self.max_round_exp {
            new_exp = self.current_round_exp + 1;
        } else if self.config.acceleration_parameter != 0 && current_round_index
            % self.config.acceleration_parameter == 0 && self.current_round_exp
            > self.min_round_exp && failures < max_failures_for_acceleration {
            new_exp = self.current_round_exp - 1;
        }
        if new_exp != self.current_round_exp {
            self.rounds = Vec::new();
        }
        self.current_round_id = round_id(now, new_exp);
        self.proposals = Vec::new();
        self.current_round_exp = new_exp;
        new_exp
    }

    /// The meter for the era that starts at `era_start_timestamp`.
    pub fn next_era(&self, era_start_timestamp: Timestamp) -> (r: Self)
        requires
            self@.wf(),
        ensures
            r@.wf(),
            r@ == self@.next_era(era_start_timestamp),
    {
        RoundSuccessMeter {
            rounds: Vec::new(),
            current_round_id: round_id(era_start_timestamp, self.current_round_exp),
            proposals: Vec::new(),
            min_round_exp: self.min_round_exp,
            max_round_exp: self.max_round_exp,
            current_round_exp: self.current_round_exp,
            config: self.config,
        }
    }
}

} // verus!
