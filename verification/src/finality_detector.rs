//! Finds the blocks that are final.
//!
//! A validator that is not faulty votes with its latest unit: for the block that the unit
//! proposes or builds on, and with it for every ancestor of that block. A block is final once
//! it stands on the last final block and the votes for it weigh more than half of the total
//! weight and the fault tolerance threshold together. With more faulty weight than the
//! threshold nothing is final any more.

use vstd::prelude::*;
use crate::state::{Block, State, StateView};
use crate::time::Timestamp;
use crate::vertex::{ConsensusValue, Observation, UnitHash, ValidatorIndex};

verus! {

/// The weight of the faulty validators, when it is above the fault tolerance threshold.
#[derive(Clone, Copy, Debug, PartialEq, Eq, Structural)]
pub struct FttExceeded(pub u64);

/// A block that has become final.
#[derive(Clone, Copy, Debug, PartialEq, Eq, Structural)]
pub struct FinalizedBlock {
    pub value: ConsensusValue,
    pub hash: UnitHash,
    pub height: u64,
    pub timestamp: Timestamp,
    pub proposer: ValidatorIndex,
    /// Whether the block ends the era.
    pub terminal: bool,
}

/// The fault tolerance threshold as a weight: the given fraction of the total weight, rounded
/// down, in 64 bits.
pub open spec fn threshold(total_weight: u64, numer: u64, denom: u64) -> u64 {
    ((total_weight as int * numer as int / denom as int) % 0x1_0000_0000_0000_0000) as u64
}

/// For a fraction of at most one the threshold is the fraction of the total weight, rounded
/// down.
pub proof fn lemma_threshold_is_floor(total_weight: u64, numer: u64, denom: u64)
    requires
        0 < denom,
        numer <= denom,
    ensures
        threshold(total_weight, numer, denom) == total_weight as int * numer as int / denom as int,
        threshold(total_weight, numer, denom) <= total_weight,
{
    let t = total_weight as int;
    let n = numer as int;
    let d = denom as int;
    assert(0 <= t * n / d <= t) by (nonlinear_arith)
        requires
            0 <= t,
            0 <= n <= d,
            0 < d,
    {
    }
}

/// The fault tolerance threshold for a total weight and a fraction.
pub fn fault_tolerance_threshold(total_weight: u64, numer: u64, denom: u64) -> (r: u64)
    requires
        denom != 0,
    ensures
        r == threshold(total_weight, numer, denom),
{
    assert(total_weight as int * numer as int <= u128::MAX) by (nonlinear_arith)
        requires
            total_weight <= u64::MAX,
            numer <= u64::MAX,
    {
    }
    let product: u128 = (total_weight as u128) * (numer as u128) / (denom as u128);
    (product % 0x1_0000_0000_0000_0000u128) as u64
}

impl StateView {
    /// The block at `height` among a block and its ancestors, looking at most `fuel` parents
    /// up.
    pub open spec fn ancestor_at(self, block: UnitHash, height: u64, fuel: nat) -> Option<UnitHash>
        decreases fuel,
    {
        if !self.has_block(block) {
            None
        } else if self.block(block).height == height {
            Some(block)
        } else if fuel == 0 || self.block(block).height < height {
            None
        } else {
            match self.block(block).parent {
                Some(parent) => self.ancestor_at(parent, height, (fuel - 1) as nat),
                None => None,
            }
        }
    }

    /// The block that a validator votes for with its latest unit.
    pub open spec fn latest_vote(self, validator: int) -> Option<UnitHash> {
        if 0 <= validator < self.panorama.len() {
            match self.panorama[validator] {
                Observation::Correct(hash) => if self.has_unit(hash) {
                    self.unit(hash).vote()
                } else {
                    None
                },
                _ => None,
            }
        } else {
            None
        }
    }

    /// Whether a validator votes for a block: its latest vote is for the block or for one that
    /// stands on it.
    pub open spec fn votes_for(self, validator: int, candidate: UnitHash) -> bool {
        match self.latest_vote(validator) {
            Some(block) => self.has_block(candidate) && self.ancestor_at(
                block,
                self.block(candidate).height,
                self.blocks.len(),
            ) == Some(candidate),
            None => false,
        }
    }

    /// The weight of the votes for a block among the first `n` validators.
    pub open spec fn vote_weight_before(self, candidate: UnitHash, n: int) -> int
        decreases n,
    {
        if n <= 0 {
            0
        } else {
            self.vote_weight_before(candidate, n - 1) + if self.votes_for(n - 1, candidate) {
                self.weights[n - 1] as int
            } else {
                0
            }
        }
    }

    /// The weight of the votes for a block.
    pub open spec fn vote_weight(self, candidate: UnitHash) -> int {
        self.vote_weight_before(candidate, self.weights.len() as int)
    }

    /// Whether the votes for a block weigh more than half of the total weight and the
    /// threshold together.
    pub open spec fn has_quorum(self, candidate: UnitHash, ftt: u64) -> bool {
        2 * self.vote_weight(candidate) > self.total_weight() + ftt
    }

    /// Whether the block at a place is the next to become final: it stands on the last final
    /// block at the next height and has a quorum.
    pub open spec fn is_next_final(self, i: int, last: Option<UnitHash>, height: u64, ftt: u64) -> bool {
        &&& self.blocks[i].1.parent == last
        &&& self.blocks[i].1.height == height
        &&& self.has_quorum(self.blocks[i].0, ftt)
    }

    /// The place of the next block to become final among the first `n` blocks, the first such
    /// place.
    pub open spec fn next_final_before(
        self,
        last: Option<UnitHash>,
        height: u64,
        ftt: u64,
        n: int,
    ) -> Option<int>
        decreases n,
    {
        if n <= 0 {
            None
        } else {
            match self.next_final_before(last, height, ftt, n - 1) {
                Some(i) => Some(i),
                None => if self.is_next_final(n - 1, last, height, ftt) {
                    Some(n - 1)
                } else {
                    None
                },
            }
        }
    }

    /// The final block that the block at a place gives.
    pub open spec fn finalized_at(self, i: int) -> FinalizedBlock {
        FinalizedBlock {
            value: self.blocks[i].1.value,
            hash: self.blocks[i].0,
            height: self.blocks[i].1.height,
            timestamp: self.blocks[i].1.timestamp,
            proposer: self.blocks[i].1.proposer,
            terminal: self.is_terminal_block(self.blocks[i].0),
        }
    }

    /// The blocks that are final beyond the last final block, lowest first.
    pub open spec fn newly_final(self, last: Option<UnitHash>, height: u64, ftt: u64) -> Seq<
        FinalizedBlock,
    >
        decreases u64::MAX - height,
    {
        if height < u64::MAX {
            match self.next_final_before(last, height, ftt, self.blocks.len() as int) {
                Some(i) => seq![self.finalized_at(i)] + self.newly_final(
                    Some(self.blocks[i].0),
                    (height + 1) as u64,
                    ftt,
                ),
                None => Seq::empty(),
            }
        } else {
            Seq::empty()
        }
    }
}

/// The next block to become final, where there is one, is a block of the state that stands on
/// the last final block at the next height and has a quorum.
pub proof fn lemma_next_final(
    state: StateView,
    last: Option<UnitHash>,
    height: u64,
    ftt: u64,
    n: int,
)
    requires
        0 <= n <= state.blocks.len(),
    ensures
        match state.next_final_before(last, height, ftt, n) {
            Some(i) => 0 <= i < n && state.is_next_final(i, last, height, ftt),
            None => forall|i: int| 0 <= i < n ==> !state.is_next_final(i, last, height, ftt),
        },
    decreases n,
{
    if n > 0 {
        lemma_next_final(state, last, height, ftt, n - 1);
    }
}

/// The blocks that become final are in a row: each stands on the one before it, the first on
/// the last final block, and the heights go up by one from the next height on.
pub proof fn lemma_final_blocks_in_a_row(
    state: StateView,
    last: Option<UnitHash>,
    height: u64,
    ftt: u64,
)
    requires
        state.wf_blocks(),
    ensures
        ({
            let blocks = state.newly_final(last, height, ftt);
            &&& height + blocks.len() <= u64::MAX
            &&& forall|i: int| 0 <= i < blocks.len() ==> (#[trigger] blocks[i]).height == height + i
            &&& forall|i: int|
                0 <= i < blocks.len() ==> state.has_block((#[trigger] blocks[i]).hash)
                    && state.has_quorum(blocks[i].hash, ftt) && state.block(blocks[i].hash).parent
                    == if i == 0 {
                    last
                } else {
                    Some(blocks[i - 1].hash)
                }
        }),
    decreases u64::MAX - height,
{
    if height < u64::MAX {
        lemma_next_final(state, last, height, ftt, state.blocks.len() as int);
        match state.next_final_before(last, height, ftt, state.blocks.len() as int) {
            Some(i) => {
                let rest = state.newly_final(Some(state.blocks[i].0), (height + 1) as u64, ftt);
                lemma_final_blocks_in_a_row(
                    state,
                    Some(state.blocks[i].0),
                    (height + 1) as u64,
                    ftt,
                );
                let blocks = state.newly_final(last, height, ftt);
                assert(blocks =~= seq![state.finalized_at(i)] + rest);
                assert forall|j: int| 0 <= j < blocks.len() implies (#[trigger] blocks[j]).height
                    == height + j by {
                    if j > 0 {
                        assert(blocks[j] == rest[j - 1]);
                    }
                }
                lemma_block_at(state, i);
                assert forall|j: int| 0 <= j < blocks.len() implies state.has_block(
                    (#[trigger] blocks[j]).hash,
                ) && state.has_quorum(blocks[j].hash, ftt) && state.block(blocks[j].hash).parent
                    == if j == 0 {
                    last
                } else {
                    Some(blocks[j - 1].hash)
                } by {
                    if j > 0 {
                        assert(blocks[j] == rest[j - 1]);
                        if j > 1 {
                            assert(blocks[j - 1] == rest[j - 2]);
                        }
                    }
                }
            },
            None => {},
        }
    }
}

impl StateView {
    /// No block hash occurs twice.
    pub open spec fn wf_blocks(self) -> bool {
        crate::keyed::distinct_keys(self.blocks)
    }
}

/// The block at a place is the block under its hash, where no hash occurs twice.
pub proof fn lemma_block_at(state: StateView, i: int)
    requires
        0 <= i < state.blocks.len(),
    ensures
        state.has_block(state.blocks[i].0),
        state.wf_blocks() ==> state.block(state.blocks[i].0) == state.blocks[i].1,
{
    assert(state.blocks[i].0 == state.blocks[i].0);
    if state.wf_blocks() {
        crate::keyed::lemma_as_map_value(state.blocks, i);
    }
}

} // verus!

verus! {

impl State {
    /// The block at `height` among a block and its ancestors.
    pub fn ancestor_at(&self, block: UnitHash, height: u64) -> (r: Option<UnitHash>)
        requires
            self.wf(),
        ensures
            r == self@.ancestor_at(block, height, self@.blocks.len()),
    {
        let mut current = block;
        let mut fuel: usize = self.blocks.len();
        loop
            invariant
                self.wf(),
                self@.ancestor_at(block, height, self@.blocks.len()) == self@.ancestor_at(
                    current,
                    height,
                    fuel as nat,
                ),
            decreases fuel,
        {
            match self.block(current) {
                None => {
                    return None;
                },
                Some(found) => {
                    if found.height == height {
                        return Some(current);
                    } else if fuel == 0 || found.height < height {
                        return None;
                    } else {
                        match found.parent {
                            Some(parent) => {
                                current = parent;
                                fuel = fuel - 1;
                            },
                            None => {
                                return None;
                            },
                        }
                    }
                },
            }
        }
    }

    /// The block that a validator votes for with its latest unit.
    pub fn latest_vote(&self, validator: usize) -> (r: Option<UnitHash>)
        requires
            self.wf(),
        ensures
            r == self@.latest_vote(validator as int),
    {
        if validator < self.panorama.obs.len() {
            match self.panorama.obs[validator] {
                Observation::Correct(hash) => match self.unit(hash) {
                    Some(unit) => if unit.value.is_some() {
                        Some(unit.hash)
                    } else {
                        unit.parent
                    },
                    None => None,
                },
                _ => None,
            }
        } else {
            None
        }
    }

    /// Whether a validator votes for a block.
    pub fn votes_for(&self, validator: usize, candidate: UnitHash) -> (r: bool)
        requires
            self.wf(),
        ensures
            r == self@.votes_for(validator as int, candidate),
    {
        match self.latest_vote(validator) {
            Some(block) => match self.block(candidate) {
                Some(target) => match self.ancestor_at(block, target.height) {
                    Some(ancestor) => ancestor == candidate,
                    None => false,
                },
                None => false,
            },
            None => false,
        }
    }

    /// The weight of the votes for a block.
    pub fn vote_weight(&self, candidate: UnitHash) -> (r: u64)
        requires
            self.wf(),
        ensures
            r == self@.vote_weight(candidate),
            r <= self@.total_weight(),
    {
        let mut total: u64 = 0;
        let mut i: usize = 0;
        proof {
            assert(self.weights@.take(0) =~= Seq::empty());
        }
        while i < self.weights.len()
            invariant
                i <= self.weights@.len(),
                self.wf(),
                total == self@.vote_weight_before(candidate, i as int),
                total <= crate::state::sum_u64(self.weights@.take(i as int)),
            decreases self.weights@.len() - i,
        {
            proof {
                assert(self.weights@.take(i + 1).drop_last() =~= self.weights@.take(i as int));
                crate::state::lemma_sum_u64_grows(self.weights@, i + 1);
            }
            if self.votes_for(i, candidate) {
                total = total + self.weights[i];
            }
            i = i + 1;
        }
        proof {
            assert(self.weights@.take(i as int) =~= self.weights@);
        }
        total
    }

    /// Whether the votes for a block weigh more than half of the total weight and the
    /// threshold together.
    pub fn has_quorum(&self, candidate: UnitHash, ftt: u64) -> (r: bool)
        requires
            self.wf(),
        ensures
            r == self@.has_quorum(candidate, ftt),
    {
        let votes = self.vote_weight(candidate) as u128;
        let total = self.total_weight() as u128;
        2 * votes > total + ftt as u128
    }
}

/// Watches a state for blocks that become final.
#[derive(Clone, Copy, Debug)]
pub struct FinalityDetector {
    /// The last block that was found final.
    pub last_finalized: Option<UnitHash>,
    /// The height of the next block to become final.
    pub next_height: u64,
    /// The fault tolerance threshold as a weight.
    pub ftt: u64,
}

impl FinalityDetector {
    /// A detector that has found no block final yet.
    pub fn new(ftt: u64) -> (r: Self)
        ensures
            r == (FinalityDetector { last_finalized: None, next_height: 0, ftt }),
    {
        FinalityDetector { last_finalized: None, next_height: 0, ftt }
    }

    pub fn last_finalized(&self) -> (r: Option<UnitHash>)
        ensures
            r == self.last_finalized,
    {
        self.last_finalized
    }

    pub fn fault_tolerance_threshold(&self) -> (r: u64)
        ensures
            r == self.ftt,
    {
        self.ftt
    }

    /// The place of the next block to become final.
    fn next_final(&self, state: &State) -> (r: Option<usize>)
        requires
            state.wf(),
        ensures
            match r {
                Some(i) => state@.next_final_before(
                    self.last_finalized,
                    self.next_height,
                    self.ftt,
                    state@.blocks.len() as int,
                ) == Some(i as int) && i < state@.blocks.len(),
                None => state@.next_final_before(
                    self.last_finalized,
                    self.next_height,
                    self.ftt,
                    state@.blocks.len() as int,
                ) is None,
            },
    {
        let mut i: usize = 0;
        while i < state.blocks.len()
            invariant
                i <= state@.blocks.len(),
                state.wf(),
                state@.next_final_before(
                    self.last_finalized,
                    self.next_height,
                    self.ftt,
                    i as int,
                ) is None,
            decreases state@.blocks.len() - i,
        {
            let block = state.blocks[i].1;
            let same_parent = match (block.parent, self.last_finalized) {
                (Some(a), Some(b)) => a == b,
                (None, None) => true,
                _ => false,
            };
            if same_parent && block.height == self.next_height && state.has_quorum(
                state.blocks[i].0,
                self.ftt,
            ) {
                proof {
                    lemma_next_final_found(
                        state@,
                        self.last_finalized,
                        self.next_height,
                        self.ftt,
                        i as int,
                        state@.blocks.len() as int,
                    );
                }
                return Some(i);
            }
            i = i + 1;
        }
        None
    }

    /// Looks for blocks that have become final since the last call, and returns them lowest
    /// first. With more faulty weight in the state than the threshold there are none, now or
    /// later: the weight of the faulty validators is returned as an error, and the detector
    /// stays as it is.
    pub fn run(&mut self, state: &State) -> (r: Result<Vec<FinalizedBlock>, FttExceeded>)
        requires
            state.wf(),
        ensures
            r is Err <==> state@.faulty_weight() > old(self).ftt,
            r matches Err(exceeded) ==> exceeded.0 == state@.faulty_weight() && *final(self) == *old(
                self,
            ),
            r matches Ok(blocks) ==> {
                &&& blocks@ == state@.newly_final(
                    old(self).last_finalized,
                    old(self).next_height,
                    old(self).ftt,
                )
                &&& final(self).ftt == old(self).ftt
                &&& final(self).next_height == old(self).next_height + blocks@.len()
                &&& final(self).last_finalized == if blocks@.len() == 0 {
                    old(self).last_finalized
                } else {
                    Some(blocks@.last().hash)
                }
                &&& forall|i: int|
                    0 <= i < blocks@.len() ==> (#[trigger] blocks@[i]).height == old(
                        self,
                    ).next_height + i
            },
    {
        let faulty_weight = state.faulty_weight();
        if faulty_weight > self.ftt {
            return Err(FttExceeded(faulty_weight));
        }
        let ghost target = state@.newly_final(self.last_finalized, self.next_height, self.ftt);
        let ghost first_height = self.next_height;
        let ghost first_last = self.last_finalized;
        let mut blocks: Vec<FinalizedBlock> = Vec::new();
        proof {
            lemma_final_blocks_in_a_row(state@, self.last_finalized, self.next_height, self.ftt);
        }
        loop
            invariant
                state.wf(),
                self.ftt == old(self).ftt,
                first_height == old(self).next_height,
                first_last == old(self).last_finalized,
                target == state@.newly_final(first_last, first_height, self.ftt),
                self.next_height == first_height + blocks@.len(),
                target == blocks@ + state@.newly_final(
                    self.last_finalized,
                    self.next_height,
                    self.ftt,
                ),
                self.last_finalized == if blocks@.len() == 0 {
                    first_last
                } else {
                    Some(blocks@.last().hash)
                },
            ensures
                target == blocks@,
                self.ftt == old(self).ftt,
                self.next_height == first_height + blocks@.len(),
                self.last_finalized == if blocks@.len() == 0 {
                    first_last
                } else {
                    Some(blocks@.last().hash)
                },
            decreases u64::MAX - self.next_height,
        {
            if self.next_height == u64::MAX {
                assert(blocks@ + Seq::<FinalizedBlock>::empty() =~= blocks@);
                break ;
            }
            match self.next_final(state) {
                Some(i) => {
                    let hash = state.blocks[i].0;
                    let block = state.blocks[i].1;
                    let finalized = FinalizedBlock {
                        value: block.value,
                        hash,
                        height: block.height,
                        timestamp: block.timestamp,
                        proposer: block.proposer,
                        terminal: state.is_terminal_block(hash),
                    };
                    let ghost rest = state@.newly_final(
                        Some(hash),
                        (self.next_height + 1) as u64,
                        self.ftt,
                    );
                    proof {
                        assert(blocks@.push(finalized) + rest =~= blocks@ + (seq![finalized]
                            + rest));
                    }
                    blocks.push(finalized);
                    self.last_finalized = Some(hash);
                    self.next_height = self.next_height + 1;
                },
                None => {
                    assert(blocks@ + Seq::<FinalizedBlock>::empty() =~= blocks@);
                    break ;
                },
            }
        }
        Ok(blocks)
    }
}

/// A block found at a place, with none before it, is the next to become final.
proof fn lemma_next_final_found(
    state: StateView,
    last: Option<UnitHash>,
    height: u64,
    ftt: u64,
    i: int,
    n: int,
)
    requires
        0 <= i < n <= state.blocks.len(),
        state.next_final_before(last, height, ftt, i) is None,
        state.is_next_final(i, last, height, ftt),
    ensures
        state.next_final_before(last, height, ftt, n) == Some(i),
    decreases n - i,
{
    if n > i + 1 {
        lemma_next_final_found(state, last, height, ftt, i, n - 1);
    }
}

} // verus!

verus! {

/// Two blocks of one height never both have the votes of a validator.
proof fn lemma_one_vote(state: StateView, validator: int, a: UnitHash, b: UnitHash)
    requires
        a != b,
        state.has_block(a),
        state.has_block(b),
        state.block(a).height == state.block(b).height,
    ensures
        !(state.votes_for(validator, a) && state.votes_for(validator, b)),
{
}

/// The votes for two blocks of one height weigh no more together than the validators that
/// are counted.
proof fn lemma_votes_within_weights(state: StateView, a: UnitHash, b: UnitHash, n: int)
    requires
        a != b,
        state.has_block(a),
        state.has_block(b),
        state.block(a).height == state.block(b).height,
        0 <= n <= state.weights.len(),
    ensures
        0 <= state.vote_weight_before(a, n),
        0 <= state.vote_weight_before(b, n),
        state.vote_weight_before(a, n) + state.vote_weight_before(b, n) <= crate::state::sum_u64(
            state.weights.take(n),
        ),
    decreases n,
{
    if n > 0 {
        lemma_votes_within_weights(state, a, b, n - 1);
        lemma_one_vote(state, n - 1, a, b);
        assert(state.weights.take(n).drop_last() =~= state.weights.take(n - 1));
    } else {
        assert(state.weights.take(0) =~= Seq::empty());
    }
}

/// Finality is unambiguous: of two blocks of one height at most one has a quorum, whatever
/// the threshold.
pub proof fn lemma_one_final_block_per_height(state: StateView, a: UnitHash, b: UnitHash, ftt: u64)
    requires
        a != b,
        state.has_block(a),
        state.has_block(b),
        state.block(a).height == state.block(b).height,
    ensures
        !(state.has_quorum(a, ftt) && state.has_quorum(b, ftt)),
{
    lemma_votes_within_weights(state, a, b, state.weights.len() as int);
    assert(state.weights.take(state.weights.len() as int) =~= state.weights);
}

} // verus!
