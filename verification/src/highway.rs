//! One era of the Highway protocol: the validators, the protocol state, and this node's own
//! part in it.
//!
//! Signing is not done here. Where this node is to make a unit, the unit is handed out
//! unsigned, with hash and signature zero, and comes back signed.

use vstd::prelude::*;
use crate::outcome::{BlockContext, MessageError};
use crate::round_success_meter::{round_id, round_index, round_len, round_length, round_start};
use crate::state::{FaultView, Params, State, StateView};
use crate::time::{saturating_sum, TimeDiff, Timestamp};
use crate::validators::{index_of, Validator, Validators};
use crate::vertex::{
    observation_at, ConsensusValue, Dependency, Evidence, InstanceId, Observation, SignedWireUnit,
    UnitHash, UnitView, ValidatorId, ValidatorIndex, Vertex, VertexView,
};

verus! {

/// This node's own part in the era.
#[derive(Clone, Copy, Debug, PartialEq, Eq, Structural)]
pub struct ActiveValidator {
    /// The place of this node among the validators.
    pub vidx: ValidatorIndex,
    /// While paused the node makes no units.
    pub paused: bool,
}

/// What this node's own part asks for.
#[derive(Debug)]
pub enum AvEffect {
    /// A vertex was made here and is in the state; tell the others.
    NewVertex(Vertex),
    /// Sign the unit and hand it back.
    SignUnit(SignedWireUnit),
    /// Call back at the instant.
    ScheduleTimer(Timestamp),
    /// Make a block on the given fork and hand it back.
    RequestNewBlock { block_context: BlockContext, fork_choice: Option<UnitHash> },
    /// This node is faulty itself.
    WeAreFaulty,
}

/// An effect by its contents.
pub enum AvEffectView {
    NewVertex(VertexView),
    SignUnit(UnitView),
    ScheduleTimer(Timestamp),
    RequestNewBlock { block_context: BlockContext, fork_choice: Option<UnitHash> },
    WeAreFaulty,
}

impl View for AvEffect {
    type V = AvEffectView;

    open spec fn view(&self) -> AvEffectView {
        match *self {
            AvEffect::NewVertex(vertex) => AvEffectView::NewVertex(vertex@),
            AvEffect::SignUnit(unit) => AvEffectView::SignUnit(unit@),
            AvEffect::ScheduleTimer(timestamp) => AvEffectView::ScheduleTimer(timestamp),
            AvEffect::RequestNewBlock { block_context, fork_choice } => AvEffectView::RequestNewBlock {
                block_context,
                fork_choice,
            },
            AvEffect::WeAreFaulty => AvEffectView::WeAreFaulty,
        }
    }
}

/// Whether the effects are the expected ones, one by one.
pub open spec fn av_effects_are(effects: Seq<AvEffect>, expected: Seq<AvEffectView>) -> bool {
    &&& effects.len() == expected.len()
    &&& forall|i: int| 0 <= i < effects.len() ==> (#[trigger] effects[i])@ == expected[i]
}

/// What is found under a dependency.
#[derive(Debug)]
pub enum GetDepOutcome {
    /// Nothing.
    Nothing,
    /// The vertex.
    Vertex(Vertex),
    /// The validator is faulty, and the proof is to be had from the owner of the protocol.
    Evidence(ValidatorId),
}

/// What is found under a dependency, by its contents.
pub enum GetDepView {
    Nothing,
    Vertex(VertexView),
    Evidence(ValidatorId),
}

impl View for GetDepOutcome {
    type V = GetDepView;

    open spec fn view(&self) -> GetDepView {
        match *self {
            GetDepOutcome::Nothing => GetDepView::Nothing,
            GetDepOutcome::Vertex(vertex) => GetDepView::Vertex(vertex@),
            GetDepOutcome::Evidence(id) => GetDepView::Evidence(id),
        }
    }
}

/// The era by its contents.
pub struct HighwayView {
    pub instance_id: InstanceId,
    pub validators: Seq<Validator>,
    pub state: StateView,
    pub active_validator: Option<ActiveValidator>,
    /// The round exponent that this node goes by.
    pub round_exp: u8,
}

impl StateView {
    /// The place of the block to build on among the first `n` blocks: the first of the
    /// highest.
    pub open spec fn tip_before(self, n: int) -> Option<int>
        decreases n,
    {
        if n <= 0 {
            None
        } else {
            match self.tip_before(n - 1) {
                Some(i) => if self.blocks[n - 1].1.height > self.blocks[i].1.height {
                    Some(n - 1)
                } else {
                    Some(i)
                },
                None => Some(n - 1),
            }
        }
    }

    /// The block to build on: the first of the highest blocks.
    pub open spec fn tip(self) -> Option<UnitHash> {
        match self.tip_before(self.blocks.len() as int) {
            Some(i) => Some(self.blocks[i].0),
            None => None,
        }
    }

    /// The height of a block that builds on the tip.
    pub open spec fn next_height(self) -> u64 {
        match self.tip_before(self.blocks.len() as int) {
            Some(i) => if self.blocks[i].1.height < u64::MAX {
                (self.blocks[i].1.height + 1) as u64
            } else {
                u64::MAX
            },
            None => 0,
        }
    }

    /// The number of the next unit of a validator: one more than that of its latest unit.
    pub open spec fn next_seq_number(self, index: ValidatorIndex) -> u64 {
        match observation_at(self.panorama, index) {
            Observation::Correct(hash) => if self.has_unit(hash) && self.unit(hash).seq_number
                < u64::MAX {
                (self.unit(hash).seq_number + 1) as u64
            } else {
                0
            },
            _ => 0,
        }
    }

    /// What keeps a vertex with a sound structure from being added to this state, if anything:
    /// a unit must name as its creator's previous unit one of the same creator and the number
    /// before its own, and must build on a block.
    pub open spec fn vertex_error(self, vertex: VertexView) -> Option<MessageError> {
        match vertex {
            VertexView::Unit(unit) => {
                let previous_fits = match unit.previous() {
                    Observation::Correct(hash) => self.has_unit(hash) && self.unit(hash).creator
                        == unit.creator && self.unit(hash).seq_number + 1 == unit.seq_number,
                    Observation::Unseen => unit.seq_number == 0,
                    Observation::Faulty => false,
                };
                if !previous_fits {
                    Some(MessageError::Predecessor)
                } else if unit.parent matches Some(hash) && !self.has_block(hash) {
                    Some(MessageError::Parent)
                } else {
                    None
                }
            },
            _ => None,
        }
    }
}

impl HighwayView {
    /// The validators and the state go together, and the round exponent is within the bounds
    /// of the era.
    pub open spec fn wf(self) -> bool {
        &&& self.state.wf()
        &&& self.state.total_weight() <= u64::MAX
        &&& self.validators.len() == self.state.num_validators()
        &&& self.validators.len() <= u32::MAX
        &&& self.state.params.min_round_exp <= self.round_exp <= self.state.params.max_round_exp
            < 64
        &&& self.active_validator matches Some(av) ==> av.vidx < self.validators.len()
    }

    /// What is wrong with the structure of a vertex, if anything; `authentic` says whether its
    /// signatures hold. A unit must be of a validator and of this instance, with an
    /// observation for each validator, a round exponent within the bounds, and a timestamp
    /// within the era that, for a proposal, is the start of a round of the unit's exponent;
    /// and its number must be zero exactly when it names no unit of its creator before it.
    pub open spec fn structure_error(self, vertex: VertexView, authentic: bool) -> Option<
        MessageError,
    > {
        let n = self.validators.len();
        let params = self.state.params;
        if !authentic {
            Some(MessageError::Signature)
        } else {
            match vertex {
                VertexView::Unit(unit) => if unit.creator >= n {
                    Some(MessageError::UnknownValidator)
                } else if unit.instance_id != self.instance_id {
                    Some(MessageError::WrongInstance)
                } else if unit.panorama.len() != n {
                    Some(MessageError::PanoramaLength)
                } else if unit.round_exp < params.min_round_exp || unit.round_exp
                    > params.max_round_exp {
                    Some(MessageError::RoundExponent)
                } else if unit.timestamp.0 < params.start_timestamp.0 || (unit.value is Some
                    && round_start(unit.timestamp, unit.round_exp) != unit.timestamp) {
                    Some(MessageError::Timestamp)
                } else if unit.previous() is Faulty || (unit.previous() is Unseen) != (
                unit.seq_number == 0) {
                    Some(MessageError::SequenceNumber)
                } else {
                    None
                },
                VertexView::Evidence(evidence) => if evidence.perpetrator() >= n {
                    Some(MessageError::UnknownValidator)
                } else if evidence.unit1.instance_id != self.instance_id
                    || evidence.unit2.instance_id != self.instance_id {
                    Some(MessageError::WrongInstance)
                } else if !evidence.conflicts() {
                    Some(MessageError::NoConflict)
                } else {
                    None
                },
                VertexView::Endorsement(endorsement) => if endorsement.creator >= n {
                    Some(MessageError::UnknownValidator)
                } else {
                    None
                },
                VertexView::Ping(ping) => if ping.creator >= n {
                    Some(MessageError::UnknownValidator)
                } else if ping.instance_id != self.instance_id {
                    Some(MessageError::WrongInstance)
                } else {
                    None
                },
            }
        }
    }

    /// Whether a vertex claims to be of this node's making without being known here: then
    /// someone else uses this node's key.
    pub open spec fn is_doppelganger_vertex(self, vertex: VertexView) -> bool {
        match self.active_validator {
            Some(av) => vertex.creator() == Some(av.vidx) && !self.state.has_vertex(vertex),
            None => false,
        }
    }

    /// The unit that this node would make now, unsigned.
    pub open spec fn new_unit(
        self,
        vidx: ValidatorIndex,
        value: Option<ConsensusValue>,
        timestamp: Timestamp,
    ) -> UnitView {
        UnitView {
            hash: 0,
            creator: vidx,
            instance_id: self.instance_id,
            seq_number: self.state.next_seq_number(vidx),
            round_exp: self.round_exp,
            timestamp,
            panorama: self.state.panorama,
            value,
            parent: self.state.tip(),
            signature: 0,
        }
    }

    /// Whether the validator at `vidx` leads the round that holds `now`: the validators take
    /// turns, starting at the place that the seed of the era gives.
    pub open spec fn is_leader(self, vidx: ValidatorIndex, now: Timestamp) -> bool {
        let n = self.validators.len() as int;
        n > 0 && (self.state.params.seed as int % n + round_index(now, self.round_exp) % n) % n
            == vidx
    }

    /// The start of the round after the one that holds `now`.
    pub open spec fn next_round_start(self, now: Timestamp) -> Timestamp {
        Timestamp(
            saturating_sum(round_start(now, self.round_exp).0, round_length(self.round_exp) as u64),
        )
    }

    /// What this node's own part asks for when its timer goes off at `now`. The leader of the
    /// round asks for a block on the tip, dated at the start of the round. Any other validator
    /// makes a unit that votes for the tip, unless it is paused. Either way the timer is set
    /// for the next round.
    pub open spec fn timer_effects(self, now: Timestamp) -> Seq<AvEffectView> {
        match self.active_validator {
            None => Seq::empty(),
            Some(av) => {
                let first = if self.is_leader(av.vidx, now) {
                    seq![
                        AvEffectView::RequestNewBlock {
                            block_context: BlockContext {
                                timestamp: round_start(now, self.round_exp),
                                height: self.state.next_height(),
                            },
                            fork_choice: self.state.tip(),
                        },
                    ]
                } else if !av.paused {
                    seq![AvEffectView::SignUnit(self.new_unit(av.vidx, None, now))]
                } else {
                    Seq::empty()
                };
                first.push(AvEffectView::ScheduleTimer(self.next_round_start(now)))
            },
        }
    }

    /// What this node's own part asks for when it is given a value to propose.
    pub open spec fn propose_effects(self, value: ConsensusValue, block_context: BlockContext) -> Seq<
        AvEffectView,
    > {
        match self.active_validator {
            Some(av) => if av.paused {
                Seq::empty()
            } else {
                seq![
                    AvEffectView::SignUnit(
                        self.new_unit(av.vidx, Some(value), block_context.timestamp),
                    ),
                ]
            },
            None => Seq::empty(),
        }
    }

    /// The validator that a vertex brings new proof against, if it does: the perpetrator of
    /// evidence, or the creator of a unit that conflicts with one in the state.
    pub open spec fn newly_proven(self, vertex: VertexView) -> Option<ValidatorIndex> {
        let after = self.state.added(vertex);
        match vertex {
            VertexView::Unit(unit) => if !self.state.has_evidence(unit.creator)
                && after.has_evidence(unit.creator) {
                Some(unit.creator)
            } else {
                None
            },
            VertexView::Evidence(evidence) => if !self.state.has_evidence(evidence.perpetrator())
                && after.has_evidence(evidence.perpetrator()) {
                Some(evidence.perpetrator())
            } else {
                None
            },
            _ => None,
        }
    }

    /// What follows from adding a vertex. Where it brings new proof against a validator, the
    /// proof is to be told to the others; where that validator is this node, this node is
    /// faulty.
    pub open spec fn added_effects(self, vertex: VertexView) -> Seq<AvEffectView> {
        match self.newly_proven(vertex) {
            Some(index) => {
                let proof_vertex = AvEffectView::NewVertex(
                    VertexView::Evidence(self.state.added(vertex).evidence(index).unwrap()),
                );
                if self.active_validator matches Some(av) && av.vidx == index {
                    seq![AvEffectView::WeAreFaulty, proof_vertex]
                } else {
                    seq![proof_vertex]
                }
            },
            None => Seq::empty(),
        }
    }

    /// What is found under a dependency: a unit of the state; the proof against a validator,
    /// or its name where it is faulty without proof on the word of the owner; an endorsement
    /// of the unit.
    pub open spec fn dependency(self, dependency: Dependency) -> GetDepView {
        match dependency {
            Dependency::Unit(hash) => if self.state.has_unit(hash) {
                GetDepView::Vertex(
                    VertexView::Unit(
                        UnitView { instance_id: self.instance_id, ..self.state.unit(hash) },
                    ),
                )
            } else {
                GetDepView::Nothing
            },
            Dependency::Evidence(index) => if index < self.state.faults.len() && index
                < self.validators.len() {
                match self.state.faults[index as int] {
                    Some(FaultView::Direct(evidence)) => GetDepView::Vertex(
                        VertexView::Evidence(evidence),
                    ),
                    Some(FaultView::Indirect) => GetDepView::Evidence(
                        self.validators[index as int].id,
                    ),
                    _ => GetDepView::Nothing,
                }
            } else {
                GetDepView::Nothing
            },
            Dependency::Endorsement(hash) => match self.state.first_endorsement(
                hash,
                self.state.endorsements.len() as int,
            ) {
                Some(i) => GetDepView::Vertex(VertexView::Endorsement(self.state.endorsements[i])),
                None => GetDepView::Nothing,
            },
            Dependency::Ping(_, _) => GetDepView::Nothing,
        }
    }
}

impl StateView {
    /// The place of the first endorsement of a unit among the first `n` endorsements.
    pub open spec fn first_endorsement(self, hash: UnitHash, n: int) -> Option<int>
        decreases n,
    {
        if n <= 0 {
            None
        } else {
            match self.first_endorsement(hash, n - 1) {
                Some(i) => Some(i),
                None => if self.endorsements[n - 1].unit == hash {
                    Some(n - 1)
                } else {
                    None
                },
            }
        }
    }
}

} // verus!

verus! {

/// One era of the protocol.
#[derive(Debug)]
pub struct Highway {
    pub instance_id: InstanceId,
    pub validators: Validators,
    pub state: State,
    /// This node's own part, while it takes one.
    pub active_validator: Option<ActiveValidator>,
    /// The round exponent that this node goes by.
    pub round_exp: u8,
}

impl View for Highway {
    type V = HighwayView;

    open spec fn view(&self) -> HighwayView {
        HighwayView {
            instance_id: self.instance_id,
            validators: self.validators.list@,
            state: self.state@,
            active_validator: self.active_validator,
            round_exp: self.round_exp,
        }
    }
}

/// The weights of a list of validators add up to the sum of their weights.
proof fn lemma_weights_sum(list: Seq<Validator>, weights: Seq<u64>)
    requires
        list.len() == weights.len(),
        forall|i: int| 0 <= i < list.len() ==> (#[trigger] weights[i]) == list[i].weight,
    ensures
        crate::state::sum_u64(weights) == crate::validators::sum_weights(list),
    decreases list.len(),
{
    if list.len() > 0 {
        lemma_weights_sum(list.drop_last(), weights.drop_last());
    }
}

impl State {
    /// The block to build on, with its height: the first of the highest blocks.
    pub fn tip(&self) -> (r: Option<(UnitHash, u64)>)
        ensures
            match r {
                Some((hash, height)) => {
                    &&& self@.tip() == Some(hash)
                    &&& self@.tip_before(self@.blocks.len() as int) is Some
                    &&& 0 <= self@.tip_before(self@.blocks.len() as int).unwrap()
                        < self@.blocks.len()
                    &&& self@.blocks[self@.tip_before(
                        self@.blocks.len() as int,
                    ).unwrap()].1.height == height
                },
                None => self@.tip() is None && self@.tip_before(self@.blocks.len() as int)
                    is None,
            },
    {
        if self.blocks.len() == 0 {
            return None;
        }
        let mut best: usize = 0;
        let mut i: usize = 1;
        assert(self@.tip_before(1) == Some(0int)) by {
            assert(self@.tip_before(0) is None);
        }
        while i < self.blocks.len()
            invariant
                1 <= i <= self.blocks@.len(),
                best < i,
                self@.tip_before(i as int) == Some(best as int),
            decreases self.blocks@.len() - i,
        {
            if self.blocks[i].1.height > self.blocks[best].1.height {
                best = i;
            }
            i = i + 1;
        }
        Some((self.blocks[best].0, self.blocks[best].1.height))
    }

    /// The number of the next unit of a validator.
    pub fn next_seq_number(&self, index: ValidatorIndex) -> (r: u64)
        requires
            self.wf(),
        ensures
            r == self@.next_seq_number(index),
    {
        match self.panorama.get(index) {
            Observation::Correct(hash) => match self.unit(hash) {
                Some(unit) => if unit.seq_number < u64::MAX {
                    unit.seq_number + 1
                } else {
                    0
                },
                None => 0,
            },
            _ => 0,
        }
    }

    /// What keeps a vertex with a sound structure from being added to this state, if anything.
    pub fn vertex_error(&self, vertex: &Vertex) -> (r: Option<MessageError>)
        requires
            self.wf(),
        ensures
            r == self@.vertex_error(vertex@),
    {
        match vertex {
            Vertex::Unit(unit) => {
                let previous_fits = match unit.panorama.get(unit.creator) {
                    Observation::Correct(hash) => match self.unit(hash) {
                        Some(previous) => previous.creator == unit.creator && previous.seq_number
                            < u64::MAX && previous.seq_number + 1 == unit.seq_number,
                        None => false,
                    },
                    Observation::Unseen => unit.seq_number == 0,
                    Observation::Faulty => false,
                };
                if !previous_fits {
                    Some(MessageError::Predecessor)
                } else {
                    match unit.parent {
                        Some(hash) => if self.block(hash).is_none() {
                            Some(MessageError::Parent)
                        } else {
                            None
                        },
                        None => None,
                    }
                }
            },
            _ => None,
        }
    }
}

impl Highway {
    /// The era is well formed.
    pub open spec fn wf(&self) -> bool {
        self@.wf()
    }

    /// A new era with the given validators, in which no unit is known yet. The round exponent
    /// starts at the initial one, moved into the bounds of the era if need be.
    pub fn new(instance_id: InstanceId, validators: Validators, params: Params) -> (r: Self)
        requires
            validators.wf(),
            params.min_round_exp <= params.max_round_exp < 64,
        ensures
            r.wf(),
            r@.instance_id == instance_id,
            r@.validators == validators.list@,
            r@.active_validator is None,
            r@.round_exp == if params.init_round_exp < params.min_round_exp {
                params.min_round_exp
            } else if params.init_round_exp > params.max_round_exp {
                params.max_round_exp
            } else {
                params.init_round_exp
            },
            r@.state.params == params,
            r@.state.units.len() == 0,
            r@.state.blocks.len() == 0,
            r@.state.endorsements.len() == 0,
            r@.state.total_weight() == crate::validators::sum_weights(validators.list@),
            forall|i: int|
                0 <= i < validators.list@.len() ==> {
                    &&& (#[trigger] r@.state.weights[i]) == validators.list@[i].weight
                    &&& r@.state.panorama[i] == if validators.list@[i].banned {
                        Observation::Faulty
                    } else {
                        Observation::Unseen
                    }
                    &&& r@.state.faults[i] == if validators.list@[i].banned {
                        Some(FaultView::Banned)
                    } else {
                        None
                    }
                },
    {
        let mut weights: Vec<u64> = Vec::new();
        let mut banned: Vec<bool> = Vec::new();
        let mut i: usize = 0;
        while i < validators.list.len()
            invariant
                i <= validators.list@.len(),
                weights@.len() == i,
                banned@.len() == i,
                forall|j: int|
                    0 <= j < i ==> (#[trigger] weights@[j]) == validators.list@[j].weight
                        && banned@[j] == validators.list@[j].banned,
            decreases validators.list@.len() - i,
        {
            weights.push(validators.list[i].weight);
            banned.push(validators.list[i].banned);
            i = i + 1;
        }
        proof {
            lemma_weights_sum(validators.list@, weights@);
        }
        let ghost weights_view = weights@;
        let state = State::new(weights, &banned, params);
        let round_exp = if params.init_round_exp < params.min_round_exp {
            params.min_round_exp
        } else if params.init_round_exp > params.max_round_exp {
            params.max_round_exp
        } else {
            params.init_round_exp
        };
        let r = Highway { instance_id, validators, state, active_validator: None, round_exp };
        proof {
            assert forall|j: int| 0 <= j < r.validators.list@.len() implies {
                &&& (#[trigger] r@.state.weights[j]) == r.validators.list@[j].weight
                &&& r@.state.panorama[j] == if r.validators.list@[j].banned {
                    Observation::Faulty
                } else {
                    Observation::Unseen
                }
                &&& r@.state.faults[j] == if r.validators.list@[j].banned {
                    Some(FaultView::Banned)
                } else {
                    None
                }
            } by {
                assert(weights_view[j] == r.validators.list@[j].weight);
                assert(r@.state.panorama[j] == r@.state.panorama[j]);
            }
        }
        r
    }

    pub fn validators(&self) -> (r: &Validators)
        ensures
            r == self.validators,
    {
        &self.validators
    }

    pub fn state(&self) -> (r: &State)
        ensures
            r == self.state,
    {
        &self.state
    }

    pub fn instance_id(&self) -> (r: InstanceId)
        ensures
            r == self@.instance_id,
    {
        self.instance_id
    }

    /// Whether this node takes part in the era.
    pub fn is_active(&self) -> (r: bool)
        ensures
            r == self@.active_validator is Some,
    {
        self.active_validator.is_some()
    }

    /// Ends this node's part in the era.
    pub fn deactivate_validator(&mut self)
        ensures
            final(self)@ == (HighwayView { active_validator: None, ..old(self)@ }),
    {
        self.active_validator = None;
    }

    /// Pauses this node's part, or takes it up again.
    pub fn set_paused(&mut self, paused: bool)
        ensures
            final(self)@ == (HighwayView {
                active_validator: match old(self)@.active_validator {
                    Some(av) => Some(ActiveValidator { paused, ..av }),
                    None => None,
                },
                ..old(self)@
            }),
    {
        match self.active_validator {
            Some(av) => {
                self.active_validator = Some(ActiveValidator { vidx: av.vidx, paused });
            },
            None => {},
        }
    }

    /// Sets the round exponent that this node goes by, moved into the bounds of the era if
    /// need be.
    pub fn set_round_exp(&mut self, new_round_exp: u8)
        requires
            old(self).wf(),
        ensures
            final(self).wf(),
            final(self)@ == old(self)@.with_round_exp(new_round_exp),
    {
        let params = self.state.params;
        self.round_exp = if new_round_exp < params.min_round_exp {
            params.min_round_exp
        } else if new_round_exp > params.max_round_exp {
            params.max_round_exp
        } else {
            new_round_exp
        };
    }

    /// The length of this node's next round, while it takes part.
    pub fn next_round_length(&self) -> (r: Option<TimeDiff>)
        requires
            self.wf(),
        ensures
            r == match self@.active_validator {
                Some(_) => Some(TimeDiff(round_length(self@.round_exp) as u64)),
                None => None,
            },
    {
        match self.active_validator {
            Some(_) => Some(TimeDiff(round_len(self.round_exp))),
            None => None,
        }
    }

    /// The latest unit of this node's making that the state has.
    pub fn latest_own_unit(&self) -> (r: Option<&SignedWireUnit>)
        requires
            self.wf(),
        ensures
            match self@.active_validator {
                Some(av) => match self@.state.panorama[av.vidx as int] {
                    Observation::Correct(hash) => (r is Some <==> self@.state.has_unit(hash)) && (
                    r matches Some(unit) ==> unit@ == self@.state.unit(hash)),
                    _ => r is None,
                },
                None => r is None,
            },
    {
        match self.active_validator {
            Some(av) => match self.state.panorama.get(av.vidx) {
                Observation::Correct(hash) => self.state.unit(hash),
                _ => None,
            },
            None => None,
        }
    }

    /// Drops all units; what is left is who is faulty, and the proof.
    pub fn retain_evidence_only(&mut self)
        requires
            old(self).wf(),
        ensures
            final(self).wf(),
            final(self)@ == (HighwayView { state: old(self)@.state.evidence_only(), ..old(self)@ }),
    {
        self.state.retain_evidence_only();
        proof {
            assert(self@.state.total_weight() == old(self)@.state.total_weight());
        }
    }

    /// Whether the state holds proof against the validator.
    pub fn has_evidence(&self, vid: ValidatorId) -> (r: bool)
        requires
            self.wf(),
        ensures
            r == match index_of(self@.validators, vid) {
                Some(index) => self@.state.has_evidence(index),
                None => false,
            },
    {
        match self.validators.get_index(vid) {
            Some(index) => self.state.has_evidence(index),
            None => false,
        }
    }

    /// Calls a validator faulty without proof.
    pub fn mark_faulty(&mut self, vid: ValidatorId)
        requires
            old(self).wf(),
        ensures
            final(self).wf(),
            final(self)@ == (HighwayView {
                state: match index_of(old(self)@.validators, vid) {
                    Some(index) => old(self)@.state.marked_faulty(index),
                    None => old(self)@.state,
                },
                ..old(self)@
            }),
    {
        match self.validators.get_index(vid) {
            Some(index) => {
                self.state.mark_faulty(index);
                proof {
                    assert(self@.state.total_weight() == old(self)@.state.total_weight());
                }
            },
            None => {},
        }
    }

    /// The validators that the state holds proof against, in the order of the table.
    pub fn validators_with_evidence(&self) -> (r: Vec<ValidatorId>)
        requires
            self.wf(),
        ensures
            r@ == self@.proven_before(self@.validators.len() as int),
    {
        let mut ids: Vec<ValidatorId> = Vec::new();
        let mut i: usize = 0;
        while i < self.validators.list.len()
            invariant
                i <= self.validators.list@.len(),
                self.wf(),
                ids@ == self@.proven_before(i as int),
            decreases self.validators.list@.len() - i,
        {
            if self.state.has_evidence(i as u32) {
                ids.push(self.validators.list[i].id);
            }
            i = i + 1;
        }
        ids
    }
}

impl HighwayView {
    /// The era with the round exponent set, moved into the bounds of the era if need be.
    pub open spec fn with_round_exp(self, new_round_exp: u8) -> Self {
        HighwayView {
            round_exp: if new_round_exp < self.state.params.min_round_exp {
                self.state.params.min_round_exp
            } else if new_round_exp > self.state.params.max_round_exp {
                self.state.params.max_round_exp
            } else {
                new_round_exp
            },
            ..self
        }
    }

    /// The validators among the first `n` that the state holds proof against.
    pub open spec fn proven_before(self, n: int) -> Seq<ValidatorId>
        decreases n,
    {
        if n <= 0 {
            Seq::empty()
        } else if self.state.has_evidence((n - 1) as ValidatorIndex) {
            self.proven_before(n - 1).push(self.validators[n - 1].id)
        } else {
            self.proven_before(n - 1)
        }
    }
}

} // verus!

verus! {

impl Highway {
    /// Whether adding the vertex would tell the state nothing new.
    pub fn has_vertex(&self, vertex: &Vertex) -> (r: bool)
        ensures
            r == self@.state.has_vertex(vertex@),
    {
        self.state.has_vertex(vertex)
    }

    /// What is wrong with the structure of a vertex, if anything.
    pub fn structure_error(&self, vertex: &Vertex, authentic: bool) -> (r: Option<MessageError>)
        requires
            self.wf(),
        ensures
            r == self@.structure_error(vertex@, authentic),
    {
        let n = self.validators.list.len();
        let params = self.state.params;
        if !authentic {
            return Some(MessageError::Signature);
        }
        match vertex {
            Vertex::Unit(unit) => {
                if unit.creator as usize >= n {
                    Some(MessageError::UnknownValidator)
                } else if unit.instance_id != self.instance_id {
                    Some(MessageError::WrongInstance)
                } else if unit.panorama.len() != n {
                    Some(MessageError::PanoramaLength)
                } else if unit.round_exp < params.min_round_exp || unit.round_exp
                    > params.max_round_exp {
                    Some(MessageError::RoundExponent)
                } else if unit.timestamp.0 < params.start_timestamp.0 || (unit.value.is_some()
                    && round_id(unit.timestamp, unit.round_exp).0 != unit.timestamp.0) {
                    Some(MessageError::Timestamp)
                } else {
                    match unit.panorama.get(unit.creator) {
                        Observation::Faulty => Some(MessageError::SequenceNumber),
                        Observation::Unseen => if unit.seq_number == 0 {
                            None
                        } else {
                            Some(MessageError::SequenceNumber)
                        },
                        Observation::Correct(_) => if unit.seq_number == 0 {
                            Some(MessageError::SequenceNumber)
                        } else {
                            None
                        },
                    }
                }
            },
            Vertex::Evidence(evidence) => {
                if evidence.perpetrator() as usize >= n {
                    Some(MessageError::UnknownValidator)
                } else if evidence.unit1.instance_id != self.instance_id
                    || evidence.unit2.instance_id != self.instance_id {
                    Some(MessageError::WrongInstance)
                } else if !(evidence.unit1.creator == evidence.unit2.creator
                    && evidence.unit1.seq_number == evidence.unit2.seq_number
                    && evidence.unit1.hash != evidence.unit2.hash) {
                    Some(MessageError::NoConflict)
                } else {
                    None
                }
            },
            Vertex::Endorsement(endorsement) => if endorsement.creator as usize >= n {
                Some(MessageError::UnknownValidator)
            } else {
                None
            },
            Vertex::Ping(ping) => if ping.creator as usize >= n {
                Some(MessageError::UnknownValidator)
            } else if ping.instance_id != self.instance_id {
                Some(MessageError::WrongInstance)
            } else {
                None
            },
        }
    }

    /// Checks what can be checked of a vertex without the state: its structure; `authentic`
    /// says whether its signatures hold. The vertex comes back, with the fault if there is
    /// one.
    pub fn pre_validate_vertex(&self, vertex: Vertex, authentic: bool) -> (r: Result<
        Vertex,
        (Vertex, MessageError),
    >)
        requires
            self.wf(),
        ensures
            match r {
                Ok(checked) => checked == vertex && self@.structure_error(vertex@, authentic)
                    is None,
                Err((failed, error)) => failed == vertex && self@.structure_error(
                    vertex@,
                    authentic,
                ) == Some(error),
            },
    {
        match self.structure_error(&vertex, authentic) {
            Some(error) => Err((vertex, error)),
            None => Ok(vertex),
        }
    }

    /// Checks a vertex against the state. The vertex comes back, with the fault if there is
    /// one.
    pub fn validate_vertex(&self, vertex: Vertex) -> (r: Result<Vertex, (Vertex, MessageError)>)
        requires
            self.wf(),
        ensures
            match r {
                Ok(checked) => checked == vertex && self@.state.vertex_error(vertex@) is None,
                Err((failed, error)) => failed == vertex && self@.state.vertex_error(vertex@)
                    == Some(error),
            },
    {
        match self.state.vertex_error(&vertex) {
            Some(error) => Err((vertex, error)),
            None => Ok(vertex),
        }
    }

    /// What a vertex needs and the state does not have yet.
    pub fn missing_dependency(&self, vertex: &Vertex) -> (r: Option<Dependency>)
        ensures
            r == self@.state.missing_dependency(vertex@),
    {
        self.state.missing_dependency(vertex)
    }

    /// Whether a vertex claims to be of this node's making without being known here.
    pub fn is_doppelganger_vertex(&self, vertex: &Vertex) -> (r: bool)
        ensures
            r == self@.is_doppelganger_vertex(vertex@),
    {
        match self.active_validator {
            Some(av) => match vertex.creator() {
                Some(creator) => creator == av.vidx && !self.state.has_vertex(vertex),
                None => false,
            },
            None => false,
        }
    }

    /// Adds a vertex to the state and returns what follows from it.
    pub fn add_valid_vertex(&mut self, vertex: Vertex) -> (r: Vec<AvEffect>)
        requires
            old(self).wf(),
        ensures
            final(self).wf(),
            final(self)@ == (HighwayView {
                state: old(self)@.state.added(vertex@),
                ..old(self)@
            }),
            av_effects_are(r@, old(self)@.added_effects(vertex@)),
    {
        let ghost before = self@;
        let suspect: Option<ValidatorIndex> = match &vertex {
            Vertex::Unit(unit) => Some(unit.creator),
            Vertex::Evidence(evidence) => Some(evidence.perpetrator()),
            _ => None,
        };
        let had_evidence = match suspect {
            Some(index) => self.state.has_evidence(index),
            None => false,
        };
        self.state.add_vertex(vertex);
        let mut effects: Vec<AvEffect> = Vec::new();
        match suspect {
            Some(index) => {
                if !had_evidence {
                    match self.state.maybe_evidence(index) {
                        Some(evidence) => {
                            match self.active_validator {
                                Some(av) => {
                                    if av.vidx == index {
                                        effects.push(AvEffect::WeAreFaulty);
                                    }
                                },
                                None => {},
                            }
                            effects.push(AvEffect::NewVertex(Vertex::Evidence(evidence.duplicate())));
                        },
                        None => {},
                    }
                }
            },
            None => {},
        }
        effects
    }

    /// What is found under a dependency.
    pub fn get_dependency(&self, dependency: &Dependency) -> (r: GetDepOutcome)
        requires
            self.wf(),
        ensures
            r@ == self@.dependency(*dependency),
    {
        match dependency {
            Dependency::Unit(hash) => match self.state.wire_unit(*hash, self.instance_id) {
                Some(unit) => GetDepOutcome::Vertex(Vertex::Unit(unit)),
                None => GetDepOutcome::Nothing,
            },
            Dependency::Evidence(index) => {
                let i = *index as usize;
                if i < self.state.faults.len() && i < self.validators.list.len() {
                    match &self.state.faults[i] {
                        Some(crate::state::Fault::Direct(evidence)) => GetDepOutcome::Vertex(
                            Vertex::Evidence(evidence.duplicate()),
                        ),
                        Some(crate::state::Fault::Indirect) => GetDepOutcome::Evidence(
                            self.validators.list[i].id,
                        ),
                        _ => GetDepOutcome::Nothing,
                    }
                } else {
                    GetDepOutcome::Nothing
                }
            },
            Dependency::Endorsement(hash) => {
                let mut i: usize = 0;
                while i < self.state.endorsements.len()
                    invariant
                        i <= self.state.endorsements@.len(),
                        *dependency == Dependency::Endorsement(*hash),
                        self@.state.first_endorsement(*hash, i as int) is None,
                    decreases self.state.endorsements@.len() - i,
                {
                    if self.state.endorsements[i].unit == *hash {
                        proof {
                            lemma_first_endorsement_found(
                                self@.state,
                                *hash,
                                i as int,
                                self@.state.endorsements.len() as int,
                            );
                        }
                        return GetDepOutcome::Vertex(
                            Vertex::Endorsement(self.state.endorsements[i]),
                        );
                    }
                    i = i + 1;
                }
                GetDepOutcome::Nothing
            },
            Dependency::Ping(_, _) => GetDepOutcome::Nothing,
        }
    }

    /// The unit that this node would make now, unsigned.
    fn new_unit(&self, vidx: ValidatorIndex, value: Option<ConsensusValue>, timestamp: Timestamp) -> (r:
        SignedWireUnit)
        requires
            self.wf(),
        ensures
            r@ == self@.new_unit(vidx, value, timestamp),
    {
        let parent = match self.state.tip() {
            Some((hash, _)) => Some(hash),
            None => None,
        };
        SignedWireUnit {
            hash: 0,
            creator: vidx,
            instance_id: self.instance_id,
            seq_number: self.state.next_seq_number(vidx),
            round_exp: self.round_exp,
            timestamp,
            panorama: self.state.panorama.duplicate(),
            value,
            parent,
            signature: 0,
        }
    }

    /// Whether the validator at `vidx` leads the round that holds `now`.
    fn is_leader(&self, vidx: ValidatorIndex, now: Timestamp) -> (r: bool)
        requires
            self.wf(),
        ensures
            r == self@.is_leader(vidx, now),
    {
        let n = self.validators.list.len() as u64;
        if n == 0 {
            return false;
        }
        let len = round_len(self.round_exp);
        let index = now.0 / len;
        (self.state.params.seed % n + index % n) % n == vidx as u64
    }

    /// The instant for which the timer is first set when this node takes part from `now` on.
    fn first_timer(&self, now: Timestamp) -> (r: Timestamp)
        requires
            self.wf(),
        ensures
            r == self@.next_round_start(now.latest(self@.state.params.start_timestamp)),
    {
        let from = now.max(self.state.params.start_timestamp);
        self.next_round_start(from)
    }

    /// The start of the round after the one that holds `now`.
    fn next_round_start(&self, now: Timestamp) -> (r: Timestamp)
        requires
            self.wf(),
        ensures
            r == self@.next_round_start(now),
    {
        let start = round_id(now, self.round_exp);
        start.saturating_add(TimeDiff(round_len(self.round_exp)))
    }

    /// Lets this node's own part act on its timer at `now`.
    pub fn handle_timer(&self, now: Timestamp) -> (r: Vec<AvEffect>)
        requires
            self.wf(),
        ensures
            av_effects_are(r@, self@.timer_effects(now)),
    {
        let mut effects: Vec<AvEffect> = Vec::new();
        match self.active_validator {
            None => {},
            Some(av) => {
                if self.is_leader(av.vidx, now) {
                    let (fork_choice, height): (Option<UnitHash>, u64) = match self.state.tip() {
                        Some((hash, height)) => (
                            Some(hash),
                            if height < u64::MAX {
                                height + 1
                            } else {
                                u64::MAX
                            },
                        ),
                        None => (None, 0),
                    };
                    effects.push(
                        AvEffect::RequestNewBlock {
                            block_context: BlockContext {
                                timestamp: round_id(now, self.round_exp),
                                height,
                            },
                            fork_choice,
                        },
                    );
                } else if !av.paused {
                    effects.push(AvEffect::SignUnit(self.new_unit(av.vidx, None, now)));
                }
                effects.push(AvEffect::ScheduleTimer(self.next_round_start(now)));
            },
        }
        effects
    }

    /// Lets this node's own part propose a value.
    pub fn propose(&self, value: ConsensusValue, block_context: BlockContext) -> (r: Vec<AvEffect>)
        requires
            self.wf(),
        ensures
            av_effects_are(r@, self@.propose_effects(value, block_context)),
    {
        let mut effects: Vec<AvEffect> = Vec::new();
        match self.active_validator {
            Some(av) => {
                if !av.paused {
                    effects.push(
                        AvEffect::SignUnit(
                            self.new_unit(av.vidx, Some(value), block_context.timestamp),
                        ),
                    );
                }
            },
            None => {},
        }
        effects
    }

    /// Lets this node take part in the era as the given validator, and sets its timer for the
    /// start of the next round. A node that is no validator of the era, or a banned one, takes
    /// no part.
    pub fn activate_validator(&mut self, our_id: ValidatorId, now: Timestamp) -> (r: Vec<AvEffect>)
        requires
            old(self).wf(),
        ensures
            final(self).wf(),
            final(self)@ == old(self)@.activated(our_id),
            av_effects_are(r@, old(self)@.activation_effects(our_id, now)),
    {
        let mut effects: Vec<AvEffect> = Vec::new();
        let found = self.validators.get_index(our_id);
        match found {
            Some(index) => {
                if !self.validators.list[index as usize].banned {
                    let start = self.first_timer(now);
                    self.active_validator = Some(ActiveValidator { vidx: index, paused: false });
                    effects.push(AvEffect::ScheduleTimer(start));
                }
            },
            None => {},
        }
        effects
    }
}

impl HighwayView {
    /// The place at which a node takes part as the given validator: the validator's place in
    /// the table, unless it is banned.
    pub open spec fn place_of(self, our_id: ValidatorId) -> Option<ValidatorIndex> {
        match index_of(self.validators, our_id) {
            Some(index) => if self.validators[index as int].banned {
                None
            } else {
                Some(index)
            },
            None => None,
        }
    }

    /// The era after this node was let take part as the given validator.
    pub open spec fn activated(self, our_id: ValidatorId) -> Self {
        match self.place_of(our_id) {
            Some(index) => HighwayView {
                active_validator: Some(ActiveValidator { vidx: index, paused: false }),
                ..self
            },
            None => self,
        }
    }

    /// What this node's own part asks for when it begins: its timer, for the start of the
    /// round after the one that holds `now` or, before the era, the start of the era.
    pub open spec fn activation_effects(self, our_id: ValidatorId, now: Timestamp) -> Seq<
        AvEffectView,
    > {
        match self.place_of(our_id) {
            Some(_) => seq![
                AvEffectView::ScheduleTimer(
                    self.next_round_start(now.latest(self.state.params.start_timestamp)),
                ),
            ],
            None => Seq::empty(),
        }
    }
}

/// An endorsement found at a place, with none before it, is the first one.
proof fn lemma_first_endorsement_found(state: StateView, hash: UnitHash, i: int, n: int)
    requires
        0 <= i < n <= state.endorsements.len(),
        state.first_endorsement(hash, i) is None,
        state.endorsements[i].unit == hash,
    ensures
        state.first_endorsement(hash, n) == Some(i),
    decreases n - i,
{
    if n > i + 1 {
        lemma_first_endorsement_found(state, hash, i, n - 1);
    }
}

} // verus!

verus! {

/// How a validator falls short of taking part.
#[derive(Clone, Copy, Debug, PartialEq, Eq, Structural)]
pub enum ParticipationStatus {
    /// Nothing has been seen of the validator in this era.
    Inactive,
    /// The validator was banned before the era began.
    Banned,
    /// The validator is faulty: there is proof, or the word of the owner of the protocol.
    Equivocated,
}

impl HighwayView {
    /// How the validator at a place falls short of taking part, if it does.
    pub open spec fn status_of(self, i: int) -> Option<ParticipationStatus> {
        match self.state.faults[i] {
            Some(FaultView::Banned) => Some(ParticipationStatus::Banned),
            Some(_) => Some(ParticipationStatus::Equivocated),
            None => if self.state.panorama[i] is Unseen {
                Some(ParticipationStatus::Inactive)
            } else {
                None
            },
        }
    }

    /// The validators among the first `n` that fall short of taking part, each with how.
    pub open spec fn participation_before(self, n: int) -> Seq<(ValidatorId, ParticipationStatus)>
        decreases n,
    {
        if n <= 0 {
            Seq::empty()
        } else {
            match self.status_of(n - 1) {
                Some(status) => self.participation_before(n - 1).push(
                    (self.validators[n - 1].id, status),
                ),
                None => self.participation_before(n - 1),
            }
        }
    }
}

impl Highway {
    /// The validators that are inactive or faulty, in the order of the table, each with how
    /// it falls short.
    pub fn participation(&self) -> (r: Vec<(ValidatorId, ParticipationStatus)>)
        requires
            self.wf(),
        ensures
            r@ == self@.participation_before(self@.validators.len() as int),
    {
        let mut report: Vec<(ValidatorId, ParticipationStatus)> = Vec::new();
        let mut i: usize = 0;
        while i < self.validators.list.len()
            invariant
                i <= self.validators.list@.len(),
                self.wf(),
                report@ == self@.participation_before(i as int),
            decreases self.validators.list@.len() - i,
        {
            let id = self.validators.list[i].id;
            assert(self@.state.faults[i as int] == crate::state::fault_view(
                self.state.faults@[i as int],
            ));
            match &self.state.faults[i] {
                Some(crate::state::Fault::Banned) => {
                    report.push((id, ParticipationStatus::Banned));
                },
                Some(_) => {
                    report.push((id, ParticipationStatus::Equivocated));
                },
                None => {
                    match self.state.panorama.obs[i] {
                        Observation::Unseen => {
                            report.push((id, ParticipationStatus::Inactive));
                        },
                        _ => {},
                    }
                },
            }
            i = i + 1;
        }
        report
    }
}

} // verus!
