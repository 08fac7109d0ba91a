//! The protocol state: the units that are known, who is known to be faulty, and the proof.
//!
//! Units are kept in the order in which they were added. A validator's units are numbered;
//! two units of one validator under one number are an equivocation, and the second one to
//! arrive makes the validator faulty.

use vstd::prelude::*;
use crate::keyed::{as_map, distinct_keys, has_key};
use crate::time::Timestamp;
use crate::vertex::{
    observation_at, ConsensusValue, Dependency, Endorsement, Evidence, EvidenceView, Observation,
    Panorama, Ping, SignedWireUnit, UnitHash, UnitView, ValidatorIndex, Vertex, VertexView,
};

verus! {

/// The parameters of an era.
#[derive(Clone, Copy, Debug)]
pub struct Params {
    pub seed: u64,
    pub block_reward: u64,
    pub reduced_block_reward: u64,
    pub min_round_exp: u8,
    pub max_round_exp: u8,
    pub init_round_exp: u8,
    /// The least height of the last block of the era, plus one.
    pub end_height: u64,
    pub start_timestamp: Timestamp,
    pub end_timestamp: Timestamp,
    pub endorsement_evidence_limit: u64,
}

/// A proposed block as the state keeps it.
#[derive(Clone, Copy, Debug)]
pub struct Block {
    pub height: u64,
    pub parent: Option<UnitHash>,
    pub value: ConsensusValue,
    pub timestamp: Timestamp,
    pub proposer: ValidatorIndex,
}

/// Why a validator counts as faulty.
#[derive(Debug)]
pub enum Fault {
    /// The validator was banned before the era began.
    Banned,
    /// The owner of the state said so.
    Indirect,
    /// The state holds proof.
    Direct(Evidence),
}

/// A fault by its contents.
pub enum FaultView {
    Banned,
    Indirect,
    Direct(EvidenceView),
}

/// The contents of an entry in the table of faults.
pub open spec fn fault_view(fault: Option<Fault>) -> Option<FaultView> {
    match fault {
        None => None,
        Some(Fault::Banned) => Some(FaultView::Banned),
        Some(Fault::Indirect) => Some(FaultView::Indirect),
        Some(Fault::Direct(evidence)) => Some(FaultView::Direct(evidence@)),
    }
}

/// The two conflicting units as evidence, the one with the lesser hash first.
pub open spec fn evidence_of(a: UnitView, b: UnitView) -> EvidenceView {
    if a.hash <= b.hash {
        EvidenceView { unit1: a, unit2: b }
    } else {
        EvidenceView { unit1: b, unit2: a }
    }
}

/// The protocol state by its contents.
pub struct StateView {
    pub params: Params,
    pub weights: Seq<u64>,
    pub units: Seq<(UnitHash, UnitView)>,
    pub blocks: Seq<(UnitHash, Block)>,
    pub panorama: Seq<Observation>,
    pub faults: Seq<Option<FaultView>>,
    pub pings: Seq<Timestamp>,
    pub endorsements: Seq<Endorsement>,
}

impl StateView {
    /// The tables have one entry for each validator, and a validator is `Faulty` in the
    /// panorama exactly when a fault is recorded for it; units are kept under their hash, no
    /// hash twice, and evidence is kept under the validator it is against.
    pub open spec fn wf(self) -> bool {
        &&& self.weights.len() <= u32::MAX
        &&& self.panorama.len() == self.weights.len()
        &&& self.faults.len() == self.weights.len()
        &&& self.pings.len() == self.weights.len()
        &&& distinct_keys(self.units)
        &&& distinct_keys(self.blocks)
        &&& forall|i: int| 0 <= i < self.units.len() ==> (#[trigger] self.units[i]).0 == self.units[i].1.hash
        &&& forall|i: int|
            0 <= i < self.panorama.len() ==> ((#[trigger] self.panorama[i]) is Faulty
                <==> self.faults[i] is Some)
        &&& forall|i: int|
            0 <= i < self.faults.len() ==> ((#[trigger] self.faults[i]) matches Some(
                FaultView::Direct(evidence),
            ) ==> evidence.perpetrator() == i)
    }

    pub open spec fn num_validators(self) -> nat {
        self.weights.len()
    }

    pub open spec fn has_unit(self, hash: UnitHash) -> bool {
        has_key(self.units, hash)
    }

    /// The unit with the given hash, for a hash that the state has.
    pub open spec fn unit(self, hash: UnitHash) -> UnitView {
        as_map(self.units)[hash]
    }

    pub open spec fn has_block(self, hash: UnitHash) -> bool {
        has_key(self.blocks, hash)
    }

    /// The block with the given hash, for a hash that the state has a block for.
    pub open spec fn block(self, hash: UnitHash) -> Block {
        as_map(self.blocks)[hash]
    }

    pub open spec fn is_faulty(self, index: ValidatorIndex) -> bool {
        index < self.faults.len() && self.faults[index as int] is Some
    }

    /// The proof against a validator, where the state holds one.
    pub open spec fn evidence(self, index: ValidatorIndex) -> Option<EvidenceView> {
        if index < self.faults.len() {
            match self.faults[index as int] {
                Some(FaultView::Direct(evidence)) => Some(evidence),
                _ => None,
            }
        } else {
            None
        }
    }

    pub open spec fn has_evidence(self, index: ValidatorIndex) -> bool {
        self.evidence(index) is Some
    }

    /// Whether the state has what the identity names.
    pub open spec fn has_dependency(self, dependency: Dependency) -> bool {
        match dependency {
            Dependency::Unit(hash) => self.has_unit(hash),
            Dependency::Evidence(index) => self.is_faulty(index),
            Dependency::Endorsement(hash) => exists|i: int|
                0 <= i < self.endorsements.len() && (#[trigger] self.endorsements[i]).unit == hash,
            Dependency::Ping(creator, timestamp) => creator < self.pings.len()
                && self.pings[creator as int].0 >= timestamp.0,
        }
    }

    /// Whether adding the vertex would tell the state nothing new.
    pub open spec fn has_vertex(self, vertex: VertexView) -> bool {
        match vertex {
            VertexView::Unit(unit) => self.has_unit(unit.hash),
            VertexView::Evidence(evidence) => self.has_evidence(evidence.perpetrator()),
            VertexView::Endorsement(endorsement) => self.endorsements.contains(endorsement),
            VertexView::Ping(ping) => self.has_dependency(
                Dependency::Ping(ping.creator, ping.timestamp),
            ),
        }
    }

    /// The place of the first unit that conflicts with `unit`, among the first `n` units: one
    /// of the same creator and number under another hash.
    pub open spec fn conflict_before(self, unit: UnitView, n: int) -> Option<int>
        decreases n,
    {
        if n <= 0 {
            None
        } else {
            match self.conflict_before(unit, n - 1) {
                Some(i) => Some(i),
                None => if unit_conflicts(self.units[n - 1].1, unit) {
                    Some(n - 1)
                } else {
                    None
                },
            }
        }
    }

    /// The place of the first unit that conflicts with `unit`.
    pub open spec fn conflict(self, unit: UnitView) -> Option<int> {
        self.conflict_before(unit, self.units.len() as int)
    }

    /// The height of a new block on the given parent, where it can be a block of this state:
    /// the first block has no parent, any other stands on a block of the state.
    pub open spec fn height_on(self, parent: Option<UnitHash>) -> Option<u64> {
        match parent {
            None => Some(0u64),
            Some(hash) => if self.has_block(hash) && self.block(hash).height < u64::MAX {
                Some((self.block(hash).height + 1) as u64)
            } else {
                None
            },
        }
    }

    /// The blocks after a unit was added: one more where the unit proposes a value on a
    /// parent that the state knows as a block.
    pub open spec fn blocks_with(self, unit: UnitView) -> Seq<(UnitHash, Block)> {
        match (unit.value, self.height_on(unit.parent)) {
            (Some(value), Some(height)) => if self.has_block(unit.hash) {
                self.blocks
            } else {
                self.blocks.push(
                    (
                        unit.hash,
                        Block {
                            height,
                            parent: unit.parent,
                            value,
                            timestamp: unit.timestamp,
                            proposer: unit.creator,
                        },
                    ),
                )
            },
            _ => self.blocks,
        }
    }

    /// The state after a unit was added. A unit that the state has, or of no validator of the
    /// era, changes nothing. The unit of a faulty validator is kept and changes nothing else.
    /// A unit that conflicts with one in the state makes its creator faulty, with the two
    /// units as proof. Any other unit becomes its creator's latest.
    pub open spec fn added_unit(self, unit: UnitView) -> Self {
        if self.has_unit(unit.hash) || unit.creator >= self.num_validators() {
            self
        } else {
            let kept = StateView {
                units: self.units.push((unit.hash, unit)),
                blocks: self.blocks_with(unit),
                ..self
            };
            if self.is_faulty(unit.creator) {
                kept
            } else {
                match self.conflict(unit) {
                    Some(i) => StateView {
                        faults: self.faults.update(
                            unit.creator as int,
                            Some(FaultView::Direct(evidence_of(self.units[i].1, unit))),
                        ),
                        panorama: self.panorama.update(unit.creator as int, Observation::Faulty),
                        ..kept
                    },
                    None => StateView {
                        panorama: self.panorama.update(
                            unit.creator as int,
                            Observation::Correct(unit.hash),
                        ),
                        ..kept
                    },
                }
            }
        }
    }

    /// The state after evidence was added: it is kept unless the state holds proof against
    /// the validator already, or the validator is none of the era.
    pub open spec fn added_evidence(self, evidence: EvidenceView) -> Self {
        let index = evidence.perpetrator();
        if index >= self.num_validators() || self.has_evidence(index) {
            self
        } else {
            StateView {
                faults: self.faults.update(index as int, Some(FaultView::Direct(evidence))),
                panorama: self.panorama.update(index as int, Observation::Faulty),
                ..self
            }
        }
    }

    /// The state after an endorsement was added.
    pub open spec fn added_endorsement(self, endorsement: Endorsement) -> Self {
        if self.endorsements.contains(endorsement) {
            self
        } else {
            StateView { endorsements: self.endorsements.push(endorsement), ..self }
        }
    }

    /// The state after a ping was added: the latest sign of life of its creator.
    pub open spec fn added_ping(self, ping: Ping) -> Self {
        if ping.creator < self.pings.len() && self.pings[ping.creator as int].0 < ping.timestamp.0 {
            StateView { pings: self.pings.update(ping.creator as int, ping.timestamp), ..self }
        } else {
            self
        }
    }

    /// The state after a vertex was added.
    pub open spec fn added(self, vertex: VertexView) -> Self {
        match vertex {
            VertexView::Unit(unit) => self.added_unit(unit),
            VertexView::Evidence(evidence) => self.added_evidence(evidence),
            VertexView::Endorsement(endorsement) => self.added_endorsement(endorsement),
            VertexView::Ping(ping) => self.added_ping(ping),
        }
    }

    /// The state after its owner called a validator faulty: a validator that is faulty already
    /// stays as it is.
    pub open spec fn marked_faulty(self, index: ValidatorIndex) -> Self {
        if index >= self.num_validators() || self.is_faulty(index) {
            self
        } else {
            StateView {
                faults: self.faults.update(index as int, Some(FaultView::Indirect)),
                panorama: self.panorama.update(index as int, Observation::Faulty),
                ..self
            }
        }
    }

    /// The state with all units dropped: only the faults and their proof stay.
    pub open spec fn evidence_only(self) -> Self {
        StateView {
            units: Seq::empty(),
            blocks: Seq::empty(),
            endorsements: Seq::empty(),
            panorama: Seq::new(
                self.panorama.len(),
                |i: int|
                    if self.panorama[i] is Faulty {
                        Observation::Faulty
                    } else {
                        Observation::Unseen
                    },
            ),
            ..self
        }
    }

    /// What the first `n` entries of a panorama miss in the state: the first unit that is
    /// cited and unknown, or the first validator that is called faulty and is not known to be.
    /// Entries beyond the range of validator indices miss nothing.
    pub open spec fn missing_in_panorama(self, panorama: Seq<Observation>, n: int) -> Option<
        Dependency,
    >
        decreases n,
    {
        if n <= 0 {
            None
        } else {
            match self.missing_in_panorama(panorama, n - 1) {
                Some(dependency) => Some(dependency),
                None => match panorama[n - 1] {
                    Observation::Correct(hash) => if self.has_unit(hash) {
                        None
                    } else {
                        Some(Dependency::Unit(hash))
                    },
                    Observation::Faulty => if n - 1 > u32::MAX || self.is_faulty(
                        (n - 1) as ValidatorIndex,
                    ) {
                        None
                    } else {
                        Some(Dependency::Evidence((n - 1) as ValidatorIndex))
                    },
                    Observation::Unseen => None,
                },
            }
        }
    }

    /// What a vertex needs and the state does not have yet, the first such thing: for a unit
    /// what its panorama cites, then the block it builds on; for an endorsement the unit.
    pub open spec fn missing_dependency(self, vertex: VertexView) -> Option<Dependency> {
        match vertex {
            VertexView::Unit(unit) => match self.missing_in_panorama(
                unit.panorama,
                unit.panorama.len() as int,
            ) {
                Some(dependency) => Some(dependency),
                None => match unit.parent {
                    Some(hash) => if self.has_unit(hash) {
                        None
                    } else {
                        Some(Dependency::Unit(hash))
                    },
                    None => None,
                },
            },
            VertexView::Endorsement(endorsement) => if self.has_unit(endorsement.unit) {
                None
            } else {
                Some(Dependency::Unit(endorsement.unit))
            },
            _ => None,
        }
    }

    /// Whether a block ends the era: it is high enough and late enough.
    pub open spec fn is_terminal_block(self, hash: UnitHash) -> bool {
        &&& self.has_block(hash)
        &&& self.block(hash).height + 1 >= self.params.end_height
        &&& self.block(hash).timestamp.0 >= self.params.end_timestamp.0
    }

    /// The sum of the weights of the validators that are faulty, among the first `n`.
    pub open spec fn faulty_weight_before(self, n: int) -> int
        decreases n,
    {
        if n <= 0 {
            0
        } else {
            self.faulty_weight_before(n - 1) + if self.faults[n - 1] is Some {
                self.weights[n - 1] as int
            } else {
                0
            }
        }
    }

    /// The sum of the weights of the faulty validators.
    pub open spec fn faulty_weight(self) -> int {
        self.faulty_weight_before(self.weights.len() as int)
    }

    /// The sum of all weights.
    pub open spec fn total_weight(self) -> int {
        sum_u64(self.weights)
    }
}

/// Whether two units are of one creator and number and differ in their hash.
pub open spec fn unit_conflicts(a: UnitView, b: UnitView) -> bool {
    a.creator == b.creator && a.seq_number == b.seq_number && a.hash != b.hash
}

/// The sum of a list of weights.
pub open spec fn sum_u64(s: Seq<u64>) -> int
    decreases s.len(),
{
    if s.len() == 0 {
        0
    } else {
        sum_u64(s.drop_last()) + s.last()
    }
}

} // verus!

verus! {

/// The units of a list by their contents.
pub open spec fn unit_views(s: Seq<(UnitHash, SignedWireUnit)>) -> Seq<(UnitHash, UnitView)> {
    Seq::new(s.len(), |i: int| (s[i].0, s[i].1@))
}

/// The faults of a table by their contents.
pub open spec fn fault_views(s: Seq<Option<Fault>>) -> Seq<Option<FaultView>> {
    Seq::new(s.len(), |i: int| fault_view(s[i]))
}

/// A list of units has the keys of its contents.
pub proof fn lemma_unit_views_keys(s: Seq<(UnitHash, SignedWireUnit)>)
    ensures
        forall|k: u64| has_key(unit_views(s), k) <==> has_key(s, k),
        distinct_keys(unit_views(s)) <==> distinct_keys(s),
{
    let v = unit_views(s);
    assert forall|k: u64| has_key(v, k) <==> has_key(s, k) by {
        if has_key(v, k) {
            let i = choose|i: int| 0 <= i < v.len() && (#[trigger] v[i]).0 == k;
            assert(s[i].0 == k);
        }
        if has_key(s, k) {
            let i = choose|i: int| 0 <= i < s.len() && (#[trigger] s[i]).0 == k;
            assert(v[i].0 == k);
        }
    }
    if distinct_keys(s) {
        assert forall|i: int, j: int| 0 <= i < j < v.len() implies (#[trigger] v[i]).0 != (
        #[trigger] v[j]).0 by {
            assert(s[i].0 != s[j].0);
        }
    }
    if distinct_keys(v) {
        assert forall|i: int, j: int| 0 <= i < j < s.len() implies (#[trigger] s[i]).0 != (
        #[trigger] s[j]).0 by {
            assert(v[i].0 != v[j].0);
        }
    }
}

/// The protocol state.
#[derive(Debug)]
pub struct State {
    pub params: Params,
    /// The weight of each validator.
    pub weights: Vec<u64>,
    /// The units in the order in which they were added, each under its hash.
    pub units: Vec<(UnitHash, SignedWireUnit)>,
    /// The proposed blocks, each under the hash of the unit that proposes it.
    pub blocks: Vec<(UnitHash, Block)>,
    /// The latest that is known of each validator.
    pub panorama: Panorama,
    /// Why a validator counts as faulty, for each that does.
    pub faults: Vec<Option<Fault>>,
    /// The latest sign of life of each validator.
    pub pings: Vec<Timestamp>,
    pub endorsements: Vec<Endorsement>,
}

impl View for State {
    type V = StateView;

    open spec fn view(&self) -> StateView {
        StateView {
            params: self.params,
            weights: self.weights@,
            units: unit_views(self.units@),
            blocks: self.blocks@,
            panorama: self.panorama@,
            faults: fault_views(self.faults@),
            pings: self.pings@,
            endorsements: self.endorsements@,
        }
    }
}

impl State {
    /// The state is well formed, and the weights add up to at most 64 bits.
    pub open spec fn wf(&self) -> bool {
        self@.wf() && self@.total_weight() <= u64::MAX
    }

    /// The state of an era that has just begun, for validators with the given weights. The
    /// banned ones are faulty from the start.
    pub fn new(weights: Vec<u64>, banned: &Vec<bool>, params: Params) -> (r: Self)
        requires
            weights@.len() <= u32::MAX,
            banned@.len() == weights@.len(),
            sum_u64(weights@) <= u64::MAX,
        ensures
            r.wf(),
            r@.params == params,
            r@.weights == weights@,
            r@.units.len() == 0,
            r@.blocks.len() == 0,
            r@.endorsements.len() == 0,
            forall|i: int|
                0 <= i < weights@.len() ==> {
                    &&& (#[trigger] r@.panorama[i]) == if banned@[i] {
                        Observation::Faulty
                    } else {
                        Observation::Unseen
                    }
                    &&& r@.faults[i] == if banned@[i] {
                        Some(FaultView::Banned)
                    } else {
                        None
                    }
                    &&& r@.pings[i] == Timestamp(0)
                },
    {
        let mut obs: Vec<Observation> = Vec::new();
        let mut faults: Vec<Option<Fault>> = Vec::new();
        let mut pings: Vec<Timestamp> = Vec::new();
        let mut i: usize = 0;
        while i < weights.len()
            invariant
                i <= weights@.len(),
                banned@.len() == weights@.len(),
                obs@.len() == i,
                faults@.len() == i,
                pings@.len() == i,
                forall|j: int|
                    0 <= j < i ==> {
                        &&& (#[trigger] obs@[j]) == if banned@[j] {
                            Observation::Faulty
                        } else {
                            Observation::Unseen
                        }
                        &&& fault_view(faults@[j]) == if banned@[j] {
                            Some(FaultView::Banned)
                        } else {
                            None
                        }
                        &&& pings@[j] == Timestamp(0)
                    },
            decreases weights@.len() - i,
        {
            if banned[i] {
                obs.push(Observation::Faulty);
                faults.push(Some(Fault::Banned));
            } else {
                obs.push(Observation::Unseen);
                faults.push(None);
            }
            pings.push(Timestamp(0));
            i = i + 1;
        }
        let r = State {
            params,
            weights,
            units: Vec::new(),
            blocks: Vec::new(),
            panorama: Panorama { obs },
            faults,
            pings,
            endorsements: Vec::new(),
        };
        proof {
            assert forall|j: int| 0 <= j < r@.panorama.len() implies ((#[trigger] r@.panorama[j])
                is Faulty <==> r@.faults[j] is Some) by {
                assert(r@.panorama[j] == obs@[j]);
                assert(r@.faults[j] == fault_view(faults@[j]));
            }
            assert forall|j: int| 0 <= j < r@.faults.len() implies ((#[trigger] r@.faults[j])
                matches Some(FaultView::Direct(evidence)) ==> evidence.perpetrator() == j) by {
                assert(r@.panorama[j] == obs@[j]);
                assert(r@.faults[j] == fault_view(faults@[j]));
                assert(r@.faults[j] is None || r@.faults[j] == Some(FaultView::Banned));
            }
            assert forall|j: int| 0 <= j < weights@.len() implies (#[trigger] r@.panorama[j])
                == (if banned@[j] {
                Observation::Faulty
            } else {
                Observation::Unseen
            }) && r@.faults[j] == (if banned@[j] {
                Some(FaultView::Banned)
            } else {
                None
            }) && r@.pings[j] == Timestamp(0) by {
                assert(r@.panorama[j] == obs@[j]);
                assert(r@.faults[j] == fault_view(faults@[j]));
            }
        }
        r
    }

    pub fn num_validators(&self) -> (r: usize)
        ensures
            r == self@.num_validators(),
    {
        self.weights.len()
    }

    /// The latest that is known of each validator.
    pub fn panorama(&self) -> (r: &Panorama)
        ensures
            r@ == self@.panorama,
    {
        &self.panorama
    }

    /// Whether the state has no unit.
    pub fn is_empty(&self) -> (r: bool)
        ensures
            r == (self@.units.len() == 0),
    {
        self.units.len() == 0
    }

    pub fn has_unit(&self, hash: UnitHash) -> (r: bool)
        ensures
            r == self@.has_unit(hash),
    {
        proof {
            lemma_unit_views_keys(self.units@);
        }
        crate::keyed::find_key(&self.units, hash).is_some()
    }

    /// The unit under a hash, if the state has it.
    pub fn unit(&self, hash: UnitHash) -> (r: Option<&SignedWireUnit>)
        requires
            self.wf(),
        ensures
            r is Some <==> self@.has_unit(hash),
            r matches Some(unit) ==> unit@ == self@.unit(hash) && unit.hash == hash,
    {
        proof {
            lemma_unit_views_keys(self.units@);
        }
        match crate::keyed::find_key(&self.units, hash) {
            Some(i) => {
                proof {
                    crate::keyed::lemma_as_map_value(self@.units, i as int);
                }
                Some(&self.units[i].1)
            },
            None => None,
        }
    }

    /// The block that a unit proposes, if the state has such a block.
    pub fn block(&self, hash: UnitHash) -> (r: Option<Block>)
        requires
            self.wf(),
        ensures
            r is Some <==> self@.has_block(hash),
            r matches Some(block) ==> block == self@.block(hash),
    {
        match crate::keyed::find_key(&self.blocks, hash) {
            Some(i) => {
                proof {
                    crate::keyed::lemma_as_map_value(self@.blocks, i as int);
                }
                Some(self.blocks[i].1)
            },
            None => None,
        }
    }

    /// A unit of the state in the form in which it travels, under the given instance.
    pub fn wire_unit(&self, hash: UnitHash, instance_id: u64) -> (r: Option<SignedWireUnit>)
        requires
            self.wf(),
        ensures
            r is Some <==> self@.has_unit(hash),
            r matches Some(unit) ==> unit@ == (UnitView { instance_id, ..self@.unit(hash) }),
    {
        match self.unit(hash) {
            Some(unit) => {
                let mut copy = unit.duplicate();
                copy.instance_id = instance_id;
                Some(copy)
            },
            None => None,
        }
    }

    pub fn is_faulty(&self, index: ValidatorIndex) -> (r: bool)
        ensures
            r == self@.is_faulty(index),
    {
        if (index as usize) < self.faults.len() {
            self.faults[index as usize].is_some()
        } else {
            false
        }
    }

    /// The proof against a validator, where the state holds one.
    pub fn maybe_evidence(&self, index: ValidatorIndex) -> (r: Option<&Evidence>)
        ensures
            r is Some <==> self@.has_evidence(index),
            r matches Some(evidence) ==> Some(evidence@) == self@.evidence(index),
    {
        if (index as usize) < self.faults.len() {
            match &self.faults[index as usize] {
                Some(Fault::Direct(evidence)) => Some(evidence),
                _ => None,
            }
        } else {
            None
        }
    }

    pub fn has_evidence(&self, index: ValidatorIndex) -> (r: bool)
        ensures
            r == self@.has_evidence(index),
    {
        self.maybe_evidence(index).is_some()
    }

    /// Whether a block ends the era.
    pub fn is_terminal_block(&self, hash: UnitHash) -> (r: bool)
        requires
            self.wf(),
        ensures
            r == self@.is_terminal_block(hash),
    {
        match self.block(hash) {
            Some(block) => (block.height == u64::MAX || block.height + 1 >= self.params.end_height)
                && block.timestamp.0 >= self.params.end_timestamp.0,
            None => false,
        }
    }

    /// The sum of all weights.
    pub fn total_weight(&self) -> (r: u64)
        requires
            self.wf(),
        ensures
            r == self@.total_weight(),
    {
        let mut total: u64 = 0;
        let mut i: usize = 0;
        proof {
            assert(self.weights@.take(0) =~= Seq::empty());
        }
        while i < self.weights.len()
            invariant
                i <= self.weights@.len(),
                total == sum_u64(self.weights@.take(i as int)),
                sum_u64(self.weights@) <= u64::MAX,
            decreases self.weights@.len() - i,
        {
            proof {
                assert(self.weights@.take(i + 1).drop_last() =~= self.weights@.take(i as int));
                lemma_sum_u64_grows(self.weights@, i + 1);
            }
            total = total + self.weights[i];
            i = i + 1;
        }
        proof {
            assert(self.weights@.take(i as int) =~= self.weights@);
        }
        total
    }

    /// The sum of the weights of the faulty validators.
    pub fn faulty_weight(&self) -> (r: u64)
        requires
            self.wf(),
        ensures
            r == self@.faulty_weight(),
    {
        let mut total: u64 = 0;
        let mut i: usize = 0;
        proof {
            assert(self.weights@.take(0) =~= Seq::empty());
        }
        while i < self.weights.len()
            invariant
                i <= self.weights@.len(),
                self.faults@.len() == self.weights@.len(),
                total == self@.faulty_weight_before(i as int),
                total <= sum_u64(self.weights@.take(i as int)),
                sum_u64(self.weights@) <= u64::MAX,
            decreases self.weights@.len() - i,
        {
            proof {
                assert(self.weights@.take(i + 1).drop_last() =~= self.weights@.take(i as int));
                lemma_sum_u64_grows(self.weights@, i + 1);
            }
            if self.faults[i].is_some() {
                total = total + self.weights[i];
            }
            i = i + 1;
        }
        total
    }
}

/// The sum over a part of a list of weights is at most the sum over all of it.
pub proof fn lemma_sum_u64_grows(s: Seq<u64>, n: int)
    requires
        0 <= n <= s.len(),
    ensures
        0 <= sum_u64(s.take(n)) <= sum_u64(s),
    decreases s.len() - n,
{
    lemma_sum_u64_sign(s.take(n));
    if n < s.len() {
        lemma_sum_u64_grows(s, n + 1);
        assert(s.take(n + 1).drop_last() =~= s.take(n));
    } else {
        assert(s.take(n) =~= s);
    }
}

/// A sum of weights is not negative.
pub proof fn lemma_sum_u64_sign(s: Seq<u64>)
    ensures
        0 <= sum_u64(s),
    decreases s.len(),
{
    if s.len() > 0 {
        lemma_sum_u64_sign(s.drop_last());
    }
}

} // verus!

verus! {

impl State {
    /// The place of the first unit in the state that conflicts with `unit`.
    fn find_conflict(&self, unit: &SignedWireUnit) -> (r: Option<usize>)
        ensures
            match r {
                Some(i) => self@.conflict(unit@) == Some(i as int) && i < self.units@.len(),
                None => self@.conflict(unit@) is None,
            },
    {
        let mut i: usize = 0;
        while i < self.units.len()
            invariant
                i <= self.units@.len(),
                self@.conflict_before(unit@, i as int) is None,
            decreases self.units@.len() - i,
        {
            let other = &self.units[i].1;
            assert(self@.units[i as int].1 == other@);
            if other.creator == unit.creator && other.seq_number == unit.seq_number && other.hash
                != unit.hash {
                proof {
                    lemma_conflict_found(self@, unit@, i as int, self.units@.len() as int);
                }
                return Some(i);
            }
            i = i + 1;
        }
        None
    }

    /// The height of a new block on the given parent, where it can be a block of this state.
    fn height_on(&self, parent: Option<UnitHash>) -> (r: Option<u64>)
        requires
            self.wf(),
        ensures
            r == self@.height_on(parent),
    {
        match parent {
            None => Some(0),
            Some(hash) => match self.block(hash) {
                Some(block) => if block.height < u64::MAX {
                    Some(block.height + 1)
                } else {
                    None
                },
                None => None,
            },
        }
    }

    /// Adds a unit; see `StateView::added_unit` for what that does.
    pub fn add_unit(&mut self, unit: SignedWireUnit)
        requires
            old(self).wf(),
        ensures
            final(self).wf(),
            final(self)@ == old(self)@.added_unit(unit@),
    {
        let ghost before = self@;
        if self.has_unit(unit.hash) || unit.creator as usize >= self.weights.len() {
            return ;
        }
        let creator = unit.creator as usize;
        let new_block: Option<Block> = match unit.value {
            Some(value) => match self.height_on(unit.parent) {
                Some(height) => if self.block(unit.hash).is_some() {
                    None
                } else {
                    Some(
                        Block {
                            height,
                            parent: unit.parent,
                            value,
                            timestamp: unit.timestamp,
                            proposer: unit.creator,
                        },
                    )
                },
                None => None,
            },
            None => None,
        };
        if !self.is_faulty(unit.creator) {
            match self.find_conflict(&unit) {
                Some(i) => {
                    let other = self.units[i].1.duplicate();
                    assert(other@ == before.units[i as int].1);
                    let evidence = if other.hash <= unit.hash {
                        Evidence { unit1: other, unit2: unit.duplicate() }
                    } else {
                        Evidence { unit1: unit.duplicate(), unit2: other }
                    };
                    assert(evidence@ == evidence_of(before.units[i as int].1, unit@));
                    proof {
                        lemma_conflict_is_conflict(before, unit@, before.units.len() as int);
                    }
                    self.faults.set(creator, Some(Fault::Direct(evidence)));
                    self.panorama.obs.set(creator, Observation::Faulty);
                    assert(self@.faults =~= before.faults.update(
                        creator as int,
                        Some(FaultView::Direct(evidence_of(before.units[i as int].1, unit@))),
                    ));
                },
                None => {
                    self.panorama.obs.set(creator, Observation::Correct(unit.hash));
                    assert(self@.faults =~= before.faults);
                },
            }
        } else {
            assert(self@.faults =~= before.faults);
        }
        match new_block {
            Some(block) => {
                self.blocks.push((unit.hash, block));
                assert(distinct_keys(self.blocks@)) by {
                    assert forall|a: int, b: int| 0 <= a < b < self.blocks@.len() implies (
                    #[trigger] self.blocks@[a]).0 != (#[trigger] self.blocks@[b]).0 by {
                        if b == self.blocks@.len() - 1 {
                            assert(before.blocks[a].0 != unit.hash);
                        } else {
                            assert(before.blocks[a].0 != before.blocks[b].0);
                        }
                    }
                }
            },
            None => {},
        }
        let ghost unit_view = unit@;
        let hash = unit.hash;
        proof {
            lemma_unit_views_keys(self.units@);
        }
        self.units.push((hash, unit));
        proof {
            lemma_unit_views_keys(self.units@);
            assert(self@.units =~= before.units.push((hash, unit_view)));
            assert(distinct_keys(self@.units)) by {
                let s = self@.units;
                assert forall|a: int, b: int| 0 <= a < b < s.len() implies (#[trigger] s[a]).0 != (
                #[trigger] s[b]).0 by {
                    if b == s.len() - 1 {
                        assert(before.units[a].0 != hash);
                    } else {
                        assert(before.units[a].0 != before.units[b].0);
                    }
                }
            }
            assert(self@.total_weight() == before.total_weight());
        }
    }

    /// Adds evidence; see `StateView::added_evidence` for what that does.
    pub fn add_evidence(&mut self, evidence: Evidence)
        requires
            old(self).wf(),
        ensures
            final(self).wf(),
            final(self)@ == old(self)@.added_evidence(evidence@),
    {
        let ghost before = self@;
        let index = evidence.perpetrator();
        if index as usize >= self.weights.len() || self.has_evidence(index) {
            return ;
        }
        let ghost evidence_view = evidence@;
        self.faults.set(index as usize, Some(Fault::Direct(evidence)));
        self.panorama.obs.set(index as usize, Observation::Faulty);
        proof {
            assert(self@.faults =~= before.faults.update(
                index as int,
                Some(FaultView::Direct(evidence_view)),
            ));
            assert(self@.units =~= before.units);
        }
    }

    /// Adds an endorsement, unless the state has it.
    pub fn add_endorsement(&mut self, endorsement: Endorsement)
        requires
            old(self).wf(),
        ensures
            final(self).wf(),
            final(self)@ == old(self)@.added_endorsement(endorsement),
    {
        let ghost before = self@;
        if !self.has_endorsement(&endorsement) {
            self.endorsements.push(endorsement);
        }
        proof {
            assert(self@.faults =~= before.faults);
            assert(self@.units =~= before.units);
        }
    }

    /// Whether the state has the endorsement.
    pub fn has_endorsement(&self, endorsement: &Endorsement) -> (r: bool)
        ensures
            r == self@.endorsements.contains(*endorsement),
    {
        let mut i: usize = 0;
        while i < self.endorsements.len()
            invariant
                i <= self.endorsements@.len(),
                forall|j: int| 0 <= j < i ==> self.endorsements@[j] != *endorsement,
            decreases self.endorsements@.len() - i,
        {
            if self.endorsements[i] == *endorsement {
                return true;
            }
            i = i + 1;
        }
        false
    }

    /// Notes a sign of life, if it is later than the latest of its creator.
    pub fn add_ping(&mut self, ping: Ping)
        requires
            old(self).wf(),
        ensures
            final(self).wf(),
            final(self)@ == old(self)@.added_ping(ping),
    {
        let ghost before = self@;
        let creator = ping.creator as usize;
        if creator < self.pings.len() && self.pings[creator].0 < ping.timestamp.0 {
            self.pings.set(creator, ping.timestamp);
        }
        proof {
            assert(self@.faults =~= before.faults);
            assert(self@.units =~= before.units);
        }
    }

    /// Adds a vertex to the state.
    pub fn add_vertex(&mut self, vertex: Vertex)
        requires
            old(self).wf(),
        ensures
            final(self).wf(),
            final(self)@ == old(self)@.added(vertex@),
    {
        match vertex {
            Vertex::Unit(unit) => self.add_unit(unit),
            Vertex::Evidence(evidence) => self.add_evidence(evidence),
            Vertex::Endorsement(endorsement) => self.add_endorsement(endorsement),
            Vertex::Ping(ping) => self.add_ping(ping),
        }
    }

    /// Calls a validator faulty without proof.
    pub fn mark_faulty(&mut self, index: ValidatorIndex)
        requires
            old(self).wf(),
        ensures
            final(self).wf(),
            final(self)@ == old(self)@.marked_faulty(index),
    {
        let ghost before = self@;
        if index as usize >= self.weights.len() || self.is_faulty(index) {
            return ;
        }
        self.faults.set(index as usize, Some(Fault::Indirect));
        self.panorama.obs.set(index as usize, Observation::Faulty);
        proof {
            assert(self@.faults =~= before.faults.update(index as int, Some(FaultView::Indirect)));
            assert(self@.units =~= before.units);
        }
    }

    /// Drops all units, blocks and endorsements. What is left is who is faulty, and the proof.
    pub fn retain_evidence_only(&mut self)
        requires
            old(self).wf(),
        ensures
            final(self).wf(),
            final(self)@ == old(self)@.evidence_only(),
    {
        let ghost before = self@;
        self.units = Vec::new();
        self.blocks = Vec::new();
        self.endorsements = Vec::new();
        let mut i: usize = 0;
        while i < self.panorama.obs.len()
            invariant
                i <= self.panorama@.len(),
                self.panorama@.len() == before.panorama.len(),
                forall|j: int|
                    0 <= j < i ==> (#[trigger] self.panorama@[j]) == if before.panorama[j]
                        is Faulty {
                        Observation::Faulty
                    } else {
                        Observation::Unseen
                    },
                forall|j: int| i <= j < before.panorama.len() ==> (#[trigger] self.panorama@[j])
                    == before.panorama[j],
                self.faults == old(self).faults,
                self.weights == old(self).weights,
                self.pings == old(self).pings,
                self.params == old(self).params,
                self.units@.len() == 0,
                self.blocks@.len() == 0,
                self.endorsements@.len() == 0,
            decreases self.panorama@.len() - i,
        {
            match self.panorama.obs[i] {
                Observation::Correct(_) => {
                    self.panorama.obs.set(i, Observation::Unseen);
                },
                _ => {},
            }
            i = i + 1;
        }
        proof {
            assert(self@.panorama =~= before.evidence_only().panorama);
            assert(self@.units =~= Seq::empty());
            assert(self@.blocks =~= Seq::empty());
            assert(self@.endorsements =~= Seq::empty());
        }
    }
}

/// A conflict found at a place, with none before it, is the first conflict.
proof fn lemma_conflict_found(state: StateView, unit: UnitView, i: int, n: int)
    requires
        0 <= i < n <= state.units.len(),
        state.conflict_before(unit, i) is None,
        unit_conflicts(state.units[i].1, unit),
    ensures
        state.conflict_before(unit, n) == Some(i),
    decreases n - i,
{
    if n > i + 1 {
        lemma_conflict_found(state, unit, i, n - 1);
    }
}

/// The first conflict is a unit of the state that does conflict.
pub proof fn lemma_conflict_is_conflict(state: StateView, unit: UnitView, n: int)
    requires
        0 <= n <= state.units.len(),
    ensures
        state.conflict_before(unit, n) matches Some(i) ==> 0 <= i < n && unit_conflicts(
            state.units[i].1,
            unit,
        ),
    decreases n,
{
    if n > 0 {
        lemma_conflict_is_conflict(state, unit, n - 1);
    }
}

} // verus!

verus! {

impl State {
    /// Whether the state has what the identity names.
    pub fn has_dependency(&self, dependency: &Dependency) -> (r: bool)
        ensures
            r == self@.has_dependency(*dependency),
    {
        match dependency {
            Dependency::Unit(hash) => self.has_unit(*hash),
            Dependency::Evidence(index) => self.is_faulty(*index),
            Dependency::Endorsement(hash) => {
                let mut i: usize = 0;
                while i < self.endorsements.len()
                    invariant
                        i <= self.endorsements@.len(),
                        *dependency == Dependency::Endorsement(*hash),
                        forall|j: int| 0 <= j < i ==> (#[trigger] self.endorsements@[j]).unit != *hash,
                    decreases self.endorsements@.len() - i,
                {
                    if self.endorsements[i].unit == *hash {
                        assert(self@.endorsements[i as int].unit == *hash);
                        return true;
                    }
                    i = i + 1;
                }
                false
            },
            Dependency::Ping(creator, timestamp) => (*creator as usize) < self.pings.len()
                && self.pings[*creator as usize].0 >= timestamp.0,
        }
    }

    /// Whether adding the vertex would tell the state nothing new.
    pub fn has_vertex(&self, vertex: &Vertex) -> (r: bool)
        ensures
            r == self@.has_vertex(vertex@),
    {
        match vertex {
            Vertex::Unit(unit) => self.has_unit(unit.hash),
            Vertex::Evidence(evidence) => self.has_evidence(evidence.perpetrator()),
            Vertex::Endorsement(endorsement) => self.has_endorsement(endorsement),
            Vertex::Ping(ping) => self.has_dependency(
                &Dependency::Ping(ping.creator, ping.timestamp),
            ),
        }
    }

    /// What a vertex needs and the state does not have yet, the first such thing.
    pub fn missing_dependency(&self, vertex: &Vertex) -> (r: Option<Dependency>)
        ensures
            r == self@.missing_dependency(vertex@),
    {
        match vertex {
            Vertex::Unit(unit) => {
                let mut i: usize = 0;
                while i < unit.panorama.obs.len()
                    invariant
                        i <= unit.panorama@.len(),
                        vertex@ == VertexView::Unit(unit@),
                        self@.missing_in_panorama(unit.panorama@, i as int) is None,
                    decreases unit.panorama@.len() - i,
                {
                    match unit.panorama.obs[i] {
                        Observation::Correct(hash) => {
                            if !self.has_unit(hash) {
                                proof {
                                    assert(self@.missing_in_panorama(unit.panorama@, i + 1)
                                        == Some(Dependency::Unit(hash)));
                                    lemma_missing_found(
                                        self@,
                                        unit.panorama@,
                                        i as int,
                                        unit.panorama@.len() as int,
                                    );
                                }
                                return Some(Dependency::Unit(hash));
                            }
                        },
                        Observation::Faulty => {
                            if i <= u32::MAX as usize && !self.is_faulty(i as u32) {
                                proof {
                                    assert(self@.missing_in_panorama(unit.panorama@, i + 1)
                                        == Some(Dependency::Evidence(i as u32)));
                                    lemma_missing_found(
                                        self@,
                                        unit.panorama@,
                                        i as int,
                                        unit.panorama@.len() as int,
                                    );
                                }
                                return Some(Dependency::Evidence(i as u32));
                            }
                        },
                        Observation::Unseen => {},
                    }
                    i = i + 1;
                }
                match unit.parent {
                    Some(hash) => if self.has_unit(hash) {
                        None
                    } else {
                        Some(Dependency::Unit(hash))
                    },
                    None => None,
                }
            },
            Vertex::Endorsement(endorsement) => if self.has_unit(endorsement.unit) {
                None
            } else {
                Some(Dependency::Unit(endorsement.unit))
            },
            _ => None,
        }
    }
}

/// What is missing at a place, with nothing missing before it, is the first thing missing.
proof fn lemma_missing_found(state: StateView, panorama: Seq<Observation>, i: int, n: int)
    requires
        0 <= i < n <= panorama.len(),
        state.missing_in_panorama(panorama, i) is None,
        state.missing_in_panorama(panorama, i + 1) is Some,
    ensures
        state.missing_in_panorama(panorama, n) == state.missing_in_panorama(panorama, i + 1),
    decreases n - i,
{
    if n > i + 1 {
        lemma_missing_found(state, panorama, i, n - 1);
    }
}

/// A validator that is `Faulty` in the panorama, and was neither banned nor called faulty by
/// the owner of the state, has proof against it in the state.
pub proof fn lemma_faulty_has_evidence(state: StateView, index: ValidatorIndex)
    requires
        state.wf(),
        index < state.num_validators(),
        state.panorama[index as int] is Faulty,
        state.faults[index as int] != Some(FaultView::Indirect),
        state.faults[index as int] != Some(FaultView::Banned),
    ensures
        state.evidence(index) is Some,
        state.evidence(index).unwrap().perpetrator() == index,
{
}

/// Adding a vertex keeps the state well formed and the weights as they were.
pub proof fn lemma_added_wf(state: StateView, vertex: VertexView)
    requires
        state.wf(),
    ensures
        state.added(vertex).wf(),
        state.added(vertex).weights == state.weights,
        state.added(vertex).params == state.params,
        state.added(vertex).total_weight() == state.total_weight(),
{
    match vertex {
        VertexView::Unit(unit) => {
            if !(state.has_unit(unit.hash) || unit.creator >= state.num_validators()) {
                lemma_conflict_is_conflict(state, unit, state.units.len() as int);
                let after = state.added_unit(unit);
                assert(distinct_keys(after.units)) by {
                    assert forall|a: int, b: int| 0 <= a < b < after.units.len() implies (
                    #[trigger] after.units[a]).0 != (#[trigger] after.units[b]).0 by {
                        if b == after.units.len() - 1 {
                            assert(state.units[a].0 != unit.hash);
                        } else {
                            assert(state.units[a].0 != state.units[b].0);
                        }
                    }
                }
                assert(distinct_keys(after.blocks)) by {
                    assert forall|a: int, b: int| 0 <= a < b < after.blocks.len() implies (
                    #[trigger] after.blocks[a]).0 != (#[trigger] after.blocks[b]).0 by {
                        if b == state.blocks.len() {
                            assert(state.blocks[a].0 != unit.hash);
                        } else {
                            assert(state.blocks[a].0 != state.blocks[b].0);
                        }
                    }
                }
            }
        },
        VertexView::Evidence(evidence) => {},
        VertexView::Endorsement(endorsement) => {},
        VertexView::Ping(ping) => {},
    }
}

/// A validator that turns `Faulty` when a vertex is added has proof against it in the state
/// from then on, and proof that the state holds stays as it is.
pub proof fn lemma_added_keeps_evidence(state: StateView, vertex: VertexView, index: ValidatorIndex)
    requires
        state.wf(),
        index < state.num_validators(),
    ensures
        state.added(vertex).wf(),
        state.added(vertex).total_weight() == state.total_weight(),
        state.added(vertex).panorama[index as int] is Faulty && !(state.panorama[index as int]
            is Faulty) ==> state.added(vertex).evidence(index) is Some,
        state.evidence(index) is Some ==> state.added(vertex).evidence(index) == state.evidence(
            index,
        ),
{
    lemma_added_wf(state, vertex);
    match vertex {
        VertexView::Unit(unit) => {
            if !(state.has_unit(unit.hash) || unit.creator >= state.num_validators()) {
                lemma_conflict_is_conflict(state, unit, state.units.len() as int);
            }
        },
        _ => {},
    }
}

/// Adding a vertex a second time changes nothing.
pub proof fn lemma_added_twice(state: StateView, vertex: VertexView)
    requires
        state.wf(),
    ensures
        state.added(vertex).added(vertex) == state.added(vertex),
        state.added(vertex).has_vertex(vertex) || state.added(vertex) == state,
{
    match vertex {
        VertexView::Unit(unit) => {
            if !(state.has_unit(unit.hash) || unit.creator >= state.num_validators()) {
                let after = state.added_unit(unit);
                assert(after.units[after.units.len() - 1].0 == unit.hash);
            }
        },
        VertexView::Evidence(evidence) => {},
        VertexView::Endorsement(endorsement) => {
            let after = state.added_endorsement(endorsement);
            if !state.endorsements.contains(endorsement) {
                assert(after.endorsements[after.endorsements.len() - 1] == endorsement);
            }
        },
        VertexView::Ping(ping) => {},
    }
}

} // verus!

verus! {

impl StateView {
    /// Whether `target` is `from` or comes before it in the row of its creator's units, looking
    /// at most `fuel` units back.
    pub open spec fn in_swimlane(self, from: UnitHash, target: UnitHash, fuel: nat) -> bool
        decreases fuel,
    {
        if from == target {
            true
        } else if fuel == 0 || !self.has_unit(from) {
            false
        } else {
            match self.unit(from).previous() {
                Observation::Correct(previous) => self.in_swimlane(
                    previous,
                    target,
                    (fuel - 1) as nat,
                ),
                _ => false,
            }
        }
    }

    /// Whether a panorama sees a unit of the state as correct: the latest unit that it names
    /// of the unit's creator is the unit or comes after it.
    pub open spec fn sees_correct(self, panorama: Seq<Observation>, hash: UnitHash) -> bool {
        self.has_unit(hash) && match observation_at(panorama, self.unit(hash).creator) {
            Observation::Correct(latest) => self.in_swimlane(latest, hash, self.units.len()),
            _ => false,
        }
    }
}

impl State {
    /// Whether a panorama sees a unit of the state as correct.
    pub fn sees_correct(&self, panorama: &Panorama, hash: UnitHash) -> (r: bool)
        requires
            self.wf(),
        ensures
            r == self@.sees_correct(panorama@, hash),
    {
        let creator = match self.unit(hash) {
            Some(unit) => unit.creator,
            None => {
                return false;
            },
        };
        match panorama.get(creator) {
            Observation::Correct(latest) => {
                let mut current = latest;
                let mut fuel: usize = self.units.len();
                loop
                    invariant
                        self.wf(),
                        self@.has_unit(hash),
                        creator == self@.unit(hash).creator,
                        observation_at(panorama@, creator) == Observation::Correct(latest),
                        self@.in_swimlane(latest, hash, self@.units.len()) == self@.in_swimlane(
                            current,
                            hash,
                            fuel as nat,
                        ),
                    decreases fuel,
                {
                    if current == hash {
                        return true;
                    }
                    if fuel == 0 {
                        return false;
                    }
                    match self.unit(current) {
                        Some(unit) => match unit.panorama.get(unit.creator) {
                            Observation::Correct(previous) => {
                                current = previous;
                                fuel = fuel - 1;
                            },
                            _ => {
                                return false;
                            },
                        },
                        None => {
                            return false;
                        },
                    }
                }
            },
            _ => false,
        }
    }
}

} // verus!

verus! {

/// Where every fault of one state is a fault of another with the same weights, the faulty
/// validators of the other weigh at least as much.
pub proof fn lemma_faulty_weight_grows(before: StateView, after: StateView, n: int)
    requires
        0 <= n <= before.weights.len(),
        after.weights == before.weights,
        after.faults.len() == before.faults.len(),
        before.faults.len() == before.weights.len(),
        forall|i: int|
            0 <= i < before.faults.len() ==> ((#[trigger] before.faults[i]) is Some
                ==> after.faults[i] is Some),
    ensures
        0 <= before.faulty_weight_before(n) <= after.faulty_weight_before(n),
    decreases n,
{
    if n > 0 {
        lemma_faulty_weight_grows(before, after, n - 1);
        assert(before.faults[n - 1] is Some ==> after.faults[n - 1] is Some);
    }
}

/// Adding a vertex never makes the faulty validators weigh less: once they weigh more than a
/// threshold, they do so for the rest of the era.
pub proof fn lemma_added_keeps_faults(state: StateView, vertex: VertexView)
    requires
        state.wf(),
    ensures
        state.added(vertex).faulty_weight() >= state.faulty_weight(),
{
    lemma_added_wf(state, vertex);
    let after = state.added(vertex);
    assert forall|i: int| 0 <= i < state.faults.len() && (#[trigger] state.faults[i])
        is Some implies after.faults[i] is Some by {
        match vertex {
            VertexView::Unit(unit) => {
                if !(state.has_unit(unit.hash) || unit.creator >= state.num_validators()) {
                    lemma_conflict_is_conflict(state, unit, state.units.len() as int);
                }
            },
            _ => {},
        }
    }
    lemma_faulty_weight_grows(state, after, state.weights.len() as int);
}

} // verus!
