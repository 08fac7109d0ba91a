//! What validators tell each other: units, evidence, endorsements and pings.

use vstd::prelude::*;
use crate::time::Timestamp;

verus! {

/// The place of a validator in the table of an era.
pub type ValidatorIndex = u32;

/// The identity of a validator across eras.
pub type ValidatorId = u64;

/// The hash of a unit.
pub type UnitHash = u64;

/// The identity of one instance of the protocol, that is of one era.
pub type InstanceId = u64;

/// The identity of a peer.
pub type NodeId = u64;

/// What one validator is known to have done last.
#[derive(Clone, Copy, Debug, PartialEq, Eq, Structural)]
pub enum Observation {
    /// Nothing is known of the validator.
    Unseen,
    /// The validator's latest unit.
    Correct(UnitHash),
    /// The validator has equivocated.
    Faulty,
}

/// One observation for each validator, by index.
#[derive(Debug)]
pub struct Panorama {
    pub obs: Vec<Observation>,
}

impl View for Panorama {
    type V = Seq<Observation>;

    open spec fn view(&self) -> Seq<Observation> {
        self.obs@
    }
}

impl Panorama {
    /// The panorama of someone who has seen nothing, for `num_validators` validators.
    pub fn new(num_validators: usize) -> (r: Self)
        ensures
            r@.len() == num_validators,
            forall|i: int| 0 <= i < r@.len() ==> r@[i] == Observation::Unseen,
    {
        let mut obs: Vec<Observation> = Vec::new();
        while obs.len() < num_validators
            invariant
                obs@.len() <= num_validators,
                forall|i: int| 0 <= i < obs@.len() ==> obs@[i] == Observation::Unseen,
            decreases num_validators - obs@.len(),
        {
            obs.push(Observation::Unseen);
        }
        Panorama { obs }
    }

    pub fn len(&self) -> (r: usize)
        ensures
            r == self@.len(),
    {
        self.obs.len()
    }

    /// The observation of the validator at `index`; nothing is known of one out of range.
    pub fn get(&self, index: ValidatorIndex) -> (r: Observation)
        ensures
            r == observation_at(self@, index),
    {
        if (index as usize) < self.obs.len() {
            self.obs[index as usize]
        } else {
            Observation::Unseen
        }
    }

    /// A copy of the panorama.
    pub fn duplicate(&self) -> (r: Self)
        ensures
            r@ == self@,
    {
        let mut obs: Vec<Observation> = Vec::new();
        let mut i: usize = 0;
        while i < self.obs.len()
            invariant
                i <= self.obs@.len(),
                obs@ == self.obs@.take(i as int),
            decreases self.obs@.len() - i,
        {
            obs.push(self.obs[i]);
            proof {
                assert(self.obs@.take(i + 1) =~= self.obs@.take(i as int).push(self.obs@[i as int]));
            }
            i = i + 1;
        }
        proof {
            assert(self.obs@.take(i as int) =~= self.obs@);
        }
        Panorama { obs }
    }

    /// Whether two panoramas hold the same observations.
    pub fn same(&self, other: &Panorama) -> (r: bool)
        ensures
            r == (self@ == other@),
    {
        if self.obs.len() != other.obs.len() {
            return false;
        }
        let mut i: usize = 0;
        while i < self.obs.len()
            invariant
                i <= self.obs@.len(),
                self.obs@.len() == other.obs@.len(),
                forall|j: int| 0 <= j < i ==> self.obs@[j] == other.obs@[j],
            decreases self.obs@.len() - i,
        {
            if self.obs[i] != other.obs[i] {
                return false;
            }
            i = i + 1;
        }
        proof {
            assert(self@ =~= other@);
        }
        true
    }
}

/// The observation at an index, where one out of range counts as nothing known.
pub open spec fn observation_at(panorama: Seq<Observation>, index: ValidatorIndex) -> Observation {
    if index < panorama.len() {
        panorama[index as int]
    } else {
        Observation::Unseen
    }
}

/// A value that consensus is to order: a block, known here by its hash.
#[derive(Clone, Copy, Debug, PartialEq, Eq, Structural)]
pub struct ConsensusValue {
    pub hash: u64,
    /// Whether the value must be validated outside before a unit that proposes it is added.
    pub needs_validation: bool,
}

/// A signed unit as it travels between validators.
#[derive(Debug)]
pub struct SignedWireUnit {
    pub hash: UnitHash,
    pub creator: ValidatorIndex,
    pub instance_id: InstanceId,
    /// The number of units that the creator made before this one.
    pub seq_number: u64,
    pub round_exp: u8,
    pub timestamp: Timestamp,
    /// What the creator had seen when it signed.
    pub panorama: Panorama,
    /// The proposed value, in a unit that proposes a block.
    pub value: Option<ConsensusValue>,
    /// The block this unit builds on: the parent of a proposed block, or the block that a unit
    /// without a value votes for.
    pub parent: Option<UnitHash>,
    pub signature: u64,
}

/// A unit by its contents.
pub struct UnitView {
    pub hash: UnitHash,
    pub creator: ValidatorIndex,
    pub instance_id: InstanceId,
    pub seq_number: u64,
    pub round_exp: u8,
    pub timestamp: Timestamp,
    pub panorama: Seq<Observation>,
    pub value: Option<ConsensusValue>,
    pub parent: Option<UnitHash>,
    pub signature: u64,
}

impl View for SignedWireUnit {
    type V = UnitView;

    open spec fn view(&self) -> UnitView {
        UnitView {
            hash: self.hash,
            creator: self.creator,
            instance_id: self.instance_id,
            seq_number: self.seq_number,
            round_exp: self.round_exp,
            timestamp: self.timestamp,
            panorama: self.panorama@,
            value: self.value,
            parent: self.parent,
            signature: self.signature,
        }
    }
}

impl UnitView {
    /// The block that the unit votes for: itself where it proposes one.
    pub open spec fn vote(self) -> Option<UnitHash> {
        if self.value is Some {
            Some(self.hash)
        } else {
            self.parent
        }
    }

    /// The creator's unit before this one, as the unit names it.
    pub open spec fn previous(self) -> Observation {
        observation_at(self.panorama, self.creator)
    }
}

impl SignedWireUnit {
    /// A copy of the unit.
    pub fn duplicate(&self) -> (r: Self)
        ensures
            r@ == self@,
    {
        SignedWireUnit {
            hash: self.hash,
            creator: self.creator,
            instance_id: self.instance_id,
            seq_number: self.seq_number,
            round_exp: self.round_exp,
            timestamp: self.timestamp,
            panorama: self.panorama.duplicate(),
            value: self.value,
            parent: self.parent,
            signature: self.signature,
        }
    }
}

/// Proof that a validator equivocated: two units of its making with one sequence number.
#[derive(Debug)]
pub struct Evidence {
    pub unit1: SignedWireUnit,
    pub unit2: SignedWireUnit,
}

/// Evidence by its contents.
pub struct EvidenceView {
    pub unit1: UnitView,
    pub unit2: UnitView,
}

impl View for Evidence {
    type V = EvidenceView;

    open spec fn view(&self) -> EvidenceView {
        EvidenceView { unit1: self.unit1@, unit2: self.unit2@ }
    }
}

impl EvidenceView {
    /// The validator that the evidence is against.
    pub open spec fn perpetrator(self) -> ValidatorIndex {
        self.unit1.creator
    }

    /// Whether the two units do conflict: one creator, one sequence number, two hashes.
    pub open spec fn conflicts(self) -> bool {
        &&& self.unit1.creator == self.unit2.creator
        &&& self.unit1.seq_number == self.unit2.seq_number
        &&& self.unit1.hash != self.unit2.hash
    }
}

impl Evidence {
    #[verifier::when_used_as_spec(spec_perpetrator)]
    pub fn perpetrator(&self) -> (r: ValidatorIndex)
        ensures
            r == self@.perpetrator(),
    {
        self.unit1.creator
    }

    pub open spec fn spec_perpetrator(&self) -> ValidatorIndex {
        self@.perpetrator()
    }

    pub fn duplicate(&self) -> (r: Self)
        ensures
            r@ == self@,
    {
        Evidence { unit1: self.unit1.duplicate(), unit2: self.unit2.duplicate() }
    }
}

/// A validator's word that it holds a unit to be on the right fork.
#[derive(Clone, Copy, Debug, PartialEq, Eq, Structural)]
pub struct Endorsement {
    pub unit: UnitHash,
    pub creator: ValidatorIndex,
    pub signature: u64,
}

/// A sign of life from a validator that has nothing else to say.
#[derive(Clone, Copy, Debug, PartialEq, Eq, Structural)]
pub struct Ping {
    pub creator: ValidatorIndex,
    pub timestamp: Timestamp,
    pub instance_id: InstanceId,
    pub signature: u64,
}

/// Something that can be added to the protocol state.
#[derive(Debug)]
pub enum Vertex {
    Unit(SignedWireUnit),
    Evidence(Evidence),
    Endorsement(Endorsement),
    Ping(Ping),
}

/// A vertex by its contents.
pub enum VertexView {
    Unit(UnitView),
    Evidence(EvidenceView),
    Endorsement(Endorsement),
    Ping(Ping),
}

impl View for Vertex {
    type V = VertexView;

    open spec fn view(&self) -> VertexView {
        match *self {
            Vertex::Unit(unit) => VertexView::Unit(unit@),
            Vertex::Evidence(evidence) => VertexView::Evidence(evidence@),
            Vertex::Endorsement(endorsement) => VertexView::Endorsement(endorsement),
            Vertex::Ping(ping) => VertexView::Ping(ping),
        }
    }
}

/// Something that a vertex needs in the state before it can be added; also the identity under
/// which a unit, a piece of evidence or the endorsements of a unit are asked for.
#[derive(Clone, Copy, Debug, PartialEq, Eq, Structural)]
pub enum Dependency {
    Unit(UnitHash),
    Evidence(ValidatorIndex),
    Endorsement(UnitHash),
    Ping(ValidatorIndex, Timestamp),
}

impl VertexView {
    /// The identity of the vertex.
    pub open spec fn id(self) -> Dependency {
        match self {
            VertexView::Unit(unit) => Dependency::Unit(unit.hash),
            VertexView::Evidence(evidence) => Dependency::Evidence(evidence.perpetrator()),
            VertexView::Endorsement(endorsement) => Dependency::Endorsement(endorsement.unit),
            VertexView::Ping(ping) => Dependency::Ping(ping.creator, ping.timestamp),
        }
    }

    /// The validator that made the vertex; evidence has no maker.
    pub open spec fn creator(self) -> Option<ValidatorIndex> {
        match self {
            VertexView::Unit(unit) => Some(unit.creator),
            VertexView::Evidence(_) => None,
            VertexView::Endorsement(endorsement) => Some(endorsement.creator),
            VertexView::Ping(ping) => Some(ping.creator),
        }
    }

    /// The instant that the vertex names; evidence and endorsements name none.
    pub open spec fn timestamp(self) -> Option<Timestamp> {
        match self {
            VertexView::Unit(unit) => Some(unit.timestamp),
            VertexView::Ping(ping) => Some(ping.timestamp),
            _ => None,
        }
    }

    /// The value that the vertex proposes.
    pub open spec fn value(self) -> Option<ConsensusValue> {
        match self {
            VertexView::Unit(unit) => unit.value,
            _ => None,
        }
    }

    pub open spec fn unit_hash(self) -> Option<UnitHash> {
        match self {
            VertexView::Unit(unit) => Some(unit.hash),
            _ => None,
        }
    }
}

impl Vertex {
    #[verifier::when_used_as_spec(spec_id)]
    pub fn id(&self) -> (r: Dependency)
        ensures
            r == self@.id(),
    {
        match self {
            Vertex::Unit(unit) => Dependency::Unit(unit.hash),
            Vertex::Evidence(evidence) => Dependency::Evidence(evidence.perpetrator()),
            Vertex::Endorsement(endorsement) => Dependency::Endorsement(endorsement.unit),
            Vertex::Ping(ping) => Dependency::Ping(ping.creator, ping.timestamp),
        }
    }

    pub open spec fn spec_id(&self) -> Dependency {
        self@.id()
    }

    #[verifier::when_used_as_spec(spec_creator)]
    pub fn creator(&self) -> (r: Option<ValidatorIndex>)
        ensures
            r == self@.creator(),
    {
        match self {
            Vertex::Unit(unit) => Some(unit.creator),
            Vertex::Evidence(_) => None,
            Vertex::Endorsement(endorsement) => Some(endorsement.creator),
            Vertex::Ping(ping) => Some(ping.creator),
        }
    }

    pub open spec fn spec_creator(&self) -> Option<ValidatorIndex> {
        self@.creator()
    }

    #[verifier::when_used_as_spec(spec_timestamp)]
    pub fn timestamp(&self) -> (r: Option<Timestamp>)
        ensures
            r == self@.timestamp(),
    {
        match self {
            Vertex::Unit(unit) => Some(unit.timestamp),
            Vertex::Ping(ping) => Some(ping.timestamp),
            _ => None,
        }
    }

    pub open spec fn spec_timestamp(&self) -> Option<Timestamp> {
        self@.timestamp()
    }

    #[verifier::when_used_as_spec(spec_value)]
    pub fn value(&self) -> (r: Option<ConsensusValue>)
        ensures
            r == self@.value(),
    {
        match self {
            Vertex::Unit(unit) => unit.value,
            _ => None,
        }
    }

    pub open spec fn spec_value(&self) -> Option<ConsensusValue> {
        self@.value()
    }

    #[verifier::when_used_as_spec(spec_unit_hash)]
    pub fn unit_hash(&self) -> (r: Option<UnitHash>)
        ensures
            r == self@.unit_hash(),
    {
        match self {
            Vertex::Unit(unit) => Some(unit.hash),
            _ => None,
        }
    }

    pub open spec fn spec_unit_hash(&self) -> Option<UnitHash> {
        self@.unit_hash()
    }

    #[verifier::when_used_as_spec(spec_is_evidence)]
    pub fn is_evidence(&self) -> (r: bool)
        ensures
            r == (self@ is Evidence),
    {
        match self {
            Vertex::Evidence(_) => true,
            _ => false,
        }
    }

    pub open spec fn spec_is_evidence(&self) -> bool {
        self@ is Evidence
    }

    /// Whether the vertex is a unit that proposes a value.
    #[verifier::when_used_as_spec(spec_is_proposal)]
    pub fn is_proposal(&self) -> (r: bool)
        ensures
            r == (self@.value() is Some),
    {
        self.value().is_some()
    }

    pub open spec fn spec_is_proposal(&self) -> bool {
        self@.value() is Some
    }

    pub fn duplicate(&self) -> (r: Self)
        ensures
            r@ == self@,
    {
        match self {
            Vertex::Unit(unit) => Vertex::Unit(unit.duplicate()),
            Vertex::Evidence(evidence) => Vertex::Evidence(evidence.duplicate()),
            Vertex::Endorsement(endorsement) => Vertex::Endorsement(*endorsement),
            Vertex::Ping(ping) => Vertex::Ping(*ping),
        }
    }
}

} // verus!
