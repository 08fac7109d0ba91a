//! What the protocol asks its owner to do.

use vstd::prelude::*;
use crate::finality_detector::FinalizedBlock;
use crate::time::Timestamp;
use crate::vertex::{ConsensusValue, NodeId, UnitView, SignedWireUnit, ValidatorId};

verus! {

/// Names a timer.
#[derive(Clone, Copy, Debug, PartialEq, Eq, Structural)]
pub struct TimerId(pub u8);

/// Names an action that the protocol wants to be called back for.
#[derive(Clone, Copy, Debug, PartialEq, Eq, Structural)]
pub struct ActionId(pub u8);

/// Where and when a new block is to stand.
#[derive(Clone, Copy, Debug, PartialEq, Eq, Structural)]
pub struct BlockContext {
    pub timestamp: Timestamp,
    pub height: u64,
}

/// Why an incoming message was turned down.
#[derive(Clone, Copy, Debug, PartialEq, Eq, Structural)]
pub enum MessageError {
    /// The bytes hold no message.
    Undecodable,
    /// The vertex names a validator that the era does not have.
    UnknownValidator,
    /// The vertex is of another instance of the protocol.
    WrongInstance,
    /// The panorama of the unit has not one entry for each validator.
    PanoramaLength,
    /// The round exponent of the unit is outside the bounds of the era.
    RoundExponent,
    /// The unit is dated before the era began.
    Timestamp,
    /// The creator's own entry in the panorama does not go with the unit's number.
    SequenceNumber,
    /// The two units of the evidence do not conflict.
    NoConflict,
    /// The signature does not hold.
    Signature,
    /// The unit cites as the creator's previous unit one of another number or creator.
    Predecessor,
    /// The unit builds on something that is no block.
    Parent,
}

/// What the protocol asks its owner to do.
#[derive(Debug)]
pub enum ProtocolOutcome {
    /// Send the message to all peers.
    CreatedGossipMessage(Vec<u8>),
    /// Send the message to one peer.
    CreatedTargetedMessage(Vec<u8>, NodeId),
    /// The message of a peer was turned down.
    InvalidIncomingMessage(Vec<u8>, NodeId, MessageError),
    /// Call `handle_timer` with the timer at the instant.
    ScheduleTimer(Timestamp, TimerId),
    /// Call `handle_action` with the action soon.
    QueueAction(ActionId),
    /// Sign the unit and hand it back with `add_own_unit`.
    SignUnit(SignedWireUnit),
    /// Make a block for the context and hand it back with `propose`.
    CreateNewBlock { block_context: BlockContext, past_values: Vec<ConsensusValue> },
    /// The block is final.
    FinalizedBlock(FinalizedBlock),
    /// Validate the value and hand the verdict back with `resolve_validity`.
    ValidateConsensusValue(NodeId, ConsensusValue, Timestamp),
    /// There is new proof that the validator is faulty.
    NewEvidence(ValidatorId),
    /// Send the proof against the validator to the peer.
    SendEvidence(NodeId, ValidatorId),
    /// This validator is faulty itself.
    WeAreFaulty,
    /// Someone else uses this validator's key.
    DoppelgangerDetected,
    /// Too many validators are faulty for anything to become final.
    FttExceeded,
    /// Nothing has moved for too long.
    StandstillAlert,
    /// Drop the connection to the peer.
    Disconnect(NodeId),
}

/// An outcome by its contents.
pub enum OutcomeView {
    CreatedGossipMessage(Seq<u8>),
    CreatedTargetedMessage(Seq<u8>, NodeId),
    InvalidIncomingMessage(Seq<u8>, NodeId, MessageError),
    ScheduleTimer(Timestamp, TimerId),
    QueueAction(ActionId),
    SignUnit(UnitView),
    CreateNewBlock { block_context: BlockContext, past_values: Seq<ConsensusValue> },
    FinalizedBlock(FinalizedBlock),
    ValidateConsensusValue(NodeId, ConsensusValue, Timestamp),
    NewEvidence(ValidatorId),
    SendEvidence(NodeId, ValidatorId),
    WeAreFaulty,
    DoppelgangerDetected,
    FttExceeded,
    StandstillAlert,
    Disconnect(NodeId),
}

impl View for ProtocolOutcome {
    type V = OutcomeView;

    open spec fn view(&self) -> OutcomeView {
        match *self {
            ProtocolOutcome::CreatedGossipMessage(bytes) => OutcomeView::CreatedGossipMessage(
                bytes@,
            ),
            ProtocolOutcome::CreatedTargetedMessage(bytes, peer) => OutcomeView::CreatedTargetedMessage(
                bytes@,
                peer,
            ),
            ProtocolOutcome::InvalidIncomingMessage(bytes, peer, error) => OutcomeView::InvalidIncomingMessage(
                bytes@,
                peer,
                error,
            ),
            ProtocolOutcome::ScheduleTimer(timestamp, id) => OutcomeView::ScheduleTimer(
                timestamp,
                id,
            ),
            ProtocolOutcome::QueueAction(id) => OutcomeView::QueueAction(id),
            ProtocolOutcome::SignUnit(unit) => OutcomeView::SignUnit(unit@),
            ProtocolOutcome::CreateNewBlock { block_context, past_values } => OutcomeView::CreateNewBlock {
                block_context,
                past_values: past_values@,
            },
            ProtocolOutcome::FinalizedBlock(block) => OutcomeView::FinalizedBlock(block),
            ProtocolOutcome::ValidateConsensusValue(peer, value, timestamp) => OutcomeView::ValidateConsensusValue(
                peer,
                value,
                timestamp,
            ),
            ProtocolOutcome::NewEvidence(id) => OutcomeView::NewEvidence(id),
            ProtocolOutcome::SendEvidence(peer, id) => OutcomeView::SendEvidence(peer, id),
            ProtocolOutcome::WeAreFaulty => OutcomeView::WeAreFaulty,
            ProtocolOutcome::DoppelgangerDetected => OutcomeView::DoppelgangerDetected,
            ProtocolOutcome::FttExceeded => OutcomeView::FttExceeded,
            ProtocolOutcome::StandstillAlert => OutcomeView::StandstillAlert,
            ProtocolOutcome::Disconnect(peer) => OutcomeView::Disconnect(peer),
        }
    }
}

/// Whether the outcomes are the expected ones, one by one.
pub open spec fn outcomes_are(outcomes: Seq<ProtocolOutcome>, expected: Seq<OutcomeView>) -> bool {
    &&& outcomes.len() == expected.len()
    &&& forall|i: int| 0 <= i < outcomes.len() ==> (#[trigger] outcomes[i])@ == expected[i]
}

/// Outcomes joined to outcomes are the expected ones joined.
pub proof fn lemma_outcomes_join(
    a: Seq<ProtocolOutcome>,
    a_expected: Seq<OutcomeView>,
    b: Seq<ProtocolOutcome>,
    b_expected: Seq<OutcomeView>,
)
    requires
        outcomes_are(a, a_expected),
        outcomes_are(b, b_expected),
    ensures
        outcomes_are(a + b, a_expected + b_expected),
{
    let joined = a + b;
    let expected = a_expected + b_expected;
    assert forall|i: int| 0 <= i < joined.len() implies (#[trigger] joined[i])@ == expected[i] by {
        if i < a.len() {
            assert(joined[i] == a[i]);
        } else {
            assert(joined[i] == b[i - a.len()]);
        }
    }
}

/// One more outcome at the end of outcomes is the expected one at the end of the expected.
pub proof fn lemma_outcomes_push(
    a: Seq<ProtocolOutcome>,
    a_expected: Seq<OutcomeView>,
    outcome: ProtocolOutcome,
)
    requires
        outcomes_are(a, a_expected),
    ensures
        outcomes_are(a.push(outcome), a_expected.push(outcome@)),
{
    let joined = a.push(outcome);
    let expected = a_expected.push(outcome@);
    assert forall|i: int| 0 <= i < joined.len() implies (#[trigger] joined[i])@ == expected[i] by {
        if i < a.len() {
            assert(joined[i] == a[i]);
        }
    }
}

} // verus!
