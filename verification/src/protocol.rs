//! The driver of the Highway protocol for one era: it takes messages, timers and actions, and
//! answers with what its owner is to do.

use vstd::prelude::*;
use std::collections::HashMap;
use crate::finality_detector::{FinalityDetector, FinalizedBlock, FttExceeded};
use crate::highway::{
    av_effects_are, ActiveValidator, AvEffect, AvEffectView, GetDepOutcome, GetDepView, Highway,
    HighwayView,
};
use crate::message::{message_bytes, HighwayMessage, MessageView};
use crate::outcome::{
    outcomes_are, ActionId, BlockContext, MessageError, OutcomeView, ProtocolOutcome, TimerId,
};
use crate::round_success_meter::{MeterConfig, MeterView, RoundSuccessMeter};
use crate::state::{Params, StateView};
use crate::synchronizer::{Queues, Synchronizer, ACTION_ID_VERTEX};
use crate::time::{saturating_sum, TimeDiff, Timestamp};
use crate::uint512::Uint512;
use crate::vertex::{
    observation_at, ConsensusValue, Dependency, NodeId, Observation, Panorama, SignedWireUnit,
    UnitHash, ValidatorId, ValidatorIndex, Vertex, VertexView,
};

verus! {

/// Never allow more than this many units in a piece of evidence for conflicting endorsements,
/// even if eras are longer than this.
pub const MAX_ENDORSEMENT_EVIDENCE_LIMIT: u64 = 10_000;

/// The timer for creating new units, as a validator actively participating in consensus.
pub const TIMER_ID_ACTIVE_VALIDATOR: u8 = 0;

/// The timer for adding a vertex with a future timestamp.
pub const TIMER_ID_VERTEX_WITH_FUTURE_TIMESTAMP: u8 = 1;

/// The timer for purging expired pending vertices from the queues.
pub const TIMER_ID_PURGE_VERTICES: u8 = 2;

/// The timer for logging inactive validators.
pub const TIMER_ID_LOG_PARTICIPATION: u8 = 3;

/// The timer for an alert no progress was made in a long time.
pub const TIMER_ID_STANDSTILL_ALERT: u8 = 4;

/// A fraction of two 64-bit numbers.
#[derive(Clone, Copy, Debug)]
pub struct Fraction {
    pub numer: u64,
    pub denom: u64,
}

/// What the chain lays down for the protocol.
#[derive(Clone, Copy, Debug)]
pub struct HighwayProtocolConfig {
    /// The share of the total weight that may be faulty without harm to finality.
    pub finality_threshold_fraction: Fraction,
    pub minimum_round_exponent: u8,
    pub maximum_round_exponent: u8,
    /// The share of the block reward that is paid for a block that was finalized late.
    pub reduced_reward_multiplier: Fraction,
}

/// What the chain lays down for an era.
#[derive(Clone, Copy, Debug)]
pub struct ProtocolConfig {
    pub highway_config: HighwayProtocolConfig,
    pub era_duration: TimeDiff,
    pub minimum_era_height: u64,
}

/// What the node's operator lays down.
#[derive(Clone, Copy, Debug)]
pub struct HighwayConfig {
    /// How long a vertex may wait for what it misses.
    pub pending_vertex_timeout: TimeDiff,
    /// After this long without progress an alert is raised.
    pub standstill_timeout: TimeDiff,
    /// How often the participation of the validators is reported.
    pub log_participation_interval: TimeDiff,
    /// How the round success meter judges rounds.
    pub round_success_meter: MeterConfig,
}

/// The driver of one era.
#[derive(Debug)]
pub struct HighwayProtocol {
    /// Incoming blocks we can't add yet because we are waiting for validation.
    pub pending_values: HashMap<u64, Vec<Vertex>>,
    pub finality_detector: FinalityDetector,
    pub highway: Highway,
    /// A tracker for whether we are keeping up with the current round exponent or not.
    pub round_success_meter: RoundSuccessMeter,
    pub synchronizer: Synchronizer,
    pub evidence_only: bool,
    /// The panorama snapshot. This is updated periodically, and if it does not change for too
    /// long, an alert is raised.
    pub last_panorama: Panorama,
    /// If the current era's protocol state has not progressed for this long, return
    /// `ProtocolOutcome::StandstillAlert`.
    pub standstill_timeout: TimeDiff,
    /// Report inactive or faulty validators periodically, with this interval.
    pub log_participation_interval: TimeDiff,
}

/// The driver by its contents.
pub struct ProtocolView {
    pub pending_values: Map<u64, Seq<Vertex>>,
    pub finality_detector: FinalityDetector,
    pub highway: HighwayView,
    pub round_success_meter: MeterView,
    pub synchronizer: Queues,
    pub evidence_only: bool,
    pub last_panorama: Seq<Observation>,
    pub standstill_timeout: TimeDiff,
    pub log_participation_interval: TimeDiff,
}

impl View for HighwayProtocol {
    type V = ProtocolView;

    open spec fn view(&self) -> ProtocolView {
        ProtocolView {
            pending_values: self.pending_values@.map_values(|v: Vec<Vertex>| v@),
            finality_detector: self.finality_detector,
            highway: self.highway@,
            round_success_meter: self.round_success_meter@,
            synchronizer: self.synchronizer@,
            evidence_only: self.evidence_only,
            last_panorama: self.last_panorama@,
            standstill_timeout: self.standstill_timeout,
            log_participation_interval: self.log_participation_interval,
        }
    }
}

/// The timers that are set when an era begins: for purging vertices, for the report on
/// participation and for the standstill alert, each its interval after the later of `now` and
/// the start of the era.
pub open spec fn initial_timers(
    now: Timestamp,
    era_start_time: Timestamp,
    highway_config: HighwayConfig,
) -> Seq<OutcomeView> {
    let from = now.latest(era_start_time);
    seq![
        OutcomeView::ScheduleTimer(
            from.plus(highway_config.pending_vertex_timeout),
            TimerId(TIMER_ID_PURGE_VERTICES),
        ),
        OutcomeView::ScheduleTimer(
            from.plus(highway_config.log_participation_interval),
            TimerId(TIMER_ID_LOG_PARTICIPATION),
        ),
        OutcomeView::ScheduleTimer(
            from.plus(highway_config.standstill_timeout),
            TimerId(TIMER_ID_STANDSTILL_ALERT),
        ),
    ]
}

impl ProtocolView {
    /// The parts go together.
    pub open spec fn wf(self) -> bool {
        &&& self.highway.wf()
        &&& self.round_success_meter.wf()
    }

    /// Whether the block that ends the era is final.
    pub open spec fn finalized_switch_block(self) -> bool {
        match self.finality_detector.last_finalized {
            Some(hash) => self.highway.state.is_terminal_block(hash),
            None => false,
        }
    }

    /// Whether the era is over: only evidence is taken, or the block that ends it is final.
    pub open spec fn era_has_ended(self) -> bool {
        self.evidence_only || self.finalized_switch_block()
    }

    /// The driver and the outcomes after the standstill timer went off at `now`. In an era
    /// that is over nothing happens. With the panorama as it was at the last check, the alert
    /// is raised. Else the panorama is noted and the timer set again.
    pub open spec fn standstill_checked(self, now: Timestamp) -> (Self, Seq<OutcomeView>) {
        if self.era_has_ended() {
            (self, Seq::empty())
        } else if self.last_panorama == self.highway.state.panorama {
            (self, seq![OutcomeView::StandstillAlert])
        } else {
            (
                ProtocolView { last_panorama: self.highway.state.panorama, ..self },
                seq![
                    OutcomeView::ScheduleTimer(
                        now.plus(self.standstill_timeout),
                        TimerId(TIMER_ID_STANDSTILL_ALERT),
                    ),
                ],
            )
        }
    }

    /// The values on the way from a fork back to the last final block, looking at most `fuel`
    /// blocks back: the values that are expected to become final and are not yet.
    pub open spec fn non_finalized_values(self, fork_choice: Option<UnitHash>, fuel: nat) -> Seq<
        ConsensusValue,
    >
        decreases fuel,
    {
        if fork_choice == self.finality_detector.last_finalized || fuel == 0 {
            Seq::empty()
        } else {
            match fork_choice {
                Some(hash) => if self.highway.state.has_block(hash) {
                    seq![self.highway.state.block(hash).value] + self.non_finalized_values(
                        self.highway.state.block(hash).parent,
                        (fuel - 1) as nat,
                    )
                } else {
                    Seq::empty()
                },
                None => Seq::empty(),
            }
        }
    }
}

impl HighwayProtocol {
    /// The parts go together.
    pub open spec fn wf(&self) -> bool {
        self@.wf() && self.highway.state.wf()
    }

    /// The timers that are set when an era begins.
    pub fn initialize_timers(
        now: Timestamp,
        era_start_time: Timestamp,
        highway_config: &HighwayConfig,
    ) -> (r: Vec<ProtocolOutcome>)
        ensures
            outcomes_are(r@, initial_timers(now, era_start_time, *highway_config)),
    {
        let from = now.max(era_start_time);
        let mut outcomes: Vec<ProtocolOutcome> = Vec::new();
        outcomes.push(
            ProtocolOutcome::ScheduleTimer(
                from.saturating_add(highway_config.pending_vertex_timeout),
                TimerId(TIMER_ID_PURGE_VERTICES),
            ),
        );
        outcomes.push(
            ProtocolOutcome::ScheduleTimer(
                from.saturating_add(highway_config.log_participation_interval),
                TimerId(TIMER_ID_LOG_PARTICIPATION),
            ),
        );
        outcomes.push(
            ProtocolOutcome::ScheduleTimer(
                from.saturating_add(highway_config.standstill_timeout),
                TimerId(TIMER_ID_STANDSTILL_ALERT),
            ),
        );
        outcomes
    }

    /// Our most recent round exponent; there is none if we made no units in this era.
    pub fn our_round_exp(&self) -> (r: Option<u8>)
        requires
            self.wf(),
        ensures
            r == match self@.highway.active_validator {
                Some(av) => match self@.highway.state.panorama[av.vidx as int] {
                    Observation::Correct(hash) => if self@.highway.state.has_unit(hash) {
                        Some(self@.highway.state.unit(hash).round_exp)
                    } else {
                        None
                    },
                    _ => None,
                },
                None => None,
            },
    {
        match self.highway.latest_own_unit() {
            Some(unit) => Some(unit.round_exp),
            None => None,
        }
    }

    /// The round success meter for the next era: the counters start anew where appropriate.
    pub fn next_era_round_succ_meter(&self, era_start_timestamp: Timestamp) -> (r: RoundSuccessMeter)
        requires
            self.wf(),
        ensures
            r@.wf(),
            r@ == self@.round_success_meter.next_era(era_start_timestamp),
    {
        self.round_success_meter.next_era(era_start_timestamp)
    }

    /// Whether the switch block has already been finalized.
    pub fn finalized_switch_block(&self) -> (r: bool)
        requires
            self.wf(),
        ensures
            r == self@.finalized_switch_block(),
    {
        match self.finality_detector.last_finalized() {
            Some(hash) => self.highway.state.is_terminal_block(hash),
            None => false,
        }
    }

    /// The values that are expected to become final, but are not final yet: those on the way
    /// from the given fork back to the last final block.
    pub fn non_finalized_values(&self, fork_choice: Option<UnitHash>) -> (r: Vec<ConsensusValue>)
        requires
            self.wf(),
        ensures
            r@ == self@.non_finalized_values(fork_choice, self@.highway.state.blocks.len()),
    {
        let ghost target = self@.non_finalized_values(
            fork_choice,
            self@.highway.state.blocks.len(),
        );
        let mut values: Vec<ConsensusValue> = Vec::new();
        let mut current = fork_choice;
        let mut fuel: usize = self.highway.state.blocks.len();
        proof {
            assert(values@ + target =~= target);
        }
        loop
            invariant
                self.wf(),
                target == values@ + self@.non_finalized_values(current, fuel as nat),
            ensures
                target == values@,
            decreases fuel,
        {
            let same = match (current, self.finality_detector.last_finalized()) {
                (Some(a), Some(b)) => a == b,
                (None, None) => true,
                _ => false,
            };
            if same || fuel == 0 {
                assert(values@ + Seq::<ConsensusValue>::empty() =~= values@);
                break ;
            }
            match current {
                Some(hash) => match self.highway.state.block(hash) {
                    Some(block) => {
                        proof {
                            let rest = self@.non_finalized_values(block.parent, (fuel - 1) as nat);
                            assert(values@.push(block.value) + rest =~= values@ + (seq![
                                block.value,
                            ] + rest));
                        }
                        values.push(block.value);
                        current = block.parent;
                        fuel = fuel - 1;
                    },
                    None => {
                        assert(values@ + Seq::<ConsensusValue>::empty() =~= values@);
                        break ;
                    },
                },
                None => {
                    assert(values@ + Seq::<ConsensusValue>::empty() =~= values@);
                    break ;
                },
            }
        }
        values
    }

    /// Raises the standstill alert if no progress was made; otherwise schedules the next
    /// check.
    pub fn handle_standstill_alert_timer(&mut self, now: Timestamp) -> (r: Vec<ProtocolOutcome>)
        requires
            old(self).wf(),
        ensures
            final(self).wf(),
            final(self)@ == old(self)@.standstill_checked(now).0,
            outcomes_are(r@, old(self)@.standstill_checked(now).1),
    {
        let mut outcomes: Vec<ProtocolOutcome> = Vec::new();
        if self.evidence_only || self.finalized_switch_block() {
            return outcomes;  // Era has ended. No further progress is expected.
        }
        if self.last_panorama.same(self.highway.state.panorama()) {
            outcomes.push(ProtocolOutcome::StandstillAlert);  // No progress within the timeout.
            return outcomes;
        }
        // Record the current panorama and schedule the next standstill check.
        self.last_panorama = self.highway.state.panorama().duplicate();
        outcomes.push(
            ProtocolOutcome::ScheduleTimer(
                now.saturating_add(self.standstill_timeout),
                TimerId(TIMER_ID_STANDSTILL_ALERT),
            ),
        );
        outcomes
    }
}

} // verus!

verus! {

/// The final blocks as outcomes, one for each.
pub open spec fn finalized_outcomes(blocks: Seq<FinalizedBlock>) -> Seq<OutcomeView> {
    Seq::new(blocks.len(), |i: int| OutcomeView::FinalizedBlock(blocks[i]))
}

impl ProtocolView {
    /// The driver and the outcomes after it looked for blocks that have become final. With
    /// more faulty weight than the threshold the era is lost, and that is the one outcome.
    /// Else there is an outcome for each new final block, lowest first, and the detector
    /// stands at the last of them.
    pub open spec fn finality_detected(self) -> (Self, Seq<OutcomeView>) {
        let detector = self.finality_detector;
        if self.highway.state.faulty_weight() > detector.ftt {
            (self, seq![OutcomeView::FttExceeded])
        } else {
            let blocks = self.highway.state.newly_final(
                detector.last_finalized,
                detector.next_height,
                detector.ftt,
            );
            (
                ProtocolView {
                    finality_detector: FinalityDetector {
                        last_finalized: if blocks.len() == 0 {
                            detector.last_finalized
                        } else {
                            Some(blocks.last().hash)
                        },
                        next_height: (detector.next_height + blocks.len()) as u64,
                        ftt: detector.ftt,
                    },
                    ..self
                },
                finalized_outcomes(blocks),
            )
        }
    }

    /// The driver after the round exponent was calculated at `now` for a vertex that is about
    /// to be added. The meter decides first; only then a proposal is noted in it, so that it
    /// counts for its own round; and this node goes by the new exponent.
    pub open spec fn round_exponent_calculated(self, vertex: VertexView, now: Timestamp) -> Self {
        let decided = self.round_success_meter.calculated(self.highway.state, now);
        let noted = match (vertex.value(), vertex.unit_hash(), vertex.timestamp()) {
            (Some(_), Some(hash), Some(timestamp)) => decided.proposed(hash, timestamp),
            _ => decided,
        };
        ProtocolView {
            round_success_meter: noted,
            highway: self.highway.with_round_exp(decided.current_round_exp),
            ..self
        }
    }

    /// The driver and the outcomes after a vertex of this node's making was processed: new
    /// evidence is announced, the vertex goes out to all peers, and final blocks are looked
    /// for.
    pub open spec fn new_vertex_processed(self, vertex: VertexView) -> (Self, Seq<OutcomeView>) {
        let announced = match vertex {
            VertexView::Evidence(evidence) => if evidence.perpetrator()
                < self.highway.validators.len() {
                seq![
                    OutcomeView::NewEvidence(
                        self.highway.validators[evidence.perpetrator() as int].id,
                    ),
                ]
            } else {
                Seq::empty()
            },
            _ => Seq::empty(),
        };
        let gossip = OutcomeView::CreatedGossipMessage(
            message_bytes(MessageView::NewVertex(vertex)),
        );
        let (after, finalized) = self.finality_detected();
        (after, announced.push(gossip) + finalized)
    }

    /// The driver and the outcomes after one effect of this node's own part was processed.
    pub open spec fn av_effect_processed(self, effect: AvEffectView, now: Timestamp) -> (
        Self,
        Seq<OutcomeView>,
    ) {
        match effect {
            AvEffectView::NewVertex(vertex) => self.round_exponent_calculated(
                vertex,
                now,
            ).new_vertex_processed(vertex),
            AvEffectView::SignUnit(unit) => (self, seq![OutcomeView::SignUnit(unit)]),
            AvEffectView::ScheduleTimer(timestamp) => (
                self,
                seq![OutcomeView::ScheduleTimer(timestamp, TimerId(TIMER_ID_ACTIVE_VALIDATOR))],
            ),
            AvEffectView::RequestNewBlock { block_context, fork_choice } => (
                self,
                seq![
                    OutcomeView::CreateNewBlock {
                        block_context,
                        past_values: self.non_finalized_values(
                            fork_choice,
                            self.highway.state.blocks.len(),
                        ),
                    },
                ],
            ),
            AvEffectView::WeAreFaulty => (self, seq![OutcomeView::WeAreFaulty]),
        }
    }

    /// The driver and the outcomes after the effects were processed, one after the other.
    pub open spec fn av_effects_processed(self, effects: Seq<AvEffectView>, now: Timestamp) -> (
        Self,
        Seq<OutcomeView>,
    )
        decreases effects.len(),
    {
        if effects.len() == 0 {
            (self, Seq::empty())
        } else {
            let (before, first) = self.av_effects_processed(effects.drop_last(), now);
            let (after, more) = before.av_effect_processed(effects.last(), now);
            (after, first + more)
        }
    }

    /// The driver with a vertex added to the state of the era.
    pub open spec fn with_vertex(self, vertex: VertexView) -> Self {
        ProtocolView {
            highway: HighwayView { state: self.highway.state.added(vertex), ..self.highway },
            ..self
        }
    }

    /// The driver and the outcomes after a valid vertex was added. While only evidence is
    /// taken, anything else is passed over. The round exponent is calculated before the
    /// vertex is in the state; then the vertex is added and what follows from it is
    /// processed.
    pub open spec fn valid_vertex_added(self, vertex: VertexView, now: Timestamp) -> (
        Self,
        Seq<OutcomeView>,
    ) {
        if self.evidence_only && !(vertex is Evidence) {
            (self, Seq::empty())
        } else {
            let calculated = self.round_exponent_calculated(vertex, now);
            calculated.with_vertex(vertex).av_effects_processed(
                calculated.highway.added_effects(vertex),
                now,
            )
        }
    }
}

impl HighwayProtocol {
    /// Looks for blocks that have become final.
    pub fn detect_finality(&mut self) -> (r: Vec<ProtocolOutcome>)
        requires
            old(self).wf(),
        ensures
            final(self).wf(),
            final(self)@ == old(self)@.finality_detected().0,
            outcomes_are(r@, old(self)@.finality_detected().1),
    {
        let mut outcomes: Vec<ProtocolOutcome> = Vec::new();
        match self.finality_detector.run(&self.highway.state) {
            Ok(blocks) => {
                let mut i: usize = 0;
                while i < blocks.len()
                    invariant
                        i <= blocks@.len(),
                        outcomes@.len() == i,
                        forall|j: int|
                            0 <= j < i ==> (#[trigger] outcomes@[j])@ == OutcomeView::FinalizedBlock(
                                blocks@[j],
                            ),
                    decreases blocks@.len() - i,
                {
                    outcomes.push(ProtocolOutcome::FinalizedBlock(blocks[i]));
                    i = i + 1;
                }
                proof {
                    assert(self@.pending_values == old(self)@.pending_values);
                }
                outcomes
            },
            Err(FttExceeded(_)) => {
                outcomes.push(ProtocolOutcome::FttExceeded);
                proof {
                    assert(self@.pending_values == old(self)@.pending_values);
                }
                outcomes
            },
        }
    }

    /// Calculates the round exponent to go on with, for a vertex that is about to be added.
    pub fn calculate_round_exponent(&mut self, vv: &Vertex, now: Timestamp)
        requires
            old(self).wf(),
        ensures
            final(self).wf(),
            final(self)@ == old(self)@.round_exponent_calculated(vv@, now),
    {
        let new_round_exp = self.round_success_meter.calculate_new_exponent(
            &self.highway.state,
            now,
        );
        // If the vertex contains a proposal, register it in the success meter.
        // It's important to do this _after_ the calculation above - otherwise we might try to
        // register the proposal before the meter is aware that a new round has started, and it
        // will reject the proposal.
        if vv.is_proposal() {
            match (vv.unit_hash(), vv.timestamp()) {
                (Some(hash), Some(timestamp)) => {
                    self.round_success_meter.new_proposal(hash, timestamp);
                },
                _ => {},
            }
        }
        self.highway.set_round_exp(new_round_exp);
        proof {
            assert(self@.pending_values == old(self)@.pending_values);
        }
    }

    /// Processes a vertex of this node's making: announces new evidence, sends the vertex to
    /// all peers and looks for final blocks.
    pub fn process_new_vertex(&mut self, v: Vertex) -> (r: Vec<ProtocolOutcome>)
        requires
            old(self).wf(),
        ensures
            final(self).wf(),
            final(self)@ == old(self)@.new_vertex_processed(v@).0,
            outcomes_are(r@, old(self)@.new_vertex_processed(v@).1),
    {
        let mut outcomes: Vec<ProtocolOutcome> = Vec::new();
        match &v {
            Vertex::Evidence(ev) => {
                match self.highway.validators().id(ev.perpetrator()) {
                    Some(v_id) => {
                        outcomes.push(ProtocolOutcome::NewEvidence(v_id));
                    },
                    None => {},
                }
            },
            _ => {},
        }
        let ghost vertex = v@;
        let msg = HighwayMessage::NewVertex(v);
        outcomes.push(ProtocolOutcome::CreatedGossipMessage(msg.serialize()));
        let ghost first = outcomes@;
        let ghost expected_first = {
            let announced = match vertex {
                VertexView::Evidence(evidence) => if evidence.perpetrator()
                    < old(self)@.highway.validators.len() {
                    seq![
                        OutcomeView::NewEvidence(
                            old(self)@.highway.validators[evidence.perpetrator() as int].id,
                        ),
                    ]
                } else {
                    Seq::empty()
                },
                _ => Seq::empty(),
            };
            announced.push(
                OutcomeView::CreatedGossipMessage(message_bytes(MessageView::NewVertex(vertex))),
            )
        };
        assert(outcomes_are(first, expected_first));
        let mut more = self.detect_finality();
        proof {
            crate::outcome::lemma_outcomes_join(
                first,
                expected_first,
                more@,
                old(self)@.finality_detected().1,
            );
        }
        outcomes.append(&mut more);
        outcomes
    }

    /// Processes one effect of this node's own part.
    pub fn process_av_effect(&mut self, effect: AvEffect, now: Timestamp) -> (r: Vec<
        ProtocolOutcome,
    >)
        requires
            old(self).wf(),
        ensures
            final(self).wf(),
            final(self)@ == old(self)@.av_effect_processed(effect@, now).0,
            outcomes_are(r@, old(self)@.av_effect_processed(effect@, now).1),
    {
        match effect {
            AvEffect::NewVertex(vv) => {
                self.calculate_round_exponent(&vv, now);
                self.process_new_vertex(vv)
            },
            AvEffect::SignUnit(unit) => {
                let mut outcomes: Vec<ProtocolOutcome> = Vec::new();
                outcomes.push(ProtocolOutcome::SignUnit(unit));
                outcomes
            },
            AvEffect::ScheduleTimer(timestamp) => {
                let mut outcomes: Vec<ProtocolOutcome> = Vec::new();
                outcomes.push(
                    ProtocolOutcome::ScheduleTimer(timestamp, TimerId(TIMER_ID_ACTIVE_VALIDATOR)),
                );
                outcomes
            },
            AvEffect::RequestNewBlock { block_context, fork_choice } => {
                let past_values = self.non_finalized_values(fork_choice);
                let mut outcomes: Vec<ProtocolOutcome> = Vec::new();
                outcomes.push(ProtocolOutcome::CreateNewBlock { block_context, past_values });
                outcomes
            },
            AvEffect::WeAreFaulty => {
                let mut outcomes: Vec<ProtocolOutcome> = Vec::new();
                outcomes.push(ProtocolOutcome::WeAreFaulty);
                outcomes
            },
        }
    }

    /// Processes the effects of this node's own part, one after the other.
    pub fn process_av_effects(&mut self, av_effects: Vec<AvEffect>, now: Timestamp) -> (r: Vec<
        ProtocolOutcome,
    >)
        requires
            old(self).wf(),
        ensures
            final(self).wf(),
            final(self)@ == old(self)@.av_effects_processed(effects_view(av_effects@), now).0,
            outcomes_are(r@, old(self)@.av_effects_processed(effects_view(av_effects@), now).1),
    {
        let ghost all = effects_view(av_effects@);
        let ghost before = self@;
        let mut rest = av_effects;
        let mut outcomes: Vec<ProtocolOutcome> = Vec::new();
        let ghost mut done: Seq<OutcomeView> = Seq::empty();
        let ghost mut k: int = 0;
        proof {
            assert(all.take(0) =~= Seq::empty());
            assert(effects_view(rest@) =~= all.skip(0));
        }
        while rest.len() > 0
            invariant
                0 <= k <= all.len(),
                self.wf(),
                effects_view(rest@) == all.skip(k),
                outcomes_are(outcomes@, done),
                (self@, done) == before.av_effects_processed(all.take(k), now),
            decreases rest@.len(),
        {
            let ghost old_rest = rest@;
            let effect = rest.remove(0);
            proof {
                assert(effects_view(old_rest).len() == old_rest.len());
                assert(all.skip(k).len() == all.len() - k);
                assert(effect@ == effects_view(old_rest)[0]);
                assert(all.skip(k)[0] == all[k]);
                assert(effect@ == all[k]);
                assert(rest@ =~= old_rest.skip(1));
                assert forall|i: int| 0 <= i < rest@.len() implies effects_view(rest@)[i]
                    == all.skip(k + 1)[i] by {
                    assert(rest@[i] == old_rest[i + 1]);
                    assert(effects_view(old_rest)[i + 1] == all.skip(k)[i + 1]);
                }
                assert(effects_view(rest@) =~= all.skip(k + 1));
                assert(all.take(k + 1).drop_last() =~= all.take(k));
            }
            let ghost step = self@.av_effect_processed(effect@, now);
            let mut more = self.process_av_effect(effect, now);
            proof {
                crate::outcome::lemma_outcomes_join(outcomes@, done, more@, step.1);
                done = done + step.1;
                k = k + 1;
            }
            outcomes.append(&mut more);
        }
        proof {
            assert(all.take(k) =~= all);
        }
        outcomes
    }

    /// Adds a valid vertex to the state of the era and processes what follows from it.
    pub fn add_valid_vertex(&mut self, vv: Vertex, now: Timestamp) -> (r: Vec<ProtocolOutcome>)
        requires
            old(self).wf(),
        ensures
            final(self).wf(),
            final(self)@ == old(self)@.valid_vertex_added(vv@, now).0,
            outcomes_are(r@, old(self)@.valid_vertex_added(vv@, now).1),
    {
        if self.evidence_only && !vv.is_evidence() {
            return Vec::new();
        }
        // Check whether we should change the round exponent.
        // It's important to do it before the vertex is added to the state - this way if the last
        // round has finished, we now have all the vertices from that round in the state, and no
        // newer ones.
        self.calculate_round_exponent(&vv, now);
        let ghost calculated = self@;
        let av_effects = self.highway.add_valid_vertex(vv);
        proof {
            assert(self@.pending_values == calculated.pending_values);
            assert(self@ == calculated.with_vertex(vv@));
            assert(effects_view(av_effects@) =~= calculated.highway.added_effects(vv@));
        }
        self.process_av_effects(av_effects, now)
    }
}

/// The effects of a list by their contents.
pub open spec fn effects_view(effects: Seq<AvEffect>) -> Seq<AvEffectView> {
    Seq::new(effects.len(), |i: int| effects[i]@)
}

} // verus!

verus! {

/// A request to drop the connection to each of the peers.
pub open spec fn disconnects(senders: Seq<NodeId>) -> Seq<OutcomeView> {
    Seq::new(senders.len(), |i: int| OutcomeView::Disconnect(senders[i]))
}

/// Joins outcomes to outcomes.
fn join_outcomes(
    to: &mut Vec<ProtocolOutcome>,
    from: Vec<ProtocolOutcome>,
    Ghost(expected_to): Ghost<Seq<OutcomeView>>,
    Ghost(expected_from): Ghost<Seq<OutcomeView>>,
)
    requires
        outcomes_are(old(to)@, expected_to),
        outcomes_are(from@, expected_from),
    ensures
        outcomes_are(final(to)@, expected_to + expected_from),
{
    let mut from = from;
    proof {
        crate::outcome::lemma_outcomes_join(to@, expected_to, from@, expected_from);
    }
    to.append(&mut from);
}

/// A request to drop the connection to each of the peers.
fn disconnect_outcomes(senders: &Vec<NodeId>) -> (r: Vec<ProtocolOutcome>)
    ensures
        outcomes_are(r@, disconnects(senders@)),
{
    let mut outcomes: Vec<ProtocolOutcome> = Vec::new();
    let mut i: usize = 0;
    while i < senders.len()
        invariant
            i <= senders@.len(),
            outcomes@.len() == i,
            forall|j: int|
                0 <= j < i ==> (#[trigger] outcomes@[j])@ == OutcomeView::Disconnect(senders@[j]),
        decreases senders@.len() - i,
    {
        outcomes.push(ProtocolOutcome::Disconnect(senders[i]));
        i = i + 1;
    }
    outcomes
}

impl ProtocolView {
    /// The vertices that wait for the verdict on the value with the given hash.
    pub open spec fn parked(self, value_hash: u64) -> Seq<Vertex> {
        if self.pending_values.contains_key(value_hash) {
            self.pending_values[value_hash]
        } else {
            Seq::empty()
        }
    }

    /// The driver with the vertices dropped that depend on one of the given identities, and
    /// the peers that sent them.
    pub open spec fn dependents_dropped(self, ids: Seq<Dependency>) -> (Self, Seq<NodeId>) {
        let (queues, senders) = self.synchronizer.dependents_dropped(ids);
        (ProtocolView { synchronizer: queues, ..self }, senders)
    }

    /// The driver and the outcomes after a vertex that misses nothing was taken from the
    /// synchronizer at `now`. A vertex of a doppelganger ends this node's own part, and is
    /// gone on with. An invalid vertex is dropped with all that depends on it, and the peers
    /// that sent those are cut off. A vertex whose value needs validation is parked until the
    /// verdict. Any other vertex is added; then the vertices that waited for it are tried,
    /// and final blocks are looked for.
    pub open spec fn vertex_taken(self, sender: NodeId, vertex: Vertex, now: Timestamp) -> (
        Self,
        Seq<OutcomeView>,
    ) {
        let (warned, alarm) = if self.highway.is_doppelganger_vertex(vertex@) {
            (
                ProtocolView {
                    highway: HighwayView { active_validator: None, ..self.highway },
                    ..self
                },
                seq![OutcomeView::DoppelgangerDetected],
            )
        } else {
            (self, Seq::empty())
        };
        if warned.highway.state.vertex_error(vertex@) is Some {
            let (after, senders) = warned.dependents_dropped(seq![vertex@.id()]);
            (after, alarm + disconnects(senders))
        } else {
            match (vertex@.value(), vertex@.timestamp()) {
                (Some(value), Some(timestamp)) if value.needs_validation => (
                    ProtocolView {
                        pending_values: warned.pending_values.insert(
                            value.hash,
                            warned.parked(value.hash).push(vertex),
                        ),
                        ..warned
                    },
                    alarm.push(OutcomeView::ValidateConsensusValue(sender, value, timestamp)),
                ),
                _ => {
                    let (added, first) = warned.valid_vertex_added(vertex@, now);
                    let (tried, second) = added.satisfied_deps_removed();
                    let (after, third) = tried.finality_detected();
                    (after, alarm + first + second + third)
                },
            }
        }
    }

    /// The driver and the outcomes after the vertices whose dependency is in the state by now
    /// were moved to the vertices to be tried.
    pub open spec fn satisfied_deps_removed(self) -> (Self, Seq<OutcomeView>) {
        (
            ProtocolView {
                synchronizer: self.synchronizer.satisfied_removed(self.highway.state),
                ..self
            },
            crate::synchronizer::queue_actions(
                crate::marked::marked(
                    self.synchronizer.deps,
                    self.synchronizer.satisfied(self.highway.state),
                ).len(),
            ),
        )
    }

    /// The driver and the outcomes after the next vertex was tried at `now`: what the
    /// synchronizer asks for, and what follows from the vertex that it found, if any.
    pub open spec fn vertex_added(self, now: Timestamp) -> (Self, Seq<OutcomeView>) {
        let (queues, found, requests) = self.synchronizer.popped(self.highway.state);
        let popped = ProtocolView { synchronizer: queues, ..self };
        match found {
            None => (popped, requests),
            Some(pending) => {
                let (after, more) = popped.vertex_taken(pending.sender, pending.vertex, now);
                (after, requests + more)
            },
        }
    }

    /// The driver and the outcomes after the vertices were added, one after the other.
    pub open spec fn valid_vertices_added(self, vertices: Seq<Vertex>, now: Timestamp) -> (
        Self,
        Seq<OutcomeView>,
    )
        decreases vertices.len(),
    {
        if vertices.len() == 0 {
            (self, Seq::empty())
        } else {
            let (before, first) = self.valid_vertices_added(vertices.drop_last(), now);
            let (after, more) = before.valid_vertex_added(vertices.last()@, now);
            (after, first + more)
        }
    }

    /// The identities of a list of vertices.
    pub open spec fn vertex_ids(vertices: Seq<Vertex>) -> Seq<Dependency> {
        Seq::new(vertices.len(), |i: int| vertices[i]@.id())
    }

    /// The driver and the outcomes after the verdict on a value came in at `now`. For a valid
    /// value the vertices that waited for the verdict are added; then the vertices that
    /// waited for them are tried, and final blocks are looked for. For an invalid value they
    /// are dropped with all that depends on them; no peer is cut off for that, since a value
    /// also counts as invalid when it could not be fetched.
    pub open spec fn validity_resolved(self, value: ConsensusValue, valid: bool, now: Timestamp) -> (
        Self,
        Seq<OutcomeView>,
    ) {
        let waiting = self.parked(value.hash);
        let taken = ProtocolView { pending_values: self.pending_values.remove(value.hash), ..self };
        if valid {
            let (added, first) = taken.valid_vertices_added(waiting, now);
            let (tried, second) = added.satisfied_deps_removed();
            let (after, third) = tried.finality_detected();
            (after, first + second + third)
        } else {
            (taken.dependents_dropped(Self::vertex_ids(waiting)).0, Seq::empty())
        }
    }
}

impl HighwayProtocol {
    /// Parks a vertex until the verdict on its value.
    fn park(&mut self, value_hash: u64, vertex: Vertex)
        requires
            old(self).wf(),
        ensures
            final(self).wf(),
            final(self)@ == (ProtocolView {
                pending_values: old(self)@.pending_values.insert(
                    value_hash,
                    old(self)@.parked(value_hash).push(vertex),
                ),
                ..old(self)@
            }),
    {
        broadcast use vstd::std_specs::hash::group_hash_axioms;

        let ghost before = self@;
        let mut waiting = match self.pending_values.remove(&value_hash) {
            Some(list) => list,
            None => Vec::new(),
        };
        waiting.push(vertex);
        self.pending_values.insert(value_hash, waiting);
        assert(self@.pending_values =~= before.pending_values.insert(
            value_hash,
            before.parked(value_hash).push(vertex),
        ));
    }

    /// Takes the vertices that wait for the verdict on a value.
    fn unpark(&mut self, value_hash: u64) -> (r: Vec<Vertex>)
        requires
            old(self).wf(),
        ensures
            final(self).wf(),
            r@ == old(self)@.parked(value_hash),
            final(self)@ == (ProtocolView {
                pending_values: old(self)@.pending_values.remove(value_hash),
                ..old(self)@
            }),
    {
        broadcast use vstd::std_specs::hash::group_hash_axioms;

        let ghost before = self@;
        let waiting = match self.pending_values.remove(&value_hash) {
            Some(list) => list,
            None => Vec::new(),
        };
        assert(self@.pending_values =~= before.pending_values.remove(value_hash));
        waiting
    }

    /// Drops the vertices that depend on one of the given identities, and returns the peers
    /// that sent them.
    fn drop_dependent_vertices(&mut self, ids: Vec<Dependency>) -> (r: Vec<NodeId>)
        requires
            old(self).wf(),
        ensures
            final(self).wf(),
            final(self)@ == old(self)@.dependents_dropped(ids@).0,
            r@ == old(self)@.dependents_dropped(ids@).1,
    {
        let senders = self.synchronizer.drop_dependent_vertices(ids);
        proof {
            assert(self@.pending_values == old(self)@.pending_values);
        }
        senders
    }

    /// Moves the vertices whose dependency is in the state by now to the vertices to be
    /// tried.
    fn remove_satisfied_deps(&mut self) -> (r: Vec<ProtocolOutcome>)
        requires
            old(self).wf(),
        ensures
            final(self).wf(),
            final(self)@ == old(self)@.satisfied_deps_removed().0,
            outcomes_are(r@, old(self)@.satisfied_deps_removed().1),
    {
        let outcomes = self.synchronizer.remove_satisfied_deps(&self.highway.state);
        proof {
            assert(self@.pending_values == old(self)@.pending_values);
        }
        outcomes
    }

    /// Goes on with a vertex that the synchronizer found to miss nothing.
    fn take_vertex(&mut self, sender: NodeId, vertex: Vertex, now: Timestamp) -> (r: Vec<
        ProtocolOutcome,
    >)
        requires
            old(self).wf(),
        ensures
            final(self).wf(),
            final(self)@ == old(self)@.vertex_taken(sender, vertex, now).0,
            outcomes_are(r@, old(self)@.vertex_taken(sender, vertex, now).1),
    {
        let mut outcomes: Vec<ProtocolOutcome> = Vec::new();
        let ghost mut done: Seq<OutcomeView> = Seq::empty();
        // If unit is sent by a doppelganger, deactivate this instance of an active
        // validator. Continue processing the unit so that it can be added to the state.
        if self.highway.is_doppelganger_vertex(&vertex) {
            self.deactivate_validator();
            outcomes.push(ProtocolOutcome::DoppelgangerDetected);
            proof {
                done = seq![OutcomeView::DoppelgangerDetected];
            }
        }
        let ghost warned = self@;
        // If the vertex is invalid, drop all vertices that depend on this one, and disconnect
        // from the faulty senders.
        let vv = match self.highway.validate_vertex(vertex) {
            Ok(vv) => vv,
            Err((pvv, _)) => {
                let mut vertices: Vec<Dependency> = Vec::new();
                vertices.push(pvv.id());
                assert(vertices@ =~= seq![vertex@.id()]);
                let faulty_senders = self.drop_dependent_vertices(vertices);
                let more = disconnect_outcomes(&faulty_senders);
                join_outcomes(&mut outcomes, more, Ghost(done), Ghost(disconnects(faulty_senders@)));
                return outcomes;
            },
        };
        // If the vertex contains a consensus value, request validation.
        match (vv.value(), vv.timestamp()) {
            (Some(value), Some(timestamp)) => {
                if value.needs_validation {
                    self.park(value.hash, vv);
                    let outcome = ProtocolOutcome::ValidateConsensusValue(sender, value, timestamp);
                    proof {
                        crate::outcome::lemma_outcomes_push(outcomes@, done, outcome);
                    }
                    outcomes.push(outcome);
                    return outcomes;
                }
            },
            _ => {},
        }
        // Either consensus value doesn't need validation or it's not a proposal.
        // We can add it to the state.
        let ghost first = warned.valid_vertex_added(vv@, now);
        let added = self.add_valid_vertex(vv, now);
        join_outcomes(&mut outcomes, added, Ghost(done), Ghost(first.1));
        // If we added new vertices to the state, check whether any dependencies we were
        // waiting for are now satisfied, and try adding the pending vertices as well.
        let ghost second = self@.satisfied_deps_removed();
        let tried = self.remove_satisfied_deps();
        join_outcomes(&mut outcomes, tried, Ghost(done + first.1), Ghost(second.1));
        // Check whether any new blocks were finalized.
        let ghost third = self@.finality_detected();
        let finalized = self.detect_finality();
        join_outcomes(&mut outcomes, finalized, Ghost(done + first.1 + second.1), Ghost(third.1));
        outcomes
    }

    /// Adds the next vertex to the protocol state, if possible, or requests missing
    /// dependencies or validation. Schedules events to add everything that is unblocked now.
    pub fn add_vertex(&mut self, now: Timestamp) -> (r: Vec<ProtocolOutcome>)
        requires
            old(self).wf(),
        ensures
            final(self).wf(),
            final(self)@ == old(self)@.vertex_added(now).0,
            outcomes_are(r@, old(self)@.vertex_added(now).1),
    {
        let ghost popped = self@.synchronizer.popped(self@.highway.state);
        let (maybe_pending_vertex, outcomes) = self.synchronizer.pop_vertex_to_add(
            &self.highway.state,
        );
        let mut outcomes = outcomes;
        proof {
            assert(self@.pending_values == old(self)@.pending_values);
        }
        let pending_vertex = match maybe_pending_vertex {
            None => {
                return outcomes;
            },
            Some(pending_vertex) => pending_vertex,
        };
        let ghost more = self@.vertex_taken(pending_vertex.sender, pending_vertex.vertex, now);
        let taken = self.take_vertex(pending_vertex.sender, pending_vertex.vertex, now);
        join_outcomes(&mut outcomes, taken, Ghost(popped.2), Ghost(more.1));
        outcomes
    }

    /// Ends this node's own part in the era.
    pub fn deactivate_validator(&mut self)
        requires
            old(self).wf(),
        ensures
            final(self).wf(),
            final(self)@ == (ProtocolView {
                highway: HighwayView { active_validator: None, ..old(self)@.highway },
                ..old(self)@
            }),
    {
        self.highway.deactivate_validator();
        proof {
            assert(self@.pending_values == old(self)@.pending_values);
        }
    }

    /// Adds the vertices, one after the other.
    fn add_valid_vertices(&mut self, vertices: Vec<Vertex>, now: Timestamp) -> (r: Vec<
        ProtocolOutcome,
    >)
        requires
            old(self).wf(),
        ensures
            final(self).wf(),
            final(self)@ == old(self)@.valid_vertices_added(vertices@, now).0,
            outcomes_are(r@, old(self)@.valid_vertices_added(vertices@, now).1),
    {
        let ghost all = vertices@;
        let ghost before = self@;
        let mut rest = vertices;
        let mut outcomes: Vec<ProtocolOutcome> = Vec::new();
        let ghost mut done: Seq<OutcomeView> = Seq::empty();
        let ghost mut k: int = 0;
        proof {
            assert(all.take(0) =~= Seq::empty());
            assert(rest@ =~= all.skip(0));
        }
        while rest.len() > 0
            invariant
                0 <= k <= all.len(),
                self.wf(),
                rest@ == all.skip(k),
                outcomes_are(outcomes@, done),
                (self@, done) == before.valid_vertices_added(all.take(k), now),
            decreases rest@.len(),
        {
            let vv = rest.remove(0);
            proof {
                assert(vv == all[k]);
                assert(rest@ =~= all.skip(k + 1));
                assert(all.take(k + 1).drop_last() =~= all.take(k));
            }
            let ghost step = self@.valid_vertex_added(vv@, now);
            let more = self.add_valid_vertex(vv, now);
            join_outcomes(&mut outcomes, more, Ghost(done), Ghost(step.1));
            proof {
                done = done + step.1;
                k = k + 1;
            }
        }
        proof {
            assert(all.take(k) =~= all);
        }
        outcomes
    }

    /// Takes the verdict on a consensus value.
    pub fn resolve_validity(&mut self, value: &ConsensusValue, valid: bool, now: Timestamp) -> (r:
        Vec<ProtocolOutcome>)
        requires
            old(self).wf(),
        ensures
            final(self).wf(),
            final(self)@ == old(self)@.validity_resolved(*value, valid, now).0,
            outcomes_are(r@, old(self)@.validity_resolved(*value, valid, now).1),
    {
        if valid {
            let waiting = self.unpark(value.hash);
            let ghost first = self@.valid_vertices_added(waiting@, now);
            let mut outcomes = self.add_valid_vertices(waiting, now);
            let ghost second = self@.satisfied_deps_removed();
            let tried = self.remove_satisfied_deps();
            join_outcomes(&mut outcomes, tried, Ghost(first.1), Ghost(second.1));
            let ghost third = self@.finality_detected();
            let finalized = self.detect_finality();
            join_outcomes(&mut outcomes, finalized, Ghost(first.1 + second.1), Ghost(third.1));
            outcomes
        } else {
            // Drop vertices dependent on the invalid value.
            let dropped_vertices = self.unpark(value.hash);
            // recursively remove vertices depending on the dropped ones
            let mut ids: Vec<Dependency> = Vec::new();
            let mut i: usize = 0;
            while i < dropped_vertices.len()
                invariant
                    i <= dropped_vertices@.len(),
                    ids@.len() == i,
                    forall|j: int| 0 <= j < i ==> ids@[j] == dropped_vertices@[j]@.id(),
                decreases dropped_vertices@.len() - i,
            {
                ids.push(dropped_vertices[i].id());
                i = i + 1;
            }
            proof {
                assert(ids@ =~= ProtocolView::vertex_ids(dropped_vertices@));
            }
            let _faulty_senders = self.drop_dependent_vertices(ids);
            // We don't disconnect from the faulty senders here: The block validator considers
            // the value "invalid" even if it just couldn't download the deploys, which could
            // just be because the sender went offline.
            Vec::new()
        }
    }
}

} // verus!

verus! {

impl HighwayView {
    /// A unit of the state in the form in which it travels, as a message.
    pub open spec fn unit_message(self, hash: UnitHash) -> Option<MessageView> {
        if self.state.has_unit(hash) {
            Some(
                MessageView::NewVertex(
                    VertexView::Unit(
                        crate::vertex::UnitView {
                            instance_id: self.instance_id,
                            ..self.state.unit(hash)
                        },
                    ),
                ),
            )
        } else {
            None
        }
    }

    /// What a peer is told or asked about one validator, where its observation differs from
    /// ours. Where we know the validator to be faulty, the peer gets our proof. Where only the
    /// peer does, it is asked for its proof. Where the peer names a unit that we do not have,
    /// it is asked for the unit. Where we have a unit and the peer has none, or one that our
    /// unit comes after, it gets our unit.
    pub open spec fn state_reply(self, index: ValidatorIndex, theirs: Observation) -> Option<
        MessageView,
    > {
        let ours = observation_at(self.state.panorama, index);
        if ours == theirs {
            None
        } else {
            match (ours, theirs) {
                (Observation::Faulty, _) => match self.state.evidence(index) {
                    Some(evidence) => Some(MessageView::NewVertex(VertexView::Evidence(evidence))),
                    None => None,
                },
                (_, Observation::Faulty) => Some(
                    MessageView::RequestDependency(Dependency::Evidence(index)),
                ),
                (Observation::Unseen, Observation::Correct(hash)) => Some(
                    MessageView::RequestDependency(Dependency::Unit(hash)),
                ),
                (Observation::Correct(hash), Observation::Unseen) => self.unit_message(hash),
                (Observation::Correct(our_hash), Observation::Correct(their_hash)) => {
                    if self.state.has_unit(their_hash) && self.state.sees_correct(
                        self.state.panorama,
                        their_hash,
                    ) {
                        self.unit_message(our_hash)
                    } else if !self.state.has_unit(their_hash) {
                        Some(MessageView::RequestDependency(Dependency::Unit(their_hash)))
                    } else {
                        None
                    }
                },
                _ => None,
            }
        }
    }

    /// What a peer is told or asked about the first `n` validators, as messages to that peer.
    pub open spec fn state_replies(self, theirs: Seq<Observation>, sender: NodeId, n: int) -> Seq<
        OutcomeView,
    >
        decreases n,
    {
        if n <= 0 {
            Seq::empty()
        } else {
            let before = self.state_replies(theirs, sender, n - 1);
            match self.state_reply((n - 1) as ValidatorIndex, theirs[n - 1]) {
                Some(message) => before.push(
                    OutcomeView::CreatedTargetedMessage(message_bytes(message), sender),
                ),
                None => before,
            }
        }
    }
}

impl ProtocolView {
    /// The driver and the outcomes after a vertex came in from a peer at `now`; `authentic`
    /// says whether its signatures hold, and `msg` is the message as it came.
    ///
    /// A vertex that the state has, or one that is no evidence while only evidence is taken,
    /// is passed over. One with an unsound structure is turned down, what depends on it is
    /// dropped, and the peers that sent that are cut off. One of a faulty creator is passed
    /// over unless something waits for it. One dated later than the timeout from now is
    /// passed over; one dated later than now is kept until its time; any other is tried as
    /// soon as may be.
    pub open spec fn new_vertex_received(
        self,
        sender: NodeId,
        msg: Seq<u8>,
        vertex: Vertex,
        authentic: bool,
        now: Timestamp,
    ) -> (Self, Seq<OutcomeView>) {
        if self.highway.state.has_vertex(vertex@) || (self.evidence_only && !(vertex@
            is Evidence)) {
            (self, Seq::empty())
        } else {
            match self.highway.structure_error(vertex@, authentic) {
                Some(error) => {
                    let (after, senders) = self.dependents_dropped(seq![vertex@.id()]);
                    (
                        after,
                        seq![OutcomeView::InvalidIncomingMessage(msg, sender, error)] + disconnects(
                            senders,
                        ),
                    )
                },
                None => {
                    let is_faulty = match vertex@.creator() {
                        Some(creator) => self.highway.state.is_faulty(creator),
                        None => false,
                    };
                    if is_faulty && !self.synchronizer.is_dependency(vertex@.id()) {
                        (self, Seq::empty())
                    } else {
                        match vertex@.timestamp() {
                            Some(timestamp) if timestamp.0 > now.plus(
                                self.synchronizer.timeout,
                            ).0 => (self, Seq::empty()),
                            Some(timestamp) if timestamp.0 > now.0 => (
                                ProtocolView {
                                    synchronizer: Queues {
                                        later: self.synchronizer.later.push(
                                            (
                                                timestamp,
                                                crate::synchronizer::PendingVertex {
                                                    sender,
                                                    vertex,
                                                    time_received: now,
                                                },
                                            ),
                                        ),
                                        ..self.synchronizer
                                    },
                                    ..self
                                },
                                seq![
                                    OutcomeView::ScheduleTimer(
                                        timestamp,
                                        TimerId(TIMER_ID_VERTEX_WITH_FUTURE_TIMESTAMP),
                                    ),
                                ],
                            ),
                            _ => (
                                ProtocolView {
                                    synchronizer: Queues {
                                        to_add: self.synchronizer.to_add.push(
                                            crate::synchronizer::PendingVertex {
                                                sender,
                                                vertex,
                                                time_received: now,
                                            },
                                        ),
                                        ..self.synchronizer
                                    },
                                    ..self
                                },
                                crate::synchronizer::queue_actions(1),
                            ),
                        }
                    }
                },
            }
        }
    }

    /// The answer to a peer that asks for a dependency.
    pub open spec fn dependency_requested(self, sender: NodeId, dependency: Dependency) -> Seq<
        OutcomeView,
    > {
        match self.highway.dependency(dependency) {
            GetDepView::Nothing => Seq::empty(),
            GetDepView::Evidence(vid) => seq![OutcomeView::SendEvidence(sender, vid)],
            GetDepView::Vertex(vertex) => seq![
                OutcomeView::CreatedTargetedMessage(
                    message_bytes(MessageView::NewVertex(vertex)),
                    sender,
                ),
            ],
        }
    }

    /// The number of validators that a peer's panorama can be held against.
    pub open spec fn shared_len(self, theirs: Seq<Observation>) -> int {
        if theirs.len() < self.highway.state.panorama.len() {
            theirs.len() as int
        } else {
            self.highway.state.panorama.len() as int
        }
    }
}

impl HighwayProtocol {
    /// Takes in a vertex from a peer; see `ProtocolView::new_vertex_received`.
    pub fn handle_new_vertex(
        &mut self,
        sender: NodeId,
        msg: Vec<u8>,
        v: Vertex,
        authentic: bool,
        now: Timestamp,
    ) -> (r: Vec<ProtocolOutcome>)
        requires
            old(self).wf(),
        ensures
            final(self).wf(),
            final(self)@ == old(self)@.new_vertex_received(sender, msg@, v, authentic, now).0,
            outcomes_are(r@, old(self)@.new_vertex_received(sender, msg@, v, authentic, now).1),
    {
        if self.highway.has_vertex(&v) || (self.evidence_only && !v.is_evidence()) {
            return Vec::new();
        }
        // Keep track of whether the prevalidated vertex was from an equivocator
        let v_id = v.id();
        let pvv = match self.highway.pre_validate_vertex(v, authentic) {
            Ok(pvv) => pvv,
            Err((_, err)) => {
                // drop the vertices that might have depended on this one
                let mut ids: Vec<Dependency> = Vec::new();
                ids.push(v_id);
                assert(ids@ =~= seq![v@.id()]);
                let faulty_senders = self.drop_dependent_vertices(ids);
                let mut outcomes: Vec<ProtocolOutcome> = Vec::new();
                let ghost first = seq![OutcomeView::InvalidIncomingMessage(msg@, sender, err)];
                outcomes.push(ProtocolOutcome::InvalidIncomingMessage(msg, sender, err));
                let more = disconnect_outcomes(&faulty_senders);
                join_outcomes(
                    &mut outcomes,
                    more,
                    Ghost(first),
                    Ghost(disconnects(faulty_senders@)),
                );
                return outcomes;
            },
        };
        let is_faulty = match pvv.creator() {
            Some(creator) => self.highway.state.is_faulty(creator),
            None => false,
        };
        if is_faulty && !self.synchronizer.is_dependency(&pvv.id()) {
            return Vec::new();
        }
        let limit = now.saturating_add(self.synchronizer.pending_vertex_timeout());
        match pvv.timestamp() {
            Some(timestamp) => {
                if timestamp.0 > limit.0 {
                    return Vec::new();
                }
                if timestamp.0 > now.0 {
                    // If it's not from an equivocator and from the future, add to queue
                    self.synchronizer.store_vertex_for_addition_later(timestamp, now, sender, pvv);
                    let mut outcomes: Vec<ProtocolOutcome> = Vec::new();
                    outcomes.push(
                        ProtocolOutcome::ScheduleTimer(
                            timestamp,
                            TimerId(TIMER_ID_VERTEX_WITH_FUTURE_TIMESTAMP),
                        ),
                    );
                    proof {
                        assert(self@.pending_values == old(self)@.pending_values);
                    }
                    return outcomes;
                }
            },
            None => {},
        }
        // If it's not from an equivocator or it is a transitive dependency, add the vertex
        let outcomes = self.synchronizer.schedule_add_vertex(sender, pvv, now);
        proof {
            assert(self@.pending_values == old(self)@.pending_values);
        }
        outcomes
    }

    /// Answers a peer that asks for a dependency: with the vertex, with word to fetch the
    /// evidence, or not at all.
    pub fn handle_request_dependency(&self, sender: NodeId, dep: &Dependency) -> (r: Vec<
        ProtocolOutcome,
    >)
        requires
            self.wf(),
        ensures
            outcomes_are(r@, self@.dependency_requested(sender, *dep)),
    {
        let mut outcomes: Vec<ProtocolOutcome> = Vec::new();
        match self.highway.get_dependency(dep) {
            GetDepOutcome::Nothing => {},
            GetDepOutcome::Evidence(vid) => {
                outcomes.push(ProtocolOutcome::SendEvidence(sender, vid));
            },
            GetDepOutcome::Vertex(vv) => {
                outcomes.push(
                    ProtocolOutcome::CreatedTargetedMessage(
                        HighwayMessage::NewVertex(vv).serialize(),
                        sender,
                    ),
                );
            },
        }
        outcomes
    }

    /// What a peer is told or asked about one validator.
    fn create_message(&self, index: ValidatorIndex, theirs: Observation) -> (r: Option<
        HighwayMessage,
    >)
        requires
            self.wf(),
        ensures
            r is Some <==> self@.highway.state_reply(index, theirs) is Some,
            r matches Some(message) ==> Some(message@) == self@.highway.state_reply(index, theirs),
    {
        let state = self.highway.state();
        let ours = state.panorama().get(index);
        if ours == theirs {
            return None;
        }
        match (ours, theirs) {
            (Observation::Faulty, _) => match state.maybe_evidence(index) {
                Some(evidence) => Some(
                    HighwayMessage::NewVertex(Vertex::Evidence(evidence.duplicate())),
                ),
                None => None,
            },
            (_, Observation::Faulty) => Some(
                HighwayMessage::RequestDependency(Dependency::Evidence(index)),
            ),
            (Observation::Unseen, Observation::Correct(hash)) => Some(
                HighwayMessage::RequestDependency(Dependency::Unit(hash)),
            ),
            (Observation::Correct(hash), Observation::Unseen) => match state.wire_unit(
                hash,
                self.highway.instance_id(),
            ) {
                Some(swu) => Some(HighwayMessage::NewVertex(Vertex::Unit(swu))),
                None => None,
            },
            (Observation::Correct(our_hash), Observation::Correct(their_hash)) => {
                if state.has_unit(their_hash) && state.sees_correct(state.panorama(), their_hash) {
                    match state.wire_unit(our_hash, self.highway.instance_id()) {
                        Some(swu) => Some(HighwayMessage::NewVertex(Vertex::Unit(swu))),
                        None => None,
                    }
                } else if !state.has_unit(their_hash) {
                    Some(HighwayMessage::RequestDependency(Dependency::Unit(their_hash)))
                } else {
                    None
                }
            },
            _ => None,
        }
    }

    /// Answers a peer that tells its panorama: validator by validator, the peer is sent what
    /// it misses and asked for what we miss.
    pub fn handle_latest_state_request(&self, sender: NodeId, panorama: &Panorama) -> (r: Vec<
        ProtocolOutcome,
    >)
        requires
            self.wf(),
        ensures
            outcomes_are(
                r@,
                self@.highway.state_replies(panorama@, sender, self@.shared_len(panorama@)),
            ),
    {
        let ours = self.highway.state().panorama().len();
        let n = if panorama.len() < ours {
            panorama.len()
        } else {
            ours
        };
        let mut outcomes: Vec<ProtocolOutcome> = Vec::new();
        let mut i: usize = 0;
        while i < n
            invariant
                i <= n,
                n <= panorama@.len(),
                n <= u32::MAX,
                self.wf(),
                outcomes_are(outcomes@, self@.highway.state_replies(panorama@, sender, i as int)),
            decreases n - i,
        {
            match self.create_message(i as u32, panorama.obs[i]) {
                Some(msg) => {
                    let outcome = ProtocolOutcome::CreatedTargetedMessage(msg.serialize(), sender);
                    proof {
                        crate::outcome::lemma_outcomes_push(
                            outcomes@,
                            self@.highway.state_replies(panorama@, sender, i as int),
                            outcome,
                        );
                    }
                    outcomes.push(outcome);
                },
                None => {},
            }
            i = i + 1;
        }
        outcomes
    }

    /// Takes in a message from a peer at `now`. `authentic` says whether the signatures in
    /// the message hold; they are checked by whoever owns the keys.
    ///
    /// Bytes that hold no message are turned down. A vertex is taken in, a request for a
    /// dependency or for the latest state is answered.
    pub fn handle_message(&mut self, sender: NodeId, msg: Vec<u8>, authentic: bool, now: Timestamp) -> (r:
        Vec<ProtocolOutcome>)
        requires
            old(self).wf(),
        ensures
            final(self).wf(),
            match crate::message::bytes_message(msg@) {
                None => {
                    &&& final(self)@ == old(self)@
                    &&& outcomes_are(
                        r@,
                        seq![
                            OutcomeView::InvalidIncomingMessage(
                                msg@,
                                sender,
                                MessageError::Undecodable,
                            ),
                        ],
                    )
                },
                Some(MessageView::NewVertex(vertex)) => exists|v: Vertex|
                    {
                        &&& v@ == vertex
                        &&& final(self)@ == (#[trigger] old(self)@.new_vertex_received(
                            sender,
                            msg@,
                            v,
                            authentic,
                            now,
                        )).0
                        &&& outcomes_are(
                            r@,
                            old(self)@.new_vertex_received(sender, msg@, v, authentic, now).1,
                        )
                    },
                Some(MessageView::RequestDependency(dependency)) => {
                    &&& final(self)@ == old(self)@
                    &&& outcomes_are(r@, old(self)@.dependency_requested(sender, dependency))
                },
                Some(MessageView::LatestStateRequest(panorama)) => {
                    &&& final(self)@ == old(self)@
                    &&& outcomes_are(
                        r@,
                        old(self)@.highway.state_replies(
                            panorama,
                            sender,
                            old(self)@.shared_len(panorama),
                        ),
                    )
                },
            },
    {
        match HighwayMessage::deserialize(&msg) {
            None => {
                let mut outcomes: Vec<ProtocolOutcome> = Vec::new();
                outcomes.push(
                    ProtocolOutcome::InvalidIncomingMessage(msg, sender, MessageError::Undecodable),
                );
                outcomes
            },
            Some(HighwayMessage::NewVertex(v)) => {
                let ghost before = self@;
                let outcomes = self.handle_new_vertex(sender, msg, v, authentic, now);
                proof {
                    assert(self@ == before.new_vertex_received(sender, msg@, v, authentic, now).0);
                }
                outcomes
            },
            Some(HighwayMessage::RequestDependency(dep)) => self.handle_request_dependency(
                sender,
                &dep,
            ),
            Some(HighwayMessage::LatestStateRequest(panorama)) => self.handle_latest_state_request(
                sender,
                &panorama,
            ),
        }
    }

    /// Greets a new peer with our panorama, so that it can send what we miss.
    pub fn handle_new_peer(&self, peer_id: NodeId) -> (r: Vec<ProtocolOutcome>)
        ensures
            outcomes_are(
                r@,
                seq![
                    OutcomeView::CreatedTargetedMessage(
                        message_bytes(
                            MessageView::LatestStateRequest(self@.highway.state.panorama),
                        ),
                        peer_id,
                    ),
                ],
            ),
    {
        let msg = HighwayMessage::LatestStateRequest(self.highway.state.panorama().duplicate());
        let mut outcomes: Vec<ProtocolOutcome> = Vec::new();
        outcomes.push(ProtocolOutcome::CreatedTargetedMessage(msg.serialize(), peer_id));
        outcomes
    }
}

} // verus!

verus! {

impl ProtocolView {
    /// The driver and the outcomes after a timer went off at `now`.
    pub open spec fn timer_handled(self, now: Timestamp, timer_id: TimerId) -> (
        Self,
        Seq<OutcomeView>,
    ) {
        if timer_id.0 == TIMER_ID_ACTIVE_VALIDATOR {
            self.av_effects_processed(self.highway.timer_effects(now), now)
        } else if timer_id.0 == TIMER_ID_VERTEX_WITH_FUTURE_TIMESTAMP {
            (
                ProtocolView { synchronizer: self.synchronizer.past_due_added(now), ..self },
                crate::synchronizer::queue_actions(
                    crate::marked::marked(self.synchronizer.later, self.synchronizer.due(now)).len(),
                ),
            )
        } else if timer_id.0 == TIMER_ID_PURGE_VERTICES {
            (
                ProtocolView { synchronizer: self.synchronizer.purged(now), ..self },
                seq![OutcomeView::ScheduleTimer(now.plus(self.synchronizer.timeout), timer_id)],
            )
        } else if timer_id.0 == TIMER_ID_LOG_PARTICIPATION {
            (
                self,
                if self.era_has_ended() {
                    Seq::empty()
                } else {
                    seq![
                        OutcomeView::ScheduleTimer(
                            now.plus(self.log_participation_interval),
                            timer_id,
                        ),
                    ]
                },
            )
        } else {
            self.standstill_checked(now)
        }
    }

    /// The driver and the outcomes after a unit of this node's making came back signed at
    /// `now`. The unit is passed over if the state has it, if this node takes no part, if the
    /// unit is not of this node's making, or if only evidence is taken. Else the round
    /// exponent is calculated, the unit is added and sent to all peers, final blocks are
    /// looked for, and what follows from the unit is processed.
    pub open spec fn own_unit_added(self, unit: crate::vertex::UnitView, now: Timestamp) -> (
        Self,
        Seq<OutcomeView>,
    ) {
        let vertex = VertexView::Unit(unit);
        let ours = match self.highway.active_validator {
            Some(av) => av.vidx == unit.creator,
            None => false,
        };
        if !ours || self.evidence_only || self.highway.state.has_unit(unit.hash) {
            (self, Seq::empty())
        } else {
            let calculated = self.round_exponent_calculated(vertex, now);
            let (told, first) = calculated.with_vertex(vertex).new_vertex_processed(vertex);
            let (after, more) = told.av_effects_processed(
                calculated.highway.added_effects(vertex),
                now,
            );
            (after, first + more)
        }
    }

    /// The driver after it was told to take evidence only: every vertex that waits and is no
    /// evidence is dropped, and so are the units of the state.
    pub open spec fn evidence_only_set(self) -> Self {
        ProtocolView {
            pending_values: Map::empty(),
            synchronizer: self.synchronizer.evidence_only(),
            highway: HighwayView { state: self.highway.state.evidence_only(), ..self.highway },
            evidence_only: true,
            ..self
        }
    }

    /// The answer to a peer that asks for the proof against a validator.
    pub open spec fn evidence_requested(self, sender: NodeId, vid: ValidatorId) -> Seq<OutcomeView> {
        match crate::validators::index_of(self.highway.validators, vid) {
            Some(index) => match self.highway.dependency(Dependency::Evidence(index)) {
                GetDepView::Vertex(vertex) => seq![
                    OutcomeView::CreatedTargetedMessage(
                        message_bytes(MessageView::NewVertex(vertex)),
                        sender,
                    ),
                ],
                _ => Seq::empty(),
            },
            None => Seq::empty(),
        }
    }
}

impl HighwayProtocol {
    /// Handles a timer that went off at `now`. The timer must be one of the five that the
    /// driver sets.
    pub fn handle_timer(&mut self, now: Timestamp, timer_id: TimerId) -> (r: Vec<ProtocolOutcome>)
        requires
            old(self).wf(),
            timer_id.0 <= TIMER_ID_STANDSTILL_ALERT,
        ensures
            final(self).wf(),
            final(self)@ == old(self)@.timer_handled(now, timer_id).0,
            outcomes_are(r@, old(self)@.timer_handled(now, timer_id).1),
    {
        if timer_id.0 == TIMER_ID_ACTIVE_VALIDATOR {
            let effects = self.highway.handle_timer(now);
            proof {
                assert(effects_view(effects@) =~= self@.highway.timer_effects(now));
            }
            self.process_av_effects(effects, now)
        } else if timer_id.0 == TIMER_ID_VERTEX_WITH_FUTURE_TIMESTAMP {
            let outcomes = self.synchronizer.add_past_due_stored_vertices(now);
            proof {
                assert(self@.pending_values == old(self)@.pending_values);
            }
            outcomes
        } else if timer_id.0 == TIMER_ID_PURGE_VERTICES {
            self.synchronizer.purge_vertices(now);
            let next_time = now.saturating_add(self.synchronizer.pending_vertex_timeout());
            let mut outcomes: Vec<ProtocolOutcome> = Vec::new();
            outcomes.push(ProtocolOutcome::ScheduleTimer(next_time, timer_id));
            proof {
                assert(self@.pending_values == old(self)@.pending_values);
            }
            outcomes
        } else if timer_id.0 == TIMER_ID_LOG_PARTICIPATION {
            let mut outcomes: Vec<ProtocolOutcome> = Vec::new();
            if !self.evidence_only && !self.finalized_switch_block() {
                let next_time = now.saturating_add(self.log_participation_interval);
                outcomes.push(ProtocolOutcome::ScheduleTimer(next_time, timer_id));
            }
            outcomes
        } else {
            self.handle_standstill_alert_timer(now)
        }
    }

    /// Handles an action that the driver asked to be called back for: adds the next vertex.
    pub fn handle_action(&mut self, action_id: ActionId, now: Timestamp) -> (r: Vec<ProtocolOutcome>)
        requires
            old(self).wf(),
            action_id.0 == ACTION_ID_VERTEX,
        ensures
            final(self).wf(),
            final(self)@ == old(self)@.vertex_added(now).0,
            outcomes_are(r@, old(self)@.vertex_added(now).1),
    {
        self.add_vertex(now)
    }

    /// Proposes a value for a new block.
    pub fn propose(&mut self, value: ConsensusValue, block_context: BlockContext, now: Timestamp) -> (r:
        Vec<ProtocolOutcome>)
        requires
            old(self).wf(),
        ensures
            final(self).wf(),
            final(self)@ == old(self)@.av_effects_processed(
                old(self)@.highway.propose_effects(value, block_context),
                now,
            ).0,
            outcomes_are(
                r@,
                old(self)@.av_effects_processed(
                    old(self)@.highway.propose_effects(value, block_context),
                    now,
                ).1,
            ),
    {
        let effects = self.highway.propose(value, block_context);
        proof {
            assert(effects_view(effects@) =~= self@.highway.propose_effects(value, block_context));
        }
        self.process_av_effects(effects, now)
    }

    /// Takes back a unit of this node's making, signed; see `ProtocolView::own_unit_added`.
    pub fn add_own_unit(&mut self, unit: SignedWireUnit, now: Timestamp) -> (r: Vec<ProtocolOutcome>)
        requires
            old(self).wf(),
        ensures
            final(self).wf(),
            final(self)@ == old(self)@.own_unit_added(unit@, now).0,
            outcomes_are(r@, old(self)@.own_unit_added(unit@, now).1),
    {
        let ours = match self.highway.active_validator {
            Some(av) => av.vidx == unit.creator,
            None => false,
        };
        if !ours || self.evidence_only || self.highway.state.has_unit(unit.hash) {
            return Vec::new();
        }
        let copy = unit.duplicate();
        let vv = Vertex::Unit(unit);
        let ghost vertex = vv@;
        self.calculate_round_exponent(&vv, now);
        let ghost calculated = self@;
        let av_effects = self.highway.add_valid_vertex(vv);
        proof {
            assert(self@.pending_values == calculated.pending_values);
            assert(self@ == calculated.with_vertex(vertex));
            assert(effects_view(av_effects@) =~= calculated.highway.added_effects(vertex));
        }
        let ghost first = self@.new_vertex_processed(vertex);
        let mut outcomes = self.process_new_vertex(Vertex::Unit(copy));
        let ghost more = self@.av_effects_processed(effects_view(av_effects@), now);
        let processed = self.process_av_effects(av_effects, now);
        join_outcomes(&mut outcomes, processed, Ghost(first.1), Ghost(more.1));
        outcomes
    }

    /// Lets this node take part in the era as the given validator.
    pub fn activate_validator(&mut self, our_id: ValidatorId, now: Timestamp) -> (r: Vec<
        ProtocolOutcome,
    >)
        requires
            old(self).wf(),
        ensures
            final(self).wf(),
            final(self)@ == (ProtocolView {
                highway: old(self)@.highway.activated(our_id),
                ..old(self)@
            }).av_effects_processed(old(self)@.highway.activation_effects(our_id, now), now).0,
            outcomes_are(
                r@,
                (ProtocolView {
                    highway: old(self)@.highway.activated(our_id),
                    ..old(self)@
                }).av_effects_processed(old(self)@.highway.activation_effects(our_id, now), now).1,
            ),
    {
        let av_effects = self.highway.activate_validator(our_id, now);
        proof {
            assert(self@.pending_values == old(self)@.pending_values);
            assert(effects_view(av_effects@) =~= old(self)@.highway.activation_effects(
                our_id,
                now,
            ));
        }
        self.process_av_effects(av_effects, now)
    }

    /// From now on only evidence is taken.
    pub fn set_evidence_only(&mut self)
        requires
            old(self).wf(),
        ensures
            final(self).wf(),
            final(self)@ == old(self)@.evidence_only_set(),
    {
        self.pending_values = HashMap::new();
        self.synchronizer.retain_evidence_only();
        self.highway.retain_evidence_only();
        self.evidence_only = true;
        proof {
            assert(self@.pending_values =~= Map::<u64, Seq<Vertex>>::empty());
        }
    }

    /// Whether the state holds proof against the validator.
    pub fn has_evidence(&self, vid: ValidatorId) -> (r: bool)
        requires
            self.wf(),
        ensures
            r == match crate::validators::index_of(self@.highway.validators, vid) {
                Some(index) => self@.highway.state.has_evidence(index),
                None => false,
            },
    {
        self.highway.has_evidence(vid)
    }

    /// Calls a validator faulty without proof.
    pub fn mark_faulty(&mut self, vid: ValidatorId)
        requires
            old(self).wf(),
        ensures
            final(self).wf(),
            final(self)@ == (ProtocolView {
                highway: HighwayView {
                    state: match crate::validators::index_of(old(self)@.highway.validators, vid) {
                        Some(index) => old(self)@.highway.state.marked_faulty(index),
                        None => old(self)@.highway.state,
                    },
                    ..old(self)@.highway
                },
                ..old(self)@
            }),
    {
        self.highway.mark_faulty(vid);
        proof {
            assert(self@.pending_values == old(self)@.pending_values);
        }
    }

    /// Answers a peer that asks for the proof against a validator, where the state holds it.
    pub fn request_evidence(&self, sender: NodeId, vid: ValidatorId) -> (r: Vec<ProtocolOutcome>)
        requires
            self.wf(),
        ensures
            outcomes_are(r@, self@.evidence_requested(sender, vid)),
    {
        let mut outcomes: Vec<ProtocolOutcome> = Vec::new();
        match self.highway.validators().get_index(vid) {
            Some(vidx) => match self.highway.get_dependency(&Dependency::Evidence(vidx)) {
                GetDepOutcome::Vertex(vv) => {
                    let msg = HighwayMessage::NewVertex(vv);
                    outcomes.push(ProtocolOutcome::CreatedTargetedMessage(msg.serialize(), sender));
                },
                _ => {},
            },
            None => {},
        }
        outcomes
    }

    /// Sets the pause status: while paused we don't create any new units.
    pub fn set_paused(&mut self, paused: bool)
        requires
            old(self).wf(),
        ensures
            final(self).wf(),
            final(self)@ == (ProtocolView {
                highway: HighwayView {
                    active_validator: match old(self)@.highway.active_validator {
                        Some(av) => Some(ActiveValidator { paused, ..av }),
                        None => None,
                    },
                    ..old(self)@.highway
                },
                ..old(self)@
            }),
    {
        self.highway.set_paused(paused);
        proof {
            assert(self@.pending_values == old(self)@.pending_values);
        }
    }

    /// The validators that the state holds proof against.
    pub fn validators_with_evidence(&self) -> (r: Vec<ValidatorId>)
        requires
            self.wf(),
        ensures
            r@ == self@.highway.proven_before(self@.highway.validators.len() as int),
    {
        self.highway.validators_with_evidence()
    }

    /// Whether anything has come in for this era: a unit in the state, a vertex that waits,
    /// or a value that awaits its verdict.
    pub fn has_received_messages(&self) -> (r: bool)
        ensures
            r == (self@.highway.state.units.len() != 0 || !self@.synchronizer.is_empty()
                || self@.pending_values.dom().len() != 0),
    {
        broadcast use vstd::std_specs::hash::group_hash_axioms;

        proof {
            assert(self@.pending_values.dom() =~= self.pending_values@.dom());
        }
        !self.highway.state.is_empty() || !self.synchronizer.is_empty()
            || !self.pending_values.is_empty()
    }

    /// Whether this node takes part in the era.
    pub fn is_active(&self) -> (r: bool)
        ensures
            r == self@.highway.active_validator is Some,
    {
        self.highway.is_active()
    }

    pub fn instance_id(&self) -> (r: u64)
        ensures
            r == self@.highway.instance_id,
    {
        self.highway.instance_id()
    }

    /// The length of this node's next round, while it takes part.
    pub fn next_round_length(&self) -> (r: Option<TimeDiff>)
        requires
            self.wf(),
        ensures
            r == match self@.highway.active_validator {
                Some(_) => Some(
                    TimeDiff(
                        crate::round_success_meter::round_length(self@.highway.round_exp) as u64,
                    ),
                ),
                None => None,
            },
    {
        self.highway.next_round_length()
    }
}

} // verus!

verus! {

/// The reward for a block, which casper-types lays down as `BLOCK_REWARD` among the constants
/// of the auction: a million millions.
#[verifier::external_body]
pub(crate) fn block_reward() -> (r: u64)
    ensures
        r == 1_000_000_000_000u64,
{
    casper_types::system::auction::BLOCK_REWARD
}

/// The reward for a block that was finalized late: the given share of the block reward,
/// rounded down, and at most the largest 64-bit number.
pub open spec fn reduced_block_reward(multiplier: Fraction) -> u64 {
    let reduced = multiplier.numer as int * 1_000_000_000_000int / multiplier.denom as int;
    if reduced > u64::MAX {
        u64::MAX
    } else {
        reduced as u64
    }
}

/// How many units a piece of evidence for conflicting endorsements may hold: about as many
/// as a validator is expected to make in an era, which is twice the least number of rounds in
/// an era, and never more than the general limit.
pub open spec fn endorsement_evidence_limit(protocol_config: ProtocolConfig) -> u64 {
    let min_round_len = crate::round_success_meter::round_length(
        protocol_config.highway_config.minimum_round_exponent,
    ) as int;
    let by_duration = 1 + protocol_config.era_duration.0 as int / min_round_len;
    let min_rounds_per_era = if protocol_config.minimum_era_height >= by_duration {
        protocol_config.minimum_era_height as int
    } else {
        by_duration
    };
    if 2 * min_rounds_per_era >= MAX_ENDORSEMENT_EVIDENCE_LIMIT {
        MAX_ENDORSEMENT_EVIDENCE_LIMIT
    } else {
        (2 * min_rounds_per_era) as u64
    }
}

/// The parameters of an era.
pub open spec fn era_params(
    protocol_config: ProtocolConfig,
    seed: u64,
    init_round_exp: u8,
    era_start_time: Timestamp,
) -> Params {
    Params {
        seed,
        block_reward: 1_000_000_000_000,
        reduced_block_reward: reduced_block_reward(
            protocol_config.highway_config.reduced_reward_multiplier,
        ),
        min_round_exp: protocol_config.highway_config.minimum_round_exponent,
        max_round_exp: protocol_config.highway_config.maximum_round_exponent,
        init_round_exp,
        end_height: protocol_config.minimum_era_height,
        start_timestamp: era_start_time,
        end_timestamp: era_start_time.plus(protocol_config.era_duration),
        endorsement_evidence_limit: endorsement_evidence_limit(protocol_config),
    }
}

/// The round exponent with which an era begins: this node's latest in the era before, or the
/// least one.
pub open spec fn initial_round_exp(previous: Option<ProtocolView>, minimum: u8) -> u8 {
    match previous {
        Some(view) => match view.highway.active_validator {
            Some(av) => match view.highway.state.panorama[av.vidx as int] {
                Observation::Correct(hash) => if view.highway.state.has_unit(hash) {
                    view.highway.state.unit(hash).round_exp
                } else {
                    minimum
                },
                _ => minimum,
            },
            None => minimum,
        },
        None => minimum,
    }
}

/// The view of the driver of the era before, if there was one.
pub open spec fn previous_view(prev_cp: Option<&HighwayProtocol>) -> Option<ProtocolView> {
    match prev_cp {
        Some(previous) => Some(previous@),
        None => None,
    }
}

/// The panorama of someone who has seen nothing.
pub open spec fn empty_panorama(n: nat) -> Seq<Observation> {
    Seq::new(n, |i: int| Observation::Unseen)
}

impl HighwayProtocol {
    /// A new driver for an era, and what is to be done at its start: the three periodic
    /// timers are set, and all peers are asked for the latest state.
    ///
    /// The weights of the validators are their stakes, scaled down to 64 bits; the slashed
    /// ones are banned. The fault tolerance threshold is the configured share of the total
    /// weight. The round exponent and the round success meter go on from the era before, if
    /// there was one.
    ///
    /// The stakes must not all be zero, and the round exponents must be in order and below
    /// 64; the fractions must have a denominator.
    pub fn new_boxed(
        instance_id: u64,
        validator_stakes: &Vec<(ValidatorId, Uint512)>,
        slashed: &Vec<ValidatorId>,
        protocol_config: &ProtocolConfig,
        config: &HighwayConfig,
        prev_cp: Option<&HighwayProtocol>,
        era_start_time: Timestamp,
        seed: u64,
        now: Timestamp,
    ) -> (r: (Box<HighwayProtocol>, Vec<ProtocolOutcome>))
        requires
            crate::validators::sum_stakes(validator_stakes@) > 0,
            crate::validators::sum_stakes(validator_stakes@) + u64::MAX < crate::uint512::modulus(),
            validator_stakes@.len() <= u32::MAX,
            protocol_config.highway_config.minimum_round_exponent
                <= protocol_config.highway_config.maximum_round_exponent < 64,
            protocol_config.highway_config.finality_threshold_fraction.denom != 0,
            protocol_config.highway_config.reduced_reward_multiplier.denom != 0,
            prev_cp matches Some(previous) ==> previous.wf(),
        ensures
            r.0.wf(),
            r.0@.highway.instance_id == instance_id,
            r.0@.highway.validators.len() == validator_stakes@.len(),
            forall|i: int|
                0 <= i < validator_stakes@.len() ==> (#[trigger] r.0@.highway.validators[i]) == (
                crate::validators::Validator {
                    id: validator_stakes@[i].0,
                    weight: crate::validators::scaled_weight(
                        validator_stakes@[i].1.value(),
                        crate::validators::sum_stakes(validator_stakes@),
                    ) as u64,
                    banned: slashed@.contains(validator_stakes@[i].0),
                }),
            r.0@.finality_detector == (FinalityDetector {
                last_finalized: None,
                next_height: 0,
                ftt: crate::finality_detector::threshold(
                    r.0@.highway.state.total_weight() as u64,
                    protocol_config.highway_config.finality_threshold_fraction.numer,
                    protocol_config.highway_config.finality_threshold_fraction.denom,
                ),
            }),
            r.0@.highway.state.total_weight() == crate::validators::sum_weights(
                r.0@.highway.validators,
            ),
            r.0@.highway.state.params == era_params(
                *protocol_config,
                seed,
                initial_round_exp(
                    previous_view(prev_cp),
                    protocol_config.highway_config.minimum_round_exponent,
                ),
                era_start_time,
            ),
            r.0@.highway.active_validator is None,
            r.0@.highway.state.units.len() == 0,
            r.0@.evidence_only == false,
            r.0@.pending_values == Map::<u64, Seq<Vertex>>::empty(),
            r.0@.synchronizer.is_empty(),
            r.0@.synchronizer.timeout == config.pending_vertex_timeout,
            r.0@.last_panorama == r.0@.highway.state.panorama,
            r.0@.standstill_timeout == config.standstill_timeout,
            r.0@.log_participation_interval == config.log_participation_interval,
            r.0@.round_success_meter == match prev_cp {
                Some(previous) => previous@.round_success_meter.next_era(era_start_time),
                None => MeterView {
                    rounds: Seq::empty(),
                    current_round_id: crate::round_success_meter::round_start(
                        era_start_time,
                        r.0@.highway.round_exp,
                    ),
                    proposals: Seq::empty(),
                    min_round_exp: protocol_config.highway_config.minimum_round_exponent,
                    max_round_exp: protocol_config.highway_config.maximum_round_exponent,
                    current_round_exp: r.0@.highway.round_exp,
                    config: config.round_success_meter,
                },
            },
            outcomes_are(
                r.1@,
                initial_timers(now, era_start_time, *config).push(
                    OutcomeView::CreatedGossipMessage(
                        message_bytes(
                            MessageView::LatestStateRequest(
                                empty_panorama(validator_stakes@.len()),
                            ),
                        ),
                    ),
                ),
            ),
    {
        // For Highway, we need u64 weights. Scale down by  sum / u64::MAX,  rounded up.
        // If we round up the divisor, the resulting sum is guaranteed to be  <= u64::MAX.
        let weights = crate::validators::scale_stakes(validator_stakes);
        let mut validators = match crate::validators::Validators::new(&weights) {
            Some(validators) => validators,
            None => crate::validators::Validators { list: Vec::new() },
        };
        let mut i: usize = 0;
        let ghost fresh = validators.list@;
        while i < slashed.len()
            invariant
                i <= slashed@.len(),
                validators.wf(),
                validators.list@.len() == fresh.len(),
                forall|j: int|
                    0 <= j < fresh.len() ==> (#[trigger] validators.list@[j]) == (
                    crate::validators::Validator {
                        banned: slashed@.take(i as int).contains(fresh[j].id),
                        ..fresh[j]
                    }),
                forall|j: int| 0 <= j < fresh.len() ==> !(#[trigger] fresh[j]).banned,
            decreases slashed@.len() - i,
        {
            let ghost current = validators.list@;
            validators.ban(slashed[i]);
            proof {
                assert forall|j: int| 0 <= j < fresh.len() implies (
                #[trigger] validators.list@[j]) == (crate::validators::Validator {
                    banned: slashed@.take(i + 1).contains(fresh[j].id),
                    ..fresh[j]
                }) by {
                    assert(current[j].banned == slashed@.take(i as int).contains(fresh[j].id));
                    assert(slashed@.take(i + 1) =~= slashed@.take(i as int).push(slashed@[i as int]));
                    if slashed@.take(i as int).contains(fresh[j].id) {
                        let k = choose|k: int|
                            0 <= k < i && slashed@.take(i as int)[k] == fresh[j].id;
                        assert(slashed@.take(i + 1)[k] == fresh[j].id);
                    }
                    if slashed@[i as int] == fresh[j].id {
                        assert(slashed@.take(i + 1)[i as int] == fresh[j].id);
                    }
                }
            }
            i = i + 1;
        }
        proof {
            assert(slashed@.take(i as int) =~= slashed@);
        }
        let highway_config = protocol_config.highway_config;
        let total_weight = validators.total_weight();
        let ftt_fraction = highway_config.finality_threshold_fraction;
        let ftt = crate::finality_detector::fault_tolerance_threshold(
            total_weight,
            ftt_fraction.numer,
            ftt_fraction.denom,
        );
        let init_round_exp = match prev_cp {
            Some(previous) => match previous.our_round_exp() {
                Some(exp) => exp,
                None => highway_config.minimum_round_exponent,
            },
            None => highway_config.minimum_round_exponent,
        };
        // Allow about as many units as part of evidence for conflicting endorsements as we
        // expect a validator to create during an era. After that, they can endorse two
        // conflicting forks without getting slashed.
        let min_round_len = crate::round_success_meter::round_len(
            highway_config.minimum_round_exponent,
        );
        let by_duration: u128 = 1 + (protocol_config.era_duration.0 / min_round_len) as u128;
        let min_rounds_per_era: u128 = if protocol_config.minimum_era_height as u128
            >= by_duration {
            protocol_config.minimum_era_height as u128
        } else {
            by_duration
        };
        let endorsement_evidence_limit: u64 = if 2 * min_rounds_per_era
            >= MAX_ENDORSEMENT_EVIDENCE_LIMIT as u128 {
            MAX_ENDORSEMENT_EVIDENCE_LIMIT
        } else {
            (2 * min_rounds_per_era) as u64
        };
        let reward = block_reward();
        let multiplier = highway_config.reduced_reward_multiplier;
        assert(multiplier.numer as int * 1_000_000_000_000int <= u128::MAX) by (nonlinear_arith)
            requires
                multiplier.numer <= u64::MAX,
        {
        }
        let reduced: u128 = (multiplier.numer as u128) * (reward as u128) / (
        multiplier.denom as u128);
        let reduced_block_reward: u64 = if reduced > u64::MAX as u128 {
            u64::MAX
        } else {
            reduced as u64
        };
        let params = Params {
            seed,
            block_reward: reward,
            reduced_block_reward,
            min_round_exp: highway_config.minimum_round_exponent,
            max_round_exp: highway_config.maximum_round_exponent,
            init_round_exp,
            end_height: protocol_config.minimum_era_height,
            start_timestamp: era_start_time,
            end_timestamp: era_start_time.saturating_add(protocol_config.era_duration),
            endorsement_evidence_limit,
        };
        let mut outcomes = Self::initialize_timers(now, era_start_time, config);
        // Request the latest state from peers on startup.
        // We will catch up with the consensus state and also sync our own unit in case we
        // restarted. Nodes might have gone into "sleep mode" so we won't get the panorama
        // in a different way.
        let latest_state_request = HighwayMessage::LatestStateRequest(
            Panorama::new(validators.len()),
        );
        proof {
            assert(latest_state_request@ == MessageView::LatestStateRequest(
                empty_panorama(validator_stakes@.len()),
            )) by {
                match latest_state_request {
                    HighwayMessage::LatestStateRequest(panorama) => {
                        assert(panorama@ =~= empty_panorama(validator_stakes@.len()));
                    },
                    _ => {},
                }
            }
        }
        let gossip = ProtocolOutcome::CreatedGossipMessage(latest_state_request.serialize());
        proof {
            crate::outcome::lemma_outcomes_push(
                outcomes@,
                initial_timers(now, era_start_time, *config),
                gossip,
            );
        }
        outcomes.push(gossip);
        let highway = Highway::new(instance_id, validators, params);
        let round_success_meter = match prev_cp {
            Some(previous) => previous.next_era_round_succ_meter(era_start_time),
            None => RoundSuccessMeter::new(
                highway.round_exp,
                params.min_round_exp,
                params.max_round_exp,
                era_start_time,
                config.round_success_meter,
            ),
        };
        let last_panorama = highway.state.panorama().duplicate();
        let hw_proto = HighwayProtocol {
            pending_values: HashMap::new(),
            finality_detector: FinalityDetector::new(ftt),
            highway,
            round_success_meter,
            synchronizer: Synchronizer::new(config.pending_vertex_timeout),
            evidence_only: false,
            last_panorama,
            standstill_timeout: config.standstill_timeout,
            log_participation_interval: config.log_participation_interval,
        };
        proof {
            assert(hw_proto@.pending_values =~= Map::<u64, Seq<Vertex>>::empty());
        }
        (Box::new(hw_proto), outcomes)
    }
}

} // verus!

verus! {

impl HighwayProtocol {
    /// The report on participation: the validators that are inactive or faulty. The owner of
    /// the protocol writes it to its log, periodically and when the era is lost.
    pub fn log_participation(&self) -> (r: Vec<(ValidatorId, crate::highway::ParticipationStatus)>)
        requires
            self.wf(),
        ensures
            r@ == self@.highway.participation_before(self@.highway.validators.len() as int),
    {
        self.highway.participation()
    }
}

} // verus!
