use highway_node::finality_detector::{fault_tolerance_threshold, FinalizedBlock};
use highway_node::highway::ParticipationStatus;
use highway_node::message::HighwayMessage;
use highway_node::outcome::{ActionId, BlockContext, MessageError, ProtocolOutcome, TimerId};
use highway_node::protocol::{
    Fraction, HighwayConfig, HighwayProtocol, HighwayProtocolConfig, ProtocolConfig,
    MAX_ENDORSEMENT_EVIDENCE_LIMIT, TIMER_ID_ACTIVE_VALIDATOR, TIMER_ID_LOG_PARTICIPATION,
    TIMER_ID_PURGE_VERTICES, TIMER_ID_STANDSTILL_ALERT, TIMER_ID_VERTEX_WITH_FUTURE_TIMESTAMP,
};
use highway_node::round_success_meter::{round_id, round_len, MeterConfig, RoundSuccessMeter};
use highway_node::synchronizer::ACTION_ID_VERTEX;
use highway_node::time::{TimeDiff, Timestamp};
use highway_node::uint512::Uint512;
use highway_node::validators::{scale_stakes, Validators};
use highway_node::vertex::{
    ConsensusValue, Dependency, Endorsement, Evidence, Observation, Panorama, Ping,
    SignedWireUnit, Vertex,
};

const INSTANCE: u64 = 77;
const ERA_START: u64 = 1_000_000;
const SENDER: u64 = 500;
/// The start of the first round of exponent 10 in the era.
const ROUND: u64 = 1_000_448;

fn meter_config() -> MeterConfig {
    MeterConfig {
        num_rounds_to_consider: 40,
        num_rounds_slowdown: 10,
        num_rounds_speedup: 32,
        acceleration_parameter: 40,
        acceleration_ftt: 1,
    }
}

fn config() -> HighwayConfig {
    HighwayConfig {
        pending_vertex_timeout: TimeDiff(10_000),
        standstill_timeout: TimeDiff(60_000),
        log_participation_interval: TimeDiff(30_000),
        round_success_meter: meter_config(),
    }
}

fn protocol_config() -> ProtocolConfig {
    ProtocolConfig {
        highway_config: HighwayProtocolConfig {
            finality_threshold_fraction: Fraction { numer: 1, denom: 3 },
            minimum_round_exponent: 10,
            maximum_round_exponent: 16,
            reduced_reward_multiplier: Fraction { numer: 1, denom: 5 },
        },
        era_duration: TimeDiff(100_000),
        minimum_era_height: 2,
    }
}

/// A protocol for validators 1, 2, 3, ... with the given weights.
fn protocol(weights: &[u64]) -> (Box<HighwayProtocol>, Vec<ProtocolOutcome>) {
    let stakes: Vec<(u64, Uint512)> = weights
        .iter()
        .enumerate()
        .map(|(i, weight)| (i as u64 + 1, Uint512::from_u64(*weight)))
        .collect();
    HighwayProtocol::new_boxed(
        INSTANCE,
        &stakes,
        &vec![],
        &protocol_config(),
        &config(),
        None,
        Timestamp(ERA_START),
        5,
        Timestamp(ERA_START + 10),
    )
}

fn panorama(obs: &[Observation]) -> Panorama {
    Panorama { obs: obs.to_vec() }
}

fn unit(
    hash: u64,
    creator: u32,
    seq_number: u64,
    obs: &[Observation],
    value: Option<ConsensusValue>,
    parent: Option<u64>,
    timestamp: u64,
) -> SignedWireUnit {
    SignedWireUnit {
        hash,
        creator,
        instance_id: INSTANCE,
        seq_number,
        round_exp: 10,
        timestamp: Timestamp(timestamp),
        panorama: panorama(obs),
        value,
        parent,
        signature: hash + 1,
    }
}

fn value(hash: u64) -> ConsensusValue {
    ConsensusValue { hash, needs_validation: false }
}

fn new_vertex_bytes(unit: &SignedWireUnit) -> Vec<u8> {
    HighwayMessage::NewVertex(Vertex::Unit(unit.duplicate())).serialize()
}

use Observation::{Correct, Faulty, Unseen};

/// Sends a unit and runs the queued action that follows.
fn deliver(protocol: &mut HighwayProtocol, unit: &SignedWireUnit, now: u64) -> Vec<ProtocolOutcome> {
    let outcomes = protocol.handle_message(SENDER, new_vertex_bytes(unit), true, Timestamp(now));
    assert!(matches!(outcomes.as_slice(), [ProtocolOutcome::QueueAction(ActionId(ACTION_ID_VERTEX))]));
    protocol.handle_action(ActionId(ACTION_ID_VERTEX), Timestamp(now))
}

fn finalized(outcomes: &[ProtocolOutcome]) -> Vec<FinalizedBlock> {
    outcomes
        .iter()
        .filter_map(|outcome| match outcome {
            ProtocolOutcome::FinalizedBlock(block) => Some(*block),
            _ => None,
        })
        .collect()
}

#[test]
fn new_era_sets_timers_and_asks_for_the_latest_state() {
    let (protocol, outcomes) = protocol(&[40, 35, 25]);
    assert_eq!(outcomes.len(), 4);
    let from = ERA_START + 10;
    assert!(matches!(
        outcomes[0],
        ProtocolOutcome::ScheduleTimer(Timestamp(t), TimerId(TIMER_ID_PURGE_VERTICES)) if t == from + 10_000
    ));
    assert!(matches!(
        outcomes[1],
        ProtocolOutcome::ScheduleTimer(Timestamp(t), TimerId(TIMER_ID_LOG_PARTICIPATION)) if t == from + 30_000
    ));
    assert!(matches!(
        outcomes[2],
        ProtocolOutcome::ScheduleTimer(Timestamp(t), TimerId(TIMER_ID_STANDSTILL_ALERT)) if t == from + 60_000
    ));
    match &outcomes[3] {
        ProtocolOutcome::CreatedGossipMessage(bytes) => {
            match HighwayMessage::deserialize(bytes) {
                Some(HighwayMessage::LatestStateRequest(panorama)) => {
                    assert_eq!(panorama.obs, vec![Unseen, Unseen, Unseen]);
                }
                other => panic!("unexpected message {:?}", other),
            }
        }
        other => panic!("unexpected outcome {:?}", other),
    }
    assert_eq!(protocol.finality_detector.ftt, 33);
    assert_eq!(protocol.highway.state.total_weight(), 100);
    let params = protocol.highway.state.params;
    assert_eq!(params.block_reward, 1_000_000_000_000);
    assert_eq!(params.reduced_block_reward, 200_000_000_000);
    assert_eq!(params.end_timestamp, Timestamp(ERA_START + 100_000));
    // Twice the greater of the least height and one more than the rounds that fit the era.
    assert_eq!(params.endorsement_evidence_limit, 2 * (1 + 100_000 / 1024));
    assert_eq!(params.init_round_exp, 10);
    assert!(!protocol.is_active());
    assert!(!protocol.has_received_messages());
    assert_eq!(protocol.instance_id(), INSTANCE);
    assert_eq!(MAX_ENDORSEMENT_EVIDENCE_LIMIT, 10_000);
}

#[test]
fn timers_start_at_the_era_when_it_has_not_begun() {
    let outcomes = HighwayProtocol::initialize_timers(Timestamp(5), Timestamp(100), &config());
    assert!(matches!(outcomes[0], ProtocolOutcome::ScheduleTimer(Timestamp(10_100), TimerId(2))));
    assert!(matches!(outcomes[1], ProtocolOutcome::ScheduleTimer(Timestamp(30_100), TimerId(3))));
    assert!(matches!(outcomes[2], ProtocolOutcome::ScheduleTimer(Timestamp(60_100), TimerId(4))));
    let limit = HighwayProtocol::initialize_timers(Timestamp(u64::MAX - 5), Timestamp(0), &config());
    assert!(matches!(limit[0], ProtocolOutcome::ScheduleTimer(Timestamp(u64::MAX), TimerId(2))));
}

#[test]
fn stakes_are_scaled_to_64_bits() {
    let small = vec![(1u64, Uint512::from_u64(1)), (2, Uint512::from_u64(2)), (3, Uint512::from_u64(3))];
    assert_eq!(scale_stakes(&small), vec![(1, 1), (2, 2), (3, 3)]);
    // Two stakes of 2^64 add up to 2^65, which is scaled down by 3.
    let big = Uint512 { limbs: [0, 1, 0, 0, 0, 0, 0, 0] };
    let stakes = vec![(7u64, big), (8, big), (9, Uint512::from_u64(2))];
    let weights = scale_stakes(&stakes);
    assert_eq!(weights, vec![(7, 6148914691236517205), (8, 6148914691236517205), (9, 0)]);
    let validators = Validators::new(&weights).unwrap();
    assert_eq!(validators.total_weight(), 12297829382473034410);
    // The sum is exactly the largest weight: the factor is one.
    let exact = vec![(1u64, Uint512::from_u64(u64::MAX - 1)), (2, Uint512::from_u64(1))];
    assert_eq!(scale_stakes(&exact), vec![(1, u64::MAX - 1), (2, 1)]);
    // One more, and the factor is two.
    let over = vec![(1u64, Uint512::from_u64(u64::MAX)), (2, Uint512::from_u64(1))];
    assert_eq!(scale_stakes(&over), vec![(1, u64::MAX / 2), (2, 0)]);
}

#[test]
fn validators_are_found_and_banned() {
    let mut validators = Validators::new(&vec![(10, 5), (20, 6), (30, 7)]).unwrap();
    assert_eq!(validators.len(), 3);
    assert_eq!(validators.total_weight(), 18);
    assert_eq!(validators.get_index(20), Some(1));
    assert_eq!(validators.get_index(21), None);
    assert_eq!(validators.id(2), Some(30));
    assert_eq!(validators.id(3), None);
    validators.ban(20);
    assert!(validators.get(1).unwrap().banned);
    assert!(!validators.get(0).unwrap().banned);
    assert_eq!(validators.total_weight(), 18);
    assert!(Validators::new(&vec![(1, u64::MAX), (2, 1)]).is_none());
}

#[test]
fn slashed_validators_are_banned_and_faulty_from_the_start() {
    let stakes = vec![(1u64, Uint512::from_u64(10)), (2, Uint512::from_u64(20))];
    let (protocol, _) = HighwayProtocol::new_boxed(
        INSTANCE,
        &stakes,
        &vec![2],
        &protocol_config(),
        &config(),
        None,
        Timestamp(ERA_START),
        5,
        Timestamp(ERA_START),
    );
    assert_eq!(protocol.highway.state.panorama.obs, vec![Unseen, Faulty]);
    assert!(protocol.highway.state.is_faulty(1));
    assert!(!protocol.has_evidence(2));
    assert_eq!(
        protocol.log_participation(),
        vec![(1, ParticipationStatus::Inactive), (2, ParticipationStatus::Banned)]
    );
    assert!(protocol.validators_with_evidence().is_empty());
}

#[test]
fn threshold_is_the_fraction_of_the_total_weight_rounded_down() {
    assert_eq!(fault_tolerance_threshold(100, 1, 3), 33);
    assert_eq!(fault_tolerance_threshold(99, 1, 3), 33);
    assert_eq!(fault_tolerance_threshold(98, 1, 3), 32);
    assert_eq!(fault_tolerance_threshold(u64::MAX, 1, 1), u64::MAX);
    assert_eq!(fault_tolerance_threshold(u64::MAX, 0, 7), 0);
}

#[test]
fn messages_round_trip() {
    let u = unit(11, 2, 3, &[Correct(5), Unseen, Faulty], Some(value(99)), Some(4), ERA_START + 7);
    let v = unit(12, 2, 3, &[Unseen, Unseen, Correct(8)], None, None, ERA_START + 9);
    let messages = vec![
        HighwayMessage::NewVertex(Vertex::Unit(u.duplicate())),
        HighwayMessage::NewVertex(Vertex::Evidence(Evidence { unit1: u.duplicate(), unit2: v.duplicate() })),
        HighwayMessage::NewVertex(Vertex::Endorsement(Endorsement { unit: 3, creator: 1, signature: 9 })),
        HighwayMessage::NewVertex(Vertex::Ping(Ping {
            creator: 2,
            timestamp: Timestamp(80),
            instance_id: INSTANCE,
            signature: 4,
        })),
        HighwayMessage::RequestDependency(Dependency::Unit(u64::MAX)),
        HighwayMessage::RequestDependency(Dependency::Evidence(u32::MAX)),
        HighwayMessage::RequestDependency(Dependency::Endorsement(0)),
        HighwayMessage::RequestDependency(Dependency::Ping(3, Timestamp(17))),
        HighwayMessage::LatestStateRequest(panorama(&[])),
        HighwayMessage::LatestStateRequest(panorama(&[Faulty, Correct(1), Unseen])),
    ];
    for message in messages {
        let bytes = message.serialize();
        let back = HighwayMessage::deserialize(&bytes).expect("should deserialize");
        assert_eq!(format!("{:?}", back), format!("{:?}", message));
        assert_eq!(back.serialize(), bytes);
        assert_eq!(HighwayMessage::from_words(&message.to_words()).map(|m| m.to_words()), Some(message.to_words()));
    }
}

#[test]
fn message_bytes_are_words_in_little_endian() {
    let message = HighwayMessage::RequestDependency(Dependency::Unit(0x0102));
    assert_eq!(message.to_words(), vec![1, 0, 0x0102]);
    let bytes = message.serialize();
    let mut expected = vec![3u8, 0, 0, 0, 0, 0, 0, 0];
    expected.extend([1u8, 0, 0, 0, 0, 0, 0, 0]);
    expected.extend([0u8; 8]);
    expected.extend([2u8, 1, 0, 0, 0, 0, 0, 0]);
    assert_eq!(bytes, expected);
}

#[test]
fn malformed_messages_are_not_read() {
    assert!(HighwayMessage::deserialize(&vec![]).is_none());
    assert!(HighwayMessage::deserialize(&vec![1, 0, 0]).is_none());
    // A count of two words, and only one word.
    let mut short = vec![2u8, 0, 0, 0, 0, 0, 0, 0];
    short.extend([1u8, 0, 0, 0, 0, 0, 0, 0]);
    assert!(HighwayMessage::deserialize(&short).is_none());
    // An unknown tag.
    assert!(HighwayMessage::from_words(&vec![3, 0]).is_none());
    // Words left over.
    assert!(HighwayMessage::from_words(&vec![1, 0, 5, 5]).is_none());
    // A validator index beyond 32 bits.
    assert!(HighwayMessage::from_words(&vec![1, 1, 1 << 32]).is_none());
    // A panorama that is shorter than it says.
    assert!(HighwayMessage::from_words(&vec![2, 2, 0]).is_none());
    assert!(HighwayMessage::from_words(&vec![2, 2, 0, 1]).is_none());
    assert!(HighwayMessage::from_words(&vec![2, 2, 0, 1, 7]).is_some());
    assert!(HighwayMessage::from_words(&vec![]).is_none());
}

#[test]
fn undecodable_message_is_turned_down() {
    let (mut protocol, _) = protocol(&[40, 35, 25]);
    let outcomes = protocol.handle_message(SENDER, vec![1, 2, 3], true, Timestamp(ERA_START + 20));
    match outcomes.as_slice() {
        [ProtocolOutcome::InvalidIncomingMessage(bytes, sender, MessageError::Undecodable)] => {
            assert_eq!(bytes, &vec![1, 2, 3]);
            assert_eq!(*sender, SENDER);
        }
        other => panic!("unexpected outcomes {:?}", other),
    }
}

#[test]
fn dependency_chain_is_resolved_in_order_without_duplicate_requests() {
    let (mut protocol, _) = protocol(&[40, 35, 25]);
    let now = ERA_START + 5_000;
    let v1 = unit(101, 0, 0, &[Unseen, Unseen, Unseen], None, None, ERA_START + 1);
    let v2 = unit(102, 0, 1, &[Correct(101), Unseen, Unseen], None, None, ERA_START + 2);
    let v3 = unit(103, 0, 2, &[Correct(102), Unseen, Unseen], None, None, ERA_START + 3);

    // V3 comes first: V2 is asked for.
    let outcomes = deliver(&mut protocol, &v3, now);
    match outcomes.as_slice() {
        [ProtocolOutcome::CreatedTargetedMessage(bytes, peer)] => {
            assert_eq!(*peer, SENDER);
            assert_eq!(
                bytes,
                &HighwayMessage::RequestDependency(Dependency::Unit(102)).serialize()
            );
        }
        other => panic!("unexpected outcomes {:?}", other),
    }
    // V3 again: nothing is asked for twice.
    let outcomes = deliver(&mut protocol, &v3, now);
    assert!(outcomes.is_empty(), "{:?}", outcomes);
    // V2 comes: V1 is asked for.
    let outcomes = deliver(&mut protocol, &v2, now);
    match outcomes.as_slice() {
        [ProtocolOutcome::CreatedTargetedMessage(bytes, _)] => {
            assert_eq!(
                bytes,
                &HighwayMessage::RequestDependency(Dependency::Unit(101)).serialize()
            );
        }
        other => panic!("unexpected outcomes {:?}", other),
    }
    assert!(protocol.synchronizer.is_dependency(&Dependency::Unit(101)));
    assert!(protocol.synchronizer.is_dependency(&Dependency::Unit(102)));
    assert!(!protocol.highway.state.has_unit(101));
    // V1 comes and is added; V2 is tried next.
    let outcomes = deliver(&mut protocol, &v1, now);
    assert!(matches!(outcomes.as_slice(), [ProtocolOutcome::QueueAction(ActionId(0))]), "{:?}", outcomes);
    assert!(protocol.highway.state.has_unit(101));
    assert!(!protocol.highway.state.has_unit(102));
    // One of the copies of V2 is added; V3 is tried next, once for each copy that waited.
    let outcomes = protocol.handle_action(ActionId(0), Timestamp(now));
    assert_eq!(outcomes.len(), 2, "{:?}", outcomes);
    assert!(outcomes.iter().all(|o| matches!(o, ProtocolOutcome::QueueAction(ActionId(0)))));
    assert!(protocol.highway.state.has_unit(102));
    let outcomes = protocol.handle_action(ActionId(0), Timestamp(now));
    assert!(outcomes.is_empty(), "{:?}", outcomes);
    assert!(protocol.highway.state.has_unit(103));
    // The second copy of V3 is known by now and dropped.
    let outcomes = protocol.handle_action(ActionId(0), Timestamp(now));
    assert!(outcomes.is_empty());
    assert!(protocol.synchronizer.is_empty());
    assert_eq!(protocol.highway.state.panorama.obs, vec![Correct(103), Unseen, Unseen]);
    assert!(protocol.has_received_messages());
}

#[test]
fn equivocation_forms_evidence_and_later_units_are_dropped() {
    let (mut protocol, _) = protocol(&[40, 30, 30]);
    let now = ERA_START + 5_000;
    let first = unit(201, 1, 0, &[Unseen, Unseen, Unseen], Some(value(1)), None, ROUND);
    let second = unit(202, 1, 0, &[Unseen, Unseen, Unseen], Some(value(2)), None, ROUND);
    let outcomes = deliver(&mut protocol, &first, now);
    assert!(outcomes.is_empty(), "{:?}", outcomes);
    assert!(!protocol.highway.state.is_faulty(1));

    let outcomes = deliver(&mut protocol, &second, now);
    assert_eq!(outcomes.len(), 2, "{:?}", outcomes);
    assert!(matches!(outcomes[0], ProtocolOutcome::NewEvidence(2)));
    match &outcomes[1] {
        ProtocolOutcome::CreatedGossipMessage(bytes) => match HighwayMessage::deserialize(bytes) {
            Some(HighwayMessage::NewVertex(Vertex::Evidence(evidence))) => {
                assert_eq!(evidence.unit1.hash, 201);
                assert_eq!(evidence.unit2.hash, 202);
                assert_eq!(evidence.perpetrator(), 1);
            }
            other => panic!("unexpected message {:?}", other),
        },
        other => panic!("unexpected outcome {:?}", other),
    }
    assert!(protocol.highway.state.is_faulty(1));
    assert!(protocol.has_evidence(2));
    assert_eq!(protocol.validators_with_evidence(), vec![2]);
    assert_eq!(protocol.highway.state.panorama.obs, vec![Unseen, Faulty, Unseen]);
    assert!(protocol.highway.state.maybe_evidence(1).is_some());

    // A later unit of the faulty validator is dropped without a word.
    let third = unit(203, 1, 1, &[Unseen, Correct(201), Unseen], None, None, ERA_START + 2);
    let outcomes = protocol.handle_message(SENDER, new_vertex_bytes(&third), true, Timestamp(now));
    assert!(outcomes.is_empty(), "{:?}", outcomes);
    assert!(protocol.synchronizer.is_empty());
    assert!(!protocol.highway.state.has_unit(203));
}

#[test]
fn adding_a_vertex_twice_changes_nothing() {
    let (mut protocol, _) = protocol(&[40, 35, 25]);
    let u = unit(301, 0, 0, &[Unseen, Unseen, Unseen], Some(value(1)), None, ERA_START + 1);
    protocol.highway.state.add_unit(u.duplicate());
    let before = format!("{:?}", protocol.highway.state);
    protocol.highway.state.add_unit(u.duplicate());
    assert_eq!(format!("{:?}", protocol.highway.state), before);
    // A message with a known vertex is passed over.
    let outcomes =
        protocol.handle_message(SENDER, new_vertex_bytes(&u), true, Timestamp(ERA_START + 50));
    assert!(outcomes.is_empty());
    assert!(protocol.synchronizer.is_empty());
}

#[test]
fn independent_vertices_can_be_added_in_either_order() {
    let a = unit(401, 0, 0, &[Unseen, Unseen, Unseen], Some(value(1)), None, ERA_START + 1);
    let b = unit(402, 1, 0, &[Unseen, Unseen, Unseen], Some(value(2)), None, ERA_START + 1);
    let (mut one, _) = protocol(&[40, 35, 25]);
    let (mut other, _) = protocol(&[40, 35, 25]);
    one.highway.state.add_unit(a.duplicate());
    one.highway.state.add_unit(b.duplicate());
    other.highway.state.add_unit(b.duplicate());
    other.highway.state.add_unit(a.duplicate());
    assert_eq!(one.highway.state.panorama.obs, vec![Correct(401), Correct(402), Unseen]);
    assert_eq!(one.highway.state.panorama.obs, other.highway.state.panorama.obs);
    assert!(other.highway.state.has_unit(401) && other.highway.state.has_unit(402));
    assert_eq!(one.highway.state.block(401).map(|b| b.height), Some(0));
    assert_eq!(other.highway.state.block(401).map(|b| b.height), Some(0));
    assert_eq!(one.highway.state.units.len(), other.highway.state.units.len());
}

#[test]
fn blocks_become_final_in_a_row() {
    let (mut protocol, _) = protocol(&[40, 35, 25]);
    let now = ERA_START + 5_000;
    // Validator 0 proposes the first block.
    let b0 = unit(1, 0, 0, &[Unseen, Unseen, Unseen], Some(value(1000)), None, ROUND);
    let outcomes = deliver(&mut protocol, &b0, now);
    // 40 of 100 is no quorum with a threshold of 33.
    assert!(finalized(&outcomes).is_empty());
    // Validator 1 votes for it: 75 of 100.
    let w1 = unit(2, 1, 0, &[Correct(1), Unseen, Unseen], None, Some(1), ROUND + 2);
    let outcomes = deliver(&mut protocol, &w1, now);
    let blocks = finalized(&outcomes);
    assert_eq!(blocks.len(), 1);
    assert_eq!(blocks[0].height, 0);
    assert_eq!(blocks[0].hash, 1);
    assert_eq!(blocks[0].value, value(1000));
    assert_eq!(blocks[0].proposer, 0);
    assert!(!blocks[0].terminal);
    assert_eq!(protocol.finality_detector.last_finalized(), Some(1));
    // Validator 1 proposes the second block on the first; validator 2 proposes another one.
    let b1 = unit(3, 1, 1, &[Correct(1), Correct(2), Unseen], Some(value(1001)), Some(1), ROUND + 1024);
    let outcomes = deliver(&mut protocol, &b1, now);
    assert!(finalized(&outcomes).is_empty());
    let fork = unit(4, 2, 0, &[Correct(1), Unseen, Unseen], Some(value(1002)), Some(1), ROUND + 1024);
    let outcomes = deliver(&mut protocol, &fork, now);
    assert!(finalized(&outcomes).is_empty());
    assert_eq!(protocol.non_finalized_values(Some(3)), vec![value(1001)]);
    assert_eq!(protocol.non_finalized_values(Some(1)), Vec::<ConsensusValue>::new());
    // Validator 0 votes for the second block, and proposes the third on it.
    // The era lasts until 1_100_000; the next round starts at 1_100_800.
    let b2 = unit(5, 0, 1, &[Correct(1), Correct(3), Correct(4)], Some(value(1003)), Some(3), 1_100_800);
    let outcomes = deliver(&mut protocol, &b2, now + 200_000);
    let blocks = finalized(&outcomes);
    assert_eq!(blocks.iter().map(|b| b.height).collect::<Vec<_>>(), vec![1]);
    assert_eq!(blocks[0].hash, 3);
    // Validator 1 votes for the third block: it ends the era.
    let w2 = unit(6, 1, 2, &[Correct(5), Correct(3), Correct(4)], None, Some(5), 1_100_801);
    let outcomes = deliver(&mut protocol, &w2, now + 200_000);
    let blocks = finalized(&outcomes);
    assert_eq!(blocks.len(), 1);
    assert_eq!(blocks[0].height, 2);
    assert!(blocks[0].terminal);
    assert!(protocol.finalized_switch_block());
    assert_eq!(protocol.finality_detector.next_height, 3);
    // The era is over: no standstill alert, no further report on participation.
    assert!(protocol.handle_standstill_alert_timer(Timestamp(now + 300_000)).is_empty());
    assert!(protocol
        .handle_timer(Timestamp(now + 300_000), TimerId(TIMER_ID_LOG_PARTICIPATION))
        .is_empty());
}

#[test]
fn ftt_exceeded_ends_finality() {
    // Total weight 100, threshold a third: 33. Validator 0 weighs 34.
    let (mut protocol, _) = protocol(&[34, 33, 33]);
    assert_eq!(protocol.finality_detector.fault_tolerance_threshold(), 33);
    let now = ERA_START + 5_000;
    let first = unit(1, 0, 0, &[Unseen, Unseen, Unseen], Some(value(1)), None, ROUND);
    let second = unit(2, 0, 0, &[Unseen, Unseen, Unseen], Some(value(2)), None, ROUND);
    deliver(&mut protocol, &first, now);
    let outcomes = deliver(&mut protocol, &second, now);
    assert!(outcomes.iter().any(|o| matches!(o, ProtocolOutcome::NewEvidence(1))));
    assert!(outcomes.iter().any(|o| matches!(o, ProtocolOutcome::FttExceeded)));
    assert!(finalized(&outcomes).is_empty());
    assert_eq!(protocol.highway.state.faulty_weight(), 34);
    let detector_before = protocol.finality_detector;
    match protocol.finality_detector.run(&protocol.highway.state) {
        Err(exceeded) => assert_eq!(exceeded.0, 34),
        Ok(blocks) => panic!("unexpected blocks {:?}", blocks),
    }
    assert_eq!(protocol.finality_detector.next_height, detector_before.next_height);
    assert_eq!(
        protocol.log_participation(),
        vec![
            (1, ParticipationStatus::Equivocated),
            (2, ParticipationStatus::Inactive),
            (3, ParticipationStatus::Inactive)
        ]
    );
    // Whatever comes now, no block becomes final.
    let vote = unit(3, 1, 0, &[Faulty, Unseen, Unseen], None, None, ERA_START + 4);
    let outcomes = deliver(&mut protocol, &vote, now);
    assert!(finalized(&outcomes).is_empty());
    assert!(protocol.detect_finality().iter().all(|o| matches!(o, ProtocolOutcome::FttExceeded)));
}

#[test]
fn faulty_weight_at_the_threshold_is_borne() {
    let (mut protocol, _) = protocol(&[33, 34, 33]);
    let now = ERA_START + 5_000;
    let first = unit(1, 0, 0, &[Unseen, Unseen, Unseen], Some(value(1)), None, ROUND);
    let second = unit(2, 0, 0, &[Unseen, Unseen, Unseen], Some(value(2)), None, ROUND);
    deliver(&mut protocol, &first, now);
    let outcomes = deliver(&mut protocol, &second, now);
    assert!(!outcomes.iter().any(|o| matches!(o, ProtocolOutcome::FttExceeded)));
    assert_eq!(protocol.highway.state.faulty_weight(), 33);
}

#[test]
fn vertex_from_the_future_is_kept_up_to_the_timeout() {
    let (mut protocol, _) = protocol(&[40, 35, 25]);
    let now = ERA_START + 5_000;
    // Exactly at the timeout: kept until its time.
    let at_limit = unit(1, 0, 0, &[Unseen, Unseen, Unseen], None, None, now + 10_000);
    let outcomes = protocol.handle_message(SENDER, new_vertex_bytes(&at_limit), true, Timestamp(now));
    assert!(matches!(
        outcomes.as_slice(),
        [ProtocolOutcome::ScheduleTimer(Timestamp(t), TimerId(TIMER_ID_VERTEX_WITH_FUTURE_TIMESTAMP))] if *t == now + 10_000
    ));
    assert_eq!(protocol.synchronizer.vertices_to_be_added_later.len(), 1);
    // Beyond the timeout: dropped.
    let beyond = unit(2, 1, 0, &[Unseen, Unseen, Unseen], None, None, now + 10_001);
    let outcomes = protocol.handle_message(SENDER, new_vertex_bytes(&beyond), true, Timestamp(now));
    assert!(outcomes.is_empty());
    assert_eq!(protocol.synchronizer.vertices_to_be_added_later.len(), 1);
    // Before its time the vertex stays where it is.
    let timer = TimerId(TIMER_ID_VERTEX_WITH_FUTURE_TIMESTAMP);
    assert!(protocol.handle_timer(Timestamp(now + 9_999), timer).is_empty());
    // At its time it is tried.
    let outcomes = protocol.handle_timer(Timestamp(now + 10_000), timer);
    assert!(matches!(outcomes.as_slice(), [ProtocolOutcome::QueueAction(ActionId(0))]));
    protocol.handle_action(ActionId(0), Timestamp(now + 10_000));
    assert!(protocol.highway.state.has_unit(1));
}

#[test]
fn invalid_vertices_are_turned_down() {
    let (mut protocol, _) = protocol(&[40, 35, 25]);
    let now = Timestamp(ERA_START + 5_000);
    let error_of = |protocol: &mut HighwayProtocol, unit: &SignedWireUnit, authentic: bool| {
        let outcomes = protocol.handle_message(SENDER, new_vertex_bytes(unit), authentic, now);
        match outcomes.as_slice() {
            [ProtocolOutcome::InvalidIncomingMessage(_, SENDER, error)] => *error,
            other => panic!("unexpected outcomes {:?}", other),
        }
    };
    let good = unit(1, 0, 0, &[Unseen, Unseen, Unseen], None, None, ERA_START + 1);
    assert_eq!(error_of(&mut protocol, &good, false), MessageError::Signature);
    let mut bad = good.duplicate();
    bad.creator = 3;
    assert_eq!(error_of(&mut protocol, &bad, true), MessageError::UnknownValidator);
    let mut bad = good.duplicate();
    bad.instance_id = INSTANCE + 1;
    assert_eq!(error_of(&mut protocol, &bad, true), MessageError::WrongInstance);
    let mut bad = good.duplicate();
    bad.panorama = panorama(&[Unseen, Unseen]);
    assert_eq!(error_of(&mut protocol, &bad, true), MessageError::PanoramaLength);
    let mut bad = good.duplicate();
    bad.round_exp = 9;
    assert_eq!(error_of(&mut protocol, &bad, true), MessageError::RoundExponent);
    let mut bad = good.duplicate();
    bad.round_exp = 17;
    assert_eq!(error_of(&mut protocol, &bad, true), MessageError::RoundExponent);
    let mut bad = good.duplicate();
    bad.timestamp = Timestamp(ERA_START - 1);
    assert_eq!(error_of(&mut protocol, &bad, true), MessageError::Timestamp);
    // A proposal must be dated at the start of a round of its exponent.
    let mut bad = good.duplicate();
    bad.value = Some(value(5));
    bad.timestamp = Timestamp(ROUND + 1);
    assert_eq!(error_of(&mut protocol, &bad, true), MessageError::Timestamp);
    bad.round_exp = 11;
    bad.timestamp = Timestamp(ROUND);
    assert_eq!(error_of(&mut protocol, &bad, true), MessageError::Timestamp);
    let mut bad = good.duplicate();
    bad.seq_number = 1;
    assert_eq!(error_of(&mut protocol, &bad, true), MessageError::SequenceNumber);
    let mut bad = good.duplicate();
    bad.panorama = panorama(&[Faulty, Unseen, Unseen]);
    assert_eq!(error_of(&mut protocol, &bad, true), MessageError::SequenceNumber);
    let no_conflict = Vertex::Evidence(Evidence { unit1: good.duplicate(), unit2: good.duplicate() });
    let outcomes = protocol.handle_message(
        SENDER,
        HighwayMessage::NewVertex(no_conflict).serialize(),
        true,
        now,
    );
    assert!(matches!(
        outcomes.as_slice(),
        [ProtocolOutcome::InvalidIncomingMessage(_, SENDER, MessageError::NoConflict)]
    ));
    assert!(protocol.synchronizer.is_empty());
}

#[test]
fn invalid_vertex_drops_dependents_and_disconnects_their_senders() {
    let (mut protocol, _) = protocol(&[40, 35, 25]);
    let now = Timestamp(ERA_START + 5_000);
    // Two vertices wait for unit 50, one of them through the other.
    let child = unit(51, 1, 1, &[Unseen, Correct(50), Unseen], None, None, ERA_START + 2);
    let grandchild = unit(52, 1, 2, &[Unseen, Correct(51), Unseen], None, None, ERA_START + 3);
    protocol.handle_message(600, new_vertex_bytes(&grandchild), true, now);
    protocol.handle_action(ActionId(0), now);
    protocol.handle_message(601, new_vertex_bytes(&child), true, now);
    protocol.handle_action(ActionId(0), now);
    assert_eq!(protocol.synchronizer.vertex_deps.len(), 2);
    // Unit 50 comes with a broken structure.
    let mut broken = unit(50, 1, 0, &[Unseen, Unseen, Unseen], None, None, ERA_START + 1);
    broken.round_exp = 3;
    let outcomes = protocol.handle_message(SENDER, new_vertex_bytes(&broken), true, now);
    assert_eq!(outcomes.len(), 3, "{:?}", outcomes);
    assert!(matches!(
        outcomes[0],
        ProtocolOutcome::InvalidIncomingMessage(_, SENDER, MessageError::RoundExponent)
    ));
    assert!(matches!(outcomes[1], ProtocolOutcome::Disconnect(601)));
    assert!(matches!(outcomes[2], ProtocolOutcome::Disconnect(600)));
    assert!(protocol.synchronizer.is_empty());
}

#[test]
fn invalid_predecessor_is_caught_when_the_vertex_is_added() {
    let (mut protocol, _) = protocol(&[40, 35, 25]);
    let now = ERA_START + 5_000;
    let first = unit(1, 0, 0, &[Unseen, Unseen, Unseen], None, None, ERA_START + 1);
    deliver(&mut protocol, &first, now);
    // The unit names unit 1 as its predecessor and skips a number.
    let skipping = unit(2, 0, 2, &[Correct(1), Unseen, Unseen], None, None, ERA_START + 2);
    let outcomes = deliver(&mut protocol, &skipping, now);
    assert!(outcomes.is_empty(), "{:?}", outcomes);
    assert!(!protocol.highway.state.has_unit(2));
    // The unit builds on something that is no block.
    let on_nothing = unit(3, 0, 1, &[Correct(1), Unseen, Unseen], None, Some(1), ERA_START + 2);
    let outcomes = deliver(&mut protocol, &on_nothing, now);
    assert!(outcomes.is_empty(), "{:?}", outcomes);
    assert!(!protocol.highway.state.has_unit(3));
}

#[test]
fn value_that_needs_validation_is_parked_until_the_verdict() {
    let (mut protocol, _) = protocol(&[40, 35, 25]);
    let now = ERA_START + 5_000;
    let proposed = ConsensusValue { hash: 9, needs_validation: true };
    let block = unit(1, 0, 0, &[Unseen, Unseen, Unseen], Some(proposed), None, ROUND);
    let outcomes = deliver(&mut protocol, &block, now);
    assert!(matches!(
        outcomes.as_slice(),
        [ProtocolOutcome::ValidateConsensusValue(SENDER, v, Timestamp(t))] if *v == proposed && *t == ROUND
    ));
    assert!(!protocol.highway.state.has_unit(1));
    assert!(protocol.has_received_messages());
    // A vertex that builds on it waits.
    let vote = unit(2, 1, 0, &[Correct(1), Unseen, Unseen], None, Some(1), ERA_START + 2);
    let outcomes = deliver(&mut protocol, &vote, now);
    assert_eq!(outcomes.len(), 1);
    // The value is valid: the block is added, and the vote is tried.
    let outcomes = protocol.resolve_validity(&proposed, true, Timestamp(now));
    assert!(matches!(outcomes.as_slice(), [ProtocolOutcome::QueueAction(ActionId(0))]), "{:?}", outcomes);
    assert!(protocol.highway.state.has_unit(1));
    let outcomes = protocol.handle_action(ActionId(0), Timestamp(now));
    assert_eq!(finalized(&outcomes).len(), 1);
    assert!(protocol.pending_values.is_empty());
}

#[test]
fn invalid_value_drops_what_depends_on_it_without_disconnecting() {
    let (mut protocol, _) = protocol(&[40, 35, 25]);
    let now = ERA_START + 5_000;
    let proposed = ConsensusValue { hash: 9, needs_validation: true };
    let block = unit(1, 0, 0, &[Unseen, Unseen, Unseen], Some(proposed), None, ROUND);
    deliver(&mut protocol, &block, now);
    let vote = unit(2, 1, 0, &[Correct(1), Unseen, Unseen], None, Some(1), ERA_START + 2);
    deliver(&mut protocol, &vote, now);
    assert_eq!(protocol.synchronizer.vertex_deps.len(), 1);
    let outcomes = protocol.resolve_validity(&proposed, false, Timestamp(now));
    assert!(outcomes.is_empty());
    assert!(protocol.synchronizer.is_empty());
    assert!(protocol.pending_values.is_empty());
    assert!(!protocol.highway.state.has_unit(1));
}

#[test]
fn standstill_alert_is_raised_when_nothing_has_moved() {
    let (mut protocol, _) = protocol(&[40, 35, 25]);
    let now = ERA_START + 5_000;
    // Nothing has moved since the era began.
    let outcomes = protocol.handle_timer(Timestamp(now), TimerId(TIMER_ID_STANDSTILL_ALERT));
    assert!(matches!(outcomes.as_slice(), [ProtocolOutcome::StandstillAlert]));
    // A unit comes in: the next check sets the timer again.
    let first = unit(1, 0, 0, &[Unseen, Unseen, Unseen], None, None, ERA_START + 1);
    deliver(&mut protocol, &first, now);
    let outcomes = protocol.handle_timer(Timestamp(now), TimerId(TIMER_ID_STANDSTILL_ALERT));
    assert!(matches!(
        outcomes.as_slice(),
        [ProtocolOutcome::ScheduleTimer(Timestamp(t), TimerId(TIMER_ID_STANDSTILL_ALERT))] if *t == now + 60_000
    ));
    // And the one after that raises the alert.
    let outcomes = protocol.handle_timer(Timestamp(now + 60_000), TimerId(TIMER_ID_STANDSTILL_ALERT));
    assert!(matches!(outcomes.as_slice(), [ProtocolOutcome::StandstillAlert]));
    // Once only evidence is taken the era is over.
    protocol.set_evidence_only();
    assert!(protocol
        .handle_timer(Timestamp(now + 60_000), TimerId(TIMER_ID_STANDSTILL_ALERT))
        .is_empty());
}

#[test]
fn periodic_timers_are_set_again() {
    let (mut protocol, _) = protocol(&[40, 35, 25]);
    let now = ERA_START + 5_000;
    let outcomes = protocol.handle_timer(Timestamp(now), TimerId(TIMER_ID_PURGE_VERTICES));
    assert!(matches!(
        outcomes.as_slice(),
        [ProtocolOutcome::ScheduleTimer(Timestamp(t), TimerId(TIMER_ID_PURGE_VERTICES))] if *t == now + 10_000
    ));
    let outcomes = protocol.handle_timer(Timestamp(now), TimerId(TIMER_ID_LOG_PARTICIPATION));
    assert!(matches!(
        outcomes.as_slice(),
        [ProtocolOutcome::ScheduleTimer(Timestamp(t), TimerId(TIMER_ID_LOG_PARTICIPATION))] if *t == now + 30_000
    ));
    // Without a part of its own the node has nothing to do at the validator's timer.
    assert!(protocol.handle_timer(Timestamp(now), TimerId(TIMER_ID_ACTIVE_VALIDATOR)).is_empty());
}

#[test]
fn stale_vertices_are_purged() {
    let (mut protocol, _) = protocol(&[40, 35, 25]);
    let now = ERA_START + 5_000;
    let waiting = unit(2, 0, 1, &[Correct(1), Unseen, Unseen], None, None, ERA_START + 2);
    deliver(&mut protocol, &waiting, now);
    assert_eq!(protocol.synchronizer.vertex_deps.len(), 1);
    protocol.handle_timer(Timestamp(now + 10_000), TimerId(TIMER_ID_PURGE_VERTICES));
    assert_eq!(protocol.synchronizer.vertex_deps.len(), 1);
    protocol.handle_timer(Timestamp(now + 10_001), TimerId(TIMER_ID_PURGE_VERTICES));
    assert!(protocol.synchronizer.is_empty());
}

#[test]
fn requests_for_dependencies_are_answered() {
    let (mut protocol, _) = protocol(&[40, 35, 25]);
    let now = Timestamp(ERA_START + 5_000);
    let first = unit(1, 0, 0, &[Unseen, Unseen, Unseen], None, None, ERA_START + 1);
    deliver(&mut protocol, &first, ERA_START + 5_000);
    let request = |dep: Dependency| HighwayMessage::RequestDependency(dep).serialize();
    // A unit that we have is sent.
    let outcomes = protocol.handle_message(SENDER, request(Dependency::Unit(1)), true, now);
    match outcomes.as_slice() {
        [ProtocolOutcome::CreatedTargetedMessage(bytes, SENDER)] => {
            assert_eq!(bytes, &new_vertex_bytes(&first));
        }
        other => panic!("unexpected outcomes {:?}", other),
    }
    // A unit that we do not have is not.
    assert!(protocol.handle_message(SENDER, request(Dependency::Unit(2)), true, now).is_empty());
    // A validator that is faulty on the owner's word: the evidence is with the owner.
    protocol.mark_faulty(3);
    assert!(protocol.highway.state.is_faulty(2));
    assert!(!protocol.has_evidence(3));
    let outcomes = protocol.handle_message(SENDER, request(Dependency::Evidence(2)), true, now);
    assert!(matches!(outcomes.as_slice(), [ProtocolOutcome::SendEvidence(SENDER, 3)]));
    assert!(protocol.request_evidence(SENDER, 3).is_empty());
    assert!(protocol.request_evidence(SENDER, 99).is_empty());
    // A validator that is not faulty.
    assert!(protocol.handle_message(SENDER, request(Dependency::Evidence(1)), true, now).is_empty());
    // An endorsement.
    let endorsement = Endorsement { unit: 1, creator: 1, signature: 8 };
    protocol.highway.state.add_endorsement(endorsement);
    let outcomes = protocol.handle_message(SENDER, request(Dependency::Endorsement(1)), true, now);
    match outcomes.as_slice() {
        [ProtocolOutcome::CreatedTargetedMessage(bytes, SENDER)] => {
            assert_eq!(bytes, &HighwayMessage::NewVertex(Vertex::Endorsement(endorsement)).serialize());
        }
        other => panic!("unexpected outcomes {:?}", other),
    }
}

#[test]
fn latest_state_request_is_answered_validator_by_validator() {
    let (mut protocol, _) = protocol(&[25, 25, 25, 25]);
    let now = ERA_START + 5_000;
    let all_unseen = [Unseen, Unseen, Unseen, Unseen];
    // We have two units of validator 0, one of validator 1, and validator 2 equivocated.
    let a0 = unit(10, 0, 0, &all_unseen, None, None, ERA_START + 1);
    let a1 = unit(11, 0, 1, &[Correct(10), Unseen, Unseen, Unseen], None, None, ERA_START + 2);
    let b0 = unit(20, 1, 0, &all_unseen, None, None, ERA_START + 1);
    let c0 = unit(30, 2, 0, &all_unseen, None, None, ERA_START + 1);
    let c1 = unit(31, 2, 0, &all_unseen, None, None, ERA_START + 1);
    for u in [&a0, &a1, &b0, &c0, &c1] {
        deliver(&mut protocol, u, now);
    }
    assert_eq!(protocol.highway.state.panorama.obs, vec![Correct(11), Correct(20), Faulty, Unseen]);
    let ask = |protocol: &mut HighwayProtocol, theirs: &[Observation]| -> Vec<String> {
        let bytes = HighwayMessage::LatestStateRequest(panorama(theirs)).serialize();
        protocol
            .handle_message(SENDER, bytes, true, Timestamp(now))
            .into_iter()
            .map(|outcome| match outcome {
                ProtocolOutcome::CreatedTargetedMessage(bytes, SENDER) => {
                    match HighwayMessage::deserialize(&bytes).unwrap() {
                        HighwayMessage::NewVertex(Vertex::Unit(u)) => format!("unit {}", u.hash),
                        HighwayMessage::NewVertex(Vertex::Evidence(e)) => {
                            format!("evidence {}", e.perpetrator())
                        }
                        HighwayMessage::RequestDependency(dep) => format!("request {:?}", dep),
                        other => panic!("unexpected message {:?}", other),
                    }
                }
                other => panic!("unexpected outcome {:?}", other),
            })
            .collect()
    };
    // The peer has seen nothing: it gets our units and our evidence.
    assert_eq!(ask(&mut protocol, &all_unseen), vec!["unit 11", "unit 20", "evidence 2"]);
    // The peer is where we are.
    assert!(ask(&mut protocol, &[Correct(11), Correct(20), Faulty, Unseen]).is_empty());
    // The peer has an older unit of validator 0, a unit of validator 1 that we lack, and
    // knows validators 2 and 3 to be faulty.
    assert_eq!(
        ask(&mut protocol, &[Correct(10), Correct(21), Faulty, Faulty]),
        vec!["unit 11", "request Unit(21)", "request Evidence(3)"]
    );
    // The peer has a unit of validator 3 and evidence against validator 1; it still thinks
    // validator 2 correct.
    assert_eq!(
        ask(&mut protocol, &[Correct(11), Faulty, Correct(30), Correct(40)]),
        vec!["request Evidence(1)", "evidence 2", "request Unit(40)"]
    );
    // A shorter panorama is held against as far as it goes.
    assert_eq!(ask(&mut protocol, &[Unseen]), vec!["unit 11"]);
}

#[test]
fn new_peer_is_greeted_with_our_panorama() {
    let (mut protocol, _) = protocol(&[40, 35, 25]);
    let first = unit(1, 0, 0, &[Unseen, Unseen, Unseen], None, None, ERA_START + 1);
    deliver(&mut protocol, &first, ERA_START + 5_000);
    match protocol.handle_new_peer(9).as_slice() {
        [ProtocolOutcome::CreatedTargetedMessage(bytes, 9)] => {
            assert_eq!(
                bytes,
                &HighwayMessage::LatestStateRequest(panorama(&[Correct(1), Unseen, Unseen])).serialize()
            );
        }
        other => panic!("unexpected outcomes {:?}", other),
    }
}

#[test]
fn active_validator_makes_units_and_asks_for_blocks() {
    let (mut protocol, _) = protocol(&[40, 35, 25]);
    // Rounds last 1024 ms. The seed is 5; with three validators the leader of the round with
    // index i is validator (5 % 3 + i % 3) % 3.
    let now = 1_000_000 + 500;
    assert_eq!(round_len(10), 1024);
    assert_eq!(round_id(Timestamp(now), 10), Timestamp(1_000_448));
    let outcomes = protocol.activate_validator(2, Timestamp(now));
    assert!(matches!(
        outcomes.as_slice(),
        [ProtocolOutcome::ScheduleTimer(Timestamp(1_001_472), TimerId(TIMER_ID_ACTIVE_VALIDATOR))]
    ));
    assert!(protocol.is_active());
    assert_eq!(protocol.next_round_length(), Some(TimeDiff(1024)));
    assert_eq!(protocol.our_round_exp(), None);
    // Round index 978 (1_001_472 / 1024): the leader is (2 + 0) % 3 = 2, not us (index 1).
    let tick = 1_001_472;
    let outcomes = protocol.handle_timer(Timestamp(tick), TimerId(TIMER_ID_ACTIVE_VALIDATOR));
    assert_eq!(outcomes.len(), 2, "{:?}", outcomes);
    let witness = match &outcomes[0] {
        ProtocolOutcome::SignUnit(unit) => unit.duplicate(),
        other => panic!("unexpected outcome {:?}", other),
    };
    assert_eq!(witness.creator, 1);
    assert_eq!(witness.seq_number, 0);
    assert_eq!(witness.hash, 0);
    assert_eq!(witness.timestamp, Timestamp(tick));
    assert_eq!(witness.panorama.obs, vec![Unseen, Unseen, Unseen]);
    assert!(witness.value.is_none());
    assert!(matches!(
        outcomes[1],
        ProtocolOutcome::ScheduleTimer(Timestamp(t), TimerId(TIMER_ID_ACTIVE_VALIDATOR)) if t == tick + 1024
    ));
    // The unit comes back signed and is told to the others.
    let mut signed = witness;
    signed.hash = 900;
    signed.signature = 901;
    let outcomes = protocol.add_own_unit(signed.duplicate(), Timestamp(tick));
    match outcomes.as_slice() {
        [ProtocolOutcome::CreatedGossipMessage(bytes)] => {
            assert_eq!(bytes, &new_vertex_bytes(&signed));
        }
        other => panic!("unexpected outcomes {:?}", other),
    }
    assert_eq!(protocol.highway.state.panorama.obs, vec![Unseen, Correct(900), Unseen]);
    assert_eq!(protocol.our_round_exp(), Some(10));
    // A second time it is passed over.
    assert!(protocol.add_own_unit(signed.duplicate(), Timestamp(tick)).is_empty());
    // Two rounds later we lead: index 980, (2 + 980 % 3) % 3 = (2 + 2) % 3 = 1.
    let lead = tick + 2 * 1024;
    let outcomes = protocol.handle_timer(Timestamp(lead + 3), TimerId(TIMER_ID_ACTIVE_VALIDATOR));
    match &outcomes[0] {
        ProtocolOutcome::CreateNewBlock { block_context, past_values } => {
            // The timer is late by a little; the block is dated at the start of the round.
            assert_eq!(*block_context, BlockContext { timestamp: Timestamp(lead), height: 0 });
            assert!(past_values.is_empty());
        }
        other => panic!("unexpected outcome {:?}", other),
    }
    // The block comes back and goes into a unit to sign.
    let context = BlockContext { timestamp: Timestamp(lead), height: 0 };
    let outcomes = protocol.propose(value(70), context, Timestamp(lead));
    let proposal = match outcomes.as_slice() {
        [ProtocolOutcome::SignUnit(unit)] => unit.duplicate(),
        other => panic!("unexpected outcomes {:?}", other),
    };
    assert_eq!(proposal.seq_number, 1);
    assert_eq!(proposal.value, Some(value(70)));
    assert_eq!(proposal.panorama.obs, vec![Unseen, Correct(900), Unseen]);
    assert_eq!(proposal.parent, None);
    // While paused the node makes no units.
    protocol.set_paused(true);
    assert!(protocol.propose(value(71), context, Timestamp(lead)).is_empty());
    protocol.set_paused(false);
    // A unit of our making that comes from elsewhere tells of a doppelganger.
    let foreign = unit(950, 1, 1, &[Unseen, Correct(900), Unseen], None, None, lead);
    let outcomes = deliver(&mut protocol, &foreign, lead);
    assert!(matches!(outcomes.as_slice(), [ProtocolOutcome::DoppelgangerDetected]), "{:?}", outcomes);
    assert!(!protocol.is_active());
    assert!(protocol.highway.state.has_unit(950));
    assert_eq!(protocol.next_round_length(), None);
}

#[test]
fn unknown_or_banned_validator_is_not_activated() {
    let stakes = vec![(1u64, Uint512::from_u64(10)), (2, Uint512::from_u64(20))];
    let (mut protocol, _) = HighwayProtocol::new_boxed(
        INSTANCE,
        &stakes,
        &vec![2],
        &protocol_config(),
        &config(),
        None,
        Timestamp(ERA_START),
        5,
        Timestamp(ERA_START),
    );
    assert!(protocol.activate_validator(2, Timestamp(ERA_START)).is_empty());
    assert!(protocol.activate_validator(3, Timestamp(ERA_START)).is_empty());
    assert!(!protocol.is_active());
    // Before the era the timer is set from the start of the era.
    let outcomes = protocol.activate_validator(1, Timestamp(5));
    assert!(matches!(
        outcomes.as_slice(),
        [ProtocolOutcome::ScheduleTimer(Timestamp(t), TimerId(0))] if *t == round_id(Timestamp(ERA_START), 10).0 + 1024
    ));
    protocol.deactivate_validator();
    assert!(!protocol.is_active());
}

#[test]
fn own_equivocation_is_reported() {
    let (mut protocol, _) = protocol(&[30, 40, 30]);
    let now = ERA_START + 5_000;
    protocol.activate_validator(1, Timestamp(now));
    let first = unit(1, 0, 0, &[Unseen, Unseen, Unseen], None, None, ERA_START + 1);
    let second = unit(2, 0, 0, &[Unseen, Unseen, Unseen], None, None, ERA_START + 1);
    assert_eq!(protocol.add_own_unit(first, Timestamp(now)).len(), 1);
    let outcomes = protocol.add_own_unit(second, Timestamp(now));
    assert!(matches!(outcomes[0], ProtocolOutcome::CreatedGossipMessage(_)));
    assert!(matches!(outcomes[1], ProtocolOutcome::WeAreFaulty));
    assert!(matches!(outcomes[2], ProtocolOutcome::NewEvidence(1)));
    assert!(matches!(outcomes[3], ProtocolOutcome::CreatedGossipMessage(_)));
    assert_eq!(outcomes.len(), 4);
}

#[test]
fn evidence_only_mode_takes_evidence_only() {
    let (mut protocol, _) = protocol(&[40, 35, 25]);
    let now = ERA_START + 5_000;
    let first = unit(1, 0, 0, &[Unseen, Unseen, Unseen], None, None, ERA_START + 1);
    deliver(&mut protocol, &first, now);
    let waiting = unit(3, 1, 1, &[Unseen, Correct(2), Unseen], None, None, ERA_START + 2);
    deliver(&mut protocol, &waiting, now);
    protocol.set_evidence_only();
    assert!(protocol.evidence_only);
    assert!(protocol.synchronizer.is_empty());
    assert!(protocol.highway.state.is_empty());
    assert_eq!(protocol.highway.state.panorama.obs, vec![Unseen, Unseen, Unseen]);
    // A unit is passed over.
    let unit4 = unit(4, 2, 0, &[Unseen, Unseen, Unseen], None, None, ERA_START + 1);
    assert!(protocol
        .handle_message(SENDER, new_vertex_bytes(&unit4), true, Timestamp(now))
        .is_empty());
    assert!(protocol.add_valid_vertex(Vertex::Unit(unit4.duplicate()), Timestamp(now)).is_empty());
    assert!(!protocol.highway.state.has_unit(4));
    // Evidence is taken.
    let a = unit(5, 2, 0, &[Unseen, Unseen, Unseen], None, None, ERA_START + 1);
    let b = unit(6, 2, 0, &[Unseen, Unseen, Unseen], None, None, ERA_START + 1);
    let evidence = Vertex::Evidence(Evidence { unit1: a, unit2: b });
    let outcomes = protocol.handle_message(
        SENDER,
        HighwayMessage::NewVertex(evidence).serialize(),
        true,
        Timestamp(now),
    );
    assert!(matches!(outcomes.as_slice(), [ProtocolOutcome::QueueAction(ActionId(0))]));
    let outcomes = protocol.handle_action(ActionId(0), Timestamp(now));
    assert!(outcomes.iter().any(|o| matches!(o, ProtocolOutcome::NewEvidence(3))), "{:?}", outcomes);
    assert!(protocol.has_evidence(3));
}

#[test]
fn round_exponent_follows_success() {
    let (protocol, _) = protocol(&[40, 35, 25]);
    let state = &protocol.highway.state;
    let mut meter = RoundSuccessMeter::new(12, 10, 16, Timestamp(ERA_START), meter_config());
    assert_eq!(meter.current_round_exp, 12);
    assert_eq!(meter.current_round_id, Timestamp(ERA_START - ERA_START % 4096));
    // While the round is under way nothing changes.
    assert_eq!(meter.calculate_new_exponent(state, Timestamp(ERA_START)), 12);
    assert!(meter.rounds.is_empty());
    // Round after round fails: after 30 failures the exponent goes up.
    let mut now = meter.current_round_id.0;
    for _ in 0..29 {
        now += 4096 + 1;
        assert_eq!(meter.calculate_new_exponent(state, Timestamp(now)), 12);
    }
    assert_eq!(meter.rounds.len(), 29);
    now += 4096 + 1;
    assert_eq!(meter.calculate_new_exponent(state, Timestamp(now)), 13);
    assert!(meter.rounds.is_empty());
    // The meter for the next era keeps the exponent.
    let next = meter.next_era(Timestamp(5_000_000));
    assert_eq!(next.current_round_exp, 13);
    assert_eq!(next.current_round_id, Timestamp(5_000_000 - 5_000_000 % 8192));
    // An exponent outside the bounds is moved into them.
    assert_eq!(RoundSuccessMeter::new(3, 10, 16, Timestamp(0), meter_config()).current_round_exp, 10);
    assert_eq!(RoundSuccessMeter::new(30, 10, 16, Timestamp(0), meter_config()).current_round_exp, 16);
}

#[test]
fn proposals_of_past_rounds_are_not_noted() {
    let mut meter = RoundSuccessMeter::new(10, 10, 16, Timestamp(ERA_START), meter_config());
    let start = meter.current_round_id.0;
    meter.new_proposal(1, Timestamp(start - 1));
    assert!(meter.proposals.is_empty());
    meter.new_proposal(2, Timestamp(start));
    assert_eq!(meter.proposals, vec![2]);
}

#[test]
fn next_era_goes_on_from_the_round_exponent_of_the_one_before() {
    let (mut previous, _) = protocol(&[40, 35, 25]);
    previous.activate_validator(1, Timestamp(ERA_START));
    let mut own = unit(1, 0, 0, &[Unseen, Unseen, Unseen], None, None, ERA_START + 1);
    own.round_exp = 12;
    previous.add_own_unit(own, Timestamp(ERA_START + 5));
    assert_eq!(previous.our_round_exp(), Some(12));
    let stakes = vec![(1u64, Uint512::from_u64(10)), (2, Uint512::from_u64(20))];
    let (next, _) = HighwayProtocol::new_boxed(
        INSTANCE + 1,
        &stakes,
        &vec![],
        &protocol_config(),
        &config(),
        Some(&previous),
        Timestamp(2 * ERA_START),
        5,
        Timestamp(2 * ERA_START),
    );
    assert_eq!(next.highway.state.params.init_round_exp, 12);
    assert_eq!(next.highway.round_exp, 12);
    assert_eq!(next.round_success_meter.current_round_exp, previous.round_success_meter.current_round_exp);
}

#[test]
fn validation_against_the_state_names_the_fault() {
    let (mut protocol, _) = protocol(&[40, 35, 25]);
    let first = unit(1, 0, 0, &[Unseen, Unseen, Unseen], None, None, ERA_START + 1);
    protocol.highway.state.add_unit(first.duplicate());
    let error_of = |protocol: &HighwayProtocol, unit: SignedWireUnit| {
        match protocol.highway.validate_vertex(Vertex::Unit(unit)) {
            Ok(_) => None,
            Err((_, error)) => Some(error),
        }
    };
    let good = unit(2, 0, 1, &[Correct(1), Unseen, Unseen], None, None, ERA_START + 2);
    assert_eq!(error_of(&protocol, good), None);
    let skipping = unit(3, 0, 2, &[Correct(1), Unseen, Unseen], None, None, ERA_START + 2);
    assert_eq!(error_of(&protocol, skipping), Some(MessageError::Predecessor));
    let stranger = unit(4, 1, 1, &[Unseen, Correct(1), Unseen], None, None, ERA_START + 2);
    assert_eq!(error_of(&protocol, stranger), Some(MessageError::Predecessor));
    let unknown = unit(5, 0, 1, &[Correct(9), Unseen, Unseen], None, None, ERA_START + 2);
    assert_eq!(error_of(&protocol, unknown), Some(MessageError::Predecessor));
    let on_no_block = unit(6, 0, 1, &[Correct(1), Unseen, Unseen], None, Some(1), ERA_START + 2);
    assert_eq!(error_of(&protocol, on_no_block), Some(MessageError::Parent));
    // Evidence, endorsements and pings need nothing of the state.
    let ping = Vertex::Ping(Ping { creator: 0, timestamp: Timestamp(5), instance_id: INSTANCE, signature: 0 });
    assert!(protocol.highway.validate_vertex(ping).is_ok());
}

#[test]
fn pings_and_endorsements_are_kept() {
    let (mut protocol, _) = protocol(&[40, 35, 25]);
    let now = ERA_START + 5_000;
    let ping = Ping { creator: 2, timestamp: Timestamp(ERA_START + 7), instance_id: INSTANCE, signature: 1 };
    let bytes = HighwayMessage::NewVertex(Vertex::Ping(ping)).serialize();
    let outcomes = protocol.handle_message(SENDER, bytes.clone(), true, Timestamp(now));
    assert!(matches!(outcomes.as_slice(), [ProtocolOutcome::QueueAction(ActionId(0))]));
    assert!(protocol.handle_action(ActionId(0), Timestamp(now)).is_empty());
    assert_eq!(protocol.highway.state.pings[2], Timestamp(ERA_START + 7));
    // The same ping again, or an older one, tells nothing new.
    assert!(protocol.handle_message(SENDER, bytes, true, Timestamp(now)).is_empty());
    assert!(protocol.highway.state.has_dependency(&Dependency::Ping(2, Timestamp(ERA_START + 6))));
    assert!(!protocol.highway.state.has_dependency(&Dependency::Ping(2, Timestamp(ERA_START + 8))));
    // An endorsement waits for its unit.
    let endorsement = Endorsement { unit: 1, creator: 1, signature: 3 };
    let bytes = HighwayMessage::NewVertex(Vertex::Endorsement(endorsement)).serialize();
    protocol.handle_message(SENDER, bytes, true, Timestamp(now));
    let outcomes = protocol.handle_action(ActionId(0), Timestamp(now));
    assert_eq!(outcomes.len(), 1);
    assert!(protocol.synchronizer.is_dependency(&Dependency::Unit(1)));
    let first = unit(1, 0, 0, &[Unseen, Unseen, Unseen], None, None, ERA_START + 1);
    let outcomes = deliver(&mut protocol, &first, now);
    assert!(matches!(outcomes.as_slice(), [ProtocolOutcome::QueueAction(ActionId(0))]));
    protocol.handle_action(ActionId(0), Timestamp(now));
    assert!(protocol.highway.state.has_endorsement(&endorsement));
    assert!(protocol.highway.state.has_dependency(&Dependency::Endorsement(1)));
}
