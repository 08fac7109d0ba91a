use std::collections::HashSet;

use highway_node::block_proposer::{
    BlockProposer, BlockProposerReady, BlockProposerState, Effect, Event, ProtoBlockRequest,
    PRUNE_INTERVAL_MILLIS,
};
use highway_node::deploy::{DeployConfig, DeployHeader, DeployType, ProtoBlock};
use highway_node::deploy_sets::BlockProposerDeploySets;
use highway_node::time::{TimeDiff, Timestamp};
use highway_node::uint512::Uint512;

fn config() -> DeployConfig {
    DeployConfig {
        max_ttl: TimeDiff(1_000_000),
        block_max_deploy_count: 3,
        block_max_transfer_count: 5,
        max_block_size: 10_000,
        block_gas_limit: 1_000,
    }
}

fn header(timestamp: u64, ttl: u64, dependencies: Vec<u64>) -> DeployHeader {
    DeployHeader::new(Timestamp(timestamp), TimeDiff(ttl), 1, dependencies)
}

fn wasm(timestamp: u64, ttl: u64, payment: u64, size: usize) -> DeployType {
    DeployType::Wasm {
        header: header(timestamp, ttl, vec![]),
        payment_amount: Uint512::from_u64(payment),
        size,
    }
}

fn transfer(timestamp: u64, ttl: u64) -> DeployType {
    DeployType::Transfer {
        header: header(timestamp, ttl, vec![]),
        payment_amount: Uint512::from_u64(1),
        size: 100,
    }
}

fn ready() -> BlockProposerReady {
    BlockProposerReady::new(BlockProposerDeploySets::new(), config(), vec![1, 2, 3])
}

fn request(next_finalized: u64, now: u64, responder: u64) -> ProtoBlockRequest {
    ProtoBlockRequest {
        current_instant: Timestamp(now),
        past_deploys: HashSet::new(),
        next_finalized,
        random_bit: true,
        responder,
    }
}

fn block(wasm_deploys: Vec<u64>, transfers: Vec<u64>) -> ProtoBlock {
    ProtoBlock::new(wasm_deploys, transfers, Timestamp(0), false)
}

fn pending_hashes(proposer: &BlockProposerReady) -> Vec<u64> {
    proposer.sets.pending.iter().map(|entry| entry.0).collect()
}

fn finalized_hashes(proposer: &BlockProposerReady) -> Vec<u64> {
    let mut hashes: Vec<u64> = proposer.sets.finalized_deploys.iter().map(|entry| entry.0).collect();
    hashes.sort();
    hashes
}

fn single_response(effects: Vec<Effect>) -> (u64, ProtoBlock) {
    assert_eq!(effects.len(), 1);
    match effects.into_iter().next() {
        Some(Effect::Respond { responder, proto_block }) => (responder, proto_block),
        other => panic!("unexpected effect {:?}", other),
    }
}

#[test]
fn in_order_finalization_proposes_what_is_left() {
    let mut proposer = ready();
    let now = Timestamp(100);
    assert!(proposer
        .handle_event(now, Event::BufferDeploy { hash: 1, deploy_type: wasm(50, 1000, 10, 200) })
        .is_empty());
    assert!(proposer
        .handle_event(now, Event::BufferDeploy { hash: 2, deploy_type: wasm(60, 1000, 10, 200) })
        .is_empty());
    let effects =
        proposer.handle_event(now, Event::FinalizedProtoBlock { block: block(vec![1], vec![]), height: 0 });
    assert!(effects.is_empty());
    assert_eq!(proposer.sets.next_finalized, 1);
    let effects = proposer.handle_event(now, Event::Request(request(1, 100, 7)));
    let (responder, proto_block) = single_response(effects);
    assert_eq!(responder, 7);
    assert_eq!(proto_block.wasm_deploys, vec![2]);
    assert!(proto_block.transfers.is_empty());
    assert_eq!(proto_block.timestamp, Timestamp(100));
    assert!(proto_block.random_bit);
    assert_eq!(finalized_hashes(&proposer), vec![1]);
    assert_eq!(pending_hashes(&proposer), vec![2]);
}

#[test]
fn out_of_order_finalization_waits_for_ancestors() {
    let mut proposer = ready();
    let now = Timestamp(100);
    for hash in 1..=3u64 {
        proposer.handle_event(now, Event::BufferDeploy { hash, deploy_type: wasm(50, 1000, 10, 200) });
    }
    // The request for height 3 cannot be met yet.
    assert!(proposer.handle_event(now, Event::Request(request(3, 100, 9))).is_empty());
    // Height 2 (with deploy 2) comes before heights 0 and 1.
    assert!(proposer
        .handle_event(now, Event::FinalizedProtoBlock { block: block(vec![2], vec![]), height: 2 })
        .is_empty());
    assert_eq!(proposer.sets.next_finalized, 0);
    assert_eq!(finalized_hashes(&proposer), Vec::<u64>::new());
    assert!(proposer
        .handle_event(now, Event::FinalizedProtoBlock { block: block(vec![1], vec![]), height: 0 })
        .is_empty());
    assert_eq!(proposer.sets.next_finalized, 1);
    let effects =
        proposer.handle_event(now, Event::FinalizedProtoBlock { block: block(vec![3], vec![]), height: 1 });
    assert_eq!(proposer.sets.next_finalized, 3);
    let (responder, proto_block) = single_response(effects);
    assert_eq!(responder, 9);
    assert!(proto_block.wasm_deploys.is_empty());
    assert!(proto_block.transfers.is_empty());
    assert_eq!(finalized_hashes(&proposer), vec![1, 2, 3]);
    assert!(pending_hashes(&proposer).is_empty());
    assert!(proposer.sets.finalization_queue.is_empty());
}

#[test]
fn out_of_order_delivery_ends_in_the_same_state_as_delivery_in_turn() {
    let now = Timestamp(100);
    let mut in_turn = ready();
    let mut ahead = ready();
    for proposer in [&mut in_turn, &mut ahead] {
        for hash in 1..=4u64 {
            proposer.handle_event(now, Event::BufferDeploy { hash, deploy_type: wasm(50, 1000, 10, 200) });
        }
    }
    for (height, hash) in [(0u64, 1u64), (1, 3), (2, 2)] {
        in_turn.handle_event(
            now,
            Event::FinalizedProtoBlock { block: block(vec![hash], vec![]), height },
        );
    }
    for (height, hash) in [(2u64, 2u64), (0, 1), (1, 3)] {
        ahead.handle_event(
            now,
            Event::FinalizedProtoBlock { block: block(vec![hash], vec![]), height },
        );
    }
    assert_eq!(pending_hashes(&in_turn), pending_hashes(&ahead));
    assert_eq!(finalized_hashes(&in_turn), finalized_hashes(&ahead));
    assert_eq!(in_turn.sets.next_finalized, ahead.sets.next_finalized);
    assert_eq!(in_turn.sets.next_finalized, 3);
    assert_eq!(in_turn.unhandled_finalized, ahead.unhandled_finalized);
    assert!(ahead.sets.finalization_queue.is_empty());
}

#[test]
fn unhandled_finalized_deploy_is_stored_as_finalized() {
    let mut proposer = ready();
    let now = Timestamp(100);
    proposer.handle_event(now, Event::FinalizedProtoBlock { block: block(vec![42], vec![]), height: 0 });
    assert!(proposer.unhandled_finalized.contains(&42));
    assert!(proposer.contains_finalized(&42));
    assert!(!proposer.sets.is_finalized(42));
    proposer.handle_event(now, Event::BufferDeploy { hash: 42, deploy_type: wasm(50, 1000, 10, 200) });
    assert!(pending_hashes(&proposer).is_empty());
    assert_eq!(finalized_hashes(&proposer), vec![42]);
    assert!(!proposer.unhandled_finalized.contains(&42));
    assert!(proposer.sets.is_finalized(42));
}

#[test]
fn finalized_deploy_is_not_buffered_again() {
    let mut proposer = ready();
    let now = Timestamp(100);
    proposer.add_deploy_or_transfer(now, 5, wasm(50, 1000, 10, 200));
    proposer.finalized_deploys(&vec![5]);
    proposer.add_deploy_or_transfer(now, 5, wasm(50, 1000, 10, 200));
    assert!(pending_hashes(&proposer).is_empty());
    assert_eq!(finalized_hashes(&proposer), vec![5]);
}

#[test]
fn expired_deploy_is_rejected() {
    let mut proposer = ready();
    proposer.add_deploy_or_transfer(Timestamp(1_051), 5, wasm(50, 1000, 10, 200));
    assert!(pending_hashes(&proposer).is_empty());
    // At the last instant of its life the deploy is still taken.
    proposer.add_deploy_or_transfer(Timestamp(1_050), 5, wasm(50, 1000, 10, 200));
    assert_eq!(pending_hashes(&proposer), vec![5]);
}

#[test]
fn wasm_stops_when_less_than_the_least_deploy_size_is_left() {
    let mut proposer = ready();
    proposer.deploy_config.max_block_size = 1_000;
    proposer.deploy_config.block_max_deploy_count = 10;
    let now = Timestamp(100);
    // 701 + 300 >= 1000: after the first deploy no wasm is taken, small as it may be.
    proposer.add_deploy_or_transfer(now, 1, wasm(50, 1000, 10, 701));
    proposer.add_deploy_or_transfer(now, 2, wasm(50, 1000, 10, 10));
    proposer.add_deploy_or_transfer(now, 3, transfer(50, 1000));
    let proto_block =
        proposer.propose_proto_block(proposer.deploy_config, now, &HashSet::new(), false);
    assert_eq!(proto_block.wasm_deploys, vec![1]);
    assert_eq!(proto_block.transfers, vec![3]);

    // 699 + 300 < 1000: the second deploy is still looked at, and fits.
    let mut proposer = ready();
    proposer.deploy_config.max_block_size = 1_000;
    proposer.deploy_config.block_max_deploy_count = 10;
    proposer.add_deploy_or_transfer(now, 1, wasm(50, 1000, 10, 699));
    proposer.add_deploy_or_transfer(now, 2, wasm(50, 1000, 10, 301));
    proposer.add_deploy_or_transfer(now, 4, wasm(50, 1000, 10, 1));
    let proto_block =
        proposer.propose_proto_block(proposer.deploy_config, now, &HashSet::new(), false);
    assert_eq!(proto_block.wasm_deploys, vec![1, 2]);
}

#[test]
fn deploy_with_overflowing_gas_is_skipped_not_the_block() {
    let mut proposer = ready();
    proposer.deploy_config.block_gas_limit = u64::MAX;
    let now = Timestamp(100);
    let huge = DeployType::Wasm {
        header: header(50, 1000, vec![]),
        payment_amount: Uint512 { limbs: [0, 1, 0, 0, 0, 0, 0, 0] },
        size: 200,
    };
    let largest = DeployType::Wasm {
        header: header(50, 1000, vec![]),
        payment_amount: Uint512 { limbs: [u64::MAX; 8] },
        size: 200,
    };
    proposer.add_deploy_or_transfer(now, 1, wasm(50, 1000, 10, 200));
    proposer.add_deploy_or_transfer(now, 2, huge);
    proposer.add_deploy_or_transfer(now, 3, largest);
    proposer.add_deploy_or_transfer(now, 4, wasm(50, 1000, 20, 200));
    let proto_block =
        proposer.propose_proto_block(proposer.deploy_config, now, &HashSet::new(), false);
    assert_eq!(proto_block.wasm_deploys, vec![1, 4]);
}

#[test]
fn gas_is_the_payment_divided_by_the_price() {
    let mut proposer = ready();
    proposer.deploy_config.block_gas_limit = 10;
    let now = Timestamp(100);
    let priced = |payment: u64, gas_price: u64| DeployType::Wasm {
        header: DeployHeader::new(Timestamp(50), TimeDiff(1000), gas_price, vec![]),
        payment_amount: Uint512::from_u64(payment),
        size: 200,
    };
    // 21 / 3 = 7 units of gas.
    proposer.add_deploy_or_transfer(now, 1, priced(21, 3));
    // A price of zero cannot be converted.
    proposer.add_deploy_or_transfer(now, 2, priced(1, 0));
    // 7 + 4 is above the limit.
    proposer.add_deploy_or_transfer(now, 3, priced(4, 1));
    // 7 + 3 is exactly the limit.
    proposer.add_deploy_or_transfer(now, 4, priced(7, 2));
    let proto_block =
        proposer.propose_proto_block(proposer.deploy_config, now, &HashSet::new(), false);
    assert_eq!(proto_block.wasm_deploys, vec![1, 4]);
}

#[test]
fn counts_are_limited_and_order_is_kept() {
    let mut proposer = ready();
    let now = Timestamp(100);
    for hash in [9u64, 8, 7, 6, 5] {
        proposer.add_deploy_or_transfer(now, hash, wasm(50, 1000, 1, 10));
    }
    for hash in [19u64, 18, 17, 16, 15, 14] {
        proposer.add_deploy_or_transfer(now, hash, transfer(50, 1000));
    }
    let proto_block =
        proposer.propose_proto_block(proposer.deploy_config, now, &HashSet::new(), true);
    assert_eq!(proto_block.wasm_deploys, vec![9, 8, 7]);
    assert_eq!(proto_block.transfers, vec![19, 18, 17, 16, 15]);
}

#[test]
fn dependencies_and_past_deploys_are_respected() {
    let mut proposer = ready();
    let now = Timestamp(100);
    let depends = |deps: Vec<u64>| DeployType::Wasm {
        header: header(50, 1000, deps),
        payment_amount: Uint512::from_u64(1),
        size: 10,
    };
    proposer.add_deploy_or_transfer(now, 1, depends(vec![100]));
    proposer.add_deploy_or_transfer(now, 2, depends(vec![200]));
    proposer.add_deploy_or_transfer(now, 3, depends(vec![]));
    proposer.add_deploy_or_transfer(now, 4, depends(vec![300]));
    proposer.finalized_deploys(&vec![300]);
    let mut past = HashSet::new();
    past.insert(100u64);
    past.insert(3u64);
    assert!(proposer.is_deploy_valid(&header(50, 1000, vec![100, 300]), now, &config(), &past));
    assert!(!proposer.is_deploy_valid(&header(50, 1000, vec![100, 200]), now, &config(), &past));
    assert!(!proposer.is_deploy_valid(&header(101, 1000, vec![]), now, &config(), &past));
    assert!(!proposer.is_deploy_valid(&header(50, 1_000_001, vec![]), now, &config(), &past));
    assert!(!proposer.is_deploy_valid(&header(50, 49, vec![]), now, &config(), &past));
    let proto_block = proposer.propose_proto_block(proposer.deploy_config, now, &past, true);
    assert_eq!(proto_block.wasm_deploys, vec![1, 4]);
}

#[test]
fn prune_drops_expired_deploys_and_is_scheduled_again() {
    let mut proposer = ready();
    let now = Timestamp(100);
    proposer.add_deploy_or_transfer(now, 1, wasm(50, 100, 1, 10));
    proposer.add_deploy_or_transfer(now, 2, wasm(50, 1000, 1, 10));
    proposer.add_deploy_or_transfer(now, 3, wasm(50, 100, 1, 10));
    proposer.add_deploy_or_transfer(now, 4, transfer(50, 60));
    proposer.finalized_deploys(&vec![3]);
    assert_eq!(proposer.prune(Timestamp(110)), 0);
    assert_eq!(proposer.prune(Timestamp(111)), 1);
    assert_eq!(pending_hashes(&proposer), vec![1, 2]);
    assert_eq!(proposer.prune(Timestamp(150)), 0);
    assert_eq!(proposer.prune(Timestamp(151)), 2);
    assert_eq!(pending_hashes(&proposer), vec![2]);
    assert!(finalized_hashes(&proposer).is_empty());
    let effects = proposer.handle_event(Timestamp(2000), Event::Prune);
    assert!(matches!(
        effects.as_slice(),
        [Effect::SchedulePrune { after: TimeDiff(PRUNE_INTERVAL_MILLIS) }]
    ));
    assert_eq!(PRUNE_INTERVAL_MILLIS, 10_000);
    assert!(pending_hashes(&proposer).is_empty());
}

#[test]
fn events_are_kept_until_the_history_is_loaded() {
    let (mut proposer, effects) = BlockProposer::new(vec![7], config());
    assert!(matches!(
        effects.as_slice(),
        [Effect::GetFinalizedDeploys { max_ttl: TimeDiff(1_000_000) }]
    ));
    assert_eq!(proposer.pending_deploys(), None);
    let now = Timestamp(100);
    assert!(proposer
        .handle_event(now, Event::BufferDeploy { hash: 1, deploy_type: wasm(50, 1000, 1, 10) })
        .is_empty());
    assert!(proposer
        .handle_event(now, Event::BufferDeploy { hash: 2, deploy_type: wasm(50, 1000, 1, 10) })
        .is_empty());
    assert!(proposer.handle_event(now, Event::Request(request(5, 100, 3))).is_empty());
    let effects = proposer.handle_event(
        now,
        Event::Loaded {
            finalized_deploys: vec![(2, header(50, 1000, vec![]))],
            next_finalized_block: 5,
        },
    );
    assert_eq!(effects.len(), 2);
    match &effects[0] {
        Effect::Respond { responder, proto_block } => {
            assert_eq!(*responder, 3);
            assert_eq!(proto_block.wasm_deploys, vec![1]);
        }
        other => panic!("unexpected effect {:?}", other),
    }
    assert!(matches!(effects[1], Effect::SchedulePrune { after: TimeDiff(10_000) }));
    assert_eq!(proposer.pending_deploys(), Some(1));
    match &proposer.state {
        BlockProposerState::Ready(ready) => {
            assert_eq!(ready.state_key, vec![7]);
            assert_eq!(ready.sets.next_finalized, 5);
        }
        other => panic!("unexpected state {:?}", other),
    }
    // A second history is ignored.
    let effects = proposer
        .handle_event(now, Event::Loaded { finalized_deploys: vec![], next_finalized_block: 9 });
    assert!(effects.is_empty());
    assert_eq!(proposer.pending_deploys(), Some(1));
}

#[test]
fn from_finalized_keeps_the_later_header() {
    let sets = BlockProposerDeploySets::from_finalized(
        vec![(1, header(10, 5, vec![])), (2, header(20, 5, vec![])), (1, header(30, 5, vec![]))],
        4,
    );
    assert_eq!(sets.next_finalized, 4);
    assert_eq!(sets.finalized_deploys.len(), 2);
    let first = sets.finalized_deploys.iter().find(|entry| entry.0 == 1).unwrap();
    assert_eq!(first.1.timestamp, Timestamp(30));
    assert!(sets.is_finalized(2));
    assert!(!sets.is_pending(2));
}
