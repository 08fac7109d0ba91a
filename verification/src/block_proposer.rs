//! The block proposer keeps deploy hashes in memory and tracks which of them can go into a
//! new block. On request it answers with the deploys to propose.
//!
//! The proposer does no work of its own accord: every handler takes the current instant and
//! an event, and returns the effects that its owner is to carry out.

use vstd::prelude::*;
use std::collections::{HashMap, HashSet};
use crate::deploy::{BlockHeight, DeployConfig, DeployHash, DeployHeader, DeployType, ProtoBlock};
use crate::deploy_sets::{alive_finalized, alive_pending, BlockProposerDeploySets};
use crate::keyed::{as_map, distinct_keys, has_key, put, without_key};
use crate::selection::{Selection, SelectionRules, DEPLOY_APPROX_MIN_SIZE};
use crate::time::{saturating_sum, TimeDiff, Timestamp};
use crate::uint512::Uint512;

verus! {

/// The time in milliseconds after which the sets are pruned again.
pub const PRUNE_INTERVAL_MILLIS: u64 = 10_000;

/// A request for the contents of a new block.
#[derive(Debug)]
pub struct ProtoBlockRequest {
    /// The instant for which the block is made.
    pub current_instant: Timestamp,
    /// The deploys that the ancestors of the new block hold.
    pub past_deploys: HashSet<DeployHash>,
    /// The height of the next block to be finalized at the point when the request can be met.
    pub next_finalized: BlockHeight,
    /// A random bit for the block.
    pub random_bit: bool,
    /// Names the channel on which the answer is awaited.
    pub responder: u64,
}

/// What the proposer is told.
#[derive(Debug)]
pub enum Event {
    /// A block is wanted.
    Request(ProtoBlockRequest),
    /// The stored history has been read.
    Loaded { finalized_deploys: Vec<(DeployHash, DeployHeader)>, next_finalized_block: BlockHeight },
    /// A deploy has come in.
    BufferDeploy { hash: DeployHash, deploy_type: DeployType },
    /// It is time to drop expired deploys.
    Prune,
    /// A block has been finalized.
    FinalizedProtoBlock { block: ProtoBlock, height: BlockHeight },
}

/// What the proposer asks its owner to do.
#[derive(Debug)]
pub enum Effect {
    /// Answer the request that named `responder`.
    Respond { responder: u64, proto_block: ProtoBlock },
    /// Send a `Prune` event after the given time.
    SchedulePrune { after: TimeDiff },
    /// Read the finalized deploys that are no older than `max_ttl`, and send them as `Loaded`.
    GetFinalizedDeploys { max_ttl: TimeDiff },
}

/// The answer to a request, by its contents.
pub struct Response {
    pub responder: u64,
    pub wasm_deploys: Seq<DeployHash>,
    pub transfers: Seq<DeployHash>,
    pub timestamp: Timestamp,
    pub random_bit: bool,
}

/// An effect, by its contents.
pub enum EffectView {
    Respond(Response),
    SchedulePrune(TimeDiff),
    GetFinalizedDeploys(TimeDiff),
}

impl View for Effect {
    type V = EffectView;

    open spec fn view(&self) -> EffectView {
        match *self {
            Effect::Respond { responder, proto_block } => EffectView::Respond(
                Response {
                    responder,
                    wasm_deploys: proto_block.wasm_deploys@,
                    transfers: proto_block.transfers@,
                    timestamp: proto_block.timestamp,
                    random_bit: proto_block.random_bit,
                },
            ),
            Effect::SchedulePrune { after } => EffectView::SchedulePrune(after),
            Effect::GetFinalizedDeploys { max_ttl } => EffectView::GetFinalizedDeploys(max_ttl),
        }
    }
}

/// Whether the effects are the expected ones, one by one.
pub open spec fn effects_are(effects: Seq<Effect>, expected: Seq<EffectView>) -> bool {
    &&& effects.len() == expected.len()
    &&& forall|i: int| 0 <= i < effects.len() ==> (#[trigger] effects[i])@ == expected[i]
}

/// The state of a proposer in operation, as the contracts speak of it.
pub struct ReadyView {
    pub pending: Seq<(DeployHash, DeployType)>,
    pub finalized: Map<DeployHash, DeployHeader>,
    pub next_finalized: BlockHeight,
    pub finalization_queue: Map<BlockHeight, Seq<DeployHash>>,
    pub unhandled_finalized: Set<DeployHash>,
    pub request_queue: Map<BlockHeight, Seq<ProtoBlockRequest>>,
    pub deploy_config: DeployConfig,
}

impl ReadyView {
    /// No pending deploy occurs twice, and none is finalized.
    pub open spec fn wf(self) -> bool {
        &&& distinct_keys(self.pending)
        &&& forall|k: u64| !(has_key(self.pending, k) && self.finalized.contains_key(k))
    }

    /// The rules under which a block is selected for the given instant and ancestors.
    pub open spec fn rules(
        self,
        config: DeployConfig,
        block_timestamp: Timestamp,
        past_deploys: Set<DeployHash>,
    ) -> SelectionRules {
        SelectionRules {
            config,
            block_timestamp,
            past_deploys,
            finalized: self.finalized.dom(),
            unhandled_finalized: self.unhandled_finalized,
        }
    }

    /// The answer to a request in this state.
    pub open spec fn proposal(self, request: ProtoBlockRequest) -> Response {
        let sel = self.rules(
            self.deploy_config,
            request.current_instant,
            request.past_deploys@,
        ).select_all(self.pending);
        Response {
            responder: request.responder,
            wasm_deploys: sel.wasm,
            transfers: sel.transfers,
            timestamp: request.current_instant,
            random_bit: request.random_bit,
        }
    }

    /// The answers to a list of requests, in their order.
    pub open spec fn responses(self, requests: Seq<ProtoBlockRequest>) -> Seq<EffectView> {
        Seq::new(requests.len(), |i: int| EffectView::Respond(self.proposal(requests[i])))
    }

    /// The state after a deploy came in at `now`. An expired deploy is dropped. One that was
    /// reported finalized before is kept as finalized. One whose header is kept as finalized
    /// is dropped. Any other is pending from now on.
    pub open spec fn buffered(self, now: Timestamp, hash: DeployHash, deploy: DeployType) -> Self {
        if deploy.spec_header().is_expired(now) {
            self
        } else if self.unhandled_finalized.contains(hash) {
            ReadyView {
                unhandled_finalized: self.unhandled_finalized.remove(hash),
                finalized: self.finalized.insert(hash, deploy.spec_header()),
                pending: without_key(self.pending, hash),
                ..self
            }
        } else if self.finalized.contains_key(hash) {
            self
        } else {
            ReadyView { pending: put(self.pending, hash, deploy), ..self }
        }
    }

    /// The state after one deploy was found in a finalized block.
    pub open spec fn finalized_one(self, hash: DeployHash) -> Self {
        if has_key(self.pending, hash) {
            ReadyView {
                pending: without_key(self.pending, hash),
                finalized: self.finalized.insert(hash, as_map(self.pending)[hash].spec_header()),
                ..self
            }
        } else {
            ReadyView { unhandled_finalized: self.unhandled_finalized.insert(hash), ..self }
        }
    }

    /// The state after the deploys of a finalized block were noted, one after the other.
    pub open spec fn finalized_all(self, deploys: Seq<DeployHash>) -> Self
        decreases deploys.len(),
    {
        if deploys.len() == 0 {
            self
        } else {
            self.finalized_all(deploys.drop_last()).finalized_one(deploys.last())
        }
    }

    /// The state and the answers after the block at `height` was applied: its deploys are
    /// noted, the next height to be finalized moves past it, and the requests that waited for
    /// that height are answered.
    pub open spec fn block_finalized(self, height: BlockHeight, deploys: Seq<DeployHash>) -> (
        Self,
        Seq<EffectView>,
    ) {
        let noted = self.finalized_all(deploys);
        let above = saturating_sum(height, 1);
        let next = if noted.next_finalized >= above {
            noted.next_finalized
        } else {
            above
        };
        let moved = ReadyView { next_finalized: next, ..noted };
        if moved.request_queue.contains_key(next) {
            let after = ReadyView { request_queue: moved.request_queue.remove(next), ..moved };
            (after, after.responses(moved.request_queue[next]))
        } else {
            (moved, Seq::empty())
        }
    }

    /// The state and the answers after the queued blocks that follow `height` without a gap
    /// were applied.
    pub open spec fn drained(self, height: BlockHeight) -> (Self, Seq<EffectView>)
        decreases u64::MAX - height,
    {
        if height < u64::MAX && self.finalization_queue.contains_key(height) {
            let taken = ReadyView {
                finalization_queue: self.finalization_queue.remove(height),
                ..self
            };
            let (applied, first) = taken.block_finalized(
                (height + 1) as u64,
                self.finalization_queue[height],
            );
            let (rest, more) = applied.drained((height + 1) as u64);
            (rest, first + more)
        } else {
            (self, Seq::empty())
        }
    }

    /// The state and the answers after a finalized block was announced. A block above the
    /// next height to be finalized waits in the queue under the height of its parent. Any
    /// other is applied, and after it the queued blocks that follow it without a gap.
    pub open spec fn delivered(self, height: BlockHeight, deploys: Seq<DeployHash>) -> (
        Self,
        Seq<EffectView>,
    ) {
        if height > self.next_finalized {
            (
                ReadyView {
                    finalization_queue: self.finalization_queue.insert(
                        (height - 1) as u64,
                        deploys,
                    ),
                    ..self
                },
                Seq::empty(),
            )
        } else {
            let (applied, first) = self.block_finalized(height, deploys);
            let (rest, more) = applied.drained(height);
            (rest, first + more)
        }
    }

    /// The state after the deploys that are expired at `now` were dropped.
    pub open spec fn pruned(self, now: Timestamp) -> Self {
        ReadyView {
            pending: alive_pending(self.pending, now),
            finalized: self.finalized.remove_keys(
                Set::new(
                    |k: DeployHash|
                        self.finalized.contains_key(k) && self.finalized[k].is_expired(now),
                ),
            ),
            ..self
        }
    }

    /// The state after a request came in that cannot be answered yet.
    pub open spec fn queued(self, request: ProtoBlockRequest) -> Self {
        let waiting = if self.request_queue.contains_key(request.next_finalized) {
            self.request_queue[request.next_finalized]
        } else {
            Seq::empty()
        };
        ReadyView {
            request_queue: self.request_queue.insert(
                request.next_finalized,
                waiting.push(request),
            ),
            ..self
        }
    }

    /// The state and the effects after an event was handled at `now`.
    pub open spec fn handled(self, now: Timestamp, event: Event) -> (Self, Seq<EffectView>) {
        match event {
            Event::Request(request) => {
                if request.next_finalized > self.next_finalized {
                    (self.queued(request), Seq::empty())
                } else {
                    (self, seq![EffectView::Respond(self.proposal(request))])
                }
            },
            Event::BufferDeploy { hash, deploy_type } => (
                self.buffered(now, hash, deploy_type),
                Seq::empty(),
            ),
            Event::Prune => (
                self.pruned(now),
                seq![EffectView::SchedulePrune(TimeDiff(PRUNE_INTERVAL_MILLIS))],
            ),
            Event::Loaded { .. } => (self, Seq::empty()),
            Event::FinalizedProtoBlock { block, height } => self.delivered(
                height,
                block.all_deploys(),
            ),
        }
    }
}

} // verus!

verus! {

broadcast use vstd::std_specs::hash::group_hash_axioms;

/// The state of a proposer in operation.
#[derive(Debug)]
pub struct BlockProposerReady {
    /// The deploys that the proposer keeps.
    pub sets: BlockProposerDeploySets,
    /// Deploys that a finalized block holds and that the proposer has not seen yet. Like the
    /// finalized deploys they resolve dependencies.
    pub unhandled_finalized: HashSet<DeployHash>,
    /// The limits for deploys and blocks.
    pub deploy_config: DeployConfig,
    /// The key under which the state is stored.
    pub state_key: Vec<u8>,
    /// Requests that wait for a block to be finalized, under the height they wait for.
    pub request_queue: HashMap<BlockHeight, Vec<ProtoBlockRequest>>,
}

impl View for BlockProposerReady {
    type V = ReadyView;

    open spec fn view(&self) -> ReadyView {
        ReadyView {
            pending: self.sets.pending@,
            finalized: self.sets.finalized(),
            next_finalized: self.sets.next_finalized,
            finalization_queue: self.sets.queue(),
            unhandled_finalized: self.unhandled_finalized@,
            request_queue: self.request_queue@.map_values(|v: Vec<ProtoBlockRequest>| v@),
            deploy_config: self.deploy_config,
        }
    }
}

impl BlockProposerReady {
    /// The sets are well formed: no hash occurs twice in one, and no pending deploy is
    /// finalized.
    pub open spec fn wf(&self) -> bool {
        self.sets.wf()
    }

    /// A well-formed state has a well-formed view.
    pub proof fn lemma_view_wf(&self)
        requires
            self.wf(),
        ensures
            self@.wf(),
    {
        crate::keyed::lemma_as_map_dom(self.sets.finalized_deploys@);
    }

    /// A proposer in operation that starts from the given sets.
    pub fn new(sets: BlockProposerDeploySets, deploy_config: DeployConfig, state_key: Vec<u8>) -> (r:
        Self)
        requires
            sets.wf(),
        ensures
            r.wf(),
            r.sets == sets,
            r.deploy_config == deploy_config,
            r.state_key == state_key,
            r@.unhandled_finalized == Set::<DeployHash>::empty(),
            r@.request_queue == Map::<BlockHeight, Seq<ProtoBlockRequest>>::empty(),
    {
        let r = BlockProposerReady {
            sets,
            unhandled_finalized: HashSet::new(),
            deploy_config,
            state_key,
            request_queue: HashMap::new(),
        };
        assert(r@.request_queue =~= Map::<BlockHeight, Seq<ProtoBlockRequest>>::empty());
        r
    }

    /// Whether a finalized block is known to hold the deploy, with or without its header.
    pub fn contains_finalized(&self, dep: &DeployHash) -> (r: bool)
        ensures
            r == (self@.finalized.contains_key(*dep) || self@.unhandled_finalized.contains(*dep)),
    {
        self.sets.is_finalized(*dep) || self.unhandled_finalized.contains(dep)
    }

    /// Whether a deploy may go into a block with the given timestamp and ancestors: the header
    /// is valid for that block, and every dependency is in an ancestor or in a finalized block.
    pub fn is_deploy_valid(
        &self,
        header: &DeployHeader,
        block_timestamp: Timestamp,
        deploy_config: &DeployConfig,
        past_deploys: &HashSet<DeployHash>,
    ) -> (r: bool)
        ensures
            r == self@.rules(*deploy_config, block_timestamp, past_deploys@).deploy_is_valid(
                *header,
            ),
    {
        let ghost rules = self@.rules(*deploy_config, block_timestamp, past_deploys@);
        if !header.is_valid(deploy_config, block_timestamp) {
            return false;
        }
        let mut i: usize = 0;
        while i < header.dependencies.len()
            invariant
                i <= header.dependencies@.len(),
                rules == self@.rules(*deploy_config, block_timestamp, past_deploys@),
                forall|j: int|
                    0 <= j < i ==> {
                        ||| past_deploys@.contains(#[trigger] header.dependencies@[j])
                        ||| rules.knows_finalized(header.dependencies@[j])
                    },
            decreases header.dependencies@.len() - i,
        {
            let dep = header.dependencies[i];
            if !(past_deploys.contains(&dep) || self.contains_finalized(&dep)) {
                return false;
            }
            i = i + 1;
        }
        true
    }

    /// The deploys to propose for a block with the given timestamp and ancestors: the
    /// selection from the pending deploys, in the order in which they came.
    pub fn propose_proto_block(
        &self,
        deploy_config: DeployConfig,
        block_timestamp: Timestamp,
        past_deploys: &HashSet<DeployHash>,
        random_bit: bool,
    ) -> (r: ProtoBlock)
        ensures
            ({
                let sel = self@.rules(deploy_config, block_timestamp, past_deploys@).select_all(
                    self@.pending,
                );
                &&& r.wasm_deploys@ == sel.wasm
                &&& r.transfers@ == sel.transfers
            }),
            r.timestamp == block_timestamp,
            r.random_bit == random_bit,
    {
        let ghost rules = self@.rules(deploy_config, block_timestamp, past_deploys@);
        let ghost pending = self.sets.pending@;
        let max_transfers: u64 = deploy_config.block_max_transfer_count as u64;
        let max_deploys: u64 = deploy_config.block_max_deploy_count as u64;
        let max_block_size_bytes: u64 = deploy_config.max_block_size as u64;
        let block_gas_limit = Uint512::from_u64(deploy_config.block_gas_limit);

        let mut transfers: Vec<DeployHash> = Vec::new();
        let mut wasm_deploys: Vec<DeployHash> = Vec::new();
        let mut block_gas_running_total = Uint512::zero();
        let mut block_size_running_total: u64 = 0;
        let mut stopped = false;
        let mut i: usize = 0;
        while i < self.sets.pending.len() && !stopped
            invariant
                i <= pending.len(),
                pending == self.sets.pending@,
                rules == self@.rules(deploy_config, block_timestamp, past_deploys@),
                max_transfers == deploy_config.block_max_transfer_count,
                max_deploys == deploy_config.block_max_deploy_count,
                max_block_size_bytes == deploy_config.max_block_size,
                block_gas_limit.value() == deploy_config.block_gas_limit,
                rules.select(pending, i as nat) == (Selection {
                    wasm: wasm_deploys@,
                    transfers: transfers@,
                    gas: block_gas_running_total.value(),
                    size: block_size_running_total as int,
                    stopped,
                }),
                block_size_running_total <= max_block_size_bytes,
                transfers@.len() <= max_transfers,
                wasm_deploys@.len() <= max_deploys,
            decreases pending.len() - i,
        {
            let hash = self.sets.pending[i].0;
            let deploy_type = &self.sets.pending[i].1;
            let ghost sel = rules.select(pending, i as nat);
            proof {
                crate::selection::lemma_selection_within_limits(rules, pending, i as nat);
                crate::selection::lemma_selection_within_limits(rules, pending, (i + 1) as nat);
            }
            let at_max_transfers = transfers.len() as u64 == max_transfers;
            let at_max_deploys = wasm_deploys.len() as u64 == max_deploys || (
            deploy_type.is_wasm() && block_size_running_total + (DEPLOY_APPROX_MIN_SIZE as u64)
                >= max_block_size_bytes);
            if at_max_deploys && at_max_transfers {
                stopped = true;
            } else if !self.is_deploy_valid(
                deploy_type.header(),
                block_timestamp,
                &deploy_config,
                past_deploys,
            ) || past_deploys.contains(&hash) || self.sets.is_finalized(hash) {
            } else if deploy_type.is_transfer() && !at_max_transfers {
                transfers.push(hash);
            } else if deploy_type.is_wasm() && !at_max_deploys {
                if deploy_type.size() as u64 <= max_block_size_bytes - block_size_running_total {
                    match crate::uint512::gas_from_motes(
                        &deploy_type.payment_amount(),
                        deploy_type.header().gas_price(),
                    ) {
                        Some(payment_amount_gas) => {
                            proof {
                                crate::uint512::lemma_modulus_above_u64();
                            }
                            match crate::uint512::gas_checked_add(
                                &block_gas_running_total,
                                &payment_amount_gas,
                            ) {
                                Some(gas_running_total) => {
                                    if !crate::uint512::gas_exceeds(
                                        &gas_running_total,
                                        &block_gas_limit,
                                    ) {
                                        wasm_deploys.push(hash);
                                        block_gas_running_total = gas_running_total;
                                        block_size_running_total = block_size_running_total
                                            + deploy_type.size() as u64;
                                    }
                                },
                                None => {},
                            }
                        },
                        None => {},
                    }
                }
            }
            i = i + 1;
        }
        proof {
            if stopped {
                crate::selection::lemma_stopped_stays(rules, pending, i as nat, pending.len());
            }
        }
        ProtoBlock::new(wasm_deploys, transfers, block_timestamp, random_bit)
    }
}

} // verus!

verus! {

/// Dropping the expired entries of a list with distinct keys drops them from its map.
pub proof fn lemma_alive_finalized_map(s: Seq<(DeployHash, DeployHeader)>, now: Timestamp)
    requires
        distinct_keys(s),
    ensures
        distinct_keys(alive_finalized(s, now)),
        forall|k: u64| has_key(alive_finalized(s, now), k) ==> has_key(s, k),
        as_map(alive_finalized(s, now)) =~= as_map(s).remove_keys(
            Set::new(|k: DeployHash| as_map(s).contains_key(k) && as_map(s)[k].is_expired(now)),
        ),
    decreases s.len(),
{
    if s.len() > 0 {
        let t = s.drop_last();
        assert(distinct_keys(t)) by {
            assert forall|a: int, b: int| 0 <= a < b < t.len() implies (#[trigger] t[a]).0 != (
            #[trigger] t[b]).0 by {
                assert(s[a].0 != s[b].0);
            }
        }
        lemma_alive_finalized_map(t, now);
        crate::keyed::lemma_as_map_dom(t);
        crate::keyed::lemma_as_map_dom(s);
        crate::keyed::lemma_as_map_dom(alive_finalized(t, now));
        let last = s.last();
        assert(!has_key(t, last.0)) by {
            if has_key(t, last.0) {
                let j = choose|j: int| 0 <= j < t.len() && (#[trigger] t[j]).0 == last.0;
                assert(s[j].0 != s[s.len() - 1].0);
            }
        }
        let kept = alive_finalized(t, now);
        if !last.1.is_expired(now) {
            let r = kept.push(last);
            assert(distinct_keys(r)) by {
                assert forall|a: int, b: int| 0 <= a < b < r.len() implies (#[trigger] r[a]).0
                    != (#[trigger] r[b]).0 by {
                    if b == r.len() - 1 {
                        assert(has_key(kept, kept[a].0));
                    } else {
                        assert(kept[a].0 != kept[b].0);
                    }
                }
            }
            crate::keyed::lemma_as_map_push(kept, last.0, last.1);
            assert forall|k: u64| has_key(r, k) implies has_key(s, k) by {
                let j = choose|j: int| 0 <= j < r.len() && (#[trigger] r[j]).0 == k;
                if j == r.len() - 1 {
                    assert(s[s.len() - 1].0 == k);
                } else {
                    assert(has_key(kept, kept[j].0));
                    assert(has_key(t, k));
                    let m = choose|m: int| 0 <= m < t.len() && (#[trigger] t[m]).0 == k;
                    assert(s[m].0 == k);
                }
            }
        } else {
            assert forall|k: u64| has_key(kept, k) implies has_key(s, k) by {
                assert(has_key(t, k));
                let m = choose|m: int| 0 <= m < t.len() && (#[trigger] t[m]).0 == k;
                assert(s[m].0 == k);
            }
        }
    }
}

/// The pending deploys that stay alive are pending deploys, and none occurs twice.
pub proof fn lemma_alive_pending_keys(s: Seq<(DeployHash, DeployType)>, now: Timestamp)
    requires
        distinct_keys(s),
    ensures
        distinct_keys(alive_pending(s, now)),
        forall|k: u64| has_key(alive_pending(s, now), k) ==> has_key(s, k),
    decreases s.len(),
{
    if s.len() > 0 {
        let t = s.drop_last();
        assert(distinct_keys(t)) by {
            assert forall|a: int, b: int| 0 <= a < b < t.len() implies (#[trigger] t[a]).0 != (
            #[trigger] t[b]).0 by {
                assert(s[a].0 != s[b].0);
            }
        }
        lemma_alive_pending_keys(t, now);
        let last = s.last();
        let kept = alive_pending(t, now);
        assert forall|k: u64| has_key(kept, k) implies has_key(s, k) by {
            assert(has_key(t, k));
            let m = choose|m: int| 0 <= m < t.len() && (#[trigger] t[m]).0 == k;
            assert(s[m].0 == k);
        }
        if !last.1.spec_header().is_expired(now) {
            let r = kept.push(last);
            assert(distinct_keys(r)) by {
                assert forall|a: int, b: int| 0 <= a < b < r.len() implies (#[trigger] r[a]).0
                    != (#[trigger] r[b]).0 by {
                    if b == r.len() - 1 {
                        assert(has_key(kept, kept[a].0));
                        assert(has_key(t, kept[a].0));
                        let m = choose|m: int| 0 <= m < t.len() && (#[trigger] t[m]).0 == kept[a].0;
                        assert(s[m].0 != s[s.len() - 1].0);
                    } else {
                        assert(kept[a].0 != kept[b].0);
                    }
                }
            }
            assert forall|k: u64| has_key(r, k) implies has_key(s, k) by {
                let j = choose|j: int| 0 <= j < r.len() && (#[trigger] r[j]).0 == k;
                if j == r.len() - 1 {
                    assert(s[s.len() - 1].0 == k);
                } else {
                    assert(has_key(kept, kept[j].0));
                }
            }
        }
    }
}

impl BlockProposerReady {
    /// Takes in a deploy at `current_instant`. An expired deploy is dropped. One that was
    /// reported finalized before is kept as finalized. One whose header is kept as finalized is
    /// dropped. Any other is pending from now on.
    pub fn add_deploy_or_transfer(
        &mut self,
        current_instant: Timestamp,
        hash: DeployHash,
        deploy_or_transfer: DeployType,
    )
        requires
            old(self).wf(),
        ensures
            final(self).wf(),
            final(self)@ == old(self)@.buffered(current_instant, hash, deploy_or_transfer),
            final(self).state_key == old(self).state_key,
    {
        let ghost before = self@;
        proof {
            crate::keyed::lemma_as_map_dom(self.sets.finalized_deploys@);
        }
        if deploy_or_transfer.header().expired(current_instant) {
            return ;
        }
        if self.unhandled_finalized.remove(&hash) {
            let _ = crate::keyed::take_key(&mut self.sets.pending, hash);
            crate::keyed::put_key(
                &mut self.sets.finalized_deploys,
                hash,
                deploy_or_transfer.take_header(),
            );
            assert(self@.finalization_queue == before.finalization_queue);
            assert(self@.request_queue == before.request_queue);
            return ;
        }
        assert(self@.unhandled_finalized =~= before.unhandled_finalized);
        if self.sets.is_finalized(hash) {
        } else {
            crate::keyed::put_key(&mut self.sets.pending, hash, deploy_or_transfer);
        }
        assert(self@.finalization_queue == before.finalization_queue);
        assert(self@.request_queue == before.request_queue);
    }

    /// Notes that a finalized block holds the given deploys: a pending one becomes finalized
    /// under its header, any other is remembered as finalized unseen.
    pub fn finalized_deploys(&mut self, deploys: &Vec<DeployHash>)
        requires
            old(self).wf(),
        ensures
            final(self).wf(),
            final(self)@ == old(self)@.finalized_all(deploys@),
            final(self).state_key == old(self).state_key,
    {
        let ghost before = self@;
        let mut i: usize = 0;
        proof {
            assert(deploys@.take(0) =~= Seq::empty());
        }
        while i < deploys.len()
            invariant
                i <= deploys@.len(),
                self.wf(),
                self@ == before.finalized_all(deploys@.take(i as int)),
                self.state_key == old(self).state_key,
            decreases deploys@.len() - i,
        {
            let deploy_hash = deploys[i];
            let ghost now = self@;
            proof {
                assert(deploys@.take(i + 1).drop_last() =~= deploys@.take(i as int));
                crate::keyed::lemma_as_map_dom(self.sets.finalized_deploys@);
                crate::keyed::lemma_as_map_dom(self.sets.pending@);
            }
            match crate::keyed::take_key(&mut self.sets.pending, deploy_hash) {
                Some(deploy_type) => {
                    crate::keyed::put_key(
                        &mut self.sets.finalized_deploys,
                        deploy_hash,
                        deploy_type.take_header(),
                    );
                },
                None => {
                    proof {
                        crate::keyed::lemma_without_absent_key(now.pending, deploy_hash);
                    }
                    self.unhandled_finalized.insert(deploy_hash);
                },
            }
            assert(self@.finalization_queue == now.finalization_queue);
            assert(self@.request_queue == now.request_queue);
            assert(self@ == now.finalized_one(deploy_hash));
            i = i + 1;
        }
        proof {
            assert(deploys@.take(i as int) =~= deploys@);
        }
    }

    /// Applies the finalized block at `height`: notes its deploys, moves the next height to be
    /// finalized past it, and answers the requests that waited for that height.
    pub fn handle_finalized_block(&mut self, height: BlockHeight, deploys: &Vec<DeployHash>) -> (r:
        Vec<Effect>)
        requires
            old(self).wf(),
        ensures
            final(self).wf(),
            final(self)@ == old(self)@.block_finalized(height, deploys@).0,
            effects_are(r@, old(self)@.block_finalized(height, deploys@).1),
            final(self).state_key == old(self).state_key,
    {
        self.finalized_deploys(deploys);
        let ghost noted = self@;
        let above: u64 = if height == u64::MAX {
            u64::MAX
        } else {
            height + 1
        };
        if self.sets.next_finalized < above {
            self.sets.next_finalized = above;
        }
        let ghost moved = self@;
        assert(moved == (ReadyView { next_finalized: self.sets.next_finalized, ..noted }));
        let mut effects: Vec<Effect> = Vec::new();
        let next = self.sets.next_finalized;
        match self.request_queue.remove(&next) {
            Some(requests) => {
                let ghost after = self@;
                assert(after.request_queue =~= moved.request_queue.remove(next));
                assert(after == (ReadyView {
                    request_queue: moved.request_queue.remove(next),
                    ..moved
                }));
                assert(moved.request_queue[next] == requests@);
                let mut i: usize = 0;
                while i < requests.len()
                    invariant
                        i <= requests@.len(),
                        self@ == after,
                        self.wf(),
                        self.state_key == old(self).state_key,
                        effects@.len() == i,
                        forall|j: int|
                            0 <= j < i ==> (#[trigger] effects@[j])@ == after.responses(
                                requests@,
                            )[j],
                    decreases requests@.len() - i,
                {
                    let request = &requests[i];
                    let proto_block = self.propose_proto_block(
                        self.deploy_config,
                        request.current_instant,
                        &request.past_deploys,
                        request.random_bit,
                    );
                    effects.push(Effect::Respond { responder: request.responder, proto_block });
                    i = i + 1;
                }
            },
            None => {
                assert(self@.request_queue =~= moved.request_queue);
            },
        }
        effects
    }

    /// Drops the deploys that are expired at `current_instant` and returns how many were
    /// dropped.
    pub fn prune(&mut self, current_instant: Timestamp) -> (r: usize)
        requires
            old(self).wf(),
        ensures
            final(self).wf(),
            final(self)@ == old(self)@.pruned(current_instant),
            final(self).state_key == old(self).state_key,
            r == crate::deploy_sets::pruned_count(
                (old(self).sets.pending@.len() - final(self).sets.pending@.len()) + (old(
                    self,
                ).sets.finalized_deploys@.len() - final(self).sets.finalized_deploys@.len()),
            ),
    {
        proof {
            lemma_alive_finalized_map(self.sets.finalized_deploys@, current_instant);
        }
        let ghost before = self@;
        let r = self.sets.prune(current_instant);
        assert(self@.finalization_queue == before.finalization_queue);
        assert(self@.finalized =~= before.pruned(current_instant).finalized);
        r
    }
}

} // verus!

verus! {

impl BlockProposerReady {
    /// Keeps a request until the block it waits for is finalized.
    fn queue_request(&mut self, request: ProtoBlockRequest)
        requires
            old(self).wf(),
        ensures
            final(self).wf(),
            final(self)@ == old(self)@.queued(request),
            final(self).state_key == old(self).state_key,
    {
        let ghost before = self@;
        let height = request.next_finalized;
        let mut waiting = match self.request_queue.remove(&height) {
            Some(list) => list,
            None => Vec::new(),
        };
        waiting.push(request);
        self.request_queue.insert(height, waiting);
        assert(self@.request_queue =~= before.queued(request).request_queue);
        assert(self@.finalization_queue == before.finalization_queue);
    }

    /// Handles an event at the instant `now` and returns what is to be done about it.
    pub fn handle_event(&mut self, now: Timestamp, event: Event) -> (r: Vec<Effect>)
        requires
            old(self).wf(),
        ensures
            final(self).wf(),
            final(self)@ == old(self)@.handled(now, event).0,
            effects_are(r@, old(self)@.handled(now, event).1),
            final(self).state_key == old(self).state_key,
    {
        let ghost before = self@;
        match event {
            Event::Request(request) => {
                if request.next_finalized > self.sets.next_finalized {
                    self.queue_request(request);
                    Vec::new()
                } else {
                    let proto_block = self.propose_proto_block(
                        self.deploy_config,
                        request.current_instant,
                        &request.past_deploys,
                        request.random_bit,
                    );
                    let mut effects: Vec<Effect> = Vec::new();
                    effects.push(Effect::Respond { responder: request.responder, proto_block });
                    effects
                }
            },
            Event::BufferDeploy { hash, deploy_type } => {
                self.add_deploy_or_transfer(now, hash, deploy_type);
                Vec::new()
            },
            Event::Prune => {
                let _ = self.prune(now);
                let mut effects: Vec<Effect> = Vec::new();
                effects.push(Effect::SchedulePrune { after: TimeDiff(PRUNE_INTERVAL_MILLIS) });
                effects
            },
            Event::Loaded { .. } => Vec::new(),
            Event::FinalizedProtoBlock { block, height } => {
                let ghost all = block.all_deploys();
                let (_, mut deploys, mut transfers, _) = block.destructure();
                deploys.append(&mut transfers);
                assert(deploys@ == all);
                if height > self.sets.next_finalized {
                    self.sets.finalization_queue.insert(height - 1, deploys);
                    assert(self@.finalization_queue =~= before.finalization_queue.insert(
                        (height - 1) as u64,
                        all,
                    ));
                    assert(self@.request_queue == before.request_queue);
                    Vec::new()
                } else {
                    let mut effects = self.handle_finalized_block(height, &deploys);
                    let ghost mut done: Seq<EffectView> = before.block_finalized(height, all).1;
                    let ghost target = before.delivered(height, all);
                    let mut height = height;
                    loop
                        invariant
                            self.wf(),
                            self.state_key == old(self).state_key,
                            effects_are(effects@, done),
                            target.0 == self@.drained(height).0,
                            target.1 == done + self@.drained(height).1,
                        ensures
                            self.wf(),
                            self.state_key == old(self).state_key,
                            target.0 == self@,
                            effects_are(effects@, target.1),
                        decreases u64::MAX - height,
                    {
                        if height == u64::MAX {
                            assert(done + Seq::<EffectView>::empty() =~= done);
                            break ;
                        }
                        let ghost current = self@;
                        match self.sets.finalization_queue.remove(&height) {
                            Some(queued) => {
                                assert(self@.finalization_queue
                                    =~= current.finalization_queue.remove(height));
                                assert(self@.request_queue == current.request_queue);
                                assert(self@ == (ReadyView {
                                    finalization_queue: current.finalization_queue.remove(height),
                                    ..current
                                }));
                                assert(current.finalization_queue[height] == queued@);
                                height = height + 1;
                                let ghost step = self@.block_finalized(height, queued@);
                                let mut more = self.handle_finalized_block(height, &queued);
                                let ghost old_effects = effects@;
                                let ghost more_effects = more@;
                                effects.append(&mut more);
                                proof {
                                    assert(effects@ == old_effects + more_effects);
                                    let joined = done + step.1;
                                    assert forall|i: int| 0 <= i < effects@.len() implies (
                                    #[trigger] effects@[i])@ == joined[i] by {
                                        if i < old_effects.len() {
                                            assert(effects@[i] == old_effects[i]);
                                        } else {
                                            assert(effects@[i] == more_effects[i
                                                - old_effects.len()]);
                                        }
                                    }
                                    assert(target.1 =~= joined + self@.drained(height).1);
                                    done = joined;
                                }
                            },
                            None => {
                                assert(self@.finalization_queue =~= current.finalization_queue);
                                assert(self@.request_queue == current.request_queue);
                                assert(self@ == current);
                                assert(done + Seq::<EffectView>::empty() =~= done);
                                break ;
                            },
                        }
                    }
                    effects
                }
            },
        }
    }
}

} // verus!

verus! {

/// What a proposer does: it waits for its stored history, or it is in operation.
#[derive(Debug)]
pub enum BlockProposerState {
    /// The proposer waits for the stored history and keeps every other event for later.
    Initializing {
        /// The events to handle once the history is there.
        pending: Vec<Event>,
        /// The key under which the state is stored.
        state_key: Vec<u8>,
        /// The limits for deploys and blocks.
        deploy_config: DeployConfig,
    },
    /// The proposer is in operation.
    Ready(BlockProposerReady),
}

/// The block proposer.
#[derive(Debug)]
pub struct BlockProposer {
    /// What the proposer does at present.
    pub state: BlockProposerState,
}

impl ReadyView {
    /// The state and the effects after the events were handled at `now`, one after the other.
    pub open spec fn replayed(self, now: Timestamp, events: Seq<Event>) -> (Self, Seq<EffectView>)
        decreases events.len(),
    {
        if events.len() == 0 {
            (self, Seq::empty())
        } else {
            let (before, first) = self.replayed(now, events.drop_last());
            let (after, more) = before.handled(now, events.last());
            (after, first + more)
        }
    }

    /// The state in which a proposer starts to operate on the given history.
    pub open spec fn loaded(
        finalized_deploys: Seq<(DeployHash, DeployHeader)>,
        next_finalized_block: BlockHeight,
        deploy_config: DeployConfig,
    ) -> Self {
        ReadyView {
            pending: Seq::empty(),
            finalized: as_map(finalized_deploys),
            next_finalized: next_finalized_block,
            finalization_queue: Map::empty(),
            unhandled_finalized: Set::empty(),
            request_queue: Map::empty(),
            deploy_config,
        }
    }
}

impl BlockProposer {
    /// A proposer in operation has well-formed sets.
    pub open spec fn wf(&self) -> bool {
        match self.state {
            BlockProposerState::Initializing { .. } => true,
            BlockProposerState::Ready(ready) => ready.wf(),
        }
    }

    /// A new proposer, and the request for the stored history that it waits for.
    pub fn new(state_key: Vec<u8>, deploy_config: DeployConfig) -> (r: (Self, Vec<Effect>))
        ensures
            r.0.wf(),
            r.0.state matches BlockProposerState::Initializing {
                pending,
                state_key: key,
                deploy_config: config,
            } && pending@.len() == 0 && key == state_key && config == deploy_config,
            effects_are(r.1@, seq![EffectView::GetFinalizedDeploys(deploy_config.max_ttl)]),
    {
        let mut effects: Vec<Effect> = Vec::new();
        effects.push(Effect::GetFinalizedDeploys { max_ttl: deploy_config.max_ttl });
        let block_proposer = BlockProposer {
            state: BlockProposerState::Initializing {
                pending: Vec::new(),
                state_key,
                deploy_config,
            },
        };
        (block_proposer, effects)
    }

    /// The number of pending deploys, once the proposer is in operation.
    pub fn pending_deploys(&self) -> (r: Option<usize>)
        ensures
            r == match self.state {
                BlockProposerState::Initializing { .. } => None::<usize>,
                BlockProposerState::Ready(ready) => Some(ready.sets.pending.len()),
            },
    {
        match &self.state {
            BlockProposerState::Initializing { .. } => None,
            BlockProposerState::Ready(ready) => Some(ready.sets.pending.len()),
        }
    }

    /// Handles an event at the instant `now`.
    ///
    /// While the proposer waits for the stored history, every other event is kept. When the
    /// history comes, the proposer starts to operate on it, handles the kept events in their
    /// order, and asks to be pruned after the prune interval. In operation, the event is
    /// handled at once.
    pub fn handle_event(&mut self, now: Timestamp, event: Event) -> (r: Vec<Effect>)
        requires
            old(self).wf(),
        ensures
            final(self).wf(),
            match old(self).state {
                BlockProposerState::Initializing { pending, state_key, deploy_config } => match event {
                    Event::Loaded { finalized_deploys, next_finalized_block } => {
                        let start = ReadyView::loaded(
                            finalized_deploys@,
                            next_finalized_block,
                            deploy_config,
                        );
                        &&& final(self).state matches BlockProposerState::Ready(ready)
                        &&& ready@ == start.replayed(now, pending@).0
                        &&& ready.state_key == state_key
                        &&& effects_are(
                            r@,
                            start.replayed(now, pending@).1.push(
                                EffectView::SchedulePrune(TimeDiff(PRUNE_INTERVAL_MILLIS)),
                            ),
                        )
                    },
                    _ => {
                        &&& final(self).state matches BlockProposerState::Initializing {
                            pending: kept,
                            state_key: key,
                            deploy_config: config,
                        }
                        &&& kept@ == pending@.push(event)
                        &&& key == state_key
                        &&& config == deploy_config
                        &&& r@.len() == 0
                    },
                },
                BlockProposerState::Ready(ready) => {
                    &&& final(self).state matches BlockProposerState::Ready(after)
                    &&& after@ == ready@.handled(now, event).0
                    &&& after.state_key == ready.state_key
                    &&& effects_are(r@, ready@.handled(now, event).1)
                },
            },
    {
        let mut state = BlockProposerState::Initializing {
            pending: Vec::new(),
            state_key: Vec::new(),
            deploy_config: DeployConfig {
                max_ttl: TimeDiff(0),
                block_max_deploy_count: 0,
                block_max_transfer_count: 0,
                max_block_size: 0,
                block_gas_limit: 0,
            },
        };
        std::mem::swap(&mut self.state, &mut state);
        match state {
            BlockProposerState::Initializing { pending, state_key, deploy_config } => {
                match event {
                    Event::Loaded { finalized_deploys, next_finalized_block } => {
                        let ghost start = ReadyView::loaded(
                            finalized_deploys@,
                            next_finalized_block,
                            deploy_config,
                        );
                        let ghost kept = pending@;
                        let mut new_ready_state = BlockProposerReady::new(
                            BlockProposerDeploySets::from_finalized(
                                finalized_deploys,
                                next_finalized_block,
                            ),
                            deploy_config,
                            state_key,
                        );
                        assert(new_ready_state@.finalization_queue =~= start.finalization_queue);
                        assert(new_ready_state@.pending =~= start.pending);
                        assert(new_ready_state@ == start);
                        // Replay the postponed events onto the new state, oldest first.
                        let mut reversed: Vec<Event> = Vec::new();
                        let mut source = pending;
                        while source.len() > 0
                            invariant
                                source@.len() + reversed@.len() == kept.len(),
                                source@ == kept.take(source@.len() as int),
                                forall|i: int|
                                    0 <= i < reversed@.len() ==> reversed@[i] == kept[kept.len() - 1
                                        - i],
                            decreases source@.len(),
                        {
                            let ev = source.pop().unwrap();
                            reversed.push(ev);
                        }
                        let mut effects: Vec<Effect> = Vec::new();
                        let ghost mut done: Seq<EffectView> = Seq::empty();
                        proof {
                            assert(kept.take(0) =~= Seq::empty());
                        }
                        while reversed.len() > 0
                            invariant
                                reversed@.len() <= kept.len(),
                                forall|i: int|
                                    0 <= i < reversed@.len() ==> reversed@[i] == kept[kept.len() - 1
                                        - i],
                                new_ready_state.wf(),
                                new_ready_state.state_key == state_key,
                                effects_are(effects@, done),
                                (new_ready_state@, done) == start.replayed(
                                    now,
                                    kept.take(kept.len() - reversed@.len()),
                                ),
                            decreases reversed@.len(),
                        {
                            let ghost n = kept.len() - reversed@.len();
                            let ev = reversed.pop().unwrap();
                            proof {
                                assert(ev == kept[n]);
                                assert(kept.take(n + 1).drop_last() =~= kept.take(n));
                            }
                            let ghost step = new_ready_state@.handled(now, ev);
                            let mut more = new_ready_state.handle_event(now, ev);
                            let ghost old_effects = effects@;
                            let ghost more_effects = more@;
                            effects.append(&mut more);
                            proof {
                                let joined = done + step.1;
                                assert forall|i: int| 0 <= i < effects@.len() implies (
                                #[trigger] effects@[i])@ == joined[i] by {
                                    if i < old_effects.len() {
                                        assert(effects@[i] == old_effects[i]);
                                    } else {
                                        assert(effects@[i] == more_effects[i - old_effects.len()]);
                                    }
                                }
                                done = joined;
                            }
                        }
                        proof {
                            assert(kept.take(kept.len() as int) =~= kept);
                        }
                        self.state = BlockProposerState::Ready(new_ready_state);
                        // Start pruning deploys after the interval.
                        effects.push(
                            Effect::SchedulePrune { after: TimeDiff(PRUNE_INTERVAL_MILLIS) },
                        );
                        effects
                    },
                    other => {
                        // Any other event is kept until the history is there.
                        let mut pending = pending;
                        pending.push(other);
                        self.state = BlockProposerState::Initializing {
                            pending,
                            state_key,
                            deploy_config,
                        };
                        Vec::new()
                    },
                }
            },
            BlockProposerState::Ready(ready_state) => {
                let mut ready_state = ready_state;
                let effects = ready_state.handle_event(now, event);
                self.state = BlockProposerState::Ready(ready_state);
                effects
            },
        }
    }
}

} // verus!
