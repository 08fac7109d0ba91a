//! What holds of the block proposer whatever events it is given.

use vstd::prelude::*;
use crate::block_proposer::{EffectView, Event, ReadyView};
use crate::deploy::{BlockHeight, DeployHash, DeployType};
use crate::deploy_sets::alive_pending;
use crate::keyed::{distinct_keys, has_key, put, without_key};
use crate::time::Timestamp;

verus! {

/// Dropping a key keeps the other entries, and keeps keys distinct.
pub proof fn lemma_without_key_keys<V>(s: Seq<(u64, V)>, k: u64)
    requires
        distinct_keys(s),
    ensures
        distinct_keys(without_key(s, k)),
        forall|x: u64| has_key(without_key(s, k), x) <==> (has_key(s, x) && x != k),
{
    if has_key(s, k) {
        let i = choose|i: int| 0 <= i < s.len() && (#[trigger] s[i]).0 == k;
        crate::keyed::lemma_without_key(s, i);
        crate::keyed::lemma_as_map_remove(s, i);
    } else {
        crate::keyed::lemma_without_absent_key(s, k);
    }
}

/// Giving a key a value keeps the other entries, and keeps keys distinct.
pub proof fn lemma_put_keys<V>(s: Seq<(u64, V)>, k: u64, value: V)
    requires
        distinct_keys(s),
    ensures
        distinct_keys(put(s, k, value)),
        forall|x: u64| has_key(put(s, k, value), x) <==> (has_key(s, x) || x == k),
{
    let r = put(s, k, value);
    if has_key(s, k) {
        let i = crate::keyed::first_index(s, k);
        crate::keyed::lemma_as_map_update(s, i, value);
        assert forall|x: u64| has_key(r, x) <==> (has_key(s, x) || x == k) by {
            if has_key(r, x) {
                let j = choose|j: int| 0 <= j < r.len() && (#[trigger] r[j]).0 == x;
                assert(s[j].0 == x);
            }
            if has_key(s, x) {
                let j = choose|j: int| 0 <= j < s.len() && (#[trigger] s[j]).0 == x;
                assert(r[j].0 == x);
            }
        }
    } else {
        assert(distinct_keys(r)) by {
            assert forall|a: int, b: int| 0 <= a < b < r.len() implies (#[trigger] r[a]).0 != (
            #[trigger] r[b]).0 by {
                if b == r.len() - 1 {
                    assert(s[a].0 != k);
                } else {
                    assert(s[a].0 != s[b].0);
                }
            }
        }
        assert forall|x: u64| has_key(r, x) <==> (has_key(s, x) || x == k) by {
            if has_key(r, x) {
                let j = choose|j: int| 0 <= j < r.len() && (#[trigger] r[j]).0 == x;
                if j < s.len() {
                    assert(s[j].0 == x);
                }
            }
            if has_key(s, x) {
                let j = choose|j: int| 0 <= j < s.len() && (#[trigger] s[j]).0 == x;
                assert(r[j].0 == x);
            }
            if x == k {
                assert(r[r.len() - 1].0 == x);
            }
        }
    }
}

/// Noting the deploys of a finalized block keeps pending and finalized deploys apart, and
/// touches neither the queues nor the next height.
pub proof fn lemma_finalized_all(view: ReadyView, deploys: Seq<DeployHash>)
    requires
        view.wf(),
    ensures
        view.finalized_all(deploys).wf(),
        view.finalized_all(deploys).next_finalized == view.next_finalized,
        view.finalized_all(deploys).finalization_queue == view.finalization_queue,
        view.finalized_all(deploys).request_queue == view.request_queue,
        view.finalized_all(deploys).deploy_config == view.deploy_config,
    decreases deploys.len(),
{
    if deploys.len() > 0 {
        lemma_finalized_all(view, deploys.drop_last());
        let before = view.finalized_all(deploys.drop_last());
        let after = before.finalized_one(deploys.last());
        lemma_without_key_keys(before.pending, deploys.last());
        assert forall|k: u64| !(has_key(after.pending, k) && after.finalized.contains_key(k)) by {
            assert(!(has_key(before.pending, k) && before.finalized.contains_key(k)));
        }
    }
}

/// Applying a finalized block keeps pending and finalized deploys apart.
pub proof fn lemma_block_finalized(view: ReadyView, height: BlockHeight, deploys: Seq<DeployHash>)
    requires
        view.wf(),
    ensures
        view.block_finalized(height, deploys).0.wf(),
        view.block_finalized(height, deploys).0.finalization_queue == view.finalization_queue,
        view.block_finalized(height, deploys).0.next_finalized >= view.next_finalized,
{
    lemma_finalized_all(view, deploys);
}

/// Applying the queued blocks keeps pending and finalized deploys apart.
pub proof fn lemma_drained(view: ReadyView, height: BlockHeight)
    requires
        view.wf(),
    ensures
        view.drained(height).0.wf(),
        view.drained(height).0.next_finalized >= view.next_finalized,
    decreases u64::MAX - height,
{
    if height < u64::MAX && view.finalization_queue.contains_key(height) {
        let taken = ReadyView {
            finalization_queue: view.finalization_queue.remove(height),
            ..view
        };
        lemma_block_finalized(taken, (height + 1) as u64, view.finalization_queue[height]);
        let applied = taken.block_finalized((height + 1) as u64, view.finalization_queue[height]).0;
        lemma_drained(applied, (height + 1) as u64);
    }
}

/// Whatever the event, a deploy is never pending and finalized at once, and the next height to
/// be finalized never falls.
pub proof fn lemma_pending_and_finalized_stay_apart(view: ReadyView, now: Timestamp, event: Event)
    requires
        view.wf(),
    ensures
        view.handled(now, event).0.wf(),
        view.handled(now, event).0.next_finalized >= view.next_finalized,
{
    match event {
        Event::Request(request) => {
            let after = view.handled(now, event).0;
            assert(after.pending == view.pending && after.finalized == view.finalized);
        },
        Event::BufferDeploy { hash, deploy_type } => {
            lemma_without_key_keys(view.pending, hash);
            lemma_put_keys(view.pending, hash, deploy_type);
            let after = view.buffered(now, hash, deploy_type);
            assert forall|k: u64| !(has_key(after.pending, k) && after.finalized.contains_key(
                k,
            )) by {
                assert(!(has_key(view.pending, k) && view.finalized.contains_key(k)));
            }
        },
        Event::Prune => {
            crate::block_proposer::lemma_alive_pending_keys(view.pending, now);
            let after = view.pruned(now);
            assert forall|k: u64| !(has_key(after.pending, k) && after.finalized.contains_key(
                k,
            )) by {
                assert(!(has_key(view.pending, k) && view.finalized.contains_key(k)));
            }
        },
        Event::Loaded { .. } => {},
        Event::FinalizedProtoBlock { block, height } => {
            if height <= view.next_finalized {
                lemma_block_finalized(view, height, block.all_deploys());
                lemma_drained(view.block_finalized(height, block.all_deploys()).0, height);
            }
        },
    }
}

/// The state after the blocks were announced one after the other, the first at height `first`
/// and each next one a height above.
pub open spec fn announced_in_turn(
    view: ReadyView,
    first: BlockHeight,
    blocks: Seq<Seq<DeployHash>>,
) -> ReadyView
    decreases blocks.len(),
{
    if blocks.len() == 0 {
        view
    } else {
        announced_in_turn(view, first, blocks.drop_last()).delivered(
            (first + blocks.len() - 1) as u64,
            blocks.last(),
        ).0
    }
}

/// Applying a block does not look at the finalization queue.
proof fn lemma_block_finalized_frame(
    view: ReadyView,
    queue: Map<BlockHeight, Seq<DeployHash>>,
    height: BlockHeight,
    deploys: Seq<DeployHash>,
)
    ensures
        (ReadyView { finalization_queue: queue, ..view }).block_finalized(height, deploys) == ({
            let (after, effects) = view.block_finalized(height, deploys);
            (ReadyView { finalization_queue: queue, ..after }, effects)
        }),
{
    let other = ReadyView { finalization_queue: queue, ..view };
    lemma_finalized_all_frame(view, queue, deploys);
    let noted = view.finalized_all(deploys);
    let noted_other = other.finalized_all(deploys);
    assert(noted_other == (ReadyView { finalization_queue: queue, ..noted }));
    let (after, effects) = view.block_finalized(height, deploys);
    let (after_other, effects_other) = other.block_finalized(height, deploys);
    assert(effects_other =~= effects);
}

/// Noting deploys does not look at the finalization queue.
proof fn lemma_finalized_all_frame(
    view: ReadyView,
    queue: Map<BlockHeight, Seq<DeployHash>>,
    deploys: Seq<DeployHash>,
)
    ensures
        (ReadyView { finalization_queue: queue, ..view }).finalized_all(deploys) == (ReadyView {
            finalization_queue: queue,
            ..view.finalized_all(deploys)
        }),
    decreases deploys.len(),
{
    if deploys.len() > 0 {
        lemma_finalized_all_frame(view, queue, deploys.drop_last());
    }
}

/// A block at the next height, with nothing queued behind it, is applied and nothing else.
proof fn lemma_delivered_alone(view: ReadyView, deploys: Seq<DeployHash>)
    requires
        view.next_finalized < u64::MAX,
        !view.finalization_queue.contains_key(view.next_finalized),
    ensures
        view.delivered(view.next_finalized, deploys).0 == view.block_finalized(
            view.next_finalized,
            deploys,
        ).0,
        view.delivered(view.next_finalized, deploys).0.next_finalized == view.next_finalized + 1,
        view.delivered(view.next_finalized, deploys).0.finalization_queue
            == view.finalization_queue,
{
    lemma_finalized_all_frame(view, view.finalization_queue, deploys);
    lemma_finalized_all_plain(view, deploys);
}

/// Noting deploys touches neither the next height nor the queues.
proof fn lemma_finalized_all_plain(view: ReadyView, deploys: Seq<DeployHash>)
    ensures
        view.finalized_all(deploys).next_finalized == view.next_finalized,
        view.finalized_all(deploys).finalization_queue == view.finalization_queue,
        view.finalized_all(deploys).request_queue == view.request_queue,
    decreases deploys.len(),
{
    if deploys.len() > 0 {
        lemma_finalized_all_plain(view, deploys.drop_last());
    }
}

/// Blocks announced in turn from the next height on, with none of their heights queued, move
/// the next height up by their number and leave the queue as it was; and a further entry in
/// the queue, under a height that is not reached, stays where it is and changes nothing else.
proof fn lemma_in_turn(
    view: ReadyView,
    blocks: Seq<Seq<DeployHash>>,
    extra_height: BlockHeight,
    extra: Seq<DeployHash>,
)
    requires
        view.next_finalized + blocks.len() < u64::MAX,
        forall|j: u64|
            view.next_finalized <= j < view.next_finalized + blocks.len()
                ==> !#[trigger] view.finalization_queue.contains_key(j),
        extra_height >= view.next_finalized + blocks.len(),
    ensures
        announced_in_turn(view, view.next_finalized, blocks).next_finalized
            == view.next_finalized + blocks.len(),
        announced_in_turn(view, view.next_finalized, blocks).finalization_queue
            == view.finalization_queue,
        announced_in_turn(
            ReadyView {
                finalization_queue: view.finalization_queue.insert(extra_height, extra),
                ..view
            },
            view.next_finalized,
            blocks,
        ) == (ReadyView {
            finalization_queue: view.finalization_queue.insert(extra_height, extra),
            ..announced_in_turn(view, view.next_finalized, blocks)
        }),
    decreases blocks.len(),
{
    if blocks.len() > 0 {
        let first = view.next_finalized;
        let with_extra = ReadyView {
            finalization_queue: view.finalization_queue.insert(extra_height, extra),
            ..view
        };
        lemma_in_turn(view, blocks.drop_last(), extra_height, extra);
        let before = announced_in_turn(view, first, blocks.drop_last());
        let before_extra = announced_in_turn(with_extra, first, blocks.drop_last());
        let height = (first + blocks.len() - 1) as u64;
        assert(before.next_finalized == height);
        assert(!before.finalization_queue.contains_key(height));
        lemma_delivered_alone(before, blocks.last());
        lemma_delivered_alone(before_extra, blocks.last());
        lemma_block_finalized_frame(
            before,
            view.finalization_queue.insert(extra_height, extra),
            height,
            blocks.last(),
        );
    }
}

/// A block that is announced ahead of its ancestors waits for them: announcing the last of a
/// run of blocks first and the others in turn gives the same state as announcing all of them
/// in turn. The run starts at the next height to be finalized, and none of the heights before
/// its last is queued already.
pub proof fn lemma_out_of_order_finalization(view: ReadyView, blocks: Seq<Seq<DeployHash>>)
    requires
        blocks.len() >= 2,
        view.next_finalized + blocks.len() < u64::MAX,
        forall|j: u64|
            view.next_finalized <= j < view.next_finalized + blocks.len() - 1
                ==> !#[trigger] view.finalization_queue.contains_key(j),
    ensures
        announced_in_turn(
            view.delivered((view.next_finalized + blocks.len() - 1) as u64, blocks.last()).0,
            view.next_finalized,
            blocks.drop_last(),
        ) == announced_in_turn(view, view.next_finalized, blocks),
{
    let first = view.next_finalized;
    let k = blocks.len() - 1;
    let last_height = (first + k) as u64;
    let parent = (last_height - 1) as u64;
    let ahead = view.delivered(last_height, blocks.last()).0;
    assert(ahead == (ReadyView {
        finalization_queue: view.finalization_queue.insert(parent, blocks.last()),
        ..view
    }));
    // The blocks before the parent of the last one.
    let early = blocks.drop_last().drop_last();
    lemma_in_turn(view, early, parent, blocks.last());
    let before = announced_in_turn(view, first, early);
    let before_ahead = announced_in_turn(ahead, first, early);
    assert(before_ahead == (ReadyView {
        finalization_queue: view.finalization_queue.insert(parent, blocks.last()),
        ..before
    }));
    assert(before.next_finalized == parent);
    // The parent, announced in turn.
    let parent_block = blocks.drop_last().last();
    lemma_delivered_alone(before, parent_block);
    let in_turn = before.delivered(parent, parent_block).0;
    assert(in_turn == announced_in_turn(view, first, blocks.drop_last()));
    // The parent, announced with the last block waiting.
    lemma_block_finalized_frame(
        before,
        view.finalization_queue.insert(parent, blocks.last()),
        parent,
        parent_block,
    );
    let applied = before_ahead.block_finalized(parent, parent_block).0;
    assert(applied == (ReadyView {
        finalization_queue: view.finalization_queue.insert(parent, blocks.last()),
        ..in_turn
    }));
    let taken = ReadyView {
        finalization_queue: applied.finalization_queue.remove(parent),
        ..applied
    };
    assert(taken.finalization_queue =~= in_turn.finalization_queue);
    assert(taken == in_turn);
    assert(in_turn.next_finalized == last_height);
    assert(before_ahead.delivered(parent, parent_block).0 == in_turn.delivered(
        last_height,
        blocks.last(),
    ).0);
}

} // verus!

verus! {

/// After pruning at `now` no pending deploy is expired at `now`.
pub proof fn lemma_pruned_pending_is_alive(pending: Seq<(DeployHash, DeployType)>, now: Timestamp)
    ensures
        forall|i: int|
            0 <= i < alive_pending(pending, now).len() ==> !(#[trigger] alive_pending(
                pending,
                now,
            )[i]).1.spec_header().is_expired(now),
        alive_pending(pending, now).len() <= pending.len(),
    decreases pending.len(),
{
    if pending.len() > 0 {
        lemma_pruned_pending_is_alive(pending.drop_last(), now);
    }
}

/// After pruning at `now` no deploy that is kept as finalized is expired at `now`, and a
/// deploy that was alive is still kept.
pub proof fn lemma_pruned_finalized_is_alive(view: ReadyView, now: Timestamp, hash: DeployHash)
    ensures
        view.pruned(now).finalized.contains_key(hash) <==> (view.finalized.contains_key(hash)
            && !view.finalized[hash].is_expired(now)),
        view.pruned(now).finalized.contains_key(hash) ==> view.pruned(now).finalized[hash]
            == view.finalized[hash],
{
}

} // verus!
