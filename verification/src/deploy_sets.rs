//! The sets of deploys that the block proposer keeps.

use vstd::prelude::*;
use std::collections::HashMap;
use crate::deploy::{BlockHeight, DeployHash, DeployHeader, DeployType};
use crate::keyed::{as_map, distinct_keys, has_key, lemma_as_map_dom, put_key};
use crate::time::Timestamp;

verus! {

/// The pending deploys that are still alive at `now`, in their order.
pub open spec fn alive_pending(s: Seq<(DeployHash, DeployType)>, now: Timestamp) -> Seq<
    (DeployHash, DeployType),
>
    decreases s.len(),
{
    if s.len() == 0 {
        s
    } else if s.last().1.spec_header().is_expired(now) {
        alive_pending(s.drop_last(), now)
    } else {
        alive_pending(s.drop_last(), now).push(s.last())
    }
}

/// The finalized deploys that are still alive at `now`, in their order.
pub open spec fn alive_finalized(s: Seq<(DeployHash, DeployHeader)>, now: Timestamp) -> Seq<
    (DeployHash, DeployHeader),
>
    decreases s.len(),
{
    if s.len() == 0 {
        s
    } else if s.last().1.is_expired(now) {
        alive_finalized(s.drop_last(), now)
    } else {
        alive_finalized(s.drop_last(), now).push(s.last())
    }
}

/// A count of dropped deploys as the proposer reports it: held at the largest machine number.
pub open spec fn pruned_count(n: int) -> usize {
    if n > usize::MAX {
        usize::MAX
    } else {
        n as usize
    }
}

/// Deploys known to the proposer, by their state.
#[derive(Debug)]
pub struct BlockProposerDeploySets {
    /// Deploys waiting to be proposed, in the order in which they came.
    pub pending: Vec<(DeployHash, DeployType)>,
    /// Headers of the deploys that a finalized block holds.
    pub finalized_deploys: Vec<(DeployHash, DeployHeader)>,
    /// The height of the next block to be finalized.
    pub next_finalized: BlockHeight,
    /// Deploys of blocks that were finalized ahead of their ancestors, each under the height
    /// of its parent.
    pub finalization_queue: HashMap<BlockHeight, Vec<DeployHash>>,
}

impl BlockProposerDeploySets {
    /// No hash occurs twice in a set, and no pending deploy is finalized.
    pub open spec fn wf(&self) -> bool {
        &&& distinct_keys(self.pending@)
        &&& distinct_keys(self.finalized_deploys@)
        &&& forall|k: u64| !(has_key(self.pending@, k) && has_key(self.finalized_deploys@, k))
    }

    /// The finalized deploys as a map from hash to header.
    pub open spec fn finalized(&self) -> Map<DeployHash, DeployHeader> {
        as_map(self.finalized_deploys@)
    }

    /// The finalization queue, each entry by its contents.
    pub open spec fn queue(&self) -> Map<BlockHeight, Seq<DeployHash>> {
        self.finalization_queue@.map_values(|v: Vec<DeployHash>| v@)
    }

    /// Empty sets, with the first block still to be finalized.
    pub fn new() -> (r: Self)
        ensures
            r.wf(),
            r.pending@.len() == 0,
            r.finalized_deploys@.len() == 0,
            r.next_finalized == 0,
            r.finalization_queue@ == Map::<BlockHeight, Vec<DeployHash>>::empty(),
    {
        BlockProposerDeploySets {
            pending: Vec::new(),
            finalized_deploys: Vec::new(),
            next_finalized: 0,
            finalization_queue: HashMap::new(),
        }
    }

    /// The sets of a proposer that starts from stored history: the given deploys are finalized,
    /// nothing is pending. Of two headers under one hash the later counts.
    pub fn from_finalized(
        finalized_deploys: Vec<(DeployHash, DeployHeader)>,
        next_finalized_height: BlockHeight,
    ) -> (r: Self)
        ensures
            r.wf(),
            r.pending@.len() == 0,
            r.finalized() == as_map(finalized_deploys@),
            r.next_finalized == next_finalized_height,
            r.finalization_queue@ == Map::<BlockHeight, Vec<DeployHash>>::empty(),
    {
        let mut source = finalized_deploys;
        let ghost all = source@;
        let mut reversed: Vec<(DeployHash, DeployHeader)> = Vec::new();
        while source.len() > 0
            invariant
                source@.len() + reversed@.len() == all.len(),
                source@ == all.take(source@.len() as int),
                forall|i: int|
                    0 <= i < reversed@.len() ==> reversed@[i] == all[all.len() - 1 - i],
            decreases source@.len(),
        {
            let entry = source.pop().unwrap();
            reversed.push(entry);
        }
        let mut kept: Vec<(DeployHash, DeployHeader)> = Vec::new();
        proof {
            assert(all.take(0) =~= Seq::empty());
        }
        while reversed.len() > 0
            invariant
                reversed@.len() <= all.len(),
                forall|i: int|
                    0 <= i < reversed@.len() ==> reversed@[i] == all[all.len() - 1 - i],
                distinct_keys(kept@),
                as_map(kept@) == as_map(all.take(all.len() - reversed@.len())),
            decreases reversed@.len(),
        {
            let ghost n = all.len() - reversed@.len();
            let entry = reversed.pop().unwrap();
            proof {
                assert(entry == all[n]);
                assert(all.take(n + 1).drop_last() =~= all.take(n));
            }
            put_key(&mut kept, entry.0, entry.1);
        }
        proof {
            assert(all.take(all.len() as int) =~= all);
        }
        BlockProposerDeploySets {
            pending: Vec::new(),
            finalized_deploys: kept,
            next_finalized: next_finalized_height,
            finalization_queue: HashMap::new(),
        }
    }

    /// Whether a finalized block is known to hold the deploy.
    pub fn is_finalized(&self, hash: DeployHash) -> (r: bool)
        ensures
            r == self.finalized().contains_key(hash),
    {
        proof {
            lemma_as_map_dom(self.finalized_deploys@);
        }
        crate::keyed::find_key(&self.finalized_deploys, hash).is_some()
    }

    /// Whether the deploy waits to be proposed.
    pub fn is_pending(&self, hash: DeployHash) -> (r: bool)
        ensures
            r == has_key(self.pending@, hash),
    {
        crate::keyed::find_key(&self.pending, hash).is_some()
    }

    /// Drops the pending and the finalized deploys whose time to live has run out at
    /// `current_instant`, and returns how many were dropped.
    pub fn prune(&mut self, current_instant: Timestamp) -> (r: usize)
        requires
            old(self).wf(),
        ensures
            final(self).wf(),
            final(self).pending@ == alive_pending(old(self).pending@, current_instant),
            final(self).finalized_deploys@ == alive_finalized(
                old(self).finalized_deploys@,
                current_instant,
            ),
            final(self).next_finalized == old(self).next_finalized,
            final(self).finalization_queue == old(self).finalization_queue,
            r == pruned_count(
                (old(self).pending@.len() - final(self).pending@.len()) + (old(
                    self,
                ).finalized_deploys@.len() - final(self).finalized_deploys@.len()),
            ),
    {
        let ghost before_pending = self.pending@;
        let ghost before_finalized = self.finalized_deploys@;
        let mut removed: usize = 0;
        let mut i: usize = 0;
        let ghost mut k: int = 0;
        proof {
            assert(before_pending.take(0) =~= Seq::empty());
            assert(self.pending@.skip(0) =~= before_pending.skip(0));
            assert(self.pending@.take(0) =~= Seq::empty());
        }
        while i < self.pending.len()
            invariant
                0 <= k <= before_pending.len(),
                i <= self.pending@.len(),
                self.pending@.len() - i == before_pending.len() - k,
                removed == pruned_count(k - i),
                i <= k,
                before_pending.len() == old(self).pending@.len(),
                self.pending@.take(i as int) == alive_pending(
                    before_pending.take(k),
                    current_instant,
                ),
                self.pending@.skip(i as int) == before_pending.skip(k),
                distinct_keys(self.pending@),
                forall|x: u64| has_key(self.pending@, x) ==> has_key(before_pending, x),
                self.finalized_deploys@ == before_finalized,
                self.next_finalized == old(self).next_finalized,
                self.finalization_queue == old(self).finalization_queue,
            decreases self.pending@.len() - i,
        {
            proof {
                assert(self.pending@[i as int] == self.pending@.skip(i as int)[0]);
                assert(before_pending[k] == before_pending.skip(k)[0]);
                assert(before_pending.take(k + 1).drop_last() =~= before_pending.take(k));
                assert(before_pending.take(k + 1).last() == before_pending[k]);
            }
            let ghost current = self.pending@;
            if self.pending[i].1.header().expired(current_instant) {
                proof {
                    crate::keyed::lemma_as_map_remove(current, i as int);
                }
                let _ = self.pending.remove(i);
                if removed < usize::MAX {
                    removed = removed + 1;
                }
                proof {
                    assert(self.pending@.take(i as int) =~= current.take(i as int));
                    assert(current.remove(i as int).skip(i as int) =~= current.skip(i as int).skip(
                        1,
                    ));
                    assert(before_pending.skip(k).skip(1) =~= before_pending.skip(k + 1));
                }
            } else {
                i = i + 1;
                proof {
                    assert(self.pending@.take(i as int) =~= current.take(i as int - 1).push(
                        current[i as int - 1],
                    ));
                    assert(current.skip(i as int) =~= current.skip(i as int - 1).skip(1));
                    assert(before_pending.skip(k).skip(1) =~= before_pending.skip(k + 1));
                }
            }
            proof {
                k = k + 1;
            }
        }
        proof {
            assert(self.pending@.take(i as int) =~= self.pending@);
            assert(before_pending.take(k) =~= before_pending);
        }
        let mut j: usize = 0;
        let ghost mut m: int = 0;
        let ghost removed_pending = k - i;
        proof {
            assert(before_finalized.take(0) =~= Seq::empty());
            assert(self.finalized_deploys@.skip(0) =~= before_finalized.skip(0));
            assert(self.finalized_deploys@.take(0) =~= Seq::empty());
        }
        while j < self.finalized_deploys.len()
            invariant
                0 <= m <= before_finalized.len(),
                j <= self.finalized_deploys@.len(),
                self.finalized_deploys@.len() - j == before_finalized.len() - m,
                removed == pruned_count(removed_pending + m - j),
                j <= m,
                removed_pending >= 0,
                removed_pending == before_pending.len() - self.pending@.len(),
                before_finalized.len() == old(self).finalized_deploys@.len(),
                self.finalized_deploys@.take(j as int) == alive_finalized(
                    before_finalized.take(m),
                    current_instant,
                ),
                self.finalized_deploys@.skip(j as int) == before_finalized.skip(m),
                distinct_keys(self.finalized_deploys@),
                forall|x: u64|
                    has_key(self.finalized_deploys@, x) ==> has_key(before_finalized, x),
                self.pending@ == alive_pending(before_pending, current_instant),
                distinct_keys(self.pending@),
                forall|x: u64| has_key(self.pending@, x) ==> has_key(before_pending, x),
                self.next_finalized == old(self).next_finalized,
                self.finalization_queue == old(self).finalization_queue,
            decreases self.finalized_deploys@.len() - j,
        {
            proof {
                assert(self.finalized_deploys@[j as int] == self.finalized_deploys@.skip(
                    j as int,
                )[0]);
                assert(before_finalized[m] == before_finalized.skip(m)[0]);
                assert(before_finalized.take(m + 1).drop_last() =~= before_finalized.take(m));
                assert(before_finalized.take(m + 1).last() == before_finalized[m]);
            }
            let ghost current = self.finalized_deploys@;
            if self.finalized_deploys[j].1.expired(current_instant) {
                proof {
                    crate::keyed::lemma_as_map_remove(current, j as int);
                }
                let _ = self.finalized_deploys.remove(j);
                if removed < usize::MAX {
                    removed = removed + 1;
                }
                proof {
                    assert(self.finalized_deploys@.take(j as int) =~= current.take(j as int));
                    assert(current.remove(j as int).skip(j as int) =~= current.skip(j as int).skip(
                        1,
                    ));
                    assert(before_finalized.skip(m).skip(1) =~= before_finalized.skip(m + 1));
                }
            } else {
                j = j + 1;
                proof {
                    assert(self.finalized_deploys@.take(j as int) =~= current.take(
                        j as int - 1,
                    ).push(current[j as int - 1]));
                    assert(current.skip(j as int) =~= current.skip(j as int - 1).skip(1));
                    assert(before_finalized.skip(m).skip(1) =~= before_finalized.skip(m + 1));
                }
            }
            proof {
                m = m + 1;
            }
        }
        proof {
            assert(self.finalized_deploys@.take(j as int) =~= self.finalized_deploys@);
            assert(before_finalized.take(m) =~= before_finalized);
            assert forall|x: u64|
                !(has_key(self.pending@, x) && has_key(self.finalized_deploys@, x)) by {
                assert(!(has_key(before_pending, x) && has_key(before_finalized, x)));
            }
        }
        removed
    }
}

} // verus!
