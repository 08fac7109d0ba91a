//! Which pending deploys go into the next block.
//!
//! The pending deploys are walked in the order in which they came. Transfers are taken while
//! their count allows; wasm deploys are taken while their count, the block size and the block
//! gas limit allow. The walk ends early once neither class can take more.

use vstd::prelude::*;
use crate::deploy::{DeployConfig, DeployHash, DeployHeader, DeployType};
use crate::time::Timestamp;

verus! {

/// Deploys are about this large at least; a block with less room left takes no more wasm.
pub const DEPLOY_APPROX_MIN_SIZE: usize = 300;

/// What a selection is made under.
pub struct SelectionRules {
    pub config: DeployConfig,
    pub block_timestamp: Timestamp,
    /// Deploys that the ancestors of the new block hold.
    pub past_deploys: Set<DeployHash>,
    /// Deploys whose header is kept as finalized.
    pub finalized: Set<DeployHash>,
    /// Deploys reported as finalized before they were seen.
    pub unhandled_finalized: Set<DeployHash>,
}

/// A selection under way.
pub struct Selection {
    pub wasm: Seq<DeployHash>,
    pub transfers: Seq<DeployHash>,
    /// The payment gas of the chosen wasm deploys.
    pub gas: int,
    /// The size in bytes of the chosen wasm deploys.
    pub size: int,
    /// Whether the walk has ended early.
    pub stopped: bool,
}

impl SelectionRules {
    /// Whether a finalized block is known to hold the deploy, with or without its header.
    pub open spec fn knows_finalized(self, hash: DeployHash) -> bool {
        self.finalized.contains(hash) || self.unhandled_finalized.contains(hash)
    }

    /// Whether every dependency of the header is in an ancestor or in a finalized block.
    pub open spec fn dependencies_resolved(self, header: DeployHeader) -> bool {
        forall|i: int|
            0 <= i < header.dependencies@.len() ==> {
                ||| self.past_deploys.contains(#[trigger] header.dependencies@[i])
                ||| self.knows_finalized(header.dependencies@[i])
            }
    }

    /// Whether the deploy may go into the block at all.
    pub open spec fn deploy_is_valid(self, header: DeployHeader) -> bool {
        header.is_valid_at(self.config, self.block_timestamp) && self.dependencies_resolved(header)
    }

    /// Whether the deploy is passed over whatever room is left.
    pub open spec fn passes_over(self, hash: DeployHash, deploy: DeployType) -> bool {
        ||| !self.deploy_is_valid(deploy.spec_header())
        ||| self.past_deploys.contains(hash)
        ||| self.finalized.contains(hash)
    }

    pub open spec fn at_max_transfers(self, sel: Selection) -> bool {
        sel.transfers.len() == self.config.block_max_transfer_count
    }

    /// No more wasm: the count is reached, or a wasm deploy meets a block that has less than
    /// the least deploy size left.
    pub open spec fn at_max_deploys(self, sel: Selection, deploy: DeployType) -> bool {
        ||| sel.wasm.len() == self.config.block_max_deploy_count
        ||| (deploy is Wasm && sel.size + DEPLOY_APPROX_MIN_SIZE >= self.config.max_block_size)
    }

    /// Whether a wasm deploy fits into what is left of the block's size and gas. The gas of a
    /// deploy is its payment divided by its gas price; a price of zero fits nowhere.
    pub open spec fn wasm_fits(self, sel: Selection, deploy: DeployType) -> bool {
        &&& sel.size + deploy.spec_size() <= self.config.max_block_size
        &&& deploy.spec_header().gas_price != 0
        &&& sel.gas + payment_gas(deploy) <= self.config.block_gas_limit
    }

    /// The selection after one more pending deploy was looked at.
    pub open spec fn step(self, sel: Selection, hash: DeployHash, deploy: DeployType) -> Selection {
        if self.at_max_deploys(sel, deploy) && self.at_max_transfers(sel) {
            Selection { stopped: true, ..sel }
        } else if self.passes_over(hash, deploy) {
            sel
        } else if deploy is Transfer && !self.at_max_transfers(sel) {
            Selection { transfers: sel.transfers.push(hash), ..sel }
        } else if deploy is Wasm && !self.at_max_deploys(sel, deploy) && self.wasm_fits(
            sel,
            deploy,
        ) {
            Selection {
                wasm: sel.wasm.push(hash),
                gas: sel.gas + payment_gas(deploy),
                size: sel.size + deploy.spec_size(),
                ..sel
            }
        } else {
            sel
        }
    }

    /// The selection after the first `n` pending deploys were looked at.
    pub open spec fn select(self, pending: Seq<(DeployHash, DeployType)>, n: nat) -> Selection
        decreases n,
    {
        if n == 0 {
            Selection { wasm: Seq::empty(), transfers: Seq::empty(), gas: 0, size: 0, stopped: false }
        } else {
            let before = self.select(pending, (n - 1) as nat);
            if before.stopped {
                before
            } else {
                self.step(before, pending[n - 1].0, pending[n - 1].1)
            }
        }
    }

    /// The selection from all the pending deploys.
    pub open spec fn select_all(self, pending: Seq<(DeployHash, DeployType)>) -> Selection {
        self.select(pending, pending.len())
    }
}

/// The payment of a deploy in gas, for a header with a gas price other than zero.
pub open spec fn payment_gas(deploy: DeployType) -> int {
    deploy.spec_payment_amount().value() / (deploy.spec_header().gas_price as int)
}

/// Once the walk has ended, looking at more deploys changes nothing.
pub proof fn lemma_stopped_stays(
    rules: SelectionRules,
    pending: Seq<(DeployHash, DeployType)>,
    n: nat,
    m: nat,
)
    requires
        n <= m,
        rules.select(pending, n).stopped,
    ensures
        rules.select(pending, m) == rules.select(pending, n),
    decreases m,
{
    if n < m {
        lemma_stopped_stays(rules, pending, n, (m - 1) as nat);
    }
}

/// A selection keeps within every limit of the block, and holds pending deploys only.
pub proof fn lemma_selection_within_limits(
    rules: SelectionRules,
    pending: Seq<(DeployHash, DeployType)>,
    n: nat,
)
    requires
        n <= pending.len(),
    ensures
        ({
            let sel = rules.select(pending, n);
            &&& sel.transfers.len() <= rules.config.block_max_transfer_count
            &&& sel.wasm.len() <= rules.config.block_max_deploy_count
            &&& 0 <= sel.size <= rules.config.max_block_size
            &&& 0 <= sel.gas <= rules.config.block_gas_limit
            &&& forall|i: int|
                0 <= i < sel.wasm.len() ==> crate::keyed::has_key(pending, #[trigger] sel.wasm[i])
                    && !rules.past_deploys.contains(sel.wasm[i]) && !rules.finalized.contains(
                    sel.wasm[i],
                )
            &&& forall|i: int|
                0 <= i < sel.transfers.len() ==> crate::keyed::has_key(
                    pending,
                    #[trigger] sel.transfers[i],
                ) && !rules.past_deploys.contains(sel.transfers[i]) && !rules.finalized.contains(
                    sel.transfers[i],
                )
        }),
    decreases n,
{
    if n > 0 {
        lemma_selection_within_limits(rules, pending, (n - 1) as nat);
        let before = rules.select(pending, (n - 1) as nat);
        let sel = rules.select(pending, n);
        let entry = pending[n - 1];
        assert(crate::keyed::has_key(pending, entry.0));
        if !before.stopped && entry.1.spec_header().gas_price != 0 {
            lemma_payment_gas_sign(entry.1);
        }
    }
}

/// The gas of a payment is never negative.
pub proof fn lemma_payment_gas_sign(deploy: DeployType)
    requires
        deploy.spec_header().gas_price != 0,
    ensures
        payment_gas(deploy) >= 0,
{
    crate::uint512::lemma_value_bounds(deploy.spec_payment_amount().limbs@);
    let v = deploy.spec_payment_amount().value();
    let p = deploy.spec_header().gas_price as int;
    assert(v / p >= 0) by (nonlinear_arith)
        requires
            v >= 0,
            p > 0,
    {
    }
}

} // verus!

verus! {

/// The hashes of a list of pending deploys, in their order.
pub open spec fn hashes_of(pending: Seq<(DeployHash, DeployType)>) -> Seq<DeployHash> {
    Seq::new(pending.len(), |i: int| pending[i].0)
}

/// Whether the entries of `a` occur in `b` in the same order.
pub open spec fn in_order_of(a: Seq<DeployHash>, b: Seq<DeployHash>) -> bool
    decreases b.len(),
{
    if a.len() == 0 {
        true
    } else if b.len() == 0 {
        false
    } else {
        (a.last() == b.last() && in_order_of(a.drop_last(), b.drop_last())) || in_order_of(
            a,
            b.drop_last(),
        )
    }
}

/// The chosen deploys stand in the block in the order in which they were pending.
pub proof fn lemma_selection_keeps_order(
    rules: SelectionRules,
    pending: Seq<(DeployHash, DeployType)>,
    n: nat,
)
    requires
        n <= pending.len(),
    ensures
        in_order_of(rules.select(pending, n).wasm, hashes_of(pending.take(n as int))),
        in_order_of(rules.select(pending, n).transfers, hashes_of(pending.take(n as int))),
    decreases n,
{
    if n > 0 {
        lemma_selection_keeps_order(rules, pending, (n - 1) as nat);
        let before = rules.select(pending, (n - 1) as nat);
        let sel = rules.select(pending, n);
        let b = hashes_of(pending.take(n as int));
        assert(b.drop_last() =~= hashes_of(pending.take(n - 1)));
        assert(b.last() == pending[n - 1].0);
        if sel.wasm != before.wasm {
            assert(sel.wasm == before.wasm.push(pending[n - 1].0));
            assert(sel.wasm.drop_last() =~= before.wasm);
        }
        if sel.transfers != before.transfers {
            assert(sel.transfers == before.transfers.push(pending[n - 1].0));
            assert(sel.transfers.drop_last() =~= before.transfers);
        }
    }
}

} // verus!
