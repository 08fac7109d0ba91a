//! Deploys as the block proposer sees them: a hash, a header and a rough size.

use vstd::prelude::*;
use crate::time::{TimeDiff, Timestamp};
use crate::uint512::Uint512;

verus! {

/// The identifier of a deploy.
pub type DeployHash = u64;

/// The height of a block in the chain.
pub type BlockHeight = u64;

/// The limits a deploy and a block must keep.
#[derive(Clone, Copy, Debug)]
pub struct DeployConfig {
    /// The longest time to live a deploy may ask for.
    pub max_ttl: TimeDiff,
    /// The largest number of wasm deploys in a block.
    pub block_max_deploy_count: u32,
    /// The largest number of transfers in a block.
    pub block_max_transfer_count: u32,
    /// The largest total size in bytes of the wasm deploys in a block.
    pub max_block_size: u32,
    /// The largest total payment gas of the wasm deploys in a block.
    pub block_gas_limit: u64,
}

/// What the proposer needs to know of a deploy to judge it.
#[derive(Debug)]
pub struct DeployHeader {
    pub timestamp: Timestamp,
    pub ttl: TimeDiff,
    pub gas_price: u64,
    pub dependencies: Vec<DeployHash>,
}

impl DeployHeader {
    /// The last instant at which the deploy is alive.
    pub open spec fn expires(self) -> Timestamp {
        self.timestamp.plus(self.ttl)
    }

    /// Whether the time to live has run out at `now`.
    pub open spec fn is_expired(self, now: Timestamp) -> bool {
        self.expires().0 < now.0
    }

    /// Whether a block with the given timestamp may hold the deploy: its time to live is within
    /// the configured maximum, it was not made after the block, and it is still alive.
    pub open spec fn is_valid_at(self, config: DeployConfig, block_timestamp: Timestamp) -> bool {
        &&& self.ttl.0 <= config.max_ttl.0
        &&& self.timestamp.0 <= block_timestamp.0
        &&& !self.is_expired(block_timestamp)
    }

    pub fn new(
        timestamp: Timestamp,
        ttl: TimeDiff,
        gas_price: u64,
        dependencies: Vec<DeployHash>,
    ) -> (r: Self)
        ensures
            r.timestamp == timestamp,
            r.ttl == ttl,
            r.gas_price == gas_price,
            r.dependencies == dependencies,
    {
        DeployHeader { timestamp, ttl, gas_price, dependencies }
    }

    pub fn expired(&self, now: Timestamp) -> (r: bool)
        ensures
            r == self.is_expired(now),
    {
        self.timestamp.saturating_add(self.ttl).0 < now.0
    }

    pub fn is_valid(&self, config: &DeployConfig, block_timestamp: Timestamp) -> (r: bool)
        ensures
            r == self.is_valid_at(*config, block_timestamp),
    {
        self.ttl.0 <= config.max_ttl.0 && self.timestamp.0 <= block_timestamp.0 && !self.expired(
            block_timestamp,
        )
    }

    pub fn gas_price(&self) -> (r: u64)
        ensures
            r == self.gas_price,
    {
        self.gas_price
    }
}

/// A deploy with its class: a transfer moves tokens without wasm, anything else is wasm.
#[derive(Debug)]
pub enum DeployType {
    Transfer { header: DeployHeader, payment_amount: Uint512, size: usize },
    Wasm { header: DeployHeader, payment_amount: Uint512, size: usize },
}

impl DeployType {
    pub open spec fn spec_header(&self) -> DeployHeader {
        match *self {
            DeployType::Transfer { header, .. } => header,
            DeployType::Wasm { header, .. } => header,
        }
    }

    pub open spec fn spec_payment_amount(&self) -> Uint512 {
        match *self {
            DeployType::Transfer { payment_amount, .. } => payment_amount,
            DeployType::Wasm { payment_amount, .. } => payment_amount,
        }
    }

    pub open spec fn spec_size(&self) -> usize {
        match *self {
            DeployType::Transfer { size, .. } => size,
            DeployType::Wasm { size, .. } => size,
        }
    }

    pub open spec fn spec_is_transfer(&self) -> bool {
        self is Transfer
    }

    pub open spec fn spec_is_wasm(&self) -> bool {
        self is Wasm
    }

    pub fn header(&self) -> (r: &DeployHeader)
        ensures
            *r == self.spec_header(),
    {
        match self {
            DeployType::Transfer { header, .. } => header,
            DeployType::Wasm { header, .. } => header,
        }
    }

    /// Gives up the deploy and keeps its header.
    pub fn take_header(self) -> (r: DeployHeader)
        ensures
            r == self.spec_header(),
    {
        match self {
            DeployType::Transfer { header, .. } => header,
            DeployType::Wasm { header, .. } => header,
        }
    }

    #[verifier::when_used_as_spec(spec_payment_amount)]
    pub fn payment_amount(&self) -> (r: Uint512)
        ensures
            r == self.spec_payment_amount(),
    {
        match self {
            DeployType::Transfer { payment_amount, .. } => *payment_amount,
            DeployType::Wasm { payment_amount, .. } => *payment_amount,
        }
    }

    /// The approximate size in bytes.
    #[verifier::when_used_as_spec(spec_size)]
    pub fn size(&self) -> (r: usize)
        ensures
            r == self.spec_size(),
    {
        match self {
            DeployType::Transfer { size, .. } => *size,
            DeployType::Wasm { size, .. } => *size,
        }
    }

    #[verifier::when_used_as_spec(spec_is_transfer)]
    pub fn is_transfer(&self) -> (r: bool)
        ensures
            r == self.spec_is_transfer(),
    {
        match self {
            DeployType::Transfer { .. } => true,
            DeployType::Wasm { .. } => false,
        }
    }

    #[verifier::when_used_as_spec(spec_is_wasm)]
    pub fn is_wasm(&self) -> (r: bool)
        ensures
            r == self.spec_is_wasm(),
    {
        match self {
            DeployType::Transfer { .. } => false,
            DeployType::Wasm { .. } => true,
        }
    }
}

/// The payload proposed for a block: the chosen deploys, a timestamp and a random bit.
#[derive(Debug)]
pub struct ProtoBlock {
    pub wasm_deploys: Vec<DeployHash>,
    pub transfers: Vec<DeployHash>,
    pub timestamp: Timestamp,
    pub random_bit: bool,
}

impl ProtoBlock {
    pub fn new(
        wasm_deploys: Vec<DeployHash>,
        transfers: Vec<DeployHash>,
        timestamp: Timestamp,
        random_bit: bool,
    ) -> (r: Self)
        ensures
            r.wasm_deploys == wasm_deploys,
            r.transfers == transfers,
            r.timestamp == timestamp,
            r.random_bit == random_bit,
    {
        ProtoBlock { wasm_deploys, transfers, timestamp, random_bit }
    }

    /// The deploys of the block, wasm first, then transfers.
    pub open spec fn all_deploys(self) -> Seq<DeployHash> {
        self.wasm_deploys@ + self.transfers@
    }

    /// Takes the block apart into timestamp, wasm deploys, transfers and random bit.
    pub fn destructure(self) -> (r: (Timestamp, Vec<DeployHash>, Vec<DeployHash>, bool))
        ensures
            r.0 == self.timestamp,
            r.1 == self.wasm_deploys,
            r.2 == self.transfers,
            r.3 == self.random_bit,
    {
        (self.timestamp, self.wasm_deploys, self.transfers, self.random_bit)
    }
}

} // verus!
