//! The core of a proof-of-stake node: a Highway consensus driver over a DAG of signed units,
//! and the block proposer that stages pending deploys for the next block.

pub mod time;
pub mod uint512;
pub mod keyed;
pub mod marked;
pub mod deploy;
pub mod deploy_sets;
pub mod selection;
pub mod block_proposer;
pub mod proposer_laws;
pub mod vertex;
pub mod validators;
pub mod state;
pub mod finality_detector;
pub mod round_success_meter;
pub mod message;
pub mod message_laws;
pub mod outcome;
pub mod synchronizer;
pub mod highway;
pub mod protocol;
pub mod protocol_laws;
