//! A stake-weighted consensus simulator with verified scoring, proposer
//! selection and round sequencing, plus two small account ledgers.
//!
//! Scores are fixed-point (see `scoring`): the formula's coefficients are
//! exact and every update saturates at the ends of `i64`.

pub mod block;
pub mod bridge;
pub mod evm;
pub mod laws;
pub mod ledger;
pub mod network;
mod random;
pub mod scoring;
pub mod validator;

pub use block::{Block, ConsensusError};
pub use bridge::{BridgeEngine, BridgeService};
pub use evm::{BasicEvmExecutor, EvmExecutor};
pub use network::Network;
pub use scoring::{ScoringConfig, SCORE_UNIT};
pub use validator::{ConsensusEngine, PosygDcsEngine};
