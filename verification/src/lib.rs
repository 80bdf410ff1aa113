//! Governance state machine of the protocol-parameters contract: multisig
//! configuration, proposals, approvals and execution, together with the
//! value types shared with the liquidity pool.

pub mod address;
pub mod errors;
pub mod types;
pub mod effects;
pub mod model;
pub mod contract;
pub mod pool_types;
pub mod laws;

pub use contract::ParametersContract;
pub use errors::ParametersError;
pub use types::{default_parameters, MultisigConfig, Proposal, ProposalAction, ProtocolParameters};
