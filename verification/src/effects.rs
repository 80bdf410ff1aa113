use vstd::prelude::*;

use crate::address::Address;
use crate::types::{MultisigConfig, MultisigModel, ProtocolParameters};

verus! {

/// Something a call asks the host to do once it has succeeded: publish an
/// event, or replace the contract's code.
#[derive(Debug)]
pub enum HostEffect {
    ParametersUpdated { admin: Address, params: ProtocolParameters },
    MultisigPending { admin: Address, config: MultisigConfig },
    MultisigConfigured { threshold: u32, signer_count: u32 },
    MultisigPendingCancelled { admin: Address },
    ProposalCreated { id: u64, proposer: Address },
    ProposalApproved { id: u64, signer: Address, approvals: u32 },
    ProposalExecuted { id: u64 },
    ProposalInvalidated { id: u64 },
    AdminUpdated { old_admin: Address, new_admin: Address },
    ContractUpgraded { old_version: u32, new_version: u32 },
    UpdateContractWasm { wasm_hash: [u8; 32] },
}

/// A host effect, as values.
pub enum EffectModel {
    ParametersUpdated { admin: Address, params: ProtocolParameters },
    MultisigPending { admin: Address, config: MultisigModel },
    MultisigConfigured { threshold: u32, signer_count: u32 },
    MultisigPendingCancelled { admin: Address },
    ProposalCreated { id: u64, proposer: Address },
    ProposalApproved { id: u64, signer: Address, approvals: u32 },
    ProposalExecuted { id: u64 },
    ProposalInvalidated { id: u64 },
    AdminUpdated { old_admin: Address, new_admin: Address },
    ContractUpgraded { old_version: u32, new_version: u32 },
    UpdateContractWasm { wasm_hash: [u8; 32] },
}

impl View for HostEffect {
    type V = EffectModel;

    open spec fn view(&self) -> EffectModel {
        match self {
            HostEffect::ParametersUpdated { admin, params } => EffectModel::ParametersUpdated {
                admin: *admin,
                params: *params,
            },
            HostEffect::MultisigPending { admin, config } => EffectModel::MultisigPending {
                admin: *admin,
                config: config@,
            },
            HostEffect::MultisigConfigured { threshold, signer_count } =>
                EffectModel::MultisigConfigured { threshold: *threshold, signer_count: *signer_count },
            HostEffect::MultisigPendingCancelled { admin } => EffectModel::MultisigPendingCancelled {
                admin: *admin,
            },
            HostEffect::ProposalCreated { id, proposer } => EffectModel::ProposalCreated {
                id: *id,
                proposer: *proposer,
            },
            HostEffect::ProposalApproved { id, signer, approvals } => EffectModel::ProposalApproved {
                id: *id,
                signer: *signer,
                approvals: *approvals,
            },
            HostEffect::ProposalExecuted { id } => EffectModel::ProposalExecuted { id: *id },
            HostEffect::ProposalInvalidated { id } => EffectModel::ProposalInvalidated { id: *id },
            HostEffect::AdminUpdated { old_admin, new_admin } => EffectModel::AdminUpdated {
                old_admin: *old_admin,
                new_admin: *new_admin,
            },
            HostEffect::ContractUpgraded { old_version, new_version } =>
                EffectModel::ContractUpgraded { old_version: *old_version, new_version: *new_version },
            HostEffect::UpdateContractWasm { wasm_hash } => EffectModel::UpdateContractWasm {
                wasm_hash: *wasm_hash,
            },
        }
    }
}

/// The effects of a call, as values, in the order the host performs them.
pub open spec fn effects_view(effects: Seq<HostEffect>) -> Seq<EffectModel> {
    effects.map_values(|e: HostEffect| e@)
}

} // verus!
