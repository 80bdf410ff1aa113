use vstd::prelude::*;

use crate::address::Address;
use crate::effects::EffectModel;
use crate::errors::ParametersError;
use crate::types::{
    in_flight, targets_signers, valid_action, valid_multisig, valid_parameters, ActionModel,
    MultisigModel, ProposalModel, ProtocolParameters, PROPOSAL_TTL_SECONDS,
};

verus! {

/// Everything the contract stores, as values.
pub struct ContractModel {
    pub admin: Option<Address>,
    pub parameters: Option<ProtocolParameters>,
    pub multisig: Option<MultisigModel>,
    pub pending_multisig: Option<MultisigModel>,
    /// Slot `i` holds proposal `i`, or nothing once it was cleared. The
    /// number of slots is the number of proposals ever made.
    pub proposals: Seq<Option<ProposalModel>>,
    /// The ids of proposals that may still be in flight.
    pub active_proposals: Seq<u64>,
    pub version: Option<u32>,
    pub reentrancy_locked: bool,
    /// Every signer that a committee change removed, in the order of the
    /// changes.
    pub removed_signers: Seq<Address>,
}

/// The proposal in slot `id`, if there is one.
pub open spec fn slot(proposals: Seq<Option<ProposalModel>>, id: u64) -> Option<ProposalModel> {
    if id < proposals.len() {
        proposals[id as int]
    } else {
        None
    }
}

/// The stored proposal with this id.
pub open spec fn lookup(m: ContractModel, id: u64) -> Option<ProposalModel> {
    slot(m.proposals, id)
}

/// Every approval is distinct and comes from the committee the proposal was
/// made under.
pub open spec fn approvals_consistent(p: ProposalModel) -> bool {
    &&& p.approvals.no_duplicates()
    &&& forall|k: int|
        0 <= k < p.approvals.len() ==> p.eligible_signers.contains(#[trigger] p.approvals[k])
}

/// The proposer is the first approval, and every approval has a checkpoint
/// no later than the removals recorded so far.
pub open spec fn approvals_recorded(p: ProposalModel, recorded: int) -> bool {
    &&& p.approvals.len() >= 1
    &&& p.approvals[0] == p.proposer
    &&& p.approval_checkpoints.len() == p.approvals.len()
    &&& forall|k: int|
        0 <= k < p.approval_checkpoints.len() ==> #[trigger] p.approval_checkpoints[k] <= recorded
}

pub open spec fn proposal_wf(p: ProposalModel, id: int, recorded: int) -> bool {
    &&& p.id == id
    &&& valid_action(p.action)
    &&& p.eligible_signers.len() <= u32::MAX
    &&& approvals_consistent(p)
    &&& approvals_recorded(p, recorded)
}

/// What holds of the stored state between calls.
pub open spec fn model_wf(m: ContractModel) -> bool {
    &&& !m.reentrancy_locked
    &&& (m.parameters matches Some(p) ==> valid_parameters(p))
    &&& (m.multisig matches Some(c) ==> valid_multisig(c) && m.admin is Some)
    &&& (m.pending_multisig matches Some(c) ==> valid_multisig(c) && m.admin is Some)
    &&& m.proposals.len() <= u64::MAX
    &&& forall|i: int|
        0 <= i < m.proposals.len() && (#[trigger] m.proposals[i]) is Some ==> proposal_wf(
            m.proposals[i]->0,
            i,
            m.removed_signers.len() as int,
        )
    &&& m.removed_signers.len() <= u64::MAX
    &&& m.active_proposals.no_duplicates()
    &&& forall|k: int|
        0 <= k < m.active_proposals.len() ==> #[trigger] m.active_proposals[k] < m.proposals.len()
}

/// Whether a result is the failure `expected` names, or a success when it
/// names none.
pub open spec fn outcome<T>(r: Result<T, ParametersError>, expected: Option<ParametersError>) -> bool {
    match r {
        Ok(_) => expected is None,
        Err(e) => expected == Some(e),
    }
}

// ---------------------------------------------------------------- checks

pub open spec fn admin_error(m: ContractModel, caller: Address) -> Option<ParametersError> {
    match m.admin {
        None => Some(ParametersError::NotInitialized),
        Some(a) => if a != caller {
            Some(ParametersError::NotAdmin)
        } else {
            None
        },
    }
}

pub open spec fn signer_error(m: ContractModel, caller: Address) -> Option<ParametersError> {
    match m.multisig {
        None => Some(ParametersError::MultisigNotConfigured),
        Some(c) => if !c.signers.contains(caller) {
            Some(ParametersError::NotSigner)
        } else {
            None
        },
    }
}

pub open spec fn parameters_error(p: ProtocolParameters) -> Option<ParametersError> {
    if valid_parameters(p) {
        None
    } else {
        Some(ParametersError::InvalidParameters)
    }
}

pub open spec fn multisig_error(c: MultisigModel) -> Option<ParametersError> {
    if c.threshold < 2 || c.threshold > c.signers.len() {
        Some(ParametersError::InvalidThreshold)
    } else if !c.signers.no_duplicates() {
        Some(ParametersError::DuplicateSigner)
    } else {
        None
    }
}

pub open spec fn action_error(a: ActionModel) -> Option<ParametersError> {
    match a {
        ActionModel::UpdateParameters(p) => parameters_error(p),
        ActionModel::UpdateSigners(c) => multisig_error(c),
        _ => None,
    }
}

/// The quorum needed to change the committee: one more than the threshold,
/// but never more than the number of members.
pub open spec fn spec_elevated_quorum(c: MultisigModel) -> u32 {
    let n = c.signers.len() as u32;
    let raised = if c.threshold < u32::MAX {
        (c.threshold + 1) as u32
    } else {
        n
    };
    if raised <= n {
        raised
    } else {
        n
    }
}

/// The approvals a proposal needs before it can be executed.
pub open spec fn required_quorum(a: ActionModel, c: MultisigModel) -> u32 {
    if targets_signers(a) {
        spec_elevated_quorum(c)
    } else {
        c.threshold
    }
}

/// `a` was removed by a committee change recorded after the first
/// `checkpoint` removals.
pub open spec fn removed_since(removed: Seq<Address>, a: Address, checkpoint: u64) -> bool {
    exists|j: int| checkpoint <= j < removed.len() && removed[j] == a
}

/// Approval `k` no longer counts: its signer was not in the committee when
/// the proposal was made, is not in the committee now, or was removed by a
/// committee change after approving, even if admitted again since.
pub open spec fn approval_is_stale(
    p: ProposalModel,
    c: MultisigModel,
    removed: Seq<Address>,
    k: int,
) -> bool {
    ||| !p.eligible_signers.contains(p.approvals[k])
    ||| !c.signers.contains(p.approvals[k])
    ||| removed_since(removed, p.approvals[k], p.approval_checkpoints[k])
}

/// Some approval no longer counts.
pub open spec fn has_stale_approval(p: ProposalModel, c: MultisigModel, removed: Seq<Address>) -> bool {
    exists|k: int| 0 <= k < p.approvals.len() && #[trigger] approval_is_stale(p, c, removed, k)
}

// ---------------------------------------------------------------- initialize

pub open spec fn initialize_error(m: ContractModel, params: ProtocolParameters) -> Option<
    ParametersError,
> {
    if m.admin is Some {
        Some(ParametersError::AlreadyInitialized)
    } else {
        parameters_error(params)
    }
}

pub open spec fn after_initialize(
    m: ContractModel,
    admin: Address,
    params: ProtocolParameters,
) -> ContractModel {
    ContractModel { admin: Some(admin), parameters: Some(params), ..m }
}

// ---------------------------------------------------------------- committee set-up

pub open spec fn configure_multisig_error(
    m: ContractModel,
    admin: Address,
    c: MultisigModel,
) -> Option<ParametersError> {
    if admin_error(m, admin) is Some {
        admin_error(m, admin)
    } else if m.multisig is Some {
        Some(ParametersError::MultisigAlreadyConfigured)
    } else if m.pending_multisig is Some {
        Some(ParametersError::MultisigPendingExists)
    } else {
        multisig_error(c)
    }
}

pub open spec fn confirm_multisig_error(m: ContractModel, admin: Address) -> Option<ParametersError> {
    if admin_error(m, admin) is Some {
        admin_error(m, admin)
    } else if m.multisig is Some {
        Some(ParametersError::MultisigAlreadyConfigured)
    } else if m.pending_multisig is None {
        Some(ParametersError::MultisigNotPending)
    } else {
        None
    }
}

pub open spec fn cancel_pending_error(m: ContractModel, admin: Address) -> Option<ParametersError> {
    if admin_error(m, admin) is Some {
        admin_error(m, admin)
    } else if m.pending_multisig is None {
        Some(ParametersError::MultisigNotPending)
    } else {
        None
    }
}

pub open spec fn with_lock(m: ContractModel, locked: bool) -> ContractModel {
    ContractModel { reentrancy_locked: locked, ..m }
}

pub open spec fn committee(signers: Seq<Address>, threshold: u32) -> MultisigModel {
    MultisigModel { signers, threshold }
}

pub open spec fn after_configure(m: ContractModel, c: MultisigModel) -> ContractModel {
    ContractModel { pending_multisig: Some(c), ..m }
}

pub open spec fn after_confirm(m: ContractModel) -> ContractModel {
    ContractModel { multisig: m.pending_multisig, pending_multisig: None, ..m }
}

pub open spec fn after_cancel(m: ContractModel) -> ContractModel {
    ContractModel { pending_multisig: None, ..m }
}

pub open spec fn staged_event(admin: Address, c: MultisigModel) -> EffectModel {
    EffectModel::MultisigPending { admin, config: c }
}

pub open spec fn configured_event(c: MultisigModel) -> EffectModel {
    EffectModel::MultisigConfigured { threshold: c.threshold, signer_count: c.signers.len() as u32 }
}

/// Every proposal slot emptied and nothing in flight.
pub open spec fn after_clear(m: ContractModel) -> ContractModel {
    ContractModel {
        proposals: Seq::new(m.proposals.len(), |i: int| None::<ProposalModel>),
        active_proposals: Seq::<u64>::empty(),
        ..m
    }
}

// ---------------------------------------------------------------- propose

pub open spec fn propose_error(
    m: ContractModel,
    proposer: Address,
    action: ActionModel,
    now: u64,
) -> Option<ParametersError> {
    if signer_error(m, proposer) is Some {
        signer_error(m, proposer)
    } else if action_error(action) is Some {
        action_error(action)
    } else if now + PROPOSAL_TTL_SECONDS > u64::MAX {
        Some(ParametersError::Overflow)
    } else {
        None
    }
}

/// The proposal `propose` records: the proposer is its first approval and
/// the current committee its eligible signers.
pub open spec fn new_proposal(
    m: ContractModel,
    proposer: Address,
    action: ActionModel,
    now: u64,
) -> ProposalModel {
    ProposalModel {
        id: m.proposals.len() as u64,
        action,
        proposer,
        approvals: seq![proposer],
        approval_checkpoints: seq![m.removed_signers.len() as u64],
        eligible_signers: (m.multisig->0).signers,
        created_at: now,
        expires_at: (now + PROPOSAL_TTL_SECONDS) as u64,
        executed: false,
        invalidated: false,
    }
}

pub open spec fn after_propose(
    m: ContractModel,
    proposer: Address,
    action: ActionModel,
    now: u64,
) -> ContractModel {
    ContractModel {
        proposals: m.proposals.push(Some(new_proposal(m, proposer, action, now))),
        active_proposals: m.active_proposals.push(m.proposals.len() as u64),
        ..m
    }
}

pub open spec fn created_event(id: u64, proposer: Address) -> EffectModel {
    EffectModel::ProposalCreated { id, proposer }
}

// ---------------------------------------------------------------- approve

pub open spec fn approve_error(m: ContractModel, signer: Address, id: u64, now: u64) -> Option<
    ParametersError,
> {
    if signer_error(m, signer) is Some {
        signer_error(m, signer)
    } else {
        match lookup(m, id) {
            None => Some(ParametersError::ProposalNotFound),
            Some(p) => if p.invalidated {
                Some(ParametersError::ProposalInvalidated)
            } else if p.executed {
                Some(ParametersError::ProposalAlreadyExecuted)
            } else if now > p.expires_at {
                Some(ParametersError::ProposalExpired)
            } else if p.approvals.contains(signer) {
                Some(ParametersError::DuplicateSignature)
            } else if !p.eligible_signers.contains(signer) {
                Some(ParametersError::NotEligibleSigner)
            } else {
                None
            },
        }
    }
}

pub open spec fn after_approve(m: ContractModel, signer: Address, id: u64) -> ContractModel {
    let p = lookup(m, id)->0;
    ContractModel {
        proposals: m.proposals.update(
            id as int,
            Some(
                ProposalModel {
                    approvals: p.approvals.push(signer),
                    approval_checkpoints: p.approval_checkpoints.push(
                        m.removed_signers.len() as u64,
                    ),
                    ..p
                },
            ),
        ),
        ..m
    }
}

pub open spec fn approved_event(m: ContractModel, signer: Address, id: u64) -> EffectModel {
    EffectModel::ProposalApproved {
        id,
        signer,
        approvals: ((lookup(m, id)->0).approvals.len() + 1) as u32,
    }
}

// ---------------------------------------------------------------- execute

pub open spec fn execute_error(m: ContractModel, id: u64, now: u64) -> Option<ParametersError> {
    match lookup(m, id) {
        None => Some(ParametersError::ProposalNotFound),
        Some(p) => if p.invalidated {
            Some(ParametersError::ProposalInvalidated)
        } else if p.executed {
            Some(ParametersError::ProposalAlreadyExecuted)
        } else if now > p.expires_at {
            Some(ParametersError::ProposalExpired)
        } else {
            match m.multisig {
                None => Some(ParametersError::MultisigNotConfigured),
                Some(c) => if has_stale_approval(p, c, m.removed_signers) {
                    Some(ParametersError::StaleApproval)
                } else if p.approvals.len() < required_quorum(p.action, c) {
                    if targets_signers(p.action) {
                        Some(ParametersError::ElevatedQuorumNotMet)
                    } else {
                        Some(ParametersError::ThresholdNotMet)
                    }
                } else {
                    None
                },
            }
        },
    }
}

/// The proposal is recorded as executed before its action runs.
pub open spec fn mark_executed(m: ContractModel, id: u64) -> ContractModel {
    let p = lookup(m, id)->0;
    ContractModel {
        proposals: m.proposals.update(id as int, Some(ProposalModel { executed: true, ..p })),
        ..m
    }
}

/// An in-flight proposal that changes the committee: a committee change
/// invalidates it.
pub open spec fn invalidates(proposals: Seq<Option<ProposalModel>>, id: u64, now: u64) -> bool {
    slot(proposals, id) matches Some(p) && in_flight(p, now) && targets_signers(p.action)
}

/// An in-flight proposal that leaves the committee alone: it stays active.
pub open spec fn stays_active(proposals: Seq<Option<ProposalModel>>, id: u64, now: u64) -> bool {
    slot(proposals, id) matches Some(p) && in_flight(p, now) && !targets_signers(p.action)
}

pub open spec fn invalidates_pred(proposals: Seq<Option<ProposalModel>>, now: u64) -> spec_fn(
    u64,
) -> bool {
    |id: u64| invalidates(proposals, id, now)
}

pub open spec fn stays_active_pred(proposals: Seq<Option<ProposalModel>>, now: u64) -> spec_fn(
    u64,
) -> bool {
    |id: u64| stays_active(proposals, id, now)
}

pub open spec fn other_than(id: u64) -> spec_fn(u64) -> bool {
    |x: u64| x != id
}

pub open spec fn invalidation_events(ids: Seq<u64>) -> Seq<EffectModel> {
    ids.map_values(|id: u64| EffectModel::ProposalInvalidated { id })
}

pub open spec fn invalidated_proposal(p: Option<ProposalModel>) -> Option<ProposalModel> {
    Some(ProposalModel { invalidated: true, ..p->0 })
}

/// After a committee change: every active proposal that targets the
/// committee is invalidated, and only the in-flight proposals that do not
/// stay in the active index.
pub open spec fn after_invalidation(m: ContractModel, now: u64) -> ContractModel {
    ContractModel {
        proposals: Seq::new(
            m.proposals.len(),
            |i: int|
                if m.active_proposals.contains(i as u64) && invalidates(m.proposals, i as u64, now) {
                    invalidated_proposal(m.proposals[i])
                } else {
                    m.proposals[i]
                },
        ),
        active_proposals: m.active_proposals.filter(stays_active_pred(m.proposals, now)),
        ..m
    }
}

pub open spec fn upgraded_version(m: ContractModel) -> u32 {
    let old = match m.version {
        Some(v) => v,
        None => 1u32,
    };
    if old < u32::MAX {
        (old + 1) as u32
    } else {
        old
    }
}

pub open spec fn current_version(m: ContractModel) -> u32 {
    match m.version {
        Some(v) => v,
        None => 1u32,
    }
}

/// The members of the active committee, none when there is no committee.
pub open spec fn committee_signers(m: ContractModel) -> Seq<Address> {
    match m.multisig {
        Some(c) => c.signers,
        None => Seq::empty(),
    }
}

pub open spec fn not_in(members: Seq<Address>) -> spec_fn(Address) -> bool {
    |a: Address| !members.contains(a)
}

/// Installing committee `c` records, in order, the members of the
/// committee it replaces that it leaves out.
pub open spec fn install_committee(m: ContractModel, c: MultisigModel) -> ContractModel {
    ContractModel {
        multisig: Some(c),
        removed_signers: m.removed_signers + committee_signers(m).filter(not_in(c.signers)),
        ..m
    }
}

/// The state after a proposal's action has run.
pub open spec fn after_action(m: ContractModel, action: ActionModel, now: u64) -> ContractModel {
    match action {
        ActionModel::UpdateParameters(p) => ContractModel { parameters: Some(p), ..m },
        ActionModel::SetAdmin(a) => ContractModel { admin: Some(a), ..m },
        ActionModel::Upgrade(_) => ContractModel { version: Some(upgraded_version(m)), ..m },
        ActionModel::UpdateSigners(c) => after_invalidation(install_committee(m, c), now),
    }
}

/// The effects of a proposal's action, in order.
pub open spec fn action_effects(m: ContractModel, action: ActionModel, now: u64) -> Seq<
    EffectModel,
> {
    match action {
        ActionModel::UpdateParameters(p) => seq![
            EffectModel::ParametersUpdated { admin: m.admin->0, params: p },
        ],
        ActionModel::SetAdmin(a) => seq![
            EffectModel::AdminUpdated { old_admin: m.admin->0, new_admin: a },
        ],
        ActionModel::Upgrade(h) => seq![
            EffectModel::UpdateContractWasm { wasm_hash: h },
            EffectModel::ContractUpgraded {
                old_version: current_version(m),
                new_version: upgraded_version(m),
            },
        ],
        ActionModel::UpdateSigners(c) => seq![configured_event(c)] + invalidation_events(
            m.active_proposals.filter(invalidates_pred(m.proposals, now)),
        ),
    }
}

pub open spec fn after_execute(m: ContractModel, id: u64, now: u64) -> ContractModel {
    let m1 = mark_executed(m, id);
    let m2 = after_action(m1, (lookup(m, id)->0).action, now);
    ContractModel { active_proposals: m2.active_proposals.filter(other_than(id)), ..m2 }
}

pub open spec fn execute_effects(m: ContractModel, id: u64, now: u64) -> Seq<EffectModel> {
    let m1 = mark_executed(m, id);
    action_effects(m1, (lookup(m, id)->0).action, now).push(
        EffectModel::ProposalExecuted { id },
    )
}

} // verus!
