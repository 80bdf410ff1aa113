use vstd::prelude::*;

use crate::address::{copy_addresses, copy_ids, Address};

verus! {

/// Seconds for which a proposal stays open after it is made (seven days).
pub const PROPOSAL_TTL_SECONDS: u64 = 604_800;

/// The protocol-wide lending parameters that governance controls.
#[derive(Clone, Copy, Debug, PartialEq, Eq, Structural)]
pub struct ProtocolParameters {
    pub min_guarantee_percent: i128,
    pub min_reputation_threshold: u32,
    pub full_repayment_reward: u32,
    pub default_penalty: u32,
    pub large_loan_threshold: i128,
    pub large_loan_default_penalty: u32,
    pub base_interest_bps: u32,
    pub grace_period_seconds: u64,
    pub upgrade_delay_seconds: u64,
}

/// Parameters are accepted when the guarantee percentage lies in `1..=100`
/// and the large-loan threshold is positive.
pub open spec fn valid_parameters(p: ProtocolParameters) -> bool {
    &&& 0 < p.min_guarantee_percent <= 100
    &&& p.large_loan_threshold > 0
}

/// The values installed by `initialize_defaults`.
pub open spec fn spec_default_parameters() -> ProtocolParameters {
    ProtocolParameters {
        min_guarantee_percent: 20,
        min_reputation_threshold: 50,
        full_repayment_reward: 10,
        default_penalty: 20,
        large_loan_threshold: 5_000,
        large_loan_default_penalty: 30,
        base_interest_bps: 500,
        grace_period_seconds: 259_200,
        upgrade_delay_seconds: 86_400,
    }
}

/// The default protocol parameters.
pub fn default_parameters() -> (p: ProtocolParameters)
    ensures
        p == spec_default_parameters(),
        valid_parameters(p),
{
    ProtocolParameters {
        min_guarantee_percent: 20,
        min_reputation_threshold: 50,
        full_repayment_reward: 10,
        default_penalty: 20,
        large_loan_threshold: 5_000,
        large_loan_default_penalty: 30,
        base_interest_bps: 500,
        grace_period_seconds: 259_200,
        upgrade_delay_seconds: 86_400,
    }
}

/// The governance committee: its members and how many of them must approve.
#[derive(Debug)]
pub struct MultisigConfig {
    pub signers: Vec<Address>,
    pub threshold: u32,
}

/// What a committee is, as values.
pub struct MultisigModel {
    pub signers: Seq<Address>,
    pub threshold: u32,
}

impl View for MultisigConfig {
    type V = MultisigModel;

    open spec fn view(&self) -> MultisigModel {
        MultisigModel { signers: self.signers@, threshold: self.threshold }
    }
}

/// A committee is accepted when it has no member twice and its threshold
/// lies between two and the number of members. Its size fits the `u32`
/// length of a host vector.
pub open spec fn valid_multisig(c: MultisigModel) -> bool {
    &&& 2 <= c.threshold
    &&& c.threshold <= c.signers.len()
    &&& c.signers.no_duplicates()
    &&& c.signers.len() <= u32::MAX
}

impl Clone for MultisigConfig {
    fn clone(&self) -> (r: Self)
        ensures
            r@ == self@,
    {
        MultisigConfig { signers: copy_addresses(&self.signers), threshold: self.threshold }
    }
}

/// What a proposal asks governance to do.
#[derive(Debug)]
pub enum ProposalAction {
    UpdateParameters(ProtocolParameters),
    SetAdmin(Address),
    Upgrade([u8; 32]),
    UpdateSigners(MultisigConfig),
}

/// A proposal's action, as values.
pub enum ActionModel {
    UpdateParameters(ProtocolParameters),
    SetAdmin(Address),
    Upgrade([u8; 32]),
    UpdateSigners(MultisigModel),
}

impl View for ProposalAction {
    type V = ActionModel;

    open spec fn view(&self) -> ActionModel {
        match self {
            ProposalAction::UpdateParameters(p) => ActionModel::UpdateParameters(*p),
            ProposalAction::SetAdmin(a) => ActionModel::SetAdmin(*a),
            ProposalAction::Upgrade(h) => ActionModel::Upgrade(*h),
            ProposalAction::UpdateSigners(c) => ActionModel::UpdateSigners(c@),
        }
    }
}

impl Clone for ProposalAction {
    fn clone(&self) -> (r: Self)
        ensures
            r@ == self@,
    {
        match self {
            ProposalAction::UpdateParameters(p) => ProposalAction::UpdateParameters(*p),
            ProposalAction::SetAdmin(a) => ProposalAction::SetAdmin(*a),
            ProposalAction::Upgrade(h) => ProposalAction::Upgrade(*h),
            ProposalAction::UpdateSigners(c) => ProposalAction::UpdateSigners(c.clone()),
        }
    }
}

/// The checks that `propose` makes on an action: parameters must be valid
/// and a new committee must be acceptable.
pub open spec fn valid_action(a: ActionModel) -> bool {
    match a {
        ActionModel::UpdateParameters(p) => valid_parameters(p),
        ActionModel::UpdateSigners(c) => valid_multisig(c),
        _ => true,
    }
}

/// A committee carried by an action fits the `u32` length of a host vector.
pub open spec fn action_within_host_limits(a: ActionModel) -> bool {
    a matches ActionModel::UpdateSigners(c) ==> c.signers.len() <= u32::MAX
}

/// Whether an action changes the committee.
pub open spec fn targets_signers(a: ActionModel) -> bool {
    a is UpdateSigners
}

/// A governance proposal and the approvals it has collected.
#[derive(Debug)]
pub struct Proposal {
    pub id: u64,
    pub action: ProposalAction,
    pub proposer: Address,
    pub approvals: Vec<Address>,
    /// For each approval, how many committee removals had been recorded when
    /// it was given: an approver removed by a later committee change shows up
    /// in the removal record past this point.
    pub approval_checkpoints: Vec<u64>,
    /// The committee at the time the proposal was made.
    pub eligible_signers: Vec<Address>,
    pub created_at: u64,
    pub expires_at: u64,
    pub executed: bool,
    pub invalidated: bool,
}

/// A proposal, as values.
pub struct ProposalModel {
    pub id: u64,
    pub action: ActionModel,
    pub proposer: Address,
    pub approvals: Seq<Address>,
    pub approval_checkpoints: Seq<u64>,
    pub eligible_signers: Seq<Address>,
    pub created_at: u64,
    pub expires_at: u64,
    pub executed: bool,
    pub invalidated: bool,
}

impl View for Proposal {
    type V = ProposalModel;

    open spec fn view(&self) -> ProposalModel {
        ProposalModel {
            id: self.id,
            action: self.action@,
            proposer: self.proposer,
            approvals: self.approvals@,
            approval_checkpoints: self.approval_checkpoints@,
            eligible_signers: self.eligible_signers@,
            created_at: self.created_at,
            expires_at: self.expires_at,
            executed: self.executed,
            invalidated: self.invalidated,
        }
    }
}

impl Clone for Proposal {
    fn clone(&self) -> (r: Self)
        ensures
            r@ == self@,
    {
        Proposal {
            id: self.id,
            action: self.action.clone(),
            proposer: self.proposer,
            approvals: copy_addresses(&self.approvals),
            approval_checkpoints: copy_ids(&self.approval_checkpoints),
            eligible_signers: copy_addresses(&self.eligible_signers),
            created_at: self.created_at,
            expires_at: self.expires_at,
            executed: self.executed,
            invalidated: self.invalidated,
        }
    }
}

/// Whether a proposal can still collect approvals or be executed at `now`.
pub open spec fn in_flight(p: ProposalModel, now: u64) -> bool {
    !p.executed && !p.invalidated && now <= p.expires_at
}

} // verus!
