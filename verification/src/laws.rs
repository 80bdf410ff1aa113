//! Properties of the governance state machine that span calls.
use vstd::prelude::*;

use crate::address::Address;
use crate::errors::ParametersError;
use crate::model::{
    after_approve, after_cancel, after_clear, after_confirm, after_configure, after_execute,
    after_initialize, after_propose, approve_error, cancel_pending_error, configure_multisig_error,
    confirm_multisig_error, current_version, execute_error, initialize_error, invalidates, lookup,
    model_wf, multisig_error, propose_error, signer_error, spec_elevated_quorum, upgraded_version,
    ContractModel, approval_is_stale, has_stale_approval, not_in, proposal_wf, removed_since,
};
use crate::types::{
    in_flight, targets_signers, valid_multisig, ActionModel, MultisigModel, ProtocolParameters,
    PROPOSAL_TTL_SECONDS,
};

verus! {

/// The contract can be initialized only once, and afterwards holds the
/// admin and parameters it was given.
pub proof fn law_initialize_once(
    m: ContractModel,
    admin: Address,
    params: ProtocolParameters,
    again: ProtocolParameters,
)
    requires
        model_wf(m),
        initialize_error(m, params) is None,
    ensures
        after_initialize(m, admin, params).admin == Some(admin),
        after_initialize(m, admin, params).parameters == Some(params),
        initialize_error(after_initialize(m, admin, params), again) == Some(
            ParametersError::AlreadyInitialized,
        ),
{
}

/// Staging a committee does not activate it; confirming then activates
/// exactly the staged committee and clears the stage.
pub proof fn law_two_step_committee(m: ContractModel, admin: Address, c: MultisigModel)
    requires
        model_wf(m),
        configure_multisig_error(m, admin, c) is None,
        c.signers.len() <= u32::MAX,
    ensures
        after_configure(m, c).multisig is None,
        confirm_multisig_error(after_configure(m, c), admin) is None,
        after_confirm(after_configure(m, c)).multisig == Some(c),
        after_confirm(after_configure(m, c)).pending_multisig is None,
        valid_multisig(c),
{
}

/// Cancelling a staged committee lets the admin stage another one.
pub proof fn law_cancel_allows_restaging(m: ContractModel, admin: Address, c: MultisigModel)
    requires
        model_wf(m),
        cancel_pending_error(m, admin) is None,
        m.multisig is None,
    ensures
        after_cancel(m).multisig is None,
        configure_multisig_error(after_cancel(m), admin, c) == multisig_error(c),
{
}

/// A new proposal gets the next fresh id, counts its proposer as the first
/// approval, and expires seven days after it was made: from then on it can
/// be neither approved nor executed.
pub proof fn law_proposal_expires_after_seven_days(
    m: ContractModel,
    proposer: Address,
    action: ActionModel,
    now: u64,
    later: u64,
    signer: Address,
)
    requires
        model_wf(m),
        propose_error(m, proposer, action, now) is None,
        later > now + PROPOSAL_TTL_SECONDS,
    ensures
        ({
            let after = after_propose(m, proposer, action, now);
            let id = m.proposals.len() as u64;
            &&& lookup(after, id) matches Some(p) && p.approvals == seq![proposer]
                && p.expires_at == now + PROPOSAL_TTL_SECONDS
            &&& execute_error(after, id, later) == Some(ParametersError::ProposalExpired)
            &&& signer_error(after, signer) is None ==> approve_error(after, signer, id, later)
                == Some(ParametersError::ProposalExpired)
        }),
{
    let after = after_propose(m, proposer, action, now);
    let id = m.proposals.len() as u64;
    assert(after.proposals[id as int] is Some);
}

/// A signer's approval counts once: approving the same proposal again is
/// refused.
pub proof fn law_no_double_approval(
    m: ContractModel,
    signer: Address,
    id: u64,
    now: u64,
    later: u64,
)
    requires
        model_wf(m),
        approve_error(m, signer, id, now) is None,
    ensures
        approve_error(after_approve(m, signer, id), signer, id, later) == (if later > (lookup(
            m,
            id,
        )->0).expires_at {
            Some(ParametersError::ProposalExpired)
        } else {
            Some(ParametersError::DuplicateSignature)
        }),
{
    let p = lookup(m, id)->0;
    let after = after_approve(m, signer, id);
    assert(lookup(after, id)->0.approvals == p.approvals.push(signer));
    assert(lookup(after, id)->0.approvals.last() == signer);
}

/// Execution only counts approvals of signers who were eligible when the
/// proposal was made, are still in the committee, and have not been removed
/// by any committee change since they approved. It needs the threshold, and a committee change needs one approval more than the
/// threshold, or every member when that is fewer.
pub proof fn law_execution_needs_current_quorum(m: ContractModel, id: u64, now: u64)
    requires
        model_wf(m),
        execute_error(m, id, now) is None,
    ensures
        ({
            let p = lookup(m, id)->0;
            let c = m.multisig->0;
            &&& forall|k: int|
                0 <= k < p.approvals.len() ==> p.eligible_signers.contains(#[trigger] p.approvals[k])
                    && c.signers.contains(p.approvals[k]) && !removed_since(
                    m.removed_signers,
                    p.approvals[k],
                    p.approval_checkpoints[k],
                )
            &&& p.approvals.len() >= c.threshold
            &&& targets_signers(p.action) ==> p.approvals.len() >= spec_elevated_quorum(c)
            &&& targets_signers(p.action) ==> p.approvals.len() > c.threshold || p.approvals.len()
                == c.signers.len()
        }),
{
    let p = lookup(m, id)->0;
    let c = m.multisig->0;
    assert forall|k: int| 0 <= k < p.approvals.len() implies p.eligible_signers.contains(
        #[trigger] p.approvals[k],
    ) && c.signers.contains(p.approvals[k]) && !removed_since(
        m.removed_signers,
        p.approvals[k],
        p.approval_checkpoints[k],
    ) by {
        if approval_is_stale(p, c, m.removed_signers, k) {
            assert(has_stale_approval(p, c, m.removed_signers));
        }
    }
}

/// Approval `k` of proposal `q` was given before its signer was removed by a
/// committee change.
pub open spec fn approval_revoked(m: ContractModel, q: u64, k: int) -> bool {
    lookup(m, q) matches Some(p) && 0 <= k < p.approvals.len() && removed_since(
        m.removed_signers,
        p.approvals[k],
        p.approval_checkpoints[k],
    )
}

/// A committee change that leaves out a member revokes every approval that
/// member has given, on every stored proposal.
pub proof fn law_committee_change_revokes_removed_approvals(
    m: ContractModel,
    id: u64,
    now: u64,
    q: u64,
    k: int,
)
    requires
        model_wf(m),
        execute_error(m, id, now) is None,
        (lookup(m, id)->0).action matches ActionModel::UpdateSigners(c) && lookup(m, q) matches Some(
            p,
        ) && 0 <= k < p.approvals.len() && (m.multisig->0).signers.contains(p.approvals[k])
            && !c.signers.contains(p.approvals[k]),
    ensures
        approval_revoked(after_execute(m, id, now), q, k),
{
    let c = (lookup(m, id)->0).action->UpdateSigners_0;
    let p = lookup(m, q)->0;
    let a = p.approvals[k];
    let old = (m.multisig->0).signers;
    let i = choose|i: int| 0 <= i < old.len() && old[i] == a;
    old.lemma_filter_contains(not_in(c.signers), i);
    let added = old.filter(not_in(c.signers));
    let j = choose|j: int| 0 <= j < added.len() && added[j] == a;
    let after = after_execute(m, id, now);
    assert(after.removed_signers == m.removed_signers + added);
    assert(after.removed_signers[m.removed_signers.len() + j] == a);
    assert(proposal_wf(p, q as int, m.removed_signers.len() as int));
    assert(p.approval_checkpoints[k] <= m.removed_signers.len());
    assert(after.proposals[q as int] is Some);
    assert((lookup(after, q)->0).approvals == p.approvals);
    assert((lookup(after, q)->0).approval_checkpoints == p.approval_checkpoints);
}

/// A revoked approval stays revoked through every call while its proposal
/// is stored: the removal record only grows and approvals are only added.
pub proof fn law_revocation_is_permanent(
    m: ContractModel,
    q: u64,
    k: int,
    admin: Address,
    params: ProtocolParameters,
    c: MultisigModel,
    proposer: Address,
    action: ActionModel,
    signer: Address,
    id: u64,
    now: u64,
)
    requires
        model_wf(m),
        approval_revoked(m, q, k),
    ensures
        initialize_error(m, params) is None ==> approval_revoked(
            after_initialize(m, admin, params),
            q,
            k,
        ),
        configure_multisig_error(m, admin, c) is None ==> approval_revoked(
            after_configure(m, c),
            q,
            k,
        ),
        confirm_multisig_error(m, admin) is None ==> approval_revoked(after_confirm(m), q, k),
        cancel_pending_error(m, admin) is None ==> approval_revoked(after_cancel(m), q, k),
        propose_error(m, proposer, action, now) is None ==> approval_revoked(
            after_propose(m, proposer, action, now),
            q,
            k,
        ),
        approve_error(m, signer, id, now) is None ==> approval_revoked(
            after_approve(m, signer, id),
            q,
            k,
        ),
        execute_error(m, id, now) is None ==> approval_revoked(after_execute(m, id, now), q, k),
{
    let p = lookup(m, q)->0;
    let j = choose|j: int|
        p.approval_checkpoints[k] <= j < m.removed_signers.len() && m.removed_signers[j]
            == p.approvals[k];
    if propose_error(m, proposer, action, now) is None {
        let after = after_propose(m, proposer, action, now);
        assert(after.proposals[q as int] == m.proposals[q as int]);
    }
    if approve_error(m, signer, id, now) is None {
        let after = after_approve(m, signer, id);
        if id == q {
            assert((lookup(after, q)->0).approvals[k] == p.approvals[k]);
            assert((lookup(after, q)->0).approval_checkpoints[k] == p.approval_checkpoints[k]);
        }
    }
    if execute_error(m, id, now) is None {
        let after = after_execute(m, id, now);
        assert(after.removed_signers.subrange(0, m.removed_signers.len() as int)
            =~= m.removed_signers);
        assert(after.removed_signers[j] == m.removed_signers[j]);
        assert(after.proposals[q as int] is Some);
        assert((lookup(after, q)->0).approvals == p.approvals);
        assert((lookup(after, q)->0).approval_checkpoints == p.approval_checkpoints);
    }
}

/// A proposal holding a revoked approval cannot be executed: once the
/// earlier checks pass, execution is refused with `StaleApproval`, even when
/// the signer has been admitted to the committee again.
pub proof fn law_revoked_approval_is_never_counted(m: ContractModel, q: u64, k: int, now: u64)
    requires
        model_wf(m),
        approval_revoked(m, q, k),
    ensures
        execute_error(m, q, now) is Some,
        ({
            let p = lookup(m, q)->0;
            !p.invalidated && !p.executed && now <= p.expires_at && m.multisig is Some
                ==> execute_error(m, q, now) == Some(ParametersError::StaleApproval)
        }),
{
    let p = lookup(m, q)->0;
    if m.multisig is Some {
        assert(approval_is_stale(p, m.multisig->0, m.removed_signers, k));
        assert(has_stale_approval(p, m.multisig->0, m.removed_signers));
    }
}

/// The proposer is always a proposal's first approval.
pub proof fn law_proposer_is_first_approval(m: ContractModel, id: u64)
    requires
        model_wf(m),
        lookup(m, id) is Some,
    ensures
        (lookup(m, id)->0).approvals.len() >= 1,
        (lookup(m, id)->0).approvals[0] == (lookup(m, id)->0).proposer,
{
    assert(m.proposals[id as int] is Some);
}

/// Between calls the reentrancy lock is always released: every entry point
/// that takes it gives it back before returning, and none returns with it
/// held.
pub proof fn law_lock_released_between_calls(m: ContractModel)
    requires
        model_wf(m),
    ensures
        !m.reentrancy_locked,
{
}

/// Once executed, a proposal stays executed and is not invalidated by its
/// own committee change; executing it again is refused.
pub proof fn law_executed_proposal_cannot_run_again(
    m: ContractModel,
    id: u64,
    now: u64,
    later: u64,
)
    requires
        model_wf(m),
        execute_error(m, id, now) is None,
    ensures
        lookup(after_execute(m, id, now), id) matches Some(p) && p.executed && !p.invalidated,
        execute_error(after_execute(m, id, now), id, later) == Some(
            ParametersError::ProposalAlreadyExecuted,
        ),
{
    let after = after_execute(m, id, now);
    assert(after.proposals.len() == m.proposals.len());
    assert(after.proposals[id as int] is Some);
}

/// A committee change invalidates every other in-flight proposal that
/// would change the committee: such a proposal can then be neither approved
/// nor executed.
pub proof fn law_committee_change_invalidates_rivals(
    m: ContractModel,
    id: u64,
    now: u64,
    other: u64,
    signer: Address,
    later: u64,
)
    requires
        model_wf(m),
        execute_error(m, id, now) is None,
        targets_signers((lookup(m, id)->0).action),
        other != id,
        m.active_proposals.contains(other),
        invalidates(m.proposals, other, now),
    ensures
        lookup(after_execute(m, id, now), other) matches Some(p) && p.invalidated,
        execute_error(after_execute(m, id, now), other, later) == Some(
            ParametersError::ProposalInvalidated,
        ),
        approve_error(after_execute(m, id, now), signer, other, later) is Some,
{
    let after = after_execute(m, id, now);
    assert(after.proposals[other as int] is Some);
}

/// A committee change leaves every proposal that does not change the
/// committee as it was: such a proposal checks its approvals again when it
/// is executed.
pub proof fn law_committee_change_spares_other_proposals(
    m: ContractModel,
    id: u64,
    now: u64,
    other: u64,
)
    requires
        model_wf(m),
        execute_error(m, id, now) is None,
        other != id,
        lookup(m, other) matches Some(p) && !targets_signers(p.action),
    ensures
        lookup(after_execute(m, id, now), other) == lookup(m, other),
{
}

/// An executed parameter update installs the new parameters, an admin
/// change the new admin, and an upgrade the next version.
pub proof fn law_execution_applies_action(m: ContractModel, id: u64, now: u64)
    requires
        model_wf(m),
        execute_error(m, id, now) is None,
    ensures
        ({
            let after = after_execute(m, id, now);
            match (lookup(m, id)->0).action {
                ActionModel::UpdateParameters(p) => after.parameters == Some(p) && after.admin
                    == m.admin && after.multisig == m.multisig,
                ActionModel::SetAdmin(a) => after.admin == Some(a) && after.parameters
                    == m.parameters && after.multisig == m.multisig,
                ActionModel::Upgrade(_) => after.version == Some(upgraded_version(m)) && (
                current_version(m) < u32::MAX ==> after.version == Some(
                    (current_version(m) + 1) as u32,
                )),
                ActionModel::UpdateSigners(c) => after.multisig == Some(c) && after.admin
                    == m.admin && after.parameters == m.parameters,
            }
        }),
{
}

/// Clearing the proposals removes every one of them while the committee,
/// parameters and admin stay; ids are not reused.
pub proof fn law_clear_removes_every_proposal(m: ContractModel, id: u64, now: u64)
    requires
        model_wf(m),
    ensures
        lookup(after_clear(m), id) is None,
        execute_error(after_clear(m), id, now) == Some(ParametersError::ProposalNotFound),
        after_clear(m).multisig == m.multisig,
        after_clear(m).parameters == m.parameters,
        after_clear(m).admin == m.admin,
        after_clear(m).proposals.len() == m.proposals.len(),
        model_wf(after_clear(m)),
{
}

/// Parameters are accepted exactly when the minimum guarantee lies between
/// one and a hundred percent and the large-loan threshold is at least one;
/// a fresh contract is initialized with them exactly then, and any other
/// parameters are refused with `InvalidParameters`.
pub proof fn law_parameter_bounds(m: ContractModel, params: ProtocolParameters)
    requires
        m.admin is None,
    ensures
        (initialize_error(m, params) is None) <==> (1 <= params.min_guarantee_percent <= 100
            && params.large_loan_threshold >= 1),
        !(1 <= params.min_guarantee_percent <= 100 && params.large_loan_threshold >= 1)
            ==> initialize_error(m, params) == Some(ParametersError::InvalidParameters),
        params.min_guarantee_percent <= 0 ==> initialize_error(m, params) == Some(
            ParametersError::InvalidParameters,
        ),
{
}

/// A committee is accepted exactly when its threshold lies between two and
/// its size and no two of its places name the same address, wherever they
/// stand; a committee that repeats an address, with an acceptable
/// threshold, is refused with `DuplicateSigner`.
pub proof fn law_committee_acceptance(c: MultisigModel)
    ensures
        (multisig_error(c) is None) <==> (2 <= c.threshold <= c.signers.len() && forall|
            i: int,
            j: int,
        | 0 <= i < j < c.signers.len() ==> c.signers[i] != c.signers[j]),
        (2 <= c.threshold <= c.signers.len() && exists|i: int, j: int|
            0 <= i < j < c.signers.len() && c.signers[i] == c.signers[j]) ==> multisig_error(c)
            == Some(ParametersError::DuplicateSigner),
{
    if 2 <= c.threshold <= c.signers.len() {
        if forall|i: int, j: int| 0 <= i < j < c.signers.len() ==> c.signers[i] != c.signers[j] {
            assert forall|i: int, j: int|
                0 <= i < c.signers.len() && 0 <= j < c.signers.len() && i != j implies c.signers[i]
                != c.signers[j] by {
                if i < j {
                } else {
                    assert(c.signers[j] != c.signers[i]);
                }
            }
        }
    }
}

/// Staging a committee that repeats an address anywhere in its list is
/// refused with `DuplicateSigner` once the admin and threshold checks pass.
pub proof fn law_duplicate_member_refused(m: ContractModel, admin: Address, c: MultisigModel, i: int, j: int)
    requires
        m.admin == Some(admin),
        m.multisig is None,
        m.pending_multisig is None,
        2 <= c.threshold <= c.signers.len(),
        0 <= i < j < c.signers.len(),
        c.signers[i] == c.signers[j],
    ensures
        configure_multisig_error(m, admin, c) == Some(ParametersError::DuplicateSigner),
{
    law_committee_acceptance(c);
}

/// Execution succeeds whenever the proposal is stored and still open, a
/// committee is active, every approver was eligible, is a member now and
/// has not been removed since approving, and the approvals reach the
/// threshold, or for a committee change one more than the threshold (all
/// members when that is fewer). More approvals than needed never hurt.
pub proof fn law_execute_completeness(m: ContractModel, id: u64, now: u64)
    requires
        model_wf(m),
        lookup(m, id) matches Some(p) && !p.invalidated && !p.executed && now <= p.expires_at,
        m.multisig is Some,
        ({
            let p = lookup(m, id)->0;
            let c = m.multisig->0;
            &&& forall|k: int|
                0 <= k < p.approvals.len() ==> p.eligible_signers.contains(#[trigger] p.approvals[k])
                    && c.signers.contains(p.approvals[k]) && forall|j: int|
                    p.approval_checkpoints[k] <= j < m.removed_signers.len()
                        ==> m.removed_signers[j] != p.approvals[k]
            &&& p.approvals.len() >= c.threshold
            &&& targets_signers(p.action) ==> p.approvals.len() >= (if c.threshold
                < c.signers.len() {
                c.threshold + 1
            } else {
                c.signers.len() as int
            })
        }),
    ensures
        execute_error(m, id, now) is None,
{
    let p = lookup(m, id)->0;
    let c = m.multisig->0;
    if has_stale_approval(p, c, m.removed_signers) {
        let k = choose|k: int| 0 <= k < p.approvals.len() && #[trigger] approval_is_stale(
            p,
            c,
            m.removed_signers,
            k,
        );
        assert(p.eligible_signers.contains(p.approvals[k]));
        if removed_since(m.removed_signers, p.approvals[k], p.approval_checkpoints[k]) {
            let j = choose|j: int|
                p.approval_checkpoints[k] <= j < m.removed_signers.len() && m.removed_signers[j]
                    == p.approvals[k];
            assert(m.removed_signers[j] != p.approvals[k]);
        }
    }
}

/// An executed proposal can no longer be approved: a current member who is
/// otherwise entitled to approve is refused with `ProposalAlreadyExecuted`,
/// and after a successful execution every approval of that proposal fails.
pub proof fn law_executed_proposal_cannot_be_approved(
    m: ContractModel,
    signer: Address,
    id: u64,
    now: u64,
    later: u64,
)
    requires
        model_wf(m),
    ensures
        ((lookup(m, id) matches Some(p) && p.executed && !p.invalidated) && (m.multisig matches Some(
            c,
        ) && c.signers.contains(signer))) ==> approve_error(m, signer, id, now) == Some(
            ParametersError::ProposalAlreadyExecuted,
        ),
        execute_error(m, id, now) is None ==> approve_error(
            after_execute(m, id, now),
            signer,
            id,
            later,
        ) is Some,
{
    if execute_error(m, id, now) is None {
        law_executed_proposal_cannot_run_again(m, id, now, later);
    }
}

/// A new proposal's only approval is its proposer's, given now: the
/// proposer is in the snapshot and in the active committee, and no removal
/// recorded before the proposal counts against it, so the proposer's
/// approval is current even for a signer who was once removed and later
/// admitted again.
pub proof fn law_new_proposal_is_current(
    m: ContractModel,
    proposer: Address,
    action: ActionModel,
    now: u64,
)
    requires
        model_wf(m),
        propose_error(m, proposer, action, now) is None,
    ensures
        ({
            let after = after_propose(m, proposer, action, now);
            let p = lookup(after, m.proposals.len() as u64)->0;
            let c = after.multisig->0;
            &&& lookup(after, m.proposals.len() as u64) is Some
            &&& p.approvals == seq![proposer]
            &&& p.approval_checkpoints == seq![m.removed_signers.len() as u64]
            &&& p.eligible_signers.contains(proposer) && c.signers.contains(proposer)
            &&& forall|j: int|
                p.approval_checkpoints[0] <= j < after.removed_signers.len()
                    ==> after.removed_signers[j] != proposer
            &&& !has_stale_approval(p, c, after.removed_signers)
        }),
{
    let after = after_propose(m, proposer, action, now);
    let id = m.proposals.len() as u64;
    assert(after.proposals[id as int] is Some);
    let p = lookup(after, id)->0;
    let c = after.multisig->0;
    if has_stale_approval(p, c, after.removed_signers) {
        let k = choose|k: int| 0 <= k < p.approvals.len() && #[trigger] approval_is_stale(
            p,
            c,
            after.removed_signers,
            k,
        );
        assert(k == 0);
    }
}

/// A signer may approve exactly when they are a member of the active
/// committee, the proposal is stored, neither invalidated nor executed nor
/// expired, they have not approved it yet, and they were in the committee
/// when it was made; the approval is then appended, and nothing else about
/// the proposal changes.
pub proof fn law_approve_exact(m: ContractModel, signer: Address, id: u64, now: u64)
    requires
        model_wf(m),
    ensures
        (approve_error(m, signer, id, now) is None) <==> ((m.multisig matches Some(c)
            && c.signers.contains(signer)) && (lookup(m, id) matches Some(p) && !p.invalidated
            && !p.executed && now <= p.expires_at && !p.approvals.contains(signer)
            && p.eligible_signers.contains(signer))),
        approve_error(m, signer, id, now) is None ==> ({
            let p = lookup(m, id)->0;
            let q = lookup(after_approve(m, signer, id), id)->0;
            &&& q.approvals.len() == p.approvals.len() + 1
            &&& q.approvals.last() == signer
            &&& q.approvals.drop_last() == p.approvals
            &&& q.eligible_signers == p.eligible_signers
            &&& q.action == p.action
            &&& q.executed == p.executed && q.invalidated == p.invalidated
            &&& q.expires_at == p.expires_at
        }),
{
    if approve_error(m, signer, id, now) is None {
        let after = after_approve(m, signer, id);
        assert(after.proposals[id as int] is Some);
        let p = lookup(m, id)->0;
        let q = lookup(after, id)->0;
        assert(q.approvals.drop_last() =~= p.approvals);
    }
}

/// A member may propose exactly when the action's parameters lie in bounds
/// (minimum guarantee between one and a hundred percent, large-loan
/// threshold at least one), a proposed committee has a threshold between
/// two and its size and no repeated address, and the expiry seven days on
/// still fits the clock.
pub proof fn law_propose_exact(m: ContractModel, proposer: Address, action: ActionModel, now: u64)
    ensures
        (propose_error(m, proposer, action, now) is None) <==> ((m.multisig matches Some(c)
            && c.signers.contains(proposer)) && (match action {
            ActionModel::UpdateParameters(p) => 1 <= p.min_guarantee_percent <= 100
                && p.large_loan_threshold >= 1,
            ActionModel::UpdateSigners(c) => 2 <= c.threshold <= c.signers.len() && forall|
                i: int,
                j: int,
            | 0 <= i < j < c.signers.len() ==> c.signers[i] != c.signers[j],
            _ => true,
        }) && now + PROPOSAL_TTL_SECONDS <= u64::MAX),
{
    match action {
        ActionModel::UpdateSigners(c) => law_committee_acceptance(c),
        _ => {},
    }
}

} // verus!
