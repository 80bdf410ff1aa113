use parameters_contract::address::Address;
use parameters_contract::contract::ParametersContract;
use parameters_contract::effects::HostEffect;
use parameters_contract::errors::ParametersError;
use parameters_contract::types::{
    default_parameters, MultisigConfig, ProposalAction, ProtocolParameters,
};

const SEVEN_DAYS: u64 = 604_800;

/// A distinct address for each seed.
fn address(seed: u8) -> Address {
    let mut strkey = [b'A'; 56];
    strkey[0] = b'G';
    strkey[1] = b'A' + seed / 26;
    strkey[2] = b'A' + seed % 26;
    Address::from_strkey(strkey)
}

fn setup() -> (ParametersContract, Address) {
    (ParametersContract::new(), address(0))
}

fn setup_multisig() -> (ParametersContract, Address, Address, Address, Address) {
    let (mut c, admin) = setup();
    c.initialize_defaults(admin).unwrap();
    let s1 = address(1);
    let s2 = address(2);
    let s3 = address(3);
    c.configure_multisig(admin, vec![s1, s2, s3], 2).unwrap();
    c.confirm_multisig(admin).unwrap();
    (c, admin, s1, s2, s3)
}

fn committee(signers: Vec<Address>, threshold: u32) -> MultisigConfig {
    MultisigConfig { signers, threshold }
}

fn contains(list: &[Address], a: &Address) -> bool {
    list.iter().any(|x| x.same_as(a))
}

fn refused<T>(r: Result<T, ParametersError>) -> ParametersError {
    match r {
        Ok(_) => panic!("the call was expected to be refused"),
        Err(e) => e,
    }
}

#[test]
fn test_initialize_defaults() {
    let (mut c, admin) = setup();
    c.initialize_defaults(admin).unwrap();

    assert!(c.get_admin().unwrap().same_as(&admin));
    assert_eq!(c.get_parameters(), Ok(default_parameters()));
}

#[test]
fn test_get_admin_before_initialize_returns_typed_error() {
    let (c, _admin) = setup();
    assert_eq!(c.get_admin().map(|_| ()), Err(ParametersError::NotInitialized));
}

#[test]
fn test_get_parameters_before_initialize_returns_typed_error() {
    let (c, _admin) = setup();
    assert_eq!(c.get_parameters(), Err(ParametersError::NotInitialized));
}

#[test]
fn test_invalid_parameters_rejected() {
    let (mut c, admin) = setup();
    let params = ProtocolParameters { min_guarantee_percent: 0, ..default_parameters() };
    let e = refused(c.initialize(admin, params));
    assert_eq!(e, ParametersError::InvalidParameters);
    assert_eq!(e.code(), 3);
}

#[test]
fn test_configure_multisig_stores_committee() {
    let (c, _admin, s1, s2, s3) = setup_multisig();
    let config = c.get_multisig().unwrap();
    assert_eq!(config.threshold, 2);
    assert_eq!(config.signers.len(), 3);
    assert!(contains(&config.signers, &s1));
    assert!(contains(&config.signers, &s2));
    assert!(contains(&config.signers, &s3));
}

#[test]
fn test_configure_multisig_rejects_threshold_below_two() {
    let (mut c, admin) = setup();
    c.initialize_defaults(admin).unwrap();
    let e = refused(c.configure_multisig(admin, vec![address(1), address(2)], 1));
    assert_eq!(e, ParametersError::InvalidThreshold);
    assert_eq!(e.code(), 11);
}

#[test]
fn test_configure_multisig_rejects_threshold_above_signer_count() {
    let (mut c, admin) = setup();
    c.initialize_defaults(admin).unwrap();
    let e = refused(c.configure_multisig(admin, vec![address(1), address(2)], 3));
    assert_eq!(e, ParametersError::InvalidThreshold);
    assert_eq!(e.code(), 11);
}

#[test]
fn test_configure_multisig_rejects_duplicate_signers() {
    let (mut c, admin) = setup();
    c.initialize_defaults(admin).unwrap();
    let e = refused(c.configure_multisig(admin, vec![address(1), address(1)], 2));
    assert_eq!(e, ParametersError::DuplicateSigner);
    assert_eq!(e.code(), 12);
}

#[test]
fn test_configure_multisig_only_once() {
    let (mut c, admin, s1, s2, s3) = setup_multisig();
    let e = refused(c.configure_multisig(admin, vec![s1, s2, s3], 2));
    assert_eq!(e, ParametersError::MultisigAlreadyConfigured);
    assert_eq!(e.code(), 8);
}

#[test]
fn test_propose_rejects_non_signer() {
    let (mut c, _admin, _s1, _s2, _s3) = setup_multisig();
    let intruder = address(9);
    let e = refused(c.propose(intruder, ProposalAction::SetAdmin(intruder), 0));
    assert_eq!(e, ParametersError::NotSigner);
    assert_eq!(e.code(), 10);
}

#[test]
fn test_update_parameters_two_of_three_workflow() {
    let (mut c, _admin, s1, s2, _s3) = setup_multisig();

    let params = ProtocolParameters {
        min_guarantee_percent: 30,
        min_reputation_threshold: 70,
        full_repayment_reward: 12,
        default_penalty: 25,
        large_loan_threshold: 7_500,
        large_loan_default_penalty: 40,
        base_interest_bps: 900,
        grace_period_seconds: 86_400,
        upgrade_delay_seconds: 86_400,
    };

    let (id, _) = c.propose(s1, ProposalAction::UpdateParameters(params), 0).unwrap();
    // The proposer counts as the first approval; one more reaches 2-of-3.
    c.approve(s2, id, 0).unwrap();
    c.execute(id, 0).unwrap();

    assert_eq!(c.get_parameters(), Ok(params));
    assert!(c.get_proposal(id).unwrap().executed);
}

#[test]
fn test_execute_before_threshold_met_is_rejected() {
    let (mut c, _admin, s1, _s2, _s3) = setup_multisig();
    let (id, _) = c.propose(s1, ProposalAction::UpdateParameters(default_parameters()), 0).unwrap();
    let e = refused(c.execute(id, 0));
    assert_eq!(e, ParametersError::ThresholdNotMet);
    assert_eq!(e.code(), 17);
}

#[test]
fn test_duplicate_signature_rejected() {
    let (mut c, _admin, s1, _s2, _s3) = setup_multisig();
    let (id, _) = c.propose(s1, ProposalAction::UpdateParameters(default_parameters()), 0).unwrap();
    let e = refused(c.approve(s1, id, 0));
    assert_eq!(e, ParametersError::DuplicateSignature);
    assert_eq!(e.code(), 16);
}

#[test]
fn test_cannot_execute_twice() {
    let (mut c, _admin, s1, s2, _s3) = setup_multisig();
    let (id, _) = c.propose(s1, ProposalAction::UpdateParameters(default_parameters()), 0).unwrap();
    c.approve(s2, id, 0).unwrap();
    c.execute(id, 0).unwrap();
    let e = refused(c.execute(id, 0));
    assert_eq!(e, ParametersError::ProposalAlreadyExecuted);
    assert_eq!(e.code(), 15);
}

#[test]
fn test_proposal_expires_after_seven_days() {
    let (mut c, _admin, s1, s2, _s3) = setup_multisig();
    let (id, _) = c.propose(s1, ProposalAction::UpdateParameters(default_parameters()), 0).unwrap();
    let e = refused(c.approve(s2, id, SEVEN_DAYS + 1));
    assert_eq!(e, ParametersError::ProposalExpired);
    assert_eq!(e.code(), 14);
}

#[test]
fn test_expired_proposal_cannot_execute() {
    let (mut c, _admin, s1, s2, _s3) = setup_multisig();
    let (id, _) = c.propose(s1, ProposalAction::UpdateParameters(default_parameters()), 0).unwrap();
    c.approve(s2, id, 0).unwrap();
    let e = refused(c.execute(id, SEVEN_DAYS + 1));
    assert_eq!(e, ParametersError::ProposalExpired);
    assert_eq!(e.code(), 14);
}

#[test]
fn test_set_admin_via_proposal() {
    let (mut c, _admin, s1, s2, _s3) = setup_multisig();
    let new_admin = address(20);
    let (id, _) = c.propose(s1, ProposalAction::SetAdmin(new_admin), 0).unwrap();
    c.approve(s2, id, 0).unwrap();
    c.execute(id, 0).unwrap();
    assert!(c.get_admin().unwrap().same_as(&new_admin));
}

#[test]
fn test_update_signers_via_proposal() {
    let (mut c, _admin, s1, s2, s3) = setup_multisig();
    let n1 = address(21);
    let n2 = address(22);

    // A committee change needs the elevated quorum: 2-of-3 needs 3.
    let (id, _) = c.propose(s1, ProposalAction::UpdateSigners(committee(vec![n1, n2], 2)), 0).unwrap();
    c.approve(s2, id, 0).unwrap();
    c.approve(s3, id, 0).unwrap();
    c.execute(id, 0).unwrap();

    let config = c.get_multisig().unwrap();
    assert_eq!(config.signers.len(), 2);
    assert!(contains(&config.signers, &n1));
    assert!(contains(&config.signers, &n2));
    assert!(!contains(&config.signers, &s1));
}

#[test]
fn test_upgrade_via_proposal_increments_version() {
    let (mut c, _admin, s1, s2, _s3) = setup_multisig();
    assert_eq!(c.get_version(), 1u32);

    let wasm_hash = [7u8; 32];
    let (id, _) = c.propose(s1, ProposalAction::Upgrade(wasm_hash), 0).unwrap();
    c.approve(s2, id, 0).unwrap();
    let effects = c.execute(id, 0).unwrap();

    assert_eq!(c.get_version(), 2u32);
    let installs = effects
        .iter()
        .any(|e| matches!(e, HostEffect::UpdateContractWasm { wasm_hash: h } if *h == wasm_hash));
    assert!(installs, "the new code is not installed");
    let found = effects.iter().any(|e| {
        matches!(e, HostEffect::ContractUpgraded { old_version: 1, new_version: 2 })
    });
    assert!(found, "CONTRACTUPGRADED event not found");
}

#[test]
fn test_three_of_three_with_full_committee_approval() {
    let (mut c, admin) = setup();
    c.initialize_defaults(admin).unwrap();
    let s1 = address(1);
    let s2 = address(2);
    let s3 = address(3);
    c.configure_multisig(admin, vec![s1, s2, s3], 3).unwrap();
    c.confirm_multisig(admin).unwrap();

    let (id, _) = c.propose(s1, ProposalAction::UpdateParameters(default_parameters()), 0).unwrap();
    c.approve(s2, id, 0).unwrap();
    assert!(c.execute(id, 0).is_err());

    c.approve(s3, id, 0).unwrap();
    c.execute(id, 0).unwrap();
    assert!(c.get_proposal(id).unwrap().executed);
}

#[test]
fn test_stale_approval_never_counts_after_signer_removed() {
    let (mut c, _admin, s1, s2, s3) = setup_multisig();

    let new_params = ProtocolParameters { base_interest_bps: 900, ..default_parameters() };
    let (params_proposal, _) =
        c.propose(s1, ProposalAction::UpdateParameters(new_params), 0).unwrap();
    c.approve(s2, params_proposal, 0).unwrap();

    // Remove B (s2): signers become [A, C].
    let (signers_proposal, _) =
        c.propose(s1, ProposalAction::UpdateSigners(committee(vec![s1, s3], 2)), 0).unwrap();
    c.approve(s2, signers_proposal, 0).unwrap();
    c.approve(s3, signers_proposal, 0).unwrap();
    c.execute(signers_proposal, 0).unwrap();

    assert!(!contains(&c.get_multisig().unwrap().signers, &s2));

    let e = refused(c.execute(params_proposal, 0));
    assert_eq!(e, ParametersError::StaleApproval);
    assert_eq!(e.code(), 21);
    assert_eq!(c.get_parameters(), Ok(default_parameters()));
}

#[test]
fn test_removed_signer_approval_not_counted_even_after_unrelated_change() {
    let (mut c, _admin, s1, s2, s3) = setup_multisig();

    let (params_proposal, _) =
        c.propose(s1, ProposalAction::UpdateParameters(default_parameters()), 0).unwrap();
    c.approve(s2, params_proposal, 0).unwrap();

    let (signers_proposal, _) =
        c.propose(s1, ProposalAction::UpdateSigners(committee(vec![s1, s3], 2)), 0).unwrap();
    c.approve(s2, signers_proposal, 0).unwrap();
    c.approve(s3, signers_proposal, 0).unwrap();
    c.execute(signers_proposal, 0).unwrap();

    let e = refused(c.execute(params_proposal, 0));
    assert_eq!(e.code(), 21);
}

#[test]
fn test_self_serving_threshold_reduction_rejected() {
    let (mut c, _admin, s1, s2, _s3) = setup_multisig();

    let (id, _) =
        c.propose(s1, ProposalAction::UpdateSigners(committee(vec![s1, s2], 2)), 0).unwrap();
    c.approve(s2, id, 0).unwrap();

    let e = refused(c.execute(id, 0));
    assert_eq!(e, ParametersError::ElevatedQuorumNotMet);
    assert_eq!(e.code(), 22);

    let config = c.get_multisig().unwrap();
    assert_eq!(config.threshold, 2);
    assert_eq!(config.signers.len(), 3);
}

#[test]
fn test_update_signers_reaches_unanimity_succeeds() {
    let (mut c, _admin, s1, s2, s3) = setup_multisig();

    let (id, _) =
        c.propose(s1, ProposalAction::UpdateSigners(committee(vec![s1, s2], 2)), 0).unwrap();
    c.approve(s2, id, 0).unwrap();
    c.approve(s3, id, 0).unwrap();
    c.execute(id, 0).unwrap();

    let config = c.get_multisig().unwrap();
    assert_eq!(config.threshold, 2);
    assert_eq!(config.signers.len(), 2);
    assert!(contains(&config.signers, &s1));
    assert!(contains(&config.signers, &s2));
    assert!(!contains(&config.signers, &s3));
}

#[test]
fn test_admitting_colluder_requires_unanimity() {
    let (mut c, _admin, s1, s2, _s3) = setup_multisig();
    let attacker = address(30);

    let (id, _) = c
        .propose(s1, ProposalAction::UpdateSigners(committee(vec![s1, s2, attacker], 2)), 0)
        .unwrap();
    c.approve(s2, id, 0).unwrap();

    let e = refused(c.execute(id, 0));
    assert_eq!(e.code(), 22);
    assert!(!contains(&c.get_multisig().unwrap().signers, &attacker));
}

#[test]
fn test_configure_multisig_two_step_requires_confirmation() {
    let (mut c, admin) = setup();
    c.initialize_defaults(admin).unwrap();
    let s1 = address(1);
    let s2 = address(2);

    c.configure_multisig(admin, vec![s1, s2], 2).unwrap();
    assert_eq!(c.get_multisig().map(|_| ()), Err(ParametersError::MultisigNotConfigured));
    let e = refused(c.propose(s1, ProposalAction::UpdateParameters(default_parameters()), 0));
    assert_eq!(e.code(), 9);

    c.confirm_multisig(admin).unwrap();
    let config = c.get_multisig().unwrap();
    assert_eq!(config.threshold, 2);
    assert_eq!(config.signers.len(), 2);
}

#[test]
fn test_configure_multisig_second_request_rejected_while_pending() {
    let (mut c, admin) = setup();
    c.initialize_defaults(admin).unwrap();
    let signers = vec![address(1), address(2)];
    c.configure_multisig(admin, signers.clone(), 2).unwrap();
    let e = refused(c.configure_multisig(admin, signers, 2));
    assert_eq!(e, ParametersError::MultisigPendingExists);
    assert_eq!(e.code(), 18);
}

#[test]
fn test_confirm_multisig_without_pending_fails() {
    let (mut c, admin) = setup();
    c.initialize_defaults(admin).unwrap();
    let e = refused(c.confirm_multisig(admin));
    assert_eq!(e, ParametersError::MultisigNotPending);
    assert_eq!(e.code(), 19);
}

#[test]
fn test_configure_multisig_by_non_admin_fails() {
    let (mut c, admin) = setup();
    c.initialize_defaults(admin).unwrap();
    let intruder = address(9);
    let e = refused(c.configure_multisig(intruder, vec![address(1), address(2)], 2));
    assert_eq!(e, ParametersError::NotAdmin);
    assert_eq!(e.code(), 2);
}

#[test]
fn test_confirm_multisig_by_non_admin_fails() {
    let (mut c, admin) = setup();
    c.initialize_defaults(admin).unwrap();
    let intruder = address(9);
    c.configure_multisig(admin, vec![address(1), address(2)], 2).unwrap();
    let e = refused(c.confirm_multisig(intruder));
    assert_eq!(e, ParametersError::NotAdmin);
    assert_eq!(e.code(), 2);
}

#[test]
fn test_signers_change_invalidates_inflight_signer_proposals() {
    let (mut c, _admin, s1, s2, s3) = setup_multisig();

    let (p1, _) =
        c.propose(s1, ProposalAction::UpdateSigners(committee(vec![s1, s2], 2)), 0).unwrap();
    let (p2, _) =
        c.propose(s2, ProposalAction::UpdateSigners(committee(vec![s2, s3], 2)), 0).unwrap();

    c.approve(s1, p2, 0).unwrap();
    c.approve(s3, p2, 0).unwrap();
    c.execute(p2, 0).unwrap();

    assert!(c.get_proposal(p1).unwrap().invalidated);
    assert_eq!(refused(c.execute(p1, 0)).code(), 20);
    assert_eq!(refused(c.approve(s3, p1, 0)).code(), 20);
}

#[test]
fn test_non_signer_targeting_proposal_survives_unrelated_signer_change() {
    let (mut c, _admin, s1, s2, s3) = setup_multisig();

    let (params_proposal, _) =
        c.propose(s1, ProposalAction::UpdateParameters(default_parameters()), 0).unwrap();
    c.approve(s2, params_proposal, 0).unwrap();

    let d = address(40);
    let (signers_proposal, _) =
        c.propose(s1, ProposalAction::UpdateSigners(committee(vec![s1, s2, d], 2)), 0).unwrap();
    c.approve(s2, signers_proposal, 0).unwrap();
    c.approve(s3, signers_proposal, 0).unwrap();
    c.execute(signers_proposal, 0).unwrap();

    c.execute(params_proposal, 0).unwrap();
    assert!(c.get_proposal(params_proposal).unwrap().executed);
}

#[test]
fn test_full_signer_rotation_invalidates_old_proposal() {
    let (mut c, _admin, s1, s2, s3) = setup_multisig();

    let (params_proposal, _) =
        c.propose(s1, ProposalAction::UpdateParameters(default_parameters()), 0).unwrap();

    let rotated = committee(vec![address(41), address(42), address(43)], 2);
    let (signers_proposal, _) = c.propose(s1, ProposalAction::UpdateSigners(rotated), 0).unwrap();
    c.approve(s2, signers_proposal, 0).unwrap();
    c.approve(s3, signers_proposal, 0).unwrap();
    c.execute(signers_proposal, 0).unwrap();

    assert_eq!(refused(c.execute(params_proposal, 0)).code(), 21);
    assert!(!c.get_proposal(params_proposal).unwrap().executed);
}

#[test]
fn test_approve_by_added_signer_on_old_proposal_rejected() {
    let (mut c, _admin, s1, s2, s3) = setup_multisig();

    let (proposal, _) =
        c.propose(s1, ProposalAction::UpdateParameters(default_parameters()), 0).unwrap();

    let d = address(44);
    let (signers_proposal, _) = c
        .propose(s1, ProposalAction::UpdateSigners(committee(vec![s1, s2, s3, d], 2)), 0)
        .unwrap();
    c.approve(s2, signers_proposal, 0).unwrap();
    c.approve(s3, signers_proposal, 0).unwrap();
    c.execute(signers_proposal, 0).unwrap();

    let e = refused(c.approve(d, proposal, 0));
    assert_eq!(e, ParametersError::NotEligibleSigner);
    assert_eq!(e.code(), 23);
}

#[test]
fn test_approve_by_removed_signer_rejected() {
    let (mut c, _admin, s1, s2, s3) = setup_multisig();

    let (proposal, _) =
        c.propose(s1, ProposalAction::UpdateParameters(default_parameters()), 0).unwrap();

    let (signers_proposal, _) =
        c.propose(s1, ProposalAction::UpdateSigners(committee(vec![s1, s3], 2)), 0).unwrap();
    c.approve(s2, signers_proposal, 0).unwrap();
    c.approve(s3, signers_proposal, 0).unwrap();
    c.execute(signers_proposal, 0).unwrap();

    let e = refused(c.approve(s2, proposal, 0));
    assert_eq!(e, ParametersError::NotSigner);
    assert_eq!(e.code(), 10);
}

#[test]
fn test_configure_multisig_emits_pending_and_confirm_events() {
    let (mut c, admin) = setup();
    c.initialize_defaults(admin).unwrap();
    let s1 = address(1);
    let s2 = address(2);

    let effects = c.configure_multisig(admin, vec![s1, s2], 2).unwrap();
    let saw_pending = effects.iter().any(|e| match e {
        HostEffect::MultisigPending { admin: a, config } => {
            a.same_as(&admin) && config.signers.len() == 2 && config.threshold == 2
        }
        _ => false,
    });
    assert!(saw_pending, "MSIGPEND event not found");

    let effects = c.confirm_multisig(admin).unwrap();
    let saw_confirm = effects.iter().any(|e| {
        matches!(e, HostEffect::MultisigConfigured { threshold: 2, signer_count: 2 })
    });
    assert!(saw_confirm, "MSCONFIG event not found");
}

#[test]
fn test_signer_set_expansion_requires_elevated_quorum() {
    let (mut c, _admin, s1, s2, s3) = setup_multisig();

    let d = address(45);
    let (id, _) = c
        .propose(s1, ProposalAction::UpdateSigners(committee(vec![s1, s2, s3, d], 2)), 0)
        .unwrap();
    c.approve(s2, id, 0).unwrap();

    assert_eq!(refused(c.execute(id, 0)).code(), 22);
    assert_eq!(c.get_multisig().unwrap().signers.len(), 3);

    c.approve(s3, id, 0).unwrap();
    c.execute(id, 0).unwrap();
    assert_eq!(c.get_multisig().unwrap().signers.len(), 4);
    assert!(contains(&c.get_multisig().unwrap().signers, &d));
}

#[test]
fn test_fully_approved_signer_proposal_invalidated_by_signers_change() {
    let (mut c, _admin, s1, s2, s3) = setup_multisig();

    let (stale, _) =
        c.propose(s1, ProposalAction::UpdateSigners(committee(vec![s1, s2], 2)), 0).unwrap();
    c.approve(s2, stale, 0).unwrap();
    c.approve(s3, stale, 0).unwrap();

    let (winner, _) =
        c.propose(s2, ProposalAction::UpdateSigners(committee(vec![s2, s3], 2)), 0).unwrap();
    c.approve(s1, winner, 0).unwrap();
    c.approve(s3, winner, 0).unwrap();
    c.execute(winner, 0).unwrap();

    assert!(c.get_proposal(stale).unwrap().invalidated);
    assert_eq!(refused(c.execute(stale, 0)).code(), 20);
}

#[test]
fn test_executing_signer_proposal_is_not_self_invalidated() {
    let (mut c, _admin, s1, s2, s3) = setup_multisig();

    let (_stale, _) =
        c.propose(s1, ProposalAction::UpdateSigners(committee(vec![s1, s2], 2)), 0).unwrap();
    let (winner, _) =
        c.propose(s2, ProposalAction::UpdateSigners(committee(vec![s2, s3], 2)), 0).unwrap();
    c.approve(s1, winner, 0).unwrap();
    c.approve(s3, winner, 0).unwrap();
    let effects = c.execute(winner, 0).unwrap();

    let winner_proposal = c.get_proposal(winner).unwrap();
    assert!(winner_proposal.executed);
    assert!(!winner_proposal.invalidated);

    for e in effects.iter() {
        if let HostEffect::ProposalInvalidated { id } = e {
            assert_ne!(*id, winner, "PROPINVL must not reference the executed proposal");
        }
    }
}

#[test]
fn test_cancel_pending_multisig_allows_restaging() {
    let (mut c, admin) = setup();
    c.initialize_defaults(admin).unwrap();
    let s1 = address(1);
    let s2 = address(2);

    c.configure_multisig(admin, vec![s1, s2], 2).unwrap();
    c.cancel_pending_multisig(admin).unwrap();

    assert_eq!(c.get_multisig().map(|_| ()), Err(ParametersError::MultisigNotConfigured));

    c.configure_multisig(admin, vec![s1, s2, address(3)], 2).unwrap();
    c.confirm_multisig(admin).unwrap();
    assert_eq!(c.get_multisig().unwrap().signers.len(), 3);
}

#[test]
fn test_cancel_pending_multisig_without_pending_fails() {
    let (mut c, admin) = setup();
    c.initialize_defaults(admin).unwrap();
    let e = refused(c.cancel_pending_multisig(admin));
    assert_eq!(e, ParametersError::MultisigNotPending);
    assert_eq!(e.code(), 19);
}

#[test]
fn test_cancel_pending_multisig_by_non_admin_fails() {
    let (mut c, admin) = setup();
    c.initialize_defaults(admin).unwrap();
    let intruder = address(9);
    c.configure_multisig(admin, vec![address(1), address(2)], 2).unwrap();
    let e = refused(c.cancel_pending_multisig(intruder));
    assert_eq!(e, ParametersError::NotAdmin);
    assert_eq!(e.code(), 2);
}

#[test]
fn test_clear_proposals_migration_helper() {
    let (mut c, _admin, s1, s2, _s3) = setup_multisig();

    let (p1, _) = c.propose(s1, ProposalAction::UpdateParameters(default_parameters()), 0).unwrap();
    let (p2, _) = c.propose(s1, ProposalAction::UpdateParameters(default_parameters()), 0).unwrap();
    c.approve(s2, p2, 0).unwrap();

    let admin = c.get_admin().unwrap();
    c.clear_proposals(admin).unwrap();

    assert_eq!(c.get_proposal(p1).map(|_| ()), Err(ParametersError::ProposalNotFound));
    assert_eq!(c.get_proposal(p2).map(|_| ()), Err(ParametersError::ProposalNotFound));
    assert_eq!(refused(c.execute(p1, 0)).code(), 13);

    let (p3, _) = c.propose(s1, ProposalAction::UpdateParameters(default_parameters()), 0).unwrap();
    c.approve(s2, p3, 0).unwrap();
    c.execute(p3, 0).unwrap();
    assert!(c.get_proposal(p3).unwrap().executed);
}

#[test]
fn test_clear_proposals_by_non_admin_fails() {
    let (mut c, _admin, _s1, _s2, _s3) = setup_multisig();
    let e = refused(c.clear_proposals(address(9)));
    assert_eq!(e, ParametersError::NotAdmin);
    assert_eq!(e.code(), 2);
}

#[test]
fn test_signers_change_emits_proposal_invalidated_event() {
    let (mut c, _admin, s1, s2, s3) = setup_multisig();

    let (stale, _) =
        c.propose(s1, ProposalAction::UpdateSigners(committee(vec![s1, s2], 2)), 0).unwrap();
    let (winner, _) =
        c.propose(s2, ProposalAction::UpdateSigners(committee(vec![s2, s3], 2)), 0).unwrap();
    c.approve(s1, winner, 0).unwrap();
    c.approve(s3, winner, 0).unwrap();
    let effects = c.execute(winner, 0).unwrap();

    let saw = effects
        .iter()
        .any(|e| matches!(e, HostEffect::ProposalInvalidated { id } if *id == stale));
    assert!(saw, "PROPINVL event for stale proposal not found");
}
