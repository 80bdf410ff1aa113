use vstd::prelude::*;

use crate::address::{contains_address, copy_addresses, Address};
use crate::effects::{effects_view, EffectModel, HostEffect};
use crate::errors::ParametersError;
use crate::model::{
    admin_error, after_approve, after_cancel, after_clear, after_configure, after_confirm,
    after_execute, after_initialize, after_invalidation, after_propose, approve_error,
    approved_event, cancel_pending_error, committee, configure_multisig_error, configured_event,
    confirm_multisig_error, created_event, current_version, execute_effects, execute_error,
    has_stale_approval, initialize_error, invalidated_proposal, invalidates, invalidates_pred,
    invalidation_events, lookup, mark_executed, model_wf, multisig_error, new_proposal,
    other_than, outcome, parameters_error, propose_error, proposal_wf, signer_error,
    spec_elevated_quorum, staged_event, stays_active_pred, upgraded_version, with_lock,
    ContractModel, approval_is_stale, committee_signers, install_committee, not_in,
    removed_since,
};
use crate::types::{
    action_within_host_limits, default_parameters, spec_default_parameters, valid_multisig,
    valid_parameters, MultisigConfig, MultisigModel, Proposal, ProposalAction, ProposalModel,
    ProtocolParameters, PROPOSAL_TTL_SECONDS,
};

verus! {

/// The stored state of the parameters contract. Every entry point takes the
/// state, checks the call, and either refuses it with an error, leaving the
/// state as it was, or updates it and lists the effects for the host.
#[derive(Debug)]
pub struct ParametersContract {
    pub admin: Option<Address>,
    pub parameters: Option<ProtocolParameters>,
    pub multisig: Option<MultisigConfig>,
    pub pending_multisig: Option<MultisigConfig>,
    pub proposals: Vec<Option<Proposal>>,
    pub active_proposals: Vec<u64>,
    pub version: Option<u32>,
    pub reentrancy_locked: bool,
    /// Every signer that a committee change removed, in order.
    pub removed_signers: Vec<Address>,
}

pub open spec fn opt_multisig(o: Option<MultisigConfig>) -> Option<MultisigModel> {
    match o {
        Some(c) => Some(c@),
        None => None,
    }
}

pub open spec fn opt_proposal(o: Option<Proposal>) -> Option<ProposalModel> {
    match o {
        Some(p) => Some(p@),
        None => None,
    }
}

impl View for ParametersContract {
    type V = ContractModel;

    open spec fn view(&self) -> ContractModel {
        ContractModel {
            admin: self.admin,
            parameters: self.parameters,
            multisig: opt_multisig(self.multisig),
            pending_multisig: opt_multisig(self.pending_multisig),
            proposals: self.proposals@.map_values(|o: Option<Proposal>| opt_proposal(o)),
            active_proposals: self.active_proposals@,
            version: self.version,
            reentrancy_locked: self.reentrancy_locked,
            removed_signers: self.removed_signers@,
        }
    }
}

/// Appends one effect to a list of effects.
fn push_effect(effects: &mut Vec<HostEffect>, e: HostEffect)
    ensures
        effects_view(final(effects)@) == effects_view(old(effects)@).push(e@),
{
    effects.push(e);
    assert(effects_view(effects@) =~= effects_view(old(effects)@).push(e@));
}

/// A list holding one effect.
fn single_effect(e: HostEffect) -> (r: Vec<HostEffect>)
    ensures
        effects_view(r@) == seq![e@],
{
    let mut effects: Vec<HostEffect> = Vec::new();
    effects.push(e);
    assert(effects_view(effects@) =~= seq![e@]);
    effects
}

/// Whether no address occurs twice in `list`.
pub fn addresses_distinct(list: &Vec<Address>) -> (r: bool)
    ensures
        r == list@.no_duplicates(),
{
    let n = list.len();
    let mut i: usize = 0;
    while i < n
        invariant
            n == list.len(),
            0 <= i <= n,
            forall|p: int, q: int| 0 <= p < i && p < q < n ==> list@[p] != list@[q],
        decreases n - i,
    {
        let a = list[i];
        let mut j: usize = i + 1;
        while j < n
            invariant
                n == list.len(),
                0 <= i < n,
                i + 1 <= j <= n,
                a == list@[i as int],
                forall|p: int, q: int| 0 <= p < i && p < q < n ==> list@[p] != list@[q],
                forall|q: int| i < q < j ==> list@[i as int] != list@[q],
            decreases n - j,
        {
            if a.same_as(&list[j]) {
                assert(!list@.no_duplicates());
                return false;
            }
            j = j + 1;
        }
        i = i + 1;
    }
    assert(list@.no_duplicates());
    true
}

/// Whether no id occurs twice in `list`.
fn ids_distinct(list: &Vec<u64>) -> (r: bool)
    ensures
        r == list@.no_duplicates(),
{
    let n = list.len();
    let mut i: usize = 0;
    while i < n
        invariant
            n == list.len(),
            0 <= i <= n,
            forall|p: int, q: int| 0 <= p < i && p < q < n ==> list@[p] != list@[q],
        decreases n - i,
    {
        let mut j: usize = i + 1;
        while j < n
            invariant
                n == list.len(),
                0 <= i < n,
                i + 1 <= j <= n,
                forall|p: int, q: int| 0 <= p < i && p < q < n ==> list@[p] != list@[q],
                forall|q: int| i < q < j ==> list@[i as int] != list@[q],
            decreases n - j,
        {
            if list[i] == list[j] {
                assert(!list@.no_duplicates());
                return false;
            }
            j = j + 1;
        }
        i = i + 1;
    }
    assert(list@.no_duplicates());
    true
}

/// One more element of `s` decides whether it joins the filtered prefix.
proof fn lemma_filter_take_step<A>(s: Seq<A>, i: int, f: spec_fn(A) -> bool)
    requires
        0 <= i < s.len(),
    ensures
        s.take(i + 1).filter(f) == (if f(s[i]) {
            s.take(i).filter(f).push(s[i])
        } else {
            s.take(i).filter(f)
        }),
{
    reveal(Seq::filter);
    assert(s.take(i + 1).drop_last() =~= s.take(i));
}

/// The ids of `list` other than `id`, in order.
fn without_id(list: &Vec<u64>, id: u64) -> (r: Vec<u64>)
    ensures
        r@ == list@.filter(other_than(id)),
        list@.no_duplicates() ==> r@.no_duplicates(),
        forall|k: int| 0 <= k < r@.len() ==> list@.contains(#[trigger] r@[k]),
{
    let mut out: Vec<u64> = Vec::new();
    let n = list.len();
    let mut i: usize = 0;
    while i < n
        invariant
            n == list.len(),
            0 <= i <= n,
            out@ == list@.take(i as int).filter(other_than(id)),
            list@.no_duplicates() ==> out@.no_duplicates(),
            forall|k: int| 0 <= k < out@.len() ==> list@.take(i as int).contains(#[trigger] out@[k]),
        decreases n - i,
    {
        let x = list[i];
        proof {
            lemma_filter_take_step(list@, i as int, other_than(id));
        }
        let ghost before = out@;
        if x != id {
            out.push(x);
            proof {
                if list@.no_duplicates() {
                    assert forall|a: int, b: int|
                        0 <= a < out@.len() && 0 <= b < out@.len() && a != b implies out@[a]
                        != out@[b] by {
                        if a == out@.len() - 1 || b == out@.len() - 1 {
                            let c = if a == out@.len() - 1 { b } else { a };
                            assert(list@.take(i as int).contains(before[c]));
                            let j = choose|j: int| 0 <= j < i && list@.take(i as int)[j] == before[c];
                            assert(list@[j] == before[c]);
                        }
                    }
                }
            }
        }
        assert forall|k: int| 0 <= k < out@.len() implies list@.take(i + 1).contains(#[trigger] out@[k]) by {
            if k < before.len() {
                assert(list@.take(i as int).contains(before[k]));
                let j = choose|j: int| 0 <= j < i && list@.take(i as int)[j] == before[k];
                assert(list@.take(i + 1)[j] == before[k]);
            } else {
                assert(list@.take(i + 1)[i as int] == x);
            }
        }
        i = i + 1;
    }
    assert(list@.take(n as int) =~= list@);
    proof {
        assert forall|k: int| 0 <= k < out@.len() implies list@.contains(#[trigger] out@[k]) by {
            assert(list@.take(n as int).contains(out@[k]));
        }
    }
    out
}

/// Raising a proposal's flags, or recording more removals, keeps it
/// consistent.
proof fn lemma_same_core_keeps_wf(p: ProposalModel, q: ProposalModel, id: int, r1: int, r2: int)
    requires
        proposal_wf(p, id, r1),
        r1 <= r2,
        q.id == p.id,
        q.action == p.action,
        q.proposer == p.proposer,
        q.approvals == p.approvals,
        q.approval_checkpoints == p.approval_checkpoints,
        q.eligible_signers == p.eligible_signers,
    ensures
        proposal_wf(q, id, r2),
{
    assert forall|k: int| 0 <= k < q.approval_checkpoints.len() implies #[trigger] q.approval_checkpoints[k]
        <= r2 by {
        assert(p.approval_checkpoints[k] <= r1);
    }
}

/// Distinct members all drawn from `pool` are no more than `pool` holds.
proof fn lemma_distinct_members_bounded(members: Seq<Address>, pool: Seq<Address>)
    requires
        members.no_duplicates(),
        forall|k: int| 0 <= k < members.len() ==> pool.contains(#[trigger] members[k]),
    ensures
        members.len() <= pool.len(),
{
    members.unique_seq_to_set();
    pool.lemma_cardinality_of_set();
    vstd::seq_lib::seq_to_set_is_finite(pool);
    assert(members.to_set().subset_of(pool.to_set())) by {
        assert forall|x: Address| members.to_set().contains(x) implies pool.to_set().contains(x) by {
            let k = choose|k: int| 0 <= k < members.len() && members[k] == x;
            assert(pool.contains(members[k]));
        }
    }
    vstd::set_lib::lemma_len_subset(members.to_set(), pool.to_set());
}

impl ParametersContract {
    /// What holds of the state between calls.
    pub open spec fn wf(&self) -> bool {
        model_wf(self@)
    }

    /// A contract on which nothing has been stored yet.
    pub fn new() -> (r: Self)
        ensures
            r.wf(),
            r@.admin is None,
            r@.parameters is None,
            r@.multisig is None,
            r@.pending_multisig is None,
            r@.proposals.len() == 0,
            r@.active_proposals.len() == 0,
            r@.version is None,
            r@.removed_signers.len() == 0,
    {
        let r = ParametersContract {
            admin: None,
            parameters: None,
            multisig: None,
            pending_multisig: None,
            proposals: Vec::new(),
            active_proposals: Vec::new(),
            version: None,
            reentrancy_locked: false,
            removed_signers: Vec::new(),
        };
        assert(r@.proposals =~= Seq::<Option<ProposalModel>>::empty());
        r
    }

    fn require_admin(&self, caller: &Address) -> (r: Result<(), ParametersError>)
        ensures
            outcome(r, admin_error(self@, *caller)),
    {
        match &self.admin {
            None => Err(ParametersError::NotInitialized),
            Some(a) => if a.same_as(caller) {
                Ok(())
            } else {
                Err(ParametersError::NotAdmin)
            },
        }
    }

    fn require_signer(&self, caller: &Address) -> (r: Result<(), ParametersError>)
        ensures
            outcome(r, signer_error(self@, *caller)),
    {
        match &self.multisig {
            None => Err(ParametersError::MultisigNotConfigured),
            Some(c) => if contains_address(&c.signers, caller) {
                Ok(())
            } else {
                Err(ParametersError::NotSigner)
            },
        }
    }

    /// Refuses parameters whose guarantee percentage is outside `1..=100` or
    /// whose large-loan threshold is not positive.
    pub fn validate_parameters(params: &ProtocolParameters) -> (r: Result<(), ParametersError>)
        ensures
            outcome(r, parameters_error(*params)),
            r is Ok <==> (1 <= params.min_guarantee_percent <= 100 && params.large_loan_threshold >= 1),
            r is Err ==> r == Err::<(), ParametersError>(ParametersError::InvalidParameters),
    {
        if params.min_guarantee_percent <= 0 || params.min_guarantee_percent > 100
            || params.large_loan_threshold <= 0 {
            return Err(ParametersError::InvalidParameters);
        }
        Ok(())
    }

    /// Refuses a committee whose threshold is below two or above its size
    /// (`InvalidThreshold`), or that names a member twice (`DuplicateSigner`).
    pub fn validate_multisig_config(config: &MultisigConfig) -> (r: Result<(), ParametersError>)
        requires
            config.signers.len() <= u32::MAX,
        ensures
            outcome(r, multisig_error(config@)),
            r is Ok ==> valid_multisig(config@),
            r is Ok <==> (2 <= config.threshold <= config.signers.len() && forall|i: int, j: int|
                0 <= i < j < config.signers.len() ==> config.signers@[i] != config.signers@[j]),
    {
        let n = config.signers.len();
        if config.threshold < 2 || config.threshold as usize > n {
            return Err(ParametersError::InvalidThreshold);
        }
        if !addresses_distinct(&config.signers) {
            return Err(ParametersError::DuplicateSigner);
        }
        Ok(())
    }

    /// Quorum required to change the committee: the current threshold plus
    /// one, capped at the number of members so that it is always reachable
    /// (2-of-3 needs 3, 3-of-3 needs 3, 4-of-7 needs 5).
    pub fn elevated_quorum(config: &MultisigConfig) -> (q: u32)
        requires
            config.signers.len() <= u32::MAX,
        ensures
            q == spec_elevated_quorum(config@),
            q <= config.signers.len(),
            config.threshold < config.signers.len() ==> q == config.threshold + 1,
            config.threshold >= config.signers.len() ==> q == config.signers.len(),
    {
        let n = config.signers.len() as u32;
        let raised = match config.threshold.checked_add(1) {
            Some(t) => t,
            None => n,
        };
        if raised <= n {
            raised
        } else {
            n
        }
    }

    /// Records the admin and the first parameters. Refused when an admin is
    /// already set (`AlreadyInitialized`) or the parameters are invalid.
    pub fn initialize(&mut self, admin: Address, params: ProtocolParameters) -> (r: Result<
        Vec<HostEffect>,
        ParametersError,
    >)
        requires
            old(self).wf(),
        ensures
            final(self).wf(),
            outcome(r, initialize_error(old(self)@, params)),
            r is Err ==> final(self)@ == old(self)@,
            r matches Ok(effects) ==> {
                &&& final(self)@ == after_initialize(old(self)@, admin, params)
                &&& effects_view(effects@) == seq![
                    EffectModel::ParametersUpdated { admin, params },
                ]
            },
    {
        if self.admin.is_some() {
            return Err(ParametersError::AlreadyInitialized);
        }
        if let Err(e) = Self::validate_parameters(&params) {
            return Err(e);
        }
        self.admin = Some(admin);
        self.parameters = Some(params);
        Ok(single_effect(HostEffect::ParametersUpdated { admin, params }))
    }

    /// `initialize` with the default parameters.
    pub fn initialize_defaults(&mut self, admin: Address) -> (r: Result<
        Vec<HostEffect>,
        ParametersError,
    >)
        requires
            old(self).wf(),
        ensures
            final(self).wf(),
            outcome(r, initialize_error(old(self)@, spec_default_parameters())),
            r is Err ==> final(self)@ == old(self)@,
            r matches Ok(effects) ==> {
                &&& final(self)@ == after_initialize(old(self)@, admin, spec_default_parameters())
                &&& effects_view(effects@) == seq![
                    EffectModel::ParametersUpdated { admin, params: spec_default_parameters() },
                ]
            },
    {
        self.initialize(admin, default_parameters())
    }

    /// The active committee (`MultisigNotConfigured` before one is confirmed).
    pub fn get_multisig(&self) -> (r: Result<MultisigConfig, ParametersError>)
        ensures
            match self@.multisig {
                Some(c) => r matches Ok(got) && got@ == c,
                None => r == Err::<MultisigConfig, ParametersError>(
                    ParametersError::MultisigNotConfigured,
                ),
            },
    {
        match &self.multisig {
            Some(c) => Ok(c.clone()),
            None => Err(ParametersError::MultisigNotConfigured),
        }
    }

    /// The admin (`NotInitialized` before `initialize`).
    pub fn get_admin(&self) -> (r: Result<Address, ParametersError>)
        ensures
            match self@.admin {
                Some(a) => r == Ok::<Address, ParametersError>(a),
                None => r == Err::<Address, ParametersError>(ParametersError::NotInitialized),
            },
    {
        match &self.admin {
            Some(a) => Ok(*a),
            None => Err(ParametersError::NotInitialized),
        }
    }

    /// The current parameters (`NotInitialized` before `initialize`).
    pub fn get_parameters(&self) -> (r: Result<ProtocolParameters, ParametersError>)
        ensures
            match self@.parameters {
                Some(p) => r == Ok::<ProtocolParameters, ParametersError>(p),
                None => r == Err::<ProtocolParameters, ParametersError>(
                    ParametersError::NotInitialized,
                ),
            },
    {
        match &self.parameters {
            Some(p) => Ok(*p),
            None => Err(ParametersError::NotInitialized),
        }
    }

    /// The contract's code version: one until the first upgrade.
    pub fn get_version(&self) -> (v: u32)
        ensures
            v == crate::model::current_version(self@),
    {
        match self.version {
            Some(v) => v,
            None => 1,
        }
    }

    /// Takes the reentrancy lock, refusing when it is already held.
    fn enter_non_reentrant(&mut self) -> (r: Result<(), ParametersError>)
        ensures
            old(self).reentrancy_locked ==> r == Err::<(), ParametersError>(
                ParametersError::ReentrancyDetected,
            ) && final(self)@ == old(self)@,
            !old(self).reentrancy_locked ==> r is Ok && final(self)@ == with_lock(old(self)@, true),
    {
        if self.reentrancy_locked {
            return Err(ParametersError::ReentrancyDetected);
        }
        self.reentrancy_locked = true;
        Ok(())
    }

    /// Releases the reentrancy lock.
    fn exit_non_reentrant(&mut self)
        ensures
            final(self)@ == with_lock(old(self)@, false),
    {
        self.reentrancy_locked = false;
    }

    /// First of two admin steps: stages a committee without activating it.
    /// Refused for a caller who is not the admin, when a committee is active
    /// (`MultisigAlreadyConfigured`) or already staged
    /// (`MultisigPendingExists`), and for an invalid committee.
    pub fn configure_multisig(&mut self, admin: Address, signers: Vec<Address>, threshold: u32) -> (r:
        Result<Vec<HostEffect>, ParametersError>)
        requires
            old(self).wf(),
            signers.len() <= u32::MAX,
        ensures
            final(self).wf(),
            outcome(r, configure_multisig_error(old(self)@, admin, committee(signers@, threshold))),
            r is Err ==> final(self)@ == old(self)@,
            r matches Ok(effects) ==> {
                &&& final(self)@ == after_configure(old(self)@, committee(signers@, threshold))
                &&& effects_view(effects@) == seq![
                    staged_event(admin, committee(signers@, threshold)),
                ]
            },
    {
        if let Err(e) = self.require_admin(&admin) {
            return Err(e);
        }
        if self.multisig.is_some() {
            return Err(ParametersError::MultisigAlreadyConfigured);
        }
        if self.pending_multisig.is_some() {
            return Err(ParametersError::MultisigPendingExists);
        }
        let config = MultisigConfig { signers, threshold };
        if let Err(e) = Self::validate_multisig_config(&config) {
            return Err(e);
        }
        if let Err(e) = self.enter_non_reentrant() {
            return Err(e);
        }
        let announced = config.clone();
        self.pending_multisig = Some(config);
        let effects = single_effect(HostEffect::MultisigPending { admin, config: announced });
        self.exit_non_reentrant();
        Ok(effects)
    }

    /// Second admin step: activates the staged committee. Refused for a
    /// caller who is not the admin, when a committee is already active, or
    /// when none is staged (`MultisigNotPending`).
    pub fn confirm_multisig(&mut self, admin: Address) -> (r: Result<Vec<HostEffect>, ParametersError>)
        requires
            old(self).wf(),
        ensures
            final(self).wf(),
            outcome(r, confirm_multisig_error(old(self)@, admin)),
            r is Err ==> final(self)@ == old(self)@,
            r matches Ok(effects) ==> {
                &&& final(self)@ == after_confirm(old(self)@)
                &&& effects_view(effects@) == seq![
                    configured_event(old(self)@.pending_multisig->0),
                ]
            },
    {
        if let Err(e) = self.require_admin(&admin) {
            return Err(e);
        }
        if self.multisig.is_some() {
            return Err(ParametersError::MultisigAlreadyConfigured);
        }
        let config = match &self.pending_multisig {
            Some(c) => c.clone(),
            None => return Err(ParametersError::MultisigNotPending),
        };
        if let Err(e) = Self::validate_multisig_config(&config) {
            return Err(e);
        }
        if let Err(e) = self.enter_non_reentrant() {
            return Err(e);
        }
        let threshold = config.threshold;
        let signer_count = config.signers.len() as u32;
        self.multisig = Some(config);
        self.pending_multisig = None;
        let effects = single_effect(HostEffect::MultisigConfigured { threshold, signer_count });
        self.exit_non_reentrant();
        Ok(effects)
    }

    /// Drops the staged committee without activating it, so that another
    /// can be staged. Refused for a caller who is not the admin and when
    /// nothing is staged (`MultisigNotPending`).
    pub fn cancel_pending_multisig(&mut self, admin: Address) -> (r: Result<
        Vec<HostEffect>,
        ParametersError,
    >)
        requires
            old(self).wf(),
        ensures
            final(self).wf(),
            outcome(r, cancel_pending_error(old(self)@, admin)),
            r is Err ==> final(self)@ == old(self)@,
            r matches Ok(effects) ==> {
                &&& final(self)@ == after_cancel(old(self)@)
                &&& effects_view(effects@) == seq![
                    EffectModel::MultisigPendingCancelled { admin },
                ]
            },
    {
        if let Err(e) = self.require_admin(&admin) {
            return Err(e);
        }
        if self.pending_multisig.is_none() {
            return Err(ParametersError::MultisigNotPending);
        }
        if let Err(e) = self.enter_non_reentrant() {
            return Err(e);
        }
        self.pending_multisig = None;
        let effects = single_effect(HostEffect::MultisigPendingCancelled { admin });
        self.exit_non_reentrant();
        Ok(effects)
    }

    /// Admin-only migration helper: removes every stored proposal and empties
    /// the in-flight index. The committee, parameters and admin stay as they
    /// are, and later proposals keep counting up from the same id.
    pub fn clear_proposals(&mut self, admin: Address) -> (r: Result<(), ParametersError>)
        requires
            old(self).wf(),
        ensures
            final(self).wf(),
            outcome(r, admin_error(old(self)@, admin)),
            r is Err ==> final(self)@ == old(self)@,
            r is Ok ==> final(self)@ == after_clear(old(self)@),
    {
        if let Err(e) = self.require_admin(&admin) {
            return Err(e);
        }
        let count = self.proposals.len();
        let mut id: usize = 0;
        while id < count
            invariant
                count == self.proposals.len(),
                0 <= id <= count,
                forall|k: int| 0 <= k < id ==> self.proposals@[k] is None,
                forall|k: int| id <= k < count ==> self.proposals@[k] == old(self).proposals@[k],
                self.admin == old(self).admin,
                self.parameters == old(self).parameters,
                self.multisig == old(self).multisig,
                self.pending_multisig == old(self).pending_multisig,
                self.active_proposals == old(self).active_proposals,
                self.version == old(self).version,
                self.reentrancy_locked == old(self).reentrancy_locked,
                self.removed_signers == old(self).removed_signers,
            decreases count - id,
        {
            self.proposals[id] = None;
            id = id + 1;
        }
        self.active_proposals = Vec::new();
        assert(self@.proposals =~= after_clear(old(self)@).proposals);
        assert(self@.active_proposals =~= after_clear(old(self)@).active_proposals);
        Ok(())
    }

    /// A copy of the stored proposal with this id.
    fn load_proposal(&self, id: u64) -> (r: Option<Proposal>)
        ensures
            opt_proposal(r) == lookup(self@, id),
    {
        if id < self.proposals.len() as u64 {
            match &self.proposals[id as usize] {
                Some(p) => Some(p.clone()),
                None => None,
            }
        } else {
            None
        }
    }

    /// Replaces the stored proposal in slot `id`.
    fn store_proposal(&mut self, id: u64, p: Proposal)
        requires
            id < old(self).proposals.len(),
        ensures
            final(self)@ == (ContractModel {
                proposals: old(self)@.proposals.update(id as int, Some(p@)),
                ..old(self)@
            }),
    {
        self.proposals[id as usize] = Some(p);
        assert(self@.proposals =~= old(self)@.proposals.update(id as int, Some(p@)));
    }

    /// A committee member opens a proposal. The proposer counts as its first
    /// approval, the current committee is recorded as the signers eligible
    /// to approve it, and it expires seven days from `now`. Refused for a
    /// caller outside the committee (`NotSigner`, or `MultisigNotConfigured`
    /// when there is none), for invalid parameters or an invalid committee
    /// in the action, and when the expiry time overflows (`Overflow`).
    pub fn propose(&mut self, proposer: Address, action: ProposalAction, now: u64) -> (r: Result<
        (u64, Vec<HostEffect>),
        ParametersError,
    >)
        requires
            old(self).wf(),
            action_within_host_limits(action@),
        ensures
            final(self).wf(),
            outcome(r, propose_error(old(self)@, proposer, action@, now)),
            r is Err ==> final(self)@ == old(self)@,
            r matches Ok((id, effects)) ==> {
                &&& id == old(self)@.proposals.len()
                &&& final(self)@ == after_propose(old(self)@, proposer, action@, now)
                &&& effects_view(effects@) == seq![created_event(id, proposer)]
            },
    {
        if let Err(e) = self.require_signer(&proposer) {
            return Err(e);
        }
        match &action {
            ProposalAction::UpdateParameters(p) => {
                if let Err(e) = Self::validate_parameters(p) {
                    return Err(e);
                }
            },
            ProposalAction::UpdateSigners(c) => {
                if let Err(e) = Self::validate_multisig_config(c) {
                    return Err(e);
                }
            },
            _ => {},
        }
        let expires_at = match now.checked_add(PROPOSAL_TTL_SECONDS) {
            Some(t) => t,
            None => return Err(ParametersError::Overflow),
        };
        let eligible_signers = match &self.multisig {
            Some(c) => copy_addresses(&c.signers),
            None => return Err(ParametersError::MultisigNotConfigured),
        };
        let id = self.proposals.len() as u64;
        let mut approvals: Vec<Address> = Vec::new();
        approvals.push(proposer);
        assert(approvals@ =~= seq![proposer]);
        let mut approval_checkpoints: Vec<u64> = Vec::new();
        approval_checkpoints.push(self.removed_signers.len() as u64);
        assert(approval_checkpoints@ =~= seq![old(self)@.removed_signers.len() as u64]);
        let proposal = Proposal {
            id,
            action,
            proposer,
            approvals,
            approval_checkpoints,
            eligible_signers,
            created_at: now,
            expires_at,
            executed: false,
            invalidated: false,
        };
        assert(proposal@ == new_proposal(old(self)@, proposer, action@, now));
        self.proposals.push(Some(proposal));
        self.active_proposals.push(id);
        let slots = self.proposals.len();
        proof {
            assert(slots == self.proposals@.len());
            let m = after_propose(old(self)@, proposer, action@, now);
            assert(self@.proposals =~= m.proposals);
            assert(self@.active_proposals =~= m.active_proposals);
            assert(proposal_wf(
                new_proposal(old(self)@, proposer, action@, now),
                id as int,
                m.removed_signers.len() as int,
            ));
            let o = old(self)@;
            assert forall|i: int|
                0 <= i < m.proposals.len() && (#[trigger] m.proposals[i]) is Some implies proposal_wf(
                m.proposals[i]->0,
                i,
                m.removed_signers.len() as int,
            ) by {
                if i < o.proposals.len() {
                    assert(m.proposals[i] == o.proposals[i]);
                }
            }
            assert(m.active_proposals.no_duplicates()) by {
                assert forall|i: int, j: int|
                    0 <= i < m.active_proposals.len() && 0 <= j < m.active_proposals.len() && i
                        != j implies m.active_proposals[i] != m.active_proposals[j] by {
                    if i < o.active_proposals.len() {
                        assert(o.active_proposals[i] < o.proposals.len());
                    }
                    if j < o.active_proposals.len() {
                        assert(o.active_proposals[j] < o.proposals.len());
                    }
                }
            }
            assert forall|k: int| 0 <= k < m.active_proposals.len() implies #[trigger] m.active_proposals[k]
                < m.proposals.len() by {
                if k < o.active_proposals.len() {
                    assert(o.active_proposals[k] < o.proposals.len());
                }
            }
            assert(model_wf(m));
        }
        Ok((id, single_effect(HostEffect::ProposalCreated { id, proposer })))
    }

    /// A committee member approves an open proposal. Refused for a caller
    /// outside the current committee, for an unknown proposal
    /// (`ProposalNotFound`), one that was invalidated, executed or has
    /// expired, a second approval by the same signer (`DuplicateSignature`),
    /// and a signer who was not in the committee when the proposal was made
    /// (`NotEligibleSigner`).
    pub fn approve(&mut self, signer: Address, proposal_id: u64, now: u64) -> (r: Result<
        Vec<HostEffect>,
        ParametersError,
    >)
        requires
            old(self).wf(),
        ensures
            final(self).wf(),
            outcome(r, approve_error(old(self)@, signer, proposal_id, now)),
            r is Err ==> final(self)@ == old(self)@,
            r matches Ok(effects) ==> {
                &&& final(self)@ == after_approve(old(self)@, signer, proposal_id)
                &&& effects_view(effects@) == seq![approved_event(old(self)@, signer, proposal_id)]
            },
    {
        if let Err(e) = self.require_signer(&signer) {
            return Err(e);
        }
        let mut proposal = match self.load_proposal(proposal_id) {
            Some(p) => p,
            None => return Err(ParametersError::ProposalNotFound),
        };
        if proposal.invalidated {
            return Err(ParametersError::ProposalInvalidated);
        }
        if proposal.executed {
            return Err(ParametersError::ProposalAlreadyExecuted);
        }
        if now > proposal.expires_at {
            return Err(ParametersError::ProposalExpired);
        }
        if contains_address(&proposal.approvals, &signer) {
            return Err(ParametersError::DuplicateSignature);
        }
        if !contains_address(&proposal.eligible_signers, &signer) {
            return Err(ParametersError::NotEligibleSigner);
        }
        let ghost before = proposal@;
        proposal.approvals.push(signer);
        proposal.approval_checkpoints.push(self.removed_signers.len() as u64);
        proof {
            assert(proposal_wf(before, proposal_id as int, self@.removed_signers.len() as int));
            let a = proposal.approvals@;
            assert(a == before.approvals.push(signer));
            assert(a.no_duplicates()) by {
                assert forall|i: int, j: int| 0 <= i < a.len() && 0 <= j < a.len() && i != j implies a[i] != a[j] by {
                    if i == a.len() - 1 {
                        assert(before.approvals.contains(before.approvals[j]));
                    } else if j == a.len() - 1 {
                        assert(before.approvals.contains(before.approvals[i]));
                    }
                }
            }
            assert forall|k: int| 0 <= k < a.len() implies before.eligible_signers.contains(#[trigger] a[k]) by {
                if k < a.len() - 1 {
                    assert(a[k] == before.approvals[k]);
                }
            }
            lemma_distinct_members_bounded(a, before.eligible_signers);
            let cps = proposal.approval_checkpoints@;
            assert forall|k: int| 0 <= k < cps.len() implies #[trigger] cps[k]
                <= self@.removed_signers.len() by {
                if k < cps.len() - 1 {
                    assert(cps[k] == before.approval_checkpoints[k]);
                }
            }
            assert(a[0] == before.approvals[0]);
        }
        let count = proposal.approvals.len() as u32;
        self.store_proposal(proposal_id, proposal);
        assert(self@ == after_approve(old(self)@, signer, proposal_id));
        Ok(single_effect(HostEffect::ProposalApproved { id: proposal_id, signer, approvals: count }))
    }

    /// Drops `id` from the in-flight index.
    fn remove_active_proposal(&mut self, id: u64)
        ensures
            final(self)@ == (ContractModel {
                active_proposals: old(self)@.active_proposals.filter(other_than(id)),
                ..old(self)@
            }),
            old(self)@.active_proposals.no_duplicates() ==> final(self)@.active_proposals.no_duplicates(),
            forall|k: int|
                0 <= k < final(self)@.active_proposals.len() ==> old(self)@.active_proposals.contains(
                    #[trigger] final(self)@.active_proposals[k],
                ),
    {
        let kept = without_id(&self.active_proposals, id);
        self.active_proposals = kept;
    }

    /// Marks every in-flight proposal that targets the committee as
    /// invalidated, and prunes the in-flight index down to the proposals
    /// that are still in flight and leave the committee alone. Only the
    /// in-flight index is scanned, never the whole history.
    fn invalidate_signer_proposals(&mut self, now: u64, effects: &mut Vec<HostEffect>)
        requires
            old(self)@.active_proposals.no_duplicates(),
            old(self)@.proposals.len() <= u64::MAX,
        ensures
            final(self)@ == after_invalidation(old(self)@, now),
            effects_view(final(effects)@) == effects_view(old(effects)@) + invalidation_events(
                old(self)@.active_proposals.filter(invalidates_pred(old(self)@.proposals, now)),
            ),
            final(self)@.active_proposals.no_duplicates(),
            forall|k: int|
                0 <= k < final(self)@.active_proposals.len() ==> old(self)@.active_proposals.contains(
                    #[trigger] final(self)@.active_proposals[k],
                ),
    {
        let ghost m0 = self@;
        let ghost e0 = effects@;
        let mut remaining: Vec<u64> = Vec::new();
        let n = self.active_proposals.len();
        let mut i: usize = 0;
        while i < n
            invariant
                n == self.active_proposals.len(),
                0 <= i <= n,
                self@ == (ContractModel { proposals: self@.proposals, ..m0 }),
                self@.proposals.len() == m0.proposals.len(),
                m0.proposals.len() <= u64::MAX,
                m0.active_proposals.no_duplicates(),
                remaining@ == m0.active_proposals.take(i as int).filter(stays_active_pred(m0.proposals, now)),
                remaining@.no_duplicates(),
                forall|k: int|
                    0 <= k < remaining@.len() ==> m0.active_proposals.take(i as int).contains(
                        #[trigger] remaining@[k],
                    ),
                effects_view(effects@) == effects_view(e0) + invalidation_events(
                    m0.active_proposals.take(i as int).filter(invalidates_pred(m0.proposals, now)),
                ),
                forall|j: int|
                    0 <= j < m0.proposals.len() ==> #[trigger] self@.proposals[j] == (if m0.active_proposals.take(
                        i as int,
                    ).contains(j as u64) && invalidates(m0.proposals, j as u64, now) {
                        invalidated_proposal(m0.proposals[j])
                    } else {
                        m0.proposals[j]
                    }),
            decreases n - i,
        {
            let id = self.active_proposals[i];
            proof {
                lemma_filter_take_step(m0.active_proposals, i as int, stays_active_pred(m0.proposals, now));
                lemma_filter_take_step(m0.active_proposals, i as int, invalidates_pred(m0.proposals, now));
                assert(!m0.active_proposals.take(i as int).contains(id)) by {
                    if m0.active_proposals.take(i as int).contains(id) {
                        let j = choose|j: int| 0 <= j < i && m0.active_proposals.take(i as int)[j] == id;
                        assert(m0.active_proposals[j] == m0.active_proposals[i as int]);
                    }
                }
                if id < m0.proposals.len() {
                    assert(self@.proposals[id as int] == m0.proposals[id as int]);
                }
                assert(lookup(self@, id) == lookup(m0, id));
            }
            let ghost prev_remaining = remaining@;
            let ghost prev_effects = effects@;
            let ghost prev_props = self@.proposals;
            match self.load_proposal(id) {
                None => {},
                Some(mut p) => {
                    if p.executed || p.invalidated || now > p.expires_at {
                    } else {
                        let targets = match &p.action {
                            ProposalAction::UpdateSigners(_) => true,
                            _ => false,
                        };
                        if targets {
                            p.invalidated = true;
                            self.store_proposal(id, p);
                            push_effect(effects, HostEffect::ProposalInvalidated { id });
                        } else {
                            remaining.push(id);
                        }
                    }
                },
            }
            proof {
                let t0 = m0.active_proposals.take(i as int);
                let t1 = m0.active_proposals.take(i + 1);
                assert(t1 =~= t0.push(id));
                let inv0 = t0.filter(invalidates_pred(m0.proposals, now));
                if invalidates(m0.proposals, id, now) {
                    assert(invalidation_events(inv0.push(id)) =~= invalidation_events(inv0).push(
                        EffectModel::ProposalInvalidated { id },
                    ));
                }
                assert forall|k: int| 0 <= k < remaining@.len() implies t1.contains(
                    #[trigger] remaining@[k],
                ) by {
                    if k < prev_remaining.len() {
                        let j = choose|j: int| 0 <= j < t0.len() && t0[j] == prev_remaining[k];
                        assert(t1[j] == prev_remaining[k]);
                    } else {
                        assert(t1[i as int] == id);
                    }
                }
                assert(remaining@.no_duplicates()) by {
                    if remaining@.len() > prev_remaining.len() {
                        assert forall|a: int, b: int|
                            0 <= a < remaining@.len() && 0 <= b < remaining@.len() && a != b implies remaining@[a]
                            != remaining@[b] by {
                            if a == remaining@.len() - 1 || b == remaining@.len() - 1 {
                                let c = if a == remaining@.len() - 1 { b } else { a };
                                assert(t0.contains(prev_remaining[c]));
                            }
                        }
                    }
                }
                assert forall|j: int| 0 <= j < m0.proposals.len() implies #[trigger] self@.proposals[j] == (
                if t1.contains(j as u64) && invalidates(m0.proposals, j as u64, now) {
                    invalidated_proposal(m0.proposals[j])
                } else {
                    m0.proposals[j]
                }) by {
                    if j != id as int {
                        assert(self@.proposals[j] == prev_props[j]);
                        assert(t1.contains(j as u64) == t0.contains(j as u64)) by {
                            if t1.contains(j as u64) {
                                let q = choose|q: int| 0 <= q < t1.len() && t1[q] == j as u64;
                                if q < i {
                                    assert(t0[q] == j as u64);
                                } else {
                                    assert(t1[q] == id);
                                    assert(j == id as int);
                                }
                            }
                            if t0.contains(j as u64) {
                                let q = choose|q: int| 0 <= q < t0.len() && t0[q] == j as u64;
                                assert(t1[q] == j as u64);
                            }
                        }
                    } else {
                        assert(t1[i as int] == id);
                    }
                }
            }
            i = i + 1;
        }
        proof {
            assert(m0.active_proposals.take(n as int) =~= m0.active_proposals);
        }
        self.active_proposals = remaining;
        proof {
            assert(self@.proposals =~= after_invalidation(m0, now).proposals);
            assert forall|k: int| 0 <= k < self@.active_proposals.len() implies m0.active_proposals.contains(
                #[trigger] self@.active_proposals[k],
            ) by {
                assert(m0.active_proposals.take(n as int).contains(self@.active_proposals[k]));
            }
        }
    }

    /// Whether `a` is among the removals recorded after the first `checkpoint`.
    fn removed_after(removed: &Vec<Address>, a: &Address, checkpoint: u64) -> (r: bool)
        ensures
            r == removed_since(removed@, *a, checkpoint),
    {
        let n = removed.len();
        if checkpoint >= n as u64 {
            return false;
        }
        let mut j: usize = checkpoint as usize;
        while j < n
            invariant
                n == removed.len(),
                checkpoint <= j <= n,
                forall|q: int| checkpoint <= q < j ==> removed@[q] != *a,
            decreases n - j,
        {
            if removed[j].same_as(a) {
                return true;
            }
            j = j + 1;
        }
        false
    }

    /// Every approval comes from a signer who was eligible when the proposal
    /// was made, is still in the committee, and was not removed by any
    /// committee change since approving.
    fn approvals_current(proposal: &Proposal, config: &MultisigConfig, removed: &Vec<Address>) -> (r:
        bool)
        requires
            proposal@.approval_checkpoints.len() == proposal@.approvals.len(),
        ensures
            r == !has_stale_approval(proposal@, config@, removed@),
    {
        let n = proposal.approvals.len();
        let mut i: usize = 0;
        while i < n
            invariant
                n == proposal.approvals.len(),
                n == proposal.approval_checkpoints.len(),
                0 <= i <= n,
                forall|k: int|
                    0 <= k < i ==> !#[trigger] approval_is_stale(proposal@, config@, removed@, k),
            decreases n - i,
        {
            let approver = proposal.approvals[i];
            if !contains_address(&proposal.eligible_signers, &approver) || !contains_address(
                &config.signers,
                &approver,
            ) || Self::removed_after(removed, &approver, proposal.approval_checkpoints[i]) {
                assert(approval_is_stale(proposal@, config@, removed@, i as int));
                return false;
            }
            i = i + 1;
        }
        true
    }

    /// Appends to the removal record, in order, the members of `previous`
    /// that `next` leaves out.
    fn record_removals(&mut self, previous: &Vec<Address>, next: &Vec<Address>)
        ensures
            final(self)@ == (ContractModel {
                removed_signers: old(self)@.removed_signers + previous@.filter(not_in(next@)),
                ..old(self)@
            }),
    {
        let ghost r0 = self.removed_signers@;
        let n = previous.len();
        let mut i: usize = 0;
        while i < n
            invariant
                n == previous.len(),
                0 <= i <= n,
                self@ == (ContractModel { removed_signers: self@.removed_signers, ..old(self)@ }),
                self.removed_signers@ == r0 + previous@.take(i as int).filter(not_in(next@)),
            decreases n - i,
        {
            proof {
                lemma_filter_take_step(previous@, i as int, not_in(next@));
            }
            let a = previous[i];
            if !contains_address(next, &a) {
                self.removed_signers.push(a);
                assert(self.removed_signers@ =~= r0 + previous@.take(i + 1).filter(not_in(next@)));
            }
            i = i + 1;
        }
        assert(previous@.take(n as int) =~= previous@);
    }

    fn do_update_parameters(&mut self, params: &ProtocolParameters, effects: &mut Vec<HostEffect>) -> (r:
        Result<(), ParametersError>)
        requires
            valid_parameters(*params),
            old(self).admin is Some,
        ensures
            r is Ok,
            final(self)@ == (ContractModel { parameters: Some(*params), ..old(self)@ }),
            effects_view(final(effects)@) == effects_view(old(effects)@).push(
                EffectModel::ParametersUpdated { admin: old(self).admin->0, params: *params },
            ),
    {
        if let Err(e) = Self::validate_parameters(params) {
            return Err(e);
        }
        let admin = match &self.admin {
            Some(a) => *a,
            None => return Err(ParametersError::NotInitialized),
        };
        self.parameters = Some(*params);
        push_effect(effects, HostEffect::ParametersUpdated { admin, params: *params });
        Ok(())
    }

    fn do_set_admin(&mut self, new_admin: &Address, effects: &mut Vec<HostEffect>) -> (r: Result<
        (),
        ParametersError,
    >)
        requires
            old(self).admin is Some,
        ensures
            r is Ok,
            final(self)@ == (ContractModel { admin: Some(*new_admin), ..old(self)@ }),
            effects_view(final(effects)@) == effects_view(old(effects)@).push(
                EffectModel::AdminUpdated { old_admin: old(self).admin->0, new_admin: *new_admin },
            ),
    {
        let old_admin = match &self.admin {
            Some(a) => *a,
            None => return Err(ParametersError::NotInitialized),
        };
        self.admin = Some(*new_admin);
        push_effect(effects, HostEffect::AdminUpdated { old_admin, new_admin: *new_admin });
        Ok(())
    }

    /// Bumps the version (saturating) and asks the host to install the new
    /// code.
    fn do_upgrade(&mut self, new_wasm_hash: [u8; 32], effects: &mut Vec<HostEffect>)
        ensures
            final(self)@ == (ContractModel { version: Some(upgraded_version(old(self)@)), ..old(self)@ }),
            effects_view(final(effects)@) == effects_view(old(effects)@).push(
                EffectModel::UpdateContractWasm { wasm_hash: new_wasm_hash },
            ).push(
                EffectModel::ContractUpgraded {
                    old_version: current_version(old(self)@),
                    new_version: upgraded_version(old(self)@),
                },
            ),
    {
        let old_version = match self.version {
            Some(v) => v,
            None => 1,
        };
        let new_version = match old_version.checked_add(1) {
            Some(v) => v,
            None => old_version,
        };
        self.version = Some(new_version);
        push_effect(effects, HostEffect::UpdateContractWasm { wasm_hash: new_wasm_hash });
        push_effect(effects, HostEffect::ContractUpgraded { old_version, new_version });
    }

    /// Installs a new committee: records the members it leaves out, then
    /// invalidates the in-flight committee changes.
    fn do_update_signers(&mut self, config: MultisigConfig, now: u64, effects: &mut Vec<HostEffect>) -> (r:
        Result<(), ParametersError>)
        requires
            valid_multisig(config@),
            old(self)@.active_proposals.no_duplicates(),
            old(self)@.proposals.len() <= u64::MAX,
        ensures
            r is Ok,
            final(self)@ == after_invalidation(install_committee(old(self)@, config@), now),
            effects_view(final(effects)@) == effects_view(old(effects)@).push(
                configured_event(config@),
            ) + invalidation_events(
                old(self)@.active_proposals.filter(
                    invalidates_pred(old(self)@.proposals, now),
                ),
            ),
            final(self)@.active_proposals.no_duplicates(),
            forall|k: int|
                0 <= k < final(self)@.active_proposals.len() ==> old(self)@.active_proposals.contains(
                    #[trigger] final(self)@.active_proposals[k],
                ),
    {
        if let Err(e) = Self::validate_multisig_config(&config) {
            return Err(e);
        }
        let threshold = config.threshold;
        let signer_count = config.signers.len() as u32;
        let previous = match &self.multisig {
            Some(c) => copy_addresses(&c.signers),
            None => Vec::new(),
        };
        assert(previous@ == committee_signers(old(self)@));
        self.record_removals(&previous, &config.signers);
        self.multisig = Some(config);
        assert(self@ == install_committee(old(self)@, config@));
        push_effect(effects, HostEffect::MultisigConfigured { threshold, signer_count });
        self.invalidate_signer_proposals(now, effects);
        Ok(())
    }

    /// Runs a proposal that has collected enough approvals. Anyone may call
    /// it: the approvals are the authorization. Refused for an unknown,
    /// invalidated, executed or expired proposal, when no committee is
    /// active, when any approver was not eligible when the proposal was made,
    /// is not in the committee now, or was removed by a committee change
    /// after approving, even if admitted again since (`StaleApproval`), and
    /// when the
    /// approvals fall short of the threshold (`ThresholdNotMet`), or, for a
    /// committee change, of the elevated quorum (`ElevatedQuorumNotMet`).
    /// The proposal is recorded as executed before its action runs and
    /// leaves the in-flight index.
    pub fn execute(&mut self, proposal_id: u64, now: u64) -> (r: Result<Vec<HostEffect>, ParametersError>)
        requires
            old(self).wf(),
        ensures
            final(self).wf(),
            outcome(r, execute_error(old(self)@, proposal_id, now)),
            r is Err ==> final(self)@ == old(self)@,
            r matches Ok(effects) ==> {
                &&& final(self)@ == after_execute(old(self)@, proposal_id, now)
                &&& effects_view(effects@) == execute_effects(old(self)@, proposal_id, now)
            },
    {
        let mut proposal = match self.load_proposal(proposal_id) {
            Some(p) => p,
            None => return Err(ParametersError::ProposalNotFound),
        };
        if proposal.invalidated {
            return Err(ParametersError::ProposalInvalidated);
        }
        if proposal.executed {
            return Err(ParametersError::ProposalAlreadyExecuted);
        }
        if now > proposal.expires_at {
            return Err(ParametersError::ProposalExpired);
        }
        let (required, signer_change) = match &self.multisig {
            None => return Err(ParametersError::MultisigNotConfigured),
            Some(config) => {
                if !Self::approvals_current(&proposal, config, &self.removed_signers) {
                    return Err(ParametersError::StaleApproval);
                }
                let signer_change = match &proposal.action {
                    ProposalAction::UpdateSigners(_) => true,
                    _ => false,
                };
                let required = if signer_change {
                    Self::elevated_quorum(config)
                } else {
                    config.threshold
                };
                (required, signer_change)
            },
        };
        if (proposal.approvals.len() as u64) < (required as u64) {
            if signer_change {
                return Err(ParametersError::ElevatedQuorumNotMet);
            } else {
                return Err(ParametersError::ThresholdNotMet);
            }
        }
        if let Err(e) = self.enter_non_reentrant() {
            return Err(e);
        }
        let ghost m0 = old(self)@;
        proposal.executed = true;
        let action = proposal.action.clone();
        self.store_proposal(proposal_id, proposal);
        assert(self@ == with_lock(mark_executed(m0, proposal_id), true));
        let mut effects: Vec<HostEffect> = Vec::new();
        assert(effects_view(effects@) =~= Seq::<EffectModel>::empty());
        match action {
            ProposalAction::UpdateParameters(p) => {
                if let Err(e) = self.do_update_parameters(&p, &mut effects) {
                    return Err(e);
                }
            },
            ProposalAction::SetAdmin(a) => {
                if let Err(e) = self.do_set_admin(&a, &mut effects) {
                    return Err(e);
                }
            },
            ProposalAction::Upgrade(h) => {
                self.do_upgrade(h, &mut effects);
            },
            ProposalAction::UpdateSigners(c) => {
                if let Err(e) = self.do_update_signers(c, now, &mut effects) {
                    return Err(e);
                }
            },
        }
        self.remove_active_proposal(proposal_id);
        push_effect(&mut effects, HostEffect::ProposalExecuted { id: proposal_id });
        self.exit_non_reentrant();
        let recorded = self.removed_signers.len();
        proof {
            assert(recorded == self@.removed_signers.len());
            let fin = self@;
            let m1 = mark_executed(m0, proposal_id);
            assert(fin == after_execute(m0, proposal_id, now));
            assert(fin.removed_signers.len() >= m0.removed_signers.len());
            assert forall|i: int|
                0 <= i < fin.proposals.len() && (#[trigger] fin.proposals[i]) is Some implies proposal_wf(
                fin.proposals[i]->0,
                i,
                fin.removed_signers.len() as int,
            ) by {
                assert(m1.proposals[i] is Some);
                if i != proposal_id as int {
                    assert(m1.proposals[i] == m0.proposals[i]);
                }
                lemma_same_core_keeps_wf(
                    m0.proposals[i]->0,
                    fin.proposals[i]->0,
                    i,
                    m0.removed_signers.len() as int,
                    fin.removed_signers.len() as int,
                );
            }
        }
        Ok(effects)
    }

    /// Whether a committee is acceptable and fits a host vector.
    fn committee_acceptable(config: &MultisigConfig) -> (r: bool)
        ensures
            r == valid_multisig(config@),
    {
        config.signers.len() <= u32::MAX as usize && Self::validate_multisig_config(config).is_ok()
    }

    /// Whether a stored proposal is consistent with slot `slot`.
    fn proposal_consistent(p: &Proposal, slot: usize, recorded: usize) -> (r: bool)
        ensures
            r == proposal_wf(p@, slot as int, recorded as int),
    {
        if p.id != slot as u64 {
            return false;
        }
        let action_ok = match &p.action {
            ProposalAction::UpdateParameters(params) => Self::validate_parameters(params).is_ok(),
            ProposalAction::UpdateSigners(c) => Self::committee_acceptable(c),
            _ => true,
        };
        if !action_ok || p.eligible_signers.len() > u32::MAX as usize {
            return false;
        }
        if !addresses_distinct(&p.approvals) {
            return false;
        }
        let n = p.approvals.len();
        let mut i: usize = 0;
        while i < n
            invariant
                n == p.approvals.len(),
                0 <= i <= n,
                forall|k: int| 0 <= k < i ==> p.eligible_signers@.contains(#[trigger] p.approvals@[k]),
            decreases n - i,
        {
            if !contains_address(&p.eligible_signers, &p.approvals[i]) {
                assert(!p@.eligible_signers.contains(p@.approvals[i as int]));
                return false;
            }
            i = i + 1;
        }
        if n == 0 || !p.approvals[0].same_as(&p.proposer) || p.approval_checkpoints.len() != n {
            return false;
        }
        let mut k: usize = 0;
        while k < n
            invariant
                n == p.approval_checkpoints.len(),
                0 <= k <= n,
                forall|q: int| 0 <= q < k ==> #[trigger] p.approval_checkpoints@[q] <= recorded,
            decreases n - k,
        {
            if p.approval_checkpoints[k] > recorded as u64 {
                return false;
            }
            k = k + 1;
        }
        true
    }

    /// Checks what holds of the state between calls, for a state that was
    /// read back from storage.
    pub fn is_well_formed(&self) -> (r: bool)
        ensures
            r == self.wf(),
    {
        if self.reentrancy_locked {
            return false;
        }
        if let Some(p) = &self.parameters {
            if Self::validate_parameters(p).is_err() {
                return false;
            }
        }
        if let Some(c) = &self.multisig {
            if !Self::committee_acceptable(c) || self.admin.is_none() {
                return false;
            }
        }
        if let Some(c) = &self.pending_multisig {
            if !Self::committee_acceptable(c) || self.admin.is_none() {
                return false;
            }
        }
        let count = self.proposals.len();
        let mut i: usize = 0;
        while i < count
            invariant
                count == self.proposals.len(),
                0 <= i <= count,
                forall|j: int|
                    0 <= j < i && (#[trigger] self@.proposals[j]) is Some ==> proposal_wf(
                        self@.proposals[j]->0,
                        j,
                        self@.removed_signers.len() as int,
                    ),
            decreases count - i,
        {
            if let Some(p) = &self.proposals[i] {
                if !Self::proposal_consistent(p, i, self.removed_signers.len()) {
                    assert(self@.proposals[i as int] == Some(p@));
                    return false;
                }
            }
            i = i + 1;
        }
        if !ids_distinct(&self.active_proposals) {
            return false;
        }
        let n = self.active_proposals.len();
        let mut k: usize = 0;
        while k < n
            invariant
                n == self.active_proposals.len(),
                count == self.proposals.len(),
                0 <= k <= n,
                forall|q: int| 0 <= q < k ==> #[trigger] self.active_proposals@[q] < count,
            decreases n - k,
        {
            if self.active_proposals[k] >= count as u64 {
                return false;
            }
            k = k + 1;
        }
        assert(count <= u64::MAX);
        let recorded = self.removed_signers.len();
        assert(recorded == self@.removed_signers.len());
        true
    }

    /// The proposal with this id (`ProposalNotFound` when there is none).
    pub fn get_proposal(&self, proposal_id: u64) -> (r: Result<Proposal, ParametersError>)
        ensures
            match lookup(self@, proposal_id) {
                Some(p) => r matches Ok(got) && got@ == p,
                None => r is Err && r->Err_0 == ParametersError::ProposalNotFound,
            },
    {
        match self.load_proposal(proposal_id) {
            Some(p) => Ok(p),
            None => Err(ParametersError::ProposalNotFound),
        }
    }
}

} // verus!
