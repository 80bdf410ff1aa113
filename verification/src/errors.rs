use vstd::prelude::*;

verus! {

/// Why a call on the parameters contract was refused.
#[derive(Clone, Copy, Debug, PartialEq, Eq, Structural)]
pub enum ParametersError {
    AlreadyInitialized,
    NotAdmin,
    InvalidParameters,
    Overflow,
    ReentrancyDetected,
    NotInitialized,
    MultisigNotConfigured,
    MultisigAlreadyConfigured,
    NotSigner,
    InvalidThreshold,
    DuplicateSigner,
    ProposalNotFound,
    ProposalExpired,
    ProposalAlreadyExecuted,
    DuplicateSignature,
    ThresholdNotMet,
    MultisigPendingExists,
    MultisigNotPending,
    ProposalInvalidated,
    StaleApproval,
    ElevatedQuorumNotMet,
    NotEligibleSigner,
}

impl ParametersError {
    /// The contract error number under which the host reports this error.
    pub open spec fn spec_code(self) -> u32 {
        match self {
            ParametersError::AlreadyInitialized => 1,
            ParametersError::NotAdmin => 2,
            ParametersError::InvalidParameters => 3,
            ParametersError::Overflow => 4,
            ParametersError::ReentrancyDetected => 5,
            ParametersError::NotInitialized => 6,
            ParametersError::MultisigNotConfigured => 9,
            ParametersError::MultisigAlreadyConfigured => 8,
            ParametersError::NotSigner => 10,
            ParametersError::InvalidThreshold => 11,
            ParametersError::DuplicateSigner => 12,
            ParametersError::ProposalNotFound => 13,
            ParametersError::ProposalExpired => 14,
            ParametersError::ProposalAlreadyExecuted => 15,
            ParametersError::DuplicateSignature => 16,
            ParametersError::ThresholdNotMet => 17,
            ParametersError::MultisigPendingExists => 18,
            ParametersError::MultisigNotPending => 19,
            ParametersError::ProposalInvalidated => 20,
            ParametersError::StaleApproval => 21,
            ParametersError::ElevatedQuorumNotMet => 22,
            ParametersError::NotEligibleSigner => 23,
        }
    }

    /// The contract error number of this error.
    pub fn code(&self) -> (c: u32)
        ensures
            c == self.spec_code(),
    {
        match self {
            ParametersError::AlreadyInitialized => 1,
            ParametersError::NotAdmin => 2,
            ParametersError::InvalidParameters => 3,
            ParametersError::Overflow => 4,
            ParametersError::ReentrancyDetected => 5,
            ParametersError::NotInitialized => 6,
            ParametersError::MultisigNotConfigured => 9,
            ParametersError::MultisigAlreadyConfigured => 8,
            ParametersError::NotSigner => 10,
            ParametersError::InvalidThreshold => 11,
            ParametersError::DuplicateSigner => 12,
            ParametersError::ProposalNotFound => 13,
            ParametersError::ProposalExpired => 14,
            ParametersError::ProposalAlreadyExecuted => 15,
            ParametersError::DuplicateSignature => 16,
            ParametersError::ThresholdNotMet => 17,
            ParametersError::MultisigPendingExists => 18,
            ParametersError::MultisigNotPending => 19,
            ParametersError::ProposalInvalidated => 20,
            ParametersError::StaleApproval => 21,
            ParametersError::ElevatedQuorumNotMet => 22,
            ParametersError::NotEligibleSigner => 23,
        }
    }
}

} // verus!
