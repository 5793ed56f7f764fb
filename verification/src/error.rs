//! Why an issuance step was refused.
use vstd::prelude::*;
use crate::address::Address;

verus! {

/// The reason for which a step of an issuance is refused. Every error ends the
/// call in which it arises.
#[derive(Clone, Copy, Debug, PartialEq, Eq)]
pub enum IssuanceError {
    /// The slot already stands for an identifier.
    AlreadyBound,
    /// The payer cannot cover the cost of storage.
    InsufficientFunds,
    /// The signer is not the identifier's issuing authority.
    AuthorityMismatch,
    /// The identifier's one unit is already outstanding.
    SupplyExceeded,
    /// The location handed in is not the derived one.
    LocationMismatch,
    /// A record already stands at the derived location.
    AlreadyAttached,
    /// The identifier has no descriptor yet.
    DescriptorMissing,
    /// The identifier named here was never bound.
    IdentifierMissing { identifier: Address },
}

/// The five classes into which the errors fall.
#[derive(Clone, Copy, Debug, PartialEq, Eq)]
pub enum ErrorClass {
    PreconditionViolation,
    AuthorizationFailure,
    ResourceExhaustion,
    InvariantViolation,
    IntegrityCheckFailure,
}

impl IssuanceError {
    /// The class of each error.
    pub open spec fn class_of(self) -> ErrorClass {
        match self {
            IssuanceError::AlreadyBound => ErrorClass::PreconditionViolation,
            IssuanceError::AlreadyAttached => ErrorClass::PreconditionViolation,
            IssuanceError::IdentifierMissing { .. } => ErrorClass::PreconditionViolation,
            IssuanceError::AuthorityMismatch => ErrorClass::AuthorizationFailure,
            IssuanceError::InsufficientFunds => ErrorClass::ResourceExhaustion,
            IssuanceError::SupplyExceeded => ErrorClass::InvariantViolation,
            IssuanceError::DescriptorMissing => ErrorClass::InvariantViolation,
            IssuanceError::LocationMismatch => ErrorClass::IntegrityCheckFailure,
        }
    }

    pub fn class(&self) -> (class: ErrorClass)
        ensures
            class == self.class_of(),
    {
        match self {
            IssuanceError::AlreadyBound => ErrorClass::PreconditionViolation,
            IssuanceError::AlreadyAttached => ErrorClass::PreconditionViolation,
            IssuanceError::IdentifierMissing { .. } => ErrorClass::PreconditionViolation,
            IssuanceError::AuthorityMismatch => ErrorClass::AuthorizationFailure,
            IssuanceError::InsufficientFunds => ErrorClass::ResourceExhaustion,
            IssuanceError::SupplyExceeded => ErrorClass::InvariantViolation,
            IssuanceError::DescriptorMissing => ErrorClass::InvariantViolation,
            IssuanceError::LocationMismatch => ErrorClass::IntegrityCheckFailure,
        }
    }
}

} // verus!
