//! The rejections a guestbook operation can end in.

use vstd::prelude::*;
use cosmwasm_std::StdError;

verus! {

#[verifier::external_type_specification]
#[verifier::external_body]
pub struct ExStdError(StdError);

/// Why an operation was refused.
#[derive(Debug, PartialEq)]
pub enum ContractError {
    /// A fault of the storage or of the registry, passed on as it came.
    Std(StdError),
    Unauthorized {},
    NotFound {},
    EntryAlreadyExists {},
    CharacterLimitExceeded {},
    InsufficientFunds {},
    RelocationInProgress {},
}

} // verus!
