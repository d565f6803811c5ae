//! The two ways in which an authorization check ends without success.

use cosmwasm_std::StdError;
use vstd::prelude::*;
use vstd::std_specs::convert::FromSpecImpl;

verus! {

/// Why an authorization check did not pass.
#[derive(Debug, PartialEq)]
pub enum RolesError {
    /// The store could not be read. The error is the store's own, unchanged.
    Std(StdError),
    /// The caller holds none of the roles asked for. The label names the
    /// roles that would have sufficed.
    UnauthorizedForRole { label: String },
}

impl From<StdError> for RolesError {
    fn from(err: StdError) -> (wrapped: RolesError) {
        RolesError::Std(err)
    }
}

impl FromSpecImpl<StdError> for RolesError {
    open spec fn obeys_from_spec() -> bool {
        true
    }

    open spec fn from_spec(err: StdError) -> RolesError {
        RolesError::Std(err)
    }
}

} // verus!
