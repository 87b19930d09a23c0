//! What a caller sends to found an organization.

use vstd::prelude::*;

verus! {

/// The request to found an organization of this name.
#[derive(Debug, PartialEq, Eq)]
pub struct CreateOrganizationRequest {
    pub name: String,
}

} // verus!
