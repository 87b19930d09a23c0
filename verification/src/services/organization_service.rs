//! The address of an organization.

use crate::error::{view_done, AppError, ErrorView};
use crate::models::organization::CreateOrganizationRequest;
use crate::utils::text::lowercase;
use crate::utils::token::{generate_slug, slug_of};
use vstd::prelude::*;

verus! {

/// What the founder of an organization is told where its slug is in use.
pub open spec fn slug_in_use(slug: Seq<char>) -> Seq<char> {
    "Organization with slug '"@ + slug + "' already exists"@
}

/// The operations on organizations.
pub struct OrganizationService;

impl OrganizationService {
    /// The slug under which the organization of `request` is to be found:
    /// that of its name.
    pub fn slug_for(request: &CreateOrganizationRequest) -> (r: String)
        ensures
            r@ == slug_of(lowercase(request.name@)),
    {
        generate_slug(request.name.as_str())
    }

    /// Decides whether an organization may take `slug`, given whether one
    /// is found under it already: a slug that is in use is refused with
    /// `Validation`.
    pub fn claim_slug(slug: &str, in_use: bool) -> (r: Result<(), AppError>)
        ensures
            view_done(r) == if in_use {
                Err::<(), ErrorView>(ErrorView::Validation(slug_in_use(slug@)))
            } else {
                Ok::<(), ErrorView>(())
            },
    {
        if in_use {
            let message = String::from_str("Organization with slug '").concat(slug).concat(
                "' already exists",
            );
            Err(AppError::Validation(message))
        } else {
            Ok(())
        }
    }
}

} // verus!
