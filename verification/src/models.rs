//! The records that the server keeps and the values that cross its boundary.

pub mod organization;
pub mod secret;
pub mod secret_request;
